//! The shape that the grammar gives a parse tree.

use crate::node::{Node, Tree};
use crate::rule::Rule;
use vstd::prelude::*;

verus! {

broadcast use crate::node::group_node_model;

impl Tree {
    /// Whether some part was matched by `rule`.
    pub open spec fn has_part(self, rule: Rule) -> bool {
        exists|i: int| 0 <= i < self.parts.len() && (#[trigger] self.parts[i]).rule == rule
    }

    /// Whether the parts of a floating-point literal are those that the grammar gives it.
    pub open spec fn shaped(self) -> bool {
        match self.rule {
            Rule::FloatingPtLiteral => forall|i: int|
                0 <= i < self.parts.len() ==> {
                    ||| (#[trigger] self.parts[i]).rule == Rule::IntegralPart
                    ||| self.parts[i].rule == Rule::FractionalPart
                    ||| self.parts[i].rule == Rule::Exponent
                    ||| self.parts[i].rule == Rule::FloatSuffix
                },
            _ => true,
        }
    }

    /// Whether the node and everything inside it is [`Tree::shaped`].
    pub open spec fn wf(self) -> bool
        decreases self,
    {
        &&& self.shaped()
        &&& forall|i: int| 0 <= i < self.parts.len() ==> (#[trigger] self.parts[i]).wf()
    }

    /// Whether each case of a union has an element, up to the first case that cannot be read.
    pub open spec fn cases_complete(self) -> bool {
        forall|i: int|
            0 <= i < self.parts.len() && crate::reading::collect(
                self.parts.take(i),
                crate::reading::reads_case(),
            ) is Ok ==> (#[trigger] self.parts[i]).has_part(Rule::ElementSpec)
    }

    /// Whether a union definition has each part that it comes to reading, and a body with
    /// elements where it comes to reading the body.
    pub open spec fn union_complete(self) -> bool {
        &&& self.parts.len() >= 1
        &&& self.parts[0].identifier() is Ok ==> self.parts.len() >= 2
        &&& self.parts[0].identifier() is Ok && self.parts[1].switch_type_spec() is Ok
            ==> self.parts.len() >= 3 && self.parts[2].cases_complete()
    }

    /// Whether a constant declaration has each part that it comes to reading.
    pub open spec fn const_complete(self) -> bool {
        &&& self.parts.len() >= 1
        &&& self.parts[0].type_spec() is Ok ==> self.parts.len() >= 2
        &&& self.parts[0].type_spec() is Ok && self.parts[1].identifier() is Ok
            ==> self.parts.len() >= 3
    }

    /// Whether a `typedef` has each part that it comes to reading.
    pub open spec fn typedef_complete(self) -> bool {
        &&& self.parts.len() >= 1
        &&& self.parts[0].type_spec() is Ok ==> self.parts.len() >= 2
    }

    /// Whether everything that is processed has the parts that processing relies on, as
    /// whatever the grammar matches has.
    pub open spec fn processable(self) -> bool
        decreases self,
    {
        match self.rule {
            Rule::ModuleDcl => {
                &&& self.parts.len() >= 1
                &&& forall|i: int|
                    1 <= i < self.parts.len() ==> (#[trigger] self.parts[i]).processable()
            },
            Rule::StructDef | Rule::EnumDcl => self.parts.len() >= 1,
            Rule::UnionDef => self.union_complete(),
            Rule::TypeDeclarator => self.typedef_complete(),
            Rule::ConstDcl => self.const_complete(),
            Rule::IncludeDirective => true,
            _ => forall|i: int|
                0 <= i < self.parts.len() ==> (#[trigger] self.parts[i]).processable(),
        }
    }
}

/// Whether every tree of a list can be processed.
pub open spec fn forest_processable(trees: Seq<Tree>) -> bool {
    forall|i: int| 0 <= i < trees.len() ==> (#[trigger] trees[i]).processable()
}

/// Whether every tree of a list is well formed.
pub open spec fn forest_wf(trees: Seq<Tree>) -> bool {
    forall|i: int| 0 <= i < trees.len() ==> (#[trigger] trees[i]).wf()
}

impl Node {
    /// Whether some part was matched by `rule`.
    pub fn has_part(&self, rule: Rule) -> (found: bool)
        ensures
            found == self@.has_part(rule),
    {
        let mut i: usize = 0;
        while i < self.parts.len()
            invariant
                i <= self.parts@.len(),
                forall|j: int| 0 <= j < i ==> self.parts@[j].rule != rule,
            decreases self.parts@.len() - i,
        {
            if self.parts[i].rule == rule {
                assert(self@.parts[i as int].rule == rule);
                return true;
            }
            i = i + 1;
        }
        assert forall|j: int| 0 <= j < self@.parts.len() implies (#[trigger] self@.parts[j]).rule != rule by {
            assert(self.parts@[j]@.rule == self.parts@[j].rule);
        }
        false
    }

    /// Decides [`Tree::shaped`].
    pub fn shaped(&self) -> (yes: bool)
        ensures
            yes == self@.shaped(),
    {
        match self.rule {
            Rule::FloatingPtLiteral => {
                let mut i: usize = 0;
                while i < self.parts.len()
                    invariant
                        i <= self.parts@.len(),
                        self@.rule == Rule::FloatingPtLiteral,
                        forall|j: int|
                            0 <= j < i ==> {
                                ||| (#[trigger] self@.parts[j]).rule == Rule::IntegralPart
                                ||| self@.parts[j].rule == Rule::FractionalPart
                                ||| self@.parts[j].rule == Rule::Exponent
                                ||| self@.parts[j].rule == Rule::FloatSuffix
                            },
                    decreases self.parts@.len() - i,
                {
                    assert(self@.parts[i as int].rule == self.parts@[i as int].rule);
                    match self.parts[i].rule {
                        Rule::IntegralPart
                        | Rule::FractionalPart
                        | Rule::Exponent
                        | Rule::FloatSuffix => {},
                        _ => {
                            return false;
                        },
                    }
                    i = i + 1;
                }
                true
            },
            _ => true,
        }
    }

    /// Decides [`Tree::wf`].
    pub fn is_well_formed(&self) -> (yes: bool)
        ensures
            yes == self@.wf(),
        decreases self,
    {
        if !self.shaped() {
            return false;
        }
        let mut i: usize = 0;
        while i < self.parts.len()
            invariant
                i <= self.parts@.len(),
                self@.shaped(),
                forall|j: int| 0 <= j < i ==> (#[trigger] self@.parts[j]).wf(),
            decreases self.parts@.len() - i,
        {
            if !self.parts[i].is_well_formed() {
                assert(!self@.parts[i as int].wf());
                return false;
            }
            i = i + 1;
        }
        true
    }
}

impl Clone for Node {
    fn clone(&self) -> (copy: Self)
        ensures
            copy@ == self@,
        decreases self,
    {
        let mut parts: Vec<Node> = Vec::new();
        while parts.len() < self.parts.len()
            invariant
                parts@.len() <= self.parts@.len(),
                forall|i: int| 0 <= i < parts@.len() ==> parts@[i]@ == self.parts@[i]@,
            decreases self.parts@.len() - parts@.len(),
        {
            parts.push(self.parts[parts.len()].clone());
        }
        let copy = Node { rule: self.rule, text: self.text.clone(), start: self.start, parts };
        assert(copy@.parts =~= self@.parts);
        copy
    }
}

/// Copies a list of nodes.
pub fn clone_nodes(nodes: &Vec<Node>) -> (copy: Vec<Node>)
    ensures
        crate::node::forest_model(copy@) == crate::node::forest_model(nodes@),
{
    let mut copy: Vec<Node> = Vec::new();
    while copy.len() < nodes.len()
        invariant
            copy@.len() <= nodes@.len(),
            forall|i: int| 0 <= i < copy@.len() ==> copy@[i]@ == nodes@[i]@,
        decreases nodes@.len() - copy@.len(),
    {
        copy.push(nodes[copy.len()].clone());
    }
    assert(crate::node::forest_model(copy@) =~= crate::node::forest_model(nodes@));
    copy
}

}
