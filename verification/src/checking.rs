//! Deciding whether parse trees can be processed.

use crate::context::Context;
use crate::node::Node;
use crate::rule::Rule;
use vstd::prelude::*;

verus! {

broadcast use crate::node::group_node_model;

impl<'i> Context<'i> {
    /// Decides [`crate::node::Tree::cases_complete`].
    fn has_complete_cases(&self, body: &Node) -> (yes: bool)
        requires
            body@.wf(),
        ensures
            yes == body@.cases_complete(),
    {
        let ghost read = crate::reading::reads_case();
        let ghost trees = body@.parts;
        let mut i: usize = 0;
        while i < body.parts.len()
            invariant
                i <= body.parts@.len(),
                body@.wf(),
                trees == body@.parts,
                read == crate::reading::reads_case(),
                crate::reading::collect(trees.take(i as int), read) is Ok,
                forall|j: int|
                    0 <= j < i ==> (#[trigger] trees[j]).has_part(Rule::ElementSpec),
            decreases body.parts@.len() - i,
        {
            proof {
                assert(trees[i as int] == body.parts@[i as int]@);
                crate::reading::lemma_collect_step(trees, i as int, read);
            }
            if !body.parts[i].has_part(Rule::ElementSpec) {
                return false;
            }
            if self.read_switch_case(&body.parts[i]).is_err() {
                proof {
                    assert forall|j: int|
                        0 <= j < trees.len() && crate::reading::collect(
                            trees.take(j),
                            read,
                        ) is Ok implies (#[trigger] trees[j]).has_part(Rule::ElementSpec) by {
                        if j > i {
                            let shorter = trees.take(j);
                            assert(shorter.take(i + 1) =~= trees.take(i + 1));
                            crate::reading::lemma_collect_fails(shorter, i + 1, read);
                        }
                    }
                }
                return true;
            }
            i = i + 1;
        }
        true
    }

    /// Decides [`crate::node::Tree::union_complete`].
    fn is_complete_union(&self, pair: &Node) -> (yes: bool)
        requires
            pair@.wf(),
        ensures
            yes == pair@.union_complete(),
    {
        let count = pair.parts.len();
        assert(forall|i: int| 0 <= i < count ==> pair@.parts[i] == #[trigger] pair.parts@[i]@);
        if count == 0 {
            return false;
        }
        if self.read_identifier(&pair.parts[0]).is_err() {
            return true;
        }
        if count == 1 {
            return false;
        }
        if self.read_switch_type_spec(&pair.parts[1]).is_err() {
            return true;
        }
        count >= 3 && self.has_complete_cases(&pair.parts[2])
    }

    /// Decides [`crate::node::Tree::const_complete`].
    fn is_complete_const(&self, pair: &Node) -> (yes: bool)
        requires
            pair@.wf(),
        ensures
            yes == pair@.const_complete(),
    {
        let count = pair.parts.len();
        assert(forall|i: int| 0 <= i < count ==> pair@.parts[i] == #[trigger] pair.parts@[i]@);
        if count == 0 {
            return false;
        }
        if self.read_type_spec(&pair.parts[0]).is_err() {
            return true;
        }
        if count == 1 {
            return false;
        }
        if self.read_identifier(&pair.parts[1]).is_err() {
            return true;
        }
        count >= 3
    }

    /// Decides [`crate::node::Tree::typedef_complete`].
    fn is_complete_typedef(&self, pair: &Node) -> (yes: bool)
        requires
            pair@.wf(),
        ensures
            yes == pair@.typedef_complete(),
    {
        let count = pair.parts.len();
        assert(forall|i: int| 0 <= i < count ==> pair@.parts[i] == #[trigger] pair.parts@[i]@);
        if count == 0 {
            return false;
        }
        if self.read_type_spec(&pair.parts[0]).is_err() {
            return true;
        }
        count >= 2
    }

    /// Decides [`crate::node::Tree::processable`].
    pub fn can_process(&self, pair: &Node) -> (yes: bool)
        requires
            pair@.wf(),
        ensures
            yes == pair@.processable(),
        decreases pair, 1nat,
    {
        match pair.rule {
            Rule::ModuleDcl => {
                if pair.parts.len() == 0 {
                    return false;
                }
                self.can_process_parts(pair, 1)
            },
            Rule::StructDef | Rule::EnumDcl => pair.parts.len() >= 1,
            Rule::UnionDef => self.is_complete_union(pair),
            Rule::TypeDeclarator => self.is_complete_typedef(pair),
            Rule::ConstDcl => self.is_complete_const(pair),
            Rule::IncludeDirective => true,
            _ => self.can_process_parts(pair, 0),
        }
    }

    /// Decides whether the parts of a node from `from` on can be processed.
    fn can_process_parts(&self, pair: &Node, from: usize) -> (yes: bool)
        requires
            pair@.wf(),
        ensures
            yes == (forall|i: int|
                from <= i < pair@.parts.len() ==> (#[trigger] pair@.parts[i]).processable()),
        decreases pair, 0nat,
    {
        let mut i: usize = from;
        while i < pair.parts.len()
            invariant
                from <= i,
                pair@.wf(),
                forall|j: int| from <= j < i ==> (#[trigger] pair@.parts[j]).processable(),
            decreases pair.parts@.len() - i,
        {
            assert(pair@.parts[i as int] == pair.parts@[i as int]@);
            if !self.can_process(&pair.parts[i]) {
                return false;
            }
            i = i + 1;
        }
        true
    }
}

}
