//! Which parse trees come of a token stream, and which of them can be processed.

use crate::node::Tree;
use crate::rule::Rule;
use crate::token::{Entry, Mark};
use vstd::prelude::*;

verus! {

/// A mark says everything of a node but what is inside it.
pub proof fn lemma_marks(entry: Entry, tree: Tree)
    ensures
        entry.mark().rule == Rule::named(entry.rule),
        entry.mark().text == entry.text,
        entry.mark().start == entry.start,
        entry.mark().parts == entry.parts,
        tree.mark().rule == tree.rule,
        tree.mark().text == tree.text,
        tree.mark().start == tree.start,
        tree.mark().parts == tree.parts.len(),
{
}

/// The nodes of some trees are listed one tree after the other, each node before those inside it.
pub proof fn lemma_nodes_in_order(tree: Tree, front: Seq<Tree>, back: Seq<Tree>)
    ensures
        crate::token::preorder(Seq::empty()) == Seq::<Mark>::empty(),
        crate::token::preorder(seq![tree]) == seq![tree.mark()] + crate::token::preorder(
            tree.parts,
        ),
        crate::token::preorder(front + back) == crate::token::preorder(front)
            + crate::token::preorder(back),
    decreases front.len(),
{
    reveal_with_fuel(crate::token::preorder, 2);
    let alone = seq![tree];
    assert(alone.subrange(1, 1) =~= Seq::empty());
    assert(crate::token::preorder(alone) =~= seq![tree.mark()] + crate::token::preorder(
        tree.parts,
    ));
    let all = front + back;
    if front.len() == 0 {
        assert(all =~= back);
        assert(crate::token::preorder(front) + crate::token::preorder(back)
            =~= crate::token::preorder(back));
    } else {
        let rest = front.subrange(1, front.len() as int);
        lemma_nodes_in_order(tree, rest, back);
        assert(all.subrange(1, all.len() as int) =~= rest + back);
        assert(all[0] == front[0]);
        assert(crate::token::preorder(all) =~= crate::token::preorder(front)
            + crate::token::preorder(back));
    }
}

/// A tree is well formed exactly if no floating-point literal in it has a part that is none of
/// the four that such a literal can have.
pub proof fn lemma_well_formed(tree: Tree)
    ensures
        tree.wf() <==> {
            &&& tree.rule == Rule::FloatingPtLiteral ==> forall|i: int|
                0 <= i < tree.parts.len() ==> ((#[trigger] tree.parts[i]).rule
                    == Rule::IntegralPart || tree.parts[i].rule == Rule::FractionalPart
                    || tree.parts[i].rule == Rule::Exponent || tree.parts[i].rule
                    == Rule::FloatSuffix)
            &&& forall|i: int| 0 <= i < tree.parts.len() ==> (#[trigger] tree.parts[i]).wf()
        },
{
}

/// Whether an element stands in a union case.
pub open spec fn has_element(case: Tree) -> bool {
    exists|j: int| 0 <= j < case.parts.len() && (#[trigger] case.parts[j]).rule
        == Rule::ElementSpec
}

impl Tree {
    /// Whether every declaration in a tree has all the parts that it can have.
    pub open spec fn complete(self) -> bool
        decreases self,
    {
        &&& match self.rule {
            Rule::ModuleDcl | Rule::StructDef | Rule::EnumDcl => self.parts.len() >= 1,
            Rule::TypeDeclarator => self.parts.len() >= 2,
            Rule::ConstDcl => self.parts.len() >= 3,
            Rule::UnionDef => self.parts.len() >= 3 && forall|i: int|
                0 <= i < self.parts[2].parts.len() ==> has_element(
                    #[trigger] self.parts[2].parts[i],
                ),
            _ => true,
        }
        &&& forall|i: int| 0 <= i < self.parts.len() ==> (#[trigger] self.parts[i]).complete()
    }
}

/// A tree in which every declaration is complete can be processed.
pub proof fn lemma_complete_is_processable(tree: Tree)
    requires
        tree.complete(),
    ensures
        tree.processable(),
    decreases tree,
{
    assert forall|i: int| 0 <= i < tree.parts.len() implies (
    #[trigger] tree.parts[i]).processable() by {
        lemma_complete_is_processable(tree.parts[i]);
    }
    if tree.rule == Rule::UnionDef {
        let body = tree.parts[2];
        assert forall|i: int| 0 <= i < body.parts.len() implies (
        #[trigger] body.parts[i]).has_part(Rule::ElementSpec) by {
            assert(has_element(tree.parts[2].parts[i]));
        }
    }
}

/// What can be processed has the parts that are read: a declaration its first part, and each part
/// further on that is come to because those in front of it can be read.
pub proof fn lemma_processable_has_parts(tree: Tree)
    requires
        tree.processable(),
    ensures
        match tree.rule {
            Rule::ModuleDcl => tree.parts.len() >= 1 && forall|i: int|
                1 <= i < tree.parts.len() ==> (#[trigger] tree.parts[i]).processable(),
            Rule::StructDef | Rule::EnumDcl => tree.parts.len() >= 1,
            Rule::TypeDeclarator => tree.parts.len() >= 1 && (tree.parts[0].type_spec() is Ok
                ==> tree.parts.len() >= 2),
            Rule::ConstDcl => tree.parts.len() >= 1 && (tree.parts[0].type_spec() is Ok
                ==> tree.parts.len() >= 2) && (tree.parts[0].type_spec() is Ok
                && tree.parts[1].identifier() is Ok ==> tree.parts.len() >= 3),
            Rule::UnionDef => tree.parts.len() >= 1 && (tree.parts[0].identifier() is Ok
                ==> tree.parts.len() >= 2) && (tree.parts[0].identifier() is Ok
                && tree.parts[1].switch_type_spec() is Ok ==> tree.parts.len() >= 3),
            Rule::IncludeDirective => true,
            _ => forall|i: int|
                0 <= i < tree.parts.len() ==> (#[trigger] tree.parts[i]).processable(),
        },
{
}

}
