//! The parse tree of an IDL file.

use crate::rule::Rule;
use vstd::prelude::*;

verus! {

/// One rule match: the rule, the text it matched, the byte offset at which that
/// text starts, and the matches inside it.
#[derive(Debug)]
pub struct Node {
    pub rule: Rule,
    pub text: String,
    pub start: usize,
    pub parts: Vec<Node>,
}

/// The model of a [`Node`].
#[verifier::ext_equal]
pub struct Tree {
    pub rule: Rule,
    pub text: Seq<char>,
    pub start: nat,
    pub parts: Seq<Tree>,
}

impl View for Node {
    type V = Tree;

    open spec fn view(&self) -> Tree
        decreases self,
    {
        Tree {
            rule: self.rule,
            text: self.text@,
            start: self.start as nat,
            parts: forest_model(self.parts@),
        }
    }
}

/// The models of a list of nodes.
pub open spec fn forest_model(nodes: Seq<Node>) -> Seq<Tree>
    decreases nodes,
{
    Seq::new(
        nodes.len(),
        |i: int| if 0 <= i < nodes.len() { nodes[i].view() } else { arbitrary() },
    )
}

/// The model of a list holds the models of its elements.
pub broadcast proof fn lemma_forest_model(nodes: Seq<Node>)
    ensures
        #![trigger forest_model(nodes)]
        forest_model(nodes).len() == nodes.len(),
        forall|i: int| 0 <= i < nodes.len() ==> #[trigger] forest_model(nodes)[i] == nodes[i]@,
{
}

/// The parts of a node's model are the models of its parts.
pub broadcast proof fn lemma_parts(node: &Node)
    ensures
        #[trigger] node@.parts == forest_model(node.parts@),
        node@.rule == node.rule,
        node@.text == node.text@,
        node@.start == node.start as nat,
{
}

/// What proofs about nodes use of their models.
pub broadcast group group_node_model {
    lemma_forest_model,
    lemma_parts,
}

}
