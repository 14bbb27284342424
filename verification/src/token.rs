//! The flat form in which the parser reports a parse tree.

use crate::node::{Node, Tree};
use crate::rule::Rule;
use vstd::prelude::*;

verus! {

broadcast use crate::node::group_node_model;

/// One rule match of the token stream: the grammar's name for the rule, the text it
/// matched, the byte offset of that text, and the number of matches directly inside.
///
/// A match precedes the matches inside it, and those precede its next sibling.
#[derive(Debug)]
pub struct Token {
    pub rule: String,
    pub text: String,
    pub start: usize,
    pub parts: usize,
}

/// The model of a [`Token`].
#[verifier::ext_equal]
pub struct Entry {
    pub rule: Seq<char>,
    pub text: Seq<char>,
    pub start: nat,
    pub parts: nat,
}

/// What an [`Entry`] says of the node it describes.
#[verifier::ext_equal]
pub struct Mark {
    pub rule: Rule,
    pub text: Seq<char>,
    pub start: nat,
    pub parts: nat,
}

impl View for Token {
    type V = Entry;

    open spec fn view(&self) -> Entry {
        Entry {
            rule: self.rule@,
            text: self.text@,
            start: self.start as nat,
            parts: self.parts as nat,
        }
    }
}

impl Entry {
    /// The node that the entry describes, given the trees inside it.
    pub open spec fn tree(self, parts: Seq<Tree>) -> Tree {
        Tree { rule: Rule::named(self.rule), text: self.text, start: self.start, parts }
    }

    pub open spec fn mark(self) -> Mark {
        Mark {
            rule: Rule::named(self.rule),
            text: self.text,
            start: self.start,
            parts: self.parts,
        }
    }
}

impl Tree {
    pub open spec fn mark(self) -> Mark {
        Mark { rule: self.rule, text: self.text, start: self.start, parts: self.parts.len() }
    }
}

/// The models of a list of tokens.
pub open spec fn entries(tokens: Seq<Token>) -> Seq<Entry> {
    Seq::new(tokens.len(), |i: int| tokens[i]@)
}

/// What a list of entries says, entry by entry.
pub open spec fn marks(entries: Seq<Entry>) -> Seq<Mark> {
    Seq::new(entries.len(), |i: int| entries[i].mark())
}

/// The trees that a token stream describes: the first entry takes as many of the trees
/// that follow it as it has parts. `None` if the stream ends before an entry's parts do.
pub open spec fn forest(entries: Seq<Entry>) -> Option<Seq<Tree>>
    decreases entries.len(),
{
    if entries.len() == 0 {
        Some(Seq::empty())
    } else {
        let first = entries[0];
        match forest(entries.drop_first()) {
            Some(trees) if first.parts <= trees.len() => Some(
                seq![first.tree(trees.take(first.parts as int))] + trees.skip(first.parts as int),
            ),
            _ => None,
        }
    }
}

/// The nodes of a list of trees, each before the nodes inside it.
pub open spec fn preorder(trees: Seq<Tree>) -> Seq<Mark>
    decreases trees,
{
    if trees.len() == 0 {
        Seq::empty()
    } else {
        seq![trees[0].mark()] + preorder(trees[0].parts) + preorder(trees.subrange(
            1,
            trees.len() as int,
        ))
    }
}

/// Takes the `count` nodes that were put on the stack last, the last one first.
fn take_parts(stack: &mut Vec<Node>, count: usize) -> (parts: Vec<Node>)
    requires
        count <= old(stack)@.len(),
    ensures
        crate::node::forest_model(parts@) == crate::node::forest_model(old(stack)@).reverse().take(
            count as int,
        ),
        crate::node::forest_model(final(stack)@).reverse() == crate::node::forest_model(
            old(stack)@,
        ).reverse().skip(count as int),
{
    let mut parts: Vec<Node> = Vec::new();
    let ghost trees = crate::node::forest_model(stack@).reverse();
    while parts.len() < count
        invariant
            parts@.len() <= count,
            parts@.len() + stack@.len() == trees.len(),
            count <= trees.len(),
            crate::node::forest_model(parts@) == trees.take(parts@.len() as int),
            crate::node::forest_model(stack@).reverse() == trees.skip(parts@.len() as int),
        decreases count - parts@.len(),
    {
        let ghost before = stack@;
        let ghost done = parts@;
        match stack.pop() {
            Some(node) => {
                proof {
                    let n = done.len() as int;
                    assert(crate::node::forest_model(before).reverse()[0] == node@);
                    assert(trees[n] == node@);
                    assert(crate::node::forest_model(done.push(node)) =~= trees.take(n + 1));
                    assert forall|i: int| 0 <= i < before.len() - 1 implies
                        #[trigger] crate::node::forest_model(stack@).reverse()[i]
                            == trees.skip(n + 1)[i] by {
                        assert(crate::node::forest_model(before).reverse()[i + 1] == trees.skip(n)[i + 1]);
                    }
                    assert(crate::node::forest_model(stack@).reverse() =~= trees.skip(n + 1));
                }
                parts.push(node);
            },
            None => {
                return parts;
            },
        }
    }
    parts
}

/// Builds the trees that a token stream describes, if it describes any.
pub fn build_forest(tokens: Vec<Token>) -> (trees: Option<Vec<Node>>)
    ensures
        match trees {
            Some(nodes) => forest(entries(tokens@)) == Some(crate::node::forest_model(nodes@)),
            None => forest(entries(tokens@)) is None,
        },
{
    let ghost all = entries(tokens@);
    let mut rest = tokens;
    let mut stack: Vec<Node> = Vec::new();
    proof {
        assert(all.skip(all.len() as int) =~= Seq::<Entry>::empty());
        assert(crate::node::forest_model(stack@).reverse() =~= Seq::<Tree>::empty());
    }
    loop
        invariant
            all == entries(tokens@),
            rest@.len() <= all.len(),
            entries(rest@) == all.take(rest@.len() as int),
            forest(all.skip(rest@.len() as int)) == Some(
                crate::node::forest_model(stack@).reverse(),
            ),
        ensures
            rest@.len() == 0,
        decreases rest@.len(),
    {
        let ghost before = rest@;
        match rest.pop() {
            Some(token) => {
                let ghost n = before.len() as int;
                let ghost trees = crate::node::forest_model(stack@).reverse();
                proof {
                    assert(all[n - 1] == entries(before)[n - 1]);
                    assert(all.skip(n - 1).drop_first() =~= all.skip(n));
                    assert(entries(rest@) =~= all.take(n - 1));
                }
                if token.parts > stack.len() {
                    proof {
                        assert(forest(all.skip(n - 1)) is None);
                        lemma_forest_fails(all, n - 1);
                    }
                    return None;
                }
                let rule = Rule::from_name(token.rule.as_str());
                let parts = take_parts(&mut stack, token.parts);
                let ghost tail = stack@;
                let node = Node { rule, text: token.text, start: token.start, parts };
                stack.push(node);
                proof {
                    assert(crate::node::forest_model(stack@).reverse()
                        =~= seq![node@] + crate::node::forest_model(tail).reverse());
                    assert(node@ == all[n - 1].tree(trees.take(token.parts as int)));
                }
            },
            None => {
                break;
            },
        }
    }
    assert(all.skip(0) =~= all);
    let count = stack.len();
    let nodes = take_parts(&mut stack, count);
    proof {
        let trees = crate::node::forest_model(nodes@);
        assert(trees =~= forest(all)->0);
    }
    Some(nodes)
}

/// If the end of a stream describes no trees, neither does the stream.
proof fn lemma_forest_fails(entries: Seq<Entry>, from: int)
    requires
        0 <= from <= entries.len(),
        forest(entries.skip(from)) is None,
    ensures
        forest(entries) is None,
    decreases from,
{
    if from == 0 {
        assert(entries.skip(0) =~= entries);
    } else {
        assert(entries.skip(from - 1).drop_first() =~= entries.skip(from));
        lemma_forest_fails(entries, from - 1);
    }
}

/// The nodes of the trees that a stream describes are the entries of the stream, in order.
pub proof fn lemma_forest_preorder(entries: Seq<Entry>)
    ensures
        forest(entries) matches Some(trees) ==> preorder(trees) == marks(entries),
    decreases entries.len(),
{
    if entries.len() == 0 {
        assert(marks(entries) =~= Seq::<Mark>::empty());
    } else {
        lemma_forest_preorder(entries.drop_first());
        if let Some(trees) = forest(entries.drop_first()) {
            let n = entries[0].parts as int;
            if n <= trees.len() {
                let first = entries[0].tree(trees.take(n));
                let all = seq![first] + trees.skip(n);
                assert(all.subrange(1, all.len() as int) =~= trees.skip(n));
                lemma_preorder_append(trees.take(n), trees.skip(n));
                assert(trees.take(n) + trees.skip(n) =~= trees);
                assert(first.mark() == entries[0].mark());
                assert(marks(entries) =~= seq![entries[0].mark()] + marks(entries.drop_first()));
                assert(preorder(all) =~= marks(entries));
            }
        }
    }
}

/// The nodes of two lists of trees are those of the first, then those of the second.
proof fn lemma_preorder_append(front: Seq<Tree>, back: Seq<Tree>)
    ensures
        preorder(front + back) == preorder(front) + preorder(back),
    decreases front.len(),
{
    let all = front + back;
    if front.len() == 0 {
        assert(all =~= back);
        assert(preorder(front) + preorder(back) =~= preorder(back));
    } else {
        let rest = front.subrange(1, front.len() as int);
        lemma_preorder_append(rest, back);
        assert(all.subrange(1, all.len() as int) =~= rest + back);
        assert(preorder(all) =~= preorder(front) + preorder(back));
    }
}

/// A stream that lists the nodes of some trees describes exactly those trees.
pub proof fn lemma_preorder_forest(trees: Seq<Tree>, entries: Seq<Entry>)
    requires
        marks(entries) == preorder(trees),
    ensures
        forest(entries) == Some(trees),
{
    lemma_preorder_then(trees, entries, Seq::empty());
    assert(entries + Seq::<Entry>::empty() =~= entries);
    assert(trees + Seq::<Tree>::empty() =~= trees);
}

/// If a stream lists the nodes of some trees and then goes on, it describes those trees
/// and then those of the rest.
proof fn lemma_preorder_then(trees: Seq<Tree>, front: Seq<Entry>, back: Seq<Entry>)
    requires
        marks(front) == preorder(trees),
        forest(back) is Some,
    ensures
        forest(front + back) == Some(trees + forest(back)->0),
    decreases trees,
{
    let all = front + back;
    assert(marks(front).len() == front.len());
    if trees.len() == 0 {
        assert(all =~= back);
        assert(trees + forest(back)->0 =~= forest(back)->0);
    } else {
        let inner = preorder(trees[0].parts);
        let rest = trees.subrange(1, trees.len() as int);
        let n = 1 + inner.len() as int;
        let inside = front.subrange(1, n);
        let after = front.subrange(n, front.len() as int);
        let listed = seq![trees[0].mark()] + inner + preorder(rest);
        assert(marks(front) == listed);
        assert forall|i: int| 0 <= i < inner.len() implies marks(inside)[i] == inner[i] by {
            assert(marks(front)[i + 1] == listed[i + 1]);
        }
        assert(marks(inside) =~= inner);
        assert forall|i: int| 0 <= i < preorder(rest).len() implies marks(after)[i] == preorder(
            rest,
        )[i] by {
            assert(marks(front)[n + i] == listed[n + i]);
        }
        assert(marks(after) =~= preorder(rest));
        lemma_preorder_then(rest, after, back);
        lemma_preorder_then(trees[0].parts, inside, after + back);
        assert(all.drop_first() =~= inside + (after + back));
        assert(marks(front)[0] == trees[0].mark());
        let later = forest(after + back)->0;
        let found = trees[0].parts + later;
        let k = front[0].parts as int;
        assert(k == trees[0].parts.len());
        assert(found.take(k) =~= trees[0].parts);
        assert(found.skip(k) =~= later);
        assert(all[0].tree(trees[0].parts) == trees[0]);
        assert(seq![trees[0]] + later =~= trees + forest(back)->0);
    }
}

}
