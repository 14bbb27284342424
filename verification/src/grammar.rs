//! Parsing IDL text with the OMG IDL grammar.

use crate::error::{IdlError, IdlFault, ParserError, ParserFault};
use crate::node::{Node, Tree};
use crate::token::{build_forest, Entry, Token};
use omg_idl_grammar::IdlParser;
use pest::error::InputLocation;
use pest::Parser;
use vstd::prelude::*;

verus! {

broadcast use crate::node::group_node_model;

/// What the OMG IDL grammar's `specification` rule makes of a text: the token stream of
/// the parse tree, or the first place where the text is not IDL and what was expected there.
pub uninterp spec fn idl_tokens(text: Seq<char>) -> Result<Seq<Entry>, ParserFault>;

/// The model of a token stream, or of the error that came in its place.
pub open spec fn token_outcome(r: Result<Vec<Token>, ParserError>) -> Result<
    Seq<Entry>,
    ParserFault,
> {
    match r {
        Ok(tokens) => Ok(crate::token::entries(tokens@)),
        Err(error) => Err(error@),
    }
}

/// Whether a token stream describes trees with all the parts that the grammar gives them.
pub open spec fn grammatical(entries: Seq<Entry>) -> bool {
    crate::token::forest(entries) matches Some(trees) && crate::tree::forest_wf(trees)
        && crate::tree::forest_processable(trees)
}

/// Calls `omg_idl_grammar::IdlParser::parse` with the rule `specification`, and lists the
/// resulting `pest` pairs with `Pairs::flatten`: of each its rule's name, its text, where
/// the text starts, and how many pairs are directly inside.
///
/// Believed of it: on the same text it gives the same tokens, or the same error. That holds
/// while the process leaves the call limit of `pest` unset, as it is by default. The tokens
/// describe trees, and the trees have the parts that the grammar puts into them: a constant
/// its type, name and value, each case of a union its element, and so on.
#[verifier::external_body]
fn tokenize(text: &str) -> (tokens: Result<Vec<Token>, ParserError>)
    ensures
        token_outcome(tokens) == idl_tokens(text@),
        tokens matches Ok(list) ==> grammatical(crate::token::entries(list@)),
{
    match IdlParser::parse(omg_idl_grammar::Rule::specification, text) {
        Ok(pairs) => Ok(pairs.flatten().map(|pair| Token {
            rule: format!("{:?}", pair.as_rule()),
            text: pair.as_str().to_owned(),
            start: pair.as_span().start(),
            parts: pair.into_inner().len(),
        }).collect()),
        Err(error) => Err(ParserError {
            message: error.variant.message().into_owned(),
            pos: match error.location {
                InputLocation::Pos(pos) => pos,
                InputLocation::Span((pos, _)) => pos,
            },
        }),
    }
}

/// The parse trees that a token stream amounts to: those it describes, where the grammar
/// can have produced them.
pub open spec fn accepted(tokens: Result<Seq<Entry>, ParserFault>) -> Result<Seq<Tree>, IdlFault> {
    match tokens {
        Err(fault) => Err(IdlFault::ParserError(fault)),
        Ok(entries) => match crate::token::forest(entries) {
            Some(trees) if crate::tree::forest_wf(trees) => Ok(trees),
            _ => Err(IdlFault::MalformedTree),
        },
    }
}

/// The model of a list of parse trees, or of the error that came in its place.
pub open spec fn forest_outcome(r: Result<Vec<Node>, IdlError>) -> Result<Seq<Tree>, IdlFault> {
    match r {
        Ok(nodes) => Ok(crate::node::forest_model(nodes@)),
        Err(error) => Err(error@),
    }
}

/// Turns a token stream into parse trees.
pub fn parse_tokens(tokens: Result<Vec<Token>, ParserError>) -> (trees: Result<
    Vec<Node>,
    IdlError,
>)
    ensures
        forest_outcome(trees) == accepted(token_outcome(tokens)),
{
    let stream = match tokens {
        Ok(stream) => stream,
        Err(error) => {
            return Err(IdlError::ParserError(error));
        },
    };
    let nodes = match build_forest(stream) {
        Some(nodes) => nodes,
        None => {
            return Err(IdlError::MalformedTree);
        },
    };
    let mut i: usize = 0;
    while i < nodes.len()
        invariant
            i <= nodes@.len(),
            token_outcome(tokens) matches Ok(entries) && crate::token::forest(entries) == Some(
                crate::node::forest_model(nodes@),
            ),
            forall|j: int| 0 <= j < i ==> (#[trigger] nodes@[j])@.wf(),
        decreases nodes@.len() - i,
    {
        if !nodes[i].is_well_formed() {
            assert(!crate::node::forest_model(nodes@)[i as int].wf());
            return Err(IdlError::MalformedTree);
        }
        i = i + 1;
    }
    Ok(nodes)
}

/// Parses IDL text.
pub fn parse_idl(text: &str) -> (trees: Result<Vec<Node>, IdlError>)
    ensures
        forest_outcome(trees) == accepted(idl_tokens(text@)),
        match trees {
            Ok(nodes) => crate::tree::forest_wf(crate::node::forest_model(nodes@))
                && crate::tree::forest_processable(crate::node::forest_model(nodes@)),
            Err(error) => error is ParserError,
        },
{
    parse_tokens(tokenize(text))
}

}
