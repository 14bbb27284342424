//! Templates, and filling in their fields.

use crate::text::joined;
use minijinja::Environment;
use std::collections::BTreeMap;
use vstd::prelude::*;

verus! {

/// Declares `minijinja::Error`. Nothing is said of its contents.
#[verifier::external_type_specification]
#[verifier::external_body]
pub struct ExRenderError(minijinja::Error);

/// A piece of a template: text as it stands, or a field that is filled in.
#[derive(Clone, Copy)]
pub enum Piece {
    Text(&'static str),
    Field(&'static str),
}

/// The templates.
#[derive(Clone, Copy)]
pub enum Template {
    /// A module around its contents. What the enclosing modules declare is in scope, as it is
    /// in IDL.
    Module,
    /// Another name for a type.
    Typedef,
    /// A struct around its members.
    Struct,
    /// A member of a struct.
    Member,
    /// A union around its cases.
    Union,
    /// A case of a union.
    Case,
    /// An enum around its enumerators.
    Enum,
    /// An enumerator.
    Enumerator,
    /// A constant.
    Const,
}

impl Template {
    /// What a template is made of.
    pub open spec fn pieces(self) -> Seq<Piece> {
        match self {
            Template::Module => seq![
                Piece::Field("indent"),
                Piece::Text("pub mod "),
                Piece::Field("id"),
                Piece::Text(" {\n"),
                Piece::Field("indent"),
                Piece::Text("    #[allow(unused_imports)]\n"),
                Piece::Field("indent"),
                Piece::Text("    use super::*;\n"),
                Piece::Field("body"),
                Piece::Field("indent"),
                Piece::Text("}"),
            ],
            Template::Typedef => seq![
                Piece::Field("indent"),
                Piece::Text("pub type "),
                Piece::Field("id"),
                Piece::Text(" = "),
                Piece::Field("type_spec"),
                Piece::Text(";"),
            ],
            Template::Struct => seq![
                Piece::Field("indent"),
                Piece::Text("#[derive(Clone, Debug)]\n"),
                Piece::Field("indent"),
                Piece::Text("pub struct "),
                Piece::Field("id"),
                Piece::Text(" {\n"),
                Piece::Field("body"),
                Piece::Field("indent"),
                Piece::Text("}"),
            ],
            Template::Member => seq![
                Piece::Field("indent"),
                Piece::Text("    pub "),
                Piece::Field("id"),
                Piece::Text(": "),
                Piece::Field("type_spec"),
                Piece::Text(","),
            ],
            Template::Union => seq![
                Piece::Field("indent"),
                Piece::Text("/// switch ("),
                Piece::Field("type_spec"),
                Piece::Text(")\n"),
                Piece::Field("indent"),
                Piece::Text("#[derive(Clone, Debug)]\n"),
                Piece::Field("indent"),
                Piece::Text("pub enum "),
                Piece::Field("id"),
                Piece::Text(" {\n"),
                Piece::Field("body"),
                Piece::Field("indent"),
                Piece::Text("}"),
            ],
            Template::Case => seq![
                Piece::Field("indent"),
                Piece::Text("    /// "),
                Piece::Field("body"),
                Piece::Text("\n"),
                Piece::Field("indent"),
                Piece::Text("    "),
                Piece::Field("id"),
                Piece::Text("("),
                Piece::Field("type_spec"),
                Piece::Text("),"),
            ],
            Template::Enum => seq![
                Piece::Field("indent"),
                Piece::Text("#[derive(Clone, Copy, Debug, PartialEq, Eq)]\n"),
                Piece::Field("indent"),
                Piece::Text("pub enum "),
                Piece::Field("id"),
                Piece::Text(" {\n"),
                Piece::Field("body"),
                Piece::Field("indent"),
                Piece::Text("}"),
            ],
            Template::Enumerator => seq![
                Piece::Field("indent"),
                Piece::Text("    "),
                Piece::Field("id"),
                Piece::Text(","),
            ],
            Template::Const => seq![
                Piece::Field("indent"),
                Piece::Text("pub const "),
                Piece::Field("id"),
                Piece::Text(": "),
                Piece::Field("type_spec"),
                Piece::Text(" = "),
                Piece::Field("body"),
                Piece::Text(";"),
            ],
        }
    }

    /// Gives what a template is made of.
    pub fn to_pieces(self) -> (pieces: Vec<Piece>)
        ensures
            pieces@ == self.pieces(),
    {
        match self {
            Template::Module => vec![
                Piece::Field("indent"),
                Piece::Text("pub mod "),
                Piece::Field("id"),
                Piece::Text(" {\n"),
                Piece::Field("indent"),
                Piece::Text("    #[allow(unused_imports)]\n"),
                Piece::Field("indent"),
                Piece::Text("    use super::*;\n"),
                Piece::Field("body"),
                Piece::Field("indent"),
                Piece::Text("}"),
            ],
            Template::Typedef => vec![
                Piece::Field("indent"),
                Piece::Text("pub type "),
                Piece::Field("id"),
                Piece::Text(" = "),
                Piece::Field("type_spec"),
                Piece::Text(";"),
            ],
            Template::Struct => vec![
                Piece::Field("indent"),
                Piece::Text("#[derive(Clone, Debug)]\n"),
                Piece::Field("indent"),
                Piece::Text("pub struct "),
                Piece::Field("id"),
                Piece::Text(" {\n"),
                Piece::Field("body"),
                Piece::Field("indent"),
                Piece::Text("}"),
            ],
            Template::Member => vec![
                Piece::Field("indent"),
                Piece::Text("    pub "),
                Piece::Field("id"),
                Piece::Text(": "),
                Piece::Field("type_spec"),
                Piece::Text(","),
            ],
            Template::Union => vec![
                Piece::Field("indent"),
                Piece::Text("/// switch ("),
                Piece::Field("type_spec"),
                Piece::Text(")\n"),
                Piece::Field("indent"),
                Piece::Text("#[derive(Clone, Debug)]\n"),
                Piece::Field("indent"),
                Piece::Text("pub enum "),
                Piece::Field("id"),
                Piece::Text(" {\n"),
                Piece::Field("body"),
                Piece::Field("indent"),
                Piece::Text("}"),
            ],
            Template::Case => vec![
                Piece::Field("indent"),
                Piece::Text("    /// "),
                Piece::Field("body"),
                Piece::Text("\n"),
                Piece::Field("indent"),
                Piece::Text("    "),
                Piece::Field("id"),
                Piece::Text("("),
                Piece::Field("type_spec"),
                Piece::Text("),"),
            ],
            Template::Enum => vec![
                Piece::Field("indent"),
                Piece::Text("#[derive(Clone, Copy, Debug, PartialEq, Eq)]\n"),
                Piece::Field("indent"),
                Piece::Text("pub enum "),
                Piece::Field("id"),
                Piece::Text(" {\n"),
                Piece::Field("body"),
                Piece::Field("indent"),
                Piece::Text("}"),
            ],
            Template::Enumerator => vec![
                Piece::Field("indent"),
                Piece::Text("    "),
                Piece::Field("id"),
                Piece::Text(","),
            ],
            Template::Const => vec![
                Piece::Field("indent"),
                Piece::Text("pub const "),
                Piece::Field("id"),
                Piece::Text(": "),
                Piece::Field("type_spec"),
                Piece::Text(" = "),
                Piece::Field("body"),
                Piece::Text(";"),
            ],
        }
    }
}

/// How a piece is written in a template.
pub open spec fn piece_source(piece: Piece) -> Seq<char> {
    match piece {
        Piece::Text(text) => text@,
        Piece::Field(name) => "{{ "@ + name@ + " }}"@,
    }
}

/// How a template is written.
pub open spec fn source_of(pieces: Seq<Piece>) -> Seq<char>
    decreases pieces.len(),
{
    if pieces.len() == 0 {
        Seq::empty()
    } else {
        source_of(pieces.drop_last()) + piece_source(pieces.last())
    }
}

/// What stands for a piece once the fields are filled in.
pub open spec fn piece_text(piece: Piece, fields: Seq<(Seq<char>, Seq<char>)>) -> Seq<char> {
    match piece {
        Piece::Text(text) => text@,
        Piece::Field(name) => fields[crate::table::place(fields, name@)].1,
    }
}

/// A template with its fields filled in.
pub open spec fn filled(pieces: Seq<Piece>, fields: Seq<(Seq<char>, Seq<char>)>) -> Seq<char>
    decreases pieces.len(),
{
    if pieces.len() == 0 {
        Seq::empty()
    } else {
        filled(pieces.drop_last(), fields) + piece_text(pieces.last(), fields)
    }
}

/// Whether a text stands for itself in a template: each brace that opens is followed by a line
/// break.
pub open spec fn plain_text(text: Seq<char>) -> bool {
    forall|i: int|
        0 <= i < text.len() && #[trigger] text[i] == '{' ==> i + 1 < text.len() && text[i + 1]
            == '\n'
}

/// Whether a field can be named so.
pub open spec fn field_name(name: Seq<char>) -> bool {
    name == "indent"@ || name == "id"@ || name == "type_spec"@ || name == "body"@
}

/// Whether a template is made of plain text and of fields that are given, each once, and ends
/// in text other than a line break.
pub open spec fn plain(pieces: Seq<Piece>, fields: Seq<(Seq<char>, Seq<char>)>) -> bool {
    &&& crate::table::distinct_keys(fields)
    &&& forall|i: int|
        0 <= i < pieces.len() ==> match #[trigger] pieces[i] {
            Piece::Text(text) => plain_text(text@),
            Piece::Field(name) => field_name(name@) && crate::table::has_key(fields, name@),
        }
    &&& pieces.len() > 0
    &&& match pieces.last() {
        Piece::Text(text) => text@.len() > 0 && text@.last() != '\n' && text@.last() != '\r',
        Piece::Field(_) => false,
    }
}

/// Calls `minijinja::Environment::render_str` in a new environment, with the fields as the
/// variables of the template.
///
/// Believed of it: a template of plain text and variables in double braces, each of which is
/// given, is rendered without an error. It comes out with each variable replaced by its value,
/// and otherwise unchanged.
#[verifier::external_body]
pub(crate) fn render_template(template: &str, fields: &Vec<(String, String)>) -> (text: Result<
    String,
    minijinja::Error,
>)
    requires
        exists|pieces: Seq<Piece>|
            plain(pieces, crate::table::entry_models(fields@)) && template@ == #[trigger] source_of(
                pieces,
            ),
    ensures
        text is Ok,
        forall|pieces: Seq<Piece>|
            plain(pieces, crate::table::entry_models(fields@)) && template@ == #[trigger] source_of(
                pieces,
            ) ==> text->Ok_0@ == filled(pieces, crate::table::entry_models(fields@)),
{
    let variables: BTreeMap<&str, &str> = fields.iter().map(
        |field| (field.0.as_str(), field.1.as_str()),
    ).collect();
    Environment::new().render_str(template, variables)
}

/// Writes a template.
pub fn write_source(pieces: &Vec<Piece>) -> (source: String)
    ensures
        source@ == source_of(pieces@),
{
    let mut source = "".to_owned();
    let mut i: usize = 0;
    assert(""@ =~= Seq::<char>::empty()) by {
        reveal_strlit("");
    }
    while i < pieces.len()
        invariant
            i <= pieces@.len(),
            source@ == source_of(pieces@.take(i as int)),
        decreases pieces@.len() - i,
    {
        assert(pieces@.take(i + 1).drop_last() =~= pieces@.take(i as int));
        let piece = match pieces[i] {
            Piece::Text(text) => text.to_owned(),
            Piece::Field(name) => {
                let opened = joined("{{ ", name);
                joined(opened.as_str(), " }}")
            },
        };
        source = joined(source.as_str(), piece.as_str());
        i = i + 1;
    }
    assert(pieces@.take(i as int) =~= pieces@);
    source
}

}
