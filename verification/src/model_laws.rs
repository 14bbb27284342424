//! The model of a value says everything that the value holds.

use crate::ast::{
    BinaryOp, IdlConstDcl, IdlScopedName, IdlStructMember, IdlSwitchCase, IdlSwitchElement,
    IdlSwitchLabel, IdlTypeDcl, IdlTypeDclKind, IdlTypeSpec, IdlValueExpr, SwitchLabel, TypeDcl,
    TypeSpec, UnaryOp, ValueExpr,
};
use crate::context::Context;
use crate::error::{IdlError, IdlFault, ParserError, ParserFault};
use crate::module::IdlModule;
use crate::node::{Node, Tree};
use crate::sources::{Source, Sources};
use crate::token::{Entry, Token};
use vstd::prelude::*;

verus! {

/// Whether a list of texts is that of some strings, one by one.
pub open spec fn same_texts(strings: Seq<String>, texts: Seq<Seq<char>>) -> bool {
    &&& texts.len() == strings.len()
    &&& forall|i: int| 0 <= i < strings.len() ==> texts[i] == (#[trigger] strings[i])@
}

/// Whether an optional text is that of an optional string.
pub open spec fn same_optional_text(string: Option<String>, text: Option<Seq<char>>) -> bool {
    match string {
        Some(string) => text == Some(string@),
        None => text is None,
    }
}

/// The model of a name holds all its identifiers, and whether it starts at the root.
pub proof fn lemma_name_model(name: IdlScopedName)
    ensures
        same_texts(name.0@, name@.path),
        name@.absolute == name.1,
{
}

/// The model of an operator with its operands holds the operator and the models of the operands.
pub proof fn lemma_operation_models(
    a: IdlValueExpr,
    b: IdlValueExpr,
    unary: UnaryOp,
    binary: BinaryOp,
)
    ensures
        IdlValueExpr::Expr(Box::new(a), Box::new(b))@ == ValueExpr::Expr(
            Box::new(a@),
            Box::new(b@),
        ),
        IdlValueExpr::UnaryOp(unary, Box::new(a))@ == ValueExpr::UnaryOp(unary, Box::new(a@)),
        IdlValueExpr::BinaryOp(binary, Box::new(a))@ == ValueExpr::BinaryOp(binary, Box::new(a@)),
        IdlValueExpr::Brace(Box::new(a))@ == ValueExpr::Brace(Box::new(a@)),
{
}

/// The model of a literal or a name is of its kind and holds its text.
pub proof fn lemma_primary_models(text: String, name: IdlScopedName, value: bool)
    ensures
        IdlValueExpr::ScopedName(name)@ == ValueExpr::ScopedName(name@),
        IdlValueExpr::DecLiteral(text)@ == ValueExpr::DecLiteral(text@),
        IdlValueExpr::OctLiteral(text)@ == ValueExpr::OctLiteral(text@),
        IdlValueExpr::HexLiteral(text)@ == ValueExpr::HexLiteral(text@),
        IdlValueExpr::BooleanLiteral(value)@ == ValueExpr::BooleanLiteral(value),
        IdlValueExpr::CharLiteral(text)@ == ValueExpr::CharLiteral(text@),
        IdlValueExpr::WideCharLiteral(text)@ == ValueExpr::WideCharLiteral(text@),
        IdlValueExpr::StringLiteral(text)@ == ValueExpr::StringLiteral(text@),
        IdlValueExpr::WideStringLiteral(text)@ == ValueExpr::WideStringLiteral(text@),
{
}

/// The model of a floating-point literal holds each of its parts in its place.
pub proof fn lemma_float_model(
    integral: Option<String>,
    fraction: Option<String>,
    exponent: Option<String>,
    suffix: Option<String>,
)
    ensures
        IdlValueExpr::FloatLiteral(integral, fraction, exponent, suffix)@ matches
            ValueExpr::FloatLiteral(i, f, e, s) && same_optional_text(integral, i)
            && same_optional_text(fraction, f) && same_optional_text(exponent, e)
            && same_optional_text(suffix, s),
{
}

/// The model of a type made of others holds the models of all of them.
pub proof fn lemma_type_models(
    element: IdlTypeSpec,
    sizes: Vec<IdlValueExpr>,
    bound: IdlValueExpr,
    name: IdlScopedName,
)
    ensures
        IdlTypeSpec::StringType(None)@ == TypeSpec::StringType(None),
        IdlTypeSpec::StringType(Some(Box::new(bound)))@ == TypeSpec::StringType(Some(bound@)),
        IdlTypeSpec::WideStringType(None)@ == TypeSpec::WideStringType(None),
        IdlTypeSpec::WideStringType(Some(Box::new(bound)))@ == TypeSpec::WideStringType(
            Some(bound@),
        ),
        IdlTypeSpec::SequenceType(Box::new(element))@ == TypeSpec::SequenceType(
            Box::new(element@),
        ),
        IdlTypeSpec::ScopedName(name)@ == TypeSpec::ScopedName(name@),
        IdlTypeSpec::ArrayType(Box::new(element), sizes)@ matches TypeSpec::ArrayType(
            model,
            dimensions,
        ) && *model == element@ && dimensions.len() == sizes@.len() && forall|i: int|
            0 <= i < sizes@.len() ==> dimensions[i] == (#[trigger] sizes@[i])@,
{
}

/// The model of a type without parts is the type.
pub proof fn lemma_basic_type_models()
    ensures
        IdlTypeSpec::F32Type@ == TypeSpec::F32Type,
        IdlTypeSpec::F64Type@ == TypeSpec::F64Type,
        IdlTypeSpec::F128Type@ == TypeSpec::F128Type,
        IdlTypeSpec::I16Type@ == TypeSpec::I16Type,
        IdlTypeSpec::I32Type@ == TypeSpec::I32Type,
        IdlTypeSpec::I64Type@ == TypeSpec::I64Type,
        IdlTypeSpec::U16Type@ == TypeSpec::U16Type,
        IdlTypeSpec::U32Type@ == TypeSpec::U32Type,
        IdlTypeSpec::U64Type@ == TypeSpec::U64Type,
        IdlTypeSpec::CharType@ == TypeSpec::CharType,
        IdlTypeSpec::WideCharType@ == TypeSpec::WideCharType,
        IdlTypeSpec::BooleanType@ == TypeSpec::BooleanType,
        IdlTypeSpec::OctetType@ == TypeSpec::OctetType,
{
}

/// The models of a member, of an element and of a constant hold what these hold.
pub proof fn lemma_field_models(
    member: IdlStructMember,
    element: IdlSwitchElement,
    const_dcl: IdlConstDcl,
)
    ensures
        member@.id == member.id@,
        member@.type_spec == member.type_spec@,
        element@.id == element.id@,
        element@.type_spec == element.type_spec@,
        const_dcl@.id == const_dcl.id@,
        const_dcl@.typedcl == const_dcl.typedcl@,
        const_dcl@.value == const_dcl.value@,
{
}

/// The model of a case holds the models of all its labels and of its element.
pub proof fn lemma_case_model(case: IdlSwitchCase, expr: IdlValueExpr)
    ensures
        IdlSwitchLabel::Label(expr)@ == SwitchLabel::Label(expr@),
        IdlSwitchLabel::Default@ == SwitchLabel::Default,
        case@.elem_spec == case.elem_spec@,
        case@.labels.len() == case.labels@.len(),
        forall|i: int|
            0 <= i < case.labels@.len() ==> case@.labels[i] == (#[trigger] case.labels@[i])@,
{
}

/// The model of a type declaration is of its kind, and holds the declared name and the models of
/// all that is declared.
pub proof fn lemma_type_declaration_models(
    id: String,
    type_spec: IdlTypeSpec,
    members: Vec<IdlStructMember>,
    cases: Vec<IdlSwitchCase>,
    names: Vec<String>,
)
    ensures
        IdlTypeDcl(IdlTypeDclKind::TypeDcl(id, type_spec))@ == TypeDcl::TypeDcl(
            id@,
            type_spec@,
        ),
        IdlTypeDcl(IdlTypeDclKind::StructDcl(id, members))@ matches TypeDcl::StructDcl(
            name,
            models,
        ) && name == id@ && models.len() == members@.len() && forall|i: int|
            0 <= i < members@.len() ==> models[i] == (#[trigger] members@[i])@,
        IdlTypeDcl(IdlTypeDclKind::UnionDcl(id, type_spec, cases))@ matches TypeDcl::UnionDcl(
            name,
            switch,
            models,
        ) && name == id@ && switch == type_spec@ && models.len() == cases@.len() && forall|i: int|
            0 <= i < cases@.len() ==> models[i] == (#[trigger] cases@[i])@,
        IdlTypeDcl(IdlTypeDclKind::EnumDcl(id, names))@ matches TypeDcl::EnumDcl(name, texts)
            && name == id@ && same_texts(names@, texts),
{
}

/// The model of a module holds its name and the models of all that is in it, in order and under
/// its name.
pub proof fn lemma_module_model(module: IdlModule)
    ensures
        same_optional_text(module.id, module@.id),
        module@.modules.len() == module.modules@.len(),
        module@.types.len() == module.types@.len(),
        module@.constants.len() == module.constants@.len(),
        forall|i: int|
            0 <= i < module.modules@.len() ==> module@.modules[i] == (
                (#[trigger] module.modules@[i]).0@,
                module.modules@[i].1@,
            ),
        forall|i: int|
            0 <= i < module.types@.len() ==> module@.types[i] == (
                (#[trigger] module.types@[i]).0@,
                module.types@[i].1@,
            ),
        forall|i: int|
            0 <= i < module.constants@.len() ==> module@.constants[i] == (
                (#[trigger] module.constants@[i]).0@,
                module.constants@[i].1@,
            ),
{
    crate::module::lemma_submodule_models(module.modules@);
}

/// The model of a context holds the model of its root module, the paths of the files that were
/// read, and the file that is wanted.
pub proof fn lemma_context_model(context: Context, path: Seq<char>)
    ensures
        context@.root == context.root_module@,
        context@.included.contains(path) <==> exists|i: int|
            0 <= i < context.included_files@.len() && (#[trigger] context.included_files@[i])@
                == path,
        same_optional_text(context.wanted, context@.wanted),
{
    let texts = crate::text::texts(context.included_files@);
    if context@.included.contains(path) {
        let i = choose|i: int| 0 <= i < texts.len() && texts[i] == path;
        assert(context.included_files@[i]@ == path);
    }
    if exists|i: int|
        0 <= i < context.included_files@.len() && (#[trigger] context.included_files@[i])@
            == path {
        let i = choose|i: int|
            0 <= i < context.included_files@.len() && (#[trigger] context.included_files@[i])@
                == path;
        assert(texts[i] == path);
    }
}

/// The model of a node holds its rule, its text, its place and the models of all its parts; that
/// of a token holds what the token holds.
pub proof fn lemma_node_model(node: Node, token: Token)
    ensures
        node@.rule == node.rule,
        node@.text == node.text@,
        node@.start == node.start as nat,
        node@.parts.len() == node.parts@.len(),
        forall|i: int|
            0 <= i < node.parts@.len() ==> node@.parts[i] == (#[trigger] node.parts@[i])@,
        token@.rule == token.rule@,
        token@.text == token.text@,
        token@.start == token.start as nat,
        token@.parts == token.parts as nat,
{
    crate::node::lemma_forest_model(node.parts@);
}

/// The model of an error holds its kind, and its message and place or the name of the file.
pub proof fn lemma_error_model(error: ParserError, name: String)
    ensures
        error@.message == error.message@,
        error@.pos == error.pos as nat,
        IdlError::ParserError(error)@ == IdlFault::ParserError(error@),
        IdlError::FileNotFound(name)@ == IdlFault::FileNotFound(name@),
        IdlError::MalformedTree@ == IdlFault::MalformedTree,
{
}

/// The model of some files lists all of them, in order and under their names, each with its path
/// and the models of all its parse trees.
pub proof fn lemma_sources_model(sources: Sources, source: Source)
    ensures
        sources@.len() == sources.files@.len(),
        forall|i: int|
            0 <= i < sources.files@.len() ==> sources@[i] == (
                (#[trigger] sources.files@[i]).0@,
                sources.files@[i].1@,
            ),
        source@.full_path == source.full_path@,
        match source.content {
            Ok(nodes) => source@.content matches Ok(trees) && trees.len() == nodes@.len()
                && forall|i: int|
                0 <= i < nodes@.len() ==> trees[i] == (#[trigger] nodes@[i])@,
            Err(error) => source@.content == Err::<Seq<Tree>, _>(error@),
        },
{
    if let Ok(nodes) = source.content {
        crate::node::lemma_forest_model(nodes@);
    }
}

/// The model of what a reader, the processor, the parser or a template returns is of its kind, and
/// holds the model of the value or of the error.
pub proof fn lemma_result_models(
    name: String,
    error: ParserError,
    failure: IdlError,
    tokens: Vec<Token>,
    nodes: Vec<Node>,
    text: Seq<char>,
)
    ensures
        crate::error::outcome(Ok::<String, ParserError>(name)) == Ok::<_, ParserFault>(name@),
        crate::error::outcome(Err::<String, ParserError>(error)) == Err::<Seq<char>, _>(error@),
        crate::processor::verdict(Ok(())) == Ok::<(), IdlFault>(()),
        crate::processor::verdict(Err(failure)) == Err::<(), _>(failure@),
        crate::grammar::token_outcome(Err(error)) == Err::<Seq<Entry>, _>(error@),
        crate::grammar::token_outcome(Ok(tokens)) matches Ok(entries) && entries.len()
            == tokens@.len() && forall|i: int|
            0 <= i < tokens@.len() ==> entries[i] == (#[trigger] tokens@[i])@,
        crate::grammar::forest_outcome(Err(failure)) == Err::<Seq<Tree>, _>(failure@),
        crate::grammar::forest_outcome(Ok(nodes)) matches Ok(trees) && trees.len() == nodes@.len()
            && forall|i: int| 0 <= i < nodes@.len() ==> trees[i] == (#[trigger] nodes@[i])@,
        crate::render::gives(Ok(name), text) <==> name@ == text,
{
    crate::node::lemma_forest_model(nodes@);
}

}
