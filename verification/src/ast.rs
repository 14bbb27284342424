//! What IDL declares: types, constants, and the expressions inside them.

use vstd::prelude::*;

verus! {

/// The identifiers of a scoped name, and whether it starts at the root.
#[derive(Debug)]
pub struct IdlScopedName(pub Vec<String>, pub bool);

/// The model of an [`IdlScopedName`].
#[verifier::ext_equal]
pub struct ScopedName {
    pub path: Seq<Seq<char>>,
    pub absolute: bool,
}

impl View for IdlScopedName {
    type V = ScopedName;

    open spec fn view(&self) -> ScopedName {
        ScopedName { path: crate::text::texts(self.0@), absolute: self.1 }
    }
}

impl Clone for IdlScopedName {
    fn clone(&self) -> (copy: Self)
        ensures
            copy@ == self@,
    {
        let mut path: Vec<String> = Vec::new();
        while path.len() < self.0.len()
            invariant
                path@.len() <= self.0@.len(),
                forall|i: int| 0 <= i < path@.len() ==> path@[i]@ == self.0@[i]@,
            decreases self.0@.len() - path@.len(),
        {
            path.push(self.0[path.len()].clone());
        }
        assert(crate::text::texts(path@) =~= crate::text::texts(self.0@));
        IdlScopedName(path, self.1)
    }
}

/// An operator in front of its operand.
#[derive(Clone, Copy, Debug, PartialEq, Eq, Structural)]
pub enum UnaryOp {
    Neg,
    Pos,
    Inverse,
}

/// An operator between its operands.
#[derive(Clone, Copy, Debug, PartialEq, Eq, Structural)]
pub enum BinaryOp {
    Or,
    Xor,
    And,
    LShift,
    RShift,
    Add,
    Sub,
    Mul,
    Div,
    Mod,
}

/// A constant expression.
///
/// `Expr(a, b)` is `a` followed by `b`, where `b` is a [`IdlValueExpr::BinaryOp`]: an operator
/// with its right operand.
#[derive(Debug)]
pub enum IdlValueExpr {
    Expr(Box<IdlValueExpr>, Box<IdlValueExpr>),
    UnaryOp(UnaryOp, Box<IdlValueExpr>),
    BinaryOp(BinaryOp, Box<IdlValueExpr>),
    ScopedName(IdlScopedName),
    Brace(Box<IdlValueExpr>),
    DecLiteral(String),
    OctLiteral(String),
    HexLiteral(String),
    /// Integral part, fractional part, exponent and suffix.
    FloatLiteral(Option<String>, Option<String>, Option<String>, Option<String>),
    BooleanLiteral(bool),
    CharLiteral(String),
    WideCharLiteral(String),
    StringLiteral(String),
    WideStringLiteral(String),
}

/// The model of an [`IdlValueExpr`].
#[verifier::ext_equal]
pub enum ValueExpr {
    Expr(Box<ValueExpr>, Box<ValueExpr>),
    UnaryOp(UnaryOp, Box<ValueExpr>),
    BinaryOp(BinaryOp, Box<ValueExpr>),
    ScopedName(ScopedName),
    Brace(Box<ValueExpr>),
    DecLiteral(Seq<char>),
    OctLiteral(Seq<char>),
    HexLiteral(Seq<char>),
    FloatLiteral(Option<Seq<char>>, Option<Seq<char>>, Option<Seq<char>>, Option<Seq<char>>),
    BooleanLiteral(bool),
    CharLiteral(Seq<char>),
    WideCharLiteral(Seq<char>),
    StringLiteral(Seq<char>),
    WideStringLiteral(Seq<char>),
}

/// The characters of an optional string.
pub open spec fn optional_text(s: Option<String>) -> Option<Seq<char>> {
    match s {
        Some(text) => Some(text@),
        None => None,
    }
}

impl View for IdlValueExpr {
    type V = ValueExpr;

    open spec fn view(&self) -> ValueExpr
        decreases self,
    {
        match self {
            IdlValueExpr::Expr(a, b) => ValueExpr::Expr(
                Box::new((**a).view()),
                Box::new((**b).view()),
            ),
            IdlValueExpr::UnaryOp(op, a) => ValueExpr::UnaryOp(*op, Box::new((**a).view())),
            IdlValueExpr::BinaryOp(op, a) => ValueExpr::BinaryOp(*op, Box::new((**a).view())),
            IdlValueExpr::ScopedName(name) => ValueExpr::ScopedName(name@),
            IdlValueExpr::Brace(a) => ValueExpr::Brace(Box::new((**a).view())),
            IdlValueExpr::DecLiteral(text) => ValueExpr::DecLiteral(text@),
            IdlValueExpr::OctLiteral(text) => ValueExpr::OctLiteral(text@),
            IdlValueExpr::HexLiteral(text) => ValueExpr::HexLiteral(text@),
            IdlValueExpr::FloatLiteral(i, f, e, s) => ValueExpr::FloatLiteral(
                optional_text(*i),
                optional_text(*f),
                optional_text(*e),
                optional_text(*s),
            ),
            IdlValueExpr::BooleanLiteral(value) => ValueExpr::BooleanLiteral(*value),
            IdlValueExpr::CharLiteral(text) => ValueExpr::CharLiteral(text@),
            IdlValueExpr::WideCharLiteral(text) => ValueExpr::WideCharLiteral(text@),
            IdlValueExpr::StringLiteral(text) => ValueExpr::StringLiteral(text@),
            IdlValueExpr::WideStringLiteral(text) => ValueExpr::WideStringLiteral(text@),
        }
    }
}

/// Copies an optional string.
fn clone_optional(s: &Option<String>) -> (copy: Option<String>)
    ensures
        optional_text(copy) == optional_text(*s),
{
    match s {
        Some(text) => Some(text.clone()),
        None => None,
    }
}

impl Clone for IdlValueExpr {
    fn clone(&self) -> (copy: Self)
        ensures
            copy@ == self@,
        decreases self,
    {
        match self {
            IdlValueExpr::Expr(a, b) => IdlValueExpr::Expr(
                Box::new((**a).clone()),
                Box::new((**b).clone()),
            ),
            IdlValueExpr::UnaryOp(op, a) => IdlValueExpr::UnaryOp(*op, Box::new((**a).clone())),
            IdlValueExpr::BinaryOp(op, a) => IdlValueExpr::BinaryOp(*op, Box::new((**a).clone())),
            IdlValueExpr::ScopedName(name) => IdlValueExpr::ScopedName(name.clone()),
            IdlValueExpr::Brace(a) => IdlValueExpr::Brace(Box::new((**a).clone())),
            IdlValueExpr::DecLiteral(text) => IdlValueExpr::DecLiteral(text.clone()),
            IdlValueExpr::OctLiteral(text) => IdlValueExpr::OctLiteral(text.clone()),
            IdlValueExpr::HexLiteral(text) => IdlValueExpr::HexLiteral(text.clone()),
            IdlValueExpr::FloatLiteral(i, f, e, s) => IdlValueExpr::FloatLiteral(
                clone_optional(i),
                clone_optional(f),
                clone_optional(e),
                clone_optional(s),
            ),
            IdlValueExpr::BooleanLiteral(value) => IdlValueExpr::BooleanLiteral(*value),
            IdlValueExpr::CharLiteral(text) => IdlValueExpr::CharLiteral(text.clone()),
            IdlValueExpr::WideCharLiteral(text) => IdlValueExpr::WideCharLiteral(text.clone()),
            IdlValueExpr::StringLiteral(text) => IdlValueExpr::StringLiteral(text.clone()),
            IdlValueExpr::WideStringLiteral(text) => IdlValueExpr::WideStringLiteral(text.clone()),
        }
    }
}

/// The models of a list of expressions.
pub open spec fn expr_models(exprs: Seq<IdlValueExpr>) -> Seq<ValueExpr> {
    Seq::new(exprs.len(), |i: int| exprs[i]@)
}

/// A type, as a declaration refers to it.
///
/// Strings have an optional bound; an array has its element type and its dimensions.
#[derive(Debug)]
pub enum IdlTypeSpec {
    F32Type,
    F64Type,
    F128Type,
    I16Type,
    I32Type,
    I64Type,
    U16Type,
    U32Type,
    U64Type,
    CharType,
    WideCharType,
    BooleanType,
    OctetType,
    StringType(Option<Box<IdlValueExpr>>),
    WideStringType(Option<Box<IdlValueExpr>>),
    SequenceType(Box<IdlTypeSpec>),
    ArrayType(Box<IdlTypeSpec>, Vec<IdlValueExpr>),
    ScopedName(IdlScopedName),
}

/// The model of an [`IdlTypeSpec`].
#[verifier::ext_equal]
pub enum TypeSpec {
    F32Type,
    F64Type,
    F128Type,
    I16Type,
    I32Type,
    I64Type,
    U16Type,
    U32Type,
    U64Type,
    CharType,
    WideCharType,
    BooleanType,
    OctetType,
    StringType(Option<ValueExpr>),
    WideStringType(Option<ValueExpr>),
    SequenceType(Box<TypeSpec>),
    ArrayType(Box<TypeSpec>, Seq<ValueExpr>),
    ScopedName(ScopedName),
}

/// The model of an optional bound.
pub open spec fn bound_model(bound: Option<Box<IdlValueExpr>>) -> Option<ValueExpr> {
    match bound {
        Some(expr) => Some((*expr)@),
        None => None,
    }
}

impl View for IdlTypeSpec {
    type V = TypeSpec;

    open spec fn view(&self) -> TypeSpec
        decreases self,
    {
        match self {
            IdlTypeSpec::F32Type => TypeSpec::F32Type,
            IdlTypeSpec::F64Type => TypeSpec::F64Type,
            IdlTypeSpec::F128Type => TypeSpec::F128Type,
            IdlTypeSpec::I16Type => TypeSpec::I16Type,
            IdlTypeSpec::I32Type => TypeSpec::I32Type,
            IdlTypeSpec::I64Type => TypeSpec::I64Type,
            IdlTypeSpec::U16Type => TypeSpec::U16Type,
            IdlTypeSpec::U32Type => TypeSpec::U32Type,
            IdlTypeSpec::U64Type => TypeSpec::U64Type,
            IdlTypeSpec::CharType => TypeSpec::CharType,
            IdlTypeSpec::WideCharType => TypeSpec::WideCharType,
            IdlTypeSpec::BooleanType => TypeSpec::BooleanType,
            IdlTypeSpec::OctetType => TypeSpec::OctetType,
            IdlTypeSpec::StringType(bound) => TypeSpec::StringType(bound_model(*bound)),
            IdlTypeSpec::WideStringType(bound) => TypeSpec::WideStringType(bound_model(*bound)),
            IdlTypeSpec::SequenceType(element) => TypeSpec::SequenceType(
                Box::new((**element).view()),
            ),
            IdlTypeSpec::ArrayType(element, sizes) => TypeSpec::ArrayType(
                Box::new((**element).view()),
                expr_models(sizes@),
            ),
            IdlTypeSpec::ScopedName(name) => TypeSpec::ScopedName(name@),
        }
    }
}

/// Copies an optional bound.
fn clone_bound(bound: &Option<Box<IdlValueExpr>>) -> (copy: Option<Box<IdlValueExpr>>)
    ensures
        bound_model(copy) == bound_model(*bound),
{
    match bound {
        Some(expr) => Some(Box::new((**expr).clone())),
        None => None,
    }
}

/// Copies a list of expressions.
fn clone_exprs(exprs: &Vec<IdlValueExpr>) -> (copy: Vec<IdlValueExpr>)
    ensures
        expr_models(copy@) == expr_models(exprs@),
{
    let mut copy: Vec<IdlValueExpr> = Vec::new();
    while copy.len() < exprs.len()
        invariant
            copy@.len() <= exprs@.len(),
            forall|i: int| 0 <= i < copy@.len() ==> copy@[i]@ == exprs@[i]@,
        decreases exprs@.len() - copy@.len(),
    {
        copy.push(exprs[copy.len()].clone());
    }
    assert(expr_models(copy@) =~= expr_models(exprs@));
    copy
}

impl Clone for IdlTypeSpec {
    fn clone(&self) -> (copy: Self)
        ensures
            copy@ == self@,
        decreases self,
    {
        match self {
            IdlTypeSpec::F32Type => IdlTypeSpec::F32Type,
            IdlTypeSpec::F64Type => IdlTypeSpec::F64Type,
            IdlTypeSpec::F128Type => IdlTypeSpec::F128Type,
            IdlTypeSpec::I16Type => IdlTypeSpec::I16Type,
            IdlTypeSpec::I32Type => IdlTypeSpec::I32Type,
            IdlTypeSpec::I64Type => IdlTypeSpec::I64Type,
            IdlTypeSpec::U16Type => IdlTypeSpec::U16Type,
            IdlTypeSpec::U32Type => IdlTypeSpec::U32Type,
            IdlTypeSpec::U64Type => IdlTypeSpec::U64Type,
            IdlTypeSpec::CharType => IdlTypeSpec::CharType,
            IdlTypeSpec::WideCharType => IdlTypeSpec::WideCharType,
            IdlTypeSpec::BooleanType => IdlTypeSpec::BooleanType,
            IdlTypeSpec::OctetType => IdlTypeSpec::OctetType,
            IdlTypeSpec::StringType(bound) => IdlTypeSpec::StringType(clone_bound(bound)),
            IdlTypeSpec::WideStringType(bound) => IdlTypeSpec::WideStringType(clone_bound(bound)),
            IdlTypeSpec::SequenceType(element) => IdlTypeSpec::SequenceType(
                Box::new((**element).clone()),
            ),
            IdlTypeSpec::ArrayType(element, sizes) => IdlTypeSpec::ArrayType(
                Box::new((**element).clone()),
                clone_exprs(sizes),
            ),
            IdlTypeSpec::ScopedName(name) => IdlTypeSpec::ScopedName(name.clone()),
        }
    }
}

/// A member of a struct.
#[derive(Debug)]
pub struct IdlStructMember {
    pub id: String,
    pub type_spec: IdlTypeSpec,
}

/// The model of an [`IdlStructMember`].
#[verifier::ext_equal]
pub struct StructMember {
    pub id: Seq<char>,
    pub type_spec: TypeSpec,
}

impl View for IdlStructMember {
    type V = StructMember;

    open spec fn view(&self) -> StructMember {
        StructMember { id: self.id@, type_spec: self.type_spec@ }
    }
}

/// The models of a list of struct members.
pub open spec fn member_models(members: Seq<IdlStructMember>) -> Seq<StructMember> {
    Seq::new(members.len(), |i: int| members[i]@)
}

/// What a case of a union holds.
#[derive(Debug)]
pub struct IdlSwitchElement {
    pub id: String,
    pub type_spec: IdlTypeSpec,
}

/// The model of an [`IdlSwitchElement`].
#[verifier::ext_equal]
pub struct SwitchElement {
    pub id: Seq<char>,
    pub type_spec: TypeSpec,
}

impl View for IdlSwitchElement {
    type V = SwitchElement;

    open spec fn view(&self) -> SwitchElement {
        SwitchElement { id: self.id@, type_spec: self.type_spec@ }
    }
}

/// When a case of a union applies.
#[derive(Debug)]
pub enum IdlSwitchLabel {
    Label(IdlValueExpr),
    Default,
}

/// The model of an [`IdlSwitchLabel`].
#[verifier::ext_equal]
pub enum SwitchLabel {
    Label(ValueExpr),
    Default,
}

impl View for IdlSwitchLabel {
    type V = SwitchLabel;

    open spec fn view(&self) -> SwitchLabel {
        match self {
            IdlSwitchLabel::Label(expr) => SwitchLabel::Label(expr@),
            IdlSwitchLabel::Default => SwitchLabel::Default,
        }
    }
}

/// The models of a list of labels.
pub open spec fn label_models(labels: Seq<IdlSwitchLabel>) -> Seq<SwitchLabel> {
    Seq::new(labels.len(), |i: int| labels[i]@)
}

/// A case of a union.
#[derive(Debug)]
pub struct IdlSwitchCase {
    pub labels: Vec<IdlSwitchLabel>,
    pub elem_spec: IdlSwitchElement,
}

/// The model of an [`IdlSwitchCase`].
#[verifier::ext_equal]
pub struct SwitchCase {
    pub labels: Seq<SwitchLabel>,
    pub elem_spec: SwitchElement,
}

impl View for IdlSwitchCase {
    type V = SwitchCase;

    open spec fn view(&self) -> SwitchCase {
        SwitchCase { labels: label_models(self.labels@), elem_spec: self.elem_spec@ }
    }
}

/// The models of a list of cases.
pub open spec fn case_models(cases: Seq<IdlSwitchCase>) -> Seq<SwitchCase> {
    Seq::new(cases.len(), |i: int| cases[i]@)
}

/// A type declaration.
#[derive(Debug)]
pub struct IdlTypeDcl(pub IdlTypeDclKind);

/// The kinds of type declaration, each with the declared name.
#[derive(Debug)]
pub enum IdlTypeDclKind {
    TypeDcl(String, IdlTypeSpec),
    StructDcl(String, Vec<IdlStructMember>),
    UnionDcl(String, IdlTypeSpec, Vec<IdlSwitchCase>),
    EnumDcl(String, Vec<String>),
}

/// The model of an [`IdlTypeDcl`].
#[verifier::ext_equal]
pub enum TypeDcl {
    TypeDcl(Seq<char>, TypeSpec),
    StructDcl(Seq<char>, Seq<StructMember>),
    UnionDcl(Seq<char>, TypeSpec, Seq<SwitchCase>),
    EnumDcl(Seq<char>, Seq<Seq<char>>),
}

impl View for IdlTypeDcl {
    type V = TypeDcl;

    open spec fn view(&self) -> TypeDcl {
        match self.0 {
            IdlTypeDclKind::TypeDcl(id, type_spec) => TypeDcl::TypeDcl(id@, type_spec@),
            IdlTypeDclKind::StructDcl(id, members) => TypeDcl::StructDcl(
                id@,
                member_models(members@),
            ),
            IdlTypeDclKind::UnionDcl(id, type_spec, cases) => TypeDcl::UnionDcl(
                id@,
                type_spec@,
                case_models(cases@),
            ),
            IdlTypeDclKind::EnumDcl(id, enumerators) => TypeDcl::EnumDcl(
                id@,
                crate::text::texts(enumerators@),
            ),
        }
    }
}

/// A constant declaration.
#[derive(Debug)]
pub struct IdlConstDcl {
    pub id: String,
    pub typedcl: IdlTypeSpec,
    pub value: IdlValueExpr,
}

/// The model of an [`IdlConstDcl`].
#[verifier::ext_equal]
pub struct ConstDcl {
    pub id: Seq<char>,
    pub typedcl: TypeSpec,
    pub value: ValueExpr,
}

impl View for IdlConstDcl {
    type V = ConstDcl;

    open spec fn view(&self) -> ConstDcl {
        ConstDcl { id: self.id@, typedcl: self.typedcl@, value: self.value@ }
    }
}

}
