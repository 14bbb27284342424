//! The grammar rules that the reader tells apart.

use crate::text::same_text;
use vstd::prelude::*;

verus! {

/// The grammar rule that a node of the parse tree was matched by.
///
/// Every rule that the reader does not tell apart is [`Rule::Other`].
#[derive(Clone, Copy, Debug, PartialEq, Eq, Structural)]
pub enum Rule {
    Float,
    Double,
    LongDouble,
    UnsignedShortInt,
    UnsignedLonglongInt,
    UnsignedLongInt,
    SignedShortInt,
    SignedLonglongInt,
    SignedLongInt,
    CharType,
    WideCharType,
    BooleanType,
    OctetType,
    StringType,
    WideStringType,
    SequenceType,
    ScopedName,
    SimpleDeclarator,
    ArrayDeclarator,
    Identifier,
    Enumerator,
    ConstExpr,
    UnaryExpr,
    PrimaryExpr,
    Literal,
    AndExpr,
    OrExpr,
    XorExpr,
    LshiftExpr,
    RshiftExpr,
    AddExpr,
    SubExpr,
    MulExpr,
    DivExpr,
    ModExpr,
    DecimalIntegerLiteral,
    OctalIntegerLiteral,
    HexIntegerLiteral,
    FloatingPtLiteral,
    IntegralPart,
    FractionalPart,
    Exponent,
    FloatSuffix,
    BooleanLiteral,
    CharacterLiteral,
    WideCharacterLiteral,
    StringLiteral,
    WideStringLiteral,
    CaseLabel,
    ElementSpec,
    ModuleDcl,
    StructDef,
    UnionDef,
    TypeDeclarator,
    EnumDcl,
    ConstDcl,
    IncludeDirective,
    Other,
}

impl Rule {
    /// The rule that the grammar calls `name`.
    pub open spec fn named(name: Seq<char>) -> Rule {
        if name == "float"@ {
            Rule::Float
        } else if name == "double"@ {
            Rule::Double
        } else if name == "long_double"@ {
            Rule::LongDouble
        } else if name == "unsigned_short_int"@ {
            Rule::UnsignedShortInt
        } else if name == "unsigned_longlong_int"@ {
            Rule::UnsignedLonglongInt
        } else if name == "unsigned_long_int"@ {
            Rule::UnsignedLongInt
        } else if name == "signed_short_int"@ {
            Rule::SignedShortInt
        } else if name == "signed_longlong_int"@ {
            Rule::SignedLonglongInt
        } else if name == "signed_long_int"@ {
            Rule::SignedLongInt
        } else if name == "char_type"@ {
            Rule::CharType
        } else if name == "wide_char_type"@ {
            Rule::WideCharType
        } else if name == "boolean_type"@ {
            Rule::BooleanType
        } else if name == "octet_type"@ {
            Rule::OctetType
        } else if name == "string_type"@ {
            Rule::StringType
        } else if name == "wide_string_type"@ {
            Rule::WideStringType
        } else if name == "sequence_type"@ {
            Rule::SequenceType
        } else if name == "scoped_name"@ {
            Rule::ScopedName
        } else if name == "simple_declarator"@ {
            Rule::SimpleDeclarator
        } else if name == "array_declarator"@ {
            Rule::ArrayDeclarator
        } else if name == "identifier"@ {
            Rule::Identifier
        } else if name == "enumerator"@ {
            Rule::Enumerator
        } else if name == "const_expr"@ {
            Rule::ConstExpr
        } else if name == "unary_expr"@ {
            Rule::UnaryExpr
        } else if name == "primary_expr"@ {
            Rule::PrimaryExpr
        } else if name == "literal"@ {
            Rule::Literal
        } else if name == "and_expr"@ {
            Rule::AndExpr
        } else if name == "or_expr"@ {
            Rule::OrExpr
        } else if name == "xor_expr"@ {
            Rule::XorExpr
        } else if name == "lshift_expr"@ {
            Rule::LshiftExpr
        } else if name == "rshift_expr"@ {
            Rule::RshiftExpr
        } else if name == "add_expr"@ {
            Rule::AddExpr
        } else if name == "sub_expr"@ {
            Rule::SubExpr
        } else if name == "mul_expr"@ {
            Rule::MulExpr
        } else if name == "div_expr"@ {
            Rule::DivExpr
        } else if name == "mod_expr"@ {
            Rule::ModExpr
        } else if name == "decimal_integer_literal"@ {
            Rule::DecimalIntegerLiteral
        } else if name == "octal_integer_literal"@ {
            Rule::OctalIntegerLiteral
        } else if name == "hex_integer_literal"@ {
            Rule::HexIntegerLiteral
        } else if name == "floating_pt_literal"@ {
            Rule::FloatingPtLiteral
        } else if name == "integral_part"@ {
            Rule::IntegralPart
        } else if name == "fractional_part"@ {
            Rule::FractionalPart
        } else if name == "exponent"@ {
            Rule::Exponent
        } else if name == "float_suffix"@ {
            Rule::FloatSuffix
        } else if name == "boolean_literal"@ {
            Rule::BooleanLiteral
        } else if name == "character_literal"@ {
            Rule::CharacterLiteral
        } else if name == "wide_character_literal"@ {
            Rule::WideCharacterLiteral
        } else if name == "string_literal"@ {
            Rule::StringLiteral
        } else if name == "wide_string_literal"@ {
            Rule::WideStringLiteral
        } else if name == "case_label"@ {
            Rule::CaseLabel
        } else if name == "element_spec"@ {
            Rule::ElementSpec
        } else if name == "module_dcl"@ {
            Rule::ModuleDcl
        } else if name == "struct_def"@ {
            Rule::StructDef
        } else if name == "union_def"@ {
            Rule::UnionDef
        } else if name == "type_declarator"@ {
            Rule::TypeDeclarator
        } else if name == "enum_dcl"@ {
            Rule::EnumDcl
        } else if name == "const_dcl"@ {
            Rule::ConstDcl
        } else if name == "include_directive"@ {
            Rule::IncludeDirective
        } else {
            Rule::Other
        }
    }

    /// Finds the rule that the grammar calls `name`.
    pub fn from_name(name: &str) -> (rule: Rule)
        ensures
            rule == Rule::named(name@),
    {
        if same_text(name, "float") {
            Rule::Float
        } else if same_text(name, "double") {
            Rule::Double
        } else if same_text(name, "long_double") {
            Rule::LongDouble
        } else if same_text(name, "unsigned_short_int") {
            Rule::UnsignedShortInt
        } else if same_text(name, "unsigned_longlong_int") {
            Rule::UnsignedLonglongInt
        } else if same_text(name, "unsigned_long_int") {
            Rule::UnsignedLongInt
        } else if same_text(name, "signed_short_int") {
            Rule::SignedShortInt
        } else if same_text(name, "signed_longlong_int") {
            Rule::SignedLonglongInt
        } else if same_text(name, "signed_long_int") {
            Rule::SignedLongInt
        } else if same_text(name, "char_type") {
            Rule::CharType
        } else if same_text(name, "wide_char_type") {
            Rule::WideCharType
        } else if same_text(name, "boolean_type") {
            Rule::BooleanType
        } else if same_text(name, "octet_type") {
            Rule::OctetType
        } else if same_text(name, "string_type") {
            Rule::StringType
        } else if same_text(name, "wide_string_type") {
            Rule::WideStringType
        } else if same_text(name, "sequence_type") {
            Rule::SequenceType
        } else if same_text(name, "scoped_name") {
            Rule::ScopedName
        } else if same_text(name, "simple_declarator") {
            Rule::SimpleDeclarator
        } else if same_text(name, "array_declarator") {
            Rule::ArrayDeclarator
        } else if same_text(name, "identifier") {
            Rule::Identifier
        } else if same_text(name, "enumerator") {
            Rule::Enumerator
        } else if same_text(name, "const_expr") {
            Rule::ConstExpr
        } else if same_text(name, "unary_expr") {
            Rule::UnaryExpr
        } else if same_text(name, "primary_expr") {
            Rule::PrimaryExpr
        } else if same_text(name, "literal") {
            Rule::Literal
        } else if same_text(name, "and_expr") {
            Rule::AndExpr
        } else if same_text(name, "or_expr") {
            Rule::OrExpr
        } else if same_text(name, "xor_expr") {
            Rule::XorExpr
        } else if same_text(name, "lshift_expr") {
            Rule::LshiftExpr
        } else if same_text(name, "rshift_expr") {
            Rule::RshiftExpr
        } else if same_text(name, "add_expr") {
            Rule::AddExpr
        } else if same_text(name, "sub_expr") {
            Rule::SubExpr
        } else if same_text(name, "mul_expr") {
            Rule::MulExpr
        } else if same_text(name, "div_expr") {
            Rule::DivExpr
        } else if same_text(name, "mod_expr") {
            Rule::ModExpr
        } else if same_text(name, "decimal_integer_literal") {
            Rule::DecimalIntegerLiteral
        } else if same_text(name, "octal_integer_literal") {
            Rule::OctalIntegerLiteral
        } else if same_text(name, "hex_integer_literal") {
            Rule::HexIntegerLiteral
        } else if same_text(name, "floating_pt_literal") {
            Rule::FloatingPtLiteral
        } else if same_text(name, "integral_part") {
            Rule::IntegralPart
        } else if same_text(name, "fractional_part") {
            Rule::FractionalPart
        } else if same_text(name, "exponent") {
            Rule::Exponent
        } else if same_text(name, "float_suffix") {
            Rule::FloatSuffix
        } else if same_text(name, "boolean_literal") {
            Rule::BooleanLiteral
        } else if same_text(name, "character_literal") {
            Rule::CharacterLiteral
        } else if same_text(name, "wide_character_literal") {
            Rule::WideCharacterLiteral
        } else if same_text(name, "string_literal") {
            Rule::StringLiteral
        } else if same_text(name, "wide_string_literal") {
            Rule::WideStringLiteral
        } else if same_text(name, "case_label") {
            Rule::CaseLabel
        } else if same_text(name, "element_spec") {
            Rule::ElementSpec
        } else if same_text(name, "module_dcl") {
            Rule::ModuleDcl
        } else if same_text(name, "struct_def") {
            Rule::StructDef
        } else if same_text(name, "union_def") {
            Rule::UnionDef
        } else if same_text(name, "type_declarator") {
            Rule::TypeDeclarator
        } else if same_text(name, "enum_dcl") {
            Rule::EnumDcl
        } else if same_text(name, "const_dcl") {
            Rule::ConstDcl
        } else if same_text(name, "include_directive") {
            Rule::IncludeDirective
        } else {
            Rule::Other
        }
    }
}

}
