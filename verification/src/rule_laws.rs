//! What the grammar calls its rules.

use crate::rule::Rule;
use vstd::prelude::*;

verus! {

/// What the grammar calls a rule that the reader tells apart.
pub open spec fn grammar_name(rule: Rule) -> Seq<char> {
    match rule {
        Rule::Float => "float"@,
        Rule::Double => "double"@,
        Rule::LongDouble => "long_double"@,
        Rule::UnsignedShortInt => "unsigned_short_int"@,
        Rule::UnsignedLonglongInt => "unsigned_longlong_int"@,
        Rule::UnsignedLongInt => "unsigned_long_int"@,
        Rule::SignedShortInt => "signed_short_int"@,
        Rule::SignedLonglongInt => "signed_longlong_int"@,
        Rule::SignedLongInt => "signed_long_int"@,
        Rule::CharType => "char_type"@,
        Rule::WideCharType => "wide_char_type"@,
        Rule::BooleanType => "boolean_type"@,
        Rule::OctetType => "octet_type"@,
        Rule::StringType => "string_type"@,
        Rule::WideStringType => "wide_string_type"@,
        Rule::SequenceType => "sequence_type"@,
        Rule::ScopedName => "scoped_name"@,
        Rule::SimpleDeclarator => "simple_declarator"@,
        Rule::ArrayDeclarator => "array_declarator"@,
        Rule::Identifier => "identifier"@,
        Rule::Enumerator => "enumerator"@,
        Rule::ConstExpr => "const_expr"@,
        Rule::UnaryExpr => "unary_expr"@,
        Rule::PrimaryExpr => "primary_expr"@,
        Rule::Literal => "literal"@,
        Rule::AndExpr => "and_expr"@,
        Rule::OrExpr => "or_expr"@,
        Rule::XorExpr => "xor_expr"@,
        Rule::LshiftExpr => "lshift_expr"@,
        Rule::RshiftExpr => "rshift_expr"@,
        Rule::AddExpr => "add_expr"@,
        Rule::SubExpr => "sub_expr"@,
        Rule::MulExpr => "mul_expr"@,
        Rule::DivExpr => "div_expr"@,
        Rule::ModExpr => "mod_expr"@,
        Rule::DecimalIntegerLiteral => "decimal_integer_literal"@,
        Rule::OctalIntegerLiteral => "octal_integer_literal"@,
        Rule::HexIntegerLiteral => "hex_integer_literal"@,
        Rule::FloatingPtLiteral => "floating_pt_literal"@,
        Rule::IntegralPart => "integral_part"@,
        Rule::FractionalPart => "fractional_part"@,
        Rule::Exponent => "exponent"@,
        Rule::FloatSuffix => "float_suffix"@,
        Rule::BooleanLiteral => "boolean_literal"@,
        Rule::CharacterLiteral => "character_literal"@,
        Rule::WideCharacterLiteral => "wide_character_literal"@,
        Rule::StringLiteral => "string_literal"@,
        Rule::WideStringLiteral => "wide_string_literal"@,
        Rule::CaseLabel => "case_label"@,
        Rule::ElementSpec => "element_spec"@,
        Rule::ModuleDcl => "module_dcl"@,
        Rule::StructDef => "struct_def"@,
        Rule::UnionDef => "union_def"@,
        Rule::TypeDeclarator => "type_declarator"@,
        Rule::EnumDcl => "enum_dcl"@,
        Rule::ConstDcl => "const_dcl"@,
        Rule::IncludeDirective => "include_directive"@,
        Rule::Other => Seq::empty(),
    }
}

/// A rule that the reader tells apart is known by the name that the grammar has for it, and by
/// no other name.
pub proof fn lemma_rules_are_told_apart(name: Seq<char>, rule: Rule)
    requires
        rule != Rule::Other,
    ensures
        Rule::named(name) == rule <==> name == grammar_name(rule),
{
    reveal_strlit("float");
    reveal_strlit("double");
    reveal_strlit("long_double");
    reveal_strlit("unsigned_short_int");
    reveal_strlit("unsigned_longlong_int");
    reveal_strlit("unsigned_long_int");
    reveal_strlit("signed_short_int");
    reveal_strlit("signed_longlong_int");
    reveal_strlit("signed_long_int");
    reveal_strlit("char_type");
    reveal_strlit("wide_char_type");
    reveal_strlit("boolean_type");
    reveal_strlit("octet_type");
    reveal_strlit("string_type");
    reveal_strlit("wide_string_type");
    reveal_strlit("sequence_type");
    reveal_strlit("scoped_name");
    reveal_strlit("simple_declarator");
    reveal_strlit("array_declarator");
    reveal_strlit("identifier");
    reveal_strlit("enumerator");
    reveal_strlit("const_expr");
    reveal_strlit("unary_expr");
    reveal_strlit("primary_expr");
    reveal_strlit("literal");
    reveal_strlit("and_expr");
    reveal_strlit("or_expr");
    reveal_strlit("xor_expr");
    reveal_strlit("lshift_expr");
    reveal_strlit("rshift_expr");
    reveal_strlit("add_expr");
    reveal_strlit("sub_expr");
    reveal_strlit("mul_expr");
    reveal_strlit("div_expr");
    reveal_strlit("mod_expr");
    reveal_strlit("decimal_integer_literal");
    reveal_strlit("octal_integer_literal");
    reveal_strlit("hex_integer_literal");
    reveal_strlit("floating_pt_literal");
    reveal_strlit("integral_part");
    reveal_strlit("fractional_part");
    reveal_strlit("exponent");
    reveal_strlit("float_suffix");
    reveal_strlit("boolean_literal");
    reveal_strlit("character_literal");
    reveal_strlit("wide_character_literal");
    reveal_strlit("string_literal");
    reveal_strlit("wide_string_literal");
    reveal_strlit("case_label");
    reveal_strlit("element_spec");
    reveal_strlit("module_dcl");
    reveal_strlit("struct_def");
    reveal_strlit("union_def");
    reveal_strlit("type_declarator");
    reveal_strlit("enum_dcl");
    reveal_strlit("const_dcl");
    reveal_strlit("include_directive");
    assert("float"@.len() == 5);
    assert("double"@.len() == 6);
    assert("long_double"@.len() == 11 && "long_double"@[0] == 'l' && "long_double"@[1] == 'o');
    assert("unsigned_short_int"@.len() == 18);
    assert("unsigned_longlong_int"@.len() == 21 && "unsigned_longlong_int"@[0] == 'u');
    assert("unsigned_long_int"@.len() == 17 && "unsigned_long_int"@[0] == 'u');
    assert("signed_short_int"@.len() == 16 && "signed_short_int"@[0] == 's');
    assert("signed_longlong_int"@.len() == 19 && "signed_longlong_int"@[0] == 's');
    assert("signed_long_int"@.len() == 15 && "signed_long_int"@[0] == 's');
    assert("char_type"@.len() == 9 && "char_type"@[1] == 'h');
    assert("wide_char_type"@.len() == 14 && "wide_char_type"@[0] == 'w');
    assert("boolean_type"@.len() == 12 && "boolean_type"@[0] == 'b');
    assert("octet_type"@.len() == 10 && "octet_type"@[2] == 't');
    assert("string_type"@.len() == 11 && "string_type"@[0] == 's' && "string_type"@[1] == 't');
    assert("wide_string_type"@.len() == 16 && "wide_string_type"@[0] == 'w');
    assert("sequence_type"@.len() == 13 && "sequence_type"@[0] == 's');
    assert("scoped_name"@.len() == 11 && "scoped_name"@[0] == 's' && "scoped_name"@[1] == 'c');
    assert("simple_declarator"@.len() == 17 && "simple_declarator"@[0] == 's');
    assert("array_declarator"@.len() == 16 && "array_declarator"@[0] == 'a');
    assert("identifier"@.len() == 10 && "identifier"@[2] == 'e');
    assert("enumerator"@.len() == 10 && "enumerator"@[2] == 'u');
    assert("const_expr"@.len() == 10 && "const_expr"@[2] == 'n');
    assert("unary_expr"@.len() == 10 && "unary_expr"@[2] == 'a');
    assert("primary_expr"@.len() == 12 && "primary_expr"@[0] == 'p');
    assert("literal"@.len() == 7 && "literal"@[0] == 'l');
    assert("and_expr"@.len() == 8 && "and_expr"@[0] == 'a' && "and_expr"@[1] == 'n');
    assert("or_expr"@.len() == 7 && "or_expr"@[0] == 'o');
    assert("xor_expr"@.len() == 8 && "xor_expr"@[0] == 'x' && "xor_expr"@[1] == 'o');
    assert("lshift_expr"@.len() == 11 && "lshift_expr"@[0] == 'l' && "lshift_expr"@[1] == 's');
    assert("rshift_expr"@.len() == 11 && "rshift_expr"@[0] == 'r' && "rshift_expr"@[1] == 's');
    assert("add_expr"@.len() == 8 && "add_expr"@[0] == 'a' && "add_expr"@[1] == 'd');
    assert("sub_expr"@.len() == 8 && "sub_expr"@[0] == 's' && "sub_expr"@[1] == 'u');
    assert("mul_expr"@.len() == 8 && "mul_expr"@[0] == 'm' && "mul_expr"@[1] == 'u');
    assert("div_expr"@.len() == 8 && "div_expr"@[0] == 'd' && "div_expr"@[1] == 'i');
    assert("mod_expr"@.len() == 8 && "mod_expr"@[0] == 'm' && "mod_expr"@[1] == 'o');
    assert("decimal_integer_literal"@.len() == 23);
    assert("octal_integer_literal"@.len() == 21 && "octal_integer_literal"@[0] == 'o');
    assert("hex_integer_literal"@.len() == 19 && "hex_integer_literal"@[0] == 'h');
    assert("floating_pt_literal"@.len() == 19 && "floating_pt_literal"@[0] == 'f');
    assert("integral_part"@.len() == 13 && "integral_part"@[0] == 'i');
    assert("fractional_part"@.len() == 15 && "fractional_part"@[0] == 'f');
    assert("exponent"@.len() == 8 && "exponent"@[0] == 'e' && "exponent"@[1] == 'x');
    assert("float_suffix"@.len() == 12 && "float_suffix"@[0] == 'f');
    assert("boolean_literal"@.len() == 15 && "boolean_literal"@[0] == 'b');
    assert("character_literal"@.len() == 17 && "character_literal"@[0] == 'c');
    assert("wide_character_literal"@.len() == 22);
    assert("string_literal"@.len() == 14 && "string_literal"@[0] == 's');
    assert("wide_string_literal"@.len() == 19 && "wide_string_literal"@[0] == 'w');
    assert("case_label"@.len() == 10 && "case_label"@[2] == 's');
    assert("element_spec"@.len() == 12 && "element_spec"@[0] == 'e');
    assert("module_dcl"@.len() == 10 && "module_dcl"@[2] == 'd');
    assert("struct_def"@.len() == 10 && "struct_def"@[2] == 'r');
    assert("union_def"@.len() == 9 && "union_def"@[1] == 'n');
    assert("type_declarator"@.len() == 15 && "type_declarator"@[0] == 't');
    assert("enum_dcl"@.len() == 8 && "enum_dcl"@[0] == 'e' && "enum_dcl"@[1] == 'n');
    assert("const_dcl"@.len() == 9 && "const_dcl"@[1] == 'o');
    assert("include_directive"@.len() == 17 && "include_directive"@[0] == 'i');
}

}
