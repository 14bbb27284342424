//! Types and constant expressions as Rust source text.

use crate::ast::{
    BinaryOp, IdlScopedName, IdlTypeSpec, IdlValueExpr, ScopedName, TypeSpec, UnaryOp, ValueExpr,
};
use crate::text::joined;
use vstd::prelude::*;
use vstd::string::*;

verus! {

/// Names with `::` between them.
pub open spec fn path_text(path: Seq<Seq<char>>) -> Seq<char>
    decreases path.len(),
{
    if path.len() == 0 {
        Seq::empty()
    } else if path.len() == 1 {
        path[0]
    } else {
        path_text(path.drop_last()) + "::"@ + path.last()
    }
}

/// What follows the first `n` characters of a text.
pub open spec fn text_after(text: Seq<char>, n: nat) -> Seq<char> {
    if n <= text.len() {
        text.skip(n as int)
    } else {
        Seq::empty()
    }
}

/// An optional text, or else `default`.
pub open spec fn text_or(text: Option<Seq<char>>, default: Seq<char>) -> Seq<char> {
    match text {
        Some(text) => text,
        None => default,
    }
}

/// How Rust writes an operator in front of its operand.
pub open spec fn unary_sign(op: UnaryOp) -> Seq<char> {
    match op {
        UnaryOp::Neg => "-"@,
        UnaryOp::Pos => ""@,
        UnaryOp::Inverse => "!"@,
    }
}

/// How Rust writes an operator between its operands.
pub open spec fn binary_sign(op: BinaryOp) -> Seq<char> {
    match op {
        BinaryOp::Or => "|"@,
        BinaryOp::Xor => "^"@,
        BinaryOp::And => "&"@,
        BinaryOp::LShift => "<<"@,
        BinaryOp::RShift => ">>"@,
        BinaryOp::Add => "+"@,
        BinaryOp::Sub => "-"@,
        BinaryOp::Mul => "*"@,
        BinaryOp::Div => "/"@,
        BinaryOp::Mod => "%"@,
    }
}

impl ScopedName {
    /// The name as a Rust path.
    pub open spec fn rust_path(self) -> Seq<char> {
        if self.absolute {
            "crate::"@ + path_text(self.path)
        } else {
            path_text(self.path)
        }
    }
}

impl ValueExpr {
    /// The expression as Rust writes it.
    pub open spec fn rust_expr(self) -> Seq<char>
        decreases self,
    {
        match self {
            ValueExpr::Expr(a, b) => a.rust_expr() + " "@ + b.rust_expr(),
            ValueExpr::UnaryOp(op, a) => unary_sign(op) + a.rust_expr(),
            ValueExpr::BinaryOp(op, a) => binary_sign(op) + " "@ + a.rust_expr(),
            ValueExpr::ScopedName(name) => name.rust_path(),
            ValueExpr::Brace(a) => "("@ + a.rust_expr() + ")"@,
            ValueExpr::DecLiteral(text) => text,
            ValueExpr::OctLiteral(text) => "0o"@ + text_after(text, 1),
            ValueExpr::HexLiteral(text) => "0x"@ + text_after(text, 2),
            ValueExpr::FloatLiteral(i, f, e, _) => text_or(i, "0"@) + "."@ + text_or(f, "0"@)
                + text_or(e, ""@),
            ValueExpr::BooleanLiteral(value) => if value {
                "true"@
            } else {
                "false"@
            },
            ValueExpr::CharLiteral(text) => text,
            ValueExpr::WideCharLiteral(text) => text_after(text, 1),
            ValueExpr::StringLiteral(text) => text,
            ValueExpr::WideStringLiteral(text) => text_after(text, 1),
        }
    }
}

/// The Rust type of an array, the outermost dimension first.
pub open spec fn array_text(element: Seq<char>, sizes: Seq<ValueExpr>) -> Seq<char>
    decreases sizes.len(),
{
    if sizes.len() == 0 {
        element
    } else {
        "["@ + array_text(element, sizes.drop_first()) + "; ("@ + sizes[0].rust_expr()
            + ") as usize]"@
    }
}

impl TypeSpec {
    /// The Rust type that stands for a type.
    pub open spec fn rust_type(self) -> Seq<char>
        decreases self,
    {
        match self {
            TypeSpec::F32Type => "f32"@,
            TypeSpec::F64Type => "f64"@,
            TypeSpec::F128Type => "f128"@,
            TypeSpec::I16Type => "i16"@,
            TypeSpec::I32Type => "i32"@,
            TypeSpec::I64Type => "i64"@,
            TypeSpec::U16Type => "u16"@,
            TypeSpec::U32Type => "u32"@,
            TypeSpec::U64Type => "u64"@,
            TypeSpec::CharType => "char"@,
            TypeSpec::WideCharType => "char"@,
            TypeSpec::BooleanType => "bool"@,
            TypeSpec::OctetType => "u8"@,
            TypeSpec::StringType(_) => "String"@,
            TypeSpec::WideStringType(_) => "String"@,
            TypeSpec::SequenceType(element) => "Vec<"@ + element.rust_type() + ">"@,
            TypeSpec::ArrayType(element, sizes) => array_text(element.rust_type(), sizes),
            TypeSpec::ScopedName(name) => name.rust_path(),
        }
    }

    /// The Rust type of a constant.
    pub open spec fn rust_const_type(self) -> Seq<char> {
        match self {
            TypeSpec::StringType(_) => "&str"@,
            TypeSpec::WideStringType(_) => "&str"@,
            _ => self.rust_type(),
        }
    }
}

/// Three texts in a row.
fn joined_three(a: &str, b: &str, c: &str) -> (r: String)
    ensures
        r@ == a@ + b@ + c@,
{
    let front = joined(a, b);
    joined(front.as_str(), c)
}

/// Leaves out the first `n` characters of a text.
fn without_first(text: &str, n: usize) -> (rest: String)
    ensures
        rest@ == text_after(text@, n as nat),
{
    let len = text.unicode_len();
    if n <= len {
        text.substring_char(n, len).to_owned()
    } else {
        assert(""@ =~= Seq::<char>::empty()) by {
            reveal_strlit("");
        }
        "".to_owned()
    }
}

/// Takes an optional text, or else `default`.
fn text_or_default(text: &Option<String>, default: &str) -> (r: String)
    ensures
        r@ == text_or(crate::ast::optional_text(*text), default@),
{
    match text {
        Some(text) => text.clone(),
        None => default.to_owned(),
    }
}

/// Gives [`unary_sign`].
fn unary_sign_of(op: UnaryOp) -> (sign: &'static str)
    ensures
        sign@ == unary_sign(op),
{
    match op {
        UnaryOp::Neg => "-",
        UnaryOp::Pos => "",
        UnaryOp::Inverse => "!",
    }
}

/// Gives [`binary_sign`].
fn binary_sign_of(op: BinaryOp) -> (sign: &'static str)
    ensures
        sign@ == binary_sign(op),
{
    match op {
        BinaryOp::Or => "|",
        BinaryOp::Xor => "^",
        BinaryOp::And => "&",
        BinaryOp::LShift => "<<",
        BinaryOp::RShift => ">>",
        BinaryOp::Add => "+",
        BinaryOp::Sub => "-",
        BinaryOp::Mul => "*",
        BinaryOp::Div => "/",
        BinaryOp::Mod => "%",
    }
}

impl IdlScopedName {
    /// Writes the name as a Rust path.
    pub fn rust_path(&self) -> (text: String)
        ensures
            text@ == self@.rust_path(),
    {
        let ghost path = crate::text::texts(self.0@);
        if self.0.len() == 0 {
            assert(""@ =~= Seq::<char>::empty()) by {
                reveal_strlit("");
            }
            return if self.1 {
                assert("crate::"@ =~= "crate::"@ + path_text(path));
                "crate::".to_owned()
            } else {
                "".to_owned()
            };
        }
        let mut text = self.0[0].clone();
        let mut i: usize = 1;
        while i < self.0.len()
            invariant
                1 <= i <= self.0@.len(),
                path == crate::text::texts(self.0@),
                text@ == path_text(path.take(i as int)),
            decreases self.0@.len() - i,
        {
            proof {
                assert(path.take(i + 1).drop_last() =~= path.take(i as int));
            }
            text = joined_three(text.as_str(), "::", self.0[i].as_str());
            i = i + 1;
        }
        assert(path.take(i as int) =~= path);
        if self.1 {
            joined("crate::", text.as_str())
        } else {
            text
        }
    }
}

impl IdlValueExpr {
    /// Writes the expression as Rust does.
    pub fn rust_expr(&self) -> (text: String)
        ensures
            text@ == self@.rust_expr(),
        decreases self,
    {
        match self {
            IdlValueExpr::Expr(a, b) => joined_three(
                (**a).rust_expr().as_str(),
                " ",
                (**b).rust_expr().as_str(),
            ),
            IdlValueExpr::UnaryOp(op, a) => joined(
                unary_sign_of(*op),
                (**a).rust_expr().as_str(),
            ),
            IdlValueExpr::BinaryOp(op, a) => joined_three(
                binary_sign_of(*op),
                " ",
                (**a).rust_expr().as_str(),
            ),
            IdlValueExpr::ScopedName(name) => name.rust_path(),
            IdlValueExpr::Brace(a) => joined_three("(", (**a).rust_expr().as_str(), ")"),
            IdlValueExpr::DecLiteral(text) => text.clone(),
            IdlValueExpr::OctLiteral(text) => joined(
                "0o",
                without_first(text.as_str(), 1).as_str(),
            ),
            IdlValueExpr::HexLiteral(text) => joined(
                "0x",
                without_first(text.as_str(), 2).as_str(),
            ),
            IdlValueExpr::FloatLiteral(i, f, e, _) => {
                let mantissa = joined_three(
                    text_or_default(i, "0").as_str(),
                    ".",
                    text_or_default(f, "0").as_str(),
                );
                joined(mantissa.as_str(), text_or_default(e, "").as_str())
            },
            IdlValueExpr::BooleanLiteral(value) => if *value {
                "true".to_owned()
            } else {
                "false".to_owned()
            },
            IdlValueExpr::CharLiteral(text) => text.clone(),
            IdlValueExpr::WideCharLiteral(text) => without_first(text.as_str(), 1),
            IdlValueExpr::StringLiteral(text) => text.clone(),
            IdlValueExpr::WideStringLiteral(text) => without_first(text.as_str(), 1),
        }
    }
}

/// Writes the Rust type of an array.
fn array_type(element: &str, sizes: &Vec<IdlValueExpr>) -> (text: String)
    ensures
        text@ == array_text(element@, crate::ast::expr_models(sizes@)),
{
    let ghost models = crate::ast::expr_models(sizes@);
    let mut text = element.to_owned();
    let mut i: usize = sizes.len();
    assert(models.skip(i as int) =~= Seq::empty());
    while i > 0
        invariant
            i <= sizes@.len(),
            models == crate::ast::expr_models(sizes@),
            text@ == array_text(element@, models.skip(i as int)),
        decreases i,
    {
        i = i - 1;
        proof {
            assert(models.skip(i as int).drop_first() =~= models.skip(i + 1));
            assert(models.skip(i as int)[0] == sizes@[i as int]@);
        }
        let inner = joined_three("[", text.as_str(), "; (");
        text = joined_three(inner.as_str(), sizes[i].rust_expr().as_str(), ") as usize]");
    }
    assert(models.skip(0) =~= models);
    text
}

impl IdlTypeSpec {
    /// Writes the Rust type that stands for this type.
    pub fn rust_type(&self) -> (text: String)
        ensures
            text@ == self@.rust_type(),
        decreases self,
    {
        match self {
            IdlTypeSpec::F32Type => "f32".to_owned(),
            IdlTypeSpec::F64Type => "f64".to_owned(),
            IdlTypeSpec::F128Type => "f128".to_owned(),
            IdlTypeSpec::I16Type => "i16".to_owned(),
            IdlTypeSpec::I32Type => "i32".to_owned(),
            IdlTypeSpec::I64Type => "i64".to_owned(),
            IdlTypeSpec::U16Type => "u16".to_owned(),
            IdlTypeSpec::U32Type => "u32".to_owned(),
            IdlTypeSpec::U64Type => "u64".to_owned(),
            IdlTypeSpec::CharType => "char".to_owned(),
            IdlTypeSpec::WideCharType => "char".to_owned(),
            IdlTypeSpec::BooleanType => "bool".to_owned(),
            IdlTypeSpec::OctetType => "u8".to_owned(),
            IdlTypeSpec::StringType(_) => "String".to_owned(),
            IdlTypeSpec::WideStringType(_) => "String".to_owned(),
            IdlTypeSpec::SequenceType(element) => joined_three(
                "Vec<",
                (**element).rust_type().as_str(),
                ">",
            ),
            IdlTypeSpec::ArrayType(element, sizes) => array_type(
                (**element).rust_type().as_str(),
                sizes,
            ),
            IdlTypeSpec::ScopedName(name) => name.rust_path(),
        }
    }

    /// Writes the Rust type of a constant of this type.
    pub fn rust_const_type(&self) -> (text: String)
        ensures
            text@ == self@.rust_const_type(),
    {
        match self {
            IdlTypeSpec::StringType(_) => "&str".to_owned(),
            IdlTypeSpec::WideStringType(_) => "&str".to_owned(),
            _ => self.rust_type(),
        }
    }
}

}
