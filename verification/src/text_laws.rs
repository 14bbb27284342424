//! What holds of the Rust text of types and expressions.

use crate::ast::{ScopedName, TypeSpec, ValueExpr};
use crate::expression_laws::Symbol;
use crate::node::Tree;
use crate::rule::Rule;
use vstd::prelude::*;

verus! {

/// How Rust writes an operator in front of its operand. There is none for a plus sign.
pub open spec fn rust_prefix(sign: Seq<char>) -> Seq<char> {
    if sign == "+"@ {
        ""@
    } else if sign == "~"@ {
        "!"@
    } else {
        sign
    }
}

/// Names with `::` between them.
pub open spec fn spelled_path(path: Seq<Seq<char>>) -> Seq<char>
    decreases path.len(),
{
    if path.len() == 0 {
        Seq::empty()
    } else if path.len() == 1 {
        path[0]
    } else {
        path[0] + "::"@ + spelled_path(path.drop_first())
    }
}

/// How Rust writes a symbol.
pub open spec fn spelled_symbol(symbol: Symbol) -> Seq<char> {
    match symbol {
        Symbol::Prefix(sign) => rust_prefix(sign),
        Symbol::Infix(sign) => " "@ + sign + " "@,
        Symbol::Open => "("@,
        Symbol::Close => ")"@,
        Symbol::Name(path, absolute) => if absolute {
            "crate::"@ + spelled_path(path)
        } else {
            spelled_path(path)
        },
        Symbol::Literal(Rule::OctalIntegerLiteral, text) => if text.len() >= 1 {
            "0o"@ + text.subrange(1, text.len() as int)
        } else {
            "0o"@
        },
        Symbol::Literal(Rule::HexIntegerLiteral, text) => if text.len() >= 2 {
            "0x"@ + text.subrange(2, text.len() as int)
        } else {
            "0x"@
        },
        Symbol::Literal(Rule::WideCharacterLiteral, text) => if text.len() >= 1 {
            text.subrange(1, text.len() as int)
        } else {
            Seq::empty()
        },
        Symbol::Literal(Rule::WideStringLiteral, text) => if text.len() >= 1 {
            text.subrange(1, text.len() as int)
        } else {
            Seq::empty()
        },
        Symbol::Literal(_, text) => text,
        Symbol::Float(i, f, e, _) => {
            let integral = match i {
                Some(digits) => digits,
                None => "0"@,
            };
            let fractional = match f {
                Some(digits) => digits,
                None => "0"@,
            };
            match e {
                Some(exponent) => integral + "."@ + fractional + exponent,
                None => integral + "."@ + fractional,
            }
        },
        Symbol::Boolean(value) => if value {
            "true"@
        } else {
            "false"@
        },
    }
}

/// How Rust writes symbols, one after the other.
pub open spec fn spelled(symbols: Seq<Symbol>) -> Seq<char>
    decreases symbols.len(),
{
    if symbols.len() == 0 {
        Seq::empty()
    } else {
        spelled(symbols.drop_last()) + spelled_symbol(symbols.last())
    }
}

proof fn lemma_spelled_append(front: Seq<Symbol>, back: Seq<Symbol>)
    ensures
        spelled(front + back) == spelled(front) + spelled(back),
    decreases back.len(),
{
    let all = front + back;
    if back.len() == 0 {
        assert(all =~= front);
        assert(spelled(front) + spelled(back) =~= spelled(front));
    } else {
        lemma_spelled_append(front, back.drop_last());
        assert(all.drop_last() =~= front + back.drop_last());
        assert(spelled(all) =~= spelled(front) + spelled(back));
    }
}

proof fn lemma_spelled_one(symbol: Symbol)
    ensures
        spelled(seq![symbol]) == spelled_symbol(symbol),
{
    assert(seq![symbol].drop_last() =~= Seq::empty());
    assert(spelled(seq![symbol].drop_last()) =~= Seq::<char>::empty());
    assert(spelled(seq![symbol]) =~= spelled_symbol(symbol));
}

proof fn lemma_path_forward(path: Seq<Seq<char>>)
    ensures
        crate::rust_text::path_text(path) == spelled_path(path),
    decreases path.len(),
{
    if path.len() >= 2 {
        lemma_path_forward(path.drop_last());
        lemma_spelled_path_last(path);
    }
}

proof fn lemma_spelled_path_last(path: Seq<Seq<char>>)
    requires
        path.len() >= 2,
    ensures
        spelled_path(path) == spelled_path(path.drop_last()) + "::"@ + path.last(),
    decreases path.len(),
{
    if path.len() == 2 {
        assert(path.drop_first() =~= seq![path[1]]);
        assert(path.drop_last() =~= seq![path[0]]);
        assert(spelled_path(path.drop_first()) == path[1]);
        assert(spelled_path(path.drop_last()) == path[0]);
    } else {
        let rest = path.drop_first();
        lemma_spelled_path_last(rest);
        assert(path.drop_last().drop_first() =~= rest.drop_last());
        assert(spelled_path(path) =~= spelled_path(path.drop_last()) + "::"@ + path.last());
    }
}

/// A name is written with all its identifiers in order, and from the root if it starts there.
pub proof fn lemma_name_text(name: ScopedName)
    ensures
        name.rust_path() == spelled_symbol(Symbol::Name(name.path, name.absolute)),
{
    lemma_path_forward(name.path);
}

/// The Rust text of an expression is its symbols as Rust writes them, one after the other.
pub proof fn lemma_expression_text(expr: ValueExpr)
    requires
        expr.chained(),
    ensures
        expr is BinaryOp ==> " "@ + expr.rust_expr() == spelled(expr.symbols()),
        !(expr is BinaryOp) ==> expr.rust_expr() == spelled(expr.symbols()),
    decreases expr,
{
    match expr {
        ValueExpr::Expr(a, b) => {
            lemma_expression_text(*a);
            lemma_expression_text(*b);
            lemma_spelled_append(a.symbols(), b.symbols());
            assert(expr.rust_expr() =~= a.rust_expr() + (" "@ + b.rust_expr()));
        },
        ValueExpr::UnaryOp(op, a) => {
            let sign = Symbol::Prefix(crate::expression_laws::prefix_sign(op));
            lemma_expression_text(*a);
            lemma_spelled_append(seq![sign], a.symbols());
            lemma_spelled_one(sign);
            reveal_strlit("-");
            reveal_strlit("+");
            reveal_strlit("~");
            assert("-"@[0] == '-' && "+"@[0] == '+' && "~"@[0] == '~');
        },
        ValueExpr::BinaryOp(op, a) => {
            let sign = Symbol::Infix(crate::expression_laws::infix_sign(op));
            lemma_expression_text(*a);
            lemma_spelled_append(seq![sign], a.symbols());
            lemma_spelled_one(sign);
            assert(" "@ + expr.rust_expr() =~= (" "@ + crate::expression_laws::infix_sign(op)
                + " "@) + a.rust_expr());
        },
        ValueExpr::Brace(a) => {
            lemma_expression_text(*a);
            lemma_spelled_append(seq![Symbol::Open], a.symbols());
            lemma_spelled_append(seq![Symbol::Open] + a.symbols(), seq![Symbol::Close]);
            lemma_spelled_one(Symbol::Open);
            lemma_spelled_one(Symbol::Close);
        },
        ValueExpr::ScopedName(name) => {
            lemma_spelled_one(Symbol::Name(name.path, name.absolute));
            lemma_name_text(name);
        },
        ValueExpr::FloatLiteral(i, f, e, s) => {
            lemma_spelled_one(Symbol::Float(i, f, e, s));
            reveal_strlit("");
            assert(expr.rust_expr() =~= spelled_symbol(Symbol::Float(i, f, e, s)));
        },
        _ => {
            let symbols = expr.symbols();
            assert(symbols =~= seq![symbols[0]]);
            lemma_spelled_one(symbols[0]);
            reveal_strlit("0o");
            reveal_strlit("0x");
            assert(expr.rust_expr() =~= spelled_symbol(symbols[0]));
        },
    }
}

/// An expression in the shape of the grammar comes out in Rust with all its operators, brackets,
/// names and literals, in the order in which they stand in the file.
pub proof fn lemma_expression_survives(tree: Tree)
    requires
        tree.expression_shaped(),
        tree.rule != Rule::ScopedName,
        crate::expression_laws::infix_of(tree.rule) is None,
    ensures
        tree.const_expr() matches Ok(expr) && expr.rust_expr() == spelled(tree.symbols()),
{
    crate::expression_laws::lemma_nothing_is_lost(tree);
    lemma_expression_text(tree.const_expr()->Ok_0);
}

/// Floating-point literals that differ in one of their integral part, fractional part and
/// exponent alone have different texts.
pub proof fn lemma_float_texts_differ(
    i: Option<Seq<char>>,
    f: Option<Seq<char>>,
    e: Option<Seq<char>>,
    s: Option<Seq<char>>,
    a: Seq<char>,
    b: Seq<char>,
)
    requires
        a != b,
    ensures
        ValueExpr::FloatLiteral(Some(a), f, e, s).rust_expr() != ValueExpr::FloatLiteral(
            Some(b),
            f,
            e,
            s,
        ).rust_expr(),
        ValueExpr::FloatLiteral(i, Some(a), e, s).rust_expr() != ValueExpr::FloatLiteral(
            i,
            Some(b),
            e,
            s,
        ).rust_expr(),
        ValueExpr::FloatLiteral(i, f, Some(a), s).rust_expr() != ValueExpr::FloatLiteral(
            i,
            f,
            Some(b),
            s,
        ).rust_expr(),
{
    let or = |text: Option<Seq<char>>, default: Seq<char>|
        match text {
            Some(text) => text,
            None => default,
        };
    let integral = or(i, "0"@);
    let fractional = or(f, "0"@);
    let exponent = or(e, ""@);
    lemma_around(Seq::empty(), a, b, "."@ + fractional + exponent);
    lemma_around(integral + "."@, a, b, exponent);
    lemma_around(integral + "."@ + fractional, a, b, Seq::empty());
    assert(Seq::<char>::empty() + a + ("."@ + fractional + exponent) =~= a + "."@ + fractional
        + exponent);
    assert(Seq::<char>::empty() + b + ("."@ + fractional + exponent) =~= b + "."@ + fractional
        + exponent);
    assert(integral + "."@ + fractional + a + Seq::<char>::empty() =~= integral + "."@
        + fractional + a);
    assert(integral + "."@ + fractional + b + Seq::<char>::empty() =~= integral + "."@
        + fractional + b);
}

/// Different texts stay different inside the same surroundings.
proof fn lemma_around(front: Seq<char>, a: Seq<char>, b: Seq<char>, back: Seq<char>)
    requires
        a != b,
    ensures
        front + a + back != front + b + back,
{
    let left = front + a + back;
    let right = front + b + back;
    if left == right {
        assert(left.len() == right.len());
        assert(a.len() == b.len());
        assert forall|k: int| 0 <= k < a.len() implies a[k] == b[k] by {
            assert(left[front.len() + k] == a[k]);
            assert(right[front.len() + k] == b[k]);
        }
        assert(a =~= b);
    }
}

/// `n` opening brackets.
pub open spec fn brackets(n: nat) -> Seq<char> {
    Seq::new(n, |i: int| '[')
}

/// What follows the element type of an array: the innermost dimension, which is the last, comes
/// first.
pub open spec fn closings(sizes: Seq<ValueExpr>) -> Seq<char>
    decreases sizes.len(),
{
    if sizes.len() == 0 {
        Seq::empty()
    } else {
        "; ("@ + sizes.last().rust_expr() + ") as usize]"@ + closings(sizes.drop_last())
    }
}

proof fn lemma_closings_first(sizes: Seq<ValueExpr>)
    requires
        sizes.len() >= 1,
    ensures
        closings(sizes) == closings(sizes.drop_first()) + ("; ("@ + sizes[0].rust_expr()
            + ") as usize]"@),
    decreases sizes.len(),
{
    if sizes.len() == 1 {
        assert(sizes.drop_first() =~= Seq::empty());
        assert(sizes.drop_last() =~= Seq::empty());
        assert(closings(sizes) =~= closings(sizes.drop_first()) + ("; ("@ + sizes[0].rust_expr()
            + ") as usize]"@));
    } else {
        lemma_closings_first(sizes.drop_last());
        assert(sizes.drop_last().drop_first() =~= sizes.drop_first().drop_last());
        assert(closings(sizes) =~= closings(sizes.drop_first()) + ("; ("@ + sizes[0].rust_expr()
            + ") as usize]"@));
    }
}

/// The Rust type of an array has one bracket and one size for each dimension, around the type of
/// its elements.
pub proof fn lemma_array_text(element: TypeSpec, sizes: Seq<ValueExpr>)
    ensures
        TypeSpec::ArrayType(Box::new(element), sizes).rust_type() == brackets(sizes.len())
            + element.rust_type() + closings(sizes),
{
    lemma_array_text_around(element.rust_type(), sizes);
}

proof fn lemma_array_text_around(element: Seq<char>, sizes: Seq<ValueExpr>)
    ensures
        crate::rust_text::array_text(element, sizes) == brackets(sizes.len()) + element + closings(
            sizes,
        ),
    decreases sizes.len(),
{
    if sizes.len() == 0 {
        assert(brackets(0) + element + closings(sizes) =~= element);
    } else {
        lemma_array_text_around(element, sizes.drop_first());
        lemma_closings_first(sizes);
        reveal_strlit("[");
        assert("["@ =~= seq!['[']);
        assert(brackets(sizes.len()) =~= "["@ + brackets((sizes.len() - 1) as nat));
        assert(crate::rust_text::array_text(element, sizes) =~= brackets(sizes.len()) + element
            + closings(sizes));
    }
}

/// The Rust types that stand for types, whatever they hold.
pub proof fn lemma_type_texts(element: TypeSpec, name: ScopedName, bound: Option<ValueExpr>)
    ensures
        TypeSpec::SequenceType(Box::new(element)).rust_type() == "Vec<"@ + element.rust_type()
            + ">"@,
        TypeSpec::ScopedName(name).rust_type() == spelled_symbol(
            Symbol::Name(name.path, name.absolute),
        ),
        TypeSpec::StringType(bound).rust_type() == "String"@,
        TypeSpec::WideStringType(bound).rust_type() == "String"@,
        TypeSpec::StringType(bound).rust_const_type() == "&str"@,
        TypeSpec::WideStringType(bound).rust_const_type() == "&str"@,
        !(element is StringType) && !(element is WideStringType) ==> element.rust_const_type()
            == element.rust_type(),
        TypeSpec::F32Type.rust_type() == "f32"@,
        TypeSpec::F64Type.rust_type() == "f64"@,
        TypeSpec::F128Type.rust_type() == "f128"@,
        TypeSpec::I16Type.rust_type() == "i16"@,
        TypeSpec::I32Type.rust_type() == "i32"@,
        TypeSpec::I64Type.rust_type() == "i64"@,
        TypeSpec::U16Type.rust_type() == "u16"@,
        TypeSpec::U32Type.rust_type() == "u32"@,
        TypeSpec::U64Type.rust_type() == "u64"@,
        TypeSpec::CharType.rust_type() == "char"@,
        TypeSpec::WideCharType.rust_type() == "char"@,
        TypeSpec::BooleanType.rust_type() == "bool"@,
        TypeSpec::OctetType.rust_type() == "u8"@,
{
    lemma_name_text(name);
}

}
