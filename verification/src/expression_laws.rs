//! What holds of constant expressions, from parse tree to Rust text: nothing is lost, nothing is
//! added, and everything stays in order.

use crate::ast::{BinaryOp, ScopedName, UnaryOp, ValueExpr};
use crate::error::ParserFault;
use crate::node::Tree;
use crate::rule::Rule;
use vstd::prelude::*;

verus! {

/// One symbol of an expression, as it stands in an IDL file.
#[verifier::ext_equal]
pub enum Symbol {
    /// An operator in front of its operand.
    Prefix(Seq<char>),
    /// An operator between its operands.
    Infix(Seq<char>),
    Open,
    Close,
    /// The identifiers of a name, and whether it starts with `::`.
    Name(Seq<Seq<char>>, bool),
    /// A literal that is kept as it is written, and its kind.
    Literal(Rule, Seq<char>),
    /// Integral part, fractional part, exponent and suffix.
    Float(Option<Seq<char>>, Option<Seq<char>>, Option<Seq<char>>, Option<Seq<char>>),
    Boolean(bool),
}

/// How IDL writes the operator of a rule for an operator and its right operand.
pub open spec fn infix_of(rule: Rule) -> Option<Seq<char>> {
    match rule {
        Rule::OrExpr => Some("|"@),
        Rule::XorExpr => Some("^"@),
        Rule::AndExpr => Some("&"@),
        Rule::LshiftExpr => Some("<<"@),
        Rule::RshiftExpr => Some(">>"@),
        Rule::AddExpr => Some("+"@),
        Rule::SubExpr => Some("-"@),
        Rule::MulExpr => Some("*"@),
        Rule::DivExpr => Some("/"@),
        Rule::ModExpr => Some("%"@),
        _ => None,
    }
}

/// How IDL writes an operator between its operands.
pub open spec fn infix_sign(op: BinaryOp) -> Seq<char> {
    match op {
        BinaryOp::Or => "|"@,
        BinaryOp::Xor => "^"@,
        BinaryOp::And => "&"@,
        BinaryOp::LShift => "<<"@,
        BinaryOp::RShift => ">>"@,
        BinaryOp::Add => "+"@,
        BinaryOp::Sub => "-"@,
        BinaryOp::Mul => "*"@,
        BinaryOp::Div => "/"@,
        BinaryOp::Mod => "%"@,
    }
}

/// How IDL writes an operator in front of its operand.
pub open spec fn prefix_sign(op: UnaryOp) -> Seq<char> {
    match op {
        UnaryOp::Neg => "-"@,
        UnaryOp::Pos => "+"@,
        UnaryOp::Inverse => "~"@,
    }
}

/// Whether a rule matches a literal that is kept as it is written.
pub open spec fn keeps_text(rule: Rule) -> bool {
    match rule {
        Rule::DecimalIntegerLiteral
        | Rule::OctalIntegerLiteral
        | Rule::HexIntegerLiteral
        | Rule::CharacterLiteral
        | Rule::WideCharacterLiteral
        | Rule::StringLiteral
        | Rule::WideStringLiteral => true,
        _ => false,
    }
}

/// The text of the part that was matched by `rule`.
pub open spec fn text_of_part(parts: Seq<Tree>, rule: Rule) -> Option<Seq<char>> {
    if exists|k: int| 0 <= k < parts.len() && (#[trigger] parts[k]).rule == rule {
        let k = choose|k: int| 0 <= k < parts.len() && (#[trigger] parts[k]).rule == rule;
        Some(parts[k].text)
    } else {
        None
    }
}

/// The texts of a list of trees.
pub open spec fn part_texts(parts: Seq<Tree>) -> Seq<Seq<char>> {
    Seq::new(parts.len(), |i: int| parts[i].text)
}

impl Tree {
    /// Whether an expression has the shape that the grammar gives it, down to its literals and
    /// names.
    pub open spec fn expression_shaped(self) -> bool
        decreases self,
    {
        match self.rule {
            Rule::ConstExpr => {
                &&& 1 <= self.parts.len() <= 2
                &&& self.parts[0].rule == Rule::UnaryExpr
                &&& self.parts[0].expression_shaped()
                &&& self.parts.len() == 2 ==> infix_of(self.parts[1].rule) is Some
                    && self.parts[1].expression_shaped()
            },
            Rule::UnaryExpr => {
                &&& 1 <= self.parts.len() <= 2
                &&& self.parts.len() == 1 ==> self.parts[0].rule == Rule::PrimaryExpr
                    && self.parts[0].expression_shaped()
                &&& self.parts.len() == 2 ==> {
                    &&& self.parts[0].text == "-"@ || self.parts[0].text == "+"@
                        || self.parts[0].text == "~"@
                    &&& self.parts[1].rule == Rule::PrimaryExpr
                    &&& self.parts[1].expression_shaped()
                }
            },
            Rule::PrimaryExpr => {
                &&& self.parts.len() == 1
                &&& self.parts[0].rule == Rule::ScopedName || self.parts[0].rule == Rule::Literal
                    || self.parts[0].rule == Rule::ConstExpr
                &&& self.parts[0].expression_shaped()
            },
            Rule::ScopedName => forall|i: int|
                0 <= i < self.parts.len() ==> (#[trigger] self.parts[i]).rule == Rule::Identifier,
            Rule::BooleanLiteral => self.text == "TRUE"@ || self.text == "FALSE"@,
            Rule::FloatingPtLiteral => forall|i: int, j: int|
                0 <= i < j < self.parts.len() ==> (#[trigger] self.parts[i]).rule != (
                #[trigger] self.parts[j]).rule,
            rule => if infix_of(rule) is Some {
                &&& self.parts.len() == 1
                &&& self.parts[0].rule == Rule::ConstExpr
                &&& self.parts[0].expression_shaped()
            } else if keeps_text(rule) {
                true
            } else {
                &&& self.parts.len() == 1
                &&& infix_of(self.parts[0].rule) is None
                &&& self.parts[0].rule != Rule::ScopedName
                &&& self.parts[0].expression_shaped()
            },
        }
    }

    /// The symbols of an expression: those of all its parts, in order.
    pub open spec fn symbols(self) -> Seq<Symbol>
        decreases self,
    {
        match self.rule {
            Rule::ScopedName => seq![
                Symbol::Name(
                    part_texts(self.parts),
                    crate::text::begins_with_colons(self.text),
                ),
            ],
            Rule::BooleanLiteral => seq![Symbol::Boolean(self.text == "TRUE"@)],
            Rule::FloatingPtLiteral => seq![
                Symbol::Float(
                    text_of_part(self.parts, Rule::IntegralPart),
                    text_of_part(self.parts, Rule::FractionalPart),
                    text_of_part(self.parts, Rule::Exponent),
                    text_of_part(self.parts, Rule::FloatSuffix),
                ),
            ],
            Rule::UnaryExpr => if self.parts.len() == 2 {
                seq![Symbol::Prefix(self.parts[0].text)] + self.parts[1].symbols()
            } else {
                forest_symbols(self.parts)
            },
            Rule::PrimaryExpr => if self.parts.len() == 1 && self.parts[0].rule
                == Rule::ConstExpr {
                seq![Symbol::Open] + self.parts[0].symbols() + seq![Symbol::Close]
            } else {
                forest_symbols(self.parts)
            },
            rule => if keeps_text(rule) {
                seq![Symbol::Literal(rule, self.text)]
            } else {
                match infix_of(rule) {
                    Some(sign) => seq![Symbol::Infix(sign)] + forest_symbols(self.parts),
                    None => forest_symbols(self.parts),
                }
            },
        }
    }
}

/// The symbols of a list of trees, in order.
pub open spec fn forest_symbols(trees: Seq<Tree>) -> Seq<Symbol>
    decreases trees,
{
    if trees.len() == 0 {
        Seq::empty()
    } else {
        forest_symbols(trees.drop_last()) + trees.last().symbols()
    }
}

impl ValueExpr {
    /// The symbols of an expression, in order.
    pub open spec fn symbols(self) -> Seq<Symbol>
        decreases self,
    {
        match self {
            ValueExpr::Expr(a, b) => a.symbols() + b.symbols(),
            ValueExpr::UnaryOp(op, a) => seq![Symbol::Prefix(prefix_sign(op))] + a.symbols(),
            ValueExpr::BinaryOp(op, a) => seq![Symbol::Infix(infix_sign(op))] + a.symbols(),
            ValueExpr::ScopedName(name) => seq![Symbol::Name(name.path, name.absolute)],
            ValueExpr::Brace(a) => seq![Symbol::Open] + a.symbols() + seq![Symbol::Close],
            ValueExpr::DecLiteral(text) => seq![
                Symbol::Literal(Rule::DecimalIntegerLiteral, text),
            ],
            ValueExpr::OctLiteral(text) => seq![Symbol::Literal(Rule::OctalIntegerLiteral, text)],
            ValueExpr::HexLiteral(text) => seq![Symbol::Literal(Rule::HexIntegerLiteral, text)],
            ValueExpr::FloatLiteral(i, f, e, s) => seq![Symbol::Float(i, f, e, s)],
            ValueExpr::BooleanLiteral(value) => seq![Symbol::Boolean(value)],
            ValueExpr::CharLiteral(text) => seq![Symbol::Literal(Rule::CharacterLiteral, text)],
            ValueExpr::WideCharLiteral(text) => seq![
                Symbol::Literal(Rule::WideCharacterLiteral, text),
            ],
            ValueExpr::StringLiteral(text) => seq![Symbol::Literal(Rule::StringLiteral, text)],
            ValueExpr::WideStringLiteral(text) => seq![
                Symbol::Literal(Rule::WideStringLiteral, text),
            ],
        }
    }

    /// Whether operators between operands stand between operands.
    pub open spec fn chained(self) -> bool
        decreases self,
    {
        match self {
            ValueExpr::Expr(a, b) => !(*a is BinaryOp) && a.chained() && *b is BinaryOp
                && b.chained(),
            ValueExpr::UnaryOp(_, a) => !(*a is BinaryOp) && a.chained(),
            ValueExpr::BinaryOp(_, a) => !(*a is BinaryOp) && a.chained(),
            ValueExpr::Brace(a) => !(*a is BinaryOp) && a.chained(),
            _ => true,
        }
    }
}

/// Where no rule matched two parts of a literal, the last part of a rule is the one.
proof fn lemma_last_text(parts: Seq<Tree>, rule: Rule)
    requires
        forall|i: int, j: int|
            0 <= i < j < parts.len() ==> (#[trigger] parts[i]).rule != (#[trigger] parts[j]).rule,
    ensures
        crate::reading::last_text(parts, rule) == text_of_part(parts, rule),
    decreases parts.len(),
{
    if parts.len() > 0 {
        let front = parts.drop_last();
        assert forall|i: int, j: int| 0 <= i < j < front.len() implies (#[trigger] front[i]).rule
            != (#[trigger] front[j]).rule by {
            assert(front[i] == parts[i] && front[j] == parts[j]);
        }
        lemma_last_text(front, rule);
        let n = parts.len() - 1;
        if parts[n].rule == rule {
            let k = choose|k: int| 0 <= k < parts.len() && (#[trigger] parts[k]).rule == rule;
            assert(k == n);
        } else {
            if exists|k: int| 0 <= k < parts.len() && (#[trigger] parts[k]).rule == rule {
                let k = choose|k: int| 0 <= k < parts.len() && (#[trigger] parts[k]).rule == rule;
                assert(front[k].rule == rule);
                let m = choose|m: int| 0 <= m < front.len() && (#[trigger] front[m]).rule == rule;
                assert(parts[m].rule == rule);
                assert(m == k);
            } else {
                assert forall|m: int| 0 <= m < front.len() implies (#[trigger] front[m]).rule
                    != rule by {
                    assert(front[m] == parts[m]);
                }
            }
        }
    }
}

/// A scoped name whose parts are identifiers is read with all of them, in order.
pub proof fn lemma_name_is_kept(tree: Tree)
    requires
        forall|i: int|
            0 <= i < tree.parts.len() ==> (#[trigger] tree.parts[i]).rule == Rule::Identifier,
    ensures
        tree.scoped_name() == Ok::<_, ParserFault>(
            ScopedName {
                path: part_texts(tree.parts),
                absolute: tree.text.len() >= 2 && tree.text[0] == ':' && tree.text[1] == ':',
            },
        ),
{
    lemma_identifiers(tree.parts);
}

proof fn lemma_identifiers(trees: Seq<Tree>)
    requires
        forall|i: int| 0 <= i < trees.len() ==> (#[trigger] trees[i]).rule == Rule::Identifier,
    ensures
        crate::reading::collect(trees, crate::reading::reads_identifier()) == Ok::<
            _,
            ParserFault,
        >(part_texts(trees)),
    decreases trees.len(),
{
    if trees.len() > 0 {
        let front = trees.drop_last();
        assert forall|i: int| 0 <= i < front.len() implies (#[trigger] front[i]).rule
            == Rule::Identifier by {
            assert(front[i] == trees[i]);
        }
        lemma_identifiers(front);
        assert(trees[trees.len() - 1].rule == Rule::Identifier);
        assert(part_texts(trees) =~= part_texts(front).push(trees.last().text));
    } else {
        assert(part_texts(trees) =~= Seq::empty());
    }
}

/// No part of an expression is lost, none is added, and none changes its place: an expression
/// in the shape of the grammar is read, and the symbols of what is read are those of the parse
/// tree.
pub proof fn lemma_nothing_is_lost(tree: Tree)
    requires
        tree.expression_shaped(),
        tree.rule != Rule::ScopedName,
    ensures
        tree.const_expr() matches Ok(expr) && expr.symbols() == tree.symbols() && expr.chained()
            && (expr is BinaryOp <==> infix_of(tree.rule) is Some),
    decreases tree,
{
    reveal_with_fuel(forest_symbols, 3);
    reveal_with_fuel(Tree::expression_shaped, 2);
    reveal_with_fuel(Tree::symbols, 2);
    match tree.rule {
        Rule::ConstExpr => {
            lemma_nothing_is_lost(tree.parts[0]);
            if tree.parts.len() == 2 {
                lemma_nothing_is_lost(tree.parts[1]);
                assert(forest_symbols(tree.parts) =~= tree.parts[0].symbols()
                    + tree.parts[1].symbols());
            } else {
                assert(forest_symbols(tree.parts) =~= tree.parts[0].symbols());
            }
        },
        Rule::UnaryExpr => {
            if tree.parts.len() == 2 {
                lemma_nothing_is_lost(tree.parts[1]);
                reveal_strlit("-");
                reveal_strlit("+");
                reveal_strlit("~");
                assert("-"@[0] == '-' && "+"@[0] == '+' && "~"@[0] == '~');
            } else {
                lemma_nothing_is_lost(tree.parts[0]);
                assert(forest_symbols(tree.parts) =~= tree.parts[0].symbols());
            }
        },
        Rule::PrimaryExpr => {
            if tree.parts[0].rule == Rule::ScopedName {
                lemma_name_is_kept(tree.parts[0]);
            } else {
                lemma_nothing_is_lost(tree.parts[0]);
            }
            if tree.parts[0].rule != Rule::ConstExpr {
                assert(forest_symbols(tree.parts) =~= tree.parts[0].symbols());
            }
        },
        Rule::ScopedName => {},
        Rule::BooleanLiteral => {
            crate::reading::lemma_boolean_literals(tree);
        },
        Rule::FloatingPtLiteral => {
            lemma_last_text(tree.parts, Rule::IntegralPart);
            lemma_last_text(tree.parts, Rule::FractionalPart);
            lemma_last_text(tree.parts, Rule::Exponent);
            lemma_last_text(tree.parts, Rule::FloatSuffix);
        },
        rule => {
            if !keeps_text(rule) {
                lemma_nothing_is_lost(tree.parts[0]);
                assert(forest_symbols(tree.parts) =~= tree.parts[0].symbols());
            }
        },
    }
}

/// An operator is applied to the whole of what its operand reads as, and an operand that cannot
/// be read is the error.
pub proof fn lemma_operator_takes_whole_operand(tree: Tree, op: BinaryOp)
    requires
        infix_of(tree.rule) == Some(infix_sign(op)),
        tree.parts.len() >= 1,
    ensures
        forall|operand: ValueExpr|
            tree.parts[0].const_expr() == Ok::<_, ParserFault>(operand) ==> tree.const_expr()
                == Ok::<_, ParserFault>(ValueExpr::BinaryOp(op, Box::new(operand))),
        forall|fault: ParserFault|
            tree.parts[0].const_expr() == Err::<ValueExpr, _>(fault) ==> tree.const_expr() == Err::<
                ValueExpr,
                _,
            >(fault),
{
    lemma_signs_differ();
    let (found, _) = crate::reading::binary_operator_of(tree.rule)->0;
    assert(infix_of(tree.rule) == Some(infix_sign(found)));
    assert(found == op);
}

/// The operators have different signs.
proof fn lemma_signs_differ()
    ensures
        forall|a: BinaryOp, b: BinaryOp| #[trigger]
            infix_sign(a) == #[trigger] infix_sign(b) ==> a == b,
        forall|a: UnaryOp, b: UnaryOp| #[trigger]
            prefix_sign(a) == #[trigger] prefix_sign(b) ==> a == b,
{
    reveal_strlit("|");
    reveal_strlit("^");
    reveal_strlit("&");
    reveal_strlit("<<");
    reveal_strlit(">>");
    reveal_strlit("+");
    reveal_strlit("-");
    reveal_strlit("*");
    reveal_strlit("/");
    reveal_strlit("%");
    reveal_strlit("~");
    assert("|"@[0] == '|' && "^"@[0] == '^' && "&"@[0] == '&' && "<<"@[0] == '<' && ">>"@[0]
        == '>' && "+"@[0] == '+' && "-"@[0] == '-' && "*"@[0] == '*' && "/"@[0] == '/' && "%"@[0]
        == '%' && "~"@[0] == '~');
}

/// A chain is its first operand and then the whole rest; without a rest it is the operand.
pub proof fn lemma_chain_keeps_both(tree: Tree)
    requires
        tree.rule == Rule::ConstExpr,
        tree.parts.len() >= 1,
    ensures
        tree.parts.len() == 1 ==> tree.const_expr() == tree.parts[0].const_expr(),
        tree.parts.len() >= 2 ==> forall|a: ValueExpr, b: ValueExpr|
            tree.parts[0].const_expr() == Ok::<_, ParserFault>(a) && tree.parts[1].const_expr()
                == Ok::<_, ParserFault>(b) ==> #[trigger] tree.const_expr() == Ok::<
                _,
                ParserFault,
            >(ValueExpr::Expr(Box::new(a), Box::new(b))),
        tree.const_expr() is Ok ==> forall|i: int|
            0 <= i < tree.parts.len() && i < 2 ==> (#[trigger] tree.parts[i]).const_expr() is Ok,
{
}

/// A sign is applied to the whole of what follows it; without a sign an operand stands for
/// itself.
pub proof fn lemma_sign_takes_whole_operand(tree: Tree, op: UnaryOp)
    requires
        tree.rule == Rule::UnaryExpr,
    ensures
        tree.parts.len() == 1 ==> tree.const_expr() == tree.parts[0].const_expr(),
        tree.parts.len() >= 2 && tree.parts[0].text == prefix_sign(op) ==> forall|
            operand: ValueExpr,
        |
            tree.parts[1].const_expr() == Ok::<_, ParserFault>(operand) ==> tree.const_expr()
                == Ok::<_, ParserFault>(ValueExpr::UnaryOp(op, Box::new(operand))),
        tree.parts.len() >= 2 && tree.const_expr() is Ok ==> tree.parts[0].text == "-"@
            || tree.parts[0].text == "+"@ || tree.parts[0].text == "~"@,
{
    lemma_signs_differ();
    assert(prefix_sign(UnaryOp::Neg) == "-"@);
    assert(prefix_sign(UnaryOp::Pos) == "+"@);
    assert(prefix_sign(UnaryOp::Inverse) == "~"@);
}

/// What stands in brackets is kept whole, and so are a name and a literal.
pub proof fn lemma_primary_is_kept(tree: Tree)
    requires
        tree.rule == Rule::PrimaryExpr,
        tree.parts.len() >= 1,
    ensures
        tree.parts[0].rule == Rule::ConstExpr ==> forall|inner: ValueExpr|
            tree.parts[0].const_expr() == Ok::<_, ParserFault>(inner) ==> tree.const_expr()
                == Ok::<_, ParserFault>(ValueExpr::Brace(Box::new(inner))),
        tree.parts[0].rule == Rule::Literal ==> tree.const_expr() == tree.parts[0].const_expr(),
        tree.parts[0].rule == Rule::ScopedName ==> forall|name: ScopedName|
            tree.parts[0].scoped_name() == Ok::<_, ParserFault>(name) ==> tree.const_expr()
                == Ok::<_, ParserFault>(ValueExpr::ScopedName(name)),
{
}

/// A literal is kept as it is written, whatever stands in it.
pub proof fn lemma_literal_is_kept(tree: Tree)
    requires
        keeps_text(tree.rule),
    ensures
        tree.const_expr() matches Ok(expr) && expr.symbols() == seq![
            Symbol::Literal(tree.rule, tree.text),
        ],
{
}

/// Each part of a floating-point literal is kept: a part that is there is the only thing that
/// can stand in its place, and nothing stands in the place of one that is not.
pub proof fn lemma_float_parts_are_kept(tree: Tree, k: int)
    requires
        tree.rule == Rule::FloatingPtLiteral,
        0 <= k < tree.parts.len(),
        forall|j: int| k < j < tree.parts.len() ==> (#[trigger] tree.parts[j]).rule
            != tree.parts[k].rule,
    ensures
        tree.const_expr() matches Ok(ValueExpr::FloatLiteral(i, f, e, s)) && {
            &&& tree.parts[k].rule == Rule::IntegralPart ==> i == Some(tree.parts[k].text)
            &&& tree.parts[k].rule == Rule::FractionalPart ==> f == Some(tree.parts[k].text)
            &&& tree.parts[k].rule == Rule::Exponent ==> e == Some(tree.parts[k].text)
            &&& tree.parts[k].rule == Rule::FloatSuffix ==> s == Some(tree.parts[k].text)
        },
{
    lemma_last_of_rule(tree.parts, k);
}

proof fn lemma_last_of_rule(trees: Seq<Tree>, k: int)
    requires
        0 <= k < trees.len(),
        forall|j: int| k < j < trees.len() ==> (#[trigger] trees[j]).rule != trees[k].rule,
    ensures
        crate::reading::last_text(trees, trees[k].rule) == Some(trees[k].text),
    decreases trees.len(),
{
    if k < trees.len() - 1 {
        let front = trees.drop_last();
        assert forall|j: int| k < j < front.len() implies (#[trigger] front[j]).rule
            != front[k].rule by {
            assert(front[j] == trees[j]);
        }
        lemma_last_of_rule(front, k);
        assert(trees[trees.len() - 1].rule != trees[k].rule);
    }
}

/// Whatever only wraps an expression stands for it.
pub proof fn lemma_wrapper_is_transparent(tree: Tree)
    requires
        tree.rule == Rule::Other || tree.rule == Rule::Literal,
        tree.parts.len() >= 1,
    ensures
        tree.const_expr() == tree.parts[0].const_expr(),
{
}

/// Whether a character is a letter, as a capital or not.
pub open spec fn is_letter(c: char, capital: char, small: char) -> bool {
    c == capital || c == small
}

/// A boolean literal is true exactly if it spells the word, in capitals or not, and is never an
/// error.
pub proof fn lemma_boolean_in_any_case(tree: Tree)
    requires
        tree.rule == Rule::BooleanLiteral,
    ensures
        crate::text::ascii_text(tree.text) ==> tree.const_expr() == Ok::<_, ParserFault>(
            ValueExpr::BooleanLiteral(
                tree.text.len() == 4 && is_letter(tree.text[0], 'T', 't') && is_letter(
                    tree.text[1],
                    'R',
                    'r',
                ) && is_letter(tree.text[2], 'U', 'u') && is_letter(tree.text[3], 'E', 'e'),
            ),
        ),
        !crate::text::ascii_text(tree.text) ==> tree.const_expr() == Ok::<_, ParserFault>(
            ValueExpr::BooleanLiteral(crate::text::unicode_uppercase(tree.text) == "TRUE"@),
        ),
{
    if crate::text::ascii_text(tree.text) {
        let capitals = crate::text::ascii_capitals(tree.text);
        reveal_strlit("TRUE");
        assert("TRUE"@.len() == 4 && "TRUE"@[0] == 'T' && "TRUE"@[1] == 'R' && "TRUE"@[2] == 'U'
            && "TRUE"@[3] == 'E');
        if tree.text.len() == 4 {
            assert(capitals[0] == crate::text::ascii_capital(tree.text[0]));
            assert(capitals[1] == crate::text::ascii_capital(tree.text[1]));
            assert(capitals[2] == crate::text::ascii_capital(tree.text[2]));
            assert(capitals[3] == crate::text::ascii_capital(tree.text[3]));
            if capitals[0] == 'T' && capitals[1] == 'R' && capitals[2] == 'U' && capitals[3]
                == 'E' {
                assert(capitals =~= "TRUE"@);
            }
        }
    }
}

}
