//! Reading what each node of a parse tree declares.

use crate::ast::{
    BinaryOp, IdlConstDcl, IdlScopedName, IdlStructMember, IdlSwitchCase, IdlSwitchElement,
    IdlSwitchLabel, IdlTypeDcl, IdlTypeDclKind, IdlTypeSpec, IdlValueExpr, TypeDcl, UnaryOp,
};
use crate::context::Context;
use crate::error::{ParserError, ParserFault};
use crate::node::Node;
use crate::rule::Rule;
use crate::text::{joined, same_text, starts_with_colons, uppercase};
use vstd::prelude::*;

verus! {

broadcast use crate::node::group_node_model;

/// Finds the operator of a rule that matches an operator and its right operand, and what
/// messages call such a match.
pub fn binary_operator(rule: Rule) -> (found: Option<(BinaryOp, &'static str)>)
    ensures
        match found {
            Some((op, what)) => crate::reading::binary_operator_of(rule) == Some((op, what@)),
            None => crate::reading::binary_operator_of(rule) is None,
        },
{
    match rule {
        Rule::AndExpr => Some((BinaryOp::And, "and expression")),
        Rule::OrExpr => Some((BinaryOp::Or, "or expression")),
        Rule::XorExpr => Some((BinaryOp::Xor, "xor expression")),
        Rule::LshiftExpr => Some((BinaryOp::LShift, "left shift expression")),
        Rule::RshiftExpr => Some((BinaryOp::RShift, "right shift expression")),
        Rule::AddExpr => Some((BinaryOp::Add, "add expression")),
        Rule::SubExpr => Some((BinaryOp::Sub, "sub expression")),
        Rule::MulExpr => Some((BinaryOp::Mul, "multiply expression")),
        Rule::DivExpr => Some((BinaryOp::Div, "division expression")),
        Rule::ModExpr => Some((BinaryOp::Mod, "modulo expression")),
        _ => None,
    }
}

/// Finds the operator that is written `text`.
pub fn unary_operator(text: &str) -> (found: Option<UnaryOp>)
    ensures
        found == crate::reading::unary_operator_of(text@),
{
    if same_text(text, "-") {
        Some(UnaryOp::Neg)
    } else if same_text(text, "+") {
        Some(UnaryOp::Pos)
    } else if same_text(text, "~") {
        Some(UnaryOp::Inverse)
    } else {
        None
    }
}

/// Finds the type that a rule without parts of its own stands for.
pub fn basic_type(rule: Rule) -> (found: Option<IdlTypeSpec>)
    ensures
        match found {
            Some(basic) => crate::reading::basic_type_of(rule) == Some(basic@),
            None => crate::reading::basic_type_of(rule) is None,
        },
{
    match rule {
        Rule::Float => Some(IdlTypeSpec::F32Type),
        Rule::Double => Some(IdlTypeSpec::F64Type),
        Rule::LongDouble => Some(IdlTypeSpec::F128Type),
        Rule::UnsignedShortInt => Some(IdlTypeSpec::U16Type),
        Rule::UnsignedLonglongInt => Some(IdlTypeSpec::U64Type),
        Rule::UnsignedLongInt => Some(IdlTypeSpec::U32Type),
        Rule::SignedShortInt => Some(IdlTypeSpec::I16Type),
        Rule::SignedLonglongInt => Some(IdlTypeSpec::I64Type),
        Rule::SignedLongInt => Some(IdlTypeSpec::I32Type),
        Rule::CharType => Some(IdlTypeSpec::CharType),
        Rule::WideCharType => Some(IdlTypeSpec::WideCharType),
        Rule::BooleanType => Some(IdlTypeSpec::BooleanType),
        Rule::OctetType => Some(IdlTypeSpec::OctetType),
        _ => None,
    }
}

/// Whether a boolean literal whose uppercase is `upper` is true.
pub fn boolean_value(upper: &str) -> (value: bool)
    ensures
        value == (upper@ == "TRUE"@),
{
    same_text(upper, "TRUE")
}

/// The parts of a floating point literal that were found in a list of nodes: integral part,
/// fractional part, exponent and suffix.
fn float_parts(nodes: &Vec<Node>) -> (found: (
    Option<String>,
    Option<String>,
    Option<String>,
    Option<String>,
))
    ensures
        ({
            let trees = crate::node::forest_model(nodes@);
            let (i, f, e, s) = found;
            &&& crate::ast::optional_text(i) == crate::reading::last_text(trees, Rule::IntegralPart)
            &&& crate::ast::optional_text(f) == crate::reading::last_text(
                trees,
                Rule::FractionalPart,
            )
            &&& crate::ast::optional_text(e) == crate::reading::last_text(trees, Rule::Exponent)
            &&& crate::ast::optional_text(s) == crate::reading::last_text(trees, Rule::FloatSuffix)
        }),
{
    let mut integral: Option<String> = None;
    let mut fractional: Option<String> = None;
    let mut exponent: Option<String> = None;
    let mut suffix: Option<String> = None;
    let ghost trees = crate::node::forest_model(nodes@);
    let mut i: usize = 0;
    while i < nodes.len()
        invariant
            i <= nodes@.len(),
            trees == crate::node::forest_model(nodes@),
            crate::ast::optional_text(integral) == crate::reading::last_text(
                trees.take(i as int),
                Rule::IntegralPart,
            ),
            crate::ast::optional_text(fractional) == crate::reading::last_text(
                trees.take(i as int),
                Rule::FractionalPart,
            ),
            crate::ast::optional_text(exponent) == crate::reading::last_text(
                trees.take(i as int),
                Rule::Exponent,
            ),
            crate::ast::optional_text(suffix) == crate::reading::last_text(
                trees.take(i as int),
                Rule::FloatSuffix,
            ),
        decreases nodes@.len() - i,
    {
        let node = &nodes[i];
        proof {
            assert(trees[i as int] == node@);
            assert(trees.take(i + 1).drop_last() =~= trees.take(i as int));
            assert(trees.take(i + 1).last() == node@);
            assert(node@.rule == node.rule);
        }
        match node.rule {
            Rule::IntegralPart => {
                integral = Some(node.text.clone());
            },
            Rule::FractionalPart => {
                fractional = Some(node.text.clone());
            },
            Rule::Exponent => {
                exponent = Some(node.text.clone());
            },
            Rule::FloatSuffix => {
                suffix = Some(node.text.clone());
            },
            _ => {},
        }
        i = i + 1;
    }
    assert(trees.take(i as int) =~= trees);
    (integral, fractional, exponent, suffix)
}

impl<'i> Context<'i> {
    /// identifier = @{ (alpha | "_") ~ ("_" | alpha | digit)* }
    pub fn read_identifier(&self, pair: &Node) -> (id: Result<String, ParserError>)
        ensures
            crate::error::outcome(id) == pair@.identifier(),
    {
        match pair.rule {
            Rule::Identifier | Rule::Enumerator => Ok(pair.text.clone()),
            _ => Err(
                ParserError::new("Pair did not contain a valid scoped name rule", pair.start),
            ),
        }
    }

    /// Reads the identifiers of a list of nodes from `from` on.
    fn read_identifiers(&self, nodes: &Vec<Node>, from: usize) -> (ids: Result<
        Vec<String>,
        ParserError,
    >)
        requires
            from <= nodes@.len(),
        ensures
            match ids {
                Ok(names) => crate::reading::collect(
                    crate::node::forest_model(nodes@).skip(from as int),
                    crate::reading::reads_identifier(),
                ) == Ok::<_, ParserFault>(crate::text::texts(names@)),
                Err(error) => crate::reading::collect(
                    crate::node::forest_model(nodes@).skip(from as int),
                    crate::reading::reads_identifier(),
                ) == Err::<Seq<Seq<char>>, _>(error@),
            },
    {
        let ghost read = crate::reading::reads_identifier();
        let ghost trees = crate::node::forest_model(nodes@).skip(from as int);
        let mut names: Vec<String> = Vec::new();
        let mut i: usize = from;
        assert(crate::text::texts(names@) =~= Seq::empty());
        while i < nodes.len()
            invariant
                from <= i <= nodes@.len(),
                trees == crate::node::forest_model(nodes@).skip(from as int),
                read == crate::reading::reads_identifier(),
                crate::reading::collect(trees.take(i - from), read) == Ok::<_, ParserFault>(
                    crate::text::texts(names@),
                ),
            decreases nodes@.len() - i,
        {
            let ghost before = names@;
            proof {
                assert(trees[i - from] == nodes@[i as int]@);
                crate::reading::lemma_collect_step(trees, i - from, read);
            }
            match self.read_identifier(&nodes[i]) {
                Ok(name) => {
                    names.push(name);
                    assert(crate::text::texts(names@) =~= crate::text::texts(before).push(name@));
                },
                Err(error) => {
                    proof {
                        crate::reading::lemma_collect_fails(trees, i - from + 1, read);
                    }
                    return Err(error);
                },
            }
            i = i + 1;
        }
        assert(trees.take(i - from) =~= trees);
        Ok(names)
    }

    /// scoped_name = { "::"? ~ identifier ~ ("::" ~ identifier)* }
    pub fn read_scoped_name(&self, pair: &Node) -> (name: Result<IdlScopedName, ParserError>)
        ensures
            crate::error::outcome(name) == pair@.scoped_name(),
    {
        let absolute = starts_with_colons(pair.text.as_str());
        assert(pair@.parts.skip(0) =~= pair@.parts);
        let path = self.read_identifiers(&pair.parts, 0)?;
        Ok(IdlScopedName(path, absolute))
    }

    /// const_expr = { unary_expr ~ (or_expr | xor_expr | and_expr | shift_expr | add_expr | mult_expr)? }
    pub fn read_const_expr(&self, pair: &Node) -> (expr: Result<IdlValueExpr, ParserError>)
        requires
            pair@.wf(),
        ensures
            crate::error::outcome(expr) == pair@.const_expr(),
        decreases pair,
    {
        let count = pair.parts.len();
        assert(forall|i: int| 0 <= i < count ==> pair@.parts[i] == #[trigger] pair.parts@[i]@);
        if let Some((op, what)) = binary_operator(pair.rule) {
            if count == 0 {
                let message = joined("No associated values found with the parsed '", what);
                return Err(ParserError::new(joined(message.as_str(), "'").as_str(), pair.start));
            }
            let expr = self.read_const_expr(&pair.parts[0])?;
            return Ok(IdlValueExpr::BinaryOp(op, Box::new(expr)));
        }
        match pair.rule {
            Rule::ConstExpr => {
                if count >= 2 {
                    let left = self.read_const_expr(&pair.parts[0])?;
                    let right = self.read_const_expr(&pair.parts[1])?;
                    Ok(IdlValueExpr::Expr(Box::new(left), Box::new(right)))
                } else if count == 1 {
                    self.read_const_expr(&pair.parts[0])
                } else {
                    Err(
                        ParserError::new(
                            "Pair did not contain a valid const expression rule",
                            pair.start,
                        ),
                    )
                }
            },
            Rule::UnaryExpr => {
                if count >= 2 {
                    let expr = self.read_const_expr(&pair.parts[1])?;
                    let sign = pair.parts[0].text.as_str();
                    match unary_operator(sign) {
                        Some(op) => Ok(IdlValueExpr::UnaryOp(op, Box::new(expr))),
                        None => {
                            let message = joined(
                                sign,
                                " does not match acceptable values -|+|~",
                            );
                            Err(ParserError::new(message.as_str(), pair.parts[1].start))
                        },
                    }
                } else if count == 1 {
                    self.read_const_expr(&pair.parts[0])
                } else {
                    Err(
                        ParserError::new(
                            "Rule does not match expected unary expression format",
                            pair.start,
                        ),
                    )
                }
            },
            Rule::PrimaryExpr => {
                if count >= 1 && pair.parts[0].rule == Rule::ScopedName {
                    let name = self.read_scoped_name(&pair.parts[0])?;
                    Ok(IdlValueExpr::ScopedName(name))
                } else if count >= 1 && pair.parts[0].rule == Rule::Literal {
                    self.read_const_expr(&pair.parts[0])
                } else if count >= 1 && pair.parts[0].rule == Rule::ConstExpr {
                    let expr = self.read_const_expr(&pair.parts[0])?;
                    Ok(IdlValueExpr::Brace(Box::new(expr)))
                } else {
                    Err(
                        ParserError::new(
                            "Primary expression did not match 'scoped_name', 'literal', or 'const expression'",
                            pair.start,
                        ),
                    )
                }
            },
            Rule::DecimalIntegerLiteral => Ok(IdlValueExpr::DecLiteral(pair.text.clone())),
            Rule::OctalIntegerLiteral => Ok(IdlValueExpr::OctLiteral(pair.text.clone())),
            Rule::HexIntegerLiteral => Ok(IdlValueExpr::HexLiteral(pair.text.clone())),
            Rule::FloatingPtLiteral => {
                let (integral, fractional, exponent, suffix) = float_parts(&pair.parts);
                Ok(IdlValueExpr::FloatLiteral(integral, fractional, exponent, suffix))
            },
            Rule::BooleanLiteral => {
                let upper = uppercase(pair.text.as_str());
                Ok(IdlValueExpr::BooleanLiteral(boolean_value(upper.as_str())))
            },
            Rule::CharacterLiteral => Ok(IdlValueExpr::CharLiteral(pair.text.clone())),
            Rule::WideCharacterLiteral => Ok(IdlValueExpr::WideCharLiteral(pair.text.clone())),
            Rule::StringLiteral => Ok(IdlValueExpr::StringLiteral(pair.text.clone())),
            Rule::WideStringLiteral => Ok(IdlValueExpr::WideStringLiteral(pair.text.clone())),
            _ => {
                if count >= 1 {
                    self.read_const_expr(&pair.parts[0])
                } else {
                    Err(
                        ParserError::new(
                            "Failed to read 'const expression' in the catch all",
                            pair.start,
                        ),
                    )
                }
            },
        }
    }

    /// type_spec = { template_type_spec | simple_type_spec }
    pub fn read_type_spec(&self, pair: &Node) -> (type_spec: Result<IdlTypeSpec, ParserError>)
        requires
            pair@.wf(),
        ensures
            crate::error::outcome(type_spec) == pair@.type_spec(),
        decreases pair,
    {
        let count = pair.parts.len();
        assert(forall|i: int| 0 <= i < count ==> pair@.parts[i] == #[trigger] pair.parts@[i]@);
        if let Some(basic) = basic_type(pair.rule) {
            return Ok(basic);
        }
        match pair.rule {
            Rule::StringType => {
                if count == 0 {
                    Ok(IdlTypeSpec::StringType(None))
                } else {
                    let bound = self.read_const_expr(&pair.parts[0])?;
                    Ok(IdlTypeSpec::StringType(Some(Box::new(bound))))
                }
            },
            Rule::WideStringType => {
                if count == 0 {
                    Ok(IdlTypeSpec::WideStringType(None))
                } else {
                    let bound = self.read_const_expr(&pair.parts[0])?;
                    Ok(IdlTypeSpec::WideStringType(Some(Box::new(bound))))
                }
            },
            Rule::SequenceType => {
                if count == 0 {
                    return Err(
                        ParserError::new(
                            "Failed to discover required components to establish a sequence",
                            pair.start,
                        ),
                    );
                }
                let element = self.read_type_spec(&pair.parts[0])?;
                if count >= 2 {
                    let _bound = self.read_const_expr(&pair.parts[1])?;
                }
                Ok(IdlTypeSpec::SequenceType(Box::new(element)))
            },
            //  scoped_name = { "::"? ~ identifier ~ ("::" ~ identifier)* }
            Rule::ScopedName => {
                let name = self.read_scoped_name(pair)?;
                Ok(IdlTypeSpec::ScopedName(name))
            },
            // go deeper
            _ => {
                if count >= 1 {
                    self.read_type_spec(&pair.parts[0])
                } else {
                    Err(
                        ParserError::new("Failed find a deeper rule pair to follow", pair.start),
                    )
                }
            },
        }
    }

    /// array_declarator = { identifier ~ fixed_array_size+ }
    ///
    /// Reads the dimensions. One without an expression is an error that says `message`, at
    /// `pos` or else at the dimension itself.
    fn read_array_sizes(&self, decl: &Node, message: &str, pos: Option<usize>) -> (sizes: Result<
        Vec<IdlValueExpr>,
        ParserError,
    >)
        requires
            decl@.wf(),
            decl.parts@.len() >= 1,
        ensures
            ({
                let at: Option<nat> = match pos {
                    Some(pos) => Some(pos as nat),
                    None => None,
                };
                let read = crate::reading::collect(
                    decl@.later_parts(),
                    crate::reading::reads_size(message@, at),
                );
                match sizes {
                    Ok(exprs) => read == Ok::<_, ParserFault>(crate::ast::expr_models(exprs@)),
                    Err(error) => read == Err::<Seq<crate::ast::ValueExpr>, _>(error@),
                }
            }),
    {
        let ghost at: Option<nat> = match pos {
            Some(pos) => Some(pos as nat),
            None => None,
        };
        let ghost read = crate::reading::reads_size(message@, at);
        let ghost trees = decl@.later_parts();
        let mut exprs: Vec<IdlValueExpr> = Vec::new();
        let mut i: usize = 1;
        assert(crate::ast::expr_models(exprs@) =~= Seq::empty());
        while i < decl.parts.len()
            invariant
                1 <= i <= decl.parts@.len(),
                decl@.wf(),
                trees == decl@.later_parts(),
                at == (match pos {
                    Some(pos) => Some(pos as nat),
                    None => None,
                }),
                read == crate::reading::reads_size(message@, at),
                crate::reading::collect(trees.take(i - 1), read) == Ok::<_, ParserFault>(
                    crate::ast::expr_models(exprs@),
                ),
            decreases decl.parts@.len() - i,
        {
            let ghost before = exprs@;
            let size = &decl.parts[i];
            proof {
                assert(decl@.parts[i as int] == size@);
                assert(trees[i - 1] == size@);
                assert(size@.wf());
                crate::reading::lemma_collect_step(trees, i - 1, read);
            }
            let expr = if size.parts.len() >= 1 {
                assert(size@.parts[0] == size.parts@[0]@);
                self.read_const_expr(&size.parts[0])
            } else {
                Err(
                    ParserError::new(
                        message,
                        match pos {
                            Some(pos) => pos,
                            None => size.start,
                        },
                    ),
                )
            };
            match expr {
                Ok(expr) => {
                    exprs.push(expr);
                    assert(crate::ast::expr_models(exprs@) =~= crate::ast::expr_models(
                        before,
                    ).push(expr@));
                },
                Err(error) => {
                    proof {
                        crate::reading::lemma_collect_fails(trees, i as int, read);
                    }
                    return Err(error);
                },
            }
            i = i + 1;
        }
        assert(trees.take(i - 1) =~= trees);
        Ok(exprs)
    }

    /// declarator = { array_declarator | simple_declarator }
    /// array_declarator = { identifier ~ fixed_array_size+ }
    /// simple_declarator = { identifier }
    pub fn read_struct_member_declarator(
        &self,
        pair: &Node,
        type_spec: &IdlTypeSpec,
    ) -> (member: Result<IdlStructMember, ParserError>)
        requires
            pair@.wf(),
        ensures
            crate::error::outcome(member) == pair@.struct_member_declarator(type_spec@),
    {
        if pair.parts.len() == 0 {
            return Err(
                ParserError::new(
                    "Pair did not contain a either other a simple or arraty declarator",
                    pair.start,
                ),
            );
        }
        let decl = &pair.parts[0];
        assert(pair@.parts[0] == decl@);
        match decl.rule {
            // simple_declarator = { identifier }
            Rule::SimpleDeclarator => {
                if decl.parts.len() == 0 {
                    return Err(
                        ParserError::new(
                            "Pair did not contain a valid IDL simple declarator",
                            decl.start,
                        ),
                    );
                }
                assert(decl@.parts[0] == decl.parts@[0]@);
                let id = self.read_identifier(&decl.parts[0])?;
                Ok(IdlStructMember { id, type_spec: type_spec.clone() })
            },
            // array_declarator = { identifier ~ fixed_array_size+ }
            Rule::ArrayDeclarator => {
                if decl.parts.len() == 0 {
                    return Err(
                        ParserError::new(
                            "Pair did not contain a valid IDL array declatator",
                            decl.start,
                        ),
                    );
                }
                assert(decl@.parts[0] == decl.parts@[0]@);
                let sizes = self.read_array_sizes(
                    decl,
                    "Pair did not contain a valid 'const expression'",
                    Some(decl.start),
                )?;
                let id = self.read_identifier(&decl.parts[0])?;
                Ok(
                    IdlStructMember {
                        id,
                        type_spec: IdlTypeSpec::ArrayType(Box::new(type_spec.clone()), sizes),
                    },
                )
            },
            _ => Err(ParserError::new("Pair did not contain a valid IDL type rule", decl.start)),
        }
    }

    /// member = { type_spec ~ declarators ~ ";" }
    /// declarators = { declarator ~ ("," ~ declarator )* }
    /// declarator = { array_declarator | simple_declarator }
    pub fn read_struct_member(&self, pair: &Node) -> (members: Result<
        Vec<IdlStructMember>,
        ParserError,
    >)
        requires
            pair@.wf(),
        ensures
            match members {
                Ok(members) => pair@.struct_member() == Ok::<_, ParserFault>(
                    crate::ast::member_models(members@),
                ),
                Err(error) => pair@.struct_member() == Err::<Seq<crate::ast::StructMember>, _>(
                    error@,
                ),
            },
    {
        if pair.parts.len() == 0 {
            return Err(
                ParserError::new("Pair did not contain a valid IDL type rule", pair.start),
            );
        }
        assert(pair@.parts[0] == pair.parts@[0]@);
        let type_spec = self.read_type_spec(&pair.parts[0])?;
        if pair.parts.len() == 1 {
            return Err(ParserError::new("Failed to aquire next declaration pair", pair.start));
        }
        let list = &pair.parts[1];
        assert(pair@.parts[1] == list@);
        let ghost read = crate::reading::reads_member_declarator(type_spec@);
        let ghost trees = list@.parts;
        let mut members: Vec<IdlStructMember> = Vec::new();
        let mut i: usize = 0;
        assert(crate::ast::member_models(members@) =~= Seq::empty());
        while i < list.parts.len()
            invariant
                i <= list.parts@.len(),
                list@.wf(),
                trees == list@.parts,
                read == crate::reading::reads_member_declarator(type_spec@),
                pair@.struct_member() == crate::reading::collect(trees, read),
                crate::reading::collect(trees.take(i as int), read) == Ok::<_, ParserFault>(
                    crate::ast::member_models(members@),
                ),
            decreases list.parts@.len() - i,
        {
            let ghost before = members@;
            proof {
                assert(trees[i as int] == list.parts@[i as int]@);
                crate::reading::lemma_collect_step(trees, i as int, read);
            }
            match self.read_struct_member_declarator(&list.parts[i], &type_spec) {
                Ok(member) => {
                    members.push(member);
                    assert(crate::ast::member_models(members@) =~= crate::ast::member_models(
                        before,
                    ).push(member@));
                },
                Err(error) => {
                    proof {
                        crate::reading::lemma_collect_fails(trees, i + 1, read);
                    }
                    return Err(error);
                },
            }
            i = i + 1;
        }
        assert(trees.take(i as int) =~= trees);
        Ok(members)
    }

    /// declarator = { array_declarator | simple_declarator }
    /// array_declarator = { identifier ~ fixed_array_size+ }
    /// simple_declarator = { identifier }
    pub fn read_switch_element_declarator(
        &self,
        pair: &Node,
        type_spec: &IdlTypeSpec,
    ) -> (element: Result<IdlSwitchElement, ParserError>)
        requires
            pair@.wf(),
        ensures
            crate::error::outcome(element) == pair@.switch_element_declarator(type_spec@),
    {
        if pair.parts.len() == 0 {
            return Err(
                ParserError::new("Failed to parse switch element declarator", pair.start),
            );
        }
        let decl = &pair.parts[0];
        assert(pair@.parts[0] == decl@);
        match decl.rule {
            // simple_declarator = { identifier }
            Rule::SimpleDeclarator => {
                if decl.parts.len() == 0 {
                    return Err(
                        ParserError::new(
                            "Failed to discover simple declarator for switch element",
                            decl.start,
                        ),
                    );
                }
                assert(decl@.parts[0] == decl.parts@[0]@);
                let id = self.read_identifier(&decl.parts[0])?;
                Ok(IdlSwitchElement { id, type_spec: type_spec.clone() })
            },
            // array_declarator = { identifier ~ fixed_array_size+ }
            Rule::ArrayDeclarator => {
                if decl.parts.len() == 0 {
                    return Err(
                        ParserError::new(
                            "Failed to parse array declarator for switch element declarator",
                            decl.start,
                        ),
                    );
                }
                assert(decl@.parts[0] == decl.parts@[0]@);
                let id = self.read_identifier(&decl.parts[0])?;
                let sizes = self.read_array_sizes(
                    decl,
                    "Failed to discover const_expr under the fixed_array_size for switch element declarator",
                    None,
                )?;
                Ok(
                    IdlSwitchElement {
                        id,
                        type_spec: IdlTypeSpec::ArrayType(Box::new(type_spec.clone()), sizes),
                    },
                )
            },
            _ => Err(
                ParserError::new(
                    "Failed to discover either simple or array declarator for switch element declarator",
                    decl.start,
                ),
            ),
        }
    }

    /// element_spec = { type_spec ~ declarator }
    pub fn read_switch_element_spec(&self, pair: &Node) -> (element: Result<
        IdlSwitchElement,
        ParserError,
    >)
        requires
            pair@.wf(),
        ensures
            crate::error::outcome(element) == pair@.switch_element_spec(),
    {
        if pair.parts.len() == 0 {
            return Err(
                ParserError::new(
                    "Failed to read type spec from the switch element spec",
                    pair.start,
                ),
            );
        }
        assert(pair@.parts[0] == pair.parts@[0]@);
        let type_spec = self.read_type_spec(&pair.parts[0])?;
        if pair.parts.len() == 1 {
            return Err(
                ParserError::new(
                    "Failed to read declarator from the switch element spec",
                    pair.start,
                ),
            );
        }
        assert(pair@.parts[1] == pair.parts@[1]@);
        self.read_switch_element_declarator(&pair.parts[1], &type_spec)
    }

    /// switch_type_spec = {integer_type | char_type | boolean_type | wide_char_type | octet_type | scoped_name }
    pub fn read_switch_type_spec(&self, pair: &Node) -> (type_spec: Result<
        IdlTypeSpec,
        ParserError,
    >)
        requires
            pair@.wf(),
        ensures
            crate::error::outcome(type_spec) == pair@.switch_type_spec(),
    {
        if pair.parts.len() == 0 {
            return Err(
                ParserError::new("Failed to read associated type for switch type", pair.start),
            );
        }
        assert(pair@.parts[0] == pair.parts@[0]@);
        self.read_type_spec(&pair.parts[0])
    }

    /// case_label = { "case" ~ const_expr ~ ":" | "default" ~ ":" }
    pub fn read_switch_label(&self, pair: &Node) -> (label: Result<IdlSwitchLabel, ParserError>)
        requires
            pair@.wf(),
        ensures
            crate::error::outcome(label) == pair@.switch_label(),
    {
        if pair.parts.len() == 0 {
            return Ok(IdlSwitchLabel::Default);
        }
        assert(pair@.parts[0] == pair.parts@[0]@);
        let expr = self.read_const_expr(&pair.parts[0])?;
        Ok(IdlSwitchLabel::Label(expr))
    }

    /// Reads the labels among the parts of a union case.
    fn read_case_labels(&self, pair: &Node) -> (labels: Result<Vec<IdlSwitchLabel>, ParserError>)
        requires
            pair@.wf(),
        ensures
            match labels {
                Ok(labels) => pair@.case_labels() == Ok::<_, ParserFault>(
                    crate::ast::label_models(labels@),
                ),
                Err(error) => pair@.case_labels() == Err::<Seq<crate::ast::SwitchLabel>, _>(error@),
            },
    {
        let ghost read = crate::reading::reads_label();
        let ghost trees = crate::reading::of_rule(pair@.parts, Rule::CaseLabel);
        let mut labels: Vec<IdlSwitchLabel> = Vec::new();
        let mut i: usize = 0;
        proof {
            assert(crate::ast::label_models(labels@) =~= Seq::empty());
            assert(crate::reading::of_rule(pair@.parts.take(0), Rule::CaseLabel) =~= trees.take(0));
        }
        while i < pair.parts.len()
            invariant
                i <= pair.parts@.len(),
                pair@.wf(),
                read == crate::reading::reads_label(),
                trees == crate::reading::of_rule(pair@.parts, Rule::CaseLabel),
                crate::reading::collect(
                    crate::reading::of_rule(pair@.parts.take(i as int), Rule::CaseLabel),
                    read,
                ) == Ok::<_, ParserFault>(crate::ast::label_models(labels@)),
            decreases pair.parts@.len() - i,
        {
            let ghost before = labels@;
            let part = &pair.parts[i];
            let ghost so_far = crate::reading::of_rule(
                pair@.parts.take(i as int),
                Rule::CaseLabel,
            );
            let ghost next = crate::reading::of_rule(pair@.parts.take(i + 1), Rule::CaseLabel);
            proof {
                assert(pair@.parts[i as int] == part@);
                assert(part@.rule == part.rule);
                assert(pair@.parts.take(i + 1).drop_last() =~= pair@.parts.take(i as int));
                if part.rule == Rule::CaseLabel {
                    assert(next.drop_last() =~= so_far);
                    assert(next.last() == part@);
                }
            }
            if part.rule == Rule::CaseLabel {
                match self.read_switch_label(part) {
                    Ok(label) => {
                        labels.push(label);
                        assert(crate::ast::label_models(labels@) =~= crate::ast::label_models(
                            before,
                        ).push(label@));
                    },
                    Err(error) => {
                        proof {
                            crate::reading::lemma_of_rule_prefix(
                                pair@.parts,
                                i + 1,
                                Rule::CaseLabel,
                            );
                            crate::reading::lemma_collect_fails(trees, next.len() as int, read);
                        }
                        return Err(error);
                    },
                }
            }
            i = i + 1;
        }
        assert(pair@.parts.take(i as int) =~= pair@.parts);
        Ok(labels)
    }

    /// case = { case_label+ ~ element_spec ~ ";" }
    pub fn read_switch_case(&self, pair: &Node) -> (case: Result<IdlSwitchCase, ParserError>)
        requires
            pair@.wf(),
            pair@.has_part(Rule::ElementSpec),
        ensures
            crate::error::outcome(case) == pair@.switch_case(),
    {
        let labels = self.read_case_labels(pair)?;
        let mut last: usize = 0;
        let mut found = false;
        let mut i: usize = 0;
        while i < pair.parts.len()
            invariant
                i <= pair.parts@.len(),
                found ==> last < pair.parts@.len(),
                found ==> ({
                    let so_far = crate::reading::of_rule(
                        pair@.parts.take(i as int),
                        Rule::ElementSpec,
                    );
                    so_far.len() > 0 && so_far.last() == pair.parts@[last as int]@
                }),
                !found ==> (forall|j: int|
                    0 <= j < i ==> (#[trigger] pair@.parts[j]).rule != Rule::ElementSpec),
            decreases pair.parts@.len() - i,
        {
            proof {
                assert(pair@.parts[i as int] == pair.parts@[i as int]@);
                assert(pair@.parts[i as int].rule == pair.parts@[i as int].rule);
                assert(pair@.parts.take(i + 1).drop_last() =~= pair@.parts.take(i as int));
                assert(pair@.parts.take(i + 1).last() == pair.parts@[i as int]@);
            }
            if pair.parts[i].rule == Rule::ElementSpec {
                last = i;
                found = true;
            }
            i = i + 1;
        }
        proof {
            assert(found);
            assert(pair@.parts.take(i as int) =~= pair@.parts);
            assert(pair@.parts[last as int] == pair.parts@[last as int]@);
        }
        let elem_spec = self.read_switch_element_spec(&pair.parts[last])?;
        Ok(IdlSwitchCase { labels, elem_spec })
    }

    /// switch_body = { case+ }
    pub fn read_switch_body(&self, pair: &Node) -> (cases: Result<
        Vec<IdlSwitchCase>,
        ParserError,
    >)
        requires
            pair@.wf(),
            pair@.cases_complete(),
        ensures
            match cases {
                Ok(cases) => pair@.switch_body() == Ok::<_, ParserFault>(
                    crate::ast::case_models(cases@),
                ),
                Err(error) => pair@.switch_body() == Err::<Seq<crate::ast::SwitchCase>, _>(error@),
            },
    {
        let ghost read = crate::reading::reads_case();
        let ghost trees = pair@.parts;
        let mut cases: Vec<IdlSwitchCase> = Vec::new();
        let mut i: usize = 0;
        assert(crate::ast::case_models(cases@) =~= Seq::empty());
        while i < pair.parts.len()
            invariant
                i <= pair.parts@.len(),
                pair@.wf(),
                pair@.cases_complete(),
                trees == pair@.parts,
                read == crate::reading::reads_case(),
                crate::reading::collect(trees.take(i as int), read) == Ok::<_, ParserFault>(
                    crate::ast::case_models(cases@),
                ),
            decreases pair.parts@.len() - i,
        {
            let ghost before = cases@;
            proof {
                assert(trees[i as int] == pair.parts@[i as int]@);
                assert(trees[i as int].has_part(Rule::ElementSpec));
                crate::reading::lemma_collect_step(trees, i as int, read);
            }
            match self.read_switch_case(&pair.parts[i]) {
                Ok(case) => {
                    cases.push(case);
                    assert(crate::ast::case_models(cases@) =~= crate::ast::case_models(
                        before,
                    ).push(case@));
                },
                Err(error) => {
                    proof {
                        crate::reading::lemma_collect_fails(trees, i + 1, read);
                    }
                    return Err(error);
                },
            }
            i = i + 1;
        }
        assert(trees.take(i as int) =~= trees);
        Ok(cases)
    }

    /// declarator = { array_declarator | simple_declarator }
    /// array_declarator = { identifier ~ fixed_array_size+ }
    /// simple_declarator = { identifier }
    ///
    /// Reads what a declarator of a `typedef` declares, and under which name.
    pub fn read_declarator(&self, pair: &Node, type_spec: &IdlTypeSpec) -> (declared: Result<
        (String, IdlTypeDcl),
        ParserError,
    >)
        requires
            pair@.wf(),
        ensures
            match declared {
                Ok((key, type_dcl)) => pair@.declarator(type_spec@) == Ok::<_, ParserFault>(
                    (key@, type_dcl@),
                ),
                Err(error) => pair@.declarator(type_spec@) == Err::<(Seq<char>, TypeDcl), _>(
                    error@,
                ),
            },
    {
        if pair.parts.len() == 0 {
            return Err(
                ParserError::new(
                    "No associated values found with the parsed array|simple declarator",
                    pair.start,
                ),
            );
        }
        let decl = &pair.parts[0];
        assert(pair@.parts[0] == decl@);
        match decl.rule {
            Rule::SimpleDeclarator => {
                if decl.parts.len() == 0 {
                    return Err(
                        ParserError::new(
                            "Pair did not contain a valid identifer for the simple declarator",
                            decl.start,
                        ),
                    );
                }
                assert(decl@.parts[0] == decl.parts@[0]@);
                let id = self.read_identifier(&decl.parts[0])?;
                let key = id.clone();
                Ok((key, IdlTypeDcl(IdlTypeDclKind::TypeDcl(id, type_spec.clone()))))
            },
            // array_declarator = { identifier ~ fixed_array_size+ }
            Rule::ArrayDeclarator => {
                if decl.parts.len() == 0 {
                    return Err(
                        ParserError::new(
                            "Pair did not contain a valid identifer for the simple declarator",
                            decl.start,
                        ),
                    );
                }
                assert(decl@.parts[0] == decl.parts@[0]@);
                let id = self.read_identifier(&decl.parts[0])?;
                let key = id.clone();
                let sizes = self.read_array_sizes(
                    decl,
                    "Failed to read the const expr under the Rule::fixed_array_size",
                    Some(decl.start),
                )?;
                let array = IdlTypeSpec::ArrayType(Box::new(type_spec.clone()), sizes);
                Ok((key, IdlTypeDcl(IdlTypeDclKind::TypeDcl(id, array))))
            },
            _ => Err(
                ParserError::new(
                    "Pair did not contain a valid simple or array declarator",
                    decl.start,
                ),
            ),
        }
    }

    /// struct_def = { "struct" ~ identifier ~ (":" ~ scoped_name)? ~ "{" ~ member* ~ "}" }
    pub fn read_struct_def(&self, pair: &Node) -> (type_dcl: Result<IdlTypeDcl, ParserError>)
        requires
            pair@.wf(),
            pair@.parts.len() >= 1,
        ensures
            crate::error::outcome(type_dcl) == pair@.struct_def(),
    {
        let ghost read = crate::reading::reads_member();
        let ghost trees = pair@.later_parts();
        let ghost mut groups: Seq<Seq<crate::ast::StructMember>> = Seq::empty();
        let mut members: Vec<IdlStructMember> = Vec::new();
        let mut i: usize = 1;
        assert(crate::ast::member_models(members@) =~= Seq::empty());
        while i < pair.parts.len()
            invariant
                1 <= i <= pair.parts@.len(),
                pair@.wf(),
                trees == pair@.later_parts(),
                read == crate::reading::reads_member(),
                crate::reading::collect(trees.take(i - 1), read) == Ok::<_, ParserFault>(groups),
                crate::reading::all_members(groups) == crate::ast::member_models(members@),
            decreases pair.parts@.len() - i,
        {
            let ghost before = members@;
            proof {
                assert(pair@.parts[i as int] == pair.parts@[i as int]@);
                assert(trees[i - 1] == pair.parts@[i as int]@);
                crate::reading::lemma_collect_step(trees, i - 1, read);
            }
            match self.read_struct_member(&pair.parts[i]) {
                Ok(group) => {
                    let mut group = group;
                    proof {
                        let models = crate::ast::member_models(group@);
                        let more = groups.push(models);
                        assert(more.drop_last() =~= groups);
                        assert(crate::ast::member_models(before + group@)
                            =~= crate::ast::member_models(before) + models);
                        groups = more;
                    }
                    members.append(&mut group);
                },
                Err(error) => {
                    proof {
                        crate::reading::lemma_collect_fails(trees, i as int, read);
                    }
                    return Err(error);
                },
            }
            i = i + 1;
        }
        proof {
            assert(trees.take(i - 1) =~= trees);
            assert(pair@.parts[0] == pair.parts@[0]@);
        }
        Ok(IdlTypeDcl(IdlTypeDclKind::StructDcl(pair.parts[0].text.clone(), members)))
    }

    /// union_def = { "union" ~ identifier ~ "switch" ~ "(" ~ switch_type_spec ~ ")" ~ "{" ~ switch_body ~ "}" }
    ///
    /// Reads the union that a definition declares, and its name.
    pub fn read_union_def(&self, pair: &Node) -> (declared: Result<
        (String, IdlTypeDcl),
        ParserError,
    >)
        requires
            pair@.wf(),
            pair@.union_complete(),
        ensures
            match declared {
                Ok((key, type_dcl)) => pair@.union_def() == Ok::<_, ParserFault>(
                    (key@, type_dcl@),
                ),
                Err(error) => pair@.union_def() == Err::<(Seq<char>, TypeDcl), _>(error@),
            },
    {
        let ghost count = pair.parts@.len();
        assert(forall|i: int| 0 <= i < count ==> pair@.parts[i] == #[trigger] pair.parts@[i]@);
        let id = self.read_identifier(&pair.parts[0])?;
        let key = id.clone();
        let switch_type_spec = self.read_switch_type_spec(&pair.parts[1])?;
        let switch_body = self.read_switch_body(&pair.parts[2])?;
        Ok((key, IdlTypeDcl(IdlTypeDclKind::UnionDcl(id, switch_type_spec, switch_body))))
    }

    /// enum_dcl = { "enum" ~ identifier ~ "{" ~ enumerator ~ ("," ~ enumerator)* ~ ","? ~ "}" }
    /// enumerator = { identifier }
    pub fn read_enum_dcl(&self, pair: &Node) -> (type_dcl: Result<IdlTypeDcl, ParserError>)
        requires
            pair@.parts.len() >= 1,
        ensures
            crate::error::outcome(type_dcl) == pair@.enum_dcl(),
    {
        proof {
            assert(pair@.parts[0] == pair.parts@[0]@);
            assert(pair@.later_parts() =~= pair@.parts.skip(1));
        }
        let id = pair.parts[0].text.clone();
        let enums = self.read_identifiers(&pair.parts, 1)?;
        Ok(IdlTypeDcl(IdlTypeDclKind::EnumDcl(id, enums)))
    }

    /// const_dcl = { "const" ~ const_type ~ identifier ~ "=" ~ const_expr }
    pub fn read_const_dcl(&self, pair: &Node) -> (const_dcl: Result<IdlConstDcl, ParserError>)
        requires
            pair@.wf(),
            pair@.const_complete(),
        ensures
            crate::error::outcome(const_dcl) == pair@.const_dcl(),
    {
        let ghost count = pair.parts@.len();
        assert(forall|i: int| 0 <= i < count ==> pair@.parts[i] == #[trigger] pair.parts@[i]@);
        let typedcl = self.read_type_spec(&pair.parts[0])?;
        let id = self.read_identifier(&pair.parts[1])?;
        let value = self.read_const_expr(&pair.parts[2])?;
        Ok(IdlConstDcl { id, typedcl, value })
    }
}

}
