//! What each node of a parse tree declares.

use crate::ast::{
    BinaryOp, ConstDcl, ScopedName, StructMember, SwitchCase, SwitchElement, SwitchLabel, TypeDcl,
    TypeSpec, UnaryOp, ValueExpr,
};
use crate::error::ParserFault;
use crate::node::Tree;
use crate::rule::Rule;
use vstd::prelude::*;

verus! {

/// Reads every tree of a list in order: all the values, or the first fault.
pub open spec fn collect<T>(
    trees: Seq<Tree>,
    read: spec_fn(Tree) -> Result<T, ParserFault>,
) -> Result<Seq<T>, ParserFault>
    decreases trees.len(),
{
    if trees.len() == 0 {
        Ok(Seq::empty())
    } else {
        match collect(trees.drop_last(), read) {
            Err(fault) => Err(fault),
            Ok(values) => match read(trees.last()) {
                Err(fault) => Err(fault),
                Ok(value) => Ok(values.push(value)),
            },
        }
    }
}

/// The trees of a list that were matched by `rule`, in order.
pub open spec fn of_rule(trees: Seq<Tree>, rule: Rule) -> Seq<Tree>
    decreases trees.len(),
{
    if trees.len() == 0 {
        Seq::empty()
    } else if trees.last().rule == rule {
        of_rule(trees.drop_last(), rule).push(trees.last())
    } else {
        of_rule(trees.drop_last(), rule)
    }
}

/// The text of the last tree of a list that was matched by `rule`.
pub open spec fn last_text(trees: Seq<Tree>, rule: Rule) -> Option<Seq<char>> {
    let matched = of_rule(trees, rule);
    if matched.len() == 0 {
        None
    } else {
        Some(matched.last().text)
    }
}

/// The members of several member declarations, in order.
pub open spec fn all_members(groups: Seq<Seq<StructMember>>) -> Seq<StructMember>
    decreases groups.len(),
{
    if groups.len() == 0 {
        Seq::empty()
    } else {
        all_members(groups.drop_last()) + groups.last()
    }
}

/// The operator of a rule that matches an operator and its right operand, and what
/// messages call such a match.
pub open spec fn binary_operator_of(rule: Rule) -> Option<(BinaryOp, Seq<char>)> {
    match rule {
        Rule::AndExpr => Some((BinaryOp::And, "and expression"@)),
        Rule::OrExpr => Some((BinaryOp::Or, "or expression"@)),
        Rule::XorExpr => Some((BinaryOp::Xor, "xor expression"@)),
        Rule::LshiftExpr => Some((BinaryOp::LShift, "left shift expression"@)),
        Rule::RshiftExpr => Some((BinaryOp::RShift, "right shift expression"@)),
        Rule::AddExpr => Some((BinaryOp::Add, "add expression"@)),
        Rule::SubExpr => Some((BinaryOp::Sub, "sub expression"@)),
        Rule::MulExpr => Some((BinaryOp::Mul, "multiply expression"@)),
        Rule::DivExpr => Some((BinaryOp::Div, "division expression"@)),
        Rule::ModExpr => Some((BinaryOp::Mod, "modulo expression"@)),
        _ => None,
    }
}

/// The operator that is written `text`.
pub open spec fn unary_operator_of(text: Seq<char>) -> Option<UnaryOp> {
    if text == "-"@ {
        Some(UnaryOp::Neg)
    } else if text == "+"@ {
        Some(UnaryOp::Pos)
    } else if text == "~"@ {
        Some(UnaryOp::Inverse)
    } else {
        None
    }
}

/// The type that a rule without parts of its own stands for.
pub open spec fn basic_type_of(rule: Rule) -> Option<TypeSpec> {
    match rule {
        Rule::Float => Some(TypeSpec::F32Type),
        Rule::Double => Some(TypeSpec::F64Type),
        Rule::LongDouble => Some(TypeSpec::F128Type),
        Rule::UnsignedShortInt => Some(TypeSpec::U16Type),
        Rule::UnsignedLonglongInt => Some(TypeSpec::U64Type),
        Rule::UnsignedLongInt => Some(TypeSpec::U32Type),
        Rule::SignedShortInt => Some(TypeSpec::I16Type),
        Rule::SignedLonglongInt => Some(TypeSpec::I64Type),
        Rule::SignedLongInt => Some(TypeSpec::I32Type),
        Rule::CharType => Some(TypeSpec::CharType),
        Rule::WideCharType => Some(TypeSpec::WideCharType),
        Rule::BooleanType => Some(TypeSpec::BooleanType),
        Rule::OctetType => Some(TypeSpec::OctetType),
        _ => None,
    }
}

/// Reads an identifier.
pub open spec fn reads_identifier() -> spec_fn(Tree) -> Result<Seq<char>, ParserFault> {
    |t: Tree| t.identifier()
}

/// Reads a struct member of the given type.
pub open spec fn reads_member_declarator(type_spec: TypeSpec) -> spec_fn(Tree) -> Result<StructMember, ParserFault> {
    |t: Tree| t.struct_member_declarator(type_spec)
}

/// Reads an array dimension. A dimension without an expression is a fault at `pos`, or,
/// without a `pos`, at the dimension itself.
pub open spec fn reads_size(message: Seq<char>, pos: Option<nat>) -> spec_fn(Tree) -> Result<
    ValueExpr,
    ParserFault,
> {
    |t: Tree|
        t.array_size(
            ParserFault {
                message,
                pos: match pos {
                    Some(pos) => pos,
                    None => t.start,
                },
            },
        )
}

/// Reads a label of a union case.
pub open spec fn reads_label() -> spec_fn(Tree) -> Result<SwitchLabel, ParserFault> {
    |t: Tree| t.switch_label()
}

/// Reads a union case.
pub open spec fn reads_case() -> spec_fn(Tree) -> Result<SwitchCase, ParserFault> {
    |t: Tree| t.switch_case()
}

/// Reads a member declaration of a struct.
pub open spec fn reads_member() -> spec_fn(Tree) -> Result<Seq<StructMember>, ParserFault> {
    |t: Tree| t.struct_member()
}

impl Tree {
    /// A fault at the start of this node.
    pub open spec fn fault(self, message: Seq<char>) -> ParserFault {
        ParserFault { message, pos: self.start }
    }

    /// The parts after the first.
    pub open spec fn later_parts(self) -> Seq<Tree> {
        self.parts.subrange(1, self.parts.len() as int)
    }

    /// An identifier or enumerator is its text.
    pub open spec fn identifier(self) -> Result<Seq<char>, ParserFault> {
        if self.rule == Rule::Identifier || self.rule == Rule::Enumerator {
            Ok(self.text)
        } else {
            Err(self.fault("Pair did not contain a valid scoped name rule"@))
        }
    }

    /// A scoped name is the identifiers inside it; it is absolute if it starts with `::`.
    pub open spec fn scoped_name(self) -> Result<ScopedName, ParserFault> {
        match collect(self.parts, reads_identifier()) {
            Ok(path) => Ok(
                ScopedName { path, absolute: crate::text::begins_with_colons(self.text) },
            ),
            Err(fault) => Err(fault),
        }
    }

    /// The constant expression that this node stands for.
    pub open spec fn const_expr(self) -> Result<ValueExpr, ParserFault>
        decreases self,
    {
        match binary_operator_of(self.rule) {
            Some((op, what)) => if self.parts.len() == 0 {
                Err(
                    self.fault(
                        ("No associated values found with the parsed '"@ + what) + "'"@,
                    ),
                )
            } else {
                match self.parts[0].const_expr() {
                    Ok(expr) => Ok(ValueExpr::BinaryOp(op, Box::new(expr))),
                    Err(fault) => Err(fault),
                }
            },
            None => match self.rule {
                Rule::ConstExpr => if self.parts.len() >= 2 {
                    match self.parts[0].const_expr() {
                        Ok(left) => match self.parts[1].const_expr() {
                            Ok(right) => Ok(ValueExpr::Expr(Box::new(left), Box::new(right))),
                            Err(fault) => Err(fault),
                        },
                        Err(fault) => Err(fault),
                    }
                } else if self.parts.len() == 1 {
                    self.parts[0].const_expr()
                } else {
                    Err(self.fault("Pair did not contain a valid const expression rule"@))
                },
                Rule::UnaryExpr => if self.parts.len() >= 2 {
                    match self.parts[1].const_expr() {
                        Ok(expr) => match unary_operator_of(self.parts[0].text) {
                            Some(op) => Ok(ValueExpr::UnaryOp(op, Box::new(expr))),
                            None => Err(
                                self.parts[1].fault(
                                    self.parts[0].text
                                        + " does not match acceptable values -|+|~"@,
                                ),
                            ),
                        },
                        Err(fault) => Err(fault),
                    }
                } else if self.parts.len() == 1 {
                    self.parts[0].const_expr()
                } else {
                    Err(self.fault("Rule does not match expected unary expression format"@))
                },
                Rule::PrimaryExpr => if self.parts.len() >= 1 && self.parts[0].rule
                    == Rule::ScopedName {
                    match self.parts[0].scoped_name() {
                        Ok(name) => Ok(ValueExpr::ScopedName(name)),
                        Err(fault) => Err(fault),
                    }
                } else if self.parts.len() >= 1 && self.parts[0].rule == Rule::Literal {
                    self.parts[0].const_expr()
                } else if self.parts.len() >= 1 && self.parts[0].rule == Rule::ConstExpr {
                    match self.parts[0].const_expr() {
                        Ok(expr) => Ok(ValueExpr::Brace(Box::new(expr))),
                        Err(fault) => Err(fault),
                    }
                } else {
                    Err(
                        self.fault(
                            "Primary expression did not match 'scoped_name', 'literal', or 'const expression'"@,
                        ),
                    )
                },
                Rule::DecimalIntegerLiteral => Ok(ValueExpr::DecLiteral(self.text)),
                Rule::OctalIntegerLiteral => Ok(ValueExpr::OctLiteral(self.text)),
                Rule::HexIntegerLiteral => Ok(ValueExpr::HexLiteral(self.text)),
                Rule::FloatingPtLiteral => Ok(
                    ValueExpr::FloatLiteral(
                        last_text(self.parts, Rule::IntegralPart),
                        last_text(self.parts, Rule::FractionalPart),
                        last_text(self.parts, Rule::Exponent),
                        last_text(self.parts, Rule::FloatSuffix),
                    ),
                ),
                Rule::BooleanLiteral => Ok(
                    ValueExpr::BooleanLiteral(
                        crate::text::uppercase_of(self.text) == "TRUE"@,
                    ),
                ),
                Rule::CharacterLiteral => Ok(ValueExpr::CharLiteral(self.text)),
                Rule::WideCharacterLiteral => Ok(ValueExpr::WideCharLiteral(self.text)),
                Rule::StringLiteral => Ok(ValueExpr::StringLiteral(self.text)),
                Rule::WideStringLiteral => Ok(ValueExpr::WideStringLiteral(self.text)),
                _ => if self.parts.len() >= 1 {
                    self.parts[0].const_expr()
                } else {
                    Err(self.fault("Failed to read 'const expression' in the catch all"@))
                },
            },
        }
    }

    /// The type that this node stands for.
    pub open spec fn type_spec(self) -> Result<TypeSpec, ParserFault>
        decreases self,
    {
        match basic_type_of(self.rule) {
            Some(basic) => Ok(basic),
            None => match self.rule {
                Rule::StringType => if self.parts.len() == 0 {
                    Ok(TypeSpec::StringType(None))
                } else {
                    match self.parts[0].const_expr() {
                        Ok(bound) => Ok(TypeSpec::StringType(Some(bound))),
                        Err(fault) => Err(fault),
                    }
                },
                Rule::WideStringType => if self.parts.len() == 0 {
                    Ok(TypeSpec::WideStringType(None))
                } else {
                    match self.parts[0].const_expr() {
                        Ok(bound) => Ok(TypeSpec::WideStringType(Some(bound))),
                        Err(fault) => Err(fault),
                    }
                },
                Rule::SequenceType => if self.parts.len() == 0 {
                    Err(
                        self.fault(
                            "Failed to discover required components to establish a sequence"@,
                        ),
                    )
                } else {
                    match self.parts[0].type_spec() {
                        Ok(element) => if self.parts.len() >= 2
                            && self.parts[1].const_expr() is Err {
                            Err(self.parts[1].const_expr()->Err_0)
                        } else {
                            Ok(TypeSpec::SequenceType(Box::new(element)))
                        },
                        Err(fault) => Err(fault),
                    }
                },
                Rule::ScopedName => match self.scoped_name() {
                    Ok(name) => Ok(TypeSpec::ScopedName(name)),
                    Err(fault) => Err(fault),
                },
                _ => if self.parts.len() >= 1 {
                    self.parts[0].type_spec()
                } else {
                    Err(self.fault("Failed find a deeper rule pair to follow"@))
                },
            },
        }
    }

    /// The expression inside an array dimension; `missing` if there is none.
    pub open spec fn array_size(self, missing: ParserFault) -> Result<ValueExpr, ParserFault> {
        if self.parts.len() >= 1 {
            self.parts[0].const_expr()
        } else {
            Err(missing)
        }
    }

    /// A struct member of the given type, with the declarator inside this node.
    pub open spec fn struct_member_declarator(self, type_spec: TypeSpec) -> Result<
        StructMember,
        ParserFault,
    > {
        if self.parts.len() == 0 {
            Err(
                self.fault(
                    "Pair did not contain a either other a simple or arraty declarator"@,
                ),
            )
        } else {
            let decl = self.parts[0];
            match decl.rule {
                Rule::SimpleDeclarator => if decl.parts.len() == 0 {
                    Err(decl.fault("Pair did not contain a valid IDL simple declarator"@))
                } else {
                    match decl.parts[0].identifier() {
                        Ok(id) => Ok(StructMember { id, type_spec }),
                        Err(fault) => Err(fault),
                    }
                },
                Rule::ArrayDeclarator => if decl.parts.len() == 0 {
                    Err(decl.fault("Pair did not contain a valid IDL array declatator"@))
                } else {
                    match decl.member_sizes() {
                        Ok(sizes) => match decl.parts[0].identifier() {
                            Ok(id) => Ok(
                                StructMember {
                                    id,
                                    type_spec: TypeSpec::ArrayType(Box::new(type_spec), sizes),
                                },
                            ),
                            Err(fault) => Err(fault),
                        },
                        Err(fault) => Err(fault),
                    }
                },
                _ => Err(decl.fault("Pair did not contain a valid IDL type rule"@)),
            }
        }
    }

    /// The dimensions of an array member of a struct.
    pub open spec fn member_sizes(self) -> Result<Seq<ValueExpr>, ParserFault> {
        collect(
            self.later_parts(),
            reads_size("Pair did not contain a valid 'const expression'"@, Some(self.start)),
        )
    }

    /// The members that a member declaration of a struct introduces.
    pub open spec fn struct_member(self) -> Result<Seq<StructMember>, ParserFault> {
        if self.parts.len() == 0 {
            Err(self.fault("Pair did not contain a valid IDL type rule"@))
        } else {
            match self.parts[0].type_spec() {
                Ok(type_spec) => if self.parts.len() == 1 {
                    Err(self.fault("Failed to aquire next declaration pair"@))
                } else {
                    self.parts[1].declared_members(type_spec)
                },
                Err(fault) => Err(fault),
            }
        }
    }

    /// The struct members that a list of declarators introduces.
    pub open spec fn declared_members(self, type_spec: TypeSpec) -> Result<
        Seq<StructMember>,
        ParserFault,
    > {
        collect(self.parts, reads_member_declarator(type_spec))
    }

    /// A union element of the given type, with the declarator inside this node.
    pub open spec fn switch_element_declarator(self, type_spec: TypeSpec) -> Result<
        SwitchElement,
        ParserFault,
    > {
        if self.parts.len() == 0 {
            Err(self.fault("Failed to parse switch element declarator"@))
        } else {
            let decl = self.parts[0];
            match decl.rule {
                Rule::SimpleDeclarator => if decl.parts.len() == 0 {
                    Err(
                        decl.fault("Failed to discover simple declarator for switch element"@),
                    )
                } else {
                    match decl.parts[0].identifier() {
                        Ok(id) => Ok(SwitchElement { id, type_spec }),
                        Err(fault) => Err(fault),
                    }
                },
                Rule::ArrayDeclarator => if decl.parts.len() == 0 {
                    Err(
                        decl.fault(
                            "Failed to parse array declarator for switch element declarator"@,
                        ),
                    )
                } else {
                    match decl.parts[0].identifier() {
                        Ok(id) => match decl.element_sizes() {
                            Ok(sizes) => Ok(
                                SwitchElement {
                                    id,
                                    type_spec: TypeSpec::ArrayType(Box::new(type_spec), sizes),
                                },
                            ),
                            Err(fault) => Err(fault),
                        },
                        Err(fault) => Err(fault),
                    }
                },
                _ => Err(
                    decl.fault(
                        "Failed to discover either simple or array declarator for switch element declarator"@,
                    ),
                ),
            }
        }
    }

    /// The dimensions of an array element of a union.
    pub open spec fn element_sizes(self) -> Result<Seq<ValueExpr>, ParserFault> {
        collect(
            self.later_parts(),
            reads_size(
                "Failed to discover const_expr under the fixed_array_size for switch element declarator"@,
                None,
            ),
        )
    }

    /// The element of a union case.
    pub open spec fn switch_element_spec(self) -> Result<SwitchElement, ParserFault> {
        if self.parts.len() == 0 {
            Err(self.fault("Failed to read type spec from the switch element spec"@))
        } else {
            match self.parts[0].type_spec() {
                Ok(type_spec) => if self.parts.len() == 1 {
                    Err(self.fault("Failed to read declarator from the switch element spec"@))
                } else {
                    self.parts[1].switch_element_declarator(type_spec)
                },
                Err(fault) => Err(fault),
            }
        }
    }

    /// The type that a union switches on.
    pub open spec fn switch_type_spec(self) -> Result<TypeSpec, ParserFault> {
        if self.parts.len() == 0 {
            Err(self.fault("Failed to read associated type for switch type"@))
        } else {
            self.parts[0].type_spec()
        }
    }

    /// A label with an expression is that expression's; one without is the default.
    pub open spec fn switch_label(self) -> Result<SwitchLabel, ParserFault> {
        if self.parts.len() == 0 {
            Ok(SwitchLabel::Default)
        } else {
            match self.parts[0].const_expr() {
                Ok(expr) => Ok(SwitchLabel::Label(expr)),
                Err(fault) => Err(fault),
            }
        }
    }

    /// The labels of a union case.
    pub open spec fn case_labels(self) -> Result<Seq<SwitchLabel>, ParserFault> {
        collect(of_rule(self.parts, Rule::CaseLabel), reads_label())
    }

    /// A union case: its labels, and the last element among its parts.
    pub open spec fn switch_case(self) -> Result<SwitchCase, ParserFault> {
        match self.case_labels() {
            Ok(labels) => match of_rule(
                self.parts,
                Rule::ElementSpec,
            ).last().switch_element_spec() {
                Ok(elem_spec) => Ok(SwitchCase { labels, elem_spec }),
                Err(fault) => Err(fault),
            },
            Err(fault) => Err(fault),
        }
    }

    /// The cases of a union.
    pub open spec fn switch_body(self) -> Result<Seq<SwitchCase>, ParserFault> {
        collect(self.parts, reads_case())
    }

    /// The type that a `typedef` gives the name in this declarator.
    pub open spec fn declarator(self, type_spec: TypeSpec) -> Result<
        (Seq<char>, TypeDcl),
        ParserFault,
    > {
        if self.parts.len() == 0 {
            Err(self.fault("No associated values found with the parsed array|simple declarator"@))
        } else {
            let decl = self.parts[0];
            match decl.rule {
                Rule::SimpleDeclarator => if decl.parts.len() == 0 {
                    Err(
                        decl.fault(
                            "Pair did not contain a valid identifer for the simple declarator"@,
                        ),
                    )
                } else {
                    match decl.parts[0].identifier() {
                        Ok(id) => Ok((id, TypeDcl::TypeDcl(id, type_spec))),
                        Err(fault) => Err(fault),
                    }
                },
                Rule::ArrayDeclarator => if decl.parts.len() == 0 {
                    Err(
                        decl.fault(
                            "Pair did not contain a valid identifer for the simple declarator"@,
                        ),
                    )
                } else {
                    match decl.parts[0].identifier() {
                        Ok(id) => match decl.typedef_sizes() {
                            Ok(sizes) => Ok(
                                (
                                    id,
                                    TypeDcl::TypeDcl(
                                        id,
                                        TypeSpec::ArrayType(Box::new(type_spec), sizes),
                                    ),
                                ),
                            ),
                            Err(fault) => Err(fault),
                        },
                        Err(fault) => Err(fault),
                    }
                },
                _ => Err(
                    decl.fault("Pair did not contain a valid simple or array declarator"@),
                ),
            }
        }
    }

    /// The dimensions of an array that a `typedef` names.
    pub open spec fn typedef_sizes(self) -> Result<Seq<ValueExpr>, ParserFault> {
        collect(
            self.later_parts(),
            reads_size(
                "Failed to read the const expr under the Rule::fixed_array_size"@,
                Some(self.start),
            ),
        )
    }

    /// The member declarations of a struct definition, each with its members.
    pub open spec fn member_groups(self) -> Result<Seq<Seq<StructMember>>, ParserFault> {
        collect(self.later_parts(), reads_member())
    }

    /// The struct that a definition declares, under the text of its first part.
    pub open spec fn struct_def(self) -> Result<TypeDcl, ParserFault> {
        match self.member_groups() {
            Ok(groups) => Ok(TypeDcl::StructDcl(self.parts[0].text, all_members(groups))),
            Err(fault) => Err(fault),
        }
    }

    /// The name of a union definition and the union that it declares.
    pub open spec fn union_def(self) -> Result<(Seq<char>, TypeDcl), ParserFault> {
        match self.parts[0].identifier() {
            Ok(id) => match self.parts[1].switch_type_spec() {
                Ok(type_spec) => match self.parts[2].switch_body() {
                    Ok(cases) => Ok((id, TypeDcl::UnionDcl(id, type_spec, cases))),
                    Err(fault) => Err(fault),
                },
                Err(fault) => Err(fault),
            },
            Err(fault) => Err(fault),
        }
    }

    /// The enumerators of an enum declaration.
    pub open spec fn enumerators(self) -> Result<Seq<Seq<char>>, ParserFault> {
        collect(self.later_parts(), reads_identifier())
    }

    /// The enum that a declaration declares, under the text of its first part.
    pub open spec fn enum_dcl(self) -> Result<TypeDcl, ParserFault> {
        match self.enumerators() {
            Ok(names) => Ok(TypeDcl::EnumDcl(self.parts[0].text, names)),
            Err(fault) => Err(fault),
        }
    }

    /// The constant that a declaration declares.
    pub open spec fn const_dcl(self) -> Result<ConstDcl, ParserFault> {
        match self.parts[0].type_spec() {
            Ok(typedcl) => match self.parts[1].identifier() {
                Ok(id) => match self.parts[2].const_expr() {
                    Ok(value) => Ok(ConstDcl { id, typedcl, value }),
                    Err(fault) => Err(fault),
                },
                Err(fault) => Err(fault),
            },
            Err(fault) => Err(fault),
        }
    }
}

/// Reading one more tree adds its value to those read so far.
pub proof fn lemma_collect_step<T>(
    trees: Seq<Tree>,
    n: int,
    read: spec_fn(Tree) -> Result<T, ParserFault>,
)
    requires
        0 <= n < trees.len(),
    ensures
        collect(trees.take(n + 1), read) == (match collect(trees.take(n), read) {
            Err(fault) => Err(fault),
            Ok(values) => match read(trees[n]) {
                Err(fault) => Err(fault),
                Ok(value) => Ok(values.push(value)),
            },
        }),
{
    assert(trees.take(n + 1).drop_last() =~= trees.take(n));
}

/// A fault among the first trees of a list is the fault of the list.
pub proof fn lemma_collect_fails<T>(
    trees: Seq<Tree>,
    n: int,
    read: spec_fn(Tree) -> Result<T, ParserFault>,
)
    requires
        0 <= n <= trees.len(),
        collect(trees.take(n), read) is Err,
    ensures
        collect(trees, read) == collect(trees.take(n), read),
    decreases trees.len() - n,
{
    if n < trees.len() {
        lemma_collect_step(trees, n, read);
        lemma_collect_fails(trees, n + 1, read);
    } else {
        assert(trees.take(n) =~= trees);
    }
}

/// What a rule matched among the first trees of a list comes first among what it matched
/// in the whole list.
pub proof fn lemma_of_rule_prefix(trees: Seq<Tree>, n: int, rule: Rule)
    requires
        0 <= n <= trees.len(),
    ensures
        of_rule(trees.take(n), rule).len() <= of_rule(trees, rule).len(),
        of_rule(trees, rule).take(of_rule(trees.take(n), rule).len() as int) == of_rule(
            trees.take(n),
            rule,
        ),
    decreases trees.len(),
{
    if n == trees.len() {
        assert(trees.take(n) =~= trees);
        assert(of_rule(trees, rule).take(of_rule(trees, rule).len() as int) =~= of_rule(
            trees,
            rule,
        ));
    } else {
        let shorter = trees.drop_last();
        lemma_of_rule_prefix(shorter, n, rule);
        assert(shorter.take(n) =~= trees.take(n));
        let front = of_rule(trees.take(n), rule);
        assert(of_rule(trees, rule).take(front.len() as int) =~= of_rule(shorter, rule).take(
            front.len() as int,
        ));
    }
}

/// The literal `TRUE` is read as true, and `FALSE` as false.
pub proof fn lemma_boolean_literals(literal: Tree)
    requires
        literal.rule == Rule::BooleanLiteral,
        literal.text == "TRUE"@ || literal.text == "FALSE"@,
    ensures
        literal.const_expr() == Ok::<_, ParserFault>(
            ValueExpr::BooleanLiteral(literal.text == "TRUE"@),
        ),
{
    reveal_strlit("TRUE");
    reveal_strlit("FALSE");
    assert(crate::text::ascii_capitals(literal.text) =~= literal.text);
}

}
