//! Where the faults are that reading a parse tree comes upon.

use crate::ast::{
    ConstDcl, ScopedName, StructMember, SwitchCase, SwitchElement, SwitchLabel, TypeDcl, TypeSpec,
    ValueExpr,
};
use crate::error::ParserFault;
use crate::node::Tree;
use crate::rule::Rule;
use vstd::prelude::*;

verus! {

impl Tree {
    /// Whether the node, or one inside it, starts at `pos`.
    pub open spec fn has_start(self, pos: nat) -> bool
        decreases self,
    {
        ||| self.start == pos
        ||| exists|i: int| 0 <= i < self.parts.len() && (#[trigger] self.parts[i]).has_start(pos)
    }
}

/// Whether a fault, if there is one, is at the start of the node or of one inside it.
pub open spec fn fault_inside<T>(tree: Tree, outcome: Result<T, ParserFault>) -> bool {
    outcome matches Err(fault) ==> tree.has_start(fault.pos)
}

proof fn lemma_part_start(tree: Tree, k: int, pos: nat)
    requires
        0 <= k < tree.parts.len(),
        tree.parts[k].has_start(pos),
    ensures
        tree.has_start(pos),
{
}

proof fn lemma_collected_fault<T>(
    tree: Tree,
    trees: Seq<Tree>,
    from: int,
    read: spec_fn(Tree) -> Result<T, ParserFault>,
)
    requires
        0 <= from <= tree.parts.len(),
        trees == tree.parts.skip(from),
        forall|i: int|
            0 <= i < trees.len() ==> #[trigger] fault_inside(trees[i], read(trees[i]))
                || read(trees[i]) == Err::<T, _>(
                ParserFault { message: read(trees[i])->Err_0.message, pos: tree.start },
            ),
    ensures
        fault_inside(tree, crate::reading::collect(trees, read)),
{
    crate::declaration_laws::lemma_collect_reads_each(trees, read);
    if let Err(fault) = crate::reading::collect(trees, read) {
        let k = choose|k: int| #[trigger]
            crate::declaration_laws::fails_first_at(trees, read, k) && read(trees[k]) == Err::<
                T,
                _,
            >(fault);
        assert(trees[k] == tree.parts[k + from]);
        assert(fault_inside(trees[k], read(trees[k])) || fault.pos == tree.start);
        if fault.pos != tree.start {
            lemma_part_start(tree, k + from, fault.pos);
        }
    }
}

/// What is wrong with a name is said of the name or of the part that is no identifier.
pub proof fn lemma_name_fault(tree: Tree)
    ensures
        fault_inside(tree, tree.identifier()),
        fault_inside(tree, tree.scoped_name()),
{
    let read = crate::reading::reads_identifier();
    assert(tree.parts.skip(0) =~= tree.parts);
    assert forall|i: int| 0 <= i < tree.parts.len() implies #[trigger] fault_inside(
        tree.parts[i],
        read(tree.parts[i]),
    ) by {
        assert(tree.parts[i].has_start(tree.parts[i].start));
    }
    lemma_collected_fault(tree, tree.parts, 0, read);
    assert(tree.has_start(tree.start));
}

/// What is wrong with an expression is said of the expression or of a part of it.
pub proof fn lemma_expression_fault(tree: Tree)
    ensures
        fault_inside(tree, tree.const_expr()),
    decreases tree,
{
    assert(tree.has_start(tree.start));
    if tree.parts.len() >= 1 {
        lemma_expression_fault(tree.parts[0]);
        lemma_name_fault(tree.parts[0]);
    }
    if tree.parts.len() >= 2 {
        lemma_expression_fault(tree.parts[1]);
        assert(tree.parts[1].has_start(tree.parts[1].start));
        lemma_part_start(tree, 1, tree.parts[1].start);
    }
    if let Err(fault) = tree.const_expr() {
        if tree.parts.len() >= 1 && tree.parts[0].has_start(fault.pos) {
            lemma_part_start(tree, 0, fault.pos);
        }
        if tree.parts.len() >= 2 && tree.parts[1].has_start(fault.pos) {
            lemma_part_start(tree, 1, fault.pos);
        }
    }
}

/// What is wrong with a type is said of the type or of a part of it.
pub proof fn lemma_type_fault(tree: Tree)
    ensures
        fault_inside(tree, tree.type_spec()),
    decreases tree,
{
    assert(tree.has_start(tree.start));
    lemma_name_fault(tree);
    if tree.parts.len() >= 1 {
        lemma_type_fault(tree.parts[0]);
        lemma_expression_fault(tree.parts[0]);
    }
    if tree.parts.len() >= 2 {
        lemma_expression_fault(tree.parts[1]);
    }
    if let Err(fault) = tree.type_spec() {
        if tree.parts.len() >= 1 && tree.parts[0].has_start(fault.pos) {
            lemma_part_start(tree, 0, fault.pos);
        }
        if tree.parts.len() >= 2 && tree.parts[1].has_start(fault.pos) {
            lemma_part_start(tree, 1, fault.pos);
        }
    }
}

proof fn lemma_sizes_fault(decl: Tree, message: Seq<char>, pos: Option<nat>)
    requires
        decl.parts.len() >= 1,
        pos is None || pos == Some(decl.start),
    ensures
        fault_inside(
            decl,
            crate::reading::collect(
                decl.later_parts(),
                crate::reading::reads_size(message, pos),
            ),
        ),
{
    let trees = decl.later_parts();
    let read = crate::reading::reads_size(message, pos);
    assert(trees =~= decl.parts.skip(1));
    assert forall|i: int| 0 <= i < trees.len() implies #[trigger] fault_inside(
        trees[i],
        read(trees[i]),
    ) || read(trees[i]) == Err::<ValueExpr, _>(
        ParserFault { message: read(trees[i])->Err_0.message, pos: decl.start },
    ) by {
        let size = trees[i];
        assert(size.has_start(size.start));
        if size.parts.len() >= 1 {
            lemma_expression_fault(size.parts[0]);
            if let Err(fault) = size.parts[0].const_expr() {
                lemma_part_start(size, 0, fault.pos);
            }
        }
    }
    lemma_collected_fault(decl, trees, 1, read);
}

/// What is wrong with a declarator is said of the declarator or of a part of it, in a struct, in
/// a union and in a `typedef`.
pub proof fn lemma_declarator_fault(pair: Tree, base: TypeSpec)
    ensures
        fault_inside(pair, pair.struct_member_declarator(base)),
        fault_inside(pair, pair.switch_element_declarator(base)),
        fault_inside(pair, pair.declarator(base)),
{
    assert(pair.has_start(pair.start));
    if pair.parts.len() >= 1 {
        let decl = pair.parts[0];
        assert(decl.has_start(decl.start));
        lemma_part_start(pair, 0, decl.start);
        if decl.parts.len() >= 1 {
            lemma_name_fault(decl.parts[0]);
            lemma_sizes_fault(
                decl,
                "Pair did not contain a valid 'const expression'"@,
                Some(decl.start),
            );
            lemma_sizes_fault(
                decl,
                "Failed to discover const_expr under the fixed_array_size for switch element declarator"@,
                None,
            );
            lemma_sizes_fault(
                decl,
                "Failed to read the const expr under the Rule::fixed_array_size"@,
                Some(decl.start),
            );
            if let Err(fault) = decl.parts[0].identifier() {
                lemma_part_start(decl, 0, fault.pos);
                lemma_part_start(pair, 0, fault.pos);
            }
            if let Err(fault) = decl.member_sizes() {
                lemma_part_start(pair, 0, fault.pos);
            }
            if let Err(fault) = decl.element_sizes() {
                lemma_part_start(pair, 0, fault.pos);
            }
            if let Err(fault) = decl.typedef_sizes() {
                lemma_part_start(pair, 0, fault.pos);
            }
        }
    }
}

/// What is wrong with a struct is said of its definition or of a part of it.
pub proof fn lemma_struct_fault(tree: Tree)
    requires
        tree.parts.len() >= 1,
    ensures
        fault_inside(tree, tree.struct_member()),
        fault_inside(tree, tree.struct_def()),
{
    lemma_member_fault(tree);
    let trees = tree.later_parts();
    let read = crate::reading::reads_member();
    assert(trees =~= tree.parts.skip(1));
    assert forall|i: int| 0 <= i < trees.len() implies #[trigger] fault_inside(
        trees[i],
        read(trees[i]),
    ) by {
        lemma_member_fault(trees[i]);
    }
    lemma_collected_fault(tree, trees, 1, read);
}

proof fn lemma_member_fault(tree: Tree)
    ensures
        fault_inside(tree, tree.struct_member()),
{
    assert(tree.has_start(tree.start));
    if tree.parts.len() >= 1 {
        lemma_type_fault(tree.parts[0]);
        if let Err(fault) = tree.parts[0].type_spec() {
            lemma_part_start(tree, 0, fault.pos);
        }
        if tree.parts.len() >= 2 && tree.parts[0].type_spec() is Ok {
            let list = tree.parts[1];
            let read = crate::reading::reads_member_declarator(
                tree.parts[0].type_spec()->Ok_0,
            );
            assert(list.parts.skip(0) =~= list.parts);
            assert forall|i: int| 0 <= i < list.parts.len() implies #[trigger] fault_inside(
                list.parts[i],
                read(list.parts[i]),
            ) by {
                lemma_declarator_fault(list.parts[i], tree.parts[0].type_spec()->Ok_0);
            }
            lemma_collected_fault(list, list.parts, 0, read);
            if let Err(fault) = crate::reading::collect(list.parts, read) {
                lemma_part_start(tree, 1, fault.pos);
            }
        }
    }
}

/// What is wrong with the element or a label of a union case is said of it or of a part of it.
pub proof fn lemma_case_part_fault(tree: Tree)
    ensures
        fault_inside(tree, tree.switch_element_spec()),
        fault_inside(tree, tree.switch_type_spec()),
        fault_inside(tree, tree.switch_label()),
{
    assert(tree.has_start(tree.start));
    if tree.parts.len() >= 1 {
        lemma_type_fault(tree.parts[0]);
        lemma_expression_fault(tree.parts[0]);
        if let Err(fault) = tree.parts[0].type_spec() {
            lemma_part_start(tree, 0, fault.pos);
        }
        if let Err(fault) = tree.parts[0].const_expr() {
            lemma_part_start(tree, 0, fault.pos);
        }
        if tree.parts.len() >= 2 && tree.parts[0].type_spec() is Ok {
            let base = tree.parts[0].type_spec()->Ok_0;
            lemma_declarator_fault(tree.parts[1], base);
            if let Err(fault) = tree.parts[1].switch_element_declarator(base) {
                lemma_part_start(tree, 1, fault.pos);
            }
        }
    }
}

proof fn lemma_picked_part(trees: Seq<Tree>, rule: Rule, i: int) -> (k: int)
    requires
        0 <= i < crate::reading::of_rule(trees, rule).len(),
    ensures
        0 <= k < trees.len(),
        trees[k] == crate::reading::of_rule(trees, rule)[i],
    decreases trees.len(),
{
    let front = trees.drop_last();
    if i < crate::reading::of_rule(front, rule).len() {
        lemma_picked_part(front, rule, i)
    } else {
        trees.len() - 1
    }
}

/// What is wrong with a union case is said of the case or of a part of it.
pub proof fn lemma_case_fault(tree: Tree)
    requires
        tree.has_part(Rule::ElementSpec),
    ensures
        fault_inside(tree, tree.switch_case()),
{
    let labels = crate::reading::of_rule(tree.parts, Rule::CaseLabel);
    let read = crate::reading::reads_label();
    crate::declaration_laws::lemma_collect_reads_each(labels, read);
    match tree.case_labels() {
        Err(fault) => {
            let n = choose|n: int| #[trigger]
                crate::declaration_laws::fails_first_at(labels, read, n) && read(labels[n])
                    == Err::<SwitchLabel, _>(fault);
            let k = lemma_picked_part(tree.parts, Rule::CaseLabel, n);
            lemma_case_part_fault(tree.parts[k]);
            lemma_part_start(tree, k, fault.pos);
        },
        Ok(_) => {
            let elements = crate::reading::of_rule(tree.parts, Rule::ElementSpec);
            lemma_some_picked(tree.parts, Rule::ElementSpec);
            let k = lemma_picked_part(tree.parts, Rule::ElementSpec, elements.len() - 1);
            lemma_case_part_fault(tree.parts[k]);
            if let Err(fault) = tree.parts[k].switch_element_spec() {
                lemma_part_start(tree, k, fault.pos);
            }
        },
    }
}

proof fn lemma_some_picked(trees: Seq<Tree>, rule: Rule)
    requires
        exists|i: int| 0 <= i < trees.len() && (#[trigger] trees[i]).rule == rule,
    ensures
        crate::reading::of_rule(trees, rule).len() > 0,
    decreases trees.len(),
{
    let k = choose|i: int| 0 <= i < trees.len() && (#[trigger] trees[i]).rule == rule;
    if trees.last().rule != rule {
        let front = trees.drop_last();
        assert(front[k].rule == rule);
        lemma_some_picked(front, rule);
    }
}

/// What is wrong with a union is said of its definition or of a part of it.
pub proof fn lemma_union_fault(tree: Tree)
    requires
        tree.parts.len() >= 3,
        forall|i: int|
            0 <= i < tree.parts[2].parts.len() ==> (#[trigger] tree.parts[2].parts[i]).has_part(
                Rule::ElementSpec,
            ),
    ensures
        fault_inside(tree, tree.union_def()),
{
    lemma_name_fault(tree.parts[0]);
    if let Err(fault) = tree.parts[0].identifier() {
        lemma_part_start(tree, 0, fault.pos);
    }
    lemma_case_part_fault(tree.parts[1]);
    if let Err(fault) = tree.parts[1].switch_type_spec() {
        lemma_part_start(tree, 1, fault.pos);
    }
    let body = tree.parts[2];
    let read = crate::reading::reads_case();
    assert(body.parts.skip(0) =~= body.parts);
    assert forall|i: int| 0 <= i < body.parts.len() implies #[trigger] fault_inside(
        body.parts[i],
        read(body.parts[i]),
    ) by {
        lemma_case_fault(body.parts[i]);
    }
    lemma_collected_fault(body, body.parts, 0, read);
    if let Err(fault) = body.switch_body() {
        lemma_part_start(tree, 2, fault.pos);
    }
}

/// What is wrong with an enum or a constant is said of its declaration or of a part of it.
pub proof fn lemma_enum_and_const_fault(tree: Tree)
    ensures
        tree.parts.len() >= 1 ==> fault_inside(tree, tree.enum_dcl()),
        tree.parts.len() >= 3 ==> fault_inside(tree, tree.const_dcl()),
{
    if tree.parts.len() >= 1 {
        let trees = tree.later_parts();
        let read = crate::reading::reads_identifier();
        assert(trees =~= tree.parts.skip(1));
        assert forall|i: int| 0 <= i < trees.len() implies #[trigger] fault_inside(
            trees[i],
            read(trees[i]),
        ) by {
            lemma_name_fault(trees[i]);
        }
        lemma_collected_fault(tree, trees, 1, read);
    }
    if tree.parts.len() >= 3 {
        lemma_type_fault(tree.parts[0]);
        lemma_name_fault(tree.parts[1]);
        lemma_expression_fault(tree.parts[2]);
        if let Err(fault) = tree.parts[0].type_spec() {
            lemma_part_start(tree, 0, fault.pos);
        }
        if let Err(fault) = tree.parts[1].identifier() {
            lemma_part_start(tree, 1, fault.pos);
        }
        if let Err(fault) = tree.parts[2].const_expr() {
            lemma_part_start(tree, 2, fault.pos);
        }
    }
}

/// The fault that says `message` of a node.
pub open spec fn said_of<T>(tree: Tree, message: Seq<char>) -> Result<T, ParserFault> {
    Err(ParserFault { message, pos: tree.start })
}

/// A node that is no name cannot be read as one.
pub proof fn lemma_no_name(tree: Tree)
    requires
        tree.rule != Rule::Identifier,
        tree.rule != Rule::Enumerator,
    ensures
        tree.identifier() == said_of::<Seq<char>>(
            tree,
            "Pair did not contain a valid scoped name rule"@,
        ),
{
}

/// What is said of an expression that lacks an operand, and of an operator that there is not.
pub proof fn lemma_incomplete_expression(tree: Tree)
    ensures
        tree.parts.len() == 0 ==> {
            &&& tree.rule == Rule::AndExpr ==> tree.const_expr() == said_of::<ValueExpr>(
                tree,
                "No associated values found with the parsed '"@ + "and expression"@ + "'"@,
            )
            &&& tree.rule == Rule::OrExpr ==> tree.const_expr() == said_of::<ValueExpr>(
                tree,
                "No associated values found with the parsed '"@ + "or expression"@ + "'"@,
            )
            &&& tree.rule == Rule::XorExpr ==> tree.const_expr() == said_of::<ValueExpr>(
                tree,
                "No associated values found with the parsed '"@ + "xor expression"@ + "'"@,
            )
            &&& tree.rule == Rule::LshiftExpr ==> tree.const_expr() == said_of::<ValueExpr>(
                tree,
                "No associated values found with the parsed '"@ + "left shift expression"@ + "'"@,
            )
            &&& tree.rule == Rule::RshiftExpr ==> tree.const_expr() == said_of::<ValueExpr>(
                tree,
                "No associated values found with the parsed '"@ + "right shift expression"@ + "'"@,
            )
            &&& tree.rule == Rule::AddExpr ==> tree.const_expr() == said_of::<ValueExpr>(
                tree,
                "No associated values found with the parsed '"@ + "add expression"@ + "'"@,
            )
            &&& tree.rule == Rule::SubExpr ==> tree.const_expr() == said_of::<ValueExpr>(
                tree,
                "No associated values found with the parsed '"@ + "sub expression"@ + "'"@,
            )
            &&& tree.rule == Rule::MulExpr ==> tree.const_expr() == said_of::<ValueExpr>(
                tree,
                "No associated values found with the parsed '"@ + "multiply expression"@ + "'"@,
            )
            &&& tree.rule == Rule::DivExpr ==> tree.const_expr() == said_of::<ValueExpr>(
                tree,
                "No associated values found with the parsed '"@ + "division expression"@ + "'"@,
            )
            &&& tree.rule == Rule::ModExpr ==> tree.const_expr() == said_of::<ValueExpr>(
                tree,
                "No associated values found with the parsed '"@ + "modulo expression"@ + "'"@,
            )
            &&& tree.rule == Rule::ConstExpr ==> tree.const_expr() == said_of::<ValueExpr>(
                tree,
                "Pair did not contain a valid const expression rule"@,
            )
            &&& tree.rule == Rule::UnaryExpr ==> tree.const_expr() == said_of::<ValueExpr>(
                tree,
                "Rule does not match expected unary expression format"@,
            )
            &&& tree.rule == Rule::Literal || tree.rule == Rule::Other ==> tree.const_expr()
                == said_of::<ValueExpr>(
                tree,
                "Failed to read 'const expression' in the catch all"@,
            )
        },
        tree.rule == Rule::PrimaryExpr && (tree.parts.len() == 0 || (tree.parts[0].rule
            != Rule::ScopedName && tree.parts[0].rule != Rule::Literal && tree.parts[0].rule
            != Rule::ConstExpr)) ==> tree.const_expr() == said_of::<ValueExpr>(
            tree,
            "Primary expression did not match 'scoped_name', 'literal', or 'const expression'"@,
        ),
        tree.rule == Rule::UnaryExpr && tree.parts.len() >= 2 && tree.parts[1].const_expr() is Ok
            && tree.parts[0].text != "-"@ && tree.parts[0].text != "+"@ && tree.parts[0].text
            != "~"@ ==> tree.const_expr() == said_of::<ValueExpr>(
            tree.parts[1],
            tree.parts[0].text + " does not match acceptable values -|+|~"@,
        ),
{
}

/// What is said of a type, a member declaration, an element or a label that lacks a part.
pub proof fn lemma_incomplete_type(tree: Tree)
    ensures
        tree.parts.len() == 0 ==> {
            &&& tree.rule == Rule::SequenceType ==> tree.type_spec() == said_of::<TypeSpec>(
                tree,
                "Failed to discover required components to establish a sequence"@,
            )
            &&& tree.rule == Rule::Other ==> tree.type_spec() == said_of::<TypeSpec>(
                tree,
                "Failed find a deeper rule pair to follow"@,
            )
            &&& tree.struct_member() == said_of::<Seq<StructMember>>(
                tree,
                "Pair did not contain a valid IDL type rule"@,
            )
            &&& tree.switch_element_spec() == said_of::<SwitchElement>(
                tree,
                "Failed to read type spec from the switch element spec"@,
            )
            &&& tree.switch_type_spec() == said_of::<TypeSpec>(
                tree,
                "Failed to read associated type for switch type"@,
            )
        },
        tree.parts.len() == 1 && tree.parts[0].type_spec() is Ok ==> {
            &&& tree.struct_member() == said_of::<Seq<StructMember>>(
                tree,
                "Failed to aquire next declaration pair"@,
            )
            &&& tree.switch_element_spec() == said_of::<SwitchElement>(
                tree,
                "Failed to read declarator from the switch element spec"@,
            )
        },
{
}

/// What is said of a declarator that lacks a part or is neither a name nor an array.
pub proof fn lemma_incomplete_declarator(pair: Tree, base: TypeSpec)
    ensures
        pair.parts.len() == 0 ==> {
            &&& pair.struct_member_declarator(base) == said_of::<StructMember>(
                pair,
                "Pair did not contain a either other a simple or arraty declarator"@,
            )
            &&& pair.switch_element_declarator(base) == said_of::<SwitchElement>(
                pair,
                "Failed to parse switch element declarator"@,
            )
            &&& pair.declarator(base) == said_of::<(Seq<char>, TypeDcl)>(
                pair,
                "No associated values found with the parsed array|simple declarator"@,
            )
        },
        pair.parts.len() >= 1 && pair.parts[0].rule != Rule::SimpleDeclarator
            && pair.parts[0].rule != Rule::ArrayDeclarator ==> {
            &&& pair.struct_member_declarator(base) == said_of::<StructMember>(
                pair.parts[0],
                "Pair did not contain a valid IDL type rule"@,
            )
            &&& pair.switch_element_declarator(base) == said_of::<SwitchElement>(
                pair.parts[0],
                "Failed to discover either simple or array declarator for switch element declarator"@,
            )
            &&& pair.declarator(base) == said_of::<(Seq<char>, TypeDcl)>(
                pair.parts[0],
                "Pair did not contain a valid simple or array declarator"@,
            )
        },
        pair.parts.len() >= 1 && pair.parts[0].parts.len() == 0 && pair.parts[0].rule
            == Rule::SimpleDeclarator ==> {
            &&& pair.struct_member_declarator(base) == said_of::<StructMember>(
                pair.parts[0],
                "Pair did not contain a valid IDL simple declarator"@,
            )
            &&& pair.switch_element_declarator(base) == said_of::<SwitchElement>(
                pair.parts[0],
                "Failed to discover simple declarator for switch element"@,
            )
            &&& pair.declarator(base) == said_of::<(Seq<char>, TypeDcl)>(
                pair.parts[0],
                "Pair did not contain a valid identifer for the simple declarator"@,
            )
        },
        pair.parts.len() >= 1 && pair.parts[0].parts.len() == 0 && pair.parts[0].rule
            == Rule::ArrayDeclarator ==> {
            &&& pair.struct_member_declarator(base) == said_of::<StructMember>(
                pair.parts[0],
                "Pair did not contain a valid IDL array declatator"@,
            )
            &&& pair.switch_element_declarator(base) == said_of::<SwitchElement>(
                pair.parts[0],
                "Failed to parse array declarator for switch element declarator"@,
            )
            &&& pair.declarator(base) == said_of::<(Seq<char>, TypeDcl)>(
                pair.parts[0],
                "Pair did not contain a valid identifer for the simple declarator"@,
            )
        },
{
}

/// A list that cannot be read has the fault of the first tree that cannot.
pub proof fn lemma_first_fault<T>(
    trees: Seq<Tree>,
    read: spec_fn(Tree) -> Result<T, ParserFault>,
    k: int,
    fault: ParserFault,
)
    requires
        crate::declaration_laws::fails_first_at(trees, read, k),
        read(trees[k]) == Err::<T, _>(fault),
    ensures
        crate::reading::collect(trees, read) == Err::<Seq<T>, _>(fault),
{
    crate::declaration_laws::lemma_collect_reads_each(trees, read);
    match crate::reading::collect(trees, read) {
        Ok(values) => {
            assert(read(trees[k]) == Ok::<_, ParserFault>(values[k]));
        },
        Err(found) => {
            let m = choose|m: int| #[trigger]
                crate::declaration_laws::fails_first_at(trees, read, m) && read(trees[m]) == Err::<
                    T,
                    _,
                >(found);
            if m < k {
                assert(read(trees[m]) is Ok);
            }
            if k < m {
                assert(read(trees[k]) is Ok);
            }
        },
    }
}

/// Whether an array dimension can be read.
pub open spec fn size_readable(size: Tree) -> bool {
    size.parts.len() >= 1 && size.parts[0].const_expr() is Ok
}

/// A dimension that cannot be read is the fault of its declarator. If nothing stands in it, that
/// is said of the declarator in a struct and in a `typedef`, and of the dimension in a union.
pub proof fn lemma_dimension_fault(pair: Tree, base: TypeSpec, k: int)
    requires
        pair.parts.len() >= 1,
        pair.parts[0].rule == Rule::ArrayDeclarator,
        1 <= k < pair.parts[0].parts.len(),
        !size_readable(pair.parts[0].parts[k]),
        forall|i: int| 1 <= i < k ==> size_readable(#[trigger] pair.parts[0].parts[i]),
    ensures
        ({
            let decl = pair.parts[0];
            let size = decl.parts[k];
            &&& size.parts.len() >= 1 ==> pair.struct_member_declarator(base) == Err::<
                StructMember,
                _,
            >(size.parts[0].const_expr()->Err_0)
            &&& size.parts.len() == 0 ==> pair.struct_member_declarator(base) == said_of::<
                StructMember,
            >(decl, "Pair did not contain a valid 'const expression'"@)
            &&& decl.parts[0].identifier() is Ok ==> {
                &&& size.parts.len() >= 1 ==> pair.switch_element_declarator(base) == Err::<
                    SwitchElement,
                    _,
                >(size.parts[0].const_expr()->Err_0)
                &&& size.parts.len() == 0 ==> pair.switch_element_declarator(base) == said_of::<
                    SwitchElement,
                >(
                    size,
                    "Failed to discover const_expr under the fixed_array_size for switch element declarator"@,
                )
                &&& size.parts.len() >= 1 ==> pair.declarator(base) == Err::<
                    (Seq<char>, TypeDcl),
                    _,
                >(size.parts[0].const_expr()->Err_0)
                &&& size.parts.len() == 0 ==> pair.declarator(base) == said_of::<
                    (Seq<char>, TypeDcl),
                >(decl, "Failed to read the const expr under the Rule::fixed_array_size"@)
            }
        }),
{
    let decl = pair.parts[0];
    lemma_size_fault(
        decl,
        k,
        "Pair did not contain a valid 'const expression'"@,
        Some(decl.start),
    );
    lemma_size_fault(
        decl,
        k,
        "Failed to discover const_expr under the fixed_array_size for switch element declarator"@,
        None,
    );
    lemma_size_fault(
        decl,
        k,
        "Failed to read the const expr under the Rule::fixed_array_size"@,
        Some(decl.start),
    );
}

proof fn lemma_size_fault(decl: Tree, k: int, message: Seq<char>, pos: Option<nat>)
    requires
        1 <= k < decl.parts.len(),
        !size_readable(decl.parts[k]),
        forall|i: int| 1 <= i < k ==> size_readable(#[trigger] decl.parts[i]),
    ensures
        crate::reading::collect(decl.later_parts(), crate::reading::reads_size(message, pos))
            == Err::<Seq<ValueExpr>, _>(
            if decl.parts[k].parts.len() >= 1 {
                decl.parts[k].parts[0].const_expr()->Err_0
            } else {
                ParserFault {
                    message,
                    pos: match pos {
                        Some(pos) => pos,
                        None => decl.parts[k].start,
                    },
                }
            },
        ),
{
    let trees = decl.later_parts();
    let read = crate::reading::reads_size(message, pos);
    assert(trees[k - 1] == decl.parts[k]);
    assert forall|i: int| 0 <= i < k - 1 implies read(#[trigger] trees[i]) is Ok by {
        assert(trees[i] == decl.parts[i + 1]);
        assert(size_readable(decl.parts[i + 1]));
    }
    assert(crate::declaration_laws::fails_first_at(trees, read, k - 1));
    lemma_first_fault(trees, read, k - 1, read(trees[k - 1])->Err_0);
}

/// A name that cannot be read is the fault of its declarator, once the dimensions of a struct
/// member could be read.
pub proof fn lemma_declared_name_fault(pair: Tree, base: TypeSpec, fault: ParserFault)
    requires
        pair.parts.len() >= 1,
        pair.parts[0].parts.len() >= 1,
        pair.parts[0].rule == Rule::SimpleDeclarator || pair.parts[0].rule
            == Rule::ArrayDeclarator,
        pair.parts[0].parts[0].identifier() == Err::<Seq<char>, _>(fault),
    ensures
        pair.switch_element_declarator(base) == Err::<SwitchElement, _>(fault),
        pair.declarator(base) == Err::<(Seq<char>, TypeDcl), _>(fault),
        pair.parts[0].rule == Rule::SimpleDeclarator ==> pair.struct_member_declarator(base)
            == Err::<StructMember, _>(fault),
        (forall|i: int|
            1 <= i < pair.parts[0].parts.len() ==> size_readable(
                #[trigger] pair.parts[0].parts[i],
            )) ==> pair.struct_member_declarator(base) == Err::<StructMember, _>(fault),
{
    let decl = pair.parts[0];
    let trees = decl.later_parts();
    let read = crate::reading::reads_size(
        "Pair did not contain a valid 'const expression'"@,
        Some(decl.start),
    );
    if forall|i: int|
        1 <= i < pair.parts[0].parts.len() ==> size_readable(#[trigger] pair.parts[0].parts[i]) {
        assert forall|i: int| 0 <= i < trees.len() implies read(#[trigger] trees[i]) is Ok by {
            assert(trees[i] == decl.parts[i + 1]);
            assert(size_readable(decl.parts[i + 1]));
        }
        crate::declaration_laws::lemma_collect_reads_each(trees, read);
    }
}

/// The fault of a definition is that of the first part that cannot be read.
pub proof fn lemma_definition_fault(tree: Tree, k: int, fault: ParserFault)
    requires
        1 <= k < tree.parts.len(),
    ensures
        (forall|i: int| 1 <= i < k ==> (#[trigger] tree.parts[i]).struct_member() is Ok)
            && tree.parts[k].struct_member() == Err::<Seq<StructMember>, _>(fault)
            ==> tree.struct_def() == Err::<TypeDcl, _>(fault),
        (forall|i: int| 1 <= i < k ==> (#[trigger] tree.parts[i]).identifier() is Ok)
            && tree.parts[k].identifier() == Err::<Seq<char>, _>(fault) ==> tree.enum_dcl()
            == Err::<TypeDcl, _>(fault),
{
    let trees = tree.later_parts();
    assert(trees[k - 1] == tree.parts[k]);
    if (forall|i: int| 1 <= i < k ==> (#[trigger] tree.parts[i]).struct_member() is Ok)
        && tree.parts[k].struct_member() == Err::<Seq<StructMember>, _>(fault) {
        let read = crate::reading::reads_member();
        assert forall|i: int| 0 <= i < k - 1 implies read(#[trigger] trees[i]) is Ok by {
            assert(trees[i] == tree.parts[i + 1]);
        }
        assert(crate::declaration_laws::fails_first_at(trees, read, k - 1));
        lemma_first_fault(trees, read, k - 1, fault);
    }
    if (forall|i: int| 1 <= i < k ==> (#[trigger] tree.parts[i]).identifier() is Ok)
        && tree.parts[k].identifier() == Err::<Seq<char>, _>(fault) {
        let read = crate::reading::reads_identifier();
        assert forall|i: int| 0 <= i < k - 1 implies read(#[trigger] trees[i]) is Ok by {
            assert(trees[i] == tree.parts[i + 1]);
        }
        assert(crate::declaration_laws::fails_first_at(trees, read, k - 1));
        lemma_first_fault(trees, read, k - 1, fault);
    }
}

/// The fault of a list is that of the first part that cannot be read: of a name the first that is
/// no identifier, of a member declaration the first declarator, of a union body the first case.
pub proof fn lemma_list_fault(tree: Tree, base: TypeSpec, k: int, fault: ParserFault)
    requires
        0 <= k < tree.parts.len(),
    ensures
        (forall|i: int| 0 <= i < k ==> (#[trigger] tree.parts[i]).identifier() is Ok)
            && tree.parts[k].identifier() == Err::<Seq<char>, _>(fault) ==> tree.scoped_name()
            == Err::<ScopedName, _>(fault),
        (forall|i: int|
            0 <= i < k ==> (#[trigger] tree.parts[i]).struct_member_declarator(base) is Ok)
            && tree.parts[k].struct_member_declarator(base) == Err::<StructMember, _>(fault)
            ==> tree.declared_members(base) == Err::<Seq<StructMember>, _>(fault),
        (forall|i: int| 0 <= i < k ==> (#[trigger] tree.parts[i]).switch_case() is Ok)
            && tree.parts[k].switch_case() == Err::<SwitchCase, _>(fault) ==> tree.switch_body()
            == Err::<Seq<SwitchCase>, _>(fault),
{
    let trees = tree.parts;
    if (forall|i: int| 0 <= i < k ==> (#[trigger] tree.parts[i]).identifier() is Ok)
        && tree.parts[k].identifier() == Err::<Seq<char>, _>(fault) {
        let read = crate::reading::reads_identifier();
        assert(crate::declaration_laws::fails_first_at(trees, read, k));
        lemma_first_fault(trees, read, k, fault);
    }
    if (forall|i: int|
        0 <= i < k ==> (#[trigger] tree.parts[i]).struct_member_declarator(base) is Ok)
        && tree.parts[k].struct_member_declarator(base) == Err::<StructMember, _>(fault) {
        let read = crate::reading::reads_member_declarator(base);
        assert(crate::declaration_laws::fails_first_at(trees, read, k));
        lemma_first_fault(trees, read, k, fault);
    }
    if (forall|i: int| 0 <= i < k ==> (#[trigger] tree.parts[i]).switch_case() is Ok)
        && tree.parts[k].switch_case() == Err::<SwitchCase, _>(fault) {
        let read = crate::reading::reads_case();
        assert(crate::declaration_laws::fails_first_at(trees, read, k));
        lemma_first_fault(trees, read, k, fault);
    }
}

/// The parts of a declaration are read in turn, and the fault of the first that cannot be read is
/// the fault of the declaration.
pub proof fn lemma_faults_in_turn(tree: Tree, fault: ParserFault)
    requires
        tree.parts.len() >= 3,
    ensures
        tree.parts[0].type_spec() == Err::<TypeSpec, _>(fault) ==> {
            &&& tree.const_dcl() == Err::<ConstDcl, _>(fault)
            &&& tree.struct_member() == Err::<Seq<StructMember>, _>(fault)
            &&& tree.switch_element_spec() == Err::<SwitchElement, _>(fault)
            &&& tree.switch_type_spec() == Err::<TypeSpec, _>(fault)
        },
        tree.parts[0].type_spec() is Ok && tree.parts[1].identifier() == Err::<Seq<char>, _>(fault)
            ==> tree.const_dcl() == Err::<ConstDcl, _>(fault),
        tree.parts[0].type_spec() is Ok && tree.parts[1].identifier() is Ok
            && tree.parts[2].const_expr() == Err::<ValueExpr, _>(fault) ==> tree.const_dcl()
            == Err::<ConstDcl, _>(fault),
        tree.parts[0].identifier() == Err::<Seq<char>, _>(fault) ==> tree.union_def() == Err::<
            (Seq<char>, TypeDcl),
            _,
        >(fault),
        tree.parts[0].identifier() is Ok && tree.parts[1].switch_type_spec() == Err::<TypeSpec, _>(
            fault,
        ) ==> tree.union_def() == Err::<(Seq<char>, TypeDcl), _>(fault),
        tree.parts[0].identifier() is Ok && tree.parts[1].switch_type_spec() is Ok
            && tree.parts[2].switch_body() == Err::<Seq<SwitchCase>, _>(fault) ==> tree.union_def()
            == Err::<(Seq<char>, TypeDcl), _>(fault),
{
}

/// What is read through a part has the fault of the part.
pub proof fn lemma_fault_of_part(tree: Tree, fault: ParserFault)
    requires
        tree.parts.len() >= 1,
    ensures
        tree.parts[0].const_expr() == Err::<ValueExpr, _>(fault) ==> {
            &&& tree.switch_label() == Err::<SwitchLabel, _>(fault)
            &&& tree.rule == Rule::StringType || tree.rule == Rule::WideStringType
                ==> tree.type_spec() == Err::<TypeSpec, _>(fault)
            &&& tree.rule == Rule::ConstExpr ==> tree.const_expr() == Err::<ValueExpr, _>(fault)
            &&& tree.rule == Rule::PrimaryExpr && (tree.parts[0].rule == Rule::Literal
                || tree.parts[0].rule == Rule::ConstExpr) ==> tree.const_expr() == Err::<
                ValueExpr,
                _,
            >(fault)
        },
        tree.parts[0].type_spec() == Err::<TypeSpec, _>(fault) && tree.rule == Rule::SequenceType
            ==> tree.type_spec() == Err::<TypeSpec, _>(fault),
        tree.parts[0].type_spec() is Ok && tree.rule == Rule::SequenceType && tree.parts.len() >= 2
            && tree.parts[1].const_expr() == Err::<ValueExpr, _>(fault) ==> tree.type_spec()
            == Err::<TypeSpec, _>(fault),
        tree.parts[0].scoped_name() == Err::<ScopedName, _>(fault) && tree.parts[0].rule
            == Rule::ScopedName ==> {
            &&& tree.parts[0].type_spec() == Err::<TypeSpec, _>(fault)
            &&& tree.rule == Rule::PrimaryExpr ==> tree.const_expr() == Err::<ValueExpr, _>(fault)
        },
        tree.rule == Rule::ConstExpr && tree.parts.len() >= 2 && tree.parts[0].const_expr() is Ok
            && tree.parts[1].const_expr() == Err::<ValueExpr, _>(fault) ==> tree.const_expr()
            == Err::<ValueExpr, _>(fault),
        tree.rule == Rule::UnaryExpr && tree.parts.len() >= 2 && tree.parts[1].const_expr()
            == Err::<ValueExpr, _>(fault) ==> tree.const_expr() == Err::<ValueExpr, _>(fault),
{
}

/// The fault of a union case is that of its first label that cannot be read; if all can, that of
/// its element.
pub proof fn lemma_case_faults_in_turn(tree: Tree, n: int, k: int, fault: ParserFault)
    ensures
        ({
            let labels = crate::reading::of_rule(tree.parts, Rule::CaseLabel);
            &&& 0 <= n < labels.len() && (forall|i: int|
                0 <= i < n ==> (#[trigger] labels[i]).switch_label() is Ok)
                && labels[n].switch_label() == Err::<SwitchLabel, _>(fault) ==> tree.switch_case()
                == Err::<SwitchCase, _>(fault)
            &&& (forall|i: int|
                0 <= i < labels.len() ==> (#[trigger] labels[i]).switch_label() is Ok) && 0 <= k
                < tree.parts.len() && tree.parts[k].rule == Rule::ElementSpec && (forall|j: int|
                k < j < tree.parts.len() ==> (#[trigger] tree.parts[j]).rule != Rule::ElementSpec)
                && tree.parts[k].switch_element_spec() == Err::<SwitchElement, _>(fault)
                ==> tree.switch_case() == Err::<SwitchCase, _>(fault)
        }),
{
    let labels = crate::reading::of_rule(tree.parts, Rule::CaseLabel);
    let read = crate::reading::reads_label();
    if 0 <= n < labels.len() && (forall|i: int|
        0 <= i < n ==> (#[trigger] labels[i]).switch_label() is Ok) && labels[n].switch_label()
        == Err::<SwitchLabel, _>(fault) {
        assert(crate::declaration_laws::fails_first_at(labels, read, n));
        lemma_first_fault(labels, read, n, fault);
    }
    if (forall|i: int| 0 <= i < labels.len() ==> (#[trigger] labels[i]).switch_label() is Ok) && 0
        <= k < tree.parts.len() && tree.parts[k].rule == Rule::ElementSpec && (forall|j: int|
        k < j < tree.parts.len() ==> (#[trigger] tree.parts[j]).rule != Rule::ElementSpec) {
        assert forall|i: int| 0 <= i < labels.len() implies read(#[trigger] labels[i]) is Ok by {}
        crate::declaration_laws::lemma_collect_reads_each(labels, read);
        crate::declaration_laws::lemma_last_picked(tree.parts, Rule::ElementSpec, k);
    }
}

}
