//! What holds of declarations as they are read off parse trees: every part counts, and none
//! counts twice.

use crate::ast::{StructMember, SwitchLabel, TypeDcl, TypeSpec, ValueExpr};
use crate::error::ParserFault;
use crate::node::Tree;
use crate::rule::Rule;
use vstd::prelude::*;

verus! {

/// Whether some values are what a list of trees reads as, each tree for itself.
pub open spec fn reads_as<T>(
    trees: Seq<Tree>,
    read: spec_fn(Tree) -> Result<T, ParserFault>,
    values: Seq<T>,
) -> bool {
    &&& values.len() == trees.len()
    &&& forall|i: int|
        0 <= i < trees.len() ==> read(#[trigger] trees[i]) == Ok::<_, ParserFault>(values[i])
}

/// Whether a tree of a list cannot be read, and it is the first.
pub open spec fn fails_first_at<T>(
    trees: Seq<Tree>,
    read: spec_fn(Tree) -> Result<T, ParserFault>,
    k: int,
) -> bool {
    &&& 0 <= k < trees.len()
    &&& read(trees[k]) is Err
    &&& forall|i: int| 0 <= i < k ==> read(#[trigger] trees[i]) is Ok
}

/// A list is read tree by tree: every tree gives its own value in its own place, and the list
/// cannot be read exactly if a tree cannot; then the error is that of the first such tree.
pub proof fn lemma_collect_reads_each<T>(
    trees: Seq<Tree>,
    read: spec_fn(Tree) -> Result<T, ParserFault>,
)
    ensures
        match crate::reading::collect(trees, read) {
            Ok(values) => reads_as(trees, read, values),
            Err(fault) => exists|k: int| #[trigger]
                fails_first_at(trees, read, k) && read(trees[k]) == Err::<T, _>(fault),
        },
        (forall|i: int| 0 <= i < trees.len() ==> read(#[trigger] trees[i]) is Ok)
            ==> crate::reading::collect(trees, read) is Ok,
    decreases trees.len(),
{
    if trees.len() > 0 {
        let front = trees.drop_last();
        let n = trees.len() - 1;
        lemma_collect_reads_each(front, read);
        assert forall|i: int| 0 <= i < front.len() implies front[i] == #[trigger] trees[i] by {}
        match crate::reading::collect(front, read) {
            Ok(values) => {
                assert forall|i: int| 0 <= i < n implies read(#[trigger] trees[i]) == Ok::<
                    _,
                    ParserFault,
                >(values[i]) by {
                    assert(read(front[i]) == Ok::<_, ParserFault>(values[i]));
                }
                if let Ok(value) = read(trees[n]) {
                    let all = values.push(value);
                    assert forall|i: int| 0 <= i < trees.len() implies read(#[trigger] trees[i])
                        == Ok::<_, ParserFault>(all[i]) by {}
                } else {
                    assert(fails_first_at(trees, read, n));
                }
            },
            Err(_) => {
                let k = choose|k: int| #[trigger] fails_first_at(front, read, k);
                assert(front[k] == trees[k]);
                assert forall|i: int| 0 <= i < k implies read(#[trigger] trees[i]) is Ok by {
                    assert(read(front[i]) is Ok);
                }
                assert(fails_first_at(trees, read, k));
                let m = choose|m: int| #[trigger]
                    fails_first_at(front, read, m) && read(front[m]) == Err::<T, _>(
                        crate::reading::collect(front, read)->Err_0,
                    );
                assert(m == k) by {
                    if m < k {
                        assert(read(front[m]) is Ok);
                    }
                    if k < m {
                        assert(read(front[k]) is Ok);
                    }
                }
            },
        }
    }
}

/// The trees that a rule matched are picked out in order, and no others.
pub proof fn lemma_picked_by_rule(trees: Seq<Tree>, rule: Rule)
    ensures
        crate::reading::of_rule(trees, rule) == trees.filter(|tree: Tree| tree.rule == rule),
    decreases trees.len(),
{
    reveal(Seq::filter);
    if trees.len() > 0 {
        lemma_picked_by_rule(trees.drop_last(), rule);
    }
}

/// An identifier or enumerator is read as its text, and nothing else is read as a name.
pub proof fn lemma_identifier_is_text(tree: Tree)
    ensures
        tree.identifier() is Ok <==> tree.rule == Rule::Identifier || tree.rule
            == Rule::Enumerator,
        tree.identifier() matches Ok(id) ==> id == tree.text,
{
}

/// A scoped name has as many identifiers as its node has parts, each the text of its part.
pub proof fn lemma_scoped_name_parts(tree: Tree)
    ensures
        tree.scoped_name() is Ok <==> forall|i: int|
            0 <= i < tree.parts.len() ==> (#[trigger] tree.parts[i]).identifier() is Ok,
        tree.scoped_name() matches Ok(name) ==> {
            &&& name.path.len() == tree.parts.len()
            &&& forall|i: int|
                0 <= i < tree.parts.len() ==> name.path[i] == (#[trigger] tree.parts[i]).text
            &&& name.absolute == (tree.text.len() >= 2 && tree.text[0] == ':' && tree.text[1]
                == ':')
        },
{
    let read = crate::reading::reads_identifier();
    lemma_collect_reads_each(tree.parts, read);
    assert forall|i: int| 0 <= i < tree.parts.len() implies read(#[trigger] tree.parts[i])
        == tree.parts[i].identifier() by {}
    if tree.scoped_name() is Err {
        let k = choose|k: int| #[trigger] fails_first_at(tree.parts, read, k);
        assert(tree.parts[k].identifier() is Err);
    }
}

/// The expression inside an array dimension.
pub open spec fn dimension(decl: Tree, i: int) -> Result<ValueExpr, ParserFault> {
    decl.parts[i + 1].parts[0].const_expr()
}

/// Whether a declarator names something, and each of its dimensions can be read.
pub open spec fn declarator_readable(pair: Tree) -> bool {
    &&& pair.parts.len() >= 1
    &&& pair.parts[0].parts.len() >= 1
    &&& pair.parts[0].parts[0].identifier() is Ok
    &&& pair.parts[0].rule == Rule::SimpleDeclarator || (pair.parts[0].rule
        == Rule::ArrayDeclarator && forall|i: int|
        1 <= i < pair.parts[0].parts.len() ==> (#[trigger] pair.parts[0].parts[i]).parts.len()
            >= 1 && pair.parts[0].parts[i].parts[0].const_expr() is Ok)
}

/// Whether `declared` is the type that a declarator makes of `base`: `base` itself, or an array
/// of it that has exactly the dimensions of the declarator, in order.
pub open spec fn declared_type(pair: Tree, base: TypeSpec, declared: TypeSpec) -> bool {
    let decl = pair.parts[0];
    if decl.rule == Rule::SimpleDeclarator {
        declared == base
    } else {
        declared matches TypeSpec::ArrayType(element, sizes) && {
            &&& *element == base
            &&& sizes.len() + 1 == decl.parts.len()
            &&& forall|i: int|
                0 <= i < sizes.len() ==> dimension(decl, i) == Ok::<_, ParserFault>(
                    #[trigger] sizes[i],
                )
        }
    }
}

proof fn lemma_sizes(decl: Tree, message: Seq<char>, pos: Option<nat>)
    requires
        decl.parts.len() >= 1,
    ensures
        ({
            let sizes = crate::reading::collect(
                decl.later_parts(),
                crate::reading::reads_size(message, pos),
            );
            &&& sizes is Ok <==> forall|i: int|
                1 <= i < decl.parts.len() ==> (#[trigger] decl.parts[i]).parts.len() >= 1
                    && decl.parts[i].parts[0].const_expr() is Ok
            &&& sizes matches Ok(exprs) ==> exprs.len() + 1 == decl.parts.len() && forall|i: int|
                0 <= i < exprs.len() ==> dimension(decl, i) == Ok::<_, ParserFault>(
                    #[trigger] exprs[i],
                )
        }),
{
    let trees = decl.later_parts();
    let read = crate::reading::reads_size(message, pos);
    lemma_collect_reads_each(trees, read);
    assert forall|i: int| 0 <= i < trees.len() implies #[trigger] trees[i] == decl.parts[i + 1] by {}
    match crate::reading::collect(trees, read) {
        Ok(exprs) => {
            assert forall|i: int| 0 <= i < exprs.len() implies dimension(decl, i) == Ok::<
                _,
                ParserFault,
            >(#[trigger] exprs[i]) by {
                assert(read(trees[i]) == Ok::<_, ParserFault>(exprs[i]));
            }
            assert forall|i: int| 1 <= i < decl.parts.len() implies (
            #[trigger] decl.parts[i]).parts.len() >= 1
                && decl.parts[i].parts[0].const_expr() is Ok by {
                assert(read(trees[i - 1]) is Ok);
            }
        },
        Err(_) => {
            let k = choose|k: int| #[trigger] fails_first_at(trees, read, k);
            assert(read(trees[k]) is Err);
            assert(trees[k] == decl.parts[k + 1]);
        },
    }
}

/// A struct member has the name in its declarator, and the type that the declarator makes of the
/// type in front: an array has as many dimensions as there are in the declarator, each the
/// expression inside its part.
pub proof fn lemma_struct_member_is_declared(pair: Tree, base: TypeSpec)
    ensures
        pair.struct_member_declarator(base) is Ok <==> declarator_readable(pair),
        pair.struct_member_declarator(base) matches Ok(member) ==> {
            &&& member.id == pair.parts[0].parts[0].text
            &&& declared_type(pair, base, member.type_spec)
        },
{
    if pair.parts.len() >= 1 && pair.parts[0].parts.len() >= 1 {
        let decl = pair.parts[0];
        lemma_sizes(
            decl,
            "Pair did not contain a valid 'const expression'"@,
            Some(decl.start),
        );
    }
}

/// A union element has the name in its declarator, and the type that the declarator makes of the
/// type in front.
pub proof fn lemma_switch_element_is_declared(pair: Tree, base: TypeSpec)
    ensures
        pair.switch_element_declarator(base) is Ok <==> declarator_readable(pair),
        pair.switch_element_declarator(base) matches Ok(element) ==> {
            &&& element.id == pair.parts[0].parts[0].text
            &&& declared_type(pair, base, element.type_spec)
        },
{
    if pair.parts.len() >= 1 && pair.parts[0].parts.len() >= 1 {
        lemma_sizes(
            pair.parts[0],
            "Failed to discover const_expr under the fixed_array_size for switch element declarator"@,
            None,
        );
    }
}

/// A `typedef` declares the name in its declarator, under that name, with the type that the
/// declarator makes of the type in front.
pub proof fn lemma_typedef_is_declared(pair: Tree, base: TypeSpec)
    ensures
        pair.declarator(base) is Ok <==> declarator_readable(pair),
        pair.declarator(base) matches Ok((key, type_dcl)) ==> {
            &&& key == pair.parts[0].parts[0].text
            &&& type_dcl matches TypeDcl::TypeDcl(id, declared) && id == key && declared_type(
                pair,
                base,
                declared,
            )
        },
{
    if pair.parts.len() >= 1 && pair.parts[0].parts.len() >= 1 {
        let decl = pair.parts[0];
        lemma_sizes(
            decl,
            "Failed to read the const expr under the Rule::fixed_array_size"@,
            Some(decl.start),
        );
    }
}

/// The same declarator makes the same type of the same type, in a struct, in a union and in a
/// `typedef`.
pub proof fn lemma_declarators_agree(pair: Tree, base: TypeSpec)
    requires
        declarator_readable(pair),
    ensures
        ({
            let member = pair.struct_member_declarator(base)->Ok_0;
            let element = pair.switch_element_declarator(base)->Ok_0;
            let (key, type_dcl) = pair.declarator(base)->Ok_0;
            &&& member.id == element.id
            &&& member.type_spec == element.type_spec
            &&& key == member.id
            &&& type_dcl == TypeDcl::TypeDcl(member.id, member.type_spec)
        }),
{
    lemma_struct_member_is_declared(pair, base);
    lemma_switch_element_is_declared(pair, base);
    lemma_typedef_is_declared(pair, base);
    let member = pair.struct_member_declarator(base)->Ok_0.type_spec;
    let element = pair.switch_element_declarator(base)->Ok_0.type_spec;
    let (_, type_dcl) = pair.declarator(base)->Ok_0;
    lemma_declared_type_is_one(pair, base, member, element);
    lemma_declared_type_is_one(pair, base, member, type_dcl->TypeDcl_1);
}

proof fn lemma_declared_type_is_one(pair: Tree, base: TypeSpec, a: TypeSpec, b: TypeSpec)
    requires
        declared_type(pair, base, a),
        declared_type(pair, base, b),
    ensures
        a == b,
{
    if pair.parts[0].rule != Rule::SimpleDeclarator {
        if let (TypeSpec::ArrayType(_, left), TypeSpec::ArrayType(_, right)) = (a, b) {
            assert forall|i: int| 0 <= i < left.len() implies left[i] == right[i] by {
                assert(dimension(pair.parts[0], i) == Ok::<_, ParserFault>(left[i]));
                assert(dimension(pair.parts[0], i) == Ok::<_, ParserFault>(right[i]));
            }
            assert(left =~= right);
        }
    }
}

/// A type without parts of its own is told by its rule alone.
pub proof fn lemma_basic_types(tree: Tree)
    ensures
        tree.rule == Rule::Float ==> tree.type_spec() == Ok::<_, ParserFault>(TypeSpec::F32Type),
        tree.rule == Rule::Double ==> tree.type_spec() == Ok::<_, ParserFault>(TypeSpec::F64Type),
        tree.rule == Rule::LongDouble ==> tree.type_spec() == Ok::<_, ParserFault>(
            TypeSpec::F128Type,
        ),
        tree.rule == Rule::SignedShortInt ==> tree.type_spec() == Ok::<_, ParserFault>(
            TypeSpec::I16Type,
        ),
        tree.rule == Rule::SignedLongInt ==> tree.type_spec() == Ok::<_, ParserFault>(
            TypeSpec::I32Type,
        ),
        tree.rule == Rule::SignedLonglongInt ==> tree.type_spec() == Ok::<_, ParserFault>(
            TypeSpec::I64Type,
        ),
        tree.rule == Rule::UnsignedShortInt ==> tree.type_spec() == Ok::<_, ParserFault>(
            TypeSpec::U16Type,
        ),
        tree.rule == Rule::UnsignedLongInt ==> tree.type_spec() == Ok::<_, ParserFault>(
            TypeSpec::U32Type,
        ),
        tree.rule == Rule::UnsignedLonglongInt ==> tree.type_spec() == Ok::<_, ParserFault>(
            TypeSpec::U64Type,
        ),
        tree.rule == Rule::CharType ==> tree.type_spec() == Ok::<_, ParserFault>(
            TypeSpec::CharType,
        ),
        tree.rule == Rule::WideCharType ==> tree.type_spec() == Ok::<_, ParserFault>(
            TypeSpec::WideCharType,
        ),
        tree.rule == Rule::BooleanType ==> tree.type_spec() == Ok::<_, ParserFault>(
            TypeSpec::BooleanType,
        ),
        tree.rule == Rule::OctetType ==> tree.type_spec() == Ok::<_, ParserFault>(
            TypeSpec::OctetType,
        ),
{
}

/// A string is bounded exactly if a bound is given, and then by the whole of it.
pub proof fn lemma_string_bounds(tree: Tree)
    requires
        tree.rule == Rule::StringType || tree.rule == Rule::WideStringType,
    ensures
        tree.type_spec() is Ok <==> tree.parts.len() == 0 || tree.parts[0].const_expr() is Ok,
        tree.type_spec() matches Ok(type_spec) ==> {
            &&& type_spec is StringType <==> tree.rule == Rule::StringType
            &&& type_spec is WideStringType <==> tree.rule == Rule::WideStringType
            &&& type_spec matches TypeSpec::StringType(bound) ==> (bound is None <==> tree.parts.len()
                == 0) && (bound matches Some(expr) ==> tree.parts[0].const_expr() == Ok::<
                _,
                ParserFault,
            >(expr))
            &&& type_spec matches TypeSpec::WideStringType(bound) ==> (bound is None
                <==> tree.parts.len() == 0) && (bound matches Some(expr)
                ==> tree.parts[0].const_expr() == Ok::<_, ParserFault>(expr))
        },
{
}

/// A sequence is one of the whole of its element type, with or without a bound.
pub proof fn lemma_sequence_keeps_element(tree: Tree)
    requires
        tree.rule == Rule::SequenceType,
    ensures
        tree.type_spec() is Ok <==> tree.parts.len() >= 1 && tree.parts[0].type_spec() is Ok && (
        tree.parts.len() >= 2 ==> tree.parts[1].const_expr() is Ok),
        tree.type_spec() matches Ok(type_spec) ==> (type_spec matches TypeSpec::SequenceType(
            element,
        ) && tree.parts[0].type_spec() == Ok::<_, ParserFault>(*element)),
{
}

/// Whether a rule matches a type that is read as it stands.
pub open spec fn matches_type(rule: Rule) -> bool {
    match rule {
        Rule::Float
        | Rule::Double
        | Rule::LongDouble
        | Rule::UnsignedShortInt
        | Rule::UnsignedLonglongInt
        | Rule::UnsignedLongInt
        | Rule::SignedShortInt
        | Rule::SignedLonglongInt
        | Rule::SignedLongInt
        | Rule::CharType
        | Rule::WideCharType
        | Rule::BooleanType
        | Rule::OctetType
        | Rule::StringType
        | Rule::WideStringType
        | Rule::SequenceType
        | Rule::ScopedName => true,
        _ => false,
    }
}

/// A name used as a type is kept whole, and whatever only wraps a type stands for it.
pub proof fn lemma_names_and_wrappers(tree: Tree)
    ensures
        tree.rule == Rule::ScopedName ==> (tree.type_spec() is Ok <==> tree.scoped_name() is Ok),
        tree.rule == Rule::ScopedName ==> (tree.type_spec() matches Ok(type_spec) ==> type_spec
            matches TypeSpec::ScopedName(name) && tree.scoped_name() == Ok::<_, ParserFault>(
            name,
        )),
        !matches_type(tree.rule) && tree.parts.len() >= 1 ==> tree.type_spec()
            == tree.parts[0].type_spec(),
        !matches_type(tree.rule) && tree.parts.len() == 0 ==> tree.type_spec() is Err,
{
}

/// A member declaration introduces one member for each declarator, in order, all of the type
/// that stands in front.
pub proof fn lemma_members_of_declaration(tree: Tree)
    ensures
        tree.struct_member() is Ok <==> {
            &&& tree.parts.len() >= 2
            &&& tree.parts[0].type_spec() is Ok
            &&& forall|i: int|
                0 <= i < tree.parts[1].parts.len() ==> declarator_readable(
                    #[trigger] tree.parts[1].parts[i],
                )
        },
        tree.struct_member() matches Ok(members) ==> {
            let base = tree.parts[0].type_spec()->Ok_0;
            &&& members.len() == tree.parts[1].parts.len()
            &&& forall|i: int|
                0 <= i < members.len() ==> {
                    &&& (#[trigger] members[i]).id == tree.parts[1].parts[i].parts[0].parts[0].text
                    &&& declared_type(tree.parts[1].parts[i], base, members[i].type_spec)
                }
        },
{
    if tree.parts.len() >= 2 && tree.parts[0].type_spec() is Ok {
        let base = tree.parts[0].type_spec()->Ok_0;
        let read = crate::reading::reads_member_declarator(base);
        let trees = tree.parts[1].parts;
        lemma_collect_reads_each(trees, read);
        assert forall|i: int| 0 <= i < trees.len() implies (read(#[trigger] trees[i]) is Ok
            <==> declarator_readable(trees[i])) by {
            lemma_struct_member_is_declared(trees[i], base);
        }
        match crate::reading::collect(trees, read) {
            Ok(members) => {
                assert forall|i: int| 0 <= i < members.len() implies {
                    &&& (#[trigger] members[i]).id == trees[i].parts[0].parts[0].text
                    &&& declared_type(trees[i], base, members[i].type_spec)
                } by {
                    lemma_struct_member_is_declared(trees[i], base);
                    assert(read(trees[i]) == Ok::<_, ParserFault>(members[i]));
                }
                assert forall|i: int| 0 <= i < trees.len() implies declarator_readable(
                    #[trigger] trees[i],
                ) by {
                    assert(read(trees[i]) is Ok);
                }
            },
            Err(_) => {
                let k = choose|k: int| #[trigger] fails_first_at(trees, read, k);
                assert(!declarator_readable(trees[k]));
            },
        }
    }
}

/// All members are those of all groups, one group after the other.
pub proof fn lemma_all_members_are_kept(groups: Seq<Seq<StructMember>>)
    ensures
        crate::reading::all_members(groups) == groups.flatten(),
    decreases groups.len(),
{
    if groups.len() > 0 {
        lemma_all_members_are_kept(groups.drop_last());
        groups.drop_last().lemma_flatten_and_flatten_alt_are_equivalent();
    }
    groups.lemma_flatten_and_flatten_alt_are_equivalent();
}

/// A struct has the name that is its first part, and the members of all its member declarations
/// in order.
pub proof fn lemma_struct_has_all_members(tree: Tree)
    requires
        tree.parts.len() >= 1,
    ensures
        tree.struct_def() is Ok <==> forall|i: int|
            1 <= i < tree.parts.len() ==> (#[trigger] tree.parts[i]).struct_member() is Ok,
        tree.struct_def() matches Ok(type_dcl) ==> (type_dcl matches TypeDcl::StructDcl(id, members)
            && id == tree.parts[0].text && members == Seq::new(
            (tree.parts.len() - 1) as nat,
            |g: int| tree.parts[g + 1].struct_member()->Ok_0,
        ).flatten()),
{
    let trees = tree.later_parts();
    let read = crate::reading::reads_member();
    lemma_collect_reads_each(trees, read);
    assert forall|i: int| 0 <= i < trees.len() implies #[trigger] trees[i] == tree.parts[i + 1] by {}
    match crate::reading::collect(trees, read) {
        Ok(found) => {
            let groups = Seq::new(
                (tree.parts.len() - 1) as nat,
                |g: int| tree.parts[g + 1].struct_member()->Ok_0,
            );
            assert forall|g: int| 0 <= g < groups.len() implies groups[g] == found[g] by {
                assert(read(trees[g]) == Ok::<_, ParserFault>(found[g]));
            }
            assert(groups =~= found);
            assert forall|i: int| 1 <= i < tree.parts.len() implies (
            #[trigger] tree.parts[i]).struct_member() is Ok by {
                assert(read(trees[i - 1]) is Ok);
            }
            lemma_all_members_are_kept(groups);
        },
        Err(_) => {
            let k = choose|k: int| #[trigger] fails_first_at(trees, read, k);
            assert(tree.parts[k + 1].struct_member() is Err);
        },
    }
}

/// A label is the default exactly if nothing stands in it; else it is the whole of the
/// expression in it, whatever kind of expression that is.
pub proof fn lemma_label_is_its_expression(tree: Tree)
    ensures
        tree.switch_label() is Ok <==> tree.parts.len() == 0 || tree.parts[0].const_expr() is Ok,
        tree.switch_label() == Ok::<_, ParserFault>(SwitchLabel::Default) <==> tree.parts.len()
            == 0,
        tree.parts.len() >= 1 ==> forall|expr: ValueExpr|
            tree.parts[0].const_expr() == Ok::<_, ParserFault>(expr) <==> tree.switch_label()
                == Ok::<_, ParserFault>(SwitchLabel::Label(expr)),
{
}

/// The element of a case has the type and the declarator that stand in it.
pub proof fn lemma_element_is_declared(tree: Tree)
    ensures
        tree.switch_element_spec() is Ok <==> tree.parts.len() >= 2
            && tree.parts[0].type_spec() is Ok && declarator_readable(tree.parts[1]),
        tree.switch_element_spec() matches Ok(element) ==> {
            &&& element.id == tree.parts[1].parts[0].parts[0].text
            &&& declared_type(
                tree.parts[1],
                tree.parts[0].type_spec()->Ok_0,
                element.type_spec,
            )
        },
{
    if tree.parts.len() >= 2 && tree.parts[0].type_spec() is Ok {
        lemma_switch_element_is_declared(tree.parts[1], tree.parts[0].type_spec()->Ok_0);
    }
}

/// The last of the trees that a rule matched is the last among those that are picked out.
pub proof fn lemma_last_picked(trees: Seq<Tree>, rule: Rule, k: int)
    requires
        0 <= k < trees.len(),
        trees[k].rule == rule,
        forall|j: int| k < j < trees.len() ==> (#[trigger] trees[j]).rule != rule,
    ensures
        crate::reading::of_rule(trees, rule).len() > 0,
        crate::reading::of_rule(trees, rule).last() == trees[k],
    decreases trees.len(),
{
    if k < trees.len() - 1 {
        let front = trees.drop_last();
        assert forall|j: int| k < j < front.len() implies (#[trigger] front[j]).rule != rule by {
            assert(front[j] == trees[j]);
        }
        lemma_last_picked(front, rule, k);
        assert(trees[trees.len() - 1].rule != rule);
    }
}

/// A case has one label for each of its label parts, in order, each read for itself, and the
/// element of its last element part.
pub proof fn lemma_case_has_all_labels(tree: Tree, k: int)
    requires
        0 <= k < tree.parts.len(),
        tree.parts[k].rule == Rule::ElementSpec,
        forall|j: int| k < j < tree.parts.len() ==> (#[trigger] tree.parts[j]).rule
            != Rule::ElementSpec,
    ensures
        ({
            let labels = tree.parts.filter(|part: Tree| part.rule == Rule::CaseLabel);
            &&& tree.switch_case() is Ok <==> tree.parts[k].switch_element_spec() is Ok && forall|
                i: int,
            |
                0 <= i < labels.len() ==> (#[trigger] labels[i]).switch_label() is Ok
            &&& tree.switch_case() matches Ok(case) ==> {
                &&& tree.parts[k].switch_element_spec() == Ok::<_, ParserFault>(case.elem_spec)
                &&& case.labels.len() == labels.len()
                &&& forall|i: int|
                    0 <= i < labels.len() ==> (#[trigger] labels[i]).switch_label() == Ok::<
                        _,
                        ParserFault,
                    >(case.labels[i])
            }
        }),
{
    let labels = tree.parts.filter(|part: Tree| part.rule == Rule::CaseLabel);
    let read = crate::reading::reads_label();
    lemma_picked_by_rule(tree.parts, Rule::CaseLabel);
    lemma_picked_label_filter(tree.parts);
    lemma_collect_reads_each(labels, read);
    lemma_last_picked(tree.parts, Rule::ElementSpec, k);
    match crate::reading::collect(labels, read) {
        Ok(values) => {
            assert forall|i: int| 0 <= i < labels.len() implies (
            #[trigger] labels[i]).switch_label() == Ok::<_, ParserFault>(values[i]) by {
                assert(read(labels[i]) == Ok::<_, ParserFault>(values[i]));
            }
        },
        Err(_) => {
            let n = choose|n: int| #[trigger] fails_first_at(labels, read, n);
            assert(labels[n].switch_label() is Err);
        },
    }
}

proof fn lemma_picked_label_filter(trees: Seq<Tree>)
    ensures
        crate::reading::of_rule(trees, Rule::CaseLabel) == trees.filter(
            |part: Tree| part.rule == Rule::CaseLabel,
        ),
    decreases trees.len(),
{
    reveal(Seq::filter);
    if trees.len() > 0 {
        lemma_picked_label_filter(trees.drop_last());
    }
}

/// A union has the name in its first part, switches on the type in its second, and has one case
/// for each part of its third, in order.
pub proof fn lemma_union_has_all_cases(tree: Tree)
    requires
        tree.parts.len() >= 3,
    ensures
        tree.union_def() is Ok <==> {
            &&& tree.parts[0].identifier() is Ok
            &&& tree.parts[1].parts.len() >= 1
            &&& tree.parts[1].parts[0].type_spec() is Ok
            &&& forall|i: int|
                0 <= i < tree.parts[2].parts.len() ==> (
                #[trigger] tree.parts[2].parts[i]).switch_case() is Ok
        },
        tree.union_def() matches Ok((key, type_dcl)) ==> {
            &&& key == tree.parts[0].text
            &&& type_dcl matches TypeDcl::UnionDcl(id, switch, cases) && {
                &&& id == key
                &&& tree.parts[1].parts[0].type_spec() == Ok::<_, ParserFault>(switch)
                &&& cases.len() == tree.parts[2].parts.len()
                &&& forall|i: int|
                    0 <= i < cases.len() ==> tree.parts[2].parts[i].switch_case() == Ok::<
                        _,
                        ParserFault,
                    >(#[trigger] cases[i])
            }
        },
{
    let trees = tree.parts[2].parts;
    let read = crate::reading::reads_case();
    lemma_collect_reads_each(trees, read);
    match crate::reading::collect(trees, read) {
        Ok(cases) => {
            assert forall|i: int| 0 <= i < cases.len() implies trees[i].switch_case() == Ok::<
                _,
                ParserFault,
            >(#[trigger] cases[i]) by {
                assert(read(trees[i]) == Ok::<_, ParserFault>(cases[i]));
            }
            assert forall|i: int| 0 <= i < trees.len() implies (
            #[trigger] trees[i]).switch_case() is Ok by {
                assert(read(trees[i]) is Ok);
            }
        },
        Err(_) => {
            let k = choose|k: int| #[trigger] fails_first_at(trees, read, k);
            assert(trees[k].switch_case() is Err);
        },
    }
}

/// An enum has the name that is its first part, and one enumerator for each further part, in
/// order, with the text of that part.
pub proof fn lemma_enum_has_all_enumerators(tree: Tree)
    requires
        tree.parts.len() >= 1,
    ensures
        tree.enum_dcl() is Ok <==> forall|i: int|
            1 <= i < tree.parts.len() ==> (#[trigger] tree.parts[i]).identifier() is Ok,
        tree.enum_dcl() matches Ok(type_dcl) ==> (type_dcl matches TypeDcl::EnumDcl(id, names) && {
            &&& id == tree.parts[0].text
            &&& names.len() + 1 == tree.parts.len()
            &&& forall|i: int|
                0 <= i < names.len() ==> #[trigger] names[i] == tree.parts[i + 1].text
        }),
{
    let trees = tree.later_parts();
    let read = crate::reading::reads_identifier();
    lemma_collect_reads_each(trees, read);
    assert forall|i: int| 0 <= i < trees.len() implies #[trigger] trees[i] == tree.parts[i + 1] by {}
    match crate::reading::collect(trees, read) {
        Ok(names) => {
            assert forall|i: int| 0 <= i < names.len() implies #[trigger] names[i]
                == tree.parts[i + 1].text by {
                assert(read(trees[i]) == Ok::<_, ParserFault>(names[i]));
            }
            assert forall|i: int| 1 <= i < tree.parts.len() implies (
            #[trigger] tree.parts[i]).identifier() is Ok by {
                assert(read(trees[i - 1]) is Ok);
            }
        },
        Err(_) => {
            let k = choose|k: int| #[trigger] fails_first_at(trees, read, k);
            assert(tree.parts[k + 1].identifier() is Err);
        },
    }
}

/// A constant has the type, the name and the value that are its parts.
pub proof fn lemma_const_has_its_parts(tree: Tree)
    requires
        tree.parts.len() >= 3,
    ensures
        tree.const_dcl() is Ok <==> tree.parts[0].type_spec() is Ok
            && tree.parts[1].identifier() is Ok && tree.parts[2].const_expr() is Ok,
        tree.const_dcl() matches Ok(const_dcl) ==> {
            &&& const_dcl.id == tree.parts[1].text
            &&& tree.parts[0].type_spec() == Ok::<_, ParserFault>(const_dcl.typedcl)
            &&& tree.parts[2].const_expr() == Ok::<_, ParserFault>(const_dcl.value)
        },
{
}

}
