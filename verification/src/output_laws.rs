//! What holds of the generated Rust source: everything that a module holds is in it, once and in
//! order, and nothing else is.

use crate::ast::{StructMember, SwitchCase, SwitchLabel, TypeDcl, TypeSpec};
use crate::module::Module;
use crate::template::{Piece, Template};
use vstd::prelude::*;

verus! {

/// Whether a text occurs in another.
pub open spec fn occurs(part: Seq<char>, text: Seq<char>) -> bool {
    exists|front: Seq<char>, back: Seq<char>| text == #[trigger] (front + part + back)
}

/// Texts one after the other are all of them, in order.
pub proof fn lemma_concatenated(texts: Seq<Seq<char>>)
    ensures
        crate::render::concatenated(texts) == texts.flatten(),
    decreases texts.len(),
{
    if texts.len() > 0 {
        lemma_concatenated(texts.drop_last());
        texts.drop_last().lemma_flatten_and_flatten_alt_are_equivalent();
    }
    texts.lemma_flatten_and_flatten_alt_are_equivalent();
}

/// Each of several texts occurs in what they make together.
proof fn lemma_occurs_in_flattened(texts: Seq<Seq<char>>, i: int)
    requires
        0 <= i < texts.len(),
    ensures
        occurs(texts[i], texts.flatten()),
{
    let front = texts.take(i);
    let back = texts.skip(i + 1);
    let one = seq![texts[i]];
    assert(texts =~= front + (one + back));
    vstd::seq_lib::lemma_flatten_concat(front, one + back);
    vstd::seq_lib::lemma_flatten_concat(one, back);
    one.lemma_flatten_one_element();
    assert(texts.flatten() =~= front.flatten() + texts[i] + back.flatten());
}

/// The lines of a submodule, with what it holds four blanks further in.
pub open spec fn module_lines(id: Seq<char>, module: Module, indent: Seq<char>) -> Seq<char> {
    indent + "pub mod "@ + id + " {\n"@ + indent + "    #[allow(unused_imports)]\n"@ + indent
        + "    use super::*;\n"@ + module.contents(indent + "    "@) + indent + "}\n"@
}

/// The lines of each thing that a module holds.
pub open spec fn all_items(module: Module, indent: Seq<char>) -> Seq<Seq<char>> {
    Seq::new(module.types.len(), |i: int| module.types[i].1.rendered(indent)) + Seq::new(
        module.constants.len(),
        |i: int| module.constants[i].1.rendered(indent),
    ) + Seq::new(
        module.modules.len(),
        |i: int| module_lines(module.modules[i].0, module.modules[i].1, indent),
    )
}

proof fn lemma_module_item(id: Seq<char>, module: Module, indent: Seq<char>)
    ensures
        crate::render::item(
            Template::Module,
            indent,
            id,
            ""@,
            module.contents(indent + "    "@),
        ) == module_lines(id, module, indent),
{
    let body = module.contents(indent + "    "@);
    crate::render::lemma_item_fields(indent, id, ""@, body);
    reveal_with_fuel(crate::template::filled, 12);
    lemma_closing_line();
    assert(crate::render::item(Template::Module, indent, id, ""@, body)
        =~= module_lines(id, module, indent));
}

proof fn lemma_closing_line()
    ensures
        "}\n"@ == "}"@ + "\n"@,
        ";\n"@ == ";"@ + "\n"@,
        ",\n"@ == ","@ + "\n"@,
        "),\n"@ == "),"@ + "\n"@,
{
    reveal_strlit("}\n");
    reveal_strlit("}");
    reveal_strlit("\n");
    reveal_strlit(";\n");
    reveal_strlit(";");
    reveal_strlit(",\n");
    reveal_strlit(",");
    reveal_strlit("),\n");
    reveal_strlit("),");
    assert("}\n"@ =~= "}"@ + "\n"@);
    assert(";\n"@ =~= ";"@ + "\n"@);
    assert(",\n"@ =~= ","@ + "\n"@);
    assert("),\n"@ =~= "),"@ + "\n"@);
}

proof fn lemma_submodules(modules: Seq<(Seq<char>, Module)>, indent: Seq<char>)
    ensures
        crate::render::submodule_text(modules, indent) == Seq::new(
            modules.len(),
            |i: int| module_lines(modules[i].0, modules[i].1, indent),
        ).flatten(),
    decreases modules.len(),
{
    let lines = Seq::new(
        modules.len(),
        |i: int| module_lines(modules[i].0, modules[i].1, indent),
    );
    if modules.len() > 0 {
        let front = modules.drop_last();
        let front_lines = Seq::new(
            front.len(),
            |i: int| module_lines(front[i].0, front[i].1, indent),
        );
        lemma_submodules(front, indent);
        let (id, module) = modules.last();
        lemma_module_item(id, module, indent);
        assert(lines.drop_last() =~= front_lines);
        assert(lines.last() == module_lines(id, module, indent));
        lines.lemma_flatten_and_flatten_alt_are_equivalent();
        front_lines.lemma_flatten_and_flatten_alt_are_equivalent();
    }
}

/// The text of a module is the lines of all its types, all its constants and all its submodules,
/// one after the other.
pub proof fn lemma_module_text(module: Module, indent: Seq<char>)
    ensures
        module.contents(indent) == all_items(module, indent).flatten(),
{
    let types = Seq::new(module.types.len(), |i: int| module.types[i].1.rendered(indent));
    let constants = Seq::new(
        module.constants.len(),
        |i: int| module.constants[i].1.rendered(indent),
    );
    let modules = Seq::new(
        module.modules.len(),
        |i: int| module_lines(module.modules[i].0, module.modules[i].1, indent),
    );
    assert(crate::render::type_lines(module.types, indent) =~= types);
    assert(crate::render::const_lines(module.constants, indent) =~= constants);
    lemma_concatenated(types);
    lemma_concatenated(constants);
    lemma_submodules(module.modules, indent);
    vstd::seq_lib::lemma_flatten_concat(types, constants);
    vstd::seq_lib::lemma_flatten_concat(types + constants, modules);
}

/// Every type, every constant and every submodule of a module is generated, whatever else the
/// module holds.
pub proof fn lemma_everything_is_generated(module: Module, indent: Seq<char>)
    ensures
        forall|i: int|
            0 <= i < module.types.len() ==> occurs(
                (#[trigger] module.types[i]).1.rendered(indent),
                module.contents(indent),
            ),
        forall|i: int|
            0 <= i < module.constants.len() ==> occurs(
                (#[trigger] module.constants[i]).1.rendered(indent),
                module.contents(indent),
            ),
        forall|i: int|
            0 <= i < module.modules.len() ==> occurs(
                module_lines((#[trigger] module.modules[i]).0, module.modules[i].1, indent),
                module.contents(indent),
            ),
{
    let items = all_items(module, indent);
    let t = module.types.len() as int;
    let c = module.constants.len() as int;
    lemma_module_text(module, indent);
    assert forall|i: int| 0 <= i < module.types.len() implies occurs(
        (#[trigger] module.types[i]).1.rendered(indent),
        module.contents(indent),
    ) by {
        assert(items[i] == module.types[i].1.rendered(indent));
        lemma_occurs_in_flattened(items, i);
    }
    assert forall|i: int| 0 <= i < module.constants.len() implies occurs(
        (#[trigger] module.constants[i]).1.rendered(indent),
        module.contents(indent),
    ) by {
        assert(items[t + i] == module.constants[i].1.rendered(indent));
        lemma_occurs_in_flattened(items, t + i);
    }
    assert forall|i: int| 0 <= i < module.modules.len() implies occurs(
        module_lines((#[trigger] module.modules[i]).0, module.modules[i].1, indent),
        module.contents(indent),
    ) by {
        assert(items[t + c + i] == module_lines(
            module.modules[i].0,
            module.modules[i].1,
            indent,
        ));
        lemma_occurs_in_flattened(items, t + c + i);
    }
}

/// A member of a struct is a line with its name and its type.
pub proof fn lemma_member_text(member: StructMember, indent: Seq<char>)
    ensures
        member.rendered(indent) == indent + "    pub "@ + member.id + ": "@
            + member.type_spec.rust_type() + ",\n"@,
{
    crate::render::lemma_item_fields(indent, member.id, member.type_spec.rust_type(), ""@);
    reveal_with_fuel(crate::template::filled, 7);
    lemma_closing_line();
    assert(member.rendered(indent) =~= indent + "    pub "@ + member.id + ": "@
        + member.type_spec.rust_type() + ",\n"@);
}

/// A struct has its name and the lines of all its members, in order.
pub proof fn lemma_struct_text(id: Seq<char>, members: Seq<StructMember>, indent: Seq<char>)
    ensures
        TypeDcl::StructDcl(id, members).rendered(indent) == indent + "#[derive(Clone, Debug)]\n"@
            + indent + "pub struct "@ + id + " {\n"@ + Seq::new(
            members.len(),
            |i: int| members[i].rendered(indent),
        ).flatten() + indent + "}\n"@,
{
    let lines = Seq::new(members.len(), |i: int| members[i].rendered(indent));
    assert(crate::render::member_lines(members, indent) =~= lines);
    lemma_concatenated(lines);
    crate::render::lemma_item_fields(indent, id, ""@, lines.flatten());
    reveal_with_fuel(crate::template::filled, 10);
    lemma_closing_line();
    assert(TypeDcl::StructDcl(id, members).rendered(indent) =~= indent
        + "#[derive(Clone, Debug)]\n"@ + indent + "pub struct "@ + id + " {\n"@ + lines.flatten()
        + indent + "}\n"@);
}

/// An enum has its name and a line for each of its enumerators, in order.
pub proof fn lemma_enum_text(id: Seq<char>, names: Seq<Seq<char>>, indent: Seq<char>)
    ensures
        TypeDcl::EnumDcl(id, names).rendered(indent) == indent
            + "#[derive(Clone, Copy, Debug, PartialEq, Eq)]\n"@ + indent + "pub enum "@ + id
            + " {\n"@ + Seq::new(
            names.len(),
            |i: int| indent + "    "@ + names[i] + ",\n"@,
        ).flatten() + indent + "}\n"@,
{
    let lines = Seq::new(names.len(), |i: int| indent + "    "@ + names[i] + ",\n"@);
    lemma_closing_line();
    assert forall|i: int| 0 <= i < names.len() implies #[trigger] crate::render::enumerator_lines(
        names,
        indent,
    )[i] == lines[i] by {
        crate::render::lemma_item_fields(indent, names[i], ""@, ""@);
        reveal_with_fuel(crate::template::filled, 5);
        assert(crate::render::enumerator_lines(names, indent)[i] =~= lines[i]);
    }
    assert(crate::render::enumerator_lines(names, indent) =~= lines);
    lemma_concatenated(lines);
    crate::render::lemma_item_fields(indent, id, ""@, lines.flatten());
    reveal_with_fuel(crate::template::filled, 10);
    assert(TypeDcl::EnumDcl(id, names).rendered(indent) =~= indent
        + "#[derive(Clone, Copy, Debug, PartialEq, Eq)]\n"@ + indent + "pub enum "@ + id
        + " {\n"@ + lines.flatten() + indent + "}\n"@);
}

/// The texts of labels, with commas between them.
pub open spec fn spelled_labels(labels: Seq<SwitchLabel>) -> Seq<char>
    decreases labels.len(),
{
    if labels.len() == 0 {
        Seq::empty()
    } else {
        let first = match labels[0] {
            SwitchLabel::Label(expr) => expr.rust_expr(),
            SwitchLabel::Default => "default"@,
        };
        if labels.len() == 1 {
            first
        } else {
            first + ", "@ + spelled_labels(labels.drop_first())
        }
    }
}

proof fn lemma_spelled_labels_last(labels: Seq<SwitchLabel>)
    requires
        labels.len() >= 2,
    ensures
        spelled_labels(labels) == spelled_labels(labels.drop_last()) + ", "@ + spelled_labels(
            seq![labels.last()],
        ),
    decreases labels.len(),
{
    let rest = labels.drop_first();
    if labels.len() == 2 {
        assert(rest =~= seq![labels.last()]);
        assert(labels.drop_last() =~= seq![labels[0]]);
        assert(spelled_labels(labels.drop_last()) == spelled_labels(seq![labels[0]]));
    } else {
        lemma_spelled_labels_last(rest);
        assert(labels.drop_last().drop_first() =~= rest.drop_last());
        assert(rest.last() == labels.last());
        assert(spelled_labels(labels) =~= spelled_labels(labels.drop_last()) + ", "@
            + spelled_labels(seq![labels.last()]));
    }
}

/// The labels of a case are all written, in order, each as its expression or as the default.
pub proof fn lemma_labels_text(labels: Seq<SwitchLabel>)
    ensures
        crate::render::labels_text(labels) == spelled_labels(labels),
    decreases labels.len(),
{
    if labels.len() >= 2 {
        lemma_labels_text(labels.drop_last());
        lemma_spelled_labels_last(labels);
        assert(spelled_labels(seq![labels.last()]) == labels.last().text());
    }
}

/// A case of a union has its labels, its name and its type.
pub proof fn lemma_case_text(case: SwitchCase, indent: Seq<char>)
    ensures
        case.rendered(indent) == indent + "    /// "@ + spelled_labels(case.labels) + "\n"@ + indent
            + "    "@ + case.elem_spec.id + "("@ + case.elem_spec.type_spec.rust_type()
            + "),\n"@,
{
    lemma_labels_text(case.labels);
    crate::render::lemma_item_fields(
        indent,
        case.elem_spec.id,
        case.elem_spec.type_spec.rust_type(),
        spelled_labels(case.labels),
    );
    reveal_with_fuel(crate::template::filled, 11);
    lemma_closing_line();
    assert(case.rendered(indent) =~= indent + "    /// "@ + spelled_labels(case.labels) + "\n"@
        + indent + "    "@ + case.elem_spec.id + "("@ + case.elem_spec.type_spec.rust_type()
        + "),\n"@);
}

/// A union has its name, the type it switches on, and the lines of all its cases, in order.
pub proof fn lemma_union_text(
    id: Seq<char>,
    switch: TypeSpec,
    cases: Seq<SwitchCase>,
    indent: Seq<char>,
)
    ensures
        TypeDcl::UnionDcl(id, switch, cases).rendered(indent) == indent + "/// switch ("@
            + switch.rust_type() + ")\n"@ + indent + "#[derive(Clone, Debug)]\n"@ + indent
            + "pub enum "@ + id + " {\n"@ + Seq::new(
            cases.len(),
            |i: int| cases[i].rendered(indent),
        ).flatten() + indent + "}\n"@,
{
    let lines = Seq::new(cases.len(), |i: int| cases[i].rendered(indent));
    assert(crate::render::case_lines(cases, indent) =~= lines);
    lemma_concatenated(lines);
    crate::render::lemma_item_fields(indent, id, switch.rust_type(), lines.flatten());
    let fields = crate::render::item_fields(indent, id, switch.rust_type(), lines.flatten());
    let pieces = Template::Union.pieces();
    let front = pieces.take(7);
    let back = pieces.skip(7);
    assert(front + back =~= pieces);
    lemma_filled_parts(front, back, fields);
    let head = indent + "/// switch ("@ + switch.rust_type() + ")\n"@ + indent
        + "#[derive(Clone, Debug)]\n"@ + indent;
    assert(crate::template::filled(front, fields) == head) by {
        reveal_with_fuel(crate::template::filled, 8);
        assert(Seq::empty() + indent =~= indent);
    }
    assert(crate::template::filled(back, fields) == "pub enum "@ + id + " {\n"@ + lines.flatten()
        + indent + "}"@) by {
        reveal_with_fuel(crate::template::filled, 7);
        assert(Seq::empty() + "pub enum "@ =~= "pub enum "@);
    }
    lemma_closing_line();
    lemma_regrouped(head, "pub enum "@, id, " {\n"@, lines.flatten(), indent, "}"@, "\n"@);
}

/// A template is filled in piece by piece.
proof fn lemma_filled_parts(
    front: Seq<Piece>,
    back: Seq<Piece>,
    fields: Seq<(Seq<char>, Seq<char>)>,
)
    ensures
        crate::template::filled(front + back, fields) == crate::template::filled(front, fields)
            + crate::template::filled(back, fields),
    decreases back.len(),
{
    let all = front + back;
    if back.len() == 0 {
        assert(all =~= front);
        assert(crate::template::filled(front, fields) + Seq::empty() =~= crate::template::filled(
            front,
            fields,
        ));
    } else {
        lemma_filled_parts(front, back.drop_last(), fields);
        assert(all.drop_last() =~= front + back.drop_last());
        assert(crate::template::filled(all, fields) =~= crate::template::filled(front, fields)
            + crate::template::filled(back, fields));
    }
}

proof fn lemma_regrouped(
    head: Seq<char>,
    a: Seq<char>,
    b: Seq<char>,
    c: Seq<char>,
    d: Seq<char>,
    e: Seq<char>,
    f: Seq<char>,
    end: Seq<char>,
)
    ensures
        head + (a + b + c + d + e + f) + end == head + a + b + c + d + e + (f + end),
{
    assert(head + (a + b + c + d + e + f) + end =~= head + a + b + c + d + e + (f + end));
}

/// A level of nesting is four blanks.
pub proof fn lemma_indentation(level: nat)
    ensures
        crate::render::indentation(level) == Seq::new(4 * level, |i: int| ' '),
    decreases level,
{
    if level > 0 {
        lemma_indentation((level - 1) as nat);
        reveal_strlit("    ");
        assert("    "@ =~= seq![' ', ' ', ' ', ' ']);
        assert(crate::render::indentation(level) =~= Seq::new(4 * level, |i: int| ' '));
    } else {
        assert(crate::render::indentation(level) =~= Seq::new(4 * level, |i: int| ' '));
    }
}

}
