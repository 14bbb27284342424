//! Modules as Rust source, with a template for each kind of item.

use crate::ast::{
    ConstDcl, IdlConstDcl, IdlStructMember, IdlSwitchCase, IdlSwitchLabel, IdlTypeDcl,
    IdlTypeDclKind, StructMember, SwitchCase, SwitchLabel, TypeDcl,
};
use crate::module::{IdlModule, Module};
use crate::template::{render_template, write_source, Template};
use crate::text::joined;
use vstd::prelude::*;

verus! {

/// Whether rendering succeeded and gave a text.
pub open spec fn gives(r: Result<String, minijinja::Error>, text: Seq<char>) -> bool {
    r matches Ok(rendered) && rendered@ == text
}

/// Texts one after the other.
pub open spec fn concatenated(texts: Seq<Seq<char>>) -> Seq<char>
    decreases texts.len(),
{
    if texts.len() == 0 {
        Seq::empty()
    } else {
        concatenated(texts.drop_last()) + texts.last()
    }
}

/// The labels of a case, with commas between them.
pub open spec fn labels_text(labels: Seq<SwitchLabel>) -> Seq<char>
    decreases labels.len(),
{
    if labels.len() == 0 {
        Seq::empty()
    } else if labels.len() == 1 {
        labels[0].text()
    } else {
        labels_text(labels.drop_last()) + ", "@ + labels.last().text()
    }
}

impl SwitchLabel {
    /// A label as text.
    pub open spec fn text(self) -> Seq<char> {
        match self {
            SwitchLabel::Label(expr) => expr.rust_expr(),
            SwitchLabel::Default => "default"@,
        }
    }
}

/// The fields of an item: its indentation, its name, a type, and what else it holds.
pub open spec fn item_fields(
    indent: Seq<char>,
    id: Seq<char>,
    type_spec: Seq<char>,
    body: Seq<char>,
) -> Seq<(Seq<char>, Seq<char>)> {
    seq![("indent"@, indent), ("id"@, id), ("type_spec"@, type_spec), ("body"@, body)]
}

/// The lines of an item: a template with its indentation, its name, a type, and what else it
/// holds.
pub open spec fn item(
    template: Template,
    indent: Seq<char>,
    id: Seq<char>,
    type_spec: Seq<char>,
    body: Seq<char>,
) -> Seq<char> {
    crate::template::filled(template.pieces(), item_fields(indent, id, type_spec, body)) + "\n"@
}

impl StructMember {
    /// The line of a member of a struct.
    pub open spec fn rendered(self, indent: Seq<char>) -> Seq<char> {
        item(Template::Member, indent, self.id, self.type_spec.rust_type(), ""@)
    }
}

impl SwitchCase {
    /// The lines of a case of a union.
    pub open spec fn rendered(self, indent: Seq<char>) -> Seq<char> {
        item(
            Template::Case,
            indent,
            self.elem_spec.id,
            self.elem_spec.type_spec.rust_type(),
            labels_text(self.labels),
        )
    }
}

/// The lines of the members of a struct.
pub open spec fn member_lines(members: Seq<StructMember>, indent: Seq<char>) -> Seq<Seq<char>> {
    Seq::new(members.len(), |i: int| members[i].rendered(indent))
}

/// The lines of the cases of a union.
pub open spec fn case_lines(cases: Seq<SwitchCase>, indent: Seq<char>) -> Seq<Seq<char>> {
    Seq::new(cases.len(), |i: int| cases[i].rendered(indent))
}

/// The lines of the enumerators of an enum.
pub open spec fn enumerator_lines(names: Seq<Seq<char>>, indent: Seq<char>) -> Seq<Seq<char>> {
    Seq::new(names.len(), |i: int| item(Template::Enumerator, indent, names[i], ""@, ""@))
}

impl TypeDcl {
    /// The lines of a type declaration.
    pub open spec fn rendered(self, indent: Seq<char>) -> Seq<char> {
        match self {
            TypeDcl::TypeDcl(id, type_spec) => item(
                Template::Typedef,
                indent,
                id,
                type_spec.rust_type(),
                ""@,
            ),
            TypeDcl::StructDcl(id, members) => item(
                Template::Struct,
                indent,
                id,
                ""@,
                concatenated(member_lines(members, indent)),
            ),
            TypeDcl::UnionDcl(id, switch, cases) => item(
                Template::Union,
                indent,
                id,
                switch.rust_type(),
                concatenated(case_lines(cases, indent)),
            ),
            TypeDcl::EnumDcl(id, names) => item(
                Template::Enum,
                indent,
                id,
                ""@,
                concatenated(enumerator_lines(names, indent)),
            ),
        }
    }
}

impl ConstDcl {
    /// The line of a constant declaration.
    pub open spec fn rendered(self, indent: Seq<char>) -> Seq<char> {
        item(
            Template::Const,
            indent,
            self.id,
            self.typedcl.rust_const_type(),
            self.value.rust_expr(),
        )
    }
}

/// The lines of a list of types.
pub open spec fn type_lines(types: Seq<(Seq<char>, TypeDcl)>, indent: Seq<char>) -> Seq<Seq<char>> {
    Seq::new(types.len(), |i: int| types[i].1.rendered(indent))
}

/// The lines of a list of constants.
pub open spec fn const_lines(constants: Seq<(Seq<char>, ConstDcl)>, indent: Seq<char>) -> Seq<Seq<char>> {
    Seq::new(constants.len(), |i: int| constants[i].1.rendered(indent))
}

impl Module {
    /// The lines of what a module holds: its types, its constants, then its submodules, each
    /// in the order of declaration.
    pub open spec fn contents(self, indent: Seq<char>) -> Seq<char>
        decreases self,
    {
        concatenated(type_lines(self.types, indent)) + concatenated(
            const_lines(self.constants, indent),
        ) + submodule_text(self.modules, indent)
    }
}

/// The lines of a list of submodules. What they hold is indented by four more blanks.
pub open spec fn submodule_text(
    modules: Seq<(Seq<char>, Module)>,
    indent: Seq<char>,
) -> Seq<char>
    decreases modules,
{
    if modules.len() == 0 {
        Seq::empty()
    } else {
        let (id, module) = modules.last();
        submodule_text(modules.drop_last(), indent) + item(
            Template::Module,
            indent,
            id,
            ""@,
            module.contents(indent + "    "@),
        )
    }
}

/// The templates are plain.
proof fn lemma_templates_are_plain(
    template: Template,
    indent: Seq<char>,
    id: Seq<char>,
    type_spec: Seq<char>,
    body: Seq<char>,
)
    ensures
        crate::template::plain(template.pieces(), item_fields(indent, id, type_spec, body)),
{
    let fields = item_fields(indent, id, type_spec, body);
    reveal_strlit("indent");
    reveal_strlit("id");
    reveal_strlit("type_spec");
    reveal_strlit("body");
    assert(fields[0].0 == "indent"@);
    assert(fields[1].0 == "id"@);
    assert(fields[2].0 == "type_spec"@);
    assert(fields[3].0 == "body"@);
    reveal_strlit("pub mod ");
    reveal_strlit("    #[allow(unused_imports)]\n");
    reveal_strlit("    use super::*;\n");
    reveal_strlit(" {\n");
    reveal_strlit("}");
    reveal_strlit("pub type ");
    reveal_strlit(" = ");
    reveal_strlit(";");
    reveal_strlit("#[derive(Clone, Debug)]\n");
    reveal_strlit("pub struct ");
    reveal_strlit("    pub ");
    reveal_strlit(": ");
    reveal_strlit(",");
    reveal_strlit("/// switch (");
    reveal_strlit(")\n");
    reveal_strlit("pub enum ");
    reveal_strlit("    /// ");
    reveal_strlit("\n");
    reveal_strlit("    ");
    reveal_strlit("(");
    reveal_strlit("),");
    reveal_strlit("#[derive(Clone, Copy, Debug, PartialEq, Eq)]\n");
    reveal_strlit("pub const ");
}

/// Renders an item: a template with its indentation, its name, a type, and what else it holds.
fn render_item(
    template: Template,
    indent: &str,
    id: &str,
    type_spec: &str,
    body: &str,
) -> (text: Result<String, minijinja::Error>)
    ensures
        gives(text, item(template, indent@, id@, type_spec@, body@)),
{
    let mut fields: Vec<(String, String)> = Vec::new();
    fields.push(("indent".to_owned(), indent.to_owned()));
    fields.push(("id".to_owned(), id.to_owned()));
    fields.push(("type_spec".to_owned(), type_spec.to_owned()));
    fields.push(("body".to_owned(), body.to_owned()));
    let pieces = template.to_pieces();
    let source = write_source(&pieces);
    proof {
        assert(crate::table::entry_models(fields@) =~= item_fields(
            indent@,
            id@,
            type_spec@,
            body@,
        ));
        lemma_templates_are_plain(template, indent@, id@, type_spec@, body@);
    }
    let text = render_template(source.as_str(), &fields)?;
    Ok(joined(text.as_str(), "\n"))
}

/// Writes the labels of a case, with commas between them.
fn write_labels(labels: &Vec<IdlSwitchLabel>) -> (text: String)
    ensures
        text@ == labels_text(crate::ast::label_models(labels@)),
{
    let ghost models = crate::ast::label_models(labels@);
    let mut text = "".to_owned();
    let mut i: usize = 0;
    assert(""@ =~= Seq::<char>::empty()) by {
        reveal_strlit("");
    }
    while i < labels.len()
        invariant
            i <= labels@.len(),
            models == crate::ast::label_models(labels@),
            text@ == labels_text(models.take(i as int)),
        decreases labels@.len() - i,
    {
        proof {
            assert(models[i as int] == labels@[i as int]@);
            assert(models.take(i + 1).drop_last() =~= models.take(i as int));
        }
        if i > 0 {
            text = joined(text.as_str(), ", ");
        }
        let label = match &labels[i] {
            IdlSwitchLabel::Label(expr) => expr.rust_expr(),
            IdlSwitchLabel::Default => "default".to_owned(),
        };
        text = joined(text.as_str(), label.as_str());
        i = i + 1;
    }
    assert(models.take(i as int) =~= models);
    text
}

/// Renders the members of a struct.
fn render_members(members: &Vec<IdlStructMember>, indent: &str) -> (text: Result<String, minijinja::Error>)
    ensures
        gives(text, concatenated(member_lines(crate::ast::member_models(members@), indent@))),
{
    let ghost models = crate::ast::member_models(members@);
    let ghost lines = member_lines(models, indent@);
    let mut text = "".to_owned();
    let mut i: usize = 0;
    assert(""@ =~= Seq::<char>::empty()) by {
        reveal_strlit("");
    }
    while i < members.len()
        invariant
            i <= members@.len(),
            models == crate::ast::member_models(members@),
            lines == member_lines(models, indent@),
            concatenated(lines.take(i as int)) == text@,
        decreases members@.len() - i,
    {
        proof {
            assert(lines.take(i + 1).drop_last() =~= lines.take(i as int));
        }
        let next = members[i].render(indent)?;
        text = joined(text.as_str(), next.as_str());
        i = i + 1;
    }
    assert(lines.take(i as int) =~= lines);
    Ok(text)
}

/// Renders the cases of a union.
fn render_cases(cases: &Vec<IdlSwitchCase>, indent: &str) -> (text: Result<String, minijinja::Error>)
    ensures
        gives(text, concatenated(case_lines(crate::ast::case_models(cases@), indent@))),
{
    let ghost models = crate::ast::case_models(cases@);
    let ghost lines = case_lines(models, indent@);
    let mut text = "".to_owned();
    let mut i: usize = 0;
    assert(""@ =~= Seq::<char>::empty()) by {
        reveal_strlit("");
    }
    while i < cases.len()
        invariant
            i <= cases@.len(),
            models == crate::ast::case_models(cases@),
            lines == case_lines(models, indent@),
            concatenated(lines.take(i as int)) == text@,
        decreases cases@.len() - i,
    {
        proof {
            assert(lines.take(i + 1).drop_last() =~= lines.take(i as int));
        }
        let next = cases[i].render(indent)?;
        text = joined(text.as_str(), next.as_str());
        i = i + 1;
    }
    assert(lines.take(i as int) =~= lines);
    Ok(text)
}

/// Renders the enumerators of an enum.
fn render_enumerators(names: &Vec<String>, indent: &str) -> (text: Result<String, minijinja::Error>)
    ensures
        gives(text, concatenated(enumerator_lines(crate::text::texts(names@), indent@))),
{
    let ghost models = crate::text::texts(names@);
    let ghost lines = enumerator_lines(models, indent@);
    let mut text = "".to_owned();
    let mut i: usize = 0;
    assert(""@ =~= Seq::<char>::empty()) by {
        reveal_strlit("");
    }
    while i < names.len()
        invariant
            i <= names@.len(),
            models == crate::text::texts(names@),
            lines == enumerator_lines(models, indent@),
            concatenated(lines.take(i as int)) == text@,
        decreases names@.len() - i,
    {
        proof {
            assert(lines.take(i + 1).drop_last() =~= lines.take(i as int));
        }
        let next = render_item(Template::Enumerator, indent, names[i].as_str(), "", "")?;
        text = joined(text.as_str(), next.as_str());
        i = i + 1;
    }
    assert(lines.take(i as int) =~= lines);
    Ok(text)
}

/// Renders a list of types.
fn render_types(types: &Vec<(String, IdlTypeDcl)>, indent: &str) -> (text: Result<String, minijinja::Error>)
    ensures
        gives(text, concatenated(type_lines(crate::table::entry_models(types@), indent@))),
{
    let ghost models = crate::table::entry_models(types@);
    let ghost lines = type_lines(models, indent@);
    let mut text = "".to_owned();
    let mut i: usize = 0;
    assert(""@ =~= Seq::<char>::empty()) by {
        reveal_strlit("");
    }
    while i < types.len()
        invariant
            i <= types@.len(),
            models == crate::table::entry_models(types@),
            lines == type_lines(models, indent@),
            concatenated(lines.take(i as int)) == text@,
        decreases types@.len() - i,
    {
        proof {
            assert(lines.take(i + 1).drop_last() =~= lines.take(i as int));
        }
        let next = types[i].1.render(indent)?;
        text = joined(text.as_str(), next.as_str());
        i = i + 1;
    }
    assert(lines.take(i as int) =~= lines);
    Ok(text)
}

/// Renders a list of constants.
fn render_constants(constants: &Vec<(String, IdlConstDcl)>, indent: &str) -> (text: Result<String, minijinja::Error>)
    ensures
        gives(text, concatenated(const_lines(crate::table::entry_models(constants@), indent@))),
{
    let ghost models = crate::table::entry_models(constants@);
    let ghost lines = const_lines(models, indent@);
    let mut text = "".to_owned();
    let mut i: usize = 0;
    assert(""@ =~= Seq::<char>::empty()) by {
        reveal_strlit("");
    }
    while i < constants.len()
        invariant
            i <= constants@.len(),
            models == crate::table::entry_models(constants@),
            lines == const_lines(models, indent@),
            concatenated(lines.take(i as int)) == text@,
        decreases constants@.len() - i,
    {
        proof {
            assert(lines.take(i + 1).drop_last() =~= lines.take(i as int));
        }
        let next = constants[i].1.render(indent)?;
        text = joined(text.as_str(), next.as_str());
        i = i + 1;
    }
    assert(lines.take(i as int) =~= lines);
    Ok(text)
}

impl IdlStructMember {
    /// Renders a member of a struct.
    pub fn render(&self, indent: &str) -> (text: Result<String, minijinja::Error>)
        ensures
            gives(text, self@.rendered(indent@)),
    {
        render_item(Template::Member, indent, self.id.as_str(), self.type_spec.rust_type().as_str(), "")
    }
}

impl IdlSwitchCase {
    /// Renders a case of a union.
    pub fn render(&self, indent: &str) -> (text: Result<String, minijinja::Error>)
        ensures
            gives(text, self@.rendered(indent@)),
    {
        render_item(
            Template::Case,
            indent,
            self.elem_spec.id.as_str(),
            self.elem_spec.type_spec.rust_type().as_str(),
            write_labels(&self.labels).as_str(),
        )
    }
}

impl IdlTypeDcl {
    /// Renders a type declaration.
    pub fn render(&self, indent: &str) -> (text: Result<String, minijinja::Error>)
        ensures
            gives(text, self@.rendered(indent@)),
    {
        match &self.0 {
            IdlTypeDclKind::TypeDcl(id, type_spec) => render_item(
                Template::Typedef,
                indent,
                id.as_str(),
                type_spec.rust_type().as_str(),
                "",
            ),
            IdlTypeDclKind::StructDcl(id, members) => {
                let body = render_members(members, indent)?;
                render_item(Template::Struct, indent, id.as_str(), "", body.as_str())
            },
            IdlTypeDclKind::UnionDcl(id, switch, cases) => {
                let body = render_cases(cases, indent)?;
                render_item(
                    Template::Union,
                    indent,
                    id.as_str(),
                    switch.rust_type().as_str(),
                    body.as_str(),
                )
            },
            IdlTypeDclKind::EnumDcl(id, names) => {
                let body = render_enumerators(names, indent)?;
                render_item(Template::Enum, indent, id.as_str(), "", body.as_str())
            },
        }
    }
}

impl IdlConstDcl {
    /// Renders a constant declaration.
    pub fn render(&self, indent: &str) -> (text: Result<String, minijinja::Error>)
        ensures
            gives(text, self@.rendered(indent@)),
    {
        render_item(
            Template::Const,
            indent,
            self.id.as_str(),
            self.typedcl.rust_const_type().as_str(),
            self.value.rust_expr().as_str(),
        )
    }
}

/// The indentation of a level of nesting.
pub open spec fn indentation(level: nat) -> Seq<char>
    decreases level,
{
    if level == 0 {
        Seq::empty()
    } else {
        indentation((level - 1) as nat) + "    "@
    }
}

/// Renders a list of submodules.
fn render_submodules(modules: &Vec<(String, IdlModule)>, indent: &str) -> (text: Result<
    String,
    minijinja::Error,
>)
    ensures
        gives(text, submodule_text(crate::module::submodule_models(modules@), indent@)),
    decreases modules,
{
    let ghost models = crate::module::submodule_models(modules@);
    let inner = joined(indent, "    ");
    let mut text = "".to_owned();
    let mut i: usize = 0;
    proof {
        crate::module::lemma_submodule_models(modules@);
        reveal_strlit("");
        assert(""@ =~= Seq::<char>::empty());
    }
    while i < modules.len()
        invariant
            i <= modules@.len(),
            models == crate::module::submodule_models(modules@),
            models.len() == modules@.len(),
            inner@ == indent@ + "    "@,
            submodule_text(models.take(i as int), indent@) == text@,
        decreases modules@.len() - i,
    {
        proof {
            crate::module::lemma_submodule_models(modules@);
            assert(models.take(i + 1).drop_last() =~= models.take(i as int));
            assert(models.take(i + 1).last() == (modules@[i as int].0@, modules@[i as int].1@));
        }
        let body = modules[i].1.render_contents(inner.as_str())?;
        let next = render_item(Template::Module, indent, modules[i].0.as_str(), "", body.as_str())?;
        text = joined(text.as_str(), next.as_str());
        i = i + 1;
    }
    assert(models.take(i as int) =~= models);
    Ok(text)
}

impl IdlModule {
    /// Renders what the module holds.
    fn render_contents(&self, indent: &str) -> (text: Result<String, minijinja::Error>)
        ensures
            gives(text, self@.contents(indent@)),
        decreases self,
    {
        let types = render_types(&self.types, indent)?;
        let constants = render_constants(&self.constants, indent)?;
        let modules = render_submodules(&self.modules, indent)?;
        let front = joined(types.as_str(), constants.as_str());
        Ok(joined(front.as_str(), modules.as_str()))
    }

    /// Renders what the module holds, at a level of nesting.
    pub fn render(&self, level: usize) -> (text: Result<String, minijinja::Error>)
        ensures
            gives(text, self@.contents(indentation(level as nat))),
    {
        let mut indent = "".to_owned();
        let mut i: usize = 0;
        proof {
            reveal_strlit("");
            assert(""@ =~= Seq::<char>::empty());
        }
        while i < level
            invariant
                i <= level,
                indent@ == indentation(i as nat),
            decreases level - i,
        {
            indent = joined(indent.as_str(), "    ");
            i = i + 1;
        }
        self.render_contents(indent.as_str())
    }
}

/// Where the fields of an item stand.
pub proof fn lemma_item_fields(
    indent: Seq<char>,
    id: Seq<char>,
    type_spec: Seq<char>,
    body: Seq<char>,
)
    ensures
        ({
            let fields = item_fields(indent, id, type_spec, body);
            &&& crate::template::piece_text(crate::template::Piece::Field("indent"), fields) == indent
            &&& crate::template::piece_text(crate::template::Piece::Field("id"), fields) == id
            &&& crate::template::piece_text(crate::template::Piece::Field("type_spec"), fields) == type_spec
            &&& crate::template::piece_text(crate::template::Piece::Field("body"), fields) == body
        }),
{
    let fields = item_fields(indent, id, type_spec, body);
    reveal_strlit("indent");
    reveal_strlit("id");
    reveal_strlit("type_spec");
    reveal_strlit("body");
    assert("indent"@.len() == 6 && "id"@.len() == 2 && "type_spec"@.len() == 9 && "body"@.len()
        == 4);
    assert(fields[0].0 == "indent"@ && fields[1].0 == "id"@ && fields[2].0 == "type_spec"@
        && fields[3].0 == "body"@);
    assert(crate::table::is_first(fields, "indent"@, 0));
    assert(crate::table::is_first(fields, "id"@, 1));
    assert(crate::table::is_first(fields, "type_spec"@, 2));
    assert(crate::table::is_first(fields, "body"@, 3));
    crate::table::lemma_place(fields, "indent"@);
    crate::table::lemma_place(fields, "id"@);
    crate::table::lemma_place(fields, "type_spec"@);
    crate::table::lemma_place(fields, "body"@);
}

/// A `typedef` is rendered as `pub type`, its name, and the Rust type that stands for it.
pub proof fn lemma_typedef_text(
    id: Seq<char>,
    type_spec: crate::ast::TypeSpec,
    indent: Seq<char>,
)
    ensures
        TypeDcl::TypeDcl(id, type_spec).rendered(indent) == indent + "pub type "@ + id + " = "@ + type_spec.rust_type() + ";"@ + "\n"@,
{
    lemma_item_fields(indent, id, type_spec.rust_type(), ""@);
    reveal_with_fuel(crate::template::filled, 7);
}

/// A constant is rendered as `pub const`, its name, its type and its value.
pub proof fn lemma_const_text(const_dcl: ConstDcl, indent: Seq<char>)
    ensures
        const_dcl.rendered(indent) == indent + "pub const "@
            + const_dcl.id + ": "@ + const_dcl.typedcl.rust_const_type() + " = "@
            + const_dcl.value.rust_expr() + ";"@ + "\n"@,
{
    lemma_item_fields(
        indent,
        const_dcl.id,
        const_dcl.typedcl.rust_const_type(),
        const_dcl.value.rust_expr(),
    );
    reveal_with_fuel(crate::template::filled, 9);
}

}
