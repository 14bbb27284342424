//! Modules: what they hold, and how one is found by its path.

use crate::ast::{ConstDcl, IdlConstDcl, IdlTypeDcl, TypeDcl};
use crate::table::find_key;
use vstd::prelude::*;

verus! {

/// A module with its submodules, types and constants, each in the order of declaration
/// under its name. The root module has no name of its own.
#[derive(Debug)]
pub struct IdlModule {
    pub id: Option<String>,
    pub modules: Vec<(String, IdlModule)>,
    pub types: Vec<(String, IdlTypeDcl)>,
    pub constants: Vec<(String, IdlConstDcl)>,
}

/// The model of an [`IdlModule`].
#[verifier::ext_equal]
pub struct Module {
    pub id: Option<Seq<char>>,
    pub modules: Seq<(Seq<char>, Module)>,
    pub types: Seq<(Seq<char>, TypeDcl)>,
    pub constants: Seq<(Seq<char>, ConstDcl)>,
}

impl View for IdlModule {
    type V = Module;

    open spec fn view(&self) -> Module
        decreases self,
    {
        Module {
            id: crate::ast::optional_text(self.id),
            modules: submodule_models(self.modules@),
            types: crate::table::entry_models(self.types@),
            constants: crate::table::entry_models(self.constants@),
        }
    }
}

/// The models of a list of submodules.
pub open spec fn submodule_models(modules: Seq<(String, IdlModule)>) -> Seq<(Seq<char>, Module)>
    decreases modules,
{
    Seq::new(
        modules.len(),
        |i: int|
            if 0 <= i < modules.len() {
                (modules[i].0@, modules[i].1.view())
            } else {
                arbitrary()
            },
    )
}

/// The model of a list of submodules holds their names and models.
pub proof fn lemma_submodule_models(modules: Seq<(String, IdlModule)>)
    ensures
        submodule_models(modules).len() == modules.len(),
        forall|i: int|
            0 <= i < modules.len() ==> #[trigger] submodule_models(modules)[i] == (
                modules[i].0@,
                modules[i].1@,
            ),
{
}

impl TypeDcl {
    /// The declared name.
    pub open spec fn name(self) -> Seq<char> {
        match self {
            TypeDcl::TypeDcl(id, _) => id,
            TypeDcl::StructDcl(id, _) => id,
            TypeDcl::UnionDcl(id, _, _) => id,
            TypeDcl::EnumDcl(id, _) => id,
        }
    }
}

impl Module {
    /// A module without contents.
    pub open spec fn fresh(id: Option<Seq<char>>) -> Module {
        Module { id, modules: Seq::empty(), types: Seq::empty(), constants: Seq::empty() }
    }

    /// The submodule called `name`; a fresh one if there is none.
    pub open spec fn child(self, name: Seq<char>) -> Module {
        if crate::table::has_key(self.modules, name) {
            self.modules[crate::table::place(self.modules, name)].1
        } else {
            Module::fresh(Some(name))
        }
    }

    /// The module with `child` as its submodule called `name`.
    pub open spec fn with_child(self, name: Seq<char>, child: Module) -> Module {
        Module {
            modules: if crate::table::has_key(self.modules, name) {
                self.modules.update(crate::table::place(self.modules, name), (name, child))
            } else {
                self.modules.push((name, child))
            },
            ..self
        }
    }

    /// The module that a path of names leads to; a fresh one where the path leads nowhere.
    pub open spec fn select(self, path: Seq<Seq<char>>) -> Module
        decreases path.len(),
    {
        if path.len() == 0 {
            self
        } else {
            self.child(path[0]).select(path.drop_first())
        }
    }

    /// The module with `target` where the path leads to, and with fresh modules on the way
    /// where there were none.
    pub open spec fn replace(self, path: Seq<Seq<char>>, target: Module) -> Module
        decreases path.len(),
    {
        if path.len() == 0 {
            target
        } else {
            self.with_child(path[0], self.child(path[0]).replace(path.drop_first(), target))
        }
    }

    /// The module with a type added under `key`, unless there is one.
    pub open spec fn add_type(self, key: Seq<char>, type_dcl: TypeDcl) -> Module {
        Module { types: crate::table::or_inserted(self.types, key, type_dcl), ..self }
    }

    /// The module with a constant added under `key`, unless there is one.
    pub open spec fn add_const(self, key: Seq<char>, const_dcl: ConstDcl) -> Module {
        Module { constants: crate::table::or_inserted(self.constants, key, const_dcl), ..self }
    }

    /// Whether no name occurs twice in a list, everything stands under its own name, and
    /// the same holds of all submodules.
    pub open spec fn wf(self) -> bool
        decreases self,
    {
        &&& crate::table::distinct_keys(self.modules)
        &&& crate::table::distinct_keys(self.types)
        &&& crate::table::distinct_keys(self.constants)
        &&& forall|i: int|
            0 <= i < self.types.len() ==> (#[trigger] self.types[i]).0 == self.types[i].1.name()
        &&& forall|i: int|
            0 <= i < self.constants.len() ==> (#[trigger] self.constants[i]).0
                == self.constants[i].1.id
        &&& forall|i: int|
            0 <= i < self.modules.len() ==> (#[trigger] self.modules[i]).1.id == Some(
                self.modules[i].0,
            )
        &&& forall|i: int| 0 <= i < self.modules.len() ==> (#[trigger] self.modules[i]).1.wf()
    }
}

/// Gives access to the module at place `i` of a list.
fn nth_module<'a>(modules: &'a mut Vec<(String, IdlModule)>, i: usize) -> (module: &'a mut IdlModule)
    requires
        i < old(modules)@.len(),
    ensures
        *module == old(modules)@[i as int].1,
        final(modules)@ == old(modules)@.update(
            i as int,
            (old(modules)@[i as int].0, *final(module)),
        ),
{
    &mut modules[i].1
}

impl IdlModule {
    /// A module without contents.
    pub fn new(id: Option<String>) -> (module: Self)
        ensures
            module@ == Module::fresh(crate::ast::optional_text(id)),
            module@.wf(),
    {
        let module = IdlModule {
            id,
            modules: Vec::new(),
            types: Vec::new(),
            constants: Vec::new(),
        };
        proof {
            lemma_submodule_models(module.modules@);
            assert(module@.modules =~= Seq::empty());
            assert(module@.types =~= Seq::empty());
            assert(module@.constants =~= Seq::empty());
        }
        module
    }

    /// Gives access to the submodule called `name`, after adding it if there is none.
    fn submodule<'a>(&'a mut self, name: &String) -> (child: &'a mut IdlModule)
        ensures
            child@ == old(self)@.child(name@),
            final(self)@ == old(self)@.with_child(name@, final(child)@),
    {
        let ghost before = *self;
        let ghost models = self@.modules;
        proof {
            lemma_submodule_models(self.modules@);
        }
        let i = match find_key(&self.modules, name.as_str()) {
            Some(i) => {
                proof {
                    assert(models[i as int].0 == name@);
                    assert forall|j: int| 0 <= j < i implies (#[trigger] models[j]).0
                        != name@ by {
                        assert(before.modules@[j].0@ != name@);
                    }
                    assert(crate::table::is_first(models, name@, i as int));
                    crate::table::lemma_place(models, name@);
                }
                i
            },
            None => {
                proof {
                    assert forall|j: int| 0 <= j < models.len() implies (#[trigger] models[j]).0
                        != name@ by {
                        assert(before.modules@[j].0@ != name@);
                    }
                }
                let i = self.modules.len();
                self.modules.push((name.clone(), IdlModule::new(Some(name.clone()))));
                i
            },
        };
        let ghost mid = *self;
        proof {
            lemma_submodule_models(mid.modules@);
            assert(mid@.modules[i as int].1 == before@.child(name@));
            assert forall|m: IdlModule|
                submodule_models(#[trigger] mid.modules@.update(i as int, (mid.modules@[i as int].0, m)))
                    == before@.with_child(name@, m@).modules by {
                let after = mid.modules@.update(i as int, (mid.modules@[i as int].0, m));
                lemma_submodule_models(after);
                assert(submodule_models(after) =~= before@.with_child(name@, m@).modules);
            }
        }
        nth_module(&mut self.modules, i)
    }

    /// Gives access to the module that the names of `path` from `from` on lead to, after
    /// adding the modules on the way that are not there.
    pub fn descend<'a>(&'a mut self, path: &Vec<String>, from: usize) -> (target: &'a mut IdlModule)
        requires
            from <= path@.len(),
        ensures
            target@ == old(self)@.select(crate::text::texts(path@).skip(from as int)),
            final(self)@ == old(self)@.replace(
                crate::text::texts(path@).skip(from as int),
                final(target)@,
            ),
        decreases path@.len() - from,
    {
        let ghost names = crate::text::texts(path@).skip(from as int);
        if from == path.len() {
            self
        } else {
            proof {
                assert(names[0] == path@[from as int]@);
                assert(names.drop_first() =~= crate::text::texts(path@).skip(from + 1));
            }
            self.submodule(&path[from]).descend(path, from + 1)
        }
    }
}

/// A submodule, found or fresh, is well formed and has the name it was asked for by.
proof fn lemma_child_wf(module: Module, name: Seq<char>)
    requires
        module.wf(),
    ensures
        module.child(name).wf(),
        module.child(name).id == Some(name),
{
    if crate::table::has_key(module.modules, name) {
        crate::table::lemma_place(module.modules, name);
        assert(module.modules[crate::table::place(module.modules, name)].1.wf());
    }
}

/// Putting a well-formed submodule under its name keeps a module well formed.
proof fn lemma_with_child_wf(module: Module, name: Seq<char>, child: Module)
    requires
        module.wf(),
        child.wf(),
        child.id == Some(name),
    ensures
        module.with_child(name, child).wf(),
{
    let after = module.with_child(name, child);
    let modules = module.modules;
    if crate::table::has_key(modules, name) {
        crate::table::lemma_place(modules, name);
        let k = crate::table::place(modules, name);
        assert forall|i: int| 0 <= i < after.modules.len() implies (#[trigger] after.modules[i]).1.id
            == Some(after.modules[i].0) && after.modules[i].1.wf() && after.modules[i].0
            == modules[i].0 by {
            if i != k {
                assert(after.modules[i] == modules[i]);
            }
        }
        assert forall|i: int, j: int| 0 <= i < j < after.modules.len() implies (
        #[trigger] after.modules[i]).0 != (#[trigger] after.modules[j]).0 by {
            assert(modules[i].0 != modules[j].0);
        }
    } else {
        assert forall|i: int| 0 <= i < after.modules.len() implies (#[trigger] after.modules[i]).1.id
            == Some(after.modules[i].0) && after.modules[i].1.wf() && (i < modules.len()
            ==> after.modules[i] == modules[i]) by {
            if i < modules.len() {
                assert(after.modules[i] == modules[i]);
            }
        }
        assert forall|i: int, j: int| 0 <= i < j < after.modules.len() implies (
        #[trigger] after.modules[i]).0 != (#[trigger] after.modules[j]).0 by {
            assert(modules[i].0 != name);
            if j < modules.len() {
                assert(modules[i].0 != modules[j].0);
            }
        }
    }
}

/// The module that a path leads to is well formed and is named by the path's end.
pub proof fn lemma_select_wf(module: Module, path: Seq<Seq<char>>)
    requires
        module.wf(),
    ensures
        module.select(path).wf(),
        module.select(path).id == (if path.len() == 0 {
            module.id
        } else {
            Some(path.last())
        }),
    decreases path.len(),
{
    if path.len() > 0 {
        lemma_child_wf(module, path[0]);
        lemma_select_wf(module.child(path[0]), path.drop_first());
        if path.len() > 1 {
            assert(path.drop_first().last() == path.last());
        }
    }
}

/// Replacing what a path leads to by a well-formed module of the same name keeps a module
/// well formed.
pub proof fn lemma_replace_wf(module: Module, path: Seq<Seq<char>>, target: Module)
    requires
        module.wf(),
        target.wf(),
        target.id == module.select(path).id,
    ensures
        module.replace(path, target).wf(),
        module.replace(path, target).id == module.id,
    decreases path.len(),
{
    if path.len() > 0 {
        lemma_child_wf(module, path[0]);
        lemma_replace_wf(module.child(path[0]), path.drop_first(), target);
        lemma_with_child_wf(
            module,
            path[0],
            module.child(path[0]).replace(path.drop_first(), target),
        );
    }
}

/// A type under its own name keeps a module well formed.
pub proof fn lemma_add_type_wf(module: Module, type_dcl: TypeDcl)
    requires
        module.wf(),
    ensures
        module.add_type(type_dcl.name(), type_dcl).wf(),
{
    let after = module.add_type(type_dcl.name(), type_dcl);
    assert forall|i: int| 0 <= i < after.types.len() implies (#[trigger] after.types[i]).0
        == after.types[i].1.name() by {
        if i < module.types.len() {
            assert(after.types[i] == module.types[i]);
        }
    }
    assert forall|i: int, j: int| 0 <= i < j < after.types.len() implies (
    #[trigger] after.types[i]).0 != (#[trigger] after.types[j]).0 by {
        assert(after.types[i] == module.types[i]);
        if j < module.types.len() {
            assert(after.types[j] == module.types[j]);
        }
    }
}

/// A constant under its own name keeps a module well formed.
pub proof fn lemma_add_const_wf(module: Module, const_dcl: ConstDcl)
    requires
        module.wf(),
    ensures
        module.add_const(const_dcl.id, const_dcl).wf(),
{
    let after = module.add_const(const_dcl.id, const_dcl);
    assert forall|i: int| 0 <= i < after.constants.len() implies (#[trigger] after.constants[i]).0
        == after.constants[i].1.id by {
        if i < module.constants.len() {
            assert(after.constants[i] == module.constants[i]);
        }
    }
    assert forall|i: int, j: int| 0 <= i < j < after.constants.len() implies (
    #[trigger] after.constants[i]).0 != (#[trigger] after.constants[j]).0 by {
        assert(after.constants[i] == module.constants[i]);
        if j < module.constants.len() {
            assert(after.constants[j] == module.constants[j]);
        }
    }
}

}
