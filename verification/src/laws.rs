//! What holds of the modules, whatever is declared in them.

use crate::ast::{ConstDcl, TypeDcl};
use crate::context::Session;
use crate::module::Module;
use vstd::prelude::*;

verus! {

/// A submodule that was put into a module is found under its name.
pub proof fn lemma_child_found(module: Module, name: Seq<char>, child: Module)
    ensures
        module.with_child(name, child).child(name) == child,
{
    let modules = module.modules;
    let after = module.with_child(name, child).modules;
    if crate::table::has_key(modules, name) {
        crate::table::lemma_place(modules, name);
        let k = crate::table::place(modules, name);
        assert(after[k] == (name, child));
        assert forall|j: int| 0 <= j < k implies (#[trigger] after[j]).0 != name by {
            assert(after[j] == modules[j]);
        }
        assert(crate::table::is_first(after, name, k));
    } else {
        let k = modules.len() as int;
        assert(after[k] == (name, child));
        assert forall|j: int| 0 <= j < k implies (#[trigger] after[j]).0 != name by {
            assert(after[j] == modules[j]);
        }
        assert(crate::table::is_first(after, name, k));
    }
    crate::table::lemma_place(after, name);
}

/// Putting a submodule into a module leaves the other submodules as they are.
pub proof fn lemma_other_children_kept(
    module: Module,
    name: Seq<char>,
    child: Module,
    other: Seq<char>,
)
    requires
        other != name,
    ensures
        module.with_child(name, child).child(other) == module.child(other),
{
    let modules = module.modules;
    let after = module.with_child(name, child).modules;
    if crate::table::has_key(modules, name) {
        crate::table::lemma_place(modules, name);
    }
    assert forall|j: int| 0 <= j < modules.len() implies {
        &&& (#[trigger] after[j]).0 == modules[j].0
        &&& after[j].0 == other ==> after[j] == modules[j]
    } by {}
    if crate::table::has_key(modules, other) {
        crate::table::lemma_place(modules, other);
        let k = crate::table::place(modules, other);
        assert(after[k].0 == other);
        assert forall|j: int| 0 <= j < k implies (#[trigger] after[j]).0 != other by {
            assert(modules[j].0 != other);
        }
        assert(crate::table::is_first(after, other, k));
        crate::table::lemma_place(after, other);
    } else {
        assert forall|j: int| 0 <= j < after.len() implies (#[trigger] after[j]).0 != other by {
            if j < modules.len() {
                assert(modules[j].0 != other);
            }
        }
    }
}

/// What was put where a path leads to is found there.
pub proof fn lemma_select_replaced(module: Module, path: Seq<Seq<char>>, target: Module)
    ensures
        module.replace(path, target).select(path) == target,
    decreases path.len(),
{
    if path.len() > 0 {
        let inner = module.child(path[0]);
        lemma_select_replaced(inner, path.drop_first(), target);
        lemma_child_found(module, path[0], inner.replace(path.drop_first(), target));
    }
}

/// What is put where a path leads to takes the place of what was put there before.
pub proof fn lemma_replaced_twice(
    module: Module,
    path: Seq<Seq<char>>,
    first: Module,
    second: Module,
)
    ensures
        module.replace(path, first).replace(path, second) == module.replace(path, second),
    decreases path.len(),
{
    if path.len() > 0 {
        let name = path[0];
        let inner = module.child(name);
        let a = inner.replace(path.drop_first(), first);
        let b = inner.replace(path.drop_first(), second);
        lemma_replaced_twice(inner, path.drop_first(), first, second);
        lemma_child_found(module, name, a);
        let once = module.with_child(name, a);
        if crate::table::has_key(module.modules, name) {
            crate::table::lemma_place(module.modules, name);
            let k = crate::table::place(module.modules, name);
            assert(once.modules[k].0 == name);
            assert forall|j: int| 0 <= j < k implies (#[trigger] once.modules[j]).0 != name by {
                assert(once.modules[j] == module.modules[j]);
            }
            assert(crate::table::is_first(once.modules, name, k));
        } else {
            let k = module.modules.len() as int;
            assert(once.modules[k].0 == name);
            assert forall|j: int| 0 <= j < k implies (#[trigger] once.modules[j]).0 != name by {
                assert(once.modules[j] == module.modules[j]);
            }
            assert(crate::table::is_first(once.modules, name, k));
        }
        crate::table::lemma_place(once.modules, name);
        assert(once.with_child(name, b).modules =~= module.with_child(name, b).modules);
    }
}

/// A module that is opened again is not changed by it.
pub proof fn lemma_module_reopened(session: Session, scope: Seq<Seq<char>>)
    ensures
        session.with_module(scope).with_module(scope) == session.with_module(scope),
{
    let module = session.root.select(scope);
    lemma_select_replaced(session.root, scope, module);
    lemma_replaced_twice(session.root, scope, module, module);
}

/// Of a type that is declared, the first declaration under its name is found in the module:
/// this one, if there was none before.
pub proof fn lemma_first_type_found(
    session: Session,
    scope: Seq<Seq<char>>,
    key: Seq<char>,
    type_dcl: TypeDcl,
)
    ensures
        ({
            let before = session.root.select(scope).types;
            let after = session.with_type(scope, key, type_dcl).root.select(scope).types;
            &&& crate::table::has_key(after, key)
            &&& after[crate::table::place(after, key)].1 == (if crate::table::has_key(
                before,
                key,
            ) {
                before[crate::table::place(before, key)].1
            } else {
                type_dcl
            })
        }),
{
    let module = session.root.select(scope);
    lemma_select_replaced(session.root, scope, module.add_type(key, type_dcl));
    lemma_first_entry_found(module.types, key, type_dcl);
}

/// Of a constant that is declared, the first declaration under its name is found in the
/// module: this one, if there was none before.
pub proof fn lemma_first_const_found(
    session: Session,
    scope: Seq<Seq<char>>,
    key: Seq<char>,
    const_dcl: ConstDcl,
)
    ensures
        ({
            let before = session.root.select(scope).constants;
            let after = session.with_const(scope, key, const_dcl).root.select(scope).constants;
            &&& crate::table::has_key(after, key)
            &&& after[crate::table::place(after, key)].1 == (if crate::table::has_key(
                before,
                key,
            ) {
                before[crate::table::place(before, key)].1
            } else {
                const_dcl
            })
        }),
{
    let module = session.root.select(scope);
    lemma_select_replaced(session.root, scope, module.add_const(key, const_dcl));
    lemma_first_entry_found(module.constants, key, const_dcl);
}

/// Of the entries named `key`, the first is found: the one that was added, if there was none
/// before.
pub proof fn lemma_first_entry_found<V>(entries: Seq<(Seq<char>, V)>, key: Seq<char>, value: V)
    ensures
        ({
            let after = crate::table::or_inserted(entries, key, value);
            &&& crate::table::has_key(after, key)
            &&& after[crate::table::place(after, key)].1 == (if crate::table::has_key(
                entries,
                key,
            ) {
                entries[crate::table::place(entries, key)].1
            } else {
                value
            })
        }),
{
    let after = crate::table::or_inserted(entries, key, value);
    if !crate::table::has_key(entries, key) {
        let k = entries.len() as int;
        assert(after[k] == (key, value));
        assert forall|j: int| 0 <= j < k implies (#[trigger] after[j]).0 != key by {
            assert(after[j] == entries[j]);
        }
        assert(crate::table::is_first(after, key, k));
        crate::table::lemma_place(after, key);
    }
}

/// Declaring a type a second time changes nothing.
pub proof fn lemma_type_redeclared(
    session: Session,
    scope: Seq<Seq<char>>,
    key: Seq<char>,
    type_dcl: TypeDcl,
    again: TypeDcl,
)
    ensures
        ({
            let once = session.with_type(scope, key, type_dcl);
            once.with_type(scope, key, again) == once
        }),
{
    let added = session.root.select(scope).add_type(key, type_dcl);
    lemma_first_entry_found(session.root.select(scope).types, key, type_dcl);
    lemma_select_replaced(session.root, scope, added);
    assert(added.add_type(key, again) =~= added);
    lemma_replaced_twice(session.root, scope, added, added);
}

/// Declaring a constant a second time changes nothing.
pub proof fn lemma_const_redeclared(
    session: Session,
    scope: Seq<Seq<char>>,
    key: Seq<char>,
    const_dcl: ConstDcl,
    again: ConstDcl,
)
    ensures
        ({
            let once = session.with_const(scope, key, const_dcl);
            once.with_const(scope, key, again) == once
        }),
{
    let added = session.root.select(scope).add_const(key, const_dcl);
    lemma_first_entry_found(session.root.select(scope).constants, key, const_dcl);
    lemma_select_replaced(session.root, scope, added);
    assert(added.add_const(key, again) =~= added);
    lemma_replaced_twice(session.root, scope, added, added);
}

/// Changing the types and constants of the module where one path leads to leaves those of the
/// modules where other paths lead to as they are.
pub proof fn lemma_other_paths_kept(
    module: Module,
    path: Seq<Seq<char>>,
    target: Module,
    other: Seq<Seq<char>>,
)
    requires
        other != path,
        target.modules == module.select(path).modules,
    ensures
        module.replace(path, target).select(other).types == module.select(other).types,
        module.replace(path, target).select(other).constants == module.select(other).constants,
    decreases path.len(),
{
    if path.len() == 0 {
        if other.len() == 0 {
            assert(other =~= path);
        }
        assert(target.child(other[0]) == module.child(other[0]));
    } else if other.len() > 0 {
        let inner = module.child(path[0]);
        let changed = inner.replace(path.drop_first(), target);
        if other[0] == path[0] {
            if other.drop_first() =~= path.drop_first() {
                assert(other =~= seq![other[0]] + other.drop_first());
                assert(path =~= seq![path[0]] + path.drop_first());
            }
            lemma_other_paths_kept(inner, path.drop_first(), target, other.drop_first());
            lemma_child_found(module, path[0], changed);
        } else {
            lemma_other_children_kept(module, path[0], changed, other[0]);
        }
    }
}

/// A type is declared in the module at `scope` and in no other.
pub proof fn lemma_type_declared_nowhere_else(
    session: Session,
    scope: Seq<Seq<char>>,
    key: Seq<char>,
    type_dcl: TypeDcl,
    other: Seq<Seq<char>>,
)
    requires
        other != scope,
    ensures
        ({
            let after = session.with_type(scope, key, type_dcl).root.select(other);
            &&& after.types == session.root.select(other).types
            &&& after.constants == session.root.select(other).constants
        }),
{
    lemma_other_paths_kept(
        session.root,
        scope,
        session.root.select(scope).add_type(key, type_dcl),
        other,
    );
}

/// A constant is declared in the module at `scope` and in no other.
pub proof fn lemma_const_declared_nowhere_else(
    session: Session,
    scope: Seq<Seq<char>>,
    key: Seq<char>,
    const_dcl: ConstDcl,
    other: Seq<Seq<char>>,
)
    requires
        other != scope,
    ensures
        ({
            let after = session.with_const(scope, key, const_dcl).root.select(other);
            &&& after.types == session.root.select(other).types
            &&& after.constants == session.root.select(other).constants
        }),
{
    lemma_other_paths_kept(
        session.root,
        scope,
        session.root.select(scope).add_const(key, const_dcl),
        other,
    );
}

impl Module {
    /// Whether `later` holds everything that this module holds, in the same order and
    /// unchanged, and possibly more after it.
    pub open spec fn extended_by(self, later: Module) -> bool
        decreases self,
    {
        &&& later.id == self.id
        &&& self.types.is_prefix_of(later.types)
        &&& self.constants.is_prefix_of(later.constants)
        &&& self.modules.len() <= later.modules.len()
        &&& forall|i: int|
            0 <= i < self.modules.len() ==> {
                &&& (#[trigger] self.modules[i]).0 == later.modules[i].0
                &&& self.modules[i].1.extended_by(later.modules[i].1)
            }
    }
}

/// A module holds everything that it holds.
pub proof fn lemma_extended_by_itself(module: Module)
    ensures
        module.extended_by(module),
    decreases module,
{
    assert forall|i: int| 0 <= i < module.modules.len() implies (#[trigger] module.modules[i]).1.extended_by(module.modules[i].1) by {
        lemma_extended_by_itself(module.modules[i].1);
    }
}

/// What holds everything of a module that holds everything of another holds everything of the
/// other.
pub proof fn lemma_extended_twice(first: Module, second: Module, third: Module)
    requires
        first.extended_by(second),
        second.extended_by(third),
    ensures
        first.extended_by(third),
    decreases first,
{
    assert(first.types.is_prefix_of(third.types));
    assert(first.constants.is_prefix_of(third.constants));
    assert forall|i: int| 0 <= i < first.modules.len() implies {
        &&& (#[trigger] first.modules[i]).0 == third.modules[i].0
        &&& first.modules[i].1.extended_by(third.modules[i].1)
    } by {
        assert(second.modules[i].0 == third.modules[i].0);
        lemma_extended_twice(first.modules[i].1, second.modules[i].1, third.modules[i].1);
    }
}

/// A module keeps everything when what a path leads to is replaced by a module that keeps
/// everything.
pub proof fn lemma_replace_extends(module: Module, path: Seq<Seq<char>>, target: Module)
    requires
        module.select(path).extended_by(target),
    ensures
        module.extended_by(module.replace(path, target)),
    decreases path.len(),
{
    if path.len() > 0 {
        let name = path[0];
        let inner = module.child(name);
        let changed = inner.replace(path.drop_first(), target);
        lemma_replace_extends(inner, path.drop_first(), target);
        let after = module.with_child(name, changed);
        if crate::table::has_key(module.modules, name) {
            crate::table::lemma_place(module.modules, name);
        }
        assert forall|i: int| 0 <= i < module.modules.len() implies {
            &&& (#[trigger] module.modules[i]).0 == after.modules[i].0
            &&& module.modules[i].1.extended_by(after.modules[i].1)
        } by {
            lemma_extended_by_itself(module.modules[i].1);
        }
    }
}

/// What a path leads to is kept when the module is extended.
pub proof fn lemma_extended_where_selected(
    module: Module,
    later: Module,
    path: Seq<Seq<char>>,
)
    requires
        module.extended_by(later),
        later.wf(),
    ensures
        module.select(path).extended_by(later.select(path)),
    decreases path.len(),
{
    if path.len() > 0 {
        let name = path[0];
        if crate::table::has_key(module.modules, name) {
            crate::table::lemma_place(module.modules, name);
            let k = crate::table::place(module.modules, name);
            assert(later.modules[k].0 == name);
            assert forall|j: int| 0 <= j < k implies (#[trigger] later.modules[j]).0 != name by {
                assert(module.modules[j].0 == later.modules[j].0);
            }
            assert(crate::table::is_first(later.modules, name, k));
            crate::table::lemma_place(later.modules, name);
            assert(later.modules[k].1.wf());
        } else if crate::table::has_key(later.modules, name) {
            crate::table::lemma_place(later.modules, name);
            let k = crate::table::place(later.modules, name);
            assert(later.modules[k].1.id == Some(name));
            assert(later.modules[k].1.wf());
        }
        lemma_extended_where_selected(module.child(name), later.child(name), path.drop_first());
    }
}

}
