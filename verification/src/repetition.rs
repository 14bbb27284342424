//! Processing the same thing again.

use crate::ast::TypeSpec;
use crate::context::Session;
use crate::module::Module;
use crate::node::Tree;
use crate::rule::Rule;
use crate::sources::File;
use vstd::prelude::*;

verus! {

impl Module {
    /// Whether all modules on a path are there.
    pub open spec fn has_path(self, path: Seq<Seq<char>>) -> bool
        decreases path.len(),
    {
        path.len() == 0 || (crate::table::has_key(self.modules, path[0]) && self.child(
            path[0],
        ).has_path(path.drop_first()))
    }
}

/// What is put where a path leads to makes the path lead somewhere.
pub proof fn lemma_replaced_has_path(module: Module, path: Seq<Seq<char>>, target: Module)
    ensures
        module.replace(path, target).has_path(path),
    decreases path.len(),
{
    if path.len() > 0 {
        let inner = module.child(path[0]);
        let changed = inner.replace(path.drop_first(), target);
        lemma_replaced_has_path(inner, path.drop_first(), target);
        crate::laws::lemma_child_found(module, path[0], changed);
        let after = module.with_child(path[0], changed);
        if crate::table::has_key(module.modules, path[0]) {
            crate::table::lemma_place(module.modules, path[0]);
            assert(after.modules[crate::table::place(module.modules, path[0])].0 == path[0]);
        } else {
            assert(after.modules[module.modules.len() as int].0 == path[0]);
        }
    }
}

/// Putting back what a path leads to changes nothing.
proof fn lemma_put_back(module: Module, path: Seq<Seq<char>>)
    requires
        module.has_path(path),
    ensures
        module.replace(path, module.select(path)) == module,
    decreases path.len(),
{
    if path.len() > 0 {
        let name = path[0];
        lemma_put_back(module.child(name), path.drop_first());
        crate::table::lemma_place(module.modules, name);
        let k = crate::table::place(module.modules, name);
        assert(module.modules[k] == (name, module.child(name)));
        assert(module.with_child(name, module.child(name)).modules =~= module.modules);
    }
}

/// A path that leads somewhere still does when the module is extended, to a module that
/// extends what it led to.
proof fn lemma_path_stays(module: Module, later: Module, path: Seq<Seq<char>>)
    requires
        module.extended_by(later),
        module.has_path(path),
    ensures
        later.has_path(path),
        module.select(path).extended_by(later.select(path)),
    decreases path.len(),
{
    if path.len() > 0 {
        let name = path[0];
        crate::table::lemma_place(module.modules, name);
        let k = crate::table::place(module.modules, name);
        assert(module.modules[k].0 == later.modules[k].0);
        assert forall|j: int| 0 <= j < k implies (#[trigger] later.modules[j]).0 != name by {
            assert(module.modules[j].0 == later.modules[j].0);
        }
        assert(crate::table::is_first(later.modules, name, k));
        crate::table::lemma_place(later.modules, name);
        lemma_path_stays(module.child(name), later.child(name), path.drop_first());
    }
}

/// Whether a type of some name is declared in the module at `scope`.
pub open spec fn type_settled(session: Session, scope: Seq<Seq<char>>, key: Seq<char>) -> bool {
    session.root.has_path(scope) && crate::table::has_key(session.root.select(scope).types, key)
}

/// Whether a constant of some name is declared in the module at `scope`.
pub open spec fn const_settled(session: Session, scope: Seq<Seq<char>>, key: Seq<char>) -> bool {
    session.root.has_path(scope) && crate::table::has_key(
        session.root.select(scope).constants,
        key,
    )
}

/// Whether what a list of declarators declares is declared.
pub open spec fn declarators_settled(
    session: Session,
    scope: Seq<Seq<char>>,
    declarators: Seq<Tree>,
    type_spec: TypeSpec,
) -> bool {
    forall|i: int|
        0 <= i < declarators.len() ==> ((#[trigger] declarators[i]).declarator(
            type_spec,
        ) matches Ok((key, _)) ==> type_settled(session, scope, key))
}

impl Session {
    /// Whether everything that a tree declares in the module at `scope` is declared, and the
    /// files that it includes were read, or are wanted where they are not listed.
    pub open spec fn settled(
        self,
        files: Seq<(Seq<char>, File)>,
        scope: Seq<Seq<char>>,
        tree: Tree,
    ) -> bool
        decreases tree,
    {
        match tree.rule {
            Rule::ModuleDcl => {
                let inner = scope.push(tree.parts[0].text);
                tree.parts.len() >= 1 ==> self.root.has_path(inner) && forall|i: int|
                    1 <= i < tree.parts.len() ==> self.settled(
                        files,
                        inner,
                        #[trigger] tree.parts[i],
                    )
            },
            Rule::StructDef => tree.struct_def() is Ok ==> type_settled(
                self,
                scope,
                tree.parts[0].text,
            ),
            Rule::UnionDef => tree.union_def() matches Ok((key, _)) ==> type_settled(
                self,
                scope,
                key,
            ),
            Rule::TypeDeclarator => tree.parts[0].type_spec() matches Ok(type_spec)
                ==> declarators_settled(self, scope, tree.parts[1].parts, type_spec),
            Rule::EnumDcl => tree.enum_dcl() is Ok ==> type_settled(
                self,
                scope,
                tree.parts[0].text,
            ),
            Rule::ConstDcl => tree.const_dcl() matches Ok(const_dcl) ==> const_settled(
                self,
                scope,
                const_dcl.id,
            ),
            Rule::IncludeDirective => tree.parts.len() >= 1 ==> match crate::sources::file_named(
                files,
                tree.parts[0].text,
            ) {
                Some(file) => self.included.contains(file.full_path),
                None => self.wanted is Some,
            },
            _ => forall|i: int|
                0 <= i < tree.parts.len() ==> self.settled(files, scope, #[trigger] tree.parts[i]),
        }
    }

    /// Whether a session holds everything that this one holds.
    pub open spec fn extended_by(self, later: Session) -> bool {
        &&& self.root.extended_by(later.root)
        &&& self.included.subset_of(later.included)
        &&& self.wanted is Some ==> later.wanted == self.wanted
    }
}

/// A list of trees is settled if each is.
pub open spec fn all_settled(
    session: Session,
    files: Seq<(Seq<char>, File)>,
    scope: Seq<Seq<char>>,
    trees: Seq<Tree>,
) -> bool {
    forall|i: int| 0 <= i < trees.len() ==> session.settled(files, scope, #[trigger] trees[i])
}

proof fn lemma_settled_type(
    session: Session,
    scope: Seq<Seq<char>>,
    key: Seq<char>,
    type_dcl: crate::ast::TypeDcl,
)
    requires
        type_settled(session, scope, key),
    ensures
        session.with_type(scope, key, type_dcl) == session,
{
    let module = session.root.select(scope);
    assert(module.add_type(key, type_dcl) =~= module);
    lemma_put_back(session.root, scope);
}

proof fn lemma_settled_declarators(
    session: Session,
    scope: Seq<Seq<char>>,
    declarators: Seq<Tree>,
    type_spec: TypeSpec,
)
    requires
        declarators_settled(session, scope, declarators, type_spec),
    ensures
        session.all_declared(scope, declarators, type_spec) == session,
    decreases declarators.len(),
{
    if declarators.len() > 0 {
        let front = declarators.drop_last();
        assert forall|i: int| 0 <= i < front.len() implies ((#[trigger] front[i]).declarator(
            type_spec,
        ) matches Ok((key, _)) ==> type_settled(session, scope, key)) by {
            assert(front[i] == declarators[i]);
        }
        lemma_settled_declarators(session, scope, front, type_spec);
        let last = declarators[declarators.len() - 1];
        if let Ok((key, type_dcl)) = last.declarator(type_spec) {
            lemma_settled_type(session, scope, key, type_dcl);
        }
    }
}

/// Processing what is settled changes nothing.
pub proof fn lemma_settled_changes_nothing(
    session: Session,
    files: Seq<(Seq<char>, File)>,
    depth: nat,
    scope: Seq<Seq<char>>,
    tree: Tree,
)
    requires
        session.settled(files, scope, tree),
    ensures
        session.processed(files, depth, scope, tree).0 == session,
    decreases tree,
{
    match tree.rule {
        Rule::ModuleDcl => {
            if tree.parts.len() >= 1 {
                let inner = scope.push(tree.parts[0].text);
                lemma_put_back(session.root, inner);
                let trees = tree.later_parts();
                assert forall|i: int| 0 <= i < trees.len() implies session.settled(
                    files,
                    inner,
                    #[trigger] trees[i],
                ) by {
                    assert(trees[i] == tree.parts[i + 1]);
                }
                lemma_all_settled_change_nothing(session, files, depth, inner, trees);
            }
        },
        Rule::StructDef => {
            if let Ok(type_dcl) = tree.struct_def() {
                lemma_settled_type(session, scope, tree.parts[0].text, type_dcl);
            }
        },
        Rule::UnionDef => {
            if let Ok((key, type_dcl)) = tree.union_def() {
                lemma_settled_type(session, scope, key, type_dcl);
            }
        },
        Rule::TypeDeclarator => {
            if let Ok(type_spec) = tree.parts[0].type_spec() {
                lemma_settled_declarators(session, scope, tree.parts[1].parts, type_spec);
            }
        },
        Rule::EnumDcl => {
            if let Ok(type_dcl) = tree.enum_dcl() {
                lemma_settled_type(session, scope, tree.parts[0].text, type_dcl);
            }
        },
        Rule::ConstDcl => {
            if let Ok(const_dcl) = tree.const_dcl() {
                let module = session.root.select(scope);
                assert(module.add_const(const_dcl.id, const_dcl) =~= module);
                lemma_put_back(session.root, scope);
            }
        },
        Rule::IncludeDirective => {},
        _ => {
            lemma_all_settled_change_nothing(session, files, depth, scope, tree.parts);
        },
    }
}

proof fn lemma_all_settled_change_nothing(
    session: Session,
    files: Seq<(Seq<char>, File)>,
    depth: nat,
    scope: Seq<Seq<char>>,
    trees: Seq<Tree>,
)
    requires
        all_settled(session, files, scope, trees),
    ensures
        session.each_processed(files, depth, scope, trees) == session,
    decreases trees,
{
    if trees.len() > 0 {
        let front = trees.drop_last();
        assert forall|i: int| 0 <= i < front.len() implies session.settled(
            files,
            scope,
            #[trigger] front[i],
        ) by {
            assert(front[i] == trees[i]);
        }
        lemma_all_settled_change_nothing(session, files, depth, scope, front);
        lemma_settled_changes_nothing(session, files, depth, scope, trees[trees.len() - 1]);
    }
}

proof fn lemma_type_stays_settled(
    session: Session,
    later: Session,
    scope: Seq<Seq<char>>,
    key: Seq<char>,
)
    requires
        session.extended_by(later),
        type_settled(session, scope, key),
    ensures
        type_settled(later, scope, key),
{
    lemma_path_stays(session.root, later.root, scope);
    let before = session.root.select(scope).types;
    let after = later.root.select(scope).types;
    let i = choose|i: int| 0 <= i < before.len() && (#[trigger] before[i]).0 == key;
    assert(after[i] == before[i]);
}

/// What is settled stays settled.
pub proof fn lemma_stays_settled(
    session: Session,
    later: Session,
    files: Seq<(Seq<char>, File)>,
    scope: Seq<Seq<char>>,
    tree: Tree,
)
    requires
        session.extended_by(later),
        session.settled(files, scope, tree),
    ensures
        later.settled(files, scope, tree),
    decreases tree,
{
    match tree.rule {
        Rule::ModuleDcl => {
            if tree.parts.len() >= 1 {
                let inner = scope.push(tree.parts[0].text);
                lemma_path_stays(session.root, later.root, inner);
                assert forall|i: int| 1 <= i < tree.parts.len() implies later.settled(
                    files,
                    inner,
                    #[trigger] tree.parts[i],
                ) by {
                    lemma_stays_settled(session, later, files, inner, tree.parts[i]);
                }
            }
        },
        Rule::StructDef => {
            if tree.struct_def() is Ok {
                lemma_type_stays_settled(session, later, scope, tree.parts[0].text);
            }
        },
        Rule::UnionDef => {
            if let Ok((key, _)) = tree.union_def() {
                lemma_type_stays_settled(session, later, scope, key);
            }
        },
        Rule::TypeDeclarator => {
            if let Ok(type_spec) = tree.parts[0].type_spec() {
                let declarators = tree.parts[1].parts;
                assert forall|i: int| 0 <= i < declarators.len() implies ((
                #[trigger] declarators[i]).declarator(type_spec) matches Ok((key, _))
                    ==> type_settled(later, scope, key)) by {
                    if let Ok((key, _)) = declarators[i].declarator(type_spec) {
                        lemma_type_stays_settled(session, later, scope, key);
                    }
                }
            }
        },
        Rule::EnumDcl => {
            if tree.enum_dcl() is Ok {
                lemma_type_stays_settled(session, later, scope, tree.parts[0].text);
            }
        },
        Rule::ConstDcl => {
            if let Ok(const_dcl) = tree.const_dcl() {
                lemma_path_stays(session.root, later.root, scope);
                let before = session.root.select(scope).constants;
                let after = later.root.select(scope).constants;
                let i = choose|i: int|
                    0 <= i < before.len() && (#[trigger] before[i]).0 == const_dcl.id;
                assert(after[i] == before[i]);
            }
        },
        Rule::IncludeDirective => {},
        _ => {
            assert forall|i: int| 0 <= i < tree.parts.len() implies later.settled(
                files,
                scope,
                #[trigger] tree.parts[i],
            ) by {
                lemma_stays_settled(session, later, files, scope, tree.parts[i]);
            }
        },
    }
}

proof fn lemma_declared_is_settled(
    session: Session,
    scope: Seq<Seq<char>>,
    key: Seq<char>,
    type_dcl: crate::ast::TypeDcl,
)
    ensures
        type_settled(session.with_type(scope, key, type_dcl), scope, key),
{
    let added = session.root.select(scope).add_type(key, type_dcl);
    lemma_replaced_has_path(session.root, scope, added);
    crate::laws::lemma_first_type_found(session, scope, key, type_dcl);
}

proof fn lemma_all_declared_is_settled(
    session: Session,
    scope: Seq<Seq<char>>,
    declarators: Seq<Tree>,
    type_spec: TypeSpec,
)
    ensures
        declarators_settled(
            session.all_declared(scope, declarators, type_spec),
            scope,
            declarators,
            type_spec,
        ),
    decreases declarators.len(),
{
    if declarators.len() > 0 {
        let front = declarators.drop_last();
        let so_far = session.all_declared(scope, front, type_spec);
        let after = session.all_declared(scope, declarators, type_spec);
        lemma_all_declared_is_settled(session, scope, front, type_spec);
        let last = declarators.last();
        crate::laws::lemma_extended_by_itself(so_far.root);
        if let Ok((key, type_dcl)) = last.declarator(type_spec) {
            lemma_declared_is_settled(so_far, scope, key, type_dcl);
            crate::process_laws::lemma_type_added(so_far, scope, key, type_dcl);
        }
        assert(so_far.extended_by(after));
        assert forall|i: int| 0 <= i < declarators.len() implies ((
        #[trigger] declarators[i]).declarator(type_spec) matches Ok((key, _)) ==> type_settled(
            after,
            scope,
            key,
        )) by {
            if i < front.len() {
                assert(front[i] == declarators[i]);
                if let Ok((key, _)) = front[i].declarator(type_spec) {
                    lemma_type_stays_settled(so_far, after, scope, key);
                }
            }
        }
    }
}

/// What was processed is settled.
pub proof fn lemma_processed_is_settled(
    session: Session,
    files: Seq<(Seq<char>, File)>,
    depth: nat,
    scope: Seq<Seq<char>>,
    tree: Tree,
)
    ensures
        session.processed(files, depth, scope, tree).0.settled(files, scope, tree),
    decreases tree,
{
    match tree.rule {
        Rule::ModuleDcl => {
            if tree.parts.len() >= 1 {
                let inner = scope.push(tree.parts[0].text);
                let opened = session.with_module(inner);
                let trees = tree.later_parts();
                lemma_replaced_has_path(session.root, inner, session.root.select(inner));
                lemma_each_processed_is_settled(opened, files, depth, inner, trees);
                crate::process_laws::lemma_declarations_stay_each(
                    opened,
                    files,
                    depth,
                    inner,
                    trees,
                );
                let after = opened.each_processed(files, depth, inner, trees);
                lemma_path_stays(opened.root, after.root, inner);
                assert forall|i: int| 1 <= i < tree.parts.len() implies after.settled(
                    files,
                    inner,
                    #[trigger] tree.parts[i],
                ) by {
                    assert(trees[i - 1] == tree.parts[i]);
                }
            }
        },
        Rule::StructDef => {
            if let Ok(type_dcl) = tree.struct_def() {
                lemma_declared_is_settled(session, scope, tree.parts[0].text, type_dcl);
            }
        },
        Rule::UnionDef => {
            if let Ok((key, type_dcl)) = tree.union_def() {
                lemma_declared_is_settled(session, scope, key, type_dcl);
            }
        },
        Rule::TypeDeclarator => {
            if let Ok(type_spec) = tree.parts[0].type_spec() {
                lemma_all_declared_is_settled(session, scope, tree.parts[1].parts, type_spec);
            }
        },
        Rule::EnumDcl => {
            if let Ok(type_dcl) = tree.enum_dcl() {
                lemma_declared_is_settled(session, scope, tree.parts[0].text, type_dcl);
            }
        },
        Rule::ConstDcl => {
            if let Ok(const_dcl) = tree.const_dcl() {
                let added = session.root.select(scope).add_const(const_dcl.id, const_dcl);
                lemma_replaced_has_path(session.root, scope, added);
                crate::laws::lemma_first_const_found(session, scope, const_dcl.id, const_dcl);
            }
        },
        Rule::IncludeDirective => {
            if tree.parts.len() >= 1 {
                if let Some(file) = crate::sources::file_named(files, tree.parts[0].text) {
                    crate::process_laws::lemma_file_read(session, files, depth, scope, tree, file);
                }
            }
        },
        _ => {
            lemma_each_processed_is_settled(session, files, depth, scope, tree.parts);
        },
    }
}

/// [`lemma_processed_is_settled`] of a list of trees.
pub proof fn lemma_each_processed_is_settled(
    session: Session,
    files: Seq<(Seq<char>, File)>,
    depth: nat,
    scope: Seq<Seq<char>>,
    trees: Seq<Tree>,
)
    ensures
        all_settled(
            session.each_processed(files, depth, scope, trees),
            files,
            scope,
            trees,
        ),
    decreases trees,
{
    if trees.len() > 0 {
        let front = trees.drop_last();
        let last = trees[trees.len() - 1];
        let so_far = session.each_processed(files, depth, scope, front);
        let after = so_far.processed(files, depth, scope, last).0;
        lemma_each_processed_is_settled(session, files, depth, scope, front);
        lemma_processed_is_settled(so_far, files, depth, scope, last);
        crate::process_laws::lemma_declarations_stay(so_far, files, depth, scope, last);
        crate::process_laws::lemma_files_stay_read(so_far, files, depth, scope, last);
        crate::wanting::lemma_wanted_stays(so_far, files, depth, scope, last);
        assert forall|i: int| 0 <= i < trees.len() implies after.settled(
            files,
            scope,
            #[trigger] trees[i],
        ) by {
            if i < front.len() {
                assert(front[i] == trees[i]);
                lemma_stays_settled(so_far, after, files, scope, front[i]);
            }
        }
    }
}

/// Processing the same tree in the same module again changes nothing, even after other things
/// were processed in between.
pub proof fn lemma_processed_again(
    session: Session,
    later: Session,
    files: Seq<(Seq<char>, File)>,
    depth: nat,
    scope: Seq<Seq<char>>,
    tree: Tree,
)
    requires
        session.processed(files, depth, scope, tree).0.extended_by(later),
    ensures
        later.processed(files, depth, scope, tree).0 == later,
{
    lemma_processed_is_settled(session, files, depth, scope, tree);
    lemma_stays_settled(
        session.processed(files, depth, scope, tree).0,
        later,
        files,
        scope,
        tree,
    );
    lemma_settled_changes_nothing(later, files, depth, scope, tree);
}

}
