//! What holds of processing, whatever is processed.

use crate::context::Session;
use crate::node::Tree;
use crate::rule::Rule;
use crate::sources::File;
use vstd::prelude::*;

verus! {

/// A file that was read is never forgotten.
pub proof fn lemma_files_stay_read(
    session: Session,
    files: Seq<(Seq<char>, File)>,
    depth: nat,
    scope: Seq<Seq<char>>,
    tree: Tree,
)
    ensures
        session.included.subset_of(session.processed(files, depth, scope, tree).0.included),
    decreases depth, tree,
{
    match tree.rule {
        Rule::ModuleDcl => {
            if tree.parts.len() >= 1 {
                let inner = scope.push(tree.parts[0].text);
                lemma_files_stay_read_each(
                    session.with_module(inner),
                    files,
                    depth,
                    inner,
                    tree.later_parts(),
                );
            }
        },
        Rule::StructDef | Rule::UnionDef | Rule::EnumDcl | Rule::ConstDcl => {},
        Rule::TypeDeclarator => {
            if let Ok(type_spec) = tree.parts[0].type_spec() {
                lemma_declared_keeps_files(session, scope, tree.parts[1].parts, type_spec);
            }
        },
        Rule::IncludeDirective => {
            if tree.parts.len() >= 1 {
                if let Some(file) = crate::sources::file_named(files, tree.parts[0].text) {
                    if let Ok(trees) = file.content {
                        if depth > 0 {
                            lemma_files_stay_read_until(
                                session.with_file(file.full_path),
                                files,
                                (depth - 1) as nat,
                                scope,
                                trees,
                            );
                        }
                    }
                }
            }
        },
        _ => {
            lemma_files_stay_read_each(session, files, depth, scope, tree.parts);
        },
    }
}

proof fn lemma_declared_keeps_files(
    session: Session,
    scope: Seq<Seq<char>>,
    declarators: Seq<Tree>,
    type_spec: crate::ast::TypeSpec,
)
    ensures
        session.all_declared(scope, declarators, type_spec).included == session.included,
    decreases declarators.len(),
{
    if declarators.len() > 0 {
        lemma_declared_keeps_files(session, scope, declarators.drop_last(), type_spec);
    }
}

/// [`lemma_files_stay_read`] of a list of trees.
pub proof fn lemma_files_stay_read_each(
    session: Session,
    files: Seq<(Seq<char>, File)>,
    depth: nat,
    scope: Seq<Seq<char>>,
    trees: Seq<Tree>,
)
    ensures
        session.included.subset_of(session.each_processed(files, depth, scope, trees).included),
    decreases depth, trees,
{
    if trees.len() > 0 {
        lemma_files_stay_read_each(session, files, depth, scope, trees.drop_last());
        lemma_files_stay_read(
            session.each_processed(files, depth, scope, trees.drop_last()),
            files,
            depth,
            scope,
            trees.last(),
        );
    }
}

proof fn lemma_files_stay_read_until(
    session: Session,
    files: Seq<(Seq<char>, File)>,
    depth: nat,
    scope: Seq<Seq<char>>,
    trees: Seq<Tree>,
)
    ensures
        session.included.subset_of(
            session.processed_until_failure(files, depth, scope, trees).0.included,
        ),
    decreases depth, trees,
{
    if trees.len() > 0 {
        lemma_files_stay_read_until(session, files, depth, scope, trees.drop_last());
        let (after, r) = session.processed_until_failure(files, depth, scope, trees.drop_last());
        if r is Ok {
            lemma_files_stay_read(after, files, depth, scope, trees.last());
        }
    }
}

/// Files cannot include each other deeper than there are files that were not read: any bound
/// of at least that many gives the same.
pub proof fn lemma_depth_is_enough(
    session: Session,
    files: Seq<(Seq<char>, File)>,
    depth: nat,
    other: nat,
    scope: Seq<Seq<char>>,
    tree: Tree,
)
    requires
        crate::processing::unread(files, session.included) <= depth,
        crate::processing::unread(files, session.included) <= other,
    ensures
        session.processed(files, depth, scope, tree) == session.processed(
            files,
            other,
            scope,
            tree,
        ),
    decreases depth, tree,
{
    match tree.rule {
        Rule::ModuleDcl => {
            if tree.parts.len() >= 1 {
                let inner = scope.push(tree.parts[0].text);
                lemma_depth_is_enough_each(
                    session.with_module(inner),
                    files,
                    depth,
                    other,
                    inner,
                    tree.later_parts(),
                );
            }
        },
        Rule::StructDef
        | Rule::UnionDef
        | Rule::EnumDcl
        | Rule::ConstDcl
        | Rule::TypeDeclarator => {},
        Rule::IncludeDirective => {
            if tree.parts.len() >= 1 {
                let name = tree.parts[0].text;
                if let Some(file) = crate::sources::file_named(files, name) {
                    if let Ok(trees) = file.content {
                        if !session.included.contains(file.full_path) {
                            crate::table::lemma_place(files, name);
                            crate::processing::lemma_unread_insert(
                                files,
                                session.included,
                                crate::table::place(files, name),
                            );
                            lemma_depth_is_enough_until(
                                session.with_file(file.full_path),
                                files,
                                (depth - 1) as nat,
                                (other - 1) as nat,
                                scope,
                                trees,
                            );
                        }
                    }
                }
            }
        },
        _ => {
            lemma_depth_is_enough_each(session, files, depth, other, scope, tree.parts);
        },
    }
}

/// [`lemma_depth_is_enough`] of a list of trees.
pub proof fn lemma_depth_is_enough_each(
    session: Session,
    files: Seq<(Seq<char>, File)>,
    depth: nat,
    other: nat,
    scope: Seq<Seq<char>>,
    trees: Seq<Tree>,
)
    requires
        crate::processing::unread(files, session.included) <= depth,
        crate::processing::unread(files, session.included) <= other,
    ensures
        session.each_processed(files, depth, scope, trees) == session.each_processed(
            files,
            other,
            scope,
            trees,
        ),
    decreases depth, trees,
{
    if trees.len() > 0 {
        let front = trees.drop_last();
        lemma_depth_is_enough_each(session, files, depth, other, scope, front);
        lemma_files_stay_read_each(session, files, depth, scope, front);
        let after = session.each_processed(files, depth, scope, front);
        crate::processing::lemma_unread_subset(files, session.included, after.included);
        lemma_depth_is_enough(after, files, depth, other, scope, trees.last());
    }
}

proof fn lemma_depth_is_enough_until(
    session: Session,
    files: Seq<(Seq<char>, File)>,
    depth: nat,
    other: nat,
    scope: Seq<Seq<char>>,
    trees: Seq<Tree>,
)
    requires
        crate::processing::unread(files, session.included) <= depth,
        crate::processing::unread(files, session.included) <= other,
    ensures
        session.processed_until_failure(files, depth, scope, trees)
            == session.processed_until_failure(files, other, scope, trees),
    decreases depth, trees,
{
    if trees.len() > 0 {
        let front = trees.drop_last();
        lemma_depth_is_enough_until(session, files, depth, other, scope, front);
        lemma_files_stay_read_until(session, files, depth, scope, front);
        let (after, r) = session.processed_until_failure(files, depth, scope, front);
        if r is Ok {
            crate::processing::lemma_unread_subset(files, session.included, after.included);
            lemma_depth_is_enough(after, files, depth, other, scope, trees.last());
        }
    }
}

/// A declaration that cannot be read changes nothing.
pub proof fn lemma_failed_declaration_changes_nothing(
    session: Session,
    files: Seq<(Seq<char>, File)>,
    depth: nat,
    scope: Seq<Seq<char>>,
    tree: Tree,
)
    requires
        tree.rule != Rule::IncludeDirective,
        session.processed(files, depth, scope, tree).1 is Err,
    ensures
        session.processed(files, depth, scope, tree).0 == session,
{
}

/// A file that was read before is not read again, and including it is no failure: a file that
/// includes itself ends there.
pub proof fn lemma_read_file_is_not_read_again(
    session: Session,
    files: Seq<(Seq<char>, File)>,
    depth: nat,
    scope: Seq<Seq<char>>,
    directive: Tree,
    file: File,
)
    requires
        directive.rule == Rule::IncludeDirective,
        directive.parts.len() >= 1,
        crate::sources::file_named(files, directive.parts[0].text) == Some(file),
        session.included.contains(file.full_path),
    ensures
        session.processed(files, depth, scope, directive) == (
            session,
            Ok::<(), crate::error::IdlFault>(()),
        ),
{
}

/// A file that was included was read.
pub proof fn lemma_file_read(
    session: Session,
    files: Seq<(Seq<char>, File)>,
    depth: nat,
    scope: Seq<Seq<char>>,
    directive: Tree,
    file: File,
)
    requires
        directive.rule == Rule::IncludeDirective,
        directive.parts.len() >= 1,
        crate::sources::file_named(files, directive.parts[0].text) == Some(file),
    ensures
        session.processed(files, depth, scope, directive).0.included.contains(file.full_path),
{
    let entered = session.with_file(file.full_path);
    assert(entered.included.contains(file.full_path));
    if let Ok(trees) = file.content {
        if depth > 0 {
            lemma_files_stay_read_until(entered, files, (depth - 1) as nat, scope, trees);
        }
    }
}

/// Including a file a second time changes nothing, whether or not the file could be read.
pub proof fn lemma_included_once(
    session: Session,
    files: Seq<(Seq<char>, File)>,
    depth: nat,
    scope: Seq<Seq<char>>,
    again: Seq<Seq<char>>,
    directive: Tree,
)
    requires
        directive.rule == Rule::IncludeDirective,
        directive.parts.len() >= 1,
        crate::sources::file_named(files, directive.parts[0].text) is Some,
    ensures
        ({
            let once = session.processed(files, depth, scope, directive).0;
            once.processed(files, depth, again, directive) == (
                once,
                Ok::<(), crate::error::IdlFault>(()),
            )
        }),
{
    let file = crate::sources::file_named(files, directive.parts[0].text)->0;
    lemma_file_read(session, files, depth, scope, directive, file);
}

/// Whatever was declared stays declared, unchanged and in its place: of several declarations
/// under one name the first wins.
pub proof fn lemma_declarations_stay(
    session: Session,
    files: Seq<(Seq<char>, File)>,
    depth: nat,
    scope: Seq<Seq<char>>,
    tree: Tree,
)
    ensures
        session.root.extended_by(session.processed(files, depth, scope, tree).0.root),
    decreases depth, tree,
{
    crate::laws::lemma_extended_by_itself(session.root);
    crate::laws::lemma_extended_by_itself(session.root.select(scope));
    match tree.rule {
        Rule::ModuleDcl => {
            if tree.parts.len() >= 1 {
                let inner = scope.push(tree.parts[0].text);
                let opened = session.with_module(inner);
                crate::laws::lemma_extended_by_itself(session.root.select(inner));
                crate::laws::lemma_replace_extends(
                    session.root,
                    inner,
                    session.root.select(inner),
                );
                lemma_declarations_stay_each(opened, files, depth, inner, tree.later_parts());
                crate::laws::lemma_extended_twice(
                    session.root,
                    opened.root,
                    session.processed(files, depth, scope, tree).0.root,
                );
            }
        },
        Rule::StructDef => {
            if let Ok(type_dcl) = tree.struct_def() {
                lemma_type_added(session, scope, tree.parts[0].text, type_dcl);
            }
        },
        Rule::UnionDef => {
            if let Ok((key, type_dcl)) = tree.union_def() {
                lemma_type_added(session, scope, key, type_dcl);
            }
        },
        Rule::EnumDcl => {
            if let Ok(type_dcl) = tree.enum_dcl() {
                lemma_type_added(session, scope, tree.parts[0].text, type_dcl);
            }
        },
        Rule::ConstDcl => {
            if let Ok(const_dcl) = tree.const_dcl() {
                let module = session.root.select(scope);
                let added = module.add_const(const_dcl.id, const_dcl);
                assert(module.extended_by(added));
                crate::laws::lemma_replace_extends(session.root, scope, added);
            }
        },
        Rule::TypeDeclarator => {
            if let Ok(type_spec) = tree.parts[0].type_spec() {
                lemma_all_declared_extends(session, scope, tree.parts[1].parts, type_spec);
            }
        },
        Rule::IncludeDirective => {
            if tree.parts.len() >= 1 {
                if let Some(file) = crate::sources::file_named(files, tree.parts[0].text) {
                    if let Ok(trees) = file.content {
                        if depth > 0 {
                            lemma_declarations_stay_until(
                                session.with_file(file.full_path),
                                files,
                                (depth - 1) as nat,
                                scope,
                                trees,
                            );
                        }
                    }
                }
            }
        },
        _ => {
            lemma_declarations_stay_each(session, files, depth, scope, tree.parts);
        },
    }
}

/// Declaring a type keeps everything that was declared.
pub proof fn lemma_type_added(
    session: Session,
    scope: Seq<Seq<char>>,
    key: Seq<char>,
    type_dcl: crate::ast::TypeDcl,
)
    ensures
        session.root.extended_by(session.with_type(scope, key, type_dcl).root),
{
    let module = session.root.select(scope);
    let added = module.add_type(key, type_dcl);
    crate::laws::lemma_extended_by_itself(module);
    assert(module.extended_by(added));
    crate::laws::lemma_replace_extends(session.root, scope, added);
}

proof fn lemma_all_declared_extends(
    session: Session,
    scope: Seq<Seq<char>>,
    declarators: Seq<Tree>,
    type_spec: crate::ast::TypeSpec,
)
    ensures
        session.root.extended_by(session.all_declared(scope, declarators, type_spec).root),
    decreases declarators.len(),
{
    if declarators.len() == 0 {
        crate::laws::lemma_extended_by_itself(session.root);
    } else {
        let so_far = session.all_declared(scope, declarators.drop_last(), type_spec);
        lemma_all_declared_extends(session, scope, declarators.drop_last(), type_spec);
        if let Ok((key, type_dcl)) = declarators.last().declarator(type_spec) {
            lemma_type_added(so_far, scope, key, type_dcl);
            crate::laws::lemma_extended_twice(
                session.root,
                so_far.root,
                so_far.with_type(scope, key, type_dcl).root,
            );
        }
    }
}

/// [`lemma_declarations_stay`] of a list of trees.
pub proof fn lemma_declarations_stay_each(
    session: Session,
    files: Seq<(Seq<char>, File)>,
    depth: nat,
    scope: Seq<Seq<char>>,
    trees: Seq<Tree>,
)
    ensures
        session.root.extended_by(session.each_processed(files, depth, scope, trees).root),
    decreases depth, trees,
{
    if trees.len() == 0 {
        crate::laws::lemma_extended_by_itself(session.root);
    } else {
        let so_far = session.each_processed(files, depth, scope, trees.drop_last());
        lemma_declarations_stay_each(session, files, depth, scope, trees.drop_last());
        lemma_declarations_stay(so_far, files, depth, scope, trees.last());
        crate::laws::lemma_extended_twice(
            session.root,
            so_far.root,
            so_far.processed(files, depth, scope, trees.last()).0.root,
        );
    }
}

proof fn lemma_declarations_stay_until(
    session: Session,
    files: Seq<(Seq<char>, File)>,
    depth: nat,
    scope: Seq<Seq<char>>,
    trees: Seq<Tree>,
)
    ensures
        session.root.extended_by(
            session.processed_until_failure(files, depth, scope, trees).0.root,
        ),
    decreases depth, trees,
{
    if trees.len() == 0 {
        crate::laws::lemma_extended_by_itself(session.root);
    } else {
        let (so_far, r) = session.processed_until_failure(files, depth, scope, trees.drop_last());
        lemma_declarations_stay_until(session, files, depth, scope, trees.drop_last());
        if r is Ok {
            lemma_declarations_stay(so_far, files, depth, scope, trees.last());
            crate::laws::lemma_extended_twice(
                session.root,
                so_far.root,
                so_far.processed(files, depth, scope, trees.last()).0.root,
            );
        }
    }
}

/// The configured file that includes itself, at any depth and under any name, is not read
/// again.
pub proof fn lemma_self_include_ends(
    files: Seq<(Seq<char>, File)>,
    file: File,
    depth: nat,
    trees: Seq<Tree>,
    scope: Seq<Seq<char>>,
    directive: Tree,
)
    requires
        directive.rule == Rule::IncludeDirective,
        directive.parts.len() >= 1,
        crate::sources::file_named(files, directive.parts[0].text) matches Some(included)
            && included.full_path == file.full_path,
    ensures
        ({
            let so_far = Session::started(file.full_path).each_processed(
                files,
                depth,
                Seq::empty(),
                trees,
            );
            so_far.processed(files, depth, scope, directive) == (
                so_far,
                Ok::<(), crate::error::IdlFault>(()),
            )
        }),
{
    let begun = Session::started(file.full_path);
    lemma_files_stay_read_each(begun, files, depth, Seq::empty(), trees);
    assert(begun.included.contains(file.full_path));
}

/// Processing the definition of a struct, union, enum or constant a second time changes
/// nothing.
pub proof fn lemma_declaration_processed_twice(
    session: Session,
    files: Seq<(Seq<char>, File)>,
    depth: nat,
    scope: Seq<Seq<char>>,
    tree: Tree,
)
    requires
        tree.rule == Rule::StructDef || tree.rule == Rule::UnionDef || tree.rule == Rule::EnumDcl
            || tree.rule == Rule::ConstDcl,
    ensures
        ({
            let once = session.processed(files, depth, scope, tree);
            once.0.processed(files, depth, scope, tree) == once
        }),
{
    match tree.rule {
        Rule::StructDef => {
            if let Ok(type_dcl) = tree.struct_def() {
                crate::laws::lemma_type_redeclared(
                    session,
                    scope,
                    tree.parts[0].text,
                    type_dcl,
                    type_dcl,
                );
            }
        },
        Rule::UnionDef => {
            if let Ok((key, type_dcl)) = tree.union_def() {
                crate::laws::lemma_type_redeclared(session, scope, key, type_dcl, type_dcl);
            }
        },
        Rule::EnumDcl => {
            if let Ok(type_dcl) = tree.enum_dcl() {
                crate::laws::lemma_type_redeclared(
                    session,
                    scope,
                    tree.parts[0].text,
                    type_dcl,
                    type_dcl,
                );
            }
        },
        _ => {
            if let Ok(const_dcl) = tree.const_dcl() {
                crate::laws::lemma_const_redeclared(
                    session,
                    scope,
                    const_dcl.id,
                    const_dcl,
                    const_dcl,
                );
            }
        },
    }
}

/// A file that is recorded under a name where none was listed is found under it, the files
/// listed before keep their places, and the name is missing no more.
pub proof fn lemma_recorded_file_found(
    files: Seq<(Seq<char>, File)>,
    name: Seq<char>,
    file: File,
)
    requires
        !crate::table::has_key(files, name),
    ensures
        ({
            let after = crate::table::or_inserted(files, name, file);
            &&& crate::sources::file_named(after, name) == Some(file)
            &&& files.is_prefix_of(after)
            &&& after.len() == files.len() + 1
        }),
{
    crate::laws::lemma_first_entry_found(files, name, file);
}

/// Whether two sessions declare the same types and constants in the module at `path`.
pub open spec fn same_declarations(
    session: Session,
    other: Session,
    path: Seq<Seq<char>>,
) -> bool {
    &&& session.root.select(path).types == other.root.select(path).types
    &&& session.root.select(path).constants == other.root.select(path).constants
}

/// What is processed in the module at `scope` declares things there and further inside only.
pub proof fn lemma_declared_inside_scope(
    session: Session,
    files: Seq<(Seq<char>, File)>,
    depth: nat,
    scope: Seq<Seq<char>>,
    tree: Tree,
    path: Seq<Seq<char>>,
)
    requires
        !scope.is_prefix_of(path),
    ensures
        same_declarations(session, session.processed(files, depth, scope, tree).0, path),
    decreases depth, tree,
{
    assert(path != scope) by {
        assert(scope.is_prefix_of(scope));
    }
    let module = session.root.select(scope);
    match tree.rule {
        Rule::ModuleDcl => {
            if tree.parts.len() >= 1 {
                let inner = scope.push(tree.parts[0].text);
                lemma_inside_longer_path(scope, tree.parts[0].text, path);
                crate::laws::lemma_other_paths_kept(
                    session.root,
                    inner,
                    session.root.select(inner),
                    path,
                );
                lemma_declared_inside_scope_each(
                    session.with_module(inner),
                    files,
                    depth,
                    inner,
                    tree.later_parts(),
                    path,
                );
            }
        },
        Rule::StructDef => {
            if let Ok(type_dcl) = tree.struct_def() {
                let changed = module.add_type(tree.parts[0].text, type_dcl);
                crate::laws::lemma_other_paths_kept(session.root, scope, changed, path);
            }
        },
        Rule::UnionDef => {
            if let Ok((key, type_dcl)) = tree.union_def() {
                let changed = module.add_type(key, type_dcl);
                crate::laws::lemma_other_paths_kept(session.root, scope, changed, path);
            }
        },
        Rule::EnumDcl => {
            if let Ok(type_dcl) = tree.enum_dcl() {
                let changed = module.add_type(tree.parts[0].text, type_dcl);
                crate::laws::lemma_other_paths_kept(session.root, scope, changed, path);
            }
        },
        Rule::ConstDcl => {
            if let Ok(const_dcl) = tree.const_dcl() {
                let changed = module.add_const(const_dcl.id, const_dcl);
                crate::laws::lemma_other_paths_kept(session.root, scope, changed, path);
            }
        },
        Rule::TypeDeclarator => {
            if let Ok(type_spec) = tree.parts[0].type_spec() {
                lemma_all_declared_inside_scope(
                    session,
                    scope,
                    tree.parts[1].parts,
                    type_spec,
                    path,
                );
            }
        },
        Rule::IncludeDirective => {
            if tree.parts.len() >= 1 {
                if let Some(file) = crate::sources::file_named(files, tree.parts[0].text) {
                    if let Ok(trees) = file.content {
                        if depth > 0 {
                            lemma_declared_inside_scope_until(
                                session.with_file(file.full_path),
                                files,
                                (depth - 1) as nat,
                                scope,
                                trees,
                                path,
                            );
                        }
                    }
                }
            }
        },
        _ => {
            lemma_declared_inside_scope_each(session, files, depth, scope, tree.parts, path);
        },
    }
}

/// A path that is not inside a module is not inside its submodules.
proof fn lemma_inside_longer_path(scope: Seq<Seq<char>>, name: Seq<char>, path: Seq<Seq<char>>)
    requires
        !scope.is_prefix_of(path),
    ensures
        !scope.push(name).is_prefix_of(path),
        path != scope.push(name),
{
    let inner = scope.push(name);
    if inner.is_prefix_of(path) {
        assert(scope =~= path.take(scope.len() as int)) by {
            assert(inner =~= path.take(inner.len() as int));
            assert forall|i: int| 0 <= i < scope.len() implies scope[i] == path[i] by {
                assert(inner[i] == path.take(inner.len() as int)[i]);
            }
        }
        assert(scope.is_prefix_of(path));
    }
    assert(inner.is_prefix_of(inner));
}

proof fn lemma_all_declared_inside_scope(
    session: Session,
    scope: Seq<Seq<char>>,
    declarators: Seq<Tree>,
    type_spec: crate::ast::TypeSpec,
    path: Seq<Seq<char>>,
)
    requires
        path != scope,
    ensures
        same_declarations(session, session.all_declared(scope, declarators, type_spec), path),
    decreases declarators.len(),
{
    if declarators.len() > 0 {
        let so_far = session.all_declared(scope, declarators.drop_last(), type_spec);
        lemma_all_declared_inside_scope(
            session,
            scope,
            declarators.drop_last(),
            type_spec,
            path,
        );
        if let Ok((key, type_dcl)) = declarators.last().declarator(type_spec) {
            let changed = so_far.root.select(scope).add_type(key, type_dcl);
            crate::laws::lemma_other_paths_kept(so_far.root, scope, changed, path);
        }
    }
}

proof fn lemma_declared_inside_scope_each(
    session: Session,
    files: Seq<(Seq<char>, File)>,
    depth: nat,
    scope: Seq<Seq<char>>,
    trees: Seq<Tree>,
    path: Seq<Seq<char>>,
)
    requires
        !scope.is_prefix_of(path),
    ensures
        same_declarations(session, session.each_processed(files, depth, scope, trees), path),
    decreases depth, trees,
{
    if trees.len() > 0 {
        let so_far = session.each_processed(files, depth, scope, trees.drop_last());
        lemma_declared_inside_scope_each(
            session,
            files,
            depth,
            scope,
            trees.drop_last(),
            path,
        );
        lemma_declared_inside_scope(so_far, files, depth, scope, trees.last(), path);
    }
}

proof fn lemma_declared_inside_scope_until(
    session: Session,
    files: Seq<(Seq<char>, File)>,
    depth: nat,
    scope: Seq<Seq<char>>,
    trees: Seq<Tree>,
    path: Seq<Seq<char>>,
)
    requires
        !scope.is_prefix_of(path),
    ensures
        same_declarations(
            session,
            session.processed_until_failure(files, depth, scope, trees).0,
            path,
        ),
    decreases depth, trees,
{
    if trees.len() > 0 {
        let (so_far, r) = session.processed_until_failure(files, depth, scope, trees.drop_last());
        lemma_declared_inside_scope_until(
            session,
            files,
            depth,
            scope,
            trees.drop_last(),
            path,
        );
        if r is Ok {
            lemma_declared_inside_scope(so_far, files, depth, scope, trees.last(), path);
        }
    }
}

}
