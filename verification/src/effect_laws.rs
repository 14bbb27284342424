//! What processing does to the modules: which declaration is added where, and nothing besides.

use crate::ast::{ConstDcl, TypeDcl, TypeSpec};
use crate::context::Session;
use crate::error::{IdlFault, ParserFault};
use crate::node::Tree;
use crate::rule::Rule;
use crate::sources::File;
use crate::token::Entry;
use vstd::prelude::*;

verus! {

/// Whether `after` is a list with an entry added at its end, unless it had one of that name.
pub open spec fn entry_added<V>(
    before: Seq<(Seq<char>, V)>,
    after: Seq<(Seq<char>, V)>,
    key: Seq<char>,
    value: V,
) -> bool {
    if exists|i: int| 0 <= i < before.len() && (#[trigger] before[i]).0 == key {
        after == before
    } else {
        &&& after.len() == before.len() + 1
        &&& after[before.len() as int] == (key, value)
        &&& forall|i: int| 0 <= i < before.len() ==> after[i] == #[trigger] before[i]
    }
}

/// Whether one session comes from another by declaring a type in the module at `scope`, and
/// nothing else.
pub open spec fn only_type_added(
    before: Session,
    after: Session,
    scope: Seq<Seq<char>>,
    key: Seq<char>,
    type_dcl: TypeDcl,
) -> bool {
    let old_module = before.root.select(scope);
    let new_module = after.root.select(scope);
    &&& entry_added(old_module.types, new_module.types, key, type_dcl)
    &&& new_module.constants == old_module.constants
    &&& new_module.modules == old_module.modules
    &&& new_module.id == old_module.id
    &&& after.included == before.included
    &&& after.wanted == before.wanted
    &&& forall|other: Seq<Seq<char>>| #![trigger after.root.select(other)]
        other != scope ==> crate::process_laws::same_declarations(before, after, other)
}

/// Whether one session comes from another by declaring a constant in the module at `scope`, and
/// nothing else.
pub open spec fn only_const_added(
    before: Session,
    after: Session,
    scope: Seq<Seq<char>>,
    const_dcl: ConstDcl,
) -> bool {
    let old_module = before.root.select(scope);
    let new_module = after.root.select(scope);
    &&& entry_added(old_module.constants, new_module.constants, const_dcl.id, const_dcl)
    &&& new_module.types == old_module.types
    &&& new_module.modules == old_module.modules
    &&& new_module.id == old_module.id
    &&& after.included == before.included
    &&& after.wanted == before.wanted
    &&& forall|other: Seq<Seq<char>>| #![trigger after.root.select(other)]
        other != scope ==> crate::process_laws::same_declarations(before, after, other)
}

/// Declaring a type does that and nothing else.
pub proof fn lemma_type_effect(
    session: Session,
    scope: Seq<Seq<char>>,
    key: Seq<char>,
    type_dcl: TypeDcl,
)
    ensures
        only_type_added(
            session,
            session.with_type(scope, key, type_dcl),
            scope,
            key,
            type_dcl,
        ),
{
    let after = session.with_type(scope, key, type_dcl);
    crate::laws::lemma_select_replaced(
        session.root,
        scope,
        session.root.select(scope).add_type(key, type_dcl),
    );
    assert forall|other: Seq<Seq<char>>| #![trigger after.root.select(other)]
        other != scope implies crate::process_laws::same_declarations(session, after, other) by {
        crate::laws::lemma_type_declared_nowhere_else(session, scope, key, type_dcl, other);
    }
}

/// Declaring a constant does that and nothing else.
pub proof fn lemma_const_effect(session: Session, scope: Seq<Seq<char>>, const_dcl: ConstDcl)
    ensures
        only_const_added(
            session,
            session.with_const(scope, const_dcl.id, const_dcl),
            scope,
            const_dcl,
        ),
{
    let after = session.with_const(scope, const_dcl.id, const_dcl);
    crate::laws::lemma_select_replaced(
        session.root,
        scope,
        session.root.select(scope).add_const(const_dcl.id, const_dcl),
    );
    assert forall|other: Seq<Seq<char>>| #![trigger after.root.select(other)]
        other != scope implies crate::process_laws::same_declarations(session, after, other) by {
        crate::laws::lemma_const_declared_nowhere_else(
            session,
            scope,
            const_dcl.id,
            const_dcl,
            other,
        );
    }
}

/// The definition of a struct, union, enum or constant that can be read is added to the module
/// in which it stands, as it was read, and nothing else changes. One that cannot be read changes
/// nothing, and the error is reported.
pub proof fn lemma_declaration_effect(
    session: Session,
    files: Seq<(Seq<char>, File)>,
    depth: nat,
    scope: Seq<Seq<char>>,
    tree: Tree,
)
    ensures
        ({
            let (after, verdict) = session.processed(files, depth, scope, tree);
            let failed = |fault: ParserFault|
                after == session && verdict == Err::<(), _>(IdlFault::ParserError(fault));
            &&& tree.rule == Rule::StructDef ==> match tree.struct_def() {
                Ok(type_dcl) => verdict is Ok && only_type_added(
                    session,
                    after,
                    scope,
                    tree.parts[0].text,
                    type_dcl,
                ),
                Err(fault) => failed(fault),
            }
            &&& tree.rule == Rule::EnumDcl ==> match tree.enum_dcl() {
                Ok(type_dcl) => verdict is Ok && only_type_added(
                    session,
                    after,
                    scope,
                    tree.parts[0].text,
                    type_dcl,
                ),
                Err(fault) => failed(fault),
            }
            &&& tree.rule == Rule::UnionDef ==> match tree.union_def() {
                Ok((key, type_dcl)) => verdict is Ok && only_type_added(
                    session,
                    after,
                    scope,
                    key,
                    type_dcl,
                ),
                Err(fault) => failed(fault),
            }
            &&& tree.rule == Rule::ConstDcl ==> match tree.const_dcl() {
                Ok(const_dcl) => verdict is Ok && only_const_added(
                    session,
                    after,
                    scope,
                    const_dcl,
                ),
                Err(fault) => failed(fault),
            }
        }),
{
    match tree.rule {
        Rule::StructDef => {
            if let Ok(type_dcl) = tree.struct_def() {
                lemma_type_effect(session, scope, tree.parts[0].text, type_dcl);
            }
        },
        Rule::EnumDcl => {
            if let Ok(type_dcl) = tree.enum_dcl() {
                lemma_type_effect(session, scope, tree.parts[0].text, type_dcl);
            }
        },
        Rule::UnionDef => {
            if let Ok((key, type_dcl)) = tree.union_def() {
                lemma_type_effect(session, scope, key, type_dcl);
            }
        },
        Rule::ConstDcl => {
            if let Ok(const_dcl) = tree.const_dcl() {
                lemma_const_effect(session, scope, const_dcl);
            }
        },
        _ => {},
    }
}

/// Whether a run of sessions declares the names in a list of declarators, one at each step: a
/// declarator that cannot be read changes nothing.
pub open spec fn declares_in_steps(
    steps: Seq<Session>,
    scope: Seq<Seq<char>>,
    declarators: Seq<Tree>,
    type_spec: TypeSpec,
) -> bool {
    &&& steps.len() == declarators.len() + 1
    &&& forall|i: int|
        0 <= i < declarators.len() ==> match (#[trigger] declarators[i]).declarator(type_spec) {
            Ok((key, type_dcl)) => only_type_added(steps[i], steps[i + 1], scope, key, type_dcl),
            Err(_) => steps[i + 1] == steps[i],
        }
}

/// A `typedef` declares the names in all its declarators, one after the other, each with the
/// type that stands in front.
pub proof fn lemma_typedef_effect(
    session: Session,
    files: Seq<(Seq<char>, File)>,
    depth: nat,
    scope: Seq<Seq<char>>,
    tree: Tree,
) -> (steps: Seq<Session>)
    requires
        tree.rule == Rule::TypeDeclarator,
        tree.parts.len() >= 2,
    ensures
        match tree.parts[0].type_spec() {
            Ok(type_spec) => {
                &&& declares_in_steps(steps, scope, tree.parts[1].parts, type_spec)
                &&& steps[0] == session
                &&& session.processed(files, depth, scope, tree) == (
                    steps.last(),
                    Ok::<(), IdlFault>(()),
                )
            },
            Err(fault) => session.processed(files, depth, scope, tree) == (
                session,
                Err::<(), _>(IdlFault::ParserError(fault)),
            ),
        },
{
    match tree.parts[0].type_spec() {
        Ok(type_spec) => lemma_declarators_effect(
            session,
            scope,
            tree.parts[1].parts,
            type_spec,
        ),
        Err(_) => seq![session],
    }
}

proof fn lemma_declarators_effect(
    session: Session,
    scope: Seq<Seq<char>>,
    declarators: Seq<Tree>,
    type_spec: TypeSpec,
) -> (steps: Seq<Session>)
    ensures
        declares_in_steps(steps, scope, declarators, type_spec),
        steps[0] == session,
        steps.last() == session.all_declared(scope, declarators, type_spec),
    decreases declarators.len(),
{
    if declarators.len() == 0 {
        seq![session]
    } else {
        let front = declarators.drop_last();
        let earlier = lemma_declarators_effect(session, scope, front, type_spec);
        let so_far = session.all_declared(scope, front, type_spec);
        let after = session.all_declared(scope, declarators, type_spec);
        let steps = earlier.push(after);
        if let Ok((key, type_dcl)) = declarators.last().declarator(type_spec) {
            lemma_type_effect(so_far, scope, key, type_dcl);
        }
        assert forall|i: int| 0 <= i < declarators.len() implies match (
        #[trigger] declarators[i]).declarator(type_spec) {
            Ok((key, type_dcl)) => only_type_added(steps[i], steps[i + 1], scope, key, type_dcl),
            Err(_) => steps[i + 1] == steps[i],
        } by {
            if i < front.len() {
                assert(front[i] == declarators[i]);
                assert(steps[i] == earlier[i] && steps[i + 1] == earlier[i + 1]);
            } else {
                assert(steps[i] == so_far);
            }
        }
        steps
    }
}

/// Opening a module makes its path lead somewhere, and declares nothing.
pub proof fn lemma_opening_effect(session: Session, scope: Seq<Seq<char>>)
    ensures
        ({
            let after = session.with_module(scope);
            &&& after.root.has_path(scope)
            &&& after.included == session.included
            &&& after.wanted == session.wanted
            &&& forall|path: Seq<Seq<char>>| #![trigger after.root.select(path)]
                crate::process_laws::same_declarations(session, after, path)
        }),
{
    let after = session.with_module(scope);
    let module = session.root.select(scope);
    crate::repetition::lemma_replaced_has_path(session.root, scope, module);
    assert forall|path: Seq<Seq<char>>| #![trigger after.root.select(path)]
        crate::process_laws::same_declarations(session, after, path) by {
        if path == scope {
            crate::laws::lemma_select_replaced(session.root, scope, module);
        } else {
            crate::laws::lemma_other_paths_kept(session.root, scope, module, path);
        }
    }
}

/// A module is opened inside the one in which it stands, and everything in it is processed there,
/// whatever fails.
pub proof fn lemma_module_effect(
    session: Session,
    files: Seq<(Seq<char>, File)>,
    depth: nat,
    scope: Seq<Seq<char>>,
    tree: Tree,
)
    requires
        tree.rule == Rule::ModuleDcl,
        tree.parts.len() >= 1,
    ensures
        session.processed(files, depth, scope, tree) == (
            session.with_module(scope.push(tree.parts[0].text)).each_processed(
                files,
                depth,
                scope.push(tree.parts[0].text),
                tree.parts.skip(1),
            ),
            Ok::<(), IdlFault>(()),
        ),
{
    assert(tree.later_parts() =~= tree.parts.skip(1));
}

/// Whatever is no declaration and no include directive stands for all that is in it, whatever
/// fails.
pub proof fn lemma_wrapper_effect(
    session: Session,
    files: Seq<(Seq<char>, File)>,
    depth: nat,
    scope: Seq<Seq<char>>,
    tree: Tree,
)
    requires
        tree.rule != Rule::ModuleDcl,
        tree.rule != Rule::StructDef,
        tree.rule != Rule::UnionDef,
        tree.rule != Rule::TypeDeclarator,
        tree.rule != Rule::EnumDcl,
        tree.rule != Rule::ConstDcl,
        tree.rule != Rule::IncludeDirective,
    ensures
        session.processed(files, depth, scope, tree) == (
            session.each_processed(files, depth, scope, tree.parts),
            Ok::<(), IdlFault>(()),
        ),
{
}

/// Trees are processed one after the other: first those in front, then those behind.
pub proof fn lemma_one_after_the_other(
    session: Session,
    files: Seq<(Seq<char>, File)>,
    depth: nat,
    scope: Seq<Seq<char>>,
    front: Seq<Tree>,
    back: Seq<Tree>,
)
    ensures
        session.each_processed(files, depth, scope, front + back) == session.each_processed(
            files,
            depth,
            scope,
            front,
        ).each_processed(files, depth, scope, back),
        session.each_processed(files, depth, scope, Seq::empty()) == session,
    decreases back.len(),
{
    let all = front + back;
    if back.len() == 0 {
        assert(all =~= front);
    } else {
        lemma_one_after_the_other(session, files, depth, scope, front, back.drop_last());
        assert(all.drop_last() =~= front + back.drop_last());
        assert(all.last() == back.last());
    }
}

/// A single tree in a list is processed as it is on its own.
pub proof fn lemma_one_alone(
    session: Session,
    files: Seq<(Seq<char>, File)>,
    depth: nat,
    scope: Seq<Seq<char>>,
    tree: Tree,
)
    ensures
        session.each_processed(files, depth, scope, seq![tree]) == session.processed(
            files,
            depth,
            scope,
            tree,
        ).0,
{
    assert(seq![tree].drop_last() =~= Seq::empty());
    assert(session.each_processed(files, depth, scope, seq![tree].drop_last()) == session);
}

/// Trees that are processed up to the first failure are all processed if none fails; else those
/// in front of the first that fails are, then that one, and its failure is reported.
pub proof fn lemma_until_failure(
    session: Session,
    files: Seq<(Seq<char>, File)>,
    depth: nat,
    scope: Seq<Seq<char>>,
    trees: Seq<Tree>,
)
    ensures
        ({
            let (after, verdict) = session.processed_until_failure(files, depth, scope, trees);
            &&& verdict is Ok ==> after == session.each_processed(files, depth, scope, trees)
            &&& verdict is Err ==> exists|n: int|
                0 <= n < trees.len() && session.each_processed(
                    files,
                    depth,
                    scope,
                    #[trigger] trees.take(n),
                ).processed(files, depth, scope, trees[n]) == (after, verdict)
        }),
        forall|i: int|
            0 <= i < trees.len() && session.processed_until_failure(
                files,
                depth,
                scope,
                trees,
            ).1 is Ok ==> session.each_processed(
                files,
                depth,
                scope,
                #[trigger] trees.take(i),
            ).processed(files, depth, scope, trees[i]).1 is Ok,
    decreases trees.len(),
{
    if trees.len() > 0 {
        let front = trees.drop_last();
        let n = trees.len() - 1;
        lemma_until_failure(session, files, depth, scope, front);
        assert(front =~= trees.take(n));
        let (so_far, r) = session.processed_until_failure(files, depth, scope, front);
        assert forall|i: int| 0 <= i < front.len() implies front.take(i) == #[trigger] trees.take(
            i,
        ) by {
            assert(front.take(i) =~= trees.take(i));
        }
        if r is Err {
            let k = choose|k: int|
                0 <= k < front.len() && session.each_processed(
                    files,
                    depth,
                    scope,
                    #[trigger] front.take(k),
                ).processed(files, depth, scope, front[k]) == (so_far, r);
            assert(trees.take(k) == front.take(k));
            assert(trees[k] == front[k]);
        } else {
            assert(session.each_processed(files, depth, scope, trees.take(n)) == so_far);
            assert forall|i: int|
                0 <= i < trees.len() && session.processed_until_failure(
                    files,
                    depth,
                    scope,
                    trees,
                ).1 is Ok implies session.each_processed(
                files,
                depth,
                scope,
                #[trigger] trees.take(i),
            ).processed(files, depth, scope, trees[i]).1 is Ok by {
                if i < n {
                    assert(front.take(i) == trees.take(i));
                    assert(front[i] == trees[i]);
                }
            }
        }
    }
}

/// What an include directive does: a file that was read changes nothing; one that is not listed
/// is wanted; one without trees is marked as read, and why it has none is reported; and one with
/// trees is marked as read and processed in place.
pub proof fn lemma_include_effect(
    session: Session,
    files: Seq<(Seq<char>, File)>,
    depth: nat,
    scope: Seq<Seq<char>>,
    directive: Tree,
)
    requires
        directive.rule == Rule::IncludeDirective,
        directive.parts.len() >= 1,
        depth >= 1,
    ensures
        ({
            let name = directive.parts[0].text;
            let (after, verdict) = session.processed(files, depth, scope, directive);
            match crate::sources::file_named(files, name) {
                None => {
                    &&& verdict == Err::<(), _>(IdlFault::FileNotFound(name))
                    &&& after.root == session.root
                    &&& after.included == session.included
                    &&& after.wanted == (if session.wanted is Some {
                        session.wanted
                    } else {
                        Some(name)
                    })
                },
                Some(file) => if session.included.contains(file.full_path) {
                    after == session && verdict is Ok
                } else {
                    let entered = Session {
                        root: session.root,
                        included: session.included.insert(file.full_path),
                        wanted: session.wanted,
                    };
                    match file.content {
                        Err(fault) => after == entered && verdict == Err::<(), _>(fault),
                        Ok(trees) => (after, verdict) == entered.processed_until_failure(
                            files,
                            (depth - 1) as nat,
                            scope,
                            trees,
                        ),
                    }
                },
            }
        }),
{
}

/// Whether a run of sessions processes a list of trees at the root, one at each step, whichever of
/// them fail.
pub open spec fn processes_in_steps(
    steps: Seq<Session>,
    files: Seq<(Seq<char>, File)>,
    trees: Seq<Tree>,
) -> bool {
    &&& steps.len() == trees.len() + 1
    &&& forall|i: int|
        0 <= i < trees.len() ==> steps[i + 1] == steps[i].processed(
            files,
            files.len(),
            Seq::empty(),
            #[trigger] trees[i],
        ).0
}

#[verifier::rlimit(40)]
proof fn lemma_processed_in_steps(
    session: Session,
    files: Seq<(Seq<char>, File)>,
    trees: Seq<Tree>,
) -> (steps: Seq<Session>)
    ensures
        processes_in_steps(steps, files, trees),
        steps[0] == session,
        steps.last() == session.each_processed(files, files.len(), Seq::empty(), trees),
    decreases trees.len(),
{
    if trees.len() == 0 {
        seq![session]
    } else {
        let front = trees.drop_last();
        let earlier = lemma_processed_in_steps(session, files, front);
        let steps = earlier.push(
            session.each_processed(files, files.len(), Seq::empty(), trees),
        );
        assert forall|i: int| 0 <= i < trees.len() implies steps[i + 1] == steps[i].processed(
            files,
            files.len(),
            Seq::empty(),
            #[trigger] trees[i],
        ).0 by {
            if i < front.len() {
                assert(front[i] == trees[i]);
                assert(steps[i] == earlier[i] && steps[i + 1] == earlier[i + 1]);
            } else {
                assert(steps[i] == earlier.last());
            }
        }
        steps
    }
}

/// Building begins with nothing declared and only the configured file read, and processes every
/// tree of that file. It ends with the root module, unless a file that is included is not listed.
/// There is no module if the configured file is not listed or has no trees.
pub proof fn lemma_built_in_steps(
    files: Seq<(Seq<char>, File)>,
    idl_file: Seq<char>,
) -> (steps: Seq<Session>)
    ensures
        match crate::sources::file_named(files, idl_file) {
            None => crate::generator::built(files, idl_file) == Ok::<_, IdlFault>(
                crate::generator::Stage::Load(idl_file),
            ),
            Some(file) => match file.content {
                Err(fault) => crate::generator::built(files, idl_file) == Err::<
                    crate::generator::Stage,
                    _,
                >(fault),
                Ok(trees) => {
                    &&& processes_in_steps(steps, files, trees)
                    &&& steps[0].root.types.len() == 0
                    &&& steps[0].root.constants.len() == 0
                    &&& steps[0].root.modules.len() == 0
                    &&& steps[0].root.id is None
                    &&& steps[0].wanted is None
                    &&& forall|path: Seq<char>| #[trigger]
                        steps[0].included.contains(path) <==> path == file.full_path
                    &&& crate::generator::built(files, idl_file) == Ok::<_, IdlFault>(
                        match steps.last().wanted {
                            Some(name) => crate::generator::Stage::Load(name),
                            None => crate::generator::Stage::Done(steps.last().root),
                        },
                    )
                },
            },
        },
{
    match crate::sources::file_named(files, idl_file) {
        Some(file) => match file.content {
            Ok(trees) => lemma_processed_in_steps(
                Session::started(file.full_path),
                files,
                trees,
            ),
            Err(_) => Seq::empty(),
        },
        None => Seq::empty(),
    }
}

/// Everything that the configured file declares, and everything that the files it includes
/// declare, is in what is built.
pub proof fn lemma_built_is_complete(
    files: Seq<(Seq<char>, File)>,
    idl_file: Seq<char>,
) -> (session: Session)
    requires
        crate::generator::built(files, idl_file) matches Ok(crate::generator::Stage::Done(_)),
    ensures
        crate::generator::built(files, idl_file) == Ok::<_, IdlFault>(
            crate::generator::Stage::Done(session.root),
        ),
        match crate::sources::file_named(files, idl_file) {
            Some(file) => match file.content {
                Ok(trees) => session.included.contains(file.full_path)
                    && crate::repetition::all_settled(session, files, Seq::empty(), trees),
                Err(_) => false,
            },
            None => false,
        },
{
    let file = crate::sources::file_named(files, idl_file)->0;
    let trees = file.content->Ok_0;
    let begun = Session::started(file.full_path);
    let session = begun.each_processed(files, files.len(), Seq::empty(), trees);
    crate::repetition::lemma_each_processed_is_settled(
        begun,
        files,
        files.len(),
        Seq::empty(),
        trees,
    );
    crate::process_laws::lemma_files_stay_read_each(
        begun,
        files,
        files.len(),
        Seq::empty(),
        trees,
    );
    assert(begun.included.contains(file.full_path));
    session
}

/// The parse trees of a file list exactly the matches that the parser reported, in order, and are
/// well formed; there is no other way to read the matches. Where they cannot be read so, that is
/// said, and the parser's own error is kept.
pub proof fn lemma_accepted_trees(entries: Seq<Entry>, trees: Seq<Tree>, fault: ParserFault)
    ensures
        crate::grammar::accepted(Ok(entries)) == Ok::<_, IdlFault>(trees) <==> crate::token::marks(
            entries,
        ) == crate::token::preorder(trees) && crate::tree::forest_wf(trees),
        crate::grammar::accepted(Ok(entries)) matches Err(found) ==> found
            == IdlFault::MalformedTree,
        crate::grammar::accepted(Err(fault)) == Err::<Seq<Tree>, _>(IdlFault::ParserError(fault)),
{
    crate::token::lemma_forest_preorder(entries);
    if crate::token::marks(entries) == crate::token::preorder(trees) {
        crate::token::lemma_preorder_forest(trees, entries);
    }
}

/// A file is known by the path it was loaded from; what it holds depends on its text alone. Under
/// another name it is the same file, and only that it was not found is said of the other name.
pub proof fn lemma_file_contents(
    path: Seq<char>,
    name: Seq<char>,
    text: Seq<char>,
    other_path: Seq<char>,
    other: Seq<char>,
)
    ensures
        crate::sources::file_of(path, name, Some(text)).full_path == path,
        crate::sources::file_of(path, name, None).full_path == path,
        crate::sources::file_of(path, name, Some(text)).content == crate::sources::file_of(
            other_path,
            other,
            Some(text),
        ).content,
        crate::sources::file_of(path, name, None).content == Err::<Seq<Tree>, _>(
            IdlFault::FileNotFound(name),
        ),
        crate::sources::alias_of(crate::sources::file_of(path, name, None), other)
            == crate::sources::file_of(path, other, None),
        crate::sources::file_of(path, name, Some(text)).content is Ok ==> crate::sources::alias_of(
            crate::sources::file_of(path, name, Some(text)),
            other,
        ) == crate::sources::file_of(path, other, Some(text)),
{
}

}
