//! Which files are wanted.

use crate::ast::TypeSpec;
use crate::context::Session;
use crate::error::IdlFault;
use crate::generator::Stage;
use crate::node::Tree;
use crate::rule::Rule;
use crate::sources::File;
use vstd::prelude::*;

verus! {

/// Whether nothing is wanted in place of the file that was wanted first, and a file that is
/// wanted first is not listed.
pub open spec fn wanted_once(
    before: Session,
    after: Session,
    files: Seq<(Seq<char>, File)>,
) -> bool {
    &&& before.wanted is Some ==> after.wanted == before.wanted
    &&& before.wanted is None ==> (after.wanted matches Some(name) ==> !crate::table::has_key(
        files,
        name,
    ))
}

/// Declaring the names of a `typedef` wants no file.
pub proof fn lemma_declared_wants_nothing(
    session: Session,
    scope: Seq<Seq<char>>,
    declarators: Seq<Tree>,
    type_spec: TypeSpec,
)
    ensures
        session.all_declared(scope, declarators, type_spec).wanted == session.wanted,
    decreases declarators.len(),
{
    if declarators.len() > 0 {
        lemma_declared_wants_nothing(session, scope, declarators.drop_last(), type_spec);
    }
}

/// The file that is wanted first stays the one that is wanted, and it is not listed.
pub proof fn lemma_wanted_stays(
    session: Session,
    files: Seq<(Seq<char>, File)>,
    depth: nat,
    scope: Seq<Seq<char>>,
    tree: Tree,
)
    ensures
        wanted_once(session, session.processed(files, depth, scope, tree).0, files),
    decreases depth, tree,
{
    match tree.rule {
        Rule::ModuleDcl => {
            if tree.parts.len() >= 1 {
                let inner = scope.push(tree.parts[0].text);
                lemma_wanted_stays_each(
                    session.with_module(inner),
                    files,
                    depth,
                    inner,
                    tree.later_parts(),
                );
            }
        },
        Rule::StructDef | Rule::UnionDef | Rule::EnumDcl | Rule::ConstDcl => {},
        Rule::TypeDeclarator => {
            if let Ok(type_spec) = tree.parts[0].type_spec() {
                lemma_declared_wants_nothing(session, scope, tree.parts[1].parts, type_spec);
            }
        },
        Rule::IncludeDirective => {
            if tree.parts.len() >= 1 {
                if let Some(file) = crate::sources::file_named(files, tree.parts[0].text) {
                    if let Ok(trees) = file.content {
                        if depth > 0 {
                            lemma_wanted_stays_until(
                                session.with_file(file.full_path),
                                files,
                                (depth - 1) as nat,
                                scope,
                                trees,
                            );
                        }
                    }
                }
            }
        },
        _ => {
            lemma_wanted_stays_each(session, files, depth, scope, tree.parts);
        },
    }
}

/// [`lemma_wanted_stays`] of a list of trees.
pub proof fn lemma_wanted_stays_each(
    session: Session,
    files: Seq<(Seq<char>, File)>,
    depth: nat,
    scope: Seq<Seq<char>>,
    trees: Seq<Tree>,
)
    ensures
        wanted_once(session, session.each_processed(files, depth, scope, trees), files),
    decreases depth, trees,
{
    if trees.len() > 0 {
        let so_far = session.each_processed(files, depth, scope, trees.drop_last());
        lemma_wanted_stays_each(session, files, depth, scope, trees.drop_last());
        lemma_wanted_stays(so_far, files, depth, scope, trees.last());
    }
}

proof fn lemma_wanted_stays_until(
    session: Session,
    files: Seq<(Seq<char>, File)>,
    depth: nat,
    scope: Seq<Seq<char>>,
    trees: Seq<Tree>,
)
    ensures
        wanted_once(
            session,
            session.processed_until_failure(files, depth, scope, trees).0,
            files,
        ),
    decreases depth, trees,
{
    if trees.len() > 0 {
        let (so_far, r) = session.processed_until_failure(files, depth, scope, trees.drop_last());
        lemma_wanted_stays_until(session, files, depth, scope, trees.drop_last());
        if r is Ok {
            lemma_wanted_stays(so_far, files, depth, scope, trees.last());
        }
    }
}

/// Whether two ways of going on from where nothing was wanted agree: they are the same as long
/// as nothing is wanted, and else want the same file, unless `more` lists it.
pub open spec fn agree(
    one: (Session, Result<(), IdlFault>),
    other: (Session, Result<(), IdlFault>),
    more: Seq<(Seq<char>, File)>,
) -> bool {
    match one.0.wanted {
        None => other == one,
        Some(name) => !crate::table::has_key(more, name) ==> other.0.wanted == Some(name),
    }
}

/// A file that is listed among the first is found whatever follows.
proof fn lemma_listed_first(
    files: Seq<(Seq<char>, File)>,
    more: Seq<(Seq<char>, File)>,
    name: Seq<char>,
)
    requires
        crate::table::has_key(files, name),
        files.is_prefix_of(more),
    ensures
        crate::sources::file_named(files, name) == crate::sources::file_named(more, name),
{
    crate::table::lemma_place(files, name);
    let k = crate::table::place(files, name);
    assert forall|j: int| 0 <= j < files.len() implies more[j] == #[trigger] files[j] by {}
    assert(more[k].0 == name);
    assert forall|j: int| 0 <= j < k implies (#[trigger] more[j]).0 != name by {
        assert(more[j] == files[j]);
    }
    assert(crate::table::is_first(more, name, k));
    crate::table::lemma_place(more, name);
}

/// Listing further files changes nothing of what is processed, up to the first file that is
/// wanted; and that file stays wanted until it is listed.
pub proof fn lemma_more_files_agree(
    session: Session,
    files: Seq<(Seq<char>, File)>,
    more: Seq<(Seq<char>, File)>,
    depth: nat,
    scope: Seq<Seq<char>>,
    tree: Tree,
)
    requires
        session.wanted is None,
        files.is_prefix_of(more),
    ensures
        agree(
            session.processed(files, depth, scope, tree),
            session.processed(more, depth, scope, tree),
            more,
        ),
    decreases depth, tree,
{
    match tree.rule {
        Rule::ModuleDcl => {
            if tree.parts.len() >= 1 {
                let inner = scope.push(tree.parts[0].text);
                lemma_more_files_agree_each(
                    session.with_module(inner),
                    files,
                    more,
                    depth,
                    inner,
                    tree.later_parts(),
                );
            }
        },
        Rule::StructDef | Rule::UnionDef | Rule::EnumDcl | Rule::ConstDcl => {},
        Rule::TypeDeclarator => {
            if let Ok(type_spec) = tree.parts[0].type_spec() {
                lemma_declared_wants_nothing(session, scope, tree.parts[1].parts, type_spec);
            }
        },
        Rule::IncludeDirective => {
            if tree.parts.len() >= 1 {
                let name = tree.parts[0].text;
                if crate::table::has_key(files, name) {
                    lemma_listed_first(files, more, name);
                    let file = crate::sources::file_named(files, name)->0;
                    if let Ok(trees) = file.content {
                        if depth > 0 {
                            lemma_more_files_agree_until(
                                session.with_file(file.full_path),
                                files,
                                more,
                                (depth - 1) as nat,
                                scope,
                                trees,
                            );
                        }
                    }
                }
            }
        },
        _ => {
            lemma_more_files_agree_each(session, files, more, depth, scope, tree.parts);
        },
    }
}

/// [`lemma_more_files_agree`] of a list of trees.
pub proof fn lemma_more_files_agree_each(
    session: Session,
    files: Seq<(Seq<char>, File)>,
    more: Seq<(Seq<char>, File)>,
    depth: nat,
    scope: Seq<Seq<char>>,
    trees: Seq<Tree>,
)
    requires
        session.wanted is None,
        files.is_prefix_of(more),
    ensures
        agree(
            (session.each_processed(files, depth, scope, trees), Ok(())),
            (session.each_processed(more, depth, scope, trees), Ok(())),
            more,
        ),
    decreases depth, trees,
{
    if trees.len() > 0 {
        let front = trees.drop_last();
        let one = session.each_processed(files, depth, scope, front);
        let other = session.each_processed(more, depth, scope, front);
        lemma_more_files_agree_each(session, files, more, depth, scope, front);
        lemma_wanted_stays(one, files, depth, scope, trees.last());
        lemma_wanted_stays(other, more, depth, scope, trees.last());
        if one.wanted is None {
            lemma_more_files_agree(one, files, more, depth, scope, trees.last());
        }
    }
}

proof fn lemma_more_files_agree_until(
    session: Session,
    files: Seq<(Seq<char>, File)>,
    more: Seq<(Seq<char>, File)>,
    depth: nat,
    scope: Seq<Seq<char>>,
    trees: Seq<Tree>,
)
    requires
        session.wanted is None,
        files.is_prefix_of(more),
    ensures
        agree(
            session.processed_until_failure(files, depth, scope, trees),
            session.processed_until_failure(more, depth, scope, trees),
            more,
        ),
    decreases depth, trees,
{
    if trees.len() > 0 {
        let front = trees.drop_last();
        let one = session.processed_until_failure(files, depth, scope, front);
        let other = session.processed_until_failure(more, depth, scope, front);
        lemma_more_files_agree_until(session, files, more, depth, scope, front);
        lemma_wanted_stays(one.0, files, depth, scope, trees.last());
        lemma_wanted_stays(other.0, more, depth, scope, trees.last());
        if one.0.wanted is None && one.1 is Ok {
            lemma_more_files_agree(one.0, files, more, depth, scope, trees.last());
        }
    }
}

/// The configured file has to be loaded before any other.
pub proof fn lemma_configured_file_first(files: Seq<(Seq<char>, File)>, idl_file: Seq<char>)
    requires
        !crate::table::has_key(files, idl_file),
    ensures
        crate::generator::built(files, idl_file) == Ok::<_, IdlFault>(Stage::Load(idl_file)),
{
}

/// A file that has to be loaded is not listed yet.
pub proof fn lemma_loads_are_needed(files: Seq<(Seq<char>, File)>, idl_file: Seq<char>)
    ensures
        crate::generator::built(files, idl_file) matches Ok(Stage::Load(name))
            ==> !crate::table::has_key(files, name),
{
    if let Some(file) = crate::sources::file_named(files, idl_file) {
        if let Ok(trees) = file.content {
            lemma_wanted_stays_each(
                Session::started(file.full_path),
                files,
                files.len(),
                Seq::empty(),
                trees,
            );
        }
    }
}

/// What was built stays the same when further files are listed. A file that has to be loaded
/// has to be loaded until it is listed, whatever else is listed.
pub proof fn lemma_built_with_more_files(
    files: Seq<(Seq<char>, File)>,
    more: Seq<(Seq<char>, File)>,
    idl_file: Seq<char>,
)
    requires
        files.is_prefix_of(more),
    ensures
        match crate::generator::built(files, idl_file) {
            Ok(Stage::Load(name)) => !crate::table::has_key(more, name)
                ==> crate::generator::built(more, idl_file) == Ok::<_, IdlFault>(
                Stage::Load(name),
            ),
            _ => crate::generator::built(more, idl_file) == crate::generator::built(
                files,
                idl_file,
            ),
        },
{
    if crate::table::has_key(files, idl_file) {
        lemma_listed_first(files, more, idl_file);
        let file = crate::sources::file_named(files, idl_file)->0;
        if let Ok(trees) = file.content {
            let begun = Session::started(file.full_path);
            lemma_more_files_agree_each(begun, files, more, more.len(), Seq::empty(), trees);
            crate::processing::lemma_unread_subset(files, begun.included, begun.included);
            crate::process_laws::lemma_depth_is_enough_each(
                begun,
                files,
                files.len(),
                more.len(),
                Seq::empty(),
                trees,
            );
        }
    }
}

/// Building fails exactly when the configured file was not found or is not IDL. Nothing else
/// makes it fail: neither a declaration that cannot be read nor an included file.
pub proof fn lemma_building_fails(files: Seq<(Seq<char>, File)>, idl_file: Seq<char>)
    ensures
        crate::generator::built(files, idl_file) is Err <==> (crate::sources::file_named(
            files,
            idl_file,
        ) matches Some(file) && file.content is Err),
{
}

}
