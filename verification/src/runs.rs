//! Fetching what is asked for, again and again, until there is a result.

use crate::context::Session;
use crate::error::IdlFault;
use crate::generator::Stage;
use crate::node::Tree;
use crate::rule::Rule;
use crate::sources::File;
use vstd::prelude::*;

verus! {

impl Tree {
    /// Whether every include directive in the tree gives one of `names`.
    pub open spec fn includes_only(self, names: Set<Seq<char>>) -> bool
        decreases self,
    {
        &&& self.rule == Rule::IncludeDirective && self.parts.len() >= 1 ==> names.contains(
            self.parts[0].text,
        )
        &&& forall|i: int|
            0 <= i < self.parts.len() ==> (#[trigger] self.parts[i]).includes_only(names)
    }
}

/// Whether every include directive in a list of trees gives one of `names`.
pub open spec fn forest_includes_only(trees: Seq<Tree>, names: Set<Seq<char>>) -> bool {
    forall|i: int| 0 <= i < trees.len() ==> (#[trigger] trees[i]).includes_only(names)
}

/// Whether every include directive in a file gives one of `names`.
pub open spec fn content_includes_only(
    content: Result<Seq<Tree>, IdlFault>,
    names: Set<Seq<char>>,
) -> bool {
    content matches Ok(trees) ==> forest_includes_only(trees, names)
}

/// Whether every include directive in all files gives one of `names`.
pub open spec fn files_include_only(
    files: Seq<(Seq<char>, File)>,
    names: Set<Seq<char>>,
) -> bool {
    forall|i: int|
        0 <= i < files.len() ==> content_includes_only((#[trigger] files[i]).1.content, names)
}

/// The file that has to be fetched.
pub open spec fn requested(files: Seq<(Seq<char>, File)>, idl_file: Seq<char>) -> Seq<char> {
    crate::generator::built(files, idl_file)->Ok_0->Load_0
}

/// A run from no file at all: at each step a file is asked for and fetched. `states[i]` is
/// what is listed at step `i`, `paths[i]` the full path of the file that is fetched then, and
/// `loaded[i]` its text, or `None` if it cannot be loaded.
pub open spec fn run(
    idl_file: Seq<char>,
    states: Seq<Seq<(Seq<char>, File)>>,
    paths: Seq<Seq<char>>,
    loaded: Seq<Option<Seq<char>>>,
) -> bool {
    &&& states.len() == paths.len() + 1
    &&& loaded.len() == paths.len()
    &&& states[0] == Seq::<(Seq<char>, File)>::empty()
    &&& forall|i: int|
        0 <= i < paths.len() ==> {
            &&& crate::generator::built(#[trigger] states[i], idl_file) matches Ok(Stage::Load(_))
            &&& states[i + 1] == crate::sources::after_fetch(
                states[i],
                requested(states[i], idl_file),
                paths[i],
                loaded[i],
            )
        }
}

/// Whether every include directive in the texts that were loaded gives one of `names`.
pub open spec fn texts_include_only(
    loaded: Seq<Option<Seq<char>>>,
    names: Set<Seq<char>>,
) -> bool {
    forall|i: int|
        0 <= i < loaded.len() ==> (#[trigger] loaded[i] matches Some(text)
            ==> content_includes_only(
            crate::grammar::accepted(crate::grammar::idl_tokens(text)),
            names,
        ))
}

/// Whether nothing is wanted anew but one of `names`.
pub open spec fn wants_only(before: Session, after: Session, names: Set<Seq<char>>) -> bool {
    after.wanted == before.wanted || (after.wanted matches Some(name) && names.contains(name))
}

/// Only what include directives give is wanted.
pub proof fn lemma_wants_only(
    session: Session,
    files: Seq<(Seq<char>, File)>,
    depth: nat,
    scope: Seq<Seq<char>>,
    tree: Tree,
    names: Set<Seq<char>>,
)
    requires
        files_include_only(files, names),
        tree.includes_only(names),
    ensures
        wants_only(session, session.processed(files, depth, scope, tree).0, names),
    decreases depth, tree,
{
    match tree.rule {
        Rule::ModuleDcl => {
            if tree.parts.len() >= 1 {
                let inner = scope.push(tree.parts[0].text);
                let trees = tree.later_parts();
                assert forall|i: int| 0 <= i < trees.len() implies (
                #[trigger] trees[i]).includes_only(names) by {
                    assert(trees[i] == tree.parts[i + 1]);
                }
                lemma_wants_only_each(
                    session.with_module(inner),
                    files,
                    depth,
                    inner,
                    trees,
                    names,
                );
            }
        },
        Rule::StructDef | Rule::UnionDef | Rule::EnumDcl | Rule::ConstDcl => {},
        Rule::TypeDeclarator => {
            if let Ok(type_spec) = tree.parts[0].type_spec() {
                crate::wanting::lemma_declared_wants_nothing(
                    session,
                    scope,
                    tree.parts[1].parts,
                    type_spec,
                );
            }
        },
        Rule::IncludeDirective => {
            if tree.parts.len() >= 1 {
                let name = tree.parts[0].text;
                if let Some(file) = crate::sources::file_named(files, name) {
                    crate::table::lemma_place(files, name);
                    assert(content_includes_only(file.content, names));
                    if let Ok(trees) = file.content {
                        if depth > 0 {
                            lemma_wants_only_until(
                                session.with_file(file.full_path),
                                files,
                                (depth - 1) as nat,
                                scope,
                                trees,
                                names,
                            );
                        }
                    }
                }
            }
        },
        _ => {
            lemma_wants_only_each(session, files, depth, scope, tree.parts, names);
        },
    }
}

/// [`lemma_wants_only`] of a list of trees.
pub proof fn lemma_wants_only_each(
    session: Session,
    files: Seq<(Seq<char>, File)>,
    depth: nat,
    scope: Seq<Seq<char>>,
    trees: Seq<Tree>,
    names: Set<Seq<char>>,
)
    requires
        files_include_only(files, names),
        forest_includes_only(trees, names),
    ensures
        wants_only(session, session.each_processed(files, depth, scope, trees), names),
    decreases depth, trees,
{
    if trees.len() > 0 {
        let front = trees.drop_last();
        let last = trees[trees.len() - 1];
        assert forall|i: int| 0 <= i < front.len() implies (#[trigger] front[i]).includes_only(
            names,
        ) by {
            assert(front[i] == trees[i]);
        }
        lemma_wants_only_each(session, files, depth, scope, front, names);
        lemma_wants_only(
            session.each_processed(files, depth, scope, front),
            files,
            depth,
            scope,
            last,
            names,
        );
    }
}

proof fn lemma_wants_only_until(
    session: Session,
    files: Seq<(Seq<char>, File)>,
    depth: nat,
    scope: Seq<Seq<char>>,
    trees: Seq<Tree>,
    names: Set<Seq<char>>,
)
    requires
        files_include_only(files, names),
        forest_includes_only(trees, names),
    ensures
        wants_only(
            session,
            session.processed_until_failure(files, depth, scope, trees).0,
            names,
        ),
    decreases depth, trees,
{
    if trees.len() > 0 {
        let front = trees.drop_last();
        let last = trees[trees.len() - 1];
        assert forall|i: int| 0 <= i < front.len() implies (#[trigger] front[i]).includes_only(
            names,
        ) by {
            assert(front[i] == trees[i]);
        }
        lemma_wants_only_until(session, files, depth, scope, front, names);
        let (so_far, r) = session.processed_until_failure(files, depth, scope, front);
        if r is Ok {
            lemma_wants_only(so_far, files, depth, scope, last, names);
        }
    }
}

/// A file is asked for only if it is the configured one or a file that is listed includes it.
pub proof fn lemma_requested_is_included(
    files: Seq<(Seq<char>, File)>,
    idl_file: Seq<char>,
    names: Set<Seq<char>>,
)
    requires
        files_include_only(files, names),
        crate::generator::built(files, idl_file) matches Ok(Stage::Load(_)),
    ensures
        names.insert(idl_file).contains(requested(files, idl_file)),
{
    if let Some(file) = crate::sources::file_named(files, idl_file) {
        crate::table::lemma_place(files, idl_file);
        assert(content_includes_only(file.content, names));
        if let Ok(trees) = file.content {
            lemma_wants_only_each(
                Session::started(file.full_path),
                files,
                files.len(),
                Seq::empty(),
                trees,
                names,
            );
        }
    }
}

/// A step of a run lists one more file, under the name that was asked for.
proof fn lemma_step(
    idl_file: Seq<char>,
    states: Seq<Seq<(Seq<char>, File)>>,
    paths: Seq<Seq<char>>,
    loaded: Seq<Option<Seq<char>>>,
    i: int,
)
    requires
        run(idl_file, states, paths, loaded),
        0 <= i < paths.len(),
    ensures
        !crate::table::has_key(states[i], requested(states[i], idl_file)),
        states[i].is_prefix_of(states[i + 1]),
        states[i + 1].len() == states[i].len() + 1,
        states[i + 1].last().0 == requested(states[i], idl_file),
{
    assert(crate::generator::built(states[i], idl_file) matches Ok(Stage::Load(_)));
    crate::wanting::lemma_loads_are_needed(states[i], idl_file);
}

/// What is listed at one step of a run is listed at all later ones.
proof fn lemma_run_grows(
    idl_file: Seq<char>,
    states: Seq<Seq<(Seq<char>, File)>>,
    paths: Seq<Seq<char>>,
    loaded: Seq<Option<Seq<char>>>,
    i: int,
    j: int,
)
    requires
        run(idl_file, states, paths, loaded),
        0 <= i <= j <= paths.len(),
    ensures
        states[i].is_prefix_of(states[j]),
    decreases j - i,
{
    if i < j {
        lemma_run_grows(idl_file, states, paths, loaded, i, j - 1);
        lemma_step(idl_file, states, paths, loaded, j - 1);
        assert(states[i].is_prefix_of(states[j - 1]));
        assert(states[j - 1].is_prefix_of(states[j]));
        assert(states[i] =~= states[j].subrange(0, states[i].len() as int));
    }
}

/// In a run no file is asked for twice under one name.
pub proof fn lemma_no_name_requested_twice(
    idl_file: Seq<char>,
    states: Seq<Seq<(Seq<char>, File)>>,
    paths: Seq<Seq<char>>,
    loaded: Seq<Option<Seq<char>>>,
    i: int,
    j: int,
)
    requires
        run(idl_file, states, paths, loaded),
        0 <= i < j < paths.len(),
    ensures
        requested(states[i], idl_file) != requested(states[j], idl_file),
{
    lemma_step(idl_file, states, paths, loaded, i);
    lemma_step(idl_file, states, paths, loaded, j);
    lemma_run_grows(idl_file, states, paths, loaded, i + 1, j);
    let k = states[i].len() as int;
    assert(states[i + 1][k].0 == requested(states[i], idl_file));
    assert(states[j][k] == states[i + 1][k]);
}

/// In a run no path is loaded twice, under whatever names it comes up.
pub proof fn lemma_no_path_loaded_twice(
    idl_file: Seq<char>,
    states: Seq<Seq<(Seq<char>, File)>>,
    paths: Seq<Seq<char>>,
    loaded: Seq<Option<Seq<char>>>,
    i: int,
    j: int,
)
    requires
        run(idl_file, states, paths, loaded),
        0 <= i < j < paths.len(),
        crate::sources::needs_load(states[i], requested(states[i], idl_file), paths[i]),
        crate::sources::needs_load(states[j], requested(states[j], idl_file), paths[j]),
    ensures
        paths[i] != paths[j],
{
    let name = requested(states[i], idl_file);
    lemma_step(idl_file, states, paths, loaded, i);
    lemma_run_grows(idl_file, states, paths, loaded, i + 1, j);
    crate::sources::lemma_path_loaded_once(
        states[i],
        name,
        crate::sources::file_of(paths[i], name, loaded[i]),
        states[j],
        requested(states[j], idl_file),
    );
}

/// What is listed in a run includes only what the loaded texts include.
proof fn lemma_run_includes_only(
    idl_file: Seq<char>,
    states: Seq<Seq<(Seq<char>, File)>>,
    paths: Seq<Seq<char>>,
    loaded: Seq<Option<Seq<char>>>,
    names: Set<Seq<char>>,
    i: int,
)
    requires
        run(idl_file, states, paths, loaded),
        texts_include_only(loaded, names),
        0 <= i <= paths.len(),
    ensures
        files_include_only(states[i], names),
    decreases i,
{
    if i > 0 {
        let before = states[i - 1];
        let name = requested(before, idl_file);
        let path = paths[i - 1];
        lemma_run_includes_only(idl_file, states, paths, loaded, names, i - 1);
        lemma_step(idl_file, states, paths, loaded, i - 1);
        assert(states[i] == crate::sources::after_fetch(before, name, path, loaded[i - 1]));
        assert forall|k: int| 0 <= k < states[i].len() implies content_includes_only(
            (#[trigger] states[i][k]).1.content,
            names,
        ) by {
            if k < before.len() {
                assert(states[i][k] == before[k]);
            } else if crate::sources::needs_load(before, name, path) {
                assert(states[i][k].1 == crate::sources::file_of(path, name, loaded[i - 1]));
            } else {
                let n = choose|n: int| #[trigger] crate::sources::is_first_at(before, path, n);
                assert(crate::sources::is_first_at(before, path, n));
                assert(content_includes_only(before[n].1.content, names));
                assert(states[i][k].1 == crate::sources::alias_of(before[n].1, name));
            }
        }
    }
}

/// Every run ends. Where the texts that are loaded include finitely many names, a run has no
/// more steps than there are such names, and one for the configured file.
pub proof fn lemma_runs_end(
    idl_file: Seq<char>,
    states: Seq<Seq<(Seq<char>, File)>>,
    paths: Seq<Seq<char>>,
    loaded: Seq<Option<Seq<char>>>,
    names: Set<Seq<char>>,
)
    requires
        run(idl_file, states, paths, loaded),
        texts_include_only(loaded, names),
        names.finite(),
    ensures
        paths.len() <= names.len() + 1,
{
    let asked = Seq::new(paths.len(), |i: int| requested(states[i], idl_file));
    assert forall|i: int, j: int| 0 <= i < asked.len() && 0 <= j < asked.len() && i != j implies
        asked[i] != asked[j] by {
        if i < j {
            lemma_no_name_requested_twice(idl_file, states, paths, loaded, i, j);
        } else {
            lemma_no_name_requested_twice(idl_file, states, paths, loaded, j, i);
        }
    }
    assert(asked.no_duplicates());
    asked.unique_seq_to_set();
    let allowed = names.insert(idl_file);
    assert forall|name: Seq<char>| asked.to_set().contains(name) implies allowed.contains(
        name,
    ) by {
        let i = asked.index_of(name);
        assert(asked[i] == name);
        lemma_run_includes_only(idl_file, states, paths, loaded, names, i);
        assert(crate::generator::built(states[i], idl_file) matches Ok(Stage::Load(_)));
        lemma_requested_is_included(states[i], idl_file, names);
    }
    vstd::set_lib::lemma_len_subset(asked.to_set(), allowed);
}

}
