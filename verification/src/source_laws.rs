//! What is listed once a file was fetched, and how a listed file is found.

use crate::error::IdlFault;
use crate::node::Tree;
use crate::sources::File;
use vstd::prelude::*;

verus! {

/// Whether a file is listed under `name`.
pub open spec fn name_listed(files: Seq<(Seq<char>, File)>, name: Seq<char>) -> bool {
    exists|i: int| 0 <= i < files.len() && (#[trigger] files[i]).0 == name
}

/// Whether a file with the full path `path` is listed.
pub open spec fn path_listed(files: Seq<(Seq<char>, File)>, path: Seq<char>) -> bool {
    exists|i: int| 0 <= i < files.len() && (#[trigger] files[i]).1.full_path == path
}

/// A file is found under a name exactly if one is listed under it, and where no name is listed
/// twice it is that file.
pub proof fn lemma_found_by_name(files: Seq<(Seq<char>, File)>, name: Seq<char>, k: int)
    ensures
        crate::sources::file_named(files, name) is Some <==> name_listed(files, name),
        0 <= k < files.len() && files[k].0 == name && (forall|i: int|
            0 <= i < k ==> (#[trigger] files[i]).0 != name) ==> crate::sources::file_named(
            files,
            name,
        ) == Some(files[k].1),
{
    if crate::table::has_key(files, name) {
        crate::table::lemma_place(files, name);
        if 0 <= k < files.len() && files[k].0 == name && (forall|i: int|
            0 <= i < k ==> (#[trigger] files[i]).0 != name) {
            assert(crate::table::is_first(files, name, k));
        }
    }
}

/// A file is loaded exactly if neither its name nor its path is listed.
pub proof fn lemma_load_is_needed(
    files: Seq<(Seq<char>, File)>,
    name: Seq<char>,
    path: Seq<char>,
)
    ensures
        crate::sources::needs_load(files, name, path) <==> !name_listed(files, name)
            && !path_listed(files, path),
{
    if path_listed(files, path) {
        let k = choose|k: int| 0 <= k < files.len() && (#[trigger] files[k]).1.full_path == path;
        let _ = lemma_first_path(files, path, k);
    }
}

proof fn lemma_first_path(files: Seq<(Seq<char>, File)>, path: Seq<char>, k: int) -> (first: int)
    requires
        0 <= k < files.len(),
        files[k].1.full_path == path,
    ensures
        crate::sources::is_first_at(files, path, first),
        first <= k,
    decreases k,
{
    if exists|j: int| 0 <= j < k && (#[trigger] files[j]).1.full_path == path {
        let j = choose|j: int| 0 <= j < k && (#[trigger] files[j]).1.full_path == path;
        lemma_first_path(files, path, j)
    } else {
        k
    }
}

/// Fetching a file whose name is listed changes nothing. Else one file is listed at the end,
/// under the name and with the path, and all others stay as they are.
pub proof fn lemma_fetch_lists_one(
    files: Seq<(Seq<char>, File)>,
    name: Seq<char>,
    path: Seq<char>,
    loaded: Option<Seq<char>>,
)
    ensures
        ({
            let after = crate::sources::after_fetch(files, name, path, loaded);
            if name_listed(files, name) {
                after == files
            } else {
                &&& after.len() == files.len() + 1
                &&& forall|i: int| 0 <= i < files.len() ==> after[i] == #[trigger] files[i]
                &&& after[files.len() as int].0 == name
                &&& after[files.len() as int].1.full_path == path
                &&& crate::sources::file_named(after, name) == Some(after[files.len() as int].1)
            }
        }),
{
    let after = crate::sources::after_fetch(files, name, path, loaded);
    lemma_load_is_needed(files, name, path);
    if !name_listed(files, name) {
        if path_listed(files, path) {
            let k = choose|k: int|
                0 <= k < files.len() && (#[trigger] files[k]).1.full_path == path;
            let first = lemma_first_path(files, path, k);
            assert(crate::sources::is_first_at(files, path, first));
        }
        lemma_found_by_name(after, name, files.len() as int);
    }
}

/// What is listed for a file whose path was not listed: that it was not found, or what its text
/// amounts to, whatever the file is called and wherever it is.
pub proof fn lemma_fetched_file(
    files: Seq<(Seq<char>, File)>,
    name: Seq<char>,
    path: Seq<char>,
    text: Seq<char>,
)
    requires
        !name_listed(files, name),
        !path_listed(files, path),
    ensures
        crate::sources::after_fetch(files, name, path, None).last().1.content == Err::<
            Seq<Tree>,
            _,
        >(IdlFault::FileNotFound(name)),
        crate::sources::after_fetch(files, name, path, Some(text)).last().1.content
            == crate::grammar::accepted(crate::grammar::idl_tokens(text)),
{
    lemma_load_is_needed(files, name, path);
}

/// What is listed for a file whose path is listed under another name: what is listed there. That
/// the file was not found is said of the name by which it is included.
pub proof fn lemma_fetched_again(
    files: Seq<(Seq<char>, File)>,
    name: Seq<char>,
    path: Seq<char>,
    loaded: Option<Seq<char>>,
    k: int,
)
    requires
        !name_listed(files, name),
        0 <= k < files.len(),
        files[k].1.full_path == path,
        forall|i: int| 0 <= i < k ==> (#[trigger] files[i]).1.full_path != path,
    ensures
        ({
            let content = crate::sources::after_fetch(files, name, path, loaded).last().1.content;
            match files[k].1.content {
                Err(IdlFault::FileNotFound(_)) => content == Err::<Seq<Tree>, _>(
                    IdlFault::FileNotFound(name),
                ),
                known => content == known,
            }
        }),
{
    lemma_load_is_needed(files, name, path);
    assert(crate::sources::is_first_at(files, path, k));
    assert forall|i: int| #[trigger] crate::sources::is_first_at(files, path, i) implies i == k by {
        if i < k {
            assert(files[i].1.full_path != path);
        }
        if k < i {
            assert(files[k].1.full_path != path);
        }
    }
}

}
