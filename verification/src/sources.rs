//! The files that a file includes, directly or not, and what was found in them.

use crate::error::{IdlError, IdlFault};
use crate::grammar::parse_idl;
use crate::node::{Node, Tree};
use crate::table::{find_key, or_insert};
use crate::text::same_text;
use crate::tree::clone_nodes;
use vstd::prelude::*;

verus! {

broadcast use crate::node::group_node_model;

/// Declares `std::io::Error`, which a loader returns. Nothing is said of its contents.
#[verifier::external_type_specification]
#[verifier::external_body]
pub struct ExIoError(std::io::Error);

/// All IDL Loader must be capable of reading data into the system
pub trait IdlLoader {
    /// Reads the requested file.
    fn load(&self, filename: &str) -> Result<String, std::io::Error>;
}

/// Object used to input the request IDL file into the library.
#[derive(Debug, Default)]
pub struct Loader {
    pub search_path: String,
}

impl Loader {
    /// A loader of the files under `search_path`.
    pub fn new(search_path: &str) -> (loader: Self)
        ensures
            loader.search_path@ == search_path@,
    {
        Self { search_path: search_path.to_owned() }
    }
}

/// A file: the path that identifies it, and its parse trees or why there are none.
#[derive(Debug)]
pub struct Source {
    pub full_path: String,
    pub content: Result<Vec<Node>, IdlError>,
}

/// The model of a [`Source`].
#[verifier::ext_equal]
pub struct File {
    pub full_path: Seq<char>,
    pub content: Result<Seq<Tree>, IdlFault>,
}

impl View for Source {
    type V = File;

    open spec fn view(&self) -> File {
        File {
            full_path: self.full_path@,
            content: crate::grammar::forest_outcome(self.content),
        }
    }
}

/// Files, each under the name by which it is included.
#[derive(Debug)]
pub struct Sources {
    pub files: Vec<(String, Source)>,
}

impl View for Sources {
    type V = Seq<(Seq<char>, File)>;

    open spec fn view(&self) -> Seq<(Seq<char>, File)> {
        crate::table::entry_models(self.files@)
    }
}

/// Whether the parse trees of a file are well formed and can be processed. There are none only
/// if the file was not found or is not IDL.
pub open spec fn content_wf(content: Result<Seq<Tree>, IdlFault>) -> bool {
    match content {
        Ok(trees) => crate::tree::forest_wf(trees) && crate::tree::forest_processable(trees),
        Err(fault) => fault !is MalformedTree,
    }
}

/// Whether this holds of all files.
pub open spec fn files_wf(files: Seq<(Seq<char>, File)>) -> bool {
    forall|i: int| 0 <= i < files.len() ==> content_wf((#[trigger] files[i]).1.content)
}

/// The file that is included under `name`.
pub open spec fn file_named(files: Seq<(Seq<char>, File)>, name: Seq<char>) -> Option<File> {
    if crate::table::has_key(files, name) {
        Some(files[crate::table::place(files, name)].1)
    } else {
        None
    }
}

/// Whether the first file with the full path `path` stands at `i`.
pub open spec fn is_first_at(
    files: Seq<(Seq<char>, File)>,
    path: Seq<char>,
    i: int,
) -> bool {
    &&& 0 <= i < files.len()
    &&& files[i].1.full_path == path
    &&& forall|j: int| 0 <= j < i ==> (#[trigger] files[j]).1.full_path != path
}

/// Whether a file with the full path `path` is listed, under whatever name.
pub open spec fn lists_path(files: Seq<(Seq<char>, File)>, path: Seq<char>) -> bool {
    exists|i: int| #[trigger] is_first_at(files, path, i)
}

/// The first file with the full path `path`.
pub open spec fn file_at(files: Seq<(Seq<char>, File)>, path: Seq<char>) -> File {
    files[choose|i: int| #[trigger] is_first_at(files, path, i)].1
}

/// A file as it is found under another name. That it was not found is said of that name.
pub open spec fn alias_of(file: File, name: Seq<char>) -> File {
    File {
        full_path: file.full_path,
        content: match file.content {
            Err(IdlFault::FileNotFound(_)) => Err(IdlFault::FileNotFound(name)),
            content => content,
        },
    }
}

/// Whether the file called `name` has to be loaded: neither its name nor its full path is
/// listed.
pub open spec fn needs_load(
    files: Seq<(Seq<char>, File)>,
    name: Seq<char>,
    path: Seq<char>,
) -> bool {
    !crate::table::has_key(files, name) && !lists_path(files, path)
}

/// The files with one listed under `name` that need not be loaded.
pub open spec fn listed_again(
    files: Seq<(Seq<char>, File)>,
    name: Seq<char>,
    path: Seq<char>,
) -> Seq<(Seq<char>, File)> {
    crate::table::or_inserted(files, name, alias_of(file_at(files, path), name))
}

/// The file that comes of loading: the parse trees of its text, or why there are none.
pub open spec fn file_of(
    path: Seq<char>,
    name: Seq<char>,
    loaded: Option<Seq<char>>,
) -> File {
    File {
        full_path: path,
        content: match loaded {
            Some(text) => crate::grammar::accepted(crate::grammar::idl_tokens(text)),
            None => Err(IdlFault::FileNotFound(name)),
        },
    }
}

/// What is listed once the file called `name` with the full path `path` was fetched, where
/// loading it, if that is needed, gives `loaded`.
pub open spec fn after_fetch(
    files: Seq<(Seq<char>, File)>,
    name: Seq<char>,
    path: Seq<char>,
    loaded: Option<Seq<char>>,
) -> Seq<(Seq<char>, File)> {
    if needs_load(files, name, path) {
        files.push((name, file_of(path, name, loaded)))
    } else {
        listed_again(files, name, path)
    }
}

impl Sources {
    /// No file.
    pub fn new() -> (sources: Self)
        ensures
            sources@ == Seq::<(Seq<char>, File)>::empty(),
            sources.wf(),
    {
        let sources = Sources { files: Vec::new() };
        assert(sources@ =~= Seq::<(Seq<char>, File)>::empty());
        sources
    }

    /// Whether each name is listed once, with parse trees that can be processed.
    pub open spec fn wf(&self) -> bool {
        &&& crate::table::distinct_keys(self@)
        &&& files_wf(self@)
    }

    /// Finds the file that is included under `name`.
    pub fn find(&self, name: &str) -> (file: Option<&Source>)
        ensures
            match file {
                Some(source) => file_named(self@, name@) == Some(source@),
                None => file_named(self@, name@) is None,
            },
    {
        let ghost files = self@;
        match find_key(&self.files, name) {
            Some(i) => {
                proof {
                    assert(files[i as int].0 == name@);
                    assert forall|j: int| 0 <= j < i implies (#[trigger] files[j]).0 != name@ by {
                        assert(self.files@[j].0@ != name@);
                    }
                    assert(crate::table::is_first(files, name@, i as int));
                    crate::table::lemma_place(files, name@);
                }
                Some(&self.files[i].1)
            },
            None => {
                proof {
                    assert forall|j: int| 0 <= j < files.len() implies (#[trigger] files[j]).0
                        != name@ by {
                        assert(self.files@[j].0@ != name@);
                    }
                }
                None
            },
        }
    }

    /// Lists a file under `name`, unless one is listed under it.
    pub fn record(&mut self, name: String, full_path: String, content: Result<Vec<Node>, IdlError>)
        ensures
            final(self)@ == crate::table::or_inserted(
                old(self)@,
                name@,
                (File {
                    full_path: full_path@,
                    content: crate::grammar::forest_outcome(content),
                }),
            ),
            old(self).wf() && content_wf(crate::grammar::forest_outcome(content))
                ==> final(self).wf(),
    {
        let source = Source { full_path, content };
        or_insert(&mut self.files, name, source);
    }

    /// Lists the file that is included under `name`, unless one is listed under it: its parse
    /// trees if `loaded` is its text, and that it was not found if there is none.
    pub fn record_loaded(&mut self, name: String, full_path: String, loaded: Option<String>)
        ensures
            final(self)@ == crate::table::or_inserted(
                old(self)@,
                name@,
                file_of(full_path@, name@, crate::ast::optional_text(loaded)),
            ),
            old(self).wf() ==> final(self).wf(),
    {
        let content = match loaded {
            Some(text) => parse_idl(text.as_str()),
            None => Err(IdlError::FileNotFound(name.clone())),
        };
        self.record(name, full_path, content);
    }

    /// Finds the first file with the full path `path`.
    pub fn find_path(&self, path: &str) -> (found: Option<&Source>)
        ensures
            match found {
                Some(source) => lists_path(self@, path@) && source@ == file_at(self@, path@),
                None => !lists_path(self@, path@),
            },
    {
        let ghost files = self@;
        let mut i: usize = 0;
        while i < self.files.len()
            invariant
                i <= self.files@.len(),
                files == self@,
                forall|j: int| 0 <= j < i ==> (#[trigger] files[j]).1.full_path != path@,
            decreases self.files@.len() - i,
        {
            assert(files[i as int].1 == self.files@[i as int].1@);
            if same_text(self.files[i].1.full_path.as_str(), path) {
                assert(is_first_at(files, path@, i as int));
                return Some(&self.files[i].1);
            }
            i = i + 1;
        }
        None
    }

    /// Lists the file that is included under `name` and has the full path `full_path`, unless
    /// a file is listed under that name. It is loaded if no file with that path is listed, and
    /// else what came of loading that one is listed again.
    pub fn fetch<L: IdlLoader>(&mut self, loader: &L, name: &str, full_path: String)
        ensures
            !needs_load(old(self)@, name@, full_path@) ==> final(self)@ == listed_again(
                old(self)@,
                name@,
                full_path@,
            ),
            needs_load(old(self)@, name@, full_path@) ==> exists|
                loaded: Result<String, std::io::Error>,
            |
                {
                    &&& #[trigger] call_ensures(L::load, (loader, name), loaded)
                    &&& final(self)@ == after_fetch(
                        old(self)@,
                        name@,
                        full_path@,
                        match loaded {
                            Ok(text) => Some(text@),
                            Err(_) => None,
                        },
                    )
                },
            old(self)@.is_prefix_of(final(self)@),
            crate::table::has_key(final(self)@, name@),
            old(self).wf() ==> final(self).wf(),
    {
        let ghost files = self@;
        if self.find(name).is_some() {
            return;
        }
        let known = match self.find_path(full_path.as_str()) {
            Some(source) => Some(
                match &source.content {
                    Ok(nodes) => Ok(clone_nodes(nodes)),
                    Err(IdlError::FileNotFound(_)) => Err(
                        IdlError::FileNotFound(name.to_owned()),
                    ),
                    Err(error) => Err(error.clone()),
                },
            ),
            None => None,
        };
        match known {
            Some(content) => {
                self.record(name.to_owned(), full_path, content);
            },
            None => match loader.load(name) {
                Ok(text) => {
                    self.record_loaded(name.to_owned(), full_path, Some(text));
                },
                Err(_) => {
                    self.record_loaded(name.to_owned(), full_path, None);
                },
            },
        }
        assert(self@.last().0 == name@);
    }
}

/// A path that was loaded is not loaded again, whatever is listed meanwhile and under whatever
/// name it comes up.
pub proof fn lemma_path_loaded_once(
    files: Seq<(Seq<char>, File)>,
    name: Seq<char>,
    file: File,
    more: Seq<(Seq<char>, File)>,
    other: Seq<char>,
)
    requires
        needs_load(files, name, file.full_path),
        files.push((name, file)).is_prefix_of(more),
    ensures
        !needs_load(more, other, file.full_path),
{
    let after = files.push((name, file));
    assert(more[files.len() as int] == after[files.len() as int]);
    lemma_path_listed(more, file.full_path, files.len() as int);
}

/// A path that occurs has a first place.
proof fn lemma_path_listed(files: Seq<(Seq<char>, File)>, path: Seq<char>, i: int)
    requires
        0 <= i < files.len(),
        files[i].1.full_path == path,
    ensures
        lists_path(files, path),
    decreases i,
{
    if exists|j: int| 0 <= j < i && (#[trigger] files[j]).1.full_path == path {
        let j = choose|j: int| 0 <= j < i && (#[trigger] files[j]).1.full_path == path;
        lemma_path_listed(files, path, j);
    } else {
        assert(is_first_at(files, path, i));
    }
}

}
