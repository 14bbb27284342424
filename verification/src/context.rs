//! The modules built so far, and the files they were built from.

use crate::ast::{ConstDcl, IdlConstDcl, IdlTypeDcl, TypeDcl};
use crate::config::Configuration;
use crate::module::{IdlModule, Module};
use crate::table::or_insert;
use crate::text::same_text;
use vstd::prelude::*;

verus! {

/// The names of the modules that enclose a declaration, the outermost first.
pub type Scope = Vec<String>;

/// The configuration, the root module, the files that were already read, and the first file
/// that is included but not at hand.
#[derive(Debug)]
pub struct Context<'i> {
    pub config: &'i Configuration,
    pub root_module: IdlModule,
    pub included_files: Vec<String>,
    pub wanted: Option<String>,
}

/// The model of a [`Context`], apart from its configuration.
#[verifier::ext_equal]
pub struct Session {
    pub root: Module,
    pub included: Set<Seq<char>>,
    pub wanted: Option<Seq<char>>,
}

impl<'i> View for Context<'i> {
    type V = Session;

    open spec fn view(&self) -> Session {
        Session {
            root: self.root_module@,
            included: crate::text::texts(self.included_files@).to_set(),
            wanted: crate::ast::optional_text(self.wanted),
        }
    }
}

impl Session {
    /// A module is there at `scope`.
    pub open spec fn with_module(self, scope: Seq<Seq<char>>) -> Session {
        Session { root: self.root.replace(scope, self.root.select(scope)), ..self }
    }

    /// A type is declared in the module at `scope`.
    pub open spec fn with_type(
        self,
        scope: Seq<Seq<char>>,
        key: Seq<char>,
        type_dcl: TypeDcl,
    ) -> Session {
        Session {
            root: self.root.replace(scope, self.root.select(scope).add_type(key, type_dcl)),
            ..self
        }
    }

    /// A constant is declared in the module at `scope`.
    pub open spec fn with_const(
        self,
        scope: Seq<Seq<char>>,
        key: Seq<char>,
        const_dcl: ConstDcl,
    ) -> Session {
        Session {
            root: self.root.replace(scope, self.root.select(scope).add_const(key, const_dcl)),
            ..self
        }
    }

    /// A file was read.
    pub open spec fn with_file(self, path: Seq<char>) -> Session {
        Session { included: self.included.insert(path), ..self }
    }

    /// A file is included that is not at hand.
    pub open spec fn with_wanted(self, name: Seq<char>) -> Session {
        Session {
            wanted: match self.wanted {
                Some(first) => Some(first),
                None => Some(name),
            },
            ..self
        }
    }
}

impl<'i> Context<'i> {
    /// Starts with an empty root module and no file read.
    pub fn new(config: &'i Configuration) -> (context: Context<'i>)
        ensures
            context@ == (Session {
                root: Module::fresh(None),
                included: Set::empty(),
                wanted: None,
            }),
            context.config == config,
            context.wf(),
    {
        let context = Context {
            config,
            root_module: IdlModule::new(None),
            included_files: Vec::new(),
            wanted: None,
        };
        assert(context@.included =~= Set::empty());
        context
    }

    /// Whether the modules are well formed, and each file that was read is listed once.
    pub open spec fn wf(&self) -> bool {
        &&& self.root_module@.wf()
        &&& crate::text::texts(self.included_files@).no_duplicates()
    }

    /// Finds the module at `scope` under the root module, after creating it if it does not
    /// already exist.
    pub fn lookup_module(&mut self, scope: &Scope) -> (module: &mut IdlModule)
        ensures
            module@ == old(self)@.root.select(crate::text::texts(scope@)),
            final(self).root_module@ == old(self)@.root.replace(
                crate::text::texts(scope@),
                final(module)@,
            ),
            final(self).included_files == old(self).included_files,
            final(self).wanted == old(self).wanted,
            final(self).config == old(self).config,
    {
        assert(crate::text::texts(scope@).skip(0) =~= crate::text::texts(scope@));
        self.root_module.descend(scope, 0)
    }

    /// Adds a type to the module at `scope`, unless a type of that name is there.
    pub fn add_type_dcl(&mut self, scope: &Scope, key: String, type_dcl: IdlTypeDcl)
        ensures
            final(self)@ == old(self)@.with_type(crate::text::texts(scope@), key@, type_dcl@),
            old(self).wf() && key@ == type_dcl@.name() ==> final(self).wf(),
            final(self).included_files == old(self).included_files,
            final(self).config == old(self).config,
    {
        proof {
            if self.wf() && key@ == type_dcl@.name() {
                let path = crate::text::texts(scope@);
                let before = self@.root.select(path);
                crate::module::lemma_select_wf(self@.root, path);
                crate::module::lemma_add_type_wf(before, type_dcl@);
                crate::module::lemma_replace_wf(
                    self@.root,
                    path,
                    before.add_type(key@, type_dcl@),
                );
            }
        }
        let module = self.lookup_module(scope);
        or_insert(&mut module.types, key, type_dcl);
    }

    /// Adds a constant to the module at `scope`, unless a constant of that name is there.
    pub fn add_const_dcl(&mut self, scope: &Scope, key: String, const_dcl: IdlConstDcl)
        ensures
            final(self)@ == old(self)@.with_const(crate::text::texts(scope@), key@, const_dcl@),
            old(self).wf() && key@ == const_dcl@.id ==> final(self).wf(),
            final(self).included_files == old(self).included_files,
            final(self).config == old(self).config,
    {
        proof {
            if self.wf() && key@ == const_dcl@.id {
                let path = crate::text::texts(scope@);
                let before = self@.root.select(path);
                crate::module::lemma_select_wf(self@.root, path);
                crate::module::lemma_add_const_wf(before, const_dcl@);
                crate::module::lemma_replace_wf(
                    self@.root,
                    path,
                    before.add_const(key@, const_dcl@),
                );
            }
        }
        let module = self.lookup_module(scope);
        or_insert(&mut module.constants, key, const_dcl);
    }

    /// Notes that the file called `name` is included but not at hand, unless one was noted
    /// before.
    pub fn want_file(&mut self, name: &str)
        ensures
            final(self)@ == old(self)@.with_wanted(name@),
            old(self).wf() ==> final(self).wf(),
            final(self).root_module == old(self).root_module,
            final(self).included_files == old(self).included_files,
            final(self).config == old(self).config,
    {
        if self.wanted.is_none() {
            self.wanted = Some(name.to_owned());
        }
    }

    /// Notes that the file at `path` is being read. Returns whether it was not read before.
    pub fn add_file(&mut self, path: &str) -> (added: bool)
        ensures
            added == !old(self)@.included.contains(path@),
            final(self)@ == old(self)@.with_file(path@),
            old(self).wf() ==> final(self).wf(),
            final(self).root_module == old(self).root_module,
            final(self).config == old(self).config,
    {
        let ghost paths = crate::text::texts(self.included_files@);
        let mut i: usize = 0;
        while i < self.included_files.len()
            invariant
                i <= self.included_files@.len(),
                *self == *old(self),
                paths == crate::text::texts(self.included_files@),
                forall|j: int| 0 <= j < i ==> paths[j] != path@,
            decreases self.included_files@.len() - i,
        {
            if same_text(self.included_files[i].as_str(), path) {
                proof {
                    assert(paths[i as int] == path@);
                    assert(paths.to_set().contains(path@));
                    assert(paths.to_set().insert(path@) =~= paths.to_set());
                }
                return false;
            }
            i = i + 1;
        }
        self.included_files.push(path.to_owned());
        proof {
            let after = crate::text::texts(self.included_files@);
            assert(after =~= paths.push(path@));
            assert(!paths.contains(path@));
            assert(after.to_set() =~= paths.to_set().insert(path@)) by {
                assert forall|x: Seq<char>| after.contains(x) == (paths.contains(x) || x
                    == path@) by {
                    if after.contains(x) {
                        let k = after.index_of(x);
                        if k < paths.len() {
                            assert(paths[k] == x);
                        }
                    }
                    if paths.contains(x) {
                        assert(after[paths.index_of(x)] == x);
                    }
                    assert(after[paths.len() as int] == path@);
                }
            }
        }
        true
    }
}

}
