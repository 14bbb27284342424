//! Turning a file and what it includes into modules.

use crate::config::Configuration;
use crate::context::{Context, Scope, Session};
use crate::error::{IdlError, IdlFault};
use crate::module::{IdlModule, Module};
use crate::sources::{File, Sources};
use vstd::prelude::*;

verus! {

broadcast use crate::node::group_node_model;

impl Session {
    /// Nothing declared, and one file read.
    pub open spec fn started(path: Seq<char>) -> Session {
        Session { root: Module::fresh(None), included: Set::empty().insert(path), wanted: None }
    }
}

/// What comes next: a file has to be loaded, or there is a result.
#[derive(Debug)]
pub enum Step<T> {
    Load(String),
    Done(T),
}

/// The model of a [`Step`] towards modules.
#[verifier::ext_equal]
pub enum Stage {
    Load(Seq<char>),
    Done(Module),
}

/// The root module that the file called `idl_file` amounts to, the file that has to be listed
/// before that can be said, or why there is none.
///
/// The file to list is the first that is come upon and not listed. A declaration that cannot
/// be read, or an included file that was not found or is not IDL, is passed over.
pub open spec fn built(
    files: Seq<(Seq<char>, File)>,
    idl_file: Seq<char>,
) -> Result<Stage, IdlFault> {
    match crate::sources::file_named(files, idl_file) {
        None => Ok(Stage::Load(idl_file)),
        Some(file) => match file.content {
            Err(fault) => Err(fault),
            Ok(trees) => {
                let after = Session::started(file.full_path).each_processed(
                    files,
                    files.len(),
                    Seq::empty(),
                    trees,
                );
                match after.wanted {
                    Some(name) => Ok(Stage::Load(name)),
                    None => Ok(Stage::Done(after.root)),
                }
            },
        },
    }
}

/// Builds the modules that the configured file declares, with the files it includes; or says
/// which file has to be fetched first.
pub fn build_modules(config: &Configuration, sources: &Sources) -> (r: Result<
    Step<IdlModule>,
    IdlError,
>)
    requires
        sources.wf(),
    ensures
        match r {
            Ok(Step::Load(name)) => built(sources@, config.idl_file@) == Ok::<_, IdlFault>(
                Stage::Load(name@),
            ),
            Ok(Step::Done(module)) => built(sources@, config.idl_file@) == Ok::<_, IdlFault>(
                Stage::Done(module@),
            ) && module@.wf(),
            Err(error) => built(sources@, config.idl_file@) == Err::<Stage, _>(error@),
        },
{
    let file = match sources.find(config.idl_file.as_str()) {
        Some(file) => file,
        None => {
            return Ok(Step::Load(config.idl_file.clone()));
        },
    };
    let mut ctx = Context::new(config);
    let _ = ctx.add_file(file.full_path.as_str());
    let ghost begun = ctx@;
    assert(begun =~= Session::started(file.full_path@));
    let nodes = match &file.content {
        Ok(nodes) => nodes,
        Err(error) => {
            return Err(error.clone());
        },
    };
    let ghost trees = crate::node::forest_model(nodes@);
    proof {
        crate::table::lemma_place(sources@, config.idl_file@);
        assert(crate::tree::forest_wf(trees));
    }
    let mut scope: Scope = Vec::new();
    let mut i: usize = 0;
    assert(crate::text::texts(scope@) =~= Seq::empty());
    while i < nodes.len()
        invariant
            i <= nodes@.len(),
            sources.wf(),
            trees == crate::node::forest_model(nodes@),
            crate::tree::forest_wf(trees),
            crate::tree::forest_processable(trees),
            crate::text::texts(scope@) == Seq::<Seq<char>>::empty(),
            ctx@ == begun.each_processed(
                sources@,
                sources@.len(),
                Seq::empty(),
                trees.take(i as int),
            ),
            ctx.wf(),
        decreases nodes@.len() - i,
    {
        proof {
            assert(trees[i as int] == nodes@[i as int]@);
            assert(trees.take(i + 1).drop_last() =~= trees.take(i as int));
        }
        let _ = ctx.process(&mut scope, sources, &nodes[i]);
        i = i + 1;
    }
    assert(trees.take(i as int) =~= trees);
    match ctx.wanted {
        Some(name) => Ok(Step::Load(name)),
        None => Ok(Step::Done(ctx.root_module)),
    }
}

/// Why no code could be generated.
#[derive(Debug)]
pub enum GenerateError {
    /// There are no modules to generate code from.
    Idl(IdlError),
    /// A template could not be rendered.
    Render(minijinja::Error),
}

/// Generates Rust types for the configured file, with the files it includes; or says which
/// file has to be fetched first.
pub fn generate_with_sources(config: &Configuration, sources: &Sources) -> (r: Result<
    Step<String>,
    GenerateError,
>)
    requires
        sources.wf(),
    ensures
        match built(sources@, config.idl_file@) {
            Ok(Stage::Load(name)) => r matches Ok(Step::Load(wanted)) && wanted@ == name,
            Ok(Stage::Done(module)) => r matches Ok(Step::Done(text)) && text@
                == module.contents(Seq::empty()),
            Err(fault) => r matches Err(GenerateError::Idl(error)) && error@ == fault,
        },
{
    match build_modules(config, sources) {
        Ok(Step::Load(name)) => Ok(Step::Load(name)),
        Ok(Step::Done(root_module)) => match root_module.render(0) {
            Ok(text) => Ok(Step::Done(text)),
            Err(error) => Err(GenerateError::Render(error)),
        },
        Err(error) => Err(GenerateError::Idl(error)),
    }
}

}
