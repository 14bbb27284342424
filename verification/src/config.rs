//! Where to find an IDL file.

use vstd::prelude::*;

verus! {

/// Where to find a file, and whether to trace the work on it.
#[derive(Debug, Default)]
pub struct Configuration {
    pub search_path: String,
    pub idl_file: String,
    pub verbose: bool,
}

impl Configuration {
    /// Looks for `idl_file`, and for what it includes, below `search_path`.
    pub fn new(search_path: &str, idl_file: &str, verbose: bool) -> (config: Self)
        ensures
            config.search_path@ == search_path@,
            config.idl_file@ == idl_file@,
            config.verbose == verbose,
    {
        Configuration {
            search_path: search_path.to_owned(),
            idl_file: idl_file.to_owned(),
            verbose,
        }
    }
}

}
