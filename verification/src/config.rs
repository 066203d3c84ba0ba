//! Configuration: the query, the filename, and the case-sensitivity flag,
//! taken from a positional argument list.

use vstd::prelude::*;

use vstd::slice::slice_index_get;

verus! {

/// Why a `Config` could not be built.
#[derive(Clone, Copy, PartialEq, Eq, Debug)]
pub enum ConfigError {
    /// Fewer than three arguments were supplied: a query and a filename must
    /// follow the program name.
    NotEnoughArguments,
}

/// What one invocation searches: the query, the file to search, and whether
/// the search is case-sensitive.  Immutable once constructed.
pub struct Config {
    pub query: String,
    pub filename: String,
    pub case_sensitive: bool,
}

impl Config {
    /// Builds a `Config` from the argument list, where element 0 is the
    /// program name, element 1 the query and element 2 the filename, and
    /// from whether the environment's case-insensitivity toggle is present.
    /// The search is case-sensitive exactly when the toggle is absent; the
    /// toggle's value plays no part.  The query and the filename are copied,
    /// so the `Config` outlives the argument list.
    pub fn new(args: &[String], case_insensitive_set: bool) -> (result: Result<
        Config,
        ConfigError,
    >)
        ensures
            match result {
                Ok(config) => {
                    &&& args@.len() >= 3
                    &&& config.query@ == args@[1]@
                    &&& config.filename@ == args@[2]@
                    &&& config.case_sensitive == !case_insensitive_set
                },
                Err(e) => args@.len() < 3 && e == ConfigError::NotEnoughArguments,
            },
    {
        if args.len() < 3 {
            return Err(ConfigError::NotEnoughArguments);
        }
        let query = slice_index_get(args, 1).clone();
        let filename = slice_index_get(args, 2).clone();
        Ok(Config { query, filename, case_sensitive: !case_insensitive_set })
    }
}

} // verus!
