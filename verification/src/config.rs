//! What one invocation asks for: the query, the file to read, and whether
//! letter case counts.

use vstd::prelude::*;

verus! {

/// The name of the environment variable whose presence, with any value,
/// makes the search ignore letter case.
pub const CASE_INSENSITIVE: &'static str = "CASE_INSENSITIVE";

/// A resolved invocation. It is made once and read from then on.
#[derive(Debug)]
pub struct Config {
    /// The text to look for. It may be empty.
    pub query: String,
    /// The path of the file to search. Nothing looks at the file before it
    /// is opened.
    pub filename: String,
    /// Whether letter case counts in the comparison.
    pub case_sensitive: bool,
}

/// Why an argument list gives no `Config`.
#[derive(Debug, Clone, Copy, PartialEq, Eq, Structural)]
pub enum ConfigError {
    /// No argument follows the program's name.
    MissingQuery,
    /// A query follows the program's name, and nothing follows the query.
    MissingFilename,
}

impl ConfigError {
    /// The words for this error.
    pub open spec fn message_text(self) -> Seq<char> {
        match self {
            ConfigError::MissingQuery => "missing query"@,
            ConfigError::MissingFilename => "missing filename"@,
        }
    }

    /// A short description for a person to read.
    pub fn message(&self) -> (words: &'static str)
        ensures
            words@ == self.message_text(),
    {
        match self {
            ConfigError::MissingQuery => "missing query",
            ConfigError::MissingFilename => "missing filename",
        }
    }
}

impl Config {
    /// Resolves the arguments of one invocation. The first argument is the
    /// program's name and is passed over, the second is the query, the third
    /// the file's name; further ones are not looked at. A missing query is
    /// reported before a missing file name. `ignore_case` says whether the
    /// variable named by `CASE_INSENSITIVE` is set in the environment.
    pub fn new(args: Vec<String>, ignore_case: bool) -> (made: Result<Config, ConfigError>)
        ensures
            args@.len() < 2 ==> made == Err::<Config, ConfigError>(ConfigError::MissingQuery),
            args@.len() == 2 ==> made == Err::<Config, ConfigError>(ConfigError::MissingFilename),
            args@.len() > 2 ==> made is Ok,
            made matches Ok(config) ==> {
                &&& config.query@ == args@[1]@
                &&& config.filename@ == args@[2]@
                &&& config.case_sensitive == !ignore_case
            },
    {
        let mut args = args;
        if args.len() < 2 {
            return Err(ConfigError::MissingQuery);
        }
        if args.len() < 3 {
            return Err(ConfigError::MissingFilename);
        }
        let filename = args.swap_remove(2);
        let query = args.swap_remove(1);
        Ok(Config { query, filename, case_sensitive: !ignore_case })
    }
}

} // verus!
