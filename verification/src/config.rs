//! Location of the workspace configuration.

use vstd::prelude::*;

use crate::error::ConfigError;

verus! {

/// Where the rivets directory is.
#[derive(Debug)]
pub struct Config {
    /// Path of the rivets directory.
    pub rivets_dir: String,
}

impl Config {
    /// The configuration of the current directory: the rivets directory is
    /// `.rivets`.
    pub fn load() -> (r: Result<Config, ConfigError>)
        ensures
            r matches Ok(c) && c.rivets_dir@ == ".rivets"@,
    {
        Ok(Config { rivets_dir: crate::text::owned(".rivets") })
    }
}

} // verus!
