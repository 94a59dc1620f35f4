//! Workspace initialization: prefix rules, the configuration written by
//! `init`, the layout of the `.rivets/` directory, and the upward search for
//! a workspace root.

use vstd::prelude::*;

use crate::error::ConfigError;
use crate::text::{
    byte_len, char_is_ascii_alnum, chars_of, is_ascii_alnum, owned, push_str, string_of, trim,
    trim_chars, utf8_len,
};

verus! {

/// Default issue prefix if none is given.
pub const DEFAULT_PREFIX: &'static str = "proj";

/// Name of the rivets directory.
pub const RIVETS_DIR_NAME: &'static str = ".rivets";

/// Name of the configuration file.
pub const CONFIG_FILE_NAME: &'static str = "config.yaml";

/// Name of the issues data file.
pub const ISSUES_FILE_NAME: &'static str = "issues.jsonl";

/// Name of the gitignore file within `.rivets`.
pub const GITIGNORE_FILE_NAME: &'static str = ".gitignore";

/// Content of the gitignore file written by `init`.
pub const GITIGNORE_CONTENT: &'static str = "# Rivets metadata files that should not be tracked\n# The issues.jsonl file should be tracked for collaboration\n";

/// Minimum prefix length.
pub const MIN_PREFIX_LENGTH: usize = 2;

/// Maximum prefix length.
pub const MAX_PREFIX_LENGTH: usize = 20;

/// Maximum directory depth to traverse when searching for the rivets root.
pub const MAX_TRAVERSAL_DEPTH: usize = 256;

/// What is wrong with a prefix.
#[derive(Debug, Clone, Copy, PartialEq, Eq, Structural)]
pub enum PrefixProblem {
    /// Fewer than `MIN_PREFIX_LENGTH` bytes.
    TooShort,
    /// More than `MAX_PREFIX_LENGTH` bytes.
    TooLong,
    /// A character that is not an ASCII letter or digit.
    NotAlphanumeric,
}

/// The first rule a (pre-trimmed) prefix breaks: its length in bytes must be
/// 2 to 20 and every character an ASCII letter or digit.
pub open spec fn prefix_problem(p: Seq<char>) -> Option<PrefixProblem> {
    if utf8_len(p) < MIN_PREFIX_LENGTH {
        Some(PrefixProblem::TooShort)
    } else if utf8_len(p) > MAX_PREFIX_LENGTH {
        Some(PrefixProblem::TooLong)
    } else if !(forall|i: int| 0 <= i < p.len() ==> is_ascii_alnum(#[trigger] p[i])) {
        Some(PrefixProblem::NotAlphanumeric)
    } else {
        None
    }
}

/// The message of a prefix problem.
pub open spec fn prefix_problem_message(k: PrefixProblem) -> Seq<char> {
    match k {
        PrefixProblem::TooShort => "Prefix must be at least 2 characters"@,
        PrefixProblem::TooLong => "Prefix cannot exceed 20 characters"@,
        PrefixProblem::NotAlphanumeric => "Prefix must contain only alphanumeric characters"@,
    }
}

/// The same message in lower case.
pub open spec fn prefix_problem_message_lower(k: PrefixProblem) -> Seq<char> {
    match k {
        PrefixProblem::TooShort => "prefix must be at least 2 characters"@,
        PrefixProblem::TooLong => "prefix cannot exceed 20 characters"@,
        PrefixProblem::NotAlphanumeric => "prefix must contain only alphanumeric characters"@,
    }
}

impl PrefixProblem {
    /// The user-facing message.
    pub fn message(&self) -> (r: String)
        ensures
            r@ == prefix_problem_message(*self),
    {
        match self {
            PrefixProblem::TooShort => owned("Prefix must be at least 2 characters"),
            PrefixProblem::TooLong => owned("Prefix cannot exceed 20 characters"),
            PrefixProblem::NotAlphanumeric => owned(
                "Prefix must contain only alphanumeric characters",
            ),
        }
    }

    /// The user-facing message in lower case.
    pub fn message_lowercase(&self) -> (r: String)
        ensures
            r@ == prefix_problem_message_lower(*self),
    {
        match self {
            PrefixProblem::TooShort => owned("prefix must be at least 2 characters"),
            PrefixProblem::TooLong => owned("prefix cannot exceed 20 characters"),
            PrefixProblem::NotAlphanumeric => owned(
                "prefix must contain only alphanumeric characters",
            ),
        }
    }
}

/// The problem with a prefix, if any.
pub fn check_prefix(prefix: &str) -> (r: Option<PrefixProblem>)
    ensures
        r == prefix_problem(prefix@),
{
    let n = byte_len(prefix);
    if n < MIN_PREFIX_LENGTH {
        return Some(PrefixProblem::TooShort);
    }
    if n > MAX_PREFIX_LENGTH {
        return Some(PrefixProblem::TooLong);
    }
    let v = chars_of(prefix);
    let mut i: usize = 0;
    while i < v.len()
        invariant
            i <= v@.len(),
            v@ == prefix@,
            MIN_PREFIX_LENGTH <= utf8_len(prefix@) <= MAX_PREFIX_LENGTH,
            forall|t: int| 0 <= t < i ==> is_ascii_alnum(#[trigger] v@[t]),
        decreases v.len() - i,
    {
        if !char_is_ascii_alnum(v[i]) {
            assert(!is_ascii_alnum(prefix@[i as int]));
            return Some(PrefixProblem::NotAlphanumeric);
        }
        i += 1;
    }
    None
}

/// Validate an issue ID prefix: 2 to 20 bytes, ASCII letters and digits
/// only. The input is expected to be trimmed already.
pub fn validate_prefix(prefix: &str) -> (r: Result<(), ConfigError>)
    ensures
        match r {
            Ok(()) => prefix_problem(prefix@) is None,
            Err(e) => match e {
                ConfigError::InvalidPrefix(m) => prefix_problem(prefix@) is Some && m@
                    == prefix_problem_message(prefix_problem(prefix@)->0),
                _ => false,
            },
        },
{
    match check_prefix(prefix) {
        Some(k) => Err(ConfigError::InvalidPrefix(k.message())),
        None => Ok(()),
    }
}

/// Storage configuration section.
#[derive(Debug, PartialEq, Eq)]
pub struct StorageConfig {
    /// Storage backend type (`memory` keeps issues in memory with JSONL persistence).
    pub backend: String,
    /// Path to the data file.
    pub data_file: String,
}

impl Clone for StorageConfig {
    fn clone(&self) -> (r: Self)
        ensures
            r.backend@ == self.backend@,
            r.data_file@ == self.data_file@,
    {
        StorageConfig { backend: self.backend.clone(), data_file: self.data_file.clone() }
    }
}

/// Configuration file structure.
#[derive(Debug, PartialEq, Eq)]
pub struct RivetsConfig {
    /// Issue ID prefix (e.g. `proj` for `proj-abc`).
    pub issue_prefix: String,
    /// Storage configuration.
    pub storage: StorageConfig,
}

impl Clone for RivetsConfig {
    fn clone(&self) -> (r: Self)
        ensures
            r.issue_prefix@ == self.issue_prefix@,
            r.storage.backend@ == self.storage.backend@,
            r.storage.data_file@ == self.storage.data_file@,
    {
        RivetsConfig { issue_prefix: self.issue_prefix.clone(), storage: self.storage.clone() }
    }
}

impl RivetsConfig {
    /// A configuration with the given prefix, the `memory` backend and the
    /// data file `.rivets/issues.jsonl`.
    pub fn new(prefix: &str) -> (c: Self)
        ensures
            c.issue_prefix@ == prefix@,
            c.storage.backend@ == "memory"@,
            c.storage.data_file@ == ".rivets/issues.jsonl"@,
    {
        let mut v: Vec<char> = Vec::new();
        push_str(&mut v, RIVETS_DIR_NAME);
        push_str(&mut v, "/");
        push_str(&mut v, ISSUES_FILE_NAME);
        proof {
            reveal_strlit(".rivets");
            reveal_strlit("/");
            reveal_strlit("issues.jsonl");
            reveal_strlit(".rivets/issues.jsonl");
        }
        assert(v@ =~= ".rivets/issues.jsonl"@);
        RivetsConfig {
            issue_prefix: owned(prefix),
            storage: StorageConfig { backend: owned("memory"), data_file: string_of(&v) },
        }
    }
}

impl Default for RivetsConfig {
    fn default() -> (c: Self)
        ensures
            c.issue_prefix@ == DEFAULT_PREFIX@,
            c.storage.backend@ == "memory"@,
            c.storage.data_file@ == ".rivets/issues.jsonl"@,
    {
        RivetsConfig::new(DEFAULT_PREFIX)
    }
}

/// `Path::join` on Unix: an absolute name replaces the base; a relative one
/// is the name itself after an empty base, a plain concatenation after a
/// trailing `/`, otherwise the two joined with `/`.
pub open spec fn join_path(base: Seq<char>, name: Seq<char>) -> Seq<char> {
    if name.len() > 0 && name[0] == '/' {
        name
    } else if base.len() == 0 {
        name
    } else if base.last() == '/' {
        base + name
    } else {
        base + seq!['/'] + name
    }
}

pub(crate) fn join(base: &str, name: &str) -> (r: String)
    ensures
        r@ == join_path(base@, name@),
{
    let n = chars_of(name);
    if n.len() > 0 && n[0] == '/' {
        return owned(name);
    }
    let b = chars_of(base);
    let mut v: Vec<char> = Vec::new();
    push_str(&mut v, base);
    if b.len() > 0 && b[b.len() - 1] != '/' {
        v.push('/');
    }
    push_str(&mut v, name);
    string_of(&v)
}

/// What `init` creates: the paths of the new files and the prefix used.
#[derive(Debug)]
pub struct InitResult {
    /// Path of the rivets directory.
    pub rivets_dir: String,
    /// Path of the config file.
    pub config_file: String,
    /// Path of the issues file.
    pub issues_file: String,
    /// Path of the gitignore file.
    pub gitignore_file: String,
    /// The prefix used for issue IDs.
    pub prefix: String,
}

/// The prefix `init` uses: the given one or the default, trimmed.
pub open spec fn init_prefix(prefix: Option<Seq<char>>) -> Seq<char> {
    match prefix {
        Some(p) => trim(p),
        None => trim(DEFAULT_PREFIX@),
    }
}

/// The layout `init` creates under `base_dir` after validating the prefix:
/// the prefix is trimmed and must pass [`validate_prefix`]; the files are
/// `.rivets/`, `.rivets/config.yaml`, `.rivets/issues.jsonl` and
/// `.rivets/.gitignore` under the base directory.
pub fn plan_init(base_dir: &str, prefix: Option<&str>) -> (r: Result<InitResult, ConfigError>)
    ensures
        match r {
            Ok(plan) => {
                let p = init_prefix(crate::domain::opt_view(prefix));
                let dir = join_path(base_dir@, ".rivets"@);
                &&& prefix_problem(p) is None
                &&& plan.prefix@ == p
                &&& plan.rivets_dir@ == dir
                &&& plan.config_file@ == join_path(dir, "config.yaml"@)
                &&& plan.issues_file@ == join_path(dir, "issues.jsonl"@)
                &&& plan.gitignore_file@ == join_path(dir, ".gitignore"@)
            },
            Err(e) => {
                let p = init_prefix(crate::domain::opt_view(prefix));
                &&& prefix_problem(p) is Some
                &&& match e {
                    ConfigError::InvalidPrefix(m) => m@ == prefix_problem_message(
                        prefix_problem(p)->0,
                    ),
                    _ => false,
                }
            },
        },
{
    let raw = match prefix {
        Some(p) => chars_of(p),
        None => chars_of(DEFAULT_PREFIX),
    };
    let trimmed = string_of(&trim_chars(&raw));
    match validate_prefix(trimmed.as_str()) {
        Err(e) => {
            return Err(e);
        },
        Ok(()) => {},
    }
    let rivets_dir = join(base_dir, RIVETS_DIR_NAME);
    let config_file = join(rivets_dir.as_str(), CONFIG_FILE_NAME);
    let issues_file = join(rivets_dir.as_str(), ISSUES_FILE_NAME);
    let gitignore_file = join(rivets_dir.as_str(), GITIGNORE_FILE_NAME);
    Ok(InitResult { rivets_dir, config_file, issues_file, gitignore_file, prefix: trimmed })
}

/// One step of the upward search for a workspace root.
#[derive(Debug, Clone, Copy, PartialEq, Eq, Structural)]
pub enum RootSearchStep {
    /// The directory being examined holds `.rivets/`: it is the root.
    Found,
    /// Examine the parent directory next, at the given depth.
    Ascend(usize),
    /// The depth limit is reached: there is no root.
    GiveUp,
}

/// The next step after examining the directory `depth` levels above the
/// start: stop when it holds `.rivets/`, give up once more than
/// `MAX_TRAVERSAL_DEPTH` parents would have been climbed, otherwise climb.
/// (The search also ends when a directory has no parent.)
pub fn root_search_step(depth: usize, has_rivets_dir: bool) -> (s: RootSearchStep)
    requires
        depth <= MAX_TRAVERSAL_DEPTH,
    ensures
        has_rivets_dir ==> s == RootSearchStep::Found,
        !has_rivets_dir && depth + 1 > MAX_TRAVERSAL_DEPTH ==> s == RootSearchStep::GiveUp,
        !has_rivets_dir && depth + 1 <= MAX_TRAVERSAL_DEPTH ==> s == RootSearchStep::Ascend(
            (depth + 1) as usize,
        ),
{
    if has_rivets_dir {
        RootSearchStep::Found
    } else if depth + 1 > MAX_TRAVERSAL_DEPTH {
        RootSearchStep::GiveUp
    } else {
        RootSearchStep::Ascend(depth + 1)
    }
}

} // verus!
