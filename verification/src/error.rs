//! Error types of the workspace operations and their messages.

use vstd::prelude::*;

use crate::domain::{
    ids_debug_text, ids_view, issue_ids_debug, status_name, IssueId, StatusTransitionError,
};
use crate::resource::{resource_error_message, ResourceError};
use crate::sorting::{insert_by_key, lemma_insert_by_key_at, lemma_sort_by_key, sort_by_key, sorted_by_key};
use crate::text::{decimal, owned, push_decimal, push_str, string_of};

verus! {

#[verifier::external_type_specification]
#[verifier::external_body]
pub struct ExIoError(std::io::Error);

/// serde_yaml's `Display` of an error. What the text says is not stated.
#[verifier::external_body]
fn yaml_error_text(e: &serde_yaml::Error) -> (r: String) {
    e.to_string()
}

/// serde_json's `Display` of an error. What the text says is not stated.
#[verifier::external_body]
fn json_error_text(e: &serde_json::Error) -> (r: String) {
    e.to_string()
}

/// std's `Display` of an I/O error. What the text says is not stated.
#[verifier::external_body]
fn io_error_text(e: &std::io::Error) -> (r: String) {
    e.to_string()
}

// ---------------------------------------------------------------------------
// Configuration errors
// ---------------------------------------------------------------------------

/// Configuration-related errors.
#[derive(Debug)]
pub enum ConfigError {
    /// No rivets repository found in the directory tree.
    NotInitialized,
    /// Rivets is already initialized in the target directory.
    AlreadyInitialized(String),
    /// Invalid issue ID prefix format.
    InvalidPrefix(String),
    /// A configuration file on disk could not be parsed.
    Parse {
        /// Path to the configuration file.
        path: String,
        /// The YAML parser's error.
        source: serde_yaml::Error,
    },
    /// A configuration could not be written as YAML.
    YamlSerialization(serde_yaml::Error),
    /// `data_file` must be a relative path.
    AbsoluteDataPath,
    /// `data_file` must not contain parent directory references.
    PathTraversal,
    /// Unknown storage backend specified in the configuration.
    UnknownBackend(String),
    /// Storage backend recognized but not yet implemented.
    UnsupportedBackend(String),
}

/// The user-facing message of a configuration error; `yaml_text` is what
/// the YAML parser says of its error, where one is the cause.
pub open spec fn config_error_message(e: ConfigError, yaml_text: Seq<char>) -> Seq<char> {
    match e {
        ConfigError::NotInitialized => "Not a rivets repository (or any of the parent directories). Run 'rivets init' to create a new repository."@,
        ConfigError::AlreadyInitialized(d) => "Rivets is already initialized in this directory. Found existing '"@
            + d@ + "'"@,
        ConfigError::InvalidPrefix(m) => m@,
        ConfigError::Parse { path, .. } => "Failed to parse config file '"@ + path@ + "': "@
            + yaml_text,
        ConfigError::YamlSerialization(_) => "YAML serialization error"@,
        ConfigError::AbsoluteDataPath => "data_file must be a relative path"@,
        ConfigError::PathTraversal => "data_file must not contain parent directory references ('..')"@,
        ConfigError::UnknownBackend(b) => "Unknown storage backend '"@ + b@
            + "'. Supported backends: jsonl, postgresql"@,
        ConfigError::UnsupportedBackend(b) => "Storage backend not yet implemented: "@ + b@,
    }
}

impl ConfigError {
    /// The user-facing message.
    pub fn to_string(&self) -> (r: String)
        ensures
            exists|yaml_text: Seq<char>| r@ == config_error_message(*self, yaml_text),
            !(self is Parse) ==> r@ == config_error_message(*self, Seq::<char>::empty()),
    {
        let r = match self {
            ConfigError::NotInitialized => owned(
                "Not a rivets repository (or any of the parent directories). Run 'rivets init' to create a new repository.",
            ),
            ConfigError::AlreadyInitialized(d) => {
                let mut v: Vec<char> = Vec::new();
                push_str(&mut v, "Rivets is already initialized in this directory. Found existing '");
                push_str(&mut v, d.as_str());
                push_str(&mut v, "'");
                string_of(&v)
            },
            ConfigError::InvalidPrefix(m) => m.clone(),
            ConfigError::Parse { path, source } => {
                let mut v: Vec<char> = Vec::new();
                push_str(&mut v, "Failed to parse config file '");
                push_str(&mut v, path.as_str());
                push_str(&mut v, "': ");
                let t = yaml_error_text(source);
                push_str(&mut v, t.as_str());
                assert(v@ == config_error_message(*self, t@));
                string_of(&v)
            },
            ConfigError::YamlSerialization(_) => owned("YAML serialization error"),
            ConfigError::AbsoluteDataPath => owned("data_file must be a relative path"),
            ConfigError::PathTraversal => owned(
                "data_file must not contain parent directory references ('..')",
            ),
            ConfigError::UnknownBackend(b) => {
                let mut v: Vec<char> = Vec::new();
                push_str(&mut v, "Unknown storage backend '");
                push_str(&mut v, b.as_str());
                push_str(&mut v, "'. Supported backends: jsonl, postgresql");
                string_of(&v)
            },
            ConfigError::UnsupportedBackend(b) => {
                let mut v: Vec<char> = Vec::new();
                push_str(&mut v, "Storage backend not yet implemented: ");
                push_str(&mut v, b.as_str());
                string_of(&v)
            },
        };
        proof {
            if !(self is Parse) {
                assert(r@ == config_error_message(*self, Seq::<char>::empty()));
            }
        }
        r
    }

    /// The underlying YAML error, for the variants caused by one.
    pub fn source(&self) -> (r: Option<&serde_yaml::Error>)
        ensures
            r is Some <==> (self is Parse || self is YamlSerialization),
    {
        match self {
            ConfigError::Parse { source, .. } => Some(source),
            ConfigError::YamlSerialization(source) => Some(source),
            _ => None,
        }
    }
}

// ---------------------------------------------------------------------------
// Records skipped while loading
// ---------------------------------------------------------------------------

/// The reason one persisted Issue record was omitted during resilient loading.
#[derive(Debug, PartialEq, Eq)]
pub enum SkippedIssueRecordCause {
    /// The record could not be decoded from its JSONL representation.
    MalformedJson {
        /// Physical 1-based line number in the JSONL file.
        line_number: usize,
        /// Decoder error.
        error: String,
    },
    /// The decoded record violated an Issue invariant.
    InvalidIssueData {
        /// Physical 1-based line number in the JSONL file.
        line_number: usize,
        /// Issue identifier decoded before validation failed.
        issue_id: IssueId,
        /// Domain validation error.
        error: String,
    },
    /// One of the decoded record's Associated Resources violated an invariant.
    InvalidResourceData {
        /// Physical 1-based line number in the JSONL file.
        line_number: usize,
        /// Issue identifier decoded before resource validation failed.
        issue_id: IssueId,
        /// Typed resource validation failure.
        source: ResourceError,
    },
}

/// The line a skipped record was on.
pub open spec fn cause_line(c: SkippedIssueRecordCause) -> usize {
    match c {
        SkippedIssueRecordCause::MalformedJson { line_number, .. } => line_number,
        SkippedIssueRecordCause::InvalidIssueData { line_number, .. } => line_number,
        SkippedIssueRecordCause::InvalidResourceData { line_number, .. } => line_number,
    }
}

/// The user-facing message of a skipped record.
pub open spec fn cause_message(c: SkippedIssueRecordCause) -> Seq<char> {
    match c {
        SkippedIssueRecordCause::MalformedJson { line_number, error } => "line "@ + decimal(
            line_number as nat,
        ) + ": malformed JSON ("@ + error@ + ")"@,
        SkippedIssueRecordCause::InvalidIssueData { line_number, issue_id, error } => "line "@
            + decimal(line_number as nat) + ": issue "@ + issue_id@ + " is invalid ("@ + error@
            + ")"@,
        SkippedIssueRecordCause::InvalidResourceData { line_number, issue_id, source } => "line "@
            + decimal(line_number as nat) + ": issue "@ + issue_id@
            + " has an invalid Associated Resource ("@ + resource_error_message(source@) + ")"@,
    }
}

impl SkippedIssueRecordCause {
    /// The record's physical 1-based JSONL line number.
    pub fn line_number(&self) -> (n: usize)
        ensures
            n == cause_line(*self),
    {
        match self {
            SkippedIssueRecordCause::MalformedJson { line_number, .. } => *line_number,
            SkippedIssueRecordCause::InvalidIssueData { line_number, .. } => *line_number,
            SkippedIssueRecordCause::InvalidResourceData { line_number, .. } => *line_number,
        }
    }

    /// The user-facing message.
    pub fn to_string(&self) -> (r: String)
        ensures
            r@ == cause_message(*self),
    {
        let mut v: Vec<char> = Vec::new();
        push_cause(&mut v, self);
        string_of(&v)
    }

    /// The typed resource failure, for a record skipped because of one.
    pub fn source(&self) -> (r: Option<&ResourceError>)
        ensures
            match self {
                SkippedIssueRecordCause::InvalidResourceData { source, .. } => r == Some(source),
                _ => r is None,
            },
    {
        match self {
            SkippedIssueRecordCause::InvalidResourceData { source, .. } => Some(source),
            _ => None,
        }
    }
}

fn push_cause(v: &mut Vec<char>, c: &SkippedIssueRecordCause)
    ensures
        final(v)@ == old(v)@ + cause_message(*c),
{
    let ghost start = v@;
    push_str(v, "line ");
    match c {
        SkippedIssueRecordCause::MalformedJson { line_number, error } => {
            push_decimal(v, *line_number as u64);
            push_str(v, ": malformed JSON (");
            push_str(v, error.as_str());
        },
        SkippedIssueRecordCause::InvalidIssueData { line_number, issue_id, error } => {
            push_decimal(v, *line_number as u64);
            push_str(v, ": issue ");
            push_str(v, issue_id.as_str());
            push_str(v, " is invalid (");
            push_str(v, error.as_str());
        },
        SkippedIssueRecordCause::InvalidResourceData { line_number, issue_id, source } => {
            push_decimal(v, *line_number as u64);
            push_str(v, ": issue ");
            push_str(v, issue_id.as_str());
            push_str(v, " has an invalid Associated Resource (");
            let t = source.to_string();
            push_str(v, t.as_str());
        },
    }
    push_str(v, ")");
    assert(v@ =~= start + cause_message(*c));
}

/// The key that orders skipped records by line.
pub open spec fn line_key() -> spec_fn(SkippedIssueRecordCause) -> int {
    |c: SkippedIssueRecordCause| cause_line(c) as int
}

/// The messages of skipped records, separated by `; `.
pub open spec fn causes_text(causes: Seq<SkippedIssueRecordCause>) -> Seq<char>
    decreases causes.len(),
{
    if causes.len() == 0 {
        Seq::<char>::empty()
    } else if causes.len() == 1 {
        cause_message(causes[0])
    } else {
        causes_text(causes.drop_last()) + "; "@ + cause_message(causes.last())
    }
}

/// A non-empty account of Issue records omitted from a JSONL load, ordered
/// by line (records on one line keep the order they were reported in).
#[derive(Debug)]
pub struct PartialLoadError {
    causes: Vec<SkippedIssueRecordCause>,
}

impl PartialLoadError {
    #[verifier::type_invariant]
    closed spec fn nonempty_and_ordered(self) -> bool {
        &&& self.causes@.len() > 0
        &&& sorted_by_key(self.causes@, line_key())
    }

    /// The causes, in order.
    pub closed spec fn spec_causes(&self) -> Seq<SkippedIssueRecordCause> {
        self.causes@
    }

    /// An account of the given causes sorted by line (a stable sort); `None`
    /// when nothing was skipped.
    pub fn new(causes: Vec<SkippedIssueRecordCause>) -> (r: Option<PartialLoadError>)
        ensures
            r is None <==> causes@.len() == 0,
            r matches Some(p) ==> p.spec_causes() == sort_by_key(causes@, line_key()),
    {
        if causes.len() == 0 {
            return None;
        }
        let ghost input = causes@;
        let mut rest = causes;
        let mut sorted: Vec<SkippedIssueRecordCause> = Vec::new();
        let mut i: usize = 0;
        let n = rest.len();
        while rest.len() > 0
            invariant
                n == input.len(),
                i + rest@.len() == n,
                rest@ == input.skip(i as int),
                sorted@ == sort_by_key(input.take(i as int), line_key()),
            decreases rest.len(),
        {
            let x = rest.remove(0);
            assert(x == input[i as int]);
            assert(rest@ =~= input.skip(i as int + 1));
            let ghost p = input.take(i as int + 1);
            proof {
                assert(p.drop_last() =~= input.take(i as int));
                assert(p.last() == input[i as int]);
            }
            insert_cause(&mut sorted, x);
            i += 1;
        }
        assert(input.take(n as int) =~= input);
        proof {
            lemma_sort_by_key(input, line_key());
        }
        Some(PartialLoadError { causes: sorted })
    }

    /// The number of Issue records omitted from the in-memory view.
    pub fn skipped_records(&self) -> (n: usize)
        ensures
            n == self.spec_causes().len(),
            n > 0,
    {
        proof {
            use_type_invariant(self);
        }
        self.causes.len()
    }

    /// The causes, in line order.
    pub fn causes(&self) -> (r: &[SkippedIssueRecordCause])
        ensures
            r@ == self.spec_causes(),
            sorted_by_key(r@, line_key()),
    {
        proof {
            use_type_invariant(self);
        }
        self.causes.as_slice()
    }

    /// The first cause (lowest line), as the error's source.
    pub fn source(&self) -> (r: Option<&SkippedIssueRecordCause>)
        ensures
            r == Some(&self.spec_causes()[0]),
    {
        proof {
            use_type_invariant(self);
        }
        Some(&self.causes[0])
    }

    /// The user-facing message: the count and every cause, in line order.
    pub fn to_string(&self) -> (r: String)
        ensures
            r@ == partial_load_message(self.spec_causes()),
    {
        let mut v: Vec<char> = Vec::new();
        push_partial_load(&mut v, self);
        string_of(&v)
    }
}

/// The message of a partial load.
pub open spec fn partial_load_message(causes: Seq<SkippedIssueRecordCause>) -> Seq<char> {
    "Refusing to modify storage after an incomplete JSONL load: "@ + decimal(causes.len())
        + " issue record(s) were skipped: "@ + causes_text(causes)
}

fn push_partial_load(v: &mut Vec<char>, e: &PartialLoadError)
    ensures
        final(v)@ == old(v)@ + partial_load_message(e.spec_causes()),
{
    let ghost start = v@;
    let causes = e.causes();
    push_str(v, "Refusing to modify storage after an incomplete JSONL load: ");
    push_decimal(v, causes.len() as u64);
    push_str(v, " issue record(s) were skipped: ");
    let ghost head = v@;
    let mut i: usize = 0;
    while i < causes.len()
        invariant
            i <= causes@.len(),
            causes@ == e.spec_causes(),
            v@ == head + causes_text(causes@.take(i as int)),
        decreases causes.len() - i,
    {
        let ghost before = v@;
        if i > 0 {
            push_str(v, "; ");
        }
        push_cause(v, &causes[i]);
        proof {
            let p = causes@.take(i as int + 1);
            assert(p.drop_last() =~= causes@.take(i as int));
            assert(p.last() == causes@[i as int]);
            if i == 0 {
                assert(p.len() == 1);
                assert(causes@.take(0) =~= Seq::<SkippedIssueRecordCause>::empty());
                assert(v@ =~= head + cause_message(p[0]));
            }
        }
        i += 1;
    }
    assert(causes@.take(causes@.len() as int) =~= causes@);
}

fn insert_cause(sorted: &mut Vec<SkippedIssueRecordCause>, x: SkippedIssueRecordCause)
    ensures
        final(sorted)@ == insert_by_key(old(sorted)@, x, line_key()),
{
    let line = x.line_number();
    let mut k: usize = sorted.len();
    while k > 0 && line < sorted[k - 1].line_number()
        invariant
            k <= sorted@.len(),
            sorted@ == old(sorted)@,
            line == cause_line(x),
            forall|j: int| k <= j < sorted@.len() ==> cause_line(x) < cause_line(#[trigger] sorted@[j]),
        decreases k,
    {
        k -= 1;
    }
    proof {
        lemma_insert_by_key_at(sorted@, x, line_key(), k as int);
    }
    sorted.insert(k, x);
}

// ---------------------------------------------------------------------------
// Storage errors
// ---------------------------------------------------------------------------

/// Storage-layer errors.
#[derive(Debug)]
pub enum StorageError {
    /// Issue data failed validation.
    Validation(String),
    /// Failed to generate a unique issue ID.
    IdGeneration(String),
    /// Attempted to add a dependency that already exists.
    DuplicateDependency {
        /// The source issue.
        from: IssueId,
        /// The target issue.
        to: IssueId,
    },
    /// Invalid format encountered during parsing.
    InvalidFormat(String),
    /// A write was attempted after Issue records were omitted while loading.
    UnsafePartialLoad(PartialLoadError),
    /// Persistent JSONL changed since this storage last synchronized.
    ExternalChange {
        /// Path whose persisted revision no longer matches.
        path: String,
    },
    /// JSON serialization failed during storage operations.
    Serialization(serde_json::Error),
    /// An Associated Resource invariant was violated.
    Resource(ResourceError),
    /// A status change violated the domain transition rules.
    InvalidStatusTransition(StatusTransitionError),
}

/// The message of a rejected status transition.
pub open spec fn transition_message(e: StatusTransitionError) -> Seq<char> {
    match e {
        StatusTransitionError::AlreadyClosed { current } => "Issue is already closed (status: "@
            + status_name(current) + ")"@,
        StatusTransitionError::NotClosed { current } => "Issue is not closed (status: "@
            + status_name(current) + ")"@,
    }
}

/// The user-facing message of a storage error; the wrapped domain errors
/// show their own message unchanged.
pub open spec fn storage_error_message(e: StorageError) -> Seq<char> {
    match e {
        StorageError::Validation(m) => "Validation failed: "@ + m@,
        StorageError::IdGeneration(m) => "ID generation failed: "@ + m@,
        StorageError::DuplicateDependency { from, to } => "Dependency already exists: "@ + from@
            + " -> "@ + to@,
        StorageError::InvalidFormat(m) => "Invalid format: "@ + m@,
        StorageError::UnsafePartialLoad(p) => partial_load_message(p.spec_causes()),
        StorageError::ExternalChange { path } => "Persistent storage changed externally: "@
            + path@,
        StorageError::Serialization(_) => "JSON serialization failed"@,
        StorageError::Resource(r) => resource_error_message(r@),
        StorageError::InvalidStatusTransition(t) => transition_message(t),
    }
}

impl StorageError {
    /// The user-facing message.
    pub fn to_string(&self) -> (r: String)
        ensures
            r@ == storage_error_message(*self),
    {
        let mut v: Vec<char> = Vec::new();
        push_storage_error(&mut v, self);
        string_of(&v)
    }

    /// Whether the error carries an underlying cause: the JSON error, the
    /// first skipped record, or a malformed URL's parser error.
    pub fn has_source(&self) -> (b: bool)
        ensures
            b == match self {
                StorageError::UnsafePartialLoad(_) => true,
                StorageError::Serialization(_) => true,
                StorageError::Resource(r) => r@ is MalformedWebUrl,
                _ => false,
            },
    {
        match self {
            StorageError::UnsafePartialLoad(_) => true,
            StorageError::Serialization(_) => true,
            StorageError::Resource(ResourceError::MalformedWebUrl { .. }) => true,
            _ => false,
        }
    }

    /// Separates an Associated Resource failure from other storage
    /// failures; any other error comes back unchanged.
    pub fn try_into_resource_error(self) -> (r: Result<ResourceError, StorageError>)
        ensures
            match self {
                StorageError::Resource(e) => r == Ok::<ResourceError, StorageError>(e),
                _ => r == Err::<ResourceError, StorageError>(self),
            },
    {
        match self {
            StorageError::Resource(source) => Ok(source),
            other => Err(other),
        }
    }

    /// Separates a rejected status transition from other storage failures;
    /// any other error comes back unchanged.
    pub fn try_into_status_transition_error(self) -> (r: Result<StatusTransitionError, StorageError>)
        ensures
            match self {
                StorageError::InvalidStatusTransition(e) => r == Ok::<
                    StatusTransitionError,
                    StorageError,
                >(e),
                _ => r == Err::<StatusTransitionError, StorageError>(self),
            },
    {
        match self {
            StorageError::InvalidStatusTransition(source) => Ok(source),
            other => Err(other),
        }
    }
}

fn push_storage_error(v: &mut Vec<char>, e: &StorageError)
    ensures
        final(v)@ == old(v)@ + storage_error_message(*e),
{
    let ghost start = v@;
    match e {
        StorageError::Validation(m) => {
            push_str(v, "Validation failed: ");
            push_str(v, m.as_str());
        },
        StorageError::IdGeneration(m) => {
            push_str(v, "ID generation failed: ");
            push_str(v, m.as_str());
        },
        StorageError::DuplicateDependency { from, to } => {
            push_str(v, "Dependency already exists: ");
            push_str(v, from.as_str());
            push_str(v, " -> ");
            push_str(v, to.as_str());
        },
        StorageError::InvalidFormat(m) => {
            push_str(v, "Invalid format: ");
            push_str(v, m.as_str());
        },
        StorageError::UnsafePartialLoad(p) => {
            push_partial_load(v, p);
        },
        StorageError::ExternalChange { path } => {
            push_str(v, "Persistent storage changed externally: ");
            push_str(v, path.as_str());
        },
        StorageError::Serialization(_) => {
            push_str(v, "JSON serialization failed");
        },
        StorageError::Resource(r) => {
            let t = r.to_string();
            push_str(v, t.as_str());
        },
        StorageError::InvalidStatusTransition(t) => {
            let m = t.to_string();
            push_str(v, m.as_str());
        },
    }
    assert(v@ =~= start + storage_error_message(*e));
}

impl From<PartialLoadError> for StorageError {
    fn from(e: PartialLoadError) -> (r: StorageError) {
        StorageError::UnsafePartialLoad(e)
    }
}

impl vstd::std_specs::convert::FromSpecImpl<PartialLoadError> for StorageError {
    open spec fn obeys_from_spec() -> bool {
        true
    }

    open spec fn from_spec(e: PartialLoadError) -> StorageError {
        StorageError::UnsafePartialLoad(e)
    }
}

impl From<ResourceError> for StorageError {
    fn from(e: ResourceError) -> (r: StorageError) {
        StorageError::Resource(e)
    }
}

impl vstd::std_specs::convert::FromSpecImpl<ResourceError> for StorageError {
    open spec fn obeys_from_spec() -> bool {
        true
    }

    open spec fn from_spec(e: ResourceError) -> StorageError {
        StorageError::Resource(e)
    }
}

impl From<StatusTransitionError> for StorageError {
    fn from(e: StatusTransitionError) -> (r: StorageError) {
        StorageError::InvalidStatusTransition(e)
    }
}

impl vstd::std_specs::convert::FromSpecImpl<StatusTransitionError> for StorageError {
    open spec fn obeys_from_spec() -> bool {
        true
    }

    open spec fn from_spec(e: StatusTransitionError) -> StorageError {
        StorageError::InvalidStatusTransition(e)
    }
}

// ---------------------------------------------------------------------------
// The operation error
// ---------------------------------------------------------------------------

/// The error type of rivets operations.
#[derive(Debug)]
pub enum RivetsError {
    /// An I/O error occurred.
    Io(std::io::Error),
    /// Configuration error.
    Config(ConfigError),
    /// Storage error.
    Storage(StorageError),
    /// Command-line input validation error.
    Validation {
        /// The field that failed validation.
        field: &'static str,
        /// Why the value was invalid.
        reason: String,
    },
    /// Issue not found.
    IssueNotFound(IssueId),
    /// Cannot delete an issue because other issues depend on it.
    HasDependents {
        /// The issue that cannot be deleted.
        issue_id: IssueId,
        /// The number of dependent issues.
        dependent_count: usize,
        /// The dependent issue IDs.
        dependents: Vec<IssueId>,
    },
    /// Circular dependency detected.
    CircularDependency {
        /// The source issue.
        from: IssueId,
        /// The target issue.
        to: IssueId,
    },
    /// Invalid issue ID format.
    InvalidIssueId(String),
    /// Invalid priority value.
    InvalidPriority(u8),
    /// Dependency not found.
    DependencyNotFound {
        /// The source issue.
        from: IssueId,
        /// The target issue.
        to: IssueId,
    },
    /// Issue already exists.
    IssueAlreadyExists(IssueId),
    /// JSON parsing error (e.g. loading corrupt JSONL files).
    Json(serde_json::Error),
}

/// The user-facing message of an operation error; `outside_text` is what an
/// outside error (I/O, JSON, YAML) says of itself, where one is the cause.
pub open spec fn error_message(e: RivetsError, outside_text: Seq<char>) -> Seq<char> {
    match e {
        RivetsError::Io(_) => "IO error: "@ + outside_text,
        RivetsError::Config(c) => config_error_message(c, outside_text),
        RivetsError::Storage(s) => storage_error_message(s),
        RivetsError::Validation { reason, .. } => reason@,
        RivetsError::IssueNotFound(id) => "Issue not found: "@ + id@,
        RivetsError::HasDependents { issue_id, dependent_count, dependents } => "Cannot delete "@
            + issue_id@ + ": "@ + decimal(dependent_count as nat)
            + " other issue(s) depend on it. Dependents: "@ + ids_debug_text(
            ids_view(dependents@),
        ),
        RivetsError::CircularDependency { from, to } => "Circular dependency detected: adding dependency from "@
            + from@ + " to "@ + to@ + " would create a cycle"@,
        RivetsError::InvalidIssueId(s) => "Invalid issue ID format: "@ + s@,
        RivetsError::InvalidPriority(p) => "Invalid priority value: "@ + decimal(p as nat)
            + " (must be 0-4)"@,
        RivetsError::DependencyNotFound { from, to } => "Dependency not found: "@ + from@ + " -> "@
            + to@,
        RivetsError::IssueAlreadyExists(id) => "Issue already exists: "@ + id@,
        RivetsError::Json(_) => "JSON error: "@ + outside_text,
    }
}

/// Whether a message of this error quotes an outside error's own text.
pub open spec fn quotes_outside_text(e: RivetsError) -> bool {
    match e {
        RivetsError::Io(_) => true,
        RivetsError::Json(_) => true,
        RivetsError::Config(c) => c is Parse,
        _ => false,
    }
}

impl RivetsError {
    /// The user-facing message.
    pub fn to_string(&self) -> (r: String)
        ensures
            exists|t: Seq<char>| r@ == error_message(*self, t),
            !quotes_outside_text(*self) ==> r@ == error_message(*self, Seq::<char>::empty()),
    {
        let mut v: Vec<char> = Vec::new();
        let ghost mut w = Seq::<char>::empty();
        match self {
            RivetsError::Io(e) => {
                push_str(&mut v, "IO error: ");
                let t = io_error_text(e);
                push_str(&mut v, t.as_str());
                proof {
                    w = t@;
                }
            },
            RivetsError::Config(c) => {
                let t = c.to_string();
                push_str(&mut v, t.as_str());
                proof {
                    w = choose|x: Seq<char>| t@ == config_error_message(*c, x);
                }
            },
            RivetsError::Storage(s) => {
                push_storage_error(&mut v, s);
            },
            RivetsError::Validation { reason, .. } => {
                push_str(&mut v, reason.as_str());
            },
            RivetsError::IssueNotFound(id) => {
                push_str(&mut v, "Issue not found: ");
                push_str(&mut v, id.as_str());
            },
            RivetsError::HasDependents { issue_id, dependent_count, dependents } => {
                push_str(&mut v, "Cannot delete ");
                push_str(&mut v, issue_id.as_str());
                push_str(&mut v, ": ");
                push_decimal(&mut v, *dependent_count as u64);
                push_str(&mut v, " other issue(s) depend on it. Dependents: ");
                let d = issue_ids_debug(dependents.as_slice());
                push_str(&mut v, d.as_str());
            },
            RivetsError::CircularDependency { from, to } => {
                push_str(&mut v, "Circular dependency detected: adding dependency from ");
                push_str(&mut v, from.as_str());
                push_str(&mut v, " to ");
                push_str(&mut v, to.as_str());
                push_str(&mut v, " would create a cycle");
            },
            RivetsError::InvalidIssueId(s) => {
                push_str(&mut v, "Invalid issue ID format: ");
                push_str(&mut v, s.as_str());
            },
            RivetsError::InvalidPriority(p) => {
                push_str(&mut v, "Invalid priority value: ");
                push_decimal(&mut v, *p as u64);
                push_str(&mut v, " (must be 0-4)");
            },
            RivetsError::DependencyNotFound { from, to } => {
                push_str(&mut v, "Dependency not found: ");
                push_str(&mut v, from.as_str());
                push_str(&mut v, " -> ");
                push_str(&mut v, to.as_str());
            },
            RivetsError::IssueAlreadyExists(id) => {
                push_str(&mut v, "Issue already exists: ");
                push_str(&mut v, id.as_str());
            },
            RivetsError::Json(e) => {
                push_str(&mut v, "JSON error: ");
                let t = json_error_text(e);
                push_str(&mut v, t.as_str());
                proof {
                    w = t@;
                }
            },
        }
        assert(v@ =~= error_message(*self, w));
        string_of(&v)
    }
}

impl From<ConfigError> for RivetsError {
    fn from(e: ConfigError) -> (r: RivetsError) {
        RivetsError::Config(e)
    }
}

impl vstd::std_specs::convert::FromSpecImpl<ConfigError> for RivetsError {
    open spec fn obeys_from_spec() -> bool {
        true
    }

    open spec fn from_spec(e: ConfigError) -> RivetsError {
        RivetsError::Config(e)
    }
}

impl From<StorageError> for RivetsError {
    fn from(e: StorageError) -> (r: RivetsError) {
        RivetsError::Storage(e)
    }
}

impl vstd::std_specs::convert::FromSpecImpl<StorageError> for RivetsError {
    open spec fn obeys_from_spec() -> bool {
        true
    }

    open spec fn from_spec(e: StorageError) -> RivetsError {
        RivetsError::Storage(e)
    }
}

impl From<std::io::Error> for RivetsError {
    fn from(e: std::io::Error) -> (r: RivetsError) {
        RivetsError::Io(e)
    }
}

impl vstd::std_specs::convert::FromSpecImpl<std::io::Error> for RivetsError {
    open spec fn obeys_from_spec() -> bool {
        true
    }

    open spec fn from_spec(e: std::io::Error) -> RivetsError {
        RivetsError::Io(e)
    }
}

impl From<serde_json::Error> for RivetsError {
    fn from(e: serde_json::Error) -> (r: RivetsError) {
        RivetsError::Json(e)
    }
}

impl vstd::std_specs::convert::FromSpecImpl<serde_json::Error> for RivetsError {
    open spec fn obeys_from_spec() -> bool {
        true
    }

    open spec fn from_spec(e: serde_json::Error) -> RivetsError {
        RivetsError::Json(e)
    }
}

} // verus!
