//! Workspace reporting values: information about the loaded configuration
//! and workspace-wide statistics.

use vstd::prelude::*;

use crate::domain::{IssueId, IssueStatus, MAX_PRIORITY};
use crate::error::ConfigError;
use crate::init::{RivetsConfig, StorageConfig, join_path};
use crate::resource::{lemma_split_on_step, split_on};
use crate::issue::Issue;
use crate::text::{chars_of, decimal, owned, push_decimal, push_str, str_eq, string_of};

verus! {

// ---------------------------------------------------------------------------
// Storage backends
// ---------------------------------------------------------------------------

/// Storage backend configuration: which storage implementation to use.
#[derive(Debug)]
pub enum StorageBackend {
    /// In-memory storage (ephemeral).
    InMemory,
    /// JSONL file storage (persistent), at the given path.
    Jsonl(String),
    /// PostgreSQL database, by connection string.
    PostgreSQL(String),
}

impl StorageBackend {
    /// The data file of a file-backed storage; `None` for the others.
    pub fn data_path(&self) -> (r: Option<&str>)
        ensures
            match self {
                StorageBackend::Jsonl(p) => r matches Some(x) && x@ == p@,
                _ => r is None,
            },
    {
        match self {
            StorageBackend::Jsonl(p) => Some(p.as_str()),
            _ => None,
        }
    }
}

/// `..` as a whole `/`-separated component of a path.
pub open spec fn has_parent_component(path: Seq<char>) -> bool {
    split_on(path, '/').contains(seq!['.', '.'])
}

fn is_parent_component(c: &Vec<char>) -> (b: bool)
    ensures
        b == (c@ == seq!['.', '.']),
{
    let b = c.len() == 2 && c[0] == '.' && c[1] == '.';
    proof {
        if b {
            assert(c@ =~= seq!['.', '.']);
        }
    }
    b
}

fn has_parent_reference(path: &str) -> (b: bool)
    ensures
        b == has_parent_component(path@),
{
    let v = chars_of(path);
    let ghost dd = seq!['.', '.'];
    let mut cur: Vec<char> = Vec::new();
    let ghost mut done: Seq<Seq<char>> = Seq::empty();
    let mut found = false;
    let mut i: usize = 0;
    proof {
        assert(v@.subrange(0, 0) =~= Seq::<char>::empty());
        assert(done.push(cur@) =~= seq![Seq::<char>::empty()]);
    }
    while i < v.len()
        invariant
            i <= v@.len(),
            v@ == path@,
            dd == seq!['.', '.'],
            split_on(v@.subrange(0, i as int), '/') == done.push(cur@),
            found == done.contains(dd),
        decreases v.len() - i,
    {
        proof {
            lemma_split_on_step(v@, i as int, '/');
        }
        if v[i] == '/' {
            let here = is_parent_component(&cur);
            proof {
                let d2 = done.push(cur@);
                assert(d2.contains(dd) <==> (done.contains(dd) || cur@ == dd)) by {
                    if d2.contains(dd) {
                        let k = choose|k: int| 0 <= k < d2.len() && d2[k] == dd;
                        if k < done.len() {
                            assert(done[k] == d2[k]);
                        }
                    }
                    if done.contains(dd) {
                        let k = choose|k: int| 0 <= k < done.len() && done[k] == dd;
                        assert(d2[k] == done[k]);
                    }
                    if cur@ == dd {
                        assert(d2[done.len() as int] == dd);
                    }
                }
                done = d2;
            }
            found = found || here;
            cur = Vec::new();
            proof {
                assert(done.push(cur@) =~= split_on(v@.subrange(0, i as int), '/').push(
                    Seq::<char>::empty(),
                ));
            }
        } else {
            cur.push(v[i]);
            proof {
                let p = split_on(v@.subrange(0, i as int), '/');
                assert(p.update(p.len() - 1, p.last().push(v@[i as int])) =~= done.push(cur@));
            }
        }
        i += 1;
    }
    proof {
        assert(v@.subrange(0, v@.len() as int) =~= path@);
    }
    let last = is_parent_component(&cur);
    proof {
        let parts = done.push(cur@);
        assert(parts.contains(dd) <==> (done.contains(dd) || cur@ == dd)) by {
            if parts.contains(dd) {
                let k = choose|k: int| 0 <= k < parts.len() && parts[k] == dd;
                if k < done.len() {
                    assert(done[k] == parts[k]);
                }
            }
            if done.contains(dd) {
                let k = choose|k: int| 0 <= k < done.len() && done[k] == dd;
                assert(parts[k] == done[k]);
            }
            if cur@ == dd {
                assert(parts[done.len() as int] == dd);
            }
        }
    }
    found || last
}

impl StorageConfig {
    /// Resolves the storage section to a backend: `memory` keeps issues in
    /// memory; `jsonl` stores them in the data file, which must be a
    /// relative path with no `..` component; `postgresql` is recognized but
    /// not implemented; any other name is unknown.
    pub fn to_backend(&self) -> (r: Result<StorageBackend, ConfigError>)
        ensures
            match r {
                Ok(StorageBackend::InMemory) => self.backend@ == "memory"@,
                Ok(StorageBackend::Jsonl(p)) => {
                    &&& self.backend@ == "jsonl"@
                    &&& p@ == self.data_file@
                    &&& !(self.data_file@.len() > 0 && self.data_file@[0] == '/')
                    &&& !has_parent_component(self.data_file@)
                },
                Err(ConfigError::AbsoluteDataPath) => self.backend@ == "jsonl"@
                    && self.data_file@.len() > 0 && self.data_file@[0] == '/',
                Err(ConfigError::PathTraversal) => {
                    &&& self.backend@ == "jsonl"@
                    &&& !(self.data_file@.len() > 0 && self.data_file@[0] == '/')
                    &&& has_parent_component(self.data_file@)
                },
                Err(ConfigError::UnsupportedBackend(b)) => self.backend@ == "postgresql"@ && b@
                    == self.backend@,
                Err(ConfigError::UnknownBackend(b)) => {
                    &&& self.backend@ != "memory"@
                    &&& self.backend@ != "jsonl"@
                    &&& self.backend@ != "postgresql"@
                    &&& b@ == self.backend@
                },
                _ => false,
            },
    {
        if str_eq(self.backend.as_str(), "memory") {
            return Ok(StorageBackend::InMemory);
        }
        if str_eq(self.backend.as_str(), "postgresql") {
            return Err(ConfigError::UnsupportedBackend(self.backend.clone()));
        }
        if !str_eq(self.backend.as_str(), "jsonl") {
            return Err(ConfigError::UnknownBackend(self.backend.clone()));
        }
        let v = chars_of(self.data_file.as_str());
        if v.len() > 0 && v[0] == '/' {
            return Err(ConfigError::AbsoluteDataPath);
        }
        if has_parent_reference(self.data_file.as_str()) {
            return Err(ConfigError::PathTraversal);
        }
        Ok(StorageBackend::Jsonl(self.data_file.clone()))
    }
}

// ---------------------------------------------------------------------------
// Workspace information
// ---------------------------------------------------------------------------

/// Immutable information about the loaded workspace configuration.
#[derive(Debug, PartialEq, Eq)]
pub struct WorkspaceInformation {
    workspace_root: String,
    database_path: String,
    config_path: String,
    storage_backend: String,
    issue_prefix: String,
}

impl WorkspaceInformation {
    pub closed spec fn spec_workspace_root(&self) -> Seq<char> {
        self.workspace_root@
    }

    pub closed spec fn spec_database_path(&self) -> Seq<char> {
        self.database_path@
    }

    pub closed spec fn spec_config_path(&self) -> Seq<char> {
        self.config_path@
    }

    pub closed spec fn spec_storage_backend(&self) -> Seq<char> {
        self.storage_backend@
    }

    pub closed spec fn spec_issue_prefix(&self) -> Seq<char> {
        self.issue_prefix@
    }

    /// Projects the loaded configuration and its resolved backend.
    /// `workspace_root` and `config_path` are the canonical absolute paths of
    /// the workspace and of its configuration file; the database path is the
    /// backend's data path joined onto the root. A backend without a data
    /// path is unsupported.
    pub fn from_config(
        workspace_root: &str,
        config_path: &str,
        config: &RivetsConfig,
        backend: &StorageBackend,
    ) -> (r: Result<Self, ConfigError>)
        ensures
            match backend {
                StorageBackend::Jsonl(p) => r matches Ok(info) && info.spec_workspace_root()
                    == workspace_root@ && info.spec_config_path() == config_path@
                    && info.spec_database_path() == join_path(workspace_root@, p@)
                    && info.spec_storage_backend() == config.storage.backend@
                    && info.spec_issue_prefix() == config.issue_prefix@,
                _ => r matches Err(e) && e matches ConfigError::UnsupportedBackend(b) && b@
                    == config.storage.backend@,
            },
    {
        let data = match backend.data_path() {
            Some(p) => p,
            None => {
                return Err(ConfigError::UnsupportedBackend(config.storage.backend.clone()));
            },
        };
        Ok(
            WorkspaceInformation {
                workspace_root: owned(workspace_root),
                database_path: crate::init::join(workspace_root, data),
                config_path: owned(config_path),
                storage_backend: config.storage.backend.clone(),
                issue_prefix: config.issue_prefix.clone(),
            },
        )
    }

    /// Canonical absolute workspace root.
    pub fn workspace_root(&self) -> (r: &str)
        ensures
            r@ == self.spec_workspace_root(),
    {
        self.workspace_root.as_str()
    }

    /// Absolute configured storage path.
    pub fn database_path(&self) -> (r: &str)
        ensures
            r@ == self.spec_database_path(),
    {
        self.database_path.as_str()
    }

    /// Canonical absolute configuration path.
    pub fn config_path(&self) -> (r: &str)
        ensures
            r@ == self.spec_config_path(),
    {
        self.config_path.as_str()
    }

    /// Configured storage backend name.
    pub fn storage_backend(&self) -> (r: &str)
        ensures
            r@ == self.spec_storage_backend(),
    {
        self.storage_backend.as_str()
    }

    /// Issue ID prefix from the loaded configuration.
    pub fn issue_prefix(&self) -> (r: &str)
        ensures
            r@ == self.spec_issue_prefix(),
    {
        self.issue_prefix.as_str()
    }
}

// ---------------------------------------------------------------------------
// Workspace statistics
// ---------------------------------------------------------------------------

/// Issue counts per Workflow State.
#[derive(Debug, Clone, Copy, PartialEq, Eq, Structural)]
pub struct StatusCounts {
    /// Open issues.
    pub open: usize,
    /// In Progress issues.
    pub in_progress: usize,
    /// Closed issues.
    pub closed: usize,
}

/// Shared workspace-wide statistics.
#[derive(Debug, Clone, Copy, PartialEq, Eq)]
pub struct WorkspaceStatistics {
    total: usize,
    by_status: StatusCounts,
    ready: usize,
    blocked_by_dependencies: usize,
    by_priority: [usize; 5],
}

/// How many issues have status `st`.
pub open spec fn count_status(issues: Seq<Issue>, st: IssueStatus) -> nat
    decreases issues.len(),
{
    if issues.len() == 0 {
        0
    } else {
        count_status(issues.drop_last(), st) + if issues.last().status == st {
            1nat
        } else {
            0nat
        }
    }
}

/// How many issues have priority `p`.
pub open spec fn count_priority(issues: Seq<Issue>, p: u8) -> nat
    decreases issues.len(),
{
    if issues.len() == 0 {
        0
    } else {
        count_priority(issues.drop_last(), p) + if issues.last().priority == p {
            1nat
        } else {
            0nat
        }
    }
}

/// Intrinsically Ready: Open and not blocked by a dependency.
pub open spec fn ready_spec(issue: Issue, blocked: Seq<Seq<char>>) -> bool {
    issue.status == IssueStatus::Open && !blocked.contains(issue.id@)
}

/// How many issues are intrinsically Ready.
pub open spec fn count_ready(issues: Seq<Issue>, blocked: Seq<Seq<char>>) -> nat
    decreases issues.len(),
{
    if issues.len() == 0 {
        0
    } else {
        count_ready(issues.drop_last(), blocked) + if ready_spec(issues.last(), blocked) {
            1nat
        } else {
            0nat
        }
    }
}

/// The identifiers' views.
pub open spec fn id_views(ids: Seq<IssueId>) -> Seq<Seq<char>> {
    ids.map_values(|i: IssueId| i@)
}

/// The position of the first issue whose priority is beyond P4.
pub open spec fn first_bad_priority(issues: Seq<Issue>) -> Option<int> {
    if exists|i: int| 0 <= i < issues.len() && #[trigger] issues[i].priority > MAX_PRIORITY {
        Some(
            choose|i: int|
                0 <= i < issues.len() && #[trigger] issues[i].priority > MAX_PRIORITY && forall|
                    j: int,
                | 0 <= j < i ==> issues[j].priority <= MAX_PRIORITY,
        )
    } else {
        None
    }
}

proof fn lemma_some_first_bad(issues: Seq<Issue>, k: int)
    requires
        0 <= k < issues.len(),
        issues[k].priority > MAX_PRIORITY,
    ensures
        exists|i: int|
            0 <= i < issues.len() && #[trigger] issues[i].priority > MAX_PRIORITY && forall|j: int|
                0 <= j < i ==> issues[j].priority <= MAX_PRIORITY,
    decreases k,
{
    if exists|j: int| 0 <= j < k && #[trigger] issues[j].priority > MAX_PRIORITY {
        let j = choose|j: int| 0 <= j < k && #[trigger] issues[j].priority > MAX_PRIORITY;
        lemma_some_first_bad(issues, j);
    } else {
        assert(forall|j: int| 0 <= j < k ==> issues[j].priority <= MAX_PRIORITY);
    }
}

/// [`first_bad_priority`] is the position of the first issue beyond P4
/// exactly when there is one, and `None` exactly when every priority is
/// within P0..P4.
pub proof fn lemma_first_bad_priority(issues: Seq<Issue>)
    ensures
        match first_bad_priority(issues) {
            Some(i) => {
                &&& 0 <= i < issues.len()
                &&& issues[i].priority > MAX_PRIORITY
                &&& forall|j: int| 0 <= j < i ==> issues[j].priority <= MAX_PRIORITY
            },
            None => forall|i: int| 0 <= i < issues.len() ==> issues[i].priority <= MAX_PRIORITY,
        },
{
    if exists|i: int| 0 <= i < issues.len() && #[trigger] issues[i].priority > MAX_PRIORITY {
        let k = choose|i: int| 0 <= i < issues.len() && #[trigger] issues[i].priority > MAX_PRIORITY;
        lemma_some_first_bad(issues, k);
    }
}

/// Why statistics could not be aggregated.
#[derive(Debug, Clone, Copy, PartialEq, Eq, Structural)]
pub enum StatisticsError {
    /// An issue's priority is outside P0-P4.
    InvalidPriority(u8),
}

impl StatisticsError {
    /// The user-facing message.
    pub fn to_string(&self) -> (r: String)
        ensures
            match self {
                StatisticsError::InvalidPriority(p) => r@ == "Invalid priority value: "@
                    + crate::text::decimal(*p as nat) + " (must be 0-4)"@,
            },
    {
        match self {
            StatisticsError::InvalidPriority(p) => {
                let mut v: Vec<char> = Vec::new();
                push_str(&mut v, "Invalid priority value: ");
                push_decimal(&mut v, *p as u64);
                push_str(&mut v, " (must be 0-4)");
                string_of(&v)
            },
        }
    }
}

/// The intrinsic Ready predicate: the issue is Open and not in the blocked
/// set. Assignment plays no part.
pub fn is_intrinsically_ready(issue: &Issue, blocked: &[IssueId]) -> (b: bool)
    ensures
        b == ready_spec(*issue, id_views(blocked@)),
{
    if issue.status != IssueStatus::Open {
        return false;
    }
    let mut i: usize = 0;
    while i < blocked.len()
        invariant
            i <= blocked@.len(),
            forall|t: int| 0 <= t < i ==> #[trigger] blocked@[t]@ != issue.id@,
        decreases blocked.len() - i,
    {
        if blocked[i].same_as(&issue.id) {
            assert(id_views(blocked@)[i as int] == issue.id@);
            return false;
        }
        i += 1;
    }
    assert(!id_views(blocked@).contains(issue.id@)) by {
        if id_views(blocked@).contains(issue.id@) {
            let t = choose|t: int| 0 <= t < id_views(blocked@).len() && id_views(blocked@)[t]
                == issue.id@;
            assert(blocked@[t]@ == issue.id@);
        }
    }
    true
}

proof fn lemma_count_bounds(issues: Seq<Issue>, blocked: Seq<Seq<char>>)
    ensures
        count_status(issues, IssueStatus::Open) + count_status(issues, IssueStatus::InProgress)
            + count_status(issues, IssueStatus::Blocked) + count_status(
            issues,
            IssueStatus::Closed,
        ) == issues.len(),
        count_ready(issues, blocked) <= count_status(issues, IssueStatus::Open),
    decreases issues.len(),
{
    if issues.len() > 0 {
        lemma_count_bounds(issues.drop_last(), blocked);
    }
}

proof fn lemma_priority_sum(issues: Seq<Issue>)
    requires
        forall|i: int| 0 <= i < issues.len() ==> #[trigger] issues[i].priority <= MAX_PRIORITY,
    ensures
        count_priority(issues, 0) + count_priority(issues, 1) + count_priority(issues, 2)
            + count_priority(issues, 3) + count_priority(issues, 4) == issues.len(),
    decreases issues.len(),
{
    if issues.len() > 0 {
        let s = issues.drop_last();
        assert forall|i: int| 0 <= i < s.len() implies #[trigger] s[i].priority <= MAX_PRIORITY by {
            assert(s[i] == issues[i]);
        }
        lemma_priority_sum(s);
        assert(issues.last() == issues[issues.len() - 1]);
    }
}

impl WorkspaceStatistics {
    pub closed spec fn spec_total(&self) -> usize {
        self.total
    }

    pub closed spec fn spec_open(&self) -> usize {
        self.by_status.open
    }

    pub closed spec fn spec_in_progress(&self) -> usize {
        self.by_status.in_progress
    }

    pub closed spec fn spec_closed(&self) -> usize {
        self.by_status.closed
    }

    pub closed spec fn spec_ready(&self) -> usize {
        self.ready
    }

    pub closed spec fn spec_blocked_by_dependencies(&self) -> usize {
        self.blocked_by_dependencies
    }

    pub closed spec fn spec_by_priority(&self) -> Seq<usize> {
        self.by_priority@
    }

    /// Aggregates every report bucket from one snapshot of the issues and of
    /// the set of issues blocked by an unresolved dependency. Issues whose
    /// status is Blocked are counted in the total but in no status bucket.
    /// An issue with a priority beyond P4 is an error, reported for the first
    /// such issue.
    pub fn aggregate(issues: &[Issue], blocked: &[IssueId]) -> (r: Result<
        WorkspaceStatistics,
        StatisticsError,
    >)
        ensures
            match r {
                Ok(s) => {
                    &&& first_bad_priority(issues@) is None
                    &&& s.spec_total() == issues@.len()
                    &&& s.spec_open() == count_status(issues@, IssueStatus::Open)
                    &&& s.spec_in_progress() == count_status(issues@, IssueStatus::InProgress)
                    &&& s.spec_closed() == count_status(issues@, IssueStatus::Closed)
                    &&& s.spec_ready() == count_ready(issues@, id_views(blocked@))
                    &&& s.spec_blocked_by_dependencies() == blocked@.len()
                    &&& s.spec_by_priority().len() == 5
                    &&& forall|p: int|
                        0 <= p < 5 ==> #[trigger] s.spec_by_priority()[p] == count_priority(
                            issues@,
                            p as u8,
                        )
                },
                Err(StatisticsError::InvalidPriority(p)) => first_bad_priority(issues@) matches Some(
                    i,
                ) && issues@[i].priority == p,
            },
    {
        let ghost bv = id_views(blocked@);
        let mut open: usize = 0;
        let mut in_progress: usize = 0;
        let mut closed: usize = 0;
        let mut ready: usize = 0;
        let mut p0: usize = 0;
        let mut p1: usize = 0;
        let mut p2: usize = 0;
        let mut p3: usize = 0;
        let mut p4: usize = 0;
        let mut i: usize = 0;
        while i < issues.len()
            invariant
                i <= issues@.len(),
                bv == id_views(blocked@),
                forall|j: int| 0 <= j < i ==> #[trigger] issues@[j].priority <= MAX_PRIORITY,
                open == count_status(issues@.take(i as int), IssueStatus::Open),
                in_progress == count_status(issues@.take(i as int), IssueStatus::InProgress),
                closed == count_status(issues@.take(i as int), IssueStatus::Closed),
                ready == count_ready(issues@.take(i as int), bv),
                p0 == count_priority(issues@.take(i as int), 0),
                p1 == count_priority(issues@.take(i as int), 1),
                p2 == count_priority(issues@.take(i as int), 2),
                p3 == count_priority(issues@.take(i as int), 3),
                p4 == count_priority(issues@.take(i as int), 4),
            decreases issues.len() - i,
        {
            let issue = &issues[i];
            let ghost prev = issues@.take(i as int);
            let ghost next = issues@.take(i as int + 1);
            proof {
                assert(next.drop_last() =~= prev);
                assert(next.last() == issues@[i as int]);
                lemma_count_bounds(prev, bv);
                lemma_priority_sum(prev);
            }
            if issue.priority > MAX_PRIORITY {
                proof {
                    assert(first_bad_priority(issues@) == Some(i as int)) by {
                        let k = choose|k: int|
                            0 <= k < issues@.len() && #[trigger] issues@[k].priority > MAX_PRIORITY
                                && forall|j: int| 0 <= j < k ==> issues@[j].priority <= MAX_PRIORITY;
                        assert(issues@[i as int].priority > MAX_PRIORITY);
                        if k < i {
                            assert(issues@[k].priority <= MAX_PRIORITY);
                        } else if k > i {
                            assert(issues@[i as int].priority <= MAX_PRIORITY);
                        }
                    }
                }
                return Err(StatisticsError::InvalidPriority(issue.priority));
            }
            match issue.status {
                IssueStatus::Open => open = open + 1,
                IssueStatus::InProgress => in_progress = in_progress + 1,
                IssueStatus::Closed => closed = closed + 1,
                IssueStatus::Blocked => {},
            }
            if issue.priority == 0 {
                p0 = p0 + 1;
            } else if issue.priority == 1 {
                p1 = p1 + 1;
            } else if issue.priority == 2 {
                p2 = p2 + 1;
            } else if issue.priority == 3 {
                p3 = p3 + 1;
            } else {
                p4 = p4 + 1;
            }
            if is_intrinsically_ready(issue, blocked) {
                ready = ready + 1;
            }
            i += 1;
        }
        assert(issues@.take(issues@.len() as int) =~= issues@);
        proof {
            assert(!(exists|k: int|
                0 <= k < issues@.len() && #[trigger] issues@[k].priority > MAX_PRIORITY));
        }
        let s = WorkspaceStatistics {
            total: issues.len(),
            by_status: StatusCounts { open, in_progress, closed },
            ready,
            blocked_by_dependencies: blocked.len(),
            by_priority: [p0, p1, p2, p3, p4],
        };
        proof {
            assert forall|p: int| 0 <= p < 5 implies #[trigger] s.spec_by_priority()[p]
                == count_priority(issues@, p as u8) by {
                if p == 0 {
                } else if p == 1 {
                } else if p == 2 {
                } else if p == 3 {
                } else {
                }
            }
        }
        Ok(s)
    }

    /// Number of issues in the workspace.
    pub fn total(&self) -> (r: usize)
        ensures
            r == self.spec_total(),
    {
        self.total
    }

    /// Number of Open issues.
    pub fn open(&self) -> (r: usize)
        ensures
            r == self.spec_open(),
    {
        self.by_status.open
    }

    /// Number of In Progress issues.
    pub fn in_progress(&self) -> (r: usize)
        ensures
            r == self.spec_in_progress(),
    {
        self.by_status.in_progress
    }

    /// Number of Closed issues.
    pub fn closed(&self) -> (r: usize)
        ensures
            r == self.spec_closed(),
    {
        self.by_status.closed
    }

    /// Number of intrinsically Ready issues across all assignments.
    pub fn ready(&self) -> (r: usize)
        ensures
            r == self.spec_ready(),
    {
        self.ready
    }

    /// Number of non-Closed issues with an unresolved direct Blocking
    /// Dependency.
    pub fn blocked_by_dependencies(&self) -> (r: usize)
        ensures
            r == self.spec_blocked_by_dependencies(),
    {
        self.blocked_by_dependencies
    }

    /// Counts for priorities P0 through P4.
    pub fn by_priority(&self) -> (r: &[usize; 5])
        ensures
            r@ == self.spec_by_priority(),
    {
        &self.by_priority
    }
}

impl Default for WorkspaceStatistics {
    fn default() -> (s: Self)
        ensures
            s.spec_total() == 0,
            s.spec_open() == 0,
            s.spec_in_progress() == 0,
            s.spec_closed() == 0,
            s.spec_ready() == 0,
            s.spec_blocked_by_dependencies() == 0,
            s.spec_by_priority() == seq![0usize, 0usize, 0usize, 0usize, 0usize],
    {
        let s = WorkspaceStatistics {
            total: 0,
            by_status: StatusCounts { open: 0, in_progress: 0, closed: 0 },
            ready: 0,
            blocked_by_dependencies: 0,
            by_priority: [0, 0, 0, 0, 0],
        };
        assert(s.spec_by_priority() =~= seq![0usize, 0usize, 0usize, 0usize, 0usize]);
        s
    }
}

/// Every issue is counted once: the status buckets together with the
/// Blocked-status issues make up the total, and the priority buckets of a
/// successful aggregation make up the total too; Ready issues are a subset
/// of the Open ones.
pub proof fn lemma_statistics_partition(issues: Seq<Issue>, blocked: Seq<Seq<char>>)
    ensures
        count_status(issues, IssueStatus::Open) + count_status(issues, IssueStatus::InProgress)
            + count_status(issues, IssueStatus::Blocked) + count_status(
            issues,
            IssueStatus::Closed,
        ) == issues.len(),
        count_ready(issues, blocked) <= count_status(issues, IssueStatus::Open),
        first_bad_priority(issues) is None ==> count_priority(issues, 0) + count_priority(issues, 1)
            + count_priority(issues, 2) + count_priority(issues, 3) + count_priority(issues, 4)
            == issues.len(),
{
    lemma_count_bounds(issues, blocked);
    if first_bad_priority(issues) is None {
        lemma_priority_sum(issues);
    }
}

// ---------------------------------------------------------------------------
// Text reports
// ---------------------------------------------------------------------------

/// The text report of workspace information.
pub open spec fn information_text(info: WorkspaceInformation) -> Seq<char> {
    "Workspace Information\n=====================\n\n"@ + "Workspace:    "@
        + info.spec_workspace_root() + seq!['\n'] + "Database:     "@ + info.spec_database_path()
        + seq!['\n'] + "Config:       "@ + info.spec_config_path() + seq!['\n'] + "Storage:      "@
        + info.spec_storage_backend() + seq!['\n'] + "Issue prefix: "@ + info.spec_issue_prefix()
        + seq!['\n']
}

/// Appends the text report of workspace information.
pub fn print_information_text(out: &mut String, information: &WorkspaceInformation)
    ensures
        final(out)@ == old(out)@ + information_text(*information),
{
    let mut v: Vec<char> = Vec::new();
    push_str(&mut v, "Workspace Information\n=====================\n\n");
    push_str(&mut v, "Workspace:    ");
    push_str(&mut v, information.workspace_root());
    v.push('\n');
    push_str(&mut v, "Database:     ");
    push_str(&mut v, information.database_path());
    v.push('\n');
    push_str(&mut v, "Config:       ");
    push_str(&mut v, information.config_path());
    v.push('\n');
    push_str(&mut v, "Storage:      ");
    push_str(&mut v, information.storage_backend());
    v.push('\n');
    push_str(&mut v, "Issue prefix: ");
    push_str(&mut v, information.issue_prefix());
    v.push('\n');
    assert(v@ =~= information_text(*information));
    let s = string_of(&v);
    crate::render::append(out, s.as_str());
}

/// `{label}{n}` and a newline.
pub open spec fn count_line(label: Seq<char>, n: nat) -> Seq<char> {
    label + decimal(n) + seq!['\n']
}

fn push_count_line(v: &mut Vec<char>, label: &str, n: usize)
    ensures
        final(v)@ == old(v)@ + count_line(label@, n as nat),
{
    push_str(v, label);
    push_decimal(v, n as u64);
    v.push('\n');
}

/// The text report of workspace statistics.
pub open spec fn statistics_text(st: WorkspaceStatistics) -> Seq<char> {
    let p = st.spec_by_priority();
    "Workspace Statistics\n====================\n\n"@ + count_line(
        "Total Issues:  "@,
        st.spec_total() as nat,
    ) + seq!['\n'] + "By Workflow State:\n"@ + count_line(
        "  Open:        "@,
        st.spec_open() as nat,
    ) + count_line("  In Progress: "@, st.spec_in_progress() as nat) + count_line(
        "  Closed:      "@,
        st.spec_closed() as nat,
    ) + seq!['\n'] + count_line("Ready to Work: "@, st.spec_ready() as nat) + count_line(
        "Blocked by Dependencies: "@,
        st.spec_blocked_by_dependencies() as nat,
    ) + seq!['\n'] + "By Priority:\n"@ + count_line("  P0 (Critical): "@, p[0] as nat)
        + count_line("  P1 (High): "@, p[1] as nat) + count_line("  P2 (Medium): "@, p[2] as nat)
        + count_line("  P3 (Low): "@, p[3] as nat) + count_line("  P4 (Backlog): "@, p[4] as nat)
}

/// Appends the text report of workspace statistics.
pub fn print_statistics_text(out: &mut String, statistics: &WorkspaceStatistics)
    ensures
        final(out)@ == old(out)@ + statistics_text(*statistics),
{
    let p = statistics.by_priority();
    let mut v: Vec<char> = Vec::new();
    push_str(&mut v, "Workspace Statistics\n====================\n\n");
    push_count_line(&mut v, "Total Issues:  ", statistics.total());
    v.push('\n');
    push_str(&mut v, "By Workflow State:\n");
    push_count_line(&mut v, "  Open:        ", statistics.open());
    push_count_line(&mut v, "  In Progress: ", statistics.in_progress());
    push_count_line(&mut v, "  Closed:      ", statistics.closed());
    v.push('\n');
    push_count_line(&mut v, "Ready to Work: ", statistics.ready());
    push_count_line(&mut v, "Blocked by Dependencies: ", statistics.blocked_by_dependencies());
    v.push('\n');
    let ghost mid = v@;
    push_str(&mut v, "By Priority:\n");
    push_count_line(&mut v, "  P0 (Critical): ", p[0]);
    push_count_line(&mut v, "  P1 (High): ", p[1]);
    push_count_line(&mut v, "  P2 (Medium): ", p[2]);
    push_count_line(&mut v, "  P3 (Low): ", p[3]);
    push_count_line(&mut v, "  P4 (Backlog): ", p[4]);
    assert(v@ =~= statistics_text(*statistics));
    let s = string_of(&v);
    crate::render::append(out, s.as_str());
}

/// An issue is Ready exactly when it is Open and its identifier is none of
/// the blocked identifiers.
pub proof fn lemma_ready_means_open_and_unblocked(issue: Issue, blocked: Seq<Seq<char>>)
    ensures
        ready_spec(issue, blocked) ==> issue.status == IssueStatus::Open,
        forall|k: int| 0 <= k < blocked.len() && blocked[k] == issue.id@ ==> !ready_spec(issue, blocked),
        (issue.status == IssueStatus::Open && forall|k: int| 0 <= k < blocked.len() ==> blocked[k] != issue.id@)
            ==> ready_spec(issue, blocked),
{
    assert forall|k: int| 0 <= k < blocked.len() && blocked[k] == issue.id@ implies !ready_spec(issue, blocked) by {
        assert(blocked.contains(issue.id@));
    }
}

/// The Ready count: never more than the Open issues; none when every Open
/// issue is blocked; all Open issues when none is blocked.
pub proof fn lemma_ready_count(issues: Seq<Issue>, blocked: Seq<Seq<char>>)
    ensures
        count_ready(issues, blocked) <= count_status(issues, IssueStatus::Open),
        (forall|i: int| 0 <= i < issues.len() && issues[i].status == IssueStatus::Open ==> blocked.contains(
            #[trigger] issues[i].id@,
        )) ==> count_ready(issues, blocked) == 0,
        (forall|i: int| 0 <= i < issues.len() ==> !blocked.contains(#[trigger] issues[i].id@))
            ==> count_ready(issues, blocked) == count_status(issues, IssueStatus::Open),
    decreases issues.len(),
{
    if issues.len() > 0 {
        let init = issues.drop_last();
        lemma_ready_count(init, blocked);
        let last = issues.last();
        lemma_ready_means_open_and_unblocked(last, blocked);
        if forall|i: int| 0 <= i < issues.len() && issues[i].status == IssueStatus::Open ==> blocked.contains(
            #[trigger] issues[i].id@,
        ) {
            assert forall|i: int| 0 <= i < init.len() && init[i].status == IssueStatus::Open implies blocked.contains(
                #[trigger] init[i].id@,
            ) by {
                assert(init[i] == issues[i]);
            }
            assert(issues[issues.len() - 1] == last);
        }
        if forall|i: int| 0 <= i < issues.len() ==> !blocked.contains(#[trigger] issues[i].id@) {
            assert forall|i: int| 0 <= i < init.len() implies !blocked.contains(#[trigger] init[i].id@) by {
                assert(init[i] == issues[i]);
            }
            assert(issues[issues.len() - 1] == last);
        }
    }
}

/// The information report shows the workspace's database path on its
/// `Database:` line and its configuration path on its `Config:` line.
pub proof fn lemma_information_lines(info: WorkspaceInformation)
    ensures
        exists|a: Seq<char>, b: Seq<char>|
            information_text(info) == a + "\nDatabase:     "@ + info.spec_database_path() + "\n"@ + b,
        exists|a: Seq<char>, b: Seq<char>|
            information_text(info) == a + "\nConfig:       "@ + info.spec_config_path() + "\n"@ + b,
{
    reveal_strlit("\n");
    reveal_strlit("\nDatabase:     ");
    reveal_strlit("Database:     ");
    reveal_strlit("\nConfig:       ");
    reveal_strlit("Config:       ");
    let t = information_text(info);
    let a1 = "Workspace Information\n=====================\n\n"@ + "Workspace:    "@
        + info.spec_workspace_root();
    let b1 = "Config:       "@ + info.spec_config_path() + seq!['\n'] + "Storage:      "@
        + info.spec_storage_backend() + seq!['\n'] + "Issue prefix: "@ + info.spec_issue_prefix()
        + seq!['\n'];
    assert(t =~= a1 + "\nDatabase:     "@ + info.spec_database_path() + "\n"@ + b1);
    let a2 = a1 + seq!['\n'] + "Database:     "@ + info.spec_database_path();
    let b2 = "Storage:      "@ + info.spec_storage_backend() + seq!['\n'] + "Issue prefix: "@
        + info.spec_issue_prefix() + seq!['\n'];
    assert(t =~= a2 + "\nConfig:       "@ + info.spec_config_path() + "\n"@ + b2);
}

} // verus!
