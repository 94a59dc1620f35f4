//! The decisions and messages of the commands, apart from the storage calls
//! they make and the output they print.

use vstd::prelude::*;

use crate::cli::{BatchError, BatchResult, SortOrderArg};
use crate::domain::{IssueId, IssueStatus, Timestamp, ts_before};
use crate::issue::Issue;
use crate::relationship::{BlockingDependency, DiscoveryOrigin, Parentage, RelatedAssociation};
use crate::sorting::{
    insert_by_key, lemma_insert_by_key_at, lemma_sort_by_key, lemma_sorted_take, sort_by_key,
    sorted_by_key,
};
use crate::resource::{
    AssociatedResource, ResourceError, ResourceErrorView, ResourceLabel, ResourceTarget, TargetView, WebUrl,
    WorkspacePath, resource_label_error, web_url_outcome, workspace_path_result,
};
use crate::text::{decimal, owned, push_decimal, push_str, seq_lt, string_of};

verus! {

// ---------------------------------------------------------------------------
// Issue selection from flags
// ---------------------------------------------------------------------------

/// Exactly one of a positional issue ID and the `--ids` list must be given.
pub open spec fn label_ids_result(issue_id: Option<Seq<char>>, ids: Seq<Seq<char>>) -> Result<
    Seq<Seq<char>>,
    Seq<char>,
> {
    match issue_id {
        Some(id) => if ids.len() == 0 {
            Ok(seq![id])
        } else {
            Err("Cannot use both positional issue ID and --ids flag. Use one or the other."@)
        },
        None => if ids.len() > 0 {
            Ok(ids)
        } else {
            Err("Must provide an issue ID (positional) or use --ids flag with one or more IDs."@)
        },
    }
}

/// The issues a label command applies to.
pub fn resolve_label_issue_ids(issue_id: &Option<String>, ids: &[String]) -> (r: Result<
    Vec<String>,
    String,
>)
    ensures
        match r {
            Ok(v) => label_ids_result(
                crate::domain::opt_string_view(*issue_id),
                crate::domain::strings_view(ids@),
            ) == Ok::<Seq<Seq<char>>, Seq<char>>(crate::domain::strings_view(v@)),
            Err(e) => label_ids_result(
                crate::domain::opt_string_view(*issue_id),
                crate::domain::strings_view(ids@),
            ) == Err::<Seq<Seq<char>>, Seq<char>>(e@),
        },
{
    match issue_id {
        Some(id) => {
            if ids.len() == 0 {
                let mut v: Vec<String> = Vec::new();
                v.push(id.clone());
                assert(crate::domain::strings_view(v@) =~= seq![id@]);
                Ok(v)
            } else {
                Err(
                    owned(
                        "Cannot use both positional issue ID and --ids flag. Use one or the other.",
                    ),
                )
            }
        },
        None => {
            if ids.len() > 0 {
                let mut v: Vec<String> = Vec::new();
                let mut i: usize = 0;
                while i < ids.len()
                    invariant
                        i <= ids@.len(),
                        crate::domain::strings_view(v@) == crate::domain::strings_view(
                            ids@,
                        ).take(i as int),
                    decreases ids.len() - i,
                {
                    let c = ids[i].clone();
                    let ghost before = v@;
                    v.push(c);
                    proof {
                        assert(v@ == before.push(c));
                        assert(crate::domain::strings_view(v@) =~= crate::domain::strings_view(
                            before,
                        ).push(c@));
                        assert(crate::domain::strings_view(ids@)[i as int] == ids@[i as int]@);
                    }
                    i += 1;
                    assert(crate::domain::strings_view(v@) =~= crate::domain::strings_view(
                        ids@,
                    ).take(i as int));
                }
                assert(crate::domain::strings_view(ids@).take(ids@.len() as int)
                    =~= crate::domain::strings_view(ids@));
                Ok(v)
            } else {
                Err(
                    owned(
                        "Must provide an issue ID (positional) or use --ids flag with one or more IDs.",
                    ),
                )
            }
        },
    }
}

/// Why `--url`/`--path` could not be read.
#[derive(Debug)]
pub enum TargetFlagsError {
    /// The URL or path was rejected.
    Resource(ResourceError),
    /// Both flags were given.
    BothGiven,
    /// Neither flag was given where a target is required.
    NeitherGiven,
}

impl TargetFlagsError {
    /// The user-facing message.
    pub fn to_string(&self) -> (r: String)
        ensures
            match self {
                TargetFlagsError::Resource(e) => r@ == crate::resource::resource_error_message(e@),
                TargetFlagsError::BothGiven => r@ == "only one of --url or --path may be given"@,
                TargetFlagsError::NeitherGiven => r@ == "exactly one of --url or --path is required"@,
            },
    {
        match self {
            TargetFlagsError::Resource(e) => e.to_string(),
            TargetFlagsError::BothGiven => owned("only one of --url or --path may be given"),
            TargetFlagsError::NeitherGiven => owned("exactly one of --url or --path is required"),
        }
    }
}

/// At most one of `--url` and `--path`, read as a Resource Target.
pub fn parse_target_flags(url: Option<&str>, path: Option<&str>) -> (r: Result<
    Option<ResourceTarget>,
    TargetFlagsError,
>)
    ensures
        match (url, path) {
            (Some(u), None) => match r {
                Ok(Some(t)) => t@ is Web && web_url_outcome(
                    u@,
                    Ok::<Seq<char>, ResourceErrorView>(t@->Web_0),
                ),
                Err(TargetFlagsError::Resource(e)) => web_url_outcome(
                    u@,
                    Err::<Seq<char>, ResourceErrorView>(e@),
                ),
                _ => false,
            },
            (None, Some(p)) => match r {
                Ok(Some(t)) => t@ is Path && workspace_path_result(p@) == Ok::<
                    Seq<char>,
                    ResourceErrorView,
                >(t@->Path_0),
                Err(TargetFlagsError::Resource(e)) => workspace_path_result(p@) == Err::<
                    Seq<char>,
                    ResourceErrorView,
                >(e@),
                _ => false,
            },
            (None, None) => r matches Ok(None),
            (Some(_), Some(_)) => r matches Err(TargetFlagsError::BothGiven),
        },
{
    match (url, path) {
        (Some(u), None) => match WebUrl::new(u) {
            Ok(w) => Ok(Some(ResourceTarget::web(w))),
            Err(e) => Err(TargetFlagsError::Resource(e)),
        },
        (None, Some(p)) => match WorkspacePath::new(p) {
            Ok(w) => Ok(Some(ResourceTarget::path(w))),
            Err(e) => Err(TargetFlagsError::Resource(e)),
        },
        (None, None) => Ok(None),
        (Some(_), Some(_)) => Err(TargetFlagsError::BothGiven),
    }
}

/// Exactly one of `--url` and `--path`, read as the target of a new
/// resource: as [`parse_target_flags`], and an error when neither is given.
pub fn required_target(url: Option<&str>, path: Option<&str>) -> (r: Result<
    ResourceTarget,
    TargetFlagsError,
>)
    ensures
        (url is None && path is None) <==> r matches Err(TargetFlagsError::NeitherGiven),
        match (url, path) {
            (Some(u), None) => match r {
                Ok(t) => t@ is Web && web_url_outcome(u@, Ok::<Seq<char>, ResourceErrorView>(t@->Web_0)),
                Err(TargetFlagsError::Resource(e)) => web_url_outcome(
                    u@,
                    Err::<Seq<char>, ResourceErrorView>(e@),
                ),
                _ => false,
            },
            (None, Some(p)) => match r {
                Ok(t) => t@ is Path && workspace_path_result(p@) == Ok::<
                    Seq<char>,
                    ResourceErrorView,
                >(t@->Path_0),
                Err(TargetFlagsError::Resource(e)) => workspace_path_result(p@) == Err::<
                    Seq<char>,
                    ResourceErrorView,
                >(e@),
                _ => false,
            },
            (None, None) => true,
            (Some(_), Some(_)) => r matches Err(TargetFlagsError::BothGiven),
        },
{
    match parse_target_flags(url, path) {
        Ok(Some(t)) => Ok(t),
        Ok(None) => Err(TargetFlagsError::NeitherGiven),
        Err(e) => Err(e),
    }
}

/// Why `--label`/`--no-label` could not be read.
#[derive(Debug)]
pub enum LabelFlagsError {
    /// The label was rejected.
    Resource(ResourceError),
    /// Both flags were given.
    BothGiven,
}

impl LabelFlagsError {
    /// The user-facing message.
    pub fn to_string(&self) -> (r: String)
        ensures
            match self {
                LabelFlagsError::Resource(e) => r@ == crate::resource::resource_error_message(e@),
                LabelFlagsError::BothGiven => r@ == "only one of --label or --no-label may be given"@,
            },
    {
        match self {
            LabelFlagsError::Resource(e) => e.to_string(),
            LabelFlagsError::BothGiven => owned("only one of --label or --no-label may be given"),
        }
    }
}

/// The label change of a resource update: a new label, clearing it, or
/// leaving it as it is.
pub fn resource_label_change(label: Option<&str>, no_label: bool) -> (r: Result<
    Option<Option<ResourceLabel>>,
    LabelFlagsError,
>)
    ensures
        match (label, no_label) {
            (Some(l), false) => match r {
                Ok(Some(Some(x))) => resource_label_error(l@) is None && x@ == l@,
                Err(LabelFlagsError::Resource(e)) => resource_label_error(l@) == Some(e@),
                _ => false,
            },
            (None, true) => r matches Ok(Some(None)),
            (None, false) => r matches Ok(None),
            (Some(_), true) => r matches Err(LabelFlagsError::BothGiven),
        },
{
    match (label, no_label) {
        (Some(l), false) => match ResourceLabel::new(l) {
            Ok(x) => Ok(Some(Some(x))),
            Err(e) => Err(LabelFlagsError::Resource(e)),
        },
        (None, true) => Ok(Some(None)),
        (None, false) => Ok(None),
        (Some(_), true) => Err(LabelFlagsError::BothGiven),
    }
}

// ---------------------------------------------------------------------------
// Counting and batch reports
// ---------------------------------------------------------------------------

/// Issue counts by status, with the total.
#[derive(Debug, Clone, Copy, PartialEq, Eq, Structural)]
pub struct StatusCounts {
    /// All issues.
    pub total: usize,
    /// Open issues.
    pub open: usize,
    /// In Progress issues.
    pub in_progress: usize,
    /// Closed issues.
    pub closed: usize,
}

/// Counts issues by status in one pass; Blocked issues count only in the
/// total.
pub fn count_by_status(issues: &[Issue]) -> (c: StatusCounts)
    ensures
        c.total == issues@.len(),
        c.open == crate::reporting::count_status(issues@, IssueStatus::Open),
        c.in_progress == crate::reporting::count_status(issues@, IssueStatus::InProgress),
        c.closed == crate::reporting::count_status(issues@, IssueStatus::Closed),
{
    let mut c = StatusCounts { total: 0, open: 0, in_progress: 0, closed: 0 };
    let mut i: usize = 0;
    while i < issues.len()
        invariant
            i <= issues@.len(),
            c.total == i,
            c.open == crate::reporting::count_status(issues@.take(i as int), IssueStatus::Open),
            c.in_progress == crate::reporting::count_status(
                issues@.take(i as int),
                IssueStatus::InProgress,
            ),
            c.closed == crate::reporting::count_status(issues@.take(i as int), IssueStatus::Closed),
        decreases issues.len() - i,
    {
        let ghost prev = issues@.take(i as int);
        let ghost next = issues@.take(i as int + 1);
        proof {
            assert(next.drop_last() =~= prev);
            assert(next.last() == issues@[i as int]);
            crate::reporting::lemma_statistics_partition(prev, Seq::<Seq<char>>::empty());
        }
        c.total = c.total + 1;
        match issues[i].status {
            IssueStatus::Open => c.open = c.open + 1,
            IssueStatus::InProgress => c.in_progress = c.in_progress + 1,
            IssueStatus::Closed => c.closed = c.closed + 1,
            IssueStatus::Blocked => {},
        }
        i += 1;
    }
    assert(issues@.take(issues@.len() as int) =~= issues@);
    c
}

/// How many issues have each priority from 0 to 4.
pub fn priority_breakdown(issues: &[Issue]) -> (r: Vec<usize>)
    ensures
        r@.len() == 5,
        forall|p: int| 0 <= p < 5 ==> #[trigger] r@[p] == crate::reporting::count_priority(issues@, p as u8),
{
    let mut r: Vec<usize> = vec![0, 0, 0, 0, 0];
    let mut i: usize = 0;
    while i < issues.len()
        invariant
            i <= issues@.len(),
            r@.len() == 5,
            forall|p: int| 0 <= p < 5 ==> #[trigger] r@[p] == crate::reporting::count_priority(
                issues@.take(i as int),
                p as u8,
            ),
            forall|p: int| 0 <= p < 5 ==> r@[p] <= i,
        decreases issues.len() - i,
    {
        let ghost prev = issues@.take(i as int);
        let ghost next = issues@.take(i as int + 1);
        proof {
            assert(next.drop_last() =~= prev);
            assert(next.last() == issues@[i as int]);
        }
        let pr = issues[i].priority;
        if pr < 5 {
            let k = pr as usize;
            let old_count = r[k];
            r.set(k, old_count + 1);
        }
        proof {
            assert forall|p: int| 0 <= p < 5 implies #[trigger] r@[p] == crate::reporting::count_priority(
                next,
                p as u8,
            ) by {
                assert(crate::reporting::count_priority(next, p as u8) == crate::reporting::count_priority(
                    prev,
                    p as u8,
                ) + if issues@[i as int].priority == p as u8 {
                    1nat
                } else {
                    0nat
                });
            }
        }
        i += 1;
    }
    assert(issues@.take(issues@.len() as int) =~= issues@);
    r
}

/// The priority labels of the detailed statistics.
pub open spec fn priority_label(p: int) -> Seq<char> {
    if p == 0 {
        "P0 (Critical)"@
    } else if p == 1 {
        "P1 (High)"@
    } else if p == 2 {
        "P2 (Medium)"@
    } else if p == 3 {
        "P3 (Low)"@
    } else {
        "P4 (Backlog)"@
    }
}

/// The per-priority lines of the detailed statistics, for the first `n`
/// priorities.
pub open spec fn priority_lines(by_priority: Seq<usize>, n: int) -> Seq<char>
    decreases n,
{
    if n <= 0 {
        Seq::<char>::empty()
    } else {
        priority_lines(by_priority, n - 1) + "  "@ + priority_label(n - 1) + ": "@ + decimal(
            by_priority[n - 1] as nat,
        ) + seq!['\n']
    }
}

/// The text of `stats`: the totals by status, the ready and blocked counts,
/// and, when asked for, the counts by priority.
pub open spec fn project_stats_text(
    counts: StatusCounts,
    ready: usize,
    blocked: usize,
    by_priority: Option<Seq<usize>>,
) -> Seq<char> {
    "Project Statistics\n==================\n\nTotal Issues:  "@ + decimal(counts.total as nat)
        + "\n\nBy Status:\n  Open:        "@ + decimal(counts.open as nat)
        + "\n  In Progress: "@ + decimal(counts.in_progress as nat) + "\n  Closed:      "@
        + decimal(counts.closed as nat) + "\n\nReady to Work: "@ + decimal(ready as nat)
        + "\nBlocked by Dependencies: "@ + decimal(blocked as nat) + seq!['\n'] + match by_priority {
        None => Seq::<char>::empty(),
        Some(b) => "\nBy Priority:\n"@ + priority_lines(b, 5),
    }
}

/// The text of `stats`.
pub fn project_stats(
    counts: &StatusCounts,
    ready: usize,
    blocked: usize,
    by_priority: Option<&Vec<usize>>,
) -> (r: String)
    requires
        by_priority matches Some(b) ==> b@.len() == 5,
    ensures
        r@ == project_stats_text(
            *counts,
            ready,
            blocked,
            match by_priority {
                Some(b) => Some(b@),
                None => None,
            },
        ),
{
    let mut v: Vec<char> = Vec::new();
    push_str(&mut v, "Project Statistics\n==================\n\nTotal Issues:  ");
    push_decimal(&mut v, counts.total as u64);
    push_str(&mut v, "\n\nBy Status:\n  Open:        ");
    push_decimal(&mut v, counts.open as u64);
    push_str(&mut v, "\n  In Progress: ");
    push_decimal(&mut v, counts.in_progress as u64);
    push_str(&mut v, "\n  Closed:      ");
    push_decimal(&mut v, counts.closed as u64);
    push_str(&mut v, "\n\nReady to Work: ");
    push_decimal(&mut v, ready as u64);
    push_str(&mut v, "\nBlocked by Dependencies: ");
    push_decimal(&mut v, blocked as u64);
    v.push('\n');
    match by_priority {
        None => {},
        Some(b) => {
            push_str(&mut v, "\nBy Priority:\n");
            let ghost head = v@;
            let labels = ["P0 (Critical)", "P1 (High)", "P2 (Medium)", "P3 (Low)", "P4 (Backlog)"];
            let mut p: usize = 0;
            while p < 5
                invariant
                    p <= 5,
                    b@.len() == 5,
                    labels@.len() == 5,
                    forall|q: int| 0 <= q < 5 ==> (#[trigger] labels@[q])@ == priority_label(q),
                    v@ == head + priority_lines(b@, p as int),
                decreases 5 - p,
            {
                push_str(&mut v, "  ");
                push_str(&mut v, labels[p]);
                push_str(&mut v, ": ");
                push_decimal(&mut v, b[p] as u64);
                v.push('\n');
                p += 1;
            }
        },
    }
    string_of(&v)
}

/// What became of one issue of a batch: processed and saved; processed but
/// not saved (with the reload's failure when reloading failed too); or the
/// operation itself failed.
pub enum BatchOutcome {
    /// The issue was processed and saved.
    Saved(Issue),
    /// The issue was processed but saving failed.
    SaveFailed {
        /// Why the save failed.
        save_error: String,
        /// Why the reload that followed failed, if it did.
        reload_error: Option<String>,
    },
    /// The operation on the issue failed.
    Failed(String),
}

/// The failure message of a batch entry whose save failed.
pub open spec fn save_failure_message(save_error: Seq<char>, reload_error: Option<Seq<char>>) -> Seq<
    char,
> {
    match reload_error {
        None => "Save failed: "@ + save_error,
        Some(r) => "Save failed: "@ + save_error + " (reload also failed: "@ + r
            + " - state may be inconsistent. Run 'rivets list' to verify current state)"@,
    }
}

/// Records one outcome in a batch result: a saved issue joins the
/// successes; anything else becomes a failure for `issue_id` with its
/// message. Nothing else changes.
pub fn record_batch_outcome(result: &mut BatchResult, issue_id: &str, outcome: BatchOutcome)
    ensures
        match outcome {
            BatchOutcome::Saved(issue) => {
                &&& final(result).succeeded@ == old(result).succeeded@.push(issue)
                &&& final(result).failed@ == old(result).failed@
            },
            _ => {
                &&& final(result).succeeded@ == old(result).succeeded@
                &&& final(result).failed@.len() == old(result).failed@.len() + 1
                &&& final(result).failed@.drop_last() == old(result).failed@
                &&& final(result).failed@.last().issue_id@ == issue_id@
                &&& final(result).failed@.last().error@ == match outcome {
                    BatchOutcome::SaveFailed { save_error, reload_error } => save_failure_message(
                        save_error@,
                        crate::domain::opt_string_view(reload_error),
                    ),
                    BatchOutcome::Failed(m) => m@,
                    BatchOutcome::Saved(_) => Seq::<char>::empty(),
                }
            },
        },
{
    match outcome {
        BatchOutcome::Saved(issue) => {
            result.succeeded.push(issue);
        },
        BatchOutcome::SaveFailed { save_error, reload_error } => {
            let mut v: Vec<char> = Vec::new();
            push_str(&mut v, "Save failed: ");
            push_str(&mut v, save_error.as_str());
            match &reload_error {
                Some(r) => {
                    push_str(&mut v, " (reload also failed: ");
                    push_str(&mut v, r.as_str());
                    push_str(
                        &mut v,
                        " - state may be inconsistent. Run 'rivets list' to verify current state)",
                    );
                },
                None => {},
            }
            let ghost before = result.failed@;
            result.failed.push(BatchError { issue_id: owned(issue_id), error: string_of(&v) });
            assert(result.failed@.drop_last() =~= before);
        },
        BatchOutcome::Failed(m) => {
            let ghost before = result.failed@;
            result.failed.push(BatchError { issue_id: owned(issue_id), error: m });
            assert(result.failed@.drop_last() =~= before);
        },
    }
}

/// The ids joined with `, `.
pub open spec fn join_ids(issues: Seq<Issue>) -> Seq<char>
    decreases issues.len(),
{
    if issues.len() == 0 {
        Seq::<char>::empty()
    } else if issues.len() == 1 {
        issues[0].id@
    } else {
        join_ids(issues.drop_last()) + seq![',', ' '] + issues.last().id@
    }
}

/// `{action} {n} issue(s): {ids}` when something succeeded.
pub open spec fn batch_success_text(result: BatchResult, action: Seq<char>) -> Option<Seq<char>> {
    if result.succeeded@.len() == 0 {
        None
    } else {
        Some(
            action + seq![' '] + decimal(result.succeeded@.len()) + " issue(s): "@ + join_ids(
                result.succeeded@,
            ),
        )
    }
}

/// The success line of a batch, printed on standard output.
pub fn batch_success_line(result: &BatchResult, action: &str) -> (r: Option<String>)
    ensures
        crate::domain::opt_string_view(r) == batch_success_text(*result, action@),
{
    if result.succeeded.len() == 0 {
        return None;
    }
    let mut v: Vec<char> = Vec::new();
    push_str(&mut v, action);
    v.push(' ');
    push_decimal(&mut v, result.succeeded.len() as u64);
    push_str(&mut v, " issue(s): ");
    let ghost head = v@;
    let mut i: usize = 0;
    while i < result.succeeded.len()
        invariant
            i <= result.succeeded@.len(),
            v@ == head + join_ids(result.succeeded@.take(i as int)),
        decreases result.succeeded.len() - i,
    {
        if i > 0 {
            v.push(',');
            v.push(' ');
        }
        push_str(&mut v, result.succeeded[i].id.as_str());
        proof {
            let p = result.succeeded@.take(i as int + 1);
            assert(p.drop_last() =~= result.succeeded@.take(i as int));
            assert(p.last() == result.succeeded@[i as int]);
            if i == 0 {
                assert(p[0] == result.succeeded@[0]);
            }
            assert(v@ =~= head + join_ids(p));
        }
        i += 1;
    }
    assert(result.succeeded@.take(result.succeeded@.len() as int) =~= result.succeeded@);
    Some(string_of(&v))
}

/// `  {id}: {error}` lines.
pub open spec fn failure_lines(failed: Seq<crate::cli::BatchError>) -> Seq<char>
    decreases failed.len(),
{
    if failed.len() == 0 {
        Seq::<char>::empty()
    } else {
        failure_lines(failed.drop_last()) + seq![' ', ' '] + failed.last().issue_id@ + seq![
            ':',
            ' ',
        ] + failed.last().error@ + seq!['\n']
    }
}

/// `Failed {n} issue(s):` and one line per failure, when something failed.
pub open spec fn batch_failure_text(result: BatchResult) -> Option<Seq<char>> {
    if result.failed@.len() == 0 {
        None
    } else {
        Some(
            "Failed "@ + decimal(result.failed@.len()) + " issue(s):\n"@ + failure_lines(
                result.failed@,
            ),
        )
    }
}

/// The failure report of a batch, printed on standard error.
pub fn batch_failure_report(result: &BatchResult) -> (r: Option<String>)
    ensures
        crate::domain::opt_string_view(r) == batch_failure_text(*result),
{
    if result.failed.len() == 0 {
        return None;
    }
    let mut v: Vec<char> = Vec::new();
    push_str(&mut v, "Failed ");
    push_decimal(&mut v, result.failed.len() as u64);
    push_str(&mut v, " issue(s):\n");
    let ghost head = v@;
    let mut i: usize = 0;
    while i < result.failed.len()
        invariant
            i <= result.failed@.len(),
            v@ == head + failure_lines(result.failed@.take(i as int)),
        decreases result.failed.len() - i,
    {
        v.push(' ');
        v.push(' ');
        push_str(&mut v, result.failed[i].issue_id.as_str());
        v.push(':');
        v.push(' ');
        push_str(&mut v, result.failed[i].error.as_str());
        v.push('\n');
        proof {
            let p = result.failed@.take(i as int + 1);
            assert(p.drop_last() =~= result.failed@.take(i as int));
            assert(p.last() == result.failed@[i as int]);
            assert(v@ =~= head + failure_lines(p));
        }
        i += 1;
    }
    assert(result.failed@.take(result.failed@.len() as int) =~= result.failed@);
    Some(string_of(&v))
}

/// Fails with `{failed} of {total} {action}(s) failed` when any issue of the
/// batch failed; succeeds otherwise.
pub fn bail_on_batch_failures(result: &BatchResult, action: &str) -> (r: Result<(), String>)
    requires
        result.succeeded@.len() + result.failed@.len() <= usize::MAX,
    ensures
        result.failed@.len() == 0 <==> r is Ok,
        r matches Err(m) ==> m@ == decimal(result.failed@.len()) + " of "@ + decimal(
            result.succeeded@.len() + result.failed@.len(),
        ) + seq![' '] + action@ + "(s) failed"@,
{
    if !result.has_failures() {
        return Ok(());
    }
    let mut v: Vec<char> = Vec::new();
    push_decimal(&mut v, result.failed.len() as u64);
    push_str(&mut v, " of ");
    push_decimal(&mut v, result.total() as u64);
    v.push(' ');
    push_str(&mut v, action);
    push_str(&mut v, "(s) failed");
    Err(string_of(&v))
}

// ---------------------------------------------------------------------------
// Confirmation
// ---------------------------------------------------------------------------

/// A confirmation answer is `y` or `yes` in any case, ignoring surrounding
/// whitespace.
pub open spec fn accepted_answer(input: Seq<char>) -> bool {
    crate::output::eq_ignore_ascii_case(crate::text::trim(input), "y"@)
        || crate::output::eq_ignore_ascii_case(crate::text::trim(input), "yes"@)
}

/// A confirmation answer is accepted exactly when, without its surrounding
/// whitespace, it is `y` or `yes` in any mix of ASCII letter case.
pub proof fn lemma_accepted_answers(input: Seq<char>)
    ensures
        accepted_answer(input) <==> {
            let t = crate::text::trim(input);
            ||| (t.len() == 1 && (t[0] == 'y' || t[0] == 'Y'))
            ||| (t.len() == 3 && (t[0] == 'y' || t[0] == 'Y') && (t[1] == 'e' || t[1] == 'E') && (
            t[2] == 's' || t[2] == 'S'))
        },
{
    let t = crate::text::trim(input);
    reveal_strlit("y");
    reveal_strlit("yes");
    let y = "y"@;
    let yes = "yes"@;
    assert(y[0] == 'y');
    assert(yes[0] == 'y' && yes[1] == 'e' && yes[2] == 's');
    if t.len() == 1 {
        assert(crate::output::eq_ignore_ascii_case(t, y) <==> crate::output::ascii_lower(t[0])
            == crate::output::ascii_lower(y[0]));
    }
    if t.len() == 3 {
        assert(crate::output::eq_ignore_ascii_case(t, yes) <==> (crate::output::ascii_lower(t[0])
            == crate::output::ascii_lower(yes[0]) && crate::output::ascii_lower(t[1])
            == crate::output::ascii_lower(yes[1]) && crate::output::ascii_lower(t[2])
            == crate::output::ascii_lower(yes[2])));
    }
    assert(crate::output::ascii_lower('y') == 'y');
    assert(crate::output::ascii_lower('e') == 'e');
    assert(crate::output::ascii_lower('s') == 's');
    assert forall|c: char| crate::output::ascii_lower(c) == 'y' <==> (c == 'y' || c == 'Y') by {
        if 'A' <= c && c <= 'Z' {
            assert((c as int) + 32 == 'y' as int <==> c as int == 'Y' as int);
        }
    }
    assert forall|c: char| crate::output::ascii_lower(c) == 'e' <==> (c == 'e' || c == 'E') by {
        if 'A' <= c && c <= 'Z' {
            assert((c as int) + 32 == 'e' as int <==> c as int == 'E' as int);
        }
    }
    assert forall|c: char| crate::output::ascii_lower(c) == 's' <==> (c == 's' || c == 'S') by {
        if 'A' <= c && c <= 'Z' {
            assert((c as int) + 32 == 's' as int <==> c as int == 'S' as int);
        }
    }
}

/// Whether the answer read from the terminal accepts the prompt.
pub fn confirmation_accepted(input: &str) -> (b: bool)
    ensures
        b == accepted_answer(input@),
{
    let v = crate::text::chars_of(input);
    let t = string_of(&crate::text::trim_chars(&v));
    crate::output::str_eq_ignore_ascii_case(t.as_str(), "y")
        || crate::output::str_eq_ignore_ascii_case(t.as_str(), "yes")
}

/// The prompt before acting on several issues: only for more than one issue
/// and when prompts are not skipped.
pub fn batch_confirmation_prompt(action: &str, count: usize, skip_confirm: bool) -> (r: Option<
    String,
>)
    ensures
        !(count > 1 && !skip_confirm) ==> r is None,
        count > 1 && !skip_confirm ==> (r matches Some(p) && p@ == action@ + seq![' '] + decimal(
            count as nat,
        ) + " issues?"@),
{
    if count > 1 && !skip_confirm {
        let mut v: Vec<char> = Vec::new();
        push_str(&mut v, action);
        v.push(' ');
        push_decimal(&mut v, count as u64);
        push_str(&mut v, " issues?");
        Some(string_of(&v))
    } else {
        None
    }
}

/// `{action} cancelled.`, printed when a batch prompt is declined.
pub fn cancelled_line(action: &str) -> (r: String)
    ensures
        r@ == action@ + " cancelled."@,
{
    let mut v: Vec<char> = Vec::new();
    push_str(&mut v, action);
    push_str(&mut v, " cancelled.");
    string_of(&v)
}

/// The prompt before deleting an issue: `Delete issue '{id}' ({title})?`.
pub fn delete_prompt(issue: &Issue) -> (r: String)
    ensures
        r@ == "Delete issue '"@ + issue.id@ + "' ("@ + issue.title@ + ")?"@,
{
    let mut v: Vec<char> = Vec::new();
    push_str(&mut v, "Delete issue '");
    push_str(&mut v, issue.id.as_str());
    push_str(&mut v, "' (");
    push_str(&mut v, issue.title.as_str());
    push_str(&mut v, ")?");
    string_of(&v)
}

// ---------------------------------------------------------------------------
// Relationship messages
// ---------------------------------------------------------------------------

/// `{dependent} depends on {prerequisite}`.
pub fn depends_on_line(dep: &BlockingDependency) -> (r: String)
    ensures
        r@ == dep.spec_dependent() + " depends on "@ + dep.spec_prerequisite(),
{
    let mut v: Vec<char> = Vec::new();
    push_str(&mut v, dep.dependent_id().as_str());
    push_str(&mut v, " depends on ");
    push_str(&mut v, dep.prerequisite_id().as_str());
    string_of(&v)
}

/// `Removed: {dependent} no longer depends on {prerequisite}`.
pub fn no_longer_depends_line(dep: &BlockingDependency) -> (r: String)
    ensures
        r@ == "Removed: "@ + dep.spec_dependent() + " no longer depends on "@
            + dep.spec_prerequisite(),
{
    let mut v: Vec<char> = Vec::new();
    push_str(&mut v, "Removed: ");
    push_str(&mut v, dep.dependent_id().as_str());
    push_str(&mut v, " no longer depends on ");
    push_str(&mut v, dep.prerequisite_id().as_str());
    string_of(&v)
}

/// A row of a prerequisite tree: two spaces per level, then the dependency.
pub fn tree_row_line(dep: &BlockingDependency, depth: usize) -> (r: String)
    ensures
        r@ == Seq::new((2 * depth) as nat, |i: int| ' ') + dep.spec_dependent() + " depends on "@
            + dep.spec_prerequisite(),
{
    let mut v: Vec<char> = Vec::new();
    let mut k: usize = 0;
    while k < depth
        invariant
            k <= depth,
            v@ == Seq::new((2 * k) as nat, |i: int| ' '),
        decreases depth - k,
    {
        v.push(' ');
        v.push(' ');
        k += 1;
        assert(v@ =~= Seq::new((2 * k) as nat, |i: int| ' '));
    }
    let line = depends_on_line(dep);
    push_str(&mut v, line.as_str());
    string_of(&v)
}

/// Which Blocking Dependencies to list.
#[derive(Debug)]
pub enum BlockingListQuery {
    /// The prerequisites of a dependent.
    PrerequisitesOf(IssueId),
    /// The dependents of a prerequisite.
    DependentsOf(IssueId),
}

/// Exactly one of `--dependent` and `--prerequisite` selects the listing.
pub fn blocking_list_query(dependent: Option<&str>, prerequisite: Option<&str>) -> (r: Result<
    BlockingListQuery,
    String,
>)
    ensures
        match (dependent, prerequisite) {
            (Some(d), None) => r matches Ok(BlockingListQuery::PrerequisitesOf(id)) && id@ == d@,
            (None, Some(p)) => r matches Ok(BlockingListQuery::DependentsOf(id)) && id@ == p@,
            _ => r matches Err(m) && m@ == "provide exactly one of --dependent or --prerequisite"@,
        },
{
    match (dependent, prerequisite) {
        (Some(d), None) => Ok(BlockingListQuery::PrerequisitesOf(IssueId::new(d))),
        (None, Some(p)) => Ok(BlockingListQuery::DependentsOf(IssueId::new(p))),
        _ => Err(owned("provide exactly one of --dependent or --prerequisite")),
    }
}

/// A tree depth of zero means no limit.
pub fn tree_depth_limit(depth: usize) -> (r: Option<usize>)
    ensures
        depth == 0 ==> r is None,
        depth != 0 ==> r == Some(depth),
{
    if depth != 0 {
        Some(depth)
    } else {
        None
    }
}

/// `{left} is related to {right}`.
pub fn related_line(a: &RelatedAssociation) -> (r: String)
    ensures
        r@ == a.spec_left() + " is related to "@ + a.spec_right(),
{
    let mut v: Vec<char> = Vec::new();
    push_str(&mut v, a.left_issue_id().as_str());
    push_str(&mut v, " is related to ");
    push_str(&mut v, a.right_issue_id().as_str());
    string_of(&v)
}

/// `Removed: {left} is no longer related to {right}`.
pub fn no_longer_related_line(a: &RelatedAssociation) -> (r: String)
    ensures
        r@ == "Removed: "@ + a.spec_left() + " is no longer related to "@ + a.spec_right(),
{
    let mut v: Vec<char> = Vec::new();
    push_str(&mut v, "Removed: ");
    push_str(&mut v, a.left_issue_id().as_str());
    push_str(&mut v, " is no longer related to ");
    push_str(&mut v, a.right_issue_id().as_str());
    string_of(&v)
}

/// `{discovered} was discovered from {source}`.
pub fn discovered_from_line(o: &DiscoveryOrigin) -> (r: String)
    ensures
        r@ == o.spec_discovered() + " was discovered from "@ + o.spec_source(),
{
    let mut v: Vec<char> = Vec::new();
    push_str(&mut v, o.discovered_issue_id().as_str());
    push_str(&mut v, " was discovered from ");
    push_str(&mut v, o.source_issue_id().as_str());
    string_of(&v)
}

/// `Removed: {discovered} was discovered from {source}`.
pub fn discovery_removed_line(o: &DiscoveryOrigin) -> (r: String)
    ensures
        r@ == "Removed: "@ + o.spec_discovered() + " was discovered from "@ + o.spec_source(),
{
    let mut v: Vec<char> = Vec::new();
    push_str(&mut v, "Removed: ");
    let line = discovered_from_line(o);
    push_str(&mut v, line.as_str());
    string_of(&v)
}

/// `Set parent: {child} -> {parent}`.
pub fn parent_set_line(p: &Parentage) -> (r: String)
    ensures
        r@ == "Set parent: "@ + p.spec_child() + " -> "@ + p.spec_parent(),
{
    let mut v: Vec<char> = Vec::new();
    push_str(&mut v, "Set parent: ");
    push_str(&mut v, p.child_id().as_str());
    push_str(&mut v, " -> ");
    push_str(&mut v, p.parent_id().as_str());
    string_of(&v)
}

/// `Cleared parent: {child} was owned by {parent}`.
pub fn parent_cleared_line(p: &Parentage) -> (r: String)
    ensures
        r@ == "Cleared parent: "@ + p.spec_child() + " was owned by "@ + p.spec_parent(),
{
    let mut v: Vec<char> = Vec::new();
    push_str(&mut v, "Cleared parent: ");
    push_str(&mut v, p.child_id().as_str());
    push_str(&mut v, " was owned by ");
    push_str(&mut v, p.parent_id().as_str());
    string_of(&v)
}

/// `Moved parent: {child} from {previous} to {parent}`.
pub fn parent_moved_line(p: &Parentage, previous: &Parentage) -> (r: String)
    ensures
        r@ == "Moved parent: "@ + p.spec_child() + " from "@ + previous.spec_parent() + " to "@
            + p.spec_parent(),
{
    let mut v: Vec<char> = Vec::new();
    push_str(&mut v, "Moved parent: ");
    push_str(&mut v, p.child_id().as_str());
    push_str(&mut v, " from ");
    push_str(&mut v, previous.parent_id().as_str());
    push_str(&mut v, " to ");
    push_str(&mut v, p.parent_id().as_str());
    string_of(&v)
}

/// `{child} has parent {parent}` or `{child} has no parent`.
pub fn parent_show_line(child: &IssueId, p: &Option<Parentage>) -> (r: String)
    ensures
        match p {
            Some(x) => r@ == x.spec_child() + " has parent "@ + x.spec_parent(),
            None => r@ == child@ + " has no parent"@,
        },
{
    let mut v: Vec<char> = Vec::new();
    match p {
        Some(x) => {
            push_str(&mut v, x.child_id().as_str());
            push_str(&mut v, " has parent ");
            push_str(&mut v, x.parent_id().as_str());
        },
        None => {
            push_str(&mut v, child.as_str());
            push_str(&mut v, " has no parent");
        },
    }
    string_of(&v)
}

// ---------------------------------------------------------------------------
// Relationship and resource listings
// ---------------------------------------------------------------------------

/// One `{dependent} depends on {prerequisite}` line per dependency.
pub open spec fn dependency_lines(deps: Seq<BlockingDependency>) -> Seq<char>
    decreases deps.len(),
{
    if deps.len() == 0 {
        Seq::<char>::empty()
    } else {
        dependency_lines(deps.drop_last()) + deps.last().spec_dependent() + " depends on "@
            + deps.last().spec_prerequisite() + seq!['\n']
    }
}

/// The listing of Blocking Dependencies: a note when there are none.
pub fn blocking_listing(deps: &[BlockingDependency]) -> (r: String)
    ensures
        deps@.len() == 0 ==> r@ == "No Blocking Dependencies found\n"@,
        deps@.len() > 0 ==> r@ == dependency_lines(deps@),
{
    if deps.len() == 0 {
        return owned("No Blocking Dependencies found\n");
    }
    let mut v: Vec<char> = Vec::new();
    let mut i: usize = 0;
    while i < deps.len()
        invariant
            i <= deps@.len(),
            v@ == dependency_lines(deps@.take(i as int)),
        decreases deps.len() - i,
    {
        let line = depends_on_line(&deps[i]);
        push_str(&mut v, line.as_str());
        v.push('\n');
        proof {
            let p = deps@.take(i as int + 1);
            assert(p.drop_last() =~= deps@.take(i as int));
            assert(p.last() == deps@[i as int]);
            assert(v@ =~= dependency_lines(p));
        }
        i += 1;
    }
    assert(deps@.take(deps@.len() as int) =~= deps@);
    string_of(&v)
}

/// One row per prerequisite, indented two spaces per level.
pub open spec fn tree_rows(rows: Seq<(BlockingDependency, usize)>) -> Seq<char>
    decreases rows.len(),
{
    if rows.len() == 0 {
        Seq::<char>::empty()
    } else {
        tree_rows(rows.drop_last()) + Seq::new((2 * rows.last().1) as nat, |i: int| ' ')
            + rows.last().0.spec_dependent() + " depends on "@ + rows.last().0.spec_prerequisite()
            + seq!['\n']
    }
}

/// The prerequisite tree of `dependent`: a note when it has none, else a
/// header and one row per prerequisite.
pub fn blocking_tree_listing(dependent: &str, rows: &[(BlockingDependency, usize)]) -> (r: String)
    ensures
        rows@.len() == 0 ==> r@ == dependent@ + " has no Blocking prerequisites\n"@,
        rows@.len() > 0 ==> r@ == "Blocking prerequisites of "@ + dependent@ + ":\n"@ + tree_rows(
            rows@,
        ),
{
    let mut v: Vec<char> = Vec::new();
    if rows.len() == 0 {
        push_str(&mut v, dependent);
        push_str(&mut v, " has no Blocking prerequisites\n");
        return string_of(&v);
    }
    push_str(&mut v, "Blocking prerequisites of ");
    push_str(&mut v, dependent);
    push_str(&mut v, ":\n");
    let ghost head = v@;
    let mut i: usize = 0;
    while i < rows.len()
        invariant
            i <= rows@.len(),
            v@ == head + tree_rows(rows@.take(i as int)),
        decreases rows.len() - i,
    {
        let line = tree_row_line(&rows[i].0, rows[i].1);
        push_str(&mut v, line.as_str());
        v.push('\n');
        proof {
            let p = rows@.take(i as int + 1);
            assert(p.drop_last() =~= rows@.take(i as int));
            assert(p.last() == rows@[i as int]);
            assert(v@ =~= head + tree_rows(p));
        }
        i += 1;
    }
    assert(rows@.take(rows@.len() as int) =~= rows@);
    string_of(&v)
}

/// One `{left} is related to {right}` line per association.
pub open spec fn related_lines(assocs: Seq<RelatedAssociation>) -> Seq<char>
    decreases assocs.len(),
{
    if assocs.len() == 0 {
        Seq::<char>::empty()
    } else {
        related_lines(assocs.drop_last()) + assocs.last().spec_left() + " is related to "@
            + assocs.last().spec_right() + seq!['\n']
    }
}

/// The listing of Related Associations: a note when there are none.
pub fn related_listing(assocs: &[RelatedAssociation]) -> (r: String)
    ensures
        assocs@.len() == 0 ==> r@ == "No Related Associations found\n"@,
        assocs@.len() > 0 ==> r@ == related_lines(assocs@),
{
    if assocs.len() == 0 {
        return owned("No Related Associations found\n");
    }
    let mut v: Vec<char> = Vec::new();
    let mut i: usize = 0;
    while i < assocs.len()
        invariant
            i <= assocs@.len(),
            v@ == related_lines(assocs@.take(i as int)),
        decreases assocs.len() - i,
    {
        let line = related_line(&assocs[i]);
        push_str(&mut v, line.as_str());
        v.push('\n');
        proof {
            let p = assocs@.take(i as int + 1);
            assert(p.drop_last() =~= assocs@.take(i as int));
            assert(p.last() == assocs@[i as int]);
            assert(v@ =~= related_lines(p));
        }
        i += 1;
    }
    assert(assocs@.take(assocs@.len() as int) =~= assocs@);
    string_of(&v)
}

/// One `{discovered} was discovered from {source}` line per origin.
pub open spec fn discovery_lines(origins: Seq<DiscoveryOrigin>) -> Seq<char>
    decreases origins.len(),
{
    if origins.len() == 0 {
        Seq::<char>::empty()
    } else {
        discovery_lines(origins.drop_last()) + origins.last().spec_discovered()
            + " was discovered from "@ + origins.last().spec_source() + seq!['\n']
    }
}

/// The listing of Discovery Origins: a note when there are none.
pub fn discovery_listing(origins: &[DiscoveryOrigin]) -> (r: String)
    ensures
        origins@.len() == 0 ==> r@ == "No Discovery Origins found\n"@,
        origins@.len() > 0 ==> r@ == discovery_lines(origins@),
{
    if origins.len() == 0 {
        return owned("No Discovery Origins found\n");
    }
    let mut v: Vec<char> = Vec::new();
    let mut i: usize = 0;
    while i < origins.len()
        invariant
            i <= origins@.len(),
            v@ == discovery_lines(origins@.take(i as int)),
        decreases origins.len() - i,
    {
        let line = discovered_from_line(&origins[i]);
        push_str(&mut v, line.as_str());
        v.push('\n');
        proof {
            let p = origins@.take(i as int + 1);
            assert(p.drop_last() =~= origins@.take(i as int));
            assert(p.last() == origins@[i as int]);
            assert(v@ =~= discovery_lines(p));
        }
        i += 1;
    }
    assert(origins@.take(origins@.len() as int) =~= origins@);
    string_of(&v)
}

/// `Added resource to {issue}`.
pub fn resource_added_line(issue_id: &IssueId) -> (r: String)
    ensures
        r@ == "Added resource to "@ + issue_id@,
{
    let mut v: Vec<char> = Vec::new();
    push_str(&mut v, "Added resource to ");
    push_str(&mut v, issue_id.as_str());
    string_of(&v)
}

/// `Updated resource {resource} on {issue}`.
pub fn resource_updated_line(resource: &str, issue_id: &IssueId) -> (r: String)
    ensures
        r@ == "Updated resource "@ + resource@ + " on "@ + issue_id@,
{
    let mut v: Vec<char> = Vec::new();
    push_str(&mut v, "Updated resource ");
    push_str(&mut v, resource);
    push_str(&mut v, " on ");
    push_str(&mut v, issue_id.as_str());
    string_of(&v)
}

/// `Removed resource {resource} from {issue}`.
pub fn resource_removed_line(resource: &str, issue_id: &IssueId) -> (r: String)
    ensures
        r@ == "Removed resource "@ + resource@ + " from "@ + issue_id@,
{
    let mut v: Vec<char> = Vec::new();
    push_str(&mut v, "Removed resource ");
    push_str(&mut v, resource);
    push_str(&mut v, " from ");
    push_str(&mut v, issue_id.as_str());
    string_of(&v)
}

/// One indented line per resource, as the resource displays.
pub open spec fn resource_lines(rs: Seq<crate::resource::ResourceView>) -> Seq<char>
    decreases rs.len(),
{
    if rs.len() == 0 {
        Seq::<char>::empty()
    } else {
        resource_lines(rs.drop_last()) + "  "@ + crate::resource::resource_text(rs.last())
            + seq!['\n']
    }
}

/// The resources of an issue: a note when it has none, else a header with
/// their count and one line per resource.
pub fn resource_listing(issue_id: &str, resources: &[AssociatedResource]) -> (r: String)
    ensures
        resources@.len() == 0 ==> r@ == issue_id@ + " has no associated resources\n"@,
        resources@.len() > 0 ==> r@ == "Resources for "@ + issue_id@ + " ("@ + decimal(
            resources@.len(),
        ) + "):\n"@ + resource_lines(crate::issue::views(resources@)),
{
    let mut v: Vec<char> = Vec::new();
    if resources.len() == 0 {
        push_str(&mut v, issue_id);
        push_str(&mut v, " has no associated resources\n");
        return string_of(&v);
    }
    push_str(&mut v, "Resources for ");
    push_str(&mut v, issue_id);
    push_str(&mut v, " (");
    push_decimal(&mut v, resources.len() as u64);
    push_str(&mut v, "):\n");
    let ghost head = v@;
    let ghost rv = crate::issue::views(resources@);
    let mut i: usize = 0;
    while i < resources.len()
        invariant
            i <= resources@.len(),
            rv == crate::issue::views(resources@),
            v@ == head + resource_lines(rv.take(i as int)),
        decreases resources.len() - i,
    {
        push_str(&mut v, "  ");
        let text = resources[i].to_string();
        push_str(&mut v, text.as_str());
        v.push('\n');
        proof {
            let p = rv.take(i as int + 1);
            assert(p.drop_last() =~= rv.take(i as int));
            assert(p.last() == resources@[i as int]@);
            assert(v@ =~= head + resource_lines(p));
        }
        i += 1;
    }
    assert(rv.take(rv.len() as int) =~= rv);
    string_of(&v)
}

// ---------------------------------------------------------------------------
// Listing order
// ---------------------------------------------------------------------------

/// The key that orders a listing: by priority then newest creation first;
/// newest or oldest creation first; or most recently updated first.
pub open spec fn list_key(order: SortOrderArg) -> spec_fn(Issue) -> int {
    |i: Issue|
        match order {
            SortOrderArg::Priority => i.priority * 0x1_0000_0000_0000_0000_0000_0000_0
                - crate::domain::ts_key(i.created_at),
            SortOrderArg::Newest => -crate::domain::ts_key(i.created_at),
            SortOrderArg::Oldest => crate::domain::ts_key(i.created_at),
            SortOrderArg::Updated => -crate::domain::ts_key(i.updated_at),
        }
}

/// What `list` shows: the issues stably sorted by the order's key, then the
/// first `limit` of them.
pub open spec fn listing(issues: Seq<Issue>, order: SortOrderArg, limit: nat) -> Seq<Issue> {
    let sorted = sort_by_key(issues, list_key(order));
    if sorted.len() <= limit {
        sorted
    } else {
        sorted.take(limit as int)
    }
}

proof fn lemma_ts_key_bounds(t: Timestamp)
    ensures
        -0x1_0000_0000_0000_0000_0000_0000 < crate::domain::ts_key(t) < 0x1_0000_0000_0000_0000_0000_0000,
{
    assert(-0x8000_0000_0000_0000 * 0x1_0000_0000 <= t.secs * 0x1_0000_0000 <= 0x7fff_ffff_ffff_ffff
        * 0x1_0000_0000) by (nonlinear_arith)
        requires
            -0x8000_0000_0000_0000 <= t.secs <= 0x7fff_ffff_ffff_ffff,
    ;
}

/// Whether `a` comes strictly before `b` in the listing order.
fn list_before(order: SortOrderArg, a: &Issue, b: &Issue) -> (r: bool)
    ensures
        r == (list_key(order)(*a) < list_key(order)(*b)),
{
    let ghost key = list_key(order);
    proof {
        crate::domain::lemma_ts_key_order(a.created_at, b.created_at);
        crate::domain::lemma_ts_key_order(b.created_at, a.created_at);
        crate::domain::lemma_ts_key_order(b.updated_at, a.updated_at);
        lemma_ts_key_bounds(a.created_at);
        lemma_ts_key_bounds(b.created_at);
    }
    match order {
        SortOrderArg::Priority => {
            if a.priority != b.priority {
                assert(key(*a) < key(*b) <==> a.priority < b.priority) by (nonlinear_arith)
                    requires
                        a.priority != b.priority,
                        key(*a) == a.priority * 0x1_0000_0000_0000_0000_0000_0000_0
                            - crate::domain::ts_key(a.created_at),
                        key(*b) == b.priority * 0x1_0000_0000_0000_0000_0000_0000_0
                            - crate::domain::ts_key(b.created_at),
                        -0x1_0000_0000_0000_0000_0000_0000 < crate::domain::ts_key(a.created_at)
                            < 0x1_0000_0000_0000_0000_0000_0000,
                        -0x1_0000_0000_0000_0000_0000_0000 < crate::domain::ts_key(b.created_at)
                            < 0x1_0000_0000_0000_0000_0000_0000,
                ;
                a.priority < b.priority
            } else {
                crate::domain::timestamp_before(&b.created_at, &a.created_at)
            }
        },
        SortOrderArg::Newest => crate::domain::timestamp_before(&b.created_at, &a.created_at),
        SortOrderArg::Oldest => crate::domain::timestamp_before(&a.created_at, &b.created_at),
        SortOrderArg::Updated => crate::domain::timestamp_before(&b.updated_at, &a.updated_at),
    }
}

fn insert_listed(sorted: &mut Vec<Issue>, x: Issue, order: SortOrderArg)
    ensures
        final(sorted)@ == insert_by_key(old(sorted)@, x, list_key(order)),
{
    let mut k: usize = sorted.len();
    while k > 0 && list_before(order, &x, &sorted[k - 1])
        invariant
            k <= sorted@.len(),
            sorted@ == old(sorted)@,
            forall|j: int|
                k <= j < sorted@.len() ==> list_key(order)(x) < list_key(order)(#[trigger] sorted@[j]),
        decreases k,
    {
        k -= 1;
    }
    proof {
        lemma_insert_by_key_at(sorted@, x, list_key(order), k as int);
    }
    sorted.insert(k, x);
}

/// Sorts issues for `list` (a stable sort by the chosen order) and keeps the
/// first `limit`.
pub fn sort_for_listing(issues: Vec<Issue>, order: SortOrderArg, limit: usize) -> (r: Vec<Issue>)
    ensures
        r@ == listing(issues@, order, limit as nat),
{
    let ghost input = issues@;
    let mut rest = issues;
    let mut sorted: Vec<Issue> = Vec::new();
    let mut i: usize = 0;
    let n = rest.len();
    while rest.len() > 0
        invariant
            n == input.len(),
            i + rest@.len() == n,
            rest@ == input.skip(i as int),
            sorted@ == sort_by_key(input.take(i as int), list_key(order)),
        decreases rest.len(),
    {
        let x = rest.remove(0);
        assert(x == input[i as int]);
        assert(rest@ =~= input.skip(i as int + 1));
        let ghost p = input.take(i as int + 1);
        proof {
            assert(p.drop_last() =~= input.take(i as int));
            assert(p.last() == input[i as int]);
        }
        insert_listed(&mut sorted, x, order);
        i += 1;
    }
    assert(input.take(n as int) =~= input);
    if sorted.len() > limit {
        sorted.truncate(limit);
    }
    sorted
}

/// What `list` shows is a sorted selection of the issues: keys never
/// decrease along it, every listed issue is one of the input, and all of
/// them are listed when there are no more than `limit`.
pub proof fn lemma_listing(issues: Seq<Issue>, order: SortOrderArg, limit: nat)
    ensures
        sorted_by_key(listing(issues, order, limit), list_key(order)),
        listing(issues, order, limit).len() == if issues.len() <= limit {
            issues.len()
        } else {
            limit
        },
        forall|k: int|
            0 <= k < listing(issues, order, limit).len() ==> issues.contains(
                #[trigger] listing(issues, order, limit)[k],
            ),
        issues.len() <= limit ==> listing(issues, order, limit).to_multiset() =~= issues.to_multiset(),
{
    broadcast use vstd::seq_lib::to_multiset_contains;

    let key = list_key(order);
    lemma_sort_by_key(issues, key);
    let sorted = sort_by_key(issues, key);
    let r = listing(issues, order, limit);
    if sorted.len() > limit {
        lemma_sorted_take(sorted, key, limit as int);
    }
    assert forall|k: int| 0 <= k < r.len() implies issues.contains(#[trigger] r[k]) by {
        assert(r[k] == sorted[k]);
        assert(sorted.contains(sorted[k]));
        assert(sorted.to_multiset().count(sorted[k]) > 0);
    }
}

// ---------------------------------------------------------------------------
// Labels across issues
// ---------------------------------------------------------------------------

/// Every label that some issue carries.
pub open spec fn labels_in_use(issues: Seq<Issue>) -> Set<Seq<char>> {
    Set::new(
        |l: Seq<char>|
            exists|i: int, j: int|
                0 <= i < issues.len() && 0 <= j < issues[i].labels@.len() && #[trigger] issues[i].labels@[j]@
                    == l,
    )
}

/// Strictly increasing in `String` order: sorted, with nothing twice.
pub open spec fn strictly_sorted(s: Seq<Seq<char>>) -> bool {
    forall|i: int, j: int| 0 <= i < j < s.len() ==> seq_lt(#[trigger] s[i], #[trigger] s[j])
}

fn insert_unique(sorted: &mut Vec<String>, l: &String)
    requires
        strictly_sorted(crate::domain::strings_view(old(sorted)@)),
    ensures
        strictly_sorted(crate::domain::strings_view(final(sorted)@)),
        crate::domain::strings_view(final(sorted)@).to_set() == crate::domain::strings_view(
            old(sorted)@,
        ).to_set().insert(l@),
{
    let ghost old_v = crate::domain::strings_view(sorted@);
    let lc = crate::text::chars_of(l.as_str());
    let mut k: usize = 0;
    while k < sorted.len()
        invariant
            k <= sorted@.len(),
            lc@ == l@,
            crate::domain::strings_view(sorted@) == old_v,
            forall|j: int| 0 <= j < k ==> seq_lt(#[trigger] old_v[j], l@),
        ensures
            k <= sorted@.len(),
            forall|j: int| 0 <= j < k ==> seq_lt(#[trigger] old_v[j], l@),
            k < sorted@.len() ==> !seq_lt(old_v[k as int], l@),
        decreases sorted.len() - k,
    {
        let c = crate::text::chars_of(sorted[k].as_str());
        if !crate::text::chars_lt(&c, &lc) {
            break;
        }
        k += 1;
    }
    if k < sorted.len() && crate::text::str_eq(sorted[k].as_str(), l.as_str()) {
        assert(old_v[k as int] == l@);
        assert(old_v.to_set() =~= old_v.to_set().insert(l@));
        return;
    }
    proof {
        if k < old_v.len() {
            crate::text::lemma_seq_lt_total(old_v[k as int], l@);
        }
    }
    sorted.insert(k, l.clone());
    let ghost new_v = crate::domain::strings_view(sorted@);
    proof {
        assert(new_v =~= old_v.insert(k as int, l@));
        assert forall|i: int, j: int| 0 <= i < j < new_v.len() implies seq_lt(
            #[trigger] new_v[i],
            #[trigger] new_v[j],
        ) by {
            if j < k {
                assert(new_v[i] == old_v[i] && new_v[j] == old_v[j]);
            } else if j == k {
                assert(new_v[i] == old_v[i]);
            } else if i > k {
                assert(new_v[i] == old_v[i - 1] && new_v[j] == old_v[j - 1]);
            } else if i == k {
                assert(new_v[j] == old_v[j - 1]);
                if j - 1 > k {
                    crate::text::lemma_seq_lt_transitive(l@, old_v[k as int], old_v[j - 1]);
                }
            } else {
                assert(new_v[i] == old_v[i] && new_v[j] == old_v[j - 1]);
                assert(seq_lt(old_v[i], old_v[j - 1]));
            }
        }
        assert forall|x: Seq<char>| new_v.to_set().contains(x) <==> old_v.to_set().insert(l@).contains(x) by {
            if new_v.contains(x) {
                let m = choose|m: int| 0 <= m < new_v.len() && new_v[m] == x;
                if m < k {
                    assert(old_v[m] == x);
                } else if m > k {
                    assert(old_v[m - 1] == x);
                }
            }
            if old_v.contains(x) {
                let m = choose|m: int| 0 <= m < old_v.len() && old_v[m] == x;
                if m < k {
                    assert(new_v[m] == x);
                } else {
                    assert(new_v[m + 1] == x);
                }
            }
            if x == l@ {
                assert(new_v[k as int] == x);
            }
        }
        assert(new_v.to_set() =~= old_v.to_set().insert(l@));
    }
}

/// The labels among the first `n` of a label list.
pub open spec fn first_labels(labels: Seq<String>, n: int) -> Set<Seq<char>> {
    Set::new(|l: Seq<char>| exists|m: int| 0 <= m < n && #[trigger] labels[m]@ == l)
}

proof fn lemma_first_labels_step(labels: Seq<String>, n: int)
    requires
        0 <= n < labels.len(),
    ensures
        first_labels(labels, n + 1) == first_labels(labels, n).insert(labels[n]@),
{
    assert forall|x: Seq<char>| #[trigger] first_labels(labels, n + 1).contains(x) <==> first_labels(
        labels,
        n,
    ).insert(labels[n]@).contains(x) by {
        if first_labels(labels, n + 1).contains(x) {
            let m = choose|m: int| 0 <= m < n + 1 && #[trigger] labels[m]@ == x;
            if m < n {
                assert(first_labels(labels, n).contains(x));
            }
        }
        if first_labels(labels, n).contains(x) {
            let m = choose|m: int| 0 <= m < n && #[trigger] labels[m]@ == x;
            assert(0 <= m < n + 1 && labels[m]@ == x);
        }
        if x == labels[n]@ {
            assert(0 <= n < n + 1 && labels[n]@ == x);
        }
    }
    assert(first_labels(labels, n + 1) =~= first_labels(labels, n).insert(labels[n]@));
}

proof fn lemma_labels_in_use_step(issues: Seq<Issue>, i: int)
    requires
        0 <= i < issues.len(),
    ensures
        labels_in_use(issues.take(i + 1)) == labels_in_use(issues.take(i)).union(
            first_labels(issues[i].labels@, issues[i].labels@.len() as int),
        ),
{
    let next = issues.take(i + 1);
    let prev = issues.take(i);
    let labels = issues[i].labels@;
    let own = first_labels(labels, labels.len() as int);
    assert forall|x: Seq<char>| #[trigger] labels_in_use(next).contains(x) <==> labels_in_use(
        prev,
    ).union(own).contains(x) by {
        if labels_in_use(next).contains(x) {
            let (a, b) = choose|a: int, b: int|
                0 <= a < next.len() && 0 <= b < next[a].labels@.len() && #[trigger] next[a].labels@[b]@
                    == x;
            if a < i {
                assert(prev[a] == next[a]);
                assert(prev[a].labels@[b]@ == x);
                assert(labels_in_use(prev).contains(x));
            } else {
                assert(next[a] == issues[i]);
                assert(labels[b]@ == x);
                assert(own.contains(x));
            }
        }
        if labels_in_use(prev).contains(x) {
            let (a, b) = choose|a: int, b: int|
                0 <= a < prev.len() && 0 <= b < prev[a].labels@.len() && #[trigger] prev[a].labels@[b]@
                    == x;
            assert(next[a] == prev[a]);
            assert(next[a].labels@[b]@ == x);
        }
        if own.contains(x) {
            let m = choose|m: int| 0 <= m < labels.len() && #[trigger] labels[m]@ == x;
            assert(next[i] == issues[i]);
            assert(next[i].labels@[m]@ == x);
        }
    }
    assert(labels_in_use(next) =~= labels_in_use(prev).union(own));
}

/// Every label in use across the issues, each once, in `String` order.
pub fn all_labels(issues: &[Issue]) -> (r: Vec<String>)
    ensures
        strictly_sorted(crate::domain::strings_view(r@)),
        crate::domain::strings_view(r@).to_set() == labels_in_use(issues@),
{
    let mut out: Vec<String> = Vec::new();
    let mut i: usize = 0;
    proof {
        assert(labels_in_use(issues@.take(0)) =~= Set::<Seq<char>>::empty());
        assert(crate::domain::strings_view(out@).to_set() =~= Set::<Seq<char>>::empty());
    }
    while i < issues.len()
        invariant
            i <= issues@.len(),
            strictly_sorted(crate::domain::strings_view(out@)),
            crate::domain::strings_view(out@).to_set() == labels_in_use(issues@.take(i as int)),
        decreases issues.len() - i,
    {
        let labels = &issues[i].labels;
        let ghost base = labels_in_use(issues@.take(i as int));
        let mut j: usize = 0;
        proof {
            assert(first_labels(labels@, 0) =~= Set::<Seq<char>>::empty());
            assert(base.union(first_labels(labels@, 0)) =~= base);
        }
        while j < labels.len()
            invariant
                i < issues@.len(),
                *labels == issues@[i as int].labels,
                j <= labels@.len(),
                strictly_sorted(crate::domain::strings_view(out@)),
                crate::domain::strings_view(out@).to_set() == base.union(first_labels(labels@, j as int)),
            decreases labels.len() - j,
        {
            insert_unique(&mut out, &labels[j]);
            proof {
                lemma_first_labels_step(labels@, j as int);
                assert(base.union(first_labels(labels@, j as int)).insert(labels@[j as int]@) =~= base.union(
                    first_labels(labels@, j as int + 1),
                ));
            }
            j += 1;
        }
        proof {
            lemma_labels_in_use_step(issues@, i as int);
        }
        i += 1;
    }
    assert(issues@.take(issues@.len() as int) =~= issues@);
    out
}

/// One line per label, each indented by two spaces.
pub open spec fn label_lines(labels: Seq<Seq<char>>) -> Seq<char>
    decreases labels.len(),
{
    if labels.len() == 0 {
        Seq::<char>::empty()
    } else {
        label_lines(labels.drop_last()) + seq![' ', ' '] + labels.last() + seq!['\n']
    }
}

fn push_label_lines(v: &mut Vec<char>, labels: &[String])
    ensures
        final(v)@ == old(v)@ + label_lines(crate::domain::strings_view(labels@)),
{
    let ghost start = v@;
    let ghost views = crate::domain::strings_view(labels@);
    let mut i: usize = 0;
    while i < labels.len()
        invariant
            i <= labels@.len(),
            views == crate::domain::strings_view(labels@),
            v@ == start + label_lines(views.take(i as int)),
        decreases labels.len() - i,
    {
        v.push(' ');
        v.push(' ');
        push_str(v, labels[i].as_str());
        v.push('\n');
        proof {
            let p = views.take(i as int + 1);
            assert(p.drop_last() =~= views.take(i as int));
            assert(p.last() == labels@[i as int]@);
        }
        i += 1;
    }
    assert(views.take(labels@.len() as int) =~= views);
}

/// The text `label list` prints for one issue.
pub open spec fn issue_labels_text(issue_id: Seq<char>, labels: Seq<Seq<char>>) -> Seq<char> {
    if labels.len() == 0 {
        issue_id + " has no labels\n"@
    } else {
        "Labels for "@ + issue_id + " ("@ + decimal(labels.len()) + "):\n"@ + label_lines(labels)
    }
}

/// The text `label list` prints for one issue.
pub fn issue_labels_listing(issue_id: &str, labels: &[String]) -> (r: String)
    ensures
        r@ == issue_labels_text(issue_id@, crate::domain::strings_view(labels@)),
{
    let mut v: Vec<char> = Vec::new();
    if labels.len() == 0 {
        push_str(&mut v, issue_id);
        push_str(&mut v, " has no labels\n");
    } else {
        push_str(&mut v, "Labels for ");
        push_str(&mut v, issue_id);
        push_str(&mut v, " (");
        push_decimal(&mut v, labels.len() as u64);
        push_str(&mut v, "):\n");
        push_label_lines(&mut v, labels);
    }
    string_of(&v)
}

/// The text `label list-all` prints for the labels in use.
pub open spec fn all_labels_text(labels: Seq<Seq<char>>) -> Seq<char> {
    if labels.len() == 0 {
        "No labels found in any issues.\n"@
    } else {
        "All labels ("@ + decimal(labels.len()) + "):\n"@ + label_lines(labels)
    }
}

/// The text `label list-all` prints for the labels in use.
pub fn all_labels_listing(labels: &[String]) -> (r: String)
    ensures
        r@ == all_labels_text(crate::domain::strings_view(labels@)),
{
    let mut v: Vec<char> = Vec::new();
    if labels.len() == 0 {
        push_str(&mut v, "No labels found in any issues.\n");
    } else {
        push_str(&mut v, "All labels (");
        push_decimal(&mut v, labels.len() as u64);
        push_str(&mut v, "):\n");
        push_label_lines(&mut v, labels);
    }
    string_of(&v)
}

// ---------------------------------------------------------------------------
// Stale issues
// ---------------------------------------------------------------------------

/// An issue is stale when it was last updated strictly before the cutoff;
/// Closed issues count only when a status filter was given.
pub open spec fn is_stale(issue: Issue, cutoff: Timestamp, status_given: bool) -> bool {
    ts_before(issue.updated_at, cutoff) && (status_given || issue.status != IssueStatus::Closed)
}

/// The stale issues, in their original order.
pub open spec fn stale_filter(issues: Seq<Issue>, cutoff: Timestamp, status_given: bool) -> Seq<Issue>
    decreases issues.len(),
{
    if issues.len() == 0 {
        Seq::<Issue>::empty()
    } else {
        let rest = stale_filter(issues.drop_last(), cutoff, status_given);
        if is_stale(issues.last(), cutoff, status_given) {
            rest.push(issues.last())
        } else {
            rest
        }
    }
}

/// The key that orders issues by last update.
pub open spec fn update_key() -> spec_fn(Issue) -> int {
    |i: Issue| crate::domain::ts_key(i.updated_at)
}

/// The stale issues, oldest update first (a stable sort), at most `limit`
/// of them.
pub open spec fn stale_selection(
    issues: Seq<Issue>,
    cutoff: Timestamp,
    status_given: bool,
    limit: nat,
) -> Seq<Issue> {
    let sorted = sort_by_key(stale_filter(issues, cutoff, status_given), update_key());
    if sorted.len() <= limit {
        sorted
    } else {
        sorted.take(limit as int)
    }
}

fn insert_issue(sorted: &mut Vec<Issue>, x: Issue)
    ensures
        final(sorted)@ == insert_by_key(old(sorted)@, x, update_key()),
{
    let mut k: usize = sorted.len();
    while k > 0 && crate::domain::timestamp_before(&x.updated_at, &sorted[k - 1].updated_at)
        invariant
            k <= sorted@.len(),
            sorted@ == old(sorted)@,
            forall|j: int| k <= j < sorted@.len() ==> ts_before(x.updated_at, #[trigger] sorted@[j].updated_at),
        decreases k,
    {
        k -= 1;
    }
    proof {
        let key = update_key();
        assert forall|j: int| k <= j < sorted@.len() implies key(x) < key(#[trigger] sorted@[j]) by {
            crate::domain::lemma_ts_key_order(x.updated_at, sorted@[j].updated_at);
        }
        if k > 0 {
            crate::domain::lemma_ts_key_order(x.updated_at, sorted@[k - 1].updated_at);
        }
        lemma_insert_by_key_at(sorted@, x, key, k as int);
    }
    sorted.insert(k, x);
}

/// Selects the stale issues as `stale` lists them: last updated strictly
/// before `cutoff` (Closed ones only when a status filter was given), oldest
/// update first with ties in their original order, at most `limit`.
pub fn select_stale(issues: Vec<Issue>, cutoff: Timestamp, status_given: bool, limit: usize) -> (r: Vec<Issue>)
    ensures
        r@ == stale_selection(issues@, cutoff, status_given, limit as nat),
{
    let ghost input = issues@;
    let mut rest = issues;
    let mut filtered: Vec<Issue> = Vec::new();
    let mut i: usize = 0;
    let n = rest.len();
    while rest.len() > 0
        invariant
            n == input.len(),
            i + rest@.len() == n,
            rest@ == input.skip(i as int),
            filtered@ == stale_filter(input.take(i as int), cutoff, status_given),
        decreases rest.len(),
    {
        let x = rest.remove(0);
        assert(x == input[i as int]);
        assert(rest@ =~= input.skip(i as int + 1));
        let ghost p = input.take(i as int + 1);
        proof {
            assert(p.drop_last() =~= input.take(i as int));
            assert(p.last() == input[i as int]);
        }
        if crate::domain::timestamp_before(&x.updated_at, &cutoff) && (status_given
            || x.status != IssueStatus::Closed) {
            filtered.push(x);
        }
        i += 1;
    }
    assert(input.take(n as int) =~= input);
    let ghost f = filtered@;
    let mut sorted: Vec<Issue> = Vec::new();
    let mut rest2 = filtered;
    let mut j: usize = 0;
    let m = rest2.len();
    while rest2.len() > 0
        invariant
            m == f.len(),
            j + rest2@.len() == m,
            rest2@ == f.skip(j as int),
            sorted@ == sort_by_key(f.take(j as int), update_key()),
        decreases rest2.len(),
    {
        let x = rest2.remove(0);
        assert(x == f[j as int]);
        assert(rest2@ =~= f.skip(j as int + 1));
        let ghost p = f.take(j as int + 1);
        proof {
            assert(p.drop_last() =~= f.take(j as int));
            assert(p.last() == f[j as int]);
        }
        insert_issue(&mut sorted, x);
        j += 1;
    }
    assert(f.take(m as int) =~= f);
    if sorted.len() > limit {
        sorted.truncate(limit);
    }
    sorted
}

proof fn lemma_stale_filter(issues: Seq<Issue>, cutoff: Timestamp, status_given: bool)
    ensures
        stale_filter(issues, cutoff, status_given).len() <= issues.len(),
        forall|k: int|
            0 <= k < stale_filter(issues, cutoff, status_given).len() ==> issues.contains(
                #[trigger] stale_filter(issues, cutoff, status_given)[k],
            ) && is_stale(stale_filter(issues, cutoff, status_given)[k], cutoff, status_given),
        forall|k: int|
            0 <= k < issues.len() && is_stale(#[trigger] issues[k], cutoff, status_given)
                ==> stale_filter(issues, cutoff, status_given).contains(issues[k]),
    decreases issues.len(),
{
    if issues.len() > 0 {
        let s0 = issues.drop_last();
        lemma_stale_filter(s0, cutoff, status_given);
        let f = stale_filter(issues, cutoff, status_given);
        let f0 = stale_filter(s0, cutoff, status_given);
        assert forall|k: int| 0 <= k < f.len() implies issues.contains(#[trigger] f[k]) && is_stale(
            f[k],
            cutoff,
            status_given,
        ) by {
            if k < f0.len() {
                assert(f[k] == f0[k]);
                let m = choose|m: int| 0 <= m < s0.len() && s0[m] == f0[k];
                assert(issues[m] == f0[k]);
            } else {
                assert(f[k] == issues[issues.len() - 1]);
            }
        }
        assert forall|k: int| 0 <= k < issues.len() && is_stale(#[trigger] issues[k], cutoff, status_given)
            implies f.contains(issues[k]) by {
            if k < s0.len() {
                assert(s0[k] == issues[k]);
                let m = choose|m: int| 0 <= m < f0.len() && f0[m] == s0[k];
                assert(f[m] == f0[m]);
            } else {
                assert(f[f.len() - 1] == issues[k]);
            }
        }
    }
}

/// What `stale` lists: only stale issues of the input, each last updated no
/// later than the next, at most `limit` of them, and every stale issue when
/// there are no more than `limit`.
pub proof fn lemma_stale_selection(issues: Seq<Issue>, cutoff: Timestamp, status_given: bool, limit: nat)
    ensures
        forall|i: int, j: int|
            0 <= i < j < stale_selection(issues, cutoff, status_given, limit).len() ==> !ts_before(
                #[trigger] stale_selection(issues, cutoff, status_given, limit)[j].updated_at,
                #[trigger] stale_selection(issues, cutoff, status_given, limit)[i].updated_at,
            ),
        forall|k: int|
            0 <= k < stale_selection(issues, cutoff, status_given, limit).len() ==> issues.contains(
                #[trigger] stale_selection(issues, cutoff, status_given, limit)[k],
            ) && is_stale(stale_selection(issues, cutoff, status_given, limit)[k], cutoff, status_given),
        stale_selection(issues, cutoff, status_given, limit).len() == if stale_filter(
            issues,
            cutoff,
            status_given,
        ).len() <= limit {
            stale_filter(issues, cutoff, status_given).len()
        } else {
            limit
        },
        forall|k: int|
            0 <= k < issues.len() && is_stale(#[trigger] issues[k], cutoff, status_given)
                && stale_filter(issues, cutoff, status_given).len() <= limit
                ==> stale_selection(issues, cutoff, status_given, limit).contains(issues[k]),
{
    broadcast use vstd::seq_lib::to_multiset_contains;

    let f = stale_filter(issues, cutoff, status_given);
    let key = update_key();
    lemma_stale_filter(issues, cutoff, status_given);
    lemma_sort_by_key(f, key);
    let sorted = sort_by_key(f, key);
    let r = stale_selection(issues, cutoff, status_given, limit);
    if sorted.len() > limit {
        lemma_sorted_take(sorted, key, limit as int);
    }
    assert(sorted_by_key(r, key));
    assert forall|i: int, j: int| 0 <= i < j < r.len() implies !ts_before(
        #[trigger] r[j].updated_at,
        #[trigger] r[i].updated_at,
    ) by {
        crate::domain::lemma_ts_key_order(r[j].updated_at, r[i].updated_at);
        assert(key(r[i]) <= key(r[j]));
    }
    assert forall|k: int| 0 <= k < r.len() implies issues.contains(#[trigger] r[k]) && is_stale(
        r[k],
        cutoff,
        status_given,
    ) by {
        assert(r[k] == sorted[k]);
        assert(sorted.contains(sorted[k]));
        assert(sorted.to_multiset().count(sorted[k]) > 0);
        assert(f.to_multiset().count(sorted[k]) > 0);
        assert(f.contains(sorted[k]));
        let m = choose|m: int| 0 <= m < f.len() && f[m] == sorted[k];
        assert(f[m] == r[k]);
    }
    assert forall|k: int|
        0 <= k < issues.len() && is_stale(#[trigger] issues[k], cutoff, status_given) && f.len()
            <= limit implies r.contains(issues[k]) by {
        assert(f.contains(issues[k]));
        assert(f.to_multiset().count(issues[k]) > 0);
        assert(sorted.to_multiset().count(issues[k]) > 0);
    }
}

/// chrono's whole days from `then` to `now` (`(now - then).num_days()`).
pub uninterp spec fn chrono_days_between(now_secs: i64, now_nanos: u32, then_secs: i64, then_nanos: u32) -> Option<i64>;

/// The difference in nanoseconds between two instants.
pub open spec fn nanos_between(now: Timestamp, then: Timestamp) -> int {
    (now.secs - then.secs) * 1_000_000_000 + (now.nanos - then.nanos)
}

/// Whole days in a number of nanoseconds, rounded toward zero.
pub open spec fn whole_days(ns: int) -> int {
    if ns >= 0 {
        ns / 86_400_000_000_000
    } else {
        -((-ns) / 86_400_000_000_000)
    }
}

/// chrono's `DateTime::<Utc>::from_timestamp` for both instants, then
/// `(now - then).num_days()`: the value [`chrono_days_between`] names, `None`
/// when chrono cannot represent an instant. Outside leap seconds the
/// difference is exact and `num_days` rounds toward zero.
#[verifier::external_body]
fn days_between(now: Timestamp, then: Timestamp) -> (r: Option<i64>)
    ensures
        r == chrono_days_between(now.secs, now.nanos, then.secs, then.nanos),
        now.nanos < 1_000_000_000 && then.nanos < 1_000_000_000 ==> match r {
            Some(d) => d == whole_days(nanos_between(now, then)),
            None => true,
        },
{
    let a = chrono::DateTime::<chrono::Utc>::from_timestamp(now.secs, now.nanos)?;
    let b = chrono::DateTime::<chrono::Utc>::from_timestamp(then.secs, then.nanos)?;
    Some((a - b).num_days())
}

/// The header of the stale report: a note when nothing is stale, else the
/// count and the age, and a blank line.
pub open spec fn stale_header_text(count: nat, days: u32) -> Seq<char> {
    if count == 0 {
        "No stale issues found (not updated in "@ + decimal(days as nat) + " days).\n"@
    } else {
        "Stale issues ("@ + decimal(count) + " not updated in "@ + decimal(days as nat)
            + " days):\n\n"@
    }
}

/// Appends the header of the stale report.
pub fn print_stale_header(out: &mut String, count: usize, days: u32)
    ensures
        final(out)@ == old(out)@ + stale_header_text(count as nat, days),
{
    let mut v: Vec<char> = Vec::new();
    if count == 0 {
        push_str(&mut v, "No stale issues found (not updated in ");
        push_decimal(&mut v, days as u64);
        push_str(&mut v, " days).\n");
    } else {
        push_str(&mut v, "Stale issues (");
        push_decimal(&mut v, count as u64);
        push_str(&mut v, " not updated in ");
        push_decimal(&mut v, days as u64);
        push_str(&mut v, " days):\n\n");
    }
    let s = string_of(&v);
    crate::render::append(out, s.as_str());
}

/// `{n}` for a signed number of days.
pub open spec fn signed_text(d: int) -> Seq<char> {
    if d < 0 {
        seq!['-'] + decimal((-d) as nat)
    } else {
        decimal(d as nat)
    }
}

/// The line under a stale issue: `  Stale: {days} days` (the label in the
/// warning color); nothing for the count when chrono cannot compute it.
pub fn print_stale_age(out: &mut String, issue: &Issue, now: Timestamp, config: &crate::output::OutputConfig)
    ensures
        exists|label: Seq<char>|
            crate::output::painted("Stale:"@, crate::output::code_yellow(), *config, label)
                && final(out)@ == old(out)@ + seq![' ', ' '] + label + seq![' '] + match chrono_days_between(
                now.secs,
                now.nanos,
                issue.updated_at.secs,
                issue.updated_at.nanos,
            ) {
                Some(d) => signed_text(d as int),
                None => Seq::<char>::empty(),
            } + " days\n"@,
{
    let mut v: Vec<char> = Vec::new();
    v.push(' ');
    v.push(' ');
    let label = crate::output::warning("Stale:", config);
    push_str(&mut v, label.as_str());
    v.push(' ');
    match days_between(now, issue.updated_at) {
        Some(d) => {
            if d < 0 {
                v.push('-');
                let m: u64 = ((-(d + 1)) as u64) + 1;
                push_decimal(&mut v, m);
            } else {
                push_decimal(&mut v, d as u64);
            }
        },
        None => {},
    }
    push_str(&mut v, " days\n");
    let s = string_of(&v);
    crate::render::append(out, s.as_str());
}

} // verus!
