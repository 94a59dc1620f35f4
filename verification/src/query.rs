//! Validated query values shared by the List and Stale storage intents.

use vstd::prelude::*;

use crate::domain::{
    IssueFilter, IssueKind, IssueStatus, MAX_PRIORITY, Timestamp, opt_string_view,
};
use crate::label::Label;

verus! {

/// Why a bounded List or Stale query could not be constructed.
#[derive(Debug, Clone, Copy, PartialEq, Eq, Structural)]
pub enum QueryError {
    /// A bounded query must always state its result limit.
    MissingLimit,
    /// A bounded query limit must be greater than zero.
    InvalidLimit(usize),
    /// Priority values outside the canonical P0-P4 range are rejected.
    InvalidPriority(u8),
    /// The requested stale age cannot be represented by the supplied instant.
    CutoffOverflow {
        /// Number of days subtracted from the supplied current instant.
        days: u32,
    },
}

impl QueryError {
    /// The user-facing message.
    pub fn to_string(&self) -> (r: String)
        ensures
            r@ == query_error_message(*self),
    {
        let mut v: Vec<char> = Vec::new();
        match self {
            QueryError::MissingLimit => crate::text::push_str(&mut v, "query limit is required"),
            QueryError::InvalidLimit(n) => {
                crate::text::push_str(&mut v, "query limit must be greater than zero (got ");
                crate::text::push_decimal(&mut v, *n as u64);
                crate::text::push_str(&mut v, ")");
            },
            QueryError::InvalidPriority(p) => {
                crate::text::push_str(&mut v, "invalid priority value: ");
                crate::text::push_decimal(&mut v, *p as u64);
                crate::text::push_str(&mut v, " (must be 0-4)");
            },
            QueryError::CutoffOverflow { days } => {
                crate::text::push_str(&mut v, "stale query cutoff cannot be represented for ");
                crate::text::push_decimal(&mut v, *days as u64);
                crate::text::push_str(&mut v, " days");
            },
        }
        crate::text::string_of(&v)
    }
}

pub open spec fn query_error_message(e: QueryError) -> Seq<char> {
    match e {
        QueryError::MissingLimit => "query limit is required"@,
        QueryError::InvalidLimit(n) => "query limit must be greater than zero (got "@
            + crate::text::decimal(n as nat) + ")"@,
        QueryError::InvalidPriority(p) => "invalid priority value: "@ + crate::text::decimal(
            p as nat,
        ) + " (must be 0-4)"@,
        QueryError::CutoffOverflow { days } => "stale query cutoff cannot be represented for "@
            + crate::text::decimal(days as nat) + " days"@,
    }
}

/// Validated, opaque input for the canonical List Issues intent.
#[derive(Debug)]
pub struct ListQuery {
    limit: usize,
    status: Option<IssueStatus>,
    priority: Option<u8>,
    issue_kind: Option<IssueKind>,
    assignee: Option<String>,
    label: Option<Label>,
}

/// The outcome of validating a filter as a bounded List query.
pub open spec fn list_query_error(filter: IssueFilter) -> Option<QueryError> {
    match filter.limit {
        None => Some(QueryError::MissingLimit),
        Some(n) => if n == 0 {
            Some(QueryError::InvalidLimit(n))
        } else if filter.priority is Some && filter.priority->0 > MAX_PRIORITY {
            Some(QueryError::InvalidPriority(filter.priority->0))
        } else {
            None
        },
    }
}

impl ListQuery {
    /// The limit is positive.
    #[verifier::type_invariant]
    closed spec fn positive_limit(self) -> bool {
        self.limit > 0
    }

    pub closed spec fn spec_limit(&self) -> usize {
        self.limit
    }

    pub closed spec fn spec_status(&self) -> Option<IssueStatus> {
        self.status
    }

    pub closed spec fn spec_priority(&self) -> Option<u8> {
        self.priority
    }

    pub closed spec fn spec_issue_kind(&self) -> Option<IssueKind> {
        self.issue_kind
    }

    pub closed spec fn spec_assignee(&self) -> Option<Seq<char>> {
        opt_string_view(self.assignee)
    }

    pub closed spec fn spec_label(&self) -> Option<Seq<char>> {
        match self.label {
            Some(l) => Some(l@),
            None => None,
        }
    }

    /// Validate a filter as a bounded List query: the limit must be present
    /// and positive, and a priority filter must be at most P4.
    pub fn try_from(filter: IssueFilter) -> (r: Result<ListQuery, QueryError>)
        ensures
            match r {
                Ok(q) => list_query_error(filter) is None && q.spec_limit() == filter.limit->0
                    && q.spec_status() == filter.status && q.spec_priority() == filter.priority
                    && q.spec_issue_kind() == filter.issue_kind && q.spec_assignee()
                    == opt_string_view(filter.assignee) && q.spec_label() == match filter.label {
                    Some(l) => Some(l@),
                    None => None::<Seq<char>>,
                },
                Err(e) => list_query_error(filter) == Some(e),
            },
    {
        let raw_limit = match filter.limit {
            Some(n) => n,
            None => {
                return Err(QueryError::MissingLimit);
            },
        };
        if raw_limit == 0 {
            return Err(QueryError::InvalidLimit(raw_limit));
        }
        if let Some(priority) = filter.priority {
            if priority > MAX_PRIORITY {
                return Err(QueryError::InvalidPriority(priority));
            }
        }
        Ok(
            ListQuery {
                limit: raw_limit,
                status: filter.status,
                priority: filter.priority,
                issue_kind: filter.issue_kind,
                assignee: filter.assignee,
                label: filter.label,
            },
        )
    }

    /// The required positive result limit.
    pub fn limit(&self) -> (r: usize)
        ensures
            r == self.spec_limit(),
            r > 0,
    {
        proof {
            use_type_invariant(self);
        }
        self.limit
    }

    /// The optional Workflow State filter.
    pub fn status(&self) -> (r: Option<IssueStatus>)
        ensures
            r == self.spec_status(),
    {
        self.status
    }

    /// The optional canonical priority filter.
    pub fn priority(&self) -> (r: Option<u8>)
        ensures
            r == self.spec_priority(),
    {
        self.priority
    }

    /// The optional Issue Kind filter.
    pub fn issue_kind(&self) -> (r: Option<IssueKind>)
        ensures
            r == self.spec_issue_kind(),
    {
        self.issue_kind
    }

    /// The optional exact Assignee filter.
    pub fn assignee(&self) -> (r: Option<&str>)
        ensures
            crate::domain::opt_view(r) == self.spec_assignee(),
    {
        crate::domain::opt_as_str(&self.assignee)
    }

    /// The optional canonical Label filter.
    pub fn label(&self) -> (r: Option<&Label>)
        ensures
            match r {
                Some(l) => self.spec_label() == Some(l@),
                None => self.spec_label() is None,
            },
    {
        match &self.label {
            Some(l) => Some(l),
            None => None,
        }
    }
}

/// `now - days` as chrono computes it (`checked_sub_signed` of
/// `Duration::days`); `None` outside chrono's representable range.
pub uninterp spec fn chrono_days_before(secs: i64, nanos: u32, days: u32) -> Option<(i64, u32)>;

/// Calls chrono's `DateTime::<Utc>::checked_sub_signed(Duration::days(days))`
/// on the instant `now`. When it succeeds from an instant that is not inside a
/// leap second, the result is exactly `days * 86400` seconds earlier with the
/// same sub-second part; which instants are out of chrono's range, and where a
/// leap-second instant lands, is left to [`chrono_days_before`].
#[verifier::external_body]
fn checked_days_before(now: Timestamp, days: u32) -> (r: Option<Timestamp>)
    ensures
        match r {
            Some(t) => chrono_days_before(now.secs, now.nanos, days) == Some((t.secs, t.nanos))
                && (now.nanos < 1_000_000_000 ==> t.secs == now.secs - days * 86400 && t.nanos
                == now.nanos),
            None => chrono_days_before(now.secs, now.nanos, days) is None,
        },
{
    let instant = chrono::DateTime::<chrono::Utc>::from_timestamp(now.secs, now.nanos)?;
    let cutoff = instant.checked_sub_signed(chrono::Duration::days(i64::from(days)))?;
    Some(Timestamp { secs: cutoff.timestamp(), nanos: cutoff.timestamp_subsec_nanos() })
}

/// Validated, opaque input for the canonical Stale Issues intent.
#[derive(Debug)]
pub struct StaleQuery {
    limit: usize,
    status: Option<IssueStatus>,
    days: u32,
    cutoff: Timestamp,
}

impl StaleQuery {
    pub closed spec fn spec_limit(&self) -> usize {
        self.limit
    }

    pub closed spec fn spec_status(&self) -> Option<IssueStatus> {
        self.status
    }

    pub closed spec fn spec_days(&self) -> u32 {
        self.days
    }

    pub closed spec fn spec_cutoff(&self) -> Timestamp {
        self.cutoff
    }

    /// A stale query from one caller-supplied current instant. Storage
    /// selects Issues updated strictly before the cutoff, `days` days before
    /// `now`; a cutoff chrono cannot represent is an error.
    pub fn new(limit: usize, status: Option<IssueStatus>, days: u32, now: Timestamp) -> (r: Result<
        StaleQuery,
        QueryError,
    >)
        requires
            limit > 0,
        ensures
            match r {
                Ok(q) => chrono_days_before(now.secs, now.nanos, days) == Some(
                    (q.spec_cutoff().secs, q.spec_cutoff().nanos),
                ) && (now.nanos < 1_000_000_000 ==> q.spec_cutoff().secs == now.secs - days
                    * 86400 && q.spec_cutoff().nanos == now.nanos) && q.spec_limit() == limit && q.spec_status() == status
                    && q.spec_days() == days,
                Err(e) => chrono_days_before(now.secs, now.nanos, days) is None && e
                    == QueryError::CutoffOverflow { days },
            },
    {
        match checked_days_before(now, days) {
            Some(cutoff) => Ok(StaleQuery { limit, status, days, cutoff }),
            None => Err(QueryError::CutoffOverflow { days }),
        }
    }

    /// The required positive result limit.
    pub fn limit(&self) -> (r: usize)
        ensures
            r == self.spec_limit(),
    {
        self.limit
    }

    /// The optional Workflow State filter.
    pub fn status(&self) -> (r: Option<IssueStatus>)
        ensures
            r == self.spec_status(),
    {
        self.status
    }

    /// The requested stale age in days.
    pub fn days(&self) -> (r: u32)
        ensures
            r == self.spec_days(),
    {
        self.days
    }

    /// The checked strict cutoff instant.
    pub fn cutoff(&self) -> (r: Timestamp)
        ensures
            r == self.spec_cutoff(),
    {
        self.cutoff
    }
}

/// A filter with a positive limit and no priority filter beyond P4 is
/// accepted as a List query, and only such filters are; a priority is
/// rejected only when it is beyond P4, and then the rejection names it.
pub proof fn lemma_list_query_acceptance(filter: IssueFilter)
    ensures
        list_query_error(filter) is None <==> (filter.limit is Some && filter.limit->0 > 0 && (
        filter.priority is Some ==> filter.priority->0 <= MAX_PRIORITY)),
        forall|p: u8|
            list_query_error(filter) == Some(QueryError::InvalidPriority(p)) ==> p > MAX_PRIORITY
                && filter.priority == Some(p),
{
}

} // verus!
