//! Validated updates to the mutable, descriptive fields of an Issue.

use vstd::prelude::*;

use crate::domain::{
    IssueKind, MAX_PRIORITY, MIN_PRIORITY, opt_string_view, text_fields_error,
    title_priority_error, validate_text_fields, validate_title_and_priority,
};
use crate::issue::Issue;

verus! {

/// A failure to construct a canonical issue update.
#[derive(Debug, Clone, PartialEq, Eq)]
pub enum UpdateError {
    /// No mutable field was supplied.
    EmptyUpdate,
    /// The title failed the shared title grammar.
    InvalidTitle(String),
    /// The description failed the shared multiline text grammar.
    InvalidDescription(String),
    /// The design failed the shared multiline text grammar.
    InvalidDesign(String),
    /// The acceptance criteria failed the shared multiline text grammar.
    InvalidAcceptanceCriteria(String),
    /// Priority was outside the canonical P0-P4 range.
    InvalidPriority(u8),
}

/// The abstract value of an [`UpdateError`].
pub enum UpdateErrorView {
    EmptyUpdate,
    InvalidTitle(Seq<char>),
    InvalidDescription(Seq<char>),
    InvalidDesign(Seq<char>),
    InvalidAcceptanceCriteria(Seq<char>),
    InvalidPriority(u8),
}

impl View for UpdateError {
    type V = UpdateErrorView;

    open spec fn view(&self) -> UpdateErrorView {
        match self {
            UpdateError::EmptyUpdate => UpdateErrorView::EmptyUpdate,
            UpdateError::InvalidTitle(m) => UpdateErrorView::InvalidTitle(m@),
            UpdateError::InvalidDescription(m) => UpdateErrorView::InvalidDescription(m@),
            UpdateError::InvalidDesign(m) => UpdateErrorView::InvalidDesign(m@),
            UpdateError::InvalidAcceptanceCriteria(m) => UpdateErrorView::InvalidAcceptanceCriteria(
                m@,
            ),
            UpdateError::InvalidPriority(p) => UpdateErrorView::InvalidPriority(*p),
        }
    }
}

impl UpdateError {
    /// The user-facing message.
    pub fn to_string(&self) -> (r: String)
        ensures
            r@ == update_error_message(self@),
    {
        match self {
            UpdateError::EmptyUpdate => String::from_str("Issue update requires at least one field"),
            UpdateError::InvalidTitle(m) => m.clone(),
            UpdateError::InvalidDescription(m) => m.clone(),
            UpdateError::InvalidDesign(m) => m.clone(),
            UpdateError::InvalidAcceptanceCriteria(m) => m.clone(),
            UpdateError::InvalidPriority(p) => {
                let mut v: Vec<char> = Vec::new();
                crate::text::push_str(&mut v, "Invalid priority value: ");
                crate::text::push_decimal(&mut v, *p as u64);
                crate::text::push_str(&mut v, " (must be 0-4)");
                crate::text::string_of(&v)
            },
        }
    }
}

pub open spec fn update_error_message(e: UpdateErrorView) -> Seq<char> {
    match e {
        UpdateErrorView::EmptyUpdate => "Issue update requires at least one field"@,
        UpdateErrorView::InvalidTitle(m) => m,
        UpdateErrorView::InvalidDescription(m) => m,
        UpdateErrorView::InvalidDesign(m) => m,
        UpdateErrorView::InvalidAcceptanceCriteria(m) => m,
        UpdateErrorView::InvalidPriority(p) => "Invalid priority value: "@ + crate::text::decimal(
            p as nat,
        ) + " (must be 0-4)"@,
    }
}

/// The abstract value of the update fields.
pub struct UpdateFields {
    pub title: Option<Seq<char>>,
    pub description: Option<Seq<char>>,
    pub priority: Option<u8>,
    pub issue_kind: Option<IssueKind>,
    pub design: Option<Seq<char>>,
    pub acceptance_criteria: Option<Seq<char>>,
}

/// The first rule a set of supplied fields breaks, if any.
pub open spec fn update_error(f: UpdateFields) -> Option<UpdateErrorView> {
    if f.title is None && f.description is None && f.priority is None && f.issue_kind is None
        && f.design is None && f.acceptance_criteria is None {
        Some(UpdateErrorView::EmptyUpdate)
    } else if f.title is Some && title_priority_error(f.title->0, MIN_PRIORITY) is Some {
        Some(UpdateErrorView::InvalidTitle(title_priority_error(f.title->0, MIN_PRIORITY)->0))
    } else if f.description is Some && text_fields_error(
        f.description->0,
        None,
        Seq::empty(),
        None,
        None,
    ) is Some {
        Some(
            UpdateErrorView::InvalidDescription(
                text_fields_error(f.description->0, None, Seq::empty(), None, None)->0,
            ),
        )
    } else if f.priority is Some && f.priority->0 > MAX_PRIORITY {
        Some(UpdateErrorView::InvalidPriority(f.priority->0))
    } else if f.design is Some && text_fields_error(
        Seq::empty(),
        None,
        Seq::empty(),
        f.design,
        None,
    ) is Some {
        Some(
            UpdateErrorView::InvalidDesign(
                text_fields_error(Seq::empty(), None, Seq::empty(), f.design, None)->0,
            ),
        )
    } else if f.acceptance_criteria is Some && text_fields_error(
        Seq::empty(),
        None,
        Seq::empty(),
        None,
        f.acceptance_criteria,
    ) is Some {
        Some(
            UpdateErrorView::InvalidAcceptanceCriteria(
                text_fields_error(Seq::empty(), None, Seq::empty(), None, f.acceptance_criteria)->0,
            ),
        )
    } else {
        None
    }
}

/// A validated, nonempty update containing only canonical mutable fields.
#[derive(Debug, Clone)]
pub struct IssueUpdate {
    title: Option<String>,
    description: Option<String>,
    priority: Option<u8>,
    issue_kind: Option<IssueKind>,
    design: Option<String>,
    acceptance_criteria: Option<String>,
}

/// Builder for [`IssueUpdate`]; [`IssueUpdateBuilder::build`] validates.
#[derive(Debug, Clone)]
pub struct IssueUpdateBuilder {
    title: Option<String>,
    description: Option<String>,
    priority: Option<u8>,
    issue_kind: Option<IssueKind>,
    design: Option<String>,
    acceptance_criteria: Option<String>,
}

impl IssueUpdate {
    pub closed spec fn fields(&self) -> UpdateFields {
        UpdateFields {
            title: opt_string_view(self.title),
            description: opt_string_view(self.description),
            priority: self.priority,
            issue_kind: self.issue_kind,
            design: opt_string_view(self.design),
            acceptance_criteria: opt_string_view(self.acceptance_criteria),
        }
    }

    /// Start constructing a validated update.
    pub fn builder() -> (r: IssueUpdateBuilder)
        ensures
            r.fields() == (UpdateFields {
                title: None,
                description: None,
                priority: None,
                issue_kind: None,
                design: None,
                acceptance_criteria: None,
            }),
    {
        IssueUpdateBuilder {
            title: None,
            description: None,
            priority: None,
            issue_kind: None,
            design: None,
            acceptance_criteria: None,
        }
    }

    /// Apply the supplied fields to an issue; every other field, and the
    /// issue's Notes and Resources, are left alone.
    pub fn apply(self, issue: &mut Issue)
        ensures
            final(issue).title@ == match self.fields().title {
                Some(t) => t,
                None => old(issue).title@,
            },
            final(issue).description@ == match self.fields().description {
                Some(t) => t,
                None => old(issue).description@,
            },
            final(issue).priority == match self.fields().priority {
                Some(p) => p,
                None => old(issue).priority,
            },
            final(issue).issue_kind == match self.fields().issue_kind {
                Some(k) => k,
                None => old(issue).issue_kind,
            },
            opt_string_view(final(issue).design) == match self.fields().design {
                Some(t) => Some(t),
                None => opt_string_view(old(issue).design),
            },
            opt_string_view(final(issue).acceptance_criteria) == match self.fields().acceptance_criteria {
                Some(t) => Some(t),
                None => opt_string_view(old(issue).acceptance_criteria),
            },
            final(issue).id == old(issue).id,
            final(issue).status == old(issue).status,
            final(issue).assignee == old(issue).assignee,
            final(issue).labels == old(issue).labels,
            final(issue).notes == old(issue).notes,
            final(issue).resources == old(issue).resources,
            final(issue).dependencies == old(issue).dependencies,
            final(issue).created_at == old(issue).created_at,
            final(issue).updated_at == old(issue).updated_at,
            final(issue).closed_at == old(issue).closed_at,
    {
        let IssueUpdate { title, description, priority, issue_kind, design, acceptance_criteria } =
            self;
        if let Some(title) = title {
            issue.title = title;
        }
        if let Some(description) = description {
            issue.description = description;
        }
        if let Some(priority) = priority {
            issue.priority = priority;
        }
        if let Some(issue_kind) = issue_kind {
            issue.issue_kind = issue_kind;
        }
        if let Some(design) = design {
            issue.design = Some(design);
        }
        if let Some(acceptance_criteria) = acceptance_criteria {
            issue.acceptance_criteria = Some(acceptance_criteria);
        }
    }
}

impl IssueUpdateBuilder {
    pub closed spec fn fields(&self) -> UpdateFields {
        UpdateFields {
            title: opt_string_view(self.title),
            description: opt_string_view(self.description),
            priority: self.priority,
            issue_kind: self.issue_kind,
            design: opt_string_view(self.design),
            acceptance_criteria: opt_string_view(self.acceptance_criteria),
        }
    }

    /// Supply a replacement title, or `None` to leave it unchanged.
    pub fn title(self, value: Option<String>) -> (r: Self)
        ensures
            r.fields() == (UpdateFields { title: opt_string_view(value), ..self.fields() }),
    {
        IssueUpdateBuilder { title: value, ..self }
    }

    /// Supply a replacement description, or `None` to leave it unchanged.
    pub fn description(self, value: Option<String>) -> (r: Self)
        ensures
            r.fields() == (UpdateFields { description: opt_string_view(value), ..self.fields() }),
    {
        IssueUpdateBuilder { description: value, ..self }
    }

    /// Supply a replacement priority, or `None` to leave it unchanged.
    pub fn priority(self, value: Option<u8>) -> (r: Self)
        ensures
            r.fields() == (UpdateFields { priority: value, ..self.fields() }),
    {
        IssueUpdateBuilder { priority: value, ..self }
    }

    /// Supply a replacement kind, or `None` to leave it unchanged.
    pub fn issue_kind(self, value: Option<IssueKind>) -> (r: Self)
        ensures
            r.fields() == (UpdateFields { issue_kind: value, ..self.fields() }),
    {
        IssueUpdateBuilder { issue_kind: value, ..self }
    }

    /// Supply replacement design text, or `None` to leave it unchanged.
    pub fn design(self, value: Option<String>) -> (r: Self)
        ensures
            r.fields() == (UpdateFields { design: opt_string_view(value), ..self.fields() }),
    {
        IssueUpdateBuilder { design: value, ..self }
    }

    /// Supply replacement acceptance criteria, or `None` to leave it
    /// unchanged.
    pub fn acceptance_criteria(self, value: Option<String>) -> (r: Self)
        ensures
            r.fields() == (UpdateFields {
                acceptance_criteria: opt_string_view(value),
                ..self.fields()
            }),
    {
        IssueUpdateBuilder { acceptance_criteria: value, ..self }
    }

    /// Validate all supplied fields and consume the builder.
    ///
    /// Fails on an empty update, then checks title, description, priority,
    /// design and acceptance criteria in that order.
    pub fn build(self) -> (r: Result<IssueUpdate, UpdateError>)
        ensures
            match r {
                Ok(u) => update_error(self.fields()) is None && u.fields() == self.fields(),
                Err(e) => update_error(self.fields()) == Some(e@),
            },
    {
        let IssueUpdateBuilder {
            title,
            description,
            priority,
            issue_kind,
            design,
            acceptance_criteria,
        } = self;
        if title.is_none() && description.is_none() && priority.is_none() && issue_kind.is_none()
            && design.is_none() && acceptance_criteria.is_none() {
            return Err(UpdateError::EmptyUpdate);
        }
        if let Some(t) = &title {
            if let Err(m) = validate_title_and_priority(t.as_str(), MIN_PRIORITY) {
                return Err(UpdateError::InvalidTitle(m));
            }
        }
        if let Some(d) = &description {
            let empty: Vec<String> = Vec::new();
            assert(crate::domain::strings_view(empty@) =~= Seq::<Seq<char>>::empty());
            if let Err(m) = validate_text_fields(d.as_str(), None, empty.as_slice(), None, None) {
                return Err(UpdateError::InvalidDescription(m));
            }
        }
        if let Some(p) = priority {
            if p > MAX_PRIORITY {
                return Err(UpdateError::InvalidPriority(p));
            }
        }
        if let Some(d) = &design {
            let empty: Vec<String> = Vec::new();
            assert(crate::domain::strings_view(empty@) =~= Seq::<Seq<char>>::empty());
            if let Err(m) = validate_text_fields("", None, empty.as_slice(), Some(d.as_str()), None) {
                proof {
                    reveal_strlit("");
                }
                return Err(UpdateError::InvalidDesign(m));
            }
            proof {
                reveal_strlit("");
            }
        }
        if let Some(a) = &acceptance_criteria {
            let empty: Vec<String> = Vec::new();
            assert(crate::domain::strings_view(empty@) =~= Seq::<Seq<char>>::empty());
            if let Err(m) = validate_text_fields("", None, empty.as_slice(), None, Some(a.as_str())) {
                proof {
                    reveal_strlit("");
                }
                return Err(UpdateError::InvalidAcceptanceCriteria(m));
            }
            proof {
                reveal_strlit("");
            }
        }
        Ok(IssueUpdate { title, description, priority, issue_kind, design, acceptance_criteria })
    }
}

} // verus!
