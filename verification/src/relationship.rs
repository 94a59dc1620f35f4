//! Typed Issue Relationship values.

use vstd::prelude::*;

use crate::domain::{IssueId, IssueKind, kind_name, ids_debug_text, ids_view, issue_ids_debug};
use crate::text::{push_str, seq_lt, string_of, lemma_seq_lt_total, lemma_seq_lt_irreflexive};

verus! {

/// A directed relationship from an Issue that depends on work to its
/// prerequisite.
#[derive(Debug, PartialEq, Eq, PartialOrd, Ord)]
pub struct BlockingDependency {
    dependent_id: IssueId,
    prerequisite_id: IssueId,
}

/// A rejected Blocking Dependency value.
#[derive(Debug, Clone, PartialEq, Eq)]
pub enum BlockingDependencyError {
    /// A Blocking Dependency cannot point from an Issue to itself.
    SelfReference {
        /// The Issue that cannot depend on itself.
        issue_id: IssueId,
    },
}

impl BlockingDependencyError {
    /// `Issue <id> cannot depend on itself`.
    pub fn to_string(&self) -> (r: String)
        ensures
            r@ == match self {
                BlockingDependencyError::SelfReference { issue_id } => "Issue "@ + issue_id@
                    + " cannot depend on itself"@,
            },
    {
        let mut v: Vec<char> = Vec::new();
        match self {
            BlockingDependencyError::SelfReference { issue_id } => {
                push_str(&mut v, "Issue ");
                push_str(&mut v, issue_id.as_str());
                push_str(&mut v, " cannot depend on itself");
            },
        }
        string_of(&v)
    }
}

impl BlockingDependency {
    /// The endpoints differ.
    #[verifier::type_invariant]
    closed spec fn distinct_endpoints(self) -> bool {
        self.dependent_id@ != self.prerequisite_id@
    }

    pub closed spec fn spec_dependent(&self) -> Seq<char> {
        self.dependent_id@
    }

    pub closed spec fn spec_prerequisite(&self) -> Seq<char> {
        self.prerequisite_id@
    }

    /// Constructs a Blocking Dependency with explicit endpoint roles;
    /// rejects a self-reference.
    pub fn new(dependent_id: IssueId, prerequisite_id: IssueId) -> (r: Result<
        BlockingDependency,
        BlockingDependencyError,
    >)
        ensures
            match r {
                Ok(d) => dependent_id@ != prerequisite_id@ && d.spec_dependent() == dependent_id@
                    && d.spec_prerequisite() == prerequisite_id@,
                Err(BlockingDependencyError::SelfReference { issue_id }) => dependent_id@
                    == prerequisite_id@ && issue_id@ == dependent_id@,
            },
    {
        if dependent_id.same_as(&prerequisite_id) {
            return Err(BlockingDependencyError::SelfReference { issue_id: dependent_id });
        }
        Ok(BlockingDependency { dependent_id, prerequisite_id })
    }

    /// Returns the Issue that depends on the prerequisite.
    pub fn dependent_id(&self) -> (r: &IssueId)
        ensures
            r@ == self.spec_dependent(),
            r@ != self.spec_prerequisite(),
    {
        proof {
            use_type_invariant(self);
        }
        &self.dependent_id
    }

    /// Returns the Issue that must be completed first.
    pub fn prerequisite_id(&self) -> (r: &IssueId)
        ensures
            r@ == self.spec_prerequisite(),
            r@ != self.spec_dependent(),
    {
        proof {
            use_type_invariant(self);
        }
        &self.prerequisite_id
    }
}

/// A symmetric, non-blocking association between two Issues.
///
/// Endpoints are stored in lexical order, so either caller order builds
/// the same value.
#[derive(Debug, PartialEq, Eq, PartialOrd, Ord)]
pub struct RelatedAssociation {
    left_issue_id: IssueId,
    right_issue_id: IssueId,
}

/// A rejected Related Association value.
#[derive(Debug, Clone, PartialEq, Eq)]
pub enum RelatedAssociationError {
    /// An Issue cannot be related to itself.
    SelfReference { issue_id: IssueId },
}

impl RelatedAssociationError {
    /// `Issue <id> cannot be related to itself`.
    pub fn to_string(&self) -> (r: String)
        ensures
            r@ == match self {
                RelatedAssociationError::SelfReference { issue_id } => "Issue "@ + issue_id@
                    + " cannot be related to itself"@,
            },
    {
        let mut v: Vec<char> = Vec::new();
        match self {
            RelatedAssociationError::SelfReference { issue_id } => {
                push_str(&mut v, "Issue ");
                push_str(&mut v, issue_id.as_str());
                push_str(&mut v, " cannot be related to itself");
            },
        }
        string_of(&v)
    }
}

impl RelatedAssociation {
    /// The left endpoint is strictly before the right one.
    #[verifier::type_invariant]
    closed spec fn ordered(self) -> bool {
        seq_lt(self.left_issue_id@, self.right_issue_id@)
    }

    pub closed spec fn spec_left(&self) -> Seq<char> {
        self.left_issue_id@
    }

    pub closed spec fn spec_right(&self) -> Seq<char> {
        self.right_issue_id@
    }

    /// Constructs a Related Association with deterministic endpoint order;
    /// rejects a self-reference.
    pub fn new(issue_id: IssueId, related_issue_id: IssueId) -> (r: Result<
        RelatedAssociation,
        RelatedAssociationError,
    >)
        ensures
            match r {
                Ok(a) => issue_id@ != related_issue_id@ && seq_lt(a.spec_left(), a.spec_right())
                    && ((a.spec_left() == issue_id@ && a.spec_right() == related_issue_id@) || (
                    a.spec_left() == related_issue_id@ && a.spec_right() == issue_id@)),
                Err(RelatedAssociationError::SelfReference { issue_id: id }) => issue_id@
                    == related_issue_id@ && id@ == issue_id@,
            },
    {
        proof {
            lemma_seq_lt_total(issue_id@, related_issue_id@);
        }
        if issue_id.lt(&related_issue_id) {
            Ok(RelatedAssociation { left_issue_id: issue_id, right_issue_id: related_issue_id })
        } else if related_issue_id.lt(&issue_id) {
            Ok(RelatedAssociation { left_issue_id: related_issue_id, right_issue_id: issue_id })
        } else {
            Err(RelatedAssociationError::SelfReference { issue_id })
        }
    }

    /// Returns the lexically first endpoint.
    pub fn left_issue_id(&self) -> (r: &IssueId)
        ensures
            r@ == self.spec_left(),
            seq_lt(r@, self.spec_right()),
    {
        proof {
            use_type_invariant(self);
        }
        &self.left_issue_id
    }

    /// Returns the lexically second endpoint.
    pub fn right_issue_id(&self) -> (r: &IssueId)
        ensures
            r@ == self.spec_right(),
            seq_lt(self.spec_left(), r@),
    {
        proof {
            use_type_invariant(self);
        }
        &self.right_issue_id
    }
}

/// A Related Association does not depend on the order its endpoints are
/// given in: `new(a, b)` and `new(b, a)` have the same endpoints, and both
/// fail exactly when `a` and `b` are the same Issue.
pub proof fn lemma_related_association_symmetric(
    a: Seq<char>,
    b: Seq<char>,
    left1: Seq<char>,
    right1: Seq<char>,
    left2: Seq<char>,
    right2: Seq<char>,
)
    requires
        seq_lt(left1, right1),
        (left1 == a && right1 == b) || (left1 == b && right1 == a),
        seq_lt(left2, right2),
        (left2 == b && right2 == a) || (left2 == a && right2 == b),
    ensures
        left1 == left2,
        right1 == right2,
{
    lemma_seq_lt_total(a, b);
    lemma_seq_lt_irreflexive(a);
}

/// Directed provenance from a discovered Issue to the source Issue whose
/// work surfaced it.
#[derive(Debug, PartialEq, Eq, PartialOrd, Ord)]
pub struct DiscoveryOrigin {
    discovered_issue_id: IssueId,
    source_issue_id: IssueId,
}

/// A rejected Discovery Origin value.
#[derive(Debug, Clone, PartialEq, Eq)]
pub enum DiscoveryOriginError {
    /// An Issue cannot record itself as its own Discovery source.
    SelfReference { issue_id: IssueId },
}

impl DiscoveryOriginError {
    /// `Issue <id> cannot be its own Discovery source`.
    pub fn to_string(&self) -> (r: String)
        ensures
            r@ == match self {
                DiscoveryOriginError::SelfReference { issue_id } => "Issue "@ + issue_id@
                    + " cannot be its own Discovery source"@,
            },
    {
        let mut v: Vec<char> = Vec::new();
        match self {
            DiscoveryOriginError::SelfReference { issue_id } => {
                push_str(&mut v, "Issue ");
                push_str(&mut v, issue_id.as_str());
                push_str(&mut v, " cannot be its own Discovery source");
            },
        }
        string_of(&v)
    }
}

impl DiscoveryOrigin {
    #[verifier::type_invariant]
    closed spec fn distinct_endpoints(self) -> bool {
        self.discovered_issue_id@ != self.source_issue_id@
    }

    pub closed spec fn spec_discovered(&self) -> Seq<char> {
        self.discovered_issue_id@
    }

    pub closed spec fn spec_source(&self) -> Seq<char> {
        self.source_issue_id@
    }

    /// Constructs a Discovery Origin with explicit endpoint roles; rejects
    /// a self-reference.
    pub fn new(discovered_issue_id: IssueId, source_issue_id: IssueId) -> (r: Result<
        DiscoveryOrigin,
        DiscoveryOriginError,
    >)
        ensures
            match r {
                Ok(d) => discovered_issue_id@ != source_issue_id@ && d.spec_discovered()
                    == discovered_issue_id@ && d.spec_source() == source_issue_id@,
                Err(DiscoveryOriginError::SelfReference { issue_id }) => discovered_issue_id@
                    == source_issue_id@ && issue_id@ == discovered_issue_id@,
            },
    {
        if discovered_issue_id.same_as(&source_issue_id) {
            return Err(DiscoveryOriginError::SelfReference { issue_id: discovered_issue_id });
        }
        Ok(DiscoveryOrigin { discovered_issue_id, source_issue_id })
    }

    /// Returns the Issue that was discovered.
    pub fn discovered_issue_id(&self) -> (r: &IssueId)
        ensures
            r@ == self.spec_discovered(),
            r@ != self.spec_source(),
    {
        proof {
            use_type_invariant(self);
        }
        &self.discovered_issue_id
    }

    /// Returns the Issue whose work surfaced the discovered Issue.
    pub fn source_issue_id(&self) -> (r: &IssueId)
        ensures
            r@ == self.spec_source(),
            r@ != self.spec_discovered(),
    {
        proof {
            use_type_invariant(self);
        }
        &self.source_issue_id
    }
}

/// A directed ownership relationship from a child Issue to one Epic parent.
#[derive(Debug, PartialEq, Eq, PartialOrd, Ord)]
pub struct Parentage {
    child_id: IssueId,
    parent_id: IssueId,
}

/// A rejected Parentage value or Workspace Parentage transition.
#[derive(Debug, Clone, PartialEq, Eq)]
pub enum ParentageError {
    /// An Issue cannot own itself.
    SelfReference {
        /// The Issue occupying both endpoint roles.
        issue_id: IssueId,
    },
    /// Only an Epic may own child Issues.
    ParentNotEpic {
        /// The rejected candidate parent.
        parent_id: IssueId,
        /// The candidate parent's current Kind.
        actual_kind: IssueKind,
    },
    /// A set operation tried to assign a second parent.
    AlreadyParented {
        /// The child that already has a parent.
        child_id: IssueId,
        /// The child's current parent.
        parent_id: IssueId,
    },
    /// An operation requires Parentage that is absent.
    NoParent {
        /// The unparented child.
        child_id: IssueId,
    },
    /// A proposed edge would make Parentage cyclic.
    Cycle {
        /// The proposed child.
        child_id: IssueId,
        /// The proposed parent.
        parent_id: IssueId,
    },
    /// A non-Closed child cannot be owned by a Closed Epic.
    ClosedParent {
        /// The non-Closed child.
        child_id: IssueId,
        /// The Closed candidate parent.
        parent_id: IssueId,
    },
    /// An Epic cannot close while direct children remain non-Closed.
    ActiveChildren {
        /// The Epic whose close was rejected.
        epic_id: IssueId,
        /// Deterministically ordered non-Closed direct children.
        child_ids: Vec<IssueId>,
    },
    /// An Epic with children cannot become a non-Epic Kind.
    ParentHasChildren {
        /// The owning Epic whose reclassification was rejected.
        parent_id: IssueId,
        /// Deterministically ordered direct children.
        child_ids: Vec<IssueId>,
    },
}

impl ParentageError {
    /// The user-facing message.
    pub fn to_string(&self) -> (r: String)
        ensures
            r@ == match self {
                ParentageError::SelfReference { issue_id } => "Issue "@ + issue_id@
                    + " cannot be its own parent"@,
                ParentageError::ParentNotEpic { parent_id, actual_kind } => "Issue "@ + parent_id@
                    + " cannot be a parent because its kind is "@ + kind_name(*actual_kind)
                    + ", not epic"@,
                ParentageError::AlreadyParented { child_id, parent_id } => "Issue "@ + child_id@
                    + " already has parent "@ + parent_id@ + "; use parent move to change it"@,
                ParentageError::NoParent { child_id } => "Issue "@ + child_id@ + " has no parent"@,
                ParentageError::Cycle { child_id, parent_id } =>
                    "Parentage cycle detected: setting parent of "@ + child_id@ + " to "@
                    + parent_id@ + " would create a cycle"@,
                ParentageError::ClosedParent { child_id, parent_id } =>
                    "Cannot attach non-Closed child "@ + child_id@ + " to Closed Epic "@ + parent_id@,
                ParentageError::ActiveChildren { epic_id, child_ids } => "Cannot close Epic "@
                    + epic_id@ + ": non-Closed direct children: "@ + ids_debug_text(
                    ids_view(child_ids@),
                ),
                ParentageError::ParentHasChildren { parent_id, child_ids } =>
                    "Cannot change Epic "@ + parent_id@
                    + " to a non-Epic kind while it has children: "@ + ids_debug_text(
                    ids_view(child_ids@),
                ),
            },
    {
        let mut v: Vec<char> = Vec::new();
        match self {
            ParentageError::SelfReference { issue_id } => {
                push_str(&mut v, "Issue ");
                push_str(&mut v, issue_id.as_str());
                push_str(&mut v, " cannot be its own parent");
            },
            ParentageError::ParentNotEpic { parent_id, actual_kind } => {
                push_str(&mut v, "Issue ");
                push_str(&mut v, parent_id.as_str());
                push_str(&mut v, " cannot be a parent because its kind is ");
                push_str(&mut v, actual_kind.as_str());
                push_str(&mut v, ", not epic");
            },
            ParentageError::AlreadyParented { child_id, parent_id } => {
                push_str(&mut v, "Issue ");
                push_str(&mut v, child_id.as_str());
                push_str(&mut v, " already has parent ");
                push_str(&mut v, parent_id.as_str());
                push_str(&mut v, "; use parent move to change it");
            },
            ParentageError::NoParent { child_id } => {
                push_str(&mut v, "Issue ");
                push_str(&mut v, child_id.as_str());
                push_str(&mut v, " has no parent");
            },
            ParentageError::Cycle { child_id, parent_id } => {
                push_str(&mut v, "Parentage cycle detected: setting parent of ");
                push_str(&mut v, child_id.as_str());
                push_str(&mut v, " to ");
                push_str(&mut v, parent_id.as_str());
                push_str(&mut v, " would create a cycle");
            },
            ParentageError::ClosedParent { child_id, parent_id } => {
                push_str(&mut v, "Cannot attach non-Closed child ");
                push_str(&mut v, child_id.as_str());
                push_str(&mut v, " to Closed Epic ");
                push_str(&mut v, parent_id.as_str());
            },
            ParentageError::ActiveChildren { epic_id, child_ids } => {
                push_str(&mut v, "Cannot close Epic ");
                push_str(&mut v, epic_id.as_str());
                push_str(&mut v, ": non-Closed direct children: ");
                let d = issue_ids_debug(child_ids.as_slice());
                push_str(&mut v, d.as_str());
            },
            ParentageError::ParentHasChildren { parent_id, child_ids } => {
                push_str(&mut v, "Cannot change Epic ");
                push_str(&mut v, parent_id.as_str());
                push_str(&mut v, " to a non-Epic kind while it has children: ");
                let d = issue_ids_debug(child_ids.as_slice());
                push_str(&mut v, d.as_str());
            },
        }
        string_of(&v)
    }
}

impl Parentage {
    #[verifier::type_invariant]
    closed spec fn distinct_endpoints(self) -> bool {
        self.child_id@ != self.parent_id@
    }

    pub closed spec fn spec_child(&self) -> Seq<char> {
        self.child_id@
    }

    pub closed spec fn spec_parent(&self) -> Seq<char> {
        self.parent_id@
    }

    /// Constructs Parentage with explicit child and parent roles; rejects a
    /// self-reference. Kind, cardinality, cycle and lifecycle rules are the
    /// storage interface's to enforce.
    pub fn new(child_id: IssueId, parent_id: IssueId) -> (r: Result<Parentage, ParentageError>)
        ensures
            match r {
                Ok(p) => child_id@ != parent_id@ && p.spec_child() == child_id@ && p.spec_parent()
                    == parent_id@,
                Err(e) => child_id@ == parent_id@ && (e matches ParentageError::SelfReference {
                    issue_id,
                } && issue_id@ == child_id@),
            },
    {
        if child_id.same_as(&parent_id) {
            return Err(ParentageError::SelfReference { issue_id: child_id });
        }
        Ok(Parentage { child_id, parent_id })
    }

    /// Returns the Issue owned by the parent Epic.
    pub fn child_id(&self) -> (r: &IssueId)
        ensures
            r@ == self.spec_child(),
            r@ != self.spec_parent(),
    {
        proof {
            use_type_invariant(self);
        }
        &self.child_id
    }

    /// Returns the Epic that owns the child.
    pub fn parent_id(&self) -> (r: &IssueId)
        ensures
            r@ == self.spec_parent(),
            r@ != self.spec_child(),
    {
        proof {
            use_type_invariant(self);
        }
        &self.parent_id
    }
}

} // verus!
