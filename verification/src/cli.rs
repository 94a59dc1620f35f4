//! Command-line vocabulary: the arguments of every command, the value enums,
//! batch results, and the small decisions the commands make before and after
//! talking to storage.

use vstd::prelude::*;
use vstd::std_specs::convert::FromSpecImpl;

use crate::domain::{DependencyType, IssueKind, IssueStatus, SortPolicy};
use crate::issue::Issue;
use crate::label::Label;
use crate::resource::ResourceRole;
use crate::text::{decimal, owned, push_decimal, push_str, string_of};

verus! {

// ---------------------------------------------------------------------------
// Command arguments
// ---------------------------------------------------------------------------

/// Arguments for `init`.
#[derive(Debug, Clone)]
pub struct InitArgs {
    /// Issue ID prefix (already validated and trimmed).
    pub prefix: Option<String>,
    /// Suppress output messages.
    pub quiet: bool,
}

/// Arguments for `create`.
#[derive(Debug, Clone)]
pub struct CreateArgs {
    /// Issue title.
    pub title: Option<String>,
    /// Detailed description.
    pub description: Option<String>,
    /// Priority level (0 = critical .. 4 = backlog).
    pub priority: u8,
    /// Issue kind.
    pub issue_kind: IssueKind,
    /// Assignee.
    pub assignee: Option<String>,
    /// Labels.
    pub labels: Vec<Label>,
    /// Blocking prerequisite Issue IDs.
    pub prerequisites: Vec<String>,
    /// Design notes.
    pub design: Option<String>,
    /// Acceptance criteria.
    pub acceptance: Option<String>,
    /// Initial Note.
    pub notes: Option<String>,
}

/// Arguments for `list`.
#[derive(Debug, Clone)]
pub struct ListArgs {
    /// Filter by status.
    pub status: Option<IssueStatus>,
    /// Filter by priority.
    pub priority: Option<u8>,
    /// Filter by issue kind.
    pub issue_kind: Option<IssueKind>,
    /// Filter by assignee.
    pub assignee: Option<String>,
    /// Filter by label.
    pub label: Option<Label>,
    /// Maximum number of issues to display (positive).
    pub limit: usize,
    /// Sort order, applied before the limit.
    pub sort: SortOrderArg,
}

/// Arguments for `show`.
#[derive(Debug, Clone)]
pub struct ShowArgs {
    /// Issue IDs to display.
    pub issue_ids: Vec<String>,
}

/// Arguments for `update`: descriptive fields only.
#[derive(Debug, Clone)]
pub struct UpdateArgs {
    /// Issue IDs to update.
    pub issue_ids: Vec<String>,
    /// New title.
    pub title: Option<String>,
    /// New description.
    pub description: Option<String>,
    /// New priority.
    pub priority: Option<u8>,
    /// New issue kind.
    pub issue_kind: Option<IssueKind>,
    /// New design notes.
    pub design: Option<String>,
    /// New acceptance criteria.
    pub acceptance: Option<String>,
}

/// Arguments for `start`.
#[derive(Debug, Clone)]
pub struct StartArgs {
    /// Issue IDs to start.
    pub issue_ids: Vec<String>,
}

/// Arguments for `return-to-open`.
#[derive(Debug, Clone)]
pub struct ReturnToOpenArgs {
    /// Issue IDs to return to Open.
    pub issue_ids: Vec<String>,
}

/// Arguments for an Assignment Claim or Release.
#[derive(Debug, Clone)]
pub struct AssignmentArgs {
    /// Issue whose Assignment changes.
    pub issue_id: String,
    /// Exact Assignee identity.
    pub assignee: String,
}

/// Note actions.
#[derive(Debug, Clone)]
pub enum NoteAction {
    /// Append a Note to one or more Issues.
    Append {
        /// Issues to receive the Note.
        issue_ids: Vec<String>,
        /// Note content.
        content: String,
    },
}

/// Arguments for `note`.
#[derive(Debug, Clone)]
pub struct NoteArgs {
    /// The action.
    pub action: NoteAction,
}

/// Arguments for `close`.
#[derive(Debug, Clone)]
pub struct CloseArgs {
    /// Issue IDs to close.
    pub issue_ids: Vec<String>,
    /// Reason for closing.
    pub reason: Option<String>,
}

/// Arguments for `reopen`.
#[derive(Debug, Clone)]
pub struct ReopenArgs {
    /// Issue IDs to reopen.
    pub issue_ids: Vec<String>,
    /// Reason for reopening.
    pub reason: Option<String>,
}

/// Arguments for `delete`.
#[derive(Debug, Clone)]
pub struct DeleteArgs {
    /// Issue ID to delete.
    pub issue_id: String,
    /// Skip the confirmation prompt.
    pub force: bool,
}

/// Arguments for `ready`.
#[derive(Debug, Clone)]
pub struct ReadyArgs {
    /// Only Issues assigned to this exact assignee.
    pub assignee: Option<String>,
    /// Issues regardless of Assignment.
    pub all_assignees: bool,
    /// Filter by priority.
    pub priority: Option<u8>,
    /// Filter by issue kind.
    pub issue_kind: Option<IssueKind>,
    /// Filter by label.
    pub label: Option<Label>,
    /// Maximum number of issues to display.
    pub limit: usize,
    /// Sort policy.
    pub sort: SortPolicyArg,
}

/// Which endpoint of Blocking Dependencies to list from.
#[derive(Debug, Clone)]
pub struct BlockingDependencyListArgs {
    /// List prerequisites required by this dependent.
    pub dependent: Option<String>,
    /// List Issues that depend on this prerequisite.
    pub prerequisite: Option<String>,
}

/// Blocking Dependency actions.
#[derive(Debug, Clone)]
pub enum BlockingDependencyAction {
    /// Add a dependent-to-prerequisite Blocking Dependency.
    Add {
        /// Issue that depends on the prerequisite.
        dependent: String,
        /// Issue that must be completed first.
        prerequisite: String,
    },
    /// Remove one Blocking Dependency.
    Remove {
        /// Issue that depends on the prerequisite.
        dependent: String,
        /// Issue that must be completed first.
        prerequisite: String,
    },
    /// List prerequisites of a dependent or dependents of a prerequisite.
    List(BlockingDependencyListArgs),
    /// The transitive prerequisite tree of a dependent.
    Tree {
        /// Root dependent Issue.
        dependent: String,
        /// Maximum depth; zero means unlimited.
        depth: usize,
    },
}

/// Arguments for Blocking Dependency operations.
#[derive(Debug, Clone)]
pub struct BlockingDependencyArgs {
    /// The action.
    pub action: BlockingDependencyAction,
}

/// Parentage actions.
#[derive(Debug, Clone)]
pub enum ParentAction {
    /// Attach an unparented child to an Epic.
    SetParent {
        /// Issue owned by the Epic.
        child: String,
        /// Epic that owns the child.
        parent: String,
    },
    /// Remove one child's Parentage.
    Clear {
        /// Child whose Parentage is removed.
        child: String,
    },
    /// Replace one child's existing Epic parent.
    Move {
        /// Child whose Parentage is replaced.
        child: String,
        /// New Epic parent.
        parent: String,
    },
    /// Show one child's current Epic parent.
    Show {
        /// Child whose Parentage is shown.
        child: String,
    },
}

/// Arguments for Parentage operations.
#[derive(Debug, Clone)]
pub struct ParentArgs {
    /// The action.
    pub action: ParentAction,
}

/// Related Association actions.
#[derive(Debug, Clone)]
pub enum RelatedAction {
    /// Add a symmetric Related Association.
    Add {
        /// One endpoint.
        issue: String,
        /// The other endpoint.
        related: String,
    },
    /// Remove a symmetric Related Association.
    Remove {
        /// One endpoint.
        issue: String,
        /// The other endpoint.
        related: String,
    },
    /// List every Related Association containing an Issue.
    List {
        /// Issue whose associations to list.
        issue: String,
    },
}

/// Arguments for Related Association operations.
#[derive(Debug, Clone)]
pub struct RelatedArgs {
    /// The action.
    pub action: RelatedAction,
}

/// Discovery Origin actions.
#[derive(Debug, Clone)]
pub enum DiscoveryAction {
    /// Add a directed Discovery Origin.
    Add {
        /// Issue discovered while working on the source.
        discovered: String,
        /// Issue whose work surfaced the discovered Issue.
        source: String,
    },
    /// Remove a directed Discovery Origin.
    Remove {
        /// Issue discovered while working on the source.
        discovered: String,
        /// Issue whose work surfaced the discovered Issue.
        source: String,
    },
    /// List every Discovery Origin for one discovered Issue.
    List {
        /// Discovered Issue whose sources to list.
        discovered: String,
    },
}

/// Arguments for Discovery Origin operations.
#[derive(Debug, Clone)]
pub struct DiscoveryArgs {
    /// The action.
    pub action: DiscoveryAction,
}

/// Actions of the generic `dep` command.
#[derive(Debug, Clone)]
pub enum DepAction {
    /// Add a dependency.
    Add {
        /// Issue that depends on another.
        from: String,
        /// Issue being depended on.
        to: String,
        /// Dependency type.
        dep_type: DependencyTypeArg,
    },
    /// Remove a dependency.
    Remove {
        /// Issue that depends on another.
        from: String,
        /// Issue being depended on.
        to: String,
    },
    /// List the dependencies of an issue.
    List {
        /// Issue ID.
        issue_id: String,
        /// Show the issues that depend on this one instead.
        reverse: bool,
    },
}

impl DepAction {
    /// Adding and removing write to the workspace; listing does not.
    pub fn mutates_workspace(&self) -> (b: bool)
        ensures
            b == !(self is List),
    {
        match self {
            DepAction::Add { .. } | DepAction::Remove { .. } => true,
            DepAction::List { .. } => false,
        }
    }
}

/// Arguments for the generic `dep` command.
#[derive(Debug, Clone)]
pub struct DepArgs {
    /// The action.
    pub action: DepAction,
}

/// Arguments for `blocked`.
#[derive(Debug, Clone)]
pub struct BlockedArgs {
    /// Filter by assignee.
    pub assignee: Option<String>,
}

/// Arguments for `info` (none besides the global flags).
#[derive(Debug, Clone)]
pub struct InfoArgs {}

/// Arguments for `stale`.
#[derive(Debug, Clone)]
pub struct StaleArgs {
    /// Days since last update to consider stale.
    pub days: u32,
    /// Filter by status.
    pub status: Option<IssueStatus>,
    /// Maximum number of issues to display (positive).
    pub limit: usize,
}

/// Arguments for `stats`.
#[derive(Debug, Clone)]
pub struct StatsArgs {
    /// Show the detailed breakdown.
    pub detailed: bool,
}

/// Label actions.
#[derive(Debug, Clone)]
pub enum LabelAction {
    /// Add a label to one or more issues.
    Add {
        /// Label to add.
        label: Label,
        /// Issue ID (single issue).
        issue_id: Option<String>,
        /// Issue IDs (several issues).
        ids: Vec<String>,
    },
    /// Remove a label from one or more issues.
    Remove {
        /// Label to remove.
        label: Label,
        /// Issue ID (single issue).
        issue_id: Option<String>,
        /// Issue IDs (several issues).
        ids: Vec<String>,
    },
    /// List the labels of one issue.
    List {
        /// Issue ID.
        issue_id: String,
    },
    /// List all labels used across all issues.
    ListAll,
}

/// Arguments for `label`.
#[derive(Debug, Clone)]
pub struct LabelArgs {
    /// The action.
    pub action: LabelAction,
}

/// Associated Resource actions.
#[derive(Debug, Clone)]
pub enum ResourceAction {
    /// Associate a target with an Issue.
    Add {
        /// Issue ID.
        issue_id: String,
        /// Absolute HTTP(S) URL.
        url: Option<String>,
        /// Workspace-relative path.
        path: Option<String>,
        /// Why this resource matters.
        role: ResourceRole,
        /// Optional human-readable label.
        label: Option<String>,
    },
    /// Update an Associated Resource by its stable identifier.
    Update {
        /// Issue ID.
        issue_id: String,
        /// Stable resource identifier.
        resource: String,
        /// New URL.
        url: Option<String>,
        /// New path.
        path: Option<String>,
        /// New role.
        role: Option<ResourceRole>,
        /// New label.
        label: Option<String>,
        /// Clear the label.
        no_label: bool,
    },
    /// Remove an Associated Resource by its stable identifier.
    Remove {
        /// Issue ID.
        issue_id: String,
        /// Stable resource identifier.
        resource: String,
    },
    /// List an Issue's Associated Resources.
    List {
        /// Issue ID.
        issue_id: String,
    },
}

/// Arguments for `resource`.
#[derive(Debug, Clone)]
pub struct ResourceArgs {
    /// The action.
    pub action: ResourceAction,
}

/// Available commands.
#[derive(Debug, Clone)]
pub enum Commands {
    /// Initialize a new rivets repository.
    Init(InitArgs),
    /// Show repository information.
    Info(InfoArgs),
    /// Create a new issue.
    Create(CreateArgs),
    /// List issues.
    List(ListArgs),
    /// Show issue details.
    Show(ShowArgs),
    /// Update descriptive issue fields.
    Update(UpdateArgs),
    /// Claim an Open, unblocked Issue for one Assignee.
    Claim(AssignmentArgs),
    /// Release an Open Issue owned by the exact Assignee.
    Release(AssignmentArgs),
    /// Close issues.
    Close(CloseArgs),
    /// Reopen closed issues.
    Reopen(ReopenArgs),
    /// Delete an issue permanently.
    Delete(DeleteArgs),
    /// Show Open, unblocked Issues.
    Ready(ReadyArgs),
    /// Manage Blocking Dependencies.
    BlockingDependency(BlockingDependencyArgs),
    /// Manage Related Associations.
    Related(RelatedArgs),
    /// Manage Discovery Origins.
    Discovery(DiscoveryArgs),
    /// Manage Parentage.
    Parent(ParentArgs),
    /// Manage labels.
    Label(LabelArgs),
    /// Manage Associated Resources.
    Resource(ResourceArgs),
    /// Find stale issues.
    Stale(StaleArgs),
    /// Show blocked issues.
    Blocked(BlockedArgs),
    /// Show project statistics.
    Stats(StatsArgs),
}

/// The whole command line.
#[derive(Debug)]
pub struct Cli {
    /// JSON output.
    pub json: bool,
    /// Skip confirmation prompts.
    pub yes: bool,
    /// The command, if any.
    pub command: Option<Commands>,
}

// ---------------------------------------------------------------------------
// Which commands write to the workspace
// ---------------------------------------------------------------------------

/// Adding and removing write; listing and showing a tree do not.
pub open spec fn blocking_action_writes(a: BlockingDependencyAction) -> bool {
    a is Add || a is Remove
}

/// Adding and removing write; listing does not.
pub open spec fn related_action_writes(a: RelatedAction) -> bool {
    a is Add || a is Remove
}

/// Adding and removing write; listing does not.
pub open spec fn discovery_action_writes(a: DiscoveryAction) -> bool {
    a is Add || a is Remove
}

/// Setting, clearing and moving write; showing does not.
pub open spec fn parent_action_writes(a: ParentAction) -> bool {
    a is SetParent || a is Clear || a is Move
}

/// Adding and removing write; listing does not.
pub open spec fn label_action_writes(a: LabelAction) -> bool {
    a is Add || a is Remove
}

/// Adding, updating and removing write; listing does not.
pub open spec fn resource_action_writes(a: ResourceAction) -> bool {
    a is Add || a is Update || a is Remove
}

/// Whether a command changes the workspace (and so needs the mutation lock).
pub open spec fn command_writes(c: Commands) -> bool {
    match c {
        Commands::Create(_) | Commands::Update(_) | Commands::Claim(_) | Commands::Release(_)
        | Commands::Close(_) | Commands::Reopen(_) | Commands::Delete(_) => true,
        Commands::BlockingDependency(a) => blocking_action_writes(a.action),
        Commands::Related(a) => related_action_writes(a.action),
        Commands::Discovery(a) => discovery_action_writes(a.action),
        Commands::Parent(a) => parent_action_writes(a.action),
        Commands::Label(a) => label_action_writes(a.action),
        Commands::Resource(a) => resource_action_writes(a.action),
        Commands::Init(_) | Commands::Info(_) | Commands::List(_) | Commands::Show(_)
        | Commands::Ready(_) | Commands::Stale(_) | Commands::Blocked(_) | Commands::Stats(_) => false,
    }
}

impl BlockingDependencyAction {
    /// Whether the action writes to the workspace.
    pub fn mutates_workspace(&self) -> (b: bool)
        ensures
            b == blocking_action_writes(*self),
    {
        match self {
            BlockingDependencyAction::Add { .. } | BlockingDependencyAction::Remove { .. } => true,
            BlockingDependencyAction::List(_) | BlockingDependencyAction::Tree { .. } => false,
        }
    }
}

impl RelatedAction {
    /// Whether the action writes to the workspace.
    pub fn mutates_workspace(&self) -> (b: bool)
        ensures
            b == related_action_writes(*self),
    {
        match self {
            RelatedAction::Add { .. } | RelatedAction::Remove { .. } => true,
            RelatedAction::List { .. } => false,
        }
    }
}

impl DiscoveryAction {
    /// Whether the action writes to the workspace.
    pub fn mutates_workspace(&self) -> (b: bool)
        ensures
            b == discovery_action_writes(*self),
    {
        match self {
            DiscoveryAction::Add { .. } | DiscoveryAction::Remove { .. } => true,
            DiscoveryAction::List { .. } => false,
        }
    }
}

impl LabelAction {
    /// Whether the action writes to the workspace.
    pub fn mutates_workspace(&self) -> (b: bool)
        ensures
            b == label_action_writes(*self),
    {
        match self {
            LabelAction::Add { .. } | LabelAction::Remove { .. } => true,
            LabelAction::List { .. } | LabelAction::ListAll => false,
        }
    }
}

impl ResourceAction {
    /// Whether the action writes to the workspace.
    pub fn mutates_workspace(&self) -> (b: bool)
        ensures
            b == resource_action_writes(*self),
    {
        match self {
            ResourceAction::Add { .. } | ResourceAction::Update { .. }
            | ResourceAction::Remove { .. } => true,
            ResourceAction::List { .. } => false,
        }
    }
}

impl Commands {
    /// Whether the command changes the workspace.
    pub fn mutates_workspace(&self) -> (b: bool)
        ensures
            b == command_writes(*self),
    {
        match self {
            Commands::Create(_) | Commands::Update(_) | Commands::Claim(_)
            | Commands::Release(_) | Commands::Close(_) | Commands::Reopen(_)
            | Commands::Delete(_) => true,
            Commands::BlockingDependency(args) => args.action.mutates_workspace(),
            Commands::Related(args) => args.action.mutates_workspace(),
            Commands::Discovery(args) => args.action.mutates_workspace(),
            Commands::Parent(args) => match args.action {
                ParentAction::SetParent { .. } | ParentAction::Clear { .. }
                | ParentAction::Move { .. } => true,
                ParentAction::Show { .. } => false,
            },
            Commands::Label(args) => args.action.mutates_workspace(),
            Commands::Resource(args) => args.action.mutates_workspace(),
            Commands::Init(_) | Commands::Info(_) | Commands::List(_) | Commands::Show(_)
            | Commands::Ready(_) | Commands::Stale(_) | Commands::Blocked(_)
            | Commands::Stats(_) => false,
        }
    }
}

// ---------------------------------------------------------------------------
// Value enums
// ---------------------------------------------------------------------------

/// Issue kind as given on the command line.
#[derive(Debug, Clone, Copy, PartialEq, Eq, Structural)]
pub enum IssueTypeArg {
    /// Bug fix.
    Bug,
    /// New feature.
    Feature,
    /// General task.
    Task,
    /// Epic (parent issue).
    Epic,
    /// Maintenance/chore.
    Chore,
}

/// The kind a command-line kind stands for.
pub open spec fn kind_of_arg(a: IssueTypeArg) -> IssueKind {
    match a {
        IssueTypeArg::Bug => IssueKind::Bug,
        IssueTypeArg::Feature => IssueKind::Feature,
        IssueTypeArg::Task => IssueKind::Task,
        IssueTypeArg::Epic => IssueKind::Epic,
        IssueTypeArg::Chore => IssueKind::Chore,
    }
}

/// The command-line kind of an issue kind.
pub open spec fn arg_of_kind(k: IssueKind) -> IssueTypeArg {
    match k {
        IssueKind::Bug => IssueTypeArg::Bug,
        IssueKind::Feature => IssueTypeArg::Feature,
        IssueKind::Task => IssueTypeArg::Task,
        IssueKind::Epic => IssueTypeArg::Epic,
        IssueKind::Chore => IssueTypeArg::Chore,
    }
}

impl From<IssueTypeArg> for IssueKind {
    fn from(arg: IssueTypeArg) -> (r: Self) {
        match arg {
            IssueTypeArg::Bug => IssueKind::Bug,
            IssueTypeArg::Feature => IssueKind::Feature,
            IssueTypeArg::Task => IssueKind::Task,
            IssueTypeArg::Epic => IssueKind::Epic,
            IssueTypeArg::Chore => IssueKind::Chore,
        }
    }
}

impl FromSpecImpl<IssueTypeArg> for IssueKind {
    open spec fn obeys_from_spec() -> bool {
        true
    }

    open spec fn from_spec(arg: IssueTypeArg) -> IssueKind {
        kind_of_arg(arg)
    }
}

impl From<IssueKind> for IssueTypeArg {
    fn from(k: IssueKind) -> (r: Self) {
        match k {
            IssueKind::Bug => IssueTypeArg::Bug,
            IssueKind::Feature => IssueTypeArg::Feature,
            IssueKind::Task => IssueTypeArg::Task,
            IssueKind::Epic => IssueTypeArg::Epic,
            IssueKind::Chore => IssueTypeArg::Chore,
        }
    }
}

impl FromSpecImpl<IssueKind> for IssueTypeArg {
    open spec fn obeys_from_spec() -> bool {
        true
    }

    open spec fn from_spec(k: IssueKind) -> IssueTypeArg {
        arg_of_kind(k)
    }
}

impl IssueTypeArg {
    /// The canonical spelling.
    pub fn to_string(&self) -> (r: String)
        ensures
            r@ == crate::domain::kind_name(kind_of_arg(*self)),
    {
        owned(IssueKind::from(*self).as_str())
    }
}

/// Issue status as given on the command line.
#[derive(Debug, Clone, Copy, PartialEq, Eq, Structural)]
pub enum IssueStatusArg {
    /// Open.
    Open,
    /// In progress.
    InProgress,
    /// Blocked.
    Blocked,
    /// Closed.
    Closed,
}

/// The status a command-line status stands for.
pub open spec fn status_of_arg(a: IssueStatusArg) -> IssueStatus {
    match a {
        IssueStatusArg::Open => IssueStatus::Open,
        IssueStatusArg::InProgress => IssueStatus::InProgress,
        IssueStatusArg::Blocked => IssueStatus::Blocked,
        IssueStatusArg::Closed => IssueStatus::Closed,
    }
}

/// The command-line status of a status.
pub open spec fn arg_of_status(s: IssueStatus) -> IssueStatusArg {
    match s {
        IssueStatus::Open => IssueStatusArg::Open,
        IssueStatus::InProgress => IssueStatusArg::InProgress,
        IssueStatus::Blocked => IssueStatusArg::Blocked,
        IssueStatus::Closed => IssueStatusArg::Closed,
    }
}

impl From<IssueStatusArg> for IssueStatus {
    fn from(arg: IssueStatusArg) -> (r: Self) {
        match arg {
            IssueStatusArg::Open => IssueStatus::Open,
            IssueStatusArg::InProgress => IssueStatus::InProgress,
            IssueStatusArg::Blocked => IssueStatus::Blocked,
            IssueStatusArg::Closed => IssueStatus::Closed,
        }
    }
}

impl FromSpecImpl<IssueStatusArg> for IssueStatus {
    open spec fn obeys_from_spec() -> bool {
        true
    }

    open spec fn from_spec(arg: IssueStatusArg) -> IssueStatus {
        status_of_arg(arg)
    }
}

impl From<IssueStatus> for IssueStatusArg {
    fn from(s: IssueStatus) -> (r: Self) {
        match s {
            IssueStatus::Open => IssueStatusArg::Open,
            IssueStatus::InProgress => IssueStatusArg::InProgress,
            IssueStatus::Blocked => IssueStatusArg::Blocked,
            IssueStatus::Closed => IssueStatusArg::Closed,
        }
    }
}

impl FromSpecImpl<IssueStatus> for IssueStatusArg {
    open spec fn obeys_from_spec() -> bool {
        true
    }

    open spec fn from_spec(s: IssueStatus) -> IssueStatusArg {
        arg_of_status(s)
    }
}

impl IssueStatusArg {
    /// The canonical spelling.
    pub fn to_string(&self) -> (r: String)
        ensures
            r@ == crate::domain::status_name(status_of_arg(*self)),
    {
        owned(IssueStatus::from(*self).as_str())
    }
}

/// Dependency type as given on the command line.
#[derive(Debug, Clone, Copy, PartialEq, Eq, Structural)]
pub enum DependencyTypeArg {
    /// Hard blocker.
    Blocks,
    /// Soft link.
    Related,
    /// Hierarchical.
    ParentChild,
    /// Found during work.
    DiscoveredFrom,
}

/// The dependency type a command-line type stands for.
pub open spec fn dep_type_of_arg(a: DependencyTypeArg) -> DependencyType {
    match a {
        DependencyTypeArg::Blocks => DependencyType::Blocks,
        DependencyTypeArg::Related => DependencyType::Related,
        DependencyTypeArg::ParentChild => DependencyType::ParentChild,
        DependencyTypeArg::DiscoveredFrom => DependencyType::DiscoveredFrom,
    }
}

/// The command-line type of a dependency type.
pub open spec fn arg_of_dep_type(d: DependencyType) -> DependencyTypeArg {
    match d {
        DependencyType::Blocks => DependencyTypeArg::Blocks,
        DependencyType::Related => DependencyTypeArg::Related,
        DependencyType::ParentChild => DependencyTypeArg::ParentChild,
        DependencyType::DiscoveredFrom => DependencyTypeArg::DiscoveredFrom,
    }
}

impl From<DependencyTypeArg> for DependencyType {
    fn from(arg: DependencyTypeArg) -> (r: Self) {
        match arg {
            DependencyTypeArg::Blocks => DependencyType::Blocks,
            DependencyTypeArg::Related => DependencyType::Related,
            DependencyTypeArg::ParentChild => DependencyType::ParentChild,
            DependencyTypeArg::DiscoveredFrom => DependencyType::DiscoveredFrom,
        }
    }
}

impl FromSpecImpl<DependencyTypeArg> for DependencyType {
    open spec fn obeys_from_spec() -> bool {
        true
    }

    open spec fn from_spec(arg: DependencyTypeArg) -> DependencyType {
        dep_type_of_arg(arg)
    }
}

impl From<DependencyType> for DependencyTypeArg {
    fn from(d: DependencyType) -> (r: Self) {
        match d {
            DependencyType::Blocks => DependencyTypeArg::Blocks,
            DependencyType::Related => DependencyTypeArg::Related,
            DependencyType::ParentChild => DependencyTypeArg::ParentChild,
            DependencyType::DiscoveredFrom => DependencyTypeArg::DiscoveredFrom,
        }
    }
}

impl FromSpecImpl<DependencyType> for DependencyTypeArg {
    open spec fn obeys_from_spec() -> bool {
        true
    }

    open spec fn from_spec(d: DependencyType) -> DependencyTypeArg {
        arg_of_dep_type(d)
    }
}

impl DependencyTypeArg {
    /// The canonical spelling.
    pub fn to_string(&self) -> (r: String)
        ensures
            r@ == crate::domain::dep_type_name(dep_type_of_arg(*self)),
    {
        owned(DependencyType::from(*self).as_str())
    }
}

/// Sort order for `list`.
#[derive(Debug, Clone, Copy, PartialEq, Eq, Structural)]
pub enum SortOrderArg {
    /// By priority, highest first (the default).
    Priority,
    /// By creation date, newest first.
    Newest,
    /// By creation date, oldest first.
    Oldest,
    /// By last update, most recent first.
    Updated,
}

impl Default for SortOrderArg {
    fn default() -> (r: Self)
        ensures
            r == SortOrderArg::Priority,
    {
        SortOrderArg::Priority
    }
}

/// The spelling of each sort order.
pub open spec fn sort_order_name(s: SortOrderArg) -> Seq<char> {
    match s {
        SortOrderArg::Priority => "priority"@,
        SortOrderArg::Newest => "newest"@,
        SortOrderArg::Oldest => "oldest"@,
        SortOrderArg::Updated => "updated"@,
    }
}

impl SortOrderArg {
    /// The spelling (what `Display` prints).
    pub fn to_string(&self) -> (r: String)
        ensures
            r@ == sort_order_name(*self),
    {
        match self {
            SortOrderArg::Priority => owned("priority"),
            SortOrderArg::Newest => owned("newest"),
            SortOrderArg::Oldest => owned("oldest"),
            SortOrderArg::Updated => owned("updated"),
        }
    }

    /// The sort order a command-line value names; `None` for any other text.
    pub fn parse_str(s: &str) -> (r: Option<SortOrderArg>)
        ensures
            match r {
                Some(o) => sort_order_name(o) == s@,
                None => forall|o: SortOrderArg| sort_order_name(o) != s@,
            },
    {
        proof {
            reveal_strlit("priority");
            reveal_strlit("newest");
            reveal_strlit("oldest");
            reveal_strlit("updated");
        }
        if crate::text::str_eq(s, "priority") {
            Some(SortOrderArg::Priority)
        } else if crate::text::str_eq(s, "newest") {
            Some(SortOrderArg::Newest)
        } else if crate::text::str_eq(s, "oldest") {
            Some(SortOrderArg::Oldest)
        } else if crate::text::str_eq(s, "updated") {
            Some(SortOrderArg::Updated)
        } else {
            None
        }
    }
}

/// Sort policy for `ready`.
#[derive(Debug, Clone, Copy, PartialEq, Eq, Structural)]
pub enum SortPolicyArg {
    /// Recent issues (48h) by priority, older by age (the default).
    Hybrid,
    /// Strict priority ordering.
    Priority,
    /// Oldest issues first.
    Oldest,
}

impl Default for SortPolicyArg {
    fn default() -> (r: Self)
        ensures
            r == SortPolicyArg::Hybrid,
    {
        SortPolicyArg::Hybrid
    }
}

/// The spelling of each sort policy.
pub open spec fn sort_policy_name(s: SortPolicyArg) -> Seq<char> {
    match s {
        SortPolicyArg::Hybrid => "hybrid"@,
        SortPolicyArg::Priority => "priority"@,
        SortPolicyArg::Oldest => "oldest"@,
    }
}

impl SortPolicyArg {
    /// The spelling (what `Display` prints).
    pub fn to_string(&self) -> (r: String)
        ensures
            r@ == sort_policy_name(*self),
    {
        match self {
            SortPolicyArg::Hybrid => owned("hybrid"),
            SortPolicyArg::Priority => owned("priority"),
            SortPolicyArg::Oldest => owned("oldest"),
        }
    }

    /// The sort policy a command-line value names; `None` for any other text.
    pub fn parse_str(s: &str) -> (r: Option<SortPolicyArg>)
        ensures
            match r {
                Some(o) => sort_policy_name(o) == s@,
                None => forall|o: SortPolicyArg| sort_policy_name(o) != s@,
            },
    {
        if crate::text::str_eq(s, "hybrid") {
            Some(SortPolicyArg::Hybrid)
        } else if crate::text::str_eq(s, "priority") {
            Some(SortPolicyArg::Priority)
        } else if crate::text::str_eq(s, "oldest") {
            Some(SortPolicyArg::Oldest)
        } else {
            None
        }
    }

    /// The domain sort policy it selects.
    pub fn to_policy(&self) -> (r: SortPolicy)
        ensures
            r == match self {
                SortPolicyArg::Hybrid => SortPolicy::Hybrid,
                SortPolicyArg::Priority => SortPolicy::Priority,
                SortPolicyArg::Oldest => SortPolicy::Oldest,
            },
    {
        match self {
            SortPolicyArg::Hybrid => SortPolicy::Hybrid,
            SortPolicyArg::Priority => SortPolicy::Priority,
            SortPolicyArg::Oldest => SortPolicy::Oldest,
        }
    }
}

// ---------------------------------------------------------------------------
// Batch results
// ---------------------------------------------------------------------------

/// A failed operation on one issue of a batch.
#[derive(Debug)]
pub struct BatchError {
    /// The issue that failed.
    pub issue_id: String,
    /// Human-readable error message.
    pub error: String,
}

impl Clone for BatchError {
    fn clone(&self) -> (r: Self)
        ensures
            r.issue_id@ == self.issue_id@,
            r.error@ == self.error@,
    {
        BatchError { issue_id: self.issue_id.clone(), error: self.error.clone() }
    }
}

/// The outcome of a batch operation: each issue is processed on its own,
/// and progress is kept even when some fail.
#[derive(Debug)]
pub struct BatchResult {
    /// Issues processed and saved.
    pub succeeded: Vec<Issue>,
    /// Issues that failed, with their error messages.
    pub failed: Vec<BatchError>,
}

impl BatchResult {
    /// An empty batch result.
    pub fn new() -> (r: Self)
        ensures
            r.succeeded@.len() == 0,
            r.failed@.len() == 0,
    {
        BatchResult { succeeded: Vec::new(), failed: Vec::new() }
    }

    /// No operation failed.
    pub fn is_complete_success(&self) -> (b: bool)
        ensures
            b == (self.failed@.len() == 0),
    {
        self.failed.len() == 0
    }

    /// Every operation failed (and there was at least one).
    pub fn is_complete_failure(&self) -> (b: bool)
        ensures
            b == (self.succeeded@.len() == 0 && self.failed@.len() > 0),
    {
        self.succeeded.len() == 0 && self.failed.len() > 0
    }

    /// Some operation failed.
    pub fn has_failures(&self) -> (b: bool)
        ensures
            b == (self.failed@.len() > 0),
    {
        self.failed.len() > 0
    }

    /// The number of operations attempted.
    pub fn total(&self) -> (n: usize)
        requires
            self.succeeded@.len() + self.failed@.len() <= usize::MAX,
        ensures
            n == self.succeeded@.len() + self.failed@.len(),
    {
        self.succeeded.len() + self.failed.len()
    }
}

impl Default for BatchResult {
    fn default() -> (r: Self)
        ensures
            r.succeeded@.len() == 0,
            r.failed@.len() == 0,
    {
        BatchResult::new()
    }
}

} // verus!
