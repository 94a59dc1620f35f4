use rivets::cli::{
    AssignmentArgs, BlockedArgs, BlockingDependencyAction, BlockingDependencyArgs,
    BlockingDependencyListArgs, CloseArgs, Commands, CreateArgs, DeleteArgs, DiscoveryAction,
    DiscoveryArgs, InfoArgs, InitArgs, LabelAction, LabelArgs, ListArgs, ParentAction, ParentArgs,
    ReadyArgs, RelatedAction, RelatedArgs, ReopenArgs, ResourceAction, ResourceArgs, ShowArgs,
    SortOrderArg, SortPolicyArg, StaleArgs, StatsArgs, UpdateArgs,
};
use rivets::cli::BatchResult;
use rivets::commands::{record_batch_outcome, BatchOutcome};
use rivets::domain::{IssueId, IssueKind, IssueStatus, Timestamp};
use rivets::error::{ConfigError, RivetsError};
use rivets::init::RivetsConfig;
use rivets::issue::Issue;
use rivets::label::Label;
use rivets::output::{OutputConfig, DEFAULT_MAX_CONTENT_WIDTH};
use rivets::reporting::{StorageBackend, WorkspaceInformation};
use rivets::resource::ResourceRole;

fn s(v: &str) -> String {
    v.to_string()
}

fn create_test_issue(id: &str) -> Issue {
    Issue::new(
        IssueId::new(id),
        s("Test Issue"),
        String::new(),
        IssueStatus::Open,
        2,
        IssueKind::Task,
        Timestamp {
            secs: 1_700_000_000,
            nanos: 0,
        },
    )
}

fn create(title: &str) -> Commands {
    Commands::Create(CreateArgs {
        title: Some(s(title)),
        description: None,
        priority: 2,
        issue_kind: IssueKind::Task,
        assignee: None,
        labels: vec![],
        prerequisites: vec![],
        design: None,
        acceptance: None,
        notes: None,
    })
}

fn urgent() -> Label {
    Label::new("urgent").expect("canonical label")
}

#[test]
fn workspace_mutation_lock_classification_is_exhaustive() {
    let mutations = vec![
        create("Issue"),
        Commands::Update(UpdateArgs {
            issue_ids: vec![s("test-abc")],
            title: Some(s("Updated")),
            description: None,
            priority: None,
            issue_kind: None,
            design: None,
            acceptance: None,
        }),
        Commands::Close(CloseArgs { issue_ids: vec![s("test-abc")], reason: None }),
        Commands::Reopen(ReopenArgs { issue_ids: vec![s("test-abc")], reason: None }),
        Commands::Delete(DeleteArgs { issue_id: s("test-abc"), force: true }),
        Commands::Claim(AssignmentArgs { issue_id: s("test-abc"), assignee: s("alice") }),
        Commands::Release(AssignmentArgs { issue_id: s("test-abc"), assignee: s("alice") }),
        Commands::BlockingDependency(BlockingDependencyArgs {
            action: BlockingDependencyAction::Add {
                dependent: s("test-abc"),
                prerequisite: s("test-def"),
            },
        }),
        Commands::BlockingDependency(BlockingDependencyArgs {
            action: BlockingDependencyAction::Remove {
                dependent: s("test-abc"),
                prerequisite: s("test-def"),
            },
        }),
        Commands::Related(RelatedArgs {
            action: RelatedAction::Add { issue: s("test-abc"), related: s("test-def") },
        }),
        Commands::Related(RelatedArgs {
            action: RelatedAction::Remove { issue: s("test-abc"), related: s("test-def") },
        }),
        Commands::Discovery(DiscoveryArgs {
            action: DiscoveryAction::Add { discovered: s("test-abc"), source: s("test-def") },
        }),
        Commands::Discovery(DiscoveryArgs {
            action: DiscoveryAction::Remove { discovered: s("test-abc"), source: s("test-def") },
        }),
        Commands::Parent(ParentArgs {
            action: ParentAction::SetParent { child: s("test-abc"), parent: s("test-def") },
        }),
        Commands::Parent(ParentArgs { action: ParentAction::Clear { child: s("test-abc") } }),
        Commands::Parent(ParentArgs {
            action: ParentAction::Move { child: s("test-abc"), parent: s("test-def") },
        }),
        Commands::Label(LabelArgs {
            action: LabelAction::Add { label: urgent(), issue_id: Some(s("test-abc")), ids: vec![] },
        }),
        Commands::Label(LabelArgs {
            action: LabelAction::Remove { label: urgent(), issue_id: Some(s("test-abc")), ids: vec![] },
        }),
        Commands::Resource(ResourceArgs {
            action: ResourceAction::Add {
                issue_id: s("test-abc"),
                url: Some(s("https://example.com")),
                path: None,
                role: ResourceRole::Reference,
                label: None,
            },
        }),
        Commands::Resource(ResourceArgs {
            action: ResourceAction::Update {
                issue_id: s("test-abc"),
                resource: s("r1"),
                url: None,
                path: None,
                role: None,
                label: Some(s("Updated")),
                no_label: false,
            },
        }),
        Commands::Resource(ResourceArgs {
            action: ResourceAction::Remove { issue_id: s("test-abc"), resource: s("r1") },
        }),
    ];
    for command in &mutations {
        assert!(command.mutates_workspace(), "should lock mutation: {command:?}");
    }

    let reads = vec![
        Commands::Init(InitArgs { prefix: None, quiet: false }),
        Commands::Info(InfoArgs {}),
        Commands::List(ListArgs {
            status: None,
            priority: None,
            issue_kind: None,
            assignee: None,
            label: None,
            limit: 10,
            sort: SortOrderArg::Priority,
        }),
        Commands::Show(ShowArgs { issue_ids: vec![s("test-abc")] }),
        Commands::Ready(ReadyArgs {
            assignee: None,
            all_assignees: false,
            priority: None,
            issue_kind: None,
            label: None,
            limit: 10,
            sort: SortPolicyArg::Hybrid,
        }),
        Commands::BlockingDependency(BlockingDependencyArgs {
            action: BlockingDependencyAction::List(BlockingDependencyListArgs {
                dependent: Some(s("test-abc")),
                prerequisite: None,
            }),
        }),
        Commands::BlockingDependency(BlockingDependencyArgs {
            action: BlockingDependencyAction::Tree { dependent: s("test-abc"), depth: 5 },
        }),
        Commands::Related(RelatedArgs { action: RelatedAction::List { issue: s("test-abc") } }),
        Commands::Discovery(DiscoveryArgs {
            action: DiscoveryAction::List { discovered: s("test-abc") },
        }),
        Commands::Parent(ParentArgs { action: ParentAction::Show { child: s("test-abc") } }),
        Commands::Label(LabelArgs { action: LabelAction::List { issue_id: s("test-abc") } }),
        Commands::Label(LabelArgs { action: LabelAction::ListAll }),
        Commands::Resource(ResourceArgs { action: ResourceAction::List { issue_id: s("test-abc") } }),
        Commands::Stale(StaleArgs { days: 30, status: None, limit: 10 }),
        Commands::Blocked(BlockedArgs { assignee: None }),
        Commands::Stats(StatsArgs { detailed: false }),
    ];
    for command in &reads {
        assert!(!command.mutates_workspace(), "should not lock read: {command:?}");
    }
}

// ===== Batch outcomes =====

#[test]
fn test_save_or_record_failure_outcomes() {
    for (is_success, expected_succeeded, expected_failed) in [(true, 1, 0), (false, 0, 1)] {
        let mut result = BatchResult::new();
        let outcome = if is_success {
            BatchOutcome::Saved(create_test_issue("test-abc"))
        } else {
            BatchOutcome::Failed(RivetsError::IssueNotFound(IssueId::new("test-abc")).to_string())
        };
        record_batch_outcome(&mut result, "test-abc", outcome);
        assert_eq!(result.succeeded.len(), expected_succeeded);
        assert_eq!(result.failed.len(), expected_failed);
    }
}

#[test]
fn test_save_or_record_failure_success_records_issue() {
    let mut result = BatchResult::new();
    record_batch_outcome(&mut result, "test-abc", BatchOutcome::Saved(create_test_issue("test-abc")));
    assert_eq!(result.succeeded[0].id.as_str(), "test-abc");
}

#[test]
fn test_save_or_record_failure_error_contains_message() {
    let mut result = BatchResult::new();
    let message = RivetsError::IssueNotFound(IssueId::new("test-abc")).to_string();
    record_batch_outcome(&mut result, "test-abc", BatchOutcome::Failed(message));
    assert_eq!(result.failed[0].issue_id, "test-abc");
    assert!(result.failed[0].error.contains("not found"));
}

#[test]
fn test_save_or_record_failure_save_error() {
    let mut result = BatchResult::new();
    record_batch_outcome(
        &mut result,
        "test-save-fail",
        BatchOutcome::SaveFailed { save_error: s("permission denied"), reload_error: None },
    );
    assert_eq!(result.succeeded.len(), 0);
    assert_eq!(result.failed.len(), 1);
    assert_eq!(result.failed[0].issue_id, "test-save-fail");
    assert!(result.failed[0].error.contains("Save failed"));
}

// ===== Output configuration from the environment =====

#[test]
fn output_test_output_config_from_env() {
    let config = OutputConfig::from_env_values(Some("120"), Some("1"), None, None);
    assert_eq!(config.max_width, 120);
    assert!(config.use_ascii);
    assert!(config.use_colors);

    let config = OutputConfig::from_env_values(Some("invalid"), Some("false"), None, None);
    assert_eq!(config.max_width, DEFAULT_MAX_CONTENT_WIDTH);
    assert!(!config.use_ascii);

    let config = OutputConfig::from_env_values(Some("invalid"), Some("false"), Some("1"), None);
    assert!(!config.use_colors, "NO_COLOR should disable colors");

    let config = OutputConfig::from_env_values(Some("invalid"), Some("false"), None, Some("0"));
    assert!(!config.use_colors, "RIVETS_COLOR=0 should disable colors");

    let config = OutputConfig::from_env_values(Some("invalid"), Some("false"), None, Some("false"));
    assert!(!config.use_colors, "RIVETS_COLOR=false should disable colors");

    let config = OutputConfig::from_env_values(None, None, None, None);
    assert_eq!(config.max_width, DEFAULT_MAX_CONTENT_WIDTH);
    assert!(!config.use_ascii);
    assert!(config.use_colors);
}

#[test]
fn mod_test_output_config_from_env() {
    let config = OutputConfig::from_env_values(Some("120"), Some("TRUE"), None, Some("FALSE"));
    assert_eq!(config.max_width, 120);
    assert!(config.use_ascii);
    assert!(!config.use_colors);
}

// ===== Workspace information =====

#[test]
fn information_rejects_unsupported_backend() {
    let config = RivetsConfig::new("custom");
    let result = WorkspaceInformation::from_config(
        "/work",
        "/work/.rivets/config.yaml",
        &config,
        &StorageBackend::InMemory,
    );
    assert!(matches!(result, Err(ConfigError::UnsupportedBackend(_))));
}

#[test]
fn information_uses_resolved_configuration() {
    let mut config = RivetsConfig::new("custom");
    config.storage.backend = s("jsonl");
    config.storage.data_file = s("data/issues.jsonl");
    let backend = StorageBackend::Jsonl(s("data/issues.jsonl"));
    let information =
        WorkspaceInformation::from_config("/work", "/work/.rivets/config.yaml", &config, &backend)
            .expect("a file-backed storage is supported");
    assert_eq!(information.workspace_root(), "/work");
    assert_eq!(information.config_path(), "/work/.rivets/config.yaml");
    assert_eq!(information.database_path(), "/work/data/issues.jsonl");
    assert_eq!(information.storage_backend(), "jsonl");
    assert_eq!(information.issue_prefix(), "custom");
}
