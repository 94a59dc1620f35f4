use rivets::cli::{
    BatchError, BatchResult, DepAction, DependencyTypeArg, IssueStatusArg, IssueTypeArg,
    SortOrderArg, SortOrderArg as Order, SortPolicyArg,
};
use rivets::commands::{
    all_labels, all_labels_listing, bail_on_batch_failures, count_by_status, issue_labels_listing,
    priority_breakdown, project_stats, record_batch_outcome, resolve_label_issue_ids, select_stale,
    sort_for_listing, BatchOutcome,
};
use rivets::domain::{DependencyType, IssueId, IssueKind, IssueStatus, Timestamp};
use rivets::issue::Issue;
use rivets::relationship::{
    BlockingDependency, BlockingDependencyError, DiscoveryOrigin, DiscoveryOriginError, Parentage,
    ParentageError, RelatedAssociation, RelatedAssociationError,
};

fn create_test_issue(id: &str) -> Issue {
    Issue::new(
        IssueId::new(id),
        "Test Issue".to_string(),
        String::new(),
        IssueStatus::Open,
        2,
        IssueKind::Task,
        Timestamp {
            secs: 1_700_000_000,
            nanos: 0,
        },
    )
}

// ===== Value conversions =====

#[test]
fn test_issue_type_conversion() {
    assert_eq!(IssueKind::from(IssueTypeArg::Bug), IssueKind::Bug);
    assert_eq!(IssueKind::from(IssueTypeArg::Feature), IssueKind::Feature);
    assert_eq!(IssueKind::from(IssueTypeArg::Task), IssueKind::Task);
    assert_eq!(IssueKind::from(IssueTypeArg::Epic), IssueKind::Epic);
    assert_eq!(IssueKind::from(IssueTypeArg::Chore), IssueKind::Chore);
    assert_eq!(IssueTypeArg::from(IssueKind::Bug), IssueTypeArg::Bug);
    assert_eq!(IssueTypeArg::from(IssueKind::Feature), IssueTypeArg::Feature);
}

#[test]
fn test_issue_status_conversion() {
    assert_eq!(IssueStatus::from(IssueStatusArg::Open), IssueStatus::Open);
    assert_eq!(
        IssueStatus::from(IssueStatusArg::InProgress),
        IssueStatus::InProgress
    );
    assert_eq!(IssueStatus::from(IssueStatusArg::Blocked), IssueStatus::Blocked);
    assert_eq!(IssueStatus::from(IssueStatusArg::Closed), IssueStatus::Closed);
    assert_eq!(IssueStatusArg::from(IssueStatus::Open), IssueStatusArg::Open);
}

#[test]
fn test_dependency_type_conversion() {
    assert_eq!(
        DependencyType::from(DependencyTypeArg::Blocks),
        DependencyType::Blocks
    );
    assert_eq!(
        DependencyType::from(DependencyTypeArg::Related),
        DependencyType::Related
    );
    assert_eq!(
        DependencyType::from(DependencyTypeArg::ParentChild),
        DependencyType::ParentChild
    );
    assert_eq!(
        DependencyType::from(DependencyTypeArg::DiscoveredFrom),
        DependencyType::DiscoveredFrom
    );
}

#[test]
fn cli_test_display_implementations() {
    assert_eq!(IssueTypeArg::Bug.to_string(), "bug");
    assert_eq!(IssueStatusArg::InProgress.to_string(), "in_progress");
    assert_eq!(DependencyTypeArg::ParentChild.to_string(), "parent-child");
    assert_eq!(SortOrderArg::Priority.to_string(), "priority");
    assert_eq!(SortPolicyArg::Hybrid.to_string(), "hybrid");
}

#[test]
fn types_test_display_implementations() {
    assert_eq!(SortOrderArg::Priority.to_string(), "priority");
    assert_eq!(SortPolicyArg::Hybrid.to_string(), "hybrid");
}

#[test]
fn conversions_round_trip_every_variant() {
    for arg in [
        IssueTypeArg::Bug,
        IssueTypeArg::Feature,
        IssueTypeArg::Task,
        IssueTypeArg::Epic,
        IssueTypeArg::Chore,
    ] {
        assert_eq!(IssueTypeArg::from(IssueKind::from(arg)), arg);
    }
    for arg in [
        IssueStatusArg::Open,
        IssueStatusArg::InProgress,
        IssueStatusArg::Blocked,
        IssueStatusArg::Closed,
    ] {
        assert_eq!(IssueStatusArg::from(IssueStatus::from(arg)), arg);
    }
    assert_eq!(DependencyTypeArg::DiscoveredFrom.to_string(), "discovered-from");
    assert_eq!(SortOrderArg::default(), SortOrderArg::Priority);
    assert_eq!(SortPolicyArg::default(), SortPolicyArg::Hybrid);
}

// ===== Label targets =====

#[test]
fn test_single_positional_id() {
    let result = resolve_label_issue_ids(&Some("test-abc".to_string()), &[]);
    assert!(result.is_ok());
    assert_eq!(result.unwrap(), vec!["test-abc".to_string()]);
}

#[test]
fn test_multiple_ids_via_flag() {
    let ids = vec!["test-1".to_string(), "test-2".to_string()];
    let result = resolve_label_issue_ids(&None, &ids);
    assert!(result.is_ok());
    assert_eq!(
        result.unwrap(),
        vec!["test-1".to_string(), "test-2".to_string()]
    );
}

#[test]
fn test_both_positional_and_flag_fails() {
    let ids = vec!["test-2".to_string()];
    let result = resolve_label_issue_ids(&Some("test-1".to_string()), &ids);
    assert!(result.is_err());
    assert!(result.unwrap_err().to_string().contains("Cannot use both"));
}

#[test]
fn test_neither_positional_nor_flag_fails() {
    let result = resolve_label_issue_ids(&None, &[]);
    assert!(result.is_err());
    assert!(result.unwrap_err().to_string().contains("Must provide"));
}

// ===== Status counts =====

#[test]
fn test_empty_list() {
    let counts = count_by_status(&[]);
    assert_eq!(counts.total, 0);
    assert_eq!(counts.open, 0);
    assert_eq!(counts.in_progress, 0);
    assert_eq!(counts.closed, 0);
}

#[test]
fn test_single_status() {
    let mut issue = create_test_issue("test-1");
    issue.status = IssueStatus::InProgress;
    let counts = count_by_status(&[issue]);
    assert_eq!(counts.total, 1);
    assert_eq!(counts.open, 0);
    assert_eq!(counts.in_progress, 1);
    assert_eq!(counts.closed, 0);
}

#[test]
fn test_mixed_statuses() {
    let mut issues = vec![
        create_test_issue("test-1"),
        create_test_issue("test-2"),
        create_test_issue("test-3"),
        create_test_issue("test-4"),
        create_test_issue("test-5"),
        create_test_issue("test-6"),
    ];
    issues[0].status = IssueStatus::Open;
    issues[1].status = IssueStatus::Open;
    issues[2].status = IssueStatus::InProgress;
    issues[3].status = IssueStatus::InProgress;
    issues[4].status = IssueStatus::Closed;
    issues[5].status = IssueStatus::Closed;
    let counts = count_by_status(&issues);
    assert_eq!(counts.total, 6);
    assert_eq!(counts.open, 2);
    assert_eq!(counts.in_progress, 2);
    assert_eq!(counts.closed, 2);
}

#[test]
fn test_all_same_status() {
    let issues: Vec<Issue> = (1..=5)
        .map(|i| {
            let mut issue = create_test_issue(&format!("test-{}", i));
            issue.status = IssueStatus::InProgress;
            issue
        })
        .collect();
    let counts = count_by_status(&issues);
    assert_eq!(counts.total, 5);
    assert_eq!(counts.open, 0);
    assert_eq!(counts.in_progress, 5);
    assert_eq!(counts.closed, 0);
}

#[test]
fn blocked_issues_count_only_in_the_total() {
    let mut issue = create_test_issue("test-1");
    issue.status = IssueStatus::Blocked;
    let counts = count_by_status(&[issue, create_test_issue("test-2")]);
    assert_eq!(counts.total, 2);
    assert_eq!(counts.open + counts.in_progress + counts.closed, 1);
}

// ===== Batch failures =====

#[test]
fn test_no_failures_returns_ok() {
    let result = BatchResult::new();
    assert!(bail_on_batch_failures(&result, "update").is_ok());
}

#[test]
fn test_with_successes_only_returns_ok() {
    let mut result = BatchResult::new();
    result.succeeded.push(create_test_issue("test-1"));
    result.succeeded.push(create_test_issue("test-2"));
    assert!(bail_on_batch_failures(&result, "close").is_ok());
}

#[test]
fn test_all_failures_returns_error() {
    let mut result = BatchResult::new();
    result.failed.push(BatchError {
        issue_id: "test-1".to_string(),
        error: "Not found".to_string(),
    });
    result.failed.push(BatchError {
        issue_id: "test-2".to_string(),
        error: "Invalid".to_string(),
    });
    let msg = bail_on_batch_failures(&result, "update").unwrap_err().to_string();
    assert!(msg.contains("2 of 2"), "Should show '2 of 2', got: {}", msg);
    assert!(msg.contains("update"), "Should contain 'update', got: {}", msg);
}

#[test]
fn test_partial_failures_returns_error() {
    let mut result = BatchResult::new();
    result.succeeded.push(create_test_issue("test-ok"));
    result.failed.push(BatchError {
        issue_id: "test-fail".to_string(),
        error: "Error".to_string(),
    });
    let msg = bail_on_batch_failures(&result, "close").unwrap_err().to_string();
    assert!(msg.contains("1 of 2"), "Should show '1 of 2', got: {}", msg);
    assert!(msg.contains("close"), "Should contain 'close', got: {}", msg);
}

#[test]
fn test_error_message_format() {
    let mut result = BatchResult::new();
    result.failed.push(BatchError {
        issue_id: "test-1".to_string(),
        error: "Error".to_string(),
    });
    let msg = bail_on_batch_failures(&result, "label add").unwrap_err().to_string();
    assert!(
        msg.contains("label add(s) failed"),
        "Should format action correctly, got: {}",
        msg
    );
    assert_eq!(msg, "1 of 1 label add(s) failed");
}

#[test]
fn batch_result_classification() {
    let mut result = BatchResult::new();
    assert!(result.is_complete_success());
    assert!(!result.is_complete_failure());
    assert!(!result.has_failures());
    assert_eq!(result.total(), 0);
    result.failed.push(BatchError {
        issue_id: "test-1".to_string(),
        error: "Error".to_string(),
    });
    assert!(result.is_complete_failure());
    result.succeeded.push(create_test_issue("test-2"));
    assert!(!result.is_complete_failure());
    assert!(!result.is_complete_success());
    assert!(result.has_failures());
    assert_eq!(result.total(), 2);
}

// ===== Relationship values =====

#[test]
fn blocking_dependency_preserves_direction_and_rejects_self() {
    let dependency = BlockingDependency::new(
        IssueId::new("test-dependent"),
        IssueId::new("test-prerequisite"),
    )
    .expect("distinct endpoint roles should be valid");
    assert_eq!(dependency.dependent_id().as_str(), "test-dependent");
    assert_eq!(dependency.prerequisite_id().as_str(), "test-prerequisite");
    assert_eq!(
        BlockingDependency::new(IssueId::new("test-a"), IssueId::new("test-a")),
        Err(BlockingDependencyError::SelfReference {
            issue_id: IssueId::new("test-a")
        })
    );
    let error = BlockingDependency::new(IssueId::new("test-self"), IssueId::new("test-self"))
        .expect_err("self-reference must be rejected");
    assert!(error.to_string().contains("cannot depend on itself"));
}

#[test]
fn relationship_values_preserve_semantics_and_reject_self() {
    let issue_a = IssueId::new("test-a");
    let issue_b = IssueId::new("test-b");
    let forward = RelatedAssociation::new(issue_a.clone(), issue_b.clone())
        .expect("distinct Related endpoints should be valid");
    let reverse = RelatedAssociation::new(issue_b.clone(), issue_a.clone())
        .expect("Related endpoint order should not matter");
    assert_eq!(forward, reverse);
    assert_eq!(forward.left_issue_id(), &issue_a);
    assert_eq!(forward.right_issue_id(), &issue_b);
    assert_eq!(
        RelatedAssociation::new(issue_a.clone(), issue_a.clone()),
        Err(RelatedAssociationError::SelfReference {
            issue_id: issue_a.clone()
        })
    );
    let origin = DiscoveryOrigin::new(issue_a.clone(), issue_b.clone())
        .expect("distinct Discovery endpoints should be valid");
    assert_eq!(origin.discovered_issue_id(), &issue_a);
    assert_eq!(origin.source_issue_id(), &issue_b);
    assert_eq!(
        DiscoveryOrigin::new(issue_a.clone(), issue_a.clone()),
        Err(DiscoveryOriginError::SelfReference { issue_id: issue_a })
    );
}

#[test]
fn parentage_constructor_and_deserialization_reject_self_reference() {
    let parentage = Parentage::new(IssueId::new("test-child"), IssueId::new("test-parent"))
        .expect("distinct endpoint roles should be valid");
    assert_eq!(parentage.child_id().as_str(), "test-child");
    assert_eq!(parentage.parent_id().as_str(), "test-parent");
    assert_eq!(
        Parentage::new(IssueId::new("test-self"), IssueId::new("test-self")),
        Err(ParentageError::SelfReference {
            issue_id: IssueId::new("test-self")
        })
    );
    let error = Parentage::new(IssueId::new("test-self"), IssueId::new("test-self"))
        .expect_err("self-reference must be rejected");
    assert!(error.to_string().contains("cannot be its own parent"));
}

#[test]
fn parentage_errors_list_children_as_debug_ids() {
    let error = ParentageError::ActiveChildren {
        epic_id: IssueId::new("test-epic"),
        child_ids: vec![IssueId::new("test-c1"), IssueId::new("test-c2")],
    };
    assert_eq!(
        error.to_string(),
        "Cannot close Epic test-epic: non-Closed direct children: [IssueId(\"test-c1\"), IssueId(\"test-c2\")]"
    );
    let error = ParentageError::ParentHasChildren {
        parent_id: IssueId::new("test-epic"),
        child_ids: vec![],
    };
    assert_eq!(
        error.to_string(),
        "Cannot change Epic test-epic to a non-Epic kind while it has children: []"
    );
    assert_eq!(
        format!("{:?}", vec![IssueId::new("a\"b")]),
        "[IssueId(\"a\\\"b\")]"
    );
    let error = ParentageError::ActiveChildren {
        epic_id: IssueId::new("e"),
        child_ids: vec![IssueId::new("a\"b")],
    };
    assert!(error.to_string().ends_with(&format!("{:?}", vec![IssueId::new("a\"b")])));
}

// ===== Listing order =====

fn dated_issue(id: &str, priority: u8, created: i64, updated: i64) -> Issue {
    let mut issue = Issue::new(
        IssueId::new(id),
        "Test Issue".to_string(),
        String::new(),
        IssueStatus::Open,
        priority,
        IssueKind::Task,
        Timestamp {
            secs: created,
            nanos: 0,
        },
    );
    issue.updated_at = Timestamp {
        secs: updated,
        nanos: 0,
    };
    issue
}

fn ids(issues: &[Issue]) -> Vec<String> {
    issues.iter().map(|i| i.id.as_str().to_string()).collect()
}

fn sample_issues() -> Vec<Issue> {
    vec![
        dated_issue("t-a", 2, 100, 500),
        dated_issue("t-b", 1, 200, 100),
        dated_issue("t-c", 2, 300, 300),
        dated_issue("t-d", 1, 50, 400),
    ]
}

#[test]
fn listing_sorts_by_priority_then_newest() {
    let sorted = sort_for_listing(sample_issues(), Order::Priority, 10);
    assert_eq!(ids(&sorted), vec!["t-b", "t-d", "t-c", "t-a"]);
}

#[test]
fn listing_sorts_by_creation_and_update() {
    assert_eq!(
        ids(&sort_for_listing(sample_issues(), Order::Newest, 10)),
        vec!["t-c", "t-b", "t-a", "t-d"]
    );
    assert_eq!(
        ids(&sort_for_listing(sample_issues(), Order::Oldest, 10)),
        vec!["t-d", "t-a", "t-b", "t-c"]
    );
    assert_eq!(
        ids(&sort_for_listing(sample_issues(), Order::Updated, 10)),
        vec!["t-a", "t-d", "t-c", "t-b"]
    );
}

#[test]
fn listing_applies_the_limit_after_sorting_and_is_stable() {
    assert_eq!(
        ids(&sort_for_listing(sample_issues(), Order::Oldest, 2)),
        vec!["t-d", "t-a"]
    );
    let ties = vec![
        dated_issue("t-1", 3, 10, 10),
        dated_issue("t-2", 3, 10, 10),
        dated_issue("t-3", 3, 10, 10),
    ];
    assert_eq!(
        ids(&sort_for_listing(ties, Order::Priority, 5)),
        vec!["t-1", "t-2", "t-3"]
    );
    assert!(sort_for_listing(sample_issues(), Order::Priority, 0).is_empty());
}

#[test]
fn stale_selection_lists_oldest_updates_first() {
    let mut closed = dated_issue("t-x", 1, 10, 50);
    closed.status = IssueStatus::Closed;
    let mut issues = sample_issues();
    issues.push(closed);
    let cutoff = Timestamp {
        secs: 450,
        nanos: 0,
    };
    assert_eq!(
        ids(&select_stale(issues, cutoff, false, 10)),
        vec!["t-b", "t-c", "t-d"]
    );
    let mut closed = dated_issue("t-x", 1, 10, 50);
    closed.status = IssueStatus::Closed;
    let mut issues = sample_issues();
    issues.push(closed);
    assert_eq!(ids(&select_stale(issues, cutoff, true, 2)), vec!["t-x", "t-b"]);
}

// ===== Labels across issues =====

#[test]
fn all_labels_are_unique_and_sorted() {
    let mut a = create_test_issue("t-1");
    a.labels = vec!["urgent".to_string(), "backend".to_string()];
    let mut b = create_test_issue("t-2");
    b.labels = vec!["backend".to_string(), "api".to_string()];
    let c = create_test_issue("t-3");
    let labels = all_labels(&[a, b, c]);
    assert_eq!(labels, vec!["api", "backend", "urgent"]);
    assert_eq!(
        all_labels_listing(&labels),
        "All labels (3):\n  api\n  backend\n  urgent\n"
    );
    assert_eq!(all_labels_listing(&[]), "No labels found in any issues.\n");
    assert!(all_labels(&[]).is_empty());
}

#[test]
fn issue_label_listing_text() {
    assert_eq!(issue_labels_listing("t-1", &[]), "t-1 has no labels\n");
    assert_eq!(
        issue_labels_listing("t-1", &["a".to_string(), "b".to_string()]),
        "Labels for t-1 (2):\n  a\n  b\n"
    );
}

// ===== Batch outcomes =====

#[test]
fn batch_outcomes_are_recorded() {
    let mut result = BatchResult::new();
    record_batch_outcome(&mut result, "t-1", BatchOutcome::Saved(create_test_issue("t-1")));
    record_batch_outcome(
        &mut result,
        "t-2",
        BatchOutcome::SaveFailed {
            save_error: "disk full".to_string(),
            reload_error: None,
        },
    );
    record_batch_outcome(
        &mut result,
        "t-3",
        BatchOutcome::SaveFailed {
            save_error: "disk full".to_string(),
            reload_error: Some("corrupt".to_string()),
        },
    );
    record_batch_outcome(&mut result, "t-4", BatchOutcome::Failed("Not found".to_string()));
    assert_eq!(result.succeeded.len(), 1);
    assert_eq!(result.failed.len(), 3);
    assert_eq!(result.failed[0].issue_id, "t-2");
    assert_eq!(result.failed[0].error, "Save failed: disk full");
    assert_eq!(
        result.failed[1].error,
        "Save failed: disk full (reload also failed: corrupt - state may be inconsistent. Run 'rivets list' to verify current state)"
    );
    assert_eq!(result.failed[2].error, "Not found");
    assert_eq!(
        bail_on_batch_failures(&result, "close").unwrap_err(),
        "3 of 4 close(s) failed"
    );
}

// ===== Project statistics =====

#[test]
fn project_stats_text_with_priority_breakdown() {
    let mut issues = sample_issues();
    issues[0].status = IssueStatus::Closed;
    issues[1].status = IssueStatus::InProgress;
    let counts = count_by_status(&issues);
    let by_priority = priority_breakdown(&issues);
    assert_eq!(by_priority, vec![0, 2, 2, 0, 0]);
    assert_eq!(
        project_stats(&counts, 1, 0, None),
        "Project Statistics\n==================\n\nTotal Issues:  4\n\nBy Status:\n  Open:        2\n  In Progress: 1\n  Closed:      1\n\nReady to Work: 1\nBlocked by Dependencies: 0\n"
    );
    let detailed = project_stats(&counts, 1, 0, Some(&by_priority));
    assert!(detailed.ends_with(
        "\nBy Priority:\n  P0 (Critical): 0\n  P1 (High): 2\n  P2 (Medium): 2\n  P3 (Low): 0\n  P4 (Backlog): 0\n"
    ));
}

#[test]
fn dep_actions_classify_writes() {
    assert!(DepAction::Add {
        from: "t-1".to_string(),
        to: "t-2".to_string(),
        dep_type: DependencyTypeArg::Blocks,
    }
    .mutates_workspace());
    assert!(DepAction::Remove {
        from: "t-1".to_string(),
        to: "t-2".to_string(),
    }
    .mutates_workspace());
    assert!(!DepAction::List {
        issue_id: "t-1".to_string(),
        reverse: true,
    }
    .mutates_workspace());
}

#[test]
fn sort_values_parse_their_spellings() {
    for order in [Order::Priority, Order::Newest, Order::Oldest, Order::Updated] {
        assert_eq!(Order::parse_str(&order.to_string()), Some(order));
    }
    assert_eq!(Order::parse_str("Priority"), None);
    for policy in [SortPolicyArg::Hybrid, SortPolicyArg::Priority, SortPolicyArg::Oldest] {
        assert_eq!(SortPolicyArg::parse_str(&policy.to_string()), Some(policy));
    }
    assert_eq!(SortPolicyArg::parse_str("newest"), None);
}
