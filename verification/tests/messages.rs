use rivets::cli::{BatchError, BatchResult};
use rivets::commands::{
    blocking_listing, blocking_tree_listing, cancelled_line, delete_prompt, discovery_listing,
    related_listing, required_target, resource_added_line, resource_listing,
    resource_removed_line, resource_updated_line,
    batch_failure_report, batch_success_line, blocking_list_query, depends_on_line,
    discovered_from_line, discovery_removed_line, no_longer_depends_line, no_longer_related_line,
    parent_cleared_line, parent_moved_line, parent_set_line, parent_show_line, parse_target_flags,
    print_stale_age, print_stale_header, related_line, resource_label_change, tree_depth_limit,
    tree_row_line, BlockingListQuery, LabelFlagsError, TargetFlagsError,
};
use rivets::domain::{Dependency, DependencyType, IssueId, IssueKind, IssueStatus, Timestamp};
use rivets::issue::Issue;
use rivets::output::OutputConfig;
use rivets::relationship::{BlockingDependency, DiscoveryOrigin, Parentage, RelatedAssociation};
use rivets::render::{print_blocked_text, print_issues_details_text, BlockedIssue, IssueDetails};
use rivets::init::StorageConfig;
use rivets::reporting::StorageBackend;
use rivets::error::ConfigError;
use rivets::resource::{NewResource, ResourceRole, WebUrl};
use rivets::resource::{ResourceError, ResourceTarget};
use rivets::tree::{print_dep_tree_dependents, print_dep_tree_text, DepTreeNode};

fn at(secs: i64) -> Timestamp {
    Timestamp { secs, nanos: 0 }
}

fn issue(id: &str, status: IssueStatus, priority: u8) -> Issue {
    Issue::new(
        IssueId::new(id),
        format!("Title of {id}"),
        String::new(),
        status,
        priority,
        IssueKind::Task,
        at(1_700_000_000),
    )
}

fn plain_config() -> OutputConfig {
    OutputConfig {
        max_width: 80,
        use_ascii: true,
        use_colors: false,
    }
}

// ===== Batch reports =====

#[test]
fn batch_success_line_lists_the_saved_ids() {
    let mut result = BatchResult::new();
    assert_eq!(batch_success_line(&result, "Closed"), None);
    result.succeeded.push(issue("t-1", IssueStatus::Closed, 2));
    result.succeeded.push(issue("t-2", IssueStatus::Closed, 2));
    assert_eq!(
        batch_success_line(&result, "Closed").as_deref(),
        Some("Closed 2 issue(s): t-1, t-2")
    );
}

#[test]
fn batch_failure_report_has_one_line_per_failure() {
    let mut result = BatchResult::new();
    assert_eq!(batch_failure_report(&result), None);
    result.failed.push(BatchError {
        issue_id: "t-3".to_string(),
        error: "Not found".to_string(),
    });
    result.failed.push(BatchError {
        issue_id: "t-4".to_string(),
        error: "Already closed".to_string(),
    });
    assert_eq!(
        batch_failure_report(&result).as_deref(),
        Some("Failed 2 issue(s):\n  t-3: Not found\n  t-4: Already closed\n")
    );
}

// ===== Relationship messages =====

#[test]
fn blocking_dependency_messages() {
    let dep = BlockingDependency::new(IssueId::new("t-a"), IssueId::new("t-b")).unwrap();
    assert_eq!(depends_on_line(&dep), "t-a depends on t-b");
    assert_eq!(no_longer_depends_line(&dep), "Removed: t-a no longer depends on t-b");
    assert_eq!(tree_row_line(&dep, 0), "t-a depends on t-b");
    assert_eq!(tree_row_line(&dep, 2), "    t-a depends on t-b");
}

#[test]
fn blocking_list_query_needs_exactly_one_endpoint() {
    assert!(matches!(
        blocking_list_query(Some("t-a"), None),
        Ok(BlockingListQuery::PrerequisitesOf(id)) if id.as_str() == "t-a"
    ));
    assert!(matches!(
        blocking_list_query(None, Some("t-b")),
        Ok(BlockingListQuery::DependentsOf(id)) if id.as_str() == "t-b"
    ));
    for (d, p) in [(None, None), (Some("t-a"), Some("t-b"))] {
        assert_eq!(
            blocking_list_query(d, p).unwrap_err(),
            "provide exactly one of --dependent or --prerequisite"
        );
    }
}

#[test]
fn tree_depth_zero_means_unlimited() {
    assert_eq!(tree_depth_limit(0), None);
    assert_eq!(tree_depth_limit(3), Some(3));
}

#[test]
fn related_and_discovery_messages() {
    let a = RelatedAssociation::new(IssueId::new("t-b"), IssueId::new("t-a")).unwrap();
    assert_eq!(related_line(&a), "t-a is related to t-b");
    assert_eq!(no_longer_related_line(&a), "Removed: t-a is no longer related to t-b");
    let o = DiscoveryOrigin::new(IssueId::new("t-new"), IssueId::new("t-old")).unwrap();
    assert_eq!(discovered_from_line(&o), "t-new was discovered from t-old");
    assert_eq!(
        discovery_removed_line(&o),
        "Removed: t-new was discovered from t-old"
    );
}

#[test]
fn parentage_messages() {
    let p = Parentage::new(IssueId::new("t-child"), IssueId::new("t-epic")).unwrap();
    let previous = Parentage::new(IssueId::new("t-child"), IssueId::new("t-old")).unwrap();
    assert_eq!(parent_set_line(&p), "Set parent: t-child -> t-epic");
    assert_eq!(parent_cleared_line(&p), "Cleared parent: t-child was owned by t-epic");
    assert_eq!(
        parent_moved_line(&p, &previous),
        "Moved parent: t-child from t-old to t-epic"
    );
    assert_eq!(
        parent_show_line(&IssueId::new("t-child"), &Some(p)),
        "t-child has parent t-epic"
    );
    assert_eq!(
        parent_show_line(&IssueId::new("t-lone"), &None),
        "t-lone has no parent"
    );
}

// ===== Resource flags =====

#[test]
fn target_flags_read_one_target() {
    match parse_target_flags(Some("https://example.com/docs"), None) {
        Ok(Some(ResourceTarget::Web { url })) => {
            assert_eq!(url.as_str(), "https://example.com/docs")
        }
        other => panic!("unexpected: {other:?}"),
    }
    match parse_target_flags(None, Some("./docs/../src/lib.rs")) {
        Ok(Some(ResourceTarget::Path { path })) => assert_eq!(path.as_str(), "src/lib.rs"),
        other => panic!("unexpected: {other:?}"),
    }
    assert!(matches!(parse_target_flags(None, None), Ok(None)));
    let both = parse_target_flags(Some("https://example.com"), Some("a.txt")).unwrap_err();
    assert!(matches!(both, TargetFlagsError::BothGiven));
    assert_eq!(both.to_string(), "only one of --url or --path may be given");
    assert!(matches!(
        parse_target_flags(None, Some("/etc/passwd")),
        Err(TargetFlagsError::Resource(ResourceError::AbsoluteWorkspacePath { .. }))
    ));
}

#[test]
fn label_flags_set_clear_or_keep() {
    match resource_label_change(Some("Design doc"), false) {
        Ok(Some(Some(label))) => assert_eq!(label.as_str(), "Design doc"),
        other => panic!("unexpected: {other:?}"),
    }
    assert!(matches!(resource_label_change(None, true), Ok(Some(None))));
    assert!(matches!(resource_label_change(None, false), Ok(None)));
    assert!(matches!(
        resource_label_change(Some("x"), true),
        Err(LabelFlagsError::BothGiven)
    ));
    assert!(matches!(
        resource_label_change(Some("   "), false),
        Err(LabelFlagsError::Resource(ResourceError::EmptyLabel))
    ));
}

// ===== Stale report =====

#[test]
fn stale_header_for_none_and_some() {
    let mut out = String::new();
    print_stale_header(&mut out, 0, 30);
    assert_eq!(out, "No stale issues found (not updated in 30 days).\n");
    let mut out = String::new();
    print_stale_header(&mut out, 2, 14);
    assert_eq!(out, "Stale issues (2 not updated in 14 days):\n\n");
}

#[test]
fn stale_age_counts_whole_days() {
    let stale = issue("t-1", IssueStatus::Open, 2);
    let mut out = String::new();
    print_stale_age(&mut out, &stale, at(1_700_000_000 + 3 * 86_400 + 100), &plain_config());
    assert_eq!(out, "  Stale: 3 days\n");
}

// ===== Blocked issues and trees without colors =====

#[test]
fn blocked_list_exact_text() {
    let config = plain_config();
    let mut out = String::new();
    print_blocked_text(&mut out, &[], &config);
    assert_eq!(out, "No blocked issues found.\n");

    let blocked = BlockedIssue {
        issue: issue("t-1", IssueStatus::Open, 1),
        blockers: vec![
            issue("t-2", IssueStatus::InProgress, 2),
            issue("t-3", IssueStatus::Open, 3),
        ],
    };
    let mut out = String::new();
    print_blocked_text(&mut out, &[blocked], &config);
    assert_eq!(
        out,
        "Found 1 blocked issue(s):\n\n\
         o t-1  -  P1  Title of t-1\n  Blocked by: t-2 (in_progress), t-3 (open)\n"
    );
}

#[test]
fn tree_exact_text_in_ascii() {
    let config = plain_config();
    let grandchild = DepTreeNode {
        id: "t-3".to_string(),
        dep_type: Some(DependencyType::Blocks),
        status: None,
        title: None,
        priority: None,
        children: vec![],
    };
    let child = DepTreeNode {
        id: "t-2".to_string(),
        dep_type: Some(DependencyType::Related),
        status: None,
        title: None,
        priority: None,
        children: vec![grandchild],
    };
    let sibling = DepTreeNode {
        id: "t-4".to_string(),
        dep_type: None,
        status: None,
        title: None,
        priority: None,
        children: vec![],
    };
    let root = DepTreeNode {
        id: "t-1".to_string(),
        dep_type: None,
        status: None,
        title: Some("Root".to_string()),
        priority: Some(0),
        children: vec![child, sibling],
    };
    let mut out = String::new();
    print_dep_tree_text(&mut out, &root, &config);
    assert_eq!(
        out,
        "* t-1 P0 Root\n|-- t-2 (related)\n|   `-- t-3 (blocks)\n`-- t-4 \n"
    );

    let mut out = String::new();
    let dependents = vec![Dependency {
        depends_on_id: IssueId::new("t-9"),
        dep_type: DependencyType::Blocks,
    }];
    print_dep_tree_dependents(&mut out, &dependents, &config);
    assert_eq!(out, "\nDepended on by (1):\n  `-- t-9  (blocks)\n");
}

#[test]
fn dependents_section_with_colors_paints_each_piece() {
    colored::control::set_override(true);
    let config = OutputConfig {
        max_width: 80,
        use_ascii: true,
        use_colors: true,
    };
    let dependents = vec![Dependency {
        depends_on_id: IssueId::new("t-9"),
        dep_type: DependencyType::Blocks,
    }];
    let mut out = String::new();
    print_dep_tree_dependents(&mut out, &dependents, &config);
    assert_eq!(
        out,
        "\n\x1b[1mDepended on by\x1b[0m (1):\n  \x1b[2m`-- \x1b[0m\x1b[36mt-9\x1b[0m  \x1b[2m(blocks)\x1b[0m\n"
    );
}


#[test]
fn add_needs_exactly_one_target_flag() {
    let missing = required_target(None, None).unwrap_err();
    assert!(matches!(missing, TargetFlagsError::NeitherGiven));
    assert_eq!(missing.to_string(), "exactly one of --url or --path is required");
    assert!(matches!(
        required_target(Some("https://a.example"), Some("b")),
        Err(TargetFlagsError::BothGiven)
    ));
    assert!(matches!(
        required_target(None, Some("docs/x.md")),
        Ok(ResourceTarget::Path { .. })
    ));
    assert_eq!(
        LabelFlagsError::BothGiven.to_string(),
        "only one of --label or --no-label may be given"
    );
}

#[test]
fn relationship_listings_note_when_empty() {
    assert_eq!(blocking_listing(&[]), "No Blocking Dependencies found\n");
    let dep = BlockingDependency::new(IssueId::new("t-a"), IssueId::new("t-b")).unwrap();
    assert_eq!(blocking_listing(&[dep]), "t-a depends on t-b\n");
    let dep = BlockingDependency::new(IssueId::new("t-a"), IssueId::new("t-b")).unwrap();
    assert_eq!(blocking_tree_listing("t-a", &[]), "t-a has no Blocking prerequisites\n");
    assert_eq!(
        blocking_tree_listing("t-a", &[(dep, 0)]),
        "Blocking prerequisites of t-a:\nt-a depends on t-b\n"
    );
    assert_eq!(related_listing(&[]), "No Related Associations found\n");
    assert_eq!(discovery_listing(&[]), "No Discovery Origins found\n");
    let o = DiscoveryOrigin::new(IssueId::new("t-n"), IssueId::new("t-o")).unwrap();
    assert_eq!(discovery_listing(&[o]), "t-n was discovered from t-o\n");
}

#[test]
fn resource_messages_and_listing() {
    let id = IssueId::new("t-1");
    assert_eq!(resource_added_line(&id), "Added resource to t-1");
    assert_eq!(resource_updated_line("r1", &id), "Updated resource r1 on t-1");
    assert_eq!(resource_removed_line("r2", &id), "Removed resource r2 from t-1");
    let mut with = issue("t-1", IssueStatus::Open, 2);
    assert_eq!(resource_listing("t-1", with.resources()), "t-1 has no associated resources\n");
    with.add_resource(NewResource {
        target: ResourceTarget::web(WebUrl::new("https://example.com/pr/1").unwrap()),
        role: ResourceRole::Implementation,
        label: None,
    })
    .unwrap();
    assert_eq!(
        resource_listing("t-1", with.resources()),
        "Resources for t-1 (1):\n  [r1] https://example.com/pr/1 (implementation)\n"
    );
}

#[test]
fn prompts_and_cancellation() {
    assert_eq!(cancelled_line("Close"), "Close cancelled.");
    assert_eq!(
        delete_prompt(&issue("t-1", IssueStatus::Open, 2)),
        "Delete issue 't-1' (Title of t-1)?"
    );
}

#[test]
fn storage_section_resolves_to_a_backend() {
    let config = |backend: &str, data: &str| StorageConfig {
        backend: backend.to_string(),
        data_file: data.to_string(),
    };
    assert!(matches!(config("memory", ".rivets/issues.jsonl").to_backend(), Ok(StorageBackend::InMemory)));
    match config("jsonl", "data/issues.jsonl").to_backend() {
        Ok(StorageBackend::Jsonl(p)) => assert_eq!(p, "data/issues.jsonl"),
        other => panic!("unexpected: {other:?}"),
    }
    assert!(matches!(config("jsonl", "/abs.jsonl").to_backend(), Err(ConfigError::AbsoluteDataPath)));
    assert!(matches!(config("jsonl", "a/../b.jsonl").to_backend(), Err(ConfigError::PathTraversal)));
    assert!(matches!(config("jsonl", "a/..b.jsonl").to_backend(), Ok(StorageBackend::Jsonl(_))));
    assert!(matches!(
        config("postgresql", "").to_backend(),
        Err(ConfigError::UnsupportedBackend(b)) if b == "postgresql"
    ));
    assert!(matches!(
        config("sqlite", "").to_backend(),
        Err(ConfigError::UnknownBackend(b)) if b == "sqlite"
    ));
}

#[test]
fn several_issue_details_are_separated() {
    let config = plain_config();
    let one = IssueDetails {
        issue: issue("t-1", IssueStatus::Open, 2),
        deps: vec![],
        dependents: vec![],
    };
    let two = IssueDetails {
        issue: issue("t-2", IssueStatus::Open, 2),
        deps: vec![],
        dependents: vec![],
    };
    let mut single = String::new();
    print_issues_details_text(&mut single, &[one], 80, &config);
    let mut both = String::new();
    let one = IssueDetails {
        issue: issue("t-1", IssueStatus::Open, 2),
        deps: vec![],
        dependents: vec![],
    };
    print_issues_details_text(&mut both, &[one, two], 80, &config);
    assert!(both.starts_with(&single));
    assert!(both[single.len()..].starts_with("\n---\n\no t-2: Title of t-2\n"));
}

#[test]
fn issue_ids_order_as_their_strings() {
    let pairs = [("a-1", "a-2"), ("b", "a"), ("x", "x"), ("\u{e9}", "z"), ("ab", "a")];
    for (a, b) in pairs {
        let (x, y) = (IssueId::new(a), IssueId::new(b));
        assert_eq!(x.partial_cmp(&y), Some(a.cmp(b)));
        assert_eq!(x.cmp(&y), a.cmp(b));
        assert_eq!(x == y, a == b);
        assert_eq!(IssueId::from(a.to_string()).as_str(), a);
    }
}
