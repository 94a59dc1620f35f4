use rivets::domain::{
    find_control_char, find_control_char_multiline, validate_text_fields,
    validate_title_and_priority, DependencyType, DependencyTypeError, IssueId, IssueKind,
    IssueKindError, IssueStatus, IssueStatusError, NewIssue, NoteContent, NoteError,
    StatusTransitionError, MAX_PRIORITY, MAX_TITLE_LENGTH, MIN_PRIORITY,
};
use rivets::resource::ResourceRole;

// ===== IssueId =====

#[test]
fn test_issue_id_display() {
    let id = IssueId::new("test-123");
    assert_eq!(id.to_string(), "test-123");
}

#[test]
fn test_issue_id_from_string() {
    let id = IssueId::from("test-456".to_string());
    assert_eq!(id.as_str(), "test-456");
}

#[test]
fn test_issue_id_from_str() {
    let id = IssueId::from("test-789");
    assert_eq!(id.as_str(), "test-789");
}

#[test]
fn test_issue_id_as_str() {
    let id = IssueId::new("proj-abc");
    assert_eq!(id.as_str(), "proj-abc");
}

#[test]
fn test_issue_id_equality() {
    let id1 = IssueId::new("same-id");
    let id2 = IssueId::new("same-id");
    let id3 = IssueId::new("different-id");

    assert_eq!(id1, id2);
    assert_ne!(id1, id3);
}

// ===== NewIssue::validate =====

#[test]
fn test_validate_valid_issue() {
    let issue = NewIssue {
        title: "Valid Title".to_string(),
        priority: 2,
        ..Default::default()
    };
    assert!(issue.validate().is_ok());
}

#[test]
fn test_validate_empty_title() {
    let issue = NewIssue {
        title: "".to_string(),
        ..Default::default()
    };
    let result = issue.validate();
    assert!(result.is_err());
    assert_eq!(result.unwrap_err(), "Title cannot be empty");
}

#[test]
fn test_validate_whitespace_only_title() {
    let issue = NewIssue {
        title: "   \t\n  ".to_string(),
        ..Default::default()
    };
    let result = issue.validate();
    assert!(result.is_err());
    assert_eq!(result.unwrap_err(), "Title cannot be empty");
}

#[test]
fn mod_test_validate_title_too_long() {
    let long_title = "x".repeat(MAX_TITLE_LENGTH + 1);
    let issue = NewIssue {
        title: long_title.clone(),
        ..Default::default()
    };
    let result = issue.validate();
    assert!(result.is_err());
    assert!(result
        .unwrap_err()
        .contains(&format!("cannot exceed {}", MAX_TITLE_LENGTH)));
}

#[test]
fn mod_test_validate_title_exactly_max_length() {
    let max_title = "x".repeat(MAX_TITLE_LENGTH);
    let issue = NewIssue {
        title: max_title,
        ..Default::default()
    };
    assert!(issue.validate().is_ok());
}

#[test]
fn test_validate_title_with_whitespace() {
    let issue = NewIssue {
        title: "  Valid Title  ".to_string(),
        ..Default::default()
    };
    assert!(issue.validate().is_ok());
}

#[test]
fn test_validate_invalid_priority_low() {
    let issue = NewIssue {
        title: "Valid Title".to_string(),
        priority: 5,
        ..Default::default()
    };
    let result = issue.validate();
    assert!(result.is_err());
    assert!(result.unwrap_err().contains("Priority must be in range 0-4"));
}

#[test]
fn test_validate_invalid_priority_high() {
    let issue = NewIssue {
        title: "Valid Title".to_string(),
        priority: 255,
        ..Default::default()
    };
    let result = issue.validate();
    assert!(result.is_err());
    assert!(result.unwrap_err().contains("Priority must be in range 0-4"));
}

#[test]
fn test_validate_priority_boundaries() {
    for priority in 0..=4 {
        let issue = NewIssue {
            title: "Valid Title".to_string(),
            priority,
            ..Default::default()
        };
        assert!(
            issue.validate().is_ok(),
            "Priority {} should be valid",
            priority
        );
    }
}

// ===== validate_title_and_priority =====

#[test]
fn test_validate_title_and_priority_cases() {
    let cases: [(&str, u8, bool); 6] = [
        ("Valid Title", 2, true),
        ("", 2, false),
        ("   ", 2, false),
        ("Valid", 0, true),
        ("Valid", MAX_PRIORITY, true),
        ("Valid", MAX_PRIORITY + 1, false),
    ];
    for (title, priority, should_pass) in cases {
        let result = validate_title_and_priority(title, priority);
        assert_eq!(result.is_ok(), should_pass);
    }
}

#[test]
fn test_title_exactly_max_length() {
    let title = "x".repeat(MAX_TITLE_LENGTH);
    assert!(validate_title_and_priority(&title, 2).is_ok());
}

#[test]
fn test_title_exceeds_max_length() {
    let title = "x".repeat(MAX_TITLE_LENGTH + 1);
    let result = validate_title_and_priority(&title, 2);
    assert!(result.is_err());
    assert!(result.unwrap_err().contains("cannot exceed"));
}

#[test]
fn test_priority_error_message_includes_range() {
    let result = validate_title_and_priority("Valid", MAX_PRIORITY + 1);
    let err = result.unwrap_err();
    assert!(err.contains(&format!("{}-{}", MIN_PRIORITY, MAX_PRIORITY)));
}

#[test]
fn test_title_length_is_counted_in_bytes() {
    // 67 three-byte characters are 201 bytes.
    let title = "€".repeat(67);
    let err = validate_title_and_priority(&title, 2).unwrap_err();
    assert_eq!(err, "Title cannot exceed 200 characters (got 201)");
}

// ===== NewIssue::default =====

#[test]
fn test_new_issue_default() {
    let issue = NewIssue::default();
    assert_eq!(issue.title, "Untitled Issue");
    assert_eq!(issue.description, "");
    assert_eq!(issue.priority, 2);
    assert_eq!(issue.issue_kind, IssueKind::Task);
    assert!(issue.assignee.is_none());
    assert!(issue.labels.is_empty());
    assert!(issue.prerequisites.is_empty());
}

#[test]
fn test_new_issue_default_validates() {
    let issue = NewIssue::default();
    assert!(issue.validate().is_ok());
}

// ===== Display =====

#[test]
fn test_issue_status_display() {
    assert_eq!(IssueStatus::Open.to_string(), "open");
    assert_eq!(IssueStatus::InProgress.to_string(), "in_progress");
    assert_eq!(IssueStatus::Blocked.to_string(), "blocked");
    assert_eq!(IssueStatus::Closed.to_string(), "closed");
}

#[test]
fn test_issue_kind_display() {
    assert_eq!(IssueKind::Bug.to_string(), "bug");
    assert_eq!(IssueKind::Feature.to_string(), "feature");
    assert_eq!(IssueKind::Task.to_string(), "task");
    assert_eq!(IssueKind::Epic.to_string(), "epic");
    assert_eq!(IssueKind::Chore.to_string(), "chore");
}

#[test]
fn test_dependency_type_display() {
    assert_eq!(DependencyType::Blocks.to_string(), "blocks");
    assert_eq!(DependencyType::Related.to_string(), "related");
    assert_eq!(DependencyType::ParentChild.to_string(), "parent-child");
    assert_eq!(DependencyType::DiscoveredFrom.to_string(), "discovered-from");
}

// ===== FromStr round trips =====

#[test]
fn test_issue_status_from_str_roundtrip() {
    for status in [
        IssueStatus::Open,
        IssueStatus::InProgress,
        IssueStatus::Blocked,
        IssueStatus::Closed,
    ] {
        assert_eq!(status.to_string().parse::<IssueStatus>(), Ok(status));
    }
}

#[test]
fn test_issue_status_from_str_rejects_noncanonical() {
    for invalid in ["", "OPEN", "in-progress", "in_progress ", "bogus"] {
        let error = invalid.parse::<IssueStatus>().unwrap_err();
        assert!(matches!(
            error,
            IssueStatusError::UnknownStatus { status } if status == invalid
        ));
    }
}

#[test]
fn test_issue_kind_from_str_roundtrip() {
    for kind in [
        IssueKind::Bug,
        IssueKind::Feature,
        IssueKind::Task,
        IssueKind::Epic,
        IssueKind::Chore,
    ] {
        assert_eq!(kind.to_string().parse::<IssueKind>(), Ok(kind));
    }
}

#[test]
fn test_issue_kind_from_str_rejects_noncanonical() {
    for invalid in ["", "BUG", "task ", "bogus"] {
        let error = invalid.parse::<IssueKind>().unwrap_err();
        assert!(matches!(
            error,
            IssueKindError::UnknownKind { kind } if kind == invalid
        ));
    }
}

#[test]
fn test_dependency_type_from_str_roundtrip() {
    for dep_type in [
        DependencyType::Blocks,
        DependencyType::Related,
        DependencyType::ParentChild,
        DependencyType::DiscoveredFrom,
    ] {
        assert_eq!(
            dep_type.to_string().parse::<DependencyType>(),
            Ok(dep_type)
        );
    }
}

#[test]
fn test_dependency_type_from_str_rejects_noncanonical() {
    for invalid in ["", "BLOCKS", "parent_child", "discovered_from", "bogus"] {
        let error = invalid.parse::<DependencyType>().unwrap_err();
        assert!(matches!(
            error,
            DependencyTypeError::UnknownDependencyType { dependency_type } if dependency_type == invalid
        ));
    }
}

// ===== Valid values and command-line names =====

#[test]
fn test_valid_values_list_every_canonical_name() {
    assert_eq!(
        IssueStatus::valid_values(),
        "open, in_progress, blocked, closed"
    );
    assert_eq!(
        DependencyType::valid_values(),
        "blocks, related, parent-child, discovered-from"
    );
}

#[test]
fn test_cli_value_names_match_display() {
    // The command line spells every value exactly as it is displayed.
    for status in [
        IssueStatus::Open,
        IssueStatus::InProgress,
        IssueStatus::Blocked,
        IssueStatus::Closed,
    ] {
        assert_eq!(status.as_str(), status.to_string());
    }
    for kind in [
        IssueKind::Bug,
        IssueKind::Feature,
        IssueKind::Task,
        IssueKind::Epic,
        IssueKind::Chore,
    ] {
        assert_eq!(kind.as_str(), kind.to_string());
    }
    for role in [
        ResourceRole::Implementation,
        ResourceRole::Documentation,
        ResourceRole::Evidence,
        ResourceRole::Successor,
        ResourceRole::Reference,
    ] {
        assert_eq!(role.as_str(), role.to_string());
    }
    for dep_type in [
        DependencyType::Blocks,
        DependencyType::Related,
        DependencyType::ParentChild,
        DependencyType::DiscoveredFrom,
    ] {
        assert_eq!(dep_type.as_str(), dep_type.to_string());
    }
}

#[test]
fn test_in_progress_alias_preserved() {
    assert_eq!(IssueStatus::InProgress.as_str(), "in_progress");
    assert_eq!(IssueStatus::InProgress.alias(), Some("in-progress"));
    assert_eq!(IssueStatus::Open.alias(), None);
}

// ===== Control characters =====

#[test]
fn test_find_control_char_cases() {
    let cases: [(&str, Option<usize>); 7] = [
        ("hello\x00world", Some(5)),
        ("before\x1bafter", Some(6)),
        ("ding\x07dong", Some(4)),
        ("test\x7fval", Some(4)),
        ("test\u{0090}val", Some(4)),
        ("hello\tworld", None),
        ("hello world 123!@#", None),
    ];
    for (input, expected) in cases {
        assert_eq!(find_control_char(input), expected);
    }
}

#[test]
fn test_find_control_char_multiline_cases() {
    let cases: [(&str, Option<usize>); 6] = [
        ("line1\nline2", None),
        ("line1\rline2", None),
        ("line1\r\nline2", None),
        ("col1\tcol2", None),
        ("before\x1b[31mred\x1b[0m", Some(6)),
        ("has\x00null", Some(3)),
    ];
    for (input, expected) in cases {
        assert_eq!(find_control_char_multiline(input), expected);
    }
}

#[test]
fn title_with_escape_sequence_rejected() {
    let issue = NewIssue {
        title: "Normal \x1b[31mRED\x1b[0m title".to_string(),
        ..Default::default()
    };
    let result = issue.validate();
    assert!(result.is_err());
    assert!(
        result.unwrap_err().contains("Title"),
        "Error should mention 'Title'"
    );
}

#[test]
fn description_with_escape_sequence_rejected() {
    let issue = NewIssue {
        title: "Clean title".to_string(),
        description: "Has \x1b[1mbold\x1b[0m text".to_string(),
        ..Default::default()
    };
    let result = issue.validate();
    assert!(result.is_err());
    assert!(
        result.unwrap_err().contains("Description"),
        "Error should mention 'Description'"
    );
}

#[test]
fn description_with_newlines_accepted() {
    let issue = NewIssue {
        title: "Clean title".to_string(),
        description: "Line 1\nLine 2\nLine 3".to_string(),
        ..Default::default()
    };
    assert!(issue.validate().is_ok());
}

#[test]
fn assignee_with_control_char_rejected() {
    let issue = NewIssue {
        title: "Clean title".to_string(),
        assignee: Some("user\x00name".to_string()),
        ..Default::default()
    };
    let result = issue.validate();
    assert!(result.is_err());
    assert!(result.unwrap_err().contains("Assignee"));
}

#[test]
fn label_with_control_char_rejected() {
    let issue = NewIssue {
        title: "Clean title".to_string(),
        labels: vec!["good".to_string(), "bad\x1btag".to_string()],
        ..Default::default()
    };
    let result = issue.validate();
    assert!(result.is_err());
    let err = result.unwrap_err();
    assert!(err.contains("Label 1"), "Error should identify label index");
}

#[test]
fn notes_with_escape_rejected() {
    let result = NoteContent::new("See \x1b[4munderlined\x1b[0m note");
    assert!(matches!(
        result,
        Err(NoteError::InvalidControlCharacter { .. })
    ));
}

#[test]
fn lifecycle_reason_is_validated_before_prefixing() {
    assert_eq!(
        NoteContent::closing_reason("   "),
        Err(NoteError::EmptyContent)
    );
    assert_eq!(
        NoteContent::reopening_reason("bad\x1breason"),
        Err(NoteError::InvalidControlCharacter { position: 3 })
    );
}

#[test]
fn all_clean_fields_accepted() {
    assert!(validate_text_fields(
        "A normal description\nwith newlines",
        Some("alice"),
        &["bug".to_string(), "urgent".to_string()],
        Some("Use approach A"),
        Some("- [ ] Done"),
    )
    .is_ok());
}

// ===== Status transitions =====

#[test]
fn transition_matrix() {
    let cases = [
        (IssueStatus::Open, IssueStatus::Closed, true),
        (IssueStatus::InProgress, IssueStatus::Closed, true),
        (IssueStatus::Blocked, IssueStatus::Closed, true),
        (IssueStatus::Closed, IssueStatus::Closed, false),
        (IssueStatus::Closed, IssueStatus::Open, true),
        (IssueStatus::Closed, IssueStatus::InProgress, true),
        (IssueStatus::Closed, IssueStatus::Blocked, true),
        (IssueStatus::Open, IssueStatus::Open, false),
        (IssueStatus::InProgress, IssueStatus::Open, false),
        (IssueStatus::Blocked, IssueStatus::Open, false),
        (IssueStatus::Open, IssueStatus::InProgress, true),
        (IssueStatus::Open, IssueStatus::Blocked, true),
        (IssueStatus::InProgress, IssueStatus::Blocked, true),
        (IssueStatus::Blocked, IssueStatus::InProgress, true),
    ];
    for (current, target, should_succeed) in cases {
        let result = current.validate_transition(target);
        assert_eq!(
            result.is_ok(),
            should_succeed,
            "Transition {current:?} -> {target:?} expected success={should_succeed}, got {result:?}"
        );
    }
}

#[test]
fn closing_a_closed_issue_yields_already_closed() {
    let error = IssueStatus::Closed
        .validate_transition(IssueStatus::Closed)
        .expect_err("Closed -> Closed must be rejected");
    assert_eq!(
        error,
        StatusTransitionError::AlreadyClosed {
            current: IssueStatus::Closed
        }
    );
    assert_eq!(
        error.to_string(),
        "Issue is already closed (status: closed)"
    );
}

#[test]
fn reopening_a_non_closed_issue_yields_not_closed() {
    for current in [
        IssueStatus::Open,
        IssueStatus::InProgress,
        IssueStatus::Blocked,
    ] {
        let error = current
            .validate_transition(IssueStatus::Open)
            .expect_err("non-Closed -> Open must be rejected");
        assert_eq!(error, StatusTransitionError::NotClosed { current });
        assert_eq!(
            error.to_string(),
            format!("Issue is not closed (status: {})", current.to_string())
        );
    }
}
