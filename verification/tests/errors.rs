use rivets::domain::{IssueId, IssueStatus, StatusTransitionError};
use rivets::error::{ConfigError, PartialLoadError, RivetsError, SkippedIssueRecordCause, StorageError};
use rivets::resource::ResourceError;

fn yaml_error() -> serde_yaml::Error {
    serde_yaml::from_str::<String>("invalid: [yaml").unwrap_err()
}

fn json_error() -> serde_json::Error {
    serde_json::from_str::<String>("not json").unwrap_err()
}

// ===== Configuration errors =====

#[test]
fn config_parse_display_includes_path_and_source() {
    let error = ConfigError::Parse {
        path: "config.yaml".to_string(),
        source: yaml_error(),
    };
    let msg = error.to_string();
    assert!(msg.starts_with("Failed to parse config file 'config.yaml': "));
    assert_eq!(
        msg,
        format!("Failed to parse config file 'config.yaml': {}", yaml_error())
    );
}

#[test]
fn config_yaml_serialization_display() {
    let error = ConfigError::YamlSerialization(yaml_error());
    assert_eq!(error.to_string(), "YAML serialization error");
}

#[test]
fn config_parse_error_has_source() {
    let error = ConfigError::Parse {
        path: "config.yaml".to_string(),
        source: yaml_error(),
    };
    assert!(error.source().is_some(), "ConfigError::Parse should expose a source");
}

#[test]
fn config_yaml_serialization_error_has_source() {
    let error = ConfigError::YamlSerialization(yaml_error());
    assert!(
        error.source().is_some(),
        "ConfigError::YamlSerialization should expose a source"
    );
}

#[test]
fn invalid_prefix_has_no_source() {
    let error = ConfigError::InvalidPrefix("too short".to_string());
    assert!(
        error.source().is_none(),
        "ConfigError::InvalidPrefix should not have a source"
    );
}

// ===== Storage errors =====

#[test]
fn storage_error_display_cases() {
    assert_eq!(
        StorageError::Validation("title is required".to_string()).to_string(),
        "Validation failed: title is required"
    );
    assert_eq!(
        StorageError::DuplicateDependency {
            from: IssueId::new("proj-abc"),
            to: IssueId::new("proj-def"),
        }
        .to_string(),
        "Dependency already exists: proj-abc -> proj-def"
    );
    assert_eq!(
        StorageError::IdGeneration("exhausted retries".to_string()).to_string(),
        "ID generation failed: exhausted retries"
    );
    assert_eq!(
        StorageError::InvalidFormat("unexpected field".to_string()).to_string(),
        "Invalid format: unexpected field"
    );
    assert_eq!(
        StorageError::ExternalChange {
            path: "/workspace/.rivets/issues.jsonl".to_string(),
        }
        .to_string(),
        "Persistent storage changed externally: /workspace/.rivets/issues.jsonl"
    );
    assert_eq!(
        StorageError::Resource(ResourceError::EmptyLabel).to_string(),
        "Resource label cannot be empty"
    );
    assert_eq!(
        StorageError::InvalidStatusTransition(StatusTransitionError::AlreadyClosed {
            current: IssueStatus::Closed
        })
        .to_string(),
        "Issue is already closed (status: closed)"
    );
}

#[test]
fn storage_serialization_display() {
    let error = StorageError::Serialization(json_error());
    assert_eq!(error.to_string(), "JSON serialization failed");
}

#[test]
fn storage_serialization_error_has_source() {
    let error = StorageError::Serialization(json_error());
    assert!(
        error.has_source(),
        "StorageError::Serialization should expose a source"
    );
    assert!(!StorageError::Validation("x".to_string()).has_source());
}

#[test]
fn try_into_resource_error_extracts_resource_variant() {
    let error = StorageError::Resource(ResourceError::EmptyLabel);
    assert!(matches!(
        error.try_into_resource_error(),
        Ok(ResourceError::EmptyLabel)
    ));
}

#[test]
fn try_into_resource_error_returns_other_variants_unchanged() {
    let error = StorageError::Validation("title is required".to_string());
    assert!(matches!(
        error.try_into_resource_error(),
        Err(StorageError::Validation(reason)) if reason == "title is required"
    ));
}

#[test]
fn try_into_status_transition_error_extracts_transition_variant() {
    let error = StorageError::InvalidStatusTransition(StatusTransitionError::AlreadyClosed {
        current: IssueStatus::Closed,
    });
    assert!(matches!(
        error.try_into_status_transition_error(),
        Ok(StatusTransitionError::AlreadyClosed {
            current: IssueStatus::Closed
        })
    ));
}

#[test]
fn try_into_status_transition_error_returns_other_variants_unchanged() {
    let error = StorageError::Validation("title is required".to_string());
    assert!(matches!(
        error.try_into_status_transition_error(),
        Err(StorageError::Validation(reason)) if reason == "title is required"
    ));
}

// ===== Skipped records =====

#[test]
fn skipped_issue_record_cause_display_cases() {
    assert_eq!(
        SkippedIssueRecordCause::MalformedJson {
            line_number: 3,
            error: "unexpected end of input".to_string(),
        }
        .to_string(),
        "line 3: malformed JSON (unexpected end of input)"
    );
    assert_eq!(
        SkippedIssueRecordCause::InvalidIssueData {
            line_number: 7,
            issue_id: IssueId::new("proj-abc"),
            error: "Priority exceeds maximum".to_string(),
        }
        .to_string(),
        "line 7: issue proj-abc is invalid (Priority exceeds maximum)"
    );
    assert_eq!(
        SkippedIssueRecordCause::InvalidResourceData {
            line_number: 9,
            issue_id: IssueId::new("proj-def"),
            source: ResourceError::EmptyResourceId,
        }
        .to_string(),
        "line 9: issue proj-def has an invalid Associated Resource (Resource identifier cannot be empty)"
    );
}

#[test]
fn partial_load_error_display_orders_causes_by_line() {
    let error = PartialLoadError::new(vec![
        SkippedIssueRecordCause::InvalidIssueData {
            line_number: 5,
            issue_id: IssueId::new("proj-abc"),
            error: "bad data".to_string(),
        },
        SkippedIssueRecordCause::MalformedJson {
            line_number: 2,
            error: "truncated".to_string(),
        },
    ])
    .expect("two causes should produce an error");
    assert_eq!(
        error.to_string(),
        "Refusing to modify storage after an incomplete JSONL load: \
         2 issue record(s) were skipped: \
         line 2: malformed JSON (truncated); \
         line 5: issue proj-abc is invalid (bad data)"
    );
}

#[test]
fn partial_load_error_requires_at_least_one_cause() {
    assert!(
        PartialLoadError::new(Vec::new()).is_none(),
        "an empty cause list must not build a PartialLoadError"
    );
}

#[test]
fn partial_load_error_source_chain_reaches_typed_resource_error() {
    let error = PartialLoadError::new(vec![SkippedIssueRecordCause::InvalidResourceData {
        line_number: 1,
        issue_id: IssueId::new("proj-abc"),
        source: ResourceError::EmptyResourceId,
    }])
    .expect("one cause should produce an error");
    let skipped = error
        .source()
        .expect("PartialLoadError should expose its first cause as source");
    let resource_error = skipped
        .source()
        .expect("InvalidResourceData should expose its typed source");
    assert!(matches!(resource_error, ResourceError::EmptyResourceId));
}

#[test]
fn partial_load_sort_is_stable_for_equal_lines() {
    let error = PartialLoadError::new(vec![
        SkippedIssueRecordCause::MalformedJson {
            line_number: 4,
            error: "first".to_string(),
        },
        SkippedIssueRecordCause::MalformedJson {
            line_number: 1,
            error: "early".to_string(),
        },
        SkippedIssueRecordCause::MalformedJson {
            line_number: 4,
            error: "second".to_string(),
        },
    ])
    .expect("three causes");
    let lines: Vec<usize> = error.causes().iter().map(|c| c.line_number()).collect();
    assert_eq!(lines, vec![1, 4, 4]);
    assert_eq!(error.skipped_records(), 3);
    assert_eq!(
        error.causes()[1],
        SkippedIssueRecordCause::MalformedJson {
            line_number: 4,
            error: "first".to_string(),
        }
    );
    assert!(matches!(
        StorageError::from(error),
        StorageError::UnsafePartialLoad(_)
    ));
}

// ===== Operation errors =====

#[test]
fn validation_error_display() {
    let error = RivetsError::Validation {
        field: "priority",
        reason: "must be between 0 and 4".to_string(),
    };
    assert_eq!(error.to_string(), "must be between 0 and 4");
}

#[test]
fn config_error_converts_to_error() {
    let error: RivetsError = ConfigError::InvalidPrefix("bad prefix".to_string()).into();
    assert!(
        matches!(error, RivetsError::Config(ConfigError::InvalidPrefix(_))),
        "ConfigError should convert to Error::Config"
    );
}

#[test]
fn storage_error_converts_to_error() {
    let error: RivetsError = StorageError::Validation("missing field".to_string()).into();
    assert!(
        matches!(error, RivetsError::Storage(StorageError::Validation(_))),
        "StorageError should convert to Error::Storage"
    );
}

#[test]
fn io_error_converts_to_error() {
    let io_err = std::io::Error::new(std::io::ErrorKind::NotFound, "file missing");
    let error: RivetsError = io_err.into();
    assert!(matches!(error, RivetsError::Io(_)), "io::Error should convert to Error::Io");
    assert_eq!(error.to_string(), "IO error: file missing");
}

#[test]
fn validation_error_exposes_field_for_matching() {
    let error = RivetsError::Validation {
        field: "prefix",
        reason: "too short".to_string(),
    };
    match &error {
        RivetsError::Validation { field, .. } => assert_eq!(*field, "prefix"),
        other => panic!("Expected Error::Validation, got: {other:?}"),
    }
}

#[test]
fn operation_error_messages() {
    assert_eq!(
        RivetsError::IssueNotFound(IssueId::new("proj-1")).to_string(),
        "Issue not found: proj-1"
    );
    assert_eq!(
        RivetsError::HasDependents {
            issue_id: IssueId::new("proj-1"),
            dependent_count: 2,
            dependents: vec![IssueId::new("proj-2"), IssueId::new("proj-3")],
        }
        .to_string(),
        "Cannot delete proj-1: 2 other issue(s) depend on it. Dependents: [IssueId(\"proj-2\"), IssueId(\"proj-3\")]"
    );
    assert_eq!(
        RivetsError::CircularDependency {
            from: IssueId::new("a-1"),
            to: IssueId::new("a-2"),
        }
        .to_string(),
        "Circular dependency detected: adding dependency from a-1 to a-2 would create a cycle"
    );
    assert_eq!(
        RivetsError::InvalidIssueId("bad".to_string()).to_string(),
        "Invalid issue ID format: bad"
    );
    assert_eq!(
        RivetsError::InvalidPriority(9).to_string(),
        "Invalid priority value: 9 (must be 0-4)"
    );
    assert_eq!(
        RivetsError::DependencyNotFound {
            from: IssueId::new("a-1"),
            to: IssueId::new("a-2"),
        }
        .to_string(),
        "Dependency not found: a-1 -> a-2"
    );
    assert_eq!(
        RivetsError::IssueAlreadyExists(IssueId::new("a-1")).to_string(),
        "Issue already exists: a-1"
    );
    assert_eq!(
        RivetsError::Json(json_error()).to_string(),
        format!("JSON error: {}", json_error())
    );
    assert_eq!(
        RivetsError::Config(ConfigError::NotInitialized).to_string(),
        ConfigError::NotInitialized.to_string()
    );
}
