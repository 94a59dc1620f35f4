use rivets::domain::{IssueId, IssueKind, IssueStatus, Timestamp};
use rivets::issue::{Issue, ResourceIndex};
use rivets::resource::{
    AssociatedResource, NewResource, ResourceError, ResourceId, ResourceLabel, ResourceRole,
    ResourceTarget, ResourceUpdate, WebUrl, WorkspacePath,
};

fn now() -> Timestamp {
    Timestamp {
        secs: 1_700_000_000,
        nanos: 0,
    }
}

fn issue_with_next_id(next_resource_id: u64) -> Issue {
    let mut issue = Issue::new(
        IssueId::new("test-1"),
        "Test".to_string(),
        String::new(),
        IssueStatus::Open,
        2,
        IssueKind::Task,
        now(),
    );
    issue.resources = ResourceIndex::rehydrate(vec![], next_resource_id).expect("empty index");
    issue
}

fn web_resource(url: &str, role: ResourceRole) -> NewResource {
    NewResource {
        target: ResourceTarget::web(WebUrl::new(url).expect("valid URL")),
        role,
        label: None,
    }
}

fn path_resource(path: &str, role: ResourceRole) -> NewResource {
    NewResource {
        target: ResourceTarget::path(WorkspacePath::new(path).expect("valid workspace path")),
        role,
        label: None,
    }
}

fn persisted_resource(id: &str, url: &str, role: ResourceRole) -> AssociatedResource {
    AssociatedResource::from_parts(
        ResourceId::new(id).expect("valid resource ID"),
        ResourceTarget::web(WebUrl::new(url).expect("valid URL")),
        role,
        None,
    )
}

fn ids(issue: &Issue) -> Vec<String> {
    issue
        .resources()
        .iter()
        .map(|r| r.id().as_str().to_string())
        .collect()
}

fn three_resource_issue() -> Issue {
    let mut issue = issue_with_next_id(1);
    issue
        .add_resource(path_resource("src/lib.rs", ResourceRole::Implementation))
        .expect("add succeeds");
    issue
        .add_resource(web_resource("https://b.example.com", ResourceRole::Evidence))
        .expect("add succeeds");
    issue
        .add_resource(path_resource("docs/adr/0003.md", ResourceRole::Reference))
        .expect("add succeeds");
    issue
}

// ===== Issue resources =====

#[test]
fn add_resource_assigns_sequential_ids_in_insertion_order() {
    let mut issue = issue_with_next_id(1);
    let first = issue
        .add_resource(web_resource("https://a.example.com", ResourceRole::Reference))
        .expect("add succeeds");
    let second = issue
        .add_resource(web_resource("https://b.example.com", ResourceRole::Evidence))
        .expect("add succeeds");

    assert_eq!(first.as_str(), "r1");
    assert_eq!(second.as_str(), "r2");
    assert_eq!(ids(&issue), ["r1", "r2"]);
}

#[test]
fn add_resource_rejects_exact_target_role_duplicate() {
    let mut issue = issue_with_next_id(1);
    issue
        .add_resource(web_resource("https://a.example.com", ResourceRole::Reference))
        .expect("add succeeds");

    let duplicate = issue.add_resource(web_resource(
        "https://a.example.com/",
        ResourceRole::Reference,
    ));
    assert!(matches!(
        duplicate,
        Err(ResourceError::DuplicateTargetRole { .. })
    ));
    assert_eq!(issue.resources().len(), 1);
}

#[test]
fn add_resource_allows_same_target_with_distinct_roles() {
    let mut issue = issue_with_next_id(1);
    issue
        .add_resource(web_resource("https://a.example.com", ResourceRole::Reference))
        .expect("add succeeds");
    issue
        .add_resource(web_resource(
            "https://a.example.com",
            ResourceRole::Documentation,
        ))
        .expect("distinct role is allowed");
    assert_eq!(issue.resources().len(), 2);
}

#[test]
fn duplicate_detection_normalizes_equivalent_paths() {
    let mut issue = issue_with_next_id(1);
    issue
        .add_resource(path_resource("src/lib.rs", ResourceRole::Reference))
        .expect("add succeeds");
    let duplicate =
        issue.add_resource(path_resource("docs/../src/lib.rs", ResourceRole::Reference));
    assert!(matches!(
        duplicate,
        Err(ResourceError::DuplicateTargetRole { .. })
    ));
    assert_eq!(
        issue.resources().len(),
        1,
        "equivalent normalized path must be a duplicate"
    );
}

#[test]
fn duplicate_detection_distinguishes_path_from_web() {
    let mut issue = issue_with_next_id(1);
    issue
        .add_resource(path_resource("docs/adr/0003.md", ResourceRole::Reference))
        .expect("add succeeds");
    issue
        .add_resource(web_resource(
            "https://example.com/docs/adr/0003.md",
            ResourceRole::Reference,
        ))
        .expect("web and path targets are distinct");
    assert_eq!(issue.resources().len(), 2);
}

#[test]
fn duplicate_detection_applies_to_paths_with_distinct_roles() {
    let mut issue = issue_with_next_id(1);
    issue
        .add_resource(path_resource("src/lib.rs", ResourceRole::Reference))
        .expect("add succeeds");
    issue
        .add_resource(path_resource("src/lib.rs", ResourceRole::Documentation))
        .expect("same target with distinct role is allowed");
    assert_eq!(issue.resources().len(), 2);
}

#[test]
fn add_resource_never_reuses_ids_from_loaded_sequence() {
    let mut issue = issue_with_next_id(5);
    let id = issue
        .add_resource(web_resource("https://a.example.com", ResourceRole::Reference))
        .expect("add succeeds");
    assert_eq!(id.as_str(), "r5");
}

#[test]
fn rehydrate_resources_rejects_duplicate_ids() {
    let mut issue = issue_with_next_id(1);
    let result = issue.rehydrate_resources(
        vec![
            persisted_resource("r1", "https://a.example.com", ResourceRole::Reference),
            persisted_resource("r1", "https://b.example.com", ResourceRole::Evidence),
        ],
        2,
    );
    assert!(matches!(
        result,
        Err(ResourceError::DuplicateResourceId { .. })
    ));
    assert!(issue.resources().is_empty());
}

#[test]
fn rehydrate_resources_rejects_duplicate_target_and_role() {
    let mut issue = issue_with_next_id(1);
    let result = issue.rehydrate_resources(
        vec![
            persisted_resource("r1", "https://a.example.com", ResourceRole::Reference),
            persisted_resource("r2", "https://a.example.com/", ResourceRole::Reference),
        ],
        3,
    );
    assert!(matches!(
        result,
        Err(ResourceError::DuplicateTargetRole { .. })
    ));
    assert!(issue.resources().is_empty());
}

#[test]
fn rehydrate_resources_normalizes_stale_identifier_sequence() {
    let mut issue = issue_with_next_id(1);
    issue
        .rehydrate_resources(
            vec![persisted_resource(
                "r5",
                "https://a.example.com",
                ResourceRole::Reference,
            )],
            2,
        )
        .expect("rehydration should succeed");
    let id = issue
        .add_resource(web_resource("https://b.example.com", ResourceRole::Evidence))
        .expect("add should use normalized sequence");
    assert_eq!(id.as_str(), "r6");
}

#[test]
fn add_resource_rejects_exhausted_id_sequence() {
    let mut issue = issue_with_next_id(u64::MAX);
    let result = issue.add_resource(web_resource(
        "https://a.example.com",
        ResourceRole::Reference,
    ));
    assert_eq!(result, Err(ResourceError::IdSequenceExhausted));
    assert!(issue.resources().is_empty());
}

#[test]
fn update_resource_changes_only_provided_fields_and_preserves_position() {
    let mut issue = three_resource_issue();
    let r2 = issue.resources()[1].id().clone();
    issue
        .update_resource(
            &r2,
            ResourceUpdate {
                target: Some(ResourceTarget::path(
                    WorkspacePath::new("src/../src/main.rs").expect("normalizes"),
                )),
                role: None,
                label: Some(Some(ResourceLabel::new("main entry").expect("label"))),
            },
        )
        .expect("update succeeds");
    let resources = issue.resources();
    assert_eq!(resources.len(), 3);
    assert_eq!(resources[1].id(), &r2, "id must not change");
    assert_eq!(resources[0].id().as_str(), "r1", "position must not shift");
    assert_eq!(resources[2].id().as_str(), "r3", "position must not shift");
    assert_eq!(resources[1].target().to_string(), "src/main.rs");
    assert_eq!(resources[1].role(), ResourceRole::Evidence, "role unchanged");
    assert_eq!(resources[1].label().map(|l| l.as_str()), Some("main entry"));
}

#[test]
fn update_resource_changes_role_and_clears_label() {
    let mut issue = three_resource_issue();
    issue
        .add_resource(web_resource(
            "https://c.example.com",
            ResourceRole::Documentation,
        ))
        .expect("add succeeds");
    let r4 = issue.resources()[3].id().clone();
    issue
        .update_resource(
            &r4,
            ResourceUpdate {
                target: None,
                role: Some(ResourceRole::Successor),
                label: Some(Some(ResourceLabel::new("temp").expect("label"))),
            },
        )
        .expect("set label");
    issue
        .update_resource(
            &r4,
            ResourceUpdate {
                target: None,
                role: None,
                label: Some(None),
            },
        )
        .expect("clear label");
    let resources = issue.resources();
    assert_eq!(resources[3].role(), ResourceRole::Successor);
    assert!(resources[3].label().is_none(), "label must be cleared");
}

#[test]
fn update_resource_last_position_is_stable() {
    let mut issue = three_resource_issue();
    let r3 = issue.resources()[2].id().clone();
    issue
        .update_resource(
            &r3,
            ResourceUpdate {
                role: Some(ResourceRole::Successor),
                ..ResourceUpdate::default()
            },
        )
        .expect("update succeeds");
    assert_eq!(
        ids(&issue),
        ["r1", "r2", "r3"],
        "updating the last resource must not reorder"
    );
    assert_eq!(issue.resources()[2].role(), ResourceRole::Successor);
}

#[test]
fn update_resource_allows_web_to_path_and_back() {
    let mut issue = issue_with_next_id(1);
    issue
        .add_resource(web_resource("https://a.example.com", ResourceRole::Reference))
        .expect("add succeeds");
    let r1 = issue.resources()[0].id().clone();
    issue
        .update_resource(
            &r1,
            ResourceUpdate {
                target: Some(ResourceTarget::path(
                    WorkspacePath::new("docs/guide.md").expect("path"),
                )),
                role: None,
                label: None,
            },
        )
        .expect("web to path");
    assert_eq!(issue.resources()[0].target().to_string(), "docs/guide.md");
    issue
        .update_resource(
            &r1,
            ResourceUpdate {
                target: Some(ResourceTarget::web(
                    WebUrl::new("https://a.example.com").expect("url"),
                )),
                role: None,
                label: None,
            },
        )
        .expect("path to web");
    assert_eq!(
        issue.resources()[0].target().to_string(),
        "https://a.example.com/"
    );
}

#[test]
fn update_resource_rejects_empty_update() {
    let mut issue = three_resource_issue();
    let r1 = issue.resources()[0].id().clone();
    assert_eq!(
        issue.update_resource(&r1, ResourceUpdate::default()),
        Err(ResourceError::EmptyUpdate)
    );
}

#[test]
fn update_resource_rejects_unknown_id() {
    let mut issue = three_resource_issue();
    let unknown = ResourceId::new("r99").expect("valid id");
    assert_eq!(
        issue.update_resource(
            &unknown,
            ResourceUpdate {
                target: None,
                role: Some(ResourceRole::Successor),
                label: None,
            },
        ),
        Err(ResourceError::ResourceNotFound { id: unknown })
    );
}

#[test]
fn update_resource_checks_duplicates_against_post_update_state() {
    let mut issue = three_resource_issue();
    let r2 = issue.resources()[1].id().clone();
    let duplicate = issue.update_resource(
        &r2,
        ResourceUpdate {
            target: Some(ResourceTarget::path(
                WorkspacePath::new("src/../src/lib.rs").expect("normalizes"),
            )),
            role: Some(ResourceRole::Implementation),
            label: None,
        },
    );
    assert!(matches!(
        duplicate,
        Err(ResourceError::DuplicateTargetRole { .. })
    ));
    assert_eq!(
        issue.resources()[1].target().to_string(),
        "https://b.example.com/"
    );

    issue
        .update_resource(
            &r2,
            ResourceUpdate {
                target: Some(ResourceTarget::path(
                    WorkspacePath::new("src/lib.rs").expect("path"),
                )),
                role: Some(ResourceRole::Documentation),
                label: None,
            },
        )
        .expect("distinct role update succeeds");
    assert_eq!(issue.resources()[1].role(), ResourceRole::Documentation);
}

#[test]
fn update_resource_does_not_consume_identifier_sequence() {
    let mut issue = issue_with_next_id(1);
    issue
        .add_resource(web_resource("https://a.example.com", ResourceRole::Reference))
        .expect("add succeeds");
    let r1 = issue.resources()[0].id().clone();
    issue
        .update_resource(
            &r1,
            ResourceUpdate {
                target: None,
                role: Some(ResourceRole::Successor),
                label: None,
            },
        )
        .expect("update succeeds");
    let next = issue
        .add_resource(web_resource("https://b.example.com", ResourceRole::Evidence))
        .expect("add succeeds");
    assert_eq!(next.as_str(), "r2", "update must not advance the id sequence");
}

#[test]
fn remove_resource_keeps_remaining_ids_and_positions() {
    let mut issue = three_resource_issue();
    let r2 = issue.resources()[1].id().clone();
    issue.remove_resource(&r2).expect("remove succeeds");
    let resources = issue.resources();
    assert_eq!(resources.len(), 2);
    assert_eq!(resources[0].id().as_str(), "r1");
    assert_eq!(resources[0].role(), ResourceRole::Implementation);
    assert_eq!(resources[1].id().as_str(), "r3");
    assert_eq!(resources[1].role(), ResourceRole::Reference);
}

#[test]
fn remove_resource_first_middle_last_and_only() {
    for position in 0..3 {
        let mut issue = three_resource_issue();
        let target = issue.resources()[position].id().clone();
        issue.remove_resource(&target).expect("remove succeeds");
        let expected: Vec<&str> = ["r1", "r2", "r3"]
            .into_iter()
            .enumerate()
            .filter(|(index, _)| *index != position)
            .map(|(_, id)| id)
            .collect();
        assert_eq!(ids(&issue), expected, "removing position {position}");
    }
    let mut issue = three_resource_issue();
    for resource in issue.resources().to_vec() {
        issue.remove_resource(resource.id()).expect("remove succeeds");
    }
    assert!(issue.resources().is_empty());
}

#[test]
fn remove_resource_rejects_unknown_id() {
    let mut issue = three_resource_issue();
    let unknown = ResourceId::new("r99").expect("valid id");
    assert_eq!(
        issue.remove_resource(&unknown),
        Err(ResourceError::ResourceNotFound { id: unknown })
    );
    assert_eq!(issue.resources().len(), 3, "failed removal must not mutate");
}

#[test]
fn remove_resource_from_empty_issue_is_not_found() {
    let mut issue = issue_with_next_id(1);
    let id = ResourceId::new("r1").expect("valid id");
    assert!(matches!(
        issue.remove_resource(&id),
        Err(ResourceError::ResourceNotFound { .. })
    ));
}

#[test]
fn remove_resource_never_reuses_identifiers() {
    let mut issue = three_resource_issue();
    let r2 = issue.resources()[1].id().clone();
    issue.remove_resource(&r2).expect("remove succeeds");
    let next = issue
        .add_resource(web_resource("https://new.example.com", ResourceRole::Evidence))
        .expect("add succeeds");
    assert_eq!(
        next.as_str(),
        "r4",
        "next id must continue the sequence, never reuse r2"
    );
    assert_eq!(ids(&issue), ["r1", "r3", "r4"]);
}

// ===== WorkspacePath =====

#[test]
fn workspace_path_accepts_and_normalizes() {
    let cases = [
        ("docs/adr/0003.md", "docs/adr/0003.md"),
        ("src", "src"),
        ("a/./b", "a/b"),
        ("a//b", "a/b"),
        ("./x", "x"),
        ("x/.", "x"),
        ("src/", "src"),
        ("docs/../src/lib.rs", "src/lib.rs"),
        ("a/b/../../c", "c"),
        ("x/./../y", "y"),
        ("é/文件.md", "é/文件.md"),
        ("with space/y", "with space/y"),
        (".hidden", ".hidden"),
        ("un\tdir/x", "un\tdir/x"),
    ];
    for (input, expected) in cases {
        let path = WorkspacePath::new(input).expect("valid workspace path");
        assert_eq!(path.as_str(), expected);
        assert_eq!(path.to_string(), expected);
    }
}

#[test]
fn workspace_path_rejects() {
    for input in [
        "",
        "   ",
        "\t",
        "/etc/passwd",
        "//x",
        "../escape.md",
        "a/../../b",
        "a/b/../../../c",
        "a/..",
        ".",
        "./",
        "\u{1b}x",
        r"..\..\secrets.txt",
        r"docs\readme.md",
        r"\etc\passwd",
        r"\\server\share",
        r"C:\Windows",
        "C:/Windows/system32",
        "C:relative.txt",
    ] {
        assert!(
            WorkspacePath::new(input).is_err(),
            "{input:?} should be rejected"
        );
    }
}

#[test]
fn workspace_path_backslash_reports_char_position() {
    assert_eq!(
        WorkspacePath::new(r"docs\readme.md"),
        Err(ResourceError::WorkspacePathBackslash { position: 4 })
    );
    assert_eq!(
        WorkspacePath::new("é\\x"),
        Err(ResourceError::WorkspacePathBackslash { position: 1 })
    );
}

#[test]
fn workspace_path_drive_prefix_is_absolute() {
    for input in [
        "C:/Windows/system32",
        "C:relative.txt",
        "c:x",
        "a:notes.txt",
    ] {
        assert!(
            matches!(
                WorkspacePath::new(input),
                Err(ResourceError::AbsoluteWorkspacePath { .. })
            ),
            "{input:?} must be rejected as absolute"
        );
    }
}

#[test]
fn workspace_path_drive_rule_is_prefix_only() {
    for input in ["ab:notes.txt", "dir:/file.rs", "src/C:/nested"] {
        assert!(
            WorkspacePath::new(input).is_ok(),
            "{input:?} must be accepted; colon rule is drive-prefix only"
        );
    }
}

#[test]
fn workspace_path_accepts_nonexistent_targets() {
    let path = WorkspacePath::new("target/generated/does-not-exist/report.html")
        .expect("nonexistent target should be accepted");
    assert_eq!(path.as_str(), "target/generated/does-not-exist/report.html");
}

#[test]
fn workspace_path_errors_are_typed_per_cause() {
    assert!(matches!(
        WorkspacePath::new("/x"),
        Err(ResourceError::AbsoluteWorkspacePath { .. })
    ));
    assert!(matches!(
        WorkspacePath::new("../x"),
        Err(ResourceError::WorkspacePathEscape { .. })
    ));
    assert!(matches!(
        WorkspacePath::new("a/.."),
        Err(ResourceError::EmptyNormalizedWorkspacePath { .. })
    ));
    assert!(matches!(
        WorkspacePath::new(""),
        Err(ResourceError::EmptyPath)
    ));
    assert!(matches!(
        WorkspacePath::new("x\u{1b}y"),
        Err(ResourceError::PathControlCharacter { .. })
    ));
}

#[test]
fn workspace_path_normalization_is_idempotent_on_examples() {
    for input in ["docs/../src/lib.rs", "a//b/./c", "x/./../y/"] {
        let once = WorkspacePath::new(input).expect("valid");
        let twice = WorkspacePath::new(once.as_str()).expect("still valid");
        assert_eq!(once, twice);
    }
}

// ===== WebUrl =====

#[test]
fn web_url_accepts_absolute_http_urls() {
    for input in [
        " https://example.com/docs",
        "\u{1f}https://example.com/docs",
        "http://example.com/docs",
        "https://example.com/docs",
        "https://example.com:8443/a?b=c#frag",
        "HTTPS://example.com/x",
    ] {
        assert!(WebUrl::new(input).is_ok(), "{input:?} should be accepted");
    }
}

#[test]
fn web_url_rejects_non_absolute_or_non_http_values() {
    for input in [
        "example.com/docs",
        "docs/adr/0003.md",
        "//example.com/docs",
        "ftp://example.com/file",
        "file:///etc/passwd",
        "https:relative",
        "mailto:a@example.com",
        "http://",
        "https://exa mple.com",
        "",
    ] {
        assert!(WebUrl::new(input).is_err(), "{input:?} should be rejected");
    }
}

#[test]
fn malformed_web_url_preserves_opaque_causal_error() {
    let error = WebUrl::new("example.com/docs").expect_err("relative URL should fail");
    match error {
        ResourceError::MalformedWebUrl { source, .. } => {
            assert_eq!(*source.source(), url::ParseError::RelativeUrlWithoutBase);
        }
        error => panic!("expected malformed URL error, got {error:?}"),
    }
}

#[test]
fn unsupported_web_url_scheme_is_a_domain_error() {
    assert!(matches!(
        WebUrl::new("ftp://example.com/file"),
        Err(ResourceError::UnsupportedWebUrlScheme { .. })
    ));
}

#[test]
fn web_url_normalizes_for_equality() {
    let a = WebUrl::new("HTTPS://EXAMPLE.com").expect("valid URL");
    let b = WebUrl::new("https://example.com/").expect("valid URL");
    assert_eq!(a, b);
}

#[test]
fn web_url_error_messages() {
    let missing = WebUrl::new("https:relative").expect_err("no authority");
    assert_eq!(
        missing.to_string(),
        "Invalid web URL 'https:relative': URL must include an explicit host after '//'"
    );
    let scheme = WebUrl::new("ftp://example.com/file").expect_err("ftp");
    assert_eq!(
        scheme.to_string(),
        "Invalid web URL 'ftp://example.com/file': unsupported scheme 'ftp'"
    );
    let malformed = WebUrl::new("example.com/docs").expect_err("relative");
    assert_eq!(
        malformed.to_string(),
        "Invalid web URL 'example.com/docs': relative URL without a base"
    );
}

// ===== ResourceRole =====

#[test]
fn resource_role_parses_canonical_names() {
    for (input, expected) in [
        ("implementation", ResourceRole::Implementation),
        ("documentation", ResourceRole::Documentation),
        ("evidence", ResourceRole::Evidence),
        ("successor", ResourceRole::Successor),
        ("reference", ResourceRole::Reference),
    ] {
        assert_eq!(input.parse::<ResourceRole>().unwrap(), expected);
        assert_eq!(expected.to_string(), input.to_lowercase());
    }
}

#[test]
fn resource_role_rejects_noncanonical_case() {
    assert!(matches!(
        "Evidence".parse::<ResourceRole>(),
        Err(ResourceError::UnknownRole { .. })
    ));
}

#[test]
fn resource_role_rejects_unknown_names() {
    assert!(matches!(
        "provider".parse::<ResourceRole>(),
        Err(ResourceError::UnknownRole { .. })
    ));
}

#[test]
fn resource_role_cli_value_name_matches_display() {
    for role in [
        ResourceRole::Implementation,
        ResourceRole::Documentation,
        ResourceRole::Evidence,
        ResourceRole::Successor,
        ResourceRole::Reference,
    ] {
        assert_eq!(role.as_str(), role.to_string());
        assert_eq!(role.as_str().parse::<ResourceRole>().unwrap(), role);
    }
}

#[test]
fn resource_role_valid_values_lists_every_canonical_name() {
    assert_eq!(
        ResourceRole::valid_values(),
        "implementation, documentation, evidence, successor, reference"
    );
}

// ===== ResourceLabel, ResourceId, AssociatedResource =====

#[test]
fn label_rejects_empty_and_whitespace() {
    assert_eq!(ResourceLabel::new(""), Err(ResourceError::EmptyLabel));
    assert_eq!(ResourceLabel::new(" \t "), Err(ResourceError::EmptyLabel));
}

#[test]
fn label_rejects_control_characters() {
    assert!(matches!(
        ResourceLabel::new("bad\u{1b}label"),
        Err(ResourceError::LabelControlCharacter { .. })
    ));
}

#[test]
fn label_accepts_non_empty_text() {
    let label = ResourceLabel::new("Implementation PR").expect("valid label");
    assert_eq!(label.as_str(), "Implementation PR");
}

#[test]
fn resource_id_rejects_terminal_unsafe_control_characters() {
    for (id, position) in [("r1\u{1b}", 2usize), ("r1\tspoof", 2usize)] {
        assert!(matches!(
            ResourceId::new(id),
            Err(ResourceError::ResourceIdControlCharacter { position: actual }) if actual == position
        ));
    }
}

#[test]
fn associated_resource_display_includes_optional_label() {
    let resource = AssociatedResource::from_parts(
        ResourceId::new("r1").expect("valid resource ID"),
        ResourceTarget::web(WebUrl::new("https://example.com/pr/1").expect("valid URL")),
        ResourceRole::Implementation,
        Some(ResourceLabel::new("Implementation PR").expect("valid label")),
    );
    assert_eq!(
        resource.to_string(),
        "[r1] https://example.com/pr/1 (implementation) — Implementation PR"
    );
}

#[test]
fn resource_error_messages_name_the_cause() {
    assert_eq!(
        ResourceError::EmptyPath.to_string(),
        "Workspace path cannot be empty"
    );
    assert_eq!(
        ResourceError::WorkspacePathBackslash { position: 4 }.to_string(),
        "Workspace path contains '\\' at position 4; use '/' as the separator"
    );
    assert_eq!(
        ResourceError::IdSequenceExhausted.to_string(),
        "Resource identifier sequence exhausted for this issue"
    );
}

#[test]
fn workspace_path_normal_form_parses_to_itself() {
    for raw in ["./src//lib.rs", "a/b/../c/.", "docs/./adr/../guide.md", "x"] {
        let path = WorkspacePath::new(raw).expect("valid path");
        let again = WorkspacePath::new(path.as_str()).expect("normal form is valid");
        assert_eq!(again.as_str(), path.as_str());
    }
}

#[test]
fn workspace_path_normal_form_is_rechecked() {
    for raw in ["./C:/x", "./C:x", "a/../D:y"] {
        assert!(matches!(
            WorkspacePath::new(raw),
            Err(ResourceError::AbsoluteWorkspacePath { .. })
        ));
    }
    for raw in ["./ ", "a/../ /."] {
        assert!(matches!(
            WorkspacePath::new(raw),
            Err(ResourceError::EmptyNormalizedWorkspacePath { .. })
        ));
    }
}

#[test]
fn removing_the_resource_just_added_restores_the_list() {
    let mut issue = three_resource_issue();
    let before = ids(&issue);
    let added = issue
        .add_resource(web_resource("https://new.example.com", ResourceRole::Evidence))
        .expect("add succeeds");
    assert_eq!(added.as_str(), "r4");
    issue.remove_resource(&added).expect("remove succeeds");
    assert_eq!(ids(&issue), before);
    let next = issue
        .add_resource(web_resource("https://new.example.com", ResourceRole::Evidence))
        .expect("add succeeds");
    assert_eq!(next.as_str(), "r5", "the identifier sequence is not rewound");
}

#[test]
fn workspace_paths_are_stored_normalized() {
    let path = WorkspacePath::new("docs/../docs/x").expect("valid path");
    assert_eq!(path.as_str(), "docs/x");
}
