use rivets::domain::{Dependency, DependencyType, IssueId, IssueKind, IssueStatus, Timestamp};
use rivets::issue::Issue;
use rivets::output::{
    colored_status_icon, colored_type_icon, colorize_id, colorize_priority, colorize_status, error,
    info, success, type_icon, warning, OutputConfig,
};
use rivets::render::{
    print_issue_details_text, print_issue_text, print_issues_text, print_optional_section,
    print_text_section, wrap_text,
};
use rivets::tree::{print_dep_tree_dependents, print_dep_tree_text, DepTreeNode};

fn now() -> Timestamp {
    Timestamp {
        secs: 1_700_000_000,
        nanos: 0,
    }
}

fn enable_colors() {
    colored::control::set_override(true);
}

fn test_issue() -> Issue {
    let mut issue = Issue::new(
        IssueId::new("test-abc"),
        "Test Issue".to_string(),
        "A test description".to_string(),
        IssueStatus::Open,
        1,
        IssueKind::Task,
        now(),
    );
    issue.assignee = Some("alice".to_string());
    issue.labels = vec!["urgent".to_string()];
    issue
}

// ===== Text wrapping =====

#[test]
fn output_test_wrap_text() {
    let text = "This is a test of text wrapping functionality";
    let wrapped = wrap_text(text, 20);
    assert!(!wrapped.is_empty());
    for line in &wrapped {
        assert!(line.len() <= 20, "Line too long: '{}' ({} chars)", line, line.len());
    }
}

#[test]
fn output_test_wrap_text_preserves_newlines() {
    let wrapped = wrap_text("Line one\nLine two\nLine three", 50);
    assert_eq!(wrapped.len(), 3);
}

#[test]
fn output_test_wrap_text_handles_long_words() {
    let text = "Check out https://example.com/very/long/path/to/resource for details";
    let wrapped = wrap_text(text, 30);
    assert!(!wrapped.is_empty());
    for line in &wrapped {
        assert!(line.len() <= 30, "Line too long: '{}' ({} chars)", line, line.len());
    }
}

#[test]
fn output_test_wrap_text_with_narrow_width() {
    let wrapped = wrap_text("Hello world", 5);
    assert!(!wrapped.is_empty());
    for line in &wrapped {
        assert!(line.len() <= 5, "Line '{}' exceeds width 5", line);
    }
}

#[test]
fn output_test_wrap_text_with_wide_width() {
    let wrapped = wrap_text("Short", 100);
    assert_eq!(wrapped.len(), 1);
    assert_eq!(wrapped[0], "Short");
}

#[test]
fn output_test_wrap_text_empty_input() {
    let wrapped = wrap_text("", 80);
    assert!(wrapped.is_empty() || (wrapped.len() == 1 && wrapped[0].is_empty()));
}

#[test]
fn mod_test_wrap_text() {
    let wrapped = wrap_text("This is a test of text wrapping functionality", 20);
    assert!(!wrapped.is_empty());
    for line in &wrapped {
        assert!(line.len() <= 20);
    }
}

#[test]
fn mod_test_wrap_text_preserves_newlines() {
    assert_eq!(wrap_text("Line one\nLine two\nLine three", 50).len(), 3);
}

#[test]
fn mod_test_wrap_text_handles_long_words() {
    let wrapped = wrap_text(
        "Check out https://example.com/very/long/path/to/resource for details",
        30,
    );
    assert!(!wrapped.is_empty());
    for line in &wrapped {
        assert!(line.len() <= 30);
    }
}

#[test]
fn mod_test_wrap_text_with_narrow_width() {
    let wrapped = wrap_text("Hello world", 5);
    assert!(!wrapped.is_empty());
    for line in &wrapped {
        assert!(line.len() <= 5);
    }
}

#[test]
fn mod_test_wrap_text_with_wide_width() {
    let wrapped = wrap_text("Short", 100);
    assert_eq!(wrapped, vec!["Short".to_string()]);
}

#[test]
fn mod_test_wrap_text_empty_input() {
    let wrapped = wrap_text("", 80);
    assert!(wrapped.is_empty() || (wrapped.len() == 1 && wrapped[0].is_empty()));
}

#[test]
fn wrap_text_keeps_blank_lines_as_empty_lines() {
    let wrapped = wrap_text("first\n   \nsecond\r\n", 80);
    assert_eq!(
        wrapped,
        vec!["first".to_string(), String::new(), "second".to_string()]
    );
}

// ===== Colors =====

fn check_status_colors() {
    enable_colors();
    let config = OutputConfig::new(80, false, true);
    let open = colorize_status(IssueStatus::Open, &config);
    let in_progress = colorize_status(IssueStatus::InProgress, &config);
    let blocked = colorize_status(IssueStatus::Blocked, &config);
    let closed = colorize_status(IssueStatus::Closed, &config);
    assert!(open.contains("open"));
    assert!(in_progress.contains("in_progress"));
    assert!(blocked.contains("blocked"));
    assert!(closed.contains("closed"));
    assert!(open.contains("\x1b["), "Open status should have ANSI codes");
    assert!(in_progress.contains("\x1b["), "InProgress status should have ANSI codes");
    assert!(blocked.contains("\x1b["), "Blocked status should have ANSI codes");
    assert!(closed.contains("\x1b["), "Closed status should have ANSI codes");
}

#[test]
fn output_test_colorize_status_contains_ansi_codes() {
    check_status_colors();
}

#[test]
fn color_test_colorize_status_contains_ansi_codes() {
    check_status_colors();
}

fn check_status_without_colors() {
    let config = OutputConfig::new(80, false, false);
    let open = colorize_status(IssueStatus::Open, &config);
    let in_progress = colorize_status(IssueStatus::InProgress, &config);
    assert!(open.contains("open"));
    assert!(!open.contains("\x1b["), "Open should NOT have ANSI codes");
    assert!(in_progress.contains("in_progress"));
    assert!(!in_progress.contains("\x1b["), "InProgress should NOT have ANSI codes");
}

#[test]
fn output_test_colorize_status_without_colors() {
    check_status_without_colors();
}

#[test]
fn color_test_colorize_status_without_colors() {
    check_status_without_colors();
}

fn check_priority_colors() {
    enable_colors();
    let config = OutputConfig::new(80, false, true);
    let p0 = colorize_priority(0, &config);
    let p1 = colorize_priority(1, &config);
    let p2 = colorize_priority(2, &config);
    assert!(p0.contains("P0"));
    assert!(p1.contains("P1"));
    assert!(p2.contains("P2"));
    assert!(p0.contains("\x1b["), "P0 should have ANSI codes");
    assert!(p1.contains("\x1b["), "P1 should have ANSI codes");
    assert!(!p2.contains("\x1b["), "P2 should not have ANSI codes");
}

#[test]
fn output_test_colorize_priority_contains_ansi_codes() {
    check_priority_colors();
}

#[test]
fn color_test_colorize_priority_contains_ansi_codes() {
    check_priority_colors();
}

fn check_priority_without_colors() {
    let config = OutputConfig::new(80, false, false);
    let p0 = colorize_priority(0, &config);
    let p1 = colorize_priority(1, &config);
    assert!(p0.contains("P0"));
    assert!(!p0.contains("\x1b["), "P0 should NOT have ANSI codes");
    assert!(p1.contains("P1"));
    assert!(!p1.contains("\x1b["), "P1 should NOT have ANSI codes");
}

#[test]
fn output_test_colorize_priority_without_colors() {
    check_priority_without_colors();
}

#[test]
fn color_test_colorize_priority_without_colors() {
    check_priority_without_colors();
}

fn check_id_colors() {
    enable_colors();
    let config = OutputConfig::new(80, false, true);
    let id = colorize_id("test-123", &config);
    assert!(id.contains("test-123"));
    assert!(id.contains("\x1b["), "ID should have ANSI codes");
}

#[test]
fn output_test_colorize_id_contains_ansi_codes() {
    check_id_colors();
}

#[test]
fn color_test_colorize_id_contains_ansi_codes() {
    check_id_colors();
}

fn check_id_without_colors() {
    let config = OutputConfig::new(80, false, false);
    let id = colorize_id("test-123", &config);
    assert_eq!(id, "test-123");
    assert!(!id.contains("\x1b["), "ID should NOT have ANSI codes");
}

#[test]
fn output_test_colorize_id_without_colors() {
    check_id_without_colors();
}

#[test]
fn color_test_colorize_id_without_colors() {
    check_id_without_colors();
}

fn check_type_icons() {
    let config = OutputConfig::default();
    assert_eq!(type_icon(IssueKind::Task, &config), "◇");
    assert_eq!(type_icon(IssueKind::Bug, &config), "●");
    assert_eq!(type_icon(IssueKind::Feature, &config), "★");
    assert_eq!(type_icon(IssueKind::Epic, &config), "◆");
    assert_eq!(type_icon(IssueKind::Chore, &config), "○");
}

#[test]
fn output_test_type_icon() {
    check_type_icons();
}

#[test]
fn color_test_type_icon() {
    check_type_icons();
}

fn check_ascii_icons() {
    let config = OutputConfig::new(80, true, true);
    assert_eq!(type_icon(IssueKind::Task, &config), "-");
    assert_eq!(type_icon(IssueKind::Bug, &config), "*");
    assert_eq!(type_icon(IssueKind::Feature, &config), "+");
    assert_eq!(type_icon(IssueKind::Epic, &config), "#");
    assert_eq!(type_icon(IssueKind::Chore, &config), ".");

    let config_no_color = OutputConfig::new(80, true, false);
    let open = colored_status_icon(IssueStatus::Open, &config_no_color);
    let closed = colored_status_icon(IssueStatus::Closed, &config_no_color);
    assert!(open.contains("o"));
    assert!(closed.contains("+"));
    assert!(!open.contains("\x1b["), "ASCII open should NOT have ANSI codes");
    assert!(!closed.contains("\x1b["), "ASCII closed should NOT have ANSI codes");
}

#[test]
fn output_test_ascii_fallback_icons() {
    check_ascii_icons();
}

#[test]
fn color_test_ascii_fallback_icons() {
    check_ascii_icons();
}

fn check_type_icon_without_colors() {
    let config = OutputConfig::new(80, false, false);
    let bug = colored_type_icon(IssueKind::Bug, &config);
    assert_eq!(bug, "●");
    assert!(!bug.contains("\x1b["), "Bug icon should NOT have ANSI codes");
    let feature = colored_type_icon(IssueKind::Feature, &config);
    assert_eq!(feature, "★");
    assert!(!feature.contains("\x1b["), "Feature icon should NOT have ANSI codes");
}

#[test]
fn output_test_colored_type_icon_without_colors() {
    check_type_icon_without_colors();
}

#[test]
fn color_test_colored_type_icon_without_colors() {
    check_type_icon_without_colors();
}

fn check_type_icon_with_colors() {
    enable_colors();
    let config = OutputConfig::new(80, false, true);
    let bug = colored_type_icon(IssueKind::Bug, &config);
    assert!(bug.contains("●"), "Bug icon should contain the icon");
    assert!(bug.contains("\x1b["), "Bug icon should have ANSI codes when colors enabled");
    let feature = colored_type_icon(IssueKind::Feature, &config);
    assert!(feature.contains("★"), "Feature icon should contain the icon");
    assert!(feature.contains("\x1b["), "Feature icon should have ANSI codes when colors enabled");
    let epic = colored_type_icon(IssueKind::Epic, &config);
    assert!(epic.contains("◆"), "Epic icon should contain the icon");
    assert!(epic.contains("\x1b["), "Epic icon should have ANSI codes when colors enabled");
}

#[test]
fn output_test_colored_type_icon_with_colors() {
    check_type_icon_with_colors();
}

#[test]
fn color_test_colored_type_icon_with_colors() {
    check_type_icon_with_colors();
}

fn check_type_icon_ascii() {
    let config = OutputConfig::new(80, true, false);
    assert_eq!(colored_type_icon(IssueKind::Bug, &config), "*");
    assert_eq!(colored_type_icon(IssueKind::Feature, &config), "+");
    assert_eq!(colored_type_icon(IssueKind::Epic, &config), "#");
    assert_eq!(colored_type_icon(IssueKind::Task, &config), "-");
    assert_eq!(colored_type_icon(IssueKind::Chore, &config), ".");
}

#[test]
fn output_test_colored_type_icon_ascii_mode() {
    check_type_icon_ascii();
}

#[test]
fn color_test_colored_type_icon_ascii_mode() {
    check_type_icon_ascii();
}

#[test]
fn test_semantic_colors_with_colors_enabled() {
    enable_colors();
    let config = OutputConfig::new(80, false, true);
    let s = success("done", &config);
    assert!(s.contains("done"));
    assert!(s.contains("\x1b["), "success should have ANSI codes");
    let e = error("fail", &config);
    assert!(e.contains("fail"));
    assert!(e.contains("\x1b["), "error should have ANSI codes");
    let w = warning("caution", &config);
    assert!(w.contains("caution"));
    assert!(w.contains("\x1b["), "warning should have ANSI codes");
    let i = info("note", &config);
    assert!(i.contains("note"));
    assert!(i.contains("\x1b["), "info should have ANSI codes");
}

#[test]
fn test_semantic_colors_without_colors() {
    let config = OutputConfig::new(80, false, false);
    assert_eq!(success("done", &config), "done");
    assert_eq!(error("fail", &config), "fail");
    assert_eq!(warning("caution", &config), "caution");
    assert_eq!(info("note", &config), "note");
}

#[test]
fn colored_text_wraps_the_text_in_sgr_codes() {
    enable_colors();
    let config = OutputConfig::new(80, false, true);
    assert_eq!(success("done", &config), "\x1b[32mdone\x1b[0m");
    assert_eq!(colorize_id("test-1", &config), "\x1b[36mtest-1\x1b[0m");
}

// ===== Issue rendering =====

fn check_print_issue_text() {
    let issue = test_issue();
    let config = OutputConfig::default();
    let mut output = String::new();
    print_issue_text(&mut output, &issue, &config);
    assert!(output.contains("test-abc"));
    assert!(output.contains("Test Issue"));
    assert!(output.contains("P1"));
    assert!(output.contains("alice"));
}

#[test]
fn output_test_print_issue_text() {
    check_print_issue_text();
}

#[test]
fn mod_test_print_issue_text() {
    check_print_issue_text();
}

fn check_print_issue_details_text() {
    let issue = test_issue();
    let config = OutputConfig::default();
    let deps = vec![Dependency {
        depends_on_id: IssueId::new("test-xyz"),
        dep_type: DependencyType::Blocks,
    }];
    let dependents: Vec<Dependency> = vec![];
    let mut output = String::new();
    print_issue_details_text(&mut output, &issue, &deps, &dependents, 80, &config);
    assert!(output.contains("test-abc"));
    assert!(output.contains("Dependencies"));
    assert!(output.contains("test-xyz"));
    assert!(output.contains("blocks"));
}

#[test]
fn output_test_print_issue_details_text() {
    check_print_issue_details_text();
}

#[test]
fn mod_test_print_issue_details_text() {
    check_print_issue_details_text();
}

fn check_print_issues_list() {
    let issues = vec![test_issue()];
    let config = OutputConfig::default();
    let mut output = String::new();
    print_issues_text(&mut output, &issues, &config);
    assert!(output.contains("Found 1 issue"));
    assert!(output.contains("test-abc"));
}

#[test]
fn output_test_print_issues_list_format() {
    check_print_issues_list();
}

#[test]
fn mod_test_print_issues_list_format() {
    check_print_issues_list();
}

fn check_text_section() {
    let config = OutputConfig::new(80, false, false);
    let mut output = String::new();
    print_text_section(&mut output, "Description", "", 80, &config);
    assert!(output.is_empty(), "Empty content should produce no output");
    print_text_section(&mut output, "Description", "Some text", 80, &config);
    assert!(output.contains("Description:"));
    assert!(output.contains("Some text"));
}

#[test]
fn output_test_print_text_section_skips_empty_content() {
    check_text_section();
}

#[test]
fn mod_test_print_text_section_skips_empty_content() {
    check_text_section();
}

#[test]
fn text_section_exact_layout() {
    let config = OutputConfig::new(80, false, false);
    let mut output = String::new();
    print_text_section(&mut output, "Notes", "one two\n\nthree", 80, &config);
    assert_eq!(output, "\nNotes:\n  one two\n  \n  three\n");
}

fn check_optional_section() {
    let config = OutputConfig::new(80, false, false);
    let mut output = String::new();
    print_optional_section(&mut output, "Notes", &None, 80, &config);
    assert!(output.is_empty(), "None should produce no output");
    let empty: Option<String> = Some(String::new());
    print_optional_section(&mut output, "Notes", &empty, 80, &config);
    assert!(output.is_empty(), "Empty Some should produce no output");
    let content: Option<String> = Some("Important note".to_string());
    print_optional_section(&mut output, "Notes", &content, 80, &config);
    assert!(output.contains("Notes:"));
    assert!(output.contains("Important note"));
}

#[test]
fn output_test_print_optional_section_handles_none() {
    check_optional_section();
}

#[test]
fn mod_test_print_optional_section_handles_none() {
    check_optional_section();
}

fn check_empty_description() {
    let mut issue = test_issue();
    issue.description = String::new();
    let config = OutputConfig::default();
    let mut output = String::new();
    print_issue_details_text(&mut output, &issue, &[], &[], 80, &config);
    assert!(
        !output.contains("Description:"),
        "Empty description should not show Description section"
    );
}

#[test]
fn output_test_issue_with_empty_description() {
    check_empty_description();
}

#[test]
fn mod_test_issue_with_empty_description() {
    check_empty_description();
}

// ===== Dependency trees =====

fn leaf_node(id: &str, dep_type: DependencyType) -> DepTreeNode {
    DepTreeNode {
        id: id.to_string(),
        dep_type: Some(dep_type),
        status: Some(IssueStatus::Open),
        title: None,
        priority: None,
        children: vec![],
    }
}

fn root_node(id: &str, children: Vec<DepTreeNode>) -> DepTreeNode {
    DepTreeNode {
        id: id.to_string(),
        dep_type: None,
        status: Some(IssueStatus::Open),
        title: Some("Root issue".to_string()),
        priority: Some(2),
        children,
    }
}

fn render_tree(root: &DepTreeNode, config: &OutputConfig) -> String {
    let mut output = String::new();
    print_dep_tree_text(&mut output, root, config);
    output
}

fn check_single_root() {
    let config = OutputConfig::new(80, false, false);
    let output = render_tree(&root_node("test-abc", vec![]), &config);
    assert!(output.contains("test-abc"), "should contain root ID");
    assert!(output.contains("P2"), "should contain priority");
    assert!(output.contains("Root issue"), "should contain title");
}

#[test]
fn tree_test_tree_single_root_no_children() {
    check_single_root();
}

#[test]
fn output_test_tree_single_root_no_children() {
    check_single_root();
}

fn check_single_child_unicode() {
    let config = OutputConfig::new(80, false, false);
    let root = root_node("test-root", vec![leaf_node("test-child", DependencyType::Blocks)]);
    let output = render_tree(&root, &config);
    assert!(
        output.contains("└── test-child"),
        "single child should use corner connector, got: {}",
        output
    );
    assert!(output.contains("(blocks)"), "should show dep type, got: {}", output);
}

#[test]
fn tree_test_tree_single_child_unicode() {
    check_single_child_unicode();
}

#[test]
fn output_test_tree_single_child_unicode() {
    check_single_child_unicode();
}

fn check_single_child_ascii() {
    let config = OutputConfig::new(80, true, false);
    let root = root_node("test-root", vec![leaf_node("test-child", DependencyType::Blocks)]);
    let output = render_tree(&root, &config);
    assert!(
        output.contains("`-- test-child"),
        "ASCII mode should use backtick connector, got: {}",
        output
    );
}

#[test]
fn tree_test_tree_single_child_ascii() {
    check_single_child_ascii();
}

#[test]
fn output_test_tree_single_child_ascii() {
    check_single_child_ascii();
}

fn check_multiple_children() {
    let config = OutputConfig::new(80, false, false);
    let root = root_node(
        "test-root",
        vec![
            leaf_node("child-1", DependencyType::Blocks),
            leaf_node("child-2", DependencyType::Related),
            leaf_node("child-3", DependencyType::ParentChild),
        ],
    );
    let output = render_tree(&root, &config);
    assert!(output.contains("├── child-1"), "non-last child should use branch connector, got: {}", output);
    assert!(output.contains("├── child-2"), "non-last child should use branch connector, got: {}", output);
    assert!(output.contains("└── child-3"), "last child should use corner connector, got: {}", output);
}

#[test]
fn tree_test_tree_multiple_children_connectors() {
    check_multiple_children();
}

#[test]
fn output_test_tree_multiple_children_connectors() {
    check_multiple_children();
}

fn check_nested_children() {
    let config = OutputConfig::new(80, false, false);
    let grandchild = leaf_node("grandchild", DependencyType::Blocks);
    let child = DepTreeNode {
        id: "child".to_string(),
        dep_type: Some(DependencyType::Blocks),
        status: Some(IssueStatus::InProgress),
        title: None,
        priority: None,
        children: vec![grandchild],
    };
    let output = render_tree(&root_node("root", vec![child]), &config);
    assert!(output.contains("child"), "should contain child");
    assert!(output.contains("grandchild"), "should contain grandchild");
    let child_line = output
        .lines()
        .find(|l| l.contains("child") && !l.contains("grandchild"))
        .expect("should find child line");
    let grandchild_line = output
        .lines()
        .find(|l| l.contains("grandchild"))
        .expect("should find grandchild line");
    assert!(
        grandchild_line.len() > child_line.len(),
        "grandchild should have more indentation"
    );
}

#[test]
fn tree_test_tree_nested_children() {
    check_nested_children();
}

#[test]
fn output_test_tree_nested_children() {
    check_nested_children();
}

fn check_continuation_lines() {
    let config = OutputConfig::new(80, false, false);
    let grandchild = leaf_node("grandchild-1", DependencyType::Blocks);
    let child1 = DepTreeNode {
        id: "child-1".to_string(),
        dep_type: Some(DependencyType::Blocks),
        status: None,
        title: None,
        priority: None,
        children: vec![grandchild],
    };
    let child2 = leaf_node("child-2", DependencyType::Related);
    let output = render_tree(&root_node("root", vec![child1, child2]), &config);
    assert!(
        output.contains("│   └── grandchild-1"),
        "grandchild should have continuation pipe, got:\n{}",
        output
    );
}

#[test]
fn tree_test_tree_continuation_lines() {
    check_continuation_lines();
}

#[test]
fn output_test_tree_continuation_lines() {
    check_continuation_lines();
}

fn check_dependents_section() {
    let config = OutputConfig::new(80, false, false);
    let dependents = vec![
        Dependency {
            depends_on_id: IssueId::new("dep-1"),
            dep_type: DependencyType::Blocks,
        },
        Dependency {
            depends_on_id: IssueId::new("dep-2"),
            dep_type: DependencyType::Related,
        },
    ];
    let mut output = String::new();
    print_dep_tree_dependents(&mut output, &dependents, &config);
    assert!(output.contains("Depended on by"), "should have section header");
    assert!(output.contains("dep-1"), "should contain first dependent");
    assert!(output.contains("dep-2"), "should contain second dependent");
    assert!(output.contains("(blocks)"), "should show dep type");
    assert!(output.contains("(related)"), "should show dep type");
}

#[test]
fn tree_test_print_dep_tree_dependents_section() {
    check_dependents_section();
}

#[test]
fn output_test_print_dep_tree_dependents_section() {
    check_dependents_section();
}

fn check_dependents_empty() {
    let config = OutputConfig::new(80, false, false);
    let mut output = String::new();
    print_dep_tree_dependents(&mut output, &[], &config);
    assert!(output.is_empty(), "empty dependents should produce no output");
}

#[test]
fn tree_test_print_dep_tree_dependents_empty() {
    check_dependents_empty();
}

#[test]
fn output_test_print_dep_tree_dependents_empty() {
    check_dependents_empty();
}

fn check_root_icons() {
    let root = root_node("test", vec![]);
    let out_unicode = render_tree(&root, &OutputConfig::new(80, false, false));
    assert!(
        out_unicode.contains('\u{25C6}'),
        "Unicode mode should use diamond, got: {}",
        out_unicode
    );
    let out_ascii = render_tree(&root, &OutputConfig::new(80, true, false));
    assert!(out_ascii.contains('*'), "ASCII mode should use asterisk, got: {}", out_ascii);
}

#[test]
fn tree_test_tree_root_icon_ascii_vs_unicode() {
    check_root_icons();
}

#[test]
fn output_test_tree_root_icon_ascii_vs_unicode() {
    check_root_icons();
}
