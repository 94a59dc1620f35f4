use rivets::validators::{validate_description, validate_issue_id, validate_prefix, validate_title};

#[test]
fn cli_test_validate_prefix_valid() {
    assert!(validate_prefix("proj").is_ok());
    assert!(validate_prefix("rivets").is_ok());
    assert!(validate_prefix("AB").is_ok());
    assert!(validate_prefix("test123").is_ok());
    assert!(validate_prefix("a1b2c3d4e5f6g7h8i9j0").is_ok());
}

#[test]
fn cli_test_validate_prefix_too_short() {
    let result = validate_prefix("a");
    assert!(result.is_err());
    assert!(result.unwrap_err().contains("at least 2 characters"));
}

#[test]
fn cli_test_validate_prefix_too_long() {
    let result = validate_prefix("a".repeat(21).as_str());
    assert!(result.is_err());
    assert!(result.unwrap_err().contains("cannot exceed 20"));
}

#[test]
fn cli_test_validate_prefix_invalid_chars() {
    assert!(validate_prefix("proj-test").is_err());
    assert!(validate_prefix("proj_test").is_err());
    assert!(validate_prefix("proj test").is_err());
    assert!(validate_prefix("proj.test").is_err());
}

#[test]
fn cli_test_validate_prefix_trims_whitespace() {
    assert_eq!(validate_prefix("  proj  ").unwrap(), "proj");
}

#[test]
fn cli_test_validate_issue_id_valid() {
    assert!(validate_issue_id("proj-abc").is_ok());
    assert!(validate_issue_id("rivets-123").is_ok());
    assert!(validate_issue_id("ab-1").is_ok());
    assert!(validate_issue_id("TEST-xyz").is_ok());
}

#[test]
fn cli_test_validate_issue_id_empty() {
    let result = validate_issue_id("");
    assert!(result.is_err());
    assert!(result.unwrap_err().contains("cannot be empty"));
}

#[test]
fn cli_test_validate_issue_id_no_hyphen() {
    let result = validate_issue_id("projabc");
    assert!(result.is_err());
    assert!(result.unwrap_err().contains("Expected format"));
}

#[test]
fn cli_test_validate_issue_id_empty_suffix() {
    let result = validate_issue_id("proj-");
    assert!(result.is_err());
    assert!(result.unwrap_err().contains("suffix cannot be empty"));
}

#[test]
fn cli_test_validate_issue_id_prefix_too_short() {
    let result = validate_issue_id("a-123");
    assert!(result.is_err());
    assert!(result
        .unwrap_err()
        .to_lowercase()
        .contains("at least 2 characters"));
}

#[test]
fn cli_test_validate_issue_id_invalid_chars() {
    assert!(validate_issue_id("proj-abc_123").is_err());
    assert!(validate_issue_id("proj_test-abc").is_err());
}

#[test]
fn cli_test_validate_issue_id_multiple_hyphens() {
    assert!(validate_issue_id("proj-abc-123").is_ok());
    assert!(validate_issue_id("rivets-feature-xyz").is_ok());
    assert!(validate_issue_id("test-a-b-c-d").is_ok());
    assert_eq!(validate_issue_id("proj-abc-123").unwrap(), "proj-abc-123");
}

#[test]
fn cli_test_validate_issue_id_prefix_exactly_20_chars() {
    let prefix_20 = "a".repeat(20);
    let issue_id = format!("{}-xyz", prefix_20);
    assert!(validate_issue_id(&issue_id).is_ok());
}

#[test]
fn cli_test_validate_issue_id_prefix_21_chars() {
    let prefix_21 = "a".repeat(21);
    let issue_id = format!("{}-xyz", prefix_21);
    let result = validate_issue_id(&issue_id);
    assert!(result.is_err());
    assert!(result.unwrap_err().to_lowercase().contains("cannot exceed 20"));
}

#[test]
fn cli_test_validate_issue_id_leading_hyphen_suffix() {
    let result = validate_issue_id("proj--abc");
    assert!(result.is_err());
    assert!(result.unwrap_err().contains("cannot start with a hyphen"));
}

#[test]
fn cli_test_validate_issue_id_trailing_hyphen_suffix() {
    let result = validate_issue_id("proj-abc-");
    assert!(result.is_err());
    assert!(result.unwrap_err().contains("cannot end with a hyphen"));
}

#[test]
fn cli_test_validate_issue_id_consecutive_hyphens() {
    let result = validate_issue_id("proj-a--b");
    assert!(result.is_err());
    assert!(result
        .unwrap_err()
        .contains("cannot contain consecutive hyphens"));
}

#[test]
fn cli_test_validate_title_valid() {
    assert!(validate_title("Short title").is_ok());
    assert!(validate_title("A".repeat(200).as_str()).is_ok());
}

#[test]
fn cli_test_validate_title_empty() {
    let result = validate_title("");
    assert!(result.is_err());
    assert!(result.unwrap_err().contains("cannot be empty"));
}

#[test]
fn cli_test_validate_title_too_long() {
    let long_title = "A".repeat(201);
    let result = validate_title(&long_title);
    assert!(result.is_err());
    assert!(result.unwrap_err().contains("cannot exceed 200"));
}

#[test]
fn cli_test_validate_title_exactly_max_length() {
    let max_title = "A".repeat(200);
    assert!(validate_title(&max_title).is_ok());
    assert_eq!(validate_title(&max_title).unwrap().len(), 200);
}

#[test]
fn cli_test_validate_title_trims_whitespace() {
    assert_eq!(validate_title("  Test Title  ").unwrap(), "Test Title");
}

#[test]
fn cli_test_validate_title_whitespace_only() {
    let result = validate_title("   ");
    assert!(result.is_err());
    assert!(result.unwrap_err().contains("cannot be empty"));
}

#[test]
fn cli_test_validate_title_with_newline() {
    let result = validate_title("Title with\nnewline");
    assert!(result.is_err());
    assert!(result.unwrap_err().contains("newline"));
}

#[test]
fn cli_test_validate_title_with_carriage_return() {
    let result = validate_title("Title with\rcarriage return");
    assert!(result.is_err());
    assert!(result.unwrap_err().contains("newline"));
}

#[test]
fn cli_test_validate_title_with_control_character() {
    let result = validate_title("Title with\x00control");
    assert!(result.is_err());
    assert!(result.unwrap_err().contains("control character"));
}

#[test]
fn cli_test_validate_title_with_tab_allowed() {
    let result = validate_title("Title with\ttab");
    assert!(result.is_ok());
    assert_eq!(result.unwrap(), "Title with\ttab");
}

#[test]
fn cli_test_validate_title_with_delete_character() {
    let result = validate_title("Title with\x7Fdelete");
    assert!(result.is_err());
    assert!(result.unwrap_err().contains("control character"));
}

#[test]
fn cli_test_validate_description_with_newline_allowed() {
    let result = validate_description("Multi-line\ndescription");
    assert!(result.is_ok());
    assert_eq!(result.unwrap(), "Multi-line\ndescription");
}

#[test]
fn cli_test_validate_description_with_control_character() {
    let result = validate_description("Description with\x00control");
    assert!(result.is_err());
    assert!(result.unwrap_err().contains("control character"));
}

#[test]
fn cli_test_validate_description_with_tab_and_newline() {
    let result = validate_description("Line1\n\tIndented line");
    assert!(result.is_ok());
    assert_eq!(result.unwrap(), "Line1\n\tIndented line");
}

#[test]
fn cli_test_validate_description_empty() {
    let result = validate_description("");
    assert!(result.is_ok());
    assert_eq!(result.unwrap(), "");
}

#[test]
fn validators_test_validate_prefix_valid() {
    assert!(validate_prefix("proj").is_ok());
    assert!(validate_prefix("rivets").is_ok());
    assert!(validate_prefix("AB").is_ok());
    assert!(validate_prefix("test123").is_ok());
    assert!(validate_prefix("a1b2c3d4e5f6g7h8i9j0").is_ok());
}

#[test]
fn validators_test_validate_prefix_too_short() {
    let result = validate_prefix("a");
    assert!(result.is_err());
    assert!(result.unwrap_err().contains("at least 2 characters"));
}

#[test]
fn validators_test_validate_prefix_too_long() {
    let result = validate_prefix("a".repeat(21).as_str());
    assert!(result.is_err());
    assert!(result.unwrap_err().contains("cannot exceed 20"));
}

#[test]
fn validators_test_validate_prefix_invalid_chars() {
    assert!(validate_prefix("proj-test").is_err());
    assert!(validate_prefix("proj_test").is_err());
    assert!(validate_prefix("proj test").is_err());
    assert!(validate_prefix("proj.test").is_err());
}

#[test]
fn validators_test_validate_prefix_trims_whitespace() {
    assert_eq!(validate_prefix("  proj  ").unwrap(), "proj");
}

#[test]
fn validators_test_validate_issue_id_valid() {
    assert!(validate_issue_id("proj-abc").is_ok());
    assert!(validate_issue_id("rivets-123").is_ok());
    assert!(validate_issue_id("ab-1").is_ok());
    assert!(validate_issue_id("TEST-xyz").is_ok());
}

#[test]
fn validators_test_validate_issue_id_empty() {
    let result = validate_issue_id("");
    assert!(result.is_err());
    assert!(result.unwrap_err().contains("cannot be empty"));
}

#[test]
fn validators_test_validate_issue_id_no_hyphen() {
    let result = validate_issue_id("projabc");
    assert!(result.is_err());
    assert!(result.unwrap_err().contains("Expected format"));
}

#[test]
fn validators_test_validate_issue_id_empty_suffix() {
    let result = validate_issue_id("proj-");
    assert!(result.is_err());
    assert!(result.unwrap_err().contains("suffix cannot be empty"));
}

#[test]
fn validators_test_validate_issue_id_prefix_too_short() {
    let result = validate_issue_id("a-123");
    assert!(result.is_err());
    assert!(result
        .unwrap_err()
        .to_lowercase()
        .contains("at least 2 characters"));
}

#[test]
fn validators_test_validate_issue_id_invalid_chars() {
    assert!(validate_issue_id("proj-abc_123").is_err());
    assert!(validate_issue_id("proj_test-abc").is_err());
}

#[test]
fn validators_test_validate_issue_id_multiple_hyphens() {
    assert!(validate_issue_id("proj-abc-123").is_ok());
    assert!(validate_issue_id("rivets-feature-xyz").is_ok());
    assert!(validate_issue_id("test-a-b-c-d").is_ok());
    assert_eq!(validate_issue_id("proj-abc-123").unwrap(), "proj-abc-123");
}

#[test]
fn validators_test_validate_issue_id_prefix_exactly_20_chars() {
    let prefix_20 = "a".repeat(20);
    let issue_id = format!("{}-xyz", prefix_20);
    assert!(validate_issue_id(&issue_id).is_ok());
}

#[test]
fn validators_test_validate_issue_id_prefix_21_chars() {
    let prefix_21 = "a".repeat(21);
    let issue_id = format!("{}-xyz", prefix_21);
    let result = validate_issue_id(&issue_id);
    assert!(result.is_err());
    assert!(result.unwrap_err().to_lowercase().contains("cannot exceed 20"));
}

#[test]
fn validators_test_validate_issue_id_leading_hyphen_suffix() {
    let result = validate_issue_id("proj--abc");
    assert!(result.is_err());
    assert!(result.unwrap_err().contains("cannot start with a hyphen"));
}

#[test]
fn validators_test_validate_issue_id_trailing_hyphen_suffix() {
    let result = validate_issue_id("proj-abc-");
    assert!(result.is_err());
    assert!(result.unwrap_err().contains("cannot end with a hyphen"));
}

#[test]
fn validators_test_validate_issue_id_consecutive_hyphens() {
    let result = validate_issue_id("proj-a--b");
    assert!(result.is_err());
    assert!(result
        .unwrap_err()
        .contains("cannot contain consecutive hyphens"));
}

#[test]
fn validators_test_validate_title_valid() {
    assert!(validate_title("Short title").is_ok());
    assert!(validate_title("A".repeat(200).as_str()).is_ok());
}

#[test]
fn validators_test_validate_title_empty() {
    let result = validate_title("");
    assert!(result.is_err());
    assert!(result.unwrap_err().contains("cannot be empty"));
}

#[test]
fn validators_test_validate_title_too_long() {
    let long_title = "A".repeat(201);
    let result = validate_title(&long_title);
    assert!(result.is_err());
    assert!(result.unwrap_err().contains("cannot exceed 200"));
}

#[test]
fn validators_test_validate_title_exactly_max_length() {
    let max_title = "A".repeat(200);
    assert!(validate_title(&max_title).is_ok());
    assert_eq!(validate_title(&max_title).unwrap().len(), 200);
}

#[test]
fn validators_test_validate_title_trims_whitespace() {
    assert_eq!(validate_title("  Test Title  ").unwrap(), "Test Title");
}

#[test]
fn validators_test_validate_title_whitespace_only() {
    let result = validate_title("   ");
    assert!(result.is_err());
    assert!(result.unwrap_err().contains("cannot be empty"));
}

#[test]
fn validators_test_validate_title_with_newline() {
    let result = validate_title("Title with\nnewline");
    assert!(result.is_err());
    assert!(result.unwrap_err().contains("newline"));
}

#[test]
fn validators_test_validate_title_with_carriage_return() {
    let result = validate_title("Title with\rcarriage return");
    assert!(result.is_err());
    assert!(result.unwrap_err().contains("newline"));
}

#[test]
fn validators_test_validate_title_with_control_character() {
    let result = validate_title("Title with\x00control");
    assert!(result.is_err());
    assert!(result.unwrap_err().contains("control character"));
}

#[test]
fn validators_test_validate_title_with_tab_allowed() {
    let result = validate_title("Title with\ttab");
    assert!(result.is_ok());
    assert_eq!(result.unwrap(), "Title with\ttab");
}

#[test]
fn validators_test_validate_title_with_delete_character() {
    let result = validate_title("Title with\x7Fdelete");
    assert!(result.is_err());
    assert!(result.unwrap_err().contains("control character"));
}

#[test]
fn validators_test_validate_description_with_newline_allowed() {
    let result = validate_description("Multi-line\ndescription");
    assert!(result.is_ok());
    assert_eq!(result.unwrap(), "Multi-line\ndescription");
}

#[test]
fn validators_test_validate_description_with_control_character() {
    let result = validate_description("Description with\x00control");
    assert!(result.is_err());
    assert!(result.unwrap_err().contains("control character"));
}

#[test]
fn validators_test_validate_description_with_tab_and_newline() {
    let result = validate_description("Line1\n\tIndented line");
    assert!(result.is_ok());
    assert_eq!(result.unwrap(), "Line1\n\tIndented line");
}

#[test]
fn validators_test_validate_description_empty() {
    let result = validate_description("");
    assert!(result.is_ok());
    assert_eq!(result.unwrap(), "");
}

#[test]
fn validator_messages_are_exact() {
    assert_eq!(
        validate_prefix("a").unwrap_err(),
        "Prefix must be at least 2 characters"
    );
    assert_eq!(
        validate_issue_id("a-123").unwrap_err(),
        "Issue ID prefix must be at least 2 characters"
    );
    assert_eq!(
        validate_issue_id("projabc").unwrap_err(),
        "Invalid issue ID format: 'projabc'. Expected format: prefix-suffix (e.g., proj-abc or proj-abc-123)"
    );
    assert_eq!(
        validate_title(&"A".repeat(201)).unwrap_err(),
        "Title cannot exceed 200 characters, got 201 characters"
    );
    assert_eq!(
        validate_title("ab\u{1b}c").unwrap_err(),
        "Title contains invalid control character at position 2"
    );
    assert_eq!(
        validate_description("ab\u{7}").unwrap_err(),
        "Description contains invalid control character at position 2"
    );
}

#[test]
fn issue_id_prefix_must_be_alphanumeric_without_inner_spaces() {
    assert_eq!(
        validate_issue_id("  ab -x  ").unwrap_err(),
        "Issue ID prefix must contain only alphanumeric characters"
    );
    assert_eq!(validate_issue_id("  ab-x  ").unwrap(), "ab-x");
}

#[test]
fn title_length_counts_characters() {
    let accented = "\u{e9}".repeat(200);
    assert_eq!(validate_title(&accented).unwrap(), accented);
    assert_eq!(
        validate_title(&"\u{e9}".repeat(201)).unwrap_err(),
        "Title cannot exceed 200 characters, got 201 characters"
    );
}
