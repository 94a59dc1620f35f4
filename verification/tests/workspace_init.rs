use rivets::config::Config;
use rivets::error::ConfigError;
use rivets::init::{
    plan_init, root_search_step, validate_prefix, RivetsConfig, RootSearchStep, DEFAULT_PREFIX,
    MAX_TRAVERSAL_DEPTH,
};

#[test]
fn test_validate_prefix_valid() {
    for prefix in [
        "ab",
        "proj",
        "rivets",
        "test123",
        "PROJ",
        "ProjTest123",
        "a1b2c3d4e5f6g7h8i9j0",
    ] {
        assert!(validate_prefix(prefix).is_ok(), "{prefix:?}");
    }
}

#[test]
fn test_validate_prefix_invalid() {
    let too_long = "a".repeat(21);
    let cases: [(&str, &str); 7] = [
        ("a", "at least 2"),
        ("", "at least 2"),
        (too_long.as_str(), "cannot exceed 20"),
        ("proj-test", "alphanumeric"),
        ("proj_test", "alphanumeric"),
        ("proj test", "alphanumeric"),
        ("proj.test", "alphanumeric"),
    ];
    for (prefix, expected_error) in cases {
        let result = validate_prefix(prefix);
        assert!(result.is_err());
        let err_msg = result.unwrap_err().to_string().to_lowercase();
        assert!(
            err_msg.contains(&expected_error.to_lowercase()),
            "Expected error to contain '{}', got: '{}'",
            expected_error,
            err_msg
        );
    }
}

#[test]
fn test_validate_prefix_rejects_whitespace() {
    let result = validate_prefix("  ab  ");
    assert!(result.is_err());
    assert!(result
        .unwrap_err()
        .to_string()
        .to_lowercase()
        .contains("alphanumeric"));
}

#[test]
fn test_config_new() {
    let config = RivetsConfig::new("myproj");
    assert_eq!(config.issue_prefix, "myproj");
    assert_eq!(config.storage.backend, "memory");
    assert_eq!(config.storage.data_file, ".rivets/issues.jsonl");
}

#[test]
fn test_config_default() {
    let config = RivetsConfig::default();
    assert_eq!(config.issue_prefix, DEFAULT_PREFIX);
}

#[test]
fn init_plan_uses_default_prefix_and_layout() {
    let plan = plan_init("/work", None).expect("default prefix is valid");
    assert_eq!(plan.prefix, "proj");
    assert_eq!(plan.rivets_dir, "/work/.rivets");
    assert_eq!(plan.config_file, "/work/.rivets/config.yaml");
    assert_eq!(plan.issues_file, "/work/.rivets/issues.jsonl");
    assert_eq!(plan.gitignore_file, "/work/.rivets/.gitignore");
}

#[test]
fn init_plan_trims_and_validates_prefix() {
    let plan = plan_init("base/", Some("  myproj ")).expect("valid prefix");
    assert_eq!(plan.prefix, "myproj");
    assert_eq!(plan.rivets_dir, "base/.rivets");
    let err = plan_init("/work", Some("a")).unwrap_err();
    assert!(
        matches!(&err, ConfigError::InvalidPrefix(m) if m == "Prefix must be at least 2 characters")
    );
    assert!(err.to_string().to_lowercase().contains("at least 2"));
}

#[test]
fn config_error_messages() {
    assert_eq!(
        ConfigError::NotInitialized.to_string(),
        "Not a rivets repository (or any of the parent directories). Run 'rivets init' to create a new repository."
    );
    assert_eq!(
        ConfigError::AlreadyInitialized(".rivets".to_string()).to_string(),
        "Rivets is already initialized in this directory. Found existing '.rivets'"
    );
    assert_eq!(
        ConfigError::UnsupportedBackend("PostgreSQL".to_string()).to_string(),
        "Storage backend not yet implemented: PostgreSQL"
    );
    assert_eq!(
        ConfigError::AbsoluteDataPath.to_string(),
        "data_file must be a relative path"
    );
    assert_eq!(
        ConfigError::PathTraversal.to_string(),
        "data_file must not contain parent directory references ('..')"
    );
    assert_eq!(
        ConfigError::UnknownBackend("redis".to_string()).to_string(),
        "Unknown storage backend 'redis'. Supported backends: jsonl, postgresql"
    );
    assert_eq!(
        ConfigError::InvalidPrefix("Prefix must be at least 2 characters".to_string())
            .to_string(),
        "Prefix must be at least 2 characters"
    );
}

#[test]
fn root_search_stops_at_marker_and_depth_limit() {
    assert_eq!(root_search_step(0, true), RootSearchStep::Found);
    assert_eq!(root_search_step(0, false), RootSearchStep::Ascend(1));
    assert_eq!(
        root_search_step(MAX_TRAVERSAL_DEPTH - 1, false),
        RootSearchStep::Ascend(MAX_TRAVERSAL_DEPTH)
    );
    assert_eq!(
        root_search_step(MAX_TRAVERSAL_DEPTH, false),
        RootSearchStep::GiveUp
    );
}

#[test]
fn config_load_points_at_rivets_directory() {
    let config = Config::load().expect("always loads");
    assert_eq!(config.rivets_dir, ".rivets");
}
