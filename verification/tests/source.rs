use lazytail::source::{
    index_dir_for_log, join_path, log_sources_in, marker_status, parse_marker_pid, resolve_data_dir,
    resolve_source_in, resolve_sources_dir, source_log_path,
    validate_source_name, DiscoveryResult, SourceNameError, SourceStatus,
};

#[test]
fn test_validate_source_name_valid() {
    assert!(validate_source_name("myapp").is_ok());
    assert!(validate_source_name("my-app").is_ok());
    assert!(validate_source_name("my_app_123").is_ok());
    assert!(validate_source_name("API").is_ok());
}

#[test]
fn test_validate_source_name_invalid() {
    assert!(validate_source_name("").is_err());
    assert!(validate_source_name("path/name").is_err());
    assert!(validate_source_name(".hidden").is_err());
    assert!(validate_source_name("name:with:colons").is_err());
    assert!(validate_source_name("name*star").is_err());
}

#[test]
fn test_resolve_data_dir_with_project() {
    let project_root = "/test/project".to_string();
    let discovery = DiscoveryResult {
        project_root: Some(project_root.clone()),
        project_config: Some(join_path(&project_root, "lazytail.yaml")),
        global_config: None,
    };

    let result = resolve_data_dir(&discovery);
    assert!(result.is_some());
    assert_eq!(
        result.unwrap(),
        "/test/project/.lazytail/data"
    );
}

#[test]
fn test_resolve_sources_dir_with_project() {
    let project_root = "/test/project".to_string();
    let discovery = DiscoveryResult {
        project_root: Some(project_root.clone()),
        project_config: Some(join_path(&project_root, "lazytail.yaml")),
        global_config: None,
    };

    let result = resolve_sources_dir(&discovery);
    assert!(result.is_some());
    assert_eq!(
        result.unwrap(),
        "/test/project/.lazytail/sources"
    );
}

#[test]
fn validate_source_name_reports_the_first_broken_rule() {
    assert_eq!(validate_source_name(""), Err(SourceNameError::Empty));
    assert_eq!(validate_source_name(".a/b"), Err(SourceNameError::PathSeparator));
    assert_eq!(validate_source_name("a\\b"), Err(SourceNameError::PathSeparator));
    assert_eq!(validate_source_name(&"x".repeat(256)), Err(SourceNameError::TooLong));
    assert!(validate_source_name(&"x".repeat(255)).is_ok());
    assert_eq!(validate_source_name(&"é".repeat(128)), Err(SourceNameError::TooLong));
    assert_eq!(validate_source_name(".x:y"), Err(SourceNameError::LeadingDot));
    assert_eq!(validate_source_name("what?"), Err(SourceNameError::InvalidCharacters));
    assert_eq!(
        SourceNameError::TooLong.message(),
        "Source name too long (max 255 characters)"
    );
}

#[test]
fn paths_join_with_unix_rules() {
    assert_eq!(join_path("/a", "b"), "/a/b");
    assert_eq!(join_path("/a/", "b"), "/a/b");
    assert_eq!(join_path("", "b"), "b");
    assert_eq!(join_path("/a", "/etc"), "/etc");
    assert_eq!(source_log_path("app", "/data").unwrap(), "/data/app.log");
    assert_eq!(source_log_path("../x", "/data"), Err(SourceNameError::PathSeparator));
}

#[test]
fn marker_pid_and_status() {
    assert_eq!(parse_marker_pid(" 1234\n"), Some(1234));
    assert_eq!(parse_marker_pid("4294967296"), None);
    assert_eq!(parse_marker_pid("abc"), None);
    assert_eq!(marker_status(Some(7), true), SourceStatus::Active);
    assert_eq!(marker_status(Some(7), false), SourceStatus::Ended);
    assert_eq!(marker_status(None, true), SourceStatus::Ended);
}

#[test]
fn test_resolve_data_dir_without_project() {
    let discovery = DiscoveryResult::default();

    // Without project root, should fall back to global data_dir()
    let result = resolve_data_dir(&discovery);

    // On systems with dirs::home_dir(), this should return a path
    // containing "lazytail/data"
    if let Some(path) = result {
        assert!(path.contains("lazytail"));
        assert!(path.contains("data"));
    }
}

#[test]
fn test_resolve_sources_dir_without_project() {
    let discovery = DiscoveryResult::default();

    // Without project root, should fall back to global sources_dir()
    let result = resolve_sources_dir(&discovery);

    // On systems with dirs::home_dir(), this should return a path
    // containing "lazytail/sources"
    if let Some(path) = result {
        assert!(path.contains("lazytail"));
        assert!(path.contains("sources"));
    }
}

#[test]
fn index_dir_replaces_log_extension() {
    assert_eq!(index_dir_for_log("/path/to/myapp.log"), "/path/to/myapp.idx");
    assert_eq!(index_dir_for_log("/path/to/noext"), "/path/to/noext.idx");
    assert_eq!(index_dir_for_log("archive.tar.log"), "archive.tar.idx");
}

#[test]
fn log_sources_listed_by_name() {
    let names = vec![
        "web.log".to_string(),
        "notes.txt".to_string(),
        "api.log".to_string(),
        ".log".to_string(),
        "db.LOG".to_string(),
        "a.b.log".to_string(),
    ];
    let found = log_sources_in("/data", &names);
    assert_eq!(
        found,
        vec![
            ("a.b".to_string(), "/data/a.b.log".to_string()),
            ("api".to_string(), "/data/api.log".to_string()),
            ("web".to_string(), "/data/web.log".to_string()),
        ]
    );
    assert!(log_sources_in("/data", &vec![]).is_empty());
}

#[test]
fn resolve_source_in_gives_path_or_message() {
    assert_eq!(resolve_source_in("api", "/data", true), Ok("/data/api.log".to_string()));
    assert_eq!(
        resolve_source_in("api", "/data", false),
        Err("Source 'api' not found. Use list_sources to see available sources.".to_string())
    );
    assert_eq!(
        resolve_source_in("a/b", "/data", true),
        Err("Source name cannot contain path separators".to_string())
    );
    assert_eq!(resolve_source_in("", "/data", false), Err("Source name cannot be empty".to_string()));
}
