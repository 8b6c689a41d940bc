use microsandbox::pathutil::{parse_file_path, paths_overlap};

#[test]
fn test_paths_overlap() {
    // Test cases that should conflict
    assert!(paths_overlap("/data", "/data"));
    assert!(paths_overlap("/data", "/data/app"));
    assert!(paths_overlap("/data/app", "/data"));
    assert!(paths_overlap("/data/app/logs", "/data/app"));

    // Test cases that should not conflict
    assert!(!paths_overlap("/data", "/database"));
    assert!(!paths_overlap("/var/log", "/var/lib"));
    assert!(!paths_overlap("/data/app1", "/data/app2"));
    assert!(!paths_overlap("/data/app/logs", "/data/web/logs"));
}

#[test]
fn path_test_paths_overlap() {
    // Test cases that should conflict
    assert!(paths_overlap("/data", "/data"));
    assert!(paths_overlap("/data", "/data/app"));
    assert!(paths_overlap("/data/app", "/data"));
    assert!(paths_overlap("/data/app/logs", "/data/app"));

    // Test cases that should not conflict
    assert!(!paths_overlap("/data", "/database"));
    assert!(!paths_overlap("/var/log", "/var/lib"));
    assert!(!paths_overlap("/data/app1", "/data/app2"));
    assert!(!paths_overlap("/data/app/logs", "/data/web/logs"));
}

#[test]
fn parse_file_path_none() {
    assert_eq!(parse_file_path(None, false), (None, None));
}

#[test]
fn parse_file_path_directory() {
    let (project, config) = parse_file_path(Some("projects/demo".to_string()), true);
    assert_eq!(project.as_deref(), Some("projects/demo"));
    assert_eq!(config, None);
}

#[test]
fn parse_file_path_bare_file() {
    let (project, config) = parse_file_path(Some("Sandboxfile".to_string()), false);
    assert_eq!(project.as_deref(), Some("."));
    assert_eq!(config.as_deref(), Some("Sandboxfile"));
}

#[test]
fn parse_file_path_nested_file() {
    let (project, config) = parse_file_path(Some("projects/demo/Sandboxfile".to_string()), false);
    assert_eq!(project.as_deref(), Some("projects/demo"));
    assert_eq!(config.as_deref(), Some("Sandboxfile"));
}

#[test]
fn parse_file_path_root_file() {
    let (project, config) = parse_file_path(Some("/Sandboxfile".to_string()), false);
    assert_eq!(project.as_deref(), Some("/"));
    assert_eq!(config.as_deref(), Some("Sandboxfile"));
}

#[test]
fn parse_file_path_ignores_trailing_slash() {
    let (project, config) = parse_file_path(Some("projects/demo/".to_string()), false);
    assert_eq!(project.as_deref(), Some("projects"));
    assert_eq!(config.as_deref(), Some("demo"));
}

#[test]
fn parse_file_path_single_component_with_slash() {
    let (project, config) = parse_file_path(Some("demo/".to_string()), false);
    assert_eq!(project.as_deref(), Some("."));
    assert_eq!(config.as_deref(), Some("demo"));
}

#[test]
fn parse_file_path_bare_root() {
    let (project, config) = parse_file_path(Some("/".to_string()), false);
    assert_eq!(project.as_deref(), Some("."));
    assert_eq!(config, None);
}

#[test]
fn parse_file_path_collapses_doubled_slash() {
    let (project, config) = parse_file_path(Some("a//b".to_string()), false);
    assert_eq!(project.as_deref(), Some("a"));
    assert_eq!(config.as_deref(), Some("b"));
}
