use chef_de_vibe::config::{
    candidate_path, find_claude_in_path, is_relative, listen_address, parse_shutdown_timeout, parse_u64,
    projects_dir, BinaryLookup, Config, ConfigFacts, PathCandidate,
};
use std::time::Duration;

fn test_config(projects: &str) -> Config {
    Config {
        claude_binary_path: "/usr/bin/agent".to_string(),
        http_listen_address: "127.0.0.1:8080".to_string(),
        claude_projects_dir: projects.to_string(),
        shutdown_timeout: Duration::from_secs(30),
    }
}

fn all_good() -> ConfigFacts {
    ConfigFacts {
        binary_exists: true,
        binary_mode: Ok(0o755),
        projects_exists: true,
        projects_is_dir: true,
        projects_readable: true,
    }
}

#[test]
fn test_get_project_dir() {
    let config = test_config("/home/user/.agent/projects");
    let project_dir = config.get_project_dir("/home/user/my-project");
    assert_eq!(project_dir, "/home/user/.agent/projects/_home_user_my-project");
}

#[test]
fn project_dir_flattens_backslashes_and_colons() {
    let config = test_config("/p");
    assert_eq!(config.get_project_dir("C:\\work\\x"), "/p/C__work_x");
    let config = test_config("/p/");
    assert_eq!(config.get_project_dir("/a/b"), "/p/_a_b");
}

#[test]
fn missing_binary_setting_is_refused() {
    let result = Config::from_settings(BinaryLookup::NotFound, None, None, None, None);
    let err = result.unwrap_err();
    assert!(
        err.contains("CLAUDE_BINARY_PATH not set and agent binary not found in PATH"),
        "Error was: {}",
        err
    );
}

#[test]
fn settings_then_validation() {
    let config = Config::from_settings(
        BinaryLookup::Given("/tmp/t/agent".to_string()),
        Some("127.0.0.1:8080".to_string()),
        Some("/tmp/t/projects".to_string()),
        None,
        None,
    )
    .unwrap();
    assert_eq!(config.http_listen_address, "127.0.0.1:8080");
    assert_eq!(config.shutdown_timeout, Duration::from_secs(30));
    assert!(config.validate(&all_good()).is_ok());
}

#[test]
fn path_search_finds_claude() {
    let candidates = vec![PathCandidate {
        path: candidate_path("/tmp/bin", "agent"),
        exists: true,
        mode: Ok(0o755),
    }];
    let result = find_claude_in_path(&candidates);
    assert!(result.is_ok());
    assert_eq!(result.unwrap(), "/tmp/bin/agent");
}

#[test]
fn path_search_without_claude() {
    let candidates = vec![PathCandidate {
        path: candidate_path("/tmp/empty", "agent"),
        exists: false,
        mode: Err("No such file or directory".to_string()),
    }];
    let result = find_claude_in_path(&candidates);
    assert!(result.is_err());
    assert!(result.unwrap_err().contains("not found in PATH"));
}

#[test]
fn find_claude_skips_files_that_cannot_run() {
    let candidates = vec![
        PathCandidate { path: "/a/agent".to_string(), exists: true, mode: Ok(0o644) },
        PathCandidate { path: "/b/agent".to_string(), exists: false, mode: Ok(0o755) },
        PathCandidate { path: "/c/agent".to_string(), exists: true, mode: Ok(0o100) },
        PathCandidate { path: "/d/agent".to_string(), exists: true, mode: Ok(0o755) },
    ];
    assert_eq!(find_claude_in_path(&candidates).unwrap(), "/c/agent");
}

#[test]
fn find_claude_stops_at_unreadable_permissions() {
    let candidates = vec![
        PathCandidate { path: "/a/agent".to_string(), exists: true, mode: Err("denied".to_string()) },
        PathCandidate { path: "/b/agent".to_string(), exists: true, mode: Ok(0o755) },
    ];
    assert_eq!(find_claude_in_path(&candidates).unwrap_err(), "denied");
}

#[test]
fn relative_binary_path_unresolved() {
    assert!(is_relative("./agent"));
    assert!(is_relative(""));
    assert!(!is_relative("/usr/bin/agent"));
    let err = Config::from_settings(BinaryLookup::Unresolved("./agent".to_string()), None, Some("/p".to_string()), None, None)
        .unwrap_err();
    assert_eq!(err, "Failed to resolve relative path: ./agent");
}

#[test]
fn binary_found_on_path() {
    let candidates = vec![PathCandidate { path: candidate_path("/tmp/pathdir", "agent"), exists: true, mode: Ok(0o755) }];
    let found = find_claude_in_path(&candidates).unwrap();
    let config = Config::from_settings(
        BinaryLookup::Found(found),
        Some("127.0.0.1:8080".to_string()),
        Some("/tmp/pathdir/projects".to_string()),
        None,
        None,
    )
    .unwrap();
    assert_eq!(config.claude_binary_path, "/tmp/pathdir/agent");
}

#[test]
fn settings_defaults() {
    let config = Config::from_settings(
        BinaryLookup::Given("/usr/bin/agent".to_string()),
        None,
        None,
        Some("/home/me/.agent".to_string()),
        None,
    )
    .unwrap();
    assert_eq!(config.http_listen_address, "127.0.0.1:3000");
    assert_eq!(config.claude_projects_dir, "/home/me/.agent/projects");
    assert_eq!(config.shutdown_timeout, Duration::from_secs(30));
}

#[test]
fn settings_shutdown_timeout() {
    let config = Config::from_settings(
        BinaryLookup::Given("/usr/bin/agent".to_string()),
        None,
        Some("/p".to_string()),
        None,
        Some("7".to_string()),
    )
    .unwrap();
    assert_eq!(config.shutdown_timeout, Duration::from_secs(7));
    let err = Config::from_settings(
        BinaryLookup::Given("/usr/bin/agent".to_string()),
        None,
        Some("/p".to_string()),
        None,
        Some("seven".to_string()),
    )
    .unwrap_err();
    assert_eq!(err, "Invalid SHUTDOWN_TIMEOUT value");
}

#[test]
fn parse_numbers() {
    assert_eq!(parse_u64("0"), Some(0));
    assert_eq!(parse_u64("42"), Some(42));
    assert_eq!(parse_u64("18446744073709551615"), Some(u64::MAX));
    assert_eq!(parse_u64("18446744073709551616"), None);
    assert_eq!(parse_u64(""), None);
    assert_eq!(parse_u64("-1"), None);
    assert_eq!(parse_u64("1a"), None);
    assert_eq!(parse_u64("+5"), Some(5));
    assert_eq!(parse_u64("+"), None);
    assert_eq!(parse_shutdown_timeout(&None), Ok(30));
    assert_eq!(parse_shutdown_timeout(&Some("5".to_string())), Ok(5));
    assert_eq!(parse_shutdown_timeout(&Some("x".to_string())), Err("Invalid SHUTDOWN_TIMEOUT value".to_string()));
}

#[test]
fn listen_and_projects_defaults() {
    assert_eq!(listen_address(None), "127.0.0.1:3000");
    assert_eq!(listen_address(Some("0.0.0.0:1".to_string())), "0.0.0.0:1");
    assert_eq!(projects_dir(None, &Some("/root/.agent".to_string())), "/root/.agent/projects");
    assert_eq!(projects_dir(Some("/x".to_string()), &None), "/x");
}

#[test]
fn validation_errors_in_order() {
    let config = test_config("/projects");
    let mut f = all_good();
    f.binary_exists = false;
    assert_eq!(config.validate(&f).unwrap_err(), "Agent binary not found at: /usr/bin/agent");
    let mut f = all_good();
    f.binary_mode = Err("denied".to_string());
    assert_eq!(config.validate(&f).unwrap_err(), "denied");
    let mut f = all_good();
    f.binary_mode = Ok(0o644);
    assert_eq!(config.validate(&f).unwrap_err(), "Agent binary is not executable: /usr/bin/agent");
    let mut f = all_good();
    f.projects_exists = false;
    assert_eq!(config.validate(&f).unwrap_err(), "Agent projects directory does not exist: /projects");
    let mut f = all_good();
    f.projects_is_dir = false;
    assert_eq!(config.validate(&f).unwrap_err(), "Agent projects directory is not a directory: /projects");
    let mut f = all_good();
    f.projects_readable = false;
    assert_eq!(config.validate(&f).unwrap_err(), "Cannot read agent projects directory: /projects");
}

#[test]
fn new_config_keeps_its_parts() {
    let config = Config::new("/b".to_string(), "h:1".to_string(), "/p".to_string(), 12);
    assert_eq!(config.shutdown_timeout, Duration::from_secs(12));
    let copy = config.duplicate();
    assert_eq!(copy.claude_binary_path, "/b");
    assert_eq!(copy.http_listen_address, "h:1");
    assert_eq!(copy.claude_projects_dir, "/p");
    assert_eq!(copy.shutdown_timeout, Duration::from_secs(12));
}
