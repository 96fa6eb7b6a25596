use releasepilot::config::{ArtifactsConfig, ChecksConfig, Config, GitConfig, ProjectConfig};
use releasepilot::path_safety::{
    ensure_path_within_root, file_name_of, safe_join, validate_config, validate_config_path,
    PathSafetyError,
};

#[test]
fn rejects_parent_escape() {
    assert!(validate_config_path("../Cargo.toml", "version file").is_err());
}

#[test]
fn rejects_absolute_path() {
    assert!(validate_config_path("C:\\secrets\\.env", "version file").is_err());
}

#[test]
fn allows_relative_glob() {
    assert!(validate_config_path("target/release/*.exe", "artifact pattern").is_ok());
}

#[test]
fn absolute_unix_path_is_not_relative() {
    match validate_config_path("/etc/passwd", "version file") {
        Err(e) => {
            assert!(matches!(e, PathSafetyError::NotRelative { .. }));
            assert_eq!(
                e.message(),
                "version file must be relative and stay inside the target: /etc/passwd"
            );
        }
        Ok(()) => panic!("an absolute path was accepted"),
    }
}

#[test]
fn parent_segment_is_escaping() {
    match validate_config_path("a/../../b", "required file") {
        Err(e) => {
            assert!(matches!(e, PathSafetyError::EscapingSegment { .. }));
            assert_eq!(
                e.message(),
                "required file cannot contain absolute or parent-directory segments: a/../../b"
            );
        }
        Ok(()) => panic!("a parent segment was accepted"),
    }
}

#[test]
fn drive_relative_path_is_escaping() {
    assert!(validate_config_path("C:foo", "version file").is_err());
}

#[test]
fn dot_segments_and_plain_names_are_accepted() {
    assert!(validate_config_path("./src/main.rs", "version file").is_ok());
    assert!(validate_config_path("package.json", "version file").is_ok());
    assert!(validate_config_path("a..b/c", "version file").is_ok());
}

#[test]
fn safe_join_inserts_one_separator() {
    assert_eq!(safe_join("/work/app", "Cargo.toml", "version file").unwrap(), "/work/app/Cargo.toml");
    assert_eq!(safe_join("/work/app/", "Cargo.toml", "version file").unwrap(), "/work/app/Cargo.toml");
    assert_eq!(safe_join("", "Cargo.toml", "version file").unwrap(), "Cargo.toml");
}

#[test]
fn safe_join_refuses_escape() {
    assert!(safe_join("/work/app", "../x", "version file").is_err());
}

#[test]
fn path_within_root_is_accepted() {
    assert!(ensure_path_within_root("/work/app", "/work/app/releasepilot.toml", "config file").is_ok());
    assert!(ensure_path_within_root("/work/app", "/work/app", "config file").is_ok());
}

#[test]
fn sibling_prefix_is_outside_root() {
    match ensure_path_within_root("/work/app", "/work/application/x.toml", "config file") {
        Err(e) => {
            assert!(matches!(e, PathSafetyError::OutsideRoot { .. }));
            assert_eq!(
                e.message(),
                "config file must stay inside target root /work/app: /work/application/x.toml"
            );
        }
        Ok(()) => panic!("a sibling directory was accepted"),
    }
}

#[test]
fn parent_directory_is_outside_root() {
    assert!(ensure_path_within_root("/work/app", "/work", "config file").is_err());
}

#[test]
fn file_name_is_last_component() {
    assert_eq!(file_name_of("/work/my-app"), Some("my-app".to_string()));
    assert_eq!(file_name_of("/work/my-app/"), Some("my-app".to_string()));
    assert_eq!(file_name_of("/"), None);
    assert_eq!(file_name_of("/work/.."), None);
}

fn config_with(version_files: Vec<&str>, required: Vec<&str>, artifacts: Vec<&str>) -> Config {
    Config {
        project: ProjectConfig {
            name: "demo".to_string(),
            project_type: "rust".to_string(),
            version_files: version_files.into_iter().map(String::from).collect(),
        },
        git: GitConfig {
            main_branch: "main".to_string(),
            tag_prefix: "v".to_string(),
            require_clean_tree: true,
        },
        artifacts: ArtifactsConfig { required: artifacts.into_iter().map(String::from).collect() },
        checks: ChecksConfig {
            required_files: required.into_iter().map(String::from).collect(),
            forbidden_strings: vec![],
        },
    }
}

#[test]
fn validate_config_accepts_relative_paths() {
    let c = config_with(vec!["Cargo.toml"], vec!["README.md"], vec!["target/release/*.exe"]);
    assert!(validate_config(&c).is_ok());
}

#[test]
fn validate_config_reports_the_first_bad_entry() {
    let c = config_with(vec!["Cargo.toml"], vec!["../LICENSE"], vec!["/tmp/*.exe"]);
    match validate_config(&c) {
        Err(e) => assert_eq!(
            e.message(),
            "required file cannot contain absolute or parent-directory segments: ../LICENSE"
        ),
        Ok(()) => panic!("an escaping required file was accepted"),
    }
    let c = config_with(vec!["Cargo.toml"], vec![], vec!["/tmp/*.exe"]);
    match validate_config(&c) {
        Err(e) => assert_eq!(
            e.message(),
            "artifact pattern must be relative and stay inside the target: /tmp/*.exe"
        ),
        Ok(()) => panic!("an absolute artifact pattern was accepted"),
    }
}
