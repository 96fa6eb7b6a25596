use releasepilot::checks::{
    git_summary, has_blockers, run_checks, CheckError, CheckResult, CheckStatus, GitObservation, Observations,
    Severity, VersionFileObservation,
};
use releasepilot::config::{ArtifactsConfig, ChecksConfig, Config, GitConfig, ProjectConfig};
use releasepilot::git::GitFailure;

fn rust_config(forbidden: Vec<&str>) -> Config {
    Config {
        project: ProjectConfig {
            name: "demo".to_string(),
            project_type: "rust".to_string(),
            version_files: vec!["Cargo.toml".to_string()],
        },
        git: GitConfig {
            main_branch: "main".to_string(),
            tag_prefix: "v".to_string(),
            require_clean_tree: true,
        },
        artifacts: ArtifactsConfig { required: vec!["target/release/demo".to_string()] },
        checks: ChecksConfig {
            required_files: vec!["README.md".to_string(), "LICENSE".to_string()],
            forbidden_strings: forbidden.into_iter().map(String::from).collect(),
        },
    }
}

fn repo(status: &str, branch: &str, tags: &str, count: Option<&str>) -> GitObservation {
    GitObservation {
        inside: Ok("true".to_string()),
        status: Ok(status.to_string()),
        branch: Ok(branch.to_string()),
        tags: Ok(tags.to_string()),
        commit_count: count.map(|c| Ok(c.to_string())),
    }
}

fn cargo(version: &str, extra: &str) -> VersionFileObservation {
    VersionFileObservation {
        exists: true,
        is_file: true,
        path: "/work/demo/Cargo.toml".to_string(),
        shown_path: "\"/work/demo/Cargo.toml\"".to_string(),
        content: Some(format!("[package]\nname = \"demo\"\nversion = \"{}\"\n{}", version, extra)),
    }
}

fn find<'a>(rs: &'a [CheckResult], name: &str) -> Vec<&'a CheckResult> {
    rs.iter().filter(|c| c.name == name).collect()
}

#[test]
fn a_ready_project() {
    let obs = Observations {
        git: repo("", "main", "v1.2.0\nv1.1.0\n", Some("3")),
        version_files: vec![cargo("1.3.0", "")],
        required_files_exist: vec![true, true],
        artifact_matches: vec![true],
        workflows: vec![],
    };
    let d = run_checks(&rust_config(vec!["localhost"]), &obs).unwrap();
    assert!(d.in_git_repo);
    assert!(d.is_git_clean);
    assert_eq!(d.current_branch, "main");
    assert_eq!(d.latest_tag.as_deref(), Some("v1.2.0"));
    assert_eq!(d.commits_since_tag, Some(3));
    assert_eq!(d.file_versions, vec![("Cargo.toml".to_string(), Some("1.3.0".to_string()))]);
    assert!(d.versions_consistent);
    assert!(d.versions_greater_than_tag);
    assert_eq!(d.git_error, None);
    assert!(!has_blockers(&d));
    assert!(d.check_results.iter().all(|c| c.status != CheckStatus::Fail));
    let names: Vec<&str> = d.check_results.iter().map(|c| c.name.as_str()).collect();
    assert_eq!(
        names,
        vec![
            "Git Working Tree Clean",
            "Git Branch",
            "Latest Git Tag",
            "Commits Since Tag",
            "Version Consistency",
            "Version Progress",
            "Required File (README.md)",
            "Required File (LICENSE)",
            "Required Artifact (target/release/demo)",
            "Forbidden String Scan",
            "GitHub Repository Secrets",
        ]
    );
    assert_eq!(find(&d.check_results, "Commits Since Tag")[0].message, "3 commit(s) since latest tag 'v1.2.0'.");
    assert_eq!(
        find(&d.check_results, "Version Progress")[0].message,
        "Current project version '1.3.0' is bumped past latest tag 'v1.2.0'."
    );
    assert_eq!(
        find(&d.check_results, "GitHub Repository Secrets")[0].message,
        "No workflow files found. Recommending 1 secret(s) based on project type 'rust'."
    );
}

#[test]
fn dirty_tree_missing_file_and_forbidden_string_block() {
    let obs = Observations {
        git: repo(" M src/lib.rs\n?? x\n", "dev", "v1.3.0\n", Some("0")),
        version_files: vec![cargo("1.3.0", "homepage = \"http://localhost:8080\"\n")],
        required_files_exist: vec![true, false],
        artifact_matches: vec![false],
        workflows: vec!["${{ secrets.CARGO_REGISTRY_TOKEN }}".to_string()],
    };
    let d = run_checks(&rust_config(vec!["localhost"]), &obs).unwrap();
    assert!(has_blockers(&d));
    assert!(!d.is_git_clean);
    assert_eq!(d.dirty_files, vec!["M src/lib.rs".to_string(), "?? x".to_string()]);
    let tree = find(&d.check_results, "Git Working Tree Clean");
    assert_eq!(tree[0].message, "Git working tree has 2 uncommitted change(s).");
    assert_eq!(tree[0].severity, Severity::Blocker);
    assert_eq!(find(&d.check_results, "Git Branch")[0].message, "On branch 'dev', expected 'main'.");
    assert_eq!(
        find(&d.check_results, "Commits Since Tag")[0].message,
        "No commits since latest tag 'v1.3.0'. Version is already tagged."
    );
    assert!(d.versions_greater_than_tag);
    assert!(find(&d.check_results, "Version Progress").is_empty());
    assert_eq!(find(&d.check_results, "Required File (LICENSE)")[0].severity, Severity::Blocker);
    assert_eq!(
        find(&d.check_results, "Required Artifact (target/release/demo)")[0].message,
        "Artifact glob 'target/release/demo' did not match any files."
    );
    assert_eq!(d.forbidden_strings_results.len(), 1);
    assert_eq!(d.forbidden_strings_results[0].file_path, "Cargo.toml");
    assert_eq!(d.forbidden_strings_results[0].matches, vec![(4, "localhost".to_string())]);
    assert_eq!(
        find(&d.check_results, "Forbidden String Scan")[0].message,
        "Forbidden string 'localhost' found in Cargo.toml at line 4."
    );
    assert_eq!(d.secrets_info.found_in_workflows, vec!["CARGO_REGISTRY_TOKEN".to_string()]);
    assert_eq!(
        find(&d.check_results, "GitHub Repository Secrets")[0].message,
        "Detected 1 secret(s) referenced in GitHub Actions workflows."
    );
}

#[test]
fn older_version_than_tag_warns() {
    let obs = Observations {
        git: repo("", "main", "v2.0.0\n", Some("5")),
        version_files: vec![cargo("1.9.9", "")],
        required_files_exist: vec![true, true],
        artifact_matches: vec![true],
        workflows: vec![],
    };
    let d = run_checks(&rust_config(vec![]), &obs).unwrap();
    let p = find(&d.check_results, "Version Progress");
    assert_eq!(p[0].message, "Current project version '1.9.9' is older than latest tag 'v2.0.0'.");
    assert_eq!(p[0].severity, Severity::Warning);
    assert!(find(&d.check_results, "Forbidden String Scan").is_empty());
}

#[test]
fn equal_version_with_new_commits_asks_for_a_bump() {
    let obs = Observations {
        git: repo("", "main", "v1.0.0\n", Some("2")),
        version_files: vec![cargo("1.0.0", "")],
        required_files_exist: vec![true, true],
        artifact_matches: vec![true],
        workflows: vec![],
    };
    let d = run_checks(&rust_config(vec![]), &obs).unwrap();
    assert!(!d.versions_greater_than_tag);
    assert_eq!(
        find(&d.check_results, "Version Progress")[0].message,
        "Current project version '1.0.0' equals the latest tag 'v1.0.0', but commits exist since the tag. Bump the version."
    );
}

#[test]
fn mismatched_versions_are_reported() {
    let mut config = rust_config(vec![]);
    config.project.version_files = vec!["Cargo.toml".to_string(), "package.json".to_string()];
    let obs = Observations {
        git: repo("", "main", "", None),
        version_files: vec![
            cargo("1.0.0", ""),
            VersionFileObservation {
                exists: true,
                is_file: true,
                path: "/work/demo/package.json".to_string(),
                shown_path: "\"/work/demo/package.json\"".to_string(),
                content: Some("{\"version\":\"1.0.1\"}".to_string()),
            },
        ],
        required_files_exist: vec![true, true],
        artifact_matches: vec![true],
        workflows: vec![],
    };
    let d = run_checks(&config, &obs).unwrap();
    assert!(!d.versions_consistent);
    assert_eq!(
        find(&d.check_results, "Version Consistency")[0].message,
        "Mismatched versions: 'Cargo.toml' has '1.0.0' vs 'package.json' has '1.0.1'"
    );
    assert_eq!(find(&d.check_results, "Latest Git Tag")[0].message, "No tags starting with prefix 'v' found.");
    assert_eq!(d.latest_tag, None);
}

#[test]
fn missing_and_broken_version_files_warn() {
    let mut config = rust_config(vec![]);
    config.project.version_files = vec!["Cargo.toml".to_string(), "package.json".to_string()];
    let obs = Observations {
        git: repo("", "main", "", None),
        version_files: vec![
            VersionFileObservation {
                exists: false,
                is_file: false,
                path: "/work/demo/Cargo.toml".to_string(),
                shown_path: "\"/work/demo/Cargo.toml\"".to_string(),
                content: None,
            },
            VersionFileObservation {
                exists: true,
                is_file: true,
                path: "/work/demo/package.json".to_string(),
                shown_path: "\"/work/demo/package.json\"".to_string(),
                content: Some("{".to_string()),
            },
        ],
        required_files_exist: vec![true, true],
        artifact_matches: vec![true],
        workflows: vec![],
    };
    let d = run_checks(&config, &obs).unwrap();
    assert_eq!(
        find(&d.check_results, "Version File Presence (Cargo.toml)")[0].message,
        "Configured version file 'Cargo.toml' does not exist."
    );
    assert_eq!(
        find(&d.check_results, "Version Extraction (package.json)")[0].message,
        "Error reading version: Failed to parse JSON file \"/work/demo/package.json\""
    );
    assert!(d.file_versions.is_empty());
}

#[test]
fn outside_a_repository_skips_git_checks() {
    let obs = Observations {
        git: GitObservation {
            inside: Err(GitFailure::NotARepository),
            status: Err(GitFailure::NotARepository),
            branch: Err(GitFailure::NotARepository),
            tags: Err(GitFailure::NotARepository),
            commit_count: None,
        },
        version_files: vec![cargo("0.1.0", "")],
        required_files_exist: vec![true, true],
        artifact_matches: vec![true],
        workflows: vec![],
    };
    let config = rust_config(vec![]);
    let d = run_checks(&config, &obs).unwrap();
    assert!(!d.in_git_repo);
    assert_eq!(d.git_error, None);
    let r = find(&d.check_results, "Git Repository");
    assert_eq!(r[0].message, "Not inside a Git repository. Git state checks skipped.");
    assert_eq!(r[0].severity, Severity::Warning);
    assert!(!has_blockers(&d));
}

#[test]
fn git_failure_blocks() {
    let g = GitObservation {
        inside: Err(GitFailure::NotInstalled),
        status: Err(GitFailure::NotInstalled),
        branch: Err(GitFailure::NotInstalled),
        tags: Err(GitFailure::NotInstalled),
        commit_count: None,
    };
    let s = git_summary(&rust_config(vec![]), &g);
    assert!(!s.in_repo);
    assert_eq!(s.error.as_deref(), Some("Failed to execute git process. Is git installed and in PATH?"));
    assert_eq!(s.checks[0].message, "Git command failed while inspecting target.");
    assert_eq!(s.checks[0].severity, Severity::Blocker);
}

#[test]
fn a_version_file_listed_twice_has_one_entry() {
    let mut config = rust_config(vec![]);
    config.project.version_files = vec!["Cargo.toml".to_string(), "Cargo.toml".to_string()];
    let obs = Observations {
        git: repo("", "main", "", None),
        version_files: vec![cargo("0.2.0", ""), cargo("0.2.0", "")],
        required_files_exist: vec![true, true],
        artifact_matches: vec![true],
        workflows: vec![],
    };
    let d = run_checks(&config, &obs).unwrap();
    assert_eq!(d.file_versions, vec![("Cargo.toml".to_string(), Some("0.2.0".to_string()))]);
    assert!(d.versions_consistent);
    assert_eq!(
        find(&d.check_results, "Version Consistency")[0].message,
        "All version files are consistent at version '0.2.0'."
    );
}

#[test]
fn missing_observations_count_as_absent() {
    let obs = Observations {
        git: repo("", "main", "", None),
        version_files: vec![],
        required_files_exist: vec![],
        artifact_matches: vec![],
        workflows: vec![],
    };
    let d = run_checks(&rust_config(vec![]), &obs).unwrap();
    assert_eq!(d.required_files_status, vec![("README.md".to_string(), false), ("LICENSE".to_string(), false)]);
    assert_eq!(d.artifacts_status, vec![("target/release/demo".to_string(), false)]);
    assert!(has_blockers(&d));
}

fn empty_observations() -> Observations {
    Observations {
        git: repo("", "main", "", None),
        version_files: vec![],
        required_files_exist: vec![],
        artifact_matches: vec![],
        workflows: vec![],
    }
}

fn unsafe_path_message(r: Result<releasepilot::checks::ReportData, CheckError>) -> String {
    match r {
        Err(CheckError::UnsafePath(e)) => e.message(),
        Err(other) => panic!("unexpected error {:?}", other),
        Ok(_) => panic!("an unsafe configured path was accepted"),
    }
}

#[test]
fn escaping_version_file_stops_the_run() {
    let mut config = rust_config(vec![]);
    config.project.version_files = vec!["../Cargo.toml".to_string()];
    assert_eq!(
        unsafe_path_message(run_checks(&config, &empty_observations())),
        "version file cannot contain absolute or parent-directory segments: ../Cargo.toml"
    );
}

#[test]
fn absolute_required_file_stops_the_run() {
    let mut config = rust_config(vec![]);
    config.checks.required_files = vec!["README.md".to_string(), "/etc/passwd".to_string()];
    assert_eq!(
        unsafe_path_message(run_checks(&config, &empty_observations())),
        "required file must be relative and stay inside the target: /etc/passwd"
    );
}

#[test]
fn escaping_artifact_pattern_stops_the_run() {
    let mut config = rust_config(vec![]);
    config.artifacts.required = vec!["../dist/*.zip".to_string()];
    assert_eq!(
        unsafe_path_message(run_checks(&config, &empty_observations())),
        "artifact pattern cannot contain absolute or parent-directory segments: ../dist/*.zip"
    );
}

#[test]
fn version_files_are_reported_before_other_unsafe_paths() {
    let mut config = rust_config(vec![]);
    config.project.version_files = vec!["C:\\secrets\\.env".to_string()];
    config.checks.required_files = vec!["../LICENSE".to_string()];
    assert_eq!(
        unsafe_path_message(run_checks(&config, &empty_observations())),
        "version file must be relative and stay inside the target: C:\\secrets\\.env"
    );
}

#[test]
fn a_failing_git_query_inside_a_repository_is_recorded() {
    let mut obs = empty_observations();
    obs.git.branch = Err(GitFailure::CommandFailed(
        "fatal: ambiguous argument 'HEAD': unknown revision".to_string(),
    ));
    let d = run_checks(&rust_config(vec![]), &obs).unwrap();
    assert!(d.in_git_repo);
    assert_eq!(
        d.git_error.as_deref(),
        Some("Git execution failed: fatal: ambiguous argument 'HEAD': unknown revision")
    );
    assert!(find(&d.check_results, "Git Branch").is_empty());
    assert!(find(&d.check_results, "Git Repository").is_empty());
    let text = releasepilot::report::render_text(&d);
    assert!(text.contains("Git Error:       Git execution failed: fatal: ambiguous argument 'HEAD'"));
}

#[test]
fn the_first_failing_git_query_is_the_one_recorded() {
    let mut obs = empty_observations();
    obs.git.status = Err(GitFailure::DubiousOwnership);
    obs.git.tags = Err(GitFailure::NotInstalled);
    let d = run_checks(&rust_config(vec![]), &obs).unwrap();
    assert_eq!(
        d.git_error.as_deref(),
        Some("Git refused to inspect the target because of dubious ownership. Mark it safe with `git config --global --add safe.directory <path>`.")
    );
}

#[test]
fn a_failing_commit_count_is_recorded() {
    let mut obs = empty_observations();
    obs.git.tags = Ok("v1.0.0\n".to_string());
    obs.git.commit_count = Some(Err(GitFailure::CommandFailed("fatal: bad revision".to_string())));
    let d = run_checks(&rust_config(vec![]), &obs).unwrap();
    assert_eq!(d.git_error.as_deref(), Some("Git execution failed: fatal: bad revision"));
    assert_eq!(d.commits_since_tag, None);
}
