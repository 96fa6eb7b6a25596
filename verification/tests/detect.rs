use releasepilot::commands::init_config_for_target;
use releasepilot::path_safety::validate_config;
use releasepilot::detect::{default_config_for, detect_project_type, marker_paths, ProjectType};

fn present(paths: &[&str]) -> Vec<String> {
    paths.iter().map(|p| p.to_string()).collect()
}

#[test]
fn detects_each_project_type() {
    assert_eq!(detect_project_type(&present(&["src-tauri/tauri.conf.json", "package.json"])), ProjectType::Tauri);
    assert_eq!(detect_project_type(&present(&["settings.gradle.kts", "app/build.gradle.kts"])), ProjectType::Android);
    assert_eq!(detect_project_type(&present(&["go.mod", "Cargo.toml"])), ProjectType::Go);
    assert_eq!(detect_project_type(&present(&["Cargo.toml", "src/main.rs"])), ProjectType::Rust);
    assert_eq!(detect_project_type(&present(&["package.json", "vite.config.mjs"])), ProjectType::NodeVite);
}

#[test]
fn incomplete_markers_are_unknown() {
    assert_eq!(detect_project_type(&present(&[])), ProjectType::Unknown);
    assert_eq!(detect_project_type(&present(&["Cargo.toml"])), ProjectType::Unknown);
    assert_eq!(detect_project_type(&present(&["build.gradle"])), ProjectType::Unknown);
    assert_eq!(detect_project_type(&present(&["package.json"])), ProjectType::Unknown);
}

#[test]
fn marker_list_covers_detection() {
    let m = marker_paths();
    assert_eq!(m.len(), 18);
    assert!(m.contains(&"src-tauri/tauri.conf.json".to_string()));
    assert!(m.contains(&"vite.config.cjs".to_string()));
    assert_eq!(detect_project_type(&m), ProjectType::Tauri);
}

#[test]
fn type_names_round_trip() {
    for t in [ProjectType::Tauri, ProjectType::Android, ProjectType::Go, ProjectType::Rust, ProjectType::NodeVite, ProjectType::Unknown] {
        assert_eq!(ProjectType::from_str(t.as_str()), t);
    }
    assert_eq!(ProjectType::NodeVite.as_str(), "node-vite");
    assert_eq!(ProjectType::from_str("python"), ProjectType::Unknown);
}

#[test]
fn tauri_defaults() {
    let c = default_config_for(ProjectType::Tauri, "desk".to_string(), false, false);
    assert_eq!(c.project.name, "desk");
    assert_eq!(c.project.project_type, "tauri");
    assert_eq!(c.project.version_files, vec!["package.json", "src-tauri/Cargo.toml", "src-tauri/tauri.conf.json"]);
    assert_eq!(c.checks.forbidden_strings, vec!["localhost", "/main/update.json"]);
    assert_eq!(c.checks.required_files, vec!["README.md", "LICENSE", "releasepilot.toml"]);
    assert_eq!(
        c.artifacts.required,
        vec!["src-tauri/target/release/bundle/msi/*.msi", "src-tauri/target/release/bundle/dmg/*.dmg"]
    );
    assert_eq!(c.git.main_branch, "main");
    assert_eq!(c.git.tag_prefix, "v");
    assert!(c.git.require_clean_tree);
}

#[test]
fn android_defaults_follow_app_gradle() {
    let kts = default_config_for(ProjectType::Android, "a".to_string(), true, true);
    assert_eq!(kts.project.version_files, vec!["app/build.gradle.kts"]);
    let groovy = default_config_for(ProjectType::Android, "a".to_string(), false, true);
    assert_eq!(groovy.project.version_files, vec!["app/build.gradle"]);
    let neither = default_config_for(ProjectType::Android, "a".to_string(), false, false);
    assert_eq!(neither.project.version_files, vec!["app/build.gradle.kts"]);
    assert_eq!(neither.checks.required_files, vec!["README.md", "LICENSE", "CONTRIBUTORS.md", "releasepilot.toml"]);
    assert_eq!(neither.artifacts.required, vec!["app/build/outputs/apk/release/*.apk"]);
    assert_eq!(neither.checks.forbidden_strings, vec!["localhost"]);
}

#[test]
fn other_defaults() {
    let go = default_config_for(ProjectType::Go, "g".to_string(), false, false);
    assert_eq!(go.project.version_files, vec!["go.mod"]);
    assert!(go.checks.forbidden_strings.is_empty());
    let unknown = default_config_for(ProjectType::Unknown, "u".to_string(), false, false);
    assert!(unknown.project.version_files.is_empty());
    assert_eq!(unknown.project.project_type, "unknown");
    let node = default_config_for(ProjectType::NodeVite, "n".to_string(), false, false);
    assert_eq!(node.project.version_files, vec!["package.json"]);
    assert_eq!(node.checks.forbidden_strings, vec!["localhost"]);
}

#[test]
fn init_config_is_named_after_the_target() {
    let c = init_config_for_target("/work/my-app", ProjectType::Rust, false, false);
    assert_eq!(c.project.name, "my-app");
    assert_eq!(c.project.version_files, vec!["Cargo.toml"]);
    let root = init_config_for_target("/", ProjectType::Rust, false, false);
    assert_eq!(root.project.name, "ReleasePilotProject");
}

#[test]
fn every_default_config_passes_path_validation() {
    for t in [ProjectType::Tauri, ProjectType::Android, ProjectType::Go, ProjectType::Rust, ProjectType::NodeVite, ProjectType::Unknown] {
        for (kts, groovy) in [(false, false), (true, false), (false, true), (true, true)] {
            assert!(validate_config(&default_config_for(t, "p".to_string(), kts, groovy)).is_ok());
        }
    }
}
