use releasepilot::version::{
    extract_version_from_file, first_group_exec, settle_version, version_source_of, VersionError, VersionSource,
};

fn read(path: &str, text: &str) -> Result<Option<String>, VersionError> {
    extract_version_from_file(path, true, &Some(text.to_string()))
}

#[test]
fn parses_bom_prefixed_package_json() {
    let version = read("/tmp/releasepilot-bom-package/package.json", "\u{feff}{\"version\":\"1.2.3\"}\n").unwrap();
    assert_eq!(version.as_deref(), Some("1.2.3"));
}

#[test]
fn package_json_without_version_has_none() {
    assert_eq!(read("app/package.json", "{\"name\":\"demo\"}").unwrap(), None);
}

#[test]
fn update_json_reads_top_level_version() {
    assert_eq!(read("update.json", "{\"version\":\"0.4.0\",\"notes\":\"x\"}").unwrap().as_deref(), Some("0.4.0"));
}

#[test]
fn package_json_with_numeric_version_has_none() {
    assert_eq!(read("package.json", "{\"version\":3}").unwrap(), None);
}

#[test]
fn broken_package_json_is_invalid_json() {
    assert_eq!(read("package.json", "{\"version\":").unwrap_err(), VersionError::InvalidJson);
}

#[test]
fn tauri_v2_reads_top_level_version() {
    let text = "{\"version\":\"2.0.1\",\"package\":{\"version\":\"1.0.0\"}}";
    assert_eq!(read("src-tauri/tauri.conf.json", text).unwrap().as_deref(), Some("2.0.1"));
}

#[test]
fn tauri_v1_falls_back_to_package_version() {
    let text = "{\"package\":{\"productName\":\"demo\",\"version\":\"1.4.2\"}}";
    assert_eq!(read("src-tauri/tauri.conf.json", text).unwrap().as_deref(), Some("1.4.2"));
}

#[test]
fn broken_tauri_config_is_refused() {
    assert_eq!(read("tauri.conf.json", "not json").unwrap_err(), VersionError::InvalidTauriConfig);
}

#[test]
fn cargo_manifest_reads_package_version() {
    let text = "[package]\nname = \"demo\"\nversion = \"0.3.7\"\n\n[dependencies]\nserde = \"1\"\n";
    assert_eq!(read("Cargo.toml", text).unwrap().as_deref(), Some("0.3.7"));
}

#[test]
fn cargo_workspace_manifest_has_none() {
    assert_eq!(read("Cargo.toml", "[workspace]\nmembers = [\"a\"]\n").unwrap(), None);
}

#[test]
fn broken_cargo_manifest_is_refused() {
    assert_eq!(read("Cargo.toml", "[package\nversion=").unwrap_err(), VersionError::InvalidCargoManifest);
}

#[test]
fn go_module_has_no_version() {
    assert_eq!(read("go.mod", "module example.com/demo\n\ngo 1.22\n").unwrap(), None);
}

#[test]
fn gradle_prefers_version_name() {
    let text = "android {\n  defaultConfig {\n    versionCode 7\n    versionName = \"3.1.0\"\n  }\n}\nversion = '9.9.9'\n";
    assert_eq!(read("app/build.gradle", text).unwrap().as_deref(), Some("3.1.0"));
}

#[test]
fn gradle_falls_back_to_version() {
    let text = "plugins { id(\"java\") }\nversion = '1.0.5'\n";
    assert_eq!(read("build.gradle.kts", text).unwrap().as_deref(), Some("1.0.5"));
}

#[test]
fn gradle_without_assignment_has_none() {
    assert_eq!(read("app/build.gradle.kts", "android { }\n").unwrap(), None);
}

#[test]
fn unsupported_file_has_none() {
    assert_eq!(read("VERSION", "1.0.0\n").unwrap(), None);
}

#[test]
fn missing_file_is_reported_first() {
    assert_eq!(
        extract_version_from_file("package.json", false, &None).unwrap_err(),
        VersionError::MissingFile
    );
}

#[test]
fn unreadable_file_is_reported() {
    assert_eq!(
        extract_version_from_file("package.json", true, &None).unwrap_err(),
        VersionError::Unreadable
    );
}

#[test]
fn path_without_file_name_is_invalid() {
    assert_eq!(
        extract_version_from_file("/", true, &Some(String::new())).unwrap_err(),
        VersionError::InvalidFileName
    );
}

#[test]
fn version_error_messages() {
    assert_eq!(VersionError::MissingFile.message("\"a/package.json\""), "File does not exist: \"a/package.json\"");
    assert_eq!(VersionError::InvalidJson.message("\"p\""), "Failed to parse JSON file \"p\"");
    assert_eq!(VersionError::InvalidCargoManifest.message("\"C\""), "Failed to parse Cargo.toml \"C\"");
    assert_eq!(VersionError::InvalidFileName.message("\"/\""), "Invalid filename: \"/\"");
    assert_eq!(VersionError::Unreadable.message("\"x\""), "Failed to read file: \"x\"");
    assert_eq!(VersionError::InvalidTauriConfig.message("\"t\""), "Failed to parse Tauri config \"t\"");
}

#[test]
fn sources_by_file_name() {
    assert_eq!(version_source_of("package.json"), VersionSource::PackageJson);
    assert_eq!(version_source_of("update.json"), VersionSource::PackageJson);
    assert_eq!(version_source_of("tauri.conf.json"), VersionSource::TauriConfig);
    assert_eq!(version_source_of("Cargo.toml"), VersionSource::CargoManifest);
    assert_eq!(version_source_of("go.mod"), VersionSource::GoModule);
    assert_eq!(version_source_of("build.gradle.kts"), VersionSource::Gradle);
    assert_eq!(version_source_of("README.md"), VersionSource::Unsupported);
}

#[test]
fn settling_uses_fallback_only_when_primary_is_empty() {
    assert_eq!(
        settle_version(VersionSource::TauriConfig, Some(None), Some(Some("1.0.0".to_string()))).unwrap().as_deref(),
        Some("1.0.0")
    );
    assert_eq!(
        settle_version(VersionSource::TauriConfig, Some(Some("2.0.0".to_string())), None).unwrap().as_deref(),
        Some("2.0.0")
    );
    assert_eq!(settle_version(VersionSource::Gradle, None, None).unwrap_err(), VersionError::InvalidPattern);
    assert_eq!(settle_version(VersionSource::PackageJson, Some(None), Some(Some("x".to_string()))).unwrap(), None);
    assert_eq!(settle_version(VersionSource::GoModule, None, None).unwrap(), None);
}

#[test]
fn first_group_of_captures() {
    assert_eq!(first_group_exec(None), None);
    assert_eq!(first_group_exec(Some(vec![])), Some(None));
    assert_eq!(
        first_group_exec(Some(vec![Some("1.0".to_string()), Some("2.0".to_string())])),
        Some(Some("1.0".to_string()))
    );
    assert_eq!(first_group_exec(Some(vec![None])), Some(None));
}
