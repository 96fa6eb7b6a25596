use releasepilot::commands::{check_init_write, config_file_within_target, plan_init, resolve_config_path, InitError, InitMode};
use releasepilot::config::toml_with_header;

#[test]
fn init_previews_unless_asked_to_write() {
    assert_eq!(plan_init(false, false, false, false, false), Ok(InitMode::Preview));
    assert_eq!(plan_init(true, false, true, true, true), Ok(InitMode::Preview));
    assert_eq!(plan_init(false, false, false, false, true), Ok(InitMode::Preview));
}

#[test]
fn dry_run_and_write_conflict() {
    assert_eq!(plan_init(true, true, false, false, false), Err(InitError::ConflictingFlags));
}

#[test]
fn write_refuses_to_overwrite_without_force_and_yes() {
    assert_eq!(plan_init(false, true, false, false, false), Ok(InitMode::Write));
    assert_eq!(plan_init(false, true, false, true, true), Err(InitError::AlreadyExists));
    assert_eq!(plan_init(false, true, true, false, true), Err(InitError::NeedsConfirmation));
    assert_eq!(plan_init(false, true, true, true, true), Ok(InitMode::Write));
}

#[test]
fn overwrite_check_alone() {
    assert_eq!(check_init_write(false, false, false), Ok(()));
    assert_eq!(check_init_write(true, false, true), Err(InitError::AlreadyExists));
    assert_eq!(check_init_write(true, true, false), Err(InitError::NeedsConfirmation));
}

#[test]
fn init_error_messages() {
    assert_eq!(
        InitError::ConflictingFlags.message(""),
        "--dry-run and --write cannot be used together."
    );
    assert_eq!(
        InitError::AlreadyExists.message(""),
        "releasepilot.toml already exists. Use --force to overwrite."
    );
    assert_eq!(
        InitError::NeedsConfirmation.message("\"/w/releasepilot.toml\""),
        "Refusing to overwrite \"/w/releasepilot.toml\" without --yes."
    );
}

#[test]
fn config_path_resolution() {
    assert_eq!(resolve_config_path("/work/app", None), "/work/app/releasepilot.toml");
    assert_eq!(resolve_config_path("/work/app/", Some("ci/rp.toml".to_string())), "/work/app/ci/rp.toml");
    assert_eq!(resolve_config_path("/work/app", Some("/etc/rp.toml".to_string())), "/etc/rp.toml");
}

#[test]
fn generated_config_starts_with_header() {
    let text = toml_with_header("[project]\nname = \"x\"\n");
    assert!(text.starts_with("# Generated by ReleasePilot"));
    assert!(text.ends_with("[project]\nname = \"x\"\n"));
    assert!(text.contains("Generated by ReleasePilot"));
}

#[test]
fn config_file_must_stay_inside_the_target() {
    assert_eq!(
        config_file_within_target("/work/app", "/work/app/releasepilot.toml", "/work/app/releasepilot.toml".to_string()).unwrap(),
        "/work/app/releasepilot.toml"
    );
    match config_file_within_target("/work/app", "/work/other.toml", "/work/app/../other.toml".to_string()) {
        Err(e) => assert_eq!(e.message(), "config file must stay inside target root /work/app: /work/other.toml"),
        Ok(p) => panic!("accepted {}", p),
    }
}
