use releasepilot::checks::{has_blockers, CheckResult, CheckStatus, FileForbiddenStrings, ReportData, Severity};
use releasepilot::report::{failure_summary, recommended_actions, render_markdown, render_text};
use releasepilot::secrets::SecretsCheck;

fn report_with_warning() -> ReportData {
    ReportData {
        project_name: "fixture".to_string(),
        project_type: "rust".to_string(),
        in_git_repo: true,
        git_error: None,
        is_git_clean: true,
        dirty_files: vec![],
        current_branch: "main".to_string(),
        expected_branch: "main".to_string(),
        latest_tag: None,
        commits_since_tag: None,
        file_versions: vec![],
        versions_consistent: true,
        versions_greater_than_tag: true,
        required_files_status: vec![],
        artifacts_status: vec![],
        forbidden_strings_results: vec![],
        secrets_info: SecretsCheck { found_in_workflows: vec![], recommended_secrets: vec![] },
        check_results: vec![CheckResult {
            name: "Latest Git Tag".to_string(),
            status: CheckStatus::Fail,
            message: "No tags starting with prefix 'v' found.".to_string(),
            severity: Severity::Warning,
        }],
    }
}

fn report_with_blocker() -> ReportData {
    let mut report = report_with_warning();
    report.check_results = vec![CheckResult {
        name: "Git Repository".to_string(),
        status: CheckStatus::Fail,
        message: "Git command failed while inspecting target.".to_string(),
        severity: Severity::Blocker,
    }];
    report
}

fn report_all_passing() -> ReportData {
    let mut report = report_with_warning();
    report.check_results = vec![CheckResult {
        name: "Git Branch".to_string(),
        status: CheckStatus::Pass,
        message: "On the configured main branch 'main'.".to_string(),
        severity: Severity::Info,
    }];
    report
}

#[test]
fn warning_report_does_not_claim_everything_ready() {
    let md = render_markdown(&report_with_warning());
    assert!(!md.contains("Everything is ready! Tag and publish your release."));
    assert!(md.contains("Review warnings before tagging or publishing this release."));
}

#[test]
fn blocker_report_does_not_claim_everything_ready() {
    let md = render_markdown(&report_with_blocker());
    assert!(!md.contains("Everything is ready! Tag and publish your release."));
    assert!(md.contains("Resolve all blockers before tagging or publishing this release."));
}

#[test]
fn passing_report_claims_everything_ready() {
    let md = render_markdown(&report_all_passing());
    assert!(md.contains("Everything is ready! Tag and publish your release."));
    assert!(!md.contains("Resolve all blockers"));
    assert!(!md.contains("Review warnings before tagging"));
}

#[test]
fn text_report_headline_follows_failures() {
    let ready = render_text(&report_all_passing());
    let warned = render_text(&report_with_warning());
    let blocked = render_text(&report_with_blocker());
    assert!(ready.contains("Everything is ready! Tag and publish your release."));
    assert!(!warned.contains("Everything is ready! Tag and publish your release."));
    assert!(!blocked.contains("Everything is ready! Tag and publish your release."));
    assert!(warned.contains("WARNINGS PENDING"));
    assert!(blocked.contains("Resolve all blockers before tagging or publishing this release."));
}

#[test]
fn reports_name_the_project() {
    let md = render_markdown(&report_with_warning());
    let txt = render_text(&report_with_warning());
    assert!(md.contains("fixture"));
    assert!(txt.contains("fixture"));
    assert!(md.contains("No tags starting with prefix 'v' found."));
    assert!(txt.contains("No tags starting with prefix 'v' found."));
}

#[test]
fn failure_summary_counts_by_severity() {
    let mut rs = report_with_warning().check_results;
    rs.extend(report_with_blocker().check_results);
    rs.extend(report_all_passing().check_results);
    assert_eq!(failure_summary(&rs, true), (true, 1));
    assert_eq!(failure_summary(&rs, false), (true, 1));
    assert_eq!(failure_summary(&report_all_passing().check_results, true), (false, 0));
}

#[test]
fn has_blockers_only_for_failed_blockers() {
    assert!(has_blockers(&report_with_blocker()));
    assert!(!has_blockers(&report_with_warning()));
    assert!(!has_blockers(&report_all_passing()));
    let mut passed_blocker = report_with_blocker();
    passed_blocker.check_results[0].status = CheckStatus::Pass;
    assert!(!has_blockers(&passed_blocker));
}

#[test]
fn recommended_actions_mention_ready_only_without_failures() {
    let ready = recommended_actions(&report_all_passing(), true);
    assert!(ready.iter().any(|a| a.contains("Everything is ready! Tag and publish your release.")));
    let warned = recommended_actions(&report_with_warning(), false);
    assert!(!warned.iter().any(|a| a.contains("Everything is ready!")));
    assert!(warned.iter().any(|a| a.contains("Review warnings before tagging or publishing this release.")));
}

#[test]
fn markdown_lists_forbidden_string_hits() {
    let mut d = report_with_warning();
    d.forbidden_strings_results = vec![FileForbiddenStrings {
        file_path: "package.json".to_string(),
        matches: vec![(3, "localhost".to_string())],
    }];
    let md = render_markdown(&d);
    assert!(md.contains("localhost"));
    assert!(md.contains("package.json"));
}

#[test]
fn both_reports_recommend_the_same_actions() {
    let mut d = report_with_warning();
    d.in_git_repo = true;
    d.current_branch = "dev".to_string();
    d.is_git_clean = false;
    d.required_files_status = vec![("LICENSE".to_string(), false), ("README.md".to_string(), true)];
    d.artifacts_status = vec![("dist/*.zip".to_string(), false)];
    let txt = render_text(&d);
    let md = render_markdown(&d);
    let t: Vec<String> = txt.lines().filter_map(|l| l.strip_prefix("  \u{2192} ")).map(String::from).collect();
    let m: Vec<String> = md
        .lines()
        .filter_map(|l| l.strip_prefix("1. "))
        .map(|s| s.replace('`', "'"))
        .collect();
    assert_eq!(t.len(), 4);
    assert_eq!(t, m);
    assert_eq!(t[1], "Switch to the configured main branch 'main'.");
    assert_eq!(t[2], "Create the missing required file 'LICENSE'.");
}
