use releasepilot::secrets::{check_github_secrets, is_workflow_file, recommended_secrets_for};

#[test]
fn secrets_are_sorted_deduplicated_and_skip_the_builtin_token() {
    let workflows = vec![
        "env:\n  A: ${{ secrets.NPM_TOKEN }}\n  B: ${{ secrets.GITHUB_TOKEN }}\n".to_string(),
        "steps:\n - run: echo ${{ secrets.AWS_KEY }} ${{ secrets.NPM_TOKEN }}\n".to_string(),
    ];
    let sc = check_github_secrets(&workflows, "node-vite").unwrap();
    assert_eq!(sc.found_in_workflows, vec!["AWS_KEY".to_string(), "NPM_TOKEN".to_string()]);
    assert_eq!(sc.recommended_secrets, vec!["NPM_TOKEN (if publishing to npm registry)".to_string()]);
}

#[test]
fn secret_names_stop_at_other_characters() {
    let workflows = vec!["x: ${{ secrets.MY-KEY_2.value }} secrets. secrets.b".to_string()];
    let sc = check_github_secrets(&workflows, "go").unwrap();
    assert_eq!(sc.found_in_workflows, vec!["MY-KEY_2".to_string(), "b".to_string()]);
    assert!(sc.recommended_secrets.is_empty());
}

#[test]
fn no_workflows_no_secrets() {
    let sc = check_github_secrets(&vec![], "tauri").unwrap();
    assert!(sc.found_in_workflows.is_empty());
    assert_eq!(sc.recommended_secrets, vec!["TAURI_SIGNING_PRIVATE_KEY", "TAURI_SIGNING_PRIVATE_KEY_PASSWORD"]);
}

#[test]
fn recommendations_by_type() {
    assert_eq!(recommended_secrets_for("android").len(), 4);
    assert_eq!(recommended_secrets_for("rust"), vec!["CARGO_REGISTRY_TOKEN (if publishing to crates.io)"]);
    assert!(recommended_secrets_for("unknown").is_empty());
}

#[test]
fn workflow_files_by_extension() {
    assert!(is_workflow_file("release.yml"));
    assert!(is_workflow_file("ci.yaml"));
    assert!(!is_workflow_file("notes.md"));
    assert!(!is_workflow_file("yml"));
    assert!(!is_workflow_file("archive.yml.bak"));
}

#[test]
fn captures_become_sorted_unique_names() {
    let caps = vec![
        vec![Some("ZED".to_string()), Some("GITHUB_TOKEN".to_string()), None],
        vec![],
        vec![Some("ALPHA".to_string()), Some("ZED".to_string())],
    ];
    let sc = releasepilot::secrets::secrets_from_captures(&caps, "android");
    assert_eq!(sc.found_in_workflows, vec!["ALPHA".to_string(), "ZED".to_string()]);
    assert_eq!(sc.recommended_secrets[1], "ANDROID_KEYSTORE_PASSWORD");
}
