use releasepilot::git::{
    classify_git_failure, commits_since_tag, current_branch, git_args, interpret_git_output,
    is_clean, is_in_git_repo, latest_tag, GitFailure, GitQuery,
};

#[test]
fn clean_status_has_no_entries() {
    assert_eq!(is_clean(""), (true, vec![]));
}

#[test]
fn dirty_status_lists_trimmed_nonblank_lines() {
    let (clean, files) = is_clean("M src/main.rs\n\n?? notes.txt  \n");
    assert!(!clean);
    assert_eq!(files, vec!["M src/main.rs".to_string(), "?? notes.txt".to_string()]);
}

#[test]
fn latest_tag_is_first_nonblank_line() {
    assert_eq!(latest_tag("v1.10.0\nv1.9.0\nv1.2.0"), Some("v1.10.0".to_string()));
    assert_eq!(latest_tag("\n  \nv0.2.0\n"), Some("v0.2.0".to_string()));
    assert_eq!(latest_tag(""), None);
    assert_eq!(latest_tag("\n\n"), None);
}

#[test]
fn commit_count_is_parsed() {
    assert_eq!(commits_since_tag("12").unwrap(), 12);
    assert_eq!(commits_since_tag(" 0\n").unwrap(), 0);
    assert!(matches!(commits_since_tag("twelve"), Err(GitFailure::UnreadableCount)));
    assert!(matches!(commits_since_tag(""), Err(GitFailure::UnreadableCount)));
    assert!(matches!(commits_since_tag("-3"), Err(GitFailure::UnreadableCount)));
}

#[test]
fn work_tree_probe() {
    assert!(is_in_git_repo(&Ok("true".to_string())));
    assert!(!is_in_git_repo(&Ok("false".to_string())));
    assert!(!is_in_git_repo(&Err(GitFailure::NotARepository)));
}

#[test]
fn failures_are_classified_by_stderr() {
    assert!(matches!(
        classify_git_failure("fatal: detected dubious ownership in repository at '/x'"),
        GitFailure::DubiousOwnership
    ));
    assert!(matches!(
        classify_git_failure("fatal: not a git repository (or any of the parent directories): .git"),
        GitFailure::NotARepository
    ));
    match classify_git_failure("  fatal: bad revision 'v9..HEAD'\n") {
        GitFailure::CommandFailed(e) => assert_eq!(e, "fatal: bad revision 'v9..HEAD'"),
        other => panic!("unexpected classification {:?}", other),
    }
}

#[test]
fn outcome_of_a_run() {
    assert!(matches!(interpret_git_output(false, false, &None, ""), Err(GitFailure::NotInstalled)));
    assert!(matches!(interpret_git_output(true, true, &None, ""), Err(GitFailure::InvalidUtf8)));
    assert_eq!(interpret_git_output(true, true, &Some("  main\n".to_string()), "").unwrap(), "main");
    assert!(matches!(
        interpret_git_output(true, false, &Some(String::new()), "fatal: not a git repository"),
        Err(GitFailure::NotARepository)
    ));
}

#[test]
fn branch_is_trimmed_stdout() {
    assert_eq!(current_branch(true, true, &Some("feature/x\n".to_string()), "").unwrap(), "feature/x");
    assert!(current_branch(false, false, &None, "").is_err());
}

#[test]
fn failure_messages() {
    assert_eq!(GitFailure::NotInstalled.message(), "Failed to execute git process. Is git installed and in PATH?");
    assert_eq!(GitFailure::CommandFailed("boom".to_string()).message(), "Git execution failed: boom");
    assert_eq!(GitFailure::NotARepository.message(), "Not inside a Git repository.");
    assert!(GitFailure::NotARepository.is_not_a_repository());
    assert!(!GitFailure::InvalidUtf8.is_not_a_repository());
}

#[test]
fn query_arguments_name_the_target() {
    assert_eq!(git_args("/work/app", &GitQuery::Status), vec!["-C", "/work/app", "status", "--porcelain"]);
    assert_eq!(
        git_args("/w", &GitQuery::TagsWithPrefix("v".to_string())),
        vec!["-C", "/w", "tag", "-l", "v*", "--sort=-v:refname"]
    );
    assert_eq!(
        git_args("/w", &GitQuery::CommitsSince("v1.0.0".to_string())),
        vec!["-C", "/w", "rev-list", "v1.0.0..HEAD", "--count"]
    );
    assert_eq!(
        git_args("/w", &GitQuery::CurrentBranch),
        vec!["-C", "/w", "rev-parse", "--abbrev-ref", "HEAD"]
    );
    assert_eq!(
        git_args("/w", &GitQuery::InsideWorkTree),
        vec!["-C", "/w", "rev-parse", "--is-inside-work-tree"]
    );
}
