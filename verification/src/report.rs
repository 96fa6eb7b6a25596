//! The readiness report, as Markdown and as plain console text, and the
//! recommended next actions that both end with.
use vstd::prelude::*;
use crate::checks::{
    check_models, entry_views, flag_views, forbidden_views, hit_views, is_blocker, is_warning,
    CheckModel, CheckResult, CheckStatus, FileForbiddenStrings, ReportData, Severity,
};
use crate::text::{chars_of, decimal, push_char, push_decimal, str_eq, string_views};

verus! {

// ---------------------------------------------------------------------------
// Joining rows
// ---------------------------------------------------------------------------

/// The rows `f(x)` for each `x` of `s`, one after another.
pub open spec fn join_map<A>(s: Seq<A>, f: spec_fn(A) -> Seq<char>) -> Seq<char>
    decreases s.len(),
{
    if s.len() == 0 {
        Seq::empty()
    } else {
        join_map(s.drop_last(), f) + f(s.last())
    }
}

pub proof fn lemma_join_map_step<A>(s: Seq<A>, f: spec_fn(A) -> Seq<char>, i: int, start: Seq<char>)
    requires
        0 <= i < s.len(),
    ensures
        start + join_map(s.take(i + 1), f) == (start + join_map(s.take(i), f)) + f(s[i]),
{
    assert(s.take(i + 1).drop_last() =~= s.take(i));
    assert(start + join_map(s.take(i + 1), f) =~= (start + join_map(s.take(i), f)) + f(s[i]));
}

pub proof fn lemma_join_map_whole<A>(s: Seq<A>, f: spec_fn(A) -> Seq<char>)
    ensures
        join_map(s.take(s.len() as int), f) == join_map(s, f),
{
    assert(s.take(s.len() as int) =~= s);
}

// ---------------------------------------------------------------------------
// Blockers, warnings and status
// ---------------------------------------------------------------------------

pub open spec fn any_blocker(rs: Seq<CheckResult>) -> bool {
    exists|i: int| 0 <= i < rs.len() && is_blocker(#[trigger] rs[i].model())
}

pub open spec fn any_warning(rs: Seq<CheckResult>) -> bool {
    exists|i: int| 0 <= i < rs.len() && is_warning(#[trigger] rs[i].model())
}

/// The number of checks in `rs` for which `blockers` says blocker (else warning).
pub open spec fn count_failures(rs: Seq<CheckResult>, blockers: bool) -> nat
    decreases rs.len(),
{
    if rs.len() == 0 {
        0
    } else {
        count_failures(rs.drop_last(), blockers) + if (blockers && is_blocker(rs.last().model())) || (
        !blockers && is_warning(rs.last().model())) {
            1nat
        } else {
            0nat
        }
    }
}

/// Whether any check is a failure of the given kind, and how many there are.
pub fn failure_summary(rs: &Vec<CheckResult>, blockers: bool) -> (r: (bool, usize))
    ensures
        r.0 == if blockers {
            any_blocker(rs@)
        } else {
            any_warning(rs@)
        },
        r.1 == count_failures(rs@, blockers),
{
    let mut count: usize = 0;
    let mut found = false;
    for i in 0..rs.len()
        invariant
            count == count_failures(rs@.take(i as int), blockers),
            count <= i,
            found == exists|j: int| 0 <= j < i && (if blockers {
                is_blocker(#[trigger] rs@[j].model())
            } else {
                is_warning(rs@[j].model())
            }),
    {
        assert(rs@.take(i + 1).drop_last() =~= rs@.take(i as int));
        let c = &rs[i];
        let hit = c.status == CheckStatus::Fail && ((blockers && c.severity == Severity::Blocker) || (
        !blockers && c.severity == Severity::Warning));
        if hit {
            count = count + 1;
            found = true;
        }
        assert(found == exists|j: int| 0 <= j < i + 1 && (if blockers {
            is_blocker(#[trigger] rs@[j].model())
        } else {
            is_warning(rs@[j].model())
        })) by {
            if hit {
                assert(if blockers {
                    is_blocker(rs@[i as int].model())
                } else {
                    is_warning(rs@[i as int].model())
                });
            }
        }
    }
    assert(rs@.take(rs.len() as int) =~= rs@);
    (found, count)
}

// ---------------------------------------------------------------------------
// Next actions
// ---------------------------------------------------------------------------

/// A name in an action: in backticks for Markdown, in quotes for text.
pub open spec fn quoted(markdown: bool, s: Seq<char>) -> Seq<char> {
    if markdown {
        "`"@ + s + "`"@
    } else {
        "'"@ + s + "'"@
    }
}

pub open spec fn ready_action() -> Seq<char> {
    "Everything is ready! Tag and publish your release."@
}

pub open spec fn resolve_action() -> Seq<char> {
    "Resolve all blockers before tagging or publishing this release."@
}

pub open spec fn review_action() -> Seq<char> {
    "Review warnings before tagging or publishing this release."@
}

/// The actions for entries that are missing: one for each `false` flag.
pub open spec fn missing_actions(st: Seq<(Seq<char>, bool)>, head: Seq<char>, markdown: bool) -> Seq<Seq<char>>
    decreases st.len(),
{
    if st.len() == 0 {
        Seq::empty()
    } else {
        let prev = missing_actions(st.drop_last(), head, markdown);
        if st.last().1 {
            prev
        } else {
            prev.push(head + quoted(markdown, st.last().0) + "."@)
        }
    }
}

pub open spec fn opt_if(b: bool, s: Seq<char>) -> Seq<Seq<char>> {
    if b {
        seq![s]
    } else {
        Seq::empty()
    }
}

/// The actions that the report's findings call for.
pub open spec fn finding_actions(d: ReportData, markdown: bool) -> Seq<Seq<char>> {
    opt_if(!d.is_git_clean, "Commit or stash your local git changes."@)
        + opt_if(d.in_git_repo && d.current_branch@ != d.expected_branch@, "Switch to the configured main branch "@ + quoted(markdown, d.expected_branch@) + "."@)
        + opt_if(!d.versions_consistent, "Align version numbers across all configured version files."@)
        + opt_if(d.in_git_repo && d.latest_tag is Some && !d.versions_greater_than_tag, "Bump the version numbers in version files past the latest tag."@)
        + missing_actions(flag_views(d.required_files_status@), "Create the missing required file "@, markdown)
        + missing_actions(flag_views(d.artifacts_status@), "Build the project to generate the required artifact matching "@, markdown)
        + opt_if(d.forbidden_strings_results@.len() > 0, "Remove all forbidden debug/localhost strings from version files."@)
        + opt_if(d.secrets_info.found_in_workflows@.len() > 0, "Verify that all detected GitHub Action secrets are set in repository settings."@)
}

/// The recommended next actions: the findings' actions, or, when there are
/// none, a closing line that depends on whether any check failed as a
/// blocker or a warning.
pub open spec fn next_actions(d: ReportData, markdown: bool) -> Seq<Seq<char>> {
    let base = finding_actions(d, markdown);
    if base.len() > 0 {
        base
    } else if !any_blocker(d.check_results@) && !any_warning(d.check_results@) {
        seq![ready_action()]
    } else if any_blocker(d.check_results@) {
        seq![resolve_action()]
    } else {
        seq![review_action()]
    }
}

fn quote_exec(markdown: bool, s: &str) -> (r: String)
    ensures
        r@ == quoted(markdown, s@),
{
    let mut r = if markdown {
        String::from_str("`")
    } else {
        String::from_str("'")
    };
    r.append(s);
    if markdown {
        r.append("`");
    } else {
        r.append("'");
    }
    r
}

fn push_action(out: &mut Vec<String>, a: String)
    ensures
        string_views(final(out)@) == string_views(old(out)@).push(a@),
{
    out.push(a);
    assert(string_views(out@) =~= string_views(old(out)@).push(a@));
}

fn missing_actions_exec(out: &mut Vec<String>, st: &Vec<(String, bool)>, head: &str, markdown: bool)
    ensures
        string_views(final(out)@) == string_views(old(out)@) + missing_actions(flag_views(st@), head@, markdown),
{
    let ghost base = string_views(out@);
    let ghost fv = flag_views(st@);
    assert(fv.take(0) =~= Seq::<(Seq<char>, bool)>::empty());
    assert(base + missing_actions(fv.take(0), head@, markdown) =~= base);
    for i in 0..st.len()
        invariant
            base == string_views(old(out)@),
            fv == flag_views(st@),
            string_views(out@) == base + missing_actions(fv.take(i as int), head@, markdown),
    {
        assert(fv.take(i + 1).drop_last() =~= fv.take(i as int));
        assert(fv[i as int] == (st@[i as int].0@, st@[i as int].1));
        if !st[i].1 {
            let mut a = String::from_str(head);
            a.append(quote_exec(markdown, st[i].0.as_str()).as_str());
            a.append(".");
            push_action(out, a);
        }
        assert(string_views(out@) =~= base + missing_actions(fv.take(i + 1), head@, markdown));
    }
    assert(fv.take(st.len() as int) =~= fv);
}

/// The recommended next actions, in backtick style for Markdown or quote
/// style for text.
#[verifier::rlimit(60)]
pub fn recommended_actions(d: &ReportData, markdown: bool) -> (r: Vec<String>)
    ensures
        string_views(r@) == next_actions(*d, markdown),
{
    let mut out: Vec<String> = Vec::new();
    assert(string_views(out@) =~= Seq::<Seq<char>>::empty());
    let ghost e = Seq::<Seq<char>>::empty();
    if !d.is_git_clean {
        push_action(&mut out, String::from_str("Commit or stash your local git changes."));
    }
    assert(string_views(out@) =~= e + opt_if(!d.is_git_clean, "Commit or stash your local git changes."@));
    let ghost s1 = string_views(out@);
    if d.in_git_repo && !str_eq(d.current_branch.as_str(), d.expected_branch.as_str()) {
        let mut a = String::from_str("Switch to the configured main branch ");
        a.append(quote_exec(markdown, d.expected_branch.as_str()).as_str());
        a.append(".");
        push_action(&mut out, a);
    }
    assert(string_views(out@) =~= s1 + opt_if(d.in_git_repo && d.current_branch@ != d.expected_branch@, "Switch to the configured main branch "@ + quoted(markdown, d.expected_branch@) + "."@));
    let ghost s2 = string_views(out@);
    if !d.versions_consistent {
        push_action(&mut out, String::from_str("Align version numbers across all configured version files."));
    }
    assert(string_views(out@) =~= s2 + opt_if(!d.versions_consistent, "Align version numbers across all configured version files."@));
    let ghost s3 = string_views(out@);
    if d.in_git_repo && d.latest_tag.is_some() && !d.versions_greater_than_tag {
        push_action(&mut out, String::from_str("Bump the version numbers in version files past the latest tag."));
    }
    assert(string_views(out@) =~= s3 + opt_if(d.in_git_repo && d.latest_tag is Some && !d.versions_greater_than_tag, "Bump the version numbers in version files past the latest tag."@));
    missing_actions_exec(&mut out, &d.required_files_status, "Create the missing required file ", markdown);
    missing_actions_exec(&mut out, &d.artifacts_status, "Build the project to generate the required artifact matching ", markdown);
    let ghost s4 = string_views(out@);
    if d.forbidden_strings_results.len() > 0 {
        push_action(&mut out, String::from_str("Remove all forbidden debug/localhost strings from version files."));
    }
    assert(string_views(out@) =~= s4 + opt_if(d.forbidden_strings_results@.len() > 0, "Remove all forbidden debug/localhost strings from version files."@));
    let ghost s5 = string_views(out@);
    if d.secrets_info.found_in_workflows.len() > 0 {
        push_action(&mut out, String::from_str("Verify that all detected GitHub Action secrets are set in repository settings."));
    }
    assert(string_views(out@) =~= s5 + opt_if(d.secrets_info.found_in_workflows@.len() > 0, "Verify that all detected GitHub Action secrets are set in repository settings."@));
    assert(string_views(out@) =~= finding_actions(*d, markdown));
    if out.len() > 0 {
        return out;
    }
    let (blocked, _) = failure_summary(&d.check_results, true);
    let (warned, _) = failure_summary(&d.check_results, false);
    let closing = if !blocked && !warned {
        String::from_str("Everything is ready! Tag and publish your release.")
    } else if blocked {
        String::from_str("Resolve all blockers before tagging or publishing this release.")
    } else {
        String::from_str("Review warnings before tagging or publishing this release.")
    };
    let r = vec![closing];
    assert(string_views(r@) =~= next_actions(*d, markdown));
    r
}


// ---------------------------------------------------------------------------
// Markdown
// ---------------------------------------------------------------------------

pub open spec fn yes_no(b: bool) -> Seq<char> {
    if b {
        "Yes"@
    } else {
        "No"@
    }
}

pub open spec fn opt_text(b: bool, s: Seq<char>) -> Seq<char> {
    if b {
        s
    } else {
        Seq::empty()
    }
}

pub open spec fn or_unknown(v: Option<String>) -> Seq<char> {
    match v {
        Some(s) => s@,
        None => "Unknown"@,
    }
}

/// The headline status of the Markdown report.
pub open spec fn md_status(d: ReportData) -> Seq<char> {
    if any_blocker(d.check_results@) {
        "\u{1F534} BLOCKED"@
    } else if any_warning(d.check_results@) {
        "\u{1F7E1} WARNINGS PENDING"@
    } else {
        "\u{1F7E2} READY FOR RELEASE"@
    }
}

pub open spec fn md_header(d: ReportData) -> Seq<char> {
    "# ReleasePilot - Release Readiness Report\n\n"@ + "**Status:** "@ + md_status(d) + "\n"@
        + "**Project:** "@ + d.project_name@ + " (`"@ + d.project_type@ + "`)\n\n"@
}

/// The mark for a check in the summary table.
pub open spec fn status_mark(status: CheckStatus, severity: Severity) -> Seq<char> {
    match status {
        CheckStatus::Pass => "\u{2705}"@,
        CheckStatus::Fail => match severity {
            Severity::Blocker => "\u{274C}"@,
            Severity::Warning => "\u{26A0}\u{FE0F}"@,
            Severity::Info => "\u{2139}\u{FE0F}"@,
        },
        CheckStatus::Info => "\u{2139}\u{FE0F}"@,
    }
}

pub open spec fn summary_row(r: CheckResult) -> Seq<char> {
    "| "@ + r.name@ + " | "@ + status_mark(r.status, r.severity) + " | "@ + r.message@ + " |\n"@
}

pub open spec fn summary_rows() -> spec_fn(CheckResult) -> Seq<char> {
    |r: CheckResult| summary_row(r)
}

pub open spec fn md_summary(d: ReportData) -> Seq<char> {
    "## Summary\n\n"@ + "| Check | Status | Details |\n"@ + "|---|---|---|\n"@ + join_map(d.check_results@, summary_rows()) + "\n"@
}

pub open spec fn md_dirty_rows() -> spec_fn(String) -> Seq<char> {
    |f: String| "  - `"@ + f@ + "`\n"@
}

pub open spec fn md_tree_lines(d: ReportData) -> Seq<char> {
    "- **Working Tree Clean:** "@ + (if d.is_git_clean {
        "Yes"@
    } else {
        "No (changes pending)"@
    }) + "\n"@ + opt_text(!d.is_git_clean, join_map(d.dirty_files@, md_dirty_rows()))
}

pub open spec fn md_tag_line(d: ReportData) -> Seq<char> {
    match d.latest_tag {
        Some(t) => "- **Latest Tag:** `"@ + t@ + "`\n"@,
        None => "- **Latest Tag:** None found\n"@,
    }
}

pub open spec fn md_commits_line(d: ReportData) -> Seq<char> {
    match d.commits_since_tag {
        Some(n) => "- **Commits Since Tag:** "@ + decimal(n as nat) + "\n"@,
        None => Seq::empty(),
    }
}

pub open spec fn md_head_lines(d: ReportData) -> Seq<char> {
    "- **Current Branch:** `"@ + d.current_branch@ + "` (Expected: `"@ + d.expected_branch@ + "`)\n"@
        + md_tag_line(d) + md_commits_line(d)
}

pub open spec fn md_git_body(d: ReportData) -> Seq<char> {
    if d.in_git_repo {
        md_tree_lines(d) + md_head_lines(d)
    } else if d.git_error is Some {
        "*Git repository state unavailable.*\n"@
    } else {
        "*Not inside a Git repository.*\n"@
    }
}

pub open spec fn md_git(d: ReportData) -> Seq<char> {
    "## Git State\n\n"@ + (match d.git_error {
        Some(e) => "- **Git Error:** "@ + e@ + "\n"@,
        None => Seq::empty(),
    }) + md_git_body(d) + "\n"@
}

pub open spec fn md_version_rows() -> spec_fn((String, Option<String>)) -> Seq<char> {
    |e: (String, Option<String>)| "| `"@ + e.0@ + "` | `"@ + or_unknown(e.1) + "` |\n"@
}

pub open spec fn md_versions(d: ReportData) -> Seq<char> {
    "## Version State\n\n"@ + (if d.file_versions@.len() == 0 {
        "*No version files configured.*\n"@
    } else {
        "| File | Version |\n"@ + "|---|---|\n"@ + join_map(d.file_versions@, md_version_rows()) + "\n"@
            + "- **Versions Consistent:** "@ + yes_no(d.versions_consistent) + "\n"@
            + opt_text(d.latest_tag is Some, "- **Tag Progression Check:** "@ + (if d.versions_greater_than_tag {
            "Passed"@
        } else {
            "Failed"@
        }) + "\n"@)
    }) + "\n"@
}

pub open spec fn check_box(b: bool) -> Seq<char> {
    if b {
        "x"@
    } else {
        " "@
    }
}

pub open spec fn md_required_rows() -> spec_fn((String, bool)) -> Seq<char> {
    |e: (String, bool)| "- ["@ + check_box(e.1) + "] `"@ + e.0@ + "`\n"@
}

pub open spec fn md_artifact_rows() -> spec_fn((String, bool)) -> Seq<char> {
    |e: (String, bool)| "- ["@ + check_box(e.1) + "] Glob `"@ + e.0@ + "`\n"@
}

pub open spec fn md_required(d: ReportData) -> Seq<char> {
    "## Required Files\n\n"@ + (if d.required_files_status@.len() == 0 {
        "*No required files configured.*\n"@
    } else {
        join_map(d.required_files_status@, md_required_rows())
    }) + "\n"@
}

pub open spec fn md_artifacts(d: ReportData) -> Seq<char> {
    "## Artifacts\n\n"@ + (if d.artifacts_status@.len() == 0 {
        "*No artifacts configured.*\n"@
    } else {
        join_map(d.artifacts_status@, md_artifact_rows())
    }) + "\n"@
}

pub open spec fn md_hit_rows(file: Seq<char>) -> spec_fn((usize, String)) -> Seq<char> {
    |h: (usize, String)| "| `"@ + file + "` | "@ + decimal(h.0 as nat) + " | `"@ + h.1@ + "` |\n"@
}

pub open spec fn md_file_hits() -> spec_fn(FileForbiddenStrings) -> Seq<char> {
    |r: FileForbiddenStrings| join_map(r.matches@, md_hit_rows(r.file_path@))
}

pub open spec fn md_forbidden(d: ReportData) -> Seq<char> {
    "## Forbidden Strings\n\n"@ + (if d.forbidden_strings_results@.len() == 0 {
        "*No forbidden strings found in version files.*\n"@
    } else {
        "| File | Line | Forbidden Pattern |\n"@ + "|---|---|---|\n"@ + join_map(d.forbidden_strings_results@, md_file_hits())
    }) + "\n"@
}

pub open spec fn md_secret_rows() -> spec_fn(String) -> Seq<char> {
    |s: String| "- `"@ + s@ + "`\n"@
}

pub open spec fn md_secrets(d: ReportData) -> Seq<char> {
    "## GitHub Secrets\n\n"@ + (if d.secrets_info.found_in_workflows@.len() > 0 {
        "The following secrets were found referenced in GitHub Action workflows. Ensure they are configured in repository settings:\n\n"@
            + join_map(d.secrets_info.found_in_workflows@, md_secret_rows())
    } else if d.secrets_info.recommended_secrets@.len() > 0 {
        "No workflow files found. Recommending the following secrets for project type `"@ + d.project_type@ + "`:\n\n"@
            + join_map(d.secrets_info.recommended_secrets@, md_secret_rows())
    } else {
        "*No secrets identified or recommended.*\n"@
    }) + "\n"@
}

/// The Markdown line for a check of the given kind, nothing for others.
pub open spec fn md_failure_rows(blockers: bool) -> spec_fn(CheckResult) -> Seq<char> {
    |r: CheckResult|
        if (blockers && is_blocker(r.model())) || (!blockers && is_warning(r.model())) {
            "- **"@ + r.name@ + "**: "@ + r.message@ + "\n"@
        } else {
            Seq::empty()
        }
}

pub open spec fn md_failures(d: ReportData) -> Seq<char> {
    opt_text(any_blocker(d.check_results@), "## Blockers \u{1F6D1}\n\n"@ + join_map(d.check_results@, md_failure_rows(true)) + "\n"@)
        + opt_text(any_warning(d.check_results@), "## Warnings \u{26A0}\u{FE0F}\n\n"@ + join_map(d.check_results@, md_failure_rows(false)) + "\n"@)
}

pub open spec fn md_action_rows() -> spec_fn(Seq<char>) -> Seq<char> {
    |a: Seq<char>| "1. "@ + a + "\n"@
}

pub open spec fn md_actions(d: ReportData) -> Seq<char> {
    "## Recommended Next Actions\n\n"@ + join_map(next_actions(d, true), md_action_rows())
}

/// The whole Markdown report.
pub open spec fn markdown(d: ReportData) -> Seq<char> {
    md_header(d) + md_summary(d) + md_git(d) + md_versions(d) + md_required(d) + md_artifacts(d)
        + md_forbidden(d) + md_secrets(d) + md_failures(d) + md_actions(d)
}


pub open spec fn text_action_rows() -> spec_fn(Seq<char>) -> Seq<char> {
    |a: Seq<char>| "  \u{2192} "@ + a + "\n"@
}

fn lit(s: &str) -> (r: String)
    ensures
        r@ == s@,
{
    String::from_str(s)
}

fn status_mark_exec(status: CheckStatus, severity: Severity) -> (r: &'static str)
    ensures
        r@ == status_mark(status, severity),
{
    match status {
        CheckStatus::Pass => "\u{2705}",
        CheckStatus::Fail => match severity {
            Severity::Blocker => "\u{274C}",
            Severity::Warning => "\u{26A0}\u{FE0F}",
            Severity::Info => "\u{2139}\u{FE0F}",
        },
        CheckStatus::Info => "\u{2139}\u{FE0F}",
    }
}

fn md_header_exec(d: &ReportData, blocked: bool, warned: bool) -> (r: String)
    requires
        blocked == any_blocker(d.check_results@),
        warned == any_warning(d.check_results@),
    ensures
        r@ == md_header(*d),
{
    let status = if blocked {
        "\u{1F534} BLOCKED"
    } else if warned {
        "\u{1F7E1} WARNINGS PENDING"
    } else {
        "\u{1F7E2} READY FOR RELEASE"
    };
    let mut r = lit("# ReleasePilot - Release Readiness Report\n\n");
    r.append("**Status:** ");
    r.append(status);
    r.append("\n");
    r.append("**Project:** ");
    r.append(d.project_name.as_str());
    r.append(" (`");
    r.append(d.project_type.as_str());
    r.append("`)\n\n");
    r
}

fn md_summary_exec(d: &ReportData) -> (r: String)
    ensures
        r@ == md_summary(*d),
{
    let mut r = lit("## Summary\n\n");
    r.append("| Check | Status | Details |\n");
    r.append("|---|---|---|\n");
    let rs = &d.check_results;
    let ghost start = r@;
    assert(rs@.take(0) =~= Seq::<CheckResult>::empty());
    assert(start + join_map(rs@.take(0), summary_rows()) =~= start);
    for i in 0..rs.len()
        invariant
            rs == &d.check_results,
            r@ == start + join_map(rs@.take(i as int), summary_rows()),
    {
        let c = &rs[i];
        let mut row = lit("| ");
        row.append(c.name.as_str());
        row.append(" | ");
        row.append(status_mark_exec(c.status, c.severity));
        row.append(" | ");
        row.append(c.message.as_str());
        row.append(" |\n");
        proof {
            lemma_join_map_step(rs@, summary_rows(), i as int, start);
        }
        r.append(row.as_str());
    }
    proof {
        lemma_join_map_whole(rs@, summary_rows());
    }
    r.append("\n");
    r
}

fn append_dirty_rows(out: &mut String, files: &Vec<String>)
    ensures
        final(out)@ == old(out)@ + join_map(files@, md_dirty_rows()),
{
    let ghost start = out@;
    assert(files@.take(0) =~= Seq::<String>::empty());
    assert(start + join_map(files@.take(0), md_dirty_rows()) =~= start);
    for i in 0..files.len()
        invariant
            out@ == start + join_map(files@.take(i as int), md_dirty_rows()),
    {
        let row = concat3("  - `", files[i].as_str(), "`\n");
        proof {
            lemma_join_map_step(files@, md_dirty_rows(), i as int, start);
        }
        out.append(row.as_str());
    }
    proof {
        lemma_join_map_whole(files@, md_dirty_rows());
    }
}

fn concat3(a: &str, b: &str, c: &str) -> (r: String)
    ensures
        r@ == a@ + b@ + c@,
{
    let mut r = lit(a);
    r.append(b);
    r.append(c);
    r
}

fn md_tree_lines_exec(d: &ReportData) -> (r: String)
    ensures
        r@ == md_tree_lines(*d),
{
    let mut r = lit("- **Working Tree Clean:** ");
    if d.is_git_clean {
        r.append("Yes");
    } else {
        r.append("No (changes pending)");
    }
    r.append("\n");
    let ghost s2 = r@;
    if !d.is_git_clean {
        append_dirty_rows(&mut r, &d.dirty_files);
    }
    assert(r@ =~= s2 + opt_text(!d.is_git_clean, join_map(d.dirty_files@, md_dirty_rows())));
    r
}

fn md_head_lines_exec(d: &ReportData) -> (r: String)
    ensures
        r@ == md_head_lines(*d),
{
    let mut r = lit("- **Current Branch:** `");
    r.append(d.current_branch.as_str());
    r.append("` (Expected: `");
    r.append(d.expected_branch.as_str());
    r.append("`)\n");
    let mut t = match &d.latest_tag {
        Some(t) => concat3("- **Latest Tag:** `", t.as_str(), "`\n"),
        None => lit("- **Latest Tag:** None found\n"),
    };
    r.append(t.as_str());
    let mut c = String::new();
    if let Some(n) = d.commits_since_tag {
        c.append("- **Commits Since Tag:** ");
        push_decimal(&mut c, n);
        c.append("\n");
    }
    assert(c@ =~= md_commits_line(*d));
    r.append(c.as_str());
    r
}

fn md_git_exec(d: &ReportData) -> (r: String)
    ensures
        r@ == md_git(*d),
{
    let mut r = lit("## Git State\n\n");
    let mut e = String::new();
    if let Some(err) = &d.git_error {
        e.append("- **Git Error:** ");
        e.append(err.as_str());
        e.append("\n");
    }
    assert(e@ =~= match d.git_error {
        Some(e) => "- **Git Error:** "@ + e@ + "\n"@,
        None => Seq::empty(),
    });
    r.append(e.as_str());
    let body = if d.in_git_repo {
        let mut b = md_tree_lines_exec(d);
        b.append(md_head_lines_exec(d).as_str());
        b
    } else if d.git_error.is_some() {
        lit("*Git repository state unavailable.*\n")
    } else {
        lit("*Not inside a Git repository.*\n")
    };
    r.append(body.as_str());
    r.append("\n");
    r
}

#[verifier::rlimit(60)]
fn md_versions_exec(d: &ReportData) -> (r: String)
    ensures
        r@ == md_versions(*d),
{
    let mut r = lit("## Version State\n\n");
    let ghost s0 = r@;
    if d.file_versions.len() == 0 {
        r.append("*No version files configured.*\n");
    } else {
        r.append("| File | Version |\n");
        r.append("|---|---|\n");
        let fv = &d.file_versions;
        let ghost start = r@;
        assert(fv@.take(0) =~= Seq::<(String, Option<String>)>::empty());
        assert(start + join_map(fv@.take(0), md_version_rows()) =~= start);
        for i in 0..fv.len()
            invariant
                fv == &d.file_versions,
                r@ == start + join_map(fv@.take(i as int), md_version_rows()),
        {
            let e = &fv[i];
            let mut row = lit("| `");
            row.append(e.0.as_str());
            row.append("` | `");
            match &e.1 {
                Some(v) => row.append(v.as_str()),
                None => row.append("Unknown"),
            }
            row.append("` |\n");
            proof {
                lemma_join_map_step(fv@, md_version_rows(), i as int, start);
            }
            r.append(row.as_str());
        }
        proof {
            lemma_join_map_whole(fv@, md_version_rows());
        }
        r.append("\n");
        r.append("- **Versions Consistent:** ");
        if d.versions_consistent {
            r.append("Yes");
        } else {
            r.append("No");
        }
        r.append("\n");
        let ghost s2 = r@;
        if d.latest_tag.is_some() {
            r.append("- **Tag Progression Check:** ");
            if d.versions_greater_than_tag {
                r.append("Passed");
            } else {
                r.append("Failed");
            }
            r.append("\n");
        }
        assert(r@ =~= s2 + opt_text(d.latest_tag is Some, "- **Tag Progression Check:** "@ + (if d.versions_greater_than_tag {
            "Passed"@
        } else {
            "Failed"@
        }) + "\n"@));
    }
    r.append("\n");
    r
}

fn append_flag_rows(out: &mut String, st: &Vec<(String, bool)>, artifacts: bool)
    ensures
        final(out)@ == old(out)@ + join_map(st@, if artifacts {
            md_artifact_rows()
        } else {
            md_required_rows()
        }),
{
    let ghost f = if artifacts {
        md_artifact_rows()
    } else {
        md_required_rows()
    };
    let ghost start = out@;
    assert(st@.take(0) =~= Seq::<(String, bool)>::empty());
    assert(start + join_map(st@.take(0), f) =~= start);
    for i in 0..st.len()
        invariant
            f == if artifacts {
                md_artifact_rows()
            } else {
                md_required_rows()
            },
            out@ == start + join_map(st@.take(i as int), f),
    {
        let mut row = lit("- [");
        if st[i].1 {
            row.append("x");
        } else {
            row.append(" ");
        }
        if artifacts {
            row.append("] Glob `");
        } else {
            row.append("] `");
        }
        row.append(st[i].0.as_str());
        row.append("`\n");
        proof {
            lemma_join_map_step(st@, f, i as int, start);
        }
        out.append(row.as_str());
    }
    proof {
        lemma_join_map_whole(st@, f);
    }
}

fn md_required_exec(d: &ReportData) -> (r: String)
    ensures
        r@ == md_required(*d),
{
    let mut r = lit("## Required Files\n\n");
    if d.required_files_status.len() == 0 {
        r.append("*No required files configured.*\n");
    } else {
        append_flag_rows(&mut r, &d.required_files_status, false);
    }
    r.append("\n");
    r
}

fn md_artifacts_exec(d: &ReportData) -> (r: String)
    ensures
        r@ == md_artifacts(*d),
{
    let mut r = lit("## Artifacts\n\n");
    if d.artifacts_status.len() == 0 {
        r.append("*No artifacts configured.*\n");
    } else {
        append_flag_rows(&mut r, &d.artifacts_status, true);
    }
    r.append("\n");
    r
}

fn append_md_hits(out: &mut String, res: &FileForbiddenStrings)
    ensures
        final(out)@ == old(out)@ + join_map(res.matches@, md_hit_rows(res.file_path@)),
{
    let ghost f = md_hit_rows(res.file_path@);
    let ghost start = out@;
    let ms = &res.matches;
    assert(ms@.take(0) =~= Seq::<(usize, String)>::empty());
    assert(start + join_map(ms@.take(0), f) =~= start);
    for i in 0..ms.len()
        invariant
            ms == &res.matches,
            f == md_hit_rows(res.file_path@),
            out@ == start + join_map(ms@.take(i as int), f),
    {
        let mut row = lit("| `");
        row.append(res.file_path.as_str());
        row.append("` | ");
        push_decimal(&mut row, ms[i].0);
        row.append(" | `");
        row.append(ms[i].1.as_str());
        row.append("` |\n");
        proof {
            lemma_join_map_step(ms@, f, i as int, start);
        }
        out.append(row.as_str());
    }
    proof {
        lemma_join_map_whole(ms@, f);
    }
}

fn md_forbidden_exec(d: &ReportData) -> (r: String)
    ensures
        r@ == md_forbidden(*d),
{
    let mut r = lit("## Forbidden Strings\n\n");
    if d.forbidden_strings_results.len() == 0 {
        r.append("*No forbidden strings found in version files.*\n");
    } else {
        r.append("| File | Line | Forbidden Pattern |\n");
        r.append("|---|---|---|\n");
        let rs = &d.forbidden_strings_results;
        let ghost start = r@;
        assert(rs@.take(0) =~= Seq::<FileForbiddenStrings>::empty());
        assert(start + join_map(rs@.take(0), md_file_hits()) =~= start);
        for i in 0..rs.len()
            invariant
                rs == &d.forbidden_strings_results,
                r@ == start + join_map(rs@.take(i as int), md_file_hits()),
        {
            let ghost before = r@;
            append_md_hits(&mut r, &rs[i]);
            proof {
                lemma_join_map_step(rs@, md_file_hits(), i as int, start);
            }
        }
        proof {
            lemma_join_map_whole(rs@, md_file_hits());
        }
    }
    r.append("\n");
    r
}

fn append_md_secret_rows(out: &mut String, items: &Vec<String>)
    ensures
        final(out)@ == old(out)@ + join_map(items@, md_secret_rows()),
{
    let ghost start = out@;
    assert(items@.take(0) =~= Seq::<String>::empty());
    assert(start + join_map(items@.take(0), md_secret_rows()) =~= start);
    for i in 0..items.len()
        invariant
            out@ == start + join_map(items@.take(i as int), md_secret_rows()),
    {
        let row = concat3("- `", items[i].as_str(), "`\n");
        proof {
            lemma_join_map_step(items@, md_secret_rows(), i as int, start);
        }
        out.append(row.as_str());
    }
    proof {
        lemma_join_map_whole(items@, md_secret_rows());
    }
}

fn md_secrets_exec(d: &ReportData) -> (r: String)
    ensures
        r@ == md_secrets(*d),
{
    let mut r = lit("## GitHub Secrets\n\n");
    if d.secrets_info.found_in_workflows.len() > 0 {
        r.append("The following secrets were found referenced in GitHub Action workflows. Ensure they are configured in repository settings:\n\n");
        append_md_secret_rows(&mut r, &d.secrets_info.found_in_workflows);
    } else if d.secrets_info.recommended_secrets.len() > 0 {
        r.append("No workflow files found. Recommending the following secrets for project type `");
        r.append(d.project_type.as_str());
        r.append("`:\n\n");
        append_md_secret_rows(&mut r, &d.secrets_info.recommended_secrets);
    } else {
        r.append("*No secrets identified or recommended.*\n");
    }
    r.append("\n");
    r
}

fn append_md_failure_rows(out: &mut String, rs: &Vec<CheckResult>, blockers: bool)
    ensures
        final(out)@ == old(out)@ + join_map(rs@, md_failure_rows(blockers)),
{
    let ghost f = md_failure_rows(blockers);
    let ghost start = out@;
    assert(rs@.take(0) =~= Seq::<CheckResult>::empty());
    assert(start + join_map(rs@.take(0), f) =~= start);
    for i in 0..rs.len()
        invariant
            f == md_failure_rows(blockers),
            out@ == start + join_map(rs@.take(i as int), f),
    {
        let c = &rs[i];
        let hit = c.status == CheckStatus::Fail && ((blockers && c.severity == Severity::Blocker) || (
        !blockers && c.severity == Severity::Warning));
        let ghost before = out@;
        if hit {
            out.append("- **");
            out.append(c.name.as_str());
            out.append("**: ");
            out.append(c.message.as_str());
            out.append("\n");
        }
        proof {
            lemma_join_map_step(rs@, f, i as int, start);
        }
        assert(out@ =~= before + f(rs@[i as int]));
    }
    proof {
        lemma_join_map_whole(rs@, f);
    }
}

fn md_failures_exec(d: &ReportData, blocked: bool, warned: bool) -> (r: String)
    requires
        blocked == any_blocker(d.check_results@),
        warned == any_warning(d.check_results@),
    ensures
        r@ == md_failures(*d),
{
    let mut r = String::new();
    if blocked {
        r.append("## Blockers \u{1F6D1}\n\n");
        append_md_failure_rows(&mut r, &d.check_results, true);
        r.append("\n");
    }
    let ghost s1 = r@;
    if warned {
        r.append("## Warnings \u{26A0}\u{FE0F}\n\n");
        append_md_failure_rows(&mut r, &d.check_results, false);
        r.append("\n");
    }
    assert(s1 =~= opt_text(blocked, "## Blockers \u{1F6D1}\n\n"@ + join_map(d.check_results@, md_failure_rows(true)) + "\n"@));
    assert(r@ =~= s1 + opt_text(warned, "## Warnings \u{26A0}\u{FE0F}\n\n"@ + join_map(d.check_results@, md_failure_rows(false)) + "\n"@));
    r
}

fn append_action_rows(out: &mut String, actions: &Vec<String>, markdown: bool)
    ensures
        final(out)@ == old(out)@ + join_map(string_views(actions@), if markdown {
            md_action_rows()
        } else {
            text_action_rows()
        }),
{
    let ghost f = if markdown {
        md_action_rows()
    } else {
        text_action_rows()
    };
    let ghost av = string_views(actions@);
    let ghost start = out@;
    assert(av.take(0) =~= Seq::<Seq<char>>::empty());
    assert(start + join_map(av.take(0), f) =~= start);
    for i in 0..actions.len()
        invariant
            f == if markdown {
                md_action_rows()
            } else {
                text_action_rows()
            },
            av == string_views(actions@),
            out@ == start + join_map(av.take(i as int), f),
    {
        assert(av[i as int] == actions@[i as int]@);
        let row = if markdown {
            concat3("1. ", actions[i].as_str(), "\n")
        } else {
            concat3("  \u{2192} ", actions[i].as_str(), "\n")
        };
        proof {
            lemma_join_map_step(av, f, i as int, start);
        }
        out.append(row.as_str());
    }
    proof {
        lemma_join_map_whole(av, f);
    }
}

/// Renders the readiness report as Markdown.
pub fn render_markdown(data: &ReportData) -> (r: String)
    ensures
        r@ == markdown(*data),
{
    let (blocked, _) = failure_summary(&data.check_results, true);
    let (warned, _) = failure_summary(&data.check_results, false);
    let mut md = md_header_exec(data, blocked, warned);
    md.append(md_summary_exec(data).as_str());
    md.append(md_git_exec(data).as_str());
    md.append(md_versions_exec(data).as_str());
    md.append(md_required_exec(data).as_str());
    md.append(md_artifacts_exec(data).as_str());
    md.append(md_forbidden_exec(data).as_str());
    md.append(md_secrets_exec(data).as_str());
    md.append(md_failures_exec(data, blocked, warned).as_str());
    let actions = recommended_actions(data, true);
    let mut tail = lit("## Recommended Next Actions\n\n");
    append_action_rows(&mut tail, &actions, true);
    md.append(tail.as_str());
    md
}


// ---------------------------------------------------------------------------
// Console text
// ---------------------------------------------------------------------------

/// The heavy rule that frames the console report.
pub open spec fn rule() -> Seq<char> {
    "═════════════════════════════════════════════════════════════"@
}

/// The headline status of the console report.
pub open spec fn text_status(d: ReportData) -> Seq<char> {
    if any_blocker(d.check_results@) {
        "BLOCKED (Fix blockers before releasing)"@
    } else if any_warning(d.check_results@) {
        "WARNINGS PENDING (Review warnings before releasing)"@
    } else {
        "READY FOR RELEASE"@
    }
}

pub open spec fn text_header(d: ReportData) -> Seq<char> {
    rule() + "\n"@ + "             ReleasePilot Release Readiness Report           "@ + "\n"@ + rule() + "\n"@ + "\n"@ + "Status:            "@ + text_status(d) + "\n"@
        + "Project:           "@ + d.project_name@ + " ("@ + d.project_type@ + ")\n"@ + "\n"@
}

pub open spec fn text_dirty_rows() -> spec_fn(String) -> Seq<char> {
    |f: String| "                   - "@ + f@ + "\n"@
}

pub open spec fn text_tree_lines(d: ReportData) -> Seq<char> {
    "  Clean Tree:      "@ + yes_no(d.is_git_clean) + "\n"@ + opt_text(!d.is_git_clean, join_map(d.dirty_files@, text_dirty_rows()))
}

pub open spec fn text_tag_line(d: ReportData) -> Seq<char> {
    match d.latest_tag {
        Some(t) => "  Latest Tag:      "@ + t@ + "\n"@,
        None => "  Latest Tag:      None matching prefix\n"@,
    }
}

pub open spec fn text_commits_line(d: ReportData) -> Seq<char> {
    match d.commits_since_tag {
        Some(n) => "  Commits Since:   "@ + decimal(n as nat) + "\n"@,
        None => Seq::empty(),
    }
}

pub open spec fn text_head_lines(d: ReportData) -> Seq<char> {
    "  Branch:          "@ + d.current_branch@ + " (Expected: "@ + d.expected_branch@ + ")\n"@ + text_tag_line(d) + text_commits_line(d)
}

pub open spec fn text_git_body(d: ReportData) -> Seq<char> {
    if d.in_git_repo {
        text_tree_lines(d) + text_head_lines(d)
    } else if d.git_error is Some {
        "  Git repository state unavailable.\n"@
    } else {
        "  Not a Git repository.\n"@
    }
}

pub open spec fn text_git(d: ReportData) -> Seq<char> {
    "─── Git State ───\n"@ + (match d.git_error {
        Some(e) => "  Git Error:       "@ + e@ + "\n"@,
        None => Seq::empty(),
    }) + text_git_body(d) + "\n"@
}

/// `s` padded with spaces to `w` characters (`{:<w}`).
pub open spec fn pad_to(s: Seq<char>, w: nat) -> Seq<char> {
    if s.len() >= w {
        s
    } else {
        s + Seq::new((w - s.len()) as nat, |i: int| ' ')
    }
}

pub open spec fn text_version_rows() -> spec_fn((String, Option<String>)) -> Seq<char> {
    |e: (String, Option<String>)| "  "@ + pad_to(e.0@, 16) + " "@ + or_unknown(e.1) + "\n"@
}

pub open spec fn text_version_tail(d: ReportData) -> Seq<char> {
    "  Consistent:      "@ + yes_no(d.versions_consistent) + "\n"@ + opt_text(d.latest_tag is Some, "  Progression:     "@ + (if d.versions_greater_than_tag {
        "Valid"@
    } else {
        "Invalid / Needs Bump"@
    }) + "\n"@)
}

pub open spec fn text_versions(d: ReportData) -> Seq<char> {
    "─── Version State ───\n"@ + (if d.file_versions@.len() == 0 {
        "  No version files configured.\n"@
    } else {
        join_map(d.file_versions@, text_version_rows()) + text_version_tail(d)
    }) + "\n"@
}

pub open spec fn tick(b: bool) -> Seq<char> {
    if b {
        "\u{2714}"@
    } else {
        "\u{2718}"@
    }
}

pub open spec fn text_flag_rows() -> spec_fn((String, bool)) -> Seq<char> {
    |e: (String, bool)| "  ["@ + tick(e.1) + "] "@ + e.0@ + "\n"@
}

pub open spec fn text_required(d: ReportData) -> Seq<char> {
    "─── Required Files ───\n"@ + (if d.required_files_status@.len() == 0 {
        "  No required files configured.\n"@
    } else {
        join_map(d.required_files_status@, text_flag_rows())
    }) + "\n"@
}

pub open spec fn text_artifacts(d: ReportData) -> Seq<char> {
    "─── Required Artifacts ───\n"@ + (if d.artifacts_status@.len() == 0 {
        "  No required artifacts configured.\n"@
    } else {
        join_map(d.artifacts_status@, text_flag_rows())
    }) + "\n"@
}

pub open spec fn text_hit_rows() -> spec_fn((usize, String)) -> Seq<char> {
    |h: (usize, String)| "    line "@ + decimal(h.0 as nat) + ": Found forbidden string '"@ + h.1@ + "'\n"@
}

pub open spec fn text_file_hits() -> spec_fn(FileForbiddenStrings) -> Seq<char> {
    |r: FileForbiddenStrings| "  File: "@ + r.file_path@ + "\n"@ + join_map(r.matches@, text_hit_rows())
}

pub open spec fn text_forbidden(d: ReportData) -> Seq<char> {
    "─── Forbidden Strings ───\n"@ + (if d.forbidden_strings_results@.len() == 0 {
        "  No forbidden strings found.\n"@
    } else {
        join_map(d.forbidden_strings_results@, text_file_hits())
    }) + "\n"@
}

pub open spec fn text_secret_rows() -> spec_fn(String) -> Seq<char> {
    |s: String| "    - "@ + s@ + "\n"@
}

pub open spec fn text_secrets(d: ReportData) -> Seq<char> {
    "─── GitHub Repository Secrets ───\n"@ + (if d.secrets_info.found_in_workflows@.len() > 0 {
        "  Detected in workflow configurations (make sure these are set in repository settings):\n"@
            + join_map(d.secrets_info.found_in_workflows@, text_secret_rows())
    } else if d.secrets_info.recommended_secrets@.len() > 0 {
        "  No workflows analyzed. Recommendations for project type '"@ + d.project_type@ + "':\n"@
            + join_map(d.secrets_info.recommended_secrets@, text_secret_rows())
    } else {
        "  No secrets identified or recommended.\n"@
    }) + "\n"@
}

/// The console line for a check of the given kind, nothing for others.
pub open spec fn text_failure_rows(blockers: bool) -> spec_fn(CheckResult) -> Seq<char> {
    |r: CheckResult|
        if blockers && is_blocker(r.model()) {
            "  [BLOCKER] "@ + r.name@ + ": "@ + r.message@ + "\n"@
        } else if !blockers && is_warning(r.model()) {
            "  [WARNING] "@ + r.name@ + ": "@ + r.message@ + "\n"@
        } else {
            Seq::empty()
        }
}

pub open spec fn text_failures(d: ReportData) -> Seq<char> {
    opt_text(any_blocker(d.check_results@), "─── Blockers ("@ + decimal(count_failures(d.check_results@, true)) + ") ───\n"@ + join_map(d.check_results@, text_failure_rows(true)) + "\n"@)
        + opt_text(any_warning(d.check_results@), "─── Warnings ("@ + decimal(count_failures(d.check_results@, false)) + ") ───\n"@ + join_map(d.check_results@, text_failure_rows(false)) + "\n"@)
}

pub open spec fn text_actions(d: ReportData) -> Seq<char> {
    "─── Recommended Next Actions ───\n"@ + join_map(next_actions(d, false), text_action_rows())
}

/// The whole console report.
pub open spec fn console_text(d: ReportData) -> Seq<char> {
    text_header(d) + text_git(d) + text_versions(d) + text_required(d) + text_artifacts(d) + text_forbidden(d)
        + text_secrets(d) + text_failures(d) + text_actions(d) + rule() + "\n"@
}

fn text_header_exec(d: &ReportData, blocked: bool, warned: bool) -> (r: String)
    requires
        blocked == any_blocker(d.check_results@),
        warned == any_warning(d.check_results@),
    ensures
        r@ == text_header(*d),
{
    let status = if blocked {
        "BLOCKED (Fix blockers before releasing)"
    } else if warned {
        "WARNINGS PENDING (Review warnings before releasing)"
    } else {
        "READY FOR RELEASE"
    };
    let mut r = lit("═════════════════════════════════════════════════════════════");
    r.append("\n");
    r.append("             ReleasePilot Release Readiness Report           ");
    r.append("\n");
    r.append("═════════════════════════════════════════════════════════════");
    r.append("\n");
    r.append("\n");
    r.append("Status:            ");
    r.append(status);
    r.append("\n");
    r.append("Project:           ");
    r.append(d.project_name.as_str());
    r.append(" (");
    r.append(d.project_type.as_str());
    r.append(")\n");
    r.append("\n");
    r
}

fn append_text_dirty_rows(out: &mut String, files: &Vec<String>)
    ensures
        final(out)@ == old(out)@ + join_map(files@, text_dirty_rows()),
{
    let ghost start = out@;
    assert(files@.take(0) =~= Seq::<String>::empty());
    assert(start + join_map(files@.take(0), text_dirty_rows()) =~= start);
    for i in 0..files.len()
        invariant
            out@ == start + join_map(files@.take(i as int), text_dirty_rows()),
    {
        let row = concat3("                   - ", files[i].as_str(), "\n");
        proof {
            lemma_join_map_step(files@, text_dirty_rows(), i as int, start);
        }
        out.append(row.as_str());
    }
    proof {
        lemma_join_map_whole(files@, text_dirty_rows());
    }
}

fn text_tree_lines_exec(d: &ReportData) -> (r: String)
    ensures
        r@ == text_tree_lines(*d),
{
    let mut r = lit("  Clean Tree:      ");
    if d.is_git_clean {
        r.append("Yes");
    } else {
        r.append("No");
    }
    r.append("\n");
    let ghost s2 = r@;
    if !d.is_git_clean {
        append_text_dirty_rows(&mut r, &d.dirty_files);
    }
    assert(r@ =~= s2 + opt_text(!d.is_git_clean, join_map(d.dirty_files@, text_dirty_rows())));
    r
}

fn text_head_lines_exec(d: &ReportData) -> (r: String)
    ensures
        r@ == text_head_lines(*d),
{
    let mut r = lit("  Branch:          ");
    r.append(d.current_branch.as_str());
    r.append(" (Expected: ");
    r.append(d.expected_branch.as_str());
    r.append(")\n");
    let t = match &d.latest_tag {
        Some(t) => concat3("  Latest Tag:      ", t.as_str(), "\n"),
        None => lit("  Latest Tag:      None matching prefix\n"),
    };
    r.append(t.as_str());
    let mut c = String::new();
    if let Some(n) = d.commits_since_tag {
        c.append("  Commits Since:   ");
        push_decimal(&mut c, n);
        c.append("\n");
    }
    assert(c@ =~= text_commits_line(*d));
    r.append(c.as_str());
    r
}

fn text_git_exec(d: &ReportData) -> (r: String)
    ensures
        r@ == text_git(*d),
{
    let mut r = lit("─── Git State ───\n");
    let mut e = String::new();
    if let Some(err) = &d.git_error {
        e.append("  Git Error:       ");
        e.append(err.as_str());
        e.append("\n");
    }
    assert(e@ =~= match d.git_error {
        Some(e) => "  Git Error:       "@ + e@ + "\n"@,
        None => Seq::empty(),
    });
    r.append(e.as_str());
    let body = if d.in_git_repo {
        let mut b = text_tree_lines_exec(d);
        b.append(text_head_lines_exec(d).as_str());
        b
    } else if d.git_error.is_some() {
        lit("  Git repository state unavailable.\n")
    } else {
        lit("  Not a Git repository.\n")
    };
    r.append(body.as_str());
    r.append("\n");
    r
}

/// `s` padded with spaces to `w` characters.
fn pad_exec(s: &str, w: usize) -> (r: String)
    ensures
        r@ == pad_to(s@, w as nat),
{
    let n = chars_of(s).len();
    let mut r = lit(s);
    if n >= w {
        return r;
    }
    let mut k = n;
    while k < w
        invariant
            n <= k <= w,
            n == s@.len(),
            r@ == s@ + Seq::new((k - n) as nat, |i: int| ' '),
        decreases w - k,
    {
        push_char(&mut r, ' ');
        k = k + 1;
        assert(r@ =~= s@ + Seq::new((k - n) as nat, |i: int| ' '));
    }
    r
}

fn text_version_tail_exec(d: &ReportData) -> (r: String)
    ensures
        r@ == text_version_tail(*d),
{
    let mut r = lit("  Consistent:      ");
    if d.versions_consistent {
        r.append("Yes");
    } else {
        r.append("No");
    }
    r.append("\n");
    let mut p = String::new();
    if d.latest_tag.is_some() {
        p.append("  Progression:     ");
        if d.versions_greater_than_tag {
            p.append("Valid");
        } else {
            p.append("Invalid / Needs Bump");
        }
        p.append("\n");
    }
    assert(p@ =~= opt_text(d.latest_tag is Some, "  Progression:     "@ + (if d.versions_greater_than_tag {
        "Valid"@
    } else {
        "Invalid / Needs Bump"@
    }) + "\n"@));
    r.append(p.as_str());
    r
}

fn text_versions_exec(d: &ReportData) -> (r: String)
    ensures
        r@ == text_versions(*d),
{
    let mut r = lit("─── Version State ───\n");
    if d.file_versions.len() == 0 {
        r.append("  No version files configured.\n");
    } else {
        let fv = &d.file_versions;
        let ghost start = r@;
        assert(fv@.take(0) =~= Seq::<(String, Option<String>)>::empty());
        assert(start + join_map(fv@.take(0), text_version_rows()) =~= start);
        for i in 0..fv.len()
            invariant
                fv == &d.file_versions,
                r@ == start + join_map(fv@.take(i as int), text_version_rows()),
        {
            let e = &fv[i];
            let mut row = lit("  ");
            row.append(pad_exec(e.0.as_str(), 16).as_str());
            row.append(" ");
            match &e.1 {
                Some(v) => row.append(v.as_str()),
                None => row.append("Unknown"),
            }
            row.append("\n");
            proof {
                lemma_join_map_step(fv@, text_version_rows(), i as int, start);
            }
            r.append(row.as_str());
        }
        proof {
            lemma_join_map_whole(fv@, text_version_rows());
        }
        r.append(text_version_tail_exec(d).as_str());
    }
    r.append("\n");
    r
}

fn append_text_flag_rows(out: &mut String, st: &Vec<(String, bool)>)
    ensures
        final(out)@ == old(out)@ + join_map(st@, text_flag_rows()),
{
    let ghost start = out@;
    assert(st@.take(0) =~= Seq::<(String, bool)>::empty());
    assert(start + join_map(st@.take(0), text_flag_rows()) =~= start);
    for i in 0..st.len()
        invariant
            out@ == start + join_map(st@.take(i as int), text_flag_rows()),
    {
        let mut row = lit("  [");
        if st[i].1 {
            row.append("\u{2714}");
        } else {
            row.append("\u{2718}");
        }
        row.append("] ");
        row.append(st[i].0.as_str());
        row.append("\n");
        proof {
            lemma_join_map_step(st@, text_flag_rows(), i as int, start);
        }
        out.append(row.as_str());
    }
    proof {
        lemma_join_map_whole(st@, text_flag_rows());
    }
}

fn text_required_exec(d: &ReportData) -> (r: String)
    ensures
        r@ == text_required(*d),
{
    let mut r = lit("─── Required Files ───\n");
    if d.required_files_status.len() == 0 {
        r.append("  No required files configured.\n");
    } else {
        append_text_flag_rows(&mut r, &d.required_files_status);
    }
    r.append("\n");
    r
}

fn text_artifacts_exec(d: &ReportData) -> (r: String)
    ensures
        r@ == text_artifacts(*d),
{
    let mut r = lit("─── Required Artifacts ───\n");
    if d.artifacts_status.len() == 0 {
        r.append("  No required artifacts configured.\n");
    } else {
        append_text_flag_rows(&mut r, &d.artifacts_status);
    }
    r.append("\n");
    r
}

fn append_text_hits(out: &mut String, res: &FileForbiddenStrings)
    ensures
        final(out)@ == old(out)@ + text_file_hits()(*res),
{
    out.append("  File: ");
    out.append(res.file_path.as_str());
    out.append("\n");
    let ghost start = out@;
    let ms = &res.matches;
    assert(ms@.take(0) =~= Seq::<(usize, String)>::empty());
    assert(start + join_map(ms@.take(0), text_hit_rows()) =~= start);
    for i in 0..ms.len()
        invariant
            ms == &res.matches,
            out@ == start + join_map(ms@.take(i as int), text_hit_rows()),
    {
        let mut row = lit("    line ");
        push_decimal(&mut row, ms[i].0);
        row.append(": Found forbidden string '");
        row.append(ms[i].1.as_str());
        row.append("'\n");
        proof {
            lemma_join_map_step(ms@, text_hit_rows(), i as int, start);
        }
        out.append(row.as_str());
    }
    proof {
        lemma_join_map_whole(ms@, text_hit_rows());
    }
    assert(out@ =~= old(out)@ + text_file_hits()(*res));
}

fn text_forbidden_exec(d: &ReportData) -> (r: String)
    ensures
        r@ == text_forbidden(*d),
{
    let mut r = lit("─── Forbidden Strings ───\n");
    if d.forbidden_strings_results.len() == 0 {
        r.append("  No forbidden strings found.\n");
    } else {
        let rs = &d.forbidden_strings_results;
        let ghost start = r@;
        assert(rs@.take(0) =~= Seq::<FileForbiddenStrings>::empty());
        assert(start + join_map(rs@.take(0), text_file_hits()) =~= start);
        for i in 0..rs.len()
            invariant
                rs == &d.forbidden_strings_results,
                r@ == start + join_map(rs@.take(i as int), text_file_hits()),
        {
            append_text_hits(&mut r, &rs[i]);
            proof {
                lemma_join_map_step(rs@, text_file_hits(), i as int, start);
            }
        }
        proof {
            lemma_join_map_whole(rs@, text_file_hits());
        }
    }
    r.append("\n");
    r
}

fn append_text_secret_rows(out: &mut String, items: &Vec<String>)
    ensures
        final(out)@ == old(out)@ + join_map(items@, text_secret_rows()),
{
    let ghost start = out@;
    assert(items@.take(0) =~= Seq::<String>::empty());
    assert(start + join_map(items@.take(0), text_secret_rows()) =~= start);
    for i in 0..items.len()
        invariant
            out@ == start + join_map(items@.take(i as int), text_secret_rows()),
    {
        let row = concat3("    - ", items[i].as_str(), "\n");
        proof {
            lemma_join_map_step(items@, text_secret_rows(), i as int, start);
        }
        out.append(row.as_str());
    }
    proof {
        lemma_join_map_whole(items@, text_secret_rows());
    }
}

fn text_secrets_exec(d: &ReportData) -> (r: String)
    ensures
        r@ == text_secrets(*d),
{
    let mut r = lit("─── GitHub Repository Secrets ───\n");
    if d.secrets_info.found_in_workflows.len() > 0 {
        r.append("  Detected in workflow configurations (make sure these are set in repository settings):\n");
        append_text_secret_rows(&mut r, &d.secrets_info.found_in_workflows);
    } else if d.secrets_info.recommended_secrets.len() > 0 {
        r.append("  No workflows analyzed. Recommendations for project type '");
        r.append(d.project_type.as_str());
        r.append("':\n");
        append_text_secret_rows(&mut r, &d.secrets_info.recommended_secrets);
    } else {
        r.append("  No secrets identified or recommended.\n");
    }
    r.append("\n");
    r
}

fn append_text_failure_rows(out: &mut String, rs: &Vec<CheckResult>, blockers: bool)
    ensures
        final(out)@ == old(out)@ + join_map(rs@, text_failure_rows(blockers)),
{
    let ghost f = text_failure_rows(blockers);
    let ghost start = out@;
    assert(rs@.take(0) =~= Seq::<CheckResult>::empty());
    assert(start + join_map(rs@.take(0), f) =~= start);
    for i in 0..rs.len()
        invariant
            f == text_failure_rows(blockers),
            out@ == start + join_map(rs@.take(i as int), f),
    {
        let c = &rs[i];
        let ghost before = out@;
        if c.status == CheckStatus::Fail && blockers && c.severity == Severity::Blocker {
            out.append("  [BLOCKER] ");
            out.append(c.name.as_str());
            out.append(": ");
            out.append(c.message.as_str());
            out.append("\n");
        } else if c.status == CheckStatus::Fail && !blockers && c.severity == Severity::Warning {
            out.append("  [WARNING] ");
            out.append(c.name.as_str());
            out.append(": ");
            out.append(c.message.as_str());
            out.append("\n");
        }
        proof {
            lemma_join_map_step(rs@, f, i as int, start);
        }
        assert(out@ =~= before + f(rs@[i as int]));
    }
    proof {
        lemma_join_map_whole(rs@, f);
    }
}

fn text_failure_section(d: &ReportData, blockers: bool, count: usize) -> (r: String)
    requires
        count == count_failures(d.check_results@, blockers),
    ensures
        r@ == (if blockers {
            "─── Blockers ("@
        } else {
            "─── Warnings ("@
        }) + decimal(count as nat) + ") ───\n"@ + join_map(d.check_results@, text_failure_rows(blockers)) + "\n"@,
{
    let mut r = if blockers {
        lit("─── Blockers (")
    } else {
        lit("─── Warnings (")
    };
    push_decimal(&mut r, count);
    r.append(") ───\n");
    append_text_failure_rows(&mut r, &d.check_results, blockers);
    r.append("\n");
    r
}

fn text_failures_exec(d: &ReportData) -> (r: String)
    ensures
        r@ == text_failures(*d),
{
    let (blocked, nb) = failure_summary(&d.check_results, true);
    let (warned, nw) = failure_summary(&d.check_results, false);
    let mut r = String::new();
    if blocked {
        r.append(text_failure_section(d, true, nb).as_str());
    }
    let ghost s1 = r@;
    if warned {
        r.append(text_failure_section(d, false, nw).as_str());
    }
    assert(s1 =~= opt_text(blocked, "─── Blockers ("@ + decimal(count_failures(d.check_results@, true)) + ") ───\n"@ + join_map(d.check_results@, text_failure_rows(true)) + "\n"@));
    assert(r@ =~= s1 + opt_text(warned, "─── Warnings ("@ + decimal(count_failures(d.check_results@, false)) + ") ───\n"@ + join_map(d.check_results@, text_failure_rows(false)) + "\n"@));
    r
}

/// Renders the readiness report as console text.
pub fn render_text(data: &ReportData) -> (r: String)
    ensures
        r@ == console_text(*data),
{
    let (blocked, _) = failure_summary(&data.check_results, true);
    let (warned, _) = failure_summary(&data.check_results, false);
    let mut out = text_header_exec(data, blocked, warned);
    out.append(text_git_exec(data).as_str());
    out.append(text_versions_exec(data).as_str());
    out.append(text_required_exec(data).as_str());
    out.append(text_artifacts_exec(data).as_str());
    out.append(text_forbidden_exec(data).as_str());
    out.append(text_secrets_exec(data).as_str());
    out.append(text_failures_exec(data).as_str());
    let actions = recommended_actions(data, false);
    let mut tail = lit("─── Recommended Next Actions ───\n");
    append_action_rows(&mut tail, &actions, false);
    out.append(tail.as_str());
    out.append("═════════════════════════════════════════════════════════════");
    out.append("\n");
    out
}



// ---------------------------------------------------------------------------
// Laws of the recommendations
// ---------------------------------------------------------------------------

proof fn lemma_missing_actions_lead(st: Seq<(Seq<char>, bool)>, head: Seq<char>, markdown: bool)
    requires
        head.len() > 0,
    ensures
        forall|k: int|
            0 <= k < missing_actions(st, head, markdown).len() ==> (#[trigger] missing_actions(st, head, markdown)[k]).len() > 0
                && missing_actions(st, head, markdown)[k][0] == head[0],
    decreases st.len(),
{
    if st.len() > 0 {
        lemma_missing_actions_lead(st.drop_last(), head, markdown);
        let prev = missing_actions(st.drop_last(), head, markdown);
        let m = missing_actions(st, head, markdown);
        if !st.last().1 {
            let item = head + quoted(markdown, st.last().0) + "."@;
            assert(item[0] == head[0]);
            assert forall|k: int| 0 <= k < m.len() implies (#[trigger] m[k]).len() > 0 && m[k][0] == head[0] by {
                if k < prev.len() {
                    assert(m[k] == prev[k]);
                } else {
                    assert(m[k] == item);
                }
            }
        }
    }
}

/// Every entry of `s` is non-empty and starts with a letter other than `E`.
spec fn lead_not_e(s: Seq<Seq<char>>) -> bool {
    forall|k: int| 0 <= k < s.len() ==> (#[trigger] s[k]).len() > 0 && s[k][0] != 'E'
}

proof fn lemma_lead_not_e_concat(a: Seq<Seq<char>>, b: Seq<Seq<char>>)
    requires
        lead_not_e(a),
        lead_not_e(b),
    ensures
        lead_not_e(a + b),
{
    assert forall|k: int| 0 <= k < (a + b).len() implies (#[trigger] (a + b)[k]).len() > 0 && (a + b)[k][0] != 'E' by {
        if k < a.len() {
            assert((a + b)[k] == a[k]);
        } else {
            assert((a + b)[k] == b[k - a.len()]);
        }
    }
}

proof fn lemma_opt_if_lead(b: bool, s: Seq<char>)
    requires
        s.len() > 0,
        s[0] != 'E',
    ensures
        lead_not_e(opt_if(b, s)),
{
}

proof fn lemma_commit_head()
    ensures
        "Commit or stash your local git changes."@.len() > 0 && "Commit or stash your local git changes."@[0] == 'C',
{
    reveal_strlit("Commit or stash your local git changes.");
}

proof fn lemma_switch_head()
    ensures
        "Switch to the configured main branch "@.len() > 0 && "Switch to the configured main branch "@[0] == 'S',
{
    reveal_strlit("Switch to the configured main branch ");
}

proof fn lemma_align_head()
    ensures
        "Align version numbers across all configured version files."@.len() > 0
            && "Align version numbers across all configured version files."@[0] == 'A',
{
    reveal_strlit("Align version numbers across all configured version files.");
}

proof fn lemma_bump_head()
    ensures
        "Bump the version numbers in version files past the latest tag."@.len() > 0
            && "Bump the version numbers in version files past the latest tag."@[0] == 'B',
{
    reveal_strlit("Bump the version numbers in version files past the latest tag.");
}

proof fn lemma_create_head()
    ensures
        "Create the missing required file "@.len() > 0 && "Create the missing required file "@[0] == 'C',
{
    reveal_strlit("Create the missing required file ");
}

proof fn lemma_build_head()
    ensures
        "Build the project to generate the required artifact matching "@.len() > 0
            && "Build the project to generate the required artifact matching "@[0] == 'B',
{
    reveal_strlit("Build the project to generate the required artifact matching ");
}

proof fn lemma_remove_head()
    ensures
        "Remove all forbidden debug/localhost strings from version files."@.len() > 0
            && "Remove all forbidden debug/localhost strings from version files."@[0] == 'R',
{
    reveal_strlit("Remove all forbidden debug/localhost strings from version files.");
}

proof fn lemma_verify_head()
    ensures
        "Verify that all detected GitHub Action secrets are set in repository settings."@.len() > 0
            && "Verify that all detected GitHub Action secrets are set in repository settings."@[0] == 'V',
{
    reveal_strlit("Verify that all detected GitHub Action secrets are set in repository settings.");
}

/// Every action that a finding calls for starts with a letter other than
/// `E`, so none of them is the all-clear.
proof fn lemma_findings_exclude_all_clear(d: ReportData, markdown: bool)
    ensures
        !finding_actions(d, markdown).contains(ready_action()),
{
    lemma_commit_head();
    lemma_switch_head();
    lemma_align_head();
    lemma_bump_head();
    lemma_create_head();
    lemma_build_head();
    lemma_remove_head();
    lemma_verify_head();
    lemma_ready_head();
    let switch = "Switch to the configured main branch "@ + quoted(markdown, d.expected_branch@) + "."@;
    assert(switch[0] == 'S');
    let p1 = opt_if(!d.is_git_clean, "Commit or stash your local git changes."@);
    let p2 = opt_if(d.in_git_repo && d.current_branch@ != d.expected_branch@, switch);
    let p3 = opt_if(!d.versions_consistent, "Align version numbers across all configured version files."@);
    let p4 = opt_if(d.in_git_repo && d.latest_tag is Some && !d.versions_greater_than_tag, "Bump the version numbers in version files past the latest tag."@);
    let p5 = missing_actions(flag_views(d.required_files_status@), "Create the missing required file "@, markdown);
    let p6 = missing_actions(flag_views(d.artifacts_status@), "Build the project to generate the required artifact matching "@, markdown);
    let p7 = opt_if(d.forbidden_strings_results@.len() > 0, "Remove all forbidden debug/localhost strings from version files."@);
    let p8 = opt_if(d.secrets_info.found_in_workflows@.len() > 0, "Verify that all detected GitHub Action secrets are set in repository settings."@);
    lemma_opt_if_lead(!d.is_git_clean, "Commit or stash your local git changes."@);
    lemma_opt_if_lead(d.in_git_repo && d.current_branch@ != d.expected_branch@, switch);
    lemma_opt_if_lead(!d.versions_consistent, "Align version numbers across all configured version files."@);
    lemma_opt_if_lead(d.in_git_repo && d.latest_tag is Some && !d.versions_greater_than_tag, "Bump the version numbers in version files past the latest tag."@);
    lemma_missing_actions_lead(flag_views(d.required_files_status@), "Create the missing required file "@, markdown);
    lemma_missing_actions_lead(flag_views(d.artifacts_status@), "Build the project to generate the required artifact matching "@, markdown);
    lemma_opt_if_lead(d.forbidden_strings_results@.len() > 0, "Remove all forbidden debug/localhost strings from version files."@);
    lemma_opt_if_lead(d.secrets_info.found_in_workflows@.len() > 0, "Verify that all detected GitHub Action secrets are set in repository settings."@);
    lemma_lead_not_e_concat(p1, p2);
    lemma_lead_not_e_concat(p1 + p2, p3);
    lemma_lead_not_e_concat(p1 + p2 + p3, p4);
    lemma_lead_not_e_concat(p1 + p2 + p3 + p4, p5);
    lemma_lead_not_e_concat(p1 + p2 + p3 + p4 + p5, p6);
    lemma_lead_not_e_concat(p1 + p2 + p3 + p4 + p5 + p6, p7);
    lemma_lead_not_e_concat(p1 + p2 + p3 + p4 + p5 + p6 + p7, p8);
    let f = finding_actions(d, markdown);
    assert(f == p1 + p2 + p3 + p4 + p5 + p6 + p7 + p8);
    if f.contains(ready_action()) {
        let k = choose|k: int| 0 <= k < f.len() && f[k] == ready_action();
        assert(f[k][0] != 'E');
    }
}

/// The report claims that everything is ready only when no check failed as a
/// blocker or a warning and nothing else needs doing; when no finding calls
/// for an action, a blocker leads to the call to resolve blockers and a
/// warning to the call to review warnings.
pub proof fn lemma_all_clear_only_without_failures(d: ReportData, markdown: bool)
    ensures
        next_actions(d, markdown).contains(ready_action()) <==> (finding_actions(d, markdown).len() == 0
            && !any_blocker(d.check_results@) && !any_warning(d.check_results@)),
        finding_actions(d, markdown).len() == 0 && any_blocker(d.check_results@) ==> next_actions(d, markdown) == seq![resolve_action()],
        finding_actions(d, markdown).len() == 0 && !any_blocker(d.check_results@) && any_warning(d.check_results@)
            ==> next_actions(d, markdown) == seq![review_action()],
{
    lemma_findings_exclude_all_clear(d, markdown);
    lemma_closing_heads();
    let n = next_actions(d, markdown);
    if finding_actions(d, markdown).len() == 0 {
        if any_blocker(d.check_results@) {
            assert(n =~= seq![resolve_action()]);
            assert(n[0] != ready_action());
        } else if any_warning(d.check_results@) {
            assert(n =~= seq![review_action()]);
            assert(n[0] != ready_action());
        } else {
            assert(n =~= seq![ready_action()]);
            assert(n[0] == ready_action());
        }
    }
}

/// The first letters of the three closing actions.
proof fn lemma_closing_heads()
    ensures
        ready_action().len() > 0 && ready_action()[0] == 'E',
        resolve_action().len() > 0 && resolve_action()[0] == 'R',
        review_action().len() > 0 && review_action()[0] == 'R',
{
    lemma_ready_head();
    lemma_resolve_head();
    lemma_review_head();
}

proof fn lemma_ready_head()
    ensures
        ready_action().len() > 0 && ready_action()[0] == 'E',
{
    reveal_strlit("Everything is ready! Tag and publish your release.");
}

proof fn lemma_resolve_head()
    ensures
        resolve_action().len() > 0 && resolve_action()[0] == 'R',
{
    reveal_strlit("Resolve all blockers before tagging or publishing this release.");
}

proof fn lemma_review_head()
    ensures
        review_action().len() > 0 && review_action()[0] == 'R',
{
    reveal_strlit("Review warnings before tagging or publishing this release.");
}

proof fn lemma_md_status_heads()
    ensures
        "\u{1F534} BLOCKED"@.len() > 0 && "\u{1F534} BLOCKED"@[0] == '\u{1F534}',
        "\u{1F7E1} WARNINGS PENDING"@.len() > 0 && "\u{1F7E1} WARNINGS PENDING"@[0] == '\u{1F7E1}',
        "\u{1F7E2} READY FOR RELEASE"@.len() > 0 && "\u{1F7E2} READY FOR RELEASE"@[0] == '\u{1F7E2}',
{
    reveal_strlit("\u{1F534} BLOCKED");
    reveal_strlit("\u{1F7E1} WARNINGS PENDING");
    reveal_strlit("\u{1F7E2} READY FOR RELEASE");
}

proof fn lemma_text_status_heads()
    ensures
        "BLOCKED (Fix blockers before releasing)"@.len() > 0 && "BLOCKED (Fix blockers before releasing)"@[0] == 'B',
        "WARNINGS PENDING (Review warnings before releasing)"@.len() > 0
            && "WARNINGS PENDING (Review warnings before releasing)"@[0] == 'W',
        "READY FOR RELEASE"@.len() > 0 && "READY FOR RELEASE"@[0] == 'R',
{
    reveal_strlit("BLOCKED (Fix blockers before releasing)");
    reveal_strlit("WARNINGS PENDING (Review warnings before releasing)");
    reveal_strlit("READY FOR RELEASE");
}

/// The headline of either report says ready for release exactly when no
/// check failed as a blocker or a warning.
pub proof fn lemma_headline_ready_iff_no_failures(d: ReportData)
    ensures
        md_status(d) == "\u{1F7E2} READY FOR RELEASE"@ <==> (!any_blocker(d.check_results@) && !any_warning(d.check_results@)),
        text_status(d) == "READY FOR RELEASE"@ <==> (!any_blocker(d.check_results@) && !any_warning(d.check_results@)),
{
    lemma_md_status_heads();
    lemma_text_status_heads();
    if any_blocker(d.check_results@) || any_warning(d.check_results@) {
        assert(md_status(d)[0] != "\u{1F7E2} READY FOR RELEASE"@[0]);
        assert(text_status(d)[0] != "READY FOR RELEASE"@[0]);
    }
}

/// One recommended action independent of the output format: its text, and
/// the name it mentions, if any (quoted differently by each format, then
/// followed by a full stop).
pub open spec fn render_action(markdown: bool, a: (Seq<char>, Option<Seq<char>>)) -> Seq<char> {
    match a.1 {
        None => a.0,
        Some(n) => a.0 + quoted(markdown, n) + "."@,
    }
}

pub open spec fn opt_part(b: bool, a: (Seq<char>, Option<Seq<char>>)) -> Seq<(Seq<char>, Option<Seq<char>>)> {
    if b {
        seq![a]
    } else {
        Seq::empty()
    }
}

pub open spec fn missing_parts(st: Seq<(Seq<char>, bool)>, head: Seq<char>) -> Seq<(Seq<char>, Option<Seq<char>>)>
    decreases st.len(),
{
    if st.len() == 0 {
        Seq::empty()
    } else {
        let prev = missing_parts(st.drop_last(), head);
        if st.last().1 {
            prev
        } else {
            prev.push((head, Some(st.last().0)))
        }
    }
}

/// The recommended actions of a report, before either format renders them.
pub open spec fn action_parts(d: ReportData) -> Seq<(Seq<char>, Option<Seq<char>>)> {
    let base = opt_part(!d.is_git_clean, ("Commit or stash your local git changes."@, None))
        + opt_part(d.in_git_repo && d.current_branch@ != d.expected_branch@, ("Switch to the configured main branch "@, Some(d.expected_branch@)))
        + opt_part(!d.versions_consistent, ("Align version numbers across all configured version files."@, None))
        + opt_part(d.in_git_repo && d.latest_tag is Some && !d.versions_greater_than_tag, ("Bump the version numbers in version files past the latest tag."@, None))
        + missing_parts(flag_views(d.required_files_status@), "Create the missing required file "@)
        + missing_parts(flag_views(d.artifacts_status@), "Build the project to generate the required artifact matching "@)
        + opt_part(d.forbidden_strings_results@.len() > 0, ("Remove all forbidden debug/localhost strings from version files."@, None))
        + opt_part(d.secrets_info.found_in_workflows@.len() > 0, ("Verify that all detected GitHub Action secrets are set in repository settings."@, None));
    if base.len() > 0 {
        base
    } else if !any_blocker(d.check_results@) && !any_warning(d.check_results@) {
        seq![(ready_action(), None)]
    } else if any_blocker(d.check_results@) {
        seq![(resolve_action(), None)]
    } else {
        seq![(review_action(), None)]
    }
}

proof fn lemma_render_concat(
    markdown: bool,
    a: Seq<(Seq<char>, Option<Seq<char>>)>,
    b: Seq<(Seq<char>, Option<Seq<char>>)>,
)
    ensures
        (a + b).map_values(|p: (Seq<char>, Option<Seq<char>>)| render_action(markdown, p)) == a.map_values(
            |p: (Seq<char>, Option<Seq<char>>)| render_action(markdown, p),
        ) + b.map_values(|p: (Seq<char>, Option<Seq<char>>)| render_action(markdown, p)),
{
    assert((a + b).map_values(|p: (Seq<char>, Option<Seq<char>>)| render_action(markdown, p)) =~= a.map_values(
        |p: (Seq<char>, Option<Seq<char>>)| render_action(markdown, p),
    ) + b.map_values(|p: (Seq<char>, Option<Seq<char>>)| render_action(markdown, p)));
}

proof fn lemma_render_opt(markdown: bool, b: bool, a: (Seq<char>, Option<Seq<char>>))
    ensures
        opt_part(b, a).map_values(|p: (Seq<char>, Option<Seq<char>>)| render_action(markdown, p)) == opt_if(
            b,
            render_action(markdown, a),
        ),
{
    assert(opt_part(b, a).map_values(|p: (Seq<char>, Option<Seq<char>>)| render_action(markdown, p)) =~= opt_if(
        b,
        render_action(markdown, a),
    ));
}

proof fn lemma_render_missing(markdown: bool, st: Seq<(Seq<char>, bool)>, head: Seq<char>)
    ensures
        missing_parts(st, head).map_values(|p: (Seq<char>, Option<Seq<char>>)| render_action(markdown, p))
            == missing_actions(st, head, markdown),
    decreases st.len(),
{
    if st.len() > 0 {
        lemma_render_missing(markdown, st.drop_last(), head);
        let prev = missing_parts(st.drop_last(), head);
        if !st.last().1 {
            assert(prev.push((head, Some(st.last().0))).map_values(
                |p: (Seq<char>, Option<Seq<char>>)| render_action(markdown, p),
            ) =~= prev.map_values(|p: (Seq<char>, Option<Seq<char>>)| render_action(markdown, p)).push(
                head + quoted(markdown, st.last().0) + "."@,
            ));
        }
    } else {
        assert(missing_parts(st, head).map_values(|p: (Seq<char>, Option<Seq<char>>)| render_action(markdown, p))
            =~= Seq::<Seq<char>>::empty());
    }
}

/// Both reports recommend the same actions in the same order: the Markdown
/// report and the text report each render the list `action_parts(d)`, and
/// differ only in how a name inside an action is quoted (backticks in
/// Markdown, single quotes in text).
pub proof fn lemma_same_actions_in_both_reports(d: ReportData)
    ensures
        next_actions(d, true) == action_parts(d).map_values(|p: (Seq<char>, Option<Seq<char>>)| render_action(true, p)),
        next_actions(d, false) == action_parts(d).map_values(|p: (Seq<char>, Option<Seq<char>>)| render_action(false, p)),
{
    lemma_same_actions_for(d, true);
    lemma_same_actions_for(d, false);
}

proof fn lemma_same_actions_for(d: ReportData, markdown: bool)
    ensures
        next_actions(d, markdown) == action_parts(d).map_values(|p: (Seq<char>, Option<Seq<char>>)| render_action(markdown, p)),
{
    let p1 = opt_part(!d.is_git_clean, ("Commit or stash your local git changes."@, None));
    let p2 = opt_part(d.in_git_repo && d.current_branch@ != d.expected_branch@, ("Switch to the configured main branch "@, Some(d.expected_branch@)));
    let p3 = opt_part(!d.versions_consistent, ("Align version numbers across all configured version files."@, None));
    let p4 = opt_part(d.in_git_repo && d.latest_tag is Some && !d.versions_greater_than_tag, ("Bump the version numbers in version files past the latest tag."@, None));
    let p5 = missing_parts(flag_views(d.required_files_status@), "Create the missing required file "@);
    let p6 = missing_parts(flag_views(d.artifacts_status@), "Build the project to generate the required artifact matching "@);
    let p7 = opt_part(d.forbidden_strings_results@.len() > 0, ("Remove all forbidden debug/localhost strings from version files."@, None));
    let p8 = opt_part(d.secrets_info.found_in_workflows@.len() > 0, ("Verify that all detected GitHub Action secrets are set in repository settings."@, None));
    lemma_render_opt(markdown, !d.is_git_clean, ("Commit or stash your local git changes."@, None));
    lemma_render_opt(markdown, d.in_git_repo && d.current_branch@ != d.expected_branch@, ("Switch to the configured main branch "@, Some(d.expected_branch@)));
    lemma_render_opt(markdown, !d.versions_consistent, ("Align version numbers across all configured version files."@, None));
    lemma_render_opt(markdown, d.in_git_repo && d.latest_tag is Some && !d.versions_greater_than_tag, ("Bump the version numbers in version files past the latest tag."@, None));
    lemma_render_missing(markdown, flag_views(d.required_files_status@), "Create the missing required file "@);
    lemma_render_missing(markdown, flag_views(d.artifacts_status@), "Build the project to generate the required artifact matching "@);
    lemma_render_opt(markdown, d.forbidden_strings_results@.len() > 0, ("Remove all forbidden debug/localhost strings from version files."@, None));
    lemma_render_opt(markdown, d.secrets_info.found_in_workflows@.len() > 0, ("Verify that all detected GitHub Action secrets are set in repository settings."@, None));
    lemma_render_concat(markdown, p1, p2);
    lemma_render_concat(markdown, p1 + p2, p3);
    lemma_render_concat(markdown, p1 + p2 + p3, p4);
    lemma_render_concat(markdown, p1 + p2 + p3 + p4, p5);
    lemma_render_concat(markdown, p1 + p2 + p3 + p4 + p5, p6);
    lemma_render_concat(markdown, p1 + p2 + p3 + p4 + p5 + p6, p7);
    lemma_render_concat(markdown, p1 + p2 + p3 + p4 + p5 + p6 + p7, p8);
    let base = p1 + p2 + p3 + p4 + p5 + p6 + p7 + p8;
    let rb = base.map_values(|p: (Seq<char>, Option<Seq<char>>)| render_action(markdown, p));
    assert(rb == finding_actions(d, markdown));
    assert(rb.len() == base.len());
    if base.len() == 0 {
        let c = action_parts(d);
        assert(c.map_values(|p: (Seq<char>, Option<Seq<char>>)| render_action(markdown, p)) =~= seq![render_action(markdown, c[0])]);
    }
}


/// A line of the Markdown report's recommended actions.
pub open spec fn md_action_line() -> spec_fn((Seq<char>, Option<Seq<char>>)) -> Seq<char> {
    |p: (Seq<char>, Option<Seq<char>>)| "1. "@ + render_action(true, p) + "\n"@
}

/// A line of the text report's recommended actions.
pub open spec fn text_action_line() -> spec_fn((Seq<char>, Option<Seq<char>>)) -> Seq<char> {
    |p: (Seq<char>, Option<Seq<char>>)| "  \u{2192} "@ + render_action(false, p) + "\n"@
}

/// The Markdown report before its recommended actions.
pub open spec fn md_before_actions(d: ReportData) -> Seq<char> {
    md_header(d) + md_summary(d) + md_git(d) + md_versions(d) + md_required(d) + md_artifacts(d)
        + md_forbidden(d) + md_secrets(d) + md_failures(d)
}

/// The text report before its recommended actions.
pub open spec fn text_before_actions(d: ReportData) -> Seq<char> {
    text_header(d) + text_git(d) + text_versions(d) + text_required(d) + text_artifacts(d) + text_forbidden(d)
        + text_secrets(d) + text_failures(d)
}

proof fn lemma_join_map_of_map<A, B>(s: Seq<A>, f: spec_fn(A) -> B, g: spec_fn(B) -> Seq<char>)
    ensures
        join_map(s.map_values(f), g) == join_map(s, |x: A| g(f(x))),
    decreases s.len(),
{
    if s.len() > 0 {
        lemma_join_map_of_map(s.drop_last(), f, g);
        assert(s.map_values(f).drop_last() =~= s.drop_last().map_values(f));
        assert(s.map_values(f).last() == f(s.last()));
    } else {
        assert(s.map_values(f) =~= Seq::<B>::empty());
    }
}

/// Both reports end with the recommended actions, one line per entry of
/// the same list `action_parts(d)` and in the same order: `1. ` and the
/// action in the Markdown report, `  → ` and the action in the text report,
/// the two differing only in how a name inside an action is quoted.
pub proof fn lemma_same_action_lines(d: ReportData)
    ensures
        markdown(d) == md_before_actions(d) + "## Recommended Next Actions\n\n"@ + join_map(action_parts(d), md_action_line()),
        console_text(d) == text_before_actions(d) + "─── Recommended Next Actions ───\n"@
            + join_map(action_parts(d), text_action_line()) + rule() + "\n"@,
{
    lemma_same_actions_in_both_reports(d);
    let parts = action_parts(d);
    let rm = |p: (Seq<char>, Option<Seq<char>>)| render_action(true, p);
    let rt = |p: (Seq<char>, Option<Seq<char>>)| render_action(false, p);
    lemma_join_map_of_map(parts, rm, md_action_rows());
    lemma_join_map_of_map(parts, rt, text_action_rows());
    assert((|x: (Seq<char>, Option<Seq<char>>)| md_action_rows()(rm(x))) =~= md_action_line());
    assert((|x: (Seq<char>, Option<Seq<char>>)| text_action_rows()(rt(x))) =~= text_action_line());
    assert(markdown(d) =~= md_before_actions(d) + md_actions(d));
    assert(console_text(d) =~= text_before_actions(d) + text_actions(d) + rule() + "\n"@);
}


/// Some check failed as a blocker.
pub open spec fn some_failed_blocker(rs: Seq<CheckResult>) -> bool {
    exists|i: int| 0 <= i < rs.len() && (#[trigger] rs[i]).status == CheckStatus::Fail && rs[i].severity == Severity::Blocker
}

/// Some check failed as a warning.
pub open spec fn some_failed_warning(rs: Seq<CheckResult>) -> bool {
    exists|i: int| 0 <= i < rs.len() && (#[trigger] rs[i]).status == CheckStatus::Fail && rs[i].severity == Severity::Warning
}

proof fn lemma_failed_kinds(rs: Seq<CheckResult>)
    ensures
        some_failed_blocker(rs) <==> any_blocker(rs),
        some_failed_warning(rs) <==> any_warning(rs),
{
    if some_failed_blocker(rs) {
        let i = choose|i: int| 0 <= i < rs.len() && (#[trigger] rs[i]).status == CheckStatus::Fail && rs[i].severity == Severity::Blocker;
        assert(is_blocker(rs[i].model()));
    }
    if any_blocker(rs) {
        let i = choose|i: int| 0 <= i < rs.len() && is_blocker(#[trigger] rs[i].model());
        assert(rs[i].status == CheckStatus::Fail && rs[i].severity == Severity::Blocker);
    }
    if some_failed_warning(rs) {
        let i = choose|i: int| 0 <= i < rs.len() && (#[trigger] rs[i]).status == CheckStatus::Fail && rs[i].severity == Severity::Warning;
        assert(is_warning(rs[i].model()));
    }
    if any_warning(rs) {
        let i = choose|i: int| 0 <= i < rs.len() && is_warning(#[trigger] rs[i].model());
        assert(rs[i].status == CheckStatus::Fail && rs[i].severity == Severity::Warning);
    }
}

/// The headline of the Markdown report: a failed blocker makes it BLOCKED
/// whatever warnings there are; otherwise a failed warning makes it
/// WARNINGS PENDING; otherwise it is READY FOR RELEASE.
pub proof fn lemma_markdown_headline(d: ReportData)
    ensures
        some_failed_blocker(d.check_results@) ==> ("# ReleasePilot - Release Readiness Report\n\n**Status:** \u{1F534} BLOCKED\n"@).is_prefix_of(markdown(d)),
        !some_failed_blocker(d.check_results@) && some_failed_warning(d.check_results@) ==> ("# ReleasePilot - Release Readiness Report\n\n**Status:** \u{1F7E1} WARNINGS PENDING\n"@).is_prefix_of(markdown(d)),
        !some_failed_blocker(d.check_results@) && !some_failed_warning(d.check_results@) ==> ("# ReleasePilot - Release Readiness Report\n\n**Status:** \u{1F7E2} READY FOR RELEASE\n"@).is_prefix_of(markdown(d)),
{
    lemma_failed_kinds(d.check_results@);
    let head = "# ReleasePilot - Release Readiness Report\n\n"@ + "**Status:** "@ + md_status(d) + "\n"@;
    lemma_prefix_concat(head, "**Project:** "@ + d.project_name@ + " (`"@ + d.project_type@ + "`)\n\n"@);
    assert(md_header(d) == head + ("**Project:** "@ + d.project_name@ + " (`"@ + d.project_type@ + "`)\n\n"@)) by {
        assert(md_header(d) =~= head + ("**Project:** "@ + d.project_name@ + " (`"@ + d.project_type@ + "`)\n\n"@));
    }
    lemma_prefix_of_chain(
        md_header(d),
        md_summary(d),
        md_git(d),
        md_versions(d),
        md_required(d),
        md_artifacts(d),
        md_forbidden(d),
        md_secrets(d),
        md_failures(d),
        md_actions(d),
    );
    lemma_prefix_trans(head, md_header(d), markdown(d));
    lemma_md_headline_literals(md_status(d));
}

proof fn lemma_prefix_concat(a: Seq<char>, b: Seq<char>)
    ensures
        a.is_prefix_of(a + b),
{
    assert((a + b).subrange(0, a.len() as int) =~= a);
}

proof fn lemma_prefix_trans(a: Seq<char>, b: Seq<char>, c: Seq<char>)
    requires
        a.is_prefix_of(b),
        b.is_prefix_of(c),
    ensures
        a.is_prefix_of(c),
{
    assert(c.subrange(0, a.len() as int) =~= b.subrange(0, a.len() as int));
}

proof fn lemma_prefix_of_chain(
    a: Seq<char>,
    b1: Seq<char>,
    b2: Seq<char>,
    b3: Seq<char>,
    b4: Seq<char>,
    b5: Seq<char>,
    b6: Seq<char>,
    b7: Seq<char>,
    b8: Seq<char>,
    b9: Seq<char>,
)
    ensures
        a.is_prefix_of(a + b1 + b2 + b3 + b4 + b5 + b6 + b7 + b8 + b9),
{
    let all = a + b1 + b2 + b3 + b4 + b5 + b6 + b7 + b8 + b9;
    assert(all =~= a + (b1 + b2 + b3 + b4 + b5 + b6 + b7 + b8 + b9));
    lemma_prefix_concat(a, b1 + b2 + b3 + b4 + b5 + b6 + b7 + b8 + b9);
}

proof fn lemma_md_headline_literals(status: Seq<char>)
    ensures
        status == "\u{1F534} BLOCKED"@ ==> "# ReleasePilot - Release Readiness Report\n\n"@ + "**Status:** "@ + status + "\n"@
            == "# ReleasePilot - Release Readiness Report\n\n**Status:** \u{1F534} BLOCKED\n"@,
        status == "\u{1F7E1} WARNINGS PENDING"@ ==> "# ReleasePilot - Release Readiness Report\n\n"@ + "**Status:** "@ + status + "\n"@
            == "# ReleasePilot - Release Readiness Report\n\n**Status:** \u{1F7E1} WARNINGS PENDING\n"@,
        status == "\u{1F7E2} READY FOR RELEASE"@ ==> "# ReleasePilot - Release Readiness Report\n\n"@ + "**Status:** "@ + status + "\n"@
            == "# ReleasePilot - Release Readiness Report\n\n**Status:** \u{1F7E2} READY FOR RELEASE\n"@,
{
    reveal_strlit("# ReleasePilot - Release Readiness Report\n\n");
    reveal_strlit("**Status:** ");
    reveal_strlit("\n");
    reveal_strlit("\u{1F534} BLOCKED");
    reveal_strlit("\u{1F7E1} WARNINGS PENDING");
    reveal_strlit("\u{1F7E2} READY FOR RELEASE");
    reveal_strlit("# ReleasePilot - Release Readiness Report\n\n**Status:** \u{1F534} BLOCKED\n");
    reveal_strlit("# ReleasePilot - Release Readiness Report\n\n**Status:** \u{1F7E1} WARNINGS PENDING\n");
    reveal_strlit("# ReleasePilot - Release Readiness Report\n\n**Status:** \u{1F7E2} READY FOR RELEASE\n");
    assert("# ReleasePilot - Release Readiness Report\n\n"@ + "**Status:** "@ + "\u{1F534} BLOCKED"@ + "\n"@
        =~= "# ReleasePilot - Release Readiness Report\n\n**Status:** \u{1F534} BLOCKED\n"@);
    assert("# ReleasePilot - Release Readiness Report\n\n"@ + "**Status:** "@ + "\u{1F7E1} WARNINGS PENDING"@ + "\n"@
        =~= "# ReleasePilot - Release Readiness Report\n\n**Status:** \u{1F7E1} WARNINGS PENDING\n"@);
    assert("# ReleasePilot - Release Readiness Report\n\n"@ + "**Status:** "@ + "\u{1F7E2} READY FOR RELEASE"@ + "\n"@
        =~= "# ReleasePilot - Release Readiness Report\n\n**Status:** \u{1F7E2} READY FOR RELEASE\n"@);
}


/// The banner above the text report's status line.
pub open spec fn text_banner() -> Seq<char> {
    rule() + "\n"@ + "             ReleasePilot Release Readiness Report           "@ + "\n"@ + rule() + "\n"@ + "\n"@
}

/// The status line of the text report: a failed blocker makes it BLOCKED
/// whatever warnings there are; otherwise a failed warning makes it
/// WARNINGS PENDING; otherwise it is READY FOR RELEASE.
pub proof fn lemma_text_headline(d: ReportData)
    ensures
        some_failed_blocker(d.check_results@) ==> (text_banner() + "Status:            "@
            + "BLOCKED (Fix blockers before releasing)"@ + "\n"@).is_prefix_of(console_text(d)),
        !some_failed_blocker(d.check_results@) && some_failed_warning(d.check_results@) ==> (text_banner()
            + "Status:            "@ + "WARNINGS PENDING (Review warnings before releasing)"@ + "\n"@).is_prefix_of(
            console_text(d),
        ),
        !some_failed_blocker(d.check_results@) && !some_failed_warning(d.check_results@) ==> (text_banner()
            + "Status:            "@ + "READY FOR RELEASE"@ + "\n"@).is_prefix_of(console_text(d)),
{
    lemma_failed_kinds(d.check_results@);
    let head = text_banner() + "Status:            "@ + text_status(d) + "\n"@;
    let tail = "Project:           "@ + d.project_name@ + " ("@ + d.project_type@ + ")\n"@ + "\n"@;
    lemma_prefix_concat(head, tail);
    assert(text_header(d) == head + tail) by {
        assert(text_header(d) =~= head + tail);
    }
    lemma_prefix_of_chain(
        text_header(d),
        text_git(d),
        text_versions(d),
        text_required(d),
        text_artifacts(d),
        text_forbidden(d),
        text_secrets(d),
        text_failures(d),
        text_actions(d),
        rule() + "\n"@,
    );
    assert(console_text(d) =~= text_header(d) + text_git(d) + text_versions(d) + text_required(d) + text_artifacts(d)
        + text_forbidden(d) + text_secrets(d) + text_failures(d) + text_actions(d) + (rule() + "\n"@));
    lemma_prefix_trans(head, text_header(d), console_text(d));
}

} // verus!
