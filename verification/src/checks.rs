//! The release checks: from the configuration and what was observed of the
//! project (git output, which files exist, their text, which artifact globs
//! matched, the workflow files), every check result and the data that the
//! reports show.
use vstd::prelude::*;
use crate::config::Config;
use crate::path_safety::{config_paths_ok, config_paths_valid, validate_config, PathSafetyError};
use crate::git::{
    commits_since_tag, first_nonblank, inside_work_tree, is_clean, is_in_git_repo, latest_tag,
    tree_state, GitFailure,
};
use crate::text::{contains, decimal, lines, parse_unsigned, push_decimal, str_eq, string_views, trim};

verus! {

#[derive(Debug, Clone, Copy, PartialEq, Eq, Structural)]
pub enum CheckStatus {
    Pass,
    Fail,
    Info,
}

#[derive(Debug, Clone, Copy, PartialEq, Eq, Structural)]
pub enum Severity {
    Blocker,
    Warning,
    Info,
}

/// The outcome of one check.
#[derive(Debug, Clone)]
pub struct CheckResult {
    pub name: String,
    pub status: CheckStatus,
    pub message: String,
    pub severity: Severity,
}

/// The forbidden strings found in one file: `(line number, string)` pairs,
/// lines numbered from 1.
#[derive(Debug, Clone)]
pub struct FileForbiddenStrings {
    pub file_path: String,
    pub matches: Vec<(usize, String)>,
}

/// A check result as the contracts see it.
pub struct CheckModel {
    pub name: Seq<char>,
    pub status: CheckStatus,
    pub message: Seq<char>,
    pub severity: Severity,
}

pub open spec fn check(name: Seq<char>, status: CheckStatus, message: Seq<char>, severity: Severity) -> CheckModel {
    CheckModel { name, status, message, severity }
}

impl CheckResult {
    pub open spec fn model(self) -> CheckModel {
        check(self.name@, self.status, self.message@, self.severity)
    }
}

pub open spec fn check_models(v: Seq<CheckResult>) -> Seq<CheckModel> {
    v.map_values(|c: CheckResult| c.model())
}

/// The `Ordering` that stands for a version comparison.
pub open spec fn ordering_for(o: crate::version_order::VersionOrder) -> std::cmp::Ordering {
    match o {
        crate::version_order::VersionOrder::Less => std::cmp::Ordering::Less,
        crate::version_order::VersionOrder::Equal => std::cmp::Ordering::Equal,
        crate::version_order::VersionOrder::Greater => std::cmp::Ordering::Greater,
    }
}

/// Compares two version strings: a leading run of `v` is ignored, the rest
/// is split at `.`, a missing component counts as `"0"`, two components that
/// both parse as `u32` compare as numbers, any other pair as strings, and the
/// first pair that differs decides.
pub fn compare_versions(v1: &str, v2: &str) -> (r: std::cmp::Ordering)
    ensures
        r == ordering_for(crate::version_order::version_order(v1@, v2@)),
{
    match crate::version_order::version_order_exec(v1, v2) {
        crate::version_order::VersionOrder::Less => std::cmp::Ordering::Less,
        crate::version_order::VersionOrder::Equal => std::cmp::Ordering::Equal,
        crate::version_order::VersionOrder::Greater => std::cmp::Ordering::Greater,
    }
}

fn make_check(name: &str, status: CheckStatus, message: String, severity: Severity) -> (r: CheckResult)
    ensures
        r.model() == check(name@, status, message@, severity),
{
    CheckResult { name: String::from_str(name), status, message, severity }
}

fn push_check(out: &mut Vec<CheckResult>, c: CheckResult)
    ensures
        check_models(final(out)@) == check_models(old(out)@).push(c.model()),
{
    out.push(c);
    assert(check_models(out@) =~= check_models(old(out)@).push(c.model()));
}

fn append_checks(out: &mut Vec<CheckResult>, more: Vec<CheckResult>)
    ensures
        check_models(final(out)@) == check_models(old(out)@) + check_models(more@),
{
    let mut more = more;
    let ghost m = more@;
    out.append(&mut more);
    assert(check_models(out@) =~= check_models(old(out)@) + check_models(m));
}

/// The string `a + b + c` built from pieces.
fn concat3(a: &str, b: &str, c: &str) -> (r: String)
    ensures
        r@ == a@ + b@ + c@,
{
    let mut r = String::from_str(a);
    r.append(b);
    r.append(c);
    r
}

fn concat5(a: &str, b: &str, c: &str, d: &str, e: &str) -> (r: String)
    ensures
        r@ == a@ + b@ + c@ + d@ + e@,
{
    let mut r = String::from_str(a);
    r.append(b);
    r.append(c);
    r.append(d);
    r.append(e);
    r
}

// ---------------------------------------------------------------------------
// Observations
// ---------------------------------------------------------------------------

/// What the `git` commands run in the target gave.
#[derive(Debug)]
pub struct GitObservation {
    /// `git rev-parse --is-inside-work-tree`
    pub inside: Result<String, GitFailure>,
    /// `git status --porcelain`
    pub status: Result<String, GitFailure>,
    /// `git rev-parse --abbrev-ref HEAD`
    pub branch: Result<String, GitFailure>,
    /// `git tag -l <prefix>* --sort=-v:refname`
    pub tags: Result<String, GitFailure>,
    /// `git rev-list <tag>..HEAD --count`, run when a latest tag was found.
    pub commit_count: Option<Result<String, GitFailure>>,
}

/// What was found of one configured version file.
#[derive(Debug)]
pub struct VersionFileObservation {
    pub exists: bool,
    pub is_file: bool,
    /// The path under the target root.
    pub path: String,
    /// The path as `{:?}` renders it, for messages.
    pub shown_path: String,
    /// The file's text, if it could be read.
    pub content: Option<String>,
}

/// Everything the checks look at besides the configuration. The lists are
/// in the order of the configuration's lists; a missing entry counts as a
/// file that does not exist or a glob that matched nothing.
#[derive(Debug)]
pub struct Observations {
    pub git: GitObservation,
    pub version_files: Vec<VersionFileObservation>,
    pub required_files_exist: Vec<bool>,
    pub artifact_matches: Vec<bool>,
    /// The text of each workflow file in `.github/workflows`.
    pub workflows: Vec<String>,
}

// ---------------------------------------------------------------------------
// Git state
// ---------------------------------------------------------------------------

/// The git part of a report, as the contracts see it.
pub struct GitModel {
    pub in_repo: bool,
    pub clean: bool,
    pub dirty: Seq<Seq<char>>,
    pub branch: Seq<char>,
    pub latest_tag: Option<Seq<char>>,
    pub commits: Option<nat>,
    pub error: Option<Seq<char>>,
    pub checks: Seq<CheckModel>,
}

/// The git part of a report, computed.
pub struct GitSummary {
    pub in_repo: bool,
    pub clean: bool,
    pub dirty: Vec<String>,
    pub branch: String,
    pub latest_tag: Option<String>,
    pub commits: Option<usize>,
    pub error: Option<String>,
    pub checks: Vec<CheckResult>,
}

impl GitSummary {
    pub open spec fn model(self) -> GitModel {
        GitModel {
            in_repo: self.in_repo,
            clean: self.clean,
            dirty: string_views(self.dirty@),
            branch: self.branch@,
            latest_tag: match self.latest_tag {
                Some(t) => Some(t@),
                None => None,
            },
            commits: match self.commits {
                Some(n) => Some(n as nat),
                None => None,
            },
            error: self.error_view(),
            checks: check_models(self.checks@),
        }
    }

    pub open spec fn error_view(self) -> Option<Seq<char>> {
        match self.error {
            Some(e) => Some(e@),
            None => None,
        }
    }
}

/// The checks for the working tree.
pub open spec fn tree_checks(require_clean: bool, clean: bool, dirty: Seq<Seq<char>>) -> Seq<CheckModel> {
    if require_clean && !clean {
        seq![check("Git Working Tree Clean"@, CheckStatus::Fail, "Git working tree has "@ + decimal(dirty.len()) + " uncommitted change(s)."@, Severity::Blocker)]
    } else if !clean {
        seq![check("Git Working Tree Clean"@, CheckStatus::Fail, "Git working tree is dirty (non-blocking)."@, Severity::Warning)]
    } else {
        seq![check("Git Working Tree Clean"@, CheckStatus::Pass, "Git working tree is clean."@, Severity::Info)]
    }
}

/// The check for the current branch.
pub open spec fn branch_check(branch: Seq<char>, main: Seq<char>) -> CheckModel {
    if branch == main {
        check("Git Branch"@, CheckStatus::Pass, "On the configured main branch '"@ + branch + "'."@, Severity::Info)
    } else {
        check("Git Branch"@, CheckStatus::Fail, "On branch '"@ + branch + "', expected '"@ + main + "'."@, Severity::Warning)
    }
}

/// The number of commits since the tag, read from `git rev-list` output.
pub open spec fn commit_count_of(count: Option<Result<String, GitFailure>>) -> Option<nat> {
    match count {
        Some(Ok(out)) => match parse_unsigned(trim(out@), usize::MAX as int) {
            Some(n) => Some(n as nat),
            None => None,
        },
        _ => None,
    }
}

/// The checks for the latest tag and the commits since it.
pub open spec fn tag_checks(latest: Option<Seq<char>>, commits: Option<nat>, prefix: Seq<char>) -> Seq<CheckModel> {
    match latest {
        Some(t) => {
            let found = check("Latest Git Tag"@, CheckStatus::Pass, "Found latest tag '"@ + t + "'."@, Severity::Info);
            match commits {
                Some(n) => if n > 0 {
                    seq![found, check("Commits Since Tag"@, CheckStatus::Pass, decimal(n) + " commit(s) since latest tag '"@ + t + "'."@, Severity::Info)]
                } else {
                    seq![found, check("Commits Since Tag"@, CheckStatus::Fail, "No commits since latest tag '"@ + t + "'. Version is already tagged."@, Severity::Warning)]
                },
                None => seq![found],
            }
        },
        None => seq![check("Latest Git Tag"@, CheckStatus::Fail, "No tags starting with prefix '"@ + prefix + "' found."@, Severity::Info)],
    }
}

/// The working tree state and its checks.
pub open spec fn tree_part(config: Config, g: GitObservation) -> (bool, Seq<Seq<char>>, Seq<CheckModel>) {
    match g.status {
        Ok(out) => {
            let st = tree_state(out@);
            (st.0, st.1, tree_checks(config.git.require_clean_tree, st.0, st.1))
        },
        Err(_) => (true, Seq::<Seq<char>>::empty(), Seq::<CheckModel>::empty()),
    }
}

/// The current branch and its check.
pub open spec fn branch_part(config: Config, g: GitObservation) -> (Seq<char>, Seq<CheckModel>) {
    match g.branch {
        Ok(b) => (b@, seq![branch_check(b@, config.git.main_branch@)]),
        Err(_) => (Seq::<char>::empty(), Seq::<CheckModel>::empty()),
    }
}

/// The latest tag, the commits since it and their checks.
pub open spec fn tag_part(config: Config, g: GitObservation) -> (Option<Seq<char>>, Option<nat>, Seq<CheckModel>) {
    match g.tags {
        Ok(listing) => {
            let latest = first_nonblank(lines(listing@));
            let commits = if latest is Some {
                commit_count_of(g.commit_count)
            } else {
                None
            };
            (latest, commits, tag_checks(latest, commits, config.git.tag_prefix@))
        },
        Err(_) => (None, None, Seq::<CheckModel>::empty()),
    }
}

/// The message for an observed git outcome that failed for a reason other
/// than the target not being a repository.
pub open spec fn failure_text(r: Result<String, GitFailure>) -> Option<Seq<char>> {
    match r {
        Ok(_) => None,
        Err(f) => if f is NotARepository {
            None
        } else {
            Some(f.text())
        },
    }
}

/// `a` if there is one, else `b`.
pub open spec fn first_some(a: Option<Seq<char>>, b: Option<Seq<char>>) -> Option<Seq<char>> {
    if a is Some {
        a
    } else {
        b
    }
}

/// The failure of the commit count query, when it was run: only after a
/// latest tag was found.
pub open spec fn count_failure(g: GitObservation) -> Option<Seq<char>> {
    match g.tags {
        Ok(listing) => if first_nonblank(lines(listing@)) is Some {
            match g.commit_count {
                Some(c) => failure_text(c),
                None => None,
            }
        } else {
            None
        },
        Err(_) => None,
    }
}

/// The message for the first git command that failed for a reason other
/// than the target not being a repository: the work-tree probe, then, inside
/// a work tree, the status, branch and tag queries and the commit count.
pub open spec fn git_error_of(g: GitObservation) -> Option<Seq<char>> {
    if !inside_work_tree(g.inside) {
        failure_text(g.inside)
    } else {
        first_some(
            failure_text(g.status),
            first_some(failure_text(g.branch), first_some(failure_text(g.tags), count_failure(g))),
        )
    }
}

/// The git part of the report for a configuration and what git gave.
pub open spec fn git_model(config: Config, g: GitObservation) -> GitModel {
    let error = git_error_of(g);
    if inside_work_tree(g.inside) {
        let t = tree_part(config, g);
        let b = branch_part(config, g);
        let l = tag_part(config, g);
        GitModel {
            in_repo: true,
            clean: t.0,
            dirty: t.1,
            branch: b.0,
            latest_tag: l.0,
            commits: l.1,
            error,
            checks: t.2 + b.1 + l.2,
        }
    } else {
        GitModel {
            in_repo: false,
            clean: true,
            dirty: Seq::empty(),
            branch: Seq::empty(),
            latest_tag: None,
            commits: None,
            error,
            checks: if error is Some {
                seq![check("Git Repository"@, CheckStatus::Fail, "Git command failed while inspecting target."@, Severity::Blocker)]
            } else {
                seq![check("Git Repository"@, CheckStatus::Fail, "Not inside a Git repository. Git state checks skipped."@, Severity::Warning)]
            },
        }
    }
}

fn commit_count_exec(c: &Option<Result<String, GitFailure>>) -> (r: Option<usize>)
    ensures
        match r {
            Some(n) => commit_count_of(*c) == Some(n as nat),
            None => commit_count_of(*c) is None,
        },
{
    match c {
        Some(Ok(out)) => {
            proof {
                crate::text::lemma_parse_unsigned_range(trim(out@), usize::MAX as int);
            }
            match commits_since_tag(out.as_str()) {
                Ok(n) => Some(n),
                Err(_) => None,
            }
        },
        _ => None,
    }
}

/// The message for an observed git outcome that failed for a reason other
/// than the target not being a repository, computed.
fn failure_message(r: &Result<String, GitFailure>) -> (m: Option<String>)
    ensures
        opt_str_view(m) == failure_text(*r),
{
    match r {
        Ok(_) => None,
        Err(f) => if f.is_not_a_repository() {
            None
        } else {
            Some(f.message())
        },
    }
}

/// The git part of the report.
pub fn git_summary(config: &Config, g: &GitObservation) -> (r: GitSummary)
    ensures
        r.model() == git_model(*config, *g),
{
    let in_repo = is_in_git_repo(&g.inside);
    let mut error: Option<String> = if in_repo {
        None
    } else {
        failure_message(&g.inside)
    };
    let mut checks: Vec<CheckResult> = Vec::new();
    if !in_repo {
        if error.is_some() {
            push_check(&mut checks, make_check("Git Repository", CheckStatus::Fail, String::from_str("Git command failed while inspecting target."), Severity::Blocker));
        } else {
            push_check(&mut checks, make_check("Git Repository", CheckStatus::Fail, String::from_str("Not inside a Git repository. Git state checks skipped."), Severity::Warning));
        }
        let r = GitSummary {
            in_repo: false,
            clean: true,
            dirty: Vec::new(),
            branch: String::new(),
            latest_tag: None,
            commits: None,
            error,
            checks,
        };
        assert(r.model().dirty =~= Seq::<Seq<char>>::empty());
        assert(r.model().checks =~= git_model(*config, *g).checks);
        return r;
    }
    // Working tree
    let mut clean = true;
    let mut dirty: Vec<String> = Vec::new();
    let ghost mut tree: Seq<CheckModel> = Seq::empty();
    if let Ok(out) = &g.status {
        let (c, files) = is_clean(out.as_str());
        clean = c;
        dirty = files;
        if config.git.require_clean_tree && !clean {
            let mut msg = String::from_str("Git working tree has ");
            push_decimal(&mut msg, dirty.len());
            msg.append(" uncommitted change(s).");
            push_check(&mut checks, make_check("Git Working Tree Clean", CheckStatus::Fail, msg, Severity::Blocker));
        } else if !clean {
            push_check(&mut checks, make_check("Git Working Tree Clean", CheckStatus::Fail, String::from_str("Git working tree is dirty (non-blocking)."), Severity::Warning));
        } else {
            push_check(&mut checks, make_check("Git Working Tree Clean", CheckStatus::Pass, String::from_str("Git working tree is clean."), Severity::Info));
        }
        proof {
            tree = tree_checks(config.git.require_clean_tree, clean, string_views(dirty@));
            assert(check_models(checks@) =~= tree);
        }
    } else {
        assert(string_views(dirty@) =~= Seq::<Seq<char>>::empty());
        assert(check_models(checks@) =~= tree);
    }
    // Branch
    let mut branch = String::new();
    let ghost mut br: Seq<CheckModel> = Seq::empty();
    if let Ok(b) = &g.branch {
        branch = b.clone();
        if str_eq(branch.as_str(), config.git.main_branch.as_str()) {
            push_check(&mut checks, make_check("Git Branch", CheckStatus::Pass, concat3("On the configured main branch '", branch.as_str(), "'."), Severity::Info));
        } else {
            push_check(&mut checks, make_check("Git Branch", CheckStatus::Fail, concat5("On branch '", branch.as_str(), "', expected '", config.git.main_branch.as_str(), "'."), Severity::Warning));
        }
        proof {
            br = seq![branch_check(b@, config.git.main_branch@)];
        }
    }
    assert(check_models(checks@) =~= tree + br);
    // Tags
    let mut latest: Option<String> = None;
    let mut commits: Option<usize> = None;
    let ghost mut tags: Seq<CheckModel> = Seq::empty();
    if let Ok(listing) = &g.tags {
        latest = latest_tag(listing.as_str());
        match &latest {
            Some(t) => {
                push_check(&mut checks, make_check("Latest Git Tag", CheckStatus::Pass, concat3("Found latest tag '", t.as_str(), "'."), Severity::Info));
                commits = commit_count_exec(&g.commit_count);
                if let Some(n) = commits {
                    if n > 0 {
                        let mut msg = String::new();
                        push_decimal(&mut msg, n);
                        msg.append(" commit(s) since latest tag '");
                        msg.append(t.as_str());
                        msg.append("'.");
                        assert(msg@ =~= decimal(n as nat) + " commit(s) since latest tag '"@ + t@ + "'."@);
                        push_check(&mut checks, make_check("Commits Since Tag", CheckStatus::Pass, msg, Severity::Info));
                    } else {
                        push_check(&mut checks, make_check("Commits Since Tag", CheckStatus::Fail, concat3("No commits since latest tag '", t.as_str(), "'. Version is already tagged."), Severity::Warning));
                    }
                }
            },
            None => {
                push_check(&mut checks, make_check("Latest Git Tag", CheckStatus::Fail, concat3("No tags starting with prefix '", config.git.tag_prefix.as_str(), "' found."), Severity::Info));
            },
        }
        proof {
            let lv = match &latest {
                Some(t) => Some(t@),
                None => None,
            };
            let cv = match &commits {
                Some(n) => Some(*n as nat),
                None => None,
            };
            tags = tag_checks(lv, cv, config.git.tag_prefix@);
            assert(lv == first_nonblank(lines(listing@)));
            if lv is Some {
                assert(cv == commit_count_of(g.commit_count));
            } else {
                assert(cv is None);
            }
            assert(tag_part(*config, *g) == (lv, cv, tags));
        }
    }
    error = failure_message(&g.status);
    if error.is_none() {
        error = failure_message(&g.branch);
    }
    if error.is_none() {
        error = failure_message(&g.tags);
    }
    if error.is_none() && latest.is_some() {
        if let Some(c) = &g.commit_count {
            error = failure_message(c);
        }
    }
    proof {
        if g.tags is Ok {
            assert(latest is Some <==> first_nonblank(lines(g.tags->Ok_0@)) is Some);
        } else {
            assert(latest is None);
        }
    }
    let ghost expected = git_model(*config, *g);
    assert(check_models(checks@) =~= tree + br + tags);
    assert(tree_part(*config, *g) == (clean, string_views(dirty@), tree));
    assert(branch_part(*config, *g) == (branch@, br));
    let r = GitSummary { in_repo: true, clean, dirty, branch, latest_tag: latest, commits, error, checks };
    assert(tag_part(*config, *g) == (r.model().latest_tag, r.model().commits, tags));
    r
}

// ---------------------------------------------------------------------------
// Version files
// ---------------------------------------------------------------------------

/// What was observed of the `i`th version file: whether it exists, whether it
/// is a regular file, its path, its path as shown, and its text. A missing
/// observation counts as a file that does not exist.
pub open spec fn file_facts(obs: Seq<VersionFileObservation>, i: int) -> (bool, bool, Seq<char>, Seq<char>, Option<Seq<char>>) {
    if 0 <= i < obs.len() {
        let o = obs[i];
        (
            o.exists,
            o.is_file,
            o.path@,
            o.shown_path@,
            match o.content {
                Some(c) => Some(c@),
                None => None,
            },
        )
    } else {
        (false, false, Seq::empty(), Seq::empty(), None)
    }
}

/// The index of the entry for `k` in `m`, or -1.
pub open spec fn key_index(m: Seq<(Seq<char>, Option<Seq<char>>)>, k: Seq<char>) -> int
    decreases m.len(),
{
    if m.len() == 0 {
        -1
    } else if key_index(m.drop_last(), k) >= 0 {
        key_index(m.drop_last(), k)
    } else if m.last().0 == k {
        m.len() - 1
    } else {
        -1
    }
}

/// `m` with `k` set to `v`: the entry for `k` keeps its place, a new key
/// goes last.
pub open spec fn upsert(m: Seq<(Seq<char>, Option<Seq<char>>)>, k: Seq<char>, v: Option<Seq<char>>) -> Seq<(Seq<char>, Option<Seq<char>>)> {
    let i = key_index(m, k);
    if i >= 0 {
        m.update(i, (k, v))
    } else {
        m.push((k, v))
    }
}

pub proof fn lemma_key_index(m: Seq<(Seq<char>, Option<Seq<char>>)>, k: Seq<char>)
    ensures
        key_index(m, k) < m.len(),
        key_index(m, k) == -1 ==> forall|j: int| 0 <= j < m.len() ==> (#[trigger] m[j]).0 != k,
        key_index(m, k) >= 0 ==> m[key_index(m, k)].0 == k && forall|j: int|
            0 <= j < key_index(m, k) ==> (#[trigger] m[j]).0 != k,
    decreases m.len(),
{
    if m.len() > 0 {
        lemma_key_index(m.drop_last(), k);
        assert forall|j: int| 0 <= j < m.len() - 1 implies m[j] == m.drop_last()[j] by {}
    }
}

/// What scanning the version files has found so far.
pub struct VersionScan {
    /// Each file's version (`None` where the file holds none), first
    /// occurrence order.
    pub versions: Seq<(Seq<char>, Option<Seq<char>>)>,
    /// The versions found, with their files, in configuration order.
    pub extracted: Seq<(Seq<char>, Seq<char>)>,
    pub checks: Seq<CheckModel>,
}

/// One step of the scan: the version file `file` with the given facts.
pub open spec fn scan_step(prev: VersionScan, file: Seq<char>, facts: (bool, bool, Seq<char>, Seq<char>, Option<Seq<char>>)) -> VersionScan {
    let (exists, _, path, shown, content) = facts;
    if exists {
        match crate::version::extracted_version(path, true, content) {
            Ok(Some(v)) => VersionScan {
                versions: upsert(prev.versions, file, Some(v)),
                extracted: prev.extracted.push((file, v)),
                checks: prev.checks,
            },
            Ok(None) => VersionScan {
                versions: upsert(prev.versions, file, None),
                extracted: prev.extracted,
                checks: prev.checks,
            },
            Err(e) => VersionScan {
                versions: prev.versions,
                extracted: prev.extracted,
                checks: prev.checks.push(check("Version Extraction ("@ + file + ")"@, CheckStatus::Fail, "Error reading version: "@ + e.text(shown), Severity::Warning)),
            },
        }
    } else {
        VersionScan {
            versions: prev.versions,
            extracted: prev.extracted,
            checks: prev.checks.push(check("Version File Presence ("@ + file + ")"@, CheckStatus::Fail, "Configured version file '"@ + file + "' does not exist."@, Severity::Warning)),
        }
    }
}

/// The scan of the first `n` version files.
pub open spec fn version_scan(files: Seq<Seq<char>>, obs: Seq<VersionFileObservation>, n: int) -> VersionScan
    decreases n,
{
    if n <= 0 {
        VersionScan { versions: Seq::empty(), extracted: Seq::empty(), checks: Seq::empty() }
    } else {
        scan_step(version_scan(files, obs, n - 1), files[n - 1], file_facts(obs, n - 1))
    }
}

pub open spec fn entry_views(v: Seq<(String, Option<String>)>) -> Seq<(Seq<char>, Option<Seq<char>>)> {
    v.map_values(|e: (String, Option<String>)| (e.0@, match e.1 {
        Some(s) => Some(s@),
        None => None,
    }))
}

pub open spec fn pair_views(v: Seq<(String, String)>) -> Seq<(Seq<char>, Seq<char>)> {
    v.map_values(|e: (String, String)| (e.0@, e.1@))
}

fn upsert_exec(m: &mut Vec<(String, Option<String>)>, k: String, v: Option<String>)
    ensures
        entry_views(final(m)@) == upsert(entry_views(old(m)@), k@, match v {
            Some(s) => Some(s@),
            None => None,
        }),
{
    let ghost mv = entry_views(m@);
    let ghost vv = match &v {
        Some(s) => Some(s@),
        None => None::<Seq<char>>,
    };
    proof {
        lemma_key_index(mv, k@);
    }
    let mut i: usize = 0;
    while i < m.len()
        invariant
            i <= m.len(),
            mv == entry_views(m@),
            mv == entry_views(old(m)@),
            vv == match v {
                Some(s) => Some(s@),
                None => None::<Seq<char>>,
            },
            forall|j: int| 0 <= j < i ==> mv[j].0 != k@,
        decreases m.len() - i,
    {
        if str_eq(m[i].0.as_str(), k.as_str()) {
            assert(mv[i as int].0 == k@);
            assert(key_index(mv, k@) == i) by {
                lemma_key_index(mv, k@);
                if key_index(mv, k@) < i {
                    assert(mv[key_index(mv, k@)].0 != k@);
                }
            }
            m.set(i, (k, v));
            assert(entry_views(m@) =~= mv.update(i as int, (k@, vv)));
            return;
        }
        i = i + 1;
    }
    assert(key_index(mv, k@) == -1) by {
        lemma_key_index(mv, k@);
        if key_index(mv, k@) >= 0 {
            assert(mv[key_index(mv, k@)].0 == k@);
        }
    }
    m.push((k, v));
    assert(entry_views(m@) =~= mv.push((k@, vv)));
}

fn scan_one(
    versions: &mut Vec<(String, Option<String>)>,
    extracted: &mut Vec<(String, String)>,
    checks: &mut Vec<CheckResult>,
    file: &String,
    obs: &Vec<VersionFileObservation>,
    i: usize,
)
    ensures
        ({
            let prev = VersionScan {
                versions: entry_views(old(versions)@),
                extracted: pair_views(old(extracted)@),
                checks: check_models(old(checks)@),
            };
            let next = scan_step(prev, file@, file_facts(obs@, i as int));
            &&& entry_views(final(versions)@) == next.versions
            &&& pair_views(final(extracted)@) == next.extracted
            &&& check_models(final(checks)@) == next.checks
        }),
{
    let exists = i < obs.len() && obs[i].exists;
    if exists {
        let o = &obs[i];
        match crate::version::extract_version_from_file(o.path.as_str(), true, &o.content) {
            Ok(Some(v)) => {
                upsert_exec(versions, file.clone(), Some(v.clone()));
                let ghost before = pair_views(extracted@);
                extracted.push((file.clone(), v));
                assert(pair_views(extracted@) =~= before.push((file@, v@)));
            },
            Ok(None) => {
                upsert_exec(versions, file.clone(), None);
            },
            Err(e) => {
                let mut name = String::from_str("Version Extraction (");
                name.append(file.as_str());
                name.append(")");
                let mut msg = String::from_str("Error reading version: ");
                msg.append(e.message(o.shown_path.as_str()).as_str());
                push_check(checks, CheckResult { name, status: CheckStatus::Fail, message: msg, severity: Severity::Warning });
            },
        }
    } else {
        let mut name = String::from_str("Version File Presence (");
        name.append(file.as_str());
        name.append(")");
        push_check(checks, CheckResult { name, status: CheckStatus::Fail, message: concat3("Configured version file '", file.as_str(), "' does not exist."), severity: Severity::Warning });
    }
}

/// Scans the configured version files.
fn scan_version_files(files: &Vec<String>, obs: &Vec<VersionFileObservation>) -> (r: (Vec<(String, Option<String>)>, Vec<(String, String)>, Vec<CheckResult>))
    ensures
        ({
            let sc = version_scan(string_views(files@), obs@, files@.len() as int);
            &&& entry_views(r.0@) == sc.versions
            &&& pair_views(r.1@) == sc.extracted
            &&& check_models(r.2@) == sc.checks
        }),
{
    let mut versions: Vec<(String, Option<String>)> = Vec::new();
    let mut extracted: Vec<(String, String)> = Vec::new();
    let mut checks: Vec<CheckResult> = Vec::new();
    let ghost fv = string_views(files@);
    assert(entry_views(versions@) =~= Seq::<(Seq<char>, Option<Seq<char>>)>::empty());
    assert(pair_views(extracted@) =~= Seq::<(Seq<char>, Seq<char>)>::empty());
    assert(check_models(checks@) =~= Seq::<CheckModel>::empty());
    for i in 0..files.len()
        invariant
            fv == string_views(files@),
            entry_views(versions@) == version_scan(fv, obs@, i as int).versions,
            pair_views(extracted@) == version_scan(fv, obs@, i as int).extracted,
            check_models(checks@) == version_scan(fv, obs@, i as int).checks,
    {
        scan_one(&mut versions, &mut extracted, &mut checks, &files[i], obs, i);
        assert(fv[i as int] == files@[i as int]@);
    }
    (versions, extracted, checks)
}

// ---------------------------------------------------------------------------
// Consistency and progress of versions
// ---------------------------------------------------------------------------

/// The first `j >= 1` at which the version differs from the first one, or -1.
pub open spec fn first_mismatch(ex: Seq<(Seq<char>, Seq<char>)>) -> int
    decreases ex.len(),
{
    if ex.len() <= 1 {
        -1
    } else if first_mismatch(ex.drop_last()) >= 0 {
        first_mismatch(ex.drop_last())
    } else if ex.last().1 != ex[0].1 {
        ex.len() - 1
    } else {
        -1
    }
}

proof fn lemma_first_mismatch(ex: Seq<(Seq<char>, Seq<char>)>)
    ensures
        first_mismatch(ex) == -1 || 1 <= first_mismatch(ex) < ex.len(),
        first_mismatch(ex) >= 1 ==> ex[first_mismatch(ex)].1 != ex[0].1,
        forall|j: int| 1 <= j < ex.len() && (first_mismatch(ex) == -1 || j < first_mismatch(ex)) ==> (#[trigger] ex[j]).1 == ex[0].1,
    decreases ex.len(),
{
    if ex.len() > 1 {
        lemma_first_mismatch(ex.drop_last());
        assert forall|j: int| 0 <= j < ex.len() - 1 implies ex[j] == ex.drop_last()[j] by {}
    }
}

/// Whether the versions agree, and the consistency check.
pub open spec fn consistency(ex: Seq<(Seq<char>, Seq<char>)>) -> (bool, Seq<CheckModel>) {
    let m = first_mismatch(ex);
    if m >= 1 {
        (false, seq![check("Version Consistency"@, CheckStatus::Fail, "Mismatched versions: '"@ + ex[0].0 + "' has '"@ + ex[0].1 + "' vs '"@ + ex[m].0 + "' has '"@ + ex[m].1 + "'"@, Severity::Warning)])
    } else if ex.len() > 0 {
        (true, seq![check("Version Consistency"@, CheckStatus::Pass, "All version files are consistent at version '"@ + ex[0].1 + "'."@, Severity::Info)])
    } else {
        (true, Seq::empty())
    }
}

fn consistency_exec(ex: &Vec<(String, String)>) -> (r: (bool, Vec<CheckResult>))
    ensures
        r.0 == consistency(pair_views(ex@)).0,
        check_models(r.1@) == consistency(pair_views(ex@)).1,
{
    let ghost pv = pair_views(ex@);
    proof {
        lemma_first_mismatch(pv);
    }
    let mut checks: Vec<CheckResult> = Vec::new();
    if ex.len() == 0 {
        assert(check_models(checks@) =~= Seq::<CheckModel>::empty());
        return (true, checks);
    }
    let mut j: usize = 1;
    while j < ex.len()
        invariant
            1 <= j <= ex.len(),
            pv == pair_views(ex@),
            checks@.len() == 0,
            forall|k: int| 1 <= k < j ==> (#[trigger] pv[k]).1 == pv[0].1,
        decreases ex.len() - j,
    {
        if !str_eq(ex[j].1.as_str(), ex[0].1.as_str()) {
            proof {
                lemma_first_mismatch(pv);
                assert(first_mismatch(pv) == j) by {
                    if first_mismatch(pv) == -1 || first_mismatch(pv) > j {
                        assert(pv[j as int].1 == pv[0].1);
                    }
                    if 1 <= first_mismatch(pv) < j {
                        assert(pv[first_mismatch(pv)].1 == pv[0].1);
                    }
                }
            }
            let mut msg = String::from_str("Mismatched versions: '");
            msg.append(ex[0].0.as_str());
            msg.append("' has '");
            msg.append(ex[0].1.as_str());
            msg.append("' vs '");
            msg.append(ex[j].0.as_str());
            msg.append("' has '");
            msg.append(ex[j].1.as_str());
            msg.append("'");
            assert(pv[0] == (ex@[0].0@, ex@[0].1@));
            assert(pv[j as int] == (ex@[j as int].0@, ex@[j as int].1@));
            let ghost m = first_mismatch(pv);
            assert(m == j);
            assert(msg@ == "Mismatched versions: '"@ + pv[0].0 + "' has '"@ + pv[0].1 + "' vs '"@ + pv[m].0 + "' has '"@ + pv[m].1 + "'"@);
            push_check(&mut checks, make_check("Version Consistency", CheckStatus::Fail, msg, Severity::Warning));
            assert(check_models(checks@) =~= consistency(pv).1);
            return (false, checks);
        }
        j = j + 1;
    }
    proof {
        lemma_first_mismatch(pv);
        if first_mismatch(pv) >= 1 {
            assert(pv[first_mismatch(pv)].1 == pv[0].1);
        }
    }
    assert(pv[0] == (ex@[0].0@, ex@[0].1@));
    push_check(&mut checks, make_check("Version Consistency", CheckStatus::Pass, concat3("All version files are consistent at version '", ex[0].1.as_str(), "'."), Severity::Info));
    assert(check_models(checks@) =~= consistency(pv).1);
    (true, checks)
}

/// Whether the first version is past the latest tag, and the progress check.
pub open spec fn progress(ex: Seq<(Seq<char>, Seq<char>)>, latest: Option<Seq<char>>, commits: Option<nat>) -> (bool, Seq<CheckModel>) {
    if ex.len() > 0 && latest is Some {
        let v = ex[0].1;
        let t = latest.unwrap();
        match crate::version_order::version_order(v, t) {
            crate::version_order::VersionOrder::Less => (false, seq![check("Version Progress"@, CheckStatus::Fail, "Current project version '"@ + v + "' is older than latest tag '"@ + t + "'."@, Severity::Warning)]),
            crate::version_order::VersionOrder::Equal => if commits is Some && commits.unwrap() > 0 {
                (false, seq![check("Version Progress"@, CheckStatus::Fail, "Current project version '"@ + v + "' equals the latest tag '"@ + t + "', but commits exist since the tag. Bump the version."@, Severity::Warning)])
            } else {
                (true, Seq::empty())
            },
            crate::version_order::VersionOrder::Greater => (true, seq![check("Version Progress"@, CheckStatus::Pass, "Current project version '"@ + v + "' is bumped past latest tag '"@ + t + "'."@, Severity::Info)]),
        }
    } else {
        (true, Seq::empty())
    }
}

fn progress_exec(ex: &Vec<(String, String)>, latest: &Option<String>, commits: Option<usize>) -> (r: (bool, Vec<CheckResult>))
    ensures
        ({
            let p = progress(pair_views(ex@), match latest {
                Some(t) => Some(t@),
                None => None,
            }, match commits {
                Some(n) => Some(n as nat),
                None => None,
            });
            r.0 == p.0 && check_models(r.1@) == p.1
        }),
{
    let mut checks: Vec<CheckResult> = Vec::new();
    if ex.len() == 0 {
        assert(check_models(checks@) =~= Seq::<CheckModel>::empty());
        return (true, checks);
    }
    let t = match latest {
        Some(t) => t,
        None => {
            assert(check_models(checks@) =~= Seq::<CheckModel>::empty());
            return (true, checks);
        },
    };
    let v = &ex[0].1;
    match crate::version_order::version_order_exec(v.as_str(), t.as_str()) {
        crate::version_order::VersionOrder::Less => {
            push_check(&mut checks, make_check("Version Progress", CheckStatus::Fail, concat5("Current project version '", v.as_str(), "' is older than latest tag '", t.as_str(), "'."), Severity::Warning));
            (false, checks)
        },
        crate::version_order::VersionOrder::Equal => {
            let since = match commits {
                Some(n) => n,
                None => 0,
            };
            if since > 0 {
                push_check(&mut checks, make_check("Version Progress", CheckStatus::Fail, concat5("Current project version '", v.as_str(), "' equals the latest tag '", t.as_str(), "', but commits exist since the tag. Bump the version."), Severity::Warning));
                (false, checks)
            } else {
                assert(check_models(checks@) =~= Seq::<CheckModel>::empty());
                (true, checks)
            }
        },
        crate::version_order::VersionOrder::Greater => {
            push_check(&mut checks, make_check("Version Progress", CheckStatus::Pass, concat5("Current project version '", v.as_str(), "' is bumped past latest tag '", t.as_str(), "'."), Severity::Info));
            (true, checks)
        },
    }
}

// ---------------------------------------------------------------------------
// Required files and artifacts
// ---------------------------------------------------------------------------

/// The `i`th flag, `false` past the end.
pub open spec fn flag_at(v: Seq<bool>, i: int) -> bool {
    0 <= i < v.len() && v[i]
}

/// The status and checks of the first `n` required files.
pub open spec fn required_scan(files: Seq<Seq<char>>, exist: Seq<bool>, n: int) -> (Seq<(Seq<char>, bool)>, Seq<CheckModel>)
    decreases n,
{
    if n <= 0 {
        (Seq::empty(), Seq::empty())
    } else {
        let prev = required_scan(files, exist, n - 1);
        let f = files[n - 1];
        let e = flag_at(exist, n - 1);
        (prev.0.push((f, e)), prev.1.push(if e {
            check("Required File ("@ + f + ")"@, CheckStatus::Pass, "Required file '"@ + f + "' exists."@, Severity::Info)
        } else {
            check("Required File ("@ + f + ")"@, CheckStatus::Fail, "Required file '"@ + f + "' is missing."@, Severity::Blocker)
        }))
    }
}

/// The status and checks of the first `n` artifact patterns.
pub open spec fn artifact_scan(patterns: Seq<Seq<char>>, matched: Seq<bool>, n: int) -> (Seq<(Seq<char>, bool)>, Seq<CheckModel>)
    decreases n,
{
    if n <= 0 {
        (Seq::empty(), Seq::empty())
    } else {
        let prev = artifact_scan(patterns, matched, n - 1);
        let p = patterns[n - 1];
        let m = flag_at(matched, n - 1);
        (prev.0.push((p, m)), prev.1.push(if m {
            check("Required Artifact ("@ + p + ")"@, CheckStatus::Pass, "Artifact glob '"@ + p + "' matched one or more files."@, Severity::Info)
        } else {
            check("Required Artifact ("@ + p + ")"@, CheckStatus::Fail, "Artifact glob '"@ + p + "' did not match any files."@, Severity::Warning)
        }))
    }
}

pub open spec fn flag_views(v: Seq<(String, bool)>) -> Seq<(Seq<char>, bool)> {
    v.map_values(|e: (String, bool)| (e.0@, e.1))
}

fn paren_name(prefix: &str, item: &str) -> (r: String)
    ensures
        r@ == prefix@ + item@ + ")"@,
{
    concat3(prefix, item, ")")
}

fn required_exec(files: &Vec<String>, exist: &Vec<bool>) -> (r: (Vec<(String, bool)>, Vec<CheckResult>))
    ensures
        flag_views(r.0@) == required_scan(string_views(files@), exist@, files@.len() as int).0,
        check_models(r.1@) == required_scan(string_views(files@), exist@, files@.len() as int).1,
{
    let ghost fv = string_views(files@);
    let mut status: Vec<(String, bool)> = Vec::new();
    let mut checks: Vec<CheckResult> = Vec::new();
    assert(flag_views(status@) =~= Seq::<(Seq<char>, bool)>::empty());
    assert(check_models(checks@) =~= Seq::<CheckModel>::empty());
    for i in 0..files.len()
        invariant
            fv == string_views(files@),
            flag_views(status@) == required_scan(fv, exist@, i as int).0,
            check_models(checks@) == required_scan(fv, exist@, i as int).1,
    {
        let f = &files[i];
        assert(fv[i as int] == f@);
        let e = i < exist.len() && exist[i];
        let ghost before = flag_views(status@);
        status.push((f.clone(), e));
        assert(flag_views(status@) =~= before.push((f@, e)));
        if e {
            push_check(&mut checks, CheckResult { name: paren_name("Required File (", f.as_str()), status: CheckStatus::Pass, message: concat3("Required file '", f.as_str(), "' exists."), severity: Severity::Info });
        } else {
            push_check(&mut checks, CheckResult { name: paren_name("Required File (", f.as_str()), status: CheckStatus::Fail, message: concat3("Required file '", f.as_str(), "' is missing."), severity: Severity::Blocker });
        }
    }
    (status, checks)
}

fn artifacts_exec(patterns: &Vec<String>, matched: &Vec<bool>) -> (r: (Vec<(String, bool)>, Vec<CheckResult>))
    ensures
        flag_views(r.0@) == artifact_scan(string_views(patterns@), matched@, patterns@.len() as int).0,
        check_models(r.1@) == artifact_scan(string_views(patterns@), matched@, patterns@.len() as int).1,
{
    let ghost pv = string_views(patterns@);
    let mut status: Vec<(String, bool)> = Vec::new();
    let mut checks: Vec<CheckResult> = Vec::new();
    assert(flag_views(status@) =~= Seq::<(Seq<char>, bool)>::empty());
    assert(check_models(checks@) =~= Seq::<CheckModel>::empty());
    for i in 0..patterns.len()
        invariant
            pv == string_views(patterns@),
            flag_views(status@) == artifact_scan(pv, matched@, i as int).0,
            check_models(checks@) == artifact_scan(pv, matched@, i as int).1,
    {
        let p = &patterns[i];
        assert(pv[i as int] == p@);
        let m = i < matched.len() && matched[i];
        let ghost before = flag_views(status@);
        status.push((p.clone(), m));
        assert(flag_views(status@) =~= before.push((p@, m)));
        if m {
            push_check(&mut checks, CheckResult { name: paren_name("Required Artifact (", p.as_str()), status: CheckStatus::Pass, message: concat3("Artifact glob '", p.as_str(), "' matched one or more files."), severity: Severity::Info });
        } else {
            push_check(&mut checks, CheckResult { name: paren_name("Required Artifact (", p.as_str()), status: CheckStatus::Fail, message: concat3("Artifact glob '", p.as_str(), "' did not match any files."), severity: Severity::Warning });
        }
    }
    (status, checks)
}

// ---------------------------------------------------------------------------
// Forbidden strings
// ---------------------------------------------------------------------------

/// The forbidden strings among the first `k` that occur in `line`, each with
/// the line's number.
pub open spec fn line_hits(line: Seq<char>, forbidden: Seq<Seq<char>>, number: nat, k: int) -> Seq<(nat, Seq<char>)>
    decreases k,
{
    if k <= 0 {
        Seq::empty()
    } else {
        let prev = line_hits(line, forbidden, number, k - 1);
        if contains(line, forbidden[k - 1]) {
            prev.push((number, forbidden[k - 1]))
        } else {
            prev
        }
    }
}

/// The hits in the first `n` lines, lines numbered from 1.
pub open spec fn text_hits(ls: Seq<Seq<char>>, forbidden: Seq<Seq<char>>, n: int) -> Seq<(nat, Seq<char>)>
    decreases n,
{
    if n <= 0 {
        Seq::empty()
    } else {
        text_hits(ls, forbidden, n - 1) + line_hits(ls[n - 1], forbidden, n as nat, forbidden.len() as int)
    }
}

/// The hits in a version file: only a regular file whose text could be read
/// is scanned.
pub open spec fn file_hits(facts: (bool, bool, Seq<char>, Seq<char>, Option<Seq<char>>), forbidden: Seq<Seq<char>>) -> Seq<(nat, Seq<char>)> {
    if facts.1 && facts.4 is Some {
        let ls = lines(facts.4.unwrap());
        text_hits(ls, forbidden, ls.len() as int)
    } else {
        Seq::empty()
    }
}

/// The check reporting one hit.
pub open spec fn hit_check(file: Seq<char>, hit: (nat, Seq<char>)) -> CheckModel {
    check("Forbidden String Scan"@, CheckStatus::Fail, "Forbidden string '"@ + hit.1 + "' found in "@ + file + " at line "@ + decimal(hit.0) + "."@, Severity::Blocker)
}

/// What scanning the version files for forbidden strings has found so far.
pub struct ForbiddenScan {
    pub results: Seq<(Seq<char>, Seq<(nat, Seq<char>)>)>,
    pub checks: Seq<CheckModel>,
}

/// The scan of the first `n` version files.
pub open spec fn forbidden_scan(files: Seq<Seq<char>>, obs: Seq<VersionFileObservation>, forbidden: Seq<Seq<char>>, n: int) -> ForbiddenScan
    decreases n,
{
    if n <= 0 {
        ForbiddenScan { results: Seq::empty(), checks: Seq::empty() }
    } else {
        let prev = forbidden_scan(files, obs, forbidden, n - 1);
        let f = files[n - 1];
        let hits = file_hits(file_facts(obs, n - 1), forbidden);
        if hits.len() > 0 {
            ForbiddenScan {
                results: prev.results.push((f, hits)),
                checks: prev.checks + hits.map_values(|h: (nat, Seq<char>)| hit_check(f, h)),
            }
        } else {
            prev
        }
    }
}

/// The check that no forbidden string was found, when there are forbidden
/// strings and nothing was found.
pub open spec fn forbidden_summary(results_len: nat, forbidden_len: nat) -> Seq<CheckModel> {
    if results_len == 0 && forbidden_len > 0 {
        seq![check("Forbidden String Scan"@, CheckStatus::Pass, "No forbidden strings found in version files."@, Severity::Info)]
    } else {
        Seq::empty()
    }
}

pub open spec fn hit_views(v: Seq<(usize, String)>) -> Seq<(nat, Seq<char>)> {
    v.map_values(|h: (usize, String)| (h.0 as nat, h.1@))
}

impl FileForbiddenStrings {
    pub open spec fn model(self) -> (Seq<char>, Seq<(nat, Seq<char>)>) {
        (self.file_path@, hit_views(self.matches@))
    }
}

pub open spec fn forbidden_views(v: Seq<FileForbiddenStrings>) -> Seq<(Seq<char>, Seq<(nat, Seq<char>)>)> {
    v.map_values(|r: FileForbiddenStrings| r.model())
}

fn text_hits_exec(ls: &Vec<Vec<char>>, forbidden: &Vec<String>, fc: &Vec<Vec<char>>) -> (r: Vec<(usize, String)>)
    requires
        crate::text::char_views(fc@) == string_views(forbidden@),
    ensures
        hit_views(r@) == text_hits(crate::text::char_views(ls@), string_views(forbidden@), ls@.len() as int),
{
    let ghost lv = crate::text::char_views(ls@);
    let ghost fv = string_views(forbidden@);
    let mut hits: Vec<(usize, String)> = Vec::new();
    assert(hit_views(hits@) =~= Seq::<(nat, Seq<char>)>::empty());
    for i in 0..ls.len()
        invariant
            lv == crate::text::char_views(ls@),
            fv == string_views(forbidden@),
            crate::text::char_views(fc@) == fv,
            hit_views(hits@) == text_hits(lv, fv, i as int),
    {
        let ghost base = hit_views(hits@);
        let number = i + 1;
        assert(lv[i as int] == ls@[i as int]@);
        for k in 0..fc.len()
            invariant
                lv == crate::text::char_views(ls@),
                fv == string_views(forbidden@),
                crate::text::char_views(fc@) == fv,
                fc@.len() == fv.len(),
                i < ls@.len(),
                number == i + 1,
                base == text_hits(lv, fv, i as int),
                hit_views(hits@) == base + line_hits(lv[i as int], fv, number as nat, k as int),
        {
            assert(fv[k as int] == fc@[k as int]@);
            assert(fv[k as int] == forbidden@[k as int]@);
            if crate::text::contains_exec(&ls[i], &fc[k]) {
                let ghost before = hit_views(hits@);
                hits.push((number, forbidden[k].clone()));
                assert(hit_views(hits@) =~= before.push((number as nat, fv[k as int])));
            }
            assert(base + line_hits(lv[i as int], fv, number as nat, k + 1) =~= if crate::text::contains(lv[i as int], fv[k as int]) {
                (base + line_hits(lv[i as int], fv, number as nat, k as int)).push((number as nat, fv[k as int]))
            } else {
                base + line_hits(lv[i as int], fv, number as nat, k as int)
            });
        }
    }
    hits
}

fn hit_checks_exec(checks: &mut Vec<CheckResult>, file: &String, hits: &Vec<(usize, String)>)
    ensures
        check_models(final(checks)@) == check_models(old(checks)@) + hit_views(hits@).map_values(|h: (nat, Seq<char>)| hit_check(file@, h)),
{
    let ghost base = check_models(checks@);
    let ghost hv = hit_views(hits@);
    for j in 0..hits.len()
        invariant
            base == check_models(old(checks)@),
            hv == hit_views(hits@),
            check_models(checks@) == base + hv.take(j as int).map_values(|h: (nat, Seq<char>)| hit_check(file@, h)),
    {
        let (n, p) = (hits[j].0, &hits[j].1);
        assert(hv[j as int] == (n as nat, p@));
        let mut msg = String::from_str("Forbidden string '");
        msg.append(p.as_str());
        msg.append("' found in ");
        msg.append(file.as_str());
        msg.append(" at line ");
        push_decimal(&mut msg, n);
        msg.append(".");
        let ghost before = check_models(checks@);
        push_check(checks, make_check("Forbidden String Scan", CheckStatus::Fail, msg, Severity::Blocker));
        assert(hv.take(j + 1).map_values(|h: (nat, Seq<char>)| hit_check(file@, h)) =~= hv.take(j as int).map_values(|h: (nat, Seq<char>)| hit_check(file@, h)).push(hit_check(file@, hv[j as int])));
        assert(check_models(checks@) =~= base + hv.take(j + 1).map_values(|h: (nat, Seq<char>)| hit_check(file@, h)));
    }
    assert(hv.take(hits.len() as int) =~= hv);
}

fn forbidden_exec(files: &Vec<String>, obs: &Vec<VersionFileObservation>, forbidden: &Vec<String>) -> (r: (Vec<FileForbiddenStrings>, Vec<CheckResult>))
    ensures
        forbidden_views(r.0@) == forbidden_scan(string_views(files@), obs@, string_views(forbidden@), files@.len() as int).results,
        check_models(r.1@) == forbidden_scan(string_views(files@), obs@, string_views(forbidden@), files@.len() as int).checks,
{
    let ghost fv = string_views(files@);
    let ghost pv = string_views(forbidden@);
    let mut fc: Vec<Vec<char>> = Vec::new();
    for k in 0..forbidden.len()
        invariant
            pv == string_views(forbidden@),
            crate::text::char_views(fc@) == pv.take(k as int),
    {
        let ghost before = crate::text::char_views(fc@);
        assert(pv[k as int] == forbidden@[k as int]@);
        let cs = crate::text::chars_of(forbidden[k].as_str());
        assert(cs@ == pv[k as int]);
        fc.push(cs);
        assert(crate::text::char_views(fc@) =~= before.push(pv[k as int]));
        assert(pv.take(k + 1) =~= pv.take(k as int).push(pv[k as int]));
    }
    assert(pv.take(forbidden.len() as int) =~= pv);
    let mut results: Vec<FileForbiddenStrings> = Vec::new();
    let mut checks: Vec<CheckResult> = Vec::new();
    assert(forbidden_views(results@) =~= Seq::<(Seq<char>, Seq<(nat, Seq<char>)>)>::empty());
    assert(check_models(checks@) =~= Seq::<CheckModel>::empty());
    for i in 0..files.len()
        invariant
            fv == string_views(files@),
            pv == string_views(forbidden@),
            crate::text::char_views(fc@) == pv,
            forbidden_views(results@) == forbidden_scan(fv, obs@, pv, i as int).results,
            check_models(checks@) == forbidden_scan(fv, obs@, pv, i as int).checks,
    {
        assert(fv[i as int] == files@[i as int]@);
        if i < obs.len() && obs[i].is_file {
            if let Some(content) = &obs[i].content {
                let cs = crate::text::chars_of(content.as_str());
                let ls = crate::text::lines_of(&cs);
                let hits = text_hits_exec(&ls, forbidden, &fc);
                if hits.len() > 0 {
                    hit_checks_exec(&mut checks, &files[i], &hits);
                    let ghost before = forbidden_views(results@);
                    let entry = FileForbiddenStrings { file_path: files[i].clone(), matches: hits };
                    results.push(entry);
                    assert(forbidden_views(results@) =~= before.push((fv[i as int], hit_views(entry.matches@))));
                }
            }
        }
    }
    (results, checks)
}

// ---------------------------------------------------------------------------
// Secrets
// ---------------------------------------------------------------------------

/// The check summarising the secrets found or recommended.
pub open spec fn secrets_checks(found: nat, recommended: nat, project_type: Seq<char>) -> Seq<CheckModel> {
    if found > 0 {
        seq![check("GitHub Repository Secrets"@, CheckStatus::Info, "Detected "@ + decimal(found) + " secret(s) referenced in GitHub Actions workflows."@, Severity::Info)]
    } else if recommended > 0 {
        seq![check("GitHub Repository Secrets"@, CheckStatus::Info, "No workflow files found. Recommending "@ + decimal(recommended) + " secret(s) based on project type '"@ + project_type + "'."@, Severity::Info)]
    } else {
        Seq::empty()
    }
}

fn secrets_checks_exec(sc: &crate::secrets::SecretsCheck, project_type: &str) -> (r: Vec<CheckResult>)
    ensures
        check_models(r@) == secrets_checks(sc.found_in_workflows@.len(), sc.recommended_secrets@.len(), project_type@),
{
    let mut checks: Vec<CheckResult> = Vec::new();
    if sc.found_in_workflows.len() > 0 {
        let mut msg = String::from_str("Detected ");
        push_decimal(&mut msg, sc.found_in_workflows.len());
        msg.append(" secret(s) referenced in GitHub Actions workflows.");
        push_check(&mut checks, make_check("GitHub Repository Secrets", CheckStatus::Info, msg, Severity::Info));
    } else if sc.recommended_secrets.len() > 0 {
        let mut msg = String::from_str("No workflow files found. Recommending ");
        push_decimal(&mut msg, sc.recommended_secrets.len());
        msg.append(" secret(s) based on project type '");
        msg.append(project_type);
        msg.append("'.");
        push_check(&mut checks, make_check("GitHub Repository Secrets", CheckStatus::Info, msg, Severity::Info));
    }
    assert(check_models(checks@) =~= secrets_checks(sc.found_in_workflows@.len(), sc.recommended_secrets@.len(), project_type@));
    checks
}

// ---------------------------------------------------------------------------
// The whole run
// ---------------------------------------------------------------------------

/// Everything a report shows.
#[derive(Debug, Clone)]
pub struct ReportData {
    pub project_name: String,
    pub project_type: String,
    pub in_git_repo: bool,
    /// Why git could not inspect the target, when it failed for a reason
    /// other than the target not being a repository.
    pub git_error: Option<String>,
    pub is_git_clean: bool,
    pub dirty_files: Vec<String>,
    pub current_branch: String,
    pub expected_branch: String,
    pub latest_tag: Option<String>,
    pub commits_since_tag: Option<usize>,
    /// Each version file's version, in configuration order.
    pub file_versions: Vec<(String, Option<String>)>,
    pub versions_consistent: bool,
    pub versions_greater_than_tag: bool,
    /// `(file, exists)`
    pub required_files_status: Vec<(String, bool)>,
    /// `(glob pattern, matched)`
    pub artifacts_status: Vec<(String, bool)>,
    pub forbidden_strings_results: Vec<FileForbiddenStrings>,
    pub secrets_info: crate::secrets::SecretsCheck,
    pub check_results: Vec<CheckResult>,
}

pub open spec fn opt_str_view(o: Option<String>) -> Option<Seq<char>> {
    match o {
        Some(s) => Some(s@),
        None => None,
    }
}

/// `d` is the report for configuration `c` and observations `o`.
pub open spec fn report_for(d: ReportData, c: Config, o: Observations) -> bool {
    let files = string_views(c.project.version_files@);
    let forbidden = string_views(c.checks.forbidden_strings@);
    let g = git_model(c, o.git);
    let vs = version_scan(files, o.version_files@, files.len() as int);
    let cons = consistency(vs.extracted);
    let prog = progress(vs.extracted, g.latest_tag, g.commits);
    let req = required_scan(string_views(c.checks.required_files@), o.required_files_exist@, c.checks.required_files@.len() as int);
    let art = artifact_scan(string_views(c.artifacts.required@), o.artifact_matches@, c.artifacts.required@.len() as int);
    let fb = forbidden_scan(files, o.version_files@, forbidden, files.len() as int);
    let found = string_views(d.secrets_info.found_in_workflows@);
    &&& d.project_name@ == c.project.name@
    &&& d.project_type@ == c.project.project_type@
    &&& d.in_git_repo == g.in_repo
    &&& opt_str_view(d.git_error) == g.error
    &&& d.is_git_clean == g.clean
    &&& string_views(d.dirty_files@) == g.dirty
    &&& d.current_branch@ == g.branch
    &&& d.expected_branch@ == c.git.main_branch@
    &&& opt_str_view(d.latest_tag) == g.latest_tag
    &&& (match d.commits_since_tag {
        Some(n) => Some(n as nat),
        None => None,
    }) == g.commits
    &&& entry_views(d.file_versions@) == vs.versions
    &&& d.versions_consistent == cons.0
    &&& d.versions_greater_than_tag == prog.0
    &&& flag_views(d.required_files_status@) == req.0
    &&& flag_views(d.artifacts_status@) == art.0
    &&& forbidden_views(d.forbidden_strings_results@) == fb.results
    &&& crate::secrets::strictly_sorted(found)
    &&& forall|s: Seq<char>| found.contains(s) <==> crate::secrets::referenced_secret(string_views(o.workflows@), s)
    &&& string_views(d.secrets_info.recommended_secrets@) == crate::secrets::recommended_for(c.project.project_type@)
    &&& check_models(d.check_results@) == g.checks + vs.checks + cons.1 + prog.1 + req.1 + art.1 + fb.checks
        + forbidden_summary(fb.results.len(), forbidden.len()) + secrets_checks(found.len(), d.secrets_info.recommended_secrets@.len(), c.project.project_type@)
}

/// Why the checks could not run.
#[derive(Debug, Clone)]
pub enum CheckError {
    /// A configured version file, required file or artifact pattern is
    /// absolute or could leave the target; the error names the first such
    /// entry, version files first, then required files, then artifact
    /// patterns.
    UnsafePath(PathSafetyError),
    /// The secret-reference pattern could not be compiled.
    Secrets(crate::secrets::SecretsError),
}

/// Runs every check of the configuration against what was observed of the
/// project. The configured paths are validated first: an unsafe one stops
/// the run before anything observed is looked at. Otherwise the run fails
/// only if the secret-reference pattern does not compile.
pub fn run_checks(config: &Config, obs: &Observations) -> (r: Result<ReportData, CheckError>)
    ensures
        match r {
            Err(CheckError::UnsafePath(e)) => !config_paths_valid(*config) && config_paths_ok(
                Err(e),
                *config,
            ),
            Err(CheckError::Secrets(_)) => config_paths_valid(*config)
                && !crate::secrets::pattern_compiles_for(string_views(obs.workflows@)),
            Ok(d) => config_paths_valid(*config) && crate::secrets::pattern_compiles_for(
                string_views(obs.workflows@),
            ) && report_for(d, *config, *obs),
        },
{
    match validate_config(config) {
        Err(e) => {
            return Err(CheckError::UnsafePath(e));
        },
        Ok(()) => {},
    }
    let g = git_summary(config, &obs.git);
    let (file_versions, extracted, version_checks) = scan_version_files(&config.project.version_files, &obs.version_files);
    let (versions_consistent, consistency_checks) = consistency_exec(&extracted);
    let (versions_greater_than_tag, progress_checks) = progress_exec(&extracted, &g.latest_tag, g.commits);
    let (required_files_status, required_checks) = required_exec(&config.checks.required_files, &obs.required_files_exist);
    let (artifacts_status, artifact_checks) = artifacts_exec(&config.artifacts.required, &obs.artifact_matches);
    let (forbidden_strings_results, forbidden_checks) = forbidden_exec(&config.project.version_files, &obs.version_files, &config.checks.forbidden_strings);
    let secrets_info = match crate::secrets::check_github_secrets(&obs.workflows, config.project.project_type.as_str()) {
        Ok(sc) => sc,
        Err(e) => {
            return Err(CheckError::Secrets(e));
        },
    };
    let mut check_results: Vec<CheckResult> = Vec::new();
    assert(check_models(check_results@) =~= Seq::<CheckModel>::empty());
    let ghost gm = g.model();
    append_checks(&mut check_results, g.checks);
    assert(check_models(check_results@) =~= gm.checks);
    append_checks(&mut check_results, version_checks);
    append_checks(&mut check_results, consistency_checks);
    append_checks(&mut check_results, progress_checks);
    append_checks(&mut check_results, required_checks);
    append_checks(&mut check_results, artifact_checks);
    append_checks(&mut check_results, forbidden_checks);
    if forbidden_strings_results.len() == 0 && config.checks.forbidden_strings.len() > 0 {
        push_check(&mut check_results, make_check("Forbidden String Scan", CheckStatus::Pass, String::from_str("No forbidden strings found in version files."), Severity::Info));
    }
    let ghost before_secrets = check_models(check_results@);
    assert(before_secrets == gm.checks + check_models(version_checks@) + check_models(consistency_checks@) + check_models(progress_checks@) + check_models(required_checks@) + check_models(artifact_checks@) + check_models(forbidden_checks@) + forbidden_summary(forbidden_views(forbidden_strings_results@).len(), string_views(config.checks.forbidden_strings@).len())) by {
        if forbidden_strings_results.len() == 0 && config.checks.forbidden_strings.len() > 0 {
        } else {
            assert(before_secrets =~= before_secrets + Seq::<CheckModel>::empty());
        }
    }
    append_checks(&mut check_results, secrets_checks_exec(&secrets_info, config.project.project_type.as_str()));
    Ok(ReportData {
        project_name: config.project.name.clone(),
        project_type: config.project.project_type.clone(),
        in_git_repo: g.in_repo,
        git_error: g.error,
        is_git_clean: g.clean,
        dirty_files: g.dirty,
        current_branch: g.branch,
        expected_branch: config.git.main_branch.clone(),
        latest_tag: g.latest_tag,
        commits_since_tag: g.commits,
        file_versions,
        versions_consistent,
        versions_greater_than_tag,
        required_files_status,
        artifacts_status,
        forbidden_strings_results,
        secrets_info,
        check_results,
    })
}

/// The check fails with the blocker severity.
pub open spec fn is_blocker(c: CheckModel) -> bool {
    c.status == CheckStatus::Fail && c.severity == Severity::Blocker
}

/// The check fails with the warning severity.
pub open spec fn is_warning(c: CheckModel) -> bool {
    c.status == CheckStatus::Fail && c.severity == Severity::Warning
}

/// Whether any check failed as a blocker (the run then exits with status 1).
pub fn has_blockers(data: &ReportData) -> (r: bool)
    ensures
        r == exists|i: int| 0 <= i < data.check_results@.len() && is_blocker(#[trigger] data.check_results@[i].model()),
{
    let mut i: usize = 0;
    while i < data.check_results.len()
        invariant
            i <= data.check_results@.len(),
            forall|j: int| 0 <= j < i ==> !is_blocker(#[trigger] data.check_results@[j].model()),
        decreases data.check_results.len() - i,
    {
        let c = &data.check_results[i];
        if c.status == CheckStatus::Fail && c.severity == Severity::Blocker {
            assert(is_blocker(data.check_results@[i as int].model()));
            return true;
        }
        i = i + 1;
    }
    false
}

// ---------------------------------------------------------------------------
// Laws of the checks
// ---------------------------------------------------------------------------

/// The versions are reported consistent exactly when every version found
/// equals the first one.
pub proof fn lemma_consistent_iff_all_equal(ex: Seq<(Seq<char>, Seq<char>)>)
    ensures
        consistency(ex).0 <==> forall|j: int| 0 <= j < ex.len() ==> (#[trigger] ex[j]).1 == ex[0].1,
{
    lemma_first_mismatch(ex);
    if first_mismatch(ex) >= 1 {
        let m = first_mismatch(ex);
        assert(ex[m].1 != ex[0].1);
    }
}

proof fn lemma_line_hits_exact(line: Seq<char>, forbidden: Seq<Seq<char>>, number: nat, k: int)
    requires
        0 <= k <= forbidden.len(),
    ensures
        forall|h: (nat, Seq<char>)|
            line_hits(line, forbidden, number, k).contains(h) <==> (h.0 == number && contains(line, h.1)
                && exists|j: int| 0 <= j < k && forbidden[j] == h.1),
    decreases k,
{
    if k > 0 {
        lemma_line_hits_exact(line, forbidden, number, k - 1);
        let prev = line_hits(line, forbidden, number, k - 1);
        let cur = line_hits(line, forbidden, number, k);
        assert forall|h: (nat, Seq<char>)|
            cur.contains(h) <==> (h.0 == number && contains(line, h.1) && exists|j: int|
                0 <= j < k && forbidden[j] == h.1) by {
            if cur.contains(h) {
                if prev.contains(h) {
                    let j = choose|j: int| 0 <= j < k - 1 && forbidden[j] == h.1;
                    assert(0 <= j < k && forbidden[j] == h.1);
                } else {
                    let i = choose|i: int| 0 <= i < cur.len() && cur[i] == h;
                    if i < prev.len() {
                        assert(prev[i] == h);
                    }
                    assert(forbidden[k - 1] == h.1);
                }
            }
            if h.0 == number && contains(line, h.1) && exists|j: int| 0 <= j < k && forbidden[j] == h.1 {
                let j = choose|j: int| 0 <= j < k && forbidden[j] == h.1;
                if j < k - 1 {
                    assert(prev.contains(h));
                    let i = choose|i: int| 0 <= i < prev.len() && prev[i] == h;
                    assert(cur[i] == h);
                } else {
                    assert(cur[cur.len() - 1] == (number, forbidden[k - 1]));
                    assert(h == (number, forbidden[k - 1]));
                }
            }
        }
    }
}

/// A version file's scan reports exactly the pairs (line number, forbidden
/// string) such that the line with that number (counting from 1) contains
/// the string.
pub proof fn lemma_text_hits_exact(ls: Seq<Seq<char>>, forbidden: Seq<Seq<char>>, n: int)
    requires
        0 <= n <= ls.len(),
    ensures
        forall|h: (nat, Seq<char>)|
            text_hits(ls, forbidden, n).contains(h) <==> (1 <= h.0 <= n && contains(ls[h.0 - 1], h.1)
                && forbidden.contains(h.1)),
    decreases n,
{
    if n > 0 {
        lemma_text_hits_exact(ls, forbidden, n - 1);
        lemma_line_hits_exact(ls[n - 1], forbidden, n as nat, forbidden.len() as int);
        let prev = text_hits(ls, forbidden, n - 1);
        let lh = line_hits(ls[n - 1], forbidden, n as nat, forbidden.len() as int);
        let cur = text_hits(ls, forbidden, n);
        assert(cur == prev + lh);
        assert forall|h: (nat, Seq<char>)|
            cur.contains(h) <==> (1 <= h.0 <= n && contains(ls[h.0 - 1], h.1) && forbidden.contains(h.1)) by {
            if cur.contains(h) {
                let i = choose|i: int| 0 <= i < cur.len() && cur[i] == h;
                if i < prev.len() {
                    assert(prev[i] == h);
                    assert(prev.contains(h));
                } else {
                    assert(lh[i - prev.len()] == h);
                    assert(lh.contains(h));
                    let j = choose|j: int| 0 <= j < forbidden.len() && forbidden[j] == h.1;
                    assert(forbidden.contains(h.1));
                }
            }
            if 1 <= h.0 <= n && contains(ls[h.0 - 1], h.1) && forbidden.contains(h.1) {
                if h.0 < n {
                    assert(prev.contains(h));
                    let i = choose|i: int| 0 <= i < prev.len() && prev[i] == h;
                    assert(cur[i] == h);
                } else {
                    let j = choose|j: int| 0 <= j < forbidden.len() && forbidden[j] == h.1;
                    assert(lh.contains(h));
                    let i = choose|i: int| 0 <= i < lh.len() && lh[i] == h;
                    assert(cur[prev.len() + i] == h);
                }
            }
        }
    }
}


/// Some check in `cs` fails as a blocker.
pub open spec fn blocks(cs: Seq<CheckModel>) -> bool {
    exists|j: int| 0 <= j < cs.len() && is_blocker(#[trigger] cs[j])
}

/// What blocks a release: inside a repository, a dirty working tree when the
/// configuration requires a clean one; outside one, a git failure other than
/// the target not being a repository; a missing required file; or a
/// forbidden string found in a version file.
pub open spec fn release_blocked(c: Config, o: Observations) -> bool {
    let files = string_views(c.project.version_files@);
    let fb = forbidden_scan(files, o.version_files@, string_views(c.checks.forbidden_strings@), files.len() as int);
    ||| (inside_work_tree(o.git.inside) && (o.git.status matches Ok(st) && c.git.require_clean_tree
        && !tree_state(st@).0))
    ||| (!inside_work_tree(o.git.inside) && git_error_of(o.git) is Some)
    ||| (exists|i: int| 0 <= i < c.checks.required_files@.len() && !#[trigger] flag_at(o.required_files_exist@, i))
    ||| fb.results.len() > 0
}

proof fn lemma_blocks_concat(a: Seq<CheckModel>, b: Seq<CheckModel>)
    ensures
        blocks(a + b) <==> (blocks(a) || blocks(b)),
{
    let ab = a + b;
    if blocks(ab) {
        let j = choose|j: int| 0 <= j < ab.len() && is_blocker(#[trigger] ab[j]);
        if j < a.len() {
            assert(ab[j] == a[j]);
        } else {
            assert(ab[j] == b[j - a.len()]);
        }
    }
    if blocks(a) {
        let j = choose|j: int| 0 <= j < a.len() && is_blocker(#[trigger] a[j]);
        assert(ab[j] == a[j]);
    }
    if blocks(b) {
        let j = choose|j: int| 0 <= j < b.len() && is_blocker(#[trigger] b[j]);
        assert(ab[a.len() + j] == b[j]);
    }
}

proof fn lemma_blocks_push(a: Seq<CheckModel>, x: CheckModel)
    ensures
        blocks(a.push(x)) <==> (blocks(a) || is_blocker(x)),
{
    lemma_blocks_concat(a, seq![x]);
    assert(a.push(x) =~= a + seq![x]);
    if is_blocker(x) {
        assert(seq![x][0] == x);
    }
}

proof fn lemma_version_scan_never_blocks(files: Seq<Seq<char>>, obs: Seq<VersionFileObservation>, n: int)
    ensures
        !blocks(version_scan(files, obs, n).checks),
    decreases n,
{
    if n > 0 {
        lemma_version_scan_never_blocks(files, obs, n - 1);
        let prev = version_scan(files, obs, n - 1);
        let cur = version_scan(files, obs, n);
        if cur.checks != prev.checks {
            let x = cur.checks.last();
            assert(cur.checks =~= prev.checks.push(x));
            lemma_blocks_push(prev.checks, x);
        }
    }
}

proof fn lemma_required_scan_blocks(files: Seq<Seq<char>>, exist: Seq<bool>, n: int)
    ensures
        blocks(required_scan(files, exist, n).1) <==> exists|i: int| 0 <= i < n && !#[trigger] flag_at(exist, i),
    decreases n,
{
    if n > 0 {
        lemma_required_scan_blocks(files, exist, n - 1);
        let prev = required_scan(files, exist, n - 1).1;
        let x = required_scan(files, exist, n).1.last();
        assert(required_scan(files, exist, n).1 =~= prev.push(x));
        lemma_blocks_push(prev, x);
        if exists|i: int| 0 <= i < n && !#[trigger] flag_at(exist, i) {
            let i = choose|i: int| 0 <= i < n && !#[trigger] flag_at(exist, i);
            if i < n - 1 {
                assert(exists|i: int| 0 <= i < n - 1 && !#[trigger] flag_at(exist, i));
            }
        }
        if exists|i: int| 0 <= i < n - 1 && !#[trigger] flag_at(exist, i) {
            let i = choose|i: int| 0 <= i < n - 1 && !#[trigger] flag_at(exist, i);
            assert(0 <= i < n && !flag_at(exist, i));
        }
        if !flag_at(exist, n - 1) {
            assert(0 <= n - 1 < n && !flag_at(exist, n - 1));
        }
    }
}

proof fn lemma_artifact_scan_never_blocks(patterns: Seq<Seq<char>>, matched: Seq<bool>, n: int)
    ensures
        !blocks(artifact_scan(patterns, matched, n).1),
    decreases n,
{
    if n > 0 {
        lemma_artifact_scan_never_blocks(patterns, matched, n - 1);
        let prev = artifact_scan(patterns, matched, n - 1).1;
        let x = artifact_scan(patterns, matched, n).1.last();
        assert(artifact_scan(patterns, matched, n).1 =~= prev.push(x));
        lemma_blocks_push(prev, x);
    }
}

proof fn lemma_forbidden_scan_blocks(files: Seq<Seq<char>>, obs: Seq<VersionFileObservation>, forbidden: Seq<Seq<char>>, n: int)
    ensures
        blocks(forbidden_scan(files, obs, forbidden, n).checks) <==> forbidden_scan(files, obs, forbidden, n).results.len() > 0,
    decreases n,
{
    if n > 0 {
        lemma_forbidden_scan_blocks(files, obs, forbidden, n - 1);
        let prev = forbidden_scan(files, obs, forbidden, n - 1);
        let f = files[n - 1];
        let hits = file_hits(file_facts(obs, n - 1), forbidden);
        if hits.len() > 0 {
            let hc = hits.map_values(|h: (nat, Seq<char>)| hit_check(f, h));
            lemma_blocks_concat(prev.checks, hc);
            assert(is_blocker(hc[0]));
        }
    }
}

proof fn lemma_git_checks_block(c: Config, g: GitObservation)
    ensures
        blocks(git_model(c, g).checks) <==> ((inside_work_tree(g.inside) && (g.status matches Ok(st)
            && c.git.require_clean_tree && !tree_state(st@).0)) || (!inside_work_tree(g.inside)
            && git_error_of(g) is Some)),
{
    let m = git_model(c, g);
    if inside_work_tree(g.inside) {
        let t = tree_part(c, g);
        let b = branch_part(c, g);
        let l = tag_part(c, g);
        lemma_blocks_concat(t.2 + b.1, l.2);
        lemma_blocks_concat(t.2, b.1);
        if t.2.len() > 0 {
            assert(t.2.len() == 1);
            assert(blocks(t.2) <==> is_blocker(t.2[0]));
        }
        if b.1.len() > 0 {
            assert(!is_blocker(b.1[0]));
        }
        if l.2.len() > 0 {
            assert(!is_blocker(l.2[0]));
            if l.2.len() > 1 {
                assert(l.2.len() == 2);
                assert(!is_blocker(l.2[1]));
            }
        }
    } else {
        assert(m.checks.len() == 1);
        assert(blocks(m.checks) <==> is_blocker(m.checks[0]));
    }
}

proof fn lemma_single_never_blocks(cs: Seq<CheckModel>)
    requires
        cs.len() <= 1,
        cs.len() == 1 ==> !is_blocker(cs[0]),
    ensures
        !blocks(cs),
{
}

/// A run reports a blocker (and the command exits with status 1) exactly
/// when the release is blocked: by a dirty working tree that the
/// configuration requires clean, by a git failure other than the target not
/// being a repository, by a missing required file, or by a forbidden string
/// in a version file. Warnings never block.
pub proof fn lemma_blocked_exactly(d: ReportData, c: Config, o: Observations)
    requires
        report_for(d, c, o),
    ensures
        (exists|j: int| 0 <= j < d.check_results@.len() && is_blocker(#[trigger] d.check_results@[j].model()))
            <==> release_blocked(c, o),
{
    let files = string_views(c.project.version_files@);
    let forbidden = string_views(c.checks.forbidden_strings@);
    let g = git_model(c, o.git);
    let vs = version_scan(files, o.version_files@, files.len() as int);
    let cons = consistency(vs.extracted);
    let prog = progress(vs.extracted, g.latest_tag, g.commits);
    let req = required_scan(string_views(c.checks.required_files@), o.required_files_exist@, c.checks.required_files@.len() as int);
    let art = artifact_scan(string_views(c.artifacts.required@), o.artifact_matches@, c.artifacts.required@.len() as int);
    let fb = forbidden_scan(files, o.version_files@, forbidden, files.len() as int);
    let fs = forbidden_summary(fb.results.len(), forbidden.len());
    let sc = secrets_checks(d.secrets_info.found_in_workflows@.len(), d.secrets_info.recommended_secrets@.len(), c.project.project_type@);
    lemma_git_checks_block(c, o.git);
    lemma_version_scan_never_blocks(files, o.version_files@, files.len() as int);
    lemma_single_never_blocks(cons.1);
    lemma_single_never_blocks(prog.1);
    lemma_required_scan_blocks(string_views(c.checks.required_files@), o.required_files_exist@, c.checks.required_files@.len() as int);
    lemma_artifact_scan_never_blocks(string_views(c.artifacts.required@), o.artifact_matches@, c.artifacts.required@.len() as int);
    lemma_forbidden_scan_blocks(files, o.version_files@, forbidden, files.len() as int);
    lemma_single_never_blocks(fs);
    lemma_single_never_blocks(sc);
    let s1 = g.checks + vs.checks;
    let s2 = s1 + cons.1;
    let s3 = s2 + prog.1;
    let s4 = s3 + req.1;
    let s5 = s4 + art.1;
    let s6 = s5 + fb.checks;
    let s7 = s6 + fs;
    lemma_blocks_concat(g.checks, vs.checks);
    lemma_blocks_concat(s1, cons.1);
    lemma_blocks_concat(s2, prog.1);
    lemma_blocks_concat(s3, req.1);
    lemma_blocks_concat(s4, art.1);
    lemma_blocks_concat(s5, fb.checks);
    lemma_blocks_concat(s6, fs);
    lemma_blocks_concat(s7, sc);
    let all = check_models(d.check_results@);
    assert(all == s7 + sc);
    if exists|j: int| 0 <= j < d.check_results@.len() && is_blocker(#[trigger] d.check_results@[j].model()) {
        let j = choose|j: int| 0 <= j < d.check_results@.len() && is_blocker(#[trigger] d.check_results@[j].model());
        assert(all[j] == d.check_results@[j].model());
    }
    if blocks(all) {
        let j = choose|j: int| 0 <= j < all.len() && is_blocker(#[trigger] all[j]);
        assert(all[j] == d.check_results@[j].model());
    }
}


/// No file occurs twice among the keys of `m`.
pub open spec fn keys_distinct(m: Seq<(Seq<char>, Option<Seq<char>>)>) -> bool {
    forall|i: int, j: int| 0 <= i < j < m.len() ==> (#[trigger] m[i]).0 != (#[trigger] m[j]).0
}

proof fn lemma_upsert_keeps_keys_distinct(m: Seq<(Seq<char>, Option<Seq<char>>)>, k: Seq<char>, v: Option<Seq<char>>)
    requires
        keys_distinct(m),
    ensures
        keys_distinct(upsert(m, k, v)),
{
    lemma_key_index(m, k);
    let u = upsert(m, k, v);
    let ki = key_index(m, k);
    assert forall|i: int, j: int| 0 <= i < j < u.len() implies (#[trigger] u[i]).0 != (#[trigger] u[j]).0 by {
        if ki >= 0 {
            assert(u[i].0 == m[i].0);
            assert(u[j].0 == m[j].0);
        } else if j < m.len() {
            assert(u[i] == m[i] && u[j] == m[j]);
        } else {
            assert(u[j].0 == k);
            assert(u[i] == m[i]);
        }
    }
}

proof fn lemma_version_scan_keys_distinct(files: Seq<Seq<char>>, obs: Seq<VersionFileObservation>, n: int)
    ensures
        keys_distinct(version_scan(files, obs, n).versions),
    decreases n,
{
    if n > 0 {
        lemma_version_scan_keys_distinct(files, obs, n - 1);
        let prev = version_scan(files, obs, n - 1);
        let facts = file_facts(obs, n - 1);
        if facts.0 {
            match crate::version::extracted_version(facts.2, true, facts.4) {
                Ok(Some(v)) => lemma_upsert_keeps_keys_distinct(prev.versions, files[n - 1], Some(v)),
                Ok(None) => lemma_upsert_keeps_keys_distinct(prev.versions, files[n - 1], None),
                Err(_) => {},
            }
        }
    }
}

/// Each version file appears at most once among a report's file versions,
/// as it would as the key of a map, even when the configuration lists it
/// twice.
pub proof fn lemma_file_versions_distinct(d: ReportData, c: Config, o: Observations)
    requires
        report_for(d, c, o),
    ensures
        forall|i: int, j: int| 0 <= i < j < d.file_versions@.len() ==> (#[trigger] d.file_versions@[i]).0@
            != (#[trigger] d.file_versions@[j]).0@,
{
    let files = string_views(c.project.version_files@);
    lemma_version_scan_keys_distinct(files, o.version_files@, files.len() as int);
    let ev = entry_views(d.file_versions@);
    assert forall|i: int, j: int| 0 <= i < j < d.file_versions@.len() implies (#[trigger] d.file_versions@[i]).0@
        != (#[trigger] d.file_versions@[j]).0@ by {
        assert(ev[i].0 == d.file_versions@[i].0@);
        assert(ev[j].0 == d.file_versions@[j].0@);
    }
}


/// Any git command that was run and failed for a reason other than the
/// target not being a repository leaves its message in the report's git
/// error: the work-tree probe, and inside a work tree the status, branch and
/// tag queries. When none failed (and no commit count failed), there is no
/// git error.
pub proof fn lemma_git_failures_recorded(d: ReportData, c: Config, o: Observations)
    requires
        report_for(d, c, o),
    ensures
        !inside_work_tree(o.git.inside) && failure_text(o.git.inside) is Some ==> opt_str_view(d.git_error)
            == failure_text(o.git.inside),
        inside_work_tree(o.git.inside) && (failure_text(o.git.status) is Some || failure_text(o.git.branch)
            is Some || failure_text(o.git.tags) is Some) ==> d.git_error is Some,
        inside_work_tree(o.git.inside) && failure_text(o.git.status) is None && failure_text(o.git.branch)
            is None && failure_text(o.git.tags) is None && count_failure(o.git) is None ==> d.git_error is None,
        !inside_work_tree(o.git.inside) && failure_text(o.git.inside) is None ==> d.git_error is None,
{
}


proof fn lemma_forbidden_scan_keeps_file(files: Seq<Seq<char>>, obs: Seq<VersionFileObservation>, forbidden: Seq<Seq<char>>, n: int, i: int)
    requires
        0 <= i < n,
        file_hits(file_facts(obs, i), forbidden).len() > 0,
    ensures
        forbidden_scan(files, obs, forbidden, n).results.contains((files[i], file_hits(file_facts(obs, i), forbidden))),
    decreases n,
{
    let prev = forbidden_scan(files, obs, forbidden, n - 1);
    let cur = forbidden_scan(files, obs, forbidden, n);
    if i == n - 1 {
        assert(cur.results.last() == (files[i], file_hits(file_facts(obs, i), forbidden)));
    } else {
        lemma_forbidden_scan_keeps_file(files, obs, forbidden, n - 1, i);
        let e = (files[i], file_hits(file_facts(obs, i), forbidden));
        let k = choose|k: int| 0 <= k < prev.results.len() && prev.results[k] == e;
        assert(cur.results[k] == e);
    }
}

/// Every configured version file that is a readable regular file is
/// scanned: whenever line `line` (counting from 1) of the `i`th version
/// file's text contains a configured forbidden string `s`, the report lists
/// `(line, s)` among the hits for that file, and a check blocks the release.
pub proof fn lemma_every_version_file_scanned(
    d: ReportData,
    c: Config,
    o: Observations,
    i: int,
    line: int,
    s: Seq<char>,
)
    requires
        report_for(d, c, o),
        0 <= i < c.project.version_files@.len(),
        i < o.version_files@.len(),
        o.version_files@[i].is_file,
        o.version_files@[i].content is Some,
        1 <= line <= lines(o.version_files@[i].content.unwrap()@).len(),
        contains(lines(o.version_files@[i].content.unwrap()@)[line - 1], s),
        string_views(c.checks.forbidden_strings@).contains(s),
    ensures
        exists|k: int|
            0 <= k < d.forbidden_strings_results@.len() && (#[trigger] d.forbidden_strings_results@[k]).file_path@
                == c.project.version_files@[i]@ && hit_views(d.forbidden_strings_results@[k].matches@).contains(
                (line as nat, s),
            ),
        exists|j: int| 0 <= j < d.check_results@.len() && is_blocker(#[trigger] d.check_results@[j].model()),
{
    let files = string_views(c.project.version_files@);
    let forbidden = string_views(c.checks.forbidden_strings@);
    let obs = o.version_files@;
    let text = o.version_files@[i].content.unwrap()@;
    let ls = lines(text);
    assert(file_facts(obs, i).1 && file_facts(obs, i).4 == Some(text));
    let hits = file_hits(file_facts(obs, i), forbidden);
    assert(hits == text_hits(ls, forbidden, ls.len() as int));
    lemma_text_hits_exact(ls, forbidden, ls.len() as int);
    assert(hits.contains((line as nat, s)));
    let fb = forbidden_scan(files, obs, forbidden, files.len() as int);
    lemma_forbidden_scan_keeps_file(files, obs, forbidden, files.len() as int, i);
    let e = (files[i], hits);
    let k = choose|k: int| 0 <= k < fb.results.len() && fb.results[k] == e;
    assert(forbidden_views(d.forbidden_strings_results@)[k] == d.forbidden_strings_results@[k].model());
    assert(files[i] == c.project.version_files@[i]@);
    assert(d.forbidden_strings_results@[k].file_path@ == c.project.version_files@[i]@);
    lemma_blocked_exactly(d, c, o);
}

} // verus!
