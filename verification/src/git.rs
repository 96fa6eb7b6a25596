//! Reading what `git` reports: classifying failures, and the working tree
//! state, latest tag and commit count from command output. Running the
//! commands is the caller's part.
use vstd::prelude::*;
use crate::text::{
    char_views, chars_of, contains, lines, lines_of, parse_unsigned, parse_unsigned_exec,
    str_contains, str_eq, string_of, string_views, trim, trim_chars,
};

verus! {

/// Why a `git` command gave no usable output.
#[derive(Debug, Clone)]
pub enum GitFailure {
    /// The `git` program could not be started.
    NotInstalled,
    /// Git refused the repository because another user owns it.
    DubiousOwnership,
    /// The target is not inside a Git repository.
    NotARepository,
    /// Any other failure, with what git printed on stderr, trimmed.
    CommandFailed(String),
    /// The output was not valid UTF-8.
    InvalidUtf8,
    /// A commit count could not be read as a number.
    UnreadableCount,
}

/// How a failed command is classified from its stderr.
pub open spec fn failure_kind(stderr: Seq<char>) -> int {
    if contains(stderr, "dubious ownership"@) {
        1
    } else if contains(stderr, "not a git repository"@) {
        2
    } else {
        3
    }
}

/// `f` is the classification of a failed command that printed `stderr`.
pub open spec fn classifies(f: GitFailure, stderr: Seq<char>) -> bool {
    match f {
        GitFailure::DubiousOwnership => failure_kind(stderr) == 1,
        GitFailure::NotARepository => failure_kind(stderr) == 2,
        GitFailure::CommandFailed(e) => failure_kind(stderr) == 3 && e@ == trim(stderr),
        _ => false,
    }
}

/// Classifies a failed command by what it printed on stderr.
pub fn classify_git_failure(stderr: &str) -> (r: GitFailure)
    ensures
        classifies(r, stderr@),
{
    if str_contains(stderr, "dubious ownership") {
        GitFailure::DubiousOwnership
    } else if str_contains(stderr, "not a git repository") {
        GitFailure::NotARepository
    } else {
        let c = chars_of(stderr);
        let t = trim_chars(&c);
        GitFailure::CommandFailed(string_of(&t))
    }
}

/// The outcome of one `git` run: the program could be started (`launched`),
/// it exited successfully (`success`), its stdout if that was valid UTF-8,
/// and its stderr.
pub open spec fn git_outcome_ok(
    r: Result<String, GitFailure>,
    launched: bool,
    success: bool,
    stdout: Option<Seq<char>>,
    stderr: Seq<char>,
) -> bool {
    if !launched {
        r == Err::<String, GitFailure>(GitFailure::NotInstalled)
    } else if !success {
        r matches Err(f) && classifies(f, stderr)
    } else {
        match stdout {
            None => r == Err::<String, GitFailure>(GitFailure::InvalidUtf8),
            Some(out) => r matches Ok(s) && s@ == trim(out),
        }
    }
}

/// Turns what one `git` run produced into its trimmed stdout or a failure.
pub fn interpret_git_output(launched: bool, success: bool, stdout: &Option<String>, stderr: &str) -> (r: Result<
    String,
    GitFailure,
>)
    ensures
        git_outcome_ok(
            r,
            launched,
            success,
            match stdout {
                Some(s) => Some(s@),
                None => None,
            },
            stderr@,
        ),
{
    if !launched {
        return Err(GitFailure::NotInstalled);
    }
    if !success {
        return Err(classify_git_failure(stderr));
    }
    match stdout {
        None => Err(GitFailure::InvalidUtf8),
        Some(out) => {
            let c = chars_of(out.as_str());
            let t = trim_chars(&c);
            Ok(string_of(&t))
        },
    }
}

impl GitFailure {
    /// The message shown for the failure.
    pub open spec fn text(self) -> Seq<char> {
        match self {
            GitFailure::NotInstalled => "Failed to execute git process. Is git installed and in PATH?"@,
            GitFailure::DubiousOwnership =>
                "Git refused to inspect the target because of dubious ownership. Mark it safe with `git config --global --add safe.directory <path>`."@,
            GitFailure::NotARepository => "Not inside a Git repository."@,
            GitFailure::CommandFailed(e) => "Git execution failed: "@ + e@,
            GitFailure::InvalidUtf8 => "Git stdout contains invalid UTF-8"@,
            GitFailure::UnreadableCount => "Failed to parse commit count from git rev-list"@,
        }
    }

    pub fn message(&self) -> (r: String)
        ensures
            r@ == self.text(),
    {
        match self {
            GitFailure::NotInstalled => String::from_str(
                "Failed to execute git process. Is git installed and in PATH?",
            ),
            GitFailure::DubiousOwnership => String::from_str(
                "Git refused to inspect the target because of dubious ownership. Mark it safe with `git config --global --add safe.directory <path>`.",
            ),
            GitFailure::NotARepository => String::from_str("Not inside a Git repository."),
            GitFailure::CommandFailed(e) => {
                let mut r = String::from_str("Git execution failed: ");
                r.append(e.as_str());
                r
            },
            GitFailure::InvalidUtf8 => String::from_str("Git stdout contains invalid UTF-8"),
            GitFailure::UnreadableCount => String::from_str(
                "Failed to parse commit count from git rev-list",
            ),
        }
    }

    pub fn is_not_a_repository(&self) -> (r: bool)
        ensures
            r == (*self is NotARepository),
    {
        match self {
            GitFailure::NotARepository => true,
            _ => false,
        }
    }
}

/// A question the checks put to `git`.
pub enum GitQuery {
    /// `rev-parse --is-inside-work-tree`
    InsideWorkTree,
    /// `status --porcelain`
    Status,
    /// `rev-parse --abbrev-ref HEAD`
    CurrentBranch,
    /// The tags that start with the prefix, newest version first.
    TagsWithPrefix(String),
    /// The number of commits from the tag to `HEAD`.
    CommitsSince(String),
}

/// The arguments of the query, without the target.
pub open spec fn query_args(q: GitQuery) -> Seq<Seq<char>> {
    match q {
        GitQuery::InsideWorkTree => seq!["rev-parse"@, "--is-inside-work-tree"@],
        GitQuery::Status => seq!["status"@, "--porcelain"@],
        GitQuery::CurrentBranch => seq!["rev-parse"@, "--abbrev-ref"@, "HEAD"@],
        GitQuery::TagsWithPrefix(p) => seq!["tag"@, "-l"@, p@ + "*"@, "--sort=-v:refname"@],
        GitQuery::CommitsSince(t) => seq!["rev-list"@, t@ + "..HEAD"@, "--count"@],
    }
}

fn push_str(out: &mut Vec<String>, s: &str)
    ensures
        string_views(final(out)@) == string_views(old(out)@).push(s@),
{
    out.push(String::from_str(s));
    assert(string_views(out@) =~= string_views(old(out)@).push(s@));
}

fn push_joined(out: &mut Vec<String>, a: &str, b: &str)
    ensures
        string_views(final(out)@) == string_views(old(out)@).push(a@ + b@),
{
    let mut s = String::from_str(a);
    s.append(b);
    out.push(s);
    assert(string_views(out@) =~= string_views(old(out)@).push(a@ + b@));
}

/// The arguments of `git` for a query about the repository at `target`:
/// `-C <target>` and then the query's own.
pub fn git_args(target: &str, q: &GitQuery) -> (r: Vec<String>)
    ensures
        string_views(r@) == seq!["-C"@, target@] + query_args(*q),
{
    let mut out: Vec<String> = Vec::new();
    push_str(&mut out, "-C");
    push_str(&mut out, target);
    match q {
        GitQuery::InsideWorkTree => {
            push_str(&mut out, "rev-parse");
            push_str(&mut out, "--is-inside-work-tree");
        },
        GitQuery::Status => {
            push_str(&mut out, "status");
            push_str(&mut out, "--porcelain");
        },
        GitQuery::CurrentBranch => {
            push_str(&mut out, "rev-parse");
            push_str(&mut out, "--abbrev-ref");
            push_str(&mut out, "HEAD");
        },
        GitQuery::TagsWithPrefix(p) => {
            push_str(&mut out, "tag");
            push_str(&mut out, "-l");
            push_joined(&mut out, p.as_str(), "*");
            push_str(&mut out, "--sort=-v:refname");
        },
        GitQuery::CommitsSince(t) => {
            push_str(&mut out, "rev-list");
            push_joined(&mut out, t.as_str(), "..HEAD");
            push_str(&mut out, "--count");
        },
    }
    assert(string_views(out@) =~= seq!["-C"@, target@] + query_args(*q));
    out
}

/// The active branch, from what `git rev-parse --abbrev-ref HEAD` produced:
/// its trimmed stdout, or the failure.
pub fn current_branch(launched: bool, success: bool, stdout: &Option<String>, stderr: &str) -> (r: Result<
    String,
    GitFailure,
>)
    ensures
        git_outcome_ok(
            r,
            launched,
            success,
            match stdout {
                Some(s) => Some(s@),
                None => None,
            },
            stderr@,
        ),
{
    interpret_git_output(launched, success, stdout, stderr)
}

/// The answer to `git rev-parse --is-inside-work-tree` says the target is in
/// a work tree.
pub open spec fn inside_work_tree(probe: Result<String, GitFailure>) -> bool {
    probe matches Ok(s) && s@ == "true"@
}

/// Whether the target is inside a Git work tree, from the outcome of
/// `git rev-parse --is-inside-work-tree`.
pub fn is_in_git_repo(probe: &Result<String, GitFailure>) -> (r: bool)
    ensures
        r == inside_work_tree(*probe),
{
    match probe {
        Ok(s) => str_eq(s.as_str(), "true"),
        Err(_) => false,
    }
}

/// The lines of `ls`, trimmed, without the empty ones.
pub open spec fn nonblank_trimmed(ls: Seq<Seq<char>>) -> Seq<Seq<char>>
    decreases ls.len(),
{
    if ls.len() == 0 {
        Seq::empty()
    } else {
        let rest = nonblank_trimmed(ls.drop_last());
        if trim(ls.last()).len() == 0 {
            rest
        } else {
            rest.push(trim(ls.last()))
        }
    }
}

/// The working tree state that `git status --porcelain` output (already
/// trimmed) describes: clean when empty, otherwise dirty with one entry per
/// non-blank line.
pub open spec fn tree_state(status: Seq<char>) -> (bool, Seq<Seq<char>>) {
    if status.len() == 0 {
        (true, Seq::empty())
    } else {
        (false, nonblank_trimmed(lines(status)))
    }
}

/// Whether the working tree is clean, and its dirty entries, from the output
/// of `git status --porcelain`.
pub fn is_clean(status: &str) -> (r: (bool, Vec<String>))
    ensures
        r.0 == tree_state(status@).0,
        string_views(r.1@) == tree_state(status@).1,
{
    let c = chars_of(status);
    if c.len() == 0 {
        let v: Vec<String> = Vec::new();
        assert(string_views(v@) =~= Seq::<Seq<char>>::empty());
        return (true, v);
    }
    let ls = lines_of(&c);
    let ghost lv = char_views(ls@);
    let mut out: Vec<String> = Vec::new();
    assert(lv.take(0) =~= Seq::<Seq<char>>::empty());
    for i in 0..ls.len()
        invariant
            lv == char_views(ls@),
            string_views(out@) == nonblank_trimmed(lv.take(i as int)),
    {
        assert(lv.take(i + 1).drop_last() =~= lv.take(i as int));
        assert(lv.take(i + 1).last() == ls@[i as int]@);
        let t = trim_chars(&ls[i]);
        if t.len() > 0 {
            let ghost before = string_views(out@);
            out.push(string_of(&t));
            assert(string_views(out@) =~= before.push(t@));
        }
    }
    assert(lv.take(ls.len() as int) =~= lv);
    (false, out)
}

/// The first line of `ls` that is not blank, as it stands.
pub open spec fn first_nonblank(ls: Seq<Seq<char>>) -> Option<Seq<char>>
    decreases ls.len(),
{
    if ls.len() == 0 {
        None
    } else if trim(ls[0]).len() > 0 {
        Some(ls[0])
    } else {
        first_nonblank(ls.drop_first())
    }
}

/// The latest tag from `git tag -l <prefix>* --sort=-v:refname` output
/// (newest first): its first non-blank line.
pub fn latest_tag(listing: &str) -> (r: Option<String>)
    ensures
        match first_nonblank(lines(listing@)) {
            None => r is None,
            Some(t) => r matches Some(s) && s@ == t,
        },
{
    let c = chars_of(listing);
    let ls = lines_of(&c);
    let ghost lv = char_views(ls@);
    assert(lv.skip(0) =~= lv);
    for i in 0..ls.len()
        invariant
            lv == char_views(ls@),
            lv == lines(listing@),
            first_nonblank(lv) == first_nonblank(lv.skip(i as int)),
    {
        assert(lv.skip(i as int)[0] == ls@[i as int]@);
        let t = trim_chars(&ls[i]);
        if t.len() > 0 {
            return Some(string_of(&ls[i]));
        }
        assert(lv.skip(i as int).drop_first() =~= lv.skip(i + 1));
    }
    assert(lv.skip(ls.len() as int) =~= Seq::<Seq<char>>::empty());
    None
}

/// The commit count from `git rev-list <tag>..HEAD --count` output.
pub fn commits_since_tag(count: &str) -> (r: Result<usize, GitFailure>)
    ensures
        match parse_unsigned(trim(count@), usize::MAX as int) {
            Some(n) => r == Ok::<usize, GitFailure>(n as usize),
            None => r == Err::<usize, GitFailure>(GitFailure::UnreadableCount),
        },
{
    let c = chars_of(count);
    let t = trim_chars(&c);
    match parse_unsigned_exec(&t, usize::MAX as u64) {
        Some(n) => Ok(n as usize),
        None => Err(GitFailure::UnreadableCount),
    }
}

} // verus!
