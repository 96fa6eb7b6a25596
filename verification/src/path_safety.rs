//! Checks that configured paths stay inside the project: relative, with no
//! root, drive prefix or parent-directory segment. Both `/` and `\` count as
//! separators and `X:` drive prefixes are recognised on every platform, so a
//! configuration is judged the same on Windows and elsewhere.
use vstd::prelude::*;
use crate::config::Config;
use crate::text::{char_views, chars_eq, chars_of, push_char, split_char, split_chars, string_of, string_views};

verus! {

/// Why a configured path was refused.
#[derive(Debug, Clone)]
pub enum PathSafetyError {
    /// The path is absolute.
    NotRelative { label: String, value: String },
    /// The path has a root, a drive prefix or a `..` segment.
    EscapingSegment { label: String, value: String },
    /// A resolved path lies outside the target root.
    OutsideRoot { label: String, root: String, path: String },
}

/// The two ways a configured path can be at fault.
#[derive(Debug, Clone, Copy, PartialEq, Eq, Structural)]
pub enum PathFault {
    NotRelative,
    EscapingSegment,
}

pub open spec fn is_sep(c: char) -> bool {
    c == '/' || c == '\\'
}

pub open spec fn is_ascii_letter(c: char) -> bool {
    ('a' <= c && c <= 'z') || ('A' <= c && c <= 'Z')
}

/// `s` starts with a drive prefix such as `C:`.
pub open spec fn has_drive_prefix(s: Seq<char>) -> bool {
    s.len() >= 2 && is_ascii_letter(s[0]) && s[1] == ':'
}

/// `s` is an absolute path: it starts with `/`, or with a drive prefix
/// followed by a separator.
pub open spec fn is_absolute_path(s: Seq<char>) -> bool {
    (s.len() > 0 && s[0] == '/') || (has_drive_prefix(s) && s.len() >= 3 && is_sep(s[2]))
}

/// `s` with every `\` read as `/`.
pub open spec fn unified_seps(s: Seq<char>) -> Seq<char> {
    s.map_values(|c: char|
        if c == '\\' {
            '/'
        } else {
            c
        })
}

/// The segments of `s` between separators.
pub open spec fn path_segments(s: Seq<char>) -> Seq<Seq<char>> {
    split_char(unified_seps(s), '/')
}

/// `s` has a root, a drive prefix or a parent-directory segment.
pub open spec fn has_escaping_segment(s: Seq<char>) -> bool {
    ||| (s.len() > 0 && is_sep(s[0]))
    ||| has_drive_prefix(s)
    ||| path_segments(s).contains(".."@)
}

/// What is wrong with a configured path, if anything.
pub open spec fn path_fault(s: Seq<char>) -> Option<PathFault> {
    if is_absolute_path(s) {
        Some(PathFault::NotRelative)
    } else if has_escaping_segment(s) {
        Some(PathFault::EscapingSegment)
    } else {
        None
    }
}

impl PathSafetyError {
    /// `self` reports `fault` for the path `value` labelled `label`.
    pub open spec fn reports(self, fault: PathFault, label: Seq<char>, value: Seq<char>) -> bool {
        match self {
            PathSafetyError::NotRelative { label: l, value: v } => fault == PathFault::NotRelative
                && l@ == label && v@ == value,
            PathSafetyError::EscapingSegment { label: l, value: v } => fault
                == PathFault::EscapingSegment && l@ == label && v@ == value,
            PathSafetyError::OutsideRoot { .. } => false,
        }
    }

    /// The message shown for the error.
    pub open spec fn text(self) -> Seq<char> {
        match self {
            PathSafetyError::NotRelative { label, value } => label@
                + " must be relative and stay inside the target: "@ + value@,
            PathSafetyError::EscapingSegment { label, value } => label@
                + " cannot contain absolute or parent-directory segments: "@ + value@,
            PathSafetyError::OutsideRoot { label, root, path } => label@
                + " must stay inside target root "@ + root@ + ": "@ + path@,
        }
    }

    pub fn message(&self) -> (r: String)
        ensures
            r@ == self.text(),
    {
        match self {
            PathSafetyError::NotRelative { label, value } => {
                let mut r = label.clone();
                r.append(" must be relative and stay inside the target: ");
                r.append(value.as_str());
                r
            },
            PathSafetyError::EscapingSegment { label, value } => {
                let mut r = label.clone();
                r.append(" cannot contain absolute or parent-directory segments: ");
                r.append(value.as_str());
                r
            },
            PathSafetyError::OutsideRoot { label, root, path } => {
                let mut r = label.clone();
                r.append(" must stay inside target root ");
                r.append(root.as_str());
                r.append(": ");
                r.append(path.as_str());
                r
            },
        }
    }
}

fn is_sep_exec(c: char) -> (r: bool)
    ensures
        r == is_sep(c),
{
    c == '/' || c == '\\'
}

fn has_drive_prefix_exec(v: &Vec<char>) -> (r: bool)
    ensures
        r == has_drive_prefix(v@),
{
    v.len() >= 2 && (('a' <= v[0] && v[0] <= 'z') || ('A' <= v[0] && v[0] <= 'Z')) && v[1] == ':'
}

fn unify_seps(v: &Vec<char>) -> (r: Vec<char>)
    ensures
        r@ == unified_seps(v@),
{
    let mut r: Vec<char> = Vec::new();
    for i in 0..v.len()
        invariant
            r@ == unified_seps(v@).take(i as int),
    {
        let c = if v[i] == '\\' {
            '/'
        } else {
            v[i]
        };
        r.push(c);
        assert(r@ =~= unified_seps(v@).take(i + 1));
    }
    assert(unified_seps(v@).take(v.len() as int) =~= unified_seps(v@));
    r
}

fn has_parent_segment(v: &Vec<char>) -> (r: bool)
    ensures
        r == path_segments(v@).contains(".."@),
{
    let u = unify_seps(v);
    let parts = split_chars(&u, '/');
    let dots: Vec<char> = vec!['.', '.'];
    proof {
        reveal_strlit("..");
        assert(dots@ =~= ".."@);
    }
    let ghost ps = char_views(parts@);
    for i in 0..parts.len()
        invariant
            ps == char_views(parts@),
            ps == path_segments(v@),
            dots@ == ".."@,
            forall|j: int| 0 <= j < i ==> ps[j] != ".."@,
    {
        if chars_eq(&parts[i], &dots) {
            assert(ps[i as int] == ".."@);
            return true;
        }
    }
    assert(!ps.contains(".."@)) by {
        if ps.contains(".."@) {
            let j = choose|j: int| 0 <= j < ps.len() && ps[j] == ".."@;
            assert(ps[j] != ".."@);
        }
    }
    false
}

/// What is wrong with a configured path, computed.
pub fn path_fault_exec(value: &str) -> (r: Option<PathFault>)
    ensures
        r == path_fault(value@),
{
    let v = chars_of(value);
    let drive = has_drive_prefix_exec(&v);
    if (v.len() > 0 && v[0] == '/') || (drive && v.len() >= 3 && is_sep_exec(v[2])) {
        return Some(PathFault::NotRelative);
    }
    if (v.len() > 0 && is_sep_exec(v[0])) || drive || has_parent_segment(&v) {
        return Some(PathFault::EscapingSegment);
    }
    None
}

/// Accepts a configured path only if it is relative and cannot leave the
/// directory it is resolved against.
pub fn validate_config_path(value: &str, label: &str) -> (r: Result<(), PathSafetyError>)
    ensures
        match path_fault(value@) {
            None => r is Ok,
            Some(f) => r matches Err(e) && e.reports(f, label@, value@),
        },
{
    match path_fault_exec(value) {
        None => Ok(()),
        Some(PathFault::NotRelative) => Err(
            PathSafetyError::NotRelative {
                label: String::from_str(label),
                value: String::from_str(value),
            },
        ),
        Some(PathFault::EscapingSegment) => Err(
            PathSafetyError::EscapingSegment {
                label: String::from_str(label),
                value: String::from_str(value),
            },
        ),
    }
}

/// `value` appended to `root` as `Path::join` does for a relative `value`:
/// with a `/` between them unless `root` is empty or already ends in `/`.
pub open spec fn joined(root: Seq<char>, value: Seq<char>) -> Seq<char> {
    if root.len() == 0 {
        value
    } else if root.last() == '/' {
        root + value
    } else {
        root + seq!['/'] + value
    }
}

/// Joins a configured path to the root, after checking it.
pub fn safe_join(root: &str, value: &str, label: &str) -> (r: Result<String, PathSafetyError>)
    ensures
        match path_fault(value@) {
            None => r matches Ok(p) && p@ == joined(root@, value@),
            Some(f) => r matches Err(e) && e.reports(f, label@, value@),
        },
{
    validate_config_path(value, label)?;
    let rc = chars_of(root);
    let mut p = String::from_str(root);
    if rc.len() > 0 && rc[rc.len() - 1] != '/' {
        push_char(&mut p, '/');
    }
    p.append(value);
    Ok(p)
}

/// Anything accepted stays below the directory it is joined to: the joined
/// path is the root, then (unless the root ends in one) a `/`, then segments
/// none of which is `..`, and it has no drive prefix or leading separator
/// of its own.
pub proof fn lemma_accepted_path_stays_below(root: Seq<char>, value: Seq<char>)
    requires
        path_fault(value) is None,
    ensures
        !is_absolute_path(value),
        !path_segments(value).contains(".."@),
        !has_drive_prefix(value),
        value.len() > 0 ==> !is_sep(value[0]),
        root.len() > 0 ==> joined(root, value).subrange(0, root.len() as int) == root,
{
    if root.len() > 0 {
        let j = joined(root, value);
        if root.last() == '/' {
            assert(j.subrange(0, root.len() as int) =~= root);
        } else {
            assert(j.subrange(0, root.len() as int) =~= root);
        }
    }
}

// ---------------------------------------------------------------------------
// Containment of resolved paths
// ---------------------------------------------------------------------------

/// The segments that name directories: neither empty nor `.`.
pub open spec fn named_segments(ps: Seq<Seq<char>>) -> Seq<Seq<char>>
    decreases ps.len(),
{
    if ps.len() == 0 {
        Seq::empty()
    } else {
        let rest = named_segments(ps.drop_last());
        if ps.last().len() == 0 || ps.last() == "."@ {
            rest
        } else {
            rest.push(ps.last())
        }
    }
}

/// The components of a `/`-separated path: whether it has a root, and its
/// named segments.
pub open spec fn components(p: Seq<char>) -> (bool, Seq<Seq<char>>) {
    (p.len() > 0 && p[0] == '/', named_segments(split_char(p, '/')))
}

/// `path` lies at or below `root`, component by component (`Path::starts_with`
/// on canonical paths).
pub open spec fn within_root(root: Seq<char>, path: Seq<char>) -> bool {
    let (ra, rs) = components(root);
    let (pa, ps) = components(path);
    ra == pa && rs.len() <= ps.len() && ps.subrange(0, rs.len() as int) == rs
}

fn named_segments_exec(ps: &Vec<Vec<char>>) -> (r: Vec<Vec<char>>)
    ensures
        char_views(r@) == named_segments(char_views(ps@)),
{
    let dot: Vec<char> = vec!['.'];
    proof {
        reveal_strlit(".");
        assert(dot@ =~= "."@);
    }
    let ghost q = char_views(ps@);
    let mut r: Vec<Vec<char>> = Vec::new();
    assert(q.take(0) =~= Seq::<Seq<char>>::empty());
    for i in 0..ps.len()
        invariant
            q == char_views(ps@),
            dot@ == "."@,
            char_views(r@) == named_segments(q.take(i as int)),
    {
        assert(q.take(i + 1).drop_last() =~= q.take(i as int));
        assert(q.take(i + 1).last() == ps@[i as int]@);
        if ps[i].len() != 0 && !chars_eq(&ps[i], &dot) {
            let ghost before = char_views(r@);
            let seg = crate::text::copy_range(&ps[i], 0, ps[i].len());
            assert(ps@[i as int]@.subrange(0, ps@[i as int]@.len() as int) =~= ps@[i as int]@);
            r.push(seg);
            assert(char_views(r@) =~= before.push(ps@[i as int]@));
        }
    }
    assert(q.take(ps.len() as int) =~= q);
    r
}

fn components_exec(p: &str) -> (r: (bool, Vec<Vec<char>>))
    ensures
        r.0 == components(p@).0,
        char_views(r.1@) == components(p@).1,
{
    let v = chars_of(p);
    let parts = split_chars(&v, '/');
    (v.len() > 0 && v[0] == '/', named_segments_exec(&parts))
}

/// Accepts `path` only if it lies at or below `root`. Both are expected in
/// canonical form (the caller resolves them on disk first).
pub fn ensure_path_within_root(root: &str, path: &str, label: &str) -> (r: Result<(), PathSafetyError>)
    ensures
        within_root(root@, path@) ==> r is Ok,
        !within_root(root@, path@) ==> (r matches Err(
            PathSafetyError::OutsideRoot { label: l, root: o, path: p },
        ) && l@ == label@ && o@ == root@ && p@ == path@),
{
    let (ra, rs) = components_exec(root);
    let (pa, ps) = components_exec(path);
    let ghost rv = char_views(rs@);
    let ghost pv = char_views(ps@);
    let mut inside = ra == pa && rs.len() <= ps.len();
    if inside {
        let mut i: usize = 0;
        while i < rs.len()
            invariant
                rs.len() <= ps.len(),
                rv == char_views(rs@),
                pv == char_views(ps@),
                rv == components(root@).1,
                pv == components(path@).1,
                i <= rs.len(),
                forall|j: int| 0 <= j < i ==> rv[j] == pv[j],
            decreases rs.len() - i,
        {
            if !chars_eq(&rs[i], &ps[i]) {
                assert(pv.subrange(0, rv.len() as int)[i as int] != rv[i as int]);
                return Err(
                    PathSafetyError::OutsideRoot {
                        label: String::from_str(label),
                        root: String::from_str(root),
                        path: String::from_str(path),
                    },
                );
            }
            i = i + 1;
        }
        assert(pv.subrange(0, rv.len() as int) =~= rv);
    }
    if inside {
        Ok(())
    } else {
        Err(
            PathSafetyError::OutsideRoot {
                label: String::from_str(label),
                root: String::from_str(root),
                path: String::from_str(path),
            },
        )
    }
}

// ---------------------------------------------------------------------------
// Whole configurations
// ---------------------------------------------------------------------------

/// The index of the first value in `vs` that is at fault, if any.
pub open spec fn first_fault(vs: Seq<Seq<char>>) -> Option<int>
    decreases vs.len(),
{
    if vs.len() == 0 {
        None
    } else {
        match first_fault(vs.drop_last()) {
            Some(i) => Some(i),
            None => if path_fault(vs.last()) is Some {
                Some(vs.len() - 1)
            } else {
                None
            },
        }
    }
}

proof fn lemma_first_fault_bounds(vs: Seq<Seq<char>>)
    ensures
        first_fault(vs) matches Some(i) ==> 0 <= i < vs.len() && path_fault(vs[i]) is Some,
        first_fault(vs) is None ==> forall|j: int| 0 <= j < vs.len() ==> path_fault(#[trigger] vs[j])
            is None,
    decreases vs.len(),
{
    if vs.len() > 0 {
        lemma_first_fault_bounds(vs.drop_last());
        assert forall|j: int| 0 <= j < vs.len() - 1 implies vs.drop_last()[j] == vs[j] by {}
    }
}

/// The error for a list of paths under one label: that of its first value at
/// fault.
pub open spec fn list_error_ok(r: Result<(), PathSafetyError>, vs: Seq<Seq<char>>, label: Seq<char>) -> bool {
    match first_fault(vs) {
        None => r is Ok,
        Some(i) => r matches Err(e) && e.reports(path_fault(vs[i]).unwrap(), label, vs[i]),
    }
}

fn validate_list(values: &Vec<String>, label: &str) -> (r: Result<(), PathSafetyError>)
    ensures
        list_error_ok(r, string_views(values@), label@),
{
    let ghost vs = string_views(values@);
    assert(vs.take(0) =~= Seq::<Seq<char>>::empty());
    for i in 0..values.len()
        invariant
            vs == string_views(values@),
            first_fault(vs.take(i as int)) is None,
    {
        assert(vs.take(i + 1).drop_last() =~= vs.take(i as int));
        assert(vs.take(i + 1).last() == values@[i as int]@);
        let res = validate_config_path(values[i].as_str(), label);
        if res.is_err() {
            proof {
                lemma_first_fault_prefix(vs, i + 1);
            }
            return res;
        }
    }
    assert(vs.take(values.len() as int) =~= vs);
    Ok(())
}

proof fn lemma_first_fault_prefix(vs: Seq<Seq<char>>, k: int)
    requires
        0 <= k <= vs.len(),
        first_fault(vs.take(k)) is Some,
    ensures
        first_fault(vs) == first_fault(vs.take(k)),
    decreases vs.len() - k,
{
    if k < vs.len() {
        assert(vs.take(k + 1).drop_last() =~= vs.take(k));
        lemma_first_fault_prefix(vs, k + 1);
    } else {
        assert(vs.take(k) =~= vs);
    }
}

/// The outcome of checking every configured path of `c`: version files, then
/// required files, then artifact patterns, the first fault deciding.
pub open spec fn config_paths_ok(r: Result<(), PathSafetyError>, c: Config) -> bool {
    let vf = string_views(c.project.version_files@);
    let rf = string_views(c.checks.required_files@);
    let af = string_views(c.artifacts.required@);
    if first_fault(vf) is Some {
        list_error_ok(r, vf, "version file"@)
    } else if first_fault(rf) is Some {
        list_error_ok(r, rf, "required file"@)
    } else {
        list_error_ok(r, af, "artifact pattern"@)
    }
}

/// Checks every configured path of a configuration.
pub fn validate_config(config: &Config) -> (r: Result<(), PathSafetyError>)
    ensures
        config_paths_ok(r, *config),
{
    validate_list(&config.project.version_files, "version file")?;
    validate_list(&config.checks.required_files, "required file")?;
    validate_list(&config.artifacts.required, "artifact pattern")
}

// ---------------------------------------------------------------------------
// File names
// ---------------------------------------------------------------------------

/// The file name of a `/`-separated path (`Path::file_name`): its last
/// component, unless that is `..` or there is none.
pub open spec fn file_name(path: Seq<char>) -> Option<Seq<char>> {
    let ns = named_segments(split_char(path, '/'));
    if ns.len() == 0 || ns.last() == ".."@ {
        None
    } else {
        Some(ns.last())
    }
}

/// The file name of a path.
pub fn file_name_of(path: &str) -> (r: Option<String>)
    ensures
        match file_name(path@) {
            None => r is None,
            Some(n) => r matches Some(s) && s@ == n,
        },
{
    let v = chars_of(path);
    let parts = split_chars(&v, '/');
    let ns = named_segments_exec(&parts);
    if ns.len() == 0 {
        return None;
    }
    let last = &ns[ns.len() - 1];
    let dots: Vec<char> = vec!['.', '.'];
    proof {
        reveal_strlit("..");
        assert(dots@ =~= ".."@);
        assert(char_views(ns@).last() == last@);
    }
    if chars_eq(last, &dots) {
        return None;
    }
    Some(string_of(last))
}


/// Every configured version file, required file and artifact pattern is
/// accepted by the path-safety rules.
pub open spec fn config_paths_valid(c: Config) -> bool {
    &&& first_fault(string_views(c.project.version_files@)) is None
    &&& first_fault(string_views(c.checks.required_files@)) is None
    &&& first_fault(string_views(c.artifacts.required@)) is None
}

/// A list with no value at fault has no first fault.
pub proof fn lemma_no_fault_in_list(vs: Seq<Seq<char>>)
    requires
        forall|j: int| 0 <= j < vs.len() ==> path_fault(#[trigger] vs[j]) is None,
    ensures
        first_fault(vs) is None,
    decreases vs.len(),
{
    if vs.len() > 0 {
        assert forall|j: int| 0 <= j < vs.len() - 1 implies path_fault(#[trigger] vs.drop_last()[j]) is None by {
            assert(vs.drop_last()[j] == vs[j]);
        }
        lemma_no_fault_in_list(vs.drop_last());
        assert(path_fault(vs[vs.len() - 1]) is None);
    }
}

/// No two `.` stand next to each other in `s`.
pub open spec fn no_double_dot(s: Seq<char>) -> bool {
    forall|i: int| 0 <= i < s.len() - 1 ==> !(#[trigger] s[i] == '.' && s[i + 1] == '.')
}

/// No two `.` stand next to each other in `s` from position `i` on, checked
/// one position at a time.
pub open spec fn dots_apart_from(s: Seq<char>, i: int) -> bool
    decreases s.len() - i,
{
    if i < 0 || i + 1 >= s.len() {
        true
    } else {
        !(s[i] == '.' && s[i + 1] == '.') && dots_apart_from(s, i + 1)
    }
}

proof fn lemma_dots_apart(s: Seq<char>, i: int)
    requires
        0 <= i,
        dots_apart_from(s, i),
    ensures
        forall|j: int| i <= j < s.len() - 1 ==> !(#[trigger] s[j] == '.' && s[j + 1] == '.'),
    decreases s.len() - i,
{
    if i + 1 < s.len() {
        lemma_dots_apart(s, i + 1);
    }
}

/// No piece of `s` split at `sep` is `..` when no two dots are adjacent;
/// the last piece is `.` only when `s` ends in a dot.
proof fn lemma_no_parent_piece(s: Seq<char>, sep: char)
    requires
        no_double_dot(s),
        sep != '.',
    ensures
        forall|k: int| 0 <= k < split_char(s, sep).len() ==> #[trigger] split_char(s, sep)[k] != ".."@,
        split_char(s, sep).len() >= 1,
        split_char(s, sep).last() == "."@ ==> s.len() > 0 && s.last() == '.',
    decreases s.len(),
{
    reveal_strlit("..");
    reveal_strlit(".");
    assert("."@.len() == 1 && "."@[0] == '.');
    assert(".."@.len() == 2 && ".."@[0] == '.' && ".."@[1] == '.');
    if s.len() > 0 {
        let t = s.drop_last();
        assert(no_double_dot(t)) by {
            assert forall|i: int| 0 <= i < t.len() - 1 implies !(#[trigger] t[i] == '.' && t[i + 1] == '.') by {
                assert(t[i] == s[i] && t[i + 1] == s[i + 1]);
            }
        }
        lemma_no_parent_piece(t, sep);
        let p = split_char(t, sep);
        let q = split_char(s, sep);
        if s.last() == sep {
            assert forall|k: int| 0 <= k < q.len() implies #[trigger] q[k] != ".."@ by {
                if k < p.len() {
                    assert(q[k] == p[k]);
                } else {
                    assert(q[k].len() == 0);
                }
            }
            assert(q.last().len() == 0);
        } else {
            let l = p.last().push(s.last());
            assert(q == p.update(p.len() - 1, l));
            assert(q.last() == l);
            if l == ".."@ {
                assert(l.len() == 2);
                assert(p.last().len() == 1);
                assert(p.last()[0] == l[0]);
                assert(p.last() =~= "."@);
                assert(t.len() > 0 && t.last() == '.');
                assert(s[s.len() - 2] == t.last());
                assert(s.last() == l[1]);
                assert(s[s.len() - 2] == '.' && s[s.len() - 2 + 1] == '.');
                assert(false);
            }
            assert forall|k: int| 0 <= k < q.len() implies #[trigger] q[k] != ".."@ by {
                if k < p.len() - 1 {
                    assert(q[k] == p[k]);
                }
            }
            if l == "."@ {
                assert(l.len() == 1);
                assert(l[0] == s.last());
            }
        }
    }
}

/// A path that does not start with a separator or a drive prefix and has no
/// two adjacent dots is accepted.
pub proof fn lemma_plain_path_accepted(s: Seq<char>)
    requires
        s.len() >= 2,
        !is_sep(s[0]),
        s[1] != ':',
        dots_apart_from(s, 0),
    ensures
        path_fault(s) is None,
{
    lemma_dots_apart(s, 0);
    let u = unified_seps(s);
    assert(no_double_dot(u)) by {
        assert forall|i: int| 0 <= i < u.len() - 1 implies !(#[trigger] u[i] == '.' && u[i + 1] == '.') by {
            assert(u[i] == '.' ==> s[i] == '.');
            assert(u[i + 1] == '.' ==> s[i + 1] == '.');
        }
    }
    lemma_no_parent_piece(u, '/');
    reveal_strlit("..");
    if path_segments(s).contains(".."@) {
        let k = choose|k: int| 0 <= k < path_segments(s).len() && path_segments(s)[k] == ".."@;
        assert(split_char(u, '/')[k] != ".."@);
    }
}

} // verus!
