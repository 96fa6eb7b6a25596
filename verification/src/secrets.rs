//! Repository secrets that GitHub Actions workflows reference, and the ones
//! recommended for each project type.
use vstd::prelude::*;
use crate::parsers::{regex_captures, regex_group_captures};
use crate::text::{
    chars_of, lemma_lex_lt_asymmetric, lemma_lex_lt_irreflexive, lemma_lex_lt_transitive, lex_lt,
    lex_lt_exec, str_eq, str_eq_chars, string_views,
};

verus! {

/// Secrets found in workflows, and secrets recommended for the project type.
#[derive(Debug, Clone)]
pub struct SecretsCheck {
    pub found_in_workflows: Vec<String>,
    pub recommended_secrets: Vec<String>,
}

/// The secret-reference pattern could not be compiled.
#[derive(Debug, Clone, Copy)]
pub enum SecretsError {
    InvalidPattern,
}

/// A reference to a secret in a workflow: `secrets.` and then the name.
pub open spec fn secret_reference_pattern() -> Seq<char> {
    "secrets\\.([a-zA-Z0-9_-]+)"@
}

/// The token that GitHub provides to every workflow itself.
pub open spec fn builtin_token() -> Seq<char> {
    "GITHUB_TOKEN"@
}

/// The `i`th secret reference found in `workflow` names `name`.
pub open spec fn captured_at(workflow: Seq<char>, i: int, name: Seq<char>) -> bool {
    match regex_group_captures(secret_reference_pattern(), workflow, 1) {
        Some(caps) => 0 <= i < caps.len() && caps[i] == Some(name),
        None => false,
    }
}

/// `name` is referenced in one of `workflows` and is not the built-in token.
pub open spec fn referenced_secret(workflows: Seq<Seq<char>>, name: Seq<char>) -> bool {
    &&& name != builtin_token()
    &&& exists|k: int, i: int| 0 <= k < workflows.len() && #[trigger] captured_at(workflows[k], i, name)
}

/// The pattern compiled for each workflow searched.
pub open spec fn pattern_compiles_for(workflows: Seq<Seq<char>>) -> bool {
    forall|k: int|
        0 <= k < workflows.len() ==> #[trigger] regex_group_captures(
            secret_reference_pattern(),
            workflows[k],
            1,
        ) is Some
}

/// One of the first `i` captures names `s`, and `s` is not the built-in token.
pub open spec fn named_before(cv: Seq<Option<Seq<char>>>, i: int, s: Seq<char>) -> bool {
    s != builtin_token() && exists|j: int| 0 <= j < i && cv[j] == Some(s)
}

/// Every entry sorts strictly before the ones after it.
pub open spec fn strictly_sorted(s: Seq<Seq<char>>) -> bool {
    forall|i: int, j: int| 0 <= i < j < s.len() ==> lex_lt(#[trigger] s[i], #[trigger] s[j])
}

/// The recommended secrets for a project type.
pub open spec fn recommended_for(project_type: Seq<char>) -> Seq<Seq<char>> {
    if project_type == "tauri"@ {
        seq!["TAURI_SIGNING_PRIVATE_KEY"@, "TAURI_SIGNING_PRIVATE_KEY_PASSWORD"@]
    } else if project_type == "android"@ {
        seq![
            "ANDROID_KEYSTORE_BASE64 (or project-specific keystore secret)"@,
            "ANDROID_KEYSTORE_PASSWORD"@,
            "ANDROID_KEY_ALIAS"@,
            "ANDROID_KEY_PASSWORD"@,
        ]
    } else if project_type == "rust"@ {
        seq!["CARGO_REGISTRY_TOKEN (if publishing to crates.io)"@]
    } else if project_type == "node-vite"@ {
        seq!["NPM_TOKEN (if publishing to npm registry)"@]
    } else {
        Seq::empty()
    }
}

/// The recommended secrets for a project type.
pub fn recommended_secrets_for(project_type: &str) -> (r: Vec<String>)
    ensures
        string_views(r@) == recommended_for(project_type@),
{
    let r = if str_eq(project_type, "tauri") {
        vec![
            String::from_str("TAURI_SIGNING_PRIVATE_KEY"),
            String::from_str("TAURI_SIGNING_PRIVATE_KEY_PASSWORD"),
        ]
    } else if str_eq(project_type, "android") {
        vec![
            String::from_str("ANDROID_KEYSTORE_BASE64 (or project-specific keystore secret)"),
            String::from_str("ANDROID_KEYSTORE_PASSWORD"),
            String::from_str("ANDROID_KEY_ALIAS"),
            String::from_str("ANDROID_KEY_PASSWORD"),
        ]
    } else if str_eq(project_type, "rust") {
        vec![String::from_str("CARGO_REGISTRY_TOKEN (if publishing to crates.io)")]
    } else if str_eq(project_type, "node-vite") {
        vec![String::from_str("NPM_TOKEN (if publishing to npm registry)")]
    } else {
        Vec::new()
    };
    assert(string_views(r@) =~= recommended_for(project_type@));
    r
}

/// Inserts `name` into a strictly sorted list unless it is already there.
fn insert_sorted(list: &mut Vec<String>, name: String)
    requires
        strictly_sorted(string_views(old(list)@)),
    ensures
        strictly_sorted(string_views(final(list)@)),
        forall|s: Seq<char>|
            string_views(final(list)@).contains(s) <==> (string_views(old(list)@).contains(s) || s
                == name@),
{
    let ghost old_v = string_views(list@);
    let nc = chars_of(name.as_str());
    let mut p: usize = 0;
    let mut stop = false;
    while p < list.len() && !stop
        invariant
            p <= list.len(),
            old_v == string_views(list@),
            nc@ == name@,
            strictly_sorted(old_v),
            forall|j: int| 0 <= j < p ==> lex_lt(old_v[j], name@),
            stop ==> p < list.len() && !lex_lt(old_v[p as int], name@),
        decreases list.len() - p + (if stop {
            0int
        } else {
            1int
        }),
    {
        let cur = chars_of(list[p].as_str());
        if !lex_lt_exec(&cur, &nc) {
            stop = true;
        } else {
            p = p + 1;
        }
    }
    if p < list.len() && str_eq_chars(list[p].as_str(), &nc) {
        assert forall|s: Seq<char>|
            string_views(list@).contains(s) <==> (old_v.contains(s) || s == name@) by {
            if s == name@ {
                assert(old_v[p as int] == s);
            }
        }
        return;
    }
    proof {
        if p < list.len() {
            lemma_lex_lt_asymmetric(old_v[p as int], name@);
        }
    }
    list.insert(p, name);
    let ghost new_v = string_views(list@);
    assert(new_v =~= old_v.insert(p as int, name@));
    assert(strictly_sorted(new_v)) by {
        assert forall|i: int, j: int| 0 <= i < j < new_v.len() implies lex_lt(
            #[trigger] new_v[i],
            #[trigger] new_v[j],
        ) by {
            if j < p {
            } else if j == p {
            } else if i < p {
                if j - 1 > p {
                    lemma_lex_lt_transitive(name@, old_v[p as int], old_v[j - 1]);
                }
                lemma_lex_lt_transitive(new_v[i], name@, new_v[j]);
            } else if i == p {
                if j - 1 > p {
                    lemma_lex_lt_transitive(name@, old_v[p as int], old_v[j - 1]);
                }
            } else {
            }
        }
    }
    assert forall|s: Seq<char>| new_v.contains(s) <==> (old_v.contains(s) || s == name@) by {
        if new_v.contains(s) {
            let k = choose|k: int| 0 <= k < new_v.len() && new_v[k] == s;
            if k < p {
                assert(old_v[k] == s);
            } else if k > p {
                assert(old_v[k - 1] == s);
            }
        }
        if old_v.contains(s) {
            let k = choose|k: int| 0 <= k < old_v.len() && old_v[k] == s;
            if k < p {
                assert(new_v[k] == s);
            } else {
                assert(new_v[k + 1] == s);
            }
        }
        if s == name@ {
            assert(new_v[p as int] == s);
        }
    }
}

/// The captures found in each workflow, as character sequences.
pub open spec fn capture_views(cs: Seq<Vec<Option<String>>>) -> Seq<Seq<Option<Seq<char>>>> {
    cs.map_values(|v: Vec<Option<String>>| crate::parsers::opt_string_views(v@))
}

/// `name` is one of the captures in `cs` and is not the built-in token.
pub open spec fn named_in(cs: Seq<Seq<Option<Seq<char>>>>, name: Seq<char>) -> bool {
    &&& name != builtin_token()
    &&& exists|k: int, i: int| 0 <= k < cs.len() && 0 <= i < cs[k].len() && #[trigger] cs[k][i] == Some(name)
}

/// The secrets check from the secret names captured in each workflow: every
/// captured name except the built-in token, once each, in sorted order, and
/// the secrets recommended for the project type.
pub fn secrets_from_captures(captures: &Vec<Vec<Option<String>>>, project_type: &str) -> (r: SecretsCheck)
    ensures
        strictly_sorted(string_views(r.found_in_workflows@)),
        forall|s: Seq<char>|
            string_views(r.found_in_workflows@).contains(s) <==> named_in(capture_views(captures@), s),
        string_views(r.recommended_secrets@) == recommended_for(project_type@),
{
    let ghost cvs = capture_views(captures@);
    let mut found: Vec<String> = Vec::new();
    for k in 0..captures.len()
        invariant
            cvs == capture_views(captures@),
            strictly_sorted(string_views(found@)),
            forall|s: Seq<char>| string_views(found@).contains(s) <==> named_in(cvs.take(k as int), s),
    {
        let caps = &captures[k];
        let ghost cv = cvs[k as int];
        assert(cv == crate::parsers::opt_string_views(caps@));
        let ghost found_before = string_views(found@);
        for i in 0..caps.len()
            invariant
                cvs == capture_views(captures@),
                k < captures@.len(),
                caps == captures@[k as int],
                cv == crate::parsers::opt_string_views(caps@),
                strictly_sorted(string_views(found@)),
                forall|s: Seq<char>|
                    #[trigger] string_views(found@).contains(s) <==> (found_before.contains(s)
                        || named_before(cv, i as int, s)),
        {
            let ghost before = string_views(found@);
            let ghost entry_view = cv[i as int];
            assert(entry_view == match caps@[i as int] {
                Some(x) => Some(x@),
                None => None::<Seq<char>>,
            });
            let ghost mut added: Option<Seq<char>> = None;
            match &caps[i] {
                Some(name) => {
                    if !str_eq(name.as_str(), "GITHUB_TOKEN") {
                        insert_sorted(&mut found, name.clone());
                        proof {
                            added = Some(name@);
                        }
                    }
                },
                None => {},
            }
            assert(forall|s: Seq<char>|
                string_views(found@).contains(s) <==> (before.contains(s) || added == Some(s)));
            assert(added matches Some(x) ==> entry_view == Some(x) && x != builtin_token());
            assert(entry_view is Some && entry_view.unwrap() != builtin_token() ==> added
                == entry_view);
            assert forall|s: Seq<char>|
                #[trigger] string_views(found@).contains(s) <==> (found_before.contains(s)
                    || named_before(cv, i + 1, s)) by {
                let now = string_views(found@).contains(s);
                let prev = before.contains(s);
                let earlier = named_before(cv, i as int, s);
                let upto = named_before(cv, i + 1, s);
                assert(prev <==> (found_before.contains(s) || earlier));
                assert(now <==> (prev || added == Some(s)));
                if upto {
                    let j = choose|j: int| 0 <= j < i + 1 && cv[j] == Some(s);
                    if j < i {
                        assert(earlier);
                    } else {
                        assert(entry_view == Some(s));
                        assert(added == Some(s));
                    }
                }
                if earlier {
                    let j = choose|j: int| 0 <= j < i && cv[j] == Some(s);
                    assert(0 <= j < i + 1 && cv[j] == Some(s));
                    assert(upto);
                }
                if added == Some(s) {
                    assert(cv[i as int] == Some(s));
                    assert(upto);
                }
            }
        }
        assert forall|s: Seq<char>|
            string_views(found@).contains(s) <==> named_in(cvs.take(k + 1), s) by {
            let wk = cvs.take(k + 1);
            if named_in(wk, s) {
                let (m, j) = choose|m: int, j: int| 0 <= m < wk.len() && 0 <= j < wk[m].len() && #[trigger] wk[m][j] == Some(s);
                if m < k {
                    assert(wk[m] == cvs.take(k as int)[m]);
                    assert(named_in(cvs.take(k as int), s));
                } else {
                    assert(wk[m] == cv);
                    assert(named_before(cv, caps.len() as int, s));
                }
            }
            if found_before.contains(s) {
                let (m, j) = choose|m: int, j: int|
                    0 <= m < cvs.take(k as int).len() && 0 <= j < cvs.take(k as int)[m].len() && #[trigger] cvs.take(k as int)[m][j] == Some(s);
                assert(wk[m] == cvs.take(k as int)[m]);
                assert(wk[m][j] == Some(s));
            }
            if named_before(cv, caps.len() as int, s) {
                let j = choose|j: int| 0 <= j < caps.len() && cv[j] == Some(s);
                assert(wk[k as int] == cv);
                assert(wk[k as int][j] == Some(s));
            }
        }
    }
    assert(cvs.take(captures.len() as int) =~= cvs);
    SecretsCheck { found_in_workflows: found, recommended_secrets: recommended_secrets_for(project_type) }
}

/// Scans workflow files for the secrets they reference, and recommends
/// secrets for the project type. `workflows` holds the text of each
/// `.yml`/`.yaml` file in `.github/workflows`.
pub fn check_github_secrets(workflows: &Vec<String>, project_type: &str) -> (r: Result<
    SecretsCheck,
    SecretsError,
>)
    ensures
        r is Ok <==> pattern_compiles_for(string_views(workflows@)),
        r matches Ok(sc) ==> {
            &&& strictly_sorted(string_views(sc.found_in_workflows@))
            &&& forall|s: Seq<char>|
                string_views(sc.found_in_workflows@).contains(s) <==> referenced_secret(
                    string_views(workflows@),
                    s,
                )
            &&& string_views(sc.recommended_secrets@) == recommended_for(project_type@)
        },
{
    let ghost ws = string_views(workflows@);
    let pattern = "secrets\\.([a-zA-Z0-9_-]+)";
    let mut all: Vec<Vec<Option<String>>> = Vec::new();
    for k in 0..workflows.len()
        invariant
            ws == string_views(workflows@),
            pattern@ == secret_reference_pattern(),
            all@.len() == k,
            forall|m: int| 0 <= m < k ==> #[trigger] regex_group_captures(secret_reference_pattern(), ws[m], 1)
                == Some(capture_views(all@)[m]),
    {
        assert(ws[k as int] == workflows@[k as int]@);
        let caps = match regex_captures(pattern, workflows[k].as_str(), 1) {
            Some(c) => c,
            None => {
                assert(!pattern_compiles_for(ws));
                return Err(SecretsError::InvalidPattern);
            },
        };
        let ghost before = capture_views(all@);
        all.push(caps);
        assert forall|m: int| 0 <= m < k + 1 implies #[trigger] regex_group_captures(secret_reference_pattern(), ws[m], 1)
            == Some(capture_views(all@)[m]) by {
            if m < k {
                assert(capture_views(all@)[m] == before[m]);
            }
        }
    }
    let ghost cvs = capture_views(all@);
    assert(pattern_compiles_for(ws)) by {
        assert forall|m: int| 0 <= m < ws.len() implies #[trigger] regex_group_captures(
            secret_reference_pattern(),
            ws[m],
            1,
        ) is Some by {
            assert(regex_group_captures(secret_reference_pattern(), ws[m], 1) == Some(cvs[m]));
        }
    }
    let sc = secrets_from_captures(&all, project_type);
    assert forall|s: Seq<char>| named_in(cvs, s) <==> referenced_secret(ws, s) by {
        if named_in(cvs, s) {
            let (m, j) = choose|m: int, j: int| 0 <= m < cvs.len() && 0 <= j < cvs[m].len() && #[trigger] cvs[m][j] == Some(s);
            assert(regex_group_captures(secret_reference_pattern(), ws[m], 1) == Some(cvs[m]));
            assert(captured_at(ws[m], j, s));
        }
        if referenced_secret(ws, s) {
            let (m, j) = choose|m: int, j: int| 0 <= m < ws.len() && #[trigger] captured_at(ws[m], j, s);
            assert(regex_group_captures(secret_reference_pattern(), ws[m], 1) == Some(cvs[m]));
            assert(cvs[m][j] == Some(s));
        }
    }
    Ok(sc)
}

/// Nothing listed as found is the built-in token, and nothing is listed twice.
pub proof fn lemma_found_secrets_distinct(found: Seq<Seq<char>>, workflows: Seq<Seq<char>>)
    requires
        strictly_sorted(found),
        forall|s: Seq<char>| found.contains(s) <==> referenced_secret(workflows, s),
    ensures
        !found.contains(builtin_token()),
        forall|i: int, j: int| 0 <= i < j < found.len() ==> found[i] != found[j],
{
    assert forall|i: int, j: int| 0 <= i < j < found.len() implies found[i] != found[j] by {
        lemma_lex_lt_irreflexive(found[i]);
    }
}

// ---------------------------------------------------------------------------
// Which files are workflows
// ---------------------------------------------------------------------------

/// The index of the last `.` in `s`, or -1.
pub open spec fn last_dot(s: Seq<char>) -> int
    decreases s.len(),
{
    if s.len() == 0 {
        -1
    } else if s.last() == '.' {
        s.len() - 1
    } else {
        last_dot(s.drop_last())
    }
}

/// The extension of a file name as `Path::extension` gives it: what follows
/// the last `.`, unless there is none or it is the first character.
pub open spec fn extension(name: Seq<char>) -> Option<Seq<char>> {
    let d = last_dot(name);
    if d <= 0 {
        None
    } else {
        Some(name.subrange(d + 1, name.len() as int))
    }
}

/// A file in `.github/workflows` is read when its extension is `yml` or
/// `yaml`.
pub open spec fn is_workflow_file_name(name: Seq<char>) -> bool {
    extension(name) == Some("yml"@) || extension(name) == Some("yaml"@)
}

proof fn lemma_last_dot_bounds(s: Seq<char>)
    ensures
        -1 <= last_dot(s) < s.len(),
        last_dot(s) >= 0 ==> s[last_dot(s)] == '.',
        forall|j: int| last_dot(s) < j < s.len() ==> s[j] != '.',
    decreases s.len(),
{
    if s.len() > 0 {
        lemma_last_dot_bounds(s.drop_last());
        assert forall|j: int| last_dot(s) < j < s.len() implies s[j] != '.' by {
            if j < s.len() - 1 {
                assert(s[j] == s.drop_last()[j]);
            }
        }
    }
}

/// Whether a file name in `.github/workflows` is one of a workflow.
pub fn is_workflow_file(name: &str) -> (r: bool)
    ensures
        r == is_workflow_file_name(name@),
{
    let v = chars_of(name);
    let n = v.len();
    let mut k: usize = n;
    proof {
        lemma_last_dot_bounds(v@);
    }
    while k > 0 && v[k - 1] != '.'
        invariant
            k <= n == v.len(),
            forall|j: int| k <= j < n ==> v@[j] != '.',
        decreases k,
    {
        k = k - 1;
    }
    // `k - 1` is the last dot, if `k > 0`.
    proof {
        if k > 0 {
            assert(last_dot(v@) == k - 1) by {
                lemma_last_dot_bounds(v@);
                if last_dot(v@) > k - 1 {
                    assert(v@[last_dot(v@)] == '.');
                }
                if last_dot(v@) < k - 1 {
                    assert(v@[k - 1] == '.');
                }
            }
        } else {
            assert(last_dot(v@) == -1) by {
                lemma_last_dot_bounds(v@);
                if last_dot(v@) >= 0 {
                    assert(v@[last_dot(v@)] == '.');
                }
            }
        }
    }
    if k <= 1 {
        return false;
    }
    let ext = crate::text::copy_range(&v, k, n);
    crate::text::str_eq_chars("yml", &ext) || crate::text::str_eq_chars("yaml", &ext)
}

} // verus!
