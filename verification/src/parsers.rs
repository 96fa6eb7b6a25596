//! The calls into `regex`, `serde_json` and `toml`. What they return takes
//! those crates' grammars to state, so each result is named here and the
//! library's contracts speak of the names.
use vstd::prelude::*;

verus! {

/// The character sequences held by a sequence of optional strings.
pub open spec fn opt_string_views(v: Seq<Option<String>>) -> Seq<Option<Seq<char>>> {
    v.map_values(|o: Option<String>|
        match o {
            Some(s) => Some(s@),
            None => None,
        })
}

/// What the `regex` crate finds: `None` if `pattern` does not compile
/// (`Regex::new` fails); otherwise, for each successive non-overlapping match
/// of `pattern` in `haystack` (`Regex::captures_iter`), the text of capture
/// group `group`, or `None` where that group took no part in the match.
pub uninterp spec fn regex_group_captures(pattern: Seq<char>, haystack: Seq<char>, group: nat) -> Option<
    Seq<Option<Seq<char>>>,
>;

/// Compiles `pattern` with `regex::Regex::new` and collects capture group
/// `group` of every match in `haystack` (`Regex::captures_iter`,
/// `Captures::get`). The contract claims only that the outcome is the named
/// result `regex_group_captures` of these arguments.
#[verifier::external_body]
pub(crate) fn regex_captures(pattern: &str, haystack: &str, group: usize) -> (r: Option<
    Vec<Option<String>>,
>)
    ensures
        match r {
            None => regex_group_captures(pattern@, haystack@, group as nat) is None,
            Some(v) => regex_group_captures(pattern@, haystack@, group as nat) == Some(
                opt_string_views(v@),
            ),
        },
{
    let re = match regex::Regex::new(pattern) {
        Ok(re) => re,
        Err(_) => return None,
    };
    let mut found = Vec::new();
    for caps in re.captures_iter(haystack) {
        found.push(caps.get(group).map(|m| m.as_str().to_string()));
    }
    Some(found)
}

/// What `serde_json` reads from `text`: `None` if it is not a JSON document
/// (`serde_json::from_str::<Value>` fails); otherwise the string found at the
/// JSON pointer `pointer` (`Value::pointer`, `Value::as_str`), or `None` inside
/// when there is no value there or it is not a string.
pub uninterp spec fn json_string_at(text: Seq<char>, pointer: Seq<char>) -> Option<Option<Seq<char>>>;

/// Parses `text` with `serde_json::from_str` into a `serde_json::Value` and
/// looks up `pointer` in it with `Value::pointer` and `Value::as_str`. The
/// contract claims only that the outcome is the named result `json_string_at`
/// of these arguments.
#[verifier::external_body]
pub(crate) fn json_string_at_pointer(text: &str, pointer: &str) -> (r: Option<Option<String>>)
    ensures
        match r {
            None => json_string_at(text@, pointer@) is None,
            Some(None) => json_string_at(text@, pointer@) == Some(None::<Seq<char>>),
            Some(Some(s)) => json_string_at(text@, pointer@) == Some(Some(s@)),
        },
{
    let value: serde_json::Value = match serde_json::from_str(text) {
        Ok(v) => v,
        Err(_) => return None,
    };
    Some(value.pointer(pointer).and_then(serde_json::Value::as_str).map(|s| s.to_string()))
}

/// What `toml` reads from `text`: `None` if it is not a TOML document
/// (`toml::from_str::<toml::Value>` fails); otherwise the string under `key`
/// in the table under `table` (`Value::get` twice, `Value::as_str`), or `None`
/// inside when there is no such string.
pub uninterp spec fn toml_string_at(text: Seq<char>, table: Seq<char>, key: Seq<char>) -> Option<
    Option<Seq<char>>,
>;

/// Parses `text` with `toml::from_str` into a `toml::Value` and looks up
/// `table`, then `key` in it, with `Value::get` and `Value::as_str`. The
/// contract claims only that the outcome is the named result `toml_string_at`
/// of these arguments.
#[verifier::external_body]
pub(crate) fn toml_string_in_table(text: &str, table: &str, key: &str) -> (r: Option<Option<String>>)
    ensures
        match r {
            None => toml_string_at(text@, table@, key@) is None,
            Some(None) => toml_string_at(text@, table@, key@) == Some(None::<Seq<char>>),
            Some(Some(s)) => toml_string_at(text@, table@, key@) == Some(Some(s@)),
        },
{
    let value: toml::Value = match toml::from_str(text) {
        Ok(v) => v,
        Err(_) => return None,
    };
    Some(value.get(table).and_then(|t| t.get(key)).and_then(toml::Value::as_str).map(|s| s.to_string()))
}

} // verus!
