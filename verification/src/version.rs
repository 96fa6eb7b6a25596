//! Reading the project version out of a version file's text: JSON
//! manifests, Tauri configurations, Cargo manifests and Gradle scripts.
use vstd::prelude::*;
use crate::parsers::{
    json_string_at, json_string_at_pointer, opt_string_views, regex_captures, regex_group_captures,
    toml_string_at, toml_string_in_table,
};
use crate::path_safety::{file_name, file_name_of};
use crate::text::{chars_of, contains, str_contains, str_eq, string_of, trim_start_char, trim_start_char_exec};

verus! {

/// Why no version could be read from a file.
#[derive(Debug, Clone, Copy, PartialEq, Eq, Structural)]
pub enum VersionError {
    MissingFile,
    InvalidFileName,
    Unreadable,
    InvalidJson,
    InvalidTauriConfig,
    InvalidCargoManifest,
    InvalidPattern,
}

impl VersionError {
    /// The message for the error about the file shown as `path` (the path as
    /// `{:?}` renders it).
    pub open spec fn text(self, path: Seq<char>) -> Seq<char> {
        match self {
            VersionError::MissingFile => "File does not exist: "@ + path,
            VersionError::InvalidFileName => "Invalid filename: "@ + path,
            VersionError::Unreadable => "Failed to read file: "@ + path,
            VersionError::InvalidJson => "Failed to parse JSON file "@ + path,
            VersionError::InvalidTauriConfig => "Failed to parse Tauri config "@ + path,
            VersionError::InvalidCargoManifest => "Failed to parse Cargo.toml "@ + path,
            VersionError::InvalidPattern => "Failed to compile the version pattern for "@ + path,
        }
    }

    pub fn message(&self, path: &str) -> (r: String)
        ensures
            r@ == self.text(path@),
    {
        let mut r = match self {
            VersionError::MissingFile => String::from_str("File does not exist: "),
            VersionError::InvalidFileName => String::from_str("Invalid filename: "),
            VersionError::Unreadable => String::from_str("Failed to read file: "),
            VersionError::InvalidJson => String::from_str("Failed to parse JSON file "),
            VersionError::InvalidTauriConfig => String::from_str("Failed to parse Tauri config "),
            VersionError::InvalidCargoManifest => String::from_str("Failed to parse Cargo.toml "),
            VersionError::InvalidPattern => String::from_str(
                "Failed to compile the version pattern for ",
            ),
        };
        r.append(path);
        r
    }
}

/// Where a version is looked for, by file name.
#[derive(Debug, Clone, Copy, PartialEq, Eq, Structural)]
pub enum VersionSource {
    /// `package.json` or `update.json`: the top-level `version`.
    PackageJson,
    /// `tauri.conf.json`: the top-level `version`, else `package.version`.
    TauriConfig,
    /// `Cargo.toml`: `package.version`.
    CargoManifest,
    /// `go.mod`: Go versions live in tags, so there is none.
    GoModule,
    /// A name containing `build.gradle`: `versionName = "..."`, else
    /// `version = "..."`.
    Gradle,
    /// Anything else: no version.
    Unsupported,
}

pub open spec fn version_source(name: Seq<char>) -> VersionSource {
    if name == "package.json"@ || name == "update.json"@ {
        VersionSource::PackageJson
    } else if name == "tauri.conf.json"@ {
        VersionSource::TauriConfig
    } else if name == "Cargo.toml"@ {
        VersionSource::CargoManifest
    } else if name == "go.mod"@ {
        VersionSource::GoModule
    } else if contains(name, "build.gradle"@) {
        VersionSource::Gradle
    } else {
        VersionSource::Unsupported
    }
}

pub fn version_source_of(name: &str) -> (r: VersionSource)
    ensures
        r == version_source(name@),
{
    if str_eq(name, "package.json") || str_eq(name, "update.json") {
        VersionSource::PackageJson
    } else if str_eq(name, "tauri.conf.json") {
        VersionSource::TauriConfig
    } else if str_eq(name, "Cargo.toml") {
        VersionSource::CargoManifest
    } else if str_eq(name, "go.mod") {
        VersionSource::GoModule
    } else if str_contains(name, "build.gradle") {
        VersionSource::Gradle
    } else {
        VersionSource::Unsupported
    }
}

/// The Gradle assignment tried first.
pub open spec fn version_name_pattern() -> Seq<char> {
    "versionName\\s*=\\s*[\"']([^\"']+)[\"']"@
}

/// The Gradle assignment tried second.
pub open spec fn version_pattern() -> Seq<char> {
    "version\\s*=\\s*[\"']([^\"']+)[\"']"@
}

/// The first match's group, from what a pattern search found: `None` when
/// the pattern did not compile, `Some(None)` when nothing matched (or the
/// group took no part in the first match).
pub open spec fn first_group(caps: Option<Seq<Option<Seq<char>>>>) -> Option<Option<Seq<char>>> {
    match caps {
        None => None,
        Some(cs) => if cs.len() == 0 {
            Some(None)
        } else {
            Some(cs[0])
        },
    }
}

/// The error for a source whose text or pattern was refused.
pub open spec fn refusal(source: VersionSource) -> VersionError {
    match source {
        VersionSource::PackageJson => VersionError::InvalidJson,
        VersionSource::TauriConfig => VersionError::InvalidTauriConfig,
        VersionSource::CargoManifest => VersionError::InvalidCargoManifest,
        _ => VersionError::InvalidPattern,
    }
}

/// The version read for `source` given the primary lookup and, consulted only
/// when the primary found nothing, the fallback lookup. `None` in a lookup
/// means the text (or pattern) was refused.
pub open spec fn settled(
    source: VersionSource,
    primary: Option<Option<Seq<char>>>,
    fallback: Option<Option<Seq<char>>>,
) -> Result<Option<Seq<char>>, VersionError> {
    match source {
        VersionSource::PackageJson | VersionSource::CargoManifest => match primary {
            None => Err(refusal(source)),
            Some(v) => Ok(v),
        },
        VersionSource::TauriConfig | VersionSource::Gradle => match primary {
            None => Err(refusal(source)),
            Some(Some(v)) => Ok(Some(v)),
            Some(None) => match fallback {
                None => Err(refusal(source)),
                Some(v) => Ok(v),
            },
        },
        _ => Ok(None),
    }
}

/// The view of a version outcome.
pub open spec fn outcome_view(r: Result<Option<String>, VersionError>) -> Result<
    Option<Seq<char>>,
    VersionError,
> {
    match r {
        Ok(Some(s)) => Ok(Some(s@)),
        Ok(None) => Ok(None),
        Err(e) => Err(e),
    }
}

pub open spec fn opt_view(o: Option<Option<String>>) -> Option<Option<Seq<char>>> {
    match o {
        None => None,
        Some(None) => Some(None),
        Some(Some(s)) => Some(Some(s@)),
    }
}

/// Decides the version from the lookups, as `settled` says.
pub fn settle_version(
    source: VersionSource,
    primary: Option<Option<String>>,
    fallback: Option<Option<String>>,
) -> (r: Result<Option<String>, VersionError>)
    ensures
        outcome_view(r) == settled(source, opt_view(primary), opt_view(fallback)),
{
    let err = match source {
        VersionSource::PackageJson => VersionError::InvalidJson,
        VersionSource::TauriConfig => VersionError::InvalidTauriConfig,
        VersionSource::CargoManifest => VersionError::InvalidCargoManifest,
        _ => VersionError::InvalidPattern,
    };
    match source {
        VersionSource::PackageJson | VersionSource::CargoManifest => match primary {
            None => Err(err),
            Some(v) => Ok(v),
        },
        VersionSource::TauriConfig | VersionSource::Gradle => match primary {
            None => Err(err),
            Some(Some(v)) => Ok(Some(v)),
            Some(None) => match fallback {
                None => Err(err),
                Some(v) => Ok(v),
            },
        },
        _ => Ok(None),
    }
}

/// The first match's group from what a pattern search found (see `first_group`).
pub fn first_group_exec(caps: Option<Vec<Option<String>>>) -> (r: Option<Option<String>>)
    ensures
        opt_view(r) == first_group(
            match caps {
                None => None,
                Some(v) => Some(opt_string_views(v@)),
            },
        ),
{
    match caps {
        None => None,
        Some(cs) => {
            if cs.len() == 0 {
                Some(None)
            } else {
                let first = cs[0].clone();
                assert(first == cs@[0]);
                Some(first)
            }
        },
    }
}

/// The primary lookup for a source in `text`.
pub open spec fn primary_lookup(source: VersionSource, text: Seq<char>) -> Option<Option<Seq<char>>> {
    match source {
        VersionSource::PackageJson | VersionSource::TauriConfig => json_string_at(text, "/version"@),
        VersionSource::CargoManifest => toml_string_at(text, "package"@, "version"@),
        VersionSource::Gradle => first_group(regex_group_captures(version_name_pattern(), text, 1)),
        _ => Some(None),
    }
}

/// The fallback lookup for a source in `text`.
pub open spec fn fallback_lookup(source: VersionSource, text: Seq<char>) -> Option<Option<Seq<char>>> {
    match source {
        VersionSource::TauriConfig => json_string_at(text, "/package/version"@),
        VersionSource::Gradle => first_group(regex_group_captures(version_pattern(), text, 1)),
        _ => Some(None),
    }
}

/// The version that a file at `path` holds, given whether it exists and its
/// text if it could be read: the file name picks the source, a leading run
/// of byte order marks is skipped, then the lookups decide.
pub open spec fn extracted_version(path: Seq<char>, exists: bool, content: Option<Seq<char>>) -> Result<
    Option<Seq<char>>,
    VersionError,
> {
    if !exists {
        Err(VersionError::MissingFile)
    } else {
        match file_name(path) {
            None => Err(VersionError::InvalidFileName),
            Some(name) => match content {
                None => Err(VersionError::Unreadable),
                Some(c) => {
                    let text = trim_start_char(c, '\u{feff}');
                    let source = version_source(name);
                    settled(
                        source,
                        primary_lookup(source, text),
                        fallback_lookup(source, text),
                    )
                },
            },
        }
    }
}

fn lookup(source: VersionSource, text: &str, fallback: bool) -> (r: Option<Option<String>>)
    ensures
        opt_view(r) == if fallback {
            fallback_lookup(source, text@)
        } else {
            primary_lookup(source, text@)
        },
{
    match source {
        VersionSource::PackageJson | VersionSource::TauriConfig => {
            if fallback && source == VersionSource::TauriConfig {
                json_string_at_pointer(text, "/package/version")
            } else if fallback {
                Some(None)
            } else {
                json_string_at_pointer(text, "/version")
            }
        },
        VersionSource::CargoManifest => {
            if fallback {
                Some(None)
            } else {
                toml_string_in_table(text, "package", "version")
            }
        },
        VersionSource::Gradle => {
            let pattern = if fallback {
                "version\\s*=\\s*[\"']([^\"']+)[\"']"
            } else {
                "versionName\\s*=\\s*[\"']([^\"']+)[\"']"
            };
            first_group_exec(regex_captures(pattern, text, 1))
        },
        _ => Some(None),
    }
}

/// Reads the version from a version file. `exists` says whether the file
/// exists; `content` is its text, or `None` if it could not be read.
pub fn extract_version_from_file(path: &str, exists: bool, content: &Option<String>) -> (r: Result<
    Option<String>,
    VersionError,
>)
    ensures
        outcome_view(r) == extracted_version(
            path@,
            exists,
            match content {
                Some(c) => Some(c@),
                None => None,
            },
        ),
{
    if !exists {
        return Err(VersionError::MissingFile);
    }
    let name = match file_name_of(path) {
        Some(n) => n,
        None => return Err(VersionError::InvalidFileName),
    };
    let text = match content {
        Some(c) => {
            let cs = chars_of(c.as_str());
            string_of(&trim_start_char_exec(&cs, '\u{feff}'))
        },
        None => return Err(VersionError::Unreadable),
    };
    let source = version_source_of(name.as_str());
    let primary = lookup(source, text.as_str(), false);
    let fallback = match &primary {
        Some(None) => lookup(source, text.as_str(), true),
        _ => Some(None),
    };
    settle_version(source, primary, fallback)
}

/// A byte order mark at the start of a file does not change the version read
/// from it.
pub proof fn lemma_version_ignores_bom(path: Seq<char>, exists: bool, content: Seq<char>)
    ensures
        extracted_version(path, exists, Some(seq!['\u{feff}'] + content)) == extracted_version(path, exists, Some(content)),
{
    let s = seq!['\u{feff}'] + content;
    assert(s.drop_first() =~= content);
    assert(trim_start_char(s, '\u{feff}') == trim_start_char(content, '\u{feff}'));
}


/// The version of a Gradle script: after a leading byte order mark is
/// skipped, the first match of `versionName = "…"` or `versionName = '…'`
/// (group 1 of the pattern `versionName\s*=\s*["']([^"']+)["']`) gives it;
/// only when that pattern matches nowhere does the first match of
/// `version = "…"` or `version = '…'` (the same pattern with `version`)
/// give it; when neither matches there is none. The patterns accept both
/// quote styles. A pattern the regex engine refuses is an error.
pub proof fn lemma_gradle_version(path: Seq<char>, content: Seq<char>)
    requires
        file_name(path) matches Some(name) && version_source(name) == VersionSource::Gradle,
    ensures
        ({
            let text = trim_start_char(content, '\u{feff}');
            let named = regex_group_captures("versionName\\s*=\\s*[\"']([^\"']+)[\"']"@, text, 1);
            let plain = regex_group_captures("version\\s*=\\s*[\"']([^\"']+)[\"']"@, text, 1);
            let r = extracted_version(path, true, Some(content));
            &&& named is None ==> r == Err::<Option<Seq<char>>, VersionError>(VersionError::InvalidPattern)
            &&& (named matches Some(cs) && cs.len() > 0 && cs[0] is Some) ==> r == Ok::<Option<Seq<char>>, VersionError>(named.unwrap()[0])
            &&& (named matches Some(cs) && (cs.len() == 0 || cs[0] is None)) ==> (
                (plain is None ==> r == Err::<Option<Seq<char>>, VersionError>(VersionError::InvalidPattern))
                && (plain matches Some(ds) ==> r == Ok::<Option<Seq<char>>, VersionError>(
                    if ds.len() > 0 { ds[0] } else { None },
                )))
        }),
{
}


/// What each manifest gives, after a leading byte order mark is skipped:
/// `package.json` and `update.json` the top-level `version` string (text
/// that is not JSON is an error); `tauri.conf.json` the top-level `version`,
/// or failing that `package.version`; `Cargo.toml` the `version` of the
/// `[package]` table (text that is not TOML is an error); `go.mod` none. A
/// file that does not exist, or cannot be read, is an error.
pub proof fn lemma_manifest_versions(path: Seq<char>, exists: bool, content: Option<Seq<char>>)
    ensures
        !exists ==> extracted_version(path, exists, content) == Err::<Option<Seq<char>>, VersionError>(
            VersionError::MissingFile,
        ),
        exists && file_name(path) is Some && content is None ==> extracted_version(path, exists, content)
            == Err::<Option<Seq<char>>, VersionError>(VersionError::Unreadable),
        ({
            let r = extracted_version(path, true, content);
            let text = trim_start_char(content.unwrap(), '\u{feff}');
            &&& (content is Some && (file_name(path) == Some("package.json"@) || file_name(path) == Some(
                "update.json"@,
            ))) ==> r == match json_string_at(text, "/version"@) {
                None => Err(VersionError::InvalidJson),
                Some(v) => Ok(v),
            }
            &&& (content is Some && file_name(path) == Some("tauri.conf.json"@)) ==> r == match json_string_at(
                text,
                "/version"@,
            ) {
                None => Err(VersionError::InvalidTauriConfig),
                Some(Some(v)) => Ok(Some(v)),
                Some(None) => match json_string_at(text, "/package/version"@) {
                    None => Err(VersionError::InvalidTauriConfig),
                    Some(v) => Ok(v),
                },
            }
            &&& (content is Some && file_name(path) == Some("Cargo.toml"@)) ==> r == match toml_string_at(
                text,
                "package"@,
                "version"@,
            ) {
                None => Err(VersionError::InvalidCargoManifest),
                Some(v) => Ok(v),
            }
            &&& (content is Some && file_name(path) == Some("go.mod"@)) ==> r == Ok::<
                Option<Seq<char>>,
                VersionError,
            >(None)
        }),
{
    reveal_strlit("package.json");
    reveal_strlit("update.json");
    reveal_strlit("tauri.conf.json");
    reveal_strlit("Cargo.toml");
    reveal_strlit("go.mod");
    assert("package.json"@.len() == 12 && "update.json"@.len() == 11 && "tauri.conf.json"@.len() == 15
        && "Cargo.toml"@.len() == 10 && "go.mod"@.len() == 6);
}

} // verus!
