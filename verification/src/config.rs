//! The configuration read from `releasepilot.toml`.
use vstd::prelude::*;

verus! {

/// The `[project]` table.
#[derive(Debug, Clone)]
pub struct ProjectConfig {
    pub name: String,
    /// The `type` key.
    pub project_type: String,
    pub version_files: Vec<String>,
}

/// The `[git]` table.
#[derive(Debug, Clone)]
pub struct GitConfig {
    pub main_branch: String,
    pub tag_prefix: String,
    pub require_clean_tree: bool,
}

/// The `[artifacts]` table: glob patterns that must each match a file.
#[derive(Debug, Clone)]
pub struct ArtifactsConfig {
    pub required: Vec<String>,
}

/// The `[checks]` table.
#[derive(Debug, Clone)]
pub struct ChecksConfig {
    pub required_files: Vec<String>,
    pub forbidden_strings: Vec<String>,
}

/// A whole configuration.
#[derive(Debug, Clone)]
pub struct Config {
    pub project: ProjectConfig,
    pub git: GitConfig,
    pub artifacts: ArtifactsConfig,
    pub checks: ChecksConfig,
}

/// The comment block that a generated configuration file starts with.
pub open spec fn config_header() -> Seq<char> {
    "# Generated by ReleasePilot. Review these settings before committing.\n\n"@
}

/// The text of a generated configuration file: the header, then the TOML
/// rendering of the configuration.
pub fn toml_with_header(body: &str) -> (r: String)
    ensures
        r@ == config_header() + body@,
{
    let mut r = String::from_str("# Generated by ReleasePilot. Review these settings before committing.\n\n");
    r.append(body);
    r
}

} // verus!
