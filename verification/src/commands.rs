//! The decisions of the `init`, `check` and `report` commands: where the
//! configuration file is, which configuration `init` proposes, and whether
//! `init` previews or writes.
use vstd::prelude::*;
use crate::config::Config;
use crate::detect::{default_config_for, is_default_config, ProjectType};
use crate::path_safety::{ensure_path_within_root, file_name, file_name_of, joined, within_root, PathSafetyError};
use crate::text::{chars_of, push_char};

verus! {

/// The configuration file name inside a target.
pub open spec fn config_file_name() -> Seq<char> {
    "releasepilot.toml"@
}

/// The configuration path for a target: the given path (or
/// `releasepilot.toml`), taken as is when absolute and joined to the target
/// root otherwise.
pub open spec fn config_path_for(target_root: Seq<char>, config: Option<Seq<char>>) -> Seq<char> {
    let p = match config {
        Some(c) => c,
        None => config_file_name(),
    };
    if p.len() > 0 && p[0] == '/' {
        p
    } else {
        joined(target_root, p)
    }
}

/// Where the configuration file of a target is. The caller then checks that
/// it lies inside the target (`ensure_path_within_root`).
pub fn resolve_config_path(target_root: &str, config: Option<String>) -> (r: String)
    ensures
        r@ == config_path_for(target_root@, match config {
            Some(c) => Some(c@),
            None => None,
        }),
{
    let p = match config {
        Some(c) => c,
        None => String::from_str("releasepilot.toml"),
    };
    let pc = chars_of(p.as_str());
    if pc.len() > 0 && pc[0] == '/' {
        return p;
    }
    let rc = chars_of(target_root);
    let mut r = String::from_str(target_root);
    if rc.len() > 0 && rc[rc.len() - 1] != '/' {
        push_char(&mut r, '/');
    }
    r.append(p.as_str());
    r
}

/// Accepts the configuration file only inside the target. `root` is the
/// target root and `candidate` the configuration file's path, both in
/// canonical form (the caller resolves them on disk; a file that does not
/// exist yet is its canonical parent joined with its name); `resolved` is the
/// path `resolve_config_path` gave. The file is accepted, as `resolved`,
/// exactly when `candidate` lies at or below `root`; otherwise the error says
/// that the config file must stay inside the target root.
pub fn config_file_within_target(root: &str, candidate: &str, resolved: String) -> (r: Result<String, PathSafetyError>)
    ensures
        r is Ok <==> within_root(root@, candidate@),
        r matches Ok(p) ==> p@ == resolved@,
        r matches Err(e) ==> (e matches PathSafetyError::OutsideRoot { label: l, root: o, path: p } && l@
            == "config file"@ && o@ == root@ && p@ == candidate@),
{
    match ensure_path_within_root(root, candidate, "config file") {
        Ok(()) => Ok(resolved),
        Err(e) => Err(e),
    }
}

/// The project name that `init` uses: the target directory's name, or
/// `ReleasePilotProject` when it has none.
pub open spec fn project_name_for(target_root: Seq<char>) -> Seq<char> {
    match file_name(target_root) {
        Some(n) => n,
        None => "ReleasePilotProject"@,
    }
}

/// The configuration that `init` proposes for a target of the given type.
pub fn init_config_for_target(
    target_root: &str,
    project_type: ProjectType,
    app_gradle_kts_exists: bool,
    app_gradle_exists: bool,
) -> (r: Config)
    ensures
        is_default_config(r, project_type, project_name_for(target_root@), app_gradle_kts_exists, app_gradle_exists),
{
    let name = match file_name_of(target_root) {
        Some(n) => n,
        None => String::from_str("ReleasePilotProject"),
    };
    default_config_for(project_type, name, app_gradle_kts_exists, app_gradle_exists)
}

/// Why `init` refused to go on.
#[derive(Debug, Clone, Copy, PartialEq, Eq, Structural)]
pub enum InitError {
    /// `--dry-run` and `--write` were both given.
    ConflictingFlags,
    /// The configuration file exists and `--force` was not given.
    AlreadyExists,
    /// The configuration file exists, `--force` was given but `--yes` was not.
    NeedsConfirmation,
}

impl InitError {
    /// The message for the error; `path` is the configuration path as `{:?}`
    /// renders it.
    pub open spec fn text(self, path: Seq<char>) -> Seq<char> {
        match self {
            InitError::ConflictingFlags => "--dry-run and --write cannot be used together."@,
            InitError::AlreadyExists => "releasepilot.toml already exists. Use --force to overwrite."@,
            InitError::NeedsConfirmation => "Refusing to overwrite "@ + path + " without --yes."@,
        }
    }

    pub fn message(&self, path: &str) -> (r: String)
        ensures
            r@ == self.text(path@),
    {
        match self {
            InitError::ConflictingFlags => String::from_str("--dry-run and --write cannot be used together."),
            InitError::AlreadyExists => String::from_str("releasepilot.toml already exists. Use --force to overwrite."),
            InitError::NeedsConfirmation => {
                let mut r = String::from_str("Refusing to overwrite ");
                r.append(path);
                r.append(" without --yes.");
                r
            },
        }
    }
}

/// What `init` does.
#[derive(Debug, Clone, Copy, PartialEq, Eq, Structural)]
pub enum InitMode {
    /// Print the configuration it would write, and write nothing.
    Preview,
    /// Write the configuration file.
    Write,
}

/// Whether an existing configuration file may be overwritten.
pub open spec fn overwrite_outcome(config_exists: bool, force: bool, yes: bool) -> Result<(), InitError> {
    if config_exists && !force {
        Err(InitError::AlreadyExists)
    } else if config_exists && !yes {
        Err(InitError::NeedsConfirmation)
    } else {
        Ok(())
    }
}

/// Checks, right before writing, that the configuration file may be written:
/// an existing one only with `--force` and `--yes`.
pub fn check_init_write(config_exists: bool, force: bool, yes: bool) -> (r: Result<(), InitError>)
    ensures
        r == overwrite_outcome(config_exists, force, yes),
{
    if config_exists && !force {
        return Err(InitError::AlreadyExists);
    }
    if config_exists && force && !yes {
        return Err(InitError::NeedsConfirmation);
    }
    Ok(())
}

/// What `init` does for the given flags.
pub open spec fn init_outcome(dry_run: bool, write: bool, force: bool, yes: bool, config_exists: bool) -> Result<InitMode, InitError> {
    if dry_run && write {
        Err(InitError::ConflictingFlags)
    } else if !write {
        Ok(InitMode::Preview)
    } else {
        match overwrite_outcome(config_exists, force, yes) {
            Ok(_) => Ok(InitMode::Write),
            Err(e) => Err(e),
        }
    }
}

/// Decides what `init` does: it previews unless `--write` is given, refuses
/// `--dry-run` together with `--write`, and overwrites an existing
/// configuration only with `--force` and `--yes`.
pub fn plan_init(dry_run: bool, write: bool, force: bool, yes: bool, config_exists: bool) -> (r: Result<InitMode, InitError>)
    ensures
        r == init_outcome(dry_run, write, force, yes, config_exists),
{
    if dry_run && write {
        return Err(InitError::ConflictingFlags);
    }
    if !write {
        return Ok(InitMode::Preview);
    }
    match check_init_write(config_exists, force, yes) {
        Ok(()) => Ok(InitMode::Write),
        Err(e) => Err(e),
    }
}

/// `init` writes only when asked to, and never replaces an existing
/// configuration without both `--force` and `--yes`.
pub proof fn lemma_init_writes_only_when_asked(dry_run: bool, write: bool, force: bool, yes: bool, config_exists: bool)
    ensures
        init_outcome(dry_run, write, force, yes, config_exists) == Ok::<InitMode, InitError>(InitMode::Write) ==> write
            && !dry_run && (!config_exists || (force && yes)),
        !write ==> init_outcome(dry_run, write, force, yes, config_exists) == Ok::<InitMode, InitError>(InitMode::Preview),
{
}

} // verus!
