//! Project type detection from marker files, and the default configuration
//! for each project type.
use vstd::prelude::*;
use crate::config::{ArtifactsConfig, ChecksConfig, Config, GitConfig, ProjectConfig};
use crate::path_safety::{config_paths_ok, config_paths_valid, PathSafetyError, dots_apart_from, lemma_no_fault_in_list, lemma_plain_path_accepted, path_fault};
use crate::text::{includes_str, str_eq, string_views};

verus! {

/// The kinds of project that ReleasePilot recognises.
#[derive(Debug, Clone, Copy, PartialEq, Eq, Structural)]
pub enum ProjectType {
    Tauri,
    Android,
    Go,
    Rust,
    NodeVite,
    Unknown,
}

impl ProjectType {
    /// The name that configurations use for the type.
    pub open spec fn name(self) -> Seq<char> {
        match self {
            ProjectType::Tauri => "tauri"@,
            ProjectType::Android => "android"@,
            ProjectType::Go => "go"@,
            ProjectType::Rust => "rust"@,
            ProjectType::NodeVite => "node-vite"@,
            ProjectType::Unknown => "unknown"@,
        }
    }

    /// The type that a name denotes; names that are not a type's denote
    /// `Unknown`.
    pub open spec fn named(s: Seq<char>) -> ProjectType {
        if s == "tauri"@ {
            ProjectType::Tauri
        } else if s == "android"@ {
            ProjectType::Android
        } else if s == "go"@ {
            ProjectType::Go
        } else if s == "rust"@ {
            ProjectType::Rust
        } else if s == "node-vite"@ {
            ProjectType::NodeVite
        } else {
            ProjectType::Unknown
        }
    }

    pub fn as_str(&self) -> (r: &'static str)
        ensures
            r@ == self.name(),
    {
        match self {
            ProjectType::Tauri => "tauri",
            ProjectType::Android => "android",
            ProjectType::Go => "go",
            ProjectType::Rust => "rust",
            ProjectType::NodeVite => "node-vite",
            ProjectType::Unknown => "unknown",
        }
    }

    pub fn from_str(s: &str) -> (r: ProjectType)
        ensures
            r == ProjectType::named(s@),
    {
        if str_eq(s, "tauri") {
            ProjectType::Tauri
        } else if str_eq(s, "android") {
            ProjectType::Android
        } else if str_eq(s, "go") {
            ProjectType::Go
        } else if str_eq(s, "rust") {
            ProjectType::Rust
        } else if str_eq(s, "node-vite") {
            ProjectType::NodeVite
        } else {
            ProjectType::Unknown
        }
    }
}

/// A type's name reads back as that type.
pub proof fn lemma_name_round_trip(t: ProjectType)
    ensures
        ProjectType::named(t.name()) == t,
{
    reveal_strlit("tauri");
    reveal_strlit("android");
    reveal_strlit("go");
    reveal_strlit("rust");
    reveal_strlit("node-vite");
    reveal_strlit("unknown");
    assert("tauri"@.len() == 5);
    assert("android"@.len() == 7);
    assert("go"@.len() == 2);
    assert("rust"@.len() == 4);
    assert("node-vite"@.len() == 9);
    assert("unknown"@.len() == 7);
    assert("unknown"@[0] != "android"@[0]);
}

/// The paths, relative to the project root, whose presence detection looks at.
pub open spec fn marker_path_list() -> Seq<Seq<char>> {
    seq![
        "src-tauri/tauri.conf.json"@,
        "settings.gradle"@,
        "settings.gradle.kts"@,
        "build.gradle"@,
        "build.gradle.kts"@,
        "app/src/main/AndroidManifest.xml"@,
        "app/build.gradle"@,
        "app/build.gradle.kts"@,
        "go.mod"@,
        "Cargo.toml"@,
        "src/main.rs"@,
        "package.json"@,
        "vite.config.ts"@,
        "vite.config.js"@,
        "vite.config.mts"@,
        "vite.config.mjs"@,
        "vite.config.cts"@,
        "vite.config.cjs"@,
    ]
}

/// The marker paths that detection looks at; the caller reports back which
/// of them exist under the project root.
pub fn marker_paths() -> (r: Vec<String>)
    ensures
        string_views(r@) == marker_path_list(),
{
    let r = vec![
        String::from_str("src-tauri/tauri.conf.json"),
        String::from_str("settings.gradle"),
        String::from_str("settings.gradle.kts"),
        String::from_str("build.gradle"),
        String::from_str("build.gradle.kts"),
        String::from_str("app/src/main/AndroidManifest.xml"),
        String::from_str("app/build.gradle"),
        String::from_str("app/build.gradle.kts"),
        String::from_str("go.mod"),
        String::from_str("Cargo.toml"),
        String::from_str("src/main.rs"),
        String::from_str("package.json"),
        String::from_str("vite.config.ts"),
        String::from_str("vite.config.js"),
        String::from_str("vite.config.mts"),
        String::from_str("vite.config.mjs"),
        String::from_str("vite.config.cts"),
        String::from_str("vite.config.cjs"),
    ];
    assert(string_views(r@) =~= marker_path_list());
    r
}

/// The project type for a root under which exactly the paths in `present`
/// exist (among the marker paths), tried in order: Tauri, Android, Go, Rust,
/// Node/Vite.
pub open spec fn detected_type(present: Seq<Seq<char>>) -> ProjectType {
    if present.contains("src-tauri/tauri.conf.json"@) {
        ProjectType::Tauri
    } else if (present.contains("settings.gradle"@) || present.contains("settings.gradle.kts"@)
        || present.contains("build.gradle"@) || present.contains("build.gradle.kts"@)) && (
    present.contains("app/src/main/AndroidManifest.xml"@) || present.contains("app/build.gradle"@)
        || present.contains("app/build.gradle.kts"@)) {
        ProjectType::Android
    } else if present.contains("go.mod"@) {
        ProjectType::Go
    } else if present.contains("Cargo.toml"@) && present.contains("src/main.rs"@) {
        ProjectType::Rust
    } else if present.contains("package.json"@) && (present.contains("vite.config.ts"@)
        || present.contains("vite.config.js"@) || present.contains("vite.config.mts"@)
        || present.contains("vite.config.mjs"@) || present.contains("vite.config.cts"@)
        || present.contains("vite.config.cjs"@)) {
        ProjectType::NodeVite
    } else {
        ProjectType::Unknown
    }
}

/// Detects the project type from the marker paths that exist under the root.
pub fn detect_project_type(present: &Vec<String>) -> (r: ProjectType)
    ensures
        r == detected_type(string_views(present@)),
{
    if includes_str(present, "src-tauri/tauri.conf.json") {
        return ProjectType::Tauri;
    }
    let has_android_gradle = includes_str(present, "settings.gradle") || includes_str(
        present,
        "settings.gradle.kts",
    ) || includes_str(present, "build.gradle") || includes_str(present, "build.gradle.kts");
    let has_android_app = includes_str(present, "app/src/main/AndroidManifest.xml")
        || includes_str(present, "app/build.gradle") || includes_str(
        present,
        "app/build.gradle.kts",
    );
    if has_android_gradle && has_android_app {
        return ProjectType::Android;
    }
    if includes_str(present, "go.mod") {
        return ProjectType::Go;
    }
    if includes_str(present, "Cargo.toml") && includes_str(present, "src/main.rs") {
        return ProjectType::Rust;
    }
    let has_package_json = includes_str(present, "package.json");
    let has_vite_config = includes_str(present, "vite.config.ts") || includes_str(
        present,
        "vite.config.js",
    ) || includes_str(present, "vite.config.mts") || includes_str(present, "vite.config.mjs")
        || includes_str(present, "vite.config.cts") || includes_str(present, "vite.config.cjs");
    if has_package_json && has_vite_config {
        return ProjectType::NodeVite;
    }
    ProjectType::Unknown
}

// ---------------------------------------------------------------------------
// Default configuration
// ---------------------------------------------------------------------------

/// The default version files. For Android the app-level Gradle script is
/// chosen by which of `app/build.gradle.kts` and `app/build.gradle` exist in
/// the working directory, the Kotlin one first and by default.
pub open spec fn default_version_files(
    t: ProjectType,
    app_gradle_kts_exists: bool,
    app_gradle_exists: bool,
) -> Seq<Seq<char>> {
    match t {
        ProjectType::Tauri => seq![
            "package.json"@,
            "src-tauri/Cargo.toml"@,
            "src-tauri/tauri.conf.json"@,
        ],
        ProjectType::Android => if !app_gradle_kts_exists && app_gradle_exists {
            seq!["app/build.gradle"@]
        } else {
            seq!["app/build.gradle.kts"@]
        },
        ProjectType::Go => seq!["go.mod"@],
        ProjectType::Rust => seq!["Cargo.toml"@],
        ProjectType::NodeVite => seq!["package.json"@],
        ProjectType::Unknown => Seq::empty(),
    }
}

pub open spec fn default_required_files(t: ProjectType) -> Seq<Seq<char>> {
    match t {
        ProjectType::Android => seq![
            "README.md"@,
            "LICENSE"@,
            "CONTRIBUTORS.md"@,
            "releasepilot.toml"@,
        ],
        _ => seq!["README.md"@, "LICENSE"@, "releasepilot.toml"@],
    }
}

pub open spec fn default_forbidden_strings(t: ProjectType) -> Seq<Seq<char>> {
    match t {
        ProjectType::Tauri => seq!["localhost"@, "/main/update.json"@],
        ProjectType::Android => seq!["localhost"@],
        ProjectType::NodeVite => seq!["localhost"@],
        _ => Seq::empty(),
    }
}

pub open spec fn default_artifacts(t: ProjectType) -> Seq<Seq<char>> {
    match t {
        ProjectType::Tauri => seq![
            "src-tauri/target/release/bundle/msi/*.msi"@,
            "src-tauri/target/release/bundle/dmg/*.dmg"@,
        ],
        ProjectType::Android => seq!["app/build/outputs/apk/release/*.apk"@],
        _ => Seq::empty(),
    }
}

/// `c` is the default configuration for a project of type `t` named `name`.
pub open spec fn is_default_config(
    c: Config,
    t: ProjectType,
    name: Seq<char>,
    app_gradle_kts_exists: bool,
    app_gradle_exists: bool,
) -> bool {
    &&& c.project.name@ == name
    &&& c.project.project_type@ == t.name()
    &&& string_views(c.project.version_files@) == default_version_files(
        t,
        app_gradle_kts_exists,
        app_gradle_exists,
    )
    &&& c.git.main_branch@ == "main"@
    &&& c.git.tag_prefix@ == "v"@
    &&& c.git.require_clean_tree
    &&& string_views(c.artifacts.required@) == default_artifacts(t)
    &&& string_views(c.checks.required_files@) == default_required_files(t)
    &&& string_views(c.checks.forbidden_strings@) == default_forbidden_strings(t)
}

fn strings_of(items: &Vec<&str>) -> (r: Vec<String>)
    ensures
        string_views(r@) == items@.map_values(|s: &str| s@),
{
    let mut r: Vec<String> = Vec::new();
    for i in 0..items.len()
        invariant
            string_views(r@) == items@.map_values(|s: &str| s@).take(i as int),
    {
        let ghost before = string_views(r@);
        r.push(String::from_str(items[i]));
        assert(string_views(r@) =~= before.push(items@[i as int]@));
        assert(items@.map_values(|s: &str| s@).take(i + 1) =~= before.push(items@[i as int]@));
    }
    assert(items@.map_values(|s: &str| s@).take(items.len() as int) =~= items@.map_values(
        |s: &str| s@,
    ));
    r
}

/// The default configuration for a project of the given type.
/// `app_gradle_kts_exists` and `app_gradle_exists` say whether
/// `app/build.gradle.kts` and `app/build.gradle` exist in the working
/// directory; only the Android default looks at them.
pub fn default_config_for(
    project_type: ProjectType,
    project_name: String,
    app_gradle_kts_exists: bool,
    app_gradle_exists: bool,
) -> (r: Config)
    ensures
        is_default_config(r, project_type, project_name@, app_gradle_kts_exists, app_gradle_exists),
{
    let version_files: Vec<&str> = match project_type {
        ProjectType::Tauri => vec!["package.json", "src-tauri/Cargo.toml", "src-tauri/tauri.conf.json"],
        ProjectType::Android => {
            if app_gradle_kts_exists {
                vec!["app/build.gradle.kts"]
            } else if app_gradle_exists {
                vec!["app/build.gradle"]
            } else {
                vec!["app/build.gradle.kts"]
            }
        },
        ProjectType::Go => vec!["go.mod"],
        ProjectType::Rust => vec!["Cargo.toml"],
        ProjectType::NodeVite => vec!["package.json"],
        ProjectType::Unknown => vec![],
    };
    let required_files: Vec<&str> = match project_type {
        ProjectType::Android => vec!["README.md", "LICENSE", "CONTRIBUTORS.md", "releasepilot.toml"],
        _ => vec!["README.md", "LICENSE", "releasepilot.toml"],
    };
    let forbidden_strings: Vec<&str> = match project_type {
        ProjectType::Tauri => vec!["localhost", "/main/update.json"],
        ProjectType::Android => vec!["localhost"],
        ProjectType::NodeVite => vec!["localhost"],
        _ => vec![],
    };
    let artifacts: Vec<&str> = match project_type {
        ProjectType::Tauri => vec![
            "src-tauri/target/release/bundle/msi/*.msi",
            "src-tauri/target/release/bundle/dmg/*.dmg",
        ],
        ProjectType::Android => vec!["app/build/outputs/apk/release/*.apk"],
        _ => vec![],
    };
    let ghost vf = default_version_files(project_type, app_gradle_kts_exists, app_gradle_exists);
    assert(version_files@.map_values(|s: &str| s@) =~= vf);
    assert(required_files@.map_values(|s: &str| s@) =~= default_required_files(project_type));
    assert(forbidden_strings@.map_values(|s: &str| s@) =~= default_forbidden_strings(
        project_type,
    ));
    assert(artifacts@.map_values(|s: &str| s@) =~= default_artifacts(project_type));
    Config {
        project: ProjectConfig {
            name: project_name,
            project_type: String::from_str(project_type.as_str()),
            version_files: strings_of(&version_files),
        },
        git: GitConfig {
            main_branch: String::from_str("main"),
            tag_prefix: String::from_str("v"),
            require_clean_tree: true,
        },
        artifacts: ArtifactsConfig { required: strings_of(&artifacts) },
        checks: ChecksConfig {
            required_files: strings_of(&required_files),
            forbidden_strings: strings_of(&forbidden_strings),
        },
    }
}


// ---------------------------------------------------------------------------
// Defaults pass the path-safety rules
// ---------------------------------------------------------------------------

/// Each path that a default configuration lists is accepted.
proof fn lemma_default_paths_accepted()
    ensures
        path_fault("package.json"@) is None,
        path_fault("src-tauri/Cargo.toml"@) is None,
        path_fault("src-tauri/tauri.conf.json"@) is None,
        path_fault("app/build.gradle"@) is None,
        path_fault("app/build.gradle.kts"@) is None,
        path_fault("go.mod"@) is None,
        path_fault("Cargo.toml"@) is None,
        path_fault("README.md"@) is None,
        path_fault("LICENSE"@) is None,
        path_fault("CONTRIBUTORS.md"@) is None,
        path_fault("releasepilot.toml"@) is None,
        path_fault("src-tauri/target/release/bundle/msi/*.msi"@) is None,
        path_fault("src-tauri/target/release/bundle/dmg/*.dmg"@) is None,
        path_fault("app/build/outputs/apk/release/*.apk"@) is None,
{
    assert(path_fault("package.json"@) is None) by {
        reveal_strlit("package.json");
        reveal_with_fuel(dots_apart_from, 13);
        lemma_plain_path_accepted("package.json"@);
    }
    assert(path_fault("src-tauri/Cargo.toml"@) is None) by {
        reveal_strlit("src-tauri/Cargo.toml");
        reveal_with_fuel(dots_apart_from, 21);
        lemma_plain_path_accepted("src-tauri/Cargo.toml"@);
    }
    assert(path_fault("src-tauri/tauri.conf.json"@) is None) by {
        reveal_strlit("src-tauri/tauri.conf.json");
        reveal_with_fuel(dots_apart_from, 26);
        lemma_plain_path_accepted("src-tauri/tauri.conf.json"@);
    }
    assert(path_fault("app/build.gradle"@) is None) by {
        reveal_strlit("app/build.gradle");
        reveal_with_fuel(dots_apart_from, 17);
        lemma_plain_path_accepted("app/build.gradle"@);
    }
    assert(path_fault("app/build.gradle.kts"@) is None) by {
        reveal_strlit("app/build.gradle.kts");
        reveal_with_fuel(dots_apart_from, 21);
        lemma_plain_path_accepted("app/build.gradle.kts"@);
    }
    assert(path_fault("go.mod"@) is None) by {
        reveal_strlit("go.mod");
        reveal_with_fuel(dots_apart_from, 7);
        lemma_plain_path_accepted("go.mod"@);
    }
    assert(path_fault("Cargo.toml"@) is None) by {
        reveal_strlit("Cargo.toml");
        reveal_with_fuel(dots_apart_from, 11);
        lemma_plain_path_accepted("Cargo.toml"@);
    }
    assert(path_fault("README.md"@) is None) by {
        reveal_strlit("README.md");
        reveal_with_fuel(dots_apart_from, 10);
        lemma_plain_path_accepted("README.md"@);
    }
    assert(path_fault("LICENSE"@) is None) by {
        reveal_strlit("LICENSE");
        reveal_with_fuel(dots_apart_from, 8);
        lemma_plain_path_accepted("LICENSE"@);
    }
    assert(path_fault("CONTRIBUTORS.md"@) is None) by {
        reveal_strlit("CONTRIBUTORS.md");
        reveal_with_fuel(dots_apart_from, 16);
        lemma_plain_path_accepted("CONTRIBUTORS.md"@);
    }
    assert(path_fault("releasepilot.toml"@) is None) by {
        reveal_strlit("releasepilot.toml");
        reveal_with_fuel(dots_apart_from, 18);
        lemma_plain_path_accepted("releasepilot.toml"@);
    }
    assert(path_fault("src-tauri/target/release/bundle/msi/*.msi"@) is None) by {
        reveal_strlit("src-tauri/target/release/bundle/msi/*.msi");
        reveal_with_fuel(dots_apart_from, 42);
        lemma_plain_path_accepted("src-tauri/target/release/bundle/msi/*.msi"@);
    }
    assert(path_fault("src-tauri/target/release/bundle/dmg/*.dmg"@) is None) by {
        reveal_strlit("src-tauri/target/release/bundle/dmg/*.dmg");
        reveal_with_fuel(dots_apart_from, 42);
        lemma_plain_path_accepted("src-tauri/target/release/bundle/dmg/*.dmg"@);
    }
    assert(path_fault("app/build/outputs/apk/release/*.apk"@) is None) by {
        reveal_strlit("app/build/outputs/apk/release/*.apk");
        reveal_with_fuel(dots_apart_from, 36);
        lemma_plain_path_accepted("app/build/outputs/apk/release/*.apk"@);
    }
}

/// Every default configuration passes the path-safety validation: its
/// version files, required files and artifact patterns are all relative and
/// stay inside the project, so `validate_config` accepts it.
pub proof fn lemma_default_config_paths_valid(
    c: Config,
    t: ProjectType,
    name: Seq<char>,
    app_gradle_kts_exists: bool,
    app_gradle_exists: bool,
)
    requires
        is_default_config(c, t, name, app_gradle_kts_exists, app_gradle_exists),
    ensures
        config_paths_valid(c),
        forall|r: Result<(), PathSafetyError>| config_paths_ok(r, c) ==> r is Ok,
{
    lemma_default_paths_accepted();
    let vf = default_version_files(t, app_gradle_kts_exists, app_gradle_exists);
    let rf = default_required_files(t);
    let af = default_artifacts(t);
    assert forall|j: int| 0 <= j < vf.len() implies path_fault(#[trigger] vf[j]) is None by {
        if j == 0 {
        } else if j == 1 {
        } else {
        }
    }
    assert forall|j: int| 0 <= j < rf.len() implies path_fault(#[trigger] rf[j]) is None by {
        if j == 0 {
        } else if j == 1 {
        } else if j == 2 {
        } else {
        }
    }
    assert forall|j: int| 0 <= j < af.len() implies path_fault(#[trigger] af[j]) is None by {
        if j == 0 {
        } else {
        }
    }
    lemma_no_fault_in_list(vf);
    lemma_no_fault_in_list(rf);
    lemma_no_fault_in_list(af);
}


/// A Node project with a Vite configuration in any of its six spellings
/// (`vite.config.ts`, `.js`, `.mts`, `.mjs`, `.cts`, `.cjs`) next to its
/// `package.json` is detected as Node/Vite when no Tauri, Android, Go or
/// Rust markers are present.
pub proof fn lemma_vite_project_detected(present: Seq<Seq<char>>, vite_config: Seq<char>)
    requires
        vite_config == "vite.config.ts"@ || vite_config == "vite.config.js"@ || vite_config
            == "vite.config.mts"@ || vite_config == "vite.config.mjs"@ || vite_config == "vite.config.cts"@
            || vite_config == "vite.config.cjs"@,
        present.contains("package.json"@),
        present.contains(vite_config),
        !present.contains("src-tauri/tauri.conf.json"@),
        !present.contains("settings.gradle"@),
        !present.contains("settings.gradle.kts"@),
        !present.contains("build.gradle"@),
        !present.contains("build.gradle.kts"@),
        !present.contains("go.mod"@),
        !present.contains("Cargo.toml"@),
    ensures
        detected_type(present) == ProjectType::NodeVite,
{
}


/// Detection tries the project types in order: a Tauri configuration makes
/// a Tauri project; else a root Gradle script together with an app module
/// makes an Android project; else `go.mod` a Go project; else `Cargo.toml`
/// with `src/main.rs` a Rust project. With none of the markers present the
/// type is unknown.
pub proof fn lemma_detection_order(present: Seq<Seq<char>>)
    ensures
        present.contains("src-tauri/tauri.conf.json"@) ==> detected_type(present) == ProjectType::Tauri,
        !present.contains("src-tauri/tauri.conf.json"@) && (present.contains("settings.gradle"@) || present.contains(
            "settings.gradle.kts"@,
        ) || present.contains("build.gradle"@) || present.contains("build.gradle.kts"@)) && (present.contains(
            "app/src/main/AndroidManifest.xml"@,
        ) || present.contains("app/build.gradle"@) || present.contains("app/build.gradle.kts"@))
            ==> detected_type(present) == ProjectType::Android,
        !present.contains("src-tauri/tauri.conf.json"@) && !present.contains("settings.gradle"@)
            && !present.contains("settings.gradle.kts"@) && !present.contains("build.gradle"@)
            && !present.contains("build.gradle.kts"@) && present.contains("go.mod"@) ==> detected_type(present)
            == ProjectType::Go,
        !present.contains("src-tauri/tauri.conf.json"@) && !present.contains("settings.gradle"@)
            && !present.contains("settings.gradle.kts"@) && !present.contains("build.gradle"@)
            && !present.contains("build.gradle.kts"@) && !present.contains("go.mod"@) && present.contains(
            "Cargo.toml"@,
        ) && present.contains("src/main.rs"@) ==> detected_type(present) == ProjectType::Rust,
        present.len() == 0 ==> detected_type(present) == ProjectType::Unknown,
{
}

} // verus!
