# releasepilot

A local release-readiness checker for open-source projects: it detects the
project type, inspects the git state, reads version numbers from manifest
files, checks required files, artifacts and forbidden strings, lists the
repository secrets that workflows use, and renders a text or Markdown report.

## Layout

- `src/` is the library, written in Verus. Each public function states what it
  returns in its `ensures` clause over spec functions on `Seq<char>` and the
  other mathematical types of `vstd`, and the laws of the library are public
  proof functions (`lemma_*`).
  - `text.rs`: trimming, splitting, line iteration, substring search, decimal
    rendering and parsing, the string order.
  - `version_order.rs`: the order of version strings.
  - `version.rs`: reading a version from `package.json`, `tauri.conf.json`,
    `Cargo.toml`, `go.mod` and Gradle scripts.
  - `parsers.rs`: the calls into `regex`, `serde_json` and `toml`.
  - `git.rs`: the `git` queries and the reading of their output.
  - `detect.rs`: project type detection and default configurations.
  - `path_safety.rs`: which configured paths are accepted.
  - `secrets.rs`: the secrets that workflows reference.
  - `checks.rs`: every check, from the configuration and what was observed.
  - `report.rs`: the text and Markdown reports.
  - `commands.rs`: the decisions of `init`, `check` and `report`.
- `app/main.rs` is the command-line program: argument parsing, the file
  system, running `git`, and printing.
- `tests/` holds the tests.
