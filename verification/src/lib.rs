pub mod checks;
pub mod commands;
pub mod config;
pub mod detect;
pub mod git;
pub mod parsers;
pub mod path_safety;
pub mod report;
pub mod secrets;
pub mod text;
pub mod version;
pub mod version_order;
