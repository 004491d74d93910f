//! Verified core of the boulder build tooling.

pub mod names;
pub mod stone_recipe;
pub mod stone_script;
pub mod builder;
pub mod fnmatch;
pub mod vfs;
pub mod paths;
pub mod draft;
pub mod profile;
pub mod package;
pub mod upstream;
pub mod triggers;
pub mod stone_payload;
pub mod erofs;
pub mod text;
pub mod util;
pub mod cli;
