//! Building a recipe: its phases and the scripts that run in them.

pub mod script;
pub mod phase;
pub mod prepare;
pub mod tuning;
pub mod builtins;
pub mod git;
