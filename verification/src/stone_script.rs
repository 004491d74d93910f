//! Parsing and evaluation of the script templates used in recipes and macros.
//!
//! A script is text with directives inside of it:
//!  - `%(_name)` evaluates the builtin `name` (not allowed on the bottom stack frame)
//!  - `%(name)` evaluates the definition `name`
//!  - `%name` evaluates the action `name`
//!  - `%break_continue` emits a breakpoint
//!  - `%break_exit` emits a breakpoint that requests an exit afterwards
//!  - `%%` stands for a literal `%`

pub mod parser;
pub mod error;
pub mod expr;
pub mod env;
pub mod context;
pub mod laws;
