//! Errors of script evaluation.

use vstd::prelude::*;

verus! {

/// Errors that can happen while evaluating scripts.
#[derive(Debug, PartialEq, Eq)]
pub enum EvalError {
    /// An action that the environment does not define
    UndefinedAction { name: String },
    /// A definition that the environment does not define
    UndefinedDefinition { name: String },
    /// A builtin that the environment does not define
    UndefinedBuiltin { name: String },
    /// A builtin used at the top level, where builtins are not allowed
    BuiltinsNotAllowed,
    /// The call stack grew beyond its limit
    TooDeep,
}

/// A stack trace for an evaluation of an expression in a script context.
#[derive(Debug)]
pub struct StackTrace {
    /// Stack frames in the trace, most recent first
    pub frames: Vec<String>,
}

/// Errors of script evaluation.
#[derive(Debug)]
pub enum Error {
    /// Evaluation failed with `source`; `trace` tells where
    Eval { source: EvalError, trace: StackTrace },
}

} // verus!
