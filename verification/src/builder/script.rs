//! Compiled build scripts.

use vstd::prelude::*;
use crate::names::strictly_sorted;
use crate::stone_script::context::{
    output_text, spec_eval, Command, CommandView, EvalState, Outcome, ScriptContext,
};
use crate::stone_script::env::ScriptEnv;
use crate::stone_script::error::Error;
use crate::stone_script::expr::{Expr, FragmentView};

verus! {

/// An output command with the compiled prefix and a newline put in front of its
/// text; a breakpoint as it is.
pub open spec fn prefixed(prefix: Seq<char>, c: CommandView) -> CommandView {
    match c {
        CommandView::Output { output } => CommandView::Output { output: prefix + "\n"@ + output },
        other => other,
    }
}

/// The evaluation state of a fresh context.
pub open spec fn empty_state() -> EvalState {
    EvalState { output: Seq::empty(), commands: Seq::empty(), dependencies: Set::empty() }
}

/// What compiling a bundle from the scripts `prefix` and `script` in `env` gives: the
/// failure of the prefix, or else of the script; or the bundle of the prefix's output,
/// the script's commands each prefixed with it, and the dependencies of both.
pub open spec fn bundle_outcome(
    env: ScriptEnv,
    prefix: Seq<FragmentView>,
    script: Seq<FragmentView>,
    r: Result<ScriptBundle, Error>,
) -> bool {
    match spec_eval(env, false, prefix, empty_state()) {
        Outcome::Failed(e, t, _) => r matches Err(Error::Eval { source, trace }) && source@
            == e && trace.frames@.map_values(|x: String| x@) == t,
        Outcome::Done(s1) => match spec_eval(
            env,
            false,
            script,
            EvalState {
                output: s1.output,
                commands: Seq::empty(),
                dependencies: s1.dependencies,
            },
        ) {
            Outcome::Failed(e, t, _) => r matches Err(Error::Eval { source, trace })
                && source@ == e && trace.frames@.map_values(|x: String| x@) == t,
            Outcome::Done(s2) => r matches Ok(b) && b.spec_env() == env && b.spec_prefix()
                == output_text(s1.commands) && b.spec_commands() == s2.commands.map_values(
                |c: CommandView| prefixed(output_text(s1.commands), c),
            ) && b.spec_dependencies().to_set() == s2.dependencies && strictly_sorted(
                b.spec_dependencies(),
            ),
        },
    }
}

/// A bundle of the output of a script and the execution environment used to
/// create it.
#[derive(Debug)]
pub struct ScriptBundle {
    /// ScriptEnv used to compile this bundle
    env: ScriptEnv,
    /// Compiled prefix
    prefix: String,
    /// Compiled dependencies
    dependencies: Vec<String>,
    /// Compiled commands
    commands: Vec<Command>,
}

impl ScriptBundle {
    /// The environment the bundle was compiled with.
    pub closed spec fn spec_env(&self) -> ScriptEnv {
        self.env
    }

    /// The compiled prefix.
    pub closed spec fn spec_prefix(&self) -> Seq<char> {
        self.prefix@
    }

    /// The compiled dependencies.
    pub closed spec fn spec_dependencies(&self) -> Seq<Seq<char>> {
        self.dependencies@.map_values(|d: String| d@)
    }

    /// The compiled commands.
    pub closed spec fn spec_commands(&self) -> Seq<CommandView> {
        self.commands@.map_values(|c: Command| c@)
    }

    /// Compile a [ScriptBundle] from an [Expr], using a specified [ScriptEnv]
    ///
    /// The prefix expression is evaluated first and its output text becomes the
    /// prefix; the script is then evaluated in the same context, and each of its
    /// output commands gets the prefix and a newline in front of it. The
    /// dependencies are those collected by both evaluations, in order, each once.
    pub fn build(env: ScriptEnv, prefix_expr: &Expr, expr: &Expr) -> (r: Result<Self, Error>)
        ensures
            bundle_outcome(env, prefix_expr@, expr@, r),
    {
        let mut ctx = ScriptContext::new();
        assert(ctx.state() == empty_state());
        let prefix = match ctx.eval_to_string(&env, prefix_expr) {
            Ok(p) => p,
            Err(e) => return Err(e),
        };
        match ctx.eval(&env, expr) {
            Ok(()) => {},
            Err(e) => return Err(e),
        }
        let flushed = ctx.flush_commands();
        let ghost fv = flushed@.map_values(|c: Command| c@);
        let mut commands: Vec<Command> = Vec::new();
        let mut i: usize = 0;
        while i < flushed.len()
            invariant
                i <= flushed@.len(),
                fv == flushed@.map_values(|c: Command| c@),
                commands@.map_values(|c: Command| c@) == fv.take(i as int).map_values(
                    |c: CommandView| prefixed(prefix@, c),
                ),
            decreases flushed@.len() - i,
        {
            let ghost before = commands@;
            let c = match &flushed[i] {
                Command::Output { output } => {
                    let mut text = prefix.clone();
                    text.push_str("\n");
                    text.push_str(output.as_str());
                    Command::Output { output: text }
                },
                Command::Breakpoint { line_num, exit } => Command::Breakpoint {
                    line_num: *line_num,
                    exit: *exit,
                },
            };
            commands.push(c);
            proof {
                reveal_strlit("\n");
                assert(fv.take(i + 1) =~= fv.take(i as int).push(fv[i as int]));
                assert(commands@.map_values(|c: Command| c@) =~= before.map_values(
                    |c: Command| c@,
                ).push(prefixed(prefix@, fv[i as int])));
                assert(fv.take(i + 1).map_values(|c: CommandView| prefixed(prefix@, c))
                    =~= fv.take(i as int).map_values(|c: CommandView| prefixed(prefix@, c)).push(
                    prefixed(prefix@, fv[i as int]),
                ));
            }
            i += 1;
        }
        assert(fv.take(i as int) =~= fv);
        let dependencies = ctx.dependency_list();
        Ok(ScriptBundle { env, prefix, dependencies, commands })
    }

    /// Access the [ScriptEnv] used to compile this [ScriptBundle]
    pub fn env(&self) -> (e: &ScriptEnv)
        ensures
            *e == self.spec_env(),
    {
        &self.env
    }

    /// Access the compiled prefix as a string
    pub fn prefix(&self) -> (p: &str)
        ensures
            p@ == self.spec_prefix(),
    {
        self.prefix.as_str()
    }

    /// Access the resulting dependencies
    pub fn dependencies(&self) -> (d: &[String])
        ensures
            d@.map_values(|x: String| x@) == self.spec_dependencies(),
    {
        self.dependencies.as_slice()
    }

    /// Access the resulting commands
    pub fn commands(&self) -> (c: &[Command])
        ensures
            c@.map_values(|x: Command| x@) == self.spec_commands(),
    {
        self.commands.as_slice()
    }
}

} // verus!
