//! The mutable context in which scripts are evaluated.

use vstd::prelude::*;
use crate::names::NameSet;
use crate::stone_script::env::ScriptEnv;
use crate::stone_script::error::{Error, EvalError, StackTrace};
use crate::stone_script::expr::{Expr, Fragment, FragmentView};

verus! {

/// The deepest the call stack of an evaluation may grow.
pub const MAX_DEPTH: usize = 128;

/// An output of a script: some text, or a breakpoint.
#[derive(Debug, Clone, PartialEq)]
pub enum Command {
    Output { output: String },
    Breakpoint { line_num: usize, exit: bool },
}

/// The mathematical value of a [`Command`].
pub enum CommandView {
    Output { output: Seq<char> },
    Breakpoint { line_num: nat, exit: bool },
}

impl View for Command {
    type V = CommandView;

    open spec fn view(&self) -> CommandView {
        match self {
            Command::Output { output } => CommandView::Output { output: output@ },
            Command::Breakpoint { line_num, exit } => CommandView::Breakpoint {
                line_num: *line_num as nat,
                exit: *exit,
            },
        }
    }
}

/// The mathematical value of an [`EvalError`].
pub enum EvalErrorView {
    UndefinedAction(Seq<char>),
    UndefinedDefinition(Seq<char>),
    UndefinedBuiltin(Seq<char>),
    BuiltinsNotAllowed,
    TooDeep,
}

impl View for EvalError {
    type V = EvalErrorView;

    open spec fn view(&self) -> EvalErrorView {
        match self {
            EvalError::UndefinedAction { name } => EvalErrorView::UndefinedAction(name@),
            EvalError::UndefinedDefinition { name } => EvalErrorView::UndefinedDefinition(name@),
            EvalError::UndefinedBuiltin { name } => EvalErrorView::UndefinedBuiltin(name@),
            EvalError::BuiltinsNotAllowed => EvalErrorView::BuiltinsNotAllowed,
            EvalError::TooDeep => EvalErrorView::TooDeep,
        }
    }
}

/// What an evaluation has produced so far: the pending output text, the
/// emitted commands and the collected dependencies.
pub struct EvalState {
    pub output: Seq<char>,
    pub commands: Seq<CommandView>,
    pub dependencies: Set<Seq<char>>,
}

/// The end of an evaluation: the state it left, and on failure the error and the stack trace
/// (most recent frame first).
pub enum Outcome {
    Done(EvalState),
    Failed(EvalErrorView, Seq<Seq<char>>, EvalState),
}

/// Moves pending output text, when there is any, into an output command.
pub open spec fn flushed(st: EvalState) -> EvalState {
    if st.output.len() == 0 {
        st
    } else {
        EvalState {
            output: Seq::empty(),
            commands: st.commands.push(CommandView::Output { output: st.output }),
            dependencies: st.dependencies,
        }
    }
}

/// The text of `s` as `format!("{s:?}")` writes it: quoted, with escapes.
pub uninterp spec fn debug_quoted(s: Seq<char>) -> Seq<char>;

/// The stack trace line of a call fragment.
pub open spec fn call_label(f: FragmentView) -> Seq<char> {
    match f {
        FragmentView::Builtin(n) => "builtin "@ + debug_quoted(n),
        FragmentView::Definition(n) => "definition "@ + debug_quoted(n),
        FragmentView::Action(n) => "action "@ + debug_quoted(n),
        _ => Seq::empty(),
    }
}

/// `fragments[i..]` of a frame at stack depth `depth`, evaluated from state `st`.
pub open spec fn eval_from(
    env: ScriptEnv,
    allow_toplevel: bool,
    fragments: Seq<FragmentView>,
    i: int,
    depth: int,
    st: EvalState,
) -> Outcome
    decreases MAX_DEPTH - depth, fragments.len() - i,
{
    if depth < 1 || depth > MAX_DEPTH || i < 0 || i >= fragments.len() {
        Outcome::Done(st)
    } else {
        let f = fragments[i];
        match f {
            FragmentView::Output(o) => eval_from(
                env,
                allow_toplevel,
                fragments,
                i + 1,
                depth,
                EvalState { output: st.output + o, commands: st.commands, dependencies: st.dependencies },
            ),
            FragmentView::Breakpoint { line_num, exit } => {
                let st2 = flushed(st);
                eval_from(
                    env,
                    allow_toplevel,
                    fragments,
                    i + 1,
                    depth,
                    EvalState {
                        output: st2.output,
                        commands: st2.commands.push(CommandView::Breakpoint { line_num, exit }),
                        dependencies: st2.dependencies,
                    },
                )
            },
            FragmentView::Builtin(n) => {
                if !allow_toplevel && depth == 1 {
                    Outcome::Failed(EvalErrorView::BuiltinsNotAllowed, seq![call_label(f)], st)
                } else if !env.builtins@.dom().contains(n) {
                    Outcome::Failed(EvalErrorView::UndefinedBuiltin(n), seq![call_label(f)], st)
                } else if depth >= MAX_DEPTH {
                    Outcome::Failed(EvalErrorView::TooDeep, seq![call_label(f)], st)
                } else {
                    match eval_from(env, allow_toplevel, env.builtins@[n]@, 0, depth + 1, st) {
                        Outcome::Done(st2) => eval_from(
                            env,
                            allow_toplevel,
                            fragments,
                            i + 1,
                            depth,
                            st2,
                        ),
                        Outcome::Failed(e, t, s) => Outcome::Failed(e, t.push(call_label(f)), s),
                    }
                }
            },
            FragmentView::Definition(n) => {
                if !env.definitions@.dom().contains(n) {
                    Outcome::Failed(EvalErrorView::UndefinedDefinition(n), seq![call_label(f)], st)
                } else if depth >= MAX_DEPTH {
                    Outcome::Failed(EvalErrorView::TooDeep, seq![call_label(f)], st)
                } else {
                    match eval_from(
                        env,
                        allow_toplevel,
                        env.definitions@[n].value@,
                        0,
                        depth + 1,
                        st,
                    ) {
                        Outcome::Done(st2) => eval_from(
                            env,
                            allow_toplevel,
                            fragments,
                            i + 1,
                            depth,
                            st2,
                        ),
                        Outcome::Failed(e, t, s) => Outcome::Failed(e, t.push(call_label(f)), s),
                    }
                }
            },
            FragmentView::Action(n) => {
                if !env.actions@.dom().contains(n) {
                    Outcome::Failed(EvalErrorView::UndefinedAction(n), seq![call_label(f)], st)
                } else if depth >= MAX_DEPTH {
                    Outcome::Failed(EvalErrorView::TooDeep, seq![call_label(f)], st)
                } else {
                    let action = env.actions@[n];
                    let st1 = EvalState {
                        output: st.output,
                        commands: st.commands,
                        dependencies: st.dependencies + action.dependencies@.map_values(
                            |d: String| d@,
                        ).to_set(),
                    };
                    match eval_from(env, allow_toplevel, action.value@, 0, depth + 1, st1) {
                        Outcome::Done(st2) => eval_from(
                            env,
                            allow_toplevel,
                            fragments,
                            i + 1,
                            depth,
                            st2,
                        ),
                        Outcome::Failed(e, t, s) => Outcome::Failed(e, t.push(call_label(f)), s),
                    }
                }
            },
        }
    }
}

/// The outcome of evaluating the expression `e` on the bottom frame of the stack.
pub open spec fn spec_eval(env: ScriptEnv, allow_toplevel: bool, e: Seq<FragmentView>, st: EvalState) -> Outcome {
    match eval_from(env, allow_toplevel, e, 0, 1, st) {
        Outcome::Done(st2) => Outcome::Done(flushed(st2)),
        failed => failed,
    }
}

/// The text of the output commands, in order; breakpoints contribute nothing.
pub open spec fn output_text(cmds: Seq<CommandView>) -> Seq<char>
    decreases cmds.len(),
{
    if cmds.len() == 0 {
        Seq::empty()
    } else {
        output_text(cmds.drop_last()) + match cmds.last() {
            CommandView::Output { output } => output,
            CommandView::Breakpoint { .. } => Seq::empty(),
        }
    }
}

/// `format!("{s:?}")`: the text of `s`, quoted, with escapes.
#[verifier::external_body]
fn debug_quote(s: &str) -> (r: String)
    ensures
        r@ == debug_quoted(s@),
{
    format!("{:?}", s)
}

/// The stack trace line of a call fragment.
fn call_label_exec(f: &Fragment) -> (r: String)
    ensures
        r@ == call_label(f@),
{
    let mut l = String::new();
    match f {
        Fragment::Builtin(n) => {
            l.push_str("builtin ");
            l.push_str(debug_quote(n.as_str()).as_str());
        },
        Fragment::Definition(n) => {
            l.push_str("definition ");
            l.push_str(debug_quote(n.as_str()).as_str());
        },
        Fragment::Action(n) => {
            l.push_str("action ");
            l.push_str(debug_quote(n.as_str()).as_str());
        },
        _ => {},
    }
    assert(l@ =~= call_label(f@));
    l
}

/// The mutable context of a script evaluation
#[derive(Debug, Clone)]
pub struct ScriptContext {
    /// Temporary output buffer, for coalescing repeated Command::Output
    output: String,
    /// Current output commands of the script
    commands: Vec<Command>,
    /// Current dependencies of the script
    pub dependencies: NameSet,
    /// If this is set, builtins are always allowed, else they are only allowed
    /// inside of definitions and actions
    pub allow_toplevel_builtins: bool,
}

impl ScriptContext {
    /// The state of evaluation held in this context.
    pub closed spec fn state(&self) -> EvalState {
        EvalState {
            output: self.output@,
            commands: self.commands@.map_values(|c: Command| c@),
            dependencies: self.dependencies.spec_set(),
        }
    }

    /// The collected dependencies, in increasing lexicographic order, each once.
    pub fn dependency_list(&self) -> (v: Vec<String>)
        ensures
            v@.map_values(|d: String| d@).to_set() == self.state().dependencies,
            crate::names::strictly_sorted(v@.map_values(|d: String| d@)),
    {
        self.dependencies.to_vec()
    }

    /// Whether builtins are allowed on the bottom stack frame.
    pub closed spec fn allows_toplevel_builtins(&self) -> bool {
        self.allow_toplevel_builtins
    }

    /// Create a new, empty script context
    pub fn new() -> (ctx: Self)
        ensures
            ctx.state() == (EvalState {
                output: Seq::empty(),
                commands: Seq::empty(),
                dependencies: Set::empty(),
            }),
            !ctx.allows_toplevel_builtins(),
    {
        let ctx = ScriptContext {
            output: String::new(),
            commands: Vec::new(),
            dependencies: NameSet::new(),
            allow_toplevel_builtins: false,
        };
        assert(ctx.state().commands =~= Seq::<CommandView>::empty());
        assert(ctx.state().dependencies =~= Set::<Seq<char>>::empty());
        ctx
    }

    /// When the output buffer is not empty, push out [Command::Output] with
    /// the contents of the output buffer.
    fn push_output_command(&mut self)
        ensures
            final(self).state() == flushed(old(self).state()),
            final(self).allows_toplevel_builtins() == old(self).allows_toplevel_builtins(),
    {
        if !self.output.as_str().is_empty() {
            let mut taken = String::new();
            std::mem::swap(&mut taken, &mut self.output);
            let ghost before = self.commands@;
            self.commands.push(Command::Output { output: taken });
            assert(self.commands@.map_values(|c: Command| c@) =~= before.map_values(
                |c: Command| c@,
            ).push(CommandView::Output { output: old(self).output@ }));
        }
    }

    /// Allow usage of toplevel builtins in this context
    pub fn with_toplevel_builtins(self) -> (ctx: Self)
        ensures
            ctx.state() == self.state(),
            ctx.allows_toplevel_builtins(),
    {
        let mut ctx = self;
        ctx.allow_toplevel_builtins = true;
        ctx
    }
}


/// `d` with the names of `names[..j]` added.
proof fn lemma_to_set_take_push(names: Seq<Seq<char>>, j: int)
    requires
        0 <= j < names.len(),
    ensures
        names.take(j + 1).to_set() == names.take(j).to_set().insert(names[j]),
{
    assert(names.take(j + 1) =~= names.take(j).push(names[j]));

    assert(names.take(j).push(names[j]).to_set() =~= names.take(j).to_set().insert(names[j]))
        by {
        assert forall|x: Seq<char>| names.take(j).push(names[j]).to_set().contains(
            x,
        ) implies names.take(j).to_set().insert(names[j]).contains(x) by {
            let k = choose|k: int|
                0 <= k < names.take(j).push(names[j]).len() && names.take(j).push(names[j])[k]
                    == x;
            if k < j {
                assert(names.take(j)[k] == x);
            }
        }
        assert forall|x: Seq<char>| names.take(j).to_set().insert(names[j]).contains(
            x,
        ) implies names.take(j).push(names[j]).to_set().contains(x) by {
            if x == names[j] {
                assert(names.take(j).push(names[j])[j] == x);
            } else {
                let k = choose|k: int| 0 <= k < names.take(j).len() && names.take(j)[k] == x;
                assert(names.take(j).push(names[j])[k] == x);
            }
        }
    }
}

impl ScriptContext {
    /// Adds the names of `deps` to the dependencies.
    fn add_dependencies(&mut self, deps: &Vec<String>)
        ensures
            final(self).state() == (EvalState {
                output: old(self).state().output,
                commands: old(self).state().commands,
                dependencies: old(self).state().dependencies + deps@.map_values(|d: String| d@).to_set(),
            }),
            final(self).allows_toplevel_builtins() == old(self).allows_toplevel_builtins(),
    {
        let ghost names = deps@.map_values(|d: String| d@);
        let ghost start = self.dependencies.spec_set();
        let mut j: usize = 0;
        assert(names.take(0).to_set() =~= Set::<Seq<char>>::empty());
        assert(start + Set::<Seq<char>>::empty() =~= start);
        while j < deps.len()
            invariant
                j <= deps@.len(),
                names == deps@.map_values(|d: String| d@),
                self.dependencies.spec_set() == start + names.take(j as int).to_set(),
                self.output@ == old(self).output@,
                self.commands@ == old(self).commands@,
                self.allow_toplevel_builtins == old(self).allow_toplevel_builtins,
            decreases deps@.len() - j,
        {
            self.dependencies.insert(deps[j].clone());
            proof {
                lemma_to_set_take_push(names, j as int);
                assert(start + names.take(j + 1).to_set() =~= (start + names.take(
                    j as int,
                ).to_set()).insert(names[j as int]));
            }
            j += 1;
        }
        assert(names.take(j as int) =~= names);
    }

    /// Evaluates `fragments` as a frame at stack depth `depth`; on failure, the error
    /// and the stack trace, most recent frame first.
    fn eval_frags(&mut self, env: &ScriptEnv, fragments: &Vec<Fragment>, depth: usize) -> (r: Result<
        (),
        (EvalError, Vec<String>),
    >)
        requires
            1 <= depth <= MAX_DEPTH,
        ensures
            final(self).allows_toplevel_builtins() == old(self).allows_toplevel_builtins(),
            match eval_from(
                *env,
                old(self).allows_toplevel_builtins(),
                fragments@.map_values(|f: Fragment| f@),
                0,
                depth as int,
                old(self).state(),
            ) {
                Outcome::Done(st) => r is Ok && final(self).state() == st,
                Outcome::Failed(e, t, s) => r matches Err((err, tr)) && err@ == e && tr@.map_values(
                    |x: String| x@,
                ) == t && final(self).state() == s,
            },
        decreases MAX_DEPTH - depth,
    {
        let ghost fv = fragments@.map_values(|f: Fragment| f@);
        let ghost allow = self.allow_toplevel_builtins;
        let ghost goal = eval_from(*env, allow, fv, 0, depth as int, self.state());
        let mut i: usize = 0;
        while i < fragments.len()
            invariant
                i <= fragments@.len(),
                1 <= depth <= MAX_DEPTH,
                fv == fragments@.map_values(|f: Fragment| f@),
                self.allow_toplevel_builtins == allow,
                allow == old(self).allow_toplevel_builtins,
                goal == eval_from(*env, allow, fv, 0, depth as int, old(self).state()),
                goal == eval_from(*env, allow, fv, i as int, depth as int, self.state()),
            decreases fragments@.len() - i,
        {
            let ghost st = self.state();
            let ghost f = fv[i as int];
            match &fragments[i] {
                Fragment::Output(o) => {
                    self.output.push_str(o.as_str());
                    assert(self.state() == (EvalState {
                        output: st.output + o@,
                        commands: st.commands,
                        dependencies: st.dependencies,
                    }));
                },
                Fragment::Breakpoint { line_num, exit } => {
                    self.push_output_command();
                    let ghost before = self.commands@;
                    self.commands.push(Command::Breakpoint { line_num: *line_num, exit: *exit });
                    assert(self.commands@.map_values(|c: Command| c@) =~= before.map_values(
                        |c: Command| c@,
                    ).push(CommandView::Breakpoint { line_num: *line_num as nat, exit: *exit }));
                },
                Fragment::Builtin(name) => {
                    if !self.allow_toplevel_builtins && depth == 1 {
                        let t = vec![call_label_exec(&fragments[i])];
                        assert(t@.map_values(|x: String| x@) =~= seq![call_label(f)]);
                        return Err((EvalError::BuiltinsNotAllowed, t));
                    }
                    match env.builtins.get(name.as_str()) {
                        None => {
                            let t = vec![call_label_exec(&fragments[i])];
                            assert(t@.map_values(|x: String| x@) =~= seq![call_label(f)]);
                            return Err((EvalError::UndefinedBuiltin { name: name.clone() }, t));
                        },
                        Some(value) => {
                            if depth >= MAX_DEPTH {
                                let t = vec![call_label_exec(&fragments[i])];
                                assert(t@.map_values(|x: String| x@) =~= seq![call_label(f)]);
                                return Err((EvalError::TooDeep, t));
                            }
                            match self.eval_frags(env, &value.fragments, depth + 1) {
                                Ok(()) => {},
                                Err((e, t)) => {
                                    let mut t = t;
                                    let ghost t0 = t@.map_values(|x: String| x@);
                                    t.push(call_label_exec(&fragments[i]));
                                    assert(t@.map_values(|x: String| x@) =~= t0.push(
                                        call_label(f),
                                    ));
                                    return Err((e, t));
                                },
                            }
                        },
                    }
                },
                Fragment::Definition(name) => {
                    match env.definitions.get(name.as_str()) {
                        None => {
                            let t = vec![call_label_exec(&fragments[i])];
                            assert(t@.map_values(|x: String| x@) =~= seq![call_label(f)]);
                            return Err((EvalError::UndefinedDefinition { name: name.clone() }, t));
                        },
                        Some(definition) => {
                            if depth >= MAX_DEPTH {
                                let t = vec![call_label_exec(&fragments[i])];
                                assert(t@.map_values(|x: String| x@) =~= seq![call_label(f)]);
                                return Err((EvalError::TooDeep, t));
                            }
                            match self.eval_frags(env, &definition.value.fragments, depth + 1) {
                                Ok(()) => {},
                                Err((e, t)) => {
                                    let mut t = t;
                                    let ghost t0 = t@.map_values(|x: String| x@);
                                    t.push(call_label_exec(&fragments[i]));
                                    assert(t@.map_values(|x: String| x@) =~= t0.push(
                                        call_label(f),
                                    ));
                                    return Err((e, t));
                                },
                            }
                        },
                    }
                },
                Fragment::Action(name) => {
                    match env.actions.get(name.as_str()) {
                        None => {
                            let t = vec![call_label_exec(&fragments[i])];
                            assert(t@.map_values(|x: String| x@) =~= seq![call_label(f)]);
                            return Err((EvalError::UndefinedAction { name: name.clone() }, t));
                        },
                        Some(action) => {
                            if depth >= MAX_DEPTH {
                                let t = vec![call_label_exec(&fragments[i])];
                                assert(t@.map_values(|x: String| x@) =~= seq![call_label(f)]);
                                return Err((EvalError::TooDeep, t));
                            }
                            self.add_dependencies(&action.dependencies);
                            match self.eval_frags(env, &action.value.fragments, depth + 1) {
                                Ok(()) => {},
                                Err((e, t)) => {
                                    let mut t = t;
                                    let ghost t0 = t@.map_values(|x: String| x@);
                                    t.push(call_label_exec(&fragments[i]));
                                    assert(t@.map_values(|x: String| x@) =~= t0.push(
                                        call_label(f),
                                    ));
                                    return Err((e, t));
                                },
                            }
                        },
                    }
                },
            }
            i += 1;
        }
        Ok(())
    }

    /// Evaluate an expression in this script context, using `env` as its environment
    pub fn eval(&mut self, env: &ScriptEnv, expr: &Expr) -> (r: Result<(), Error>)
        ensures
            final(self).allows_toplevel_builtins() == old(self).allows_toplevel_builtins(),
            match spec_eval(*env, old(self).allows_toplevel_builtins(), expr@, old(self).state()) {
                Outcome::Done(st) => r is Ok && final(self).state() == st,
                Outcome::Failed(e, t, s) => r matches Err(Error::Eval { source, trace }) && source@
                    == e && trace.frames@.map_values(|x: String| x@) == t && final(self).state()
                    == s,
            },
    {
        match self.eval_frags(env, &expr.fragments, 1) {
            Ok(()) => {
                self.push_output_command();
                Ok(())
            },
            Err((source, frames)) => Err(Error::Eval { source, trace: StackTrace { frames } }),
        }
    }
}

impl ScriptContext {
    /// Evaluate an expression in this script context, using `env` as its environment,
    /// and flush all the output into a new [String]
    pub fn eval_to_string(&mut self, env: &ScriptEnv, expr: &Expr) -> (r: Result<String, Error>)
        ensures
            final(self).allows_toplevel_builtins() == old(self).allows_toplevel_builtins(),
            match spec_eval(*env, old(self).allows_toplevel_builtins(), expr@, old(self).state()) {
                Outcome::Done(st) => r matches Ok(text) && text@ == output_text(st.commands)
                    && final(self).state() == (EvalState {
                    output: st.output,
                    commands: Seq::empty(),
                    dependencies: st.dependencies,
                }),
                Outcome::Failed(e, t, s) => r matches Err(Error::Eval { source, trace }) && source@
                    == e && trace.frames@.map_values(|x: String| x@) == t && final(self).state()
                    == s,
            },
    {
        match self.eval(env, expr) {
            Ok(()) => Ok(self.flush_to_string()),
            Err(e) => Err(e),
        }
    }

    /// Flush all the emitted commands from the context, in the order they were emitted
    pub fn flush_commands(&mut self) -> (cmds: Vec<Command>)
        ensures
            cmds@.map_values(|c: Command| c@) == old(self).state().commands,
            final(self).state() == (EvalState {
                output: old(self).state().output,
                commands: Seq::empty(),
                dependencies: old(self).state().dependencies,
            }),
            final(self).allows_toplevel_builtins() == old(self).allows_toplevel_builtins(),
    {
        let mut cmds: Vec<Command> = Vec::new();
        std::mem::swap(&mut cmds, &mut self.commands);
        assert(self.commands@.map_values(|c: Command| c@) =~= Seq::<CommandView>::empty());
        cmds
    }

    /// Flush all of the emitted commands from the output, and push them onto
    /// the end of the target [String]
    pub fn flush_output(&mut self, target: &mut String)
        ensures
            final(target)@ == old(target)@ + output_text(old(self).state().commands),
            final(self).state() == (EvalState {
                output: old(self).state().output,
                commands: Seq::empty(),
                dependencies: old(self).state().dependencies,
            }),
            final(self).allows_toplevel_builtins() == old(self).allows_toplevel_builtins(),
    {
        let cmds = self.flush_commands();
        let ghost cv = cmds@.map_values(|c: Command| c@);
        let ghost start = target@;
        let mut i: usize = 0;
        while i < cmds.len()
            invariant
                i <= cmds@.len(),
                cv == cmds@.map_values(|c: Command| c@),
                target@ == start + output_text(cv.take(i as int)),
            decreases cmds@.len() - i,
        {
            assert(cv.take(i + 1).drop_last() =~= cv.take(i as int));
            match &cmds[i] {
                Command::Output { output } => {
                    target.push_str(output.as_str());
                },
                Command::Breakpoint { .. } => {},
            }
            i += 1;
        }
        assert(cv.take(i as int) =~= cv);
    }

    /// Flush all of the emitted commands from the output into a newly allocated
    /// [String]
    pub fn flush_to_string(&mut self) -> (text: String)
        ensures
            text@ == output_text(old(self).state().commands),
            final(self).state() == (EvalState {
                output: old(self).state().output,
                commands: Seq::empty(),
                dependencies: old(self).state().dependencies,
            }),
            final(self).allows_toplevel_builtins() == old(self).allows_toplevel_builtins(),
    {
        let mut output = String::new();
        self.flush_output(&mut output);
        output
    }
}

} // verus!
