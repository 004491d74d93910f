//! What every evaluation of a script keeps.

use vstd::prelude::*;
use crate::stone_script::context::{
    call_label, eval_from, flushed, output_text, spec_eval, CommandView, EvalErrorView, EvalState, Outcome, MAX_DEPTH,
};
use crate::stone_script::env::ScriptEnv;
use crate::stone_script::expr::FragmentView;

verus! {

/// Whether every fragment of `e` is plain output.
pub open spec fn only_output(e: Seq<FragmentView>) -> bool {
    forall|k: int| 0 <= k < e.len() ==> #[trigger] e[k] is Output
}

/// The text of the output fragments `e[i..]`, in order.
pub open spec fn output_from(e: Seq<FragmentView>, i: int) -> Seq<char>
    decreases e.len() - i,
{
    if i < 0 || i >= e.len() {
        Seq::empty()
    } else {
        match e[i] {
            FragmentView::Output(o) => o + output_from(e, i + 1),
            _ => output_from(e, i + 1),
        }
    }
}

/// The state that an evaluation leaves extends the one it started from: commands are
/// only appended and dependencies only added.
pub open spec fn extends(a: EvalState, b: EvalState) -> bool {
    &&& b.commands.len() >= a.commands.len()
    &&& b.commands.take(a.commands.len() as int) == a.commands
    &&& a.dependencies.subset_of(b.dependencies)
}

/// The state held in an outcome.
pub open spec fn outcome_state(o: Outcome) -> EvalState {
    match o {
        Outcome::Done(s) => s,
        Outcome::Failed(_, _, s) => s,
    }
}

proof fn lemma_output_only_from(
    env: ScriptEnv,
    allow: bool,
    e: Seq<FragmentView>,
    i: int,
    depth: int,
    st: EvalState,
)
    requires
        only_output(e),
        0 <= i <= e.len(),
        1 <= depth <= MAX_DEPTH,
    ensures
        eval_from(env, allow, e, i, depth, st) == Outcome::Done(
            EvalState {
                output: st.output + output_from(e, i),
                commands: st.commands,
                dependencies: st.dependencies,
            },
        ),
    decreases e.len() - i,
{
    if i == e.len() {
        assert(st.output + output_from(e, i) =~= st.output);
    } else {
        assert(e[i] is Output);
        let o = e[i]->Output_0;
        let st1 = EvalState {
            output: st.output + o,
            commands: st.commands,
            dependencies: st.dependencies,
        };
        lemma_output_only_from(env, allow, e, i + 1, depth, st1);
        assert(st1.output + output_from(e, i + 1) =~= st.output + output_from(e, i));
    }
}

/// An expression made only of output text emits that text, all of it, as one output
/// command (none when it is empty), whatever the environment.
pub proof fn law_output_only_expression(
    env: ScriptEnv,
    allow: bool,
    e: Seq<FragmentView>,
    st: EvalState,
)
    requires
        only_output(e),
        st.output.len() == 0,
    ensures
        spec_eval(env, allow, e, st) == Outcome::Done(
            if output_from(e, 0).len() == 0 {
                st
            } else {
                EvalState {
                    output: Seq::empty(),
                    commands: st.commands.push(
                        crate::stone_script::context::CommandView::Output {
                            output: output_from(e, 0),
                        },
                    ),
                    dependencies: st.dependencies,
                }
            },
        ),
{
    lemma_output_only_from(env, allow, e, 0, 1, st);
    assert(st.output + output_from(e, 0) =~= output_from(e, 0));
    if output_from(e, 0).len() == 0 {
        assert(st.output =~= Seq::<char>::empty());
    }
}

proof fn lemma_extends_trans(a: EvalState, b: EvalState, c: EvalState)
    requires
        extends(a, b),
        extends(b, c),
    ensures
        extends(a, c),
{
    assert(c.commands.take(a.commands.len() as int) =~= c.commands.take(
        b.commands.len() as int,
    ).take(a.commands.len() as int));
}

proof fn lemma_extends_refl(a: EvalState)
    ensures
        extends(a, a),
{
    assert(a.commands.take(a.commands.len() as int) =~= a.commands);
}

proof fn lemma_extends_flushed(a: EvalState)
    ensures
        extends(a, crate::stone_script::context::flushed(a)),
{
    lemma_extends_refl(a);
    let b = crate::stone_script::context::flushed(a);
    assert(b.commands.take(a.commands.len() as int) =~= a.commands);
}

proof fn lemma_eval_from_extends(
    env: ScriptEnv,
    allow: bool,
    e: Seq<FragmentView>,
    i: int,
    depth: int,
    st: EvalState,
)
    ensures
        extends(st, outcome_state(eval_from(env, allow, e, i, depth, st))),
    decreases MAX_DEPTH - depth, e.len() - i,
{
    if depth < 1 || depth > MAX_DEPTH || i < 0 || i >= e.len() {
        lemma_extends_refl(st);
    } else {
        let f = e[i];
        match f {
            FragmentView::Output(o) => {
                let st1 = EvalState {
                    output: st.output + o,
                    commands: st.commands,
                    dependencies: st.dependencies,
                };
                lemma_eval_from_extends(env, allow, e, i + 1, depth, st1);
                lemma_extends_refl(st);
                lemma_extends_trans(st, st1, outcome_state(eval_from(env, allow, e, i + 1, depth, st1)));
            },
            FragmentView::Breakpoint { line_num, exit } => {
                let st2 = crate::stone_script::context::flushed(st);
                let st3 = EvalState {
                    output: st2.output,
                    commands: st2.commands.push(
                        crate::stone_script::context::CommandView::Breakpoint { line_num, exit },
                    ),
                    dependencies: st2.dependencies,
                };
                lemma_extends_flushed(st);
                assert(st3.commands.take(st2.commands.len() as int) =~= st2.commands);
                lemma_extends_trans(st, st2, st3);
                lemma_eval_from_extends(env, allow, e, i + 1, depth, st3);
                lemma_extends_trans(st, st3, outcome_state(eval_from(env, allow, e, i + 1, depth, st3)));
            },
            FragmentView::Builtin(n) => {
                lemma_extends_refl(st);
                if !(!allow && depth == 1) && env.builtins@.dom().contains(n) && depth < MAX_DEPTH {
                    let inner = eval_from(env, allow, env.builtins@[n]@, 0, depth + 1, st);
                    lemma_eval_from_extends(env, allow, env.builtins@[n]@, 0, depth + 1, st);
                    if let Outcome::Done(st2) = inner {
                        lemma_eval_from_extends(env, allow, e, i + 1, depth, st2);
                        lemma_extends_trans(st, st2, outcome_state(eval_from(env, allow, e, i + 1, depth, st2)));
                    }
                }
            },
            FragmentView::Definition(n) => {
                lemma_extends_refl(st);
                if env.definitions@.dom().contains(n) && depth < MAX_DEPTH {
                    let body = env.definitions@[n].value@;
                    let inner = eval_from(env, allow, body, 0, depth + 1, st);
                    lemma_eval_from_extends(env, allow, body, 0, depth + 1, st);
                    if let Outcome::Done(st2) = inner {
                        lemma_eval_from_extends(env, allow, e, i + 1, depth, st2);
                        lemma_extends_trans(st, st2, outcome_state(eval_from(env, allow, e, i + 1, depth, st2)));
                    }
                }
            },
            FragmentView::Action(n) => {
                lemma_extends_refl(st);
                if env.actions@.dom().contains(n) && depth < MAX_DEPTH {
                    let action = env.actions@[n];
                    let st1 = EvalState {
                        output: st.output,
                        commands: st.commands,
                        dependencies: st.dependencies + action.dependencies@.map_values(
                            |d: String| d@,
                        ).to_set(),
                    };
                    assert(extends(st, st1));
                    let inner = eval_from(env, allow, action.value@, 0, depth + 1, st1);
                    lemma_eval_from_extends(env, allow, action.value@, 0, depth + 1, st1);
                    lemma_extends_trans(st, st1, outcome_state(inner));
                    if let Outcome::Done(st2) = inner {
                        lemma_eval_from_extends(env, allow, e, i + 1, depth, st2);
                        lemma_extends_trans(st, st2, outcome_state(eval_from(env, allow, e, i + 1, depth, st2)));
                    }
                }
            },
        }
    }
}

/// Evaluation only adds to a context, whether it succeeds or fails: the commands
/// already emitted stay, in order, and no dependency is dropped.
pub proof fn law_eval_only_adds(env: ScriptEnv, allow: bool, e: Seq<FragmentView>, st: EvalState)
    ensures
        extends(st, outcome_state(spec_eval(env, allow, e, st))),
{
    lemma_eval_from_extends(env, allow, e, 0, 1, st);
    if let Outcome::Done(st2) = eval_from(env, allow, e, 0, 1, st) {
        lemma_extends_flushed(st2);
        lemma_extends_trans(st, st2, crate::stone_script::context::flushed(st2));
    }
}

/// A successful evaluation leaves no pending output behind: all of its text is in
/// the emitted commands.
pub proof fn law_eval_flushes_output(env: ScriptEnv, allow: bool, e: Seq<FragmentView>, st: EvalState)
    ensures
        spec_eval(env, allow, e, st) matches Outcome::Done(s) ==> s.output.len() == 0,
{
}

proof fn lemma_bottom_builtin_fails(
    env: ScriptEnv,
    e: Seq<FragmentView>,
    i: int,
    k: int,
    st: EvalState,
)
    requires
        0 <= i <= k < e.len(),
        e[k] is Builtin,
    ensures
        eval_from(env, false, e, i, 1, st) is Failed,
    decreases e.len() - i,
{
    if i < k {
        match e[i] {
            FragmentView::Output(o) => {
                lemma_bottom_builtin_fails(env, e, i + 1, k, EvalState {
                    output: st.output + o,
                    commands: st.commands,
                    dependencies: st.dependencies,
                });
            },
            FragmentView::Breakpoint { line_num, exit } => {
                let st2 = crate::stone_script::context::flushed(st);
                lemma_bottom_builtin_fails(env, e, i + 1, k, EvalState {
                    output: st2.output,
                    commands: st2.commands.push(
                        crate::stone_script::context::CommandView::Breakpoint { line_num, exit },
                    ),
                    dependencies: st2.dependencies,
                });
            },
            FragmentView::Builtin(n) => {},
            FragmentView::Definition(n) => {
                if env.definitions@.dom().contains(n) && 1 < MAX_DEPTH {
                    let inner = eval_from(env, false, env.definitions@[n].value@, 0, 2, st);
                    if let Outcome::Done(st2) = inner {
                        lemma_bottom_builtin_fails(env, e, i + 1, k, st2);
                    }
                }
            },
            FragmentView::Action(n) => {
                if env.actions@.dom().contains(n) && 1 < MAX_DEPTH {
                    let action = env.actions@[n];
                    let st1 = EvalState {
                        output: st.output,
                        commands: st.commands,
                        dependencies: st.dependencies + action.dependencies@.map_values(
                            |d: String| d@,
                        ).to_set(),
                    };
                    let inner = eval_from(env, false, action.value@, 0, 2, st1);
                    if let Outcome::Done(st2) = inner {
                        lemma_bottom_builtin_fails(env, e, i + 1, k, st2);
                    }
                }
            },
        }
    }
}

/// Builtins may not be used on the bottom stack frame: unless the context allows
/// them there, an expression that names a builtin directly never evaluates
/// successfully.
pub proof fn law_toplevel_builtin_refused(
    env: ScriptEnv,
    e: Seq<FragmentView>,
    k: int,
    st: EvalState,
)
    requires
        0 <= k < e.len(),
        e[k] is Builtin,
    ensures
        spec_eval(env, false, e, st) is Failed,
{
    lemma_bottom_builtin_fails(env, e, 0, k, st);
}

proof fn lemma_self_reference_too_deep(
    env: ScriptEnv,
    allow: bool,
    n: Seq<char>,
    depth: int,
    st: EvalState,
)
    requires
        env.definitions@.dom().contains(n),
        env.definitions@[n].value@ == seq![FragmentView::Definition(n)],
        1 <= depth <= MAX_DEPTH,
    ensures
        eval_from(env, allow, seq![FragmentView::Definition(n)], 0, depth, st) matches Outcome::Failed(
            EvalErrorView::TooDeep,
            _,
            _,
        ),
    decreases MAX_DEPTH - depth,
{
    if depth < MAX_DEPTH {
        lemma_self_reference_too_deep(env, allow, n, depth + 1, st);
    }
}

/// The call stack is bounded: a definition whose whole body refers to itself
/// ends in [`EvalErrorView::TooDeep`] when it is evaluated.
pub proof fn law_self_reference_too_deep(env: ScriptEnv, allow: bool, n: Seq<char>, st: EvalState)
    requires
        env.definitions@.dom().contains(n),
        env.definitions@[n].value@ == seq![FragmentView::Definition(n)],
    ensures
        spec_eval(env, allow, seq![FragmentView::Definition(n)], st) matches Outcome::Failed(
            EvalErrorView::TooDeep,
            _,
            _,
        ),
{
    lemma_self_reference_too_deep(env, allow, n, 1, st);
}

} // verus!

verus! {

/// The fragments of `b`, placed after those of `a`, are evaluated as `b`'s own.
proof fn lemma_eval_suffix(
    env: ScriptEnv,
    allow: bool,
    a: Seq<FragmentView>,
    b: Seq<FragmentView>,
    j: int,
    depth: int,
    st: EvalState,
)
    requires
        0 <= j <= b.len(),
    ensures
        eval_from(env, allow, a + b, a.len() + j, depth, st) == eval_from(env, allow, b, j, depth, st),
    decreases b.len() - j,
{
    if j < b.len() && 1 <= depth <= MAX_DEPTH {
        assert((a + b)[a.len() + j] == b[j]);
        let f = b[j];
        match f {
            FragmentView::Output(o) => {
                lemma_eval_suffix(
                    env,
                    allow,
                    a,
                    b,
                    j + 1,
                    depth,
                    EvalState { output: st.output + o, commands: st.commands, dependencies: st.dependencies },
                );
            },
            FragmentView::Breakpoint { line_num, exit } => {
                let st2 = crate::stone_script::context::flushed(st);
                lemma_eval_suffix(
                    env,
                    allow,
                    a,
                    b,
                    j + 1,
                    depth,
                    EvalState {
                        output: st2.output,
                        commands: st2.commands.push(
                            crate::stone_script::context::CommandView::Breakpoint { line_num, exit },
                        ),
                        dependencies: st2.dependencies,
                    },
                );
            },
            FragmentView::Builtin(n) => {
                if env.builtins@.dom().contains(n) && depth < MAX_DEPTH {
                    if let Outcome::Done(st2) = eval_from(env, allow, env.builtins@[n]@, 0, depth + 1, st) {
                        lemma_eval_suffix(env, allow, a, b, j + 1, depth, st2);
                    }
                }
            },
            FragmentView::Definition(n) => {
                if env.definitions@.dom().contains(n) && depth < MAX_DEPTH {
                    if let Outcome::Done(st2) = eval_from(
                        env,
                        allow,
                        env.definitions@[n].value@,
                        0,
                        depth + 1,
                        st,
                    ) {
                        lemma_eval_suffix(env, allow, a, b, j + 1, depth, st2);
                    }
                }
            },
            FragmentView::Action(n) => {
                if env.actions@.dom().contains(n) && depth < MAX_DEPTH {
                    let action = env.actions@[n];
                    let st1 = EvalState {
                        output: st.output,
                        commands: st.commands,
                        dependencies: st.dependencies + action.dependencies@.map_values(|d: String| d@).to_set(),
                    };
                    if let Outcome::Done(st2) = eval_from(env, allow, action.value@, 0, depth + 1, st1) {
                        lemma_eval_suffix(env, allow, a, b, j + 1, depth, st2);
                    }
                }
            },
        }
    }
}

/// The fragments of `a`, followed by those of `b`, are evaluated as `a`'s own, and then
/// from the end of `a`.
proof fn lemma_eval_prefix(
    env: ScriptEnv,
    allow: bool,
    a: Seq<FragmentView>,
    b: Seq<FragmentView>,
    i: int,
    depth: int,
    st: EvalState,
)
    requires
        0 <= i <= a.len(),
        1 <= depth <= MAX_DEPTH,
    ensures
        eval_from(env, allow, a + b, i, depth, st) == match eval_from(env, allow, a, i, depth, st) {
            Outcome::Done(s) => eval_from(env, allow, a + b, a.len() as int, depth, s),
            failed => failed,
        },
    decreases a.len() - i,
{
    if i < a.len() {
        assert((a + b)[i] == a[i]);
        let f = a[i];
        match f {
            FragmentView::Output(o) => {
                lemma_eval_prefix(
                    env,
                    allow,
                    a,
                    b,
                    i + 1,
                    depth,
                    EvalState { output: st.output + o, commands: st.commands, dependencies: st.dependencies },
                );
            },
            FragmentView::Breakpoint { line_num, exit } => {
                let st2 = crate::stone_script::context::flushed(st);
                lemma_eval_prefix(
                    env,
                    allow,
                    a,
                    b,
                    i + 1,
                    depth,
                    EvalState {
                        output: st2.output,
                        commands: st2.commands.push(
                            crate::stone_script::context::CommandView::Breakpoint { line_num, exit },
                        ),
                        dependencies: st2.dependencies,
                    },
                );
            },
            FragmentView::Builtin(n) => {
                if env.builtins@.dom().contains(n) && depth < MAX_DEPTH {
                    if let Outcome::Done(st2) = eval_from(env, allow, env.builtins@[n]@, 0, depth + 1, st) {
                        lemma_eval_prefix(env, allow, a, b, i + 1, depth, st2);
                    }
                }
            },
            FragmentView::Definition(n) => {
                if env.definitions@.dom().contains(n) && depth < MAX_DEPTH {
                    if let Outcome::Done(st2) = eval_from(
                        env,
                        allow,
                        env.definitions@[n].value@,
                        0,
                        depth + 1,
                        st,
                    ) {
                        lemma_eval_prefix(env, allow, a, b, i + 1, depth, st2);
                    }
                }
            },
            FragmentView::Action(n) => {
                if env.actions@.dom().contains(n) && depth < MAX_DEPTH {
                    let action = env.actions@[n];
                    let st1 = EvalState {
                        output: st.output,
                        commands: st.commands,
                        dependencies: st.dependencies + action.dependencies@.map_values(|d: String| d@).to_set(),
                    };
                    if let Outcome::Done(st2) = eval_from(env, allow, action.value@, 0, depth + 1, st1) {
                        lemma_eval_prefix(env, allow, a, b, i + 1, depth, st2);
                    }
                }
            },
        }
    }
}

/// Evaluating the concatenation of two expressions is evaluating the first and then,
/// where it succeeds, the second from the state that the first left: the same output,
/// commands and dependencies, or the same failure.
pub proof fn law_eval_concat(
    env: ScriptEnv,
    allow: bool,
    a: Seq<FragmentView>,
    b: Seq<FragmentView>,
    depth: int,
    st: EvalState,
)
    requires
        1 <= depth <= MAX_DEPTH,
    ensures
        eval_from(env, allow, a + b, 0, depth, st) == match eval_from(env, allow, a, 0, depth, st) {
            Outcome::Done(s) => eval_from(env, allow, b, 0, depth, s),
            failed => failed,
        },
{
    lemma_eval_prefix(env, allow, a, b, 0, depth, st);
    if let Outcome::Done(s) = eval_from(env, allow, a, 0, depth, st) {
        lemma_eval_suffix(env, allow, a, b, 0, depth, s);
    }
}

/// The expression that a call fragment names in an environment, where it names one.
pub open spec fn callee(env: ScriptEnv, f: FragmentView) -> Option<Seq<FragmentView>> {
    match f {
        FragmentView::Builtin(n) => if env.builtins@.dom().contains(n) {
            Some(env.builtins@[n]@)
        } else {
            None
        },
        FragmentView::Definition(n) => if env.definitions@.dom().contains(n) {
            Some(env.definitions@[n].value@)
        } else {
            None
        },
        FragmentView::Action(n) => if env.actions@.dom().contains(n) {
            Some(env.actions@[n].value@)
        } else {
            None
        },
        _ => None,
    }
}

/// Whether the calls `cyc` go round in `env`: each names an expression that is just the
/// call to the next, and the last calls the first.
pub open spec fn call_cycle(env: ScriptEnv, cyc: Seq<FragmentView>) -> bool {
    cyc.len() > 0 && forall|m: int|
        0 <= m < cyc.len() ==> callee(env, #[trigger] cyc[m]) == Some(seq![cyc[(m + 1) % (cyc.len() as int)]])
}

proof fn lemma_cycle_too_deep(env: ScriptEnv, allow: bool, cyc: Seq<FragmentView>, m: int, depth: int, st: EvalState)
    requires
        call_cycle(env, cyc),
        0 <= m < cyc.len(),
        1 <= depth <= MAX_DEPTH,
        depth > 1 || allow || !(cyc[m] is Builtin),
    ensures
        eval_from(env, allow, seq![cyc[m]], 0, depth, st) matches Outcome::Failed(EvalErrorView::TooDeep, _, _),
    decreases MAX_DEPTH - depth,
{
    let f = cyc[m];
    let next = (m + 1) % (cyc.len() as int);
    assert(callee(env, f) == Some(seq![cyc[next]]));
    assert(seq![cyc[m]][0] == f);
    if depth < MAX_DEPTH {
        match f {
            FragmentView::Action(n) => {
                let action = env.actions@[n];
                let st1 = EvalState {
                    output: st.output,
                    commands: st.commands,
                    dependencies: st.dependencies + action.dependencies@.map_values(|d: String| d@).to_set(),
                };
                lemma_cycle_too_deep(env, allow, cyc, next, depth + 1, st1);
            },
            _ => {
                lemma_cycle_too_deep(env, allow, cyc, next, depth + 1, st);
            },
        }
    }
}

/// The call stack is bounded: calls that go round, through builtins, definitions or
/// actions, however many of them, end in [`EvalErrorView::TooDeep`] when the first is
/// evaluated (a builtin at the bottom of the stack only where the context allows it).
pub proof fn law_call_cycle_too_deep(env: ScriptEnv, allow: bool, cyc: Seq<FragmentView>, st: EvalState)
    requires
        call_cycle(env, cyc),
        allow || !(cyc[0] is Builtin),
    ensures
        spec_eval(env, allow, seq![cyc[0]], st) matches Outcome::Failed(EvalErrorView::TooDeep, _, _),
{
    lemma_cycle_too_deep(env, allow, cyc, 0, 1, st);
}

/// All the text that a state has output: that of its output commands, then what is
/// still pending.
pub open spec fn total_text(st: EvalState) -> Seq<char> {
    output_text(st.commands) + st.output
}

/// Whether two states have output the same text and gathered the same dependencies.
pub open spec fn same_output(x: EvalState, y: EvalState) -> bool {
    total_text(x) == total_text(y) && x.dependencies == y.dependencies
}

/// Whether two outcomes agree on what was output, and on how they failed.
pub open spec fn same_outcome(a: Outcome, b: Outcome) -> bool {
    match (a, b) {
        (Outcome::Done(x), Outcome::Done(y)) => same_output(x, y),
        (Outcome::Failed(e1, t1, x), Outcome::Failed(e2, t2, y)) => e1 == e2 && t1 == t2 && same_output(x, y),
        _ => false,
    }
}

proof fn lemma_flushed_same(x: EvalState)
    ensures
        same_output(x, flushed(x)),
{
    if x.output.len() > 0 {
        let c = x.commands.push(CommandView::Output { output: x.output });
        assert(c.drop_last() =~= x.commands);
        assert(total_text(flushed(x)) =~= total_text(x));
    }
}

/// Evaluating from two states that have output the same text gives outcomes that agree:
/// where output stands pending or in commands does not matter.
proof fn lemma_eval_same_output(
    env: ScriptEnv,
    allow: bool,
    e: Seq<FragmentView>,
    i: int,
    depth: int,
    x: EvalState,
    y: EvalState,
)
    requires
        same_output(x, y),
    ensures
        same_outcome(eval_from(env, allow, e, i, depth, x), eval_from(env, allow, e, i, depth, y)),
    decreases MAX_DEPTH - depth, e.len() - i,
{
    if depth < 1 || depth > MAX_DEPTH || i < 0 || i >= e.len() {
    } else {
        match e[i] {
            FragmentView::Output(o) => {
                let x1 = EvalState { output: x.output + o, commands: x.commands, dependencies: x.dependencies };
                let y1 = EvalState { output: y.output + o, commands: y.commands, dependencies: y.dependencies };
                assert(total_text(x1) =~= total_text(x) + o);
                assert(total_text(y1) =~= total_text(y) + o);
                lemma_eval_same_output(env, allow, e, i + 1, depth, x1, y1);
            },
            FragmentView::Breakpoint { line_num, exit } => {
                let x2 = flushed(x);
                let y2 = flushed(y);
                lemma_flushed_same(x);
                lemma_flushed_same(y);
                let bp = CommandView::Breakpoint { line_num, exit };
                let x1 = EvalState { output: x2.output, commands: x2.commands.push(bp), dependencies: x2.dependencies };
                let y1 = EvalState { output: y2.output, commands: y2.commands.push(bp), dependencies: y2.dependencies };
                assert(x2.commands.push(bp).drop_last() =~= x2.commands);
                assert(y2.commands.push(bp).drop_last() =~= y2.commands);
                assert(total_text(x1) =~= total_text(x2));
                assert(total_text(y1) =~= total_text(y2));
                lemma_eval_same_output(env, allow, e, i + 1, depth, x1, y1);
            },
            FragmentView::Builtin(n) => {
                if env.builtins@.dom().contains(n) && depth < MAX_DEPTH && (allow || depth != 1) {
                    let body = env.builtins@[n]@;
                    lemma_eval_same_output(env, allow, body, 0, depth + 1, x, y);
                    match (eval_from(env, allow, body, 0, depth + 1, x), eval_from(env, allow, body, 0, depth + 1, y)) {
                        (Outcome::Done(x2), Outcome::Done(y2)) => {
                            lemma_eval_same_output(env, allow, e, i + 1, depth, x2, y2);
                        },
                        _ => {},
                    }
                }
            },
            FragmentView::Definition(n) => {
                if env.definitions@.dom().contains(n) && depth < MAX_DEPTH {
                    let body = env.definitions@[n].value@;
                    lemma_eval_same_output(env, allow, body, 0, depth + 1, x, y);
                    match (eval_from(env, allow, body, 0, depth + 1, x), eval_from(env, allow, body, 0, depth + 1, y)) {
                        (Outcome::Done(x2), Outcome::Done(y2)) => {
                            lemma_eval_same_output(env, allow, e, i + 1, depth, x2, y2);
                        },
                        _ => {},
                    }
                }
            },
            FragmentView::Action(n) => {
                if env.actions@.dom().contains(n) && depth < MAX_DEPTH {
                    let action = env.actions@[n];
                    let deps = action.dependencies@.map_values(|d: String| d@).to_set();
                    let x1 = EvalState { output: x.output, commands: x.commands, dependencies: x.dependencies + deps };
                    let y1 = EvalState { output: y.output, commands: y.commands, dependencies: y.dependencies + deps };
                    lemma_eval_same_output(env, allow, action.value@, 0, depth + 1, x1, y1);
                    match (
                        eval_from(env, allow, action.value@, 0, depth + 1, x1),
                        eval_from(env, allow, action.value@, 0, depth + 1, y1),
                    ) {
                        (Outcome::Done(x2), Outcome::Done(y2)) => {
                            lemma_eval_same_output(env, allow, e, i + 1, depth, x2, y2);
                        },
                        _ => {},
                    }
                }
            },
        }
    }
}

/// Evaluating the concatenation of two expressions outputs what evaluating the first and
/// then the second in the same context outputs, with the same dependencies; where either
/// fails, the concatenation fails the same way, with the same stack trace.
pub proof fn law_eval_concat_output(env: ScriptEnv, allow: bool, a: Seq<FragmentView>, b: Seq<FragmentView>, st: EvalState)
    ensures
        match spec_eval(env, allow, a, st) {
            Outcome::Done(s1) => same_outcome(spec_eval(env, allow, a + b, st), spec_eval(env, allow, b, s1)),
            Outcome::Failed(e, t, _) => spec_eval(env, allow, a + b, st) matches Outcome::Failed(e2, t2, _) && e2
                == e && t2 == t,
        },
{
    law_eval_concat(env, allow, a, b, 1, st);
    match eval_from(env, allow, a, 0, 1, st) {
        Outcome::Done(s1) => {
            lemma_flushed_same(s1);
            lemma_eval_same_output(env, allow, b, 0, 1, s1, flushed(s1));
            match (eval_from(env, allow, b, 0, 1, s1), eval_from(env, allow, b, 0, 1, flushed(s1))) {
                (Outcome::Done(x), Outcome::Done(y)) => {
                    lemma_flushed_same(x);
                    lemma_flushed_same(y);
                },
                _ => {},
            }
        },
        _ => {},
    }
}

/// [`eval_from`] with the call stack capped at `limit` frames in place of
/// [`MAX_DEPTH`]: `fragments[i..]` of a frame at stack depth `depth`, evaluated from
/// state `st`.
pub open spec fn eval_limited(
    env: ScriptEnv,
    allow_toplevel: bool,
    fragments: Seq<FragmentView>,
    i: int,
    depth: int,
    limit: int,
    st: EvalState,
) -> Outcome
    decreases limit - depth, fragments.len() - i,
{
    if depth < 1 || depth > limit || i < 0 || i >= fragments.len() {
        Outcome::Done(st)
    } else {
        let f = fragments[i];
        match f {
            FragmentView::Output(o) => eval_limited(
                env,
                allow_toplevel,
                fragments,
                i + 1,
                depth,
                limit,
                EvalState { output: st.output + o, commands: st.commands, dependencies: st.dependencies },
            ),
            FragmentView::Breakpoint { line_num, exit } => {
                let st2 = flushed(st);
                eval_limited(
                    env,
                    allow_toplevel,
                    fragments,
                    i + 1,
                    depth,
                    limit,
                    EvalState {
                        output: st2.output,
                        commands: st2.commands.push(CommandView::Breakpoint { line_num, exit }),
                        dependencies: st2.dependencies,
                    },
                )
            },
            FragmentView::Builtin(n) => {
                if !allow_toplevel && depth == 1 {
                    Outcome::Failed(EvalErrorView::BuiltinsNotAllowed, seq![call_label(f)], st)
                } else if !env.builtins@.dom().contains(n) {
                    Outcome::Failed(EvalErrorView::UndefinedBuiltin(n), seq![call_label(f)], st)
                } else if depth >= limit {
                    Outcome::Failed(EvalErrorView::TooDeep, seq![call_label(f)], st)
                } else {
                    match eval_limited(env, allow_toplevel, env.builtins@[n]@, 0, depth + 1, limit, st) {
                        Outcome::Done(st2) => eval_limited(
                            env,
                            allow_toplevel,
                            fragments,
                            i + 1,
                            depth,
                            limit,
                            st2,
                        ),
                        Outcome::Failed(e, t, s) => Outcome::Failed(e, t.push(call_label(f)), s),
                    }
                }
            },
            FragmentView::Definition(n) => {
                if !env.definitions@.dom().contains(n) {
                    Outcome::Failed(EvalErrorView::UndefinedDefinition(n), seq![call_label(f)], st)
                } else if depth >= limit {
                    Outcome::Failed(EvalErrorView::TooDeep, seq![call_label(f)], st)
                } else {
                    match eval_limited(
                        env,
                        allow_toplevel,
                        env.definitions@[n].value@,
                        0,
                        depth + 1,
                        limit,
                        st,
                    ) {
                        Outcome::Done(st2) => eval_limited(
                            env,
                            allow_toplevel,
                            fragments,
                            i + 1,
                            depth,
                            limit,
                            st2,
                        ),
                        Outcome::Failed(e, t, s) => Outcome::Failed(e, t.push(call_label(f)), s),
                    }
                }
            },
            FragmentView::Action(n) => {
                if !env.actions@.dom().contains(n) {
                    Outcome::Failed(EvalErrorView::UndefinedAction(n), seq![call_label(f)], st)
                } else if depth >= limit {
                    Outcome::Failed(EvalErrorView::TooDeep, seq![call_label(f)], st)
                } else {
                    let action = env.actions@[n];
                    let st1 = EvalState {
                        output: st.output,
                        commands: st.commands,
                        dependencies: st.dependencies + action.dependencies@.map_values(
                            |d: String| d@,
                        ).to_set(),
                    };
                    match eval_limited(env, allow_toplevel, action.value@, 0, depth + 1, limit, st1) {
                        Outcome::Done(st2) => eval_limited(
                            env,
                            allow_toplevel,
                            fragments,
                            i + 1,
                            depth,
                            limit,
                            st2,
                        ),
                        Outcome::Failed(e, t, s) => Outcome::Failed(e, t.push(call_label(f)), s),
                    }
                }
            },
        }
    }
}

/// The evaluation of a script is the evaluation with the stack capped at [`MAX_DEPTH`].
proof fn lemma_eval_limited(
    env: ScriptEnv,
    allow: bool,
    e: Seq<FragmentView>,
    i: int,
    depth: int,
    st: EvalState,
)
    ensures
        eval_from(env, allow, e, i, depth, st) == eval_limited(env, allow, e, i, depth, MAX_DEPTH as int, st),
    decreases MAX_DEPTH - depth, e.len() - i,
{
    if depth < 1 || depth > MAX_DEPTH || i < 0 || i >= e.len() {
    } else {
        match e[i] {
            FragmentView::Output(o) => {
                lemma_eval_limited(
                    env,
                    allow,
                    e,
                    i + 1,
                    depth,
                    EvalState { output: st.output + o, commands: st.commands, dependencies: st.dependencies },
                );
            },
            FragmentView::Breakpoint { line_num, exit } => {
                let st2 = flushed(st);
                lemma_eval_limited(
                    env,
                    allow,
                    e,
                    i + 1,
                    depth,
                    EvalState {
                        output: st2.output,
                        commands: st2.commands.push(CommandView::Breakpoint { line_num, exit }),
                        dependencies: st2.dependencies,
                    },
                );
            },
            FragmentView::Builtin(n) => {
                if env.builtins@.dom().contains(n) && depth < MAX_DEPTH {
                    let body = env.builtins@[n]@;
                    lemma_eval_limited(env, allow, body, 0, depth + 1, st);
                    if let Outcome::Done(st2) = eval_from(env, allow, body, 0, depth + 1, st) {
                        lemma_eval_limited(env, allow, e, i + 1, depth, st2);
                    }
                }
            },
            FragmentView::Definition(n) => {
                if env.definitions@.dom().contains(n) && depth < MAX_DEPTH {
                    let body = env.definitions@[n].value@;
                    lemma_eval_limited(env, allow, body, 0, depth + 1, st);
                    if let Outcome::Done(st2) = eval_from(env, allow, body, 0, depth + 1, st) {
                        lemma_eval_limited(env, allow, e, i + 1, depth, st2);
                    }
                }
            },
            FragmentView::Action(n) => {
                if env.actions@.dom().contains(n) && depth < MAX_DEPTH {
                    let action = env.actions@[n];
                    let st1 = EvalState {
                        output: st.output,
                        commands: st.commands,
                        dependencies: st.dependencies + action.dependencies@.map_values(|d: String| d@).to_set(),
                    };
                    lemma_eval_limited(env, allow, action.value@, 0, depth + 1, st1);
                    if let Outcome::Done(st2) = eval_from(env, allow, action.value@, 0, depth + 1, st1) {
                        lemma_eval_limited(env, allow, e, i + 1, depth, st2);
                    }
                }
            },
        }
    }
}

/// Whether the expression `e` expands without end from state `st`: however many frames
/// the call stack were given, evaluating it would run out of them.
pub open spec fn expands_without_end(env: ScriptEnv, allow: bool, e: Seq<FragmentView>, st: EvalState) -> bool {
    forall|limit: int|
        limit >= 1 ==> #[trigger] eval_limited(env, allow, e, 0, 1, limit, st) matches Outcome::Failed(
            EvalErrorView::TooDeep,
            _,
            _,
        )
}

/// The call stack is bounded: every expression that expands without end ends in
/// [`EvalErrorView::TooDeep`] when it is evaluated, instead of running forever.
pub proof fn law_endless_expansion_too_deep(env: ScriptEnv, allow: bool, e: Seq<FragmentView>, st: EvalState)
    requires
        expands_without_end(env, allow, e, st),
    ensures
        spec_eval(env, allow, e, st) matches Outcome::Failed(EvalErrorView::TooDeep, _, _),
{
    lemma_eval_limited(env, allow, e, 0, 1, st);
    assert(eval_limited(env, allow, e, 0, 1, MAX_DEPTH as int, st) matches Outcome::Failed(
        EvalErrorView::TooDeep,
        _,
        _,
    ));
}

proof fn lemma_cycle_limited(
    env: ScriptEnv,
    allow: bool,
    cyc: Seq<FragmentView>,
    m: int,
    depth: int,
    limit: int,
    st: EvalState,
)
    requires
        call_cycle(env, cyc),
        0 <= m < cyc.len(),
        1 <= depth <= limit,
        depth > 1 || allow || !(cyc[m] is Builtin),
    ensures
        eval_limited(env, allow, seq![cyc[m]], 0, depth, limit, st) matches Outcome::Failed(EvalErrorView::TooDeep, _, _),
    decreases limit - depth,
{
    let f = cyc[m];
    let next = (m + 1) % (cyc.len() as int);
    assert(callee(env, f) == Some(seq![cyc[next]]));
    assert(seq![cyc[m]][0] == f);
    if depth < limit {
        match f {
            FragmentView::Action(n) => {
                let action = env.actions@[n];
                let st1 = EvalState {
                    output: st.output,
                    commands: st.commands,
                    dependencies: st.dependencies + action.dependencies@.map_values(|d: String| d@).to_set(),
                };
                lemma_cycle_limited(env, allow, cyc, next, depth + 1, limit, st1);
            },
            _ => {
                lemma_cycle_limited(env, allow, cyc, next, depth + 1, limit, st);
            },
        }
    }
}

/// Calls that go round expand without end: no stack, however deep, is enough for them.
pub proof fn law_call_cycle_expands_without_end(env: ScriptEnv, allow: bool, cyc: Seq<FragmentView>, st: EvalState)
    requires
        call_cycle(env, cyc),
        allow || !(cyc[0] is Builtin),
    ensures
        expands_without_end(env, allow, seq![cyc[0]], st),
{
    assert forall|limit: int| limit >= 1 implies #[trigger] eval_limited(env, allow, seq![cyc[0]], 0, 1, limit, st) matches Outcome::Failed(
        EvalErrorView::TooDeep,
        _,
        _,
    ) by {
        lemma_cycle_limited(env, allow, cyc, 0, 1, limit, st);
    }
}

} // verus!
