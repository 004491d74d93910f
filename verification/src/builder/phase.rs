//! The phases of a build job.

use vstd::prelude::*;
use crate::builder::builtins::{add_builtins, builtin_views, script_builtins, spec_builtins, with_builtins, ScriptInputs};
use crate::builder::prepare::{prepare_script, prepare_text};
use crate::builder::script::{bundle_outcome, ScriptBundle};
use crate::builder::tuning::{add_tuning, flag_values, spec_missing_arch, CompilerFlags, TuningError};
use crate::stone_recipe::macros::Macros;
use crate::stone_recipe::recipe::KeyValue;
use crate::stone_script::env::ScriptEnv;
use crate::stone_script::expr::{spec_parse, Expr};
use crate::stone_recipe::recipe::{Build, BuildView};
use crate::stone_recipe::upstream::{Upstream, UpstreamView};

verus! {

/// The stage of a profile guided optimisation build.
#[derive(Debug, Clone, Copy, PartialEq, Eq, Structural)]
pub enum PgoStage {
    /// The first instrumented build
    One,
    /// The second instrumented build
    Two,
    /// The final build, using the collected profiles
    Use,
}

/// A phase of a build job.
#[derive(Debug, Clone, Copy, PartialEq, Eq, Structural, PartialOrd, Ord)]
pub enum Phase {
    Prepare,
    Setup,
    Build,
    Install,
    Check,
    Workload,
}

/// The phases run for a build in a given profile guided optimisation stage: the
/// instrumented stages run the workload in place of install and check.
pub open spec fn spec_list(pgo_stage: Option<PgoStage>) -> Seq<Phase> {
    match pgo_stage {
        Some(PgoStage::One) | Some(PgoStage::Two) => seq![
            Phase::Prepare,
            Phase::Setup,
            Phase::Build,
            Phase::Workload,
        ],
        _ => seq![Phase::Prepare, Phase::Setup, Phase::Build, Phase::Install, Phase::Check],
    }
}

/// The phases to run, in order, for a build in the given stage.
pub fn list(pgo_stage: Option<PgoStage>) -> (phases: Vec<Phase>)
    ensures
        phases@ == spec_list(pgo_stage),
{
    let workload = match pgo_stage {
        Some(PgoStage::One) => true,
        Some(PgoStage::Two) => true,
        _ => false,
    };
    if workload {
        let v = vec![Phase::Prepare, Phase::Setup, Phase::Build, Phase::Workload];
        assert(v@ =~= spec_list(pgo_stage));
        v
    } else {
        let v = vec![Phase::Prepare, Phase::Setup, Phase::Build, Phase::Install, Phase::Check];
        assert(v@ =~= spec_list(pgo_stage));
        v
    }
}

/// The one-letter abbreviation of a phase.
pub open spec fn spec_abbrev(p: Phase) -> Seq<char> {
    match p {
        Phase::Prepare => "P"@,
        Phase::Setup => "S"@,
        Phase::Build => "B"@,
        Phase::Install => "I"@,
        Phase::Check => "C"@,
        Phase::Workload => "W"@,
    }
}

/// The name of a phase.
pub open spec fn spec_name(p: Phase) -> Seq<char> {
    match p {
        Phase::Prepare => "Prepare"@,
        Phase::Setup => "Setup"@,
        Phase::Build => "Build"@,
        Phase::Install => "Install"@,
        Phase::Check => "Check"@,
        Phase::Workload => "Workload"@,
    }
}

impl Phase {
    /// The one-letter abbreviation of this phase.
    pub fn abbrev(&self) -> (s: &str)
        ensures
            s@ == spec_abbrev(*self),
    {
        match self {
            Phase::Prepare => "P",
            Phase::Setup => "S",
            Phase::Build => "B",
            Phase::Install => "I",
            Phase::Check => "C",
            Phase::Workload => "W",
        }
    }

    /// The name of this phase, as it is displayed.
    pub fn to_string(&self) -> (s: String)
        ensures
            s@ == spec_name(*self),
    {
        let s = match self {
            Phase::Prepare => "Prepare",
            Phase::Setup => "Setup",
            Phase::Build => "Build",
            Phase::Install => "Install",
            Phase::Check => "Check",
            Phase::Workload => "Workload",
        };
        s.to_owned()
    }
}

/// The toolchain that a build compiles with.
#[derive(Debug, Clone, Copy, PartialEq, Eq, Structural)]
pub enum Toolchain {
    Llvm,
    Gnu,
}

/// The first of two optional texts that is given.
pub open spec fn first_given(a: Option<Seq<char>>, b: Option<Seq<char>>) -> Option<Seq<char>> {
    if a is Some {
        a
    } else {
        b
    }
}

/// The workload script: with LLVM, an instrumented stage ends by merging its profiles.
pub open spec fn workload_text(w: Seq<char>, toolchain: Toolchain, pgo: Option<PgoStage>) -> Seq<char> {
    if toolchain == Toolchain::Llvm {
        match pgo {
            Some(PgoStage::One) => w + "%llvm_merge_s1"@,
            Some(PgoStage::Two) => w + "%llvm_merge_s2"@,
            _ => w,
        }
    } else {
        w
    }
}

/// The script that a phase runs, before it is expanded: the prepare phase unpacks the
/// upstreams; every other phase runs what the build of the target gives for it, or else
/// what the recipe's root build gives. A phase with no script, or an empty one, runs
/// nothing.
pub open spec fn spec_phase_content(
    p: Phase,
    target: BuildView,
    root: BuildView,
    toolchain: Toolchain,
    pgo: Option<PgoStage>,
    ups: Seq<UpstreamView>,
) -> Option<Seq<char>> {
    let c = match p {
        Phase::Prepare => Some(prepare_text(ups)),
        Phase::Setup => first_given(target.setup, root.setup),
        Phase::Build => first_given(target.build, root.build),
        Phase::Check => first_given(target.check, root.check),
        Phase::Install => first_given(target.install, root.install),
        Phase::Workload => match first_given(target.workload, root.workload) {
            Some(w) => Some(workload_text(w, toolchain, pgo)),
            None => None,
        },
    };
    match c {
        Some(t) => if t.len() == 0 {
            None
        } else {
            Some(t)
        },
        None => None,
    }
}

/// A copy of the first of two optional texts that is given.
fn first_of(a: &Option<String>, b: &Option<String>) -> (r: Option<String>)
    ensures
        r.deep_view() == first_given(a.deep_view(), b.deep_view()),
{
    match a {
        Some(s) => Some(s.clone()),
        None => match b {
            Some(s) => Some(s.clone()),
            None => None,
        },
    }
}

/// The script that a phase runs, before it is expanded: the prepare phase unpacks the
/// upstreams; every other phase runs what the build of the target gives for it, or else
/// what the recipe's root build gives, and the workload of an instrumented LLVM stage
/// ends by merging its profiles. `None` where the phase has no script or an empty one.
pub fn phase_content(
    p: Phase,
    target: &Build,
    root: &Build,
    toolchain: Toolchain,
    pgo: Option<PgoStage>,
    ups: &Vec<Upstream>,
) -> (r: Option<String>)
    ensures
        r.deep_view() == spec_phase_content(
            p,
            target.deep_view(),
            root.deep_view(),
            toolchain,
            pgo,
            ups.deep_view(),
        ),
{
    let c = match p {
        Phase::Prepare => Some(prepare_script(ups)),
        Phase::Setup => first_of(&target.setup, &root.setup),
        Phase::Build => first_of(&target.build, &root.build),
        Phase::Check => first_of(&target.check, &root.check),
        Phase::Install => first_of(&target.install, &root.install),
        Phase::Workload => match first_of(&target.workload, &root.workload) {
            Some(w) => {
                let mut w = w;
                if toolchain == Toolchain::Llvm {
                    match pgo {
                        Some(PgoStage::One) => w.push_str("%llvm_merge_s1"),
                        Some(PgoStage::Two) => w.push_str("%llvm_merge_s2"),
                        _ => {},
                    }
                }
                Some(w)
            },
            None => None,
        },
    };
    match c {
        Some(t) => if t.as_str().is_empty() {
            None
        } else {
            Some(t)
        },
        None => None,
    }
}

/// The environment script that every script of a phase starts with: the script base,
/// then the build environment of the target, or else of the recipe's root build, unless
/// it is empty or `(null)`, or the phase is the prepare phase.
pub open spec fn spec_script_prefix(p: Phase, target: BuildView, root: BuildView) -> Seq<char> {
    let env = match first_given(target.environment, root.environment) {
        Some(e) => if e != "(null)"@ && e.len() > 0 && p != Phase::Prepare {
            e
        } else {
            Seq::empty()
        },
        None => Seq::empty(),
    };
    "%scriptBase\n"@ + env + "\n"@
}

/// The environment script that every script of a phase starts with.
pub fn script_prefix(p: Phase, target: &Build, root: &Build) -> (s: String)
    ensures
        s@ == spec_script_prefix(p, target.deep_view(), root.deep_view()),
{
    let env = first_of(&target.environment, &root.environment);
    let mut s = "%scriptBase\n".to_owned();
    match env {
        Some(e) => {
            let null = crate::text::str_eq(e.as_str(), "(null)");
            if !null && !e.as_str().is_empty() && p != Phase::Prepare {
                s.push_str(e.as_str());
            }
        },
        None => {},
    }
    s.push_str("\n");
    s
}

/// Why the script of a phase could not be compiled.
pub enum PhaseError {
    /// The macros of this architecture are not loaded.
    MissingArchMacros(String),
    /// Evaluating the prefix or the script failed.
    Eval(crate::stone_script::error::Error),
}

/// Whether `e` is the environment `env` once the builtins of a build and its tuning flags
/// are set in it, in that order.
pub open spec fn phase_env(env: ScriptEnv, e: ScriptEnv, inputs: ScriptInputs, flags: CompilerFlags, mold: bool) -> bool {
    &&& builtin_views(e.builtins@) == with_builtins(
        with_builtins(builtin_views(env.builtins@), spec_builtins(inputs@)),
        flag_values(flags, mold),
    )
    &&& e.definitions@ == env.definitions@
    &&& e.actions@ == env.actions@
}

/// The script of a phase, compiled: `None` where the phase runs nothing; else the
/// builtins of the build and its tuning flags are set in `env`, and the bundle is
/// compiled there from the phase's environment script and its script. The first
/// architecture whose macros are missing, or the failure of the evaluation, otherwise.
pub fn phase_script(
    p: Phase,
    target: &Build,
    root: &Build,
    toolchain: Toolchain,
    pgo: Option<PgoStage>,
    ups: &Vec<Upstream>,
    env: ScriptEnv,
    target_name: &str,
    inputs: &ScriptInputs,
    archs: &Vec<KeyValue<Macros>>,
    flags: &CompilerFlags,
    mold: bool,
) -> (r: Result<Option<ScriptBundle>, PhaseError>)
    ensures
        match spec_phase_content(p, target.deep_view(), root.deep_view(), toolchain, pgo, ups.deep_view()) {
            None => r matches Ok(None),
            Some(c) => match spec_missing_arch(archs@, target_name@) {
                Some(a) => r matches Err(PhaseError::MissingArchMacros(m)) && m@ == a,
                None => exists|e: ScriptEnv|
                    phase_env(env, e, *inputs, *flags, mold) && match r {
                        Ok(Some(b)) => bundle_outcome(
                            e,
                            spec_parse(spec_script_prefix(p, target.deep_view(), root.deep_view())),
                            spec_parse(c),
                            Ok(b),
                        ),
                        Err(PhaseError::Eval(x)) => bundle_outcome(
                            e,
                            spec_parse(spec_script_prefix(p, target.deep_view(), root.deep_view())),
                            spec_parse(c),
                            Err(x),
                        ),
                        _ => false,
                    },
            },
        },
{
    let content = match phase_content(p, target, root, toolchain, pgo, ups) {
        None => return Ok(None),
        Some(c) => c,
    };
    let mut env = env;
    let ghost start = env;
    let bs = script_builtins(inputs);
    add_builtins(&mut env, &bs);
    let ghost mid = env;
    match add_tuning(&mut env, target_name, archs, flags, mold) {
        Err(TuningError::MissingArchMacros(a)) => return Err(PhaseError::MissingArchMacros(a)),
        Ok(()) => {},
    }
    let prefix_text = script_prefix(p, target, root);
    let prefix = Expr::parse(prefix_text.as_str()).unwrap();
    let expr = Expr::parse(content.as_str()).unwrap();
    let ghost e = env;
    assert(phase_env(start, e, *inputs, *flags, mold));
    match ScriptBundle::build(env, &prefix, &expr) {
        Ok(b) => Ok(Some(b)),
        Err(x) => Err(PhaseError::Eval(x)),
    }
}

} // verus!
