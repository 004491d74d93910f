//! The builtins that every script of a build can use: what it builds, where, and with
//! which compilers.

use vstd::prelude::*;
use crate::builder::phase::{PgoStage, Toolchain};
use crate::paths::{decimal_string, spec_decimal};
use crate::stone_script::env::ScriptEnv;
use crate::stone_script::expr::{spec_parse, Expr, FragmentView};

verus! {

/// The value of a builtin: text that it outputs as it is, or a script that is expanded.
pub enum BuiltinValue {
    Text(String),
    Script(String),
}

/// The mathematical value of a [`BuiltinValue`].
pub enum BuiltinValueView {
    Text(Seq<char>),
    Script(Seq<char>),
}

impl DeepView for BuiltinValue {
    type V = BuiltinValueView;

    open spec fn deep_view(&self) -> BuiltinValueView {
        match self {
            BuiltinValue::Text(t) => BuiltinValueView::Text(t@),
            BuiltinValue::Script(t) => BuiltinValueView::Script(t@),
        }
    }
}

/// What the builtins of a build are made from.
pub struct ScriptInputs {
    pub name: String,
    pub version: String,
    pub release: u64,
    /// The number of jobs a build runs at once.
    pub jobs: u64,
    pub pkg_dir: String,
    pub source_dir: String,
    pub install_root: String,
    pub build_dir: String,
    pub work_dir: String,
    /// When the build's sources date from, in seconds since the epoch.
    pub build_time: i64,
    pub ccache: bool,
    pub toolchain: Toolchain,
    pub mold: bool,
    pub pgo: Option<PgoStage>,
}

/// The mathematical value of [`ScriptInputs`].
pub struct ScriptInputsView {
    pub name: Seq<char>,
    pub version: Seq<char>,
    pub release: u64,
    pub jobs: u64,
    pub pkg_dir: Seq<char>,
    pub source_dir: Seq<char>,
    pub install_root: Seq<char>,
    pub build_dir: Seq<char>,
    pub work_dir: Seq<char>,
    pub build_time: i64,
    pub ccache: bool,
    pub toolchain: Toolchain,
    pub mold: bool,
    pub pgo: Option<PgoStage>,
}

impl View for ScriptInputs {
    type V = ScriptInputsView;

    open spec fn view(&self) -> ScriptInputsView {
        ScriptInputsView {
            name: self.name@,
            version: self.version@,
            release: self.release,
            jobs: self.jobs,
            pkg_dir: self.pkg_dir@,
            source_dir: self.source_dir@,
            install_root: self.install_root@,
            build_dir: self.build_dir@,
            work_dir: self.work_dir@,
            build_time: self.build_time,
            ccache: self.ccache,
            toolchain: self.toolchain,
            mold: self.mold,
            pgo: self.pgo,
        }
    }
}

/// A builtin that outputs `value`.
pub open spec fn text(name: Seq<char>, value: Seq<char>) -> (Seq<char>, BuiltinValueView) {
    (name, BuiltinValueView::Text(value))
}

/// The decimal text of a signed number.
pub open spec fn spec_signed_decimal(n: int) -> Seq<char> {
    if n < 0 {
        seq!['-'] + spec_decimal((-n) as nat)
    } else {
        spec_decimal(n as nat)
    }
}

/// The builtins that say what is built and where.
pub open spec fn place_builtins(i: ScriptInputsView) -> Seq<(Seq<char>, BuiltinValueView)> {
    seq![
        text("name"@, i.name),
        text("version"@, i.version),
        text("release"@, spec_decimal(i.release as nat)),
        text("jobs"@, spec_decimal(i.jobs as nat)),
        text("pkgdir"@, i.pkg_dir),
        text("sourcedir"@, i.source_dir),
        text("installroot"@, i.install_root),
        text("buildroot"@, i.build_dir),
        text("workdir"@, i.work_dir),
        text("compiler_cache"@, "/mason/ccache"@),
        text("scompiler_cache"@, "/mason/sccache"@),
        text("sourcedateepoch"@, spec_signed_decimal(i.build_time as int)),
    ]
}

/// The builtins of the compiler caches: their directories where caching is on, empty
/// otherwise.
pub open spec fn cache_builtins(ccache: bool, toolchain: Toolchain) -> Seq<(Seq<char>, BuiltinValueView)> {
    if ccache {
        seq![
            text("compiler_go_cache"@, "/mason/gocache"@),
            text("compiler_go_mod_cache"@, "/mason/gomodcache"@),
            text("compiler_cargo_cache"@, "/mason/cargocache"@),
            text("compiler_zig_cache"@, "/mason/zigcache"@),
            text("rustc_wrapper"@, "/usr/bin/sccache"@),
            text("compiler_lto_cache"@, "/mason/ltocache"@),
            ("ltoincremental"@, BuiltinValueView::Script(
                if toolchain == Toolchain::Llvm {
                    "-Wl,--thinlto-cache-dir=%(ltocachedir)"@
                } else {
                    "-flto-incremental=%(ltocachedir)"@
                },
            )),
            ("rustltoincremental"@, BuiltinValueView::Script(
                "-C link-args=-Wl,--thinlto-cache-dir=%(ltocachedir)"@,
            )),
        ]
    } else {
        seq![
            text("compiler_go_cache"@, ""@),
            text("compiler_go_mod_cache"@, ""@),
            text("compiler_cargo_cache"@, ""@),
            text("compiler_zig_cache"@, ""@),
            text("rustc_wrapper"@, ""@),
            text("compiler_lto_cache"@, ""@),
            text("ltoincremental"@, ""@),
            text("rustltoincremental"@, ""@),
        ]
    }
}

/// The compilers and tools of a toolchain.
pub open spec fn compiler_builtins(toolchain: Toolchain) -> Seq<(Seq<char>, BuiltinValueView)> {
    if toolchain == Toolchain::Llvm {
        seq![
            text("compiler_c"@, "clang"@),
            text("compiler_cxx"@, "clang++"@),
            text("compiler_objc"@, "clang"@),
            text("compiler_objcxx"@, "clang++"@),
            text("compiler_cpp"@, "clang-cpp"@),
            text("compiler_objcpp"@, "clang -E -"@),
            text("compiler_objcxxcpp"@, "clang++ -E"@),
            text("compiler_d"@, "ldc2"@),
            text("compiler_ar"@, "llvm-ar"@),
            text("compiler_objcopy"@, "llvm-objcopy"@),
            text("compiler_nm"@, "llvm-nm"@),
            text("compiler_ranlib"@, "llvm-ranlib"@),
            text("compiler_strip"@, "llvm-strip"@),
        ]
    } else {
        seq![
            text("compiler_c"@, "gcc"@),
            text("compiler_cxx"@, "g++"@),
            text("compiler_objc"@, "gcc"@),
            text("compiler_objcxx"@, "g++"@),
            text("compiler_cpp"@, "gcc -E"@),
            text("compiler_objcpp"@, "gcc -E"@),
            text("compiler_objcxxcpp"@, "g++ -E"@),
            text("compiler_d"@, "ldc2"@),
            text("compiler_ar"@, "gcc-ar"@),
            text("compiler_objcopy"@, "objcopy"@),
            text("compiler_nm"@, "gcc-nm"@),
            text("compiler_ranlib"@, "gcc-ranlib"@),
            text("compiler_strip"@, "strip"@),
        ]
    }
}

/// The search path of the compilers, the linker, and the profile guided optimisation
/// stage and its directory.
pub open spec fn tail_builtins(i: ScriptInputsView) -> Seq<(Seq<char>, BuiltinValueView)> {
    seq![
        text(
            "compiler_path"@,
            if i.ccache {
                "/usr/lib/ccache/bin:/usr/bin:/bin"@
            } else {
                "/usr/bin:/bin"@
            },
        ),
        text(
            "compiler_ld"@,
            if i.mold {
                "ld.mold"@
            } else if i.toolchain == Toolchain::Llvm {
                "ld.lld"@
            } else {
                "ld.bfd"@
            },
        ),
        text(
            "pgo_stage"@,
            match i.pgo {
                Some(PgoStage::One) => "ONE"@,
                Some(PgoStage::Two) => "TWO"@,
                Some(PgoStage::Use) => "USE"@,
                None => "NONE"@,
            },
        ),
        text("pgo_dir"@, i.build_dir + "-pgo"@),
    ]
}

/// The builtins of a build's scripts, in the order they are set.
pub open spec fn spec_builtins(i: ScriptInputsView) -> Seq<(Seq<char>, BuiltinValueView)> {
    place_builtins(i) + cache_builtins(i.ccache, i.toolchain) + compiler_builtins(i.toolchain) + tail_builtins(i)
}

/// Appends a builtin that outputs `value`.
fn push_text(out: &mut Vec<(String, BuiltinValue)>, name: &str, value: &str)
    ensures
        final(out).deep_view() == old(out).deep_view().push(text(name@, value@)),
{
    let ghost before = out.deep_view();
    out.push((name.to_owned(), BuiltinValue::Text(value.to_owned())));
    assert(out.deep_view() =~= before.push(text(name@, value@)));
}

/// The decimal text of a signed number.
fn signed_decimal(n: i64) -> (s: String)
    ensures
        s@ == spec_signed_decimal(n as int),
{
    if n < 0 {
        let m: u64 = (0i128 - n as i128) as u64;
        let digits = decimal_string(m);
        let mut s = String::new();
        s.push('-');
        s.push_str(digits.as_str());
        assert(s@ =~= seq!['-'] + spec_decimal((-n) as nat));
        s
    } else {
        decimal_string(n as u64)
    }
}

/// Appends the builtins that say what is built and where.
fn push_place(out: &mut Vec<(String, BuiltinValue)>, i: &ScriptInputs)
    ensures
        final(out).deep_view() == old(out).deep_view() + place_builtins(i@),
{
    let ghost before = out.deep_view();
    let release = decimal_string(i.release);
    let jobs = decimal_string(i.jobs);
    let epoch = signed_decimal(i.build_time);
    push_text(out, "name", i.name.as_str());
    push_text(out, "version", i.version.as_str());
    push_text(out, "release", release.as_str());
    push_text(out, "jobs", jobs.as_str());
    push_text(out, "pkgdir", i.pkg_dir.as_str());
    push_text(out, "sourcedir", i.source_dir.as_str());
    push_text(out, "installroot", i.install_root.as_str());
    push_text(out, "buildroot", i.build_dir.as_str());
    push_text(out, "workdir", i.work_dir.as_str());
    push_text(out, "compiler_cache", "/mason/ccache");
    push_text(out, "scompiler_cache", "/mason/sccache");
    push_text(out, "sourcedateepoch", epoch.as_str());
    assert(out.deep_view() =~= before + place_builtins(i@));
}

/// Appends the builtins of the compiler caches.
fn push_cache(out: &mut Vec<(String, BuiltinValue)>, ccache: bool, toolchain: Toolchain)
    ensures
        final(out).deep_view() == old(out).deep_view() + cache_builtins(ccache, toolchain),
{
    let ghost before = out.deep_view();
    if ccache {
        push_text(out, "compiler_go_cache", "/mason/gocache");
        push_text(out, "compiler_go_mod_cache", "/mason/gomodcache");
        push_text(out, "compiler_cargo_cache", "/mason/cargocache");
        push_text(out, "compiler_zig_cache", "/mason/zigcache");
        push_text(out, "rustc_wrapper", "/usr/bin/sccache");
        push_text(out, "compiler_lto_cache", "/mason/ltocache");
        let lto = if toolchain == Toolchain::Llvm {
            "-Wl,--thinlto-cache-dir=%(ltocachedir)"
        } else {
            "-flto-incremental=%(ltocachedir)"
        };
        let ghost mid = out.deep_view();
        out.push(("ltoincremental".to_owned(), BuiltinValue::Script(lto.to_owned())));
        out.push(
            (
                "rustltoincremental".to_owned(),
                BuiltinValue::Script("-C link-args=-Wl,--thinlto-cache-dir=%(ltocachedir)".to_owned()),
            ),
        );
        assert(out.deep_view() =~= mid + seq![
            ("ltoincremental"@, BuiltinValueView::Script(lto@)),
            ("rustltoincremental"@, BuiltinValueView::Script("-C link-args=-Wl,--thinlto-cache-dir=%(ltocachedir)"@)),
        ]);
    } else {
        push_text(out, "compiler_go_cache", "");
        push_text(out, "compiler_go_mod_cache", "");
        push_text(out, "compiler_cargo_cache", "");
        push_text(out, "compiler_zig_cache", "");
        push_text(out, "rustc_wrapper", "");
        push_text(out, "compiler_lto_cache", "");
        push_text(out, "ltoincremental", "");
        push_text(out, "rustltoincremental", "");
    }
    assert(out.deep_view() =~= before + cache_builtins(ccache, toolchain));
}

/// Appends the compilers and tools of a toolchain.
fn push_compilers(out: &mut Vec<(String, BuiltinValue)>, toolchain: Toolchain)
    ensures
        final(out).deep_view() == old(out).deep_view() + compiler_builtins(toolchain),
{
    let ghost before = out.deep_view();
    if toolchain == Toolchain::Llvm {
        push_text(out, "compiler_c", "clang");
        push_text(out, "compiler_cxx", "clang++");
        push_text(out, "compiler_objc", "clang");
        push_text(out, "compiler_objcxx", "clang++");
        push_text(out, "compiler_cpp", "clang-cpp");
        push_text(out, "compiler_objcpp", "clang -E -");
        push_text(out, "compiler_objcxxcpp", "clang++ -E");
        push_text(out, "compiler_d", "ldc2");
        push_text(out, "compiler_ar", "llvm-ar");
        push_text(out, "compiler_objcopy", "llvm-objcopy");
        push_text(out, "compiler_nm", "llvm-nm");
        push_text(out, "compiler_ranlib", "llvm-ranlib");
        push_text(out, "compiler_strip", "llvm-strip");
    } else {
        push_text(out, "compiler_c", "gcc");
        push_text(out, "compiler_cxx", "g++");
        push_text(out, "compiler_objc", "gcc");
        push_text(out, "compiler_objcxx", "g++");
        push_text(out, "compiler_cpp", "gcc -E");
        push_text(out, "compiler_objcpp", "gcc -E");
        push_text(out, "compiler_objcxxcpp", "g++ -E");
        push_text(out, "compiler_d", "ldc2");
        push_text(out, "compiler_ar", "gcc-ar");
        push_text(out, "compiler_objcopy", "objcopy");
        push_text(out, "compiler_nm", "gcc-nm");
        push_text(out, "compiler_ranlib", "gcc-ranlib");
        push_text(out, "compiler_strip", "strip");
    }
    assert(out.deep_view() =~= before + compiler_builtins(toolchain));
}

/// The builtins of a build's scripts, in the order they are set: what is built and
/// where, the compiler caches, the compilers of the toolchain, their search path, the
/// linker, and the profile guided optimisation stage and its directory.
pub fn script_builtins(i: &ScriptInputs) -> (r: Vec<(String, BuiltinValue)>)
    ensures
        r.deep_view() == spec_builtins(i@),
{
    let mut out: Vec<(String, BuiltinValue)> = Vec::new();
    assert(out.deep_view() =~= Seq::<(Seq<char>, BuiltinValueView)>::empty());
    push_place(&mut out, i);
    push_cache(&mut out, i.ccache, i.toolchain);
    push_compilers(&mut out, i.toolchain);
    let ghost before = out.deep_view();
    let path = if i.ccache {
        "/usr/lib/ccache/bin:/usr/bin:/bin"
    } else {
        "/usr/bin:/bin"
    };
    push_text(&mut out, "compiler_path", path);
    let ld = if i.mold {
        "ld.mold"
    } else if i.toolchain == Toolchain::Llvm {
        "ld.lld"
    } else {
        "ld.bfd"
    };
    push_text(&mut out, "compiler_ld", ld);
    let stage = match i.pgo {
        Some(PgoStage::One) => "ONE",
        Some(PgoStage::Two) => "TWO",
        Some(PgoStage::Use) => "USE",
        None => "NONE",
    };
    push_text(&mut out, "pgo_stage", stage);
    let mut pgo_dir = i.build_dir.clone();
    pgo_dir.push_str("-pgo");
    push_text(&mut out, "pgo_dir", pgo_dir.as_str());
    assert(out.deep_view() =~= before + tail_builtins(i@));
    assert(out.deep_view() =~= spec_builtins(i@));
    out
}

/// The scripts of builtins, by name.
pub open spec fn builtin_views(m: vstd::map::Map<Seq<char>, Expr>) -> vstd::map::Map<Seq<char>, Seq<FragmentView>> {
    m.map_values(|e: Expr| e@)
}

/// The script of a builtin's value: text is output as it is, a script is parsed.
pub open spec fn value_fragments(v: BuiltinValueView) -> Seq<FragmentView> {
    match v {
        BuiltinValueView::Text(t) => seq![FragmentView::Output(t)],
        BuiltinValueView::Script(t) => spec_parse(t),
    }
}

/// The scripts of the builtins `m` once each of `bs` is set in turn, a later one
/// replacing an earlier one of the same name.
pub open spec fn with_builtins(
    m: vstd::map::Map<Seq<char>, Seq<FragmentView>>,
    bs: Seq<(Seq<char>, BuiltinValueView)>,
) -> vstd::map::Map<Seq<char>, Seq<FragmentView>>
    decreases bs.len(),
{
    if bs.len() == 0 {
        m
    } else {
        with_builtins(m, bs.drop_last()).insert(bs.last().0, value_fragments(bs.last().1))
    }
}

/// Sets each of the builtins in turn in the environment.
pub fn add_builtins(env: &mut ScriptEnv, bs: &Vec<(String, BuiltinValue)>)
    ensures
        builtin_views(final(env).builtins@) == with_builtins(builtin_views(old(env).builtins@), bs.deep_view()),
        final(env).definitions@ == old(env).definitions@,
        final(env).actions@ == old(env).actions@,
{
    let ghost start = builtin_views(env.builtins@);
    let ghost bv = bs.deep_view();
    let mut i: usize = 0;
    assert(bv.take(0) =~= Seq::<(Seq<char>, BuiltinValueView)>::empty());
    while i < bs.len()
        invariant
            i <= bs@.len(),
            bv == bs.deep_view(),
            builtin_views(env.builtins@) == with_builtins(start, bv.take(i as int)),
            env.definitions@ == old(env).definitions@,
            env.actions@ == old(env).actions@,
        decreases bs@.len() - i,
    {
        let ghost before = env.builtins@;
        let (name, value) = &bs[i];
        assert(bv[i as int] == (name@, value.deep_view()));
        match value {
            BuiltinValue::Text(t) => {
                env.add_builtin_string(name.as_str(), t.as_str());
                assert(builtin_views(env.builtins@) =~= builtin_views(before).insert(
                    name@,
                    seq![FragmentView::Output(t@)],
                )) by {
                    assert forall|k: Seq<char>| k != name@ && before.dom().contains(k) implies env.builtins@[k] == before[k] by {
                        assert(env.builtins@.remove(name@)[k] == before.remove(name@)[k]);
                    }
                }
            },
            BuiltinValue::Script(t) => {
                let e = Expr::parse(t.as_str()).unwrap();
                env.add_builtin(name.as_str(), e);
                assert(builtin_views(env.builtins@) =~= builtin_views(before).insert(name@, spec_parse(t@)));
            },
        }
        assert(bv.take(i + 1).drop_last() =~= bv.take(i as int));
        i += 1;
    }
    assert(bv.take(i as int) =~= bv);
}

} // verus!
