use boulder::builder::phase::phase_script;
use boulder::stone_script::context::Command;
use boulder::stone_script::env::{Action, Definition};
use boulder::stone_script::expr::Expr;
use boulder::stone_recipe::macros::Macros;
use boulder::builder::tuning::{add_tuning, CompilerFlags, TuningError};
use boulder::cli::{extension, plan_move, MoveError};
use boulder::stone_script::env::ScriptEnv;
use boulder::builder::phase::script_prefix;
use boulder::builder::tuning::{add_mold_flags, check_arch_macros};
use boulder::profile::{merge_all, Id, ProfileMap};
use boulder::cli::repo_dir;
use boulder::builder::git::{
    git_key, is_valid_commit_hash, listed_commit, pinned_value, refs_to_resolve, remote_refs,
};
use boulder::stone_recipe::upstream::Upstream;
use boulder::builder::builtins::{script_builtins, BuiltinValue, ScriptInputs};
use boulder::builder::phase::{phase_content, Phase, PgoStage, Toolchain};
use boulder::builder::tuning::{fmt_flags, tuning_requests, TuningChoice, TuningRequest};
use boulder::cli::{check_repo_flags, repo_uri, FlagError, RepoListError, SubcommandKind};
use boulder::stone_recipe::recipe::{Build, KeyValue};

fn strings(v: &[&str]) -> Vec<String> {
    v.iter().map(|s| s.to_string()).collect()
}

fn build(setup: Option<&str>, workload: Option<&str>) -> Build {
    Build {
        setup: setup.map(str::to_owned),
        build: None,
        install: None,
        check: None,
        workload: workload.map(str::to_owned),
        environment: None,
        build_deps: vec![],
        check_deps: vec![],
    }
}

#[test]
fn flags_are_trimmed_sorted_and_deduplicated() {
    let flags = strings(&["  -O2 ", "-g", "-O2", "x", " ", "-fPIC\t", "-fPIC"]);
    assert_eq!(fmt_flags(&flags), "-O2 -fPIC -g");
    assert_eq!(fmt_flags(&vec![]), "");
    assert_eq!(fmt_flags(&strings(&["a", "b"])), "");
}

#[test]
fn tuning_requests_in_order() {
    let recipe = vec![
        KeyValue { key: "lto".to_owned(), value: TuningChoice::Disable },
        KeyValue { key: "optimize".to_owned(), value: TuningChoice::Config("speed".to_owned()) },
        KeyValue { key: "harden".to_owned(), value: TuningChoice::Enable },
    ];
    let defaults = strings(&["base", "optimize", "avxwidth"]);
    let r = tuning_requests(&recipe, &defaults, Some(PgoStage::Use), true);
    let text: Vec<String> = r
        .iter()
        .map(|q| match q {
            TuningRequest::Enable { group, config: None } => format!("+{group}"),
            TuningRequest::Enable { group, config: Some(c) } => format!("+{group}={c}"),
            TuningRequest::Disable { group } => format!("-{group}"),
        })
        .collect();
    assert_eq!(
        text,
        strings(&[
            "+architecture",
            "-lto",
            "+optimize=speed",
            "+harden",
            "+base",
            "+avxwidth",
            "+pgouse",
            "+pgosample"
        ])
    );
    let r = tuning_requests(&vec![], &vec![], Some(PgoStage::Use), false);
    assert_eq!(r.len(), 2);
    let r = tuning_requests(&vec![], &vec![], Some(PgoStage::Two), true);
    assert!(matches!(&r[1], TuningRequest::Enable { group, config: None } if group == "pgostage2"));
}

#[test]
fn phase_content_prefers_target_build() {
    let target = build(Some("target setup"), None);
    let root = build(Some("root setup"), Some("run"));
    let c = phase_content(Phase::Setup, &target, &root, Toolchain::Gnu, None, &vec![]);
    assert_eq!(c.as_deref(), Some("target setup"));
    let c = phase_content(Phase::Build, &target, &root, Toolchain::Gnu, None, &vec![]);
    assert_eq!(c, None);
    let c = phase_content(Phase::Workload, &target, &root, Toolchain::Llvm, Some(PgoStage::One), &vec![]);
    assert_eq!(c.as_deref(), Some("run%llvm_merge_s1"));
    let c = phase_content(Phase::Workload, &target, &root, Toolchain::Gnu, Some(PgoStage::One), &vec![]);
    assert_eq!(c.as_deref(), Some("run"));
    let empty = build(Some(""), None);
    assert_eq!(phase_content(Phase::Setup, &empty, &root, Toolchain::Gnu, None, &vec![]), None);
    assert_eq!(phase_content(Phase::Prepare, &empty, &root, Toolchain::Gnu, None, &vec![]), None);
}

fn inputs(ccache: bool, toolchain: Toolchain, mold: bool) -> ScriptInputs {
    ScriptInputs {
        name: "nano".to_owned(),
        version: "8.0".to_owned(),
        release: 3,
        jobs: 16,
        pkg_dir: "/mason/recipe/pkg".to_owned(),
        source_dir: "/mason/sourcedir".to_owned(),
        install_root: "/mason/install".to_owned(),
        build_dir: "/mason/build/x86_64".to_owned(),
        work_dir: "/mason/build/x86_64/nano-8.0".to_owned(),
        build_time: -5,
        ccache,
        toolchain,
        mold,
        pgo: None,
    }
}

fn lookup<'a>(b: &'a [(String, BuiltinValue)], name: &str) -> &'a BuiltinValue {
    &b.iter().rev().find(|(n, _)| n == name).unwrap().1
}

fn text_of(b: &[(String, BuiltinValue)], name: &str) -> String {
    match lookup(b, name) {
        BuiltinValue::Text(t) => t.clone(),
        BuiltinValue::Script(s) => panic!("{name} is a script: {s}"),
    }
}

#[test]
fn builtins_of_a_build() {
    let b = script_builtins(&inputs(false, Toolchain::Llvm, false));
    assert_eq!(b.len(), 12 + 8 + 13 + 4);
    assert_eq!(text_of(&b, "release"), "3");
    assert_eq!(text_of(&b, "jobs"), "16");
    assert_eq!(text_of(&b, "sourcedateepoch"), "-5");
    assert_eq!(text_of(&b, "compiler_c"), "clang");
    assert_eq!(text_of(&b, "compiler_ld"), "ld.lld");
    assert_eq!(text_of(&b, "compiler_path"), "/usr/bin:/bin");
    assert_eq!(text_of(&b, "ltoincremental"), "");
    assert_eq!(text_of(&b, "pgo_stage"), "NONE");
    assert_eq!(text_of(&b, "pgo_dir"), "/mason/build/x86_64-pgo");
    let b = script_builtins(&inputs(true, Toolchain::Gnu, true));
    assert_eq!(text_of(&b, "compiler_c"), "gcc");
    assert_eq!(text_of(&b, "compiler_ld"), "ld.mold");
    assert_eq!(text_of(&b, "compiler_path"), "/usr/lib/ccache/bin:/usr/bin:/bin");
    assert!(matches!(lookup(&b, "ltoincremental"), BuiltinValue::Script(s) if s == "-flto-incremental=%(ltocachedir)"));
}

#[test]
fn repo_flags_only_with_building_subcommands() {
    assert_eq!(check_repo_flags(Some(SubcommandKind::Build), true, true), Ok(()));
    assert_eq!(check_repo_flags(Some(SubcommandKind::Recipe), true, false), Ok(()));
    assert_eq!(check_repo_flags(Some(SubcommandKind::Chroot), false, false), Ok(()));
    assert_eq!(check_repo_flags(None, true, false), Err(FlagError::MoveOutsideBuild));
    assert_eq!(check_repo_flags(Some(SubcommandKind::Profile), false, true), Err(FlagError::ReindexOutsideBuild));
    assert_eq!(check_repo_flags(Some(SubcommandKind::Version), true, true), Err(FlagError::BothOutsideBuild));
}

#[test]
fn repo_uri_from_listing() {
    let listing = " - volatile = https://example.com/volatile/x86_64/stone.index [0]\r\n - local = file:///var/cache/local/stone.index [10]\n";
    assert_eq!(
        repo_uri("volatile", listing),
        Ok(Some("https://example.com/volatile/x86_64/stone.index".to_owned()))
    );
    assert_eq!(repo_uri("local", listing), Ok(Some("/var/cache/local/stone.index".to_owned())));
    assert_eq!(repo_uri("missing", listing), Ok(None));
    // the last line that names the repository wins
    assert_eq!(repo_uri("l", listing), Ok(Some("/var/cache/local/stone.index".to_owned())));
    assert_eq!(repo_uri("x", "x has no uri\n"), Err(RepoListError::LineWithoutUri));
}

#[test]
fn repo_dir_strips_scheme_and_index() {
    assert_eq!(repo_dir("file:///var/cache/local/stone.index"), "/var/cache/local/");
    assert_eq!(repo_dir("/srv/repo/stone.index"), "/srv/repo/");
    assert_eq!(repo_dir("https://x/stone.index/stone.index"), "https://x//stone.index");
}

#[test]
fn git_refs_to_pin() {
    let sha1 = "85f8339d9c11caa203d79e6b10fd928a388d6466";
    let sha256 = "a".repeat(64);
    assert!(is_valid_commit_hash(sha1));
    assert!(is_valid_commit_hash(&sha256));
    assert!(!is_valid_commit_hash("v1.0.0"));
    assert!(!is_valid_commit_hash(&"a".repeat(41)));
    let git = |r: &str| Upstream::Git {
        uri: "https://example.com/r".to_owned(),
        ref_id: r.to_owned(),
        clone_dir: None,
        staging: true,
    };
    let plain = Upstream::Plain {
        uri: "https://example.com/a.tar".to_owned(),
        hash: "00".to_owned(),
        rename: None,
        strip_dirs: None,
        unpack: true,
        unpack_dir: None,
    };
    assert_eq!(refs_to_resolve(&vec![git(sha1), plain, git("main"), git(&sha256), git("v2")]), vec![2, 4]);
    assert_eq!(remote_refs("v1"), vec!["refs/tags/v1".to_owned(), "refs/heads/v1".to_owned()]);
    assert_eq!(listed_commit("abc123\trefs/tags/v1\ndef\trefs/heads/v1\n").as_deref(), Some("abc123"));
    assert_eq!(listed_commit(" \n"), None);
    assert_eq!(git_key("https://x"), "git|https://x");
    assert_eq!(pinned_value("abc", "v1.0.0"), "abc # v1.0.0");
}

#[test]
fn script_prefix_of_each_phase() {
    let mut target = build(None, None);
    target.environment = Some("export A=1".to_owned());
    let mut root = build(None, None);
    root.environment = Some("export B=2".to_owned());
    assert_eq!(script_prefix(Phase::Build, &target, &root), "%scriptBase\nexport A=1\n");
    assert_eq!(script_prefix(Phase::Prepare, &target, &root), "%scriptBase\n\n");
    let none = build(None, None);
    assert_eq!(script_prefix(Phase::Build, &none, &root), "%scriptBase\nexport B=2\n");
    let mut null = build(None, None);
    null.environment = Some("(null)".to_owned());
    assert_eq!(script_prefix(Phase::Build, &null, &root), "%scriptBase\n\n");
}

#[test]
fn tuning_needs_base_macros_and_mold_flags() {
    assert_eq!(check_arch_macros("x86_64", &vec![]), Err("base".to_owned()));
    let mut c = "-O2".to_owned();
    let mut cxx = "-O3".to_owned();
    let mut rust = "-Copt-level=3".to_owned();
    add_mold_flags(&mut c, &mut cxx, &mut rust, true);
    assert_eq!(c, "-O2 -fuse-ld=mold");
    assert_eq!(cxx, "-O3 -fuse-ld=mold");
    assert_eq!(rust, "-Copt-level=3 -Clink-arg=-fuse-ld=mold");
    add_mold_flags(&mut c, &mut cxx, &mut rust, false);
    assert_eq!(c, "-O2 -fuse-ld=mold");
}

#[test]
fn loaded_profile_maps_merge_in_order() {
    let a = ProfileMap::with(vec![(Id::new("one"), 1), (Id::new("two"), 2)]);
    let b = ProfileMap::with(vec![(Id::new("two"), 20), (Id::new("three"), 3)]);
    let m = merge_all(vec![a, b]);
    assert_eq!(m.get(&Id::new("one")), Some(&1));
    assert_eq!(m.get(&Id::new("two")), Some(&20));
    assert_eq!(m.get(&Id::new("three")), Some(&3));
    assert!(merge_all::<u8>(vec![]).is_empty());
}

#[test]
fn tuning_sets_the_flag_builtins() {
    let flags = CompilerFlags {
        c: strings(&["-O2", " -g ", "-O2"]),
        cxx: strings(&["-O3"]),
        f: vec![],
        ld: strings(&["-Wl,--as-needed"]),
        d: vec![],
        rust: strings(&["-Copt-level=3"]),
        vala: vec![],
        go: vec![],
    };
    let mut env = ScriptEnv::new();
    assert_eq!(
        add_tuning(&mut env, "x86_64", &vec![], &flags, true),
        Err(TuningError::MissingArchMacros("base".to_owned()))
    );
    let empty = || Macros {
        actions: vec![],
        definitions: vec![],
        flags: vec![],
        tuning: vec![],
        packages: vec![],
        default_tuning_groups: vec![],
    };
    let archs = vec![KeyValue { key: "base".to_owned(), value: empty() }];
    assert_eq!(
        add_tuning(&mut env, "x86_64", &archs, &flags, true),
        Err(TuningError::MissingArchMacros("x86_64".to_owned()))
    );
    let archs = vec![
        KeyValue { key: "base".to_owned(), value: empty() },
        KeyValue { key: "x86_64".to_owned(), value: empty() },
    ];
    add_tuning(&mut env, "x86_64", &archs, &flags, true).unwrap();
    let text = |name: &str| {
        let mut out = String::new();
        env.builtins.get(name).unwrap().dump(&mut out);
        out
    };
    assert_eq!(text("cflags"), "-O2 -g -fuse-ld=mold");
    assert_eq!(text("cxxflags"), "-O3 -fuse-ld=mold");
    assert_eq!(text("rustflags"), "-Copt-level=3 -Clink-arg=-fuse-ld=mold");
    assert_eq!(text("ldflags"), "-Wl,--as-needed");
    assert_eq!(text("fflags"), "");
    assert_eq!(text("goflags"), "");
}

#[test]
fn moving_packages_to_a_repository() {
    assert_eq!(extension("a.stone").as_deref(), Some("stone"));
    assert_eq!(extension("a.b.stone").as_deref(), Some("stone"));
    assert_eq!(extension(".stone"), None);
    assert_eq!(extension("stone"), None);
    assert_eq!(extension("a."), Some(String::new()));
    let files = vec![
        ("nano-8.0-1-1-x86_64.stone".to_owned(), true),
        ("manifest.x86_64.jsonc".to_owned(), true),
        ("dir.stone".to_owned(), false),
        ("nano-dbg.stone".to_owned(), true),
    ];
    let (dir, moves) = plan_move(&Some("file:///var/cache/local/stone.index".to_owned()), &files).unwrap();
    assert_eq!(dir, "/var/cache/local/");
    assert_eq!(
        moves,
        vec![
            ("nano-8.0-1-1-x86_64.stone".to_owned(), "/var/cache/local/nano-8.0-1-1-x86_64.stone".to_owned()),
            ("nano-dbg.stone".to_owned(), "/var/cache/local/nano-dbg.stone".to_owned()),
        ]
    );
    assert_eq!(plan_move(&None, &files), Err(MoveError::NoRepoPath));
}

#[test]
fn phase_script_compiles_a_bundle() {
    let target = build(Some("echo %(n)"), None);
    let root = build(None, None);
    let mut env = ScriptEnv::new();
    env.add_action(
        "scriptBase",
        Action { doc: None, example: None, dependencies: vec![], value: Expr::parse("set -e").unwrap() },
    );
    env.add_definition("n", Definition { doc: None, value: Expr::parse("%(_name)").unwrap() });
    let empty = || Macros {
        actions: vec![],
        definitions: vec![],
        flags: vec![],
        tuning: vec![],
        packages: vec![],
        default_tuning_groups: vec![],
    };
    let archs = vec![
        KeyValue { key: "base".to_owned(), value: empty() },
        KeyValue { key: "x86_64".to_owned(), value: empty() },
    ];
    let flags = CompilerFlags { c: vec![], cxx: vec![], f: vec![], ld: vec![], d: vec![], rust: vec![], vala: vec![], go: vec![] };
    let ins = inputs(false, Toolchain::Gnu, false);
    let none = phase_script(Phase::Build, &target, &root, Toolchain::Gnu, None, &vec![], ScriptEnv::new(), "x86_64", &ins, &archs, &flags, false);
    assert!(matches!(none, Ok(None)));
    let b = phase_script(Phase::Setup, &target, &root, Toolchain::Gnu, None, &vec![], env, "x86_64", &ins, &archs, &flags, false)
        .ok()
        .flatten()
        .unwrap();
    assert!(b.prefix().starts_with("set -e"));
    match &b.commands()[0] {
        Command::Output { output } => assert!(output.ends_with("echo nano"), "{output}"),
        other => panic!("unexpected {other:?}"),
    }
    assert!(b.env().builtins.get("cflags").is_some());
}
