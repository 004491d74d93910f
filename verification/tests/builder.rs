use boulder::builder::phase::{list, Phase, PgoStage};
use boulder::builder::prepare::prepare_script;
use boulder::builder::script::ScriptBundle;
use boulder::stone_recipe::upstream::Upstream;
use boulder::util::{relative_path, uri_file_name, uri_relative_path};
use boulder::stone_script::context::Command;
use boulder::stone_script::env::{Action, Definition, ScriptEnv};
use boulder::stone_script::expr::Expr;

#[test]
fn phases_of_each_stage() {
    assert_eq!(
        list(None),
        vec![Phase::Prepare, Phase::Setup, Phase::Build, Phase::Install, Phase::Check]
    );
    assert_eq!(list(Some(PgoStage::Use)), list(None));
    assert_eq!(
        list(Some(PgoStage::One)),
        vec![Phase::Prepare, Phase::Setup, Phase::Build, Phase::Workload]
    );
    assert_eq!(list(Some(PgoStage::Two)), list(Some(PgoStage::One)));
}

#[test]
fn phase_names() {
    assert_eq!(Phase::Prepare.abbrev(), "P");
    assert_eq!(Phase::Workload.abbrev(), "W");
    assert_eq!(Phase::Check.to_string(), "Check");
}

#[test]
fn bundle_prefixes_each_output() {
    let mut env = ScriptEnv::new();
    env.add_definition(
        "cc",
        Definition {
            doc: None,
            value: Expr::parse("gcc").unwrap(),
        },
    );
    env.add_action(
        "make",
        Action {
            doc: None,
            example: None,
            dependencies: vec!["binary(make)".to_owned(), "binary(gcc)".to_owned()],
            value: Expr::parse("make CC=%(cc)").unwrap(),
        },
    );
    let prefix = Expr::parse("set -e").unwrap();
    let script = Expr::parse("%make\n%break_continue\necho done").unwrap();
    let bundle = ScriptBundle::build(env, &prefix, &script).unwrap();
    assert_eq!(bundle.prefix(), "set -e");
    assert_eq!(bundle.dependencies(), &["binary(gcc)".to_owned(), "binary(make)".to_owned()]);
    assert_eq!(
        bundle.commands(),
        &[
            Command::Output {
                output: "set -e\nmake CC=gcc\n".to_owned()
            },
            Command::Breakpoint {
                line_num: 1,
                exit: false
            },
            Command::Output {
                output: "set -e\n\necho done".to_owned()
            },
        ]
    );
    assert!(bundle.env().definitions.get("cc").is_some());
}

#[test]
fn bundle_fails_on_undefined_name() {
    let env = ScriptEnv::new();
    let prefix = Expr::parse("%(nothing)").unwrap();
    let script = Expr::parse("x").unwrap();
    assert!(ScriptBundle::build(env, &prefix, &script).is_err());
}

#[test]
fn uri_names() {
    let uri = "https://example.com/releases/foo-1.0.tar.xz";
    assert_eq!(uri_file_name(uri), "foo-1.0.tar.xz");
    assert_eq!(uri_relative_path(uri), "releases/foo-1.0.tar.xz");
    assert_eq!(uri_file_name("https://example.com/"), "");
    assert_eq!(uri_relative_path("https://example.com"), "");
    assert_eq!(uri_file_name("not a url"), "");
    assert_eq!(relative_path("/a/b"), "a/b");
    assert_eq!(relative_path("a/b"), "");
}

#[test]
fn prepare_unpacks_archives_and_copies_repositories() {
    let ups = vec![
        Upstream::Plain {
            uri: "https://example.com/releases/foo-1.0.tar.xz".to_owned(),
            hash: "abcdef".to_owned(),
            rename: None,
            strip_dirs: None,
            unpack: true,
            unpack_dir: None,
        },
        Upstream::Plain {
            uri: "https://example.com/extra.zip".to_owned(),
            hash: "abcdef".to_owned(),
            rename: Some("extra-data.zip".to_owned()),
            strip_dirs: Some(0),
            unpack: true,
            unpack_dir: Some("data".to_owned()),
        },
        Upstream::Plain {
            uri: "https://example.com/patch.diff".to_owned(),
            hash: "abcdef".to_owned(),
            rename: None,
            strip_dirs: None,
            unpack: false,
            unpack_dir: None,
        },
        Upstream::Git {
            uri: "https://github.com/org/repo.git".to_owned(),
            ref_id: "0123456789012345678901234567890123456789".to_owned(),
            clone_dir: None,
            staging: true,
        },
    ];
    let expected = [
        "mkdir -p foo-1.0.tar.xz\n",
        "bsdtar-static xf \"%(sourcedir)/foo-1.0.tar.xz\" -C \"foo-1.0.tar.xz\" --strip-components=1 --no-same-owner || (echo \"Failed to extract archive\"; exit 1);\n",
        "mkdir -p data\n",
        "bsdtar-static xf \"%(sourcedir)/extra-data.zip\" -C \"data\" --strip-components=0 --no-same-owner || (echo \"Failed to extract archive\"; exit 1);\n",
        "mkdir -p repo.git\n",
        "cp -Ra --no-preserve=ownership \"%(sourcedir)/repo.git/.\" \"repo.git\"\n",
    ]
    .concat();
    assert_eq!(prepare_script(&ups), expected);
}
