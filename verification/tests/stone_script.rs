use std::collections::BTreeSet;

use boulder::stone_script::context::{Command, ScriptContext};
use boulder::stone_script::env::{Action, Definition, ScriptEnv};
use boulder::stone_script::error::{Error, EvalError};
use boulder::stone_script::expr::{Expr, Fragment};
use boulder::stone_script::parser::{tokens, Token};

fn expr_output_test(expr: &Expr, output: &str) {
    let mut ctx = ScriptContext::new();
    let env = ScriptEnv::new();
    ctx.eval(&env, &expr).unwrap();
    assert_eq!(ctx.flush_to_string(), output);
}

#[test]
fn context_eval_works() {
    expr_output_test(&Expr::from_fragments(vec![Fragment::output_str("meow :3")]), "meow :3");

    expr_output_test(
        &Expr::from_fragments(vec![
            Fragment::output_str("you"),
            Fragment::output_str("are"),
            Fragment::output_str("gay"),
            Fragment::output_str(":3"),
        ]),
        "youaregay:3",
    );
}

#[test]
fn breakpoint_works() {
    let mut ctx = ScriptContext::new();
    let env = ScriptEnv::new();
    ctx.eval(
        &env,
        &Expr::from_fragments(vec![
            Fragment::output_str("do not--\n"),
            Fragment::Breakpoint {
                line_num: 0,
                exit: false,
            },
            Fragment::output_str("what did i say???"),
            Fragment::Breakpoint {
                line_num: 1,
                exit: true,
            },
        ]),
    )
    .unwrap();
    let expected = &[
        Command::Output {
            output: "do not--\n".to_owned(),
        },
        Command::Breakpoint {
            line_num: 0,
            exit: false,
        },
        Command::Output {
            output: "what did i say???".to_owned(),
        },
        Command::Breakpoint {
            line_num: 1,
            exit: true,
        },
    ];
    for (i, command) in ctx.flush_commands().into_iter().enumerate() {
        assert_eq!(expected[i], command);
    }
}

#[test]
fn stack_overflow_works_with_builtin() {
    let mut ctx = ScriptContext::new().with_toplevel_builtins();
    let mut env = ScriptEnv::new();
    env.add_builtin("kaboom", Expr::parse("%(_kaboom)").unwrap());
    let expr = Expr::parse("%(_kaboom)").unwrap();
    assert!(matches!(
        ctx.eval(&env, &expr),
        Err(Error::Eval {
            source: EvalError::TooDeep,
            ..
        })
    ));
}

#[test]
fn stack_overflow_works_with_definition() {
    let mut ctx = ScriptContext::new();
    let mut env = ScriptEnv::new();
    env.add_definition(
        "kaboom",
        Definition {
            doc: None,
            value: Expr::parse("%(kaboom)").unwrap(),
        },
    );
    let expr = Expr::parse("%(kaboom)").unwrap();
    assert!(matches!(
        ctx.eval(&env, &expr),
        Err(Error::Eval {
            source: EvalError::TooDeep,
            ..
        })
    ));
}

#[test]
fn stack_overflow_works_with_action() {
    let mut ctx = ScriptContext::new();
    let mut env = ScriptEnv::new();
    env.add_action(
        "kaboom",
        Action {
            doc: None,
            example: None,
            dependencies: Vec::new(),
            value: Expr::parse("%kaboom").unwrap(),
        },
    );
    let expr = Expr::parse("%kaboom").unwrap();
    assert!(matches!(
        ctx.eval(&env, &expr),
        Err(Error::Eval {
            source: EvalError::TooDeep,
            ..
        })
    ));
}

#[test]
fn stack_overflow_works_with_combination() {
    let mut ctx = ScriptContext::new();
    let mut env = ScriptEnv::new();
    env.add_builtin("scissors", Expr::parse("%rock").unwrap());
    env.add_definition(
        "paper",
        Definition {
            doc: None,
            value: Expr::parse("%(_scissors)").unwrap(),
        },
    );
    env.add_action(
        "rock",
        Action {
            doc: None,
            example: None,
            dependencies: Vec::new(),
            value: Expr::parse("%(paper)").unwrap(),
        },
    );
    let expr = Expr::parse("%rock").unwrap();
    assert!(matches!(
        ctx.eval(&env, &expr),
        Err(Error::Eval {
            source: EvalError::TooDeep,
            ..
        })
    ));
}

#[test]
fn call_stack_works() {
    let mut ctx = ScriptContext::new();
    let mut env = ScriptEnv::new();
    env.add_action(
        "compile",
        Action {
            doc: None,
            example: None,
            dependencies: Vec::new(),
            value: Expr::parse("%(cc)").unwrap(),
        },
    );
    env.add_definition(
        "cc",
        Definition {
            doc: None,
            value: Expr::parse("gcc %(cc_params)").unwrap(),
        },
    );
    env.add_definition(
        "cc_params",
        Definition {
            doc: None,
            value: Expr::parse("-Wall -Werror %(extra_params)").unwrap(),
        },
    );
    let expr = Expr::parse("%compile test.c").unwrap();
    let Err(Error::Eval { source, trace }) = ctx.eval(&env, &expr) else {
        panic!("expected an error");
    };
    if let EvalError::UndefinedDefinition { name } = source {
        assert_eq!(name, "extra_params");
    } else {
        panic!("expected an undefined definition error");
    }
    assert_eq!(trace.frames.len(), 4);
    assert_eq!(trace.frames[0], "definition \"extra_params\"");
    assert_eq!(trace.frames[1], "definition \"cc_params\"");
    assert_eq!(trace.frames[2], "definition \"cc\"");
    assert_eq!(trace.frames[3], "action \"compile\"");
}

#[test]
fn test_case_pgo_dir() {
    let mut env = ScriptEnv::new();

    env.add_definition(
        "pgo_dir",
        Definition {
            doc: None,
            value: Expr::parse("/mason/build/x86_64-pgo").unwrap(),
        },
    );

    let mut ctx = ScriptContext::new();

    ctx.eval(&env, &Expr::parse("-fprofile-generate=%(pgo_dir)/IR").unwrap())
        .unwrap();

    assert_eq!(ctx.flush_to_string(), "-fprofile-generate=/mason/build/x86_64-pgo/IR");
}

fn roundtrip_test(source: &str) {
    let expr = Expr::parse(source).unwrap();
    assert_eq!(source, expr.dump_to_string());
}

#[test]
fn parse_works() {
    roundtrip_test("");
    roundtrip_test("gay goat grub");
    roundtrip_test("%(wustc) owo.ws");
    roundtrip_test("%sign_into_law transrights");
    roundtrip_test("%catapult %(you) snugglepile");
    roundtrip_test("%broadcast my fedi fwiends are cuties owo");
    roundtrip_test("shouldn't forget the builtins %(_plsdontforgetme)");
    roundtrip_test(
        "hello mr. goose\n\ni am writing to you regarding %(topic),\nyou have voted %(vote) on %(topic), and i am not happy with this\n\ni will never vote for  you again\n\nunkind regards,\negg",
    );
}

fn make_env() -> ScriptEnv {
    let mut env = ScriptEnv::new();
    env.add_builtin_string("compiler_cc", "gcc");
    env.add_definition(
        "compiler_cc",
        Definition {
            doc: None,
            value: Expr::parse("%(_compiler_cc)").unwrap(),
        },
    );
    env.add_definition(
        "cc",
        Definition {
            doc: None,
            value: Expr::parse("%(compiler_cc)").unwrap(),
        },
    );
    env.add_definition(
        "rc_service",
        Definition {
            doc: None,
            value: Expr::parse("rc-service").unwrap(),
        },
    );
    env.add_action(
        "retrieve",
        Action {
            doc: None,
            example: None,
            dependencies: vec!["binary(wget)".to_owned()],
            value: Expr::parse("wget").unwrap(),
        },
    );
    env.add_action(
        "annoy",
        Action {
            doc: None,
            example: None,
            dependencies: vec!["binary(poke)".to_owned()],
            value: Expr::parse("poke -n 100").unwrap(),
        },
    );
    env.add_action(
        "nhac",
        Action {
            doc: None,
            example: None,
            dependencies: vec!["catnip".to_owned()],
            value: Expr::parse(r#"%retrieve bitey-girlfriend; %annoy bitey-girlfriend"#).unwrap(),
        },
    );
    env
}

fn full_expr_test(source: &str, output: &str, dependencies: &[&str]) {
    let expr = Expr::parse(source).unwrap();
    let mut ctx = ScriptContext::new();
    let env = make_env();
    ctx.eval(&env, &expr).unwrap();
    assert_eq!(ctx.flush_to_string(), output);
    let expected: BTreeSet<String> = dependencies.into_iter().map(|&dep| dep.to_owned()).collect();
    assert_eq!(ctx.dependency_list(), expected.into_iter().collect::<Vec<_>>());
}

#[test]
fn lib_eval_works() {
    full_expr_test("meow :3", "meow :3", &[]);
    full_expr_test("%(cc) -o meow meow.c", "gcc -o meow meow.c", &[]);
    full_expr_test(
        "%(rc_service) restart gardenhouse",
        "rc-service restart gardenhouse",
        &[],
    );
    full_expr_test(
        "%nhac",
        "wget bitey-girlfriend; poke -n 100 bitey-girlfriend",
        &["catnip", "binary(wget)", "binary(poke)"],
    );
}

fn token_test(source: &str, expected: &[Token]) {
    let toks = tokens(source);
    assert_eq!(toks.len(), expected.len());
    for (tok, exp) in toks.iter().zip(expected.iter()) {
        assert_eq!(tok, exp);
    }
}

fn plain(s: &str) -> Token {
    Token::Plain(s.to_owned())
}

#[test]
fn tokens_works() {
    token_test("have you valued your goose", &[plain("have you valued your goose")]);

    token_test("goose value:\n71", &[plain("goose value:"), Token::Newline, plain("71")]);

    token_test(
        "hello %(honorific), you have won 1 million euros",
        &[
            plain("hello "),
            Token::Definition("honorific".to_owned()),
            plain(", you have won 1 million euros"),
        ],
    );

    token_test(
        "%do_not_the contributor",
        &[Token::Action("do_not_the".to_owned()), plain(" contributor")],
    );

    token_test(
        "%watch jojo's bizarre adventure, part %(part)",
        &[
            Token::Action("watch".to_owned()),
            plain(" jojo's bizarre adventure, part "),
            Token::Definition("part".to_owned()),
        ],
    );

    token_test(
        "bjarne syrup is 100%% natural",
        &[plain("bjarne syrup is 100"), plain("%"), plain(" natural")],
    );

    token_test(
        "ikey plz fix this :plead: %break_continue %break_exit",
        &[
            plain("ikey plz fix this :plead: "),
            Token::Breakpoint { exit: false },
            plain(" "),
            Token::Breakpoint { exit: true },
        ],
    );

    token_test(
        "%(_compiler_cc) %(cc)",
        &[
            Token::Builtin("compiler_cc".to_owned()),
            plain(" "),
            Token::Definition("cc".to_owned()),
        ],
    );
}

#[test]
fn builtins_refused_on_bottom_frame() {
    let mut ctx = ScriptContext::new();
    let mut env = ScriptEnv::new();
    env.add_builtin_string("cc", "gcc");
    let expr = Expr::parse("%(_cc)").unwrap();
    assert!(matches!(
        ctx.eval(&env, &expr),
        Err(Error::Eval {
            source: EvalError::BuiltinsNotAllowed,
            ..
        })
    ));
    let mut ctx = ScriptContext::new().with_toplevel_builtins();
    assert_eq!(ctx.eval_to_string(&env, &expr).unwrap(), "gcc");
}

#[test]
fn undefined_names_are_reported() {
    let env = ScriptEnv::new();
    let mut ctx = ScriptContext::new();
    match ctx.eval(&env, &Expr::parse("%nothing").unwrap()) {
        Err(Error::Eval { source: EvalError::UndefinedAction { name }, trace }) => {
            assert_eq!(name, "nothing");
            assert_eq!(trace.frames, vec!["action \"nothing\"".to_owned()]);
        }
        _ => panic!("expected an undefined action"),
    }
    let mut ctx = ScriptContext::new().with_toplevel_builtins();
    assert!(matches!(
        ctx.eval(&env, &Expr::parse("%(_nothing)").unwrap()),
        Err(Error::Eval { source: EvalError::UndefinedBuiltin { .. }, .. })
    ));
}

#[test]
fn output_only_expression_is_one_command() {
    let mut ctx = ScriptContext::new();
    let env = ScriptEnv::new();
    ctx.eval(
        &env,
        &Expr::from_fragments(vec![Fragment::output_str("a"), Fragment::output_str("b")]),
    )
    .unwrap();
    assert_eq!(
        ctx.flush_commands(),
        vec![Command::Output {
            output: "ab".to_owned()
        }]
    );
    assert!(ctx.flush_commands().is_empty());
}

#[test]
fn escaped_percent_dumps_back() {
    let expr = Expr::parse("100%% natural").unwrap();
    let mut ctx = ScriptContext::new();
    assert_eq!(ctx.eval_to_string(&ScriptEnv::new(), &expr).unwrap(), "100% natural");
}

#[test]
fn concatenation_outputs_the_parts_in_turn() {
    let mut env = ScriptEnv::new();
    env.add_definition(
        "cc",
        Definition {
            doc: None,
            value: Expr::parse("gcc").unwrap(),
        },
    );
    let a = Expr::parse("make CC=%(cc)\n%break_continue\nfirst ").unwrap();
    let b = Expr::parse("second %(cc)").unwrap();
    let mut whole = ScriptContext::new();
    let joined = whole.eval_to_string(&env, &a.concat(&b)).unwrap();
    let mut parts = ScriptContext::new();
    parts.eval(&env, &a).unwrap();
    parts.eval(&env, &b).unwrap();
    assert_eq!(joined, parts.flush_to_string());
    assert_eq!(joined, "make CC=gcc\n\nfirst second gcc");
}
