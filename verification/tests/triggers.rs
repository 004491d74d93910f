use boulder::fnmatch::Pattern;
use boulder::triggers::collection::{extract_handlers, Trigger};
use boulder::triggers::PathDefinition;
use boulder::triggers::coalesce::Match;
use boulder::triggers::{parse_arg, replace, substitute, ArgKind, CompiledHandler, Error, Handler, VarMode};

fn m(path: &str, vars: &[(&str, &str)]) -> Match {
    Match {
        path: path.to_owned(),
        variables: vars.iter().map(|(k, v)| (k.to_string(), v.to_string())).collect(),
    }
}

fn run(run: &str, args: &[&str]) -> Handler {
    Handler::Run {
        run: run.to_owned(),
        args: args.iter().map(|a| a.to_string()).collect(),
    }
}

#[test]
fn replace_is_leftmost_and_not_overlapping() {
    assert_eq!(replace("aaa", "aa", "b"), "ba");
    assert_eq!(replace("x$(v)y$(v)", "$(v)", "1"), "x1y1");
    assert_eq!(replace("abc", "z", "q"), "abc");
}

#[test]
fn substitute_all_forms() {
    let vars = vec![("version".to_owned(), "6.6".to_owned())];
    assert_eq!(substitute("$(version) $(version:each) $(version:all)", &vars), "6.6 6.6 6.6");
    assert_eq!(substitute("$(other)", &vars), "$(other)");
}

#[test]
fn argument_kinds() {
    assert!(matches!(parse_arg("--x").unwrap(), ArgKind::Fixed(s) if s == "--x"));
    assert!(matches!(parse_arg("$(v)").unwrap(), ArgKind::Variable { mode: VarMode::Each, .. }));
    assert!(matches!(parse_arg("$(v:each)").unwrap(), ArgKind::Variable { mode: VarMode::Each, .. }));
    assert!(matches!(parse_arg("$(v:all)").unwrap(), ArgKind::Variable { mode: VarMode::All, .. }));
    assert_eq!(parse_arg("$(v:some)").unwrap_err(), Error::UnknownArgMode("some".to_owned()));
    assert!(matches!(parse_arg("$(v").unwrap(), ArgKind::Fixed(_)));
}

#[test]
fn handler_display() {
    assert_eq!(run("depmod", &["-a", "6.6"]).to_string(), "depmod -a 6.6");
    assert_eq!(
        Handler::Delete {
            delete: vec!["/a".to_owned(), "/b".to_owned()]
        }
        .to_string(),
        "rm -- /a /b"
    );
    let c = CompiledHandler(run("x", &[]));
    assert_eq!(c.handler(), &run("x", &[]));
}

#[test]
fn coalesce_each_dedups_and_sorts() {
    let h = run("depmod", &["-a", "$(version)"]);
    let ms = vec![
        m("/usr/lib/modules/6.6/a", &[("version", "6.6")]),
        m("/usr/lib/modules/6.6/b", &[("version", "6.6")]),
        m("/usr/lib/modules/6.7/a", &[("version", "6.7")]),
    ];
    let out = h.coalesced(&ms).unwrap();
    assert_eq!(
        out,
        vec![
            CompiledHandler(run("depmod", &["-a", "6.6"])),
            CompiledHandler(run("depmod", &["-a", "6.7"])),
        ]
    );
}

#[test]
fn coalesce_all_expands_inline_per_group() {
    let h = run("update", &["--kernel=$(version)", "$(file:all)"]);
    let ms = vec![
        m("/a", &[("file", "a"), ("version", "2")]),
        m("/a2", &[("file", "a"), ("version", "2")]),
        m("/b", &[("file", "b"), ("version", "1")]),
        m("/c", &[("file", "c"), ("version", "2")]),
    ];
    let out = h.coalesced(&ms).unwrap();
    assert_eq!(
        out,
        vec![
            CompiledHandler(run("update", &["--kernel=1", "b"])),
            CompiledHandler(run("update", &["--kernel=2", "a", "c"])),
        ]
    );
}

#[test]
fn coalesce_edge_cases() {
    let h = run("x", &["$(v)"]);
    assert_eq!(h.coalesced(&vec![]).unwrap(), vec![]);
    let bad = run("x", &["$(v:sometimes)"]);
    assert_eq!(
        bad.coalesced(&vec![m("/a", &[])]).unwrap_err(),
        Error::UnknownArgMode("sometimes".to_owned())
    );
    let d = Handler::Delete {
        delete: vec!["/tmp/x".to_owned()],
    };
    assert_eq!(d.coalesced(&vec![]).unwrap(), vec![CompiledHandler(d.clone())]);
    let fixed = run("ldconfig", &[]);
    let out = fixed.coalesced(&vec![m("/a", &[]), m("/b", &[])]).unwrap();
    assert_eq!(out, vec![CompiledHandler(run("ldconfig", &[]))]);
}

fn trigger(name: &str, paths: &[(&str, &[&str])], handlers: &[&str]) -> Trigger {
    Trigger {
        name: name.to_owned(),
        description: String::new(),
        before: None,
        after: None,
        inhibitors: None,
        paths: paths
            .iter()
            .map(|(p, hs)| {
                (
                    Pattern::new(p),
                    PathDefinition { handlers: hs.iter().map(|h| h.to_string()).collect(), kind: None },
                )
            })
            .collect(),
        handlers: handlers.iter().map(|h| (h.to_string(), run("true", &[]))).collect(),
    }
}

#[test]
fn collection_extracts_used_handlers() {
    let ts = vec![
        trigger("a", &[("/usr/lib/*", &["ldconfig"]), ("/usr/share/(x:*)", &["ldconfig", "cache"])], &["ldconfig", "cache"]),
        trigger("b", &[("/etc/*", &["reload"])], &["reload"]),
    ];
    let v = extract_handlers(&ts).unwrap();
    assert_eq!(
        v,
        vec![
            (0, 0, "ldconfig".to_owned()),
            (0, 1, "ldconfig".to_owned()),
            (0, 1, "cache".to_owned()),
            (1, 0, "reload".to_owned())
        ]
    );
    let ts = vec![trigger("a", &[("/x", &["ok"]), ("/y", &["nope", "also"])], &["ok"])];
    assert_eq!(
        extract_handlers(&ts),
        Err(Error::MissingHandler("a".to_owned(), "nope".to_owned()))
    );
}

#[test]
fn test_trigger_file() {
    let trigger = trigger("depmod", &[("/usr/lib/modules/(version:*)/kernel", &["depmod"])], &["depmod"]);
    let (pattern, _) = trigger.paths.iter().next().expect("Missing path entry");
    let result = pattern
        .matches("/usr/lib/modules/6.6.7-267.current/kernel")
        .expect("Couldn't match path");
    let version = result.get("version").expect("Missing kernel version");
    assert_eq!(version, "6.6.7-267.current", "Wrong kernel version match");
}
