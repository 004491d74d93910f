//! Coalescing the matches of a handler into as few runs as possible.

use vstd::prelude::*;
use crate::names::lex_lt;
use crate::triggers::order::{
    insert_key, key_same, key_view, keys_sorted, keys_view, lemma_sorted_keys_exist, lemma_sorted_len,
    lemma_sorted_unique, Key,
};
use crate::triggers::{
    parse_arg, spec_parse_arg, spec_substitute, substitute, vars_view, ArgKind, ArgKindView,
    CompiledHandler, Error, Handler, VarMode,
};

verus! {

/// A path that a trigger pattern matched, with the texts that its named wildcards
/// captured, in the order of their names.
#[derive(Debug, Clone, PartialEq, Eq)]
pub struct Match {
    pub path: String,
    pub variables: Vec<(String, String)>,
}

/// The variables of a match, as text.
pub type Vars = Seq<(Seq<char>, Seq<char>)>;

/// The order of two captured variables: by name, then by value.
pub open spec fn pair_lt(a: (Seq<char>, Seq<char>), b: (Seq<char>, Seq<char>)) -> bool {
    lex_lt(a.0, b.0) || (a.0 == b.0 && lex_lt(a.1, b.1))
}

/// The lexicographic order of two lists of captured variables.
pub open spec fn vars_lt(a: Vars, b: Vars) -> bool
    decreases a.len(),
{
    if a.len() == 0 {
        b.len() > 0
    } else if b.len() == 0 {
        false
    } else if a[0] != b[0] {
        pair_lt(a[0], b[0])
    } else {
        vars_lt(a.drop_first(), b.drop_first())
    }
}

/// The order of two matches: by path, then by their variables.
pub open spec fn match_lt(a: Match, b: Match) -> bool {
    lex_lt(a.path@, b.path@) || (a.path@ == b.path@ && vars_lt(
        vars_view(a.variables@),
        vars_view(b.variables@),
    ))
}

/// Whether matches are in increasing order, each once, as a set of matches keeps them.
pub open spec fn matches_ordered(ms: Seq<Match>) -> bool {
    forall|i: int, j: int| 0 <= i < j < ms.len() ==> match_lt(ms[i], ms[j])
}

/// The variables of each match.
pub open spec fn matches_vars(ms: Seq<Match>) -> Seq<Vars> {
    ms.map_values(|m: Match| vars_view(m.variables@))
}

/// The kinds of the arguments, or the first unknown variable mode.
pub open spec fn spec_parse_all(args: Seq<Seq<char>>) -> Result<Seq<ArgKindView>, Seq<char>>
    decreases args.len(),
{
    if args.len() == 0 {
        Ok(Seq::empty())
    } else {
        match spec_parse_all(args.drop_last()) {
            Err(m) => Err(m),
            Ok(ks) => match spec_parse_arg(args.last()) {
                Err(m) => Err(m),
                Ok(k) => Ok(ks.push(k)),
            },
        }
    }
}

/// Whether some argument expands once per match.
pub open spec fn has_each(kinds: Seq<ArgKindView>) -> bool {
    exists|k: int|
        0 <= k < kinds.len() && (#[trigger] kinds[k] matches ArgKindView::Variable {
            mode: VarMode::Each,
            ..
        })
}

/// The template of an argument.
pub open spec fn template_of(k: ArgKindView) -> Seq<char> {
    match k {
        ArgKindView::Fixed(t) => t,
        ArgKindView::Variable { template, .. } => template,
    }
}

/// Every argument substituted with the variables of one match.
pub open spec fn all_args(kinds: Seq<ArgKindView>, vars: Vars) -> Seq<Seq<char>> {
    kinds.map_values(|k: ArgKindView| spec_substitute(template_of(k), vars))
}

/// The fixed arguments, substituted with the variables of one match.
pub open spec fn fixed_args(kinds: Seq<ArgKindView>, vars: Vars) -> Seq<Seq<char>>
    decreases kinds.len(),
{
    if kinds.len() == 0 {
        Seq::empty()
    } else {
        let rest = fixed_args(kinds.drop_last(), vars);
        match kinds.last() {
            ArgKindView::Fixed(t) => rest.push(spec_substitute(t, vars)),
            _ => rest,
        }
    }
}

/// The variable arguments, substituted with the variables of one match.
pub open spec fn variable_args(kinds: Seq<ArgKindView>, vars: Vars) -> Seq<Seq<char>>
    decreases kinds.len(),
{
    if kinds.len() == 0 {
        Seq::empty()
    } else {
        let rest = variable_args(kinds.drop_last(), vars);
        match kinds.last() {
            ArgKindView::Variable { template, .. } => rest.push(spec_substitute(template, vars)),
            _ => rest,
        }
    }
}

/// The command line of one match, every argument substituted.
pub open spec fn each_key(run: Seq<char>, kinds: Seq<ArgKindView>, vars: Vars) -> Key {
    (spec_substitute(run, vars), all_args(kinds, vars))
}

/// The group of one match: its command and fixed arguments, substituted.
pub open spec fn group_key(run: Seq<char>, kinds: Seq<ArgKindView>, vars: Vars) -> Key {
    (spec_substitute(run, vars), fixed_args(kinds, vars))
}

/// The distinct keys of a set, in order.
pub open spec fn sorted_keys(s: Set<Key>) -> Seq<Key> {
    choose|q: Seq<Key>| keys_sorted(q) && q.to_set() == s
}

/// The variable arguments of the matches `mvs[i..]` of group `g`: those of each match
/// whose variables were not seen in the group before, in order.
pub open spec fn expand(
    run: Seq<char>,
    kinds: Seq<ArgKindView>,
    mvs: Seq<Vars>,
    g: Key,
    i: int,
    seen: Seq<Vars>,
) -> Seq<Seq<char>>
    decreases mvs.len() - i,
{
    if i < 0 || i >= mvs.len() {
        Seq::empty()
    } else if group_key(run, kinds, mvs[i]) == g && !seen.contains(mvs[i]) {
        variable_args(kinds, mvs[i]) + expand(run, kinds, mvs, g, i + 1, seen.push(mvs[i]))
    } else {
        expand(run, kinds, mvs, g, i + 1, seen)
    }
}

/// The command lines of a handler run for the given matches: with an argument that
/// expands per match, one per distinct command line, in order; else one per group of
/// matches with the same command and fixed arguments, in order, with the variable
/// arguments of each distinct set of variables of the group after the fixed ones.
pub open spec fn run_lines(run: Seq<char>, kinds: Seq<ArgKindView>, mvs: Seq<Vars>) -> Seq<Key> {
    if has_each(kinds) {
        sorted_keys(mvs.map_values(|v: Vars| each_key(run, kinds, v)).to_set())
    } else {
        let gs = sorted_keys(mvs.map_values(|v: Vars| group_key(run, kinds, v)).to_set());
        gs.map_values(|g: Key| (g.0, g.1 + expand(run, kinds, mvs, g, 0, Seq::empty())))
    }
}

/// The command line of a compiled run handler.
pub open spec fn run_key(c: CompiledHandler) -> Key {
    match c.0 {
        Handler::Run { run, args } => (run@, args@.map_values(|a: String| a@)),
        Handler::Delete { .. } => (Seq::empty(), Seq::empty()),
    }
}

proof fn lemma_to_set_push<A>(s: Seq<A>, x: A)
    ensures
        s.push(x).to_set() == s.to_set().insert(x),
{
    assert forall|y: A| s.push(x).to_set().contains(y) implies s.to_set().insert(x).contains(y) by {
        let k = choose|k: int| 0 <= k < s.push(x).len() && s.push(x)[k] == y;
        if k < s.len() {
            assert(s[k] == y);
        }
    }
    assert forall|y: A| s.to_set().insert(x).contains(y) implies s.push(x).to_set().contains(y) by {
        if y == x {
            assert(s.push(x)[s.len() as int] == y);
        } else {
            let k = choose|k: int| 0 <= k < s.len() && s[k] == y;
            assert(s.push(x)[k] == y);
        }
    }
    assert(s.push(x).to_set() =~= s.to_set().insert(x));
}

/// The template of an argument.
fn template(k: &ArgKind) -> (t: &String)
    ensures
        t@ == template_of(k@),
{
    match k {
        ArgKind::Fixed(t) => t,
        ArgKind::Variable { template, .. } => template,
    }
}

/// The kinds of a list of arguments.
fn parse_all(args: &Vec<String>) -> (r: Result<Vec<ArgKind>, Error>)
    ensures
        match spec_parse_all(args@.map_values(|a: String| a@)) {
            Ok(ks) => r matches Ok(v) && v@.map_values(|k: ArgKind| k@) == ks,
            Err(m) => r matches Err(Error::UnknownArgMode(x)) && x@ == m,
        },
{
    let ghost av = args@.map_values(|a: String| a@);
    let mut kinds: Vec<ArgKind> = Vec::new();
    let mut i: usize = 0;
    assert(av.take(0) =~= Seq::<Seq<char>>::empty());
    assert(kinds@.map_values(|k: ArgKind| k@) =~= Seq::<ArgKindView>::empty());
    while i < args.len()
        invariant
            i <= args@.len(),
            av == args@.map_values(|a: String| a@),
            spec_parse_all(av.take(i as int)) == Ok::<Seq<ArgKindView>, Seq<char>>(
                kinds@.map_values(|k: ArgKind| k@),
            ),
        decreases args@.len() - i,
    {
        assert(av.take(i + 1).drop_last() =~= av.take(i as int));
        assert(av.take(i + 1).last() == args@[i as int]@);
        match parse_arg(args[i].as_str()) {
            Ok(k) => {
                let ghost before = kinds@.map_values(|k: ArgKind| k@);
                kinds.push(k);
                assert(kinds@.map_values(|k: ArgKind| k@) =~= before.push(k@));
            },
            Err(e) => {
                proof {
                    lemma_parse_all_prefix_err(av, i + 1);
                }
                return Err(e);
            },
        }
        i += 1;
    }
    assert(av.take(i as int) =~= av);
    Ok(kinds)
}

/// An error in the first `n` arguments is the error of all of them.
proof fn lemma_parse_all_prefix_err(args: Seq<Seq<char>>, n: int)
    requires
        0 <= n <= args.len(),
        spec_parse_all(args.take(n)) is Err,
    ensures
        spec_parse_all(args) == spec_parse_all(args.take(n)),
    decreases args.len() - n,
{
    if n < args.len() {
        assert(args.take(n + 1).drop_last() =~= args.take(n));
        lemma_parse_all_prefix_err(args, n + 1);
    } else {
        assert(args.take(n) =~= args);
    }
}

/// Whether some argument expands once per match.
fn any_each(kinds: &Vec<ArgKind>) -> (b: bool)
    ensures
        b == has_each(kinds@.map_values(|k: ArgKind| k@)),
{
    let ghost kv = kinds@.map_values(|k: ArgKind| k@);
    let mut i: usize = 0;
    while i < kinds.len()
        invariant
            i <= kinds@.len(),
            kv == kinds@.map_values(|k: ArgKind| k@),
            forall|j: int| 0 <= j < i ==> !(#[trigger] kv[j] matches ArgKindView::Variable {
                mode: VarMode::Each,
                ..
            }),
        decreases kinds@.len() - i,
    {
        assert(kv[i as int] == kinds@[i as int]@);
        match &kinds[i] {
            ArgKind::Variable { mode: VarMode::Each, .. } => {
                return true;
            },
            _ => {},
        }
        i += 1;
    }
    false
}

/// The command line of one match, every argument substituted.
fn each_key_of(run: &String, kinds: &Vec<ArgKind>, vars: &Vec<(String, String)>) -> (k: (
    String,
    Vec<String>,
))
    ensures
        key_view(k) == each_key(run@, kinds@.map_values(|k: ArgKind| k@), vars_view(vars@)),
{
    let ghost kv = kinds@.map_values(|k: ArgKind| k@);
    let ghost vv = vars_view(vars@);
    let mut args: Vec<String> = Vec::new();
    let mut i: usize = 0;
    while i < kinds.len()
        invariant
            i <= kinds@.len(),
            kv == kinds@.map_values(|k: ArgKind| k@),
            vv == vars_view(vars@),
            args@.map_values(|a: String| a@) == all_args(kv.take(i as int), vv),
        decreases kinds@.len() - i,
    {
        let ghost before = args@.map_values(|a: String| a@);
        assert(kv[i as int] == kinds@[i as int]@);
        let a = substitute(template(&kinds[i]).as_str(), vars);
        args.push(a);
        assert(args@.map_values(|a: String| a@) =~= before.push(a@));
        assert(kv.take(i + 1) =~= kv.take(i as int).push(kv[i as int]));
        assert(all_args(kv.take(i + 1), vv) =~= all_args(kv.take(i as int), vv).push(
            spec_substitute(template_of(kv[i as int]), vv),
        ));
        i += 1;
    }
    assert(kv.take(i as int) =~= kv);
    (substitute(run.as_str(), vars), args)
}

/// The group of one match, and its variable arguments.
fn group_of(run: &String, kinds: &Vec<ArgKind>, vars: &Vec<(String, String)>) -> (r: (
    (String, Vec<String>),
    Vec<String>,
))
    ensures
        key_view(r.0) == group_key(run@, kinds@.map_values(|k: ArgKind| k@), vars_view(vars@)),
        r.1@.map_values(|a: String| a@) == variable_args(
            kinds@.map_values(|k: ArgKind| k@),
            vars_view(vars@),
        ),
{
    let ghost kv = kinds@.map_values(|k: ArgKind| k@);
    let ghost vv = vars_view(vars@);
    let mut fixed: Vec<String> = Vec::new();
    let mut var: Vec<String> = Vec::new();
    let mut i: usize = 0;
    assert(kv.take(0) =~= Seq::<ArgKindView>::empty());
    assert(fixed@.map_values(|a: String| a@) =~= Seq::<Seq<char>>::empty());
    assert(var@.map_values(|a: String| a@) =~= Seq::<Seq<char>>::empty());
    while i < kinds.len()
        invariant
            i <= kinds@.len(),
            kv == kinds@.map_values(|k: ArgKind| k@),
            vv == vars_view(vars@),
            fixed@.map_values(|a: String| a@) == fixed_args(kv.take(i as int), vv),
            var@.map_values(|a: String| a@) == variable_args(kv.take(i as int), vv),
        decreases kinds@.len() - i,
    {
        assert(kv[i as int] == kinds@[i as int]@);
        assert(kv.take(i + 1).drop_last() =~= kv.take(i as int));
        assert(kv.take(i + 1).last() == kv[i as int]);
        match &kinds[i] {
            ArgKind::Fixed(t) => {
                let ghost before = fixed@.map_values(|a: String| a@);
                fixed.push(substitute(t.as_str(), vars));
                assert(fixed@.map_values(|a: String| a@) =~= before.push(
                    spec_substitute(t@, vv),
                ));
            },
            ArgKind::Variable { template, .. } => {
                let ghost before = var@.map_values(|a: String| a@);
                var.push(substitute(template.as_str(), vars));
                assert(var@.map_values(|a: String| a@) =~= before.push(
                    spec_substitute(template@, vv),
                ));
            },
        }
        i += 1;
    }
    assert(kv.take(i as int) =~= kv);
    ((substitute(run.as_str(), vars), fixed), var)
}

/// Whether two sets of variables are the same.
fn vars_same(a: &Vec<(String, String)>, b: &Vec<(String, String)>) -> (r: bool)
    ensures
        r == (vars_view(a@) == vars_view(b@)),
{
    let ghost av = vars_view(a@);
    let ghost bv = vars_view(b@);
    if a.len() != b.len() {
        return false;
    }
    let mut i: usize = 0;
    while i < a.len()
        invariant
            av == vars_view(a@),
            bv == vars_view(b@),
            a@.len() == b@.len(),
            i <= a@.len(),
            av.take(i as int) == bv.take(i as int),
        decreases a@.len() - i,
    {
        if !crate::text::str_eq(a[i].0.as_str(), b[i].0.as_str()) || !crate::text::str_eq(
            a[i].1.as_str(),
            b[i].1.as_str(),
        ) {
            assert(av[i as int] != bv[i as int]);
            return false;
        }
        assert(av.take(i + 1) =~= av.take(i as int).push(av[i as int]));
        assert(bv.take(i + 1) =~= bv.take(i as int).push(bv[i as int]));
        i += 1;
    }
    assert(av.take(i as int) =~= av);
    assert(bv.take(i as int) =~= bv);
    true
}

/// Whether `v` is among the `seen` sets of variables.
fn seen_contains(seen: &Vec<Vec<(String, String)>>, v: &Vec<(String, String)>) -> (r: bool)
    ensures
        r == seen@.map_values(|s: Vec<(String, String)>| vars_view(s@)).contains(vars_view(v@)),
{
    let ghost sv = seen@.map_values(|s: Vec<(String, String)>| vars_view(s@));
    let mut i: usize = 0;
    while i < seen.len()
        invariant
            i <= seen@.len(),
            sv == seen@.map_values(|s: Vec<(String, String)>| vars_view(s@)),
            forall|j: int| 0 <= j < i ==> sv[j] != vars_view(v@),
        decreases seen@.len() - i,
    {
        if vars_same(&seen[i], v) {
            assert(sv[i as int] == vars_view(v@));
            return true;
        }
        i += 1;
    }
    false
}

/// A copy of a set of variables.
fn copy_vars(v: &Vec<(String, String)>) -> (r: Vec<(String, String)>)
    ensures
        vars_view(r@) == vars_view(v@),
{
    let mut r: Vec<(String, String)> = Vec::new();
    let mut i: usize = 0;
    while i < v.len()
        invariant
            i <= v@.len(),
            vars_view(r@) == vars_view(v@).take(i as int),
        decreases v@.len() - i,
    {
        let ghost before = vars_view(r@);
        let p = (v[i].0.clone(), v[i].1.clone());
        r.push(p);
        assert(vars_view(r@) =~= before.push((p.0@, p.1@)));
        assert(vars_view(v@).take(i + 1) =~= vars_view(v@).take(i as int).push(vars_view(v@)[i as int]));
        i += 1;
    }
    assert(vars_view(v@).take(i as int) =~= vars_view(v@));
    r
}

/// A copy of a list of arguments.
fn copy_args(v: &Vec<String>) -> (r: Vec<String>)
    ensures
        r@.map_values(|a: String| a@) == v@.map_values(|a: String| a@),
{
    let mut r: Vec<String> = Vec::new();
    let mut i: usize = 0;
    while i < v.len()
        invariant
            i <= v@.len(),
            r@.map_values(|a: String| a@) == v@.map_values(|a: String| a@).take(i as int),
        decreases v@.len() - i,
    {
        let ghost before = r@.map_values(|a: String| a@);
        let c = v[i].clone();
        r.push(c);
        assert(r@.map_values(|a: String| a@) =~= before.push(c@));
        assert(v@.map_values(|a: String| a@).take(i + 1) =~= v@.map_values(|a: String| a@).take(
            i as int,
        ).push(v@[i as int]@));
        i += 1;
    }
    assert(v@.map_values(|a: String| a@).take(i as int) =~= v@.map_values(|a: String| a@));
    r
}

impl Handler {
    /// Coalesces the matches of this handler, given in increasing order and each once, as
    /// a set of matches holds them, into as few runs as possible.
    ///
    /// * `$(var)` / `$(var:each)` - one run per distinct command line
    /// * `$(var:all)` - a single run with every match's value expanded inline
    ///
    /// Fixed arguments are substituted with the variables of the matches too, and
    /// group the matches when they refer to variables: `--version=$(version)` makes
    /// one run per distinct version. A delete handler runs once, whatever matched.
    pub fn coalesced(&self, matches: &Vec<Match>) -> (r: Result<Vec<CompiledHandler>, Error>)
        requires
            matches_ordered(matches@),
        ensures
            match *self {
                Handler::Delete { delete } => r matches Ok(v) && v@.len() == 1 && (v@[0].0 matches Handler::Delete { delete: d } && d@.map_values(|a: String| a@)
                    == delete@.map_values(|a: String| a@)),
                Handler::Run { run, args } => if matches@.len() == 0 {
                    r matches Ok(v) && v@.len() == 0
                } else {
                    match spec_parse_all(args@.map_values(|a: String| a@)) {
                        Err(m) => r matches Err(Error::UnknownArgMode(x)) && x@ == m,
                        Ok(kinds) => r matches Ok(v) && (forall|i: int|
                            0 <= i < v@.len() ==> #[trigger] v@[i].0 is Run) && v@.map_values(
                            |c: CompiledHandler| run_key(c),
                        ) == run_lines(run@, kinds, matches_vars(matches@)),
                    }
                },
            },
    {
        let (run, args) = match self {
            Handler::Delete { delete } => {
                let d = copy_args(delete);
                return Ok(vec![CompiledHandler(Handler::Delete { delete: d })]);
            },
            Handler::Run { run, args } => (run, args),
        };
        if matches.len() == 0 {
            return Ok(Vec::new());
        }
        let kinds = match parse_all(args) {
            Ok(k) => k,
            Err(e) => return Err(e),
        };
        let ghost kv = kinds@.map_values(|k: ArgKind| k@);
        let ghost mvs = matches_vars(matches@);
        if any_each(&kinds) {
            let ghost all = mvs.map_values(|v: Vars| each_key(run@, kv, v));
            let mut keys: Vec<(String, Vec<String>)> = Vec::new();
            let mut i: usize = 0;
            proof {
                assert(all.take(0) =~= Seq::<Key>::empty());
                assert(keys_view(keys@) =~= Seq::<Key>::empty());
                assert(keys_view(keys@).to_set() =~= all.take(0).to_set());
            }
            while i < matches.len()
                invariant
                    i <= matches@.len(),
                    kv == kinds@.map_values(|k: ArgKind| k@),
                    mvs == matches_vars(matches@),
                    all == mvs.map_values(|v: Vars| each_key(run@, kv, v)),
                    keys_sorted(keys_view(keys@)),
                    keys_view(keys@).to_set() == all.take(i as int).to_set(),
                decreases matches@.len() - i,
            {
                let k = each_key_of(run, &kinds, &matches[i].variables);
                insert_key(&mut keys, k);
                proof {
                    assert(all.take(i + 1) =~= all.take(i as int).push(all[i as int]));
                    lemma_to_set_push(all.take(i as int), all[i as int]);
                }
                i += 1;
            }
            proof {
                assert(all.take(i as int) =~= all);
                let q = run_lines(run@, kv, mvs);
                assert(keys_sorted(keys_view(keys@)) && keys_view(keys@).to_set() == all.to_set());
                assert(keys_sorted(q) && q.to_set() == all.to_set());
                lemma_sorted_unique(keys_view(keys@), q);
            }
            let mut out: Vec<CompiledHandler> = Vec::new();
            let mut j: usize = 0;
            while j < keys.len()
                invariant
                    j <= keys@.len(),
                    out@.map_values(|c: CompiledHandler| run_key(c)) == keys_view(keys@).take(
                        j as int,
                    ),
                    forall|t: int| 0 <= t < out@.len() ==> #[trigger] out@[t].0 is Run,
                decreases keys@.len() - j,
            {
                let ghost before = out@.map_values(|c: CompiledHandler| run_key(c));
                let c = CompiledHandler(
                    Handler::Run { run: keys[j].0.clone(), args: copy_args(&keys[j].1) },
                );
                assert(run_key(c) == key_view(keys@[j as int]));
                out.push(c);
                assert(out@.map_values(|c: CompiledHandler| run_key(c)) =~= before.push(run_key(c)));
                assert(keys_view(keys@).take(j + 1) =~= keys_view(keys@).take(j as int).push(
                    key_view(keys@[j as int]),
                ));
                j += 1;
            }
            assert(keys_view(keys@).take(j as int) =~= keys_view(keys@));
            return Ok(out);
        }
        let ghost gall = mvs.map_values(|v: Vars| group_key(run@, kv, v));
        let mut gkeys: Vec<(String, Vec<String>)> = Vec::new();
        let mut vargs: Vec<Vec<String>> = Vec::new();
        let mut groups: Vec<(String, Vec<String>)> = Vec::new();
        let mut i: usize = 0;
        proof {
            assert(gall.take(0) =~= Seq::<Key>::empty());
            assert(keys_view(groups@) =~= Seq::<Key>::empty());
            assert(keys_view(groups@).to_set() =~= gall.take(0).to_set());
        }
        while i < matches.len()
            invariant
                i <= matches@.len(),
                kv == kinds@.map_values(|k: ArgKind| k@),
                mvs == matches_vars(matches@),
                gall == mvs.map_values(|v: Vars| group_key(run@, kv, v)),
                gkeys@.len() == i,
                vargs@.len() == i,
                forall|t: int| 0 <= t < i ==> key_view(#[trigger] gkeys@[t]) == gall[t],
                forall|t: int|
                    0 <= t < i ==> (#[trigger] vargs@[t])@.map_values(|a: String| a@)
                        == variable_args(kv, mvs[t]),
                keys_sorted(keys_view(groups@)),
                keys_view(groups@).to_set() == gall.take(i as int).to_set(),
            decreases matches@.len() - i,
        {
            let (g, va) = group_of(run, &kinds, &matches[i].variables);
            let g2 = (g.0.clone(), copy_args(&g.1));
            gkeys.push(g);
            vargs.push(va);
            insert_key(&mut groups, g2);
            proof {
                assert(gall.take(i + 1) =~= gall.take(i as int).push(gall[i as int]));
                lemma_to_set_push(gall.take(i as int), gall[i as int]);
            }
            i += 1;
        }
        let ghost gs = run_lines(run@, kv, mvs);
        proof {
            assert(gall.take(i as int) =~= gall);
            let q = sorted_keys(gall.to_set());
            assert(keys_sorted(keys_view(groups@)) && keys_view(groups@).to_set() == gall.to_set());
            assert(keys_sorted(q) && q.to_set() == gall.to_set());
            lemma_sorted_unique(keys_view(groups@), q);
        }
        let mut out: Vec<CompiledHandler> = Vec::new();
        let mut j: usize = 0;
        while j < groups.len()
            invariant
                j <= groups@.len(),
                kv == kinds@.map_values(|k: ArgKind| k@),
                mvs == matches_vars(matches@),
                gall == mvs.map_values(|v: Vars| group_key(run@, kv, v)),
                gkeys@.len() == matches@.len(),
                vargs@.len() == matches@.len(),
                forall|t: int| 0 <= t < matches@.len() ==> key_view(#[trigger] gkeys@[t]) == gall[t],
                forall|t: int|
                    0 <= t < matches@.len() ==> (#[trigger] vargs@[t])@.map_values(|a: String| a@)
                        == variable_args(kv, mvs[t]),
                keys_view(groups@) == sorted_keys(gall.to_set()),
                out@.map_values(|c: CompiledHandler| run_key(c)) == keys_view(groups@).take(
                    j as int,
                ).map_values(|g: Key| (g.0, g.1 + expand(run@, kv, mvs, g, 0, Seq::empty()))),
                forall|t: int| 0 <= t < out@.len() ==> #[trigger] out@[t].0 is Run,
            decreases groups@.len() - j,
        {
            let ghost g = key_view(groups@[j as int]);
            let mut final_args = copy_args(&groups[j].1);
            let mut seen: Vec<Vec<(String, String)>> = Vec::new();
            let mut m: usize = 0;
            proof {
                assert(seen@.map_values(|s: Vec<(String, String)>| vars_view(s@)) =~= Seq::<
                    Vars,
                >::empty());
            }
            while m < matches.len()
                invariant
                    m <= matches@.len(),
                    mvs == matches_vars(matches@),
                    gall == mvs.map_values(|v: Vars| group_key(run@, kv, v)),
                    gkeys@.len() == matches@.len(),
                    vargs@.len() == matches@.len(),
                    forall|t: int| 0 <= t < matches@.len() ==> key_view(#[trigger] gkeys@[t]) == gall[t],
                    forall|t: int|
                        0 <= t < matches@.len() ==> (#[trigger] vargs@[t])@.map_values(
                            |a: String| a@,
                        ) == variable_args(kv, mvs[t]),
                    g == key_view(groups@[j as int]),
                    j < groups@.len(),
                    g.1 + expand(run@, kv, mvs, g, 0, Seq::empty()) == final_args@.map_values(
                        |a: String| a@,
                    ) + expand(
                        run@,
                        kv,
                        mvs,
                        g,
                        m as int,
                        seen@.map_values(|s: Vec<(String, String)>| vars_view(s@)),
                    ),
                decreases matches@.len() - m,
            {
                let ghost sv = seen@.map_values(|s: Vec<(String, String)>| vars_view(s@));
                assert(mvs[m as int] == vars_view(matches@[m as int].variables@));
                assert(gall[m as int] == group_key(run@, kv, mvs[m as int]));
                if key_same(&gkeys[m], &groups[j]) && !seen_contains(&seen, &matches[m].variables) {
                    seen.push(copy_vars(&matches[m].variables));
                    assert(seen@.map_values(|s: Vec<(String, String)>| vars_view(s@)) =~= sv.push(
                        mvs[m as int],
                    ));
                    let ghost before = final_args@.map_values(|a: String| a@);
                    let mut t: usize = 0;
                    while t < vargs[m].len()
                        invariant
                            m < vargs@.len(),
                            t <= vargs@[m as int]@.len(),
                            final_args@.map_values(|a: String| a@) == before + vargs@[m as int]@.map_values(
                                |a: String| a@,
                            ).take(t as int),
                        decreases vargs@[m as int]@.len() - t,
                    {
                        let ghost prev = final_args@.map_values(|a: String| a@);
                        let c = vargs[m][t].clone();
                        final_args.push(c);
                        assert(final_args@.map_values(|a: String| a@) =~= prev.push(c@));
                        assert(vargs@[m as int]@.map_values(|a: String| a@).take(t + 1) =~= vargs@[m as int]@.map_values(
                            |a: String| a@,
                        ).take(t as int).push(vargs@[m as int]@[t as int]@));
                        t += 1;
                    }
                    assert(vargs@[m as int]@.map_values(|a: String| a@).take(t as int) =~= vargs@[m as int]@.map_values(
                        |a: String| a@,
                    ));
                    assert(before + variable_args(kv, mvs[m as int]) + expand(
                        run@,
                        kv,
                        mvs,
                        g,
                        m + 1,
                        sv.push(mvs[m as int]),
                    ) =~= before + (variable_args(kv, mvs[m as int]) + expand(
                        run@,
                        kv,
                        mvs,
                        g,
                        m + 1,
                        sv.push(mvs[m as int]),
                    )));
                }
                m += 1;
            }
            let ghost before = out@.map_values(|c: CompiledHandler| run_key(c));
            let ghost fa = final_args@.map_values(|a: String| a@);
            let c = CompiledHandler(Handler::Run { run: groups[j].0.clone(), args: final_args });
            assert(run_key(c) == (g.0, fa));
            out.push(c);
            assert(out@.map_values(|c: CompiledHandler| run_key(c)) =~= before.push(run_key(c)));
            proof {
                assert(expand(
                    run@,
                    kv,
                    mvs,
                    g,
                    m as int,
                    seen@.map_values(|s: Vec<(String, String)>| vars_view(s@)),
                ) =~= Seq::<Seq<char>>::empty());
                assert(keys_view(groups@).take(j + 1) =~= keys_view(groups@).take(j as int).push(g));
                assert(out@.map_values(|c: CompiledHandler| run_key(c)) =~= keys_view(groups@).take(
                    j + 1,
                ).map_values(|g: Key| (g.0, g.1 + expand(run@, kv, mvs, g, 0, Seq::empty()))));
            }
            j += 1;
        }
        assert(keys_view(groups@).take(j as int) =~= keys_view(groups@));
        Ok(out)
    }
}

/// The distinct keys of a sequence, in order: sorted, each key of the sequence once, and
/// no more of them than the sequence has.
pub proof fn lemma_sorted_keys(q: Seq<Key>)
    ensures
        keys_sorted(sorted_keys(q.to_set())),
        sorted_keys(q.to_set()).to_set() == q.to_set(),
        sorted_keys(q.to_set()).len() <= q.len(),
{
    lemma_sorted_keys_exist(q);
    lemma_sorted_len(sorted_keys(q.to_set()), q);
}

/// A run handler makes its command lines each once, in increasing order, and no more of
/// them than there are matches: with an argument that expands per match, the distinct
/// command lines of the matches; else one per group of matches with the same command and
/// fixed arguments, in increasing order of the groups, each line starting with the
/// command and the fixed arguments of its group.
pub proof fn law_run_lines(run: Seq<char>, kinds: Seq<ArgKindView>, mvs: Seq<Vars>)
    ensures
        run_lines(run, kinds, mvs).len() <= mvs.len(),
        has_each(kinds) ==> keys_sorted(run_lines(run, kinds, mvs)) && run_lines(run, kinds, mvs).to_set()
            == mvs.map_values(|v: Vars| each_key(run, kinds, v)).to_set(),
        !has_each(kinds) ==> ({
            let gs = sorted_keys(mvs.map_values(|v: Vars| group_key(run, kinds, v)).to_set());
            &&& keys_sorted(gs)
            &&& gs.to_set() == mvs.map_values(|v: Vars| group_key(run, kinds, v)).to_set()
            &&& run_lines(run, kinds, mvs).len() == gs.len()
            &&& forall|i: int|
                0 <= i < gs.len() ==> (#[trigger] run_lines(run, kinds, mvs)[i]).0 == gs[i].0
                    && run_lines(run, kinds, mvs)[i].1.take(gs[i].1.len() as int) == gs[i].1
        }),
{
    if has_each(kinds) {
        lemma_sorted_keys(mvs.map_values(|v: Vars| each_key(run, kinds, v)));
    } else {
        let q = mvs.map_values(|v: Vars| group_key(run, kinds, v));
        lemma_sorted_keys(q);
        let gs = sorted_keys(q.to_set());
        let lines = run_lines(run, kinds, mvs);
        assert forall|i: int| 0 <= i < gs.len() implies (#[trigger] lines[i]).0 == gs[i].0
            && lines[i].1.take(gs[i].1.len() as int) == gs[i].1 by {
            let e = expand(run, kinds, mvs, gs[i], 0, Seq::empty());
            assert(lines[i] == (gs[i].0, gs[i].1 + e));
            assert((gs[i].1 + e).take(gs[i].1.len() as int) =~= gs[i].1);
        }
    }
}

} // verus!
