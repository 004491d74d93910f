//! System triggers: handlers that run for the paths that a transaction touched.

pub mod order;
pub mod coalesce;
pub mod collection;

use vstd::prelude::*;
use crate::text::{chars_of, string_of_range};

verus! {

/// Filter matched paths to a specific kind.
#[derive(Debug, Clone, Copy, PartialEq, Eq, Structural)]
pub enum PathKind {
    Directory,
    Symlink,
}

/// Inhibitors prevent handlers from running based on some constraints.
#[derive(Debug, Clone)]
pub struct Inhibitors {
    pub paths: Vec<String>,
    pub environment: Vec<String>,
}

/// Map handlers to a path pattern and kind filter.
#[derive(Debug, Clone)]
pub struct PathDefinition {
    pub handlers: Vec<String>,
    pub kind: Option<PathKind>,
}

/// Execution handlers for a trigger.
///
/// `run` arguments support variable expansion with explicit modes:
///
/// * `$(var)` / `$(var:each)` - one invocation per match value
/// * `$(var:all)` - a single invocation with every match's value expanded inline
///
/// Bare `$(var)` arguments default to the per-match mode.
#[derive(Debug, Clone, PartialEq, Eq, PartialOrd, Ord)]
pub enum Handler {
    Run { run: String, args: Vec<String> },
    Delete { delete: Vec<String> },
}

/// The text of a handler: its command, then each argument after a space.
pub open spec fn handler_text(h: Handler) -> Seq<char> {
    match h {
        Handler::Run { run, args } => run@ + args_text(args@.map_values(|a: String| a@)),
        Handler::Delete { delete } => "rm --"@ + args_text(delete@.map_values(|a: String| a@)),
    }
}

/// Each argument after a space.
pub open spec fn args_text(args: Seq<Seq<char>>) -> Seq<char>
    decreases args.len(),
{
    if args.len() == 0 {
        Seq::empty()
    } else {
        args_text(args.drop_last()) + seq![' '] + args.last()
    }
}

impl Handler {
    /// The command line of this handler, as it is displayed (without shell quoting).
    pub fn to_string(&self) -> (s: String)
        ensures
            s@ == handler_text(*self),
    {
        let mut s = String::new();
        let args = match self {
            Handler::Run { run, args } => {
                s.push_str(run.as_str());
                args
            },
            Handler::Delete { delete } => {
                s.push_str("rm --");
                delete
            },
        };
        let ghost start = s@;
        let ghost av = args@.map_values(|a: String| a@);
        let mut i: usize = 0;
        assert(av.take(0) =~= Seq::<Seq<char>>::empty());
        while i < args.len()
            invariant
                i <= args@.len(),
                av == args@.map_values(|a: String| a@),
                s@ == start + args_text(av.take(i as int)),
            decreases args@.len() - i,
        {
            s.push(' ');
            s.push_str(args[i].as_str());
            assert(av.take(i + 1).drop_last() =~= av.take(i as int));
            assert(s@ =~= start + args_text(av.take(i + 1)));
            i += 1;
        }
        assert(av.take(i as int) =~= av);
        s
    }
}

/// A handler ready to run: its variables substituted.
#[derive(Debug, Clone, PartialEq, Eq, PartialOrd, Ord)]
pub struct CompiledHandler(pub Handler);

impl CompiledHandler {
    /// The handler.
    pub fn handler(&self) -> (h: &Handler)
        ensures
            *h == self.0,
    {
        &self.0
    }
}

/// Errors of trigger handling.
#[derive(Debug, Clone, PartialEq, Eq)]
pub enum Error {
    /// A trigger names a handler that it does not define: the trigger and the handler.
    MissingHandler(String, String),
    /// An argument names a variable mode other than `each` and `all`.
    UnknownArgMode(String),
}

/// The message of an error.
pub open spec fn error_message(e: Error) -> Seq<char> {
    match e {
        Error::MissingHandler(t, h) => "missing handler reference in "@ + t@ + ": "@ + h@,
        Error::UnknownArgMode(mode) => "unknown argument variable mode "@ + mode@ + " (expected 'each' or 'all')"@,
    }
}

impl Error {
    /// The message of this error.
    pub fn to_string(&self) -> (m: String)
        ensures
            m@ == error_message(*self),
    {
        let mut m = String::new();
        match self {
            Error::MissingHandler(t, h) => {
                m.push_str("missing handler reference in ");
                m.push_str(t.as_str());
                m.push_str(": ");
                m.push_str(h.as_str());
            },
            Error::UnknownArgMode(mode) => {
                m.push_str("unknown argument variable mode ");
                m.push_str(mode.as_str());
                m.push_str(" (expected 'each' or 'all')");
            },
        }
        assert(m@ =~= error_message(*self));
        m
    }
}

/// `s` with every occurrence of `pat`, leftmost first and not overlapping, replaced by
/// `rep`, as `str::replace` does for a non-empty pattern.
pub open spec fn replace_all(s: Seq<char>, pat: Seq<char>, rep: Seq<char>) -> Seq<char>
    decreases s.len(),
{
    if pat.len() == 0 || s.len() < pat.len() {
        s
    } else if s.subrange(0, pat.len() as int) == pat {
        rep + replace_all(s.subrange(pat.len() as int, s.len() as int), pat, rep)
    } else {
        seq![s[0]] + replace_all(s.drop_first(), pat, rep)
    }
}

/// Replaces every occurrence of `pat` in `s` by `rep`.
pub fn replace(s: &str, pat: &str, rep: &str) -> (r: String)
    requires
        pat@.len() > 0,
    ensures
        r@ == replace_all(s@, pat@, rep@),
{
    let cs = chars_of(s);
    let ps = chars_of(pat);
    let mut out = String::new();
    let mut i: usize = 0;
    assert(cs@.subrange(0, cs@.len() as int) =~= cs@);
    while i < cs.len()
        invariant
            i <= cs@.len(),
            cs@ == s@,
            ps@ == pat@,
            ps@.len() > 0,
            out@ + replace_all(cs@.subrange(i as int, cs@.len() as int), pat@, rep@) == replace_all(
                s@,
                pat@,
                rep@,
            ),
        decreases cs@.len() - i,
    {
        let ghost rest = cs@.subrange(i as int, cs@.len() as int);
        let n = cs.len();
        let at = n - i >= ps.len() && crate::text::range_equals(&cs, i, i + ps.len(), &ps);
        if at {
            assert(rest.subrange(0, pat@.len() as int) =~= cs@.subrange(i as int, i + ps@.len()));
            assert(rest.subrange(pat@.len() as int, rest.len() as int) =~= cs@.subrange(
                i + ps@.len(),
                cs@.len() as int,
            ));
            out.push_str(rep);
            i = i + ps.len();
        } else {
            proof {
                if rest.len() >= pat@.len() {
                    assert(rest.subrange(0, pat@.len() as int) =~= cs@.subrange(
                        i as int,
                        i + ps@.len(),
                    ));
                }
            }
            assert(rest.drop_first() =~= cs@.subrange(i + 1, cs@.len() as int));
            out.push(cs[i]);
            i = i + 1;
        }
    }
    assert(cs@.subrange(i as int, cs@.len() as int) =~= Seq::<char>::empty());
    out
}

/// `$(key)`, `$(key:each)` and `$(key:all)` replaced by `value` in `t`, in this order.
pub open spec fn substitute_one(t: Seq<char>, key: Seq<char>, value: Seq<char>) -> Seq<char> {
    let a = replace_all(t, "$("@ + key + ")"@, value);
    let b = replace_all(a, "$("@ + key + ":each)"@, value);
    replace_all(b, "$("@ + key + ":all)"@, value)
}

/// Every variable substituted in `t`, one after the other in the given order.
pub open spec fn spec_substitute(t: Seq<char>, vars: Seq<(Seq<char>, Seq<char>)>) -> Seq<char>
    decreases vars.len(),
{
    if vars.len() == 0 {
        t
    } else {
        substitute_one(spec_substitute(t, vars.drop_last()), vars.last().0, vars.last().1)
    }
}

/// The view of the variables of a match.
pub open spec fn vars_view(vars: Seq<(String, String)>) -> Seq<(Seq<char>, Seq<char>)> {
    vars.map_values(|p: (String, String)| (p.0@, p.1@))
}

/// A `$(` before `key` and `suffix` after it.
fn reference(key: &str, suffix: &str) -> (r: String)
    ensures
        r@ == "$("@ + key@ + suffix@,
{
    let mut r = "$(".to_owned();
    r.push_str(key);
    r.push_str(suffix);
    r
}

/// Substitutes every `$(var)`, `$(var:each)` and `$(var:all)` reference in `template`,
/// taking the variables in the given order.
pub fn substitute(template: &str, variables: &Vec<(String, String)>) -> (r: String)
    ensures
        r@ == spec_substitute(template@, vars_view(variables@)),
{
    let ghost vv = vars_view(variables@);
    let mut result = template.to_owned();
    let mut i: usize = 0;
    assert(vv.take(0) =~= Seq::<(Seq<char>, Seq<char>)>::empty());
    while i < variables.len()
        invariant
            i <= variables@.len(),
            vv == vars_view(variables@),
            result@ == spec_substitute(template@, vv.take(i as int)),
        decreases variables@.len() - i,
    {
        let key = variables[i].0.as_str();
        let value = variables[i].1.as_str();
        proof {
            reveal_strlit("$(");
            reveal_strlit(")");
            reveal_strlit(":each)");
            reveal_strlit(":all)");
        }
        let p1 = reference(key, ")");
        let p2 = reference(key, ":each)");
        let p3 = reference(key, ":all)");
        result = replace(result.as_str(), p1.as_str(), value);
        result = replace(result.as_str(), p2.as_str(), value);
        result = replace(result.as_str(), p3.as_str(), value);
        assert(vv.take(i + 1).drop_last() =~= vv.take(i as int));
        assert(vv.take(i + 1).last() == (key@, value@));
        i += 1;
    }
    assert(vv.take(i as int) =~= vv);
    result
}

/// Expansion mode of a variable argument.
#[derive(Debug, Clone, Copy, PartialEq, Eq, Structural)]
pub enum VarMode {
    /// One invocation per distinct match value.
    Each,
    /// Every match's value expanded inline into a single invocation.
    All,
}

/// A parsed trigger argument.
#[derive(Debug, Clone)]
pub enum ArgKind {
    /// Static argument.
    Fixed(String),
    /// `$(var)`, `$(var:each)` and `$(var:all)` arguments.
    Variable { template: String, mode: VarMode },
}

/// The mathematical value of an [`ArgKind`].
pub enum ArgKindView {
    Fixed(Seq<char>),
    Variable { template: Seq<char>, mode: VarMode },
}

impl View for ArgKind {
    type V = ArgKindView;

    open spec fn view(&self) -> ArgKindView {
        match self {
            ArgKind::Fixed(t) => ArgKindView::Fixed(t@),
            ArgKind::Variable { template, mode } => ArgKindView::Variable {
                template: template@,
                mode: *mode,
            },
        }
    }
}

/// The first position of `:` in `s`.
pub open spec fn first_colon(s: Seq<char>) -> Option<int>
    decreases s.len(),
{
    if s.len() == 0 {
        None
    } else {
        match first_colon(s.drop_last()) {
            Some(k) => Some(k),
            None => if s.last() == ':' {
                Some(s.len() - 1)
            } else {
                None
            },
        }
    }
}

/// The kind of a trigger argument: a variable when it is `$(...)`. Its mode is what
/// follows the first `:` inside, `each` when there is none; any mode but `each` and
/// `all` is an error.
pub open spec fn spec_parse_arg(arg: Seq<char>) -> Result<ArgKindView, Seq<char>> {
    if arg.len() >= 3 && arg[0] == '$' && arg[1] == '(' && arg.last() == ')' {
        let inner = arg.subrange(2, arg.len() - 1);
        match first_colon(inner) {
            None => Ok(ArgKindView::Variable { template: arg, mode: VarMode::Each }),
            Some(k) => {
                let mode = inner.subrange(k + 1, inner.len() as int);
                if mode == "each"@ {
                    Ok(ArgKindView::Variable { template: arg, mode: VarMode::Each })
                } else if mode == "all"@ {
                    Ok(ArgKindView::Variable { template: arg, mode: VarMode::All })
                } else {
                    Err(mode)
                }
            },
        }
    } else {
        Ok(ArgKindView::Fixed(arg))
    }
}

/// Parses an argument into its fixed or variable form.
pub fn parse_arg(arg: &str) -> (r: Result<ArgKind, Error>)
    ensures
        match spec_parse_arg(arg@) {
            Ok(k) => r matches Ok(x) && x@ == k,
            Err(m) => r matches Err(Error::UnknownArgMode(x)) && x@ == m,
        },
{
    let cs = chars_of(arg);
    let n = cs.len();
    if !(n >= 3 && cs[0] == '$' && cs[1] == '(' && cs[n - 1] == ')') {
        return Ok(ArgKind::Fixed(arg.to_owned()));
    }
    let ghost inner = cs@.subrange(2, n - 1);
    let mut k: usize = 2;
    while k < n - 1 && cs[k] != ':'
        invariant
            2 <= k <= n - 1,
            n == cs@.len(),
            n >= 3,
            inner == cs@.subrange(2, n - 1),
            first_colon(inner.take(k - 2)) is None,
        decreases n - 1 - k,
    {
        assert(inner.take(k + 1 - 2).drop_last() =~= inner.take(k - 2));
        k += 1;
    }
    if k == n - 1 {
        assert(inner.take(k - 2) =~= inner);
        return Ok(ArgKind::Variable { template: arg.to_owned(), mode: VarMode::Each });
    }
    proof {
        assert(inner.take(k + 1 - 2).drop_last() =~= inner.take(k - 2));
        lemma_first_colon_prefix(inner, k + 1 - 2);
    }
    let mode = string_of_range(&cs, k + 1, n - 1);
    assert(mode@ =~= inner.subrange(k - 2 + 1, inner.len() as int));
    if crate::text::str_eq(mode.as_str(), "each") {
        Ok(ArgKind::Variable { template: arg.to_owned(), mode: VarMode::Each })
    } else if crate::text::str_eq(mode.as_str(), "all") {
        Ok(ArgKind::Variable { template: arg.to_owned(), mode: VarMode::All })
    } else {
        Err(Error::UnknownArgMode(mode))
    }
}

/// The first `:` of a prefix of `s` is the first of `s`.
proof fn lemma_first_colon_prefix(s: Seq<char>, n: int)
    requires
        0 <= n <= s.len(),
        first_colon(s.take(n)) is Some,
    ensures
        first_colon(s) == first_colon(s.take(n)),
    decreases s.len() - n,
{
    if n < s.len() {
        assert(s.take(n + 1).drop_last() =~= s.take(n));
        lemma_first_colon_prefix(s, n + 1);
    } else {
        assert(s.take(n) =~= s);
    }
}

} // verus!
