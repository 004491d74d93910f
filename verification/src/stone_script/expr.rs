//! Script expressions and their fragments.

use vstd::prelude::*;
use crate::stone_script::parser::{next_token, token_at, Token, TokenView};
use crate::text::chars_of;

verus! {

/// A fragment of an expression.
#[derive(Debug, PartialEq)]
pub enum Fragment {
    /// Some plain text to be emitted
    Output(String),
    /// Reference to a builtin; `%(_name)`
    Builtin(String),
    /// Reference to a definition; `%(name)`
    Definition(String),
    /// Reference to an action; `%name`
    Action(String),
    /// Breakpoint; `%break_exit` and `%break_continue`
    Breakpoint {
        /// The line number this breakpoint is on
        line_num: usize,
        /// Whether the script should exit after this breakpoint
        exit: bool,
    },
}

/// The mathematical value of a [`Fragment`].
pub enum FragmentView {
    Output(Seq<char>),
    Builtin(Seq<char>),
    Definition(Seq<char>),
    Action(Seq<char>),
    Breakpoint { line_num: nat, exit: bool },
}

impl View for Fragment {
    type V = FragmentView;

    open spec fn view(&self) -> FragmentView {
        match self {
            Fragment::Output(o) => FragmentView::Output(o@),
            Fragment::Builtin(n) => FragmentView::Builtin(n@),
            Fragment::Definition(n) => FragmentView::Definition(n@),
            Fragment::Action(n) => FragmentView::Action(n@),
            Fragment::Breakpoint { line_num, exit } => FragmentView::Breakpoint {
                line_num: *line_num as nat,
                exit: *exit,
            },
        }
    }
}

impl Clone for Fragment {
    fn clone(&self) -> (r: Self)
        ensures
            r@ == self@,
    {
        match self {
            Fragment::Output(o) => Fragment::Output(o.clone()),
            Fragment::Builtin(n) => Fragment::Builtin(n.clone()),
            Fragment::Definition(n) => Fragment::Definition(n.clone()),
            Fragment::Action(n) => Fragment::Action(n.clone()),
            Fragment::Breakpoint { line_num, exit } => Fragment::Breakpoint {
                line_num: *line_num,
                exit: *exit,
            },
        }
    }
}

impl Fragment {
    /// Create a [`Fragment::Output`] from a str
    pub fn output_str(output: &str) -> (f: Self)
        ensures
            f@ == FragmentView::Output(output@),
    {
        Fragment::Output(output.to_owned())
    }
}

/// A stone script expression
#[derive(Debug, PartialEq)]
pub struct Expr {
    /// The fragments that the expression is composed of
    pub fragments: Vec<Fragment>,
}

impl View for Expr {
    type V = Seq<FragmentView>;

    open spec fn view(&self) -> Seq<FragmentView> {
        self.fragments@.map_values(|f: Fragment| f@)
    }
}

/// Copies of the fragments `fs[start..end]` appended to `out`.
fn copy_fragments(out: &mut Vec<Fragment>, fs: &Vec<Fragment>)
    ensures
        final(out)@.map_values(|f: Fragment| f@) == old(out)@.map_values(|f: Fragment| f@)
            + fs@.map_values(|f: Fragment| f@),
{
    let ghost start = out@.map_values(|f: Fragment| f@);
    let mut i: usize = 0;
    while i < fs.len()
        invariant
            i <= fs@.len(),
            out@.map_values(|f: Fragment| f@) == start + fs@.map_values(|f: Fragment| f@).take(
                i as int,
            ),
        decreases fs@.len() - i,
    {
        let c = fs[i].clone();
        let ghost before = out@;
        out.push(c);
        proof {
            assert(out@.map_values(|f: Fragment| f@) =~= before.map_values(|f: Fragment| f@).push(
                fs@[i as int]@,
            ));
            assert(fs@.map_values(|f: Fragment| f@).take(i + 1) =~= fs@.map_values(
                |f: Fragment| f@,
            ).take(i as int).push(fs@[i as int]@));
        }
        i += 1;
    }
    assert(fs@.map_values(|f: Fragment| f@).take(i as int) =~= fs@.map_values(|f: Fragment| f@));
}

impl Clone for Expr {
    fn clone(&self) -> (r: Self)
        ensures
            r@ == self@,
    {
        let mut fragments: Vec<Fragment> = Vec::new();
        copy_fragments(&mut fragments, &self.fragments);
        assert(fragments@.map_values(|f: Fragment| f@) =~= self@);
        Expr { fragments }
    }
}

/// The fragment that a token stands for, `line` being the token's line number.
pub open spec fn fragment_of(t: TokenView, line: nat) -> FragmentView {
    match t {
        TokenView::Action(n) => FragmentView::Action(n),
        TokenView::Builtin(n) => FragmentView::Builtin(n),
        TokenView::Definition(n) => FragmentView::Definition(n),
        TokenView::Plain(o) => FragmentView::Output(o),
        TokenView::Newline => FragmentView::Output(seq!['\n']),
        TokenView::Breakpoint { exit } => FragmentView::Breakpoint { line_num: line, exit },
    }
}

/// The line number after a token: line feeds start a new line.
pub open spec fn line_after(t: TokenView, line: nat) -> nat {
    match t {
        TokenView::Newline => line + 1,
        _ => line,
    }
}

/// The fragments of `s` from position `p` on, `line` being the line number at `p`.
pub open spec fn parse_from(s: Seq<char>, p: int, line: nat) -> Seq<FragmentView>
    decreases s.len() - p,
{
    if p < 0 || p >= s.len() {
        Seq::empty()
    } else {
        let (t, e) = token_at(s, p);
        if e <= p || e > s.len() {
            Seq::empty()
        } else {
            seq![fragment_of(t, line)] + parse_from(s, e, line_after(t, line))
        }
    }
}

/// The expression that a script text stands for; line numbers count from 0.
pub open spec fn spec_parse(s: Seq<char>) -> Seq<FragmentView> {
    parse_from(s, 0, 0)
}

/// The source text of one fragment.
pub open spec fn dump_fragment(f: FragmentView) -> Seq<char> {
    match f {
        FragmentView::Output(o) => o,
        FragmentView::Builtin(n) => seq!['%', '(', '_'] + n + seq![')'],
        FragmentView::Definition(n) => seq!['%', '('] + n + seq![')'],
        FragmentView::Action(n) => seq!['%'] + n,
        FragmentView::Breakpoint { exit, .. } => if exit {
            "%break_exit"@
        } else {
            "%break_continue"@
        },
    }
}

/// The source text of a sequence of fragments.
pub open spec fn dump_all(fs: Seq<FragmentView>) -> Seq<char>
    decreases fs.len(),
{
    if fs.len() == 0 {
        Seq::empty()
    } else {
        dump_all(fs.drop_last()) + dump_fragment(fs.last())
    }
}

/// The source text of a concatenation is the concatenation of the source texts.
pub proof fn lemma_dump_all_append(a: Seq<FragmentView>, b: Seq<FragmentView>)
    ensures
        dump_all(a + b) == dump_all(a) + dump_all(b),
    decreases b.len(),
{
    if b.len() == 0 {
        assert(a + b =~= a);
        assert(dump_all(a) + dump_all(b) =~= dump_all(a));
    } else {
        lemma_dump_all_append(a, b.drop_last());
        assert((a + b).drop_last() =~= a + b.drop_last());
        assert(dump_all(a) + dump_all(b.drop_last()) + dump_fragment(b.last()) =~= dump_all(a) + (
        dump_all(b.drop_last()) + dump_fragment(b.last())));
    }
}

/// `%%` occurs nowhere in `s`.
pub open spec fn has_no_escape(s: Seq<char>) -> bool {
    forall|i: int| !#[trigger] crate::stone_script::parser::escape_at(s, i)
}

proof fn lemma_roundtrip_from(s: Seq<char>, p: int, line: nat)
    requires
        has_no_escape(s),
        0 <= p <= s.len(),
    ensures
        dump_all(parse_from(s, p, line)) == s.subrange(p, s.len() as int),
    decreases s.len() - p,
{
    if p == s.len() {
        assert(s.subrange(p, s.len() as int) =~= Seq::<char>::empty());
    } else {
        crate::stone_script::parser::lemma_token_advances(s, p);
        let (t, e) = token_at(s, p);
        lemma_roundtrip_from(s, e, line_after(t, line));
        let rest = parse_from(s, e, line_after(t, line));
        let f = fragment_of(t, line);
        lemma_dump_all_append(seq![f], rest);
        assert(dump_all(seq![f]) =~= dump_fragment(f)) by {
            assert(seq![f].drop_last() =~= Seq::<FragmentView>::empty());
            assert(dump_all(Seq::<FragmentView>::empty()) == Seq::<char>::empty());
            assert(seq![f].last() == f);
            assert(Seq::<char>::empty() + dump_fragment(f) =~= dump_fragment(f));
        }
        assert(dump_fragment(f) =~= s.subrange(p, e)) by {
            reveal_strlit("%break_exit");
            reveal_strlit("break_exit");
            reveal_strlit("%break_continue");
            reveal_strlit("break_continue");
            crate::stone_script::parser::lemma_ident_end_bounds(s, p + 1);
            crate::stone_script::parser::lemma_ident_end_bounds(s, p + 2);
            if crate::stone_script::parser::action_at(s, p) {
                let n = s.subrange(p + 1, e);
                if n == "break_continue"@ {
                    assert(s.subrange(p, e) =~= seq!['%'] + n);
                    assert("%break_continue"@ =~= seq!['%'] + "break_continue"@);
                } else if n == "break_exit"@ {
                    assert(s.subrange(p, e) =~= seq!['%'] + n);
                    assert("%break_exit"@ =~= seq!['%'] + "break_exit"@);
                }
            }
        }
        assert(s.subrange(p, e) + s.subrange(e, s.len() as int) =~= s.subrange(p, s.len() as int));
    }
}

/// Dumping a parsed script gives back its text, provided it holds no `%%` escape.
pub proof fn lemma_dump_parse_roundtrip(s: Seq<char>)
    requires
        has_no_escape(s),
    ensures
        dump_all(spec_parse(s)) == s,
{
    lemma_roundtrip_from(s, 0, 0);
    assert(s.subrange(0, s.len() as int) =~= s);
}

impl Expr {
    /// Create an `Expr` from a sequence of `Fragment`
    pub fn from_fragments(fragments: Vec<Fragment>) -> (e: Self)
        ensures
            e@ == fragments@.map_values(|f: Fragment| f@),
    {
        Expr { fragments }
    }

    /// Parse a string into an `Expr`
    ///
    /// Every text is a valid script, so the result is always `Ok`.
    pub fn parse(source: &str) -> (r: Result<Self, crate::stone_script::error::Error>)
        ensures
            r matches Ok(e) && e@ == spec_parse(source@),
    {
        let cs = chars_of(source);
        let brk_continue = chars_of("break_continue");
        let brk_exit = chars_of("break_exit");
        let mut fragments: Vec<Fragment> = Vec::new();
        let mut p: usize = 0;
        let mut line: usize = 0;
        let n = cs.len();
        while p < n
            invariant
                p <= cs@.len(),
                n == cs@.len(),
                line <= p,
                cs@ == source@,
                brk_continue@ == "break_continue"@,
                brk_exit@ == "break_exit"@,
                fragments@.map_values(|f: Fragment| f@) + parse_from(cs@, p as int, line as nat)
                    == spec_parse(source@),
            decreases cs@.len() - p,
        {
            let (t, e) = next_token(&cs, p, &brk_continue, &brk_exit);
            let ghost tv = t@;
            let ghost before = fragments@.map_values(|f: Fragment| f@);
            let ghost line0 = line as nat;
            let f = match t {
                Token::Action(name) => Fragment::Action(name),
                Token::Builtin(name) => Fragment::Builtin(name),
                Token::Definition(name) => Fragment::Definition(name),
                Token::Plain(output) => Fragment::Output(output),
                Token::Newline => {
                    let lf = crate::text::string_of_range(&cs, p, p + 1);
                    assert(lf@ =~= seq!['\n']);
                    line += 1;
                    Fragment::Output(lf)
                },
                Token::Breakpoint { exit } => Fragment::Breakpoint { line_num: line, exit },
            };
            proof {
                assert(f@ == fragment_of(tv, line0));
                assert(line as nat == line_after(tv, line0));
            }
            let ghost fv = f@;
            fragments.push(f);
            proof {
                assert(parse_from(cs@, p as int, line0) == seq![fv]
                    + parse_from(cs@, e as int, line as nat));
                assert(fragments@.map_values(|f: Fragment| f@) =~= before.push(fv));
                assert(before + (seq![fv] + parse_from(cs@, e as int, line as nat)) =~= before.push(
                    fv,
                ) + parse_from(cs@, e as int, line as nat));
            }
            p = e;
        }
        proof {
            assert(fragments@.map_values(|f: Fragment| f@) + Seq::<FragmentView>::empty()
                =~= fragments@.map_values(|f: Fragment| f@));
        }
        Ok(Expr { fragments })
    }

    /// Dump an `Expr` back into its source code, appending it to `output`
    pub fn dump(&self, output: &mut String)
        ensures
            final(output)@ == old(output)@ + dump_all(self@),
    {
        let ghost start = output@;
        let mut i: usize = 0;
        while i < self.fragments.len()
            invariant
                i <= self.fragments@.len(),
                output@ == start + dump_all(self@.take(i as int)),
            decreases self.fragments@.len() - i,
        {
            let ghost before = output@;
            match &self.fragments[i] {
                Fragment::Output(o) => {
                    output.push_str(o.as_str());
                },
                Fragment::Builtin(name) => {
                    output.push('%');
                    output.push('(');
                    output.push('_');
                    output.push_str(name.as_str());
                    output.push(')');
                },
                Fragment::Definition(name) => {
                    output.push('%');
                    output.push('(');
                    output.push_str(name.as_str());
                    output.push(')');
                },
                Fragment::Action(name) => {
                    output.push('%');
                    output.push_str(name.as_str());
                },
                Fragment::Breakpoint { exit, .. } => {
                    if *exit {
                        output.push_str("%break_exit");
                    } else {
                        output.push_str("%break_continue");
                    }
                },
            }
            proof {
                assert(output@ =~= before + dump_fragment(self@[i as int]));
                assert(self@.take(i + 1).drop_last() =~= self@.take(i as int));
            }
            i += 1;
        }
        assert(self@.take(i as int) =~= self@);
    }

    /// Like `dump`, but allocates the string itself
    pub fn dump_to_string(&self) -> (s: String)
        ensures
            s@ == dump_all(self@),
    {
        let mut output = String::new();
        self.dump(&mut output);
        assert(output@ =~= dump_all(self@));
        output
    }

    /// Concatenate two exprs, one after the other
    pub fn concat(&self, other: &Expr) -> (e: Expr)
        ensures
            e@ == self@ + other@,
    {
        let mut fragments: Vec<Fragment> = Vec::new();
        copy_fragments(&mut fragments, &self.fragments);
        copy_fragments(&mut fragments, &other.fragments);
        assert(fragments@.map_values(|f: Fragment| f@) =~= self@ + other@);
        Expr { fragments }
    }
}

} // verus!
