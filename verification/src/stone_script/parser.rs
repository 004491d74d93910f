//! Tokenizer for stone script source text.

use vstd::prelude::*;
use crate::text::{chars_of, string_of_range, range_equals};

verus! {

/// A lexical token of a script.
#[derive(Debug, PartialEq, Eq)]
pub enum Token {
    /// `%name`
    Action(String),
    /// `%(name)`
    Definition(String),
    /// `%(_name)`
    Builtin(String),
    /// Plain text, or the `%` that `%%` stands for
    Plain(String),
    /// A line feed
    Newline,
    /// `%break_continue` (`exit == false`) or `%break_exit` (`exit == true`)
    Breakpoint { exit: bool },
}

/// The mathematical value of a [`Token`].
pub enum TokenView {
    Action(Seq<char>),
    Definition(Seq<char>),
    Builtin(Seq<char>),
    Plain(Seq<char>),
    Newline,
    Breakpoint { exit: bool },
}

impl View for Token {
    type V = TokenView;

    open spec fn view(&self) -> TokenView {
        match self {
            Token::Action(n) => TokenView::Action(n@),
            Token::Definition(n) => TokenView::Definition(n@),
            Token::Builtin(n) => TokenView::Builtin(n@),
            Token::Plain(t) => TokenView::Plain(t@),
            Token::Newline => TokenView::Newline,
            Token::Breakpoint { exit } => TokenView::Breakpoint { exit: *exit },
        }
    }
}

/// Identifier characters: ASCII letters, ASCII digits and `_`.
pub open spec fn is_ident_char(c: char) -> bool {
    ('a' <= c && c <= 'z') || ('A' <= c && c <= 'Z') || ('0' <= c && c <= '9') || c == '_'
}

/// End of the run of identifier characters of `s` that starts at `p`.
pub open spec fn ident_end(s: Seq<char>, p: int) -> int
    decreases s.len() - p,
{
    if 0 <= p < s.len() && is_ident_char(s[p]) {
        ident_end(s, p + 1)
    } else {
        p
    }
}

/// `%name` starts at `p`.
pub open spec fn action_at(s: Seq<char>, p: int) -> bool {
    &&& 0 <= p < s.len()
    &&& s[p] == '%'
    &&& ident_end(s, p + 1) > p + 1
}

/// `%(name)` starts at `p`.
pub open spec fn definition_at(s: Seq<char>, p: int) -> bool {
    &&& 0 <= p
    &&& p + 1 < s.len()
    &&& s[p] == '%'
    &&& s[p + 1] == '('
    &&& ident_end(s, p + 2) > p + 2
    &&& ident_end(s, p + 2) < s.len()
    &&& s[ident_end(s, p + 2)] == ')'
}

/// `%%` starts at `p`.
pub open spec fn escape_at(s: Seq<char>, p: int) -> bool {
    0 <= p && p + 1 < s.len() && s[p] == '%' && s[p + 1] == '%'
}

/// A line feed is at `p`.
pub open spec fn newline_at(s: Seq<char>, p: int) -> bool {
    0 <= p < s.len() && s[p] == '\n'
}

/// Plain text stops before a line feed, an escape or a directive.
pub open spec fn stops_plain(s: Seq<char>, p: int) -> bool {
    newline_at(s, p) || escape_at(s, p) || action_at(s, p) || definition_at(s, p)
}

/// The first position at or after `q` where plain text stops, or the end of `s`.
pub open spec fn plain_end(s: Seq<char>, q: int) -> int
    decreases s.len() - q,
{
    if q < 0 || q >= s.len() {
        s.len() as int
    } else if stops_plain(s, q) {
        q
    } else {
        plain_end(s, q + 1)
    }
}

/// The token that starts at `p` and the position just after it.
pub open spec fn token_at(s: Seq<char>, p: int) -> (TokenView, int) {
    if newline_at(s, p) {
        (TokenView::Newline, p + 1)
    } else if action_at(s, p) {
        let e = ident_end(s, p + 1);
        let name = s.subrange(p + 1, e);
        if name == "break_continue"@ {
            (TokenView::Breakpoint { exit: false }, e)
        } else if name == "break_exit"@ {
            (TokenView::Breakpoint { exit: true }, e)
        } else {
            (TokenView::Action(name), e)
        }
    } else if definition_at(s, p) {
        let e = ident_end(s, p + 2);
        let name = s.subrange(p + 2, e);
        if name[0] == '_' {
            (TokenView::Builtin(name.drop_first()), e + 1)
        } else {
            (TokenView::Definition(name), e + 1)
        }
    } else if escape_at(s, p) {
        (TokenView::Plain(seq!['%']), p + 2)
    } else {
        let e = plain_end(s, p + 1);
        (TokenView::Plain(s.subrange(p, e)), e)
    }
}

/// The tokens of `s` from position `p` on.
pub open spec fn tokens_from(s: Seq<char>, p: int) -> Seq<TokenView>
    decreases s.len() - p,
{
    if p < 0 || p >= s.len() {
        Seq::empty()
    } else {
        let (t, e) = token_at(s, p);
        if e <= p || e > s.len() {
            Seq::empty()
        } else {
            seq![t] + tokens_from(s, e)
        }
    }
}

/// The tokens of a whole script.
pub open spec fn spec_tokens(s: Seq<char>) -> Seq<TokenView> {
    tokens_from(s, 0)
}

pub(crate) proof fn lemma_ident_end_bounds(s: Seq<char>, p: int)
    requires
        0 <= p,
    ensures
        p <= ident_end(s, p),
        ident_end(s, p) <= s.len() || ident_end(s, p) == p,
        forall|j: int| p <= j < ident_end(s, p) ==> is_ident_char(s[j]),
        ident_end(s, p) < s.len() ==> !is_ident_char(s[ident_end(s, p)]),
    decreases s.len() - p,
{
    if 0 <= p < s.len() && is_ident_char(s[p]) {
        lemma_ident_end_bounds(s, p + 1);
    }
}

pub(crate) proof fn lemma_plain_end_bounds(s: Seq<char>, q: int)
    requires
        0 <= q,
    ensures
        q <= plain_end(s, q) <= s.len() || (q > s.len() && plain_end(s, q) == s.len()),
        plain_end(s, q) <= s.len(),
    decreases s.len() - q,
{
    if q < s.len() && !stops_plain(s, q) {
        lemma_plain_end_bounds(s, q + 1);
    }
}

pub(crate) proof fn lemma_token_advances(s: Seq<char>, p: int)
    requires
        0 <= p < s.len(),
    ensures
        p < token_at(s, p).1 <= s.len(),
{
    lemma_ident_end_bounds(s, p + 1);
    lemma_ident_end_bounds(s, p + 2);
    lemma_plain_end_bounds(s, p + 1);
}

fn is_ident_char_exec(c: char) -> (b: bool)
    ensures
        b == is_ident_char(c),
{
    ('a' <= c && c <= 'z') || ('A' <= c && c <= 'Z') || ('0' <= c && c <= '9') || c == '_'
}

fn ident_end_exec(cs: &Vec<char>, p: usize) -> (e: usize)
    requires
        cs@.len() <= usize::MAX,
        p <= cs@.len(),
    ensures
        e == ident_end(cs@, p as int),
        p <= e <= cs@.len(),
{
    let mut q = p;
    while q < cs.len() && is_ident_char_exec(cs[q])
        invariant
            p <= q <= cs@.len(),
            ident_end(cs@, p as int) == ident_end(cs@, q as int),
        decreases cs@.len() - q,
    {
        q += 1;
    }
    q
}

fn action_at_exec(cs: &Vec<char>, p: usize) -> (b: bool)
    requires
        cs@.len() <= usize::MAX,
        p < cs@.len(),
    ensures
        b == action_at(cs@, p as int),
{
    cs[p] == '%' && ident_end_exec(cs, p + 1) > p + 1
}

fn definition_at_exec(cs: &Vec<char>, p: usize) -> (b: bool)
    requires
        cs@.len() <= usize::MAX,
        p < cs@.len(),
    ensures
        b == definition_at(cs@, p as int),
{
    if p + 1 < cs.len() && cs[p] == '%' && cs[p + 1] == '(' {
        let e = ident_end_exec(cs, p + 2);
        e > p + 2 && e < cs.len() && cs[e] == ')'
    } else {
        false
    }
}

fn escape_at_exec(cs: &Vec<char>, p: usize) -> (b: bool)
    requires
        cs@.len() <= usize::MAX,
        p < cs@.len(),
    ensures
        b == escape_at(cs@, p as int),
{
    p + 1 < cs.len() && cs[p] == '%' && cs[p + 1] == '%'
}

fn stops_plain_exec(cs: &Vec<char>, p: usize) -> (b: bool)
    requires
        cs@.len() <= usize::MAX,
        p < cs@.len(),
    ensures
        b == stops_plain(cs@, p as int),
{
    cs[p] == '\n' || escape_at_exec(cs, p) || action_at_exec(cs, p) || definition_at_exec(cs, p)
}

fn plain_end_exec(cs: &Vec<char>, q: usize) -> (e: usize)
    requires
        cs@.len() <= usize::MAX,
        q <= cs@.len(),
    ensures
        e == plain_end(cs@, q as int),
        q <= e <= cs@.len(),
{
    let mut r = q;
    while r < cs.len() && !stops_plain_exec(cs, r)
        invariant
            q <= r <= cs@.len(),
            plain_end(cs@, q as int) == plain_end(cs@, r as int),
        decreases cs@.len() - r,
    {
        r += 1;
    }
    r
}

/// The token that starts at `p` of `cs`, and the position just after it.
pub(crate) fn next_token(cs: &Vec<char>, p: usize, brk_continue: &Vec<char>, brk_exit: &Vec<char>) -> (r: (
    Token,
    usize,
))
    requires
        cs@.len() <= usize::MAX,
        p < cs@.len(),
        brk_continue@ == "break_continue"@,
        brk_exit@ == "break_exit"@,
    ensures
        r.0@ == token_at(cs@, p as int).0,
        r.1 == token_at(cs@, p as int).1,
        p < r.1 <= cs@.len(),
{
    proof {
        lemma_token_advances(cs@, p as int);
    }
    if cs[p] == '\n' {
        (Token::Newline, p + 1)
    } else if action_at_exec(cs, p) {
        let e = ident_end_exec(cs, p + 1);
        if range_equals(cs, p + 1, e, brk_continue) {
            (Token::Breakpoint { exit: false }, e)
        } else if range_equals(cs, p + 1, e, brk_exit) {
            (Token::Breakpoint { exit: true }, e)
        } else {
            (Token::Action(string_of_range(cs, p + 1, e)), e)
        }
    } else if definition_at_exec(cs, p) {
        let e = ident_end_exec(cs, p + 2);
        if cs[p + 2] == '_' {
            let name = string_of_range(cs, p + 3, e);
            assert(name@ =~= cs@.subrange(p + 2, e as int).drop_first());
            (Token::Builtin(name), e + 1)
        } else {
            (Token::Definition(string_of_range(cs, p + 2, e)), e + 1)
        }
    } else if escape_at_exec(cs, p) {
        let pct = string_of_range(cs, p, p + 1);
        assert(pct@ =~= seq!['%']);
        (Token::Plain(pct), p + 2)
    } else {
        let e = plain_end_exec(cs, p + 1);
        (Token::Plain(string_of_range(cs, p, e)), e)
    }
}

/// Splits a script into its tokens.
///
/// Every text is a valid script: the result is always `Ok`.
pub fn tokens(input: &str) -> (r: Vec<Token>)
    ensures
        r@.map_values(|t: Token| t@) == spec_tokens(input@),
{
    let cs = chars_of(input);
    let brk_continue = chars_of("break_continue");
    let brk_exit = chars_of("break_exit");
    let mut out: Vec<Token> = Vec::new();
    let mut p: usize = 0;
    let n = cs.len();
    while p < n
        invariant
            p <= cs@.len(),
            n == cs@.len(),
            cs@ == input@,
            brk_continue@ == "break_continue"@,
            brk_exit@ == "break_exit"@,
            out@.map_values(|t: Token| t@) + tokens_from(cs@, p as int) == spec_tokens(input@),
        decreases cs@.len() - p,
    {
        let (t, e) = next_token(&cs, p, &brk_continue, &brk_exit);
        let ghost old_out = out@;
        let ghost tv = t@;
        proof {
            let om = old_out.map_values(|t: Token| t@);
            assert(tokens_from(cs@, p as int) == seq![tv] + tokens_from(cs@, e as int));
            assert(om + (seq![tv] + tokens_from(cs@, e as int)) =~= om.push(tv) + tokens_from(
                cs@,
                e as int,
            ));
        }
        out.push(t);
        proof {
            assert(out@.map_values(|t: Token| t@) =~= old_out.map_values(|t: Token| t@).push(tv));
        }
        p = e;
    }
    out
}

} // verus!
