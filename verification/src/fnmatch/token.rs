//! Parses a string pattern into a vector of [Token]s: first into raw tokens
//! (text runs and the special characters), then into text and wildcards.
//!
//! Tokens do not copy substrings of the pattern: they hold ranges of character
//! positions in it.

use vstd::prelude::*;
use std::ops::Range;
use crate::text::chars_of;

verus! {

/// Types of wildcards.
#[derive(Clone, Copy, Debug, PartialEq, Eq, Structural)]
pub enum Matcher {
    /// Matches exactly one character, excluding the path separator.
    One,
    /// Matches zero or more characters, excluding the path separator.
    Any,
}

/// Components of an `fnmatch` string pattern.
#[derive(Debug, PartialEq)]
pub enum Token {
    /// String literal to match: the characters of the pattern in this range.
    Text(Range<usize>),
    /// A wildcard that matches either a single or multiple characters,
    /// excluding the path separator. A named wildcard has the characters of
    /// the pattern in the name range as its name.
    Wildcard { name: Option<Range<usize>>, matcher: Matcher },
}

/// The mathematical value of a [`Token`]: ranges as pairs of positions.
pub enum TokenView {
    Text(int, int),
    Wildcard { name: Option<(int, int)>, matcher: Matcher },
}

impl View for Token {
    type V = TokenView;

    open spec fn view(&self) -> TokenView {
        match self {
            Token::Text(r) => TokenView::Text(r.start as int, r.end as int),
            Token::Wildcard { name, matcher } => TokenView::Wildcard {
                name: match name {
                    Some(r) => Some((r.start as int, r.end as int)),
                    None => None,
                },
                matcher: *matcher,
            },
        }
    }
}

impl Clone for Token {
    fn clone(&self) -> (r: Self)
        ensures
            r@ == self@,
    {
        match self {
            Token::Text(r) => Token::Text(Range { start: r.start, end: r.end }),
            Token::Wildcard { name, matcher } => Token::Wildcard {
                name: match name {
                    Some(r) => Some(Range { start: r.start, end: r.end }),
                    None => None,
                },
                matcher: *matcher,
            },
        }
    }
}

/// The raw components of a pattern.
#[derive(Debug, PartialEq)]
pub enum RawToken {
    /// Escapes the character that follows.
    Escape,
    /// Any text.
    Text(Range<usize>),
    /// Opens the named wildcard.
    GroupOpening,
    /// Separates the wildcard name from the matcher type.
    GroupSeparator,
    /// Closes the named wildcard.
    GroupClosing,
    /// Matches any single character.
    MatchOne,
    /// Matches zero or more characters.
    MatchAny,
}

/// The mathematical value of a [`RawToken`].
pub enum RawView {
    Escape,
    Text(int, int),
    GroupOpening,
    GroupSeparator,
    GroupClosing,
    MatchOne,
    MatchAny,
}

impl View for RawToken {
    type V = RawView;

    open spec fn view(&self) -> RawView {
        match self {
            RawToken::Escape => RawView::Escape,
            RawToken::Text(r) => RawView::Text(r.start as int, r.end as int),
            RawToken::GroupOpening => RawView::GroupOpening,
            RawToken::GroupSeparator => RawView::GroupSeparator,
            RawToken::GroupClosing => RawView::GroupClosing,
            RawToken::MatchOne => RawView::MatchOne,
            RawToken::MatchAny => RawView::MatchAny,
        }
    }
}

/// The raw token that a special character stands for; `None` for any other character.
pub open spec fn spec_nontext(ch: char) -> Option<RawView> {
    if ch == '\\' {
        Some(RawView::Escape)
    } else if ch == '(' {
        Some(RawView::GroupOpening)
    } else if ch == ':' {
        Some(RawView::GroupSeparator)
    } else if ch == ')' {
        Some(RawView::GroupClosing)
    } else if ch == '?' {
        Some(RawView::MatchOne)
    } else if ch == '*' {
        Some(RawView::MatchAny)
    } else {
        None
    }
}

/// The end of the run of plain characters that starts at `i`.
pub open spec fn text_end(cs: Seq<char>, i: int) -> int
    decreases cs.len() - i,
{
    if i < 0 || i >= cs.len() || spec_nontext(cs[i]) is Some {
        i
    } else {
        text_end(cs, i + 1)
    }
}

/// The raw token at position `i` of the pattern and the position after it; `None`
/// at the end.
pub open spec fn raw_at(cs: Seq<char>, i: int) -> Option<(RawView, int)> {
    if i < 0 || i >= cs.len() {
        None
    } else {
        match spec_nontext(cs[i]) {
            Some(t) => Some((t, i + 1)),
            None => Some((RawView::Text(i, text_end(cs, i)), text_end(cs, i))),
        }
    }
}

/// Whether a raw token has a special meaning, so that escaping it makes it text.
pub open spec fn escapable(t: RawView) -> bool {
    !(t is Text)
}

/// The name and the matcher of the named wildcard whose opening bracket ends at
/// `i`, and the position after its closing bracket; `None` where the syntax is not
/// that of a named wildcard.
pub open spec fn spec_group_parameters(cs: Seq<char>, i: int) -> Option<((int, int), Matcher, int)> {
    match raw_at(cs, i) {
        Some((RawView::Text(a, b), i2)) => match raw_at(cs, i2) {
            Some((RawView::GroupSeparator, i3)) => match raw_at(cs, i3) {
                Some((m, i4)) => match raw_at(cs, i4) {
                    Some((RawView::GroupClosing, i5)) => match m {
                        RawView::MatchOne => Some(((a, b), Matcher::One, i5)),
                        RawView::MatchAny => Some(((a, b), Matcher::Any, i5)),
                        _ => None,
                    },
                    _ => None,
                },
                None => None,
            },
            _ => None,
        },
        _ => None,
    }
}

/// Whether the last token is text that ends at `a`.
pub open spec fn merges_with(toks: Seq<TokenView>, a: int) -> bool {
    toks.len() > 0 && (toks.last() matches TokenView::Text(p, q) && q == a)
}

/// The tokens with the text `[a, b)` appended: it extends the last token when that
/// is text ending at `a`.
pub open spec fn spec_append_text(toks: Seq<TokenView>, a: int, b: int) -> Seq<TokenView> {
    if merges_with(toks, a) {
        toks.drop_last().push(TokenView::Text(toks.last()->Text_0, b))
    } else {
        toks.push(TokenView::Text(a, b))
    }
}

/// The tokens of the pattern from position `i` on, after the tokens `acc` of what
/// comes before.
pub open spec fn tokens_from(cs: Seq<char>, i: int, acc: Seq<TokenView>) -> Seq<TokenView>
    decreases cs.len() - i,
{
    if i < 0 || i >= cs.len() {
        acc
    } else {
        let (raw, i1) = raw_at(cs, i).unwrap();
        if i1 <= i || i1 > cs.len() {
            acc
        } else {
            match raw {
                RawView::Escape => match raw_at(cs, i1) {
                    Some((next, i2)) => if escapable(next) && i1 < i2 <= cs.len() {
                        tokens_from(cs, i2, spec_append_text(acc, i1, i2))
                    } else {
                        tokens_from(cs, i1, spec_append_text(acc, i, i1))
                    },
                    None => tokens_from(cs, i1, spec_append_text(acc, i, i1)),
                },
                RawView::GroupOpening => match spec_group_parameters(cs, i1) {
                    Some((name, m, i5)) => if i1 < i5 <= cs.len() {
                        tokens_from(
                            cs,
                            i5,
                            acc.push(TokenView::Wildcard { name: Some(name), matcher: m }),
                        )
                    } else {
                        acc
                    },
                    None => tokens_from(cs, i1, spec_append_text(acc, i, i1)),
                },
                RawView::MatchOne => tokens_from(
                    cs,
                    i1,
                    acc.push(TokenView::Wildcard { name: None, matcher: Matcher::One }),
                ),
                RawView::MatchAny => tokens_from(
                    cs,
                    i1,
                    acc.push(TokenView::Wildcard { name: None, matcher: Matcher::Any }),
                ),
                _ => tokens_from(cs, i1, spec_append_text(acc, i, i1)),
            }
        }
    }
}

/// The tokens of a whole pattern.
pub open spec fn spec_tokens(cs: Seq<char>) -> Seq<TokenView> {
    tokens_from(cs, 0, Seq::empty())
}

/// Whether every range of the tokens lies within a pattern of `n` characters.
pub open spec fn tokens_in_bounds(toks: Seq<TokenView>, n: int) -> bool {
    forall|k: int|
        0 <= k < toks.len() ==> match #[trigger] toks[k] {
            TokenView::Text(a, b) => 0 <= a <= b <= n,
            TokenView::Wildcard { name, .. } => match name {
                Some((a, b)) => 0 <= a <= b <= n,
                None => true,
            },
        }
}

proof fn lemma_text_end(cs: Seq<char>, i: int)
    requires
        0 <= i <= cs.len(),
    ensures
        i <= text_end(cs, i) <= cs.len(),
        forall|j: int| i <= j < text_end(cs, i) ==> spec_nontext(#[trigger] cs[j]) is None,
        text_end(cs, i) < cs.len() ==> spec_nontext(cs[text_end(cs, i)]) is Some,
    decreases cs.len() - i,
{
    if i < cs.len() && spec_nontext(cs[i]) is None {
        lemma_text_end(cs, i + 1);
    }
}

proof fn lemma_raw_at(cs: Seq<char>, i: int)
    requires
        0 <= i < cs.len(),
    ensures
        raw_at(cs, i) matches Some((t, j)) && i < j <= cs.len() && (t matches RawView::Text(a, b)
            ==> a == i && b == j),
{
    lemma_text_end(cs, i);
}

proof fn lemma_group_parameters(cs: Seq<char>, i: int)
    requires
        0 <= i <= cs.len(),
    ensures
        spec_group_parameters(cs, i) matches Some(((a, b), m, i5)) ==> i <= a <= b < i5 <= cs.len(),
{
    if let Some((RawView::Text(a, b), i2)) = raw_at(cs, i) {
        lemma_raw_at(cs, i);
        if let Some((RawView::GroupSeparator, i3)) = raw_at(cs, i2) {
            lemma_raw_at(cs, i2);
            if let Some((m, i4)) = raw_at(cs, i3) {
                lemma_raw_at(cs, i3);
                if i4 < cs.len() {
                    lemma_raw_at(cs, i4);
                }
            }
        }
    }
}

proof fn lemma_append_in_bounds(toks: Seq<TokenView>, a: int, b: int, n: int)
    requires
        tokens_in_bounds(toks, n),
        0 <= a <= b <= n,
    ensures
        tokens_in_bounds(spec_append_text(toks, a, b), n),
{
    let r = spec_append_text(toks, a, b);
    assert forall|k: int| 0 <= k < r.len() implies match #[trigger] r[k] {
        TokenView::Text(p, q) => 0 <= p <= q <= n,
        TokenView::Wildcard { name, .. } => match name {
            Some((p, q)) => 0 <= p <= q <= n,
            None => true,
        },
    } by {
        if k < toks.len() - 1 || !merges_with(toks, a) {
            if k < toks.len() {
                assert(r[k] == toks[k]);
            }
        } else {
            assert(toks[toks.len() - 1] == toks.last());
        }
    }
}

proof fn lemma_push_in_bounds(toks: Seq<TokenView>, t: TokenView, n: int)
    requires
        tokens_in_bounds(toks, n),
        tokens_in_bounds(seq![t], n),
    ensures
        tokens_in_bounds(toks.push(t), n),
{
    assert forall|k: int| 0 <= k < toks.push(t).len() implies match #[trigger] toks.push(t)[k] {
        TokenView::Text(p, q) => 0 <= p <= q <= n,
        TokenView::Wildcard { name, .. } => match name {
            Some((p, q)) => 0 <= p <= q <= n,
            None => true,
        },
    } by {
        if k == toks.len() {
            assert(seq![t][0] == t);
        } else {
            assert(toks.push(t)[k] == toks[k]);
        }
    }
}

/// The tokens of a pattern refer to positions inside it.
pub proof fn lemma_tokens_in_bounds(cs: Seq<char>, i: int, acc: Seq<TokenView>)
    requires
        0 <= i <= cs.len(),
        tokens_in_bounds(acc, cs.len() as int),
    ensures
        tokens_in_bounds(tokens_from(cs, i, acc), cs.len() as int),
    decreases cs.len() - i,
{
    let n = cs.len() as int;
    if i < cs.len() {
        lemma_raw_at(cs, i);
        let (raw, i1) = raw_at(cs, i).unwrap();
        match raw {
            RawView::Escape => {
                if i1 < cs.len() {
                    lemma_raw_at(cs, i1);
                }
                match raw_at(cs, i1) {
                    Some((next, i2)) => if escapable(next) && i1 < i2 <= cs.len() {
                        lemma_append_in_bounds(acc, i1, i2, n);
                        lemma_tokens_in_bounds(cs, i2, spec_append_text(acc, i1, i2));
                    } else {
                        lemma_append_in_bounds(acc, i, i1, n);
                        lemma_tokens_in_bounds(cs, i1, spec_append_text(acc, i, i1));
                    },
                    None => {
                        lemma_append_in_bounds(acc, i, i1, n);
                        lemma_tokens_in_bounds(cs, i1, spec_append_text(acc, i, i1));
                    },
                }
            },
            RawView::GroupOpening => {
                lemma_group_parameters(cs, i1);
                match spec_group_parameters(cs, i1) {
                    Some((name, m, i5)) => {
                        let t = TokenView::Wildcard { name: Some(name), matcher: m };
                        assert(tokens_in_bounds(seq![t], n)) by {
                            assert(seq![t][0] == t);
                        }
                        lemma_push_in_bounds(acc, t, n);
                        lemma_tokens_in_bounds(cs, i5, acc.push(t));
                    },
                    None => {
                        lemma_append_in_bounds(acc, i, i1, n);
                        lemma_tokens_in_bounds(cs, i1, spec_append_text(acc, i, i1));
                    },
                }
            },
            RawView::MatchOne => {
                let t = TokenView::Wildcard { name: None, matcher: Matcher::One };
                assert(tokens_in_bounds(seq![t], n)) by {
                    assert(seq![t][0] == t);
                }
                lemma_push_in_bounds(acc, t, n);
                lemma_tokens_in_bounds(cs, i1, acc.push(t));
            },
            RawView::MatchAny => {
                let t = TokenView::Wildcard { name: None, matcher: Matcher::Any };
                assert(tokens_in_bounds(seq![t], n)) by {
                    assert(seq![t][0] == t);
                }
                lemma_push_in_bounds(acc, t, n);
                lemma_tokens_in_bounds(cs, i1, acc.push(t));
            },
            _ => {
                lemma_append_in_bounds(acc, i, i1, n);
                lemma_tokens_in_bounds(cs, i1, spec_append_text(acc, i, i1));
            },
        }
    }
}

/// Each token takes at least one character of the pattern.
pub proof fn lemma_tokens_len(cs: Seq<char>, i: int, acc: Seq<TokenView>)
    requires
        0 <= i <= cs.len(),
    ensures
        tokens_from(cs, i, acc).len() <= acc.len() + (cs.len() - i),
    decreases cs.len() - i,
{
    if i < cs.len() {
        lemma_raw_at(cs, i);
        let (raw, i1) = raw_at(cs, i).unwrap();
        match raw {
            RawView::Escape => {
                if i1 < cs.len() {
                    lemma_raw_at(cs, i1);
                }
                match raw_at(cs, i1) {
                    Some((next, i2)) => if escapable(next) && i1 < i2 <= cs.len() {
                        lemma_tokens_len(cs, i2, spec_append_text(acc, i1, i2));
                    } else {
                        lemma_tokens_len(cs, i1, spec_append_text(acc, i, i1));
                    },
                    None => {
                        lemma_tokens_len(cs, i1, spec_append_text(acc, i, i1));
                    },
                }
            },
            RawView::GroupOpening => {
                lemma_group_parameters(cs, i1);
                match spec_group_parameters(cs, i1) {
                    Some((name, m, i5)) => {
                        lemma_tokens_len(
                            cs,
                            i5,
                            acc.push(TokenView::Wildcard { name: Some(name), matcher: m }),
                        );
                    },
                    None => {
                        lemma_tokens_len(cs, i1, spec_append_text(acc, i, i1));
                    },
                }
            },
            RawView::MatchOne => {
                lemma_tokens_len(
                    cs,
                    i1,
                    acc.push(TokenView::Wildcard { name: None, matcher: Matcher::One }),
                );
            },
            RawView::MatchAny => {
                lemma_tokens_len(
                    cs,
                    i1,
                    acc.push(TokenView::Wildcard { name: None, matcher: Matcher::Any }),
                );
            },
            _ => {
                lemma_tokens_len(cs, i1, spec_append_text(acc, i, i1));
            },
        }
    }
}

impl RawToken {
    /// Returns the non-textual raw token represented by `ch`. If `ch` is not a
    /// non-textual token, None is returned.
    pub fn nontext_from_char(ch: char) -> (r: Option<Self>)
        ensures
            match r {
                Some(t) => spec_nontext(ch) == Some(t@),
                None => spec_nontext(ch) is None,
            },
    {
        if ch == '\\' {
            Some(RawToken::Escape)
        } else if ch == '(' {
            Some(RawToken::GroupOpening)
        } else if ch == ':' {
            Some(RawToken::GroupSeparator)
        } else if ch == ')' {
            Some(RawToken::GroupClosing)
        } else if ch == '?' {
            Some(RawToken::MatchOne)
        } else if ch == '*' {
            Some(RawToken::MatchAny)
        } else {
            None
        }
    }

    /// Returns whether this raw token can be escapable. A token is escapable if it
    /// has special meaning in the `fnmatch` syntax.
    pub fn is_escapable(&self) -> (b: bool)
        ensures
            b == escapable(self@),
    {
        match self {
            RawToken::Text(_) => false,
            _ => true,
        }
    }
}

/// The raw token at position `i` of `cs`, and the position after it.
fn next_raw(cs: &Vec<char>, i: usize) -> (r: Option<(RawToken, usize)>)
    ensures
        match r {
            Some((t, j)) => raw_at(cs@, i as int) == Some((t@, j as int)),
            None => raw_at(cs@, i as int) is None,
        },
{
    if i >= cs.len() {
        return None;
    }
    proof {
        lemma_text_end(cs@, i as int);
    }
    match RawToken::nontext_from_char(cs[i]) {
        Some(t) => Some((t, i + 1)),
        None => {
            let mut j = i + 1;
            while j < cs.len()
                invariant
                    i < j <= cs@.len(),
                    text_end(cs@, i as int) == text_end(cs@, j as int),
                decreases cs@.len() - j,
            {
                match RawToken::nontext_from_char(cs[j]) {
                    Some(_) => {
                        return Some((RawToken::Text(Range { start: i, end: j }), j));
                    },
                    None => {},
                }
                j += 1;
            }
            Some((RawToken::Text(Range { start: i, end: j }), j))
        },
    }
}

/// Iterator over the raw tokens of a pattern string.
#[derive(Clone, Debug)]
pub struct RawPattern {
    pattern: Vec<char>,
    index: usize,
}

impl RawPattern {
    /// The characters of the pattern.
    pub closed spec fn chars(&self) -> Seq<char> {
        self.pattern@
    }

    /// The position of the next raw token.
    pub closed spec fn position(&self) -> int {
        self.index as int
    }

    /// The raw tokens of `s`, from its start.
    pub fn new(s: &str) -> (p: Self)
        ensures
            p.chars() == s@,
            p.position() == 0,
    {
        RawPattern { pattern: chars_of(s), index: 0 }
    }

    /// The next raw token; `None` at the end of the pattern.
    pub fn next(&mut self) -> (r: Option<RawToken>)
        ensures
            final(self).chars() == old(self).chars(),
            match raw_at(old(self).chars(), old(self).position()) {
                Some((t, j)) => r matches Some(x) && x@ == t && final(self).position() == j,
                None => r is None && final(self).position() == old(self).position(),
            },
    {
        match next_raw(&self.pattern, self.index) {
            Some((t, j)) => {
                self.index = j;
                Some(t)
            },
            None => None,
        }
    }

    /// All the remaining raw tokens, in order.
    pub fn collect(self) -> (v: Vec<RawToken>)
        ensures
            v@.map_values(|t: RawToken| t@) == raws_from(self.chars(), self.position()),
    {
        let mut it = self;
        let mut v: Vec<RawToken> = Vec::new();
        let ghost cs = it.pattern@;
        let ghost start = it.index as int;
        while it.index < it.pattern.len()
            invariant
                it.pattern@ == cs,
                start <= it.index <= cs.len() || (it.index == start && start > cs.len()),
                raws_from(cs, start) == v@.map_values(|t: RawToken| t@) + raws_from(
                    cs,
                    it.index as int,
                ),
            decreases cs.len() - it.index,
        {
            proof {
                lemma_raw_at(cs, it.index as int);
            }
            let ghost before = v@;
            let ghost i = it.index as int;
            match it.next() {
                Some(t) => {
                    v.push(t);
                    assert(v@.map_values(|t: RawToken| t@) =~= before.map_values(|t: RawToken| t@).push(t@));
                    assert(before.map_values(|t: RawToken| t@).push(t@) + raws_from(cs, it.index as int)
                        =~= before.map_values(|t: RawToken| t@) + raws_from(cs, i));
                },
                None => {},
            }
        }
        assert(raws_from(cs, it.index as int) =~= Seq::<RawView>::empty());
        assert(v@.map_values(|t: RawToken| t@) + Seq::<RawView>::empty() =~= v@.map_values(|t: RawToken| t@));
        v
    }
}

/// The raw tokens of the pattern from position `i` on.
pub open spec fn raws_from(cs: Seq<char>, i: int) -> Seq<RawView>
    decreases cs.len() - i,
{
    match raw_at(cs, i) {
        Some((t, j)) => if i < j <= cs.len() {
            seq![t] + raws_from(cs, j)
        } else {
            seq![t]
        },
        None => Seq::empty(),
    }
}

/// Returns the name and the the matcher of the named wildcard that starts at
/// position `i` (after its opening bracket), with the position after it. If the
/// named wildcard syntax is invalid, it returns None.
pub fn group_parameters(cs: &Vec<char>, i: usize) -> (r: Option<(Range<usize>, Matcher, usize)>)
    ensures
        match r {
            Some((name, m, j)) => spec_group_parameters(cs@, i as int) == Some(
                ((name.start as int, name.end as int), m, j as int),
            ),
            None => spec_group_parameters(cs@, i as int) is None,
        },
{
    let (name, i2) = match next_raw(cs, i) {
        Some(x) => x,
        None => return None,
    };
    let (separator, i3) = match next_raw(cs, i2) {
        Some(x) => x,
        None => return None,
    };
    let (matcher, i4) = match next_raw(cs, i3) {
        Some(x) => x,
        None => return None,
    };
    let (closing, i5) = match next_raw(cs, i4) {
        Some(x) => x,
        None => return None,
    };
    match separator {
        RawToken::GroupSeparator => {},
        _ => return None,
    }
    match closing {
        RawToken::GroupClosing => {},
        _ => return None,
    }
    let name = match name {
        RawToken::Text(r) => r,
        _ => return None,
    };
    let m = match matcher {
        RawToken::MatchOne => Matcher::One,
        RawToken::MatchAny => Matcher::Any,
        _ => return None,
    };
    Some((name, m, i5))
}

/// Extends the previous text token when it is present and is contiguous to `range`,
/// otherwise pushes a new text token into the vector.
pub fn append_text(tokens: &mut Vec<Token>, range: Range<usize>)
    ensures
        final(tokens)@.map_values(|t: Token| t@) == spec_append_text(
            old(tokens)@.map_values(|t: Token| t@),
            range.start as int,
            range.end as int,
        ),
{
    let ghost old_v = tokens@.map_values(|t: Token| t@);
    let n = tokens.len();
    if n > 0 {
        let merged = match &tokens[n - 1] {
            Token::Text(prev) => if prev.end == range.start {
                Some(prev.start)
            } else {
                None
            },
            _ => None,
        };
        match merged {
            Some(start) => {
                tokens.set(n - 1, Token::Text(Range { start, end: range.end }));
                assert(tokens@.map_values(|t: Token| t@) =~= spec_append_text(
                    old_v,
                    range.start as int,
                    range.end as int,
                ));
                return;
            },
            None => {},
        }
    }
    tokens.push(Token::Text(range));
    assert(tokens@.map_values(|t: Token| t@) =~= spec_append_text(
        old_v,
        range.start as int,
        range.end as int,
    ));
}

/// Skips the next `n` raw tokens of the iterator.
pub fn skip_n(it: &mut RawPattern, n: usize)
    ensures
        final(it).chars() == old(it).chars(),
        final(it).position() == skipped(old(it).chars(), old(it).position(), n as nat),
{
    let mut k: usize = 0;
    while k < n
        invariant
            k <= n,
            it.chars() == old(it).chars(),
            skipped(old(it).chars(), old(it).position(), n as nat) == skipped(
                it.chars(),
                it.position(),
                (n - k) as nat,
            ),
        decreases n - k,
    {
        it.next();
        k += 1;
    }
}

/// The position after skipping `n` raw tokens from position `i`.
pub open spec fn skipped(cs: Seq<char>, i: int, n: nat) -> int
    decreases n,
{
    if n == 0 {
        i
    } else {
        match raw_at(cs, i) {
            Some((_, j)) => skipped(cs, j, (n - 1) as nat),
            None => skipped(cs, i, (n - 1) as nat),
        }
    }
}

/// Skipping the raw tokens of a named wildcard lands after its closing bracket.
proof fn lemma_skip_group(cs: Seq<char>, i: int)
    requires
        spec_group_parameters(cs, i) is Some,
    ensures
        skipped(cs, i, 4) == spec_group_parameters(cs, i).unwrap().2,
{
    reveal_with_fuel(skipped, 5);
}

/// Parses a string pattern into its components.
pub fn tokens(pattern: &str) -> (toks: Vec<Token>)
    ensures
        toks@.map_values(|t: Token| t@) == spec_tokens(pattern@),
        tokens_in_bounds(spec_tokens(pattern@), pattern@.len() as int),
        spec_tokens(pattern@).len() <= pattern@.len(),
{
    let mut raw_tokens = RawPattern::new(pattern);
    let ghost cs = raw_tokens.pattern@;
    let mut toks: Vec<Token> = Vec::new();
    proof {
        lemma_tokens_in_bounds(cs, 0, Seq::empty());
        lemma_tokens_len(cs, 0, Seq::empty());
        assert(toks@.map_values(|t: Token| t@) =~= Seq::<TokenView>::empty());
    }
    while raw_tokens.index < raw_tokens.pattern.len()
        invariant
            raw_tokens.index <= cs.len(),
            raw_tokens.pattern@ == cs,
            cs == pattern@,
            spec_tokens(cs) == tokens_from(
                cs,
                raw_tokens.index as int,
                toks@.map_values(|t: Token| t@),
            ),
        decreases cs.len() - raw_tokens.index,
    {
        let prev_index = raw_tokens.index;
        proof {
            lemma_raw_at(cs, prev_index as int);
        }
        let ghost acc = toks@.map_values(|t: Token| t@);
        let raw = match raw_tokens.next() {
            Some(r) => r,
            None => {
                return toks;
            },
        };
        let curr_index = raw_tokens.index;
        match raw {
            RawToken::Escape => {
                if curr_index < raw_tokens.pattern.len() {
                    proof {
                        lemma_raw_at(cs, curr_index as int);
                    }
                }
                match next_raw(&raw_tokens.pattern, curr_index) {
                    Some((next, peek_index)) => {
                        if next.is_escapable() {
                            append_text(&mut toks, Range { start: curr_index, end: peek_index });
                            skip_n(&mut raw_tokens, 1);
                            proof {
                                reveal_with_fuel(skipped, 2);
                            }
                        } else {
                            append_text(&mut toks, Range { start: prev_index, end: curr_index });
                        }
                    },
                    None => {
                        append_text(&mut toks, Range { start: prev_index, end: curr_index });
                    },
                }
            },
            RawToken::GroupOpening => {
                proof {
                    lemma_group_parameters(cs, curr_index as int);
                }
                match group_parameters(&raw_tokens.pattern, curr_index) {
                    Some((name, m, _)) => {
                        toks.push(Token::Wildcard { name: Some(name), matcher: m });
                        proof {
                            assert(toks@.map_values(|t: Token| t@) =~= acc.push(
                                TokenView::Wildcard {
                                    name: Some((name.start as int, name.end as int)),
                                    matcher: m,
                                },
                            ));
                            lemma_skip_group(cs, curr_index as int);
                        }
                        skip_n(&mut raw_tokens, 4);
                    },
                    None => {
                        append_text(&mut toks, Range { start: prev_index, end: curr_index });
                    },
                }
            },
            RawToken::MatchOne => {
                toks.push(Token::Wildcard { name: None, matcher: Matcher::One });
                assert(toks@.map_values(|t: Token| t@) =~= acc.push(
                    TokenView::Wildcard { name: None, matcher: Matcher::One },
                ));
            },
            RawToken::MatchAny => {
                toks.push(Token::Wildcard { name: None, matcher: Matcher::Any });
                assert(toks@.map_values(|t: Token| t@) =~= acc.push(
                    TokenView::Wildcard { name: None, matcher: Matcher::Any },
                ));
            },
            _ => {
                append_text(&mut toks, Range { start: prev_index, end: curr_index });
            },
        }
    }
    toks
}

} // verus!
