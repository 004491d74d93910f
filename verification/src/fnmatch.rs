//! An `fnmatch`-like path matcher.
//!
//! It can match combinations of literal strings, the `*` (pronounced "star") wildcard
//! that matches zero or more characters, and the `?` wildcard that matches exactly one
//! character. A character is a Unicode scalar value. The matcher works on file paths,
//! so the path separator is special and is never matched by wildcards.
//!
//! Named wildcards, written `(groupname:wildcard)` where `wildcard` is one of the
//! wildcards above, associate their name with the text that they matched, as the
//! capture groups of a regular expression do.

pub mod token;
pub mod laws;

use vstd::prelude::*;
use crate::names::NameMap;
use crate::text::{chars_of, string_of_range};
use crate::fnmatch::token::{spec_tokens, tokens, tokens_in_bounds, Matcher, Token, TokenView};

verus! {

/// The path separator, which wildcards never match.
pub const SEPARATOR: char = '/';

/// Whether the path `s` from position `j` on is matched by the tokens `toks[k..]` of
/// the pattern `p`: text matches itself, `?` one character other than the separator,
/// `*` any run of characters without the separator.
pub open spec fn glob(p: Seq<char>, toks: Seq<TokenView>, s: Seq<char>, k: int, j: int) -> bool
    decreases toks.len() - k, s.len() - j,
{
    if k < 0 || j < 0 || j > s.len() {
        false
    } else if k >= toks.len() {
        j == s.len()
    } else {
        match toks[k] {
            TokenView::Text(a, b) => 0 <= a <= b <= p.len() && j + (b - a) <= s.len()
                && s.subrange(j, j + (b - a)) == p.subrange(a, b) && glob(
                p,
                toks,
                s,
                k + 1,
                j + (b - a),
            ),
            TokenView::Wildcard { matcher: Matcher::One, .. } => j < s.len() && s[j] != SEPARATOR
                && glob(p, toks, s, k + 1, j + 1),
            TokenView::Wildcard { matcher: Matcher::Any, .. } => glob(p, toks, s, k + 1, j) || (j
                < s.len() && s[j] != SEPARATOR && glob(p, toks, s, k, j + 1)),
        }
    }
}

/// Where the `*` wildcard `toks[k]`, starting at position `j` of the path, ends: as
/// early as the rest of the pattern allows.
pub open spec fn star_end(p: Seq<char>, toks: Seq<TokenView>, s: Seq<char>, k: int, j: int) -> int
    decreases s.len() - j,
{
    if j < 0 || j >= s.len() || glob(p, toks, s, k + 1, j) || s[j] == SEPARATOR {
        j
    } else {
        star_end(p, toks, s, k, j + 1)
    }
}

/// The capture of a wildcard: its name, when it has one, with the text it matched.
pub open spec fn named(p: Seq<char>, name: Option<(int, int)>, value: Seq<char>) -> Seq<
    (Seq<char>, Seq<char>),
> {
    match name {
        Some((a, b)) => seq![(p.subrange(a, b), value)],
        None => Seq::empty(),
    }
}

/// The captures of the named wildcards `toks[k..]`, in pattern order, when they match
/// the path from position `j` on, each `*` matching as little as it can.
pub open spec fn captures_from(p: Seq<char>, toks: Seq<TokenView>, s: Seq<char>, k: int, j: int) -> Seq<
    (Seq<char>, Seq<char>),
>
    decreases toks.len() - k,
{
    if k < 0 || k >= toks.len() || j < 0 || j > s.len() {
        Seq::empty()
    } else {
        match toks[k] {
            TokenView::Text(a, b) => captures_from(p, toks, s, k + 1, j + (b - a)),
            TokenView::Wildcard { name, matcher: Matcher::One } => named(
                p,
                name,
                s.subrange(j, j + 1),
            ) + captures_from(p, toks, s, k + 1, j + 1),
            TokenView::Wildcard { name, matcher: Matcher::Any } => {
                let m = star_end(p, toks, s, k, j);
                named(p, name, s.subrange(j, m)) + captures_from(p, toks, s, k + 1, m)
            },
        }
    }
}

/// The map that the captures set, in order, a later capture replacing an earlier
/// one of the same name.
pub open spec fn pairs_map(ps: Seq<(Seq<char>, Seq<char>)>) -> Map<Seq<char>, Seq<char>>
    decreases ps.len(),
{
    if ps.len() == 0 {
        Map::empty()
    } else {
        pairs_map(ps.drop_last()).insert(ps.last().0, ps.last().1)
    }
}

/// Whether the pattern `p` matches the whole path `s`.
pub open spec fn pattern_matches(p: Seq<char>, s: Seq<char>) -> bool {
    glob(p, spec_tokens(p), s, 0, 0)
}

/// The captures of the named wildcards of `p` when it matches the path `s`.
pub open spec fn pattern_captures(p: Seq<char>, s: Seq<char>) -> Map<Seq<char>, Seq<char>> {
    pairs_map(captures_from(p, spec_tokens(p), s, 0, 0))
}

/// The texts captured by the named wildcards of a matched pattern.
#[derive(Debug, Clone, PartialEq)]
pub struct Captures {
    values: NameMap<String>,
}

impl Captures {
    /// The captured text of each name.
    pub closed spec fn spec_map(&self) -> Map<Seq<char>, Seq<char>> {
        self.values@.map_values(|v: String| v@)
    }

    /// The text captured by the wildcard `name`, if the pattern has one of that name.
    pub fn get(&self, name: &str) -> (r: Option<&String>)
        ensures
            match r {
                Some(v) => self.spec_map().dom().contains(name@) && v@ == self.spec_map()[name@],
                None => !self.spec_map().dom().contains(name@),
            },
    {
        self.values.get(name)
    }

    /// Whether nothing was captured.
    pub fn is_empty(&self) -> (b: bool)
        ensures
            b == (self.spec_map().dom() == Set::<Seq<char>>::empty()),
    {
        let b = self.values.is_empty();
        proof {
            if !b {
                assert(!(self.values@.dom() =~= Set::<Seq<char>>::empty()));
                let k = choose|k: Seq<char>| self.values@.dom().contains(k);
                assert(self.spec_map().dom().contains(k));
            } else {
                assert(self.spec_map().dom() =~= Set::<Seq<char>>::empty());
            }
        }
        b
    }
}

/// Whether `s[j..j + (b - a)]` holds the characters `p[a..b]`.
fn same_chars(s: &Vec<char>, j: usize, p: &Vec<char>, a: usize, b: usize) -> (r: bool)
    requires
        a <= b <= p@.len(),
        j <= s@.len(),
    ensures
        r == (j + (b - a) <= s@.len() && s@.subrange(j as int, j + (b - a)) == p@.subrange(
            a as int,
            b as int,
        )),
{
    if b - a > s.len() - j {
        return false;
    }
    let mut i: usize = 0;
    while i < b - a
        invariant
            a <= b <= p@.len(),
            j + (b - a) <= s.len(),
            s.len() == s@.len(),
            i <= b - a,
            s@.subrange(j as int, j + i) == p@.subrange(a as int, a + i),
        decreases b - a - i,
    {
        if s[j + i] != p[a + i] {
            assert(s@.subrange(j as int, j + (b - a))[i as int] != p@.subrange(
                a as int,
                b as int,
            )[i as int]);
            return false;
        }
        assert(s@.subrange(j as int, j + i + 1) =~= s@.subrange(j as int, j + i).push(s@[j + i]));
        assert(p@.subrange(a as int, a + i + 1) =~= p@.subrange(a as int, a + i).push(p@[a + i]));
        i += 1;
    }
    true
}

/// The row `k` of the match table: whether `toks[k..]` matches the path from each
/// position on, given the row `k + 1`.
fn glob_row(p: &Vec<char>, toks: &Vec<Token>, s: &Vec<char>, k: usize, next: &Vec<bool>) -> (cur: Vec<bool>)
    requires
        k < toks@.len(),
        s@.len() < usize::MAX,
        tokens_in_bounds(toks@.map_values(|t: Token| t@), p@.len() as int),
        next@.len() == s@.len() + 1,
        forall|j: int|
            0 <= j <= s@.len() ==> #[trigger] next@[j] == glob(
                p@,
                toks@.map_values(|t: Token| t@),
                s@,
                k + 1,
                j,
            ),
    ensures
        cur@.len() == s@.len() + 1,
        forall|j: int|
            0 <= j <= s@.len() ==> #[trigger] cur@[j] == glob(
                p@,
                toks@.map_values(|t: Token| t@),
                s@,
                k as int,
                j,
            ),
{
    let ghost tv = toks@.map_values(|t: Token| t@);
    let n = s.len();
    let mut cur: Vec<bool> = Vec::new();
    let mut z: usize = 0;
    while z <= n
        invariant
            z <= n + 1,
            n == s@.len(),
            n < usize::MAX,
            cur@.len() == z,
        decreases n + 1 - z,
    {
        cur.push(false);
        z += 1;
    }
    let mut j: usize = n + 1;
    while j > 0
        invariant
            j <= n + 1,
            n == s@.len(),
            n < usize::MAX,
            k < tv.len(),
            tv == toks@.map_values(|t: Token| t@),
            tokens_in_bounds(tv, p@.len() as int),
            cur@.len() == n + 1,
            next@.len() == n + 1,
            forall|i: int| 0 <= i <= n ==> #[trigger] next@[i] == glob(p@, tv, s@, k + 1, i),
            forall|i: int| j <= i <= n ==> #[trigger] cur@[i] == glob(p@, tv, s@, k as int, i),
        decreases j,
    {
        j -= 1;
        assert(tv[k as int] == toks@[k as int]@);
        let v = match &toks[k] {
            Token::Text(r) => {
                assert(0 <= r.start <= r.end <= p@.len()) by {
                    assert(tv[k as int] == TokenView::Text(r.start as int, r.end as int));
                }
                if same_chars(s, j, p, r.start, r.end) {
                    next[j + (r.end - r.start)]
                } else {
                    false
                }
            },
            Token::Wildcard { matcher: Matcher::One, .. } => {
                if j < n && s[j] != SEPARATOR {
                    next[j + 1]
                } else {
                    false
                }
            },
            Token::Wildcard { matcher: Matcher::Any, .. } => {
                if next[j] {
                    true
                } else if j < n && s[j] != SEPARATOR {
                    cur[j + 1]
                } else {
                    false
                }
            },
        };
        cur.set(j, v);
    }
    cur
}

/// The match table: row `n - k` holds, for each position of the path, whether
/// `toks[k..]` matches the path from there on.
fn glob_table(p: &Vec<char>, toks: &Vec<Token>, s: &Vec<char>) -> (rows: Vec<Vec<bool>>)
    requires
        s@.len() < usize::MAX,
        toks@.len() < usize::MAX,
        tokens_in_bounds(toks@.map_values(|t: Token| t@), p@.len() as int),
    ensures
        rows@.len() == toks@.len() + 1,
        forall|r: int| 0 <= r < rows@.len() ==> (#[trigger] rows@[r])@.len() == s@.len() + 1,
        forall|k: int, j: int|
            0 <= k <= toks@.len() && 0 <= j <= s@.len() ==> #[trigger] rows@[toks@.len() - k]@[j]
                == glob(p@, toks@.map_values(|t: Token| t@), s@, k, j),
{
    let ghost tv = toks@.map_values(|t: Token| t@);
    let n = s.len();
    let mut last: Vec<bool> = Vec::new();
    let mut z: usize = 0;
    while z <= n
        invariant
            z <= n + 1,
            n == s@.len(),
            n < usize::MAX,
            last@.len() == z,
            forall|i: int| 0 <= i < z ==> #[trigger] last@[i] == (i == n),
        decreases n + 1 - z,
    {
        last.push(z == n);
        z += 1;
    }
    assert forall|i: int| 0 <= i <= n implies #[trigger] last@[i] == glob(
        p@,
        tv,
        s@,
        tv.len() as int,
        i,
    ) by {}
    let mut rows: Vec<Vec<bool>> = Vec::new();
    rows.push(last);
    let mut k: usize = toks.len();
    while k > 0
        invariant
            k <= toks@.len(),
            n == s@.len(),
            n < usize::MAX,
            tv == toks@.map_values(|t: Token| t@),
            tokens_in_bounds(tv, p@.len() as int),
            rows@.len() == toks@.len() - k + 1,
            forall|r: int| 0 <= r < rows@.len() ==> (#[trigger] rows@[r])@.len() == n + 1,
            forall|kk: int, j: int|
                k <= kk <= toks@.len() && 0 <= j <= n ==> #[trigger] rows@[toks@.len() - kk]@[j]
                    == glob(p@, tv, s@, kk, j),
        decreases k,
    {
        k -= 1;
        let r = toks.len() - k - 1;
        let row = glob_row(p, toks, s, k, &rows[r]);
        let ghost before = rows@;
        rows.push(row);
        assert forall|kk: int, j: int|
            k <= kk <= toks@.len() && 0 <= j <= n implies #[trigger] rows@[toks@.len() - kk]@[j]
            == glob(p@, tv, s@, kk, j) by {
            if kk > k {
                assert(rows@[toks@.len() - kk] == before[toks@.len() - kk]);
            }
        }
    }
    rows
}

/// The path matcher. See the module documentation for usage.
#[derive(Debug)]
pub struct Pattern {
    pattern: String,
    tokens: Vec<Token>,
}

impl Pattern {
    #[verifier::type_invariant]
    closed spec fn tokens_inv(self) -> bool {
        &&& self.tokens@.map_values(|t: Token| t@) == spec_tokens(self.pattern@)
        &&& tokens_in_bounds(spec_tokens(self.pattern@), self.pattern@.len() as int)
        &&& self.pattern@.len() < usize::MAX
        &&& spec_tokens(self.pattern@).len() <= self.pattern@.len()
    }

    /// The pattern text.
    pub closed spec fn spec_pattern(&self) -> Seq<char> {
        self.pattern@
    }

    /// Creates a new Pattern.
    pub fn new(s: &str) -> (p: Self)
        requires
            s@.len() < usize::MAX,
        ensures
            p.spec_pattern() == s@,
    {
        let toks = tokens(s);
        Pattern { pattern: s.to_owned(), tokens: toks }
    }

    /// The pattern text.
    pub fn as_str(&self) -> (s: &str)
        ensures
            s@ == self.spec_pattern(),
    {
        self.pattern.as_str()
    }

    /// Tries to match the pattern against a given file path. If it matches, it
    /// returns the texts that the named wildcards matched (none when the pattern
    /// names no wildcard); if it does not, it returns None.
    pub fn matches(&self, path: &str) -> (r: Option<Captures>)
        requires
            path@.len() < usize::MAX,
        ensures
            r is Some == pattern_matches(self.spec_pattern(), path@),
            r matches Some(c) ==> c.spec_map() == pattern_captures(self.spec_pattern(), path@),
    {
        proof {
            use_type_invariant(self);
        }
        let ghost tv = self.tokens@.map_values(|t: Token| t@);
        let p = chars_of(self.pattern.as_str());
        let s = chars_of(path);
        let rows = glob_table(&p, &self.tokens, &s);
        let n = self.tokens.len();
        assert(rows@[n - 0]@[0] == glob(p@, tv, s@, 0, 0));
        if !rows[n][0] {
            return None;
        }
        let mut values: NameMap<String> = NameMap::new();
        let ghost full = captures_from(p@, tv, s@, 0, 0);
        let ghost mut done: Seq<(Seq<char>, Seq<char>)> = Seq::empty();
        assert(done + full =~= full);
        let mut k: usize = 0;
        let mut j: usize = 0;
        assert(values@.map_values(|v: String| v@) =~= Map::<Seq<char>, Seq<char>>::empty());
        while k < n
            invariant
                k <= n,
                n == self.tokens@.len(),
                j <= s@.len(),
                tv == self.tokens@.map_values(|t: Token| t@),
                tokens_in_bounds(tv, p@.len() as int),
                p@ == self.pattern@,
                rows@.len() == n + 1,
                forall|r: int| 0 <= r < rows@.len() ==> (#[trigger] rows@[r])@.len() == s@.len() + 1,
                forall|kk: int, jj: int|
                    0 <= kk <= n && 0 <= jj <= s@.len() ==> #[trigger] rows@[n - kk]@[jj] == glob(
                        p@,
                        tv,
                        s@,
                        kk,
                        jj,
                    ),
                glob(p@, tv, s@, k as int, j as int),
                done + captures_from(p@, tv, s@, k as int, j as int) == full,
                values@.map_values(|v: String| v@) == pairs_map(done),
                s.len() == s@.len(),
            decreases n - k,
        {
            assert(tv[k as int] == self.tokens@[k as int]@);
            match &self.tokens[k] {
                Token::Text(r) => {
                    assert(tv[k as int] == TokenView::Text(r.start as int, r.end as int));
                    assert(r.start <= r.end);
                    assert(j + (r.end - r.start) <= s.len());
                    j = j + (r.end - r.start);
                },
                Token::Wildcard { name, matcher: Matcher::One } => {
                    match name {
                        Some(nr) => {
                            let key = string_of_range(&p, nr.start, nr.end);
                            let value = string_of_range(&s, j, j + 1);
                            let ghost old_map = values@;
                            values.insert(key, value);
                            proof {
                                let pair = (key@, value@);
                                assert(named(p@, Some((nr.start as int, nr.end as int)), value@)
                                    =~= seq![pair]);
                                assert((done + seq![pair]).drop_last() =~= done);
                                assert(values@.map_values(|v: String| v@) =~= old_map.map_values(
                                    |v: String| v@,
                                ).insert(key@, value@));
                                assert(done + captures_from(p@, tv, s@, k as int, j as int) =~= (
                                done + seq![pair]) + captures_from(p@, tv, s@, k + 1, j + 1));
                                done = done + seq![pair];
                            }
                        },
                        None => {
                            assert(done + captures_from(p@, tv, s@, k as int, j as int) =~= done
                                + captures_from(p@, tv, s@, k + 1, j + 1));
                        },
                    }
                    j = j + 1;
                },
                Token::Wildcard { name, matcher: Matcher::Any } => {
                    let mut m = j;
                    while !rows[n - k - 1][m]
                        invariant
                            j <= m <= s@.len(),
                            k < n,
                            n == tv.len(),
                            rows@.len() == n + 1,
                            forall|r: int| 0 <= r < rows@.len() ==> (#[trigger] rows@[r])@.len()
                                == s@.len() + 1,
                            forall|kk: int, jj: int|
                                0 <= kk <= n && 0 <= jj <= s@.len() ==> #[trigger] rows@[n
                                    - kk]@[jj] == glob(p@, tv, s@, kk, jj),
                            tv[k as int] is Wildcard,
                            tv[k as int]->matcher == Matcher::Any,
                            glob(p@, tv, s@, k as int, m as int),
                            star_end(p@, tv, s@, k as int, j as int) == star_end(
                                p@,
                                tv,
                                s@,
                                k as int,
                                m as int,
                            ),
                        decreases s@.len() - m,
                    {
                        assert(rows@[n - (k + 1)]@[m as int] == glob(p@, tv, s@, k + 1, m as int));
                        m = m + 1;
                    }
                    assert(rows@[n - (k + 1)]@[m as int] == glob(p@, tv, s@, k + 1, m as int));
                    match name {
                        Some(nr) => {
                            let key = string_of_range(&p, nr.start, nr.end);
                            let value = string_of_range(&s, j, m);
                            let ghost old_map = values@;
                            values.insert(key, value);
                            proof {
                                let pair = (key@, value@);
                                assert(named(p@, Some((nr.start as int, nr.end as int)), value@)
                                    =~= seq![pair]);
                                assert((done + seq![pair]).drop_last() =~= done);
                                assert(values@.map_values(|v: String| v@) =~= old_map.map_values(
                                    |v: String| v@,
                                ).insert(key@, value@));
                                assert(done + captures_from(p@, tv, s@, k as int, j as int) =~= (
                                done + seq![pair]) + captures_from(p@, tv, s@, k + 1, m as int));
                                done = done + seq![pair];
                            }
                        },
                        None => {
                            assert(done + captures_from(p@, tv, s@, k as int, j as int) =~= done
                                + captures_from(p@, tv, s@, k + 1, m as int));
                        },
                    }
                    j = m;
                },
            }
            k = k + 1;
        }
        proof {
            assert(done + Seq::<(Seq<char>, Seq<char>)>::empty() =~= done);
        }
        Some(Captures { values })
    }
}

impl Clone for Pattern {
    fn clone(&self) -> (r: Self)
        ensures
            r.spec_pattern() == self.spec_pattern(),
    {
        proof {
            use_type_invariant(self);
        }
        Pattern::new(self.pattern.as_str())
    }
}

} // verus!
