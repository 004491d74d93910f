//! What the matcher promises of every pattern and path.

use vstd::prelude::*;
use crate::fnmatch::{captures_from, glob, pairs_map, pattern_captures, pattern_matches, SEPARATOR};
use crate::fnmatch::token::{
    raw_at, spec_append_text, spec_nontext, spec_tokens, text_end, tokens_from,
    Matcher, RawView, TokenView,
};

verus! {

/// The number of path separators in `s`.
pub open spec fn separators(s: Seq<char>) -> nat
    decreases s.len(),
{
    if s.len() == 0 {
        0
    } else {
        (if s[0] == SEPARATOR {
            1nat
        } else {
            0nat
        }) + separators(s.drop_first())
    }
}

/// The number of path separators in the literal text of the tokens `toks[k..]`.
pub open spec fn text_separators(p: Seq<char>, toks: Seq<TokenView>, k: int) -> nat
    decreases toks.len() - k,
{
    if k < 0 || k >= toks.len() {
        0
    } else {
        match toks[k] {
            TokenView::Text(a, b) => separators(p.subrange(a, b)) + text_separators(p, toks, k + 1),
            _ => text_separators(p, toks, k + 1),
        }
    }
}

proof fn lemma_separators_split(s: Seq<char>, i: int)
    requires
        0 <= i <= s.len(),
    ensures
        separators(s) == separators(s.subrange(0, i)) + separators(s.subrange(i, s.len() as int)),
    decreases i,
{
    if i > 0 {
        lemma_separators_split(s.drop_first(), i - 1);
        assert(s.subrange(0, i).drop_first() =~= s.drop_first().subrange(0, i - 1));
        assert(s.subrange(i, s.len() as int) =~= s.drop_first().subrange(i - 1, s.len() - 1));
    } else {
        assert(s.subrange(0, 0) =~= Seq::<char>::empty());
        assert(s.subrange(0, s.len() as int) =~= s);
    }
}

proof fn lemma_glob_separators(p: Seq<char>, toks: Seq<TokenView>, s: Seq<char>, k: int, j: int)
    requires
        glob(p, toks, s, k, j),
    ensures
        separators(s.subrange(j, s.len() as int)) == text_separators(p, toks, k),
    decreases toks.len() - k, s.len() - j,
{
    let rest = s.subrange(j, s.len() as int);
    if k >= toks.len() {
        assert(rest =~= Seq::<char>::empty());
    } else {
        match toks[k] {
            TokenView::Text(a, b) => {
                let l = b - a;
                lemma_glob_separators(p, toks, s, k + 1, j + l);
                lemma_separators_split(rest, l);
                assert(rest.subrange(0, l) =~= s.subrange(j, j + l));
                assert(rest.subrange(l, rest.len() as int) =~= s.subrange(j + l, s.len() as int));
            },
            TokenView::Wildcard { matcher: Matcher::One, .. } => {
                lemma_glob_separators(p, toks, s, k + 1, j + 1);
                assert(rest.drop_first() =~= s.subrange(j + 1, s.len() as int));
            },
            TokenView::Wildcard { matcher: Matcher::Any, .. } => {
                if glob(p, toks, s, k + 1, j) {
                    lemma_glob_separators(p, toks, s, k + 1, j);
                } else {
                    lemma_glob_separators(p, toks, s, k, j + 1);
                    assert(rest.drop_first() =~= s.subrange(j + 1, s.len() as int));
                }
            },
        }
    }
}

/// Wildcards never match the path separator: a path that a pattern matches holds
/// exactly as many separators as the literal text of the pattern.
pub proof fn law_wildcards_skip_separators(p: Seq<char>, s: Seq<char>)
    requires
        pattern_matches(p, s),
    ensures
        separators(s) == text_separators(p, spec_tokens(p), 0),
{
    lemma_glob_separators(p, spec_tokens(p), s, 0, 0);
    assert(s.subrange(0, s.len() as int) =~= s);
}

/// Whether the pattern holds no character with a special meaning.
pub open spec fn is_literal(p: Seq<char>) -> bool {
    forall|i: int| 0 <= i < p.len() ==> spec_nontext(#[trigger] p[i]) is None
}

proof fn lemma_literal_text_end(p: Seq<char>, i: int)
    requires
        is_literal(p),
        0 <= i <= p.len(),
    ensures
        text_end(p, i) == p.len(),
    decreases p.len() - i,
{
    if i < p.len() {
        lemma_literal_text_end(p, i + 1);
    }
}

/// A pattern without wildcards, brackets or escapes matches exactly the path
/// spelled as it is.
pub proof fn law_literal_pattern(p: Seq<char>, s: Seq<char>)
    requires
        is_literal(p),
    ensures
        pattern_matches(p, s) <==> s == p,
{
    let toks = spec_tokens(p);
    if p.len() == 0 {
        assert(toks =~= Seq::<TokenView>::empty());
        if s.len() == 0 {
            assert(s =~= p);
        }
    } else {
        lemma_literal_text_end(p, 0);
        assert(raw_at(p, 0) == Some((RawView::Text(0, p.len() as int), p.len() as int)));
        let one = spec_append_text(Seq::empty(), 0, p.len() as int);
        assert(one =~= seq![TokenView::Text(0, p.len() as int)]);
        assert(toks == tokens_from(p, p.len() as int, one));
        assert(toks == one);
        assert(p.subrange(0, p.len() as int) =~= p);
        if s == p {
            assert(s.subrange(0, p.len() as int) =~= s);
            assert(glob(p, toks, s, 1, p.len() as int));
        } else if pattern_matches(p, s) {
            assert(glob(p, toks, s, 1, p.len() as int));
            assert(s.subrange(0, p.len() as int) =~= s);
        }
    }
}

/// Whether none of the tokens is a named wildcard.
pub open spec fn no_named_wildcards(toks: Seq<TokenView>) -> bool {
    forall|k: int| 0 <= k < toks.len() ==> !(#[trigger] toks[k] matches TokenView::Wildcard {
        name: Some(_),
        ..
    })
}

proof fn lemma_unnamed_captures(p: Seq<char>, toks: Seq<TokenView>, s: Seq<char>, k: int, j: int)
    requires
        no_named_wildcards(toks),
    ensures
        captures_from(p, toks, s, k, j) == Seq::<(Seq<char>, Seq<char>)>::empty(),
    decreases toks.len() - k,
{
    if 0 <= k < toks.len() && 0 <= j <= s.len() {
        let t = toks[k];
        match t {
            TokenView::Text(a, b) => {
                lemma_unnamed_captures(p, toks, s, k + 1, j + (b - a));
            },
            TokenView::Wildcard { name, matcher: Matcher::One } => {
                lemma_unnamed_captures(p, toks, s, k + 1, j + 1);
                assert(name is None);
                assert(captures_from(p, toks, s, k, j) =~= Seq::<(Seq<char>, Seq<char>)>::empty());
            },
            TokenView::Wildcard { name, matcher: Matcher::Any } => {
                let m = crate::fnmatch::star_end(p, toks, s, k, j);
                lemma_unnamed_captures(p, toks, s, k + 1, m);
                assert(name is None);
                assert(captures_from(p, toks, s, k, j) =~= Seq::<(Seq<char>, Seq<char>)>::empty());
            },
        }
    }
}

/// If no wildcard of the pattern is named, a match captures nothing.
pub proof fn law_unnamed_pattern_captures_nothing(p: Seq<char>, s: Seq<char>)
    requires
        no_named_wildcards(spec_tokens(p)),
    ensures
        pattern_captures(p, s) == Map::<Seq<char>, Seq<char>>::empty(),
{
    lemma_unnamed_captures(p, spec_tokens(p), s, 0, 0);
    assert(pairs_map(Seq::<(Seq<char>, Seq<char>)>::empty()) =~= Map::<Seq<char>, Seq<char>>::empty());
}

} // verus!
