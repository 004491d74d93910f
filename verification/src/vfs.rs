//! Paths as plain strings, with `/` as the separator.

pub mod kind;

use vstd::prelude::*;
use crate::text::chars_of;

verus! {

/// The separator of path components.
pub const SLASH: char = '/';

/// The pieces of `p` between separators, in order, empty ones included: what
/// `str::split('/')` yields.
pub open spec fn split_slash(p: Seq<char>) -> Seq<Seq<char>>
    decreases p.len(),
{
    if p.len() == 0 {
        seq![Seq::empty()]
    } else {
        let s = split_slash(p.drop_last());
        if p.last() == SLASH {
            s.push(Seq::empty())
        } else {
            s.update(s.len() - 1, s.last().push(p.last()))
        }
    }
}

/// The non-empty pieces of `p` between separators, in order.
pub open spec fn segments(p: Seq<char>) -> Seq<Seq<char>> {
    split_slash(p).filter(|s: Seq<char>| s.len() > 0)
}

proof fn lemma_split_slash_nonempty(p: Seq<char>)
    ensures
        split_slash(p).len() >= 1,
    decreases p.len(),
{
    if p.len() > 0 {
        lemma_split_slash_nonempty(p.drop_last());
    }
}

/// The pieces of `cs` between separators: the finished ones and the one in progress.
pub(crate) fn split_pieces(cs: &Vec<char>) -> (r: (Vec<Vec<char>>, Vec<char>))
    ensures
        r.0@.map_values(|v: Vec<char>| v@).push(r.1@) == split_slash(cs@),
{
    let mut done: Vec<Vec<char>> = Vec::new();
    let mut cur: Vec<char> = Vec::new();
    let mut i: usize = 0;
    assert(cs@.take(0) =~= Seq::<char>::empty());
    assert(done@.map_values(|v: Vec<char>| v@).push(cur@) =~= seq![Seq::<char>::empty()]);
    while i < cs.len()
        invariant
            i <= cs@.len(),
            done@.map_values(|v: Vec<char>| v@).push(cur@) == split_slash(cs@.take(i as int)),
        decreases cs@.len() - i,
    {
        let ghost before = done@.map_values(|v: Vec<char>| v@);
        let ghost cur0 = cur@;
        assert(cs@.take(i + 1).drop_last() =~= cs@.take(i as int));
        assert(cs@.take(i + 1).last() == cs@[i as int]);
        if cs[i] == SLASH {
            let mut piece: Vec<char> = Vec::new();
            std::mem::swap(&mut piece, &mut cur);
            done.push(piece);
            assert(done@.map_values(|v: Vec<char>| v@) =~= before.push(cur0));
            assert(done@.map_values(|v: Vec<char>| v@).push(cur@) =~= before.push(cur0).push(
                Seq::<char>::empty(),
            ));
        } else {
            cur.push(cs[i]);
            assert(before.push(cur@) =~= before.push(cur0).update(
                before.push(cur0).len() - 1,
                before.push(cur0).last().push(cs@[i as int]),
            ));
        }
        i += 1;
    }
    assert(cs@.take(i as int) =~= cs@);
    (done, cur)
}

/// The path `p` without the separators at its end: what `str::trim_end_matches('/')`
/// yields.
pub open spec fn trim_slashes(p: Seq<char>) -> Seq<char>
    decreases p.len(),
{
    if p.len() > 0 && p.last() == SLASH {
        trim_slashes(p.drop_last())
    } else {
        p
    }
}

/// The position of the last separator of `p`, if it has one.
pub open spec fn last_slash(p: Seq<char>) -> Option<int>
    decreases p.len(),
{
    if p.len() == 0 {
        None
    } else if p.last() == SLASH {
        Some(p.len() - 1)
    } else {
        last_slash(p.drop_last())
    }
}

proof fn lemma_last_slash(p: Seq<char>)
    ensures
        last_slash(p) matches Some(k) ==> 0 <= k < p.len() && p[k] == SLASH,
    decreases p.len(),
{
    if p.len() > 0 && p.last() != SLASH {
        lemma_last_slash(p.drop_last());
    }
}

/// The length of `cs` without its trailing separators.
fn trimmed_len(cs: &Vec<char>) -> (n: usize)
    ensures
        n <= cs@.len(),
        cs@.take(n as int) == trim_slashes(cs@),
{
    let mut n = cs.len();
    assert(cs@.take(n as int) =~= cs@);
    while n > 0 && cs[n - 1] == SLASH
        invariant
            n <= cs@.len(),
            trim_slashes(cs@.take(n as int)) == trim_slashes(cs@),
        decreases n,
    {
        assert(cs@.take(n as int).drop_last() =~= cs@.take(n - 1));
        n -= 1;
    }
    n
}

/// The position of the last separator among `cs[..n]`.
fn find_last_slash(cs: &Vec<char>, n: usize) -> (r: Option<usize>)
    requires
        n <= cs@.len(),
    ensures
        match r {
            Some(k) => last_slash(cs@.take(n as int)) == Some(k as int),
            None => last_slash(cs@.take(n as int)) is None,
        },
{
    let mut k = n;
    while k > 0
        invariant
            k <= n <= cs@.len(),
            last_slash(cs@.take(n as int)) == last_slash(cs@.take(k as int)),
        decreases k,
    {
        assert(cs@.take(k as int).drop_last() =~= cs@.take(k - 1));
        if cs[k - 1] == SLASH {
            return Some(k - 1);
        }
        k -= 1;
    }
    None
}

/// What follows the last separator of a path; the whole path where it has none.
pub open spec fn after_last_slash(p: Seq<char>) -> Seq<char> {
    match last_slash(p) {
        Some(k) => p.subrange(k + 1, p.len() as int),
        None => p,
    }
}

/// What follows the last separator of a path: `path.rsplit('/').next()`.
pub fn last_segment(path: &str) -> (r: String)
    ensures
        r@ == after_last_slash(path@),
{
    let cs = chars_of(path);
    let n = cs.len();
    assert(cs@.take(n as int) =~= cs@);
    proof {
        lemma_last_slash(cs@);
    }
    match find_last_slash(&cs, n) {
        Some(k) => {
            let s = crate::text::string_of_range(&cs, k + 1, n);
            assert(s@ =~= after_last_slash(path@));
            s
        },
        None => {
            let s = crate::text::string_of_range(&cs, 0, n);
            assert(s@ =~= after_last_slash(path@));
            s
        },
    }
}

/// The last component of a path: what follows its last separator, trailing separators
/// left out.
pub open spec fn spec_file_name(p: Seq<char>) -> Seq<char> {
    let t = trim_slashes(p);
    match last_slash(t) {
        Some(k) => t.subrange(k + 1, t.len() as int),
        None => t,
    }
}

/// The last component of a path; `path.trim_end_matches('/').rsplit('/').next()`.
pub fn file_name(path: &str) -> (r: Option<String>)
    ensures
        r matches Some(s) && s@ == spec_file_name(path@),
{
    let cs = chars_of(path);
    let n = trimmed_len(&cs);
    proof {
        lemma_last_slash(cs@.take(n as int));
    }
    match find_last_slash(&cs, n) {
        Some(k) => {
            let s = crate::text::string_of_range(&cs, k + 1, n);
            assert(s@ =~= spec_file_name(path@));
            Some(s)
        },
        None => {
            let s = crate::text::string_of_range(&cs, 0, n);
            assert(s@ =~= spec_file_name(path@));
            Some(s)
        },
    }
}

/// The parent of a path: what comes before its last separator, trailing separators
/// left out (`/` when that is empty); none for a path without a separator.
pub open spec fn spec_parent(p: Seq<char>) -> Option<Seq<char>> {
    let t = trim_slashes(p);
    match last_slash(t) {
        Some(k) => if k == 0 {
            Some(seq![SLASH])
        } else {
            Some(t.subrange(0, k))
        },
        None => None,
    }
}

/// The parent of a path.
pub fn parent(path: &str) -> (r: Option<String>)
    ensures
        match spec_parent(path@) {
            Some(p) => r matches Some(s) && s@ == p,
            None => r is None,
        },
{
    let cs = chars_of(path);
    let n = trimmed_len(&cs);
    proof {
        lemma_last_slash(cs@.take(n as int));
    }
    match find_last_slash(&cs, n) {
        Some(k) => {
            if k == 0 {
                let mut s = String::new();
                s.push(SLASH);
                assert(s@ =~= seq![SLASH]);
                Some(s)
            } else {
                let s = crate::text::string_of_range(&cs, 0, k);
                assert(s@ =~= cs@.take(n as int).subrange(0, k as int));
                Some(s)
            }
        },
        None => None,
    }
}

/// The components of a path: `/` first for an absolute path, then its non-empty
/// pieces between separators.
pub open spec fn spec_components(p: Seq<char>) -> Seq<Seq<char>> {
    if p.len() > 0 && p[0] == SLASH {
        seq![seq![SLASH]] + segments(p)
    } else {
        segments(p)
    }
}

/// The non-empty pieces of `cs` between separators, as strings.
fn segment_strings(cs: &Vec<char>) -> (v: Vec<String>)
    ensures
        v@.map_values(|s: String| s@) == segments(cs@),
{
    let (pieces, last) = split_pieces(cs);
    let ghost all = pieces@.map_values(|v: Vec<char>| v@).push(last@);
    let ghost f = |s: Seq<char>| s.len() > 0;
    let mut out: Vec<String> = Vec::new();
    let mut i: usize = 0;
    assert(all.take(0) =~= Seq::<Seq<char>>::empty());
    proof {
        reveal(Seq::filter);
        assert(out@.map_values(|s: String| s@) =~= Seq::<Seq<char>>::empty().filter(f));
    }
    while i < pieces.len()
        invariant
            i <= pieces@.len(),
            all == pieces@.map_values(|v: Vec<char>| v@).push(last@),
            f == (|s: Seq<char>| s.len() > 0),
            out@.map_values(|s: String| s@) == all.take(i as int).filter(f),
        decreases pieces@.len() - i,
    {
        let piece: &Vec<char> = &pieces[i];
        assert(piece@ == all[i as int]);
        proof {
            assert(all.take(i + 1) =~= all.take(i as int).push(all[i as int]));
            all.take(i as int).lemma_filter_push(all[i as int], f);
        }
        if piece.len() > 0 {
            let s = crate::text::string_of(piece.as_slice());
            let ghost before = out@;
            out.push(s);
            assert(out@.map_values(|s: String| s@) =~= before.map_values(|s: String| s@).push(
                piece@,
            ));
        }
        i += 1;
    }
    proof {
        assert(all.take(i as int + 1) =~= all.take(i as int).push(last@));
        all.take(i as int).lemma_filter_push(last@, f);
        assert(all.take(i as int + 1) =~= all);
    }
    if last.len() > 0 {
        let s = crate::text::string_of(last.as_slice());
        let ghost before = out@;
        out.push(s);
        assert(out@.map_values(|s: String| s@) =~= before.map_values(|s: String| s@).push(last@));
    }
    out
}

/// The components of a path.
pub fn components(path: &str) -> (v: Vec<String>)
    ensures
        v@.map_values(|s: String| s@) == spec_components(path@),
{
    let cs = chars_of(path);
    let segs = segment_strings(&cs);
    if cs.len() > 0 && cs[0] == SLASH {
        let mut out: Vec<String> = Vec::new();
        let mut root = String::new();
        root.push(SLASH);
        out.push(root);
        let mut i: usize = 0;
        while i < segs.len()
            invariant
                i <= segs@.len(),
                out@.map_values(|s: String| s@) == seq![seq![SLASH]] + segs@.map_values(
                    |s: String| s@,
                ).take(i as int),
            decreases segs@.len() - i,
        {
            let ghost before = out@;
            out.push(segs[i].clone());
            assert(out@.map_values(|s: String| s@) =~= before.map_values(|s: String| s@).push(
                segs@[i as int]@,
            ));
            assert(segs@.map_values(|s: String| s@).take(i + 1) =~= segs@.map_values(
                |s: String| s@,
            ).take(i as int).push(segs@[i as int]@));
            i += 1;
        }
        assert(segs@.map_values(|s: String| s@).take(i as int) =~= segs@.map_values(
            |s: String| s@,
        ));
        out
    } else {
        segs
    }
}

/// `a` joined with `b`: `b` itself when it is absolute, else `b` after `a` and a
/// separator, unless `a` already ends with one.
pub open spec fn spec_join(a: Seq<char>, b: Seq<char>) -> Seq<char> {
    if b.len() > 0 && b[0] == SLASH {
        b
    } else if a.len() > 0 && a.last() == SLASH {
        a + b
    } else {
        a + seq![SLASH] + b
    }
}

/// Joins two paths.
pub fn join(a: &str, b: &str) -> (r: String)
    ensures
        r@ == spec_join(a@, b@),
{
    let acs = chars_of(a);
    let bcs = chars_of(b);
    if bcs.len() > 0 && bcs[0] == SLASH {
        return b.to_owned();
    }
    let mut r = a.to_owned();
    if !(acs.len() > 0 && acs[acs.len() - 1] == SLASH) {
        r.push(SLASH);
    }
    r.push_str(b);
    r
}

/// Whether a piece of a path is `.`.
pub open spec fn is_dot(s: Seq<char>) -> bool {
    s.len() == 1 && s[0] == '.'
}

/// The components of a path as `std::path::Path::components` yields them on Unix:
/// `/` for the root, `.` only at the start of a relative path, then the non-empty
/// pieces between separators other than `.`.
pub open spec fn std_components(p: Seq<char>) -> Seq<Seq<char>> {
    let root = p.len() > 0 && p[0] == SLASH;
    let lead: Seq<Seq<char>> = if root {
        seq![seq![SLASH]]
    } else if is_dot(split_slash(p)[0]) {
        seq![seq!['.']]
    } else {
        Seq::empty()
    };
    lead + split_slash(p).filter(|s: Seq<char>| s.len() > 0 && !is_dot(s))
}

/// Whether a piece of a path is `.`.
fn piece_is_dot(v: &Vec<char>) -> (b: bool)
    ensures
        b == is_dot(v@),
{
    v.len() == 1 && v[0] == '.'
}

/// The components of a path as `std::path::Path::components` yields them on Unix.
pub fn path_components(path: &str) -> (v: Vec<String>)
    ensures
        v@.map_values(|s: String| s@) == std_components(path@),
{
    let cs = chars_of(path);
    let (pieces, last) = split_pieces(&cs);
    let ghost all = pieces@.map_values(|v: Vec<char>| v@).push(last@);
    let ghost f = |s: Seq<char>| s.len() > 0 && !is_dot(s);
    let mut out: Vec<String> = Vec::new();
    let root = cs.len() > 0 && cs[0] == SLASH;
    let first: &Vec<char> = if pieces.len() > 0 {
        &pieces[0]
    } else {
        &last
    };
    assert(first@ == all[0]);
    if root {
        let mut r = String::new();
        r.push(SLASH);
        out.push(r);
    } else if piece_is_dot(first) {
        let mut r = String::new();
        r.push('.');
        out.push(r);
    }
    let ghost lead = out@.map_values(|s: String| s@);
    assert(lead =~= (if root {
        seq![seq![SLASH]]
    } else if is_dot(split_slash(cs@)[0]) {
        seq![seq!['.']]
    } else {
        Seq::<Seq<char>>::empty()
    }));
    let mut i: usize = 0;
    proof {
        reveal(Seq::filter);
        assert(all.take(0) =~= Seq::<Seq<char>>::empty());
        assert(out@.map_values(|s: String| s@) =~= lead + all.take(0).filter(f));
    }
    while i < pieces.len()
        invariant
            i <= pieces@.len(),
            all == pieces@.map_values(|v: Vec<char>| v@).push(last@),
            f == (|s: Seq<char>| s.len() > 0 && !is_dot(s)),
            out@.map_values(|s: String| s@) == lead + all.take(i as int).filter(f),
        decreases pieces@.len() - i,
    {
        let piece: &Vec<char> = &pieces[i];
        assert(piece@ == all[i as int]);
        proof {
            assert(all.take(i + 1) =~= all.take(i as int).push(all[i as int]));
            all.take(i as int).lemma_filter_push(all[i as int], f);
        }
        if piece.len() > 0 && !piece_is_dot(piece) {
            let s = crate::text::string_of(piece.as_slice());
            let ghost before = out@;
            out.push(s);
            assert(out@.map_values(|s: String| s@) =~= before.map_values(|s: String| s@).push(
                piece@,
            ));
        }
        i += 1;
    }
    proof {
        assert(all.take(i as int + 1) =~= all.take(i as int).push(last@));
        all.take(i as int).lemma_filter_push(last@, f);
        assert(all.take(i as int + 1) =~= all);
    }
    if last.len() > 0 && !piece_is_dot(&last) {
        let s = crate::text::string_of(last.as_slice());
        let ghost before = out@;
        out.push(s);
        assert(out@.map_values(|s: String| s@) =~= before.map_values(|s: String| s@).push(last@));
    }
    out
}

} // verus!
