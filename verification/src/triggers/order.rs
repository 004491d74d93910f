//! The order of handler command lines: by command, then by arguments, as the
//! derived order of [`Handler`](crate::triggers::Handler) compares them.

use vstd::prelude::*;
use crate::names::{lemma_lex_total, lemma_lex_trans, lex_lt, names_lt};

verus! {

/// A command and its arguments.
pub type Key = (Seq<char>, Seq<Seq<char>>);

/// Lexicographic order of argument lists, arguments compared as text.
pub open spec fn list_lt(a: Seq<Seq<char>>, b: Seq<Seq<char>>) -> bool
    decreases a.len(),
{
    if a.len() == 0 {
        b.len() > 0
    } else if b.len() == 0 {
        false
    } else if a[0] != b[0] {
        lex_lt(a[0], b[0])
    } else {
        list_lt(a.drop_first(), b.drop_first())
    }
}

/// `list_lt` is a strict total order.
pub proof fn lemma_list_total(a: Seq<Seq<char>>, b: Seq<Seq<char>>)
    ensures
        list_lt(a, b) || a == b || list_lt(b, a),
        !(list_lt(a, b) && list_lt(b, a)),
        !list_lt(a, a),
    decreases a.len(),
{
    if a.len() > 0 && b.len() > 0 {
        lemma_lex_total(a[0], b[0]);
        if a[0] == b[0] {
            lemma_list_total(a.drop_first(), b.drop_first());
            if a.drop_first() == b.drop_first() {
                assert(a =~= seq![a[0]] + a.drop_first());
                assert(b =~= seq![b[0]] + b.drop_first());
            }
        }
    }
    if a.len() == 0 && b.len() == 0 {
        assert(a =~= b);
    }
    if a.len() > 0 {
        lemma_list_total(a.drop_first(), a.drop_first());
    }
}

/// `list_lt` is transitive.
pub proof fn lemma_list_trans(a: Seq<Seq<char>>, b: Seq<Seq<char>>, c: Seq<Seq<char>>)
    requires
        list_lt(a, b),
        list_lt(b, c),
    ensures
        list_lt(a, c),
    decreases a.len(),
{
    if a.len() > 0 && b.len() > 0 && c.len() > 0 {
        lemma_lex_total(a[0], b[0]);
        lemma_lex_total(b[0], c[0]);
        lemma_lex_total(a[0], c[0]);
        if a[0] == b[0] && b[0] == c[0] {
            lemma_list_trans(a.drop_first(), b.drop_first(), c.drop_first());
        } else if a[0] != b[0] && b[0] != c[0] {
            lemma_lex_trans(a[0], b[0], c[0]);
        }
    }
}

/// The order of command lines: by command, then by arguments.
pub open spec fn key_lt(a: Key, b: Key) -> bool {
    lex_lt(a.0, b.0) || (a.0 == b.0 && list_lt(a.1, b.1))
}

/// `key_lt` is a strict total order.
pub proof fn lemma_key_total(a: Key, b: Key)
    ensures
        key_lt(a, b) || a == b || key_lt(b, a),
        !(key_lt(a, b) && key_lt(b, a)),
        !key_lt(a, a),
{
    lemma_lex_total(a.0, b.0);
    lemma_list_total(a.1, b.1);
    lemma_lex_total(a.0, a.0);
    lemma_list_total(a.1, a.1);
}

/// `key_lt` is transitive.
pub proof fn lemma_key_trans(a: Key, b: Key, c: Key)
    requires
        key_lt(a, b),
        key_lt(b, c),
    ensures
        key_lt(a, c),
{
    lemma_lex_total(a.0, b.0);
    lemma_lex_total(b.0, c.0);
    if lex_lt(a.0, b.0) && lex_lt(b.0, c.0) {
        lemma_lex_trans(a.0, b.0, c.0);
    }
    if a.0 == b.0 && b.0 == c.0 {
        lemma_list_trans(a.1, b.1, c.1);
    }
}

/// Every key is below every later key.
pub open spec fn keys_sorted(s: Seq<Key>) -> bool {
    forall|i: int, j: int| 0 <= i < j < s.len() ==> key_lt(s[i], s[j])
}

/// Two sorted sequences with the same keys are equal.
pub proof fn lemma_sorted_unique(a: Seq<Key>, b: Seq<Key>)
    requires
        keys_sorted(a),
        keys_sorted(b),
        a.to_set() == b.to_set(),
    ensures
        a == b,
    decreases a.len(),
{
    if a.len() == 0 {
        if b.len() > 0 {
            assert(b.to_set().contains(b[0]));
        }
        assert(b =~= a);
    } else if b.len() == 0 {
        assert(a.to_set().contains(a[0]));
    } else {
        assert(a.to_set().contains(a[0]));
        assert(b.to_set().contains(b[0]));
        let i = choose|i: int| 0 <= i < b.len() && b[i] == a[0];
        let j = choose|j: int| 0 <= j < a.len() && a[j] == b[0];
        lemma_key_total(a[0], b[0]);
        if i > 0 {
            assert(key_lt(b[0], b[i]));
        }
        if j > 0 {
            assert(key_lt(a[0], a[j]));
        }
        assert(a[0] == b[0]);
        let a1 = a.drop_first();
        let b1 = b.drop_first();
        assert(a1.to_set() =~= b1.to_set()) by {
            assert forall|x: Key| a1.to_set().contains(x) implies b1.to_set().contains(x) by {
                let k = choose|k: int| 0 <= k < a1.len() && a1[k] == x;
                assert(a.to_set().contains(x)) by {
                    assert(a[k + 1] == x);
                }
                let m = choose|m: int| 0 <= m < b.len() && b[m] == x;
                assert(key_lt(a[0], a[k + 1]));
                if m == 0 {
                    lemma_key_total(a[0], x);
                }
                assert(b1[m - 1] == x);
            }
            assert forall|x: Key| b1.to_set().contains(x) implies a1.to_set().contains(x) by {
                let k = choose|k: int| 0 <= k < b1.len() && b1[k] == x;
                assert(b.to_set().contains(x)) by {
                    assert(b[k + 1] == x);
                }
                let m = choose|m: int| 0 <= m < a.len() && a[m] == x;
                assert(key_lt(b[0], b[k + 1]));
                if m == 0 {
                    lemma_key_total(b[0], x);
                }
                assert(a1[m - 1] == x);
            }
        }
        lemma_sorted_unique(a1, b1);
        assert(a =~= seq![a[0]] + a1);
        assert(b =~= seq![b[0]] + b1);
    }
}

/// The view of a command line.
pub open spec fn key_view(k: (String, Vec<String>)) -> Key {
    (k.0@, k.1@.map_values(|s: String| s@))
}

/// Whether two argument lists are the same.
pub fn strings_eq(a: &Vec<String>, b: &Vec<String>) -> (r: bool)
    ensures
        r == (a@.map_values(|s: String| s@) == b@.map_values(|s: String| s@)),
{
    let ghost av = a@.map_values(|s: String| s@);
    let ghost bv = b@.map_values(|s: String| s@);
    if a.len() != b.len() {
        assert(av.len() != bv.len());
        return false;
    }
    let mut i: usize = 0;
    while i < a.len()
        invariant
            av == a@.map_values(|s: String| s@),
            bv == b@.map_values(|s: String| s@),
            a@.len() == b@.len(),
            i <= a@.len(),
            av.take(i as int) == bv.take(i as int),
        decreases a@.len() - i,
    {
        if !crate::text::str_eq(a[i].as_str(), b[i].as_str()) {
            assert(av[i as int] != bv[i as int]);
            return false;
        }
        assert(av.take(i + 1) =~= av.take(i as int).push(av[i as int]));
        assert(bv.take(i + 1) =~= bv.take(i as int).push(bv[i as int]));
        i += 1;
    }
    assert(av.take(i as int) =~= av);
    assert(bv.take(i as int) =~= bv);
    true
}

/// Whether argument list `a` comes before `b`.
pub fn strings_lt(a: &Vec<String>, b: &Vec<String>) -> (r: bool)
    ensures
        r == list_lt(a@.map_values(|s: String| s@), b@.map_values(|s: String| s@)),
{
    let ghost av = a@.map_values(|s: String| s@);
    let ghost bv = b@.map_values(|s: String| s@);
    let mut i: usize = 0;
    assert(av.skip(0) =~= av);
    assert(bv.skip(0) =~= bv);
    while i < a.len() && i < b.len() && crate::text::str_eq(a[i].as_str(), b[i].as_str())
        invariant
            av == a@.map_values(|s: String| s@),
            bv == b@.map_values(|s: String| s@),
            i <= a@.len(),
            i <= b@.len(),
            list_lt(av, bv) == list_lt(av.skip(i as int), bv.skip(i as int)),
        decreases a@.len() - i,
    {
        assert(av.skip(i as int).drop_first() =~= av.skip(i + 1));
        assert(bv.skip(i as int).drop_first() =~= bv.skip(i + 1));
        assert(av.skip(i as int)[0] == av[i as int]);
        assert(bv.skip(i as int)[0] == bv[i as int]);
        i += 1;
    }
    if i == a.len() {
        i < b.len()
    } else if i == b.len() {
        false
    } else {
        assert(av.skip(i as int)[0] == av[i as int]);
        assert(bv.skip(i as int)[0] == bv[i as int]);
        names_lt(a[i].as_str(), b[i].as_str())
    }
}

/// Whether command line `a` comes before `b`.
pub fn key_less(a: &(String, Vec<String>), b: &(String, Vec<String>)) -> (r: bool)
    ensures
        r == key_lt(key_view(*a), key_view(*b)),
{
    if names_lt(a.0.as_str(), b.0.as_str()) {
        return true;
    }
    crate::text::str_eq(a.0.as_str(), b.0.as_str()) && strings_lt(&a.1, &b.1)
}

/// Whether two command lines are the same.
pub fn key_same(a: &(String, Vec<String>), b: &(String, Vec<String>)) -> (r: bool)
    ensures
        r == (key_view(*a) == key_view(*b)),
{
    crate::text::str_eq(a.0.as_str(), b.0.as_str()) && strings_eq(&a.1, &b.1)
}

/// The views of a list of command lines.
pub open spec fn keys_view(v: Seq<(String, Vec<String>)>) -> Seq<Key> {
    v.map_values(|k: (String, Vec<String>)| key_view(k))
}

/// Adds a command line to a sorted list of distinct command lines, keeping the order.
pub fn insert_key(v: &mut Vec<(String, Vec<String>)>, k: (String, Vec<String>))
    requires
        keys_sorted(keys_view(old(v)@)),
    ensures
        keys_sorted(keys_view(final(v)@)),
        keys_view(final(v)@).to_set() == keys_view(old(v)@).to_set().insert(key_view(k)),
{
    let ghost s = keys_view(v@);
    let ghost kv = key_view(k);
    let mut i: usize = 0;
    while i < v.len() && key_less(&v[i], &k)
        invariant
            s == keys_view(v@),
            kv == key_view(k),
            v@ == old(v)@,
            i <= v@.len(),
            forall|j: int| 0 <= j < i ==> key_lt(s[j], kv),
        decreases v@.len() - i,
    {
        assert(s[i as int] == key_view(v@[i as int]));
        i += 1;
    }
    if i < v.len() {
        assert(s[i as int] == key_view(v@[i as int]));
    }
    if i < v.len() && key_same(&v[i], &k) {
        proof {
            assert(s[i as int] == kv);
            assert(s.to_set() =~= s.to_set().insert(kv));
        }
        return;
    }
    proof {
        if i < s.len() {
            lemma_key_total(s[i as int], kv);
        }
        assert forall|m: int| i <= m < s.len() implies key_lt(kv, s[m]) by {
            if m > i {
                lemma_key_trans(kv, s[i as int], s[m]);
            }
        }
    }
    v.insert(i, k);
    proof {
        let nv = keys_view(v@);
        assert(nv =~= s.insert(i as int, kv));
        assert forall|a: int, b: int| 0 <= a < b < nv.len() implies key_lt(nv[a], nv[b]) by {
            if a < i && b > i {
                lemma_key_trans(s[a], kv, s[b - 1]);
            }
        }
        s.insert_ensures(i as int, kv);
        assert(nv.to_set() =~= s.to_set().insert(kv)) by {
            assert forall|x: Key| nv.to_set().contains(x) implies s.to_set().insert(kv).contains(x) by {
                let m = choose|m: int| 0 <= m < nv.len() && nv[m] == x;
                if m < i {
                    assert(s[m] == x);
                } else if m > i {
                    assert(s[m - 1] == x);
                }
            }
            assert forall|x: Key| s.to_set().insert(kv).contains(x) implies nv.to_set().contains(x) by {
                if x == kv {
                    assert(nv[i as int] == x);
                } else {
                    let m = choose|m: int| 0 <= m < s.len() && s[m] == x;
                    if m < i {
                        assert(nv[m] == x);
                    } else {
                        assert(nv[m + 1] == x);
                    }
                }
            }
        }
    }
}

/// A key that is in none of a sorted sequence can be put into it, keeping it sorted.
pub proof fn lemma_insert_sorted(q: Seq<Key>, x: Key)
    requires
        keys_sorted(q),
        !q.contains(x),
    ensures
        exists|r: Seq<Key>| keys_sorted(r) && r.to_set() == q.to_set().insert(x),
    decreases q.len(),
{
    if q.len() == 0 {
        let r = seq![x];
        assert(r.to_set() =~= q.to_set().insert(x)) by {
            assert forall|y: Key| r.to_set().contains(y) implies q.to_set().insert(x).contains(y) by {
                assert(r[0] == x);
            }
            assert(r.contains(x)) by {
                assert(r[0] == x);
            }
        }
        assert(keys_sorted(r));
    } else {
        lemma_key_total(x, q[0]);
        assert(q[0] != x) by {
            assert(q.contains(q[0]));
        }
        if key_lt(x, q[0]) {
            let r = seq![x] + q;
            assert forall|i: int, j: int| 0 <= i < j < r.len() implies key_lt(r[i], r[j]) by {
                if i == 0 {
                    if j > 1 {
                        lemma_key_trans(x, q[0], q[j - 1]);
                    }
                } else {
                    assert(r[i] == q[i - 1] && r[j] == q[j - 1]);
                }
            }
            assert(r.to_set() =~= q.to_set().insert(x)) by {
                assert forall|y: Key| r.to_set().contains(y) implies q.to_set().insert(x).contains(y) by {
                    let k = choose|k: int| 0 <= k < r.len() && r[k] == y;
                    if k > 0 {
                        assert(q[k - 1] == y);
                    }
                }
                assert forall|y: Key| q.to_set().insert(x).contains(y) implies r.to_set().contains(y) by {
                    if y == x {
                        assert(r[0] == x);
                    } else {
                        let k = choose|k: int| 0 <= k < q.len() && q[k] == y;
                        assert(r[k + 1] == y);
                    }
                }
            }
        } else {
            let rest = q.drop_first();
            assert forall|i: int, j: int| 0 <= i < j < rest.len() implies key_lt(rest[i], rest[j]) by {
                assert(rest[i] == q[i + 1] && rest[j] == q[j + 1]);
            }
            assert(!rest.contains(x)) by {
                if rest.contains(x) {
                    let k = choose|k: int| 0 <= k < rest.len() && rest[k] == x;
                    assert(q[k + 1] == x);
                }
            }
            lemma_insert_sorted(rest, x);
            let t = choose|t: Seq<Key>| keys_sorted(t) && t.to_set() == rest.to_set().insert(x);
            let r = seq![q[0]] + t;
            assert forall|k: int| 0 <= k < t.len() implies key_lt(q[0], #[trigger] t[k]) by {
                assert(t.to_set().contains(t[k]));
                if t[k] != x {
                    let m = choose|m: int| 0 <= m < rest.len() && rest[m] == t[k];
                    assert(q[m + 1] == t[k]);
                }
            }
            assert forall|i: int, j: int| 0 <= i < j < r.len() implies key_lt(r[i], r[j]) by {
                if i == 0 {
                    assert(r[j] == t[j - 1]);
                } else {
                    assert(r[i] == t[i - 1] && r[j] == t[j - 1]);
                }
            }
            assert(r.to_set() =~= q.to_set().insert(x)) by {
                assert forall|y: Key| r.to_set().contains(y) implies q.to_set().insert(x).contains(y) by {
                    let k = choose|k: int| 0 <= k < r.len() && r[k] == y;
                    if k == 0 {
                        assert(q[0] == y);
                    } else {
                        assert(t[k - 1] == y);
                        assert(t.to_set().contains(y));
                        if y != x {
                            let m = choose|m: int| 0 <= m < rest.len() && rest[m] == y;
                            assert(q[m + 1] == y);
                        }
                    }
                }
                assert forall|y: Key| q.to_set().insert(x).contains(y) implies r.to_set().contains(y) by {
                    if y == q[0] {
                        assert(r[0] == y);
                    } else {
                        if y != x {
                            let k = choose|k: int| 0 <= k < q.len() && q[k] == y;
                            assert(k > 0);
                            assert(rest[k - 1] == y);
                        }
                        assert(t.to_set().contains(y));
                        let m = choose|m: int| 0 <= m < t.len() && t[m] == y;
                        assert(r[m + 1] == y);
                    }
                }
            }
        }
    }
}

/// The keys of any sequence, each once, can be put in order.
pub proof fn lemma_sorted_keys_exist(q: Seq<Key>)
    ensures
        exists|r: Seq<Key>| keys_sorted(r) && r.to_set() == q.to_set(),
    decreases q.len(),
{
    if q.len() == 0 {
        let r = Seq::<Key>::empty();
        assert(r.to_set() =~= q.to_set());
        assert(keys_sorted(r));
    } else {
        let p = q.drop_last();
        let x = q.last();
        lemma_sorted_keys_exist(p);
        let t = choose|t: Seq<Key>| keys_sorted(t) && t.to_set() == p.to_set();
        assert(q.to_set() =~= p.to_set().insert(x)) by {
            assert forall|y: Key| q.to_set().contains(y) implies p.to_set().insert(x).contains(y) by {
                let k = choose|k: int| 0 <= k < q.len() && q[k] == y;
                if k < q.len() - 1 {
                    assert(p[k] == y);
                }
            }
            assert forall|y: Key| p.to_set().insert(x).contains(y) implies q.to_set().contains(y) by {
                if y == x {
                    assert(q[q.len() - 1] == x);
                } else {
                    let k = choose|k: int| 0 <= k < p.len() && p[k] == y;
                    assert(q[k] == y);
                }
            }
        }
        if t.contains(x) {
            assert(t.to_set() =~= t.to_set().insert(x));
        } else {
            lemma_insert_sorted(t, x);
        }
    }
}

/// A sorted sequence holds each of its keys once, so no more keys than any sequence of
/// the same keys.
pub proof fn lemma_sorted_len(r: Seq<Key>, q: Seq<Key>)
    requires
        keys_sorted(r),
        r.to_set() == q.to_set(),
    ensures
        r.len() <= q.len(),
{
    assert(r.no_duplicates()) by {
        assert forall|i: int, j: int| 0 <= i < r.len() && 0 <= j < r.len() && i != j implies r[i] != r[j] by {
            if i < j {
                lemma_key_total(r[i], r[j]);
            } else {
                lemma_key_total(r[j], r[i]);
            }
        }
    }
    r.unique_seq_to_set();
    q.lemma_cardinality_of_set();
}

} // verus!
