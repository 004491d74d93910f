//! Collections keyed by names (strings).

use vstd::prelude::*;

verus! {

/// The map whose entries are given in order, a later entry replacing an earlier one
/// with the same name.
pub open spec fn entries_map<V>(entries: Seq<(String, V)>) -> Map<Seq<char>, V>
    decreases entries.len(),
{
    if entries.len() == 0 {
        Map::empty()
    } else {
        entries_map(entries.drop_last()).insert(entries.last().0@, entries.last().1)
    }
}

/// A map from names to values.
#[derive(Debug, Clone, PartialEq)]
pub struct NameMap<V> {
    entries: Vec<(String, V)>,
}

impl<V> View for NameMap<V> {
    type V = Map<Seq<char>, V>;

    closed spec fn view(&self) -> Map<Seq<char>, V> {
        entries_map(self.entries@)
    }
}

proof fn lemma_entries_map_finite<V>(entries: Seq<(String, V)>)
    ensures
        entries_map(entries).dom().finite(),
    decreases entries.len(),
{
    if entries.len() > 0 {
        lemma_entries_map_finite(entries.drop_last());
    }
}

/// The names that a map of entries holds are those of its entries.
pub proof fn lemma_entries_map_dom<V>(es: Seq<(String, V)>, x: Seq<char>)
    ensures
        entries_map(es).dom().contains(x) <==> exists|j: int| 0 <= j < es.len() && (#[trigger] es[j]).0@ == x,
    decreases es.len(),
{
    if es.len() > 0 {
        let d = es.drop_last();
        lemma_entries_map_dom(d, x);
        if entries_map(es).dom().contains(x) {
            if es.last().0@ == x {
                assert(es[es.len() - 1].0@ == x);
            } else {
                let j = choose|j: int| 0 <= j < d.len() && (#[trigger] d[j]).0@ == x;
                assert(es[j] == d[j]);
            }
        }
        if exists|j: int| 0 <= j < es.len() && (#[trigger] es[j]).0@ == x {
            let j = choose|j: int| 0 <= j < es.len() && (#[trigger] es[j]).0@ == x;
            if j < es.len() - 1 {
                assert(d[j] == es[j]);
            }
        }
    }
}

/// If no entry from `i` on has the name `k`, the map is that of the first `i` entries at `k`.
proof fn lemma_entries_map_prefix<V>(entries: Seq<(String, V)>, i: int, k: Seq<char>)
    requires
        0 <= i <= entries.len(),
        forall|j: int| i <= j < entries.len() ==> entries[j].0@ != k,
    ensures
        entries_map(entries).dom().contains(k) == entries_map(entries.take(i)).dom().contains(k),
        entries_map(entries).dom().contains(k) ==> entries_map(entries)[k] == entries_map(
            entries.take(i),
        )[k],
    decreases entries.len() - i,
{
    if i < entries.len() {
        assert(entries.drop_last() =~= entries.take(entries.len() - 1));
        lemma_entries_map_prefix(entries.drop_last(), i, k);
        assert(entries.drop_last().take(i) =~= entries.take(i));
    } else {
        assert(entries.take(i) =~= entries);
    }
}

impl<V> NameMap<V> {
    /// An empty map.
    pub fn new() -> (m: Self)
        ensures
            m@ == Map::<Seq<char>, V>::empty(),
    {
        NameMap { entries: Vec::new() }
    }

    /// Whether the map holds no entry.
    pub fn is_empty(&self) -> (b: bool)
        ensures
            b == (self@.dom() == Set::<Seq<char>>::empty()),
    {
        proof {
            if self.entries@.len() > 0 {
                assert(self@.dom().contains(self.entries@.last().0@));
            } else {
                assert(self@.dom() =~= Set::<Seq<char>>::empty());
            }
        }
        self.entries.len() == 0
    }

    /// Sets the value of `name`, replacing a value it had.
    pub fn insert(&mut self, name: String, value: V)
        ensures
            final(self)@ == old(self)@.insert(name@, value),
    {
        let ghost old_entries = self.entries@;
        let ghost k = name@;
        self.entries.push((name, value));
        proof {
            assert(self.entries@.drop_last() =~= old_entries);
        }
    }

    /// The value of `name`, if it has one.
    pub fn get(&self, name: &str) -> (r: Option<&V>)
        ensures
            match r {
                Some(v) => self@.dom().contains(name@) && *v == self@[name@],
                None => !self@.dom().contains(name@),
            },
    {
        let mut i = self.entries.len();
        while i > 0
            invariant
                i <= self.entries@.len(),
                forall|j: int| i <= j < self.entries@.len() ==> self.entries@[j].0@ != name@,
            decreases i,
        {
            i -= 1;
            if crate::text::str_eq(self.entries[i].0.as_str(), name) {
                proof {
                    let es = self.entries@;
                    lemma_entries_map_prefix(es, i + 1, name@);
                    assert(es.take(i + 1).drop_last() =~= es.take(i as int));
                }
                return Some(&self.entries[i].1);
            }
        }
        proof {
            lemma_entries_map_prefix(self.entries@, 0, name@);
        }
        None
    }

    /// The entries in the order they were set, a later entry replacing an earlier one
    /// with the same name.
    pub closed spec fn entries(&self) -> Seq<(String, V)> {
        self.entries@
    }

    /// The entries in the order they were set.
    pub fn into_entries(self) -> (v: Vec<(String, V)>)
        ensures
            v@ == self.entries(),
    {
        self.entries
    }

    /// The names of the entries in the order they were set, each as often as it was set.
    pub fn names(&self) -> (v: Vec<&String>)
        ensures
            v@.len() == self.entries().len(),
            forall|i: int| 0 <= i < v@.len() ==> *v@[i] == self.entries()[i].0,
    {
        let mut v: Vec<&String> = Vec::new();
        let mut i: usize = 0;
        while i < self.entries.len()
            invariant
                i <= self.entries@.len(),
                v@.len() == i,
                forall|j: int| 0 <= j < i ==> *v@[j] == self.entries@[j].0,
            decreases self.entries@.len() - i,
        {
            v.push(&self.entries[i].0);
            i += 1;
        }
        v
    }

    /// The map is what its entries set, in order.
    pub proof fn lemma_view_is_entries(&self)
        ensures
            self@ == entries_map(self.entries()),
            self@.dom().finite(),
    {
        lemma_entries_map_finite(self.entries@);
    }
}

} // verus!

verus! {

/// Lexicographic order of character sequences, characters compared by code point.
///
/// This is the order of `String`'s `Ord`, since UTF-8 keeps the order of code points.
pub open spec fn lex_lt(a: Seq<char>, b: Seq<char>) -> bool
    decreases a.len(),
{
    if a.len() == 0 {
        b.len() > 0
    } else if b.len() == 0 {
        false
    } else if a[0] != b[0] {
        a[0] < b[0]
    } else {
        lex_lt(a.drop_first(), b.drop_first())
    }
}

/// `lex_lt` is a strict total order.
pub proof fn lemma_lex_total(a: Seq<char>, b: Seq<char>)
    ensures
        lex_lt(a, b) || a == b || lex_lt(b, a),
        !(lex_lt(a, b) && lex_lt(b, a)),
        !lex_lt(a, a),
    decreases a.len(),
{
    if a.len() > 0 && b.len() > 0 && a[0] == b[0] {
        lemma_lex_total(a.drop_first(), b.drop_first());
        if a.drop_first() == b.drop_first() {
            assert(a =~= seq![a[0]] + a.drop_first());
            assert(b =~= seq![b[0]] + b.drop_first());
        }
    }
    if a.len() == 0 && b.len() == 0 {
        assert(a =~= b);
    }
    if a.len() > 0 {
        lemma_lex_total(a.drop_first(), a.drop_first());
    }
}

/// `lex_lt` is transitive.
pub proof fn lemma_lex_trans(a: Seq<char>, b: Seq<char>, c: Seq<char>)
    requires
        lex_lt(a, b),
        lex_lt(b, c),
    ensures
        lex_lt(a, c),
    decreases a.len(),
{
    if a.len() > 0 && b.len() > 0 && c.len() > 0 && a[0] == b[0] && b[0] == c[0] {
        lemma_lex_trans(a.drop_first(), b.drop_first(), c.drop_first());
    }
}

/// Every element is below every later element.
pub open spec fn strictly_sorted(s: Seq<Seq<char>>) -> bool {
    forall|i: int, j: int| 0 <= i < j < s.len() ==> lex_lt(s[i], s[j])
}

/// Two strictly sorted sequences of the same names are equal.
pub proof fn lemma_strictly_sorted_unique(a: Seq<Seq<char>>, b: Seq<Seq<char>>)
    requires
        strictly_sorted(a),
        strictly_sorted(b),
        a.to_set() == b.to_set(),
    ensures
        a == b,
    decreases a.len(),
{
    if a.len() == 0 {
        if b.len() > 0 {
            assert(b.to_set().contains(b[0]));
        }
        assert(b =~= a);
    } else if b.len() == 0 {
        assert(a.to_set().contains(a[0]));
    } else {
        assert(a.to_set().contains(a[0]));
        assert(b.to_set().contains(b[0]));
        let i = choose|i: int| 0 <= i < b.len() && b[i] == a[0];
        let j = choose|j: int| 0 <= j < a.len() && a[j] == b[0];
        lemma_lex_total(a[0], b[0]);
        if i > 0 && j > 0 {
            assert(lex_lt(b[0], b[i]));
            assert(lex_lt(a[0], a[j]));
        }
        let a1 = a.drop_first();
        let b1 = b.drop_first();
        assert(a1.to_set() =~= b1.to_set()) by {
            assert forall|x: Seq<char>| a1.to_set().contains(x) implies b1.to_set().contains(x) by {
                let k = choose|k: int| 0 <= k < a1.len() && a1[k] == x;
                assert(a.to_set().contains(x)) by {
                    assert(a[k + 1] == x);
                }
                let m = choose|m: int| 0 <= m < b.len() && b[m] == x;
                assert(lex_lt(a[0], a[k + 1]));
                if m == 0 {
                    lemma_lex_total(a[0], x);
                }
                assert(b1[m - 1] == x);
            }
            assert forall|x: Seq<char>| b1.to_set().contains(x) implies a1.to_set().contains(x) by {
                let k = choose|k: int| 0 <= k < b1.len() && b1[k] == x;
                assert(b.to_set().contains(x)) by {
                    assert(b[k + 1] == x);
                }
                let m = choose|m: int| 0 <= m < a.len() && a[m] == x;
                assert(lex_lt(b[0], b[k + 1]));
                if m == 0 {
                    lemma_lex_total(b[0], x);
                }
                assert(a1[m - 1] == x);
            }
        }
        lemma_strictly_sorted_unique(a1, b1);
        assert(a =~= seq![a[0]] + a1);
        assert(b =~= seq![b[0]] + b1);
    }
}

/// A set of names, kept in lexicographic order.
#[derive(Debug)]
pub struct NameSet {
    items: Vec<String>,
}

impl NameSet {
    #[verifier::type_invariant]
    closed spec fn sorted_inv(self) -> bool {
        strictly_sorted(self.items@.map_values(|s: String| s@))
    }

    /// The names, in increasing lexicographic order.
    pub closed spec fn ordered(&self) -> Seq<Seq<char>> {
        self.items@.map_values(|s: String| s@)
    }

    /// The names in the set.
    pub open spec fn spec_set(&self) -> Set<Seq<char>> {
        self.ordered().to_set()
    }

    /// An empty set.
    pub fn new() -> (s: Self)
        ensures
            s.ordered() == Seq::<Seq<char>>::empty(),
    {
        let s = NameSet { items: Vec::new() };
        assert(s.ordered() =~= Seq::<Seq<char>>::empty());
        s
    }

    /// The number of names.
    pub fn len(&self) -> (n: usize)
        ensures
            n == self.ordered().len(),
    {
        self.items.len()
    }

    /// Adds `name` to the set, keeping the order.
    pub fn insert(&mut self, name: String)
        ensures
            strictly_sorted(final(self).ordered()),
            final(self).spec_set() == old(self).spec_set().insert(name@),
    {
        proof {
            use_type_invariant(&*self);
        }
        let mut items: Vec<String> = Vec::new();
        std::mem::swap(&mut items, &mut self.items);
        let ghost old_items = items@;
        let ghost v = old_items.map_values(|s: String| s@);
        let mut i: usize = 0;
        while i < items.len() && names_lt(items[i].as_str(), name.as_str())
            invariant
                items@ == old_items,
                i <= items@.len(),
                forall|j: int| 0 <= j < i ==> lex_lt(v[j], name@),
                v == items@.map_values(|s: String| s@),
            decreases items@.len() - i,
        {
            i += 1;
        }
        if i < items.len() && crate::text::str_eq(items[i].as_str(), name.as_str()) {
            proof {
                assert(v[i as int] == name@);
                assert(v.to_set() =~= v.to_set().insert(name@));
            }
            self.items = items;
            return;
        }
        proof {
            if i < items@.len() {
                lemma_lex_total(v[i as int], name@);
            }
            assert forall|k: int| i <= k < v.len() implies lex_lt(name@, v[k]) by {
                if k > i {
                    lemma_lex_trans(name@, v[i as int], v[k]);
                }
            }
        }
        items.insert(i, name);
        proof {
            let nv = items@.map_values(|s: String| s@);
            assert(nv =~= v.insert(i as int, name@));
            assert forall|a: int, b: int| 0 <= a < b < nv.len() implies lex_lt(nv[a], nv[b]) by {
                if b < i {
                } else if a < i && b == i {
                } else if a < i && b > i {
                    lemma_lex_trans(v[a], name@, v[b - 1]);
                } else if a == i {
                } else {
                }
            }
            v.insert_ensures(i as int, name@);
            assert(nv.to_set() =~= v.to_set().insert(name@)) by {
                assert forall|x: Seq<char>| nv.to_set().contains(x) implies v.to_set().insert(
                    name@,
                ).contains(x) by {
                    let k = choose|k: int| 0 <= k < nv.len() && nv[k] == x;
                    if k < i {
                        assert(v[k] == x);
                    } else if k > i {
                        assert(v[k - 1] == x);
                    }
                }
                assert forall|x: Seq<char>| v.to_set().insert(name@).contains(x) implies nv.to_set().contains(x) by {
                    if x == name@ {
                        assert(nv[i as int] == x);
                    } else {
                        let k = choose|k: int| 0 <= k < v.len() && v[k] == x;
                        if k < i {
                            assert(nv[k] == x);
                        } else {
                            assert(nv[k + 1] == x);
                        }
                    }
                }
            }
        }
        self.items = items;
    }

    /// Whether `name` is in the set.
    pub fn contains(&self, name: &str) -> (b: bool)
        ensures
            b == self.spec_set().contains(name@),
    {
        let mut i: usize = 0;
        while i < self.items.len()
            invariant
                i <= self.items@.len(),
                forall|j: int| 0 <= j < i ==> self.items@[j]@ != name@,
            decreases self.items@.len() - i,
        {
            if crate::text::str_eq(self.items[i].as_str(), name) {
                assert(self.ordered()[i as int] == name@);
                return true;
            }
            i += 1;
        }
        proof {
            if self.spec_set().contains(name@) {
                let k = choose|k: int| 0 <= k < self.ordered().len() && self.ordered()[k] == name@;
                assert(self.items@[k]@ == name@);
            }
        }
        false
    }

    /// The names, in increasing lexicographic order.
    pub fn to_vec(&self) -> (v: Vec<String>)
        ensures
            v@.map_values(|s: String| s@) == self.ordered(),
            strictly_sorted(self.ordered()),
    {
        proof {
            use_type_invariant(self);
        }
        let mut v: Vec<String> = Vec::new();
        let mut i: usize = 0;
        while i < self.items.len()
            invariant
                i <= self.items@.len(),
                v@.map_values(|s: String| s@) == self.ordered().take(i as int),
            decreases self.items@.len() - i,
        {
            let ghost old_v = v@;
            let c = self.items[i].clone();
            v.push(c);
            assert(v@ == old_v.push(c));
            assert(c@ == self.items@[i as int]@);
            assert(self.ordered()[i as int] == self.items@[i as int]@);
            assert(v@.map_values(|s: String| s@) =~= old_v.map_values(|s: String| s@).push(c@));
            assert(self.ordered().take(i + 1) =~= self.ordered().take(i as int).push(
                self.ordered()[i as int],
            ));
            i += 1;
        }
        assert(self.ordered().take(i as int) =~= self.ordered());
        v
    }
}

impl Clone for NameSet {
    fn clone(&self) -> (r: Self)
        ensures
            r.ordered() == self.ordered(),
    {
        NameSet { items: self.to_vec() }
    }
}

/// Whether `a` comes before `b` in lexicographic order.
pub fn names_lt(a: &str, b: &str) -> (r: bool)
    ensures
        r == lex_lt(a@, b@),
{
    let x = crate::text::chars_of(a);
    let y = crate::text::chars_of(b);
    let mut i: usize = 0;
    assert(x@.skip(0) =~= x@);
    assert(y@.skip(0) =~= y@);
    while i < x.len() && i < y.len() && x[i] == y[i]
        invariant
            i <= x@.len(),
            i <= y@.len(),
            x@.take(i as int) == y@.take(i as int),
            lex_lt(x@, y@) == lex_lt(x@.skip(i as int), y@.skip(i as int)),
        decreases x@.len() - i,
    {
        proof {
            assert(x@.skip(i as int).drop_first() =~= x@.skip(i + 1));
            assert(y@.skip(i as int).drop_first() =~= y@.skip(i + 1));
            assert(x@.take(i + 1) =~= x@.take(i as int).push(x@[i as int]));
            assert(y@.take(i + 1) =~= y@.take(i as int).push(y@[i as int]));
        }
        i += 1;
    }
    if i == x.len() {
        i < y.len()
    } else if i == y.len() {
        false
    } else {
        x[i] < y[i]
    }
}

} // verus!
