//! Build profiles.

use vstd::prelude::*;
use crate::names::{entries_map, strictly_sorted, NameMap, NameSet};

verus! {

/// Whether `char::is_alphanumeric` holds of `c`: whether it is alphabetic or numeric
/// by Unicode's tables.
pub uninterp spec fn alphanumeric(c: char) -> bool;

/// `char::is_alphanumeric`; the contract names the outcome `alphanumeric`, and states
/// it for ASCII characters, where the alphanumeric ones are the letters and the digits.
#[verifier::external_body]
fn is_alphanumeric(c: char) -> (b: bool)
    ensures
        b == alphanumeric(c),
        c <= '\u{7f}' ==> (b <==> ('a' <= c <= 'z' || 'A' <= c <= 'Z' || '0' <= c <= '9')),
{
    c.is_alphanumeric()
}

/// Whether a character is alphanumeric: for ASCII, a letter or a digit; else by
/// Unicode's tables.
pub open spec fn is_alnum(c: char) -> bool {
    if c <= '\u{7f}' {
        'a' <= c <= 'z' || 'A' <= c <= 'Z' || '0' <= c <= '9'
    } else {
        alphanumeric(c)
    }
}

/// The character kept in a profile identifier: itself when it is alphanumeric or a
/// `-`, else `_`.
pub open spec fn id_char(c: char) -> char {
    if is_alnum(c) || c == '-' {
        c
    } else {
        '_'
    }
}

/// The text of the identifier of a name.
pub open spec fn id_text(s: Seq<char>) -> Seq<char> {
    s.map_values(|c: char| id_char(c))
}

/// Identifiers are fixed points: the identifier of an identifier's text is that text.
pub proof fn law_id_idempotent(s: Seq<char>)
    ensures
        id_text(id_text(s)) == id_text(s),
{
    assert(id_text(id_text(s)) =~= id_text(s));
}

/// A unique profile identifier.
#[derive(Debug, Clone, PartialEq, Eq)]
pub struct Id(String);

impl Id {
    /// The identifier text.
    pub closed spec fn spec_text(&self) -> Seq<char> {
        self.0@
    }

    /// The identifier of the given name: every character that is neither alphanumeric
    /// nor `-` becomes `_`.
    pub fn new(identifier: &str) -> (id: Self)
        ensures
            id.spec_text() == id_text(identifier@),
    {
        let cs = crate::text::chars_of(identifier);
        let mut s = String::new();
        let mut i: usize = 0;
        while i < cs.len()
            invariant
                i <= cs@.len(),
                cs@ == identifier@,
                s@ == cs@.take(i as int).map_values(|c: char| id_char(c)),
            decreases cs@.len() - i,
        {
            let c = cs[i];
            let k = if is_alphanumeric(c) || c == '-' {
                c
            } else {
                '_'
            };
            s.push(k);
            assert(cs@.take(i + 1).map_values(|c: char| id_char(c)) =~= cs@.take(
                i as int,
            ).map_values(|c: char| id_char(c)).push(id_char(c)));
            i += 1;
        }
        assert(cs@.take(i as int) =~= cs@);
        Id(s)
    }

    /// The identifier text.
    pub fn as_str(&self) -> (s: &str)
        ensures
            s@ == self.spec_text(),
    {
        self.0.as_str()
    }
}

/// The map that `m` becomes once `entries` are set in turn, a later entry replacing an
/// earlier one with the same name.
pub open spec fn set_all<P>(m: vstd::map::Map<Seq<char>, P>, entries: Seq<(String, P)>) -> vstd::map::Map<Seq<char>, P>
    decreases entries.len(),
{
    if entries.len() == 0 {
        m
    } else {
        set_all(m, entries.drop_last()).insert(entries.last().0@, entries.last().1)
    }
}

/// Setting the entries of a map in turn over another map lays the first over the second.
pub proof fn lemma_set_all_union<P>(m: vstd::map::Map<Seq<char>, P>, entries: Seq<(String, P)>)
    ensures
        set_all(m, entries) == m.union_prefer_right(entries_map(entries)),
    decreases entries.len(),
{
    if entries.len() > 0 {
        lemma_set_all_union(m, entries.drop_last());
    }
    assert(set_all(m, entries) =~= m.union_prefer_right(entries_map(entries)));
}

/// The map of the given profiles by identifier, a later one replacing an earlier one
/// with the same identifier.
pub open spec fn ids_map<P>(items: Seq<(Id, P)>) -> vstd::map::Map<Seq<char>, P>
    decreases items.len(),
{
    if items.len() == 0 {
        vstd::map::Map::empty()
    } else {
        ids_map(items.drop_last()).insert(items.last().0.spec_text(), items.last().1)
    }
}

/// Profiles by identifier.
#[derive(Debug, Clone)]
pub struct ProfileMap<P> {
    profiles: NameMap<P>,
}

impl<P> View for ProfileMap<P> {
    type V = vstd::map::Map<Seq<char>, P>;

    closed spec fn view(&self) -> vstd::map::Map<Seq<char>, P> {
        self.profiles@
    }
}

impl<P> ProfileMap<P> {
    /// A map without profiles.
    pub fn new() -> (m: Self)
        ensures
            m@ == vstd::map::Map::<Seq<char>, P>::empty(),
    {
        ProfileMap { profiles: NameMap::new() }
    }

    /// Whether the map holds no profile.
    pub fn is_empty(&self) -> (b: bool)
        ensures
            b == (self@.dom() == Set::<Seq<char>>::empty()),
    {
        self.profiles.is_empty()
    }

    /// The map of the given profiles, a later one replacing an earlier one with the same
    /// identifier.
    pub fn with(items: Vec<(Id, P)>) -> (m: Self)
        ensures
            m@ == ids_map(items@),
    {
        let ghost orig = items@;
        let mut items = items;
        let mut m = ProfileMap::new();
        let ghost mut k: int = 0;
        assert(orig.skip(0) =~= orig);
        assert(orig.take(0) =~= Seq::<(Id, P)>::empty());
        while items.len() > 0
            invariant
                0 <= k <= orig.len(),
                items@ == orig.skip(k),
                m@ == ids_map(orig.take(k)),
            decreases items@.len(),
        {
            let (id, p) = items.remove(0);
            m.add(id, p);
            proof {
                assert(orig.take(k + 1).drop_last() =~= orig.take(k));
                assert(orig.take(k + 1).last() == orig[k]);
                k = k + 1;
                assert(items@ =~= orig.skip(k));
            }
        }
        assert(orig.take(k) =~= orig);
        m
    }

    /// The profile with the identifier `id`.
    pub fn get(&self, id: &Id) -> (r: Option<&P>)
        ensures
            match r {
                Some(p) => self@.dom().contains(id.spec_text()) && *p == self@[id.spec_text()],
                None => !self@.dom().contains(id.spec_text()),
            },
    {
        self.profiles.get(id.as_str())
    }

    /// Sets the profile of `id`, replacing one it had.
    pub fn add(&mut self, id: Id, profile: P)
        ensures
            final(self)@ == old(self)@.insert(id.spec_text(), profile),
    {
        self.profiles.insert(id.0, profile);
    }

    /// The profiles with their identifiers, in increasing order of identifier.
    pub fn iter(&self) -> (v: Vec<(String, &P)>)
        ensures
            strictly_sorted(v@.map_values(|e: (String, &P)| e.0@)),
            v@.map_values(|e: (String, &P)| e.0@).to_set() == self@.dom(),
            forall|i: int| 0 <= i < v@.len() ==> *(#[trigger] v@[i]).1 == self@[v@[i].0@],
    {
        proof {
            self.profiles.lemma_view_is_entries();
        }
        let names = self.profiles.names();
        let mut set = NameSet::new();
        let mut i: usize = 0;
        assert(set.spec_set() =~= Set::<Seq<char>>::empty());
        while i < names.len()
            invariant
                i <= names@.len(),
                names@.len() == self.profiles.entries().len(),
                forall|j: int| 0 <= j < names@.len() ==> *names@[j] == self.profiles.entries()[j].0,
                forall|x: Seq<char>| #[trigger] set.spec_set().contains(x) <==> exists|j: int| 0 <= j < i && names@[j]@ == x,
            decreases names@.len() - i,
        {
            set.insert(names[i].clone());
            i += 1;
        }
        proof {
            assert forall|x: Seq<char>| set.spec_set().contains(x) <==> self@.dom().contains(x) by {
                crate::names::lemma_entries_map_dom(self.profiles.entries(), x);
                if set.spec_set().contains(x) {
                    let j = choose|j: int| 0 <= j < names@.len() && names@[j]@ == x;
                    assert(self.profiles.entries()[j].0@ == x);
                }
                if self@.dom().contains(x) {
                    let j = choose|j: int| 0 <= j < self.profiles.entries().len() && (#[trigger] self.profiles.entries()[j]).0@ == x;
                    assert(names@[j]@ == x);
                }
            }
        }
        let keys = set.to_vec();
        proof {
            assert forall|j: int| 0 <= j < keys@.len() implies self@.dom().contains(#[trigger] keys@[j]@) by {
                assert(keys@.map_values(|s: String| s@)[j] == keys@[j]@);
                assert(set.ordered().to_set().contains(keys@[j]@));
                assert(set.spec_set().contains(keys@[j]@));
            }
        }
        let mut v: Vec<(String, &P)> = Vec::new();
        let mut k: usize = 0;
        while k < keys.len()
            invariant
                k <= keys@.len(),
                v@.len() == k,
                forall|j: int| 0 <= j < k ==> (#[trigger] v@[j]).0@ == keys@[j]@ && *v@[j].1 == self@[keys@[j]@],
                forall|j: int| 0 <= j < keys@.len() ==> self@.dom().contains(#[trigger] keys@[j]@),
            decreases keys@.len() - k,
        {
            let key = keys[k].clone();
            match self.profiles.get(key.as_str()) {
                Some(p) => v.push((key, p)),
                None => {
                    return v;
                },
            }
            k += 1;
        }
        proof {
            let kv = keys@.map_values(|s: String| s@);
            assert(v@.map_values(|e: (String, &P)| e.0@) =~= kv);
            assert(kv.to_set() =~= self@.dom()) by {
                assert forall|x: Seq<char>| kv.to_set().contains(x) <==> self@.dom().contains(x) by {
                    assert(kv == set.ordered());
                    if kv.to_set().contains(x) {
                        assert(set.spec_set().contains(x));
                    }
                    if self@.dom().contains(x) {
                        assert(set.spec_set().contains(x));
                    }
                }
            }
        }
        v
    }

    /// The profiles of both maps, those of `other` replacing those of this one that have
    /// the same identifier.
    pub fn merge(self, other: Self) -> (m: Self)
        ensures
            m@ == self@.union_prefer_right(other@),
    {
        proof {
            other.profiles.lemma_view_is_entries();
        }
        let ghost base = self@;
        let ghost oes = other.profiles.entries();
        let mut rest = other.profiles.into_entries();
        let mut profiles = self.profiles;
        let ghost mut k: int = 0;
        assert(oes.skip(0) =~= oes);
        assert(oes.take(0) =~= Seq::<(String, P)>::empty());
        while rest.len() > 0
            invariant
                0 <= k <= oes.len(),
                rest@ == oes.skip(k),
                profiles@ == set_all(base, oes.take(k)),
            decreases rest@.len(),
        {
            let (name, p) = rest.remove(0);
            profiles.insert(name, p);
            proof {
                assert(oes.take(k + 1).drop_last() =~= oes.take(k));
                assert(oes.take(k + 1).last() == oes[k]);
                k = k + 1;
                assert(rest@ =~= oes.skip(k));
            }
        }
        proof {
            assert(oes.take(k) =~= oes);
            lemma_set_all_union(base, oes);
        }
        ProfileMap { profiles }
    }
}

/// The profiles of the maps laid over each other in turn, a later map's profile
/// replacing an earlier one with the same identifier.
pub open spec fn merged<P>(ms: Seq<vstd::map::Map<Seq<char>, P>>) -> vstd::map::Map<Seq<char>, P>
    decreases ms.len(),
{
    if ms.len() == 0 {
        vstd::map::Map::empty()
    } else {
        merged(ms.drop_last()).union_prefer_right(ms.last())
    }
}

/// The profiles of all the loaded maps, merged in the order they were loaded; none
/// where no map was loaded.
pub fn merge_all<P>(maps: Vec<ProfileMap<P>>) -> (m: ProfileMap<P>)
    ensures
        m@ == merged(maps@.map_values(|x: ProfileMap<P>| x@)),
{
    let ghost all = maps@.map_values(|x: ProfileMap<P>| x@);
    let ghost orig = maps@;
    let mut maps = maps;
    let mut acc: ProfileMap<P> = ProfileMap::new();
    let ghost mut k: int = 0;
    assert(orig.skip(0) =~= orig);
    assert(all.take(0) =~= Seq::<vstd::map::Map<Seq<char>, P>>::empty());
    while maps.len() > 0
        invariant
            0 <= k <= orig.len(),
            all == orig.map_values(|x: ProfileMap<P>| x@),
            maps@ == orig.skip(k),
            acc@ == merged(all.take(k)),
        decreases maps@.len(),
    {
        let next = maps.remove(0);
        proof {
            assert(next == orig[k]);
            assert(all.take(k + 1).drop_last() =~= all.take(k));
            assert(all.take(k + 1).last() == next@);
        }
        acc = acc.merge(next);
        proof {
            k = k + 1;
            assert(maps@ =~= orig.skip(k));
        }
    }
    assert(all.take(k) =~= all);
    acc
}

} // verus!
