//! The license and build dependency lists of a drafted recipe.

use vstd::prelude::*;
use crate::names::{lemma_lex_total, lemma_lex_trans, lex_lt, names_lt};
use crate::text::{chars_of, range_equals};

verus! {

/// Whether `-only` stands somewhere in `s`.
pub open spec fn has_only(s: Seq<char>) -> bool {
    exists|i: int| 0 <= i && i + 5 <= s.len() && #[trigger] s.subrange(i, i + 5) == "-only"@
}

/// Whether `-only` stands somewhere in `s`.
fn contains_only(s: &str) -> (b: bool)
    ensures
        b == has_only(s@),
{
    let cs = chars_of(s);
    let lit = chars_of("-only");
    proof {
        reveal_strlit("-only");
    }
    let mut i: usize = 0;
    while i < cs.len() && cs.len() - i >= 5
        invariant
            cs@ == s@,
            lit@ == "-only"@,
            lit@.len() == 5,
            forall|j: int| 0 <= j < i ==> #[trigger] cs@.subrange(j, j + 5) != "-only"@,
            i <= cs@.len(),
        decreases cs@.len() - i,
    {
        if range_equals(&cs, i, i + 5, &lit) {
            return true;
        }
        i += 1;
    }
    proof {
        assert forall|j: int| 0 <= j && j + 5 <= s@.len() implies #[trigger] s@.subrange(j, j + 5) != "-only"@ by {
            assert(j < i);
        }
    }
    false
}

/// The line of a license in the list: `    - ` and the license.
pub open spec fn license_line(l: Seq<char>) -> Seq<char> {
    "    - "@ + l
}

/// Whether the lines never decrease in lexicographic order.
pub open spec fn lex_sorted(s: Seq<Seq<char>>) -> bool {
    forall|i: int, j: int| 0 <= i < j < s.len() ==> !lex_lt(s[j], s[i])
}

/// The lines joined, a newline between each two.
pub open spec fn join_lines(s: Seq<Seq<char>>) -> Seq<char>
    decreases s.len(),
{
    if s.len() == 0 {
        Seq::empty()
    } else if s.len() == 1 {
        s[0]
    } else {
        join_lines(s.drop_last()) + "\n"@ + s.last()
    }
}

/// The license list of a recipe with the license lines `ordered`: a newline and the lines,
/// or `UPDATE LICENSE` where there are none.
pub open spec fn license_text(ordered: Seq<Seq<char>>) -> Seq<char> {
    if ordered.len() == 0 {
        "UPDATE LICENSE"@
    } else {
        "\n"@ + join_lines(ordered)
    }
}

/// Inserts `s` after the lines that do not come after it.
fn insert_sorted(v: &mut Vec<String>, s: String)
    requires
        lex_sorted(old(v).deep_view()),
    ensures
        lex_sorted(final(v).deep_view()),
        final(v).deep_view().to_multiset() == old(v).deep_view().to_multiset().insert(s@),
{
    let ghost old_v = v.deep_view();
    let mut i = v.len();
    while i > 0 && names_lt(s.as_str(), v[i - 1].as_str())
        invariant
            v.deep_view() == old_v,
            i <= old_v.len(),
            forall|j: int| i <= j < old_v.len() ==> lex_lt(s@, old_v[j]),
        decreases i,
    {
        assert(old_v[i - 1] == v@[i - 1]@);
        i -= 1;
    }
    proof {
        if i > 0 {
            assert(old_v[i - 1] == v@[i - 1]@);
            lemma_lex_total(s@, old_v[i - 1]);
        }
        assert forall|j: int| 0 <= j < i implies !lex_lt(s@, old_v[j]) by {
            if j < i - 1 && lex_lt(s@, old_v[j]) {
                lemma_lex_total(old_v[j], old_v[i - 1]);
                if lex_lt(old_v[j], old_v[i - 1]) {
                    lemma_lex_trans(s@, old_v[j], old_v[i - 1]);
                }
            }
        }
    }
    let ghost sv = s@;
    v.insert(i, s);
    proof {
        let n = v.deep_view();
        assert(n =~= old_v.insert(i as int, sv));
        assert forall|a: int, b: int| 0 <= a < b < n.len() implies !lex_lt(n[b], n[a]) by {
            if a == i {
                lemma_lex_total(sv, old_v[b - 1]);
            } else if a < i && b > i {
                assert(!lex_lt(old_v[b - 1], old_v[a]));
            } else if a > i {
                assert(!lex_lt(old_v[b - 1], old_v[a - 1]));
            } else if b == i {
            } else {
                assert(!lex_lt(old_v[b], old_v[a]));
            }
        }
        vstd::seq_lib::to_multiset_insert(old_v, i as int, sv);
    }
}

/// The lines of the licenses that do not hold `-only`, in the order given.
pub open spec fn normal_lines(ls: Seq<Seq<char>>) -> Seq<Seq<char>> {
    ls.filter(|l: Seq<char>| !has_only(l)).map_values(|l: Seq<char>| license_line(l))
}

/// The lines of the licenses that hold `-only`, in the order given.
pub open spec fn only_lines(ls: Seq<Seq<char>>) -> Seq<Seq<char>> {
    ls.filter(|l: Seq<char>| has_only(l)).map_values(|l: Seq<char>| license_line(l))
}

/// The license list of a drafted recipe: a line `    - license` for each license, sorted,
/// with the licenses that hold `-only` last (in the order given, so that the GNU
/// `-or-later` variants come before them); `UPDATE LICENSE` where there are none.
pub fn format_licenses(licenses: Vec<String>) -> (r: String)
    ensures
        exists|sorted: Seq<Seq<char>>|
            #[trigger] lex_sorted(sorted) && sorted.to_multiset() == normal_lines(licenses.deep_view()).to_multiset()
                && r@ == license_text(sorted + only_lines(licenses.deep_view())),
{
    let ghost lv = licenses.deep_view();
    let mut normal: Vec<String> = Vec::new();
    let mut only: Vec<String> = Vec::new();
    let mut i: usize = 0;
    proof {
        reveal(Seq::filter);
        assert(lv.take(0) =~= Seq::<Seq<char>>::empty());
        assert(lv.take(0).filter(|l: Seq<char>| !has_only(l)) =~= Seq::<Seq<char>>::empty());
        assert(lv.take(0).filter(|l: Seq<char>| has_only(l)) =~= Seq::<Seq<char>>::empty());
        assert(normal.deep_view() =~= Seq::<Seq<char>>::empty());
        assert(only.deep_view() =~= Seq::<Seq<char>>::empty());
        assert(lv.take(0).filter(|l: Seq<char>| !has_only(l)).map_values(|l: Seq<char>| license_line(l))
            =~= Seq::<Seq<char>>::empty());
    }
    while i < licenses.len()
        invariant
            i <= licenses@.len(),
            lv == licenses.deep_view(),
            lex_sorted(normal.deep_view()),
            normal.deep_view().to_multiset() == lv.take(i as int).filter(|l: Seq<char>| !has_only(l)).map_values(
                |l: Seq<char>| license_line(l),
            ).to_multiset(),
            only.deep_view() == lv.take(i as int).filter(|l: Seq<char>| has_only(l)).map_values(
                |l: Seq<char>| license_line(l),
            ),
        decreases licenses@.len() - i,
    {
        let l = &licenses[i];
        assert(lv[i as int] == l@);
        let mut line = "    - ".to_owned();
        line.push_str(l.as_str());
        assert(line@ == license_line(l@));
        let ghost t = lv.take(i + 1);
        assert(t.drop_last() =~= lv.take(i as int));
        assert(t.last() == l@);
        proof {
            reveal(Seq::filter);
        }
        if contains_only(l.as_str()) {
            let ghost before = only.deep_view();
            only.push(line);
            assert(only.deep_view() =~= before.push(license_line(l@)));
            assert(t.filter(|l: Seq<char>| has_only(l)) =~= lv.take(i as int).filter(|l: Seq<char>| has_only(l)).push(l@));
            assert(t.filter(|l: Seq<char>| !has_only(l)) =~= lv.take(i as int).filter(|l: Seq<char>| !has_only(l)));
        } else {
            insert_sorted(&mut normal, line);
            assert(t.filter(|l: Seq<char>| !has_only(l)) =~= lv.take(i as int).filter(|l: Seq<char>| !has_only(l)).push(l@));
            assert(t.filter(|l: Seq<char>| has_only(l)) =~= lv.take(i as int).filter(|l: Seq<char>| has_only(l)));
            let ghost prev = lv.take(i as int).filter(|l: Seq<char>| !has_only(l)).map_values(|l: Seq<char>| license_line(l));
            assert(t.filter(|l: Seq<char>| !has_only(l)).map_values(|l: Seq<char>| license_line(l)) =~= prev.push(license_line(l@)));
            proof {
                vstd::seq_lib::to_multiset_build(prev, license_line(l@));
            }
        }
        i += 1;
    }
    assert(lv.take(i as int) =~= lv);
    let ghost ordered = normal.deep_view() + only.deep_view();
    let ghost normal_view = normal.deep_view();
    let mut all = normal;
    let mut k: usize = 0;
    while k < only.len()
        invariant
            k <= only@.len(),
            all.deep_view() == ordered.take((ordered.len() - only@.len() + k) as int),
            ordered.len() >= only@.len(),
            ordered == ordered.take((ordered.len() - only@.len()) as int) + only.deep_view(),
        decreases only@.len() - k,
    {
        let ghost before = all.deep_view();
        let c = only[k].clone();
        all.push(c);
        assert(all.deep_view() =~= before.push(c@));
        assert(only.deep_view()[k as int] == only@[k as int]@);
        k += 1;
        assert(all.deep_view() =~= ordered.take((ordered.len() - only@.len() + k) as int));
    }
    assert(all.deep_view() =~= ordered);
    assert(lex_sorted(normal_view) && normal_view.to_multiset() == normal_lines(lv).to_multiset());
    if all.len() == 0 {
        return "UPDATE LICENSE".to_owned();
    }
    let mut out = "\n".to_owned();
    out.push_str(all[0].as_str());
    let mut j: usize = 1;
    assert(ordered.take(1) =~= seq![ordered[0]]);
    assert(all.deep_view()[0] == all@[0]@);
    while j < all.len()
        invariant
            1 <= j <= all@.len(),
            all.deep_view() == ordered,
            out@ == "\n"@ + join_lines(ordered.take(j as int)),
        decreases all@.len() - j,
    {
        out.push_str("\n");
        out.push_str(all[j].as_str());
        assert(all.deep_view()[j as int] == all@[j as int]@);
        assert(ordered.take(j + 1).drop_last() =~= ordered.take(j as int));
        j += 1;
        assert(out@ =~= "\n"@ + join_lines(ordered.take(j as int)));
    }
    assert(ordered.take(j as int) =~= ordered);
    out
}

/// The build dependency list of a recipe with the dependency lines `sorted`: a
/// `builddeps` field holding the lines and a newline; nothing where there are none.
pub open spec fn builddeps_text(sorted: Seq<Seq<char>>) -> Seq<char> {
    if sorted.len() == 0 {
        Seq::empty()
    } else {
        "builddeps   :\n"@ + join_lines(sorted) + "\n"@
    }
}

/// The build dependency field of a drafted recipe: a line `    - dependency` for each
/// dependency (as it is written), sorted; empty where there are none.
pub fn builddeps(deps: Vec<String>) -> (r: String)
    ensures
        exists|sorted: Seq<Seq<char>>|
            #[trigger] lex_sorted(sorted) && sorted.to_multiset() == deps.deep_view().map_values(
                |l: Seq<char>| license_line(l),
            ).to_multiset() && r@ == builddeps_text(sorted),
{
    let ghost dv = deps.deep_view();
    let mut lines: Vec<String> = Vec::new();
    let mut i: usize = 0;
    assert(lines.deep_view() =~= Seq::<Seq<char>>::empty());
    assert(dv.take(0).map_values(|l: Seq<char>| license_line(l)) =~= Seq::<Seq<char>>::empty());
    while i < deps.len()
        invariant
            i <= deps@.len(),
            dv == deps.deep_view(),
            lex_sorted(lines.deep_view()),
            lines.deep_view().to_multiset() == dv.take(i as int).map_values(|l: Seq<char>| license_line(l)).to_multiset(),
        decreases deps@.len() - i,
    {
        let d = &deps[i];
        assert(dv[i as int] == d@);
        let mut line = "    - ".to_owned();
        line.push_str(d.as_str());
        insert_sorted(&mut lines, line);
        let ghost prev = dv.take(i as int).map_values(|l: Seq<char>| license_line(l));
        assert(dv.take(i + 1).map_values(|l: Seq<char>| license_line(l)) =~= prev.push(license_line(d@)));
        proof {
            vstd::seq_lib::to_multiset_build(prev, license_line(d@));
        }
        i += 1;
    }
    assert(dv.take(i as int) =~= dv);
    let ghost sorted = lines.deep_view();
    if lines.len() == 0 {
        let r = String::new();
        assert(r@ =~= builddeps_text(sorted));
        return r;
    }
    let mut out = "builddeps   :\n".to_owned();
    out.push_str(lines[0].as_str());
    assert(sorted.take(1) =~= seq![sorted[0]]);
    assert(sorted[0] == lines@[0]@);
    let mut j: usize = 1;
    while j < lines.len()
        invariant
            1 <= j <= lines@.len(),
            lines.deep_view() == sorted,
            out@ == "builddeps   :\n"@ + join_lines(sorted.take(j as int)),
        decreases lines@.len() - j,
    {
        out.push_str("\n");
        out.push_str(lines[j].as_str());
        assert(sorted[j as int] == lines@[j as int]@);
        assert(sorted.take(j + 1).drop_last() =~= sorted.take(j as int));
        j += 1;
        assert(out@ =~= "builddeps   :\n"@ + join_lines(sorted.take(j as int)));
    }
    assert(sorted.take(j as int) =~= sorted);
    out.push_str("\n");
    assert(out@ =~= builddeps_text(sorted));
    out
}

} // verus!
