//! A set of triggers, checked and taken apart into the handlers that their path
//! patterns use.

use vstd::prelude::*;
use crate::fnmatch::Pattern;
use crate::triggers::{Error, Handler, Inhibitors, PathDefinition};

verus! {

/// A system trigger: the handlers that run for the paths that its patterns match.
pub struct Trigger {
    pub name: String,
    pub description: String,
    /// A trigger that this one runs before.
    pub before: Option<String>,
    /// A trigger that this one runs after.
    pub after: Option<String>,
    pub inhibitors: Option<Inhibitors>,
    /// The path patterns, in order, each with the handlers it uses.
    pub paths: Vec<(Pattern, PathDefinition)>,
    /// The handlers, by name.
    pub handlers: Vec<(String, Handler)>,
}

/// A use of a handler: the position of its trigger, the position of the path pattern
/// that uses it, and its name.
pub type Use = (int, int, Seq<char>);

/// The uses of the handlers that the path patterns `paths` of trigger `t` name, in
/// order.
pub open spec fn trigger_uses(t: int, paths: Seq<(Pattern, PathDefinition)>) -> Seq<Use>
    decreases paths.len(),
{
    if paths.len() == 0 {
        Seq::empty()
    } else {
        trigger_uses(t, paths.drop_last()) + paths.last().1.handlers@.map_values(
            |h: String| (t, paths.len() - 1, h@),
        )
    }
}

/// The uses of handlers in the triggers `ts`, trigger after trigger, in order.
pub open spec fn all_uses(ts: Seq<Trigger>) -> Seq<Use>
    decreases ts.len(),
{
    if ts.len() == 0 {
        Seq::empty()
    } else {
        all_uses(ts.drop_last()) + trigger_uses(ts.len() - 1, ts.last().paths@)
    }
}

/// Whether the trigger of a use defines the handler it names.
pub open spec fn defined(ts: Seq<Trigger>, u: Use) -> bool {
    exists|j: int| 0 <= j < ts[u.0].handlers@.len() && (#[trigger] ts[u.0].handlers@[j]).0@ == u.2
}

/// The position of the first use whose handler is not defined.
pub open spec fn first_missing(ts: Seq<Trigger>, us: Seq<Use>) -> Option<int>
    decreases us.len(),
{
    if us.len() == 0 {
        None
    } else {
        match first_missing(ts, us.drop_last()) {
            Some(i) => Some(i),
            None => if defined(ts, us.last()) {
                None
            } else {
                Some(us.len() - 1)
            },
        }
    }
}

/// A missing handler in a prefix is the first missing one of any longer sequence.
proof fn lemma_first_missing_prefix(ts: Seq<Trigger>, us: Seq<Use>, k: int)
    requires
        0 <= k <= us.len(),
        first_missing(ts, us.take(k)) is Some,
    ensures
        first_missing(ts, us) == first_missing(ts, us.take(k)),
    decreases us.len() - k,
{
    if k < us.len() {
        assert(us.drop_last().take(k) =~= us.take(k));
        lemma_first_missing_prefix(ts, us.drop_last(), k);
    } else {
        assert(us.take(k) =~= us);
    }
}

/// The uses of a trigger's first patterns start the uses of all its patterns.
proof fn lemma_trigger_uses_prefix(t: int, ps: Seq<(Pattern, PathDefinition)>, k: int)
    requires
        0 <= k <= ps.len(),
    ensures
        trigger_uses(t, ps.take(k)).len() <= trigger_uses(t, ps).len(),
        trigger_uses(t, ps).take(trigger_uses(t, ps.take(k)).len() as int) == trigger_uses(t, ps.take(k)),
    decreases ps.len() - k,
{
    if k < ps.len() {
        assert(ps.drop_last().take(k) =~= ps.take(k));
        lemma_trigger_uses_prefix(t, ps.drop_last(), k);
        let a = trigger_uses(t, ps.take(k));
        let b = trigger_uses(t, ps.drop_last());
        assert((b + ps.last().1.handlers@.map_values(|h: String| (t, ps.len() - 1, h@))).take(a.len() as int)
            =~= b.take(a.len() as int));
    } else {
        assert(ps.take(k) =~= ps);
    }
}

/// The uses of the first triggers start the uses of all of them.
proof fn lemma_all_uses_prefix(ts: Seq<Trigger>, k: int)
    requires
        0 <= k <= ts.len(),
    ensures
        all_uses(ts.take(k)).len() <= all_uses(ts).len(),
        all_uses(ts).take(all_uses(ts.take(k)).len() as int) == all_uses(ts.take(k)),
    decreases ts.len() - k,
{
    if k < ts.len() {
        assert(ts.drop_last().take(k) =~= ts.take(k));
        lemma_all_uses_prefix(ts.drop_last(), k);
        let a = all_uses(ts.take(k));
        let b = all_uses(ts.drop_last());
        assert((b + trigger_uses(ts.len() - 1, ts.last().paths@)).take(a.len() as int) =~= b.take(a.len() as int));
    } else {
        assert(ts.take(k) =~= ts);
    }
}

/// The handlers that the path patterns of the triggers use, each with its trigger and
/// pattern, in order; or, where a pattern names a handler that its trigger does not
/// define, the first such trigger and handler.
pub fn extract_handlers(ts: &Vec<Trigger>) -> (r: Result<Vec<(usize, usize, String)>, Error>)
    ensures
        match first_missing(ts@, all_uses(ts@)) {
            None => r matches Ok(v) && v@.map_values(|e: (usize, usize, String)| (e.0 as int, e.1 as int, e.2@))
                == all_uses(ts@),
            Some(i) => r matches Err(Error::MissingHandler(tn, hn)) && tn@ == ts@[all_uses(ts@)[i].0].name@
                && hn@ == all_uses(ts@)[i].2,
        },
{
    let ghost all = all_uses(ts@);
    let mut out: Vec<(usize, usize, String)> = Vec::new();
    let mut t: usize = 0;
    assert(ts@.take(0) =~= Seq::<Trigger>::empty());
    while t < ts.len()
        invariant
            t <= ts@.len(),
            all == all_uses(ts@),
            out@.map_values(|e: (usize, usize, String)| (e.0 as int, e.1 as int, e.2@)) == all_uses(ts@.take(t as int)),
            first_missing(ts@, all_uses(ts@.take(t as int))) is None,
        decreases ts@.len() - t,
    {
        let trigger = &ts[t];
        let ghost ps = trigger.paths@;
        let ghost base = all_uses(ts@.take(t as int));
        let mut p: usize = 0;
        assert(ps.take(0) =~= Seq::<(Pattern, PathDefinition)>::empty());
        assert(base + trigger_uses(t as int, ps.take(0)) =~= base);
        while p < trigger.paths.len()
            invariant
                t < ts@.len(),
                p <= ps.len(),
                *trigger == ts@[t as int],
                ps == trigger.paths@,
                all == all_uses(ts@),
                base == all_uses(ts@.take(t as int)),
                out@.map_values(|e: (usize, usize, String)| (e.0 as int, e.1 as int, e.2@)) == base + trigger_uses(
                    t as int,
                    ps.take(p as int),
                ),
                first_missing(ts@, base + trigger_uses(t as int, ps.take(p as int))) is None,
            decreases ps.len() - p,
        {
            let hs = &trigger.paths[p].1.handlers;
            let ghost hv = hs@.map_values(|h: String| (t as int, p as int, h@));
            let ghost mid = base + trigger_uses(t as int, ps.take(p as int));
            let mut u: usize = 0;
            assert(mid + hv.take(0) =~= mid);
            while u < hs.len()
                invariant
                    t < ts@.len(),
                    p < ps.len(),
                    u <= hs@.len(),
                    *trigger == ts@[t as int],
                    ps == trigger.paths@,
                    *hs == ps[p as int].1.handlers,
                    hv == hs@.map_values(|h: String| (t as int, p as int, h@)),
                    all == all_uses(ts@),
                    base == all_uses(ts@.take(t as int)),
                    mid == base + trigger_uses(t as int, ps.take(p as int)),
                    out@.map_values(|e: (usize, usize, String)| (e.0 as int, e.1 as int, e.2@)) == mid + hv.take(u as int),
                    first_missing(ts@, mid + hv.take(u as int)) is None,
                decreases hs@.len() - u,
            {
                let name = &hs[u];
                let ghost x = (t as int, p as int, name@);
                assert(hv[u as int] == x);
                assert(mid + hv.take(u + 1) =~= (mid + hv.take(u as int)).push(x));
                let mut found = false;
                let mut j: usize = 0;
                while j < trigger.handlers.len()
                    invariant
                        j <= trigger.handlers@.len(),
                        found == exists|m: int| 0 <= m < j && (#[trigger] trigger.handlers@[m]).0@ == name@,
                    decreases trigger.handlers@.len() - j,
                {
                    if crate::text::str_eq(trigger.handlers[j].0.as_str(), name.as_str()) {
                        found = true;
                    }
                    j += 1;
                }
                if !found {
                    proof {
                        let pre = mid + hv.take(u + 1);
                        assert(!defined(ts@, x));
                        assert(pre.drop_last() =~= mid + hv.take(u as int));
                        assert(first_missing(ts@, pre) == Some(pre.len() - 1));
                        lemma_path_prefix_of_all(ts@, t as int, p as int, u as int + 1);
                        lemma_first_missing_prefix(ts@, all, pre.len() as int);
                        assert(all.take(pre.len() as int) == pre);
                        assert(all[pre.len() - 1] == x);
                    }
                    return Err(Error::MissingHandler(trigger.name.clone(), name.clone()));
                }
                proof {
                    let m = choose|m: int| 0 <= m < j && (#[trigger] trigger.handlers@[m]).0@ == name@;
                    assert(ts@[x.0].handlers@[m] == trigger.handlers@[m]);
                    assert(defined(ts@, x));
                    let pre = mid + hv.take(u + 1);
                    assert(pre.drop_last() =~= mid + hv.take(u as int));
                    assert(pre.last() == x);
                }
                let ghost before = out@.map_values(|e: (usize, usize, String)| (e.0 as int, e.1 as int, e.2@));
                out.push((t, p, name.clone()));
                assert(out@.map_values(|e: (usize, usize, String)| (e.0 as int, e.1 as int, e.2@)) =~= before.push(x));
                u += 1;
            }
            proof {
                assert(hv.take(u as int) =~= hv);
                assert(ps.take(p + 1).drop_last() =~= ps.take(p as int));
                assert(ps.take(p + 1).last() == ps[p as int]);
                assert(trigger_uses(t as int, ps.take(p + 1)) == trigger_uses(t as int, ps.take(p as int)) + hv);
                assert(mid + hv =~= base + trigger_uses(t as int, ps.take(p + 1)));
            }
            p += 1;
        }
        proof {
            assert(ps.take(p as int) =~= ps);
            assert(ts@.take(t + 1).drop_last() =~= ts@.take(t as int));
            assert(ts@.take(t + 1).last() == ts@[t as int]);
        }
        t += 1;
    }
    assert(ts@.take(t as int) =~= ts@);
    Ok(out)
}

/// The uses up to a handler of a pattern of a trigger start all the uses.
proof fn lemma_path_prefix_of_all(ts: Seq<Trigger>, t: int, p: int, u: int)
    requires
        0 <= t < ts.len(),
        0 <= p < ts[t].paths@.len(),
        0 <= u <= ts[t].paths@[p].1.handlers@.len(),
    ensures
        ({
            let pre = all_uses(ts.take(t)) + trigger_uses(t, ts[t].paths@.take(p))
                + ts[t].paths@[p].1.handlers@.map_values(|h: String| (t, p, h@)).take(u);
            pre.len() <= all_uses(ts).len() && all_uses(ts).take(pre.len() as int) == pre
        }),
{
    let ps = ts[t].paths@;
    let hv = ps[p].1.handlers@.map_values(|h: String| (t, p, h@));
    let a = all_uses(ts.take(t));
    let tp = trigger_uses(t, ps.take(p));
    let pre = a + tp + hv.take(u);
    assert(ps.take(p + 1).drop_last() =~= ps.take(p));
    assert(ps.take(p + 1).last() == ps[p]);
    let tp1 = trigger_uses(t, ps.take(p + 1));
    assert(tp1 == tp + hv);
    lemma_trigger_uses_prefix(t, ps, p + 1);
    let full_t = trigger_uses(t, ps);
    assert(ts.take(t + 1).drop_last() =~= ts.take(t));
    assert(ts.take(t + 1).last() == ts[t]);
    let a1 = all_uses(ts.take(t + 1));
    assert(a1 == a + full_t);
    lemma_all_uses_prefix(ts, t + 1);
    let all = all_uses(ts);
    assert(all.take(a1.len() as int) == a1);
    assert(pre.len() <= a1.len());
    assert(a1.take(pre.len() as int) =~= pre) by {
        assert(full_t.take(tp1.len() as int) == tp1);
        assert forall|i: int| 0 <= i < pre.len() implies a1[i] == pre[i] by {
            if i >= a.len() {
                assert(full_t[i - a.len()] == tp1[i - a.len()]);
            }
        }
    }
    assert(all.take(pre.len() as int) =~= a1.take(pre.len() as int));
}

} // verus!
