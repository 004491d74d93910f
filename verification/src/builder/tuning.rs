//! The tuning of a build: which tuning groups it asks for, and how its compiler flags are
//! written.

use vstd::prelude::*;
use crate::stone_recipe::macros::Macros;
use crate::stone_recipe::recipe::KeyValue;
use crate::builder::phase::PgoStage;
use crate::erofs::bytes::{utf8, utf8_len};
use crate::names::{strictly_sorted, NameSet};
use crate::stone_recipe::recipe::KeyValueView;
use crate::text::{join_words, joined, str_eq, trim, trimmed};
use crate::stone_script::env::ScriptEnv;
use crate::builder::builtins::{add_builtins, builtin_views, with_builtins, BuiltinValue, BuiltinValueView};

verus! {

/// The macros of an architecture among those loaded: the first entry with that name.
pub open spec fn arch_macros(archs: Seq<KeyValue<Macros>>, name: Seq<char>) -> Option<Macros>
    decreases archs.len(),
{
    if archs.len() == 0 {
        None
    } else if archs[0].key@ == name {
        Some(archs[0].value)
    } else {
        arch_macros(archs.drop_first(), name)
    }
}

/// Whether the macros of the architecture `name` name default tuning groups.
pub open spec fn names_groups(archs: Seq<KeyValue<Macros>>, name: Seq<char>) -> bool {
    arch_macros(archs, name) matches Some(m) && m.default_tuning_groups@.len() > 0
}

/// The default tuning groups of a build for `target`: those of the target's macros, or
/// else those of the base macros, the first of them that names any; none otherwise.
pub open spec fn spec_default_tuning_groups(archs: Seq<KeyValue<Macros>>, target: Seq<char>) -> Seq<Seq<char>> {
    if names_groups(archs, target) {
        arch_macros(archs, target)->0.default_tuning_groups.deep_view()
    } else if names_groups(archs, "base"@) {
        arch_macros(archs, "base"@)->0.default_tuning_groups.deep_view()
    } else {
        Seq::empty()
    }
}

/// The macros of the architecture `name`.
fn find_arch<'a>(archs: &'a Vec<KeyValue<Macros>>, name: &str) -> (r: Option<&'a Macros>)
    ensures
        match r {
            Some(m) => arch_macros(archs@, name@) == Some(*m),
            None => arch_macros(archs@, name@) is None,
        },
{
    let mut i: usize = 0;
    assert(archs@.skip(0) =~= archs@);
    while i < archs.len()
        invariant
            i <= archs@.len(),
            arch_macros(archs@, name@) == arch_macros(archs@.skip(i as int), name@),
        decreases archs@.len() - i,
    {
        assert(archs@.skip(i as int).drop_first() =~= archs@.skip(i + 1));
        assert(archs@.skip(i as int)[0] == archs@[i as int]);
        if str_eq(archs[i].key.as_str(), name) {
            return Some(&archs[i].value);
        }
        i += 1;
    }
    None
}

/// The default tuning groups of a build for `target`: those of the target's macros, or
/// else those of the base macros, the first of them that names any; none otherwise.
pub fn default_tuning_groups<'a>(target: &str, archs: &'a Vec<KeyValue<Macros>>) -> (r: &'a [String])
    ensures
        r@.map_values(|s: String| s@) == spec_default_tuning_groups(archs@, target@),
{
    if let Some(m) = find_arch(archs, target) {
        if m.default_tuning_groups.len() > 0 {
            assert(m.default_tuning_groups.deep_view() =~= m.default_tuning_groups@.map_values(|s: String| s@));
            return m.default_tuning_groups.as_slice();
        }
    }
    if let Some(m) = find_arch(archs, "base") {
        if m.default_tuning_groups.len() > 0 {
            assert(m.default_tuning_groups.deep_view() =~= m.default_tuning_groups@.map_values(|s: String| s@));
            return m.default_tuning_groups.as_slice();
        }
    }
    let empty: &[String] = &[];
    assert(empty@.map_values(|s: String| s@) =~= Seq::<Seq<char>>::empty());
    empty
}

/// What a recipe asks of a tuning group.
pub enum TuningChoice {
    Enable,
    Disable,
    /// Enabled with the named configuration.
    Config(String),
}

/// The mathematical value of a [`TuningChoice`].
pub enum TuningChoiceView {
    Enable,
    Disable,
    Config(Seq<char>),
}

impl DeepView for TuningChoice {
    type V = TuningChoiceView;

    open spec fn deep_view(&self) -> TuningChoiceView {
        match self {
            TuningChoice::Enable => TuningChoiceView::Enable,
            TuningChoice::Disable => TuningChoiceView::Disable,
            TuningChoice::Config(c) => TuningChoiceView::Config(c@),
        }
    }
}

/// A request made of the tuning of a build.
pub enum TuningRequest {
    /// Enables a group, with a configuration or its default one.
    Enable { group: String, config: Option<String> },
    /// Disables a group.
    Disable { group: String },
}

/// The mathematical value of a [`TuningRequest`].
pub enum TuningRequestView {
    Enable { group: Seq<char>, config: Option<Seq<char>> },
    Disable { group: Seq<char> },
}

impl DeepView for TuningRequest {
    type V = TuningRequestView;

    open spec fn deep_view(&self) -> TuningRequestView {
        match self {
            TuningRequest::Enable { group, config } => TuningRequestView::Enable {
                group: group@,
                config: config.deep_view(),
            },
            TuningRequest::Disable { group } => TuningRequestView::Disable { group: group@ },
        }
    }
}

/// Enabling a group with its default configuration.
pub open spec fn enable(group: Seq<char>) -> TuningRequestView {
    TuningRequestView::Enable { group, config: None }
}

/// The request for what a recipe asks of a group.
pub open spec fn choice_request(kv: KeyValueView<TuningChoiceView>) -> TuningRequestView {
    match kv.value {
        TuningChoiceView::Enable => enable(kv.key),
        TuningChoiceView::Disable => TuningRequestView::Disable { group: kv.key },
        TuningChoiceView::Config(c) => TuningRequestView::Enable { group: kv.key, config: Some(c) },
    }
}

/// The default groups that the recipe does not name, in order.
pub open spec fn missing_defaults(defaults: Seq<Seq<char>>, keys: Seq<Seq<char>>) -> Seq<Seq<char>>
    decreases defaults.len(),
{
    if defaults.len() == 0 {
        Seq::empty()
    } else {
        let prev = missing_defaults(defaults.drop_last(), keys);
        if keys.contains(defaults.last()) {
            prev
        } else {
            prev.push(defaults.last())
        }
    }
}

/// The groups that a profile guided optimisation stage enables: its own stage, and
/// sampling profiles in the final stage where the recipe asks for them.
pub open spec fn pgo_requests(pgo: Option<PgoStage>, samplepgo: bool) -> Seq<TuningRequestView> {
    match pgo {
        None => Seq::empty(),
        Some(PgoStage::One) => seq![enable("pgostage1"@)],
        Some(PgoStage::Two) => seq![enable("pgostage2"@)],
        Some(PgoStage::Use) => if samplepgo {
            seq![enable("pgouse"@), enable("pgosample"@)]
        } else {
            seq![enable("pgouse"@)]
        },
    }
}

/// The requests that tune a build: the architecture group; what the recipe asks of each
/// group, in order; the default groups it does not name; then the groups of the profile
/// guided optimisation stage.
pub open spec fn spec_tuning_requests(
    recipe: Seq<KeyValueView<TuningChoiceView>>,
    defaults: Seq<Seq<char>>,
    pgo: Option<PgoStage>,
    samplepgo: bool,
) -> Seq<TuningRequestView> {
    seq![enable("architecture"@)] + recipe.map_values(|kv: KeyValueView<TuningChoiceView>| choice_request(kv))
        + missing_defaults(defaults, recipe.map_values(|kv: KeyValueView<TuningChoiceView>| kv.key)).map_values(
        |g: Seq<char>| enable(g),
    ) + pgo_requests(pgo, samplepgo)
}

/// Appends the request to enable `group` with its default configuration.
fn push_enable(out: &mut Vec<TuningRequest>, group: String)
    ensures
        final(out).deep_view() == old(out).deep_view().push(enable(group@)),
{
    let ghost before = out.deep_view();
    out.push(TuningRequest::Enable { group, config: None });
    assert(out.deep_view() =~= before.push(enable(group@)));
}

/// The requests that tune a build, in the order they are made: the architecture group;
/// what the recipe asks of each group; the default groups it does not name; then the
/// groups of the profile guided optimisation stage.
pub fn tuning_requests(
    recipe: &Vec<KeyValue<TuningChoice>>,
    defaults: &[String],
    pgo: Option<PgoStage>,
    samplepgo: bool,
) -> (r: Vec<TuningRequest>)
    ensures
        r.deep_view() == spec_tuning_requests(
            recipe.deep_view(),
            defaults@.map_values(|g: String| g@),
            pgo,
            samplepgo,
        ),
{
    let ghost rv = recipe.deep_view();
    let ghost keys = rv.map_values(|kv: KeyValueView<TuningChoiceView>| kv.key);
    let ghost ds = defaults@.map_values(|g: String| g@);
    let mut out: Vec<TuningRequest> = Vec::new();
    push_enable(&mut out, "architecture".to_owned());
    let ghost head = out.deep_view();
    assert(head =~= seq![enable("architecture"@)]);
    let mut i: usize = 0;
    while i < recipe.len()
        invariant
            i <= recipe@.len(),
            rv == recipe.deep_view(),
            out.deep_view() == head + rv.take(i as int).map_values(
                |kv: KeyValueView<TuningChoiceView>| choice_request(kv),
            ),
        decreases recipe@.len() - i,
    {
        let kv = &recipe[i];
        let ghost before = out.deep_view();
        let req = match &kv.value {
            TuningChoice::Enable => TuningRequest::Enable { group: kv.key.clone(), config: None },
            TuningChoice::Disable => TuningRequest::Disable { group: kv.key.clone() },
            TuningChoice::Config(c) => TuningRequest::Enable { group: kv.key.clone(), config: Some(c.clone()) },
        };
        assert(req.deep_view() == choice_request(rv[i as int]));
        out.push(req);
        assert(out.deep_view() =~= before.push(req.deep_view()));
        assert(rv.take(i + 1).map_values(|kv: KeyValueView<TuningChoiceView>| choice_request(kv)) =~= rv.take(
            i as int,
        ).map_values(|kv: KeyValueView<TuningChoiceView>| choice_request(kv)).push(choice_request(rv[i as int])));
        i += 1;
    }
    assert(rv.take(i as int) =~= rv);
    let ghost mid = out.deep_view();
    let mut j: usize = 0;
    while j < defaults.len()
        invariant
            j <= defaults@.len(),
            rv == recipe.deep_view(),
            keys == rv.map_values(|kv: KeyValueView<TuningChoiceView>| kv.key),
            ds == defaults@.map_values(|g: String| g@),
            out.deep_view() == mid + missing_defaults(ds.take(j as int), keys).map_values(|g: Seq<char>| enable(g)),
        decreases defaults@.len() - j,
    {
        let group = &defaults[j];
        let mut named = false;
        let mut k: usize = 0;
        while k < recipe.len()
            invariant
                k <= recipe@.len(),
                rv == recipe.deep_view(),
                keys == rv.map_values(|kv: KeyValueView<TuningChoiceView>| kv.key),
                named == exists|m: int| 0 <= m < k && keys[m] == group@,
            decreases recipe@.len() - k,
        {
            assert(keys[k as int] == recipe@[k as int].key@);
            if str_eq(recipe[k].key.as_str(), group.as_str()) {
                named = true;
            }
            k += 1;
        }
        proof {
            assert(ds.take(j + 1).drop_last() =~= ds.take(j as int));
            assert(ds[j as int] == group@);
            if named {
                let m = choose|m: int| 0 <= m < recipe@.len() && keys[m] == group@;
                assert(keys.contains(group@));
            } else {
                assert(!keys.contains(group@));
            }
        }
        if !named {
            let ghost before = missing_defaults(ds.take(j as int), keys);
            push_enable(&mut out, group.clone());
            assert(before.push(group@).map_values(|g: Seq<char>| enable(g)) =~= before.map_values(
                |g: Seq<char>| enable(g),
            ).push(enable(group@)));
        }
        j += 1;
    }
    assert(ds.take(j as int) =~= ds);
    let ghost tail = out.deep_view();
    match pgo {
        Some(PgoStage::One) => push_enable(&mut out, "pgostage1".to_owned()),
        Some(PgoStage::Two) => push_enable(&mut out, "pgostage2".to_owned()),
        Some(PgoStage::Use) => {
            push_enable(&mut out, "pgouse".to_owned());
            if samplepgo {
                push_enable(&mut out, "pgosample".to_owned());
            }
        },
        None => {},
    }
    assert(out.deep_view() =~= tail + pgo_requests(pgo, samplepgo));
    out
}

/// A default group is missing from a recipe exactly when the recipe does not name it.
proof fn lemma_missing_defaults_members(defaults: Seq<Seq<char>>, keys: Seq<Seq<char>>)
    ensures
        forall|g: Seq<char>|
            #[trigger] missing_defaults(defaults, keys).contains(g) <==> defaults.contains(g)
                && !keys.contains(g),
    decreases defaults.len(),
{
    if defaults.len() > 0 {
        let prev = defaults.drop_last();
        lemma_missing_defaults_members(prev, keys);
        assert forall|g: Seq<char>| defaults.contains(g) <==> prev.contains(g) || g == defaults.last() by {
            if defaults.contains(g) {
                let k = choose|k: int| 0 <= k < defaults.len() && defaults[k] == g;
                if k < defaults.len() - 1 {
                    assert(prev[k] == g);
                }
            }
            if prev.contains(g) {
                let k = choose|k: int| 0 <= k < prev.len() && prev[k] == g;
                assert(defaults[k] == g);
            }
            if g == defaults.last() {
                assert(defaults[defaults.len() - 1] == g);
            }
        }
        let m = missing_defaults(prev, keys);
        assert(missing_defaults(defaults, keys) == if keys.contains(defaults.last()) {
            m
        } else {
            m.push(defaults.last())
        });
        if !keys.contains(defaults.last()) {
            assert forall|g: Seq<char>| m.push(defaults.last()).contains(g) <==> m.contains(g) || g
                == defaults.last() by {
                if m.push(defaults.last()).contains(g) {
                    let k = choose|k: int| 0 <= k < m.len() + 1 && m.push(defaults.last())[k] == g;
                    if k < m.len() {
                        assert(m[k] == g);
                    }
                }
                if m.contains(g) {
                    let k = choose|k: int| 0 <= k < m.len() && m[k] == g;
                    assert(m.push(defaults.last())[k] == g);
                }
                if g == defaults.last() {
                    assert(m.push(defaults.last())[m.len() as int] == g);
                }
            }
        }
        assert forall|g: Seq<char>| #[trigger] missing_defaults(defaults, keys).contains(g)
            <==> defaults.contains(g) && !keys.contains(g) by {
            assert(m.contains(g) <==> prev.contains(g) && !keys.contains(g));
        }
    }
}

/// The requests of a build begin with enabling the architecture group, then follow what
/// the recipe asks of each group in its order, and end with enabling the group of the
/// profile guided optimisation stage: `pgostage1` for the first stage, `pgostage2` for
/// the second, and `pgouse` for the final one, followed by `pgosample` where sampling
/// profiles are asked for. A build outside such a stage enables no stage group after
/// the recipe's and the default groups.
pub proof fn law_tuning_request_order(
    recipe: Seq<KeyValueView<TuningChoiceView>>,
    defaults: Seq<Seq<char>>,
    pgo: Option<PgoStage>,
    samplepgo: bool,
)
    ensures
        ({
            let r = spec_tuning_requests(recipe, defaults, pgo, samplepgo);
            let named = recipe.map_values(|kv: KeyValueView<TuningChoiceView>| kv.key);
            let base = 1 + recipe.len() + missing_defaults(defaults, named).len();
            &&& r.len() >= 1 + recipe.len()
            &&& r[0] == TuningRequestView::Enable { group: "architecture"@, config: None }
            &&& forall|i: int|
                #![trigger recipe[i]]
                0 <= i < recipe.len() ==> match recipe[i].value {
                    TuningChoiceView::Enable => r[i + 1] == TuningRequestView::Enable {
                        group: recipe[i].key,
                        config: None,
                    },
                    TuningChoiceView::Disable => r[i + 1] == TuningRequestView::Disable {
                        group: recipe[i].key,
                    },
                    TuningChoiceView::Config(c) => r[i + 1] == TuningRequestView::Enable {
                        group: recipe[i].key,
                        config: Some(c),
                    },
                }
            &&& forall|j: int|
                1 + recipe.len() <= j < base ==> (#[trigger] r[j] matches TuningRequestView::Enable {
                    group,
                    config,
                } && config is None && defaults.contains(group) && !named.contains(group))
            &&& forall|g: Seq<char>|
                defaults.contains(g) && !named.contains(g) ==> r.contains(
                    TuningRequestView::Enable { group: g, config: None },
                )
            &&& pgo is None ==> r.len() == base
            &&& pgo == Some(PgoStage::One) ==> r.len() == base + 1 && r.last()
                == TuningRequestView::Enable { group: "pgostage1"@, config: None }
            &&& pgo == Some(PgoStage::Two) ==> r.len() == base + 1 && r.last()
                == TuningRequestView::Enable { group: "pgostage2"@, config: None }
            &&& pgo == Some(PgoStage::Use) && !samplepgo ==> r.len() == base + 1 && r.last()
                == TuningRequestView::Enable { group: "pgouse"@, config: None }
            &&& pgo == Some(PgoStage::Use) && samplepgo ==> r.len() == base + 2 && r[r.len() - 2]
                == TuningRequestView::Enable { group: "pgouse"@, config: None } && r.last()
                == TuningRequestView::Enable { group: "pgosample"@, config: None }
        }),
{
    let r = spec_tuning_requests(recipe, defaults, pgo, samplepgo);
    let head = seq![enable("architecture"@)] + recipe.map_values(
        |kv: KeyValueView<TuningChoiceView>| choice_request(kv),
    );
    assert forall|i: int| 0 <= i < recipe.len() implies r[i + 1] == choice_request(
        #[trigger] recipe[i],
    ) by {
        assert(r[i + 1] == head[i + 1]);
    }
    let named = recipe.map_values(|kv: KeyValueView<TuningChoiceView>| kv.key);
    let missing = missing_defaults(defaults, named);
    let middle = missing.map_values(|g: Seq<char>| enable(g));
    lemma_missing_defaults_members(defaults, named);
    assert forall|j: int| 1 + recipe.len() <= j < 1 + recipe.len() + missing.len() implies r[j]
        == enable(missing[j - 1 - recipe.len()]) by {
        assert((head + middle)[j] == middle[j - head.len()]);
    }
    assert forall|j: int| 1 + recipe.len() <= j < 1 + recipe.len() + missing.len() implies (
    #[trigger] r[j] matches TuningRequestView::Enable { group, config } && config is None
        && defaults.contains(group) && !named.contains(group)) by {
        assert(missing.contains(missing[j - 1 - recipe.len()]));
    }
    assert forall|g: Seq<char>| defaults.contains(g) && !named.contains(g) implies r.contains(
        TuningRequestView::Enable { group: g, config: None },
    ) by {
        assert(missing.contains(g));
        let k = choose|k: int| 0 <= k < missing.len() && missing[k] == g;
        assert(r[1 + recipe.len() + k] == enable(missing[k]));
    }
}

/// The flags a list keeps: each without its surrounding white space, those longer than
/// a byte.
pub open spec fn kept_flags(fs: Seq<Seq<char>>) -> Set<Seq<char>> {
    Set::new(|t: Seq<char>| exists|i: int| 0 <= i < fs.len() && t == #[trigger] trimmed(fs[i]) && utf8(t).len() > 1)
}

/// The names of a set in increasing order, each once, where the set has such an order.
pub open spec fn sorted_names(names: Set<Seq<char>>) -> Seq<Seq<char>> {
    choose|w: Seq<Seq<char>>| strictly_sorted(w) && w.to_set() == names
}

/// A list of compiler flags as a build writes it: each without its surrounding white
/// space, those longer than a byte, each once, in increasing order, joined by single
/// spaces.
pub open spec fn spec_fmt_flags(fs: Seq<Seq<char>>) -> Seq<char> {
    joined(sorted_names(kept_flags(fs)))
}

/// Writes a list of compiler flags: each without its surrounding white space, those
/// longer than a byte, each once, in increasing order, joined by single spaces.
pub fn fmt_flags(flags: &Vec<String>) -> (s: String)
    ensures
        s@ == spec_fmt_flags(flags@.map_values(|f: String| f@)),
        strictly_sorted(sorted_names(kept_flags(flags@.map_values(|f: String| f@)))),
        sorted_names(kept_flags(flags@.map_values(|f: String| f@))).to_set() == kept_flags(
            flags@.map_values(|f: String| f@),
        ),
{
    let ghost fs = flags@.map_values(|f: String| f@);
    let mut set = NameSet::new();
    let mut i: usize = 0;
    assert(set.spec_set() =~= kept_flags(fs.take(0)));
    while i < flags.len()
        invariant
            i <= flags@.len(),
            fs == flags@.map_values(|f: String| f@),
            set.spec_set() == kept_flags(fs.take(i as int)),
        decreases flags@.len() - i,
    {
        let t = trim(flags[i].as_str());
        let n = utf8_len(t.as_str());
        let ghost before = set.spec_set();
        assert(fs[i as int] == flags@[i as int]@);
        if n > 1 {
            set.insert(t);
            assert(kept_flags(fs.take(i + 1)) =~= before.insert(t@)) by {
                assert forall|x: Seq<char>| #[trigger] kept_flags(fs.take(i + 1)).contains(x) implies before.insert(
                    t@,
                ).contains(x) by {
                    let m = choose|m: int|
                        0 <= m < fs.take(i + 1).len() && x == #[trigger] trimmed(fs.take(i + 1)[m]) && utf8(x).len() > 1;
                    if m < i {
                        assert(fs.take(i as int)[m] == fs.take(i + 1)[m]);
                    }
                }
                assert forall|x: Seq<char>| #[trigger] before.insert(t@).contains(x) implies kept_flags(
                    fs.take(i + 1),
                ).contains(x) by {
                    if x == t@ {
                        assert(fs.take(i + 1)[i as int] == fs[i as int]);
                    } else {
                        let m = choose|m: int|
                            0 <= m < fs.take(i as int).len() && x == #[trigger] trimmed(fs.take(i as int)[m]) && utf8(x).len()
                                > 1;
                        assert(fs.take(i + 1)[m] == fs.take(i as int)[m]);
                    }
                }
            }
        } else {
            assert(kept_flags(fs.take(i + 1)) =~= before) by {
                assert forall|x: Seq<char>| #[trigger] kept_flags(fs.take(i + 1)).contains(x) implies before.contains(
                    x,
                ) by {
                    let m = choose|m: int|
                        0 <= m < fs.take(i + 1).len() && x == #[trigger] trimmed(fs.take(i + 1)[m]) && utf8(x).len() > 1;
                    if m < i {
                        assert(fs.take(i as int)[m] == fs.take(i + 1)[m]);
                    } else {
                        assert(fs.take(i + 1)[m] == fs[i as int]);
                    }
                }
                assert forall|x: Seq<char>| #[trigger] before.contains(x) implies kept_flags(fs.take(i + 1)).contains(
                    x,
                ) by {
                    let m = choose|m: int|
                        0 <= m < fs.take(i as int).len() && x == #[trigger] trimmed(fs.take(i as int)[m]) && utf8(x).len() > 1;
                    assert(fs.take(i + 1)[m] == fs.take(i as int)[m]);
                }
            }
        }
        i += 1;
    }
    assert(fs.take(i as int) =~= fs);
    let words = set.to_vec();
    let s = join_words(&words);
    proof {
        let w = words@.map_values(|w: String| w@);
        assert(strictly_sorted(w) && w.to_set() == kept_flags(fs));
        let c = sorted_names(kept_flags(fs));
        crate::names::lemma_strictly_sorted_unique(c, w);
    }
    s
}

/// The architecture whose macros a build's tuning needs and that are not loaded: the
/// base macros first, then those of the target.
pub open spec fn spec_missing_arch(archs: Seq<KeyValue<Macros>>, target: Seq<char>) -> Option<Seq<char>> {
    if arch_macros(archs, "base"@) is None {
        Some("base"@)
    } else if arch_macros(archs, target) is None {
        Some(target)
    } else {
        None
    }
}

/// Checks that the macros a build's tuning needs are loaded: those of the base
/// architecture and of the target; the first that is missing otherwise.
pub fn check_arch_macros(target: &str, archs: &Vec<KeyValue<Macros>>) -> (r: Result<(), String>)
    ensures
        match spec_missing_arch(archs@, target@) {
            Some(a) => r matches Err(m) && m@ == a,
            None => r is Ok,
        },
{
    if find_arch(archs, "base").is_none() {
        return Err("base".to_owned());
    }
    if find_arch(archs, target).is_none() {
        return Err(target.to_owned());
    }
    Ok(())
}

/// The compiler flags of a build that links with mold: the C and C++ flags, and the
/// Rust flags, each told to link with it.
pub open spec fn spec_mold_flags(c: Seq<char>, cxx: Seq<char>, rust: Seq<char>, mold: bool) -> (
    Seq<char>,
    Seq<char>,
    Seq<char>,
) {
    if mold {
        (c + " -fuse-ld=mold"@, cxx + " -fuse-ld=mold"@, rust + " -Clink-arg=-fuse-ld=mold"@)
    } else {
        (c, cxx, rust)
    }
}

/// Tells the C, C++ and Rust flags to link with mold where the recipe asks for it.
pub fn add_mold_flags(c: &mut String, cxx: &mut String, rust: &mut String, mold: bool)
    ensures
        (final(c)@, final(cxx)@, final(rust)@) == spec_mold_flags(old(c)@, old(cxx)@, old(rust)@, mold),
{
    if mold {
        c.push_str(" -fuse-ld=mold");
        cxx.push_str(" -fuse-ld=mold");
        rust.push_str(" -Clink-arg=-fuse-ld=mold");
    }
}

/// The flags that a build's tuning gives each compiler, in the order the tuning groups
/// give them.
pub struct CompilerFlags {
    pub c: Vec<String>,
    pub cxx: Vec<String>,
    pub f: Vec<String>,
    pub ld: Vec<String>,
    pub d: Vec<String>,
    pub rust: Vec<String>,
    pub vala: Vec<String>,
    pub go: Vec<String>,
}

/// The flags of one compiler, as text.
pub open spec fn flags_view(v: Vec<String>) -> Seq<Seq<char>> {
    v@.map_values(|f: String| f@)
}

/// The builtins that the tuning of a build sets, in order, each with its text: the
/// written flags of each compiler, the C, C++ and Rust flags told to link with mold where
/// the recipe asks for it.
pub open spec fn flag_builtins(f: CompilerFlags, mold: bool) -> Seq<(Seq<char>, Seq<char>)> {
    let (c, cxx, rust) = spec_mold_flags(
        spec_fmt_flags(flags_view(f.c)),
        spec_fmt_flags(flags_view(f.cxx)),
        spec_fmt_flags(flags_view(f.rust)),
        mold,
    );
    seq![
        ("cflags"@, c),
        ("cxxflags"@, cxx),
        ("fflags"@, spec_fmt_flags(flags_view(f.f))),
        ("ldflags"@, spec_fmt_flags(flags_view(f.ld))),
        ("dflags"@, spec_fmt_flags(flags_view(f.d))),
        ("rustflags"@, rust),
        ("valaflags"@, spec_fmt_flags(flags_view(f.vala))),
        ("goflags"@, spec_fmt_flags(flags_view(f.go))),
    ]
}

/// The builtins that the tuning of a build sets, in order, as scripts.
pub open spec fn flag_values(f: CompilerFlags, mold: bool) -> Seq<(Seq<char>, BuiltinValueView)> {
    flag_builtins(f, mold).map_values(|b: (Seq<char>, Seq<char>)| (b.0, BuiltinValueView::Script(b.1)))
}

/// Why a build cannot be tuned.
#[derive(Debug, Clone, PartialEq, Eq)]
pub enum TuningError {
    /// The macros of this architecture are not loaded.
    MissingArchMacros(String),
}

/// Tunes the scripts of a build for `target`: where the macros of the base architecture
/// and of the target are loaded, sets the builtins of each compiler's flags, written from
/// the flags the tuning gives it; else the first architecture whose macros are missing,
/// the environment unchanged.
pub fn add_tuning(
    env: &mut ScriptEnv,
    target: &str,
    archs: &Vec<KeyValue<Macros>>,
    flags: &CompilerFlags,
    mold: bool,
) -> (r: Result<(), TuningError>)
    ensures
        match spec_missing_arch(archs@, target@) {
            Some(a) => r matches Err(TuningError::MissingArchMacros(m)) && m@ == a && *final(env) == *old(env),
            None => r is Ok && builtin_views(final(env).builtins@) == with_builtins(
                builtin_views(old(env).builtins@),
                flag_values(*flags, mold),
            ) && final(env).definitions@ == old(env).definitions@ && final(env).actions@
                == old(env).actions@,
        },
{
    match check_arch_macros(target, archs) {
        Err(a) => return Err(TuningError::MissingArchMacros(a)),
        Ok(()) => {},
    }
    let mut c = fmt_flags(&flags.c);
    let mut cxx = fmt_flags(&flags.cxx);
    let f = fmt_flags(&flags.f);
    let ld = fmt_flags(&flags.ld);
    let d = fmt_flags(&flags.d);
    let mut rust = fmt_flags(&flags.rust);
    let vala = fmt_flags(&flags.vala);
    let go = fmt_flags(&flags.go);
    add_mold_flags(&mut c, &mut cxx, &mut rust, mold);
    let bs: Vec<(String, BuiltinValue)> = vec![
        ("cflags".to_owned(), BuiltinValue::Script(c)),
        ("cxxflags".to_owned(), BuiltinValue::Script(cxx)),
        ("fflags".to_owned(), BuiltinValue::Script(f)),
        ("ldflags".to_owned(), BuiltinValue::Script(ld)),
        ("dflags".to_owned(), BuiltinValue::Script(d)),
        ("rustflags".to_owned(), BuiltinValue::Script(rust)),
        ("valaflags".to_owned(), BuiltinValue::Script(vala)),
        ("goflags".to_owned(), BuiltinValue::Script(go)),
    ];
    assert(bs.deep_view() =~= flag_values(*flags, mold));
    add_builtins(env, &bs);
    Ok(())
}

} // verus!
