//! The detail page of one Pokémon.
//!
//! Building a page needs resources that the species only links to: the names
//! of its abilities, egg groups, stats and color, and its growth rate. A
//! `PageBuilder` says which of them it needs next (`next_request`), takes the
//! fetched values (`answer_names`, `answer_levels`) and, once it has all of
//! them, makes the page (`finish`). The first missing translation or value
//! stops the build with an error, as later fetches would be wasted.

use vstd::prelude::*;
use crate::error::GenError;
use crate::text::copy_string;
use crate::model::{opt_view, Cries, GrowthLevel, Name, PokemonSpecie, StatEntry};
use crate::translation::{
    english_text, genus_entries, is_missing_translation, name_entries, page_names,
    spec_page_names, FindTrad, PageNames,
};

verus! {

/// A resource that a page needs, by its position in the Pokémon's or the
/// species' list of links.
#[derive(Clone, Copy, Debug)]
pub enum PageRequest {
    /// The names of the Pokémon's ability at this index.
    Ability(usize),
    /// The names of the species' egg group at this index.
    EggGroup(usize),
    /// The names of the Pokémon's stat at this index.
    Stat(usize),
    /// The levels of the species' growth rate.
    GrowthRate,
    /// The names of the species' color.
    Color,
}

/// Points of effort that defeating the Pokémon yields in a stat, with the
/// stat's English name.
#[derive(Debug)]
pub struct EffortPoint {
    pub stat: String,
    pub effort: i64,
}

/// What a Pokémon's page shows.
#[derive(Debug)]
pub struct PokemonId {
    pub sprite: String,
    pub name: String,
    pub french_name: String,
    pub japanese_name: String,
    pub japanese_romanized: String,
    pub types: Vec<String>,
    pub genus: String,
    /// Height in decimetres.
    pub height: i64,
    /// Weight in hectograms.
    pub weight: i64,
    pub abilities: Vec<String>,
    pub egg_groups: Vec<String>,
    pub egg_hatch_steps: i64,
    /// Effort points by stat name: each name once, with the effort of the
    /// last stat of that name.
    pub effort_points: Vec<EffortPoint>,
    pub base_experience: i64,
    pub exp_at_100: i64,
    pub color: String,
    pub capture_rate: i64,
    /// Chance of being female in eighths; `None` for genderless species.
    pub gender_rate: Option<i64>,
    pub cries: Cries,
}

/// The indices of the stats that yield effort points, in order.
pub open spec fn effort_stats(stats: Seq<StatEntry>) -> Seq<usize>
    decreases stats.len(),
{
    if stats.len() == 0 {
        Seq::empty()
    } else {
        let rest = effort_stats(stats.drop_last());
        if stats.last().effort > 0 {
            rest.push((stats.len() - 1) as usize)
        } else {
            rest
        }
    }
}

/// Every index of `effort_stats` is that of a stat with positive effort.
pub proof fn lemma_effort_stats_valid(stats: Seq<StatEntry>)
    requires
        stats.len() <= usize::MAX,
    ensures
        forall|k: int|
            0 <= k < effort_stats(stats).len() ==> (#[trigger] effort_stats(stats)[k]) < stats.len()
                && stats[effort_stats(stats)[k] as int].effort > 0,
        effort_stats(stats).len() <= stats.len(),
    decreases stats.len(),
{
    if stats.len() > 0 {
        lemma_effort_stats_valid(stats.drop_last());
        let rest = effort_stats(stats.drop_last());
        assert forall|k: int|
            0 <= k < effort_stats(stats).len() implies (#[trigger] effort_stats(stats)[k]) < stats.len()
                && stats[effort_stats(stats)[k] as int].effort > 0 by {
            if k < rest.len() {
                assert(effort_stats(stats)[k] == rest[k]);
                assert(stats[rest[k] as int] == stats.drop_last()[rest[k] as int]);
            } else {
                assert(effort_stats(stats)[k] == (stats.len() - 1) as usize);
            }
        }
    }
}

/// The resources a page needs, in the order they are fetched: each ability,
/// each egg group, each stat that yields effort points, the growth rate and
/// the color.
pub open spec fn page_plan(ps: PokemonSpecie) -> Seq<PageRequest> {
    Seq::new(ps.p.abilities.len() as nat, |i: int| PageRequest::Ability(i as usize)) + Seq::new(
        ps.s.egg_groups.len() as nat,
        |i: int| PageRequest::EggGroup(i as usize),
    ) + effort_stats(ps.p.stats@).map_values(|i: usize| PageRequest::Stat(i)) + seq![
        PageRequest::GrowthRate,
        PageRequest::Color,
    ]
}

/// The kind of resource a request fetches, as error messages name it.
pub open spec fn request_kind(r: PageRequest) -> Seq<char> {
    match r {
        PageRequest::Ability(_) => "ability"@,
        PageRequest::EggGroup(_) => "egg group"@,
        PageRequest::Stat(_) => "stat"@,
        PageRequest::GrowthRate => "growth rate"@,
        PageRequest::Color => "color"@,
    }
}

/// What a page under construction holds.
pub struct PageProgress {
    pub species: PokemonSpecie,
    /// English, French, Japanese and romanized Japanese names.
    pub names: (Seq<char>, Seq<char>, Seq<char>, Seq<char>),
    pub genus: Seq<char>,
    /// How many requests of the plan have been answered.
    pub answered: usize,
    pub abilities: Seq<Seq<char>>,
    pub egg_groups: Seq<Seq<char>>,
    pub effort_points: Seq<(Seq<char>, i64)>,
    pub exp_at_100: i64,
    pub color: Seq<char>,
}

/// The request that is answered next, if any is left.
pub open spec fn pending(pr: PageProgress) -> Option<PageRequest> {
    if pr.answered < page_plan(pr.species).len() {
        Some(page_plan(pr.species)[pr.answered as int])
    } else {
        None
    }
}

/// A page with nothing fetched yet.
pub open spec fn initial_progress(
    ps: PokemonSpecie,
    names: (Seq<char>, Seq<char>, Seq<char>, Seq<char>),
    genus: Seq<char>,
) -> PageProgress {
    PageProgress {
        species: ps,
        names,
        genus,
        answered: 0,
        abilities: Seq::empty(),
        egg_groups: Seq::empty(),
        effort_points: Seq::empty(),
        exp_at_100: 0,
        color: Seq::empty(),
    }
}

/// The page after the pending request, which fetches names, was answered with
/// the English text `t`.
pub open spec fn accept_text(pr: PageProgress, t: Seq<char>) -> PageProgress {
    let next = (pr.answered + 1) as usize;
    match page_plan(pr.species)[pr.answered as int] {
        PageRequest::Ability(_) => PageProgress { answered: next, abilities: pr.abilities.push(t), ..pr },
        PageRequest::EggGroup(_) => PageProgress {
            answered: next,
            egg_groups: pr.egg_groups.push(t),
            ..pr
        },
        PageRequest::Stat(i) => PageProgress {
            answered: next,
            effort_points: pr.effort_points.push((t, pr.species.p.stats@[i as int].effort)),
            ..pr
        },
        PageRequest::Color => PageProgress { answered: next, color: t, ..pr },
        PageRequest::GrowthRate => pr,
    }
}

/// The experience of the first row of `levels` for level `level`, if any.
pub open spec fn experience_at(levels: Seq<GrowthLevel>, level: i64) -> Option<i64>
    decreases levels.len(),
{
    if levels.len() == 0 {
        None
    } else {
        let earlier = experience_at(levels.drop_last(), level);
        if earlier is Some {
            earlier
        } else if levels.last().level == level {
            Some(levels.last().experience)
        } else {
            None
        }
    }
}

/// The number of answered requests that fall in the block of `n` requests
/// starting at `start`.
pub open spec fn answered_in(answered: int, start: int, n: int) -> int {
    if answered <= start {
        0
    } else if answered >= start + n {
        n
    } else {
        answered - start
    }
}

/// The lists of a page hold one entry per answered request of their kind.
pub open spec fn counts_match(pr: PageProgress) -> bool {
    let na = pr.species.p.abilities.len() as int;
    let ne = pr.species.s.egg_groups.len() as int;
    let ns = effort_stats(pr.species.p.stats@).len() as int;
    &&& pr.answered <= page_plan(pr.species).len()
    &&& pr.abilities.len() == answered_in(pr.answered as int, 0, na)
    &&& pr.egg_groups.len() == answered_in(pr.answered as int, na, ne)
    &&& pr.effort_points.len() == answered_in(pr.answered as int, na + ne, ns)
}

/// The steps a species' egg takes to hatch: 255 per egg cycle.
pub open spec fn spec_egg_hatch_steps(hatch_counter: Option<i64>) -> int {
    (hatch_counter.unwrap_or(0) + 1) * 255
}

/// The number of hatch steps fits in an `i64`.
pub open spec fn hatch_steps_fit(hatch_counter: Option<i64>) -> bool {
    i64::MIN <= spec_egg_hatch_steps(hatch_counter) <= i64::MAX
}

/// The steps an egg of a species with this hatch counter takes to hatch; an
/// unknown counter counts as 0.
pub fn egg_hatch_steps(hatch_counter: Option<i64>) -> (r: i64)
    requires
        hatch_steps_fit(hatch_counter),
    ensures
        r == spec_egg_hatch_steps(hatch_counter),
{
    let c: i64 = match hatch_counter {
        Some(c) => c,
        None => 0,
    };
    (c + 1) * 255
}

/// The experience needed to reach `level`: that of the first row for the
/// level.
pub fn experience_at_level(levels: &Vec<GrowthLevel>, level: i64) -> (r: Option<i64>)
    ensures
        r == experience_at(levels@, level),
{
    for i in 0..levels.len()
        invariant
            experience_at(levels@.take(i as int), level) is None,
    {
        assert(levels@.take(i + 1).drop_last() =~= levels@.take(i as int));
        if levels[i].level == level {
            proof {
                lemma_experience_at_prefix(levels@, i + 1, level);
            }
            return Some(levels[i].experience);
        }
    }
    assert(levels@.take(levels.len() as int) =~= levels@);
    None
}

/// Once a prefix holds a row for `level`, the whole list has the same first
/// such row.
proof fn lemma_experience_at_prefix(s: Seq<GrowthLevel>, i: int, level: i64)
    requires
        0 <= i <= s.len(),
        experience_at(s.take(i), level) is Some,
    ensures
        experience_at(s, level) == experience_at(s.take(i), level),
    decreases s.len(),
{
    if i == s.len() {
        assert(s.take(i) =~= s);
    } else {
        assert(s.drop_last().take(i) =~= s.take(i));
        lemma_experience_at_prefix(s.drop_last(), i, level);
    }
}

/// The views of a list of strings.
pub open spec fn strings_view(v: Seq<String>) -> Seq<Seq<char>> {
    v.map_values(|s: String| s@)
}

/// The views of a list of effort points.
pub open spec fn efforts_view(v: Seq<EffortPoint>) -> Seq<(Seq<char>, i64)> {
    v.map_values(|e: EffortPoint| (e.stat@, e.effort))
}

/// `page` is the page made of `pr`, whose Pokémon has the artwork `sprite`.
pub open spec fn is_page_of(page: PokemonId, pr: PageProgress, sprite: Seq<char>) -> bool {
    let p = pr.species.p;
    let s = pr.species.s;
    &&& page.sprite@ == sprite
    &&& page.name@ == pr.names.0
    &&& page.french_name@ == pr.names.1
    &&& page.japanese_name@ == pr.names.2
    &&& page.japanese_romanized@ == pr.names.3
    &&& page.types@ == p.types@
    &&& page.genus@ == pr.genus
    &&& page.height == p.height
    &&& page.weight == p.weight
    &&& strings_view(page.abilities@) == pr.abilities
    &&& strings_view(page.egg_groups@) == pr.egg_groups
    &&& page.egg_hatch_steps == spec_egg_hatch_steps(s.hatch_counter)
    &&& efforts_view(page.effort_points@) == effort_table(pr.effort_points)
    &&& page.base_experience == p.base_experience.unwrap_or(0)
    &&& page.exp_at_100 == pr.exp_at_100
    &&& page.color@ == pr.color
    &&& page.capture_rate == s.capture_rate
    &&& page.gender_rate == (if s.gender_rate == -1 {
        None::<i64>
    } else {
        Some(s.gender_rate)
    })
    &&& page.cries == p.cries
}

/// The index of the first entry of `m` with stat name `k`, or -1.
pub open spec fn key_index(m: Seq<(Seq<char>, i64)>, k: Seq<char>) -> int
    decreases m.len(),
{
    if m.len() == 0 {
        -1
    } else {
        let earlier = key_index(m.drop_last(), k);
        if earlier >= 0 {
            earlier
        } else if m.last().0 == k {
            m.len() - 1
        } else {
            -1
        }
    }
}

/// `m` with the effort `v` recorded for the stat name `k`: the entry of that
/// name takes the new effort, or a new entry comes last.
pub open spec fn insert_effort(m: Seq<(Seq<char>, i64)>, k: Seq<char>, v: i64) -> Seq<(Seq<char>, i64)> {
    let i = key_index(m, k);
    if i >= 0 {
        m.update(i, (k, v))
    } else {
        m.push((k, v))
    }
}

/// The effort points by stat name, recorded in order: each name once, at
/// the place where it first came, with the effort of its last entry.
pub open spec fn effort_table(raw: Seq<(Seq<char>, i64)>) -> Seq<(Seq<char>, i64)>
    decreases raw.len(),
{
    if raw.len() == 0 {
        Seq::empty()
    } else {
        insert_effort(effort_table(raw.drop_last()), raw.last().0, raw.last().1)
    }
}

/// The effort of the last entry of `raw` with stat name `k`, if any.
pub open spec fn last_effort(raw: Seq<(Seq<char>, i64)>, k: Seq<char>) -> Option<i64>
    decreases raw.len(),
{
    if raw.len() == 0 {
        None
    } else if raw.last().0 == k {
        Some(raw.last().1)
    } else {
        last_effort(raw.drop_last(), k)
    }
}

/// What `key_index` finds: an entry with that name and none before it, or no
/// entry with that name at all.
proof fn lemma_key_index(m: Seq<(Seq<char>, i64)>, k: Seq<char>)
    ensures
        -1 <= key_index(m, k) < m.len(),
        key_index(m, k) >= 0 ==> m[key_index(m, k)].0 == k,
        forall|j: int| 0 <= j < m.len() && (#[trigger] m[j]).0 == k ==> key_index(m, k) >= 0 && key_index(m, k) <= j,
    decreases m.len(),
{
    if m.len() > 0 {
        lemma_key_index(m.drop_last(), k);
        assert forall|j: int| 0 <= j < m.len() - 1 implies #[trigger] m[j] == m.drop_last()[j] by {}
    }
}

/// Once a prefix holds the name `k`, the first entry of that name is in it.
proof fn lemma_key_index_prefix(m: Seq<(Seq<char>, i64)>, i: int, k: Seq<char>)
    requires
        0 <= i <= m.len(),
        key_index(m.take(i), k) >= 0,
    ensures
        key_index(m, k) == key_index(m.take(i), k),
    decreases m.len(),
{
    if i == m.len() {
        assert(m.take(i) =~= m);
    } else {
        assert(m.drop_last().take(i) =~= m.take(i));
        lemma_key_index_prefix(m.drop_last(), i, k);
    }
}

/// The table of effort points holds each stat name once; its names are those
/// of the recorded entries, and each carries the effort of the last entry of
/// its name.
pub proof fn lemma_effort_table_last_wins(raw: Seq<(Seq<char>, i64)>)
    ensures
        forall|i: int, j: int|
            0 <= i < j < effort_table(raw).len() ==> (#[trigger] effort_table(raw)[i]).0 != (
            #[trigger] effort_table(raw)[j]).0,
        forall|i: int|
            0 <= i < effort_table(raw).len() ==> last_effort(raw, (#[trigger] effort_table(raw)[i]).0)
                == Some(effort_table(raw)[i].1),
        forall|k: Seq<char>|
            #[trigger] last_effort(raw, k) is Some ==> key_index(effort_table(raw), k) >= 0,
    decreases raw.len(),
{
    if raw.len() > 0 {
        let d = raw.drop_last();
        let m = effort_table(d);
        let (k, v) = raw.last();
        lemma_effort_table_last_wins(d);
        lemma_key_index(m, k);
        let t = effort_table(raw);
        assert(t == insert_effort(m, k, v));
        let idx = key_index(m, k);
        if idx >= 0 {
            assert forall|i: int| 0 <= i < t.len() && i != idx implies #[trigger] t[i] == m[i] by {}
            assert forall|i: int, j: int| 0 <= i < j < t.len() implies (#[trigger] t[i]).0 != (
            #[trigger] t[j]).0 by {
                assert(t[i].0 == m[i].0 && t[j].0 == m[j].0);
            }
            assert forall|i: int| 0 <= i < t.len() implies last_effort(raw, (#[trigger] t[i]).0)
                == Some(t[i].1) by {
                if i != idx {
                    assert(t[i] == m[i]);
                    assert(m[i].0 != k);
                }
            }
            assert forall|q: Seq<char>| #[trigger] last_effort(raw, q) is Some implies key_index(t, q) >= 0 by {
                lemma_key_index(t, q);
                if q == k {
                    assert(t[idx].0 == q);
                } else {
                    assert(last_effort(d, q) is Some);
                    lemma_key_index(m, q);
                    let w = key_index(m, q);
                    assert(t[w] == m[w]);
                }
            }
        } else {
            assert forall|i: int| 0 <= i < m.len() implies #[trigger] t[i] == m[i] by {}
            assert forall|i: int, j: int| 0 <= i < j < t.len() implies (#[trigger] t[i]).0 != (
            #[trigger] t[j]).0 by {
                if j == m.len() {
                    assert(t[i] == m[i]);
                    assert(t[j].0 == k);
                } else {
                    assert(t[i] == m[i] && t[j] == m[j]);
                }
            }
            assert forall|i: int| 0 <= i < t.len() implies last_effort(raw, (#[trigger] t[i]).0)
                == Some(t[i].1) by {
                if i < m.len() {
                    assert(t[i] == m[i]);
                }
            }
            assert forall|q: Seq<char>| #[trigger] last_effort(raw, q) is Some implies key_index(t, q) >= 0 by {
                lemma_key_index(t, q);
                if q == k {
                    assert(t[m.len() as int].0 == q);
                } else {
                    assert(last_effort(d, q) is Some);
                    lemma_key_index(m, q);
                    let w = key_index(m, q);
                    assert(t[w] == m[w]);
                }
            }
        }
    }
}

/// The index of the entry named `k` in the table `out`, or `None`.
fn find_stat(out: &Vec<EffortPoint>, k: &String) -> (r: Option<usize>)
    ensures
        match r {
            Some(j) => key_index(efforts_view(out@), k@) == j as int,
            None => key_index(efforts_view(out@), k@) == -1,
        },
{
    let ghost m = efforts_view(out@);
    for j in 0..out.len()
        invariant
            m == efforts_view(out@),
            key_index(m.take(j as int), k@) == -1,
    {
        assert(m.take(j + 1).drop_last() =~= m.take(j as int));
        assert(m.take(j + 1).last() == (out@[j as int].stat@, out@[j as int].effort));
        if out[j].stat == *k {
            proof {
                lemma_key_index_prefix(m, j + 1, k@);
            }
            return Some(j);
        }
    }
    assert(m.take(out.len() as int) =~= m);
    None
}

/// The table of effort points of the recorded entries (see `effort_table`).
pub fn effort_table_of(raw: &Vec<EffortPoint>) -> (r: Vec<EffortPoint>)
    ensures
        efforts_view(r@) == effort_table(efforts_view(raw@)),
{
    let ghost rv = efforts_view(raw@);
    let mut out: Vec<EffortPoint> = Vec::new();
    assert(efforts_view(out@) =~= effort_table(rv.take(0)));
    for i in 0..raw.len()
        invariant
            rv == efforts_view(raw@),
            efforts_view(out@) == effort_table(rv.take(i as int)),
    {
        let e = &raw[i];
        assert(rv.take(i + 1).drop_last() =~= rv.take(i as int));
        assert(rv.take(i + 1).last() == (e.stat@, e.effort));
        let ghost before = efforts_view(out@);
        proof {
            lemma_key_index(before, e.stat@);
        }
        match find_stat(&out, &e.stat) {
            Some(j) => {
                let stat = copy_string(&out[j].stat);
                out.set(j, EffortPoint { stat, effort: e.effort });
                assert(efforts_view(out@) =~= before.update(j as int, (e.stat@, e.effort)));
            },
            None => {
                out.push(EffortPoint { stat: copy_string(&e.stat), effort: e.effort });
                assert(efforts_view(out@) =~= before.push((e.stat@, e.effort)));
            },
        }
    }
    assert(rv.take(raw.len() as int) =~= rv);
    out
}

/// The request plan of a species (see `page_plan`).
fn plan_of(ps: &PokemonSpecie) -> (r: Vec<PageRequest>)
    ensures
        r@ == page_plan(*ps),
{
    let mut r: Vec<PageRequest> = Vec::new();
    for i in 0..ps.p.abilities.len()
        invariant
            r@ == Seq::new(i as nat, |k: int| PageRequest::Ability(k as usize)),
    {
        r.push(PageRequest::Ability(i));
        assert(r@ =~= Seq::new((i + 1) as nat, |k: int| PageRequest::Ability(k as usize)));
    }
    let ghost abilities = r@;
    for i in 0..ps.s.egg_groups.len()
        invariant
            abilities == Seq::new(ps.p.abilities.len() as nat, |k: int| PageRequest::Ability(k as usize)),
            r@ == abilities + Seq::new(i as nat, |k: int| PageRequest::EggGroup(k as usize)),
    {
        r.push(PageRequest::EggGroup(i));
        assert(r@ =~= abilities + Seq::new((i + 1) as nat, |k: int| PageRequest::EggGroup(k as usize)));
    }
    let ghost head = r@;
    let ghost stats = ps.p.stats@;
    for i in 0..ps.p.stats.len()
        invariant
            stats == ps.p.stats@,
            head == Seq::new(ps.p.abilities.len() as nat, |k: int| PageRequest::Ability(k as usize))
                + Seq::new(ps.s.egg_groups.len() as nat, |k: int| PageRequest::EggGroup(k as usize)),
            r@ == head + effort_stats(stats.take(i as int)).map_values(|k: usize| PageRequest::Stat(k)),
    {
        assert(stats.take(i + 1).drop_last() =~= stats.take(i as int));
        if ps.p.stats[i].effort > 0 {
            r.push(PageRequest::Stat(i));
            assert(effort_stats(stats.take(i + 1)) == effort_stats(stats.take(i as int)).push(i));
        }
        assert(r@ =~= head + effort_stats(stats.take(i + 1)).map_values(|k: usize| PageRequest::Stat(k)));
    }
    assert(stats.take(ps.p.stats.len() as int) =~= stats);
    r.push(PageRequest::GrowthRate);
    r.push(PageRequest::Color);
    assert(r@ =~= page_plan(*ps));
    r
}

/// A page under construction.
#[derive(Debug)]
pub struct PageBuilder {
    species: PokemonSpecie,
    names: PageNames,
    genus: String,
    plan: Vec<PageRequest>,
    next: usize,
    abilities: Vec<String>,
    egg_groups: Vec<String>,
    effort_points: Vec<EffortPoint>,
    exp_at_100: i64,
    color: String,
}

impl View for PageBuilder {
    type V = PageProgress;

    closed spec fn view(&self) -> PageProgress {
        PageProgress {
            species: self.species,
            names: (
                self.names.name@,
                self.names.french_name@,
                self.names.japanese_name@,
                self.names.japanese_romanized@,
            ),
            genus: self.genus@,
            answered: self.next,
            abilities: strings_view(self.abilities@),
            egg_groups: strings_view(self.egg_groups@),
            effort_points: efforts_view(self.effort_points@),
            exp_at_100: self.exp_at_100,
            color: self.color@,
        }
    }
}

impl PageBuilder {
    /// The builder's plan is that of its species.
    pub closed spec fn wf(&self) -> bool {
        &&& self.plan@ == page_plan(self.species)
        &&& counts_match(self@)
    }

    /// Starts the page of `ps`: takes its names and genus. Fails with
    /// `MissingNames` when one of the four page names is missing, then with a
    /// missing translation of the genus.
    pub fn start(ps: PokemonSpecie) -> (r: Result<PageBuilder, GenError>)
        ensures
            match spec_page_names(name_entries(ps.s.names@)) {
                None => r == Err::<PageBuilder, GenError>(GenError::MissingNames { id: ps.p.id }),
                Some(names) => match english_text(genus_entries(ps.s.genera@)) {
                    None => r matches Err(e) && is_missing_translation(e, "genus"@, ps.p.id),
                    Some(genus) => r matches Ok(b) && b.wf() && b@ == initial_progress(
                        ps,
                        names,
                        genus,
                    ),
                },
            },
    {
        let names = match page_names(&ps.s.names, ps.p.id) {
            Ok(n) => n,
            Err(e) => return Err(e),
        };
        let genus = match ps.s.genera.find_trad("genus", ps.p.id) {
            Ok(g) => g,
            Err(e) => return Err(e),
        };
        let plan = plan_of(&ps);
        let b = PageBuilder {
            species: ps,
            names,
            genus,
            plan,
            next: 0,
            abilities: Vec::new(),
            egg_groups: Vec::new(),
            effort_points: Vec::new(),
            exp_at_100: 0,
            color: String::new(),
        };
        assert(b@.abilities =~= Seq::<Seq<char>>::empty());
        assert(b@.egg_groups =~= Seq::<Seq<char>>::empty());
        assert(b@.effort_points =~= Seq::<(Seq<char>, i64)>::empty());
        Ok(b)
    }

    /// The resource to fetch next; `None` once all are in.
    pub fn next_request(&self) -> (r: Option<PageRequest>)
        requires
            self.wf(),
        ensures
            r == pending(self@),
    {
        if self.next < self.plan.len() {
            Some(self.plan[self.next])
        } else {
            None
        }
    }

    /// Answers the pending request, which fetches names, with the fetched
    /// names: keeps their English text, or fails with a missing translation
    /// of the requested kind and leaves the page as it was.
    pub fn answer_names(&mut self, names: &Vec<Name>) -> (r: Result<(), GenError>)
        requires
            old(self).wf(),
            pending(old(self)@) matches Some(req) && !(req is GrowthRate),
        ensures
            final(self).wf(),
            match english_text(name_entries(names@)) {
                Some(t) => r is Ok && final(self)@ == accept_text(old(self)@, t),
                None => r matches Err(e) && is_missing_translation(
                    e,
                    request_kind(pending(old(self)@)->0),
                    old(self)@.species.p.id,
                ) && final(self)@ == old(self)@,
            },
    {
        let req = self.plan[self.next];
        let kind: &str = match req {
            PageRequest::Ability(_) => "ability",
            PageRequest::EggGroup(_) => "egg group",
            PageRequest::Stat(_) => "stat",
            PageRequest::GrowthRate => "growth rate",
            PageRequest::Color => "color",
        };
        let t = match names.find_trad(kind, self.species.p.id) {
            Ok(t) => t,
            Err(e) => return Err(e),
        };
        let ghost before = self@;
        let ghost na = self.species.p.abilities.len() as int;
        let ghost ne = self.species.s.egg_groups.len() as int;
        let ghost es = effort_stats(self.species.p.stats@);
        proof {
            assert(self.species.p.stats@.len() == self.species.p.stats.len());
            lemma_effort_stats_valid(self.species.p.stats@);
            lemma_plan_entry(self.species, self.next as int);
        }
        match req {
            PageRequest::Ability(_) => {
                self.abilities.push(t);
                assert(strings_view(self.abilities@) =~= before.abilities.push(t@));
            },
            PageRequest::EggGroup(_) => {
                self.egg_groups.push(t);
                assert(strings_view(self.egg_groups@) =~= before.egg_groups.push(t@));
            },
            PageRequest::Stat(i) => {
                let effort = self.species.p.stats[i].effort;
                self.effort_points.push(EffortPoint { stat: t, effort });
                assert(efforts_view(self.effort_points@) =~= before.effort_points.push(
                    (t@, effort),
                ));
            },
            PageRequest::Color => {
                self.color = t;
            },
            PageRequest::GrowthRate => {},
        }
        assert(self.next < self.plan.len());
        self.next = self.next + 1;
        assert(self@ == accept_text(before, t@));
        Ok(())
    }

    /// Answers the pending growth-rate request with the rate's levels: keeps
    /// the experience at level 100, or fails with `MissingExperience` and
    /// leaves the page as it was.
    pub fn answer_levels(&mut self, levels: &Vec<GrowthLevel>) -> (r: Result<(), GenError>)
        requires
            old(self).wf(),
            pending(old(self)@) matches Some(req) && req is GrowthRate,
        ensures
            final(self).wf(),
            match experience_at(levels@, 100) {
                Some(x) => r is Ok && final(self)@ == PageProgress {
                    answered: (old(self)@.answered + 1) as usize,
                    exp_at_100: x,
                    ..old(self)@
                },
                None => r == Err::<(), GenError>(
                    GenError::MissingExperience { id: old(self)@.species.p.id },
                ) && final(self)@ == old(self)@,
            },
    {
        let x = match experience_at_level(levels, 100) {
            Some(x) => x,
            None => return Err(GenError::MissingExperience { id: self.species.p.id }),
        };
        proof {
            lemma_plan_entry(self.species, self.next as int);
        }
        self.exp_at_100 = x;
        assert(self.next < self.plan.len());
        self.next = self.next + 1;
        Ok(())
    }

    /// Makes the page once every request is answered; fails with
    /// `MissingSprite` when the Pokémon has no official artwork.
    pub fn finish(self) -> (r: Result<PokemonId, GenError>)
        requires
            self.wf(),
            pending(self@) is None,
            opt_view(self@.species.p.official_artwork) is Some ==> hatch_steps_fit(
                self@.species.s.hatch_counter,
            ),
        ensures
            match opt_view(self@.species.p.official_artwork) {
                None => r == Err::<PokemonId, GenError>(
                    GenError::MissingSprite { id: self@.species.p.id },
                ),
                Some(sprite) => r matches Ok(page) && is_page_of(page, self@, sprite),
            },
    {
        let ghost pr = self@;
        let PageBuilder {
            species,
            names,
            genus,
            plan: _,
            next: _,
            abilities,
            egg_groups,
            effort_points,
            exp_at_100,
            color,
        } = self;
        let PokemonSpecie { p, s } = species;
        let sprite = match p.official_artwork {
            Some(sprite) => sprite,
            None => return Err(GenError::MissingSprite { id: p.id }),
        };
        let egg_hatch_steps = egg_hatch_steps(s.hatch_counter);
        let base_experience: i64 = match p.base_experience {
            Some(b) => b,
            None => 0,
        };
        let gender_rate = if s.gender_rate == -1 {
            None
        } else {
            Some(s.gender_rate)
        };
        Ok(PokemonId {
            sprite,
            name: names.name,
            french_name: names.french_name,
            japanese_name: names.japanese_name,
            japanese_romanized: names.japanese_romanized,
            types: p.types,
            genus,
            height: p.height,
            weight: p.weight,
            abilities,
            egg_groups,
            egg_hatch_steps,
            effort_points: effort_table_of(&effort_points),
            base_experience,
            exp_at_100,
            color,
            capture_rate: s.capture_rate,
            gender_rate,
            cries: p.cries,
        })
    }
}

/// Where entry `k` of a plan lies: the blocks of abilities, egg groups and
/// effort stats, then the growth rate and the color.
pub proof fn lemma_plan_entry(ps: PokemonSpecie, k: int)
    requires
        0 <= k < page_plan(ps).len(),
    ensures
        ({
            let na = ps.p.abilities.len() as int;
            let ne = ps.s.egg_groups.len() as int;
            let es = effort_stats(ps.p.stats@);
            &&& page_plan(ps).len() == na + ne + es.len() + 2
            &&& k < na ==> page_plan(ps)[k] == PageRequest::Ability(k as usize)
            &&& na <= k < na + ne ==> page_plan(ps)[k] == PageRequest::EggGroup((k - na) as usize)
            &&& na + ne <= k < na + ne + es.len() ==> page_plan(ps)[k] == PageRequest::Stat(
                es[k - na - ne],
            )
            &&& k == na + ne + es.len() ==> page_plan(ps)[k] == PageRequest::GrowthRate
            &&& k == na + ne + es.len() + 1 ==> page_plan(ps)[k] == PageRequest::Color
        }),
{
}

/// Answering a names request moves the page one request on, keeps the
/// species, its names and genus, and keeps one list entry per answered
/// request of each kind.
pub proof fn lemma_accept_keeps(pr: PageProgress, t: Seq<char>)
    requires
        counts_match(pr),
        pending(pr) matches Some(req) && !(req is GrowthRate),
        page_plan(pr.species).len() <= usize::MAX,
    ensures
        accept_text(pr, t).species == pr.species,
        accept_text(pr, t).names == pr.names,
        accept_text(pr, t).genus == pr.genus,
        accept_text(pr, t).exp_at_100 == pr.exp_at_100,
        accept_text(pr, t).answered == pr.answered + 1,
        counts_match(accept_text(pr, t)),
{
    assert(pr.species.p.stats@.len() == pr.species.p.stats.len());
    lemma_plan_entry(pr.species, pr.answered as int);
    lemma_effort_stats_valid(pr.species.p.stats@);
}

/// Once every request of a page is answered, it holds one ability name per
/// ability of the Pokémon, one egg group name per egg group of the species
/// and one effort entry per stat that yields effort points.
pub proof fn lemma_finished_page_counts(pr: PageProgress)
    requires
        counts_match(pr),
        pending(pr) is None,
    ensures
        pr.abilities.len() == pr.species.p.abilities.len(),
        pr.egg_groups.len() == pr.species.s.egg_groups.len(),
        pr.effort_points.len() == effort_stats(pr.species.p.stats@).len(),
        pr.answered == pr.species.p.abilities.len() + pr.species.s.egg_groups.len()
            + effort_stats(pr.species.p.stats@).len() + 2,
{
}

/// Each egg cycle adds 255 steps, whatever the hatch counter: a counter of 0,
/// or none, gives 255 steps, and one more cycle gives 255 more.
pub proof fn lemma_hatch_steps_per_cycle(c: i64)
    requires
        c < i64::MAX,
    ensures
        spec_egg_hatch_steps(Some((c + 1) as i64)) == spec_egg_hatch_steps(Some(c)) + 255,
        spec_egg_hatch_steps(Some(0)) == 255,
        spec_egg_hatch_steps(None) == 255,
        spec_egg_hatch_steps(Some(c)) == (c + 1) * 255,
{
}

/// What a finished page shows, in terms of the species and what was
/// fetched: the gender rate is missing exactly for genderless species
/// (`-1`) and is otherwise the species' rate, `0` included; the hatch steps
/// are 255 per egg cycle; the type names, sizes, capture rate, experience and
/// cries are the Pokémon's; the abilities and egg groups are the fetched
/// texts, one per position.
pub proof fn lemma_page_fields(page: PokemonId, pr: PageProgress, sprite: Seq<char>)
    requires
        is_page_of(page, pr, sprite),
    ensures
        page.gender_rate is None <==> pr.species.s.gender_rate == -1,
        pr.species.s.gender_rate != -1 ==> page.gender_rate == Some(pr.species.s.gender_rate),
        page.egg_hatch_steps == (pr.species.s.hatch_counter.unwrap_or(0) + 1) * 255,
        page.types.len() == pr.species.p.types.len(),
        forall|i: int| 0 <= i < page.types.len() ==> #[trigger] page.types@[i] == pr.species.p.types@[i],
        page.height == pr.species.p.height,
        page.weight == pr.species.p.weight,
        page.capture_rate == pr.species.s.capture_rate,
        pr.species.p.base_experience matches Some(b) ==> page.base_experience == b,
        pr.species.p.base_experience is None ==> page.base_experience == 0,
        page.exp_at_100 == pr.exp_at_100,
        page.cries == pr.species.p.cries,
        page.sprite@ == sprite,
        page.abilities.len() == pr.abilities.len(),
        forall|i: int| 0 <= i < page.abilities.len() ==> (#[trigger] page.abilities@[i])@ == pr.abilities[i],
        page.egg_groups.len() == pr.egg_groups.len(),
        forall|i: int| 0 <= i < page.egg_groups.len() ==> (#[trigger] page.egg_groups@[i])@ == pr.egg_groups[i],
{
    assert(strings_view(page.abilities@).len() == page.abilities.len());
    assert(strings_view(page.egg_groups@).len() == page.egg_groups.len());
    assert forall|i: int| 0 <= i < page.abilities.len() implies (#[trigger] page.abilities@[i])@
        == pr.abilities[i] by {
        assert(strings_view(page.abilities@)[i] == page.abilities@[i]@);
    }
    assert forall|i: int| 0 <= i < page.egg_groups.len() implies (#[trigger] page.egg_groups@[i])@
        == pr.egg_groups[i] by {
        assert(strings_view(page.egg_groups@)[i] == page.egg_groups@[i]@);
    }
}

/// Answering a names request puts the English text at its own place: the
/// answer to the `k`-th ability request is the `k`-th ability, that to the
/// `k`-th egg-group request the `k`-th egg group, that to a stat request the
/// last effort entry (with the stat's effort), that to the color request the
/// color; every other list is left as it was, and earlier entries stay.
pub proof fn lemma_accept_places_text(pr: PageProgress, t: Seq<char>)
    requires
        counts_match(pr),
        pending(pr) matches Some(req) && !(req is GrowthRate),
        page_plan(pr.species).len() <= usize::MAX,
    ensures
        ({
            let q = accept_text(pr, t);
            match pending(pr)->0 {
                PageRequest::Ability(k) => {
                    &&& q.abilities.len() == k + 1
                    &&& q.abilities[k as int] == t
                    &&& forall|i: int| 0 <= i < k ==> #[trigger] q.abilities[i] == pr.abilities[i]
                    &&& q.egg_groups == pr.egg_groups
                    &&& q.effort_points == pr.effort_points
                    &&& q.color == pr.color
                },
                PageRequest::EggGroup(k) => {
                    &&& q.egg_groups.len() == k + 1
                    &&& q.egg_groups[k as int] == t
                    &&& forall|i: int| 0 <= i < k ==> #[trigger] q.egg_groups[i] == pr.egg_groups[i]
                    &&& q.abilities == pr.abilities
                    &&& q.effort_points == pr.effort_points
                    &&& q.color == pr.color
                },
                PageRequest::Stat(s) => {
                    &&& q.effort_points.len() == pr.effort_points.len() + 1
                    &&& q.effort_points[pr.effort_points.len() as int] == (t, pr.species.p.stats@[s as int].effort)
                    &&& forall|i: int| 0 <= i < pr.effort_points.len() ==> #[trigger] q.effort_points[i] == pr.effort_points[i]
                    &&& q.abilities == pr.abilities
                    &&& q.egg_groups == pr.egg_groups
                    &&& q.color == pr.color
                },
                PageRequest::Color => {
                    &&& q.color == t
                    &&& q.abilities == pr.abilities
                    &&& q.egg_groups == pr.egg_groups
                    &&& q.effort_points == pr.effort_points
                },
                PageRequest::GrowthRate => true,
            }
        }),
{
    assert(pr.species.p.stats@.len() == pr.species.p.stats.len());
    lemma_plan_entry(pr.species, pr.answered as int);
    lemma_effort_stats_valid(pr.species.p.stats@);
}

/// The experience at a level is that of a row for the level with no such row
/// before it; without a row for the level there is none.
pub proof fn lemma_experience_at_first_row(levels: Seq<GrowthLevel>, level: i64)
    ensures
        experience_at(levels, level) is None <==> forall|j: int|
            0 <= j < levels.len() ==> (#[trigger] levels[j]).level != level,
        experience_at(levels, level) matches Some(x) ==> exists|i: int|
            0 <= i < levels.len() && (#[trigger] levels[i]).level == level && levels[i].experience == x
                && forall|j: int| 0 <= j < i ==> (#[trigger] levels[j]).level != level,
    decreases levels.len(),
{
    if levels.len() > 0 {
        let d = levels.drop_last();
        lemma_experience_at_first_row(d, level);
        assert forall|j: int| 0 <= j < d.len() implies #[trigger] levels[j] == d[j] by {}
        if experience_at(d, level) is Some {
            let i = choose|i: int|
                0 <= i < d.len() && (#[trigger] d[i]).level == level && d[i].experience
                    == experience_at(d, level)->0 && forall|j: int| 0 <= j < i ==> (#[trigger] d[j]).level != level;
            assert(levels[i] == d[i]);
        } else if levels.last().level == level {
            let i = levels.len() - 1;
            assert(levels[i].level == level);
        }
    }
}

} // verus!
