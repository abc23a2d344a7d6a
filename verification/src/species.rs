//! Which Pokémon the Pokédex lists, and in which order.

use vstd::prelude::*;
use vstd::seq_lib::*;
use crate::model::{PokemonRecord, PokemonSpecie};

verus! {

broadcast use vstd::seq_lib::group_to_multiset_ensures;

/// How many entries of the listing the development mode keeps.
pub const DEV_ENTRY_LIMIT: usize = 1000;

/// The entries of the full listing that are fetched: all of them, or in
/// development mode the first `DEV_ENTRY_LIMIT`.
pub open spec fn limited_entries<T>(entries: Seq<T>, dev: bool) -> Seq<T> {
    if dev && entries.len() > DEV_ENTRY_LIMIT {
        entries.take(DEV_ENTRY_LIMIT as int)
    } else {
        entries
    }
}

/// In development mode at most `DEV_ENTRY_LIMIT` entries are fetched, and
/// they are the first entries of the listing; otherwise all are.
pub proof fn lemma_limited_entries_prefix<T>(entries: Seq<T>, dev: bool)
    ensures
        dev ==> limited_entries(entries, dev).len() <= DEV_ENTRY_LIMIT,
        dev && entries.len() >= DEV_ENTRY_LIMIT ==> limited_entries(entries, dev).len() == DEV_ENTRY_LIMIT,
        entries.len() <= DEV_ENTRY_LIMIT ==> limited_entries(entries, dev) == entries,
        !dev ==> limited_entries(entries, dev) == entries,
        limited_entries(entries, dev).len() <= entries.len(),
        forall|i: int|
            0 <= i < limited_entries(entries, dev).len() ==> #[trigger] limited_entries(
                entries,
                dev,
            )[i] == entries[i],
{
}

/// Keeps the entries to fetch (see `limited_entries`).
pub fn limit_entries<T>(entries: &mut Vec<T>, dev: bool)
    ensures
        final(entries)@ == limited_entries(old(entries)@, dev),
{
    if dev {
        entries.truncate(DEV_ENTRY_LIMIT);
    }
}

/// Whether a fetched Pokémon gets an entry of its own: only the default form
/// of each species does.
pub fn is_listed(p: &PokemonRecord) -> (r: bool)
    ensures
        r == p.is_default,
{
    p.is_default
}

/// The species that were fetched, in the order given, without the Pokémon
/// that were left out.
pub open spec fn present_species(s: Seq<Option<PokemonSpecie>>) -> Seq<PokemonSpecie>
    decreases s.len(),
{
    if s.len() == 0 {
        Seq::empty()
    } else {
        let rest = present_species(s.drop_last());
        match s.last() {
            Some(x) => rest.push(x),
            None => rest,
        }
    }
}

/// The sort key of a Pokédex entry.
pub open spec fn order_of(x: PokemonSpecie) -> i64 {
    x.p.order
}

/// Entries in ascending order of their Pokémon's `order`.
pub open spec fn sorted_by_order(s: Seq<PokemonSpecie>) -> bool {
    forall|i: int, j: int| 0 <= i < j < s.len() ==> order_of(#[trigger] s[i]) <= order_of(#[trigger] s[j])
}

/// The entries of `s` whose key is `k`, in their order in `s`.
pub open spec fn with_order(s: Seq<PokemonSpecie>, k: i64) -> Seq<PokemonSpecie> {
    s.filter(|x: PokemonSpecie| order_of(x) == k)
}

/// The first index of a sorted `out` whose key exceeds `k`.
fn insertion_point(out: &Vec<PokemonSpecie>, k: i64) -> (j: usize)
    requires
        sorted_by_order(out@),
    ensures
        j <= out.len(),
        forall|i: int| 0 <= i < j ==> order_of(#[trigger] out@[i]) <= k,
        forall|i: int| j <= i < out.len() ==> order_of(#[trigger] out@[i]) > k,
{
    let mut j: usize = 0;
    while j < out.len() && out[j].p.order <= k
        invariant
            j <= out.len(),
            sorted_by_order(out@),
            forall|i: int| 0 <= i < j ==> order_of(#[trigger] out@[i]) <= k,
        decreases out.len() - j,
    {
        j = j + 1;
    }
    if j < out.len() {
        assert forall|i: int| j <= i < out.len() implies order_of(#[trigger] out@[i]) > k by {
            if i > j {
                assert(order_of(out@[j as int]) <= order_of(out@[i]));
            }
        }
    }
    j
}

/// Inserting `x` before the first entry with a larger key keeps the entries of
/// each key in their order, with `x` last among those of its own key.
proof fn lemma_insert_keeps_ties(s: Seq<PokemonSpecie>, j: int, x: PokemonSpecie, k: i64)
    requires
        0 <= j <= s.len(),
        forall|i: int| 0 <= i < j ==> order_of(#[trigger] s[i]) <= order_of(x),
        forall|i: int| j <= i < s.len() ==> order_of(#[trigger] s[i]) > order_of(x),
    ensures
        with_order(s.insert(j, x), k) == if k == order_of(x) {
            with_order(s, k).push(x)
        } else {
            with_order(s, k)
        },
{
    let p = |y: PokemonSpecie| order_of(y) == k;
    let a = s.take(j);
    let b = s.skip(j);
    assert(s =~= a + b);
    assert(s.insert(j, x) =~= a + seq![x] + b);
    Seq::filter_distributes_over_add(a + seq![x], b, p);
    Seq::filter_distributes_over_add(a, seq![x], p);
    Seq::filter_distributes_over_add(a, b, p);
    assert(seq![x].drop_last() =~= Seq::<PokemonSpecie>::empty());
    assert(seq![x].filter(p) == if p(x) { seq![x] } else { Seq::<PokemonSpecie>::empty() }) by {
        reveal(Seq::filter);
        assert(Seq::<PokemonSpecie>::empty().filter(p) =~= Seq::<PokemonSpecie>::empty());
    }
    if k == order_of(x) {
        assert forall|i: int| 0 <= i < b.len() implies !p(#[trigger] b[i]) by {
            assert(b[i] == s[j + i]);
        }
        b.lemma_all_neg_filter_empty(p);
        assert(b.filter(p) =~= Seq::<PokemonSpecie>::empty());
        assert(with_order(s, k) =~= a.filter(p));
        assert(with_order(s.insert(j, x), k) =~= a.filter(p).push(x));
    } else {
        assert(with_order(s.insert(j, x), k) =~= a.filter(p) + b.filter(p));
    }
}

/// The entries of `present_species(s)` with key `k` after one more fetched
/// value.
proof fn lemma_present_push_ties(s: Seq<Option<PokemonSpecie>>, v: Option<PokemonSpecie>, k: i64)
    ensures
        present_species(s.push(v)) == match v {
            Some(x) => present_species(s).push(x),
            None => present_species(s),
        },
        with_order(present_species(s.push(v)), k) == match v {
            Some(x) => if order_of(x) == k {
                with_order(present_species(s), k).push(x)
            } else {
                with_order(present_species(s), k)
            },
            None => with_order(present_species(s), k),
        },
{
    assert(s.push(v).drop_last() =~= s);
    if let Some(x) = v {
        let p = |y: PokemonSpecie| order_of(y) == k;
        present_species(s).lemma_filter_push(x, p);
    }
}

/// `r` is the listing of the fetched values: the entries that were fetched
/// (`Some`), each once, in ascending order of their Pokémon's `order`; entries
/// with the same key keep the order in which they were fetched.
pub open spec fn is_listing_of(r: Seq<PokemonSpecie>, fetched: Seq<Option<PokemonSpecie>>) -> bool {
    &&& r.to_multiset() == present_species(fetched).to_multiset()
    &&& sorted_by_order(r)
    &&& forall|k: i64| #[trigger] with_order(r, k) == with_order(present_species(fetched), k)
}

/// No two different entries of `s` share a key.
pub open spec fn distinct_orders(s: Seq<PokemonSpecie>) -> bool {
    forall|a: PokemonSpecie, b: PokemonSpecie|
        #[trigger] s.contains(a) && #[trigger] s.contains(b) && order_of(a) == order_of(b) ==> a == b
}

/// Two sorted lists with the same entries, no two of which share a key, are
/// equal.
proof fn lemma_sorted_unique_by_order(x: Seq<PokemonSpecie>, y: Seq<PokemonSpecie>)
    requires
        sorted_by_order(x),
        sorted_by_order(y),
        x.to_multiset() == y.to_multiset(),
        distinct_orders(x),
    ensures
        x == y,
    decreases x.len(),
{
    assert(x.to_multiset().len() == x.len());
    assert(y.to_multiset().len() == y.len());
    if x.len() == 0 {
        assert(x =~= y);
    } else {
        assert(x.contains(x[0]));
        assert(y.to_multiset().count(x[0]) > 0);
        assert(y.contains(x[0]));
        let i = choose|i: int| 0 <= i < y.len() && y[i] == x[0];
        assert(y.contains(y[0]));
        assert(x.to_multiset().count(y[0]) > 0);
        assert(x.contains(y[0]));
        let j = choose|j: int| 0 <= j < x.len() && x[j] == y[0];
        if i > 0 {
            assert(order_of(y[0]) <= order_of(y[i]));
        }
        if j > 0 {
            assert(order_of(x[0]) <= order_of(x[j]));
        }
        assert(x[0] == y[0]);
        let x1 = x.drop_first();
        let y1 = y.drop_first();
        assert(x.remove(0) =~= x1);
        assert(y.remove(0) =~= y1);
        assert(x1.to_multiset() == y1.to_multiset());
        assert forall|a: int, b: int| 0 <= a < b < x1.len() implies order_of(#[trigger] x1[a])
            <= order_of(#[trigger] x1[b]) by {
            assert(x1[a] == x[a + 1] && x1[b] == x[b + 1]);
        }
        assert forall|a: int, b: int| 0 <= a < b < y1.len() implies order_of(#[trigger] y1[a])
            <= order_of(#[trigger] y1[b]) by {
            assert(y1[a] == y[a + 1] && y1[b] == y[b + 1]);
        }
        assert forall|a: PokemonSpecie, b: PokemonSpecie|
            #[trigger] x1.contains(a) && #[trigger] x1.contains(b) && order_of(a) == order_of(b)
            implies a == b by {
            let ia = choose|k: int| 0 <= k < x1.len() && x1[k] == a;
            let ib = choose|k: int| 0 <= k < x1.len() && x1[k] == b;
            assert(x[ia + 1] == a && x[ib + 1] == b);
            assert(x.contains(a) && x.contains(b));
        }
        lemma_sorted_unique_by_order(x1, y1);
        assert(x =~= y) by {
            assert forall|k: int| 0 <= k < x.len() implies x[k] == y[k] by {
                if k > 0 {
                    assert(x[k] == x1[k - 1] && y[k] == y1[k - 1]);
                }
            }
        }
    }
}

/// The listing does not depend on the order in which the fetches complete:
/// two runs that fetch the same entries, no two of which share a key, give
/// the same listing, entry for entry.
pub proof fn lemma_listing_independent_of_fetch_order(
    f1: Seq<Option<PokemonSpecie>>,
    f2: Seq<Option<PokemonSpecie>>,
    r1: Seq<PokemonSpecie>,
    r2: Seq<PokemonSpecie>,
)
    requires
        present_species(f1).to_multiset() == present_species(f2).to_multiset(),
        distinct_orders(present_species(f1)),
        is_listing_of(r1, f1),
        is_listing_of(r2, f2),
    ensures
        r1 == r2,
{
    let p = present_species(f1);
    assert forall|a: PokemonSpecie, b: PokemonSpecie|
        #[trigger] r1.contains(a) && #[trigger] r1.contains(b) && order_of(a) == order_of(b)
        implies a == b by {
        assert(r1.to_multiset().count(a) > 0 && r1.to_multiset().count(b) > 0);
        assert(p.to_multiset().count(a) > 0 && p.to_multiset().count(b) > 0);
        assert(p.contains(a) && p.contains(b));
    }
    lemma_sorted_unique_by_order(r1, r2);
}

/// The listing of the fetched values (see `is_listing_of`).
pub fn collect_species(fetched: Vec<Option<PokemonSpecie>>) -> (r: Vec<PokemonSpecie>)
    ensures
        is_listing_of(r@, fetched@),
{
    let ghost orig = fetched@;
    let mut rest = fetched;
    let mut out: Vec<PokemonSpecie> = Vec::new();
    let ghost mut c: int = 0;
    assert(orig.take(0) =~= Seq::<Option<PokemonSpecie>>::empty());
    assert(orig.skip(0) =~= orig);
    assert(out@.to_multiset() =~= present_species(orig.take(0)).to_multiset()) by {
        assert(out@ =~= Seq::<PokemonSpecie>::empty());
    }
    assert forall|k: i64| #[trigger] with_order(out@, k) == with_order(present_species(orig.take(0)), k) by {
        assert(out@ =~= present_species(orig.take(0)));
    }
    while rest.len() > 0
        invariant
            0 <= c <= orig.len(),
            rest@ == orig.skip(c),
            sorted_by_order(out@),
            out@.to_multiset() == present_species(orig.take(c)).to_multiset(),
            forall|k: i64| #[trigger] with_order(out@, k) == with_order(present_species(orig.take(c)), k),
        decreases rest.len(),
    {
        let v = rest.remove(0);
        assert(v == orig[c]);
        assert(orig.take(c + 1) =~= orig.take(c).push(v));
        assert(rest@ =~= orig.skip(c + 1));
        proof {
            assert forall|k: i64| true implies #[trigger] with_order(present_species(orig.take(c + 1)), k) == (match v {
                Some(x) => if order_of(x) == k {
                    with_order(present_species(orig.take(c)), k).push(x)
                } else {
                    with_order(present_species(orig.take(c)), k)
                },
                None => with_order(present_species(orig.take(c)), k),
            }) by {
                lemma_present_push_ties(orig.take(c), v, k);
            }
            lemma_present_push_ties(orig.take(c), v, 0);
        }
        match v {
            Some(x) => {
                let j = insertion_point(&out, x.p.order);
                let ghost before = out@;
                proof {
                    assert forall|k: i64| true implies #[trigger] with_order(before.insert(j as int, x), k) == (if k == order_of(x) {
                        with_order(before, k).push(x)
                    } else {
                        with_order(before, k)
                    }) by {
                        lemma_insert_keeps_ties(before, j as int, x, k);
                    }
                    to_multiset_insert(before, j as int, x);
                }
                out.insert(j, x);
                assert(sorted_by_order(out@)) by {
                    assert forall|a: int, b: int| 0 <= a < b < out@.len() implies order_of(
                        #[trigger] out@[a],
                    ) <= order_of(#[trigger] out@[b]) by {
                        if a < j && b > j {
                            assert(out@[a] == before[a]);
                            assert(out@[b] == before[b - 1]);
                        } else if a < j && b < j {
                            assert(out@[a] == before[a]);
                            assert(out@[b] == before[b]);
                        } else if a > j {
                            assert(out@[a] == before[a - 1]);
                            assert(out@[b] == before[b - 1]);
                        } else if a == j {
                            assert(out@[b] == before[b - 1]);
                        } else {
                            assert(out@[a] == before[a]);
                        }
                    }
                }
            },
            None => {},
        }
        proof {
            c = c + 1;
        }
    }
    assert(orig.take(c) =~= orig);
    out
}

/// An entry is among the fetched entries exactly when it was fetched.
proof fn lemma_present_species_elements(f: Seq<Option<PokemonSpecie>>)
    ensures
        forall|x: PokemonSpecie| #[trigger] present_species(f).contains(x) <==> f.contains(Some(x)),
    decreases f.len(),
{
    if f.len() > 0 {
        let d = f.drop_last();
        lemma_present_species_elements(d);
        let pd = present_species(d);
        let pf = present_species(f);
        assert forall|x: PokemonSpecie| #[trigger] pf.contains(x) implies f.contains(Some(x)) by {
            let k = choose|k: int| 0 <= k < pf.len() && pf[k] == x;
            if k < pd.len() {
                assert(pf[k] == pd[k]);
                assert(pd.contains(x));
                assert(d.contains(Some(x)));
                let i = choose|i: int| 0 <= i < d.len() && d[i] == Some(x);
                assert(f[i] == d[i]);
            } else {
                assert(f[f.len() - 1] == Some(x));
            }
        }
        assert forall|x: PokemonSpecie| f.contains(Some(x)) implies #[trigger] pf.contains(x) by {
            let i = choose|i: int| 0 <= i < f.len() && f[i] == Some(x);
            if i == f.len() - 1 {
                assert(pf[pf.len() - 1] == x);
            } else {
                assert(d[i] == f[i]);
                assert(d.contains(Some(x)));
                assert(pd.contains(x));
                let k = choose|k: int| 0 <= k < pd.len() && pd[k] == x;
                assert(pf[k] == pd[k]);
            }
        }
    }
}

/// A listing holds exactly the fetched entries, as many times as they were
/// fetched, in ascending order of their Pokémon's `order`; an entry that was
/// not fetched never appears.
pub proof fn lemma_listing_contents(r: Seq<PokemonSpecie>, f: Seq<Option<PokemonSpecie>>)
    requires
        is_listing_of(r, f),
    ensures
        forall|x: PokemonSpecie| #[trigger] r.contains(x) <==> f.contains(Some(x)),
        r.len() == present_species(f).len(),
        forall|i: int, j: int| 0 <= i < j < r.len() ==> (#[trigger] r[i]).p.order <= (#[trigger] r[j]).p.order,
{
    lemma_present_species_elements(f);
    assert(r.to_multiset().len() == r.len());
    assert(present_species(f).to_multiset().len() == present_species(f).len());
    assert forall|x: PokemonSpecie| #[trigger] r.contains(x) <==> f.contains(Some(x)) by {
        assert(r.contains(x) <==> r.to_multiset().count(x) > 0);
        assert(present_species(f).contains(x) <==> present_species(f).to_multiset().count(x) > 0);
    }
}

} // verus!
