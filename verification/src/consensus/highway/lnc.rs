//! The limited naivety criterion: which forks of an equivocator a vote may cite.

use crate::collections::{MapKey, VecSet};
use crate::consensus::highway::context::{Context, ContextTypes};
use crate::consensus::highway::graph::UnitGraph;
use crate::consensus::highway::panorama::{Observation, Panorama};
use crate::consensus::highway::validators::ValidatorIndex;
use vstd::prelude::*;

verus! {

/// The forks of an equivocator that are cited naively.
pub enum LncForks<C: ContextTypes> {
    /// There is none.
    NoFork,
    /// There is one, and this is the latest of its units that is cited.
    Single(C::Hash),
    /// There are several.
    Multiple,
}

/// Some endorsed unit sees the unit.
pub open spec fn seen_by_endorsed<C: ContextTypes>(
    s: crate::consensus::highway::graph::UnitOrder<C>,
    endorsed: Seq<C::Hash>,
    hash: C::Hash,
) -> bool {
    exists|i: int| 0 <= i < endorsed.len() && crate::consensus::highway::graph::sees(s, #[trigger] endorsed[i], hash)
}

/// The unit `h`, or one below it, cites the equivocator's unit `x`, and no endorsed unit sees any
/// of the units on the way, nor `x` itself.
pub open spec fn cites_naively<C: ContextTypes>(
    s: crate::consensus::highway::graph::UnitOrder<C>,
    endorsed: Seq<C::Hash>,
    eq_idx: ValidatorIndex,
    h: C::Hash,
    x: C::Hash,
) -> bool
    decreases
            (if crate::collections::has_key(s, h) {
                crate::collections::key_index(s, h) + 1
            } else {
                0
            }),
{
    let g = crate::consensus::highway::graph::units_of(s);
    g.contains_key(h) && !seen_by_endorsed(s, endorsed, h) && match crate::consensus::highway::unit::sees_of(
        &*g[h],
        eq_idx,
    ) {
        Observation::Correct(e) => e == x && !seen_by_endorsed(s, endorsed, e),
        Observation::Unseen => false,
        Observation::Faulty => exists|i: int|
            {
                &&& 0 <= i < g[h].panorama.observations@.len()
                &&& #[trigger] g[h].panorama.observations@[i] matches Observation::Correct(c) && crate::collections::has_key(s, c)
                    && 0 <= crate::collections::key_index(s, c) < crate::collections::key_index(s, h) && cites_naively(
                    s,
                    endorsed,
                    eq_idx,
                    c,
                    x,
                )
            },
    }
}

/// Some unit that the panorama cites cites the equivocator's unit `x` naively.
pub open spec fn naive_in<C: ContextTypes>(
    s: crate::consensus::highway::graph::UnitOrder<C>,
    endorsed: Seq<C::Hash>,
    eq_idx: ValidatorIndex,
    panorama: Seq<Observation<C::Hash>>,
    x: C::Hash,
) -> bool {
    exists|c: C::Hash| #[trigger] crate::consensus::highway::panorama::cites(panorama, c) && cites_naively(s, endorsed, eq_idx, c, x)
}

/// What `find_forks` has to say of the units that are cited naively.
pub open spec fn forks_told<C: ContextTypes>(
    s: crate::consensus::highway::graph::UnitOrder<C>,
    endorsed: Seq<C::Hash>,
    eq_idx: ValidatorIndex,
    panorama: Seq<Observation<C::Hash>>,
    forks: LncForks<C>,
) -> bool {
    match forks {
        LncForks::NoFork => forall|x: C::Hash| !#[trigger] naive_in(s, endorsed, eq_idx, panorama, x),
        LncForks::Single(tip) => {
            &&& naive_in(s, endorsed, eq_idx, panorama, tip)
            &&& forall|x: C::Hash| #[trigger] naive_in(s, endorsed, eq_idx, panorama, x) ==> crate::consensus::highway::graph::sees_correct(s, tip, x)
        },
        LncForks::Multiple => exists|x: C::Hash, y: C::Hash|
            {
                &&& #[trigger] naive_in(s, endorsed, eq_idx, panorama, x)
                &&& #[trigger] naive_in(s, endorsed, eq_idx, panorama, y)
                &&& !crate::consensus::highway::graph::sees_correct(s, x, y)
                &&& !crate::consensus::highway::graph::sees_correct(s, y, x)
            },
    }
}

/// A unit that is cited naively is one of the equivocator's.
pub proof fn lemma_naive_unit<C: ContextTypes>(
    s: crate::consensus::highway::graph::UnitOrder<C>,
    n: int,
    endorsed: Seq<C::Hash>,
    eq_idx: ValidatorIndex,
    h: C::Hash,
    x: C::Hash,
)
    requires
        crate::consensus::highway::graph::graph_wf(s, n),
        cites_naively(s, endorsed, eq_idx, h, x),
    ensures
        crate::consensus::highway::graph::units_of(s).contains_key(x),
        crate::consensus::highway::graph::units_of(s)[x].creator == eq_idx,
    decreases crate::collections::key_index(s, h),
{
    let g = crate::consensus::highway::graph::units_of(s);
    crate::consensus::highway::graph::lemma_position(s, n, h);
    let p = crate::collections::key_index(s, h);
    match crate::consensus::highway::unit::sees_of(&*g[h], eq_idx) {
        Observation::Correct(e) => {
            assert(g[h].panorama.observations@[eq_idx.0 as int] == Observation::Correct(e));
            assert(crate::consensus::highway::graph::cited_right(s, p, eq_idx.0 as int, e));
        },
        Observation::Unseen => {},
        Observation::Faulty => {
            let i = choose|i: int|
                {
                    &&& 0 <= i < g[h].panorama.observations@.len()
                    &&& #[trigger] g[h].panorama.observations@[i] matches Observation::Correct(c) && crate::collections::has_key(s, c)
                        && 0 <= crate::collections::key_index(s, c) < crate::collections::key_index(s, h) && cites_naively(
                        s,
                        endorsed,
                        eq_idx,
                        c,
                        x,
                    )
                };
            lemma_naive_unit(s, n, endorsed, eq_idx, g[h].panorama.observations@[i]->Correct_0, x);
        },
    }
}

/// Returns whether any endorsed unit sees the unit.
fn is_seen_by_endorsed<C: Context>(graph: &UnitGraph<C>, endorsed: &Vec<C::Hash>, hash: &C::Hash) -> (r: bool)
    requires
        graph.wf(),
        forall|i: int| 0 <= i < endorsed@.len() ==> crate::consensus::highway::graph::units_of(graph@).contains_key(#[trigger] endorsed@[i]),
        crate::consensus::highway::graph::units_of(graph@).contains_key(*hash),
    ensures
        r == seen_by_endorsed(graph@, endorsed@, *hash),
{
    let mut i: usize = 0;
    while i < endorsed.len()
        invariant
            i <= endorsed@.len(),
            graph.wf(),
            forall|i: int| 0 <= i < endorsed@.len() ==> crate::consensus::highway::graph::units_of(graph@).contains_key(#[trigger] endorsed@[i]),
            crate::consensus::highway::graph::units_of(graph@).contains_key(*hash),
            forall|j: int| 0 <= j < i ==> !crate::consensus::highway::graph::sees(graph@, #[trigger] endorsed@[j], *hash),
        decreases endorsed@.len() - i,
    {
        if graph.sees(&endorsed[i], hash) {
            assert(crate::consensus::highway::graph::sees(graph@, endorsed@[i as int], *hash));
            return true;
        }
        i += 1;
    }
    false
}

/// No more units are noted than there are.
proof fn lemma_noted_len<C: ContextTypes>(s: crate::consensus::highway::graph::UnitOrder<C>, noted: Seq<C::Hash>)
    requires
        crate::collections::keys_distinct(s),
        noted.no_duplicates(),
        forall|h: C::Hash| #[trigger] noted.to_set().contains(h) ==> crate::consensus::highway::graph::units_of(s).contains_key(h),
    ensures
        noted.len() <= s.len(),
{
    crate::collections::lemma_entry_map_len(s);
    noted.unique_seq_to_set();
    vstd::set_lib::lemma_len_subset(noted.to_set(), crate::consensus::highway::graph::units_of(s).dom());
}

/// What a sequence contains after one more item.
proof fn lemma_push_contains<T>(s: Seq<T>, a: T, x: T)
    ensures
        s.push(a).contains(x) == (s.contains(x) || x == a),
{
    if s.contains(x) {
        let i = s.index_of(x);
        assert(s.push(a)[i] == x);
    }
    if x == a {
        assert(s.push(a)[s.len() as int] == x);
    }
    if s.push(a).contains(x) {
        let i = s.push(a).index_of(x);
        if i < s.len() {
            assert(s[i] == x);
        }
    }
}

/// What `c` cites naively is accounted for: the tip sees it, or a unit still to be visited, not
/// later than `c`, cites it naively.
pub open spec fn accounted<C: ContextTypes>(
    s: crate::consensus::highway::graph::UnitOrder<C>,
    endorsed: Seq<C::Hash>,
    eq_idx: ValidatorIndex,
    tip: Option<C::Hash>,
    to_visit: Seq<C::Hash>,
    c: C::Hash,
    x: C::Hash,
) -> bool {
    ||| tip matches Some(t) && crate::consensus::highway::graph::sees_correct(s, t, x)
    ||| exists|k: int|
        {
            &&& 0 <= k < to_visit.len()
            &&& crate::collections::key_index(s, #[trigger] to_visit[k]) <= crate::collections::key_index(s, c)
            &&& cites_naively(s, endorsed, eq_idx, to_visit[k], x)
        }
}

/// What any of the noted units cites naively is accounted for.
pub open spec fn all_accounted<C: ContextTypes>(
    s: crate::consensus::highway::graph::UnitOrder<C>,
    endorsed: Seq<C::Hash>,
    eq_idx: ValidatorIndex,
    noted: Set<C::Hash>,
    tip: Option<C::Hash>,
    to_visit: Seq<C::Hash>,
) -> bool {
    forall|h: C::Hash, x: C::Hash| #![trigger cites_naively(s, endorsed, eq_idx, h, x)]
        noted.contains(h) && cites_naively(s, endorsed, eq_idx, h, x) ==> accounted(s, endorsed, eq_idx, tip, to_visit, h, x)
}

/// What the units to be visited cite naively is cited naively by the panorama.
pub open spec fn all_naive<C: ContextTypes>(
    s: crate::consensus::highway::graph::UnitOrder<C>,
    endorsed: Seq<C::Hash>,
    eq_idx: ValidatorIndex,
    panorama: Seq<Observation<C::Hash>>,
    to_visit: Seq<C::Hash>,
) -> bool {
    forall|j: int, x: C::Hash| #![trigger cites_naively(s, endorsed, eq_idx, to_visit[j], x)]
        0 <= j < to_visit.len() && cites_naively(s, endorsed, eq_idx, to_visit[j], x) ==> naive_in(s, endorsed, eq_idx, panorama, x)
}

/// The tip, if there is one, is a unit of the equivocator that is cited naively.
pub open spec fn tip_right<C: ContextTypes>(
    s: crate::consensus::highway::graph::UnitOrder<C>,
    endorsed: Seq<C::Hash>,
    eq_idx: ValidatorIndex,
    panorama: Seq<Observation<C::Hash>>,
    tip: Option<C::Hash>,
) -> bool {
    tip matches Some(t) ==> {
        let g = crate::consensus::highway::graph::units_of(s);
        g.contains_key(t) && g[t].creator == eq_idx && naive_in(s, endorsed, eq_idx, panorama, t)
    }
}

/// A unit below which nothing new is to be visited can be taken off the list once the tip sees
/// what it cites naively.
proof fn lemma_visited<C: ContextTypes>(
    s: crate::consensus::highway::graph::UnitOrder<C>,
    n: int,
    endorsed: Seq<C::Hash>,
    eq_idx: ValidatorIndex,
    noted: Set<C::Hash>,
    tip: Option<C::Hash>,
    new_tip: Option<C::Hash>,
    rest: Seq<C::Hash>,
    hash: C::Hash,
)
    requires
        crate::consensus::highway::graph::graph_wf(s, n),
        all_accounted(s, endorsed, eq_idx, noted, tip, rest.push(hash)),
        tip matches Some(t) ==> {
            let g = crate::consensus::highway::graph::units_of(s);
            &&& g.contains_key(t) && g[t].creator == eq_idx
            &&& new_tip matches Some(t1) && g.contains_key(t1) && g[t1].creator == eq_idx
                && crate::consensus::highway::graph::sees_correct(s, t1, t)
        },
        forall|x: C::Hash| #[trigger] cites_naively(s, endorsed, eq_idx, hash, x) ==> (new_tip matches Some(t1)
            && crate::consensus::highway::graph::sees_correct(s, t1, x)),
    ensures
        all_accounted(s, endorsed, eq_idx, noted, new_tip, rest),
{
    assert forall|h: C::Hash, x: C::Hash| #![trigger cites_naively(s, endorsed, eq_idx, h, x)]
        noted.contains(h) && cites_naively(s, endorsed, eq_idx, h, x) implies accounted(s, endorsed, eq_idx, new_tip, rest, h, x) by {
        lemma_naive_unit(s, n, endorsed, eq_idx, h, x);
        assert(accounted(s, endorsed, eq_idx, tip, rest.push(hash), h, x));
        if tip is Some && crate::consensus::highway::graph::sees_correct(s, tip->0, x) {
            crate::consensus::highway::graph::lemma_sees_correct_transitive(s, n, new_tip->0, tip->0, x);
        } else {
            let all = rest.push(hash);
            let k = choose|k: int|
                {
                    &&& 0 <= k < all.len()
                    &&& crate::collections::key_index(s, #[trigger] all[k]) <= crate::collections::key_index(s, h)
                    &&& cites_naively(s, endorsed, eq_idx, all[k], x)
                };
            if k < rest.len() {
                assert(rest[k] == all[k]);
            } else {
                assert(all[k] == hash);
            }
        }
    }
}

/// A unit that sees the equivocator as faulty can be taken off the list once all units that it
/// cites are noted.
proof fn lemma_expanded<C: ContextTypes>(
    s: crate::consensus::highway::graph::UnitOrder<C>,
    n: int,
    endorsed: Seq<C::Hash>,
    eq_idx: ValidatorIndex,
    panorama: Seq<Observation<C::Hash>>,
    noted: Set<C::Hash>,
    new_noted: Set<C::Hash>,
    tip: Option<C::Hash>,
    rest: Seq<C::Hash>,
    hash: C::Hash,
    new_visit: Seq<C::Hash>,
)
    requires
        crate::consensus::highway::graph::graph_wf(s, n),
        crate::consensus::highway::graph::units_of(s).contains_key(hash),
        !seen_by_endorsed(s, endorsed, hash),
        crate::consensus::highway::unit::sees_of(&*crate::consensus::highway::graph::units_of(s)[hash], eq_idx) is Faulty,
        all_accounted(s, endorsed, eq_idx, noted, tip, rest.push(hash)),
        all_naive(s, endorsed, eq_idx, panorama, rest.push(hash)),
        rest.is_prefix_of(new_visit),
        forall|j: int| rest.len() <= j < new_visit.len() ==> crate::consensus::highway::panorama::cites(
            crate::consensus::highway::graph::units_of(s)[hash].panorama.observations@,
            #[trigger] new_visit[j],
        ),
        forall|i: int| 0 <= i < crate::consensus::highway::graph::units_of(s)[hash].panorama.observations@.len() ==> (
        #[trigger] crate::consensus::highway::graph::units_of(s)[hash].panorama.observations@[i] matches Observation::Correct(c) ==> noted.contains(c) || new_visit.contains(c)),
        forall|h: C::Hash| #[trigger] new_noted.contains(h) ==> noted.contains(h) || new_visit.contains(h),
    ensures
        all_accounted(s, endorsed, eq_idx, new_noted, tip, new_visit),
        all_naive(s, endorsed, eq_idx, panorama, new_visit),
{
    let g = crate::consensus::highway::graph::units_of(s);
    let all = rest.push(hash);
    let obs = g[hash].panorama.observations@;
    let p = crate::collections::key_index(s, hash);
    crate::consensus::highway::graph::lemma_position(s, n, hash);
    assert forall|h: C::Hash, x: C::Hash| #![trigger cites_naively(s, endorsed, eq_idx, h, x)]
        new_noted.contains(h) && cites_naively(s, endorsed, eq_idx, h, x) implies accounted(s, endorsed, eq_idx, tip, new_visit, h, x) by {
        if new_visit.contains(h) {
            let k = new_visit.index_of(h);
            assert(new_visit[k] == h);
        } else {
            assert(accounted(s, endorsed, eq_idx, tip, all, h, x));
            if !(tip is Some && crate::consensus::highway::graph::sees_correct(s, tip->0, x)) {
                let k = choose|k: int|
                    {
                        &&& 0 <= k < all.len()
                        &&& crate::collections::key_index(s, #[trigger] all[k]) <= crate::collections::key_index(s, h)
                        &&& cites_naively(s, endorsed, eq_idx, all[k], x)
                    };
                if k < rest.len() {
                    assert(rest[k] == all[k]);
                    assert(new_visit[k] == all[k]);
                } else {
                    assert(all[k] == hash);
                    let i = choose|i: int|
                        {
                            &&& 0 <= i < obs.len()
                            &&& #[trigger] obs[i] matches Observation::Correct(c) && crate::collections::has_key(s, c)
                                && 0 <= crate::collections::key_index(s, c) < crate::collections::key_index(s, hash) && cites_naively(
                                s,
                                endorsed,
                                eq_idx,
                                c,
                                x,
                            )
                        };
                    let c = obs[i]->Correct_0;
                    assert(g[hash].panorama.observations@[i] == Observation::Correct(c));
                    if new_visit.contains(c) {
                        let k1 = new_visit.index_of(c);
                        assert(new_visit[k1] == c);
                    } else {
                        assert(noted.contains(c));
                        assert(accounted(s, endorsed, eq_idx, tip, all, c, x));
                        let k2 = choose|k: int|
                            {
                                &&& 0 <= k < all.len()
                                &&& crate::collections::key_index(s, #[trigger] all[k]) <= crate::collections::key_index(s, c)
                                &&& cites_naively(s, endorsed, eq_idx, all[k], x)
                            };
                        assert(all[k2] != hash);
                        assert(k2 < rest.len());
                        assert(rest[k2] == all[k2]);
                        assert(new_visit[k2] == all[k2]);
                    }
                }
            }
        }
    }
    assert forall|j: int, x: C::Hash| #![trigger cites_naively(s, endorsed, eq_idx, new_visit[j], x)]
        0 <= j < new_visit.len() && cites_naively(s, endorsed, eq_idx, new_visit[j], x) implies naive_in(s, endorsed, eq_idx, panorama, x) by {
        if j < rest.len() {
            assert(all[j] == new_visit[j]);
            assert(cites_naively(s, endorsed, eq_idx, all[j], x));
        } else {
            let c = new_visit[j];
            let i = choose|i: int| 0 <= i < obs.len() && #[trigger] obs[i] == Observation::Correct(c);
            assert(crate::consensus::highway::graph::cited_right(s, p, i, c));
            crate::consensus::highway::graph::lemma_position(s, n, c);
            assert(cites_naively(s, endorsed, eq_idx, hash, x));
            assert(all[rest.len() as int] == hash);
            assert(cites_naively(s, endorsed, eq_idx, all[rest.len() as int], x));
        }
    }
}

/// Notes the units that a panorama cites; those that were not noted before are to be visited.
fn note_cited<C: Context>(panorama: &Panorama<C>, added: &mut VecSet<C::Hash>, to_visit: &mut Vec<C::Hash>)
    requires
        old(added).wf(),
    ensures
        final(added).wf(),
        forall|h: C::Hash| #[trigger] final(added)@.contains(h) == (old(added)@.contains(h)
            || crate::consensus::highway::panorama::cites(panorama.observations@, h)),
        old(to_visit)@.is_prefix_of(final(to_visit)@),
        forall|j: int| old(to_visit)@.len() <= j < final(to_visit)@.len() ==> crate::consensus::highway::panorama::cites(
            panorama.observations@,
            #[trigger] final(to_visit)@[j],
        ),
        forall|h: C::Hash| #[trigger] final(added)@.contains(h) ==> old(added)@.contains(h) || final(to_visit)@.contains(h),
        final(added).seq().len() - old(added).seq().len() == final(to_visit)@.len() - old(to_visit)@.len(),
{
    let cited = panorama.correct_hashes();
    let ghost noted = added@;
    let ghost rest = to_visit@;
    let ghost noted_len = added.seq().len();
    let mut i: usize = 0;
    assert(cited@.take(0) =~= Seq::empty());
    while i < cited.len()
        invariant
            i <= cited@.len(),
            added.wf(),
            forall|h: C::Hash| #[trigger] added@.contains(h) == (noted.contains(h) || cited@.take(i as int).contains(h)),
            rest.is_prefix_of(to_visit@),
            forall|j: int| rest.len() <= j < to_visit@.len() ==> cited@.contains(#[trigger] to_visit@[j]),
            forall|h: C::Hash| #[trigger] added@.contains(h) ==> noted.contains(h) || to_visit@.contains(h),
            added.seq().len() - noted_len == to_visit@.len() - rest.len(),
        decreases cited@.len() - i,
    {
        let c = cited[i];
        let ghost before = to_visit@;
        let ghost added_before = added@;
        let new = added.insert(c);
        if new {
            to_visit.push(c);
        }
        proof {
            let prefix = cited@.take(i as int);
            assert(cited@.take(i + 1) =~= prefix.push(c));
            assert(cited@[i as int] == c);
            assert forall|h: C::Hash| #[trigger] added@.contains(h) == (noted.contains(h) || cited@.take(i + 1).contains(h)) by {
                lemma_push_contains(prefix, c, h);
                assert(added_before.contains(h) == (noted.contains(h) || prefix.contains(h)));
            }
            assert forall|h: C::Hash| #[trigger] added@.contains(h) implies noted.contains(h) || to_visit@.contains(h) by {
                lemma_push_contains(before, c, h);
                if added_before.contains(h) {
                    assert(noted.contains(h) || before.contains(h));
                }
            }
        }
        i += 1;
    }
    proof {
        assert(cited@.take(cited@.len() as int) =~= cited@);
    }
}

/// Looks for forks, created by `eq_idx` validator, that are visible in the past of the panorama.
///
/// Exits early if more than one of these forks is naively cited, i.e. not seen by an endorsed unit,
/// as it cannot satisfy the LNC then anyway.
#[verifier::rlimit(40)]
pub fn find_forks<C: Context>(
    panorama: &Panorama<C>,
    endorsed: &Vec<C::Hash>,
    eq_idx: ValidatorIndex,
    graph: &UnitGraph<C>,
) -> (r: LncForks<C>)
    requires
        graph.wf(),
        forall|i: int| 0 <= i < endorsed@.len() ==> crate::consensus::highway::graph::units_of(graph@).contains_key(#[trigger] endorsed@[i]),
        forall|h: C::Hash| #[trigger] crate::consensus::highway::panorama::cites(panorama.observations@, h) ==> crate::consensus::highway::graph::units_of(graph@).contains_key(h),
    ensures
        forks_told(graph@, endorsed@, eq_idx, panorama.observations@, r),
{
    let ghost s = graph@;
    let ghost n = graph.validator_count();
    let ghost g = crate::consensus::highway::graph::units_of(s);
    let ghost pan = panorama.observations@;
    let ghost end = endorsed@;
    // Find all forks by eq_idx that are cited naively in the `panorama`.
    // * If it's more than one then LNC is violated, return `LncForks::Multiple`.
    // * If it's none, LNC is not violated: If the LNC were violated, it would be because of two
    //   naive citations by the creator's earlier units. So the latest of those earlier units
    //   would already be violating the LNC itself, and thus would not have been added to the state.
    //   Return `LncForks::NoFork`.
    // * Otherwise return `LncForks::Single(hash)` where `hash` is a unit that is cited naively.
    let mut opt_naive: Option<C::Hash> = None;
    // Iterate over all units cited by the panorama.
    let mut to_visit = panorama.correct_hashes();
    // This set is a filter so that units don't get added to to_visit twice.
    let mut added = VecSet::from_vec(&to_visit);
    proof {
        assert forall|h: C::Hash| #[trigger] added@.contains(h) == crate::consensus::highway::panorama::cites(pan, h) by {
            assert(to_visit@.contains(h) == crate::consensus::highway::panorama::cites(pan, h));
        }
        assert forall|j: int| 0 <= j < to_visit@.len() implies added@.contains(#[trigger] to_visit@[j]) by {
            assert(to_visit@.contains(to_visit@[j]));
        }
        assert forall|h: C::Hash, x: C::Hash| #![trigger cites_naively(s, end, eq_idx, h, x)]
            added@.contains(h) && cites_naively(s, end, eq_idx, h, x) implies accounted(s, end, eq_idx, opt_naive, to_visit@, h, x) by {
            assert(to_visit@.contains(h));
            let j = to_visit@.index_of(h);
            assert(to_visit@[j] == h);
        }
        assert forall|j: int, x: C::Hash| #![trigger cites_naively(s, end, eq_idx, to_visit@[j], x)]
            0 <= j < to_visit@.len() && cites_naively(s, end, eq_idx, to_visit@[j], x) implies naive_in(s, end, eq_idx, pan, x) by {
            assert(added@.contains(to_visit@[j]));
            assert(crate::consensus::highway::panorama::cites(pan, to_visit@[j]));
        }
        lemma_noted_len(s, added.seq());
    }
    while to_visit.len() > 0
        invariant
            s == graph@,
            n == graph.validator_count(),
            graph.wf(),
            g == crate::consensus::highway::graph::units_of(s),
            pan == panorama.observations@,
            end == endorsed@,
            forall|i: int| 0 <= i < endorsed@.len() ==> g.contains_key(#[trigger] endorsed@[i]),
            added.wf(),
            added.seq().len() <= s.len(),
            forall|h: C::Hash| #[trigger] added@.contains(h) ==> g.contains_key(h),
            forall|h: C::Hash| #[trigger] crate::consensus::highway::panorama::cites(pan, h) ==> added@.contains(h),
            forall|j: int| 0 <= j < to_visit@.len() ==> added@.contains(#[trigger] to_visit@[j]),
            tip_right(s, end, eq_idx, pan, opt_naive),
            all_accounted(s, end, eq_idx, added@, opt_naive, to_visit@),
            all_naive(s, end, eq_idx, pan, to_visit@),
        decreases s.len() - added.seq().len(), to_visit@.len(),
    {
        let ghost tip = opt_naive;
        let ghost visit0 = to_visit@;
        let ghost noted = added@;
        let ghost noted_len = added.seq().len();
        let hash = to_visit[to_visit.len() - 1];
        let _ = to_visit.pop();
        let ghost rest = to_visit@;
        proof {
            assert(visit0 =~= rest.push(hash));
            assert(visit0[rest.len() as int] == hash);
            assert(added@.contains(hash));
            crate::consensus::highway::graph::lemma_position(s, n, hash);
            assert forall|x: C::Hash| #[trigger] cites_naively(s, end, eq_idx, hash, x) implies naive_in(s, end, eq_idx, pan, x) by {
                assert(cites_naively(s, end, eq_idx, visit0[rest.len() as int], x));
            }
            assert forall|j: int, x: C::Hash| #![trigger cites_naively(s, end, eq_idx, rest[j], x)]
                0 <= j < rest.len() && cites_naively(s, end, eq_idx, rest[j], x) implies naive_in(s, end, eq_idx, pan, x) by {
                assert(visit0[j] == rest[j]);
                assert(cites_naively(s, end, eq_idx, visit0[j], x));
            }
        }
        let ghost p = crate::collections::key_index(s, hash);
        if is_seen_by_endorsed(graph, endorsed, &hash) {
            // This unit and everything below is not cited naively.
            proof {
                lemma_visited(s, n, end, eq_idx, noted, tip, opt_naive, rest, hash);
            }
        } else {
            let unit = graph.unit(&hash);
            match unit.panorama.get(eq_idx) {
                Observation::Correct(eq_hash) => {
                    proof {
                        assert(unit.panorama.observations@[eq_idx.0 as int] == Observation::Correct(eq_hash));
                        assert(crate::consensus::highway::graph::cited_right(s, p, eq_idx.0 as int, eq_hash));
                    }
                    // The unit (and everything it cites) can only see a single fork.
                    // No need to traverse further downward.
                    if !is_seen_by_endorsed(graph, endorsed, &eq_hash) {
                        assert(cites_naively(s, end, eq_idx, hash, eq_hash));
                        // The fork is cited naively!
                        match opt_naive {
                            // It's the first naively cited fork we found.
                            None => {
                                opt_naive = Some(eq_hash);
                            },
                            Some(other_hash) => {
                                // If eq_hash is later than other_hash, it is the tip of the
                                // same fork. If it is earlier, then other_hash is the tip.
                                if graph.sees_correct(&eq_hash, &other_hash) {
                                    opt_naive = Some(eq_hash);
                                } else if !graph.sees_correct(&other_hash, &eq_hash) {
                                    // We found two incompatible forks!
                                    assert(naive_in(s, end, eq_idx, pan, eq_hash));
                                    assert(naive_in(s, end, eq_idx, pan, other_hash));
                                    return LncForks::Multiple;
                                }
                            },
                        }
                    }
                    proof {
                        lemma_visited(s, n, end, eq_idx, noted, tip, opt_naive, rest, hash);
                    }
                },
                // No forks are cited by this unit. No need to traverse further.
                Observation::Unseen => {
                    proof {
                        lemma_visited(s, n, end, eq_idx, noted, tip, opt_naive, rest, hash);
                    }
                },
                // The unit still sees the equivocator as faulty: We need to traverse further
                // down the graph to find all cited forks.
                Observation::Faulty => {
                    note_cited(&unit.panorama, &mut added, &mut to_visit);
                    proof {
                        let obs = unit.panorama.observations@;
                        assert forall|h: C::Hash| crate::consensus::highway::panorama::cites(obs, h) implies g.contains_key(h) && added@.contains(h) by {
                            let i = choose|i: int| 0 <= i < obs.len() && #[trigger] obs[i] == Observation::Correct(h);
                            assert(crate::consensus::highway::graph::cited_right(s, p, i, h));
                            assert(added@.contains(h));
                        }
                        assert forall|i: int| 0 <= i < obs.len() implies (#[trigger] obs[i] matches Observation::Correct(c) ==> noted.contains(c)
                            || to_visit@.contains(c)) by {
                            if let Observation::Correct(c) = obs[i] {
                                assert(crate::consensus::highway::panorama::cites(obs, c));
                                assert(added@.contains(c));
                            }
                        }
                        assert forall|j: int| 0 <= j < to_visit@.len() implies added@.contains(#[trigger] to_visit@[j]) by {
                            if j < rest.len() {
                                assert(to_visit@[j] == visit0[j]);
                                assert(noted.contains(visit0[j]));
                            }
                        }
                        lemma_expanded(s, n, end, eq_idx, pan, noted, added@, opt_naive, rest, hash, to_visit@);
                    }
                },
            }
        }
        proof {
            lemma_noted_len(s, added.seq());
        }
    }
    proof {
        assert forall|x: C::Hash| #[trigger] naive_in(s, end, eq_idx, pan, x) implies (opt_naive matches Some(t)
            && crate::consensus::highway::graph::sees_correct(s, t, x)) by {
            let c = choose|c: C::Hash| #[trigger] crate::consensus::highway::panorama::cites(pan, c) && cites_naively(s, end, eq_idx, c, x);
            assert(added@.contains(c));
            assert(accounted(s, end, eq_idx, opt_naive, to_visit@, c, x));
        }
    }
    match opt_naive {
        None => LncForks::NoFork,
        Some(uhash) => LncForks::Single(uhash),
    }
}

} // verus!
