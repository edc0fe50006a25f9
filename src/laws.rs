use vstd::prelude::*;
use crate::broadcast::{admits, spared, surviving, targets};
use crate::registry::{ids_of, other_than, without, lemma_ids_of_filter};
use crate::seq_facts::{
    lemma_filter_drops_one,
    lemma_filter_excludes,
    lemma_filter_keeps_all,
    lemma_filter_no_duplicates,
    lemma_filter_shrinks,
};

verus! {

/// Holds of the identities that are not among `failed`.
pub open spec fn not_in(failed: Seq<u64>) -> spec_fn(u64) -> bool {
    |x: u64| !failed.contains(x)
}

/// The positions, in order, of the passes in `passes` (each given by its
/// recipients) that send to connection `id`: the payloads `id` observes.
pub open spec fn deliveries(passes: Seq<Seq<u64>>, id: u64) -> Seq<int>
    decreases passes.len(),
{
    if passes.len() == 0 {
        Seq::empty()
    } else {
        let earlier = deliveries(passes.drop_last(), id);
        if passes.last().contains(id) {
            earlier.push(passes.len() - 1)
        } else {
            earlier
        }
    }
}

/// A broadcast with no excluded identity is sent to every registered
/// connection, once each, and to nothing else.
pub proof fn fan_out_complete(ids: Seq<u64>)
    requires
        ids.no_duplicates(),
    ensures
        targets(ids, None) == ids,
        targets(ids, None).len() == ids.len(),
        targets(ids, None).no_duplicates(),
{
    lemma_filter_keeps_all(ids, admits(None));
}

/// A broadcast that excludes a registered identity is sent to every other
/// registered connection, once each, and never to the excluded one.
pub proof fn exclusion(ids: Seq<u64>, excluded: u64)
    requires
        ids.no_duplicates(),
        ids.contains(excluded),
    ensures
        targets(ids, Some(excluded)).len() == ids.len() - 1,
        !targets(ids, Some(excluded)).contains(excluded),
        targets(ids, Some(excluded)).no_duplicates(),
        forall|x: u64| ids.contains(x) && x != excluded ==> targets(ids, Some(excluded)).contains(x),
{
    let i = choose|i: int| 0 <= i < ids.len() && ids[i] == excluded;
    lemma_filter_drops_one(ids, admits(Some(excluded)), i);
    lemma_filter_excludes(ids, admits(Some(excluded)), excluded);
    lemma_filter_no_duplicates(ids, admits(Some(excluded)));
    assert forall|x: u64| ids.contains(x) && x != excluded implies targets(
        ids,
        Some(excluded),
    ).contains(x) by {
        let k = choose|k: int| 0 <= k < ids.len() && ids[k] == x;
        ids.lemma_filter_contains(admits(Some(excluded)), k);
    }
}

/// A connected client whose send failed is gone once the pass ends: the
/// registry is smaller, and no later broadcast is sent to it.
pub proof fn eviction_is_final<T>(entries: Seq<(u64, T)>, failed: Seq<u64>, evicted: u64)
    requires
        ids_of(entries).contains(evicted),
        failed.contains(evicted),
    ensures
        !ids_of(surviving(entries, failed)).contains(evicted),
        surviving(entries, failed).len() <= entries.len() - 1,
        forall|exclude: Option<u64>|
            !(#[trigger] targets(ids_of(surviving(entries, failed)), exclude)).contains(evicted),
{
    let ids = ids_of(entries);
    lemma_ids_of_filter(entries, spared::<T>(failed), not_in(failed));
    lemma_filter_excludes(ids, not_in(failed), evicted);
    let i = choose|i: int| 0 <= i < ids.len() && ids[i] == evicted;
    lemma_filter_shrinks(ids, not_in(failed), i);
    assert forall|exclude: Option<u64>|
        !(#[trigger] targets(ids_of(surviving(entries, failed)), exclude)).contains(evicted) by {
        let left = ids_of(surviving(entries, failed));
        if targets(left, exclude).contains(evicted) {
            left.lemma_filter_contains_rev(admits(exclude), evicted);
        }
    }
}

/// Removing an identity that is not registered leaves the registry as it was.
pub proof fn idempotent_removal<T>(entries: Seq<(u64, T)>, id: u64)
    requires
        !ids_of(entries).contains(id),
    ensures
        without(entries, id) == entries,
        without(without(entries, id), id) == without(entries, id),
{
    assert forall|k: int| 0 <= k < entries.len() implies (other_than::<T>(id))(entries[k]) by {
        assert(ids_of(entries)[k] == entries[k].0);
    }
    lemma_filter_keeps_all(entries, other_than::<T>(id));
}

/// Payloads broadcast one after another reach a connection in the order they
/// were broadcast: the passes that send to it are observed in increasing
/// order, and each pass that sends to it is observed exactly there.
pub proof fn order_preserved(passes: Seq<Seq<u64>>, id: u64)
    ensures
        forall|a: int, b: int|
            0 <= a < b < deliveries(passes, id).len() ==> #[trigger] deliveries(passes, id)[a]
                < #[trigger] deliveries(passes, id)[b],
        forall|k: int|
            0 <= k < passes.len() ==> (#[trigger] passes[k].contains(id) <==> deliveries(
                passes,
                id,
            ).contains(k)),
        forall|a: int|
            0 <= a < deliveries(passes, id).len() ==> 0 <= #[trigger] deliveries(passes, id)[a]
                < passes.len(),
    decreases passes.len(),
{
    if passes.len() > 0 {
        let prev = passes.drop_last();
        order_preserved(prev, id);
        let d = deliveries(passes, id);
        let e = deliveries(prev, id);
        assert forall|k: int| 0 <= k < passes.len() implies (#[trigger] passes[k].contains(id)
            <==> d.contains(k)) by {
            if k < passes.len() - 1 {
                assert(prev[k] == passes[k]);
                if e.contains(k) {
                    let j = choose|j: int| 0 <= j < e.len() && e[j] == k;
                    assert(d[j] == k);
                }
                if d.contains(k) {
                    let j = choose|j: int| 0 <= j < d.len() && d[j] == k;
                    if j < e.len() {
                        assert(e[j] == k);
                    }
                }
            } else {
                if d.contains(k) && !passes.last().contains(id) {
                    let j = choose|j: int| 0 <= j < d.len() && d[j] == k;
                    assert(e[j] < prev.len());
                }
                if passes.last().contains(id) {
                    assert(d[e.len() as int] == k);
                }
            }
        }
    }
}

/// A payload that a client sends is relayed with the client itself excluded,
/// so it never comes back to its sender.
pub proof fn no_self_echo(ids: Seq<u64>, sender: u64)
    ensures
        !targets(ids, Some(sender)).contains(sender),
{
    lemma_filter_excludes(ids, admits(Some(sender)), sender);
}

} // verus!
