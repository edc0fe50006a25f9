use vstd::prelude::*;
use crate::registry::{Registry, ids_of, other_than, without};
use crate::seq_facts::lemma_filter_twice;

verus! {

/// Holds of the identities that a broadcast excluding `exclude` sends to.
pub open spec fn admits(exclude: Option<u64>) -> spec_fn(u64) -> bool {
    |x: u64| exclude != Some(x)
}

/// The identities a broadcast pass sends to, in order: every registered
/// identity but the excluded one.
pub open spec fn targets(ids: Seq<u64>, exclude: Option<u64>) -> Seq<u64> {
    ids.filter(admits(exclude))
}

/// Holds of the entries whose identity is not among `failed`.
pub open spec fn spared<T>(failed: Seq<u64>) -> spec_fn((u64, T)) -> bool {
    |e: (u64, T)| !failed.contains(e.0)
}

/// The entries left once every identity in `failed` is evicted.
pub open spec fn surviving<T>(entries: Seq<(u64, T)>, failed: Seq<u64>) -> Seq<(u64, T)> {
    entries.filter(spared(failed))
}

/// A point-in-time list of the identities to send to: every registered
/// identity but `exclude`, in registration order.
pub fn recipients<T>(registry: &Registry<T>, exclude: Option<u64>) -> (r: Vec<u64>)
    ensures
        r@ == targets(registry.ids(), exclude),
{
    let ids = registry.identities();
    let mut r: Vec<u64> = Vec::new();
    let mut i: usize = 0;
    while i < ids.len()
        invariant
            i <= ids@.len(),
            ids@ == registry.ids(),
            r@ == targets(ids@.subrange(0, i as int), exclude),
        decreases ids@.len() - i,
    {
        let id = ids[i];
        let keep = match exclude {
            Some(x) => x != id,
            None => true,
        };
        if keep {
            r.push(id);
        }
        proof {
            assert(ids@.subrange(0, i + 1) =~= ids@.subrange(0, i as int).push(id));
            ids@.subrange(0, i as int).lemma_filter_push(id, admits(exclude));
        }
        i = i + 1;
    }
    assert(ids@.subrange(0, ids@.len() as int) =~= ids@);
    r
}

/// Removes, in one batch, every connection whose identity is in `failed`.
/// Identities that are no longer registered are passed over.
pub fn evict<T>(registry: &mut Registry<T>, failed: &Vec<u64>)
    requires
        old(registry).wf(),
    ensures
        final(registry).wf(),
        final(registry)@ == surviving(old(registry)@, failed@),
        final(registry).next_identity() == old(registry).next_identity(),
{
    let ghost start = registry@;
    let mut k: usize = 0;
    assert(start.filter(spared::<T>(failed@.subrange(0, 0))) == start) by {
        crate::seq_facts::lemma_filter_keeps_all(start, spared::<T>(failed@.subrange(0, 0)));
    }
    while k < failed.len()
        invariant
            k <= failed@.len(),
            registry.wf(),
            registry@ == surviving(start, failed@.subrange(0, k as int)),
            registry.next_identity() == old(registry).next_identity(),
            start == old(registry)@,
        decreases failed@.len() - k,
    {
        let id = failed[k];
        let ghost before = registry@;
        registry.remove(id);
        proof {
            let done = failed@.subrange(0, k as int);
            let next = failed@.subrange(0, k + 1);
            assert(next =~= done.push(id));
            assert forall|e: (u64, T)| #[trigger] (spared::<T>(next))(e) == ((spared::<T>(done))(
                e,
            ) && (other_than::<T>(id))(e)) by {
                if done.contains(e.0) {
                    let j = choose|j: int| 0 <= j < done.len() && done[j] == e.0;
                    assert(next[j] == e.0);
                }
                if next.contains(e.0) && e.0 != id {
                    let j = choose|j: int| 0 <= j < next.len() && next[j] == e.0;
                    assert(j < done.len());
                    assert(done[j] == e.0);
                }
                if e.0 == id {
                    assert(next[k as int] == id);
                }
            }
            lemma_filter_twice(start, spared::<T>(done), other_than::<T>(id), spared::<T>(next));
        }
        k = k + 1;
    }
    assert(failed@.subrange(0, failed@.len() as int) =~= failed@);
}

} // verus!

verus! {

/// One broadcast pass, driven by the caller: it hands out the recipients of a
/// snapshot one at a time, takes back whether each send went through, and at
/// the end evicts every recipient whose send failed, in one batch.
pub struct BroadcastPass {
    targets: Vec<u64>,
    attempted: usize,
    failed: Vec<u64>,
}

impl BroadcastPass {
    /// The recipients of this pass, in the order they are handed out.
    pub closed spec fn recipients(&self) -> Seq<u64> {
        self.targets@
    }

    /// How many recipients have had a send attempted.
    pub closed spec fn attempted(&self) -> nat {
        self.attempted as nat
    }

    /// The recipients whose send failed, in the order they were reported.
    pub closed spec fn failed(&self) -> Seq<u64> {
        self.failed@
    }

    /// No recipient is attempted twice, and only attempted ones have failed.
    pub open spec fn wf(&self) -> bool {
        &&& self.attempted() <= self.recipients().len()
        &&& forall|k: int|
            0 <= k < self.failed().len() ==> self.recipients().subrange(
                0,
                self.attempted() as int,
            ).contains(#[trigger] self.failed()[k])
    }

    /// Starts a pass over a snapshot of `registry`, skipping `exclude`.
    pub fn begin<T>(registry: &Registry<T>, exclude: Option<u64>) -> (pass: Self)
        ensures
            pass.wf(),
            pass.recipients() == targets(registry.ids(), exclude),
            pass.attempted() == 0,
            pass.failed() == Seq::<u64>::empty(),
    {
        BroadcastPass { targets: recipients(registry, exclude), attempted: 0, failed: Vec::new() }
    }

    /// The recipient to send to next, or `None` once every one was attempted.
    pub fn next_recipient(&self) -> (r: Option<u64>)
        requires
            self.wf(),
        ensures
            r == (if self.attempted() < self.recipients().len() {
                Some(self.recipients()[self.attempted() as int])
            } else {
                None
            }),
    {
        if self.attempted < self.targets.len() {
            Some(self.targets[self.attempted])
        } else {
            None
        }
    }

    /// Whether every recipient has had its send attempted.
    pub fn is_done(&self) -> (b: bool)
        requires
            self.wf(),
        ensures
            b == (self.attempted() == self.recipients().len()),
    {
        self.attempted == self.targets.len()
    }

    /// Records the outcome of the send to the current recipient and moves on.
    pub fn record(&mut self, delivered: bool)
        requires
            old(self).wf(),
            old(self).attempted() < old(self).recipients().len(),
        ensures
            final(self).wf(),
            final(self).recipients() == old(self).recipients(),
            final(self).attempted() == old(self).attempted() + 1,
            final(self).failed() == (if delivered {
                old(self).failed()
            } else {
                old(self).failed().push(old(self).recipients()[old(self).attempted() as int])
            }),
    {
        let id = self.targets[self.attempted];
        assert(self.attempted < self.targets.len());
        if !delivered {
            self.failed.push(id);
        }
        self.attempted = self.attempted + 1;
        proof {
            let all = self.recipients();
            let before = all.subrange(0, old(self).attempted() as int);
            let after = all.subrange(0, self.attempted() as int);
            assert forall|k: int| 0 <= k < self.failed().len() implies after.contains(
                #[trigger] self.failed()[k],
            ) by {
                if k < old(self).failed().len() {
                    assert(self.failed()[k] == old(self).failed()[k]);
                    assert(before.contains(old(self).failed()[k]));
                    let j = choose|j: int| 0 <= j < before.len() && before[j] == old(self).failed()[k];
                    assert(after[j] == before[j]);
                } else {
                    assert(after[old(self).attempted() as int] == id);
                }
            }
        }
    }

    /// Ends the pass: every recipient whose send failed leaves the registry.
    pub fn finish<T>(self, registry: &mut Registry<T>)
        requires
            old(registry).wf(),
        ensures
            final(registry).wf(),
            final(registry)@ == surviving(old(registry)@, self.failed()),
            final(registry).next_identity() == old(registry).next_identity(),
    {
        evict(registry, &self.failed);
    }
}

} // verus!
