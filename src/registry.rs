use vstd::prelude::*;
use crate::seq_facts::{lemma_filter_drops_one, lemma_filter_keeps_all};

verus! {

/// The identities of a sequence of registry entries, in order.
pub open spec fn ids_of<T>(entries: Seq<(u64, T)>) -> Seq<u64> {
    entries.map_values(|e: (u64, T)| e.0)
}

/// Holds of the entries whose identity is not `id`.
pub open spec fn other_than<T>(id: u64) -> spec_fn((u64, T)) -> bool {
    |e: (u64, T)| e.0 != id
}

/// The entries that remain once identity `id` is removed.
pub open spec fn without<T>(entries: Seq<(u64, T)>, id: u64) -> Seq<(u64, T)> {
    entries.filter(other_than(id))
}

/// The set of live connections: each entry pairs a unique identity with the
/// connection's send handle. Identities are handed out in increasing order and
/// never reused.
pub struct Registry<T> {
    entries: Vec<(u64, T)>,
    next_id: u64,
}

impl<T> Registry<T> {
    /// The entries, in registration order.
    pub closed spec fn view(&self) -> Seq<(u64, T)> {
        self.entries@
    }

    /// The identity that the next registration will hand out.
    pub closed spec fn next_identity(&self) -> u64 {
        self.next_id
    }

    /// The identities of the live connections, in registration order.
    pub open spec fn ids(&self) -> Seq<u64> {
        ids_of(self@)
    }

    /// Identities are unique, and all lie below the next one to be handed out.
    pub open spec fn wf(&self) -> bool {
        &&& forall|i: int, j: int|
            0 <= i < j < self@.len() ==> #[trigger] self@[i].0 != #[trigger] self@[j].0
        &&& forall|i: int| 0 <= i < self@.len() ==> #[trigger] self@[i].0 < self.next_identity()
    }

    /// An empty registry.
    pub fn new() -> (r: Self)
        ensures
            r.wf(),
            r@ == Seq::<(u64, T)>::empty(),
            r.next_identity() == 0,
    {
        Registry { entries: Vec::new(), next_id: 0 }
    }

    /// Adds a connection's send handle and returns its new identity.
    pub fn register(&mut self, handle: T) -> (id: u64)
        requires
            old(self).wf(),
            old(self).next_identity() < u64::MAX,
        ensures
            final(self).wf(),
            id == old(self).next_identity(),
            !old(self).ids().contains(id),
            final(self)@ == old(self)@.push((id, handle)),
            final(self).next_identity() == old(self).next_identity() + 1,
    {
        let id = self.next_id;
        self.entries.push((id, handle));
        self.next_id = id + 1;
        proof {
            if old(self).ids().contains(id) {
                let k = choose|k: int| 0 <= k < old(self).ids().len() && old(self).ids()[k] == id;
                assert(old(self)@[k].0 == id);
            }
        }
        id
    }

    /// The identity that the next registration will hand out.
    pub fn next_id(&self) -> (r: u64)
        ensures
            r == self.next_identity(),
    {
        self.next_id
    }

    /// The number of live connections.
    pub fn len(&self) -> (n: usize)
        ensures
            n == self@.len(),
    {
        self.entries.len()
    }

    /// Whether no connection is registered.
    pub fn is_empty(&self) -> (b: bool)
        ensures
            b == (self@.len() == 0),
    {
        self.entries.len() == 0
    }

    /// The position of identity `id` in the registry, if it is registered.
    pub fn position(&self, id: u64) -> (r: Option<usize>)
        requires
            self.wf(),
        ensures
            r matches Some(i) ==> i < self@.len() && self@[i as int].0 == id,
            r is None <==> !self.ids().contains(id),
    {
        let mut i: usize = 0;
        while i < self.entries.len()
            invariant
                i <= self.entries@.len(),
                self.entries@ == self@,
                forall|k: int| 0 <= k < i ==> #[trigger] self@[k].0 != id,
            decreases self.entries@.len() - i,
        {
            if self.entries[i].0 == id {
                assert(self.ids()[i as int] == id);
                return Some(i);
            }
            i = i + 1;
        }
        proof {
            if self.ids().contains(id) {
                let k = choose|k: int| 0 <= k < self.ids().len() && self.ids()[k] == id;
                assert(self@[k].0 == id);
            }
        }
        None
    }

    /// Whether identity `id` is registered.
    pub fn contains(&self, id: u64) -> (b: bool)
        requires
            self.wf(),
        ensures
            b == self.ids().contains(id),
    {
        self.position(id).is_some()
    }

    /// The identities of the live connections, in registration order.
    pub fn identities(&self) -> (r: Vec<u64>)
        ensures
            r@ == self.ids(),
    {
        let mut r: Vec<u64> = Vec::new();
        let mut i: usize = 0;
        while i < self.entries.len()
            invariant
                i <= self.entries@.len(),
                self.entries@ == self@,
                r@ == ids_of(self@.subrange(0, i as int)),
            decreases self.entries@.len() - i,
        {
            r.push(self.entries[i].0);
            assert(ids_of(self@.subrange(0, i + 1)) =~= ids_of(self@.subrange(0, i as int)).push(
                self@[i as int].0,
            ));
            i = i + 1;
        }
        assert(self@.subrange(0, self@.len() as int) =~= self@);
        r
    }

    /// The send handle at position `i`, for the caller to use in place.
    pub fn handle_mut(&mut self, i: usize) -> (h: &mut T)
        requires
            i < old(self)@.len(),
        ensures
            *h == old(self)@[i as int].1,
            final(self)@ == old(self)@.update(i as int, (old(self)@[i as int].0, *final(h))),
            final(self).next_identity() == old(self).next_identity(),
    {
        &mut self.entries[i].1
    }

    /// Removes the connection with identity `id`, if there is one, and hands
    /// back its send handle. Removing an absent identity changes nothing.
    pub fn remove(&mut self, id: u64) -> (gone: Option<T>)
        requires
            old(self).wf(),
        ensures
            final(self).wf(),
            final(self)@ == without(old(self)@, id),
            final(self).next_identity() == old(self).next_identity(),
            gone is Some <==> old(self).ids().contains(id),
            !old(self).ids().contains(id) ==> final(self)@ == old(self)@,
            !final(self).ids().contains(id),
    {
        let pos = self.position(id);
        let ghost before = self@;
        match pos {
            Some(i) => {
                let (_, handle) = self.entries.remove(i);
                proof {
                    assert forall|k: int| 0 <= k < before.len() && k != i implies (other_than::<
                        T,
                    >(id))(before[k]) by {
                        if k < i {
                            assert(before[k].0 != before[i as int].0);
                        } else {
                            assert(before[i as int].0 != before[k].0);
                        }
                    }
                    lemma_filter_drops_one(before, other_than::<T>(id), i as int);
                    if self.ids().contains(id) {
                        let k = choose|k: int| 0 <= k < self.ids().len() && self.ids()[k] == id;
                        assert(self@[k].0 == id);
                        if k < i {
                            assert(before[k].0 == id);
                        } else {
                            assert(before[k + 1].0 == id);
                        }
                    }
                    assert(before[i as int].0 == id);
                    assert(old(self).ids()[i as int] == id);
                }
                Some(handle)
            },
            None => {
                proof {
                    assert forall|k: int| 0 <= k < before.len() implies before[k].0 != id by {
                        assert(old(self).ids()[k] == before[k].0);
                    }
                    lemma_filter_keeps_all(before, other_than::<T>(id));
                }
                None
            },
        }
    }
}

} // verus!

verus! {

/// Filtering entries by a test on their identity filters their identities.
pub proof fn lemma_ids_of_filter<T>(
    s: Seq<(u64, T)>,
    p: spec_fn((u64, T)) -> bool,
    q: spec_fn(u64) -> bool,
)
    requires
        forall|e: (u64, T)| #[trigger] p(e) == q(e.0),
    ensures
        ids_of(s.filter(p)) == ids_of(s).filter(q),
    decreases s.len(),
{
    reveal(Seq::filter);
    if s.len() > 0 {
        lemma_ids_of_filter(s.drop_last(), p, q);
        assert(ids_of(s.drop_last()) =~= ids_of(s).drop_last());
        let f = s.drop_last().filter(p);
        assert(ids_of(f.push(s.last())) =~= ids_of(f).push(s.last().0));
    }
}

} // verus!
