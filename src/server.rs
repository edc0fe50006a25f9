use vstd::prelude::*;
use crate::broadcast::{BroadcastPass, surviving, targets};
use crate::registry::{Registry, without};

verus! {

/// The hub behind a server: its port and the registry of live connections,
/// each held by its send handle `T`.
pub struct WebSocketServer<T> {
    port: u16,
    clients: Registry<T>,
}

impl<T> WebSocketServer<T> {
    /// The configured port.
    pub closed spec fn port(&self) -> u16 {
        self.port
    }

    /// The registry of live connections.
    pub closed spec fn clients(&self) -> Registry<T> {
        self.clients
    }

    /// The registry is well formed.
    pub open spec fn wf(&self) -> bool {
        self.clients().wf()
    }

    /// A server for `port` with no connection yet.
    pub fn new(port: u16) -> (s: Self)
        ensures
            s.wf(),
            s.port() == port,
            s.clients()@ == Seq::<(u64, T)>::empty(),
    {
        WebSocketServer { port, clients: Registry::new() }
    }

    /// The configured port.
    pub fn get_port(&self) -> (p: u16)
        ensures
            p == self.port(),
    {
        self.port
    }

    /// The number of live connections.
    pub fn client_count(&self) -> (n: usize)
        ensures
            n == self.clients()@.len(),
    {
        self.clients.len()
    }

    /// The identities of the live connections, in registration order.
    pub fn client_ids(&self) -> (r: Vec<u64>)
        ensures
            r@ == self.clients().ids(),
    {
        self.clients.identities()
    }

    /// Registers an accepted connection by its send handle and returns its
    /// identity; `None` once every identity has been handed out.
    pub fn connect(&mut self, handle: T) -> (id: Option<u64>)
        requires
            old(self).wf(),
        ensures
            final(self).wf(),
            final(self).port() == old(self).port(),
            old(self).clients().next_identity() == u64::MAX ==> id is None && *final(self)
                == *old(self),
            old(self).clients().next_identity() < u64::MAX ==> id == Some(
                old(self).clients().next_identity(),
            ) && !old(self).clients().ids().contains(id->0) && final(self).clients()@ == old(
                self,
            ).clients()@.push((id->0, handle)),
    {
        if self.clients.next_id() == u64::MAX {
            None
        } else {
            Some(self.clients.register(handle))
        }
    }

    /// Removes connection `id` when its ingest loop ends; a no-op when it is
    /// already gone.
    pub fn disconnect(&mut self, id: u64) -> (gone: Option<T>)
        requires
            old(self).wf(),
        ensures
            final(self).wf(),
            final(self).port() == old(self).port(),
            final(self).clients()@ == without(old(self).clients()@, id),
            gone is Some <==> old(self).clients().ids().contains(id),
    {
        self.clients.remove(id)
    }

    /// Starts a broadcast pass to every live connection but `exclude`.
    pub fn begin_broadcast(&self, exclude: Option<u64>) -> (pass: BroadcastPass)
        ensures
            pass.wf(),
            pass.recipients() == targets(self.clients().ids(), exclude),
            pass.attempted() == 0,
            pass.failed() == Seq::<u64>::empty(),
    {
        BroadcastPass::begin(&self.clients, exclude)
    }

    /// The send handle of connection `id`, if it is live.
    pub fn handle_of(&mut self, id: u64) -> (h: Option<&mut T>)
        requires
            old(self).wf(),
        ensures
            h is None <==> !old(self).clients().ids().contains(id),
            h is None ==> *final(self) == *old(self),
            h matches Some(r) ==> exists|i: int|
                0 <= i < old(self).clients()@.len() && old(self).clients()@[i].0 == id && *r
                    == old(self).clients()@[i].1 && final(self).wf() && final(self).port() == old(
                    self,
                ).port() && final(self).clients()@ == old(self).clients()@.update(
                    i,
                    (id, *final(r)),
                ),
    {
        match self.clients.position(id) {
            Some(i) => Some(self.clients.handle_mut(i)),
            None => None,
        }
    }

    /// Ends a broadcast pass: evicts every recipient whose send failed.
    pub fn finish_broadcast(&mut self, pass: BroadcastPass)
        requires
            old(self).wf(),
        ensures
            final(self).wf(),
            final(self).port() == old(self).port(),
            final(self).clients()@ == surviving(old(self).clients()@, pass.failed()),
    {
        pass.finish(&mut self.clients);
    }
}

} // verus!
