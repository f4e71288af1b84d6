use vstd::prelude::*;
use crate::codec::{be_value, envelope_bytes, Envelope};
use crate::errors::ErrorKind;
use crate::pending::{accepts, PendingTable};

verus! {

/// The bookkeeping side of the connection to the validator: it frames
/// outbound requests under fresh correlation identifiers and routes each
/// inbound reply to the one request that is waiting for it.
pub struct ValidatorClient {
    table: PendingTable,
}

impl ValidatorClient {
    pub closed spec fn table(&self) -> PendingTable {
        self.table
    }

    pub open spec fn wf(&self) -> bool {
        self.table().wf()
    }

    pub fn new() -> (r: Self)
        ensures
            r.wf(),
            r.table().slots() == Map::<u64, Option<Vec<u8>>>::empty(),
    {
        ValidatorClient { table: PendingTable::new() }
    }

    /// Registers a request and frames it: the correlation identifier and the
    /// bytes to transmit. Fails only once every identifier has been used.
    pub fn send(&mut self, message_type: u16, payload: Vec<u8>) -> (r: Option<(u64, Vec<u8>)>)
        requires
            old(self).wf(),
        ensures
            final(self).wf(),
            r is None <==> old(self).table().next_id() == u64::MAX,
            r is None ==> final(self).table() == old(self).table(),
            r matches Some((id, wire)) ==> {
                &&& id == old(self).table().next_id()
                &&& !old(self).table().slots().contains_key(id)
                &&& final(self).table().slots() == old(self).table().slots().insert(id, None)
                &&& final(self).table().next_id() == old(self).table().next_id() + 1
                &&& wire@ == envelope_bytes(message_type, id, payload@)
            },
    {
        match self.table.register() {
            None => None,
            Some(id) => {
                let envelope = Envelope { message_type, correlation_id: id, payload };
                Some((id, envelope.encode()))
            },
        }
    }

    /// Routes one inbound message. Returns whether it was delivered: a message
    /// too short to frame, or whose identifier has no empty slot, is discarded.
    pub fn receive(&mut self, wire: &[u8]) -> (r: bool)
        requires
            old(self).wf(),
        ensures
            final(self).wf(),
            final(self).table().next_id() == old(self).table().next_id(),
            wire@.len() < 10 ==> !r && final(self).table().slots() == old(self).table().slots(),
            wire@.len() >= 10 ==> ({
                let id = be_value(wire@.subrange(2, 10));
                &&& id <= u64::MAX
                &&& r == accepts(old(self).table().slots(), id as u64)
                &&& r ==> final(self).table().slots() == old(self).table().slots().insert(
                    id as u64,
                    final(self).table().slots()[id as u64],
                )
                &&& r ==> (final(self).table().slots()[id as u64] matches Some(p) && p@
                    == wire@.subrange(10, wire@.len() as int))
                &&& !r ==> final(self).table().slots() == old(self).table().slots()
            }),
    {
        match Envelope::decode(wire) {
            Err(_) => false,
            Ok(envelope) => self.table.deliver(envelope.correlation_id, envelope.payload),
        }
    }

    /// One step of waiting for the reply to `id`; see `PendingTable::poll_reply`.
    pub fn poll_reply(&mut self, id: u64, elapsed: u64, timeout: u64, connected: bool) -> (r:
        Result<Option<Vec<u8>>, ErrorKind>)
        requires
            old(self).wf(),
        ensures
            final(self).wf(),
            final(self).table().next_id() == old(self).table().next_id(),
            !connected ==> r == Err::<Option<Vec<u8>>, ErrorKind>(ErrorKind::TransportError)
                && final(self).table().slots() == Map::<u64, Option<Vec<u8>>>::empty(),
            connected && !old(self).table().slots().contains_key(id) ==> r == Err::<
                Option<Vec<u8>>,
                ErrorKind,
            >(ErrorKind::TransportError) && final(self).table().slots() == old(
                self,
            ).table().slots(),
            connected && old(self).table().slots().contains_key(id)
                && old(self).table().slots()[id] is Some ==> r == Ok::<Option<Vec<u8>>, ErrorKind>(
                old(self).table().slots()[id],
            ) && final(self).table().slots() == old(self).table().slots().remove(id),
            connected && accepts(old(self).table().slots(), id) && elapsed >= timeout ==> r
                == Err::<Option<Vec<u8>>, ErrorKind>(ErrorKind::Timeout)
                && final(self).table().slots() == old(self).table().slots().remove(id),
            connected && accepts(old(self).table().slots(), id) && elapsed < timeout ==> r
                == Ok::<Option<Vec<u8>>, ErrorKind>(None) && final(self).table().slots() == old(
                self,
            ).table().slots(),
    {
        self.table.poll_reply(id, elapsed, timeout, connected)
    }

    /// Fails every outstanding request: the connection was lost.
    pub fn disconnect(&mut self)
        requires
            old(self).wf(),
        ensures
            final(self).wf(),
            final(self).table().next_id() == old(self).table().next_id(),
            final(self).table().slots() == Map::<u64, Option<Vec<u8>>>::empty(),
    {
        self.table.fail_all();
    }
}

} // verus!
