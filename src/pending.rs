use vstd::prelude::*;
use std::collections::HashMap;
use crate::errors::ErrorKind;

verus! {

broadcast use vstd::std_specs::hash::group_hash_axioms;

/// Whether a reply for `id` would be accepted: the slot exists and is still empty.
pub open spec fn accepts(m: Map<u64, Option<Vec<u8>>>, id: u64) -> bool {
    m.contains_key(id) && m[id] is None
}

/// Whether every outstanding identifier lies below `next`.
pub open spec fn ids_below(m: Map<u64, Option<Vec<u8>>>, next: nat) -> bool {
    forall|id: u64| #[trigger] m.contains_key(id) ==> id < next
}

/// The table of requests sent to the validator and not yet answered: each
/// correlation identifier maps to a single-use reply slot.
pub struct PendingTable {
    next_id: u64,
    slots: HashMap<u64, Option<Vec<u8>>>,
}

impl PendingTable {
    /// The outstanding slots: `None` while waiting, `Some` once a reply came.
    pub closed spec fn slots(&self) -> Map<u64, Option<Vec<u8>>> {
        self.slots@
    }

    /// The identifier the next registration hands out.
    pub closed spec fn next_id(&self) -> nat {
        self.next_id as nat
    }

    /// Every outstanding identifier was handed out earlier, so lies below the next one.
    pub open spec fn wf(&self) -> bool {
        ids_below(self.slots(), self.next_id())
    }

    pub fn new() -> (r: Self)
        ensures
            r.wf(),
            r.slots() == Map::<u64, Option<Vec<u8>>>::empty(),
            r.next_id() == 0,
    {
        PendingTable { next_id: 0, slots: HashMap::new() }
    }

    /// Allocates a fresh correlation identifier with an empty reply slot.
    /// Fails only once every 64-bit identifier has been used.
    pub fn register(&mut self) -> (r: Option<u64>)
        requires
            old(self).wf(),
        ensures
            final(self).wf(),
            r is None <==> old(self).next_id() == u64::MAX,
            r is None ==> *final(self) == *old(self),
            r matches Some(id) ==> {
                &&& id == old(self).next_id()
                &&& !old(self).slots().contains_key(id)
                &&& final(self).slots() == old(self).slots().insert(id, None)
                &&& final(self).next_id() == old(self).next_id() + 1
            },
    {
        if self.next_id == u64::MAX {
            return None;
        }
        let id = self.next_id;
        self.slots.insert(id, None);
        self.next_id = id + 1;
        Some(id)
    }

    /// Whether `id` is still outstanding.
    pub fn is_pending(&self, id: u64) -> (r: bool)
        ensures
            r == self.slots().contains_key(id),
    {
        self.slots.contains_key(&id)
    }

    /// Routes a reply to the slot of its correlation identifier. A reply whose
    /// identifier is unknown, or whose slot already holds a reply, is discarded.
    pub fn deliver(&mut self, id: u64, payload: Vec<u8>) -> (r: bool)
        requires
            old(self).wf(),
        ensures
            final(self).wf(),
            final(self).next_id() == old(self).next_id(),
            r == accepts(old(self).slots(), id),
            r ==> final(self).slots() == old(self).slots().insert(id, Some(payload)),
            !r ==> final(self).slots() == old(self).slots(),
    {
        let empty = match self.slots.get(&id) {
            Some(slot) => slot.is_none(),
            None => false,
        };
        if empty {
            self.slots.insert(id, Some(payload));
        }
        empty
    }

    /// Takes the reply of `id` if it has come, freeing the slot.
    pub fn take_reply(&mut self, id: u64) -> (r: Option<Vec<u8>>)
        requires
            old(self).wf(),
        ensures
            final(self).wf(),
            final(self).next_id() == old(self).next_id(),
            r matches Some(p) ==> old(self).slots().contains_key(id) && old(self).slots()[id]
                == Some(p) && final(self).slots() == old(self).slots().remove(id),
            r is None ==> !(old(self).slots().contains_key(id) && old(self).slots()[id] is Some)
                && final(self).slots() == old(self).slots(),
    {
        let ready = match self.slots.get(&id) {
            Some(slot) => slot.is_some(),
            None => false,
        };
        if !ready {
            return None;
        }
        match self.slots.remove(&id) {
            Some(slot) => slot,
            None => None,
        }
    }

    /// Removes the slot of `id` (its caller gave up waiting); a reply that
    /// comes for it later is discarded.
    pub fn cancel(&mut self, id: u64) -> (r: bool)
        requires
            old(self).wf(),
        ensures
            final(self).wf(),
            final(self).next_id() == old(self).next_id(),
            r == old(self).slots().contains_key(id),
            final(self).slots() == old(self).slots().remove(id),
    {
        let r = self.slots.remove(&id);
        assert(final(self).slots() =~= old(self).slots().remove(id));
        r.is_some()
    }

    /// Drops every outstanding slot: the connection to the validator was lost.
    /// Identifiers stay used, so none is handed out twice.
    pub fn fail_all(&mut self)
        requires
            old(self).wf(),
        ensures
            final(self).wf(),
            final(self).next_id() == old(self).next_id(),
            final(self).slots() == Map::<u64, Option<Vec<u8>>>::empty(),
    {
        self.slots.clear();
    }

    /// One step of waiting for the reply of `id`: the reply if it has come,
    /// `TransportError` if the connection is down or the slot was failed,
    /// `Timeout` (and the slot removed) once `elapsed` reaches `timeout`,
    /// and `Ok(None)` to go on waiting.
    pub fn poll_reply(&mut self, id: u64, elapsed: u64, timeout: u64, connected: bool) -> (r:
        Result<Option<Vec<u8>>, ErrorKind>)
        requires
            old(self).wf(),
        ensures
            final(self).wf(),
            final(self).next_id() == old(self).next_id(),
            !connected ==> r == Err::<Option<Vec<u8>>, ErrorKind>(ErrorKind::TransportError)
                && final(self).slots() == Map::<u64, Option<Vec<u8>>>::empty(),
            connected && !old(self).slots().contains_key(id) ==> r == Err::<
                Option<Vec<u8>>,
                ErrorKind,
            >(ErrorKind::TransportError) && final(self).slots() == old(self).slots(),
            connected && old(self).slots().contains_key(id) && old(self).slots()[id] is Some ==> r
                == Ok::<Option<Vec<u8>>, ErrorKind>(old(self).slots()[id]) && final(self).slots()
                == old(self).slots().remove(id),
            connected && accepts(old(self).slots(), id) && elapsed >= timeout ==> r == Err::<
                Option<Vec<u8>>,
                ErrorKind,
            >(ErrorKind::Timeout) && final(self).slots() == old(self).slots().remove(id),
            connected && accepts(old(self).slots(), id) && elapsed < timeout ==> r == Ok::<
                Option<Vec<u8>>,
                ErrorKind,
            >(None) && final(self).slots() == old(self).slots(),
    {
        if !connected {
            self.fail_all();
            return Err(ErrorKind::TransportError);
        }
        if !self.is_pending(id) {
            return Err(ErrorKind::TransportError);
        }
        match self.take_reply(id) {
            Some(p) => Ok(Some(p)),
            None => {
                if elapsed >= timeout {
                    self.cancel(id);
                    Err(ErrorKind::Timeout)
                } else {
                    Ok(None)
                }
            },
        }
    }
}

/// Identifiers are never handed out twice: of two registrations, the later
/// one (with any operations in between, none of which lowers the counter)
/// gets a strictly larger identifier, and a fresh identifier is never one
/// that is still outstanding.
pub proof fn lemma_ids_never_repeat(
    m1: Map<u64, Option<Vec<u8>>>,
    next1: nat,
    id1: u64,
    m2: Map<u64, Option<Vec<u8>>>,
    next2: nat,
    id2: u64,
)
    requires
        ids_below(m1, next1),
        id1 == next1,
        next1 + 1 <= next2,
        ids_below(m2, next2),
        id2 == next2,
    ensures
        id1 < id2,
        !m1.contains_key(id1),
        !m2.contains_key(id2),
        ids_below(m2.insert(id2, None), next2 + 1),
{
}

/// A slot takes at most one reply, and a slot removed by a timeout (or a
/// lost connection) never takes one afterwards.
pub proof fn lemma_reply_at_most_once(m: Map<u64, Option<Vec<u8>>>, id: u64, p: Vec<u8>)
    ensures
        !accepts(m.insert(id, Some(p)), id),
        !accepts(m.remove(id), id),
        !accepts(Map::<u64, Option<Vec<u8>>>::empty(), id),
        forall|other: u64| other != id ==> #[trigger] accepts(m.insert(id, Some(p)), other)
            == accepts(m, other),
{
}

} // verus!
