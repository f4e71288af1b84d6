use vstd::prelude::*;
use std::collections::HashMap;
use crate::compare::bytes_equal;
use crate::errors::ErrorKind;

verus! {

broadcast use vstd::std_specs::hash::group_hash_axioms;

/// A log record emitted in a block.
pub struct LogEntry {
    pub block_number: u64,
    pub address: Vec<u8>,
    pub topics: Vec<Vec<u8>>,
    pub data: Vec<u8>,
}

/// What a filter asks for: entries from one of `addresses` (any address when
/// empty) whose topics match `topics` position by position (`None` matches anything).
pub struct FilterCriteria {
    pub addresses: Vec<Vec<u8>>,
    pub topics: Vec<Option<Vec<u8>>>,
}

/// A stored filter: its criteria and the last block already delivered.
pub struct Filter {
    pub criteria: FilterCriteria,
    pub cursor: u64,
}

pub open spec fn address_matches(c: FilterCriteria, e: LogEntry) -> bool {
    c.addresses@.len() == 0 || exists|i: int|
        0 <= i < c.addresses@.len() && #[trigger] c.addresses@[i]@ == e.address@
}

pub open spec fn topic_matches(want: Option<Vec<u8>>, k: int, e: LogEntry) -> bool {
    match want {
        None => true,
        Some(t) => k < e.topics@.len() && e.topics@[k]@ == t@,
    }
}

pub open spec fn topics_match(c: FilterCriteria, e: LogEntry) -> bool {
    forall|k: int| 0 <= k < c.topics@.len() ==> #[trigger] topic_matches(c.topics@[k], k, e)
}

/// Whether `e` lies in blocks `(from, to]` and meets the criteria.
pub open spec fn entry_selected(c: FilterCriteria, e: LogEntry, from: u64, to: u64) -> bool {
    from < e.block_number <= to && address_matches(c, e) && topics_match(c, e)
}

/// The positions, in order, of the entries of `logs` that `entry_selected` keeps.
pub open spec fn selected_positions(c: FilterCriteria, logs: Seq<LogEntry>, from: u64, to: u64) -> Seq<
    usize,
>
    decreases logs.len(),
{
    if logs.len() == 0 {
        Seq::empty()
    } else {
        let rest = selected_positions(c, logs.drop_last(), from, to);
        if entry_selected(c, logs.last(), from, to) {
            rest.push((logs.len() - 1) as usize)
        } else {
            rest
        }
    }
}

/// The range a poll covers: from the cursor (exclusive) to the head
/// (inclusive), empty when the head is not past the cursor.
pub open spec fn poll_range(cursor: u64, head: u64) -> (u64, u64) {
    if head > cursor {
        (cursor, head)
    } else {
        (cursor, cursor)
    }
}

/// Whether `e` meets the address and topic criteria.
pub fn matches_criteria(c: &FilterCriteria, e: &LogEntry) -> (r: bool)
    ensures
        r == (address_matches(*c, *e) && topics_match(*c, *e)),
{
    let mut found = c.addresses.len() == 0;
    let mut i: usize = 0;
    while i < c.addresses.len() && !found
        invariant
            i <= c.addresses@.len(),
            found == (c.addresses@.len() == 0 || exists|j: int|
                0 <= j < i && #[trigger] c.addresses@[j]@ == e.address@),
        decreases c.addresses@.len() - i,
    {
        if bytes_equal(c.addresses[i].as_slice(), e.address.as_slice()) {
            found = true;
        }
        i = i + 1;
    }
    if !found {
        assert(!address_matches(*c, *e));
        return false;
    }
    let mut k: usize = 0;
    while k < c.topics.len()
        invariant
            k <= c.topics@.len(),
            forall|j: int| 0 <= j < k ==> #[trigger] topic_matches(c.topics@[j], j, *e),
        decreases c.topics@.len() - k,
    {
        match &c.topics[k] {
            None => {},
            Some(t) => {
                if k >= e.topics.len() {
                    assert(!topic_matches(c.topics@[k as int], k as int, *e));
                    return false;
                }
                if !bytes_equal(e.topics[k].as_slice(), t.as_slice()) {
                    assert(!topic_matches(c.topics@[k as int], k as int, *e));
                    return false;
                }
            },
        }
        k = k + 1;
    }
    true
}

/// The positions of the entries of `logs` in blocks `(from, to]` that meet the criteria.
pub fn select_logs(c: &FilterCriteria, logs: &[LogEntry], from: u64, to: u64) -> (r: Vec<usize>)
    ensures
        r@ == selected_positions(*c, logs@, from, to),
{
    let mut out: Vec<usize> = Vec::new();
    let mut i: usize = 0;
    while i < logs.len()
        invariant
            i <= logs@.len(),
            out@ == selected_positions(*c, logs@.subrange(0, i as int), from, to),
        decreases logs@.len() - i,
    {
        let e = &logs[i];
        let keep = from < e.block_number && e.block_number <= to && matches_criteria(c, e);
        let ghost pre = logs@.subrange(0, i + 1);
        assert(pre.drop_last() =~= logs@.subrange(0, i as int));
        assert(pre.last() == logs@[i as int]);
        if keep {
            out.push(i);
        }
        i = i + 1;
    }
    assert(logs@.subrange(0, logs@.len() as int) =~= logs@);
    out
}

/// The filters clients have created, each under its own identifier.
pub struct FilterRegistry {
    next_id: u64,
    filters: HashMap<u64, Filter>,
}

impl FilterRegistry {
    pub closed spec fn filters(&self) -> Map<u64, Filter> {
        self.filters@
    }

    pub closed spec fn next_id(&self) -> nat {
        self.next_id as nat
    }

    /// Every stored identifier was handed out earlier.
    pub open spec fn wf(&self) -> bool {
        forall|id: u64| #[trigger] self.filters().contains_key(id) ==> id < self.next_id()
    }

    pub fn new() -> (r: Self)
        ensures
            r.wf(),
            r.filters() == Map::<u64, Filter>::empty(),
    {
        FilterRegistry { next_id: 0, filters: HashMap::new() }
    }

    /// Stores a new filter whose cursor starts at the current head `head`.
    /// Fails only once every 64-bit identifier has been used.
    pub fn create(&mut self, criteria: FilterCriteria, head: u64) -> (r: Option<u64>)
        requires
            old(self).wf(),
        ensures
            final(self).wf(),
            r is None <==> old(self).next_id() == u64::MAX,
            r is None ==> final(self).filters() == old(self).filters(),
            r matches Some(id) ==> {
                &&& !old(self).filters().contains_key(id)
                &&& final(self).filters() == old(self).filters().insert(
                    id,
                    (Filter { criteria, cursor: head }),
                )
            },
    {
        if self.next_id == u64::MAX {
            return None;
        }
        let id = self.next_id;
        self.filters.insert(id, Filter { criteria, cursor: head });
        self.next_id = id + 1;
        assert forall|k: u64| #[trigger] self.filters@.contains_key(k) implies k < self.next_id by {
            if k != id {
                assert(old(self).filters().contains_key(k));
            }
        }
        Some(id)
    }

    /// The criteria of filter `id`, if it exists.
    pub fn criteria(&self, id: u64) -> (r: Option<&FilterCriteria>)
        ensures
            r is Some <==> self.filters().contains_key(id),
            r matches Some(c) ==> *c == self.filters()[id].criteria,
    {
        match self.filters.get(&id) {
            Some(f) => Some(&f.criteria),
            None => None,
        }
    }

    /// Claims the blocks of filter `id` not yet delivered, up to the head
    /// `head`, as `(from, to)`: the entries to return are those in `(from, to]`.
    /// The cursor moves to `to`. An unknown filter is `NotFound`.
    pub fn poll(&mut self, id: u64, head: u64) -> (r: Result<(u64, u64), ErrorKind>)
        requires
            old(self).wf(),
        ensures
            final(self).wf(),
            r is Err <==> !old(self).filters().contains_key(id),
            r matches Err(e) ==> e == ErrorKind::NotFound && final(self).filters() == old(
                self,
            ).filters(),
            r matches Ok(range) ==> {
                &&& range == poll_range(old(self).filters()[id].cursor, head)
                &&& final(self).filters().dom() == old(self).filters().dom()
                &&& final(self).filters()[id].cursor == range.1
                &&& final(self).filters()[id].criteria == old(self).filters()[id].criteria
                &&& forall|other: u64|
                    other != id && #[trigger] old(self).filters().contains_key(other)
                        ==> final(self).filters()[other] == old(self).filters()[other]
            },
    {
        match self.filters.remove(&id) {
            None => {
                assert(self.filters@ =~= old(self).filters());
                Err(ErrorKind::NotFound)
            },
            Some(f) => {
                let from = f.cursor;
                let to = if head > from {
                    head
                } else {
                    from
                };
                self.filters.insert(id, Filter { criteria: f.criteria, cursor: to });
                assert(final(self).filters().dom() =~= old(self).filters().dom());
                assert forall|k: u64| #[trigger] self.filters@.contains_key(k) implies k
                    < self.next_id by {
                    assert(old(self).filters().contains_key(k));
                }
                Ok((from, to))
            },
        }
    }

    /// Deletes filter `id`; an unknown filter is `NotFound`.
    pub fn remove(&mut self, id: u64) -> (r: Result<(), ErrorKind>)
        requires
            old(self).wf(),
        ensures
            final(self).wf(),
            r is Ok <==> old(self).filters().contains_key(id),
            r matches Err(e) ==> e == ErrorKind::NotFound,
            final(self).filters() == old(self).filters().remove(id),
    {
        let r = self.filters.remove(&id);
        assert(final(self).filters() =~= old(self).filters().remove(id));
        match r {
            Some(_) => Ok(()),
            None => Err(ErrorKind::NotFound),
        }
    }
}

/// Two consecutive polls of one filter meet without overlap or gap: the
/// second starts where the first ended, every block past the cursor up to
/// the first head is in the first range, and no entry is selected by both.
pub proof fn lemma_polls_contiguous(c: FilterCriteria, cursor: u64, head1: u64, head2: u64, e: LogEntry)
    ensures
        ({
            let (a, b) = poll_range(cursor, head1);
            let (b2, d) = poll_range(b, head2);
            &&& a == cursor
            &&& b2 == b
            &&& a <= b <= d
            &&& head1 <= b
            &&& head2 <= d
            &&& !(entry_selected(c, e, a, b) && entry_selected(c, e, b2, d))
        }),
{
}

} // verus!
