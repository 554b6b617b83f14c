//! The flow table: which flow ids are in use, and in what state.
//!
//! A slot never goes backwards. `Requested` becomes `Established` once, on
//! the peer's first `Acknowledge`; every slot ends by being removed.

use std::collections::HashMap;
use vstd::prelude::*;

verus! {

broadcast use vstd::std_specs::hash::group_hash_axioms;

/// The state of one flow id.
#[derive(Clone, Copy, Debug, PartialEq, Eq, Structural)]
pub enum FlowSlot {
    /// We sent `Connect` and wait for the peer's `Acknowledge`. The number
    /// is the caller's reply handle.
    Requested(u64),
    /// Both sides agreed; bytes flow. The number is the key of the stream's
    /// shared state.
    Established(usize),
    /// We sent `Bind` and wait for `Finish` (bound) or `Reset` (refused).
    /// The number is the caller's reply handle.
    BindRequested(u64),
}

impl FlowSlot {
    /// Turns a `Requested` slot into `Established(stream)` and hands out the
    /// reply handle that was waiting. Any other slot is left as it is.
    pub fn establish(&mut self, stream: usize) -> (reply: Option<u64>)
        ensures
            match *old(self) {
                FlowSlot::Requested(r) => reply == Some(r) && *final(self) == FlowSlot::Established(
                    stream,
                ),
                _ => reply is None && *final(self) == *old(self),
            },
    {
        match *self {
            FlowSlot::Requested(r) => {
                *self = FlowSlot::Established(stream);
                Some(r)
            },
            _ => None,
        }
    }
}

/// The first of `candidates` that may name a new flow in `flows`: not zero,
/// and not in use. `candidates.len()` where there is none.
pub open spec fn first_free(flows: Map<u32, FlowSlot>, candidates: Seq<u32>) -> int
    decreases candidates.len(),
{
    if candidates.len() == 0 {
        0
    } else if candidates[0] != 0 && !flows.contains_key(candidates[0]) {
        0
    } else {
        1 + first_free(flows, candidates.skip(1))
    }
}

/// `first_free` is an index into `candidates` or its length; what it points
/// at is free, and nothing before it is.
pub proof fn lemma_first_free(flows: Map<u32, FlowSlot>, candidates: Seq<u32>)
    ensures
        0 <= first_free(flows, candidates) <= candidates.len(),
        first_free(flows, candidates) < candidates.len() ==> {
            let c = candidates[first_free(flows, candidates)];
            c != 0 && !flows.contains_key(c)
        },
        forall|i: int|
            0 <= i < first_free(flows, candidates) ==> candidates[i] == 0 || flows.contains_key(
                #[trigger] candidates[i],
            ),
    decreases candidates.len(),
{
    if candidates.len() == 0 {
    } else if candidates[0] != 0 && !flows.contains_key(candidates[0]) {
    } else {
        let rest = candidates.skip(1);
        lemma_first_free(flows, rest);
        assert forall|i: int| 0 <= i < first_free(flows, candidates) implies candidates[i] == 0
            || flows.contains_key(#[trigger] candidates[i]) by {
            if i > 0 {
                assert(candidates[i] == rest[i - 1]);
            }
        }
    }
}

/// The map from flow id to slot.
pub struct FlowTable {
    slots: HashMap<u32, FlowSlot>,
}

impl View for FlowTable {
    type V = Map<u32, FlowSlot>;

    closed spec fn view(&self) -> Map<u32, FlowSlot> {
        self.slots@
    }
}

impl FlowTable {
    /// An empty table.
    pub fn new() -> (table: FlowTable)
        ensures
            table@ == Map::<u32, FlowSlot>::empty(),
    {
        FlowTable { slots: HashMap::new() }
    }

    /// The slot of `id`, if the id is in use.
    pub fn get(&self, id: u32) -> (slot: Option<FlowSlot>)
        ensures
            slot == if self@.contains_key(id) {
                Some(self@[id])
            } else {
                None
            },
    {
        match self.slots.get(&id) {
            Some(slot) => Some(*slot),
            None => None,
        }
    }

    /// Whether `id` is in use.
    pub fn contains(&self, id: u32) -> (used: bool)
        ensures
            used == self@.contains_key(id),
    {
        self.slots.contains_key(&id)
    }

    /// How many flows are in the table.
    pub fn len(&self) -> (n: usize)
        ensures
            n == self@.len(),
    {
        self.slots.len()
    }

    /// Puts `id` into the table as `Requested(reply)`. Fails, and changes
    /// nothing, exactly when the id is in use.
    pub fn insert_requested(&mut self, id: u32, reply: u64) -> (inserted: bool)
        ensures
            inserted == !old(self)@.contains_key(id),
            inserted ==> final(self)@ == old(self)@.insert(id, FlowSlot::Requested(reply)),
            !inserted ==> final(self)@ == old(self)@,
    {
        if self.slots.contains_key(&id) {
            false
        } else {
            self.slots.insert(id, FlowSlot::Requested(reply));
            true
        }
    }

    /// Puts `slot` under the first candidate that is neither zero nor in
    /// use, and returns that id. Returns `None`, and changes nothing, where
    /// every candidate is taken.
    pub fn allocate(&mut self, candidates: &[u32], slot: FlowSlot) -> (id: Option<u32>)
        ensures
            ({
                let at = first_free(old(self)@, candidates@);
                if at < candidates@.len() {
                    &&& id == Some(candidates@[at])
                    &&& final(self)@ == old(self)@.insert(candidates@[at], slot)
                } else {
                    &&& id is None
                    &&& final(self)@ == old(self)@
                }
            }),
    {
        let mut i: usize = 0;
        assert(candidates@.skip(0) =~= candidates@);
        while i < candidates.len()
            invariant
                i <= candidates@.len(),
                *self == *old(self),
                first_free(self@, candidates@) == i + first_free(self@, candidates@.skip(i as int)),
            decreases candidates@.len() - i,
        {
            let c = candidates[i];
            let ghost rest = candidates@.skip(i as int);
            assert(rest[0] == c);
            assert(rest.skip(1) =~= candidates@.skip(i + 1));
            if c != 0 && !self.slots.contains_key(&c) {
                self.slots.insert(c, slot);
                return Some(c);
            }
            i += 1;
        }
        assert(candidates@.skip(i as int).len() == 0);
        None
    }

    /// Puts `id` into the table as `Requested(reply)`, choosing the id
    /// among `candidates` as [`FlowTable::allocate`] does.
    pub fn allocate_requested(&mut self, candidates: &[u32], reply: u64) -> (id: Option<u32>)
        ensures
            ({
                let at = first_free(old(self)@, candidates@);
                if at < candidates@.len() {
                    &&& id == Some(candidates@[at])
                    &&& final(self)@ == old(self)@.insert(
                        candidates@[at],
                        FlowSlot::Requested(reply),
                    )
                } else {
                    &&& id is None
                    &&& final(self)@ == old(self)@
                }
            }),
    {
        self.allocate(candidates, FlowSlot::Requested(reply))
    }

    /// Puts `id` into the table as `Established(stream)`, over whatever the
    /// id held.
    pub fn insert_established(&mut self, id: u32, stream: usize)
        ensures
            final(self)@ == old(self)@.insert(id, FlowSlot::Established(stream)),
    {
        self.slots.insert(id, FlowSlot::Established(stream));
    }

    /// Moves the slot of `id` from `Requested` to `Established(stream)` and
    /// returns the reply handle that was waiting. Where the id is not in
    /// use, or its slot is not `Requested`, nothing changes and `None`
    /// comes back.
    pub fn establish(&mut self, id: u32, stream: usize) -> (reply: Option<u64>)
        ensures
            match old(self)@.get(id) {
                Some(FlowSlot::Requested(r)) => {
                    &&& reply == Some(r)
                    &&& final(self)@ == old(self)@.insert(id, FlowSlot::Established(stream))
                },
                _ => reply is None && final(self)@ == old(self)@,
            },
    {
        let mut slot = match self.slots.get(&id) {
            Some(slot) => *slot,
            None => {
                return None;
            },
        };
        let reply = slot.establish(stream);
        if reply.is_some() {
            self.slots.insert(id, slot);
        }
        reply
    }

    /// Takes `id` out of the table and returns the slot it held.
    pub fn remove(&mut self, id: u32) -> (slot: Option<FlowSlot>)
        ensures
            slot == old(self)@.get(id),
            final(self)@ == old(self)@.remove(id),
    {
        self.slots.remove(&id)
    }

    /// Empties the table.
    pub fn clear(&mut self)
        ensures
            final(self)@ == Map::<u32, FlowSlot>::empty(),
    {
        self.slots.clear();
    }
}

} // verus!
