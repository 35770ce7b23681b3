//! The executable lease table.

use crate::lease::{ErrorKind, LeaseSlot, Response, Status, Timestamp, WorkerId, NEVER_GRANTED};
use crate::model::TableModel;
use vstd::prelude::*;

verus! {

/// The largest number of identifiers a table can hold: all values of a
/// `WorkerId`.
pub const MAX_IDENTIFIER_SPACE_SIZE: usize = 65536;

/// The number of identifiers of a table in its usual setup.
pub const DEFAULT_IDENTIFIER_SPACE_SIZE: usize = 65536;

/// The number of seconds a lease lasts in the usual setup.
pub const DEFAULT_LEASE_DURATION: Timestamp = 600;

/// A fixed set of lease slots, one per identifier, and the duration of a
/// lease. All slots start free; `acquire` and `renew` lend them out, and both
/// first take back the leases that have expired.
pub struct LeaseTable {
    slots: Vec<LeaseSlot>,
    lease_duration: Timestamp,
}

impl View for LeaseTable {
    type V = TableModel;

    closed spec fn view(&self) -> TableModel {
        TableModel {
            leases: Seq::new(self.slots@.len(), |id: int| self.slots@[id].lease()),
            duration: self.lease_duration as nat,
        }
    }
}

impl Default for LeaseTable {
    /// The table in its usual setup: every `WorkerId` is an identifier, and a
    /// lease lasts `DEFAULT_LEASE_DURATION` seconds.
    fn default() -> (table: LeaseTable)
        ensures
            table@ == TableModel::fresh(
                DEFAULT_IDENTIFIER_SPACE_SIZE as nat,
                DEFAULT_LEASE_DURATION as nat,
            ),
    {
        LeaseTable::new(DEFAULT_IDENTIFIER_SPACE_SIZE, DEFAULT_LEASE_DURATION)
    }
}

impl LeaseTable {
    /// Every slot sits at the position of its identifier, and a free slot
    /// shows the timestamp of a slot that was never granted.
    #[verifier::type_invariant]
    spec fn well_formed(self) -> bool {
        &&& self.slots@.len() <= MAX_IDENTIFIER_SPACE_SIZE
        &&& forall|id: int|
            0 <= id < self.slots@.len() ==> {
                &&& (#[trigger] self.slots@[id]).id == id
                &&& (self.slots@[id].status == Status::Free ==> self.slots@[id].last_timestamp
                    == NEVER_GRANTED)
            }
    }

    /// A table of `size` identifiers, `0` to `size - 1`, all free.
    pub fn new(size: usize, lease_duration: Timestamp) -> (table: LeaseTable)
        requires
            size <= MAX_IDENTIFIER_SPACE_SIZE,
        ensures
            table@ == TableModel::fresh(size as nat, lease_duration as nat),
    {
        let mut slots: Vec<LeaseSlot> = Vec::new();
        let mut next: usize = 0;
        while next < size
            invariant
                next <= size <= MAX_IDENTIFIER_SPACE_SIZE,
                slots@.len() == next,
                forall|id: int|
                    0 <= id < next ==> (#[trigger] slots@[id]) == (LeaseSlot {
                        id: id as WorkerId,
                        status: Status::Free,
                        last_timestamp: NEVER_GRANTED,
                    }),
            decreases size - next,
        {
            slots.push(LeaseSlot::free(next as WorkerId));
            next = next + 1;
        }
        LeaseTable { slots, lease_duration }
    }

    /// The number of identifiers.
    pub fn capacity(&self) -> (size: usize)
        ensures
            size == self@.size(),
            size <= MAX_IDENTIFIER_SPACE_SIZE,
    {
        proof {
            use_type_invariant(self);
        }
        self.slots.len()
    }

    /// The number of seconds a lease stays valid without renewal.
    pub fn lease_duration(&self) -> (duration: Timestamp)
        ensures
            duration == self@.duration,
    {
        self.lease_duration
    }

    /// Writes `slot` at the position of its identifier.
    fn store(&mut self, slot: LeaseSlot)
        requires
            slot.id < old(self).slots@.len(),
            slot.status == Status::Free ==> slot.last_timestamp == NEVER_GRANTED,
        ensures
            final(self).slots@ == old(self).slots@.update(slot.id as int, slot),
            final(self).lease_duration == old(self).lease_duration,
    {
        proof {
            use_type_invariant(&*self);
        }
        let mut slots: Vec<LeaseSlot> = Vec::new();
        std::mem::swap(&mut slots, &mut self.slots);
        slots.set(slot.id as usize, slot);
        self.slots = slots;
    }

    /// Takes back every lease that has expired at `now`: each leased slot
    /// whose timestamp is not 0 and whose deadline lies strictly before `now`
    /// becomes free again. Nothing else changes.
    pub fn reclaim_expired(&mut self, now: Timestamp)
        ensures
            final(self)@ == old(self)@.reclaimed(now as nat),
    {
        proof {
            use_type_invariant(&*self);
        }
        let size = self.slots.len();
        let mut next: usize = 0;
        while next < size
            invariant
                next <= size,
                size == self.slots@.len(),
                size == old(self).slots@.len(),
                self.lease_duration == old(self).lease_duration,
                old(self).well_formed(),
                forall|id: int|
                    0 <= id < next ==> (#[trigger] self.slots@[id]).lease() == old(
                        self,
                    )@.reclaimed(now as nat).leases[id],
                forall|id: int|
                    next <= id < size ==> #[trigger] self.slots@[id] == old(self).slots@[id],
            decreases size - next,
        {
            let slot = self.slots[next];
            if slot.expired(self.lease_duration, now) {
                self.store(LeaseSlot::free(slot.id));
            }
            next = next + 1;
        }
    }

    /// Grants an identifier at `now`. Expired leases are taken back first;
    /// then the highest free identifier is lent out, with `now` as its
    /// timestamp. Where none is free the table is exhausted, and stays as it
    /// was.
    pub fn acquire(&mut self, now: Timestamp) -> (outcome: Result<Response, ErrorKind>)
        requires
            now + old(self)@.duration <= u64::MAX,
        ensures
            final(self)@ == old(self)@.after_acquire(now as nat),
            match outcome {
                Ok(response) => {
                    &&& old(self)@.acquire_choice(now as nat) == Some(response.id as int)
                    &&& response.ts == now
                    &&& response.re_ts == now + old(self)@.duration
                },
                Err(error) => {
                    &&& error == ErrorKind::Exhausted
                    &&& old(self)@.acquire_choice(now as nat) is None
                    &&& final(self)@ == old(self)@
                },
            },
    {
        self.reclaim_expired(now);
        proof {
            use_type_invariant(&*self);
        }
        let ghost swept = self@;
        let mut above: usize = self.slots.len();
        while above > 0
            invariant
                above <= self.slots@.len(),
                self.well_formed(),
                self@ == swept,
                swept == old(self)@.reclaimed(now as nat),
                now + self.lease_duration <= u64::MAX,
                forall|id: int| above <= id < self.slots@.len() ==> swept.leases[id] is Some,
            decreases above,
        {
            above = above - 1;
            let slot = self.slots[above];
            match slot.status {
                Status::Free => {
                    proof {
                        swept.lemma_highest_free_is(above as int);
                    }
                    self.store(LeaseSlot::leased(slot.id, now));
                    return Ok(Response { id: slot.id, ts: now, re_ts: now + self.lease_duration });
                },
                Status::Leased => {},
            }
        }
        proof {
            swept.lemma_highest_free();
            old(self)@.lemma_exhausted_unchanged(now as nat);
        }
        Err(ErrorKind::Exhausted)
    }

    /// Renews the lease of `id` at `now`. Expired leases are taken back
    /// first. While the deadline of `id` has not passed, its slot is stamped
    /// with `now` and `id` is confirmed. Once it has passed, the caller holds
    /// no lease any more and is served as by `acquire`, so the identifier
    /// handed out may differ from `id`. An `id` outside the table is refused
    /// and nothing changes.
    pub fn renew(&mut self, id: WorkerId, now: Timestamp) -> (outcome: Result<
        Response,
        ErrorKind,
    >)
        requires
            now + old(self)@.duration <= u64::MAX,
        ensures
            final(self)@ == old(self)@.after_renew(id as int, now as nat),
            match outcome {
                Ok(response) => {
                    &&& old(self)@.has_id(id as int)
                    &&& old(self)@.renew_choice(id as int, now as nat) == Some(response.id as int)
                    &&& response.ts == now
                    &&& response.re_ts == now + old(self)@.duration
                },
                Err(ErrorKind::NotFound) => !old(self)@.has_id(id as int),
                Err(ErrorKind::Exhausted) => {
                    &&& old(self)@.has_id(id as int)
                    &&& old(self)@.renew_choice(id as int, now as nat) is None
                },
            },
            outcome is Err ==> final(self)@ == old(self)@,
    {
        if id as usize >= self.slots.len() {
            return Err(ErrorKind::NotFound);
        }
        self.reclaim_expired(now);
        proof {
            use_type_invariant(&*self);
        }
        let slot = self.slots[id as usize];
        if slot.lapsed(self.lease_duration, now) {
            let ghost swept = self@;
            let outcome = self.acquire(now);
            proof {
                if outcome is Err {
                    old(self)@.lemma_reclaimed_twice(now as nat);
                    swept.lemma_highest_free();
                    old(self)@.lemma_exhausted_unchanged(now as nat);
                }
            }
            outcome
        } else {
            self.store(LeaseSlot::leased(id, now));
            Ok(Response { id, ts: now, re_ts: now + self.lease_duration })
        }
    }

    /// The slot of `id`, if the table has one.
    pub fn slot(&self, id: WorkerId) -> (found: Option<LeaseSlot>)
        ensures
            match found {
                Some(slot) => {
                    &&& self@.has_id(id as int)
                    &&& slot.id == id
                    &&& slot.lease() == self@.leases[id as int]
                    &&& slot.last_timestamp == self@.stamp(id as int)
                },
                None => !self@.has_id(id as int),
            },
    {
        proof {
            use_type_invariant(self);
        }
        if (id as usize) < self.slots.len() {
            Some(self.slots[id as usize])
        } else {
            None
        }
    }
}

} // verus!
