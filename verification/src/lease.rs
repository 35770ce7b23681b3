//! The plain data of the coordinator: slots, responses and errors.

use vstd::prelude::*;

verus! {

/// A worker identifier. It is also the position of its slot in the table.
pub type WorkerId = u16;

/// Seconds since the epoch.
pub type Timestamp = u64;

/// The timestamp of a slot that holds no lease. A lease granted at this very
/// second cannot be told from "never granted", and is never reclaimed.
pub const NEVER_GRANTED: Timestamp = 0;

/// Whether a slot's identifier is available or lent out.
#[derive(Clone, Copy, Debug, PartialEq, Eq, Structural)]
pub enum Status {
    /// The identifier is available for granting.
    Free,
    /// The identifier is lent to a worker.
    Leased,
}

/// The record of one identifier.
#[derive(Clone, Copy, Debug, PartialEq, Eq, Structural)]
pub struct LeaseSlot {
    /// The identifier; equal to the slot's position in its table.
    pub id: WorkerId,
    /// Free or leased.
    pub status: Status,
    /// Time of the last grant or renewal; `NEVER_GRANTED` while free.
    pub last_timestamp: Timestamp,
}

/// What a worker is told when it is granted or has renewed an identifier.
#[derive(Clone, Copy, Debug, PartialEq, Eq, Structural)]
pub struct Response {
    /// Worker id of the requester.
    pub id: WorkerId,
    /// Time of the grant.
    pub ts: Timestamp,
    /// Last accepted time of renewal, before the id is given out again.
    pub re_ts: Timestamp,
}

/// Why a request was turned down.
#[derive(Clone, Copy, Debug, PartialEq, Eq, Structural)]
pub enum ErrorKind {
    /// No identifier is free, even after reclaiming the expired ones.
    Exhausted,
    /// The identifier lies outside the table.
    NotFound,
}

impl LeaseSlot {
    /// The lease this slot records: `None` while free, else the time of the
    /// last grant or renewal.
    pub open spec fn lease(self) -> Option<nat> {
        match self.status {
            Status::Free => None,
            Status::Leased => Some(self.last_timestamp as nat),
        }
    }

    /// A slot in the state in which every slot starts.
    pub fn free(id: WorkerId) -> (slot: LeaseSlot)
        ensures
            slot.id == id,
            slot.status == Status::Free,
            slot.last_timestamp == NEVER_GRANTED,
            slot.lease() == None::<nat>,
    {
        LeaseSlot { id, status: Status::Free, last_timestamp: NEVER_GRANTED }
    }

    /// The slot of `id` as a grant or renewal at `now` leaves it.
    pub fn leased(id: WorkerId, now: Timestamp) -> (slot: LeaseSlot)
        ensures
            slot.id == id,
            slot.status == Status::Leased,
            slot.last_timestamp == now,
            slot.lease() == Some(now as nat),
    {
        LeaseSlot { id, status: Status::Leased, last_timestamp: now }
    }

    /// Whether the deadline of this slot, its timestamp plus `duration`, lies
    /// strictly before `now`. The sum is never formed, so it cannot overflow.
    pub fn lapsed(&self, duration: Timestamp, now: Timestamp) -> (gone: bool)
        ensures
            gone == (self.last_timestamp + duration < now),
    {
        now > self.last_timestamp && now - self.last_timestamp > duration
    }

    /// Whether reclamation at `now` takes this slot back: it is leased, it
    /// does not show the timestamp of a slot never granted, and its deadline
    /// lies strictly before `now`.
    pub fn expired(&self, duration: Timestamp, now: Timestamp) -> (gone: bool)
        ensures
            gone == (self.status == Status::Leased && self.last_timestamp != NEVER_GRANTED
                && self.last_timestamp + duration < now),
    {
        match self.status {
            Status::Free => false,
            Status::Leased => self.last_timestamp != NEVER_GRANTED && self.lapsed(duration, now),
        }
    }
}

} // verus!
