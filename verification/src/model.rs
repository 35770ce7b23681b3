//! The lease table as mathematics.
//!
//! A table is a sequence of leases, one per identifier, and a lease duration.
//! A lease is `None` while its identifier is free and `Some(t)` once it was
//! granted or renewed at time `t`. The operations of the table are total
//! functions on this model; the executable table is proved to follow them.

use vstd::prelude::*;

verus! {

/// What a lease table holds: `leases[id]` is the lease of identifier `id`,
/// `duration` the number of seconds a lease stays valid without renewal.
#[verifier::ext_equal]
pub struct TableModel {
    pub leases: Seq<Option<nat>>,
    pub duration: nat,
}

impl TableModel {
    /// A table of `size` identifiers, all free.
    pub open spec fn fresh(size: nat, duration: nat) -> TableModel {
        TableModel { leases: Seq::new(size, |id: int| None::<nat>), duration }
    }

    /// The number of identifiers.
    pub open spec fn size(self) -> nat {
        self.leases.len()
    }

    /// Whether `id` is an identifier of this table.
    pub open spec fn has_id(self, id: int) -> bool {
        0 <= id < self.leases.len()
    }

    /// Whether `id` is an identifier of this table that nobody holds.
    pub open spec fn is_free(self, id: int) -> bool {
        self.has_id(id) && self.leases[id] is None
    }

    /// Whether some identifier is free.
    pub open spec fn has_free(self) -> bool {
        exists|id: int| self.is_free(id)
    }

    /// The timestamp that the slot of `id` shows: the time of its last grant
    /// or renewal, and 0 while it is free.
    pub open spec fn stamp(self, id: int) -> nat {
        match self.leases[id] {
            Some(t) => t,
            None => 0,
        }
    }

    /// Whether the deadline of `id`, its timestamp plus the duration, lies
    /// strictly before `now`. Renewal goes by this test alone.
    pub open spec fn lapsed(self, id: int, now: nat) -> bool {
        self.stamp(id) + self.duration < now
    }

    /// Whether reclamation at `now` takes `id` back: it is leased, its
    /// timestamp is not 0, and its deadline lies strictly before `now`.
    pub open spec fn expired(self, id: int, now: nat) -> bool {
        &&& self.leases[id] is Some
        &&& self.stamp(id) != 0
        &&& self.lapsed(id, now)
    }

    /// The table after reclamation at `now`: every expired lease is gone,
    /// every other slot is as it was.
    pub open spec fn reclaimed(self, now: nat) -> TableModel {
        TableModel {
            leases: Seq::new(
                self.leases.len(),
                |id: int|
                    if self.expired(id, now) {
                        None
                    } else {
                        self.leases[id]
                    },
            ),
            duration: self.duration,
        }
    }

    /// Whether every lease carries a timestamp other than 0, the mark of a
    /// slot never granted.
    pub open spec fn all_stamped(self) -> bool {
        forall|id: int| self.has_id(id) && self.leases[id] is Some ==> self.stamp(id) != 0
    }

    /// Whether `id` is free and every identifier above it is leased.
    pub open spec fn is_highest_free(self, id: int) -> bool {
        &&& self.is_free(id)
        &&& forall|above: int| id < above < self.leases.len() ==> self.leases[above] is Some
    }

    /// The highest free identifier, if any is free.
    pub open spec fn highest_free(self) -> Option<int> {
        if exists|id: int| self.is_highest_free(id) {
            Some(choose|id: int| self.is_highest_free(id))
        } else {
            None
        }
    }

    /// The table once `id` has been granted or renewed at `now`.
    pub open spec fn granted(self, id: int, now: nat) -> TableModel {
        TableModel { leases: self.leases.update(id, Some(now)), duration: self.duration }
    }

    /// The identifier that an acquire at `now` grants: the highest one that
    /// is free after reclamation. `None` when the table is exhausted.
    pub open spec fn acquire_choice(self, now: nat) -> Option<int> {
        self.reclaimed(now).highest_free()
    }

    /// The table after an acquire at `now`.
    pub open spec fn after_acquire(self, now: nat) -> TableModel {
        match self.acquire_choice(now) {
            Some(id) => self.reclaimed(now).granted(id, now),
            None => self.reclaimed(now),
        }
    }

    /// Whether a renewal of `id` at `now` finds the lease gone and turns into
    /// an acquire: after reclamation, the deadline of `id` lies strictly
    /// before `now`.
    pub open spec fn renew_falls_back(self, id: int, now: nat) -> bool {
        self.reclaimed(now).lapsed(id, now)
    }

    /// The identifier that a renewal of `id` at `now` hands out, for an `id`
    /// of this table: `id` itself while its lease holds, else what an acquire
    /// grants.
    pub open spec fn renew_choice(self, id: int, now: nat) -> Option<int> {
        if self.renew_falls_back(id, now) {
            self.reclaimed(now).acquire_choice(now)
        } else {
            Some(id)
        }
    }

    /// The table after a renewal of `id` at `now`. An `id` outside the table
    /// leaves it untouched.
    pub open spec fn after_renew(self, id: int, now: nat) -> TableModel {
        if !self.has_id(id) {
            self
        } else if self.renew_falls_back(id, now) {
            self.reclaimed(now).after_acquire(now)
        } else {
            self.reclaimed(now).granted(id, now)
        }
    }

    /// Two highest free identifiers of one table are the same.
    pub proof fn lemma_highest_free_unique(self, a: int, b: int)
        requires
            self.is_highest_free(a),
            self.is_highest_free(b),
        ensures
            a == b,
    {
    }

    /// `highest_free` names the one identifier that is free with none free
    /// above it.
    pub proof fn lemma_highest_free_is(self, id: int)
        requires
            self.is_highest_free(id),
        ensures
            self.highest_free() == Some(id),
    {
        let chosen = choose|c: int| self.is_highest_free(c);
        self.lemma_highest_free_unique(chosen, id);
    }

    /// Where a free identifier exists below `bound`, and all from `bound` on
    /// are leased, there is a highest free one.
    proof fn lemma_highest_free_below(self, id: int, bound: int)
        requires
            self.is_free(id),
            id < bound <= self.leases.len(),
            forall|above: int| bound <= above < self.leases.len() ==> self.leases[above] is Some,
        ensures
            self.highest_free() is Some,
            id <= self.highest_free().unwrap() < bound,
            self.is_highest_free(self.highest_free().unwrap()),
        decreases bound - id,
    {
        if self.leases[bound - 1] is None {
            self.lemma_highest_free_is(bound - 1);
        } else {
            self.lemma_highest_free_below(id, bound - 1);
        }
    }

    /// Some identifier is free exactly when there is a highest free one, and
    /// that one is free and not below any other free identifier.
    pub proof fn lemma_highest_free(self)
        ensures
            self.highest_free() is Some <==> self.has_free(),
            self.highest_free() matches Some(top) ==> self.is_highest_free(top),
            forall|id: int|
                self.is_free(id) ==> self.highest_free() is Some && id
                    <= self.highest_free().unwrap(),
    {
        assert forall|id: int| self.is_free(id) implies self.highest_free() is Some && id
            <= self.highest_free().unwrap() by {
            self.lemma_highest_free_below(id, self.leases.len() as int);
        }
    }

    /// Reclaiming twice at one time is reclaiming once.
    pub proof fn lemma_reclaimed_twice(self, now: nat)
        ensures
            self.reclaimed(now).reclaimed(now) == self.reclaimed(now),
    {
    }

    /// Where reclamation at `now` leaves no identifier free, it changed
    /// nothing.
    pub proof fn lemma_exhausted_unchanged(self, now: nat)
        requires
            !self.reclaimed(now).has_free(),
        ensures
            self.reclaimed(now) == self,
    {
        assert forall|id: int| 0 <= id < self.leases.len() implies self.reclaimed(now).leases[id]
            == self.leases[id] by {
            if self.expired(id, now) {
                assert(self.reclaimed(now).is_free(id));
            }
        }
    }
}

} // verus!
