//! What holds of every lease table, proved over the model.
//!
//! The executable table is tied to the model by the contracts of its
//! methods: `acquire` leaves `after_acquire` and answers with
//! `acquire_choice`, `renew` leaves `after_renew` and answers with
//! `renew_choice`. Each law below therefore speaks of every run of the
//! executable table.

use crate::model::TableModel;
use vstd::prelude::*;
use vstd::set_lib::{lemma_int_range, lemma_len_subset, set_int_range};

verus! {

/// Whether the calls made at `times`, in this order, all fall into one lease
/// window: no call comes later than `duration` after an earlier one.
pub open spec fn within_lease_window(times: Seq<nat>, duration: nat) -> bool {
    forall|earlier: int, later: int|
        0 <= earlier < later < times.len() ==> times[later] <= times[earlier] + duration
}

impl TableModel {
    /// The table after one acquire at each of `times`, in this order.
    pub open spec fn after_acquires(self, times: Seq<nat>) -> TableModel
        decreases times.len(),
    {
        if times.len() == 0 {
            self
        } else {
            self.after_acquires(times.drop_last()).after_acquire(times.last())
        }
    }

    /// What the acquire number `k` of a run of acquires at `times` grants.
    pub open spec fn nth_acquire_choice(self, times: Seq<nat>, k: int) -> Option<int> {
        self.after_acquires(times.take(k)).acquire_choice(times[k])
    }

    /// The identifiers granted by the first `count` acquires of a run at
    /// `times`.
    pub open spec fn granted_ids(self, times: Seq<nat>, count: int) -> Set<int>
        decreases count,
    {
        if count <= 0 {
            Set::empty()
        } else {
            match self.nth_acquire_choice(times, count - 1) {
                Some(id) => self.granted_ids(times, count - 1).insert(id),
                None => self.granted_ids(times, count - 1),
            }
        }
    }

    /// An acquire keeps the size and the duration of the table. What it
    /// grants was free after reclamation, with nothing free above it, and is
    /// afterwards leased since `now`; every other slot is as reclamation left
    /// it.
    pub proof fn law_acquire_step(self, now: nat)
        ensures
            self.after_acquire(now).size() == self.size(),
            self.after_acquire(now).duration == self.duration,
            self.acquire_choice(now) is Some <==> self.reclaimed(now).has_free(),
            self.acquire_choice(now) matches Some(id) ==> {
                &&& self.reclaimed(now).is_highest_free(id)
                &&& self.after_acquire(now).leases[id] == Some(now)
            },
            forall|other: int|
                self.has_id(other) && self.acquire_choice(now) != Some(other)
                    ==> #[trigger] self.after_acquire(now).leases[other] == self.reclaimed(
                    now,
                ).leases[other],
            self.acquire_choice(now) is None ==> self.after_acquire(now) == self,
    {
        self.reclaimed(now).lemma_highest_free();
        if self.acquire_choice(now) is None {
            self.lemma_exhausted_unchanged(now);
        }
    }

    /// Reclamation frees exactly the expired leases and leaves every other
    /// slot as it was; after it, no lease of the table is expired.
    pub proof fn law_reclamation(self, now: nat)
        ensures
            forall|id: int|
                self.has_id(id) ==> #[trigger] self.reclaimed(now).leases[id] == (if self.expired(
                    id,
                    now,
                ) {
                    None
                } else {
                    self.leases[id]
                }),
            forall|id: int| self.has_id(id) ==> !#[trigger] self.reclaimed(now).expired(id, now),
            self.reclaimed(now).reclaimed(now) == self.reclaimed(now),
    {
        self.lemma_reclaimed_twice(now);
    }

    /// The table keeps its size and its duration through reclamation,
    /// acquire and renewal: no slot is ever added or dropped.
    pub proof fn law_size_is_fixed(self, id: int, now: nat)
        ensures
            self.reclaimed(now).size() == self.size(),
            self.after_acquire(now).size() == self.size(),
            self.after_renew(id, now).size() == self.size(),
            self.reclaimed(now).duration == self.duration,
            self.after_acquire(now).duration == self.duration,
            self.after_renew(id, now).duration == self.duration,
    {
        self.law_acquire_step(now);
        self.reclaimed(now).law_acquire_step(now);
    }

    /// A leased slot becomes free only by expiry: where `id` is leased before
    /// an operation at `now` and free after it, its timestamp was not 0 and
    /// its deadline lay strictly before `now`.
    pub proof fn law_freed_only_by_expiry(self, id: int, renewed: int, now: nat)
        requires
            self.has_id(id),
            self.leases[id] is Some,
        ensures
            self.reclaimed(now).leases[id] is None ==> self.expired(id, now),
            self.after_acquire(now).leases[id] is None ==> self.expired(id, now),
            self.after_renew(renewed, now).leases[id] is None ==> self.expired(id, now),
    {
        self.law_acquire_step(now);
        self.reclaimed(now).law_acquire_step(now);
        self.lemma_reclaimed_twice(now);
    }

    /// A leased slot shows a real time: where every lease of the table is
    /// stamped with a time other than 0, it is still so after any operation
    /// at a time other than 0.
    pub proof fn law_leases_stay_stamped(self, id: int, now: nat)
        requires
            self.all_stamped(),
            now != 0,
        ensures
            self.reclaimed(now).all_stamped(),
            self.after_acquire(now).all_stamped(),
            self.after_renew(id, now).all_stamped(),
    {
        self.law_acquire_step(now);
        self.reclaimed(now).law_acquire_step(now);
        self.lemma_reclaimed_twice(now);
    }

    /// A run of acquires keeps the size and the duration of the table.
    pub proof fn lemma_after_acquires_size(self, times: Seq<nat>)
        ensures
            self.after_acquires(times).size() == self.size(),
            self.after_acquires(times).duration == self.duration,
        decreases times.len(),
    {
        if times.len() > 0 {
            self.lemma_after_acquires_size(times.drop_last());
            self.after_acquires(times.drop_last()).law_acquire_step(times.last());
        }
    }

    /// The table before acquire number `k + 1` of a run is the table before
    /// acquire number `k`, after that acquire.
    proof fn lemma_run_step(self, times: Seq<nat>, k: int)
        requires
            0 <= k < times.len(),
        ensures
            self.after_acquires(times.take(k + 1)) == self.after_acquires(
                times.take(k),
            ).after_acquire(times[k]),
    {
        assert(times.take(k + 1).drop_last() =~= times.take(k));
    }

    /// Within one lease window, what an acquire of a run granted stays leased
    /// with the time of that grant for the rest of the run.
    proof fn lemma_grant_survives(self, times: Seq<nat>, first: int, before: int, id: int)
        requires
            0 <= first < before <= times.len(),
            within_lease_window(times, self.duration),
            self.nth_acquire_choice(times, first) == Some(id),
        ensures
            self.has_id(id),
            self.after_acquires(times.take(before)).has_id(id),
            self.after_acquires(times.take(before)).leases[id] == Some(times[first]),
        decreases before - first,
    {
        let start = self.after_acquires(times.take(before - 1));
        self.lemma_after_acquires_size(times.take(before - 1));
        self.lemma_after_acquires_size(times.take(before));
        self.lemma_run_step(times, before - 1);
        start.law_acquire_step(times[before - 1]);
        if before - 1 > first {
            self.lemma_grant_survives(times, first, before - 1, id);
        }
    }

    /// Uniqueness. Of the acquires of one run that fall into one lease
    /// window, no two grant the same identifier.
    pub proof fn law_acquires_are_unique(self, times: Seq<nat>, first: int, second: int)
        requires
            within_lease_window(times, self.duration),
            0 <= first < second < times.len(),
            self.nth_acquire_choice(times, first) is Some,
            self.nth_acquire_choice(times, second) is Some,
        ensures
            self.nth_acquire_choice(times, first) != self.nth_acquire_choice(times, second),
    {
        let id = self.nth_acquire_choice(times, first).unwrap();
        let start = self.after_acquires(times.take(second));
        self.lemma_grant_survives(times, first, second, id);
        self.lemma_after_acquires_size(times.take(second));
        start.law_acquire_step(times[second]);
    }

    /// Where the first `count` acquires of a run within one lease window all
    /// succeed, they grant `count` different identifiers of the table.
    proof fn lemma_granted_ids(self, times: Seq<nat>, count: int)
        requires
            within_lease_window(times, self.duration),
            0 <= count <= times.len(),
            forall|k: int| 0 <= k < count ==> (#[trigger] self.nth_acquire_choice(times, k)) is Some,
        ensures
            self.granted_ids(times, count).finite(),
            self.granted_ids(times, count).len() == count,
            self.granted_ids(times, count).subset_of(set_int_range(0, self.size() as int)),
            forall|id: int| #[trigger]
                self.granted_ids(times, count).contains(id) ==> exists|k: int|
                    0 <= k < count && #[trigger] self.nth_acquire_choice(times, k) == Some(id),
        decreases count,
    {
        if count > 0 {
            self.lemma_granted_ids(times, count - 1);
            let earlier = self.granted_ids(times, count - 1);
            let id = self.nth_acquire_choice(times, count - 1).unwrap();
            if earlier.contains(id) {
                let k = choose|k: int|
                    0 <= k < count - 1 && #[trigger] self.nth_acquire_choice(times, k) == Some(id);
                self.law_acquires_are_unique(times, k, count - 1);
            }
            let start = self.after_acquires(times.take(count - 1));
            self.lemma_after_acquires_size(times.take(count - 1));
            start.law_acquire_step(times[count - 1]);
        }
    }

    /// Exhaustion. After as many successful acquires as the table has
    /// identifiers, all within one lease window, the next acquire in that
    /// window finds the table exhausted.
    pub proof fn law_exhaustion(self, times: Seq<nat>)
        requires
            within_lease_window(times, self.duration),
            times.len() == self.size() + 1,
            forall|k: int|
                0 <= k < self.size() ==> (#[trigger] self.nth_acquire_choice(times, k)) is Some,
        ensures
            self.nth_acquire_choice(times, self.size() as int) is None,
            self.after_acquires(times) == self.after_acquires(times.take(self.size() as int)),
    {
        let size = self.size() as int;
        if self.nth_acquire_choice(times, size) is Some {
            self.lemma_granted_ids(times, size + 1);
            lemma_int_range(0, size);
            lemma_len_subset(self.granted_ids(times, size + 1), set_int_range(0, size));
        }
        self.lemma_run_step(times, size);
        self.after_acquires(times.take(size)).law_acquire_step(times[size]);
    }

    /// Expiry reclamation. A lease granted at `granted_at`, a time other than
    /// 0, and not renewed since is taken back by any operation that comes
    /// more than the duration later: reclamation frees its slot, an acquire
    /// succeeds, and so does a renewal of any identifier of the table. (A
    /// lease stamped 0 cannot be told from a slot never granted and is never
    /// taken back.)
    pub proof fn law_expiry_reclamation(self, id: int, granted_at: nat, renewed: int, now: nat)
        requires
            self.has_id(id),
            self.leases[id] == Some(granted_at),
            granted_at != 0,
            now > granted_at + self.duration,
            self.has_id(renewed),
        ensures
            self.expired(id, now),
            self.reclaimed(now).is_free(id),
            self.acquire_choice(now) is Some,
            self.acquire_choice(now).unwrap() >= id,
            self.renew_choice(renewed, now) is Some,
    {
        assert(self.reclaimed(now).is_free(id));
        self.reclaimed(now).lemma_highest_free();
        self.lemma_reclaimed_twice(now);
    }

    /// Renewal extends. A renewal of a leased identifier before or at its
    /// deadline confirms that identifier and stamps its slot with `now`, so
    /// the new deadline is `now` plus the duration: later than the old one
    /// exactly when `now` is later than the old timestamp. No other slot
    /// changes but by reclamation.
    pub proof fn law_renew_extends(self, id: int, granted_at: nat, now: nat)
        requires
            self.has_id(id),
            self.leases[id] == Some(granted_at),
            now <= granted_at + self.duration,
        ensures
            self.renew_choice(id, now) == Some(id),
            self.after_renew(id, now).leases[id] == Some(now),
            self.after_renew(id, now).stamp(id) + self.duration == now + self.duration,
            now > granted_at ==> now + self.duration > granted_at + self.duration,
            forall|other: int|
                self.has_id(other) && other != id ==> #[trigger] self.after_renew(
                    id,
                    now,
                ).leases[other] == self.reclaimed(now).leases[other],
    {
    }

    /// Renewal after expiry falls back. Once the deadline of `id` lies
    /// strictly before `now`, a renewal of `id` is an acquire: it hands out
    /// what an acquire at `now` grants and leaves the table that acquire
    /// leaves. It succeeds exactly when an identifier is free after
    /// reclamation, which is so whenever the lapsed timestamp is not 0.
    pub proof fn law_renew_falls_back(self, id: int, now: nat)
        requires
            self.has_id(id),
            self.lapsed(id, now),
        ensures
            self.renew_falls_back(id, now),
            self.renew_choice(id, now) == self.acquire_choice(now),
            self.after_renew(id, now) == self.after_acquire(now),
            self.renew_choice(id, now) is Some <==> self.reclaimed(now).has_free(),
            self.stamp(id) != 0 ==> self.renew_choice(id, now) is Some,
    {
        self.lemma_reclaimed_twice(now);
        self.reclaimed(now).lemma_highest_free();
        if self.stamp(id) != 0 {
            assert(self.reclaimed(now).is_free(id));
        }
    }

    /// Whether a renewal falls back is decided by the slot as it was before
    /// reclamation: it falls back exactly when the deadline of `id` lies
    /// strictly before `now`.
    pub proof fn law_renew_decision(self, id: int, now: nat)
        requires
            self.has_id(id),
        ensures
            self.renew_falls_back(id, now) <==> self.lapsed(id, now),
    {
    }

    /// A renewal of a free identifier more than the duration after time 0 is
    /// served exactly as an acquire.
    pub proof fn law_renew_of_free_is_acquire(self, id: int, now: nat)
        requires
            self.is_free(id),
            now > self.duration,
        ensures
            self.renew_choice(id, now) == self.acquire_choice(now),
            self.renew_choice(id, now) is Some,
            self.after_renew(id, now) == self.after_acquire(now),
    {
        self.law_renew_falls_back(id, now);
        assert(self.reclaimed(now).is_free(id));
    }

    /// Sentinel integrity. A free slot shows the timestamp 0, and neither it
    /// nor a lease stamped 0 ever counts as expired. A free slot stays free
    /// and keeps the timestamp 0 through reclamation, and through an acquire
    /// or a renewal that grants another identifier.
    pub proof fn law_sentinel_integrity(self, id: int, renewed: int, now: nat)
        requires
            self.has_id(id),
            self.stamp(id) == 0,
        ensures
            !self.expired(id, now),
            self.reclaimed(now).leases[id] == self.leases[id],
            self.is_free(id) ==> self.reclaimed(now).is_free(id) && self.reclaimed(now).stamp(id)
                == 0,
            self.is_free(id) && self.acquire_choice(now) != Some(id) ==> self.after_acquire(
                now,
            ).is_free(id),
            self.is_free(id) && self.has_id(renewed) && self.renew_choice(renewed, now) != Some(id)
                ==> self.after_renew(renewed, now).is_free(id),
    {
        self.law_acquire_step(now);
        self.reclaimed(now).law_acquire_step(now);
        self.lemma_reclaimed_twice(now);
    }

    /// A table in which nothing was granted yet has every slot free with the
    /// timestamp 0, and an acquire on it grants its highest identifier.
    pub proof fn law_fresh_table(size: nat, duration: nat, now: nat)
        ensures
            forall|id: int|
                0 <= id < size ==> #[trigger] TableModel::fresh(size, duration).is_free(id)
                    && TableModel::fresh(size, duration).stamp(id) == 0,
            TableModel::fresh(size, duration).reclaimed(now) == TableModel::fresh(size, duration),
            size > 0 ==> TableModel::fresh(size, duration).acquire_choice(now) == Some(size - 1),
            size == 0 ==> TableModel::fresh(size, duration).acquire_choice(now) is None,
    {
        let fresh = TableModel::fresh(size, duration);
        if size > 0 {
            fresh.lemma_highest_free_is(size - 1);
        } else {
            fresh.lemma_highest_free();
        }
    }
}

} // verus!
