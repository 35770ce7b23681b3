//! A two-slot table with a lease of ten seconds, followed call by call.

use coordinator::{ErrorKind, LeaseSlot, LeaseTable, Response, Status};

#[test]
fn two_slots_are_granted_then_exhausted() {
    let mut table = LeaseTable::new(2, 10);

    let first = table.acquire(0).expect("a fresh table has a free slot");
    assert_eq!(first.ts, 0);
    assert_eq!(first.re_ts, 10);
    assert!(first.id < 2);

    let second = table.acquire(1).expect("one slot is still free");
    assert_eq!(second.ts, 1);
    assert_eq!(second.re_ts, 11);
    assert!(second.id < 2);
    assert_ne!(first.id, second.id);

    assert_eq!(table.acquire(2), Err(ErrorKind::Exhausted));
}

#[test]
fn two_slots_highest_identifier_goes_first() {
    let mut table = LeaseTable::new(2, 10);
    assert_eq!(table.acquire(0), Ok(Response { id: 1, ts: 0, re_ts: 10 }));
    assert_eq!(table.acquire(1), Ok(Response { id: 0, ts: 1, re_ts: 11 }));
}

#[test]
fn renewal_past_the_deadline_finds_the_table_exhausted() {
    let mut table = LeaseTable::new(2, 10);
    let first = table.acquire(0).unwrap();
    let second = table.acquire(1).unwrap();
    assert_eq!(table.acquire(2), Err(ErrorKind::Exhausted));

    // The deadline of the first lease, 0 + 10, lies before 11, so the renewal
    // turns into an acquire. Nothing can be reclaimed: the first lease is
    // stamped 0, and the second one runs until 11.
    assert_eq!(table.renew(first.id, 11), Err(ErrorKind::Exhausted));
    assert_eq!(
        table.slot(first.id),
        Some(LeaseSlot { id: first.id, status: Status::Leased, last_timestamp: 0 })
    );
    assert_eq!(
        table.slot(second.id),
        Some(LeaseSlot { id: second.id, status: Status::Leased, last_timestamp: 1 })
    );
}

#[test]
fn renewal_long_after_the_deadline_is_granted_anew() {
    let mut table = LeaseTable::new(2, 10);
    let first = table.acquire(0).unwrap();
    let second = table.acquire(1).unwrap();
    assert_eq!(table.acquire(2), Err(ErrorKind::Exhausted));
    assert_eq!(table.renew(first.id, 11), Err(ErrorKind::Exhausted));

    // At 20 the lease granted at 1 has expired and is reclaimed; the lease
    // stamped 0 is not. The renewal falls back to an acquire, which grants
    // the only slot that is free.
    let again = table.renew(first.id, 20).expect("a slot was reclaimed");
    assert_eq!(again.ts, 20);
    assert_eq!(again.re_ts, 30);
    assert_eq!(again.id, second.id);
    assert_eq!(
        table.slot(second.id),
        Some(LeaseSlot { id: second.id, status: Status::Leased, last_timestamp: 20 })
    );
    assert_eq!(
        table.slot(first.id),
        Some(LeaseSlot { id: first.id, status: Status::Leased, last_timestamp: 0 })
    );
}

#[test]
fn renewal_after_expiry_gets_the_same_identifier_back_when_it_is_the_only_free_one() {
    let mut table = LeaseTable::new(2, 10);
    let first = table.acquire(5).unwrap();
    let second = table.acquire(6).unwrap();
    assert_eq!(table.acquire(7), Err(ErrorKind::Exhausted));

    // The second holder renews in time, the first one does not.
    assert_eq!(
        table.renew(second.id, 15),
        Ok(Response { id: second.id, ts: 15, re_ts: 25 })
    );
    assert_eq!(
        table.renew(first.id, 25),
        Ok(Response { id: first.id, ts: 25, re_ts: 35 })
    );
}
