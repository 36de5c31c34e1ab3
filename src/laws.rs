use crate::error::BookingError;
use crate::model::Reservation;
use crate::init::{add_if_free, day_in_range, off_hours, seeded};
use crate::repository::{
    blackout_overlaps, has_id, insert_outcome, new_reservation, no_double_booking, owner_pred, seat_conflict,
    ReservationRepository,
};
use crate::service::{active_booking_blocks, admission_error, admission_outcome, revoke_outcome};
use crate::timeslot::{local_day, slots_overlap, TimeSlot};
use crate::validate::slot_check;
use vstd::prelude::*;

verus! {

/// A ledger whose invariant holds never has two overlapping reservations on
/// one seat. Every ledger operation keeps the invariant, so this holds at
/// every point in time.
pub proof fn lemma_ledger_never_double_booked<R: ReservationRepository>(ledger: &R)
    requires
        ledger.inv(),
    ensures
        no_double_booking(ledger.reservations()),
{
    ledger.lemma_inv();
}

/// An admission, whatever its outcome, leaves a ledger without double
/// bookings free of them.
pub proof fn lemma_admission_keeps_no_double_booking(
    ws: Seq<TimeSlot>,
    before: Seq<Reservation>,
    room: bool,
    after: Seq<Reservation>,
    user_id: i64,
    seat_id: u16,
    ts: TimeSlot,
    now: i64,
    r: Result<i64, BookingError>,
)
    requires
        no_double_booking(before),
        admission_outcome(ws, before, room, after, user_id, seat_id, ts, now, r),
    ensures
        no_double_booking(after),
{
    if admission_error(ws, before, user_id, seat_id, ts, now) is None && r is Ok {
        assert forall|i: int, j: int|
            0 <= i < after.len() && 0 <= j < after.len() && i != j && after[i].seat_id == after[j].seat_id
                implies !slots_overlap(#[trigger] after[i].timeslot, #[trigger] after[j].timeslot) by {
            if i == before.len() {
                assert(before[j].seat_id == seat_id);
            } else if j == before.len() {
                assert(before[i].seat_id == seat_id);
            } else {
                assert(after[i] == before[i] && after[j] == before[j]);
            }
        }
    }
}

/// A revocation, whatever its outcome, leaves a ledger without double
/// bookings free of them.
pub proof fn lemma_revoke_keeps_no_double_booking(
    before: Seq<Reservation>,
    after: Seq<Reservation>,
    user_id: i64,
    reservation_id: i64,
    r: Result<(), BookingError>,
)
    requires
        no_double_booking(before),
        revoke_outcome(before, after, user_id, reservation_id, r),
    ensures
        no_double_booking(after),
{
    if r is Ok {
        let k = choose|k: int|
            0 <= k < before.len() && #[trigger] before[k].reservation_id == reservation_id
                && before[k].user_id == user_id && after == before.remove(k);
        assert forall|i: int, j: int|
            0 <= i < after.len() && 0 <= j < after.len() && i != j && after[i].seat_id == after[j].seat_id
                implies !slots_overlap(#[trigger] after[i].timeslot, #[trigger] after[j].timeslot) by {
            let i2 = if i < k { i } else { i + 1 };
            let j2 = if j < k { j } else { j + 1 };
            assert(after[i] == before[i2]);
            assert(after[j] == before[j2]);
        }
    }
}

/// A request that starts before `now` is refused with `PastStart`, whatever
/// the seat, the caller, the blackout windows and the ledger, as long as the
/// slot is well formed and within one local day (those checks come first).
pub proof fn lemma_past_start_rejected(
    ws: Seq<TimeSlot>,
    rs: Seq<Reservation>,
    user_id: i64,
    seat_id: u16,
    ts: TimeSlot,
    now: i64,
)
    requires
        ts.start_time < now,
        ts.start_time <= ts.end_time,
        local_day(ts.start_time as int) == local_day(ts.end_time as int),
    ensures
        admission_error(ws, rs, user_id, seat_id, ts, now) == Some(BookingError::PastStart),
{
}

/// A well-formed request whose start and end fall on different local
/// calendar days is refused with `CrossDayInterval`, whatever the rest.
pub proof fn lemma_cross_day_rejected(
    ws: Seq<TimeSlot>,
    rs: Seq<Reservation>,
    user_id: i64,
    seat_id: u16,
    ts: TimeSlot,
    now: i64,
)
    requires
        ts.start_time <= ts.end_time,
        local_day(ts.start_time as int) != local_day(ts.end_time as int),
    ensures
        admission_error(ws, rs, user_id, seat_id, ts, now) == Some(BookingError::CrossDayInterval),
{
}

/// A request that passes the structural checks and overlaps a blackout
/// window is refused with `BlackedOut`, whatever the seat and the ledger.
pub proof fn lemma_blackout_rejected(
    ws: Seq<TimeSlot>,
    rs: Seq<Reservation>,
    user_id: i64,
    seat_id: u16,
    ts: TimeSlot,
    now: i64,
    window: int,
)
    requires
        slot_check(ts, now as int) is None,
        0 <= window < ws.len(),
        slots_overlap(ws[window], ts),
    ensures
        admission_error(ws, rs, user_id, seat_id, ts, now) == Some(BookingError::BlackedOut),
{
}

/// Adding a reservation of another user does not change whether a caller
/// holds a booking that extends into the rest of the day.
proof fn lemma_other_owner_keeps_blocks(rs: Seq<Reservation>, x: Reservation, user_id: i64, now: i64)
    requires
        x.user_id != user_id,
    ensures
        active_booking_blocks(rs.push(x), user_id, now) == active_booking_blocks(rs, user_id, now),
{
    let rs2 = rs.push(x);
    if active_booking_blocks(rs2, user_id, now) {
        let i = choose|i: int|
            0 <= i < rs2.len() && #[trigger] owner_pred(user_id, now)(rs2[i])
                && crate::service::extends_into_day(rs2[i], now as int);
        assert(i < rs.len());
        assert(rs[i] == rs2[i]);
    }
    if active_booking_blocks(rs, user_id, now) {
        let i = choose|i: int|
            0 <= i < rs.len() && #[trigger] owner_pred(user_id, now)(rs[i])
                && crate::service::extends_into_day(rs[i], now as int);
        assert(rs2[i] == rs[i]);
    }
}

/// Contending admissions: requests of distinct users for one seat, whose
/// slots overlap one another and each of which the ledger would admit on its
/// own, are handled one after the other (the ledger admits one request at a
/// time). When the store has room for the first, the first is admitted and
/// every other is refused with `Conflict`: exactly one succeeds, and the
/// ledger ends with exactly that one new reservation.
pub proof fn lemma_contending_admissions(
    ws: Seq<TimeSlot>,
    ledgers: Seq<Seq<Reservation>>,
    rooms: Seq<bool>,
    users: Seq<i64>,
    seat_id: u16,
    slots: Seq<TimeSlot>,
    now: i64,
    results: Seq<Result<i64, BookingError>>,
)
    requires
        slots.len() >= 1,
        users.len() == slots.len(),
        rooms.len() == slots.len(),
        results.len() == slots.len(),
        ledgers.len() == slots.len() + 1,
        rooms[0],
        forall|k: int|
            0 <= k < slots.len() ==> admission_outcome(
                ws,
                #[trigger] ledgers[k],
                rooms[k],
                ledgers[k + 1],
                users[k],
                seat_id,
                slots[k],
                now,
                results[k],
            ),
        forall|j: int, k: int|
            0 <= j < slots.len() && 0 <= k < slots.len() && j != k ==> slots_overlap(#[trigger] slots[j], #[trigger] slots[k])
                && users[j] != users[k],
        forall|k: int| 0 <= k < slots.len() ==> admission_error(ws, ledgers[0], #[trigger] users[k], seat_id, slots[k], now) is None,
    ensures
        results[0] is Ok,
        forall|k: int| 1 <= k < slots.len() ==> #[trigger] results[k] == Err::<i64, BookingError>(BookingError::Conflict),
        ledgers[slots.len() as int] == ledgers[0].push(new_reservation(results[0]->Ok_0, users[0], seat_id, slots[0])),
{
    let n = slots.len();
    assert(admission_outcome(ws, ledgers[0], rooms[0], ledgers[1], users[0], seat_id, slots[0], now, results[0]));
    assert(admission_error(ws, ledgers[0], users[0], seat_id, slots[0], now) is None);
    assert(results[0] is Ok);
    lemma_contending_prefix(ws, ledgers, rooms, users, seat_id, slots, now, results, n as int);
    assert forall|k: int| 1 <= k < n implies #[trigger] results[k] == Err::<i64, BookingError>(BookingError::Conflict) by {
        lemma_contending_prefix(ws, ledgers, rooms, users, seat_id, slots, now, results, k + 1);
    }
}

/// The steps behind `lemma_contending_admissions`, by induction on the number
/// of requests handled.
proof fn lemma_contending_prefix(
    ws: Seq<TimeSlot>,
    ledgers: Seq<Seq<Reservation>>,
    rooms: Seq<bool>,
    users: Seq<i64>,
    seat_id: u16,
    slots: Seq<TimeSlot>,
    now: i64,
    results: Seq<Result<i64, BookingError>>,
    k: int,
)
    requires
        1 <= k <= slots.len(),
        users.len() == slots.len(),
        rooms.len() == slots.len(),
        results.len() == slots.len(),
        ledgers.len() == slots.len() + 1,
        results[0] is Ok,
        ledgers[1] == ledgers[0].push(new_reservation(results[0]->Ok_0, users[0], seat_id, slots[0])),
        forall|m: int|
            0 <= m < slots.len() ==> admission_outcome(
                ws,
                #[trigger] ledgers[m],
                rooms[m],
                ledgers[m + 1],
                users[m],
                seat_id,
                slots[m],
                now,
                results[m],
            ),
        forall|j: int, m: int|
            0 <= j < slots.len() && 0 <= m < slots.len() && j != m ==> slots_overlap(#[trigger] slots[j], #[trigger] slots[m])
                && users[j] != users[m],
        forall|m: int| 0 <= m < slots.len() ==> admission_error(ws, ledgers[0], #[trigger] users[m], seat_id, slots[m], now) is None,
    ensures
        ledgers[k] == ledgers[1],
        forall|m: int| 1 <= m < k ==> #[trigger] results[m] == Err::<i64, BookingError>(BookingError::Conflict),
    decreases k,
{
    if k > 1 {
        lemma_contending_prefix(ws, ledgers, rooms, users, seat_id, slots, now, results, k - 1);
        let m = k - 1;
        let first = new_reservation(results[0]->Ok_0, users[0], seat_id, slots[0]);
        let l1 = ledgers[1];
        assert(admission_outcome(ws, ledgers[m], rooms[m], ledgers[m + 1], users[m], seat_id, slots[m], now, results[m]));
        assert(admission_error(ws, ledgers[0], users[m], seat_id, slots[m], now) is None);
        assert(users[0] != users[m] && slots_overlap(slots[0], slots[m]));
        lemma_other_owner_keeps_blocks(ledgers[0], first, users[m], now);
        let last = ledgers[0].len() as int;
        assert(l1[last] == first);
        assert(l1[last].seat_id == seat_id && slots_overlap(l1[last].timeslot, slots[m]));
        assert(seat_conflict(l1, seat_id, slots[m]));
        assert(admission_error(ws, l1, users[m], seat_id, slots[m], now) == Some(BookingError::Conflict));
    }
}

/// Contending insertions: insertions on one seat whose slots overlap one
/// another, none of which overlaps a reservation already on the seat, are
/// performed one after the other (each checks and writes in one step). When
/// the store has room for the first, the first succeeds and every other is
/// refused with `Conflict`, and the ledger ends with exactly that one new
/// reservation: never two successes.
pub proof fn lemma_contending_inserts(
    ledgers: Seq<Seq<Reservation>>,
    rooms: Seq<bool>,
    users: Seq<i64>,
    seat_id: u16,
    slots: Seq<TimeSlot>,
    results: Seq<Result<i64, BookingError>>,
)
    requires
        slots.len() >= 1,
        users.len() == slots.len(),
        rooms.len() == slots.len(),
        results.len() == slots.len(),
        ledgers.len() == slots.len() + 1,
        rooms[0],
        forall|k: int|
            0 <= k < slots.len() ==> insert_outcome(
                #[trigger] ledgers[k],
                rooms[k],
                ledgers[k + 1],
                users[k],
                seat_id,
                slots[k],
                results[k],
            ),
        forall|j: int, k: int|
            0 <= j < slots.len() && 0 <= k < slots.len() && j != k ==> slots_overlap(#[trigger] slots[j], #[trigger] slots[k]),
        forall|k: int| 0 <= k < slots.len() ==> !seat_conflict(ledgers[0], seat_id, #[trigger] slots[k]),
    ensures
        results[0] is Ok,
        forall|k: int| 1 <= k < slots.len() ==> #[trigger] results[k] == Err::<i64, BookingError>(BookingError::Conflict),
        ledgers[slots.len() as int] == ledgers[0].push(new_reservation(results[0]->Ok_0, users[0], seat_id, slots[0])),
{
    let n = slots.len();
    assert(insert_outcome(ledgers[0], rooms[0], ledgers[1], users[0], seat_id, slots[0], results[0]));
    assert(!seat_conflict(ledgers[0], seat_id, slots[0]));
    assert(results[0] is Ok);
    lemma_inserts_prefix(ledgers, rooms, users, seat_id, slots, results, n as int);
    assert forall|k: int| 1 <= k < n implies #[trigger] results[k] == Err::<i64, BookingError>(BookingError::Conflict) by {
        lemma_inserts_prefix(ledgers, rooms, users, seat_id, slots, results, k + 1);
    }
}

/// The steps behind `lemma_contending_inserts`, by induction.
proof fn lemma_inserts_prefix(
    ledgers: Seq<Seq<Reservation>>,
    rooms: Seq<bool>,
    users: Seq<i64>,
    seat_id: u16,
    slots: Seq<TimeSlot>,
    results: Seq<Result<i64, BookingError>>,
    k: int,
)
    requires
        1 <= k <= slots.len(),
        users.len() == slots.len(),
        rooms.len() == slots.len(),
        results.len() == slots.len(),
        ledgers.len() == slots.len() + 1,
        results[0] is Ok,
        ledgers[1] == ledgers[0].push(new_reservation(results[0]->Ok_0, users[0], seat_id, slots[0])),
        forall|m: int|
            0 <= m < slots.len() ==> insert_outcome(
                #[trigger] ledgers[m],
                rooms[m],
                ledgers[m + 1],
                users[m],
                seat_id,
                slots[m],
                results[m],
            ),
        forall|j: int, m: int|
            0 <= j < slots.len() && 0 <= m < slots.len() && j != m ==> slots_overlap(#[trigger] slots[j], #[trigger] slots[m]),
    ensures
        ledgers[k] == ledgers[1],
        forall|m: int| 1 <= m < k ==> #[trigger] results[m] == Err::<i64, BookingError>(BookingError::Conflict),
    decreases k,
{
    if k > 1 {
        lemma_inserts_prefix(ledgers, rooms, users, seat_id, slots, results, k - 1);
        let m = k - 1;
        let l1 = ledgers[1];
        assert(insert_outcome(ledgers[m], rooms[m], ledgers[m + 1], users[m], seat_id, slots[m], results[m]));
        assert(slots_overlap(slots[0], slots[m]));
        let last = ledgers[0].len() as int;
        assert(l1[last].seat_id == seat_id && slots_overlap(l1[last].timeslot, slots[m]));
        assert(seat_conflict(l1, seat_id, slots[m]));
    }
}

/// Seeding a day's off-hours twice adds nothing the second time: after the
/// first run both windows overlap a stored window, so the second run makes
/// no insertion and returns the windows unchanged.
pub proof fn lemma_seeding_twice_adds_nothing(ws: Seq<TimeSlot>, day: int)
    requires
        day_in_range(day),
    ensures
        blackout_overlaps(seeded(ws, day), off_hours(day)[0]),
        blackout_overlaps(seeded(ws, day), off_hours(day)[1]),
        seeded(seeded(ws, day), day) == seeded(ws, day),
{
    let w0 = off_hours(day)[0];
    let w1 = off_hours(day)[1];
    assert(w0.start_time < w0.end_time && w1.start_time < w1.end_time);
    let ws1 = add_if_free(ws, w0);
    if blackout_overlaps(ws, w0) {
        let i = choose|i: int| 0 <= i < ws.len() && slots_overlap(#[trigger] ws[i], w0);
        assert(slots_overlap(ws1[i], w0));
    } else {
        assert(ws1[ws.len() as int] == w0);
        assert(slots_overlap(ws1[ws.len() as int], w0));
    }
    assert(blackout_overlaps(ws1, w0));
    let ws2 = add_if_free(ws1, w1);
    let i0 = choose|i: int| 0 <= i < ws1.len() && slots_overlap(#[trigger] ws1[i], w0);
    assert(ws2[i0] == ws1[i0]);
    assert(blackout_overlaps(ws2, w0));
    if blackout_overlaps(ws1, w1) {
        let i = choose|i: int| 0 <= i < ws1.len() && slots_overlap(#[trigger] ws1[i], w1);
        assert(slots_overlap(ws2[i], w1));
    } else {
        assert(ws2[ws1.len() as int] == w1);
        assert(slots_overlap(ws2[ws1.len() as int], w1));
    }
    assert(blackout_overlaps(ws2, w1));
}

/// Ownership: a revocation by someone other than the owner is refused with
/// `Forbidden` and leaves the ledger as it was; one by the owner removes the
/// reservation, after which no reservation has that id and a second
/// revocation finds nothing (`NotFound`).
pub proof fn lemma_revoke_ownership(
    before: Seq<Reservation>,
    after: Seq<Reservation>,
    index: int,
    user_id: i64,
    r: Result<(), BookingError>,
    after_again: Seq<Reservation>,
    again_user_id: i64,
    r_again: Result<(), BookingError>,
)
    requires
        crate::repository::ids_unique(before),
        0 <= index < before.len(),
        revoke_outcome(before, after, user_id, before[index].reservation_id, r),
        revoke_outcome(after, after_again, again_user_id, before[index].reservation_id, r_again),
    ensures
        before[index].user_id != user_id ==> r == Err::<(), BookingError>(BookingError::Forbidden) && after == before,
        before[index].user_id == user_id ==> r is Ok && !has_id(after, before[index].reservation_id)
            && r_again == Err::<(), BookingError>(BookingError::NotFound),
{
    let id = before[index].reservation_id;
    assert(has_id(before, id));
    if before[index].user_id != user_id {
        assert(r == Err::<(), BookingError>(BookingError::Forbidden));
    } else {
        assert forall|i: int| 0 <= i < before.len() && #[trigger] before[i].reservation_id == id
            implies before[i].user_id == user_id by {
            assert(i == index);
        }
        assert(r !== Err::<(), BookingError>(BookingError::Forbidden));
        assert(r is Ok);
        let k = choose|k: int|
            0 <= k < before.len() && #[trigger] before[k].reservation_id == id
                && before[k].user_id == user_id && after == before.remove(k);
        assert(k == index);
        assert forall|i: int| 0 <= i < after.len() implies #[trigger] after[i].reservation_id != id by {
            let i2 = if i < k { i } else { i + 1 };
            assert(after[i] == before[i2]);
        }
    }
}

} // verus!
