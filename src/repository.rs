use crate::error::BookingError;
use crate::model::{seat_same, Reservation, Seat};
use crate::timeslot::{slot_contains, slots_overlap, TimeSlot};
use vstd::prelude::*;

verus! {

/// Some reservation on `seat_id` overlaps `ts`.
pub open spec fn seat_conflict(rs: Seq<Reservation>, seat_id: u16, ts: TimeSlot) -> bool {
    exists|i: int| 0 <= i < rs.len() && #[trigger] rs[i].seat_id == seat_id && slots_overlap(rs[i].timeslot, ts)
}

/// Some reservation on `seat_id` is running at instant `t`.
pub open spec fn seat_occupied_at(rs: Seq<Reservation>, seat_id: u16, t: int) -> bool {
    exists|i: int| 0 <= i < rs.len() && #[trigger] rs[i].seat_id == seat_id && slot_contains(rs[i].timeslot, t)
}

/// No two reservations on one seat overlap.
pub open spec fn no_double_booking(rs: Seq<Reservation>) -> bool {
    forall|i: int, j: int|
        0 <= i < rs.len() && 0 <= j < rs.len() && i != j && rs[i].seat_id == rs[j].seat_id
            ==> !slots_overlap(#[trigger] rs[i].timeslot, #[trigger] rs[j].timeslot)
}

/// No two reservations share an id.
pub open spec fn ids_unique(rs: Seq<Reservation>) -> bool {
    forall|i: int, j: int|
        0 <= i < rs.len() && 0 <= j < rs.len() && i != j
            ==> #[trigger] rs[i].reservation_id != #[trigger] rs[j].reservation_id
}

/// Some reservation has id `id`.
pub open spec fn has_id(rs: Seq<Reservation>, id: i64) -> bool {
    exists|i: int| 0 <= i < rs.len() && #[trigger] rs[i].reservation_id == id
}

/// The row that admitting `ts` on `seat_id` for `user_id` under id `id` adds.
pub open spec fn new_reservation(id: i64, user_id: i64, seat_id: u16, ts: TimeSlot) -> Reservation {
    Reservation {
        reservation_id: id,
        user_id,
        timeslot: ts,
        seat_id,
        check_in_time: None,
        check_out_time: None,
    }
}

/// What an insertion does to the ledger `before`, ending in `after` with
/// result `r`: with no overlapping reservation on the seat, one row is
/// appended under a fresh id, unless the store has no room (`room`) and
/// refuses with `Storage`; with one, it is refused with `Conflict`. A refusal
/// writes nothing.
pub open spec fn insert_outcome(
    before: Seq<Reservation>,
    room: bool,
    after: Seq<Reservation>,
    user_id: i64,
    seat_id: u16,
    ts: TimeSlot,
    r: Result<i64, BookingError>,
) -> bool {
    match r {
        Ok(id) => {
            &&& !seat_conflict(before, seat_id, ts)
            &&& !has_id(before, id)
            &&& after == before.push(new_reservation(id, user_id, seat_id, ts))
        },
        Err(e) => {
            &&& after == before
            &&& (e == BookingError::Conflict <==> seat_conflict(before, seat_id, ts))
            &&& (e == BookingError::Conflict || (e == BookingError::Storage && !room))
        },
    }
}

/// The caller's reservations that have not ended at `now`.
pub open spec fn owner_pred(user_id: i64, now: i64) -> spec_fn(Reservation) -> bool {
    |x: Reservation| x.user_id == user_id && now < x.timeslot.end_time
}

/// The reservations on a seat that overlap a slot.
pub open spec fn seat_pred(seat_id: u16, ts: TimeSlot) -> spec_fn(Reservation) -> bool {
    |x: Reservation| x.seat_id == seat_id && slots_overlap(x.timeslot, ts)
}

/// Filtering a prefix one element longer.
pub proof fn lemma_filter_step<A>(s: Seq<A>, i: int, p: spec_fn(A) -> bool)
    requires
        0 <= i < s.len(),
    ensures
        s.subrange(0, i + 1).filter(p) == if p(s[i]) {
            s.subrange(0, i).filter(p).push(s[i])
        } else {
            s.subrange(0, i).filter(p)
        },
{
    reveal(Seq::filter);
    assert(s.subrange(0, i + 1).drop_last() =~= s.subrange(0, i));
}

/// The ledger of committed reservations.
pub trait ReservationRepository: Sized {
    /// The committed reservations, oldest first.
    spec fn reservations(&self) -> Seq<Reservation>;

    /// The adapter's own invariant.
    spec fn inv(&self) -> bool;

    /// The store can take one more row: while this holds, an insertion that
    /// meets no overlapping reservation succeeds.
    spec fn has_room(&self) -> bool;

    /// The invariant keeps the ledger free of double bookings and of shared ids.
    proof fn lemma_inv(&self)
        requires
            self.inv(),
        ensures
            no_double_booking(self.reservations()),
            ids_unique(self.reservations()),
    ;

    /// The reservations on `seat_id` that overlap `timeslot`.
    fn query_seat_reservations(&self, seat_id: u16, timeslot: TimeSlot) -> (r: Vec<Reservation>)
        requires
            self.inv(),
        ensures
            r@ == self.reservations().filter(seat_pred(seat_id, timeslot)),
    ;

    /// The reservations of `user_id` that end after `now`.
    fn query_user_reservations(&self, user_id: i64, now: i64) -> (r: Vec<Reservation>)
        requires
            self.inv(),
        ensures
            r@ == self.reservations().filter(owner_pred(user_id, now)),
    ;

    /// Whether some reservation on `seat_id` overlaps `timeslot`.
    fn has_overlapping_reservation(&self, seat_id: u16, timeslot: TimeSlot) -> (r: bool)
        requires
            self.inv(),
        ensures
            r == seat_conflict(self.reservations(), seat_id, timeslot),
    ;

    /// Whether some reservation on `seat_id` is running at `t`.
    fn has_reservation_at(&self, seat_id: u16, t: i64) -> (r: bool)
        requires
            self.inv(),
        ensures
            r == seat_occupied_at(self.reservations(), seat_id, t as int),
    ;

    /// Checks for an overlapping reservation on the seat and inserts the new
    /// one, as one step: no other insertion can come between the check and
    /// the write.
    fn insert_reservation(&mut self, user_id: i64, seat_id: u16, timeslot: TimeSlot) -> (r: Result<i64, BookingError>)
        requires
            old(self).inv(),
        ensures
            final(self).inv(),
            insert_outcome(
                old(self).reservations(),
                old(self).has_room(),
                final(self).reservations(),
                user_id,
                seat_id,
                timeslot,
                r,
            ),
    ;

    /// Deletes the reservation with id `reservation_id`.
    fn delete_reservation(&mut self, reservation_id: i64) -> (r: Result<(), BookingError>)
        requires
            old(self).inv(),
        ensures
            final(self).inv(),
            match r {
                Ok(()) => exists|i: int|
                    0 <= i < old(self).reservations().len()
                        && #[trigger] old(self).reservations()[i].reservation_id == reservation_id
                        && final(self).reservations() == old(self).reservations().remove(i),
                Err(e) => {
                    &&& e == BookingError::NotFound
                    &&& !has_id(old(self).reservations(), reservation_id)
                    &&& final(self).reservations() == old(self).reservations()
                },
            },
    ;

    /// The reservation with id `reservation_id`, if any.
    fn query_reservation_by_id(&self, reservation_id: i64) -> (r: Option<Reservation>)
        requires
            self.inv(),
        ensures
            match r {
                Some(x) => exists|i: int|
                    0 <= i < self.reservations().len() && #[trigger] self.reservations()[i] == x
                        && x.reservation_id == reservation_id,
                None => !has_id(self.reservations(), reservation_id),
            },
    ;
}

/// Some blackout window overlaps `ts`.
pub open spec fn blackout_overlaps(ws: Seq<TimeSlot>, ts: TimeSlot) -> bool {
    exists|i: int| 0 <= i < ws.len() && slots_overlap(#[trigger] ws[i], ts)
}

/// Some blackout window contains the instant `t`.
pub open spec fn blackout_contains(ws: Seq<TimeSlot>, t: int) -> bool {
    exists|i: int| 0 <= i < ws.len() && slot_contains(#[trigger] ws[i], t)
}

/// The store of blackout windows: global ranges in which nothing may be booked.
pub trait TimeSlotRepository: Sized {
    /// The stored windows, oldest first.
    spec fn windows(&self) -> Seq<TimeSlot>;

    /// Whether some window overlaps `timeslot`.
    fn is_overlapping_with_unavailable_timeslot(&self, timeslot: TimeSlot) -> (r: bool)
        ensures
            r == blackout_overlaps(self.windows(), timeslot),
    ;

    /// Whether some window contains the instant `time`.
    fn is_within_unavailable_timeslot(&self, time: i64) -> (r: bool)
        ensures
            r == blackout_contains(self.windows(), time as int),
    ;

    /// Appends a window; overlapping windows are accepted.
    fn insert_timeslot(&mut self, timeslot: TimeSlot) -> (r: Result<(), BookingError>)
        ensures
            match r {
                Ok(()) => final(self).windows() == old(self).windows().push(timeslot),
                Err(e) => e == BookingError::Storage && final(self).windows() == old(self).windows(),
            },
    ;
}

/// Seat ids are unique.
pub open spec fn seat_ids_unique(ss: Seq<Seat>) -> bool {
    forall|i: int, j: int|
        0 <= i < ss.len() && 0 <= j < ss.len() && i != j ==> #[trigger] ss[i].seat_id != #[trigger] ss[j].seat_id
}

/// Some seat has id `seat_id`.
pub open spec fn has_seat(ss: Seq<Seat>, seat_id: u16) -> bool {
    exists|i: int| 0 <= i < ss.len() && #[trigger] ss[i].seat_id == seat_id
}

/// The seats and their administrative flags.
pub trait SeatRepository: Sized {
    /// The seats, in the order they were created.
    spec fn seats(&self) -> Seq<Seat>;

    /// The adapter's own invariant.
    spec fn inv(&self) -> bool;

    /// The invariant keeps seat ids unique.
    proof fn lemma_inv(&self)
        requires
            self.inv(),
        ensures
            seat_ids_unique(self.seats()),
    ;

    /// Each seat's id and `available` flag, in order.
    fn query_seat_flags(&self) -> (r: Vec<(u16, bool)>)
        requires
            self.inv(),
        ensures
            r@.len() == self.seats().len(),
            forall|i: int| 0 <= i < r@.len() ==> #[trigger] r@[i] == (self.seats()[i].seat_id, self.seats()[i].available),
    ;

    /// The seat with id `seat_id`, if any.
    fn query_seat(&self, seat_id: u16) -> (r: Option<Seat>)
        requires
            self.inv(),
        ensures
            match r {
                Some(s) => exists|i: int|
                    0 <= i < self.seats().len() && #[trigger] self.seats()[i].seat_id == seat_id
                        && seat_same(s, self.seats()[i]),
                None => !has_seat(self.seats(), seat_id),
            },
    ;

    /// Sets the flag and the description of an existing seat.
    fn update_seat(&mut self, seat_id: u16, available: bool, other_info: Option<String>) -> (r: Result<(), BookingError>)
        requires
            old(self).inv(),
        ensures
            final(self).inv(),
            final(self).seats().len() == old(self).seats().len(),
            match r {
                Ok(()) => exists|i: int|
                    0 <= i < old(self).seats().len() && #[trigger] old(self).seats()[i].seat_id == seat_id && {
                        &&& final(self).seats()[i].seat_id == seat_id
                        &&& final(self).seats()[i].available == available
                        &&& final(self).seats()[i].other_info.deep_view() == other_info.deep_view()
                        &&& forall|j: int| 0 <= j < old(self).seats().len() && j != i
                            ==> #[trigger] final(self).seats()[j] == old(self).seats()[j]
                    },
                Err(e) => {
                    &&& e == BookingError::NotFound
                    &&& !has_seat(old(self).seats(), seat_id)
                    &&& final(self).seats() == old(self).seats()
                },
            },
    ;

    /// Creates a seat; an id that exists already leaves the store as it is.
    fn insert_seat(&mut self, seat_id: u16, available: bool, other_info: Option<String>) -> (r: Result<(), BookingError>)
        requires
            old(self).inv(),
        ensures
            final(self).inv(),
            match r {
                Ok(()) => if has_seat(old(self).seats(), seat_id) {
                    final(self).seats() == old(self).seats()
                } else {
                    &&& final(self).seats().len() == old(self).seats().len() + 1
                    &&& final(self).seats().drop_last() == old(self).seats()
                    &&& final(self).seats().last().seat_id == seat_id
                    &&& final(self).seats().last().available == available
                    &&& final(self).seats().last().other_info.deep_view() == other_info.deep_view()
                },
                Err(e) => e == BookingError::Storage && final(self).seats() == old(self).seats(),
            },
    ;
}

} // verus!
