use crate::error::BookingError;
use crate::model::{
    seat_same, Reservation, Seat, SeatAvailability, SeatAvailabilityStatus, SeatsOverview, UserClaim, UserRole, VerificationClaim,
};
use crate::repository::{
    blackout_contains, blackout_overlaps, has_id, has_seat, new_reservation, owner_pred, seat_conflict,
    seat_occupied_at, seat_pred, ReservationRepository, SeatRepository, TimeSlotRepository,
};
use crate::timeslot::{end_of_day, end_of_day_of, next_half_hour, next_half_hour_after, TimeSlot};
use crate::validate::{slot_check, validate_reservation_timeslot, validate_seat_id, validate_timeslot, NUMBER_OF_SEATS};
use vstd::prelude::*;

verus! {

/// The reservation ends after the next half-hour boundary and no later than
/// 23:59:59 of the day of `now`: it holds the seat into the rest of the day.
pub open spec fn extends_into_day(x: Reservation, now: int) -> bool {
    next_half_hour(now) < x.timeslot.end_time && x.timeslot.end_time <= end_of_day(now)
}

/// The caller holds a reservation, not yet ended at `now`, that extends into
/// the rest of the day.
pub open spec fn active_booking_blocks(rs: Seq<Reservation>, user_id: i64, now: i64) -> bool {
    exists|i: int|
        0 <= i < rs.len() && #[trigger] owner_pred(user_id, now)(rs[i]) && extends_into_day(rs[i], now as int)
}

/// The first reason, in the order the checks are made, for which a request
/// of `user_id` for `seat_id` over `ts` at instant `now` is refused, given the
/// blackout windows `ws` and the committed reservations `rs`; `None` when it
/// is admitted.
pub open spec fn admission_error(
    ws: Seq<TimeSlot>,
    rs: Seq<Reservation>,
    user_id: i64,
    seat_id: u16,
    ts: TimeSlot,
    now: i64,
) -> Option<BookingError> {
    if slot_check(ts, now as int) is Some {
        slot_check(ts, now as int)
    } else if blackout_overlaps(ws, ts) {
        Some(BookingError::BlackedOut)
    } else if active_booking_blocks(rs, user_id, now) {
        Some(BookingError::ActiveBookingExists)
    } else if seat_conflict(rs, seat_id, ts) {
        Some(BookingError::Conflict)
    } else {
        None
    }
}

/// What an admission does to the ledger `before`, ending in `after` with
/// result `r`: refused with the first failing check and nothing written, or
/// admitted with exactly one new row under a fresh id. An admissible request
/// is admitted whenever the store has room (`room`); only a store without
/// room may refuse it, with `Storage`, writing nothing.
pub open spec fn admission_outcome(
    ws: Seq<TimeSlot>,
    before: Seq<Reservation>,
    room: bool,
    after: Seq<Reservation>,
    user_id: i64,
    seat_id: u16,
    ts: TimeSlot,
    now: i64,
    r: Result<i64, BookingError>,
) -> bool {
    match admission_error(ws, before, user_id, seat_id, ts, now) {
        Some(e) => r == Err::<i64, BookingError>(e) && after == before,
        None => match r {
            Ok(id) => !has_id(before, id) && after == before.push(new_reservation(id, user_id, seat_id, ts)),
            Err(e) => e == BookingError::Storage && !room && after == before,
        },
    }
}

/// What a revocation of `reservation_id` by `user_id` does: `NotFound` when
/// no such reservation exists, `Forbidden` when another user owns it, and
/// otherwise the row is removed and nothing else changes.
pub open spec fn revoke_outcome(
    before: Seq<Reservation>,
    after: Seq<Reservation>,
    user_id: i64,
    reservation_id: i64,
    r: Result<(), BookingError>,
) -> bool {
    &&& (r == Err::<(), BookingError>(BookingError::NotFound) <==> !has_id(before, reservation_id))
    &&& (r == Err::<(), BookingError>(BookingError::Forbidden) <==> exists|i: int|
        0 <= i < before.len() && #[trigger] before[i].reservation_id == reservation_id && before[i].user_id != user_id)
    &&& match r {
        Ok(()) => exists|i: int|
            0 <= i < before.len() && #[trigger] before[i].reservation_id == reservation_id
                && before[i].user_id == user_id && after == before.remove(i),
        Err(e) => after == before && (e == BookingError::NotFound || e == BookingError::Forbidden),
    }
}

proof fn lemma_blocks_by_filter(rs: Seq<Reservation>, user_id: i64, now: i64)
    ensures
        active_booking_blocks(rs, user_id, now) <==> exists|k: int|
            0 <= k < rs.filter(owner_pred(user_id, now)).len() && extends_into_day(
                #[trigger] rs.filter(owner_pred(user_id, now))[k],
                now as int,
            ),
{
    broadcast use vstd::seq_lib::group_filter_ensures;

    let p = owner_pred(user_id, now);
    let f = rs.filter(p);
    if active_booking_blocks(rs, user_id, now) {
        let i = choose|i: int| 0 <= i < rs.len() && #[trigger] p(rs[i]) && extends_into_day(rs[i], now as int);
        assert(f.contains(rs[i]));
        let k = choose|k: int| 0 <= k < f.len() && f[k] == rs[i];
        assert(extends_into_day(f[k], now as int));
    }
    if exists|k: int| 0 <= k < f.len() && extends_into_day(#[trigger] f[k], now as int) {
        let k = choose|k: int| 0 <= k < f.len() && extends_into_day(#[trigger] f[k], now as int);
        assert(p(f[k]));
        assert(f.contains(f[k]));
        #[allow(deprecated)]
        rs.lemma_filter_contains_rev(p, f[k]);
        let i = choose|i: int| 0 <= i < rs.len() && rs[i] == f[k];
        assert(p(rs[i]));
    }
}

/// The booking engine. It holds no state of its own: the stores are handed
/// to each call by the application context.
pub struct ReservationService {}

impl ReservationService {
    pub fn new() -> (r: ReservationService) {
        ReservationService {}
    }

    /// Admits a request of `user_id` for `seat_id` over `timeslot` at instant
    /// `now`, returning the new reservation's id. The checks run in order:
    /// the slot's shape, the blackout windows, the caller's other bookings of
    /// the day, and then the overlap check and the insertion, which the
    /// ledger performs as one step.
    pub fn reserve_seat<R: ReservationRepository, T: TimeSlotRepository>(
        &self,
        reservations: &mut R,
        timeslots: &T,
        user_id: i64,
        seat_id: u16,
        timeslot: TimeSlot,
        now: i64,
    ) -> (r: Result<i64, BookingError>)
        requires
            old(reservations).inv(),
        ensures
            final(reservations).inv(),
            admission_outcome(
                timeslots.windows(),
                old(reservations).reservations(),
                old(reservations).has_room(),
                final(reservations).reservations(),
                user_id,
                seat_id,
                timeslot,
                now,
                r,
            ),
    {
        validate_reservation_timeslot(&timeslot, now)?;
        if timeslots.is_overlapping_with_unavailable_timeslot(timeslot) {
            return Err(BookingError::BlackedOut);
        }
        let mine = reservations.query_user_reservations(user_id, now);
        let next_half_hour = next_half_hour_after(now);
        let end_of_day = end_of_day_of(now);
        let mut i: usize = 0;
        while i < mine.len()
            invariant
                0 <= i <= mine@.len(),
                *reservations == *old(reservations),
                reservations.inv(),
                slot_check(timeslot, now as int) is None,
                !blackout_overlaps(timeslots.windows(), timeslot),
                mine@ == old(reservations).reservations().filter(owner_pred(user_id, now)),
                next_half_hour == crate::timeslot::next_half_hour(now as int),
                end_of_day == crate::timeslot::end_of_day(now as int),
                forall|k: int| 0 <= k < i ==> !extends_into_day(#[trigger] mine@[k], now as int),
            decreases mine@.len() - i,
        {
            let end = mine[i].timeslot.end_time as i128;
            if next_half_hour < end && end <= end_of_day {
                proof {
                    lemma_blocks_by_filter(old(reservations).reservations(), user_id, now);
                    assert(extends_into_day(mine@[i as int], now as int));
                }
                return Err(BookingError::ActiveBookingExists);
            }
            i = i + 1;
        }
        proof {
            lemma_blocks_by_filter(old(reservations).reservations(), user_id, now);
        }
        reservations.insert_reservation(user_id, seat_id, timeslot)
    }

    /// Revokes reservation `reservation_id` on behalf of `user_id`, who must
    /// own it.
    pub fn delete_reservation<R: ReservationRepository>(
        &self,
        reservations: &mut R,
        user_id: i64,
        reservation_id: i64,
    ) -> (r: Result<(), BookingError>)
        requires
            old(reservations).inv(),
        ensures
            final(reservations).inv(),
            revoke_outcome(
                old(reservations).reservations(),
                final(reservations).reservations(),
                user_id,
                reservation_id,
                r,
            ),
    {
        proof {
            reservations.lemma_inv();
        }
        let found = reservations.query_reservation_by_id(reservation_id);
        match found {
            None => Err(BookingError::NotFound),
            Some(x) => {
                let ghost rs = old(reservations).reservations();
                let ghost i = choose|i: int| 0 <= i < rs.len() && #[trigger] rs[i] == x && x.reservation_id == reservation_id;
                if x.user_id != user_id {
                    proof {
                        assert(rs[i].reservation_id == reservation_id);
                        assert(has_id(rs, reservation_id));
                    }
                    return Err(BookingError::Forbidden);
                }
                proof {
                    assert(rs[i].reservation_id == reservation_id);
                    assert forall|j: int| 0 <= j < rs.len() && #[trigger] rs[j].reservation_id == reservation_id
                        implies rs[j].user_id == user_id by {
                        assert(j == i);
                    }
                }
                let r = reservations.delete_reservation(reservation_id);
                r
            },
        }
    }

    /// The caller's reservations that have not ended at `now`.
    pub fn get_user_reservations<R: ReservationRepository>(&self, reservations: &R, user_id: i64, now: i64) -> (r: Vec<Reservation>)
        requires
            reservations.inv(),
        ensures
            r@ == reservations.reservations().filter(owner_pred(user_id, now)),
    {
        reservations.query_user_reservations(user_id, now)
    }

    /// The reservations on `seat_id` that overlap `timeslot`.
    pub fn get_seat_reservations<R: ReservationRepository>(&self, reservations: &R, seat_id: u16, timeslot: TimeSlot) -> (r: Result<Vec<Reservation>, BookingError>)
        requires
            reservations.inv(),
        ensures
            timeslot.end_time < timeslot.start_time ==> r == Err::<Vec<Reservation>, BookingError>(BookingError::InvalidInterval),
            timeslot.start_time <= timeslot.end_time ==> r is Ok && r->Ok_0@ == reservations.reservations().filter(seat_pred(seat_id, timeslot)),
    {
        validate_timeslot(&timeslot)?;
        Ok(reservations.query_seat_reservations(seat_id, timeslot))
    }
}

/// The status of a seat at instant `now`: every seat is unavailable while a
/// blackout window runs; otherwise a withdrawn seat is unavailable, a seat
/// with a running reservation is borrowed, and any other is available.
pub open spec fn current_status(
    ws: Seq<TimeSlot>,
    rs: Seq<Reservation>,
    seat_id: u16,
    available: bool,
    now: int,
) -> SeatAvailabilityStatus {
    if blackout_contains(ws, now) {
        SeatAvailabilityStatus::Unavailable
    } else if !available {
        SeatAvailabilityStatus::Unavailable
    } else if seat_occupied_at(rs, seat_id, now) {
        SeatAvailabilityStatus::Borrowed
    } else {
        SeatAvailabilityStatus::Available
    }
}

/// `out` reports, seat by seat and in the seats' order, the status of each
/// of the seats `ss` at instant `now`.
pub open spec fn overview_at(
    ws: Seq<TimeSlot>,
    rs: Seq<Reservation>,
    ss: Seq<Seat>,
    out: Seq<SeatAvailability>,
    now: int,
) -> bool {
    &&& out.len() == ss.len()
    &&& forall|i: int|
        0 <= i < out.len() ==> #[trigger] out[i] == (SeatAvailability {
            seat_id: ss[i].seat_id,
            status: current_status(ws, rs, ss[i].seat_id, ss[i].available, now),
        })
}

/// The status of a seat over a slot: borrowed when some reservation on it
/// overlaps the slot, available otherwise. The administrative flag is not
/// consulted in this mode.
pub open spec fn interval_status(rs: Seq<Reservation>, seat_id: u16, ts: TimeSlot) -> SeatAvailabilityStatus {
    if seat_conflict(rs, seat_id, ts) {
        SeatAvailabilityStatus::Borrowed
    } else {
        SeatAvailabilityStatus::Available
    }
}

/// Reports seat statuses.
pub struct SeatService {}

impl SeatService {
    pub fn new() -> (r: SeatService) {
        SeatService {}
    }

    /// The status of every seat at instant `now`, in the seats' order.
    pub fn get_seats_overview<S: SeatRepository, R: ReservationRepository, T: TimeSlotRepository>(
        &self,
        seats: &S,
        reservations: &R,
        timeslots: &T,
        now: i64,
    ) -> (r: SeatsOverview)
        requires
            seats.inv(),
            reservations.inv(),
        ensures
            overview_at(timeslots.windows(), reservations.reservations(), seats.seats(), r.seats@, now as int),
    {
        let flags = seats.query_seat_flags();
        let blacked_out = timeslots.is_within_unavailable_timeslot(now);
        let mut out: Vec<SeatAvailability> = Vec::new();
        let mut i: usize = 0;
        while i < flags.len()
            invariant
                0 <= i <= flags@.len(),
                flags@.len() == seats.seats().len(),
                forall|k: int| 0 <= k < flags@.len() ==> #[trigger] flags@[k] == (seats.seats()[k].seat_id, seats.seats()[k].available),
                blacked_out == blackout_contains(timeslots.windows(), now as int),
                reservations.inv(),
                out@.len() == i,
                forall|k: int|
                    0 <= k < i ==> #[trigger] out@[k] == (SeatAvailability {
                        seat_id: seats.seats()[k].seat_id,
                        status: current_status(
                            timeslots.windows(),
                            reservations.reservations(),
                            seats.seats()[k].seat_id,
                            seats.seats()[k].available,
                            now as int,
                        ),
                    }),
            decreases flags@.len() - i,
        {
            let (seat_id, available) = flags[i];
            let status = if blacked_out {
                SeatAvailabilityStatus::Unavailable
            } else if !available {
                SeatAvailabilityStatus::Unavailable
            } else if reservations.has_reservation_at(seat_id, now) {
                SeatAvailabilityStatus::Borrowed
            } else {
                SeatAvailabilityStatus::Available
            };
            out.push(SeatAvailability { seat_id, status });
            i = i + 1;
        }
        SeatsOverview { seats: out }
    }

    /// The status of every seat over `timeslot`, in the seats' order; a slot
    /// that ends before it starts is refused.
    pub fn get_seats_overview_in_timeslot<S: SeatRepository, R: ReservationRepository>(
        &self,
        seats: &S,
        reservations: &R,
        timeslot: TimeSlot,
    ) -> (r: Result<SeatsOverview, BookingError>)
        requires
            seats.inv(),
            reservations.inv(),
        ensures
            timeslot.end_time < timeslot.start_time ==> r is Err && r->Err_0 == BookingError::InvalidInterval,
            timeslot.start_time <= timeslot.end_time ==> r is Ok && r->Ok_0.seats@.len() == seats.seats().len()
                && forall|i: int|
                0 <= i < seats.seats().len() ==> #[trigger] r->Ok_0.seats@[i] == (SeatAvailability {
                    seat_id: seats.seats()[i].seat_id,
                    status: interval_status(reservations.reservations(), seats.seats()[i].seat_id, timeslot),
                }),
    {
        validate_timeslot(&timeslot)?;
        let flags = seats.query_seat_flags();
        let mut out: Vec<SeatAvailability> = Vec::new();
        let mut i: usize = 0;
        while i < flags.len()
            invariant
                0 <= i <= flags@.len(),
                flags@.len() == seats.seats().len(),
                forall|k: int| 0 <= k < flags@.len() ==> #[trigger] flags@[k] == (seats.seats()[k].seat_id, seats.seats()[k].available),
                reservations.inv(),
                out@.len() == i,
                forall|k: int|
                    0 <= k < i ==> #[trigger] out@[k] == (SeatAvailability {
                        seat_id: seats.seats()[k].seat_id,
                        status: interval_status(reservations.reservations(), seats.seats()[k].seat_id, timeslot),
                    }),
            decreases flags@.len() - i,
        {
            let (seat_id, _available) = flags[i];
            let status = if reservations.has_overlapping_reservation(seat_id, timeslot) {
                SeatAvailabilityStatus::Borrowed
            } else {
                SeatAvailabilityStatus::Available
            };
            out.push(SeatAvailability { seat_id, status });
            i = i + 1;
        }
        Ok(SeatsOverview { seats: out })
    }

    /// The seat with id `seat_id`.
    pub fn get_seat_info<S: SeatRepository>(&self, seats: &S, seat_id: u16) -> (r: Result<Seat, BookingError>)
        requires
            seats.inv(),
        ensures
            match r {
                Ok(s) => exists|i: int|
                    0 <= i < seats.seats().len() && #[trigger] seats.seats()[i].seat_id == seat_id
                        && seat_same(s, seats.seats()[i]),
                Err(e) => e == BookingError::NotFound && !has_seat(seats.seats(), seat_id),
            },
    {
        match seats.query_seat(seat_id) {
            Some(s) => Ok(s),
            None => Err(BookingError::NotFound),
        }
    }

    /// Sets a seat's flag and description on behalf of an administrator.
    pub fn set_seat_info<S: SeatRepository>(
        &self,
        seats: &mut S,
        claim: &UserClaim,
        seat_id: u16,
        available: bool,
        other_info: Option<String>,
    ) -> (r: Result<(), BookingError>)
        requires
            old(seats).inv(),
        ensures
            final(seats).inv(),
            !(1 <= seat_id <= NUMBER_OF_SEATS) ==> r == Err::<(), BookingError>(BookingError::InvalidSeat),
            1 <= seat_id <= NUMBER_OF_SEATS && claim.user_role != UserRole::Admin
                ==> r == Err::<(), BookingError>(BookingError::Unauthorized),
            1 <= seat_id <= NUMBER_OF_SEATS && claim.user_role == UserRole::Admin
                ==> (r == Err::<(), BookingError>(BookingError::NotFound) <==> !has_seat(old(seats).seats(), seat_id)),
            1 <= seat_id <= NUMBER_OF_SEATS && claim.user_role == UserRole::Admin && has_seat(old(seats).seats(), seat_id)
                ==> r is Ok,
            r is Ok ==> 1 <= seat_id <= NUMBER_OF_SEATS && claim.user_role == UserRole::Admin && exists|i: int|
                0 <= i < old(seats).seats().len() && #[trigger] old(seats).seats()[i].seat_id == seat_id && {
                    &&& final(seats).seats()[i].available == available
                    &&& final(seats).seats()[i].other_info.deep_view() == other_info.deep_view()
                },
            r is Err ==> final(seats).seats() == old(seats).seats(),
    {
        validate_seat_id(seat_id)?;
        if claim.user_role != UserRole::Admin {
            return Err(BookingError::Unauthorized);
        }
        seats.update_seat(seat_id, available, other_info)
    }

    /// Creates a seat; an existing id is left as it is.
    pub fn create_seat<S: SeatRepository>(&self, seats: &mut S, seat_id: u16, available: bool, other_info: Option<String>) -> (r: Result<(), BookingError>)
        requires
            old(seats).inv(),
        ensures
            final(seats).inv(),
            r is Ok ==> has_seat(final(seats).seats(), seat_id),
            r is Ok && !has_seat(old(seats).seats(), seat_id) ==> final(seats).seats().drop_last() == old(seats).seats()
                && final(seats).seats().last().available == available,
            r is Ok && has_seat(old(seats).seats(), seat_id) ==> final(seats).seats() == old(seats).seats(),
            r is Err ==> r->Err_0 == BookingError::Storage && final(seats).seats() == old(seats).seats(),
    {
        let r = seats.insert_seat(seat_id, available, other_info);
        proof {
            if r is Ok && !has_seat(old(seats).seats(), seat_id) {
                assert(final(seats).seats()[final(seats).seats().len() - 1].seat_id == seat_id);
            }
        }
        r
    }
}

/// Admin changes to the blackout windows.
pub struct TimeSlotService {}

impl TimeSlotService {
    pub fn new() -> (r: TimeSlotService) {
        TimeSlotService {}
    }

    /// Adds a blackout window on behalf of an administrator.
    pub fn set_unavailable_timeslots<T: TimeSlotRepository>(
        &self,
        timeslots: &mut T,
        claim: &UserClaim,
        timeslot: TimeSlot,
    ) -> (r: Result<(), BookingError>)
        ensures
            timeslot.end_time < timeslot.start_time ==> r == Err::<(), BookingError>(BookingError::InvalidInterval),
            timeslot.start_time <= timeslot.end_time && claim.user_role != UserRole::Admin
                ==> r == Err::<(), BookingError>(BookingError::Unauthorized),
            timeslot.start_time <= timeslot.end_time && claim.user_role == UserRole::Admin
                ==> (r is Ok || r == Err::<(), BookingError>(BookingError::Storage)),
            r is Ok ==> final(timeslots).windows() == old(timeslots).windows().push(timeslot),
            r is Err ==> final(timeslots).windows() == old(timeslots).windows(),
            r is Err ==> (r->Err_0 == BookingError::InvalidInterval || r->Err_0 == BookingError::Unauthorized
                || r->Err_0 == BookingError::Storage),
    {
        validate_timeslot(&timeslot)?;
        if claim.user_role != UserRole::Admin {
            return Err(BookingError::Unauthorized);
        }
        timeslots.insert_timeslot(timeslot)
    }
}

/// Identity-related decisions that need no store.
pub struct UserService {}

impl UserService {
    pub fn new() -> (r: UserService) {
        UserService {}
    }

    /// A new verification mail may be sent once the previous one has expired.
    pub fn is_resend_allowed(&self, claim: &VerificationClaim, now: i64) -> (r: bool)
        ensures
            r == (now > claim.expiration),
    {
        if now <= claim.expiration {
            return false;
        }
        true
    }
}

} // verus!
