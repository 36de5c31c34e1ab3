use crate::error::BookingError;
use crate::init::{day_in_range, off_hours, seeded, starts_with, InitService, SEEDED_DAYS};
use crate::model::{Reservation, SeatsOverview, UserClaim, UserRole};
use crate::repository::{
    blackout_overlaps, has_seat, owner_pred, ReservationRepository, SeatRepository, TimeSlotRepository,
};
use crate::service::{
    admission_outcome, overview_at, revoke_outcome, ReservationService, SeatService, TimeSlotService, UserService,
};
use crate::timeslot::{local_day, local_day_of, TimeSlot};
use crate::validate::NUMBER_OF_SEATS;
use vstd::prelude::*;

verus! {

/// The farthest local day from the epoch, either way, that start-up accepts
/// (about 2.7 million years).
pub const MAX_CLOCK_DAY: i64 = 1_000_000_000;

/// The windows after seeding the four days from local day `today` on.
pub open spec fn seeded_ahead(ws: Seq<TimeSlot>, today: int) -> Seq<TimeSlot> {
    seeded(seeded(seeded(seeded(ws, today), today + 1), today + 2), today + 3)
}

/// The application context: the three stores and the services that act on
/// them. Each request borrows it; there is no other shared state. The
/// current time is handed in by the caller as seconds since the epoch.
pub struct App<R: ReservationRepository, S: SeatRepository, T: TimeSlotRepository> {
    pub reservation_repository: R,
    pub seat_repository: S,
    pub timeslot_repository: T,
    pub reservation_service: ReservationService,
    pub seat_service: SeatService,
    pub timeslot_service: TimeSlotService,
    pub init_service: InitService,
    pub user_service: UserService,
}

impl<R: ReservationRepository, S: SeatRepository, T: TimeSlotRepository> App<R, S, T> {
    /// The stores' invariants hold.
    pub open spec fn inv(&self) -> bool {
        self.reservation_repository.inv() && self.seat_repository.inv()
    }

    pub fn new(reservation_repository: R, seat_repository: S, timeslot_repository: T) -> (r: Self)
        requires
            reservation_repository.inv(),
            seat_repository.inv(),
        ensures
            r.inv(),
            r.reservation_repository == reservation_repository,
            r.seat_repository == seat_repository,
            r.timeslot_repository == timeslot_repository,
    {
        App {
            reservation_repository,
            seat_repository,
            timeslot_repository,
            reservation_service: ReservationService::new(),
            seat_service: SeatService::new(),
            timeslot_service: TimeSlotService::new(),
            init_service: InitService::new(),
            user_service: UserService::new(),
        }
    }

    /// Admits a request at instant `now` (see `ReservationService::reserve_seat`).
    pub fn reserve_seat(&mut self, user_id: i64, seat_id: u16, timeslot: TimeSlot, now: i64) -> (r: Result<i64, BookingError>)
        requires
            old(self).inv(),
        ensures
            final(self).inv(),
            final(self).seat_repository == old(self).seat_repository,
            final(self).timeslot_repository == old(self).timeslot_repository,
            admission_outcome(
                old(self).timeslot_repository.windows(),
                old(self).reservation_repository.reservations(),
                old(self).reservation_repository.has_room(),
                final(self).reservation_repository.reservations(),
                user_id,
                seat_id,
                timeslot,
                now,
                r,
            ),
    {
        self.reservation_service.reserve_seat(
            &mut self.reservation_repository,
            &self.timeslot_repository,
            user_id,
            seat_id,
            timeslot,
            now,
        )
    }

    /// Revokes a reservation on behalf of `user_id`.
    pub fn delete_reservation(&mut self, user_id: i64, reservation_id: i64) -> (r: Result<(), BookingError>)
        requires
            old(self).inv(),
        ensures
            final(self).inv(),
            final(self).seat_repository == old(self).seat_repository,
            final(self).timeslot_repository == old(self).timeslot_repository,
            revoke_outcome(
                old(self).reservation_repository.reservations(),
                final(self).reservation_repository.reservations(),
                user_id,
                reservation_id,
                r,
            ),
    {
        self.reservation_service.delete_reservation(&mut self.reservation_repository, user_id, reservation_id)
    }

    /// The caller's reservations that have not ended at `now`.
    pub fn user_reservations(&self, user_id: i64, now: i64) -> (r: Vec<Reservation>)
        requires
            self.inv(),
        ensures
            r@ == self.reservation_repository.reservations().filter(owner_pred(user_id, now)),
    {
        self.reservation_service.get_user_reservations(&self.reservation_repository, user_id, now)
    }

    /// The status of every seat at `now`.
    pub fn current_overview(&self, now: i64) -> (r: SeatsOverview)
        requires
            self.inv(),
        ensures
            overview_at(
                self.timeslot_repository.windows(),
                self.reservation_repository.reservations(),
                self.seat_repository.seats(),
                r.seats@,
                now as int,
            ),
    {
        self.seat_service.get_seats_overview(
            &self.seat_repository,
            &self.reservation_repository,
            &self.timeslot_repository,
            now,
        )
    }

    /// Adds a blackout window on behalf of an administrator.
    pub fn set_unavailable_timeslots(&mut self, claim: &UserClaim, timeslot: TimeSlot) -> (r: Result<(), BookingError>)
        requires
            old(self).inv(),
        ensures
            final(self).inv(),
            final(self).reservation_repository == old(self).reservation_repository,
            final(self).seat_repository == old(self).seat_repository,
            timeslot.end_time < timeslot.start_time ==> r == Err::<(), BookingError>(BookingError::InvalidInterval),
            timeslot.start_time <= timeslot.end_time && claim.user_role != UserRole::Admin
                ==> r == Err::<(), BookingError>(BookingError::Unauthorized),
            timeslot.start_time <= timeslot.end_time && claim.user_role == UserRole::Admin
                ==> (r is Ok || r == Err::<(), BookingError>(BookingError::Storage)),
            r is Ok ==> final(self).timeslot_repository.windows() == old(self).timeslot_repository.windows().push(timeslot),
            r is Err ==> final(self).timeslot_repository.windows() == old(self).timeslot_repository.windows(),
    {
        self.timeslot_service.set_unavailable_timeslots(&mut self.timeslot_repository, claim, timeslot)
    }

    /// Runs the daily maintenance for the local day `today`: seeds the
    /// off-hours windows of the day `SEEDED_DAYS - 1` days ahead.
    pub fn daily_maintenance(&mut self, today: i64) -> (r: Result<(), BookingError>)
        requires
            old(self).inv(),
            day_in_range(today + SEEDED_DAYS - 1),
        ensures
            final(self).inv(),
            final(self).reservation_repository == old(self).reservation_repository,
            final(self).seat_repository == old(self).seat_repository,
            r is Ok ==> final(self).timeslot_repository.windows() == seeded(
                old(self).timeslot_repository.windows(),
                today + SEEDED_DAYS - 1,
            ),
            blackout_overlaps(old(self).timeslot_repository.windows(), off_hours(today + SEEDED_DAYS - 1)[0])
                && blackout_overlaps(old(self).timeslot_repository.windows(), off_hours(today + SEEDED_DAYS - 1)[1])
                ==> r is Ok,
            r is Err ==> r->Err_0 == BookingError::Storage && (final(self).timeslot_repository.windows()
                == old(self).timeslot_repository.windows() || (!blackout_overlaps(
                old(self).timeslot_repository.windows(),
                off_hours(today + SEEDED_DAYS - 1)[0],
            ) && final(self).timeslot_repository.windows() == old(self).timeslot_repository.windows().push(
                off_hours(today + SEEDED_DAYS - 1)[0],
            ))),
    {
        self.init_service.init_unavailable_timeslot(&mut self.timeslot_repository, today, SEEDED_DAYS - 1)
    }

    /// Seeds the seats and the windows of the coming days at start-up,
    /// counting from the local day of `now`. A day more than `MAX_CLOCK_DAY`
    /// days away from the epoch is refused with `InvalidInterval`, with
    /// nothing changed.
    pub fn init_db(&mut self, now: i64) -> (r: Result<(), BookingError>)
        requires
            old(self).inv(),
        ensures
            final(self).inv(),
            final(self).reservation_repository == old(self).reservation_repository,
            !(-MAX_CLOCK_DAY <= local_day(now as int) <= MAX_CLOCK_DAY) ==> r == Err::<(), BookingError>(
                BookingError::InvalidInterval,
            ) && *final(self) == *old(self),
            -MAX_CLOCK_DAY <= local_day(now as int) <= MAX_CLOCK_DAY ==> (r is Err ==> r->Err_0 == BookingError::Storage),
            starts_with(final(self).timeslot_repository.windows(), old(self).timeslot_repository.windows()),
            r is Ok ==> forall|id: u16| 1 <= id <= NUMBER_OF_SEATS ==> #[trigger] has_seat(final(self).seat_repository.seats(), id),
            r is Ok ==> final(self).timeslot_repository.windows() == seeded_ahead(
                old(self).timeslot_repository.windows(),
                local_day(now as int),
            ),
    {
        let today = local_day_of(now);
        if today < -MAX_CLOCK_DAY || today > MAX_CLOCK_DAY {
            return Err(BookingError::InvalidInterval);
        }
        self.init_service.init_db(&mut self.seat_repository, &mut self.timeslot_repository, today)
    }
}

} // verus!
