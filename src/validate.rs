use crate::error::BookingError;
use crate::timeslot::{local_day, same_local_day, TimeSlot};
use vstd::prelude::*;

verus! {

/// Seats are numbered `1..=NUMBER_OF_SEATS`.
pub const NUMBER_OF_SEATS: u16 = 100;

/// The structural checks on a requested slot, in the order they are made:
/// it must not end before it starts, must lie within one local day, and must
/// not start before `now`.
pub open spec fn slot_check(ts: TimeSlot, now: int) -> Option<BookingError> {
    if ts.end_time < ts.start_time {
        Some(BookingError::InvalidInterval)
    } else if local_day(ts.start_time as int) != local_day(ts.end_time as int) {
        Some(BookingError::CrossDayInterval)
    } else if ts.start_time < now {
        Some(BookingError::PastStart)
    } else {
        None
    }
}

pub open spec fn as_result(e: Option<BookingError>) -> Result<(), BookingError> {
    match e {
        Some(e) => Err(e),
        None => Ok(()),
    }
}

/// Validates a slot that is to be booked at instant `now`.
pub fn validate_reservation_timeslot(timeslot: &TimeSlot, now: i64) -> (r: Result<(), BookingError>)
    ensures
        r == as_result(slot_check(*timeslot, now as int)),
{
    validate_timeslot(timeslot)?;
    on_the_same_day(timeslot.start_time, timeslot.end_time)?;
    if timeslot.start_time < now {
        return Err(BookingError::PastStart);
    }
    Ok(())
}

/// A slot must not end before it starts.
pub fn validate_timeslot(timeslot: &TimeSlot) -> (r: Result<(), BookingError>)
    ensures
        r == (if timeslot.end_time < timeslot.start_time {
            Err(BookingError::InvalidInterval)
        } else {
            Ok(())
        }),
{
    if timeslot.end_time < timeslot.start_time {
        return Err(BookingError::InvalidInterval);
    }
    Ok(())
}

/// A seat number must lie in `1..=NUMBER_OF_SEATS`.
pub fn validate_seat_id(seat_id: u16) -> (r: Result<(), BookingError>)
    ensures
        r == (if 1 <= seat_id <= NUMBER_OF_SEATS {
            Ok(())
        } else {
            Err(BookingError::InvalidSeat)
        }),
{
    if seat_id < 1 || seat_id > NUMBER_OF_SEATS {
        return Err(BookingError::InvalidSeat);
    }
    Ok(())
}

/// Violation points cannot be negative.
pub fn validate_points(points: i64) -> (r: Result<(), BookingError>)
    ensures
        r == (if points < 0 {
            Err(BookingError::InvalidPoints)
        } else {
            Ok(())
        }),
{
    if points < 0 {
        return Err(BookingError::InvalidPoints);
    }
    Ok(())
}

/// Two instants must fall on one local calendar day.
pub fn on_the_same_day(time1: i64, time2: i64) -> (r: Result<(), BookingError>)
    ensures
        r == (if local_day(time1 as int) == local_day(time2 as int) {
            Ok(())
        } else {
            Err(BookingError::CrossDayInterval)
        }),
{
    if !same_local_day(time1, time2) {
        return Err(BookingError::CrossDayInterval);
    }
    Ok(())
}

/// A request to book a seat over a slot.
#[derive(Clone, Copy, Debug)]
pub struct InsertReservationRequest {
    pub seat_id: u16,
    pub timeslot: TimeSlot,
}

impl InsertReservationRequest {
    /// Checks the seat number, then the slot as one to be booked at `now`.
    pub fn validate(&self, now: i64) -> (r: Result<(), BookingError>)
        ensures
            !(1 <= self.seat_id <= NUMBER_OF_SEATS) ==> r == Err::<(), BookingError>(BookingError::InvalidSeat),
            1 <= self.seat_id <= NUMBER_OF_SEATS ==> r == as_result(slot_check(self.timeslot, now as int)),
    {
        validate_seat_id(self.seat_id)?;
        validate_reservation_timeslot(&self.timeslot, now)
    }
}

/// A request to change a seat's flag and description.
#[derive(Clone, Debug)]
pub struct UpdateSeatRequest {
    pub seat_id: u16,
    pub available: bool,
    pub other_info: Option<String>,
}

impl UpdateSeatRequest {
    /// Checks the seat number.
    pub fn validate(&self) -> (r: Result<(), BookingError>)
        ensures
            r == (if 1 <= self.seat_id <= NUMBER_OF_SEATS {
                Ok(())
            } else {
                Err(BookingError::InvalidSeat)
            }),
    {
        validate_seat_id(self.seat_id)
    }
}

/// A request to add a blackout window.
#[derive(Clone, Copy, Debug)]
pub struct InsertTimeSlotRequest {
    pub timeslot: TimeSlot,
}

impl InsertTimeSlotRequest {
    /// Checks that the window does not end before it starts.
    pub fn validate(&self) -> (r: Result<(), BookingError>)
        ensures
            r == (if self.timeslot.end_time < self.timeslot.start_time {
                Err(BookingError::InvalidInterval)
            } else {
                Ok(())
            }),
    {
        validate_timeslot(&self.timeslot)
    }
}

/// A request to add violation points to a user.
#[derive(Clone, Copy, Debug)]
pub struct AddPointsRequest {
    pub user_id: i64,
    pub points: i64,
}

impl AddPointsRequest {
    /// Checks that the points are not negative.
    pub fn validate(&self) -> (r: Result<(), BookingError>)
        ensures
            r == (if self.points < 0 {
                Err(BookingError::InvalidPoints)
            } else {
                Ok(())
            }),
    {
        validate_points(self.points)
    }
}

} // verus!
