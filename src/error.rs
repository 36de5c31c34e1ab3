use vstd::prelude::*;

verus! {

/// HTTP-style outcome classes used at the service boundary.
#[derive(Clone, Copy, Debug, PartialEq, Eq, Structural)]
pub enum Status {
    BadRequest,
    Unauthorized,
    Forbidden,
    NotFound,
    Conflict,
    UnprocessableEntity,
    InternalServerError,
    ServiceUnavailable,
}

pub open spec fn status_code_of(s: Status) -> u16 {
    match s {
        Status::BadRequest => 400,
        Status::Unauthorized => 401,
        Status::Forbidden => 403,
        Status::NotFound => 404,
        Status::Conflict => 409,
        Status::UnprocessableEntity => 422,
        Status::InternalServerError => 500,
        Status::ServiceUnavailable => 503,
    }
}

impl Status {
    /// The numeric HTTP status code.
    pub fn code(&self) -> (r: u16)
        ensures
            r == status_code_of(*self),
    {
        match self {
            Status::BadRequest => 400,
            Status::Unauthorized => 401,
            Status::Forbidden => 403,
            Status::NotFound => 404,
            Status::Conflict => 409,
            Status::UnprocessableEntity => 422,
            Status::InternalServerError => 500,
            Status::ServiceUnavailable => 503,
        }
    }
}

/// Why a booking operation was refused.
#[derive(Clone, Copy, Debug, PartialEq, Eq, Structural)]
pub enum BookingError {
    /// The interval ends before it starts.
    InvalidInterval,
    /// Start and end fall on different local calendar days.
    CrossDayInterval,
    /// The interval starts before the current time.
    PastStart,
    /// The seat number is outside the seats that exist.
    InvalidSeat,
    /// A negative number of violation points.
    InvalidPoints,
    /// The interval overlaps a blackout window.
    BlackedOut,
    /// The caller already holds a booking that extends into the rest of the day.
    ActiveBookingExists,
    /// Another reservation on the seat overlaps the interval.
    Conflict,
    /// No such reservation or seat.
    NotFound,
    /// The caller does not own the reservation.
    Forbidden,
    /// The caller lacks the role the operation needs.
    Unauthorized,
    /// The store failed.
    Storage,
}

pub open spec fn status_of(e: BookingError) -> Status {
    match e {
        BookingError::InvalidInterval => Status::UnprocessableEntity,
        BookingError::CrossDayInterval => Status::UnprocessableEntity,
        BookingError::PastStart => Status::UnprocessableEntity,
        BookingError::InvalidSeat => Status::UnprocessableEntity,
        BookingError::InvalidPoints => Status::UnprocessableEntity,
        BookingError::BlackedOut => Status::BadRequest,
        BookingError::ActiveBookingExists => Status::BadRequest,
        BookingError::Conflict => Status::Conflict,
        BookingError::NotFound => Status::NotFound,
        BookingError::Forbidden => Status::Forbidden,
        BookingError::Unauthorized => Status::Unauthorized,
        BookingError::Storage => Status::InternalServerError,
    }
}

impl BookingError {
    /// The status under which the error is reported to a caller.
    pub fn status(&self) -> (r: Status)
        ensures
            r == status_of(*self),
    {
        match self {
            BookingError::InvalidInterval => Status::UnprocessableEntity,
            BookingError::CrossDayInterval => Status::UnprocessableEntity,
            BookingError::PastStart => Status::UnprocessableEntity,
            BookingError::InvalidSeat => Status::UnprocessableEntity,
            BookingError::InvalidPoints => Status::UnprocessableEntity,
            BookingError::BlackedOut => Status::BadRequest,
            BookingError::ActiveBookingExists => Status::BadRequest,
            BookingError::Conflict => Status::Conflict,
            BookingError::NotFound => Status::NotFound,
            BookingError::Forbidden => Status::Forbidden,
            BookingError::Unauthorized => Status::Unauthorized,
            BookingError::Storage => Status::InternalServerError,
        }
    }
}

} // verus!
