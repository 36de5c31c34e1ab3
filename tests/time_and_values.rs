use seat_reservation::context::App;
use seat_reservation::diagnostics::{big_memory, concurrent_error, get_status_code};
use seat_reservation::error::{BookingError, Status};
use seat_reservation::init::{is_expired_log, is_log_date_expired, seconds_until_next_midnight, InitService};
use seat_reservation::memory::{MemoryReservationRepository, MemorySeatRepository, MemoryTimeSlotRepository};
use seat_reservation::model::{SeatAvailabilityStatus, UserClaim, UserRole, VerificationClaim};
use seat_reservation::repository::{ReservationRepository, TimeSlotRepository};
use seat_reservation::service::UserService;
use seat_reservation::timeslot::{
    end_of_day_of, is_weekend_day, local_day_of, local_instant, next_half_hour_after, same_local_day, TimeSlot,
};
use seat_reservation::validate::{
    on_the_same_day, validate_points, validate_reservation_timeslot, validate_seat_id, validate_timeslot,
    AddPointsRequest, InsertReservationRequest, InsertTimeSlotRequest, NUMBER_OF_SEATS,
};

const DAY: i64 = 20000;

fn at(day: i64, h: i64, m: i64) -> i64 {
    day * 86400 - 28800 + h * 3600 + m * 60
}

#[test]
fn next_half_hour_examples() {
    assert_eq!(next_half_hour_after(at(DAY, 10, 12)), at(DAY, 10, 30) as i128);
    assert_eq!(next_half_hour_after(at(DAY, 10, 45)), at(DAY, 11, 0) as i128);
    assert_eq!(next_half_hour_after(at(DAY, 10, 0)), at(DAY, 10, 30) as i128);
    assert_eq!(next_half_hour_after(at(DAY, 10, 30)), at(DAY, 11, 0) as i128);
    assert_eq!(next_half_hour_after(at(DAY, 23, 40)), at(DAY + 1, 0, 0) as i128);
    assert_eq!(next_half_hour_after(-1), 0);
}

#[test]
fn local_days_use_the_fixed_offset() {
    assert_eq!(local_day_of(at(DAY, 0, 0)), DAY);
    assert_eq!(local_day_of(at(DAY, 23, 59) + 59), DAY);
    assert_eq!(local_day_of(at(DAY + 1, 0, 0)), DAY + 1);
    // 16:00 UTC is midnight local time.
    assert_eq!(local_day_of(16 * 3600 - 1), 0);
    assert_eq!(local_day_of(16 * 3600), 1);
    assert_eq!(local_day_of(-28801), -1);
    assert_eq!(local_day_of(i64::MIN), (i64::MIN as i128 + 28800).div_euclid(86400) as i64);
    assert!(same_local_day(at(DAY, 0, 0), at(DAY, 23, 59)));
    assert!(!same_local_day(at(DAY, 23, 0), at(DAY + 1, 1, 0)));
    assert_eq!(end_of_day_of(at(DAY, 10, 0)), (at(DAY, 23, 59) + 59) as i128);
    assert_eq!(local_instant(DAY, 8, 30, 15), (at(DAY, 8, 30) + 15) as i128);
}

#[test]
fn weekends() {
    // 1970-01-01 was a Thursday; local day 2 is a Saturday.
    assert!(!is_weekend_day(0));
    assert!(is_weekend_day(2));
    assert!(is_weekend_day(3));
    assert!(!is_weekend_day(4));
    assert!(!is_weekend_day(DAY));
    assert!(is_weekend_day(DAY + 1));
    assert!(is_weekend_day(-5));
    assert!(!is_weekend_day(-1));
}

#[test]
fn midnight_countdown() {
    assert_eq!(seconds_until_next_midnight(at(DAY, 23, 0)), 3600);
    assert_eq!(seconds_until_next_midnight(at(DAY, 0, 0)), 86400);
}

#[test]
fn validations() {
    let ts = TimeSlot::new(at(DAY, 10, 0), at(DAY, 11, 0));
    assert_eq!(validate_timeslot(&ts), Ok(()));
    assert_eq!(validate_timeslot(&TimeSlot::new(5, 4)), Err(BookingError::InvalidInterval));
    assert_eq!(validate_timeslot(&TimeSlot::new(5, 5)), Ok(()));
    assert_eq!(validate_reservation_timeslot(&ts, at(DAY, 9, 0)), Ok(()));
    assert_eq!(validate_reservation_timeslot(&ts, at(DAY, 10, 1)), Err(BookingError::PastStart));
    assert_eq!(
        validate_reservation_timeslot(&TimeSlot::new(at(DAY, 23, 0), at(DAY + 1, 1, 0)), at(DAY, 9, 0)),
        Err(BookingError::CrossDayInterval)
    );
    assert_eq!(on_the_same_day(at(DAY, 1, 0), at(DAY, 2, 0)), Ok(()));
    assert_eq!(on_the_same_day(at(DAY, 1, 0), at(DAY + 1, 2, 0)), Err(BookingError::CrossDayInterval));
    assert_eq!(validate_seat_id(0), Err(BookingError::InvalidSeat));
    assert_eq!(validate_seat_id(1), Ok(()));
    assert_eq!(validate_seat_id(NUMBER_OF_SEATS), Ok(()));
    assert_eq!(validate_seat_id(NUMBER_OF_SEATS + 1), Err(BookingError::InvalidSeat));
    assert_eq!(validate_points(-1), Err(BookingError::InvalidPoints));
    assert_eq!(validate_points(0), Ok(()));
    let req = InsertReservationRequest { seat_id: 0, timeslot: ts };
    assert_eq!(req.validate(at(DAY, 9, 0)), Err(BookingError::InvalidSeat));
    let req = InsertReservationRequest { seat_id: 3, timeslot: ts };
    assert_eq!(req.validate(at(DAY, 9, 0)), Ok(()));
    assert_eq!(InsertTimeSlotRequest { timeslot: TimeSlot::new(2, 1) }.validate(), Err(BookingError::InvalidInterval));
    assert_eq!(AddPointsRequest { user_id: 1, points: 3 }.validate(), Ok(()));
}

#[test]
fn error_statuses() {
    assert_eq!(BookingError::InvalidInterval.status().code(), 422);
    assert_eq!(BookingError::CrossDayInterval.status().code(), 422);
    assert_eq!(BookingError::PastStart.status().code(), 422);
    assert_eq!(BookingError::BlackedOut.status().code(), 400);
    assert_eq!(BookingError::ActiveBookingExists.status().code(), 400);
    assert_eq!(BookingError::Conflict.status().code(), 409);
    assert_eq!(BookingError::NotFound.status().code(), 404);
    assert_eq!(BookingError::Forbidden.status().code(), 403);
    assert_eq!(BookingError::Unauthorized.status().code(), 401);
    assert_eq!(BookingError::Storage.status().code(), 500);
}

#[test]
fn names_round_trip() {
    for s in [SeatAvailabilityStatus::Available, SeatAvailabilityStatus::Unavailable, SeatAvailabilityStatus::Borrowed] {
        assert_eq!(SeatAvailabilityStatus::from_str(&s.to_string()), Some(s));
    }
    assert_eq!(SeatAvailabilityStatus::Borrowed.to_string(), "Borrowed");
    assert_eq!(SeatAvailabilityStatus::from_str("borrowed"), None);
    for r in [UserRole::Student, UserRole::RegularUser, UserRole::Admin, UserRole::Assistant] {
        assert_eq!(UserRole::from_str(&r.to_string()), Some(r));
    }
    assert_eq!(UserRole::RegularUser.to_string(), "RegularUser");
    assert_eq!(UserRole::from_str("Admin "), None);
}

#[test]
fn status_code_endpoint() {
    assert_eq!(get_status_code(200), Ok(()));
    assert_eq!(get_status_code(404), Err(Status::NotFound));
    assert_eq!(get_status_code(400), Err(Status::BadRequest));
    assert_eq!(get_status_code(503), Err(Status::ServiceUnavailable));
    assert_eq!(get_status_code(418), Err(Status::InternalServerError));
    assert_eq!(concurrent_error(), Err(Status::InternalServerError));
    assert_eq!(big_memory(1000), Ok(()));
}

#[test]
fn resend_after_expiration() {
    let users = UserService::new();
    let claim = VerificationClaim { user_id: 1, expiration: 1000, exp: 0 };
    assert!(!users.is_resend_allowed(&claim, 999));
    assert!(!users.is_resend_allowed(&claim, 1000));
    assert!(users.is_resend_allowed(&claim, 1001));
}

#[test]
fn off_hours_are_seeded_once() {
    let init = InitService::new();
    let mut blackout = MemoryTimeSlotRepository::new();
    // A weekday.
    init.init_unavailable_timeslot(&mut blackout, DAY, 0).unwrap();
    assert!(blackout.is_within_unavailable_timeslot(at(DAY, 7, 59)));
    assert!(!blackout.is_within_unavailable_timeslot(at(DAY, 8, 0)));
    assert!(!blackout.is_within_unavailable_timeslot(at(DAY, 21, 59)));
    assert!(blackout.is_within_unavailable_timeslot(at(DAY, 22, 0)));
    // The next day is a Saturday.
    init.init_unavailable_timeslot(&mut blackout, DAY, 1).unwrap();
    assert!(blackout.is_within_unavailable_timeslot(at(DAY + 1, 8, 59)));
    assert!(!blackout.is_within_unavailable_timeslot(at(DAY + 1, 9, 0)));
    assert!(!blackout.is_within_unavailable_timeslot(at(DAY + 1, 16, 59)));
    assert!(blackout.is_within_unavailable_timeslot(at(DAY + 1, 17, 0)));
    // Seeding a day far off needs no bound on the offset.
    init.init_unavailable_timeslot(&mut blackout, DAY, 30).unwrap();
    assert!(blackout.is_within_unavailable_timeslot(at(DAY + 30, 7, 0)));
}

#[test]
fn application_context_serves_requests() {
    let mut app = App::new(
        MemoryReservationRepository::new(),
        MemorySeatRepository::new(),
        MemoryTimeSlotRepository::new(),
    );
    let now = at(DAY, 9, 0);
    assert_eq!(app.init_db(now), Ok(()));
    let overview = app.current_overview(now);
    assert_eq!(overview.seats.len(), NUMBER_OF_SEATS as usize);
    // Off-hours of the weekday: 00:00 to 08:00 is blacked out.
    assert!(app.timeslot_repository.is_within_unavailable_timeslot(at(DAY, 7, 0)));
    assert!(app.timeslot_repository.is_within_unavailable_timeslot(at(DAY + 3, 7, 0)));
    assert!(!app.timeslot_repository.is_within_unavailable_timeslot(at(DAY + 4, 7, 0)));
    let ts = TimeSlot::new(at(DAY, 10, 0), at(DAY, 11, 0));
    assert_eq!(app.reserve_seat(1, 1, ts, now), Ok(1));
    assert_eq!(app.reserve_seat(2, 1, ts, now), Err(BookingError::Conflict));
    assert_eq!(
        app.reserve_seat(3, 2, TimeSlot::new(at(DAY, 7, 0), at(DAY, 7, 30)), at(DAY, 6, 0)),
        Err(BookingError::BlackedOut)
    );
    assert_eq!(app.reserve_seat(3, 2, ts, at(DAY, 10, 1)), Err(BookingError::PastStart));
    assert_eq!(app.user_reservations(1, now).len(), 1);
    assert!(app.user_reservations(1, at(DAY, 11, 0)).is_empty());
    assert_eq!(
        app.current_overview(at(DAY, 10, 30)).seats[0].status,
        SeatAvailabilityStatus::Borrowed
    );
    assert_eq!(app.delete_reservation(2, 1), Err(BookingError::Forbidden));
    assert_eq!(app.delete_reservation(1, 1), Ok(()));
    assert!(app.reservation_repository.query_reservation_by_id(1).is_none());
    assert_eq!(app.init_db(i64::MAX), Err(BookingError::InvalidInterval));
}

#[test]
fn admin_blackout_through_the_context() {
    let mut app = App::new(
        MemoryReservationRepository::new(),
        MemorySeatRepository::new(),
        MemoryTimeSlotRepository::new(),
    );
    let admin = UserClaim { user_id: 9, user_role: UserRole::Admin, exp: 0 };
    let student = UserClaim { user_id: 1, user_role: UserRole::Student, exp: 0 };
    let ts = TimeSlot::new(at(DAY, 12, 0), at(DAY, 13, 0));
    assert_eq!(
        app.set_unavailable_timeslots(&admin, TimeSlot::new(at(DAY, 13, 0), at(DAY, 12, 0))),
        Err(BookingError::InvalidInterval)
    );
    assert_eq!(app.set_unavailable_timeslots(&student, ts), Err(BookingError::Unauthorized));
    assert!(!app.timeslot_repository.is_within_unavailable_timeslot(at(DAY, 12, 30)));
    assert_eq!(app.set_unavailable_timeslots(&admin, ts), Ok(()));
    assert!(app.timeslot_repository.is_within_unavailable_timeslot(at(DAY, 12, 30)));
}

#[test]
fn daily_maintenance_seeds_the_last_day_once() {
    let mut app = App::new(
        MemoryReservationRepository::new(),
        MemorySeatRepository::new(),
        MemoryTimeSlotRepository::new(),
    );
    assert_eq!(app.daily_maintenance(DAY), Ok(()));
    assert!(app.timeslot_repository.is_within_unavailable_timeslot(at(DAY + 3, 7, 0)));
    assert!(!app.timeslot_repository.is_within_unavailable_timeslot(at(DAY, 7, 0)));
    assert_eq!(app.daily_maintenance(DAY), Ok(()));
    assert!(!app.timeslot_repository.is_within_unavailable_timeslot(at(DAY + 3, 12, 0)));
}

#[test]
fn log_files_expire_after_a_week() {
    // 2024-10-08 is local day 20004.
    let today = 20004;
    assert!(is_expired_log("2024-10-01.log", today));
    assert!(is_expired_log("2024-09-30.log", today));
    assert!(!is_expired_log("2024-10-02.log", today));
    assert!(!is_expired_log("2024-10-08.log", today));
    assert!(is_expired_log("2024-10-01", today));
    assert!(!is_expired_log("notes.txt", today));
    assert!(!is_expired_log("2024-13-01.log", today));
    assert!(!is_expired_log("", today));
    assert!(is_log_date_expired(Some(719163 + 19997), today));
    assert!(!is_log_date_expired(Some(719163 + 19998), today));
    assert!(!is_log_date_expired(None, today));
}
