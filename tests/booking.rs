use seat_reservation::error::BookingError;
use seat_reservation::memory::{MemoryReservationRepository, MemorySeatRepository, MemoryTimeSlotRepository};
use seat_reservation::model::{SeatAvailabilityStatus, UserClaim, UserRole};
use seat_reservation::repository::{ReservationRepository, TimeSlotRepository};
use seat_reservation::service::{ReservationService, SeatService, TimeSlotService};
use seat_reservation::timeslot::TimeSlot;

/// A Friday, as a local day number.
const DAY: i64 = 20000;

/// The instant at `h:m` local time (UTC+8) on local day `day`.
fn at(day: i64, h: i64, m: i64) -> i64 {
    day * 86400 - 28800 + h * 3600 + m * 60
}

fn slot(day: i64, h1: i64, m1: i64, h2: i64, m2: i64) -> TimeSlot {
    TimeSlot::new(at(day, h1, m1), at(day, h2, m2))
}

fn admin() -> UserClaim {
    UserClaim { user_id: 99, user_role: UserRole::Admin, exp: 0 }
}

#[test]
fn adjacent_slots_are_admitted_and_overlap_conflicts() {
    let svc = ReservationService::new();
    let mut ledger = MemoryReservationRepository::new();
    let blackout = MemoryTimeSlotRepository::new();
    let now = at(DAY, 9, 0);
    assert_eq!(svc.reserve_seat(&mut ledger, &blackout, 1, 5, slot(DAY, 10, 0, 11, 0), now), Ok(1));
    assert_eq!(svc.reserve_seat(&mut ledger, &blackout, 2, 5, slot(DAY, 11, 0, 12, 0), now), Ok(2));
    assert_eq!(
        svc.reserve_seat(&mut ledger, &blackout, 3, 5, slot(DAY, 10, 30, 11, 30), now),
        Err(BookingError::Conflict)
    );
    // Another seat is free over the same slot.
    assert_eq!(svc.reserve_seat(&mut ledger, &blackout, 3, 6, slot(DAY, 10, 30, 11, 30), now), Ok(3));
}

#[test]
fn start_before_now_is_past_start() {
    let svc = ReservationService::new();
    let mut ledger = MemoryReservationRepository::new();
    let mut blackout = MemoryTimeSlotRepository::new();
    blackout.insert_timeslot(slot(DAY, 0, 0, 23, 0)).unwrap();
    let now = at(DAY, 12, 0);
    assert_eq!(
        svc.reserve_seat(&mut ledger, &blackout, 1, 1, slot(DAY, 11, 59, 13, 0), now),
        Err(BookingError::PastStart)
    );
    assert_eq!(
        svc.reserve_seat(&mut ledger, &blackout, 1, 2, slot(DAY, 8, 0, 9, 0), now),
        Err(BookingError::PastStart)
    );
}

#[test]
fn interval_across_midnight_is_cross_day() {
    let svc = ReservationService::new();
    let mut ledger = MemoryReservationRepository::new();
    let blackout = MemoryTimeSlotRepository::new();
    let ts = TimeSlot::new(at(DAY, 23, 0), at(DAY + 1, 1, 0));
    assert_eq!(
        svc.reserve_seat(&mut ledger, &blackout, 1, 1, ts, at(DAY, 8, 0)),
        Err(BookingError::CrossDayInterval)
    );
}

#[test]
fn request_inside_blackout_is_blacked_out() {
    let svc = ReservationService::new();
    let mut ledger = MemoryReservationRepository::new();
    let mut blackout = MemoryTimeSlotRepository::new();
    blackout.insert_timeslot(slot(DAY, 0, 0, 8, 0)).unwrap();
    assert_eq!(
        svc.reserve_seat(&mut ledger, &blackout, 1, 1, slot(DAY, 2, 0, 3, 0), at(DAY, 1, 0)),
        Err(BookingError::BlackedOut)
    );
    // A request that only touches the window's end is admitted.
    assert_eq!(svc.reserve_seat(&mut ledger, &blackout, 1, 1, slot(DAY, 8, 0, 9, 0), at(DAY, 1, 0)), Ok(1));
}

#[test]
fn end_before_start_is_invalid_interval() {
    let svc = ReservationService::new();
    let mut ledger = MemoryReservationRepository::new();
    let blackout = MemoryTimeSlotRepository::new();
    let ts = TimeSlot::new(at(DAY, 11, 0), at(DAY, 10, 0));
    assert_eq!(
        svc.reserve_seat(&mut ledger, &blackout, 1, 1, ts, at(DAY, 8, 0)),
        Err(BookingError::InvalidInterval)
    );
}

#[test]
fn revoke_checks_ownership() {
    let svc = ReservationService::new();
    let mut ledger = MemoryReservationRepository::new();
    let blackout = MemoryTimeSlotRepository::new();
    let id = svc.reserve_seat(&mut ledger, &blackout, 1, 3, slot(DAY, 10, 0, 11, 0), at(DAY, 9, 0)).unwrap();
    assert_eq!(svc.delete_reservation(&mut ledger, 2, id), Err(BookingError::Forbidden));
    let kept = ledger.query_reservation_by_id(id).unwrap();
    assert_eq!(kept.user_id, 1);
    assert_eq!(kept.seat_id, 3);
    assert_eq!(svc.delete_reservation(&mut ledger, 1, id), Ok(()));
    assert!(ledger.query_reservation_by_id(id).is_none());
    assert_eq!(svc.delete_reservation(&mut ledger, 1, id), Err(BookingError::NotFound));
}

#[test]
fn contending_requests_admit_exactly_one() {
    let svc = ReservationService::new();
    let mut ledger = MemoryReservationRepository::new();
    let blackout = MemoryTimeSlotRepository::new();
    let now = at(DAY, 9, 0);
    let mut ok = 0;
    let mut conflicts = 0;
    for k in 0..5i64 {
        let ts = slot(DAY, 10, 5 * k, 11, 5 * k);
        match svc.reserve_seat(&mut ledger, &blackout, 100 + k, 7, ts, now) {
            Ok(_) => ok += 1,
            Err(BookingError::Conflict) => conflicts += 1,
            Err(e) => panic!("unexpected {:?}", e),
        }
    }
    assert_eq!(ok, 1);
    assert_eq!(conflicts, 4);
}

#[test]
fn ledger_never_holds_overlapping_reservations() {
    let svc = ReservationService::new();
    let mut ledger = MemoryReservationRepository::new();
    let blackout = MemoryTimeSlotRepository::new();
    let now = at(DAY, 6, 0);
    for k in 0..12i64 {
        let ts = slot(DAY, 7 + k / 2, 20 * (k % 3), 8 + k / 2, 10 * (k % 4));
        let _ = svc.reserve_seat(&mut ledger, &blackout, 200 + k, 1 + (k % 2) as u16, ts, now);
    }
    for seat in 1..=2u16 {
        let all = ledger.query_seat_reservations(seat, slot(DAY, 0, 0, 23, 59));
        for a in 0..all.len() {
            for b in 0..all.len() {
                if a != b {
                    assert!(!all[a].timeslot.overlaps(&all[b].timeslot));
                }
            }
        }
    }
}

#[test]
fn second_booking_extending_into_the_day_is_refused() {
    let svc = ReservationService::new();
    let mut ledger = MemoryReservationRepository::new();
    let blackout = MemoryTimeSlotRepository::new();
    // Booked early; it runs until 14:00.
    assert!(svc.reserve_seat(&mut ledger, &blackout, 1, 1, slot(DAY, 10, 0, 14, 0), at(DAY, 9, 0)).is_ok());
    assert_eq!(
        svc.reserve_seat(&mut ledger, &blackout, 1, 2, slot(DAY, 15, 0, 16, 0), at(DAY, 10, 12)),
        Err(BookingError::ActiveBookingExists)
    );
}

#[test]
fn next_slot_may_be_booked_in_the_last_half_hour() {
    let svc = ReservationService::new();
    let mut ledger = MemoryReservationRepository::new();
    let blackout = MemoryTimeSlotRepository::new();
    assert!(svc.reserve_seat(&mut ledger, &blackout, 1, 1, slot(DAY, 10, 0, 10, 30), at(DAY, 9, 50)).is_ok());
    // At 10:12 the next boundary is 10:30; the booking ends there.
    assert!(svc.reserve_seat(&mut ledger, &blackout, 1, 1, slot(DAY, 10, 30, 11, 0), at(DAY, 10, 12)).is_ok());
}

#[test]
fn user_and_seat_listings() {
    let svc = ReservationService::new();
    let mut ledger = MemoryReservationRepository::new();
    let blackout = MemoryTimeSlotRepository::new();
    let now = at(DAY, 9, 0);
    svc.reserve_seat(&mut ledger, &blackout, 1, 1, slot(DAY, 10, 0, 11, 0), now).unwrap();
    svc.reserve_seat(&mut ledger, &blackout, 2, 1, slot(DAY, 11, 0, 12, 0), now).unwrap();
    let mine = svc.get_user_reservations(&ledger, 1, now);
    assert_eq!(mine.len(), 1);
    assert_eq!(mine[0].user_id, 1);
    assert!(svc.get_user_reservations(&ledger, 1, at(DAY, 11, 0)).is_empty());
    let on_seat = svc.get_seat_reservations(&ledger, 1, slot(DAY, 10, 30, 11, 30)).unwrap();
    assert_eq!(on_seat.len(), 2);
    let touching = svc.get_seat_reservations(&ledger, 1, slot(DAY, 12, 0, 13, 0)).unwrap();
    assert!(touching.is_empty());
    assert_eq!(
        svc.get_seat_reservations(&ledger, 1, TimeSlot::new(at(DAY, 12, 0), at(DAY, 11, 0))).err(),
        Some(BookingError::InvalidInterval)
    );
}

#[test]
fn overviews_report_each_seat() {
    let seats_svc = SeatService::new();
    let svc = ReservationService::new();
    let mut seats = MemorySeatRepository::new();
    let mut ledger = MemoryReservationRepository::new();
    let mut blackout = MemoryTimeSlotRepository::new();
    for id in 1..=3u16 {
        seats_svc.create_seat(&mut seats, id, true, None).unwrap();
    }
    seats_svc.set_seat_info(&mut seats, &admin(), 2, false, Some("broken lamp".to_string())).unwrap();
    svc.reserve_seat(&mut ledger, &blackout, 1, 3, slot(DAY, 10, 0, 11, 0), at(DAY, 9, 0)).unwrap();

    let now = seats_svc.get_seats_overview(&seats, &ledger, &blackout, at(DAY, 10, 30));
    let statuses: Vec<_> = now.seats.iter().map(|s| (s.seat_id, s.status)).collect();
    assert_eq!(
        statuses,
        vec![
            (1, SeatAvailabilityStatus::Available),
            (2, SeatAvailabilityStatus::Unavailable),
            (3, SeatAvailabilityStatus::Borrowed)
        ]
    );

    let later = seats_svc.get_seats_overview(&seats, &ledger, &blackout, at(DAY, 11, 0));
    assert_eq!(later.seats[2].status, SeatAvailabilityStatus::Available);

    let over = seats_svc.get_seats_overview_in_timeslot(&seats, &ledger, slot(DAY, 10, 45, 12, 0)).unwrap();
    let statuses: Vec<_> = over.seats.iter().map(|s| s.status).collect();
    assert_eq!(
        statuses,
        vec![
            SeatAvailabilityStatus::Available,
            SeatAvailabilityStatus::Available,
            SeatAvailabilityStatus::Borrowed
        ]
    );
    assert_eq!(
        seats_svc
            .get_seats_overview_in_timeslot(&seats, &ledger, TimeSlot::new(at(DAY, 12, 0), at(DAY, 10, 0)))
            .err(),
        Some(BookingError::InvalidInterval)
    );

    blackout.insert_timeslot(slot(DAY, 10, 0, 12, 0)).unwrap();
    let dark = seats_svc.get_seats_overview(&seats, &ledger, &blackout, at(DAY, 10, 30));
    assert!(dark.seats.iter().all(|s| s.status == SeatAvailabilityStatus::Unavailable));
    assert_eq!(dark.seats.len(), 3);
}

#[test]
fn seat_info_needs_an_admin_and_an_existing_seat() {
    let seats_svc = SeatService::new();
    let mut seats = MemorySeatRepository::new();
    let student = UserClaim { user_id: 1, user_role: UserRole::Student, exp: 0 };
    seats_svc.create_seat(&mut seats, 4, true, None).unwrap();
    assert_eq!(seats_svc.set_seat_info(&mut seats, &student, 4, false, None), Err(BookingError::Unauthorized));
    assert_eq!(seats_svc.set_seat_info(&mut seats, &admin(), 0, false, None), Err(BookingError::InvalidSeat));
    assert_eq!(seats_svc.set_seat_info(&mut seats, &admin(), 5, false, None), Err(BookingError::NotFound));
    assert_eq!(seats_svc.set_seat_info(&mut seats, &admin(), 4, false, None), Ok(()));
    // Creating an existing seat leaves it as it is.
    seats_svc.create_seat(&mut seats, 4, true, None).unwrap();
    let flags = seat_reservation::repository::SeatRepository::query_seat_flags(&seats);
    assert_eq!(flags, vec![(4, false)]);
}

#[test]
fn blackout_windows_need_an_admin_and_a_valid_slot() {
    let ts_svc = TimeSlotService::new();
    let mut blackout = MemoryTimeSlotRepository::new();
    let student = UserClaim { user_id: 1, user_role: UserRole::Student, exp: 0 };
    assert_eq!(
        ts_svc.set_unavailable_timeslots(&mut blackout, &student, slot(DAY, 1, 0, 2, 0)),
        Err(BookingError::Unauthorized)
    );
    assert_eq!(
        ts_svc.set_unavailable_timeslots(&mut blackout, &admin(), TimeSlot::new(at(DAY, 2, 0), at(DAY, 1, 0))),
        Err(BookingError::InvalidInterval)
    );
    assert!(!blackout.is_within_unavailable_timeslot(at(DAY, 1, 30)));
    assert_eq!(ts_svc.set_unavailable_timeslots(&mut blackout, &admin(), slot(DAY, 1, 0, 2, 0)), Ok(()));
    assert!(blackout.is_within_unavailable_timeslot(at(DAY, 1, 30)));
    assert!(!blackout.is_within_unavailable_timeslot(at(DAY, 2, 0)));
    assert!(blackout.is_overlapping_with_unavailable_timeslot(slot(DAY, 1, 59, 3, 0)));
    assert!(!blackout.is_overlapping_with_unavailable_timeslot(slot(DAY, 2, 0, 3, 0)));
}

#[test]
fn contending_inserts_succeed_once() {
    let mut ledger = MemoryReservationRepository::new();
    let mut ok = 0;
    for k in 0..4i64 {
        match ledger.insert_reservation(300 + k, 9, slot(DAY, 14, 10 * k, 15, 10 * k)) {
            Ok(_) => ok += 1,
            Err(e) => assert_eq!(e, BookingError::Conflict),
        }
    }
    assert_eq!(ok, 1);
    assert_eq!(ledger.query_seat_reservations(9, slot(DAY, 0, 0, 23, 0)).len(), 1);
}
