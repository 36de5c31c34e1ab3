use crate::error::BookingError;
use crate::repository::{blackout_overlaps, has_seat, SeatRepository, TimeSlotRepository};
use crate::timeslot::{day_start, is_weekend, is_weekend_day, local_day, local_instant, SECONDS_PER_DAY, TimeSlot};
use crate::validate::NUMBER_OF_SEATS;
use vstd::prelude::*;
use vstd::string::StrSliceExecFns;

verus! {

/// How many days ahead, today included, the windows are seeded at start-up.
pub const SEEDED_DAYS: i64 = 4;

/// The slot from `h1:m1:s1` to `h2:m2:s2` local time on local day `day`.
pub open spec fn day_slot(day: int, h1: int, m1: int, s1: int, h2: int, m2: int, s2: int) -> TimeSlot {
    TimeSlot {
        start_time: (day_start(day) + h1 * 3600 + m1 * 60 + s1) as i64,
        end_time: (day_start(day) + h2 * 3600 + m2 * 60 + s2) as i64,
    }
}

/// The off-hours windows of a day: before 09:00 and from 17:00 on a weekend,
/// before 08:00 and from 22:00 on a weekday, each running to 23:59:59.
pub open spec fn off_hours(day: int) -> Seq<TimeSlot> {
    if is_weekend(day) {
        seq![day_slot(day, 0, 0, 0, 9, 0, 0), day_slot(day, 17, 0, 0, 23, 59, 59)]
    } else {
        seq![day_slot(day, 0, 0, 0, 8, 0, 0), day_slot(day, 22, 0, 0, 23, 59, 59)]
    }
}

/// Appends `w` unless it overlaps a window already there.
pub open spec fn add_if_free(ws: Seq<TimeSlot>, w: TimeSlot) -> Seq<TimeSlot> {
    if blackout_overlaps(ws, w) {
        ws
    } else {
        ws.push(w)
    }
}

/// The windows after seeding the off-hours of `day`, one after the other.
pub open spec fn seeded(ws: Seq<TimeSlot>, day: int) -> Seq<TimeSlot> {
    add_if_free(add_if_free(ws, off_hours(day)[0]), off_hours(day)[1])
}

/// `b` starts with `a`.
pub open spec fn starts_with(b: Seq<TimeSlot>, a: Seq<TimeSlot>) -> bool {
    a.len() <= b.len() && forall|i: int| 0 <= i < a.len() ==> #[trigger] b[i] == a[i]
}

/// Seeding only appends.
proof fn lemma_seeded_extends(ws: Seq<TimeSlot>, day: int, before: Seq<TimeSlot>)
    requires
        starts_with(ws, before),
    ensures
        starts_with(seeded(ws, day), before),
{
    let ws1 = add_if_free(ws, off_hours(day)[0]);
    assert(starts_with(ws1, before));
    let ws2 = add_if_free(ws1, off_hours(day)[1]);
    assert(starts_with(ws2, before));
}

/// The local day's instants fit in an `i64`.
pub open spec fn day_in_range(day: int) -> bool {
    i64::MIN <= day_start(day) && day_start(day) + SECONDS_PER_DAY <= i64::MAX
}

/// The first `.` in a file name, if any.
pub open spec fn first_dot(s: Seq<char>) -> Option<int> {
    if exists|i: int| 0 <= i < s.len() && s[i] == '.' && forall|j: int| 0 <= j < i ==> s[j] != '.' {
        Some(choose|i: int| 0 <= i < s.len() && s[i] == '.' && forall|j: int| 0 <= j < i ==> s[j] != '.')
    } else {
        None
    }
}

/// A file name up to its first `.`.
pub open spec fn name_stem(s: Seq<char>) -> Seq<char> {
    match first_dot(s) {
        Some(i) => s.subrange(0, i),
        None => s,
    }
}

/// Days, in chrono's count from 0001-01-01 (day 1), of 1970-01-01.
pub const EPOCH_DAYS_FROM_CE: i64 = 719163;

/// Log files dated this many days before today, or earlier, are removed.
pub const LOG_RETENTION_DAYS: i64 = 7;

/// The date written as `YYYY-MM-DD` in `s`, as chrono's day count from
/// 0001-01-01, or `None` when `s` is no such date.
pub uninterp spec fn log_date_of(s: Seq<char>) -> Option<i32>;

/// Relies on `chrono::NaiveDate::parse_from_str` with the format `%Y-%m-%d`,
/// and on `chrono::Datelike::num_days_from_ce` for the day count of the date
/// it parsed (1 for 0001-01-01, 719163 for 1970-01-01). The result depends on
/// the text alone.
#[verifier::external_body]
fn parse_log_date(s: &str) -> (r: Option<i32>)
    ensures
        r == log_date_of(s@),
{
    match chrono::NaiveDate::parse_from_str(s, "%Y-%m-%d") {
        Ok(d) => Some(chrono::Datelike::num_days_from_ce(&d)),
        Err(_) => None,
    }
}

/// A log dated `date` (chrono's day count) is due for removal on local day
/// `today` (days since the epoch): it is at least a week old.
pub open spec fn log_expired(date: Option<i32>, today: int) -> bool {
    match date {
        Some(d) => d - EPOCH_DAYS_FROM_CE <= today - LOG_RETENTION_DAYS,
        None => false,
    }
}

/// Whether a log dated `date` is due for removal on local day `today`.
pub fn is_log_date_expired(date: Option<i32>, today: i64) -> (r: bool)
    ensures
        r == log_expired(date, today as int),
{
    match date {
        Some(d) => (d as i128) - (EPOCH_DAYS_FROM_CE as i128) <= (today as i128) - (LOG_RETENTION_DAYS as i128),
        None => false,
    }
}

/// The length of the file name up to its first `.`.
fn stem_length(file_name: &str) -> (r: usize)
    ensures
        r <= file_name@.len(),
        file_name@.subrange(0, r as int) == name_stem(file_name@),
{
    let n = file_name.unicode_len();
    let mut i: usize = 0;
    while i < n
        invariant
            0 <= i <= n,
            n == file_name@.len(),
            forall|j: int| 0 <= j < i ==> file_name@[j] != '.',
        decreases n - i,
    {
        if file_name.get_char(i) == '.' {
            let ghost s = file_name@;
            proof {
                assert(0 <= i < s.len() && s[i as int] == '.' && forall|j: int| 0 <= j < i ==> s[j] != '.');
                let k = choose|k: int| 0 <= k < s.len() && s[k] == '.' && forall|j: int| 0 <= j < k ==> s[j] != '.';
                assert(k == i as int) by {
                    if k < i {
                        assert(s[k] != '.');
                    } else if k > i {
                        assert(s[i as int] != '.');
                    }
                }
            }
            return i;
        }
        i = i + 1;
    }
    assert(file_name@.subrange(0, n as int) =~= file_name@);
    n
}

/// Whether the log file `file_name`, named after its date as `YYYY-MM-DD`
/// followed by `.` and an extension, is due for removal on local day
/// `today`. Files whose name does not start with such a date are kept.
pub fn is_expired_log(file_name: &str, today: i64) -> (r: bool)
    ensures
        r == log_expired(log_date_of(name_stem(file_name@)), today as int),
{
    let k = stem_length(file_name);
    let stem = file_name.substring_char(0, k);
    let date = parse_log_date(stem);
    is_log_date_expired(date, today)
}

/// Seconds from `now` to the next local midnight.
pub open spec fn until_next_midnight(now: int) -> int {
    day_start(local_day(now) + 1) - now
}

/// Seconds from `now` to the next local midnight, when the daily
/// maintenance is due.
pub fn seconds_until_next_midnight(now: i64) -> (r: i128)
    ensures
        r == until_next_midnight(now as int),
        0 < r <= SECONDS_PER_DAY,
{
    let day = crate::timeslot::local_day_of(now);
    proof {
        vstd::arithmetic::div_mod::lemma_fundamental_div_mod(now as int + crate::timeslot::LOCAL_OFFSET_SECONDS, SECONDS_PER_DAY as int);
    }
    local_instant(day, 24, 0, 0) - now as i128
}

/// Seeds the store and the seats at start-up.
pub struct InitService {}

impl InitService {
    pub fn new() -> (r: InitService) {
        InitService {}
    }

    /// Creates seats `1..=NUMBER_OF_SEATS`, each available and without a
    /// description; seats that exist already are left as they are.
    pub fn init_seats<S: SeatRepository>(&self, seats: &mut S) -> (r: Result<(), BookingError>)
        requires
            old(seats).inv(),
        ensures
            final(seats).inv(),
            old(seats).seats().len() <= final(seats).seats().len(),
            final(seats).seats().subrange(0, old(seats).seats().len() as int) == old(seats).seats(),
            r is Ok ==> forall|id: u16| 1 <= id <= NUMBER_OF_SEATS ==> #[trigger] has_seat(final(seats).seats(), id),
            r is Err ==> r->Err_0 == BookingError::Storage,
    {
        let mut seat_id: u16 = 1;
        while seat_id <= NUMBER_OF_SEATS
            invariant
                1 <= seat_id <= NUMBER_OF_SEATS + 1,
                seats.inv(),
                old(seats).seats().len() <= seats.seats().len(),
                seats.seats().subrange(0, old(seats).seats().len() as int) == old(seats).seats(),
                forall|id: u16| 1 <= id < seat_id ==> #[trigger] has_seat(seats.seats(), id),
            decreases NUMBER_OF_SEATS + 1 - seat_id,
        {
            let ghost before = seats.seats();
            let r = seats.insert_seat(seat_id, true, None);
            if r.is_err() {
                proof {
                    assert(seats.seats() == before);
                }
                return r;
            }
            proof {
                let after = seats.seats();
                if !has_seat(before, seat_id) {
                    assert(after.subrange(0, before.len() as int) =~= after.drop_last());
                    assert(after.subrange(0, old(seats).seats().len() as int)
                        =~= before.subrange(0, old(seats).seats().len() as int));
                    assert(after[after.len() - 1].seat_id == seat_id);
                    assert forall|id: u16| 1 <= id < seat_id implies #[trigger] has_seat(after, id) by {
                        assert(has_seat(before, id));
                        let k = choose|k: int| 0 <= k < before.len() && #[trigger] before[k].seat_id == id;
                        assert(after[k] == before[k]);
                    }
                }
            }
            seat_id = seat_id + 1;
        }
        Ok(())
    }

    /// Adds the off-hours windows of local day `today + date`, each unless it
    /// overlaps a window already stored.
    pub fn init_unavailable_timeslot<T: TimeSlotRepository>(
        &self,
        timeslots: &mut T,
        today: i64,
        date: i64,
    ) -> (r: Result<(), BookingError>)
        requires
            day_in_range(today + date),
        ensures
            r is Ok ==> final(timeslots).windows() == seeded(old(timeslots).windows(), today + date),
            blackout_overlaps(old(timeslots).windows(), off_hours(today + date)[0])
                && blackout_overlaps(old(timeslots).windows(), off_hours(today + date)[1]) ==> r is Ok,
            r is Err ==> r->Err_0 == BookingError::Storage && (final(timeslots).windows() == old(timeslots).windows()
                || (!blackout_overlaps(old(timeslots).windows(), off_hours(today + date)[0])
                && final(timeslots).windows() == old(timeslots).windows().push(off_hours(today + date)[0]))),
    {
        let day = today + date;
        assert(-0x1_0000_0000_0000 <= day <= 0x1_0000_0000_0000) by (nonlinear_arith)
            requires day_in_range(day as int),
        ;
        let weekend = is_weekend_day(day);
        let (first, second) = if weekend {
            (
                TimeSlot::new(local_instant(day, 0, 0, 0) as i64, local_instant(day, 9, 0, 0) as i64),
                TimeSlot::new(local_instant(day, 17, 0, 0) as i64, local_instant(day, 23, 59, 59) as i64),
            )
        } else {
            (
                TimeSlot::new(local_instant(day, 0, 0, 0) as i64, local_instant(day, 8, 0, 0) as i64),
                TimeSlot::new(local_instant(day, 22, 0, 0) as i64, local_instant(day, 23, 59, 59) as i64),
            )
        };
        assert(first == off_hours(day as int)[0]);
        assert(second == off_hours(day as int)[1]);
        if !timeslots.is_overlapping_with_unavailable_timeslot(first) {
            timeslots.insert_timeslot(first)?;
        }
        if !timeslots.is_overlapping_with_unavailable_timeslot(second) {
            timeslots.insert_timeslot(second)?;
        }
        Ok(())
    }

    /// Seeds the seats and the off-hours windows of the next
    /// `SEEDED_DAYS` days, today first.
    pub fn init_db<S: SeatRepository, T: TimeSlotRepository>(
        &self,
        seats: &mut S,
        timeslots: &mut T,
        today: i64,
    ) -> (r: Result<(), BookingError>)
        requires
            old(seats).inv(),
            day_in_range(today as int),
            day_in_range(today + SEEDED_DAYS),
        ensures
            final(seats).inv(),
            r is Ok ==> forall|id: u16| 1 <= id <= NUMBER_OF_SEATS ==> #[trigger] has_seat(final(seats).seats(), id),
            r is Ok ==> final(timeslots).windows() == seeded(seeded(seeded(seeded(
                old(timeslots).windows(), today as int), today + 1), today + 2), today + 3),
            r is Err ==> r->Err_0 == BookingError::Storage,
            starts_with(final(timeslots).windows(), old(timeslots).windows()),
    {
        let seeded_seats = self.init_seats(seats);
        if seeded_seats.is_err() {
            return seeded_seats;
        }
        let mut date: i64 = 0;
        while date < SEEDED_DAYS
            invariant
                0 <= date <= SEEDED_DAYS,
                day_in_range(today as int),
                day_in_range(today + SEEDED_DAYS),
                seats.inv(),
                forall|id: u16| 1 <= id <= NUMBER_OF_SEATS ==> #[trigger] has_seat(seats.seats(), id),
                starts_with(timeslots.windows(), old(timeslots).windows()),
                date == 0 ==> timeslots.windows() == old(timeslots).windows(),
                date == 1 ==> timeslots.windows() == seeded(old(timeslots).windows(), today as int),
                date == 2 ==> timeslots.windows() == seeded(seeded(old(timeslots).windows(), today as int), today + 1),
                date == 3 ==> timeslots.windows() == seeded(seeded(seeded(old(timeslots).windows(), today as int), today + 1), today + 2),
                date == 4 ==> timeslots.windows() == seeded(seeded(seeded(seeded(old(timeslots).windows(), today as int), today + 1), today + 2), today + 3),
            decreases SEEDED_DAYS - date,
        {
            let ghost before = timeslots.windows();
            let step = self.init_unavailable_timeslot(timeslots, today, date);
            proof {
                if step is Ok {
                    lemma_seeded_extends(before, today + date, old(timeslots).windows());
                }
            }
            if step.is_err() {
                return step;
            }
            date = date + 1;
        }
        Ok(())
    }
}

} // verus!
