use crate::error::BookingError;
use crate::model::{Reservation, Seat};
use crate::repository::{
    ids_unique, lemma_filter_step, no_double_booking, owner_pred, seat_conflict, seat_occupied_at, seat_pred,
    ReservationRepository, has_seat, seat_ids_unique, SeatRepository,
    TimeSlotRepository,
};
use crate::timeslot::{slot_contains, slots_overlap, TimeSlot};
use vstd::prelude::*;

verus! {

/// A ledger held in memory. Ids are handed out in increasing order from 1.
pub struct MemoryReservationRepository {
    rows: Vec<Reservation>,
    next_id: i64,
}

impl MemoryReservationRepository {
    /// An empty ledger.
    pub fn new() -> (r: MemoryReservationRepository)
        ensures
            r.inv(),
            r.has_room(),
            r.reservations() == Seq::<Reservation>::empty(),
    {
        MemoryReservationRepository { rows: Vec::new(), next_id: 1 }
    }
}

impl ReservationRepository for MemoryReservationRepository {
    closed spec fn reservations(&self) -> Seq<Reservation> {
        self.rows@
    }

    closed spec fn inv(&self) -> bool {
        &&& no_double_booking(self.rows@)
        &&& ids_unique(self.rows@)
        &&& 1 <= self.next_id
        &&& forall|i: int| 0 <= i < self.rows@.len() ==> #[trigger] self.rows@[i].reservation_id < self.next_id
    }

    closed spec fn has_room(&self) -> bool {
        self.next_id < i64::MAX
    }

    proof fn lemma_inv(&self) {
    }

    fn query_seat_reservations(&self, seat_id: u16, timeslot: TimeSlot) -> (r: Vec<Reservation>) {
        let mut out: Vec<Reservation> = Vec::new();
        let mut i: usize = 0;
        while i < self.rows.len()
            invariant
                0 <= i <= self.rows@.len(),
                out@ == self.rows@.subrange(0, i as int).filter(seat_pred(seat_id, timeslot)),
            decreases self.rows@.len() - i,
        {
            proof {
                lemma_filter_step(self.rows@, i as int, seat_pred(seat_id, timeslot));
            }
            let row = self.rows[i];
            if row.seat_id == seat_id && row.timeslot.overlaps(&timeslot) {
                out.push(row);
            }
            i = i + 1;
        }
        assert(self.rows@.subrange(0, self.rows@.len() as int) =~= self.rows@);
        out
    }

    fn query_user_reservations(&self, user_id: i64, now: i64) -> (r: Vec<Reservation>) {
        let mut out: Vec<Reservation> = Vec::new();
        let mut i: usize = 0;
        while i < self.rows.len()
            invariant
                0 <= i <= self.rows@.len(),
                out@ == self.rows@.subrange(0, i as int).filter(owner_pred(user_id, now)),
            decreases self.rows@.len() - i,
        {
            proof {
                lemma_filter_step(self.rows@, i as int, owner_pred(user_id, now));
            }
            let row = self.rows[i];
            if row.user_id == user_id && now < row.timeslot.end_time {
                out.push(row);
            }
            i = i + 1;
        }
        assert(self.rows@.subrange(0, self.rows@.len() as int) =~= self.rows@);
        out
    }

    fn has_overlapping_reservation(&self, seat_id: u16, timeslot: TimeSlot) -> (r: bool) {
        let mut i: usize = 0;
        while i < self.rows.len()
            invariant
                0 <= i <= self.rows@.len(),
                !seat_conflict(self.rows@.subrange(0, i as int), seat_id, timeslot),
            decreases self.rows@.len() - i,
        {
            let row = self.rows[i];
            if row.seat_id == seat_id && row.timeslot.overlaps(&timeslot) {
                assert(self.rows@[i as int].seat_id == seat_id);
                return true;
            }
            assert forall|k: int| 0 <= k < i + 1 implies !(#[trigger] self.rows@.subrange(0, i + 1)[k].seat_id == seat_id
                && slots_overlap(self.rows@.subrange(0, i + 1)[k].timeslot, timeslot)) by {
                if k < i {
                    assert(self.rows@.subrange(0, i + 1)[k] == self.rows@.subrange(0, i as int)[k]);
                }
            }
            i = i + 1;
        }
        assert(self.rows@.subrange(0, self.rows@.len() as int) =~= self.rows@);
        false
    }

    fn has_reservation_at(&self, seat_id: u16, t: i64) -> (r: bool) {
        let mut i: usize = 0;
        while i < self.rows.len()
            invariant
                0 <= i <= self.rows@.len(),
                !seat_occupied_at(self.rows@.subrange(0, i as int), seat_id, t as int),
            decreases self.rows@.len() - i,
        {
            let row = self.rows[i];
            if row.seat_id == seat_id && row.timeslot.contains(t) {
                assert(self.rows@[i as int].seat_id == seat_id);
                return true;
            }
            assert forall|k: int| 0 <= k < i + 1 implies !(#[trigger] self.rows@.subrange(0, i + 1)[k].seat_id == seat_id
                && slot_contains(self.rows@.subrange(0, i + 1)[k].timeslot, t as int)) by {
                if k < i {
                    assert(self.rows@.subrange(0, i + 1)[k] == self.rows@.subrange(0, i as int)[k]);
                }
            }
            i = i + 1;
        }
        assert(self.rows@.subrange(0, self.rows@.len() as int) =~= self.rows@);
        false
    }

    fn insert_reservation(&mut self, user_id: i64, seat_id: u16, timeslot: TimeSlot) -> (r: Result<i64, BookingError>) {
        if self.has_overlapping_reservation(seat_id, timeslot) {
            return Err(BookingError::Conflict);
        }
        if self.next_id == i64::MAX {
            return Err(BookingError::Storage);
        }
        let id = self.next_id;
        let row = Reservation {
            reservation_id: id,
            user_id,
            timeslot,
            seat_id,
            check_in_time: None,
            check_out_time: None,
        };
        let ghost before = self.rows@;
        self.rows.push(row);
        self.next_id = id + 1;
        proof {
            let after = self.rows@;
            assert(after == before.push(row));
            assert forall|i: int, j: int|
                0 <= i < after.len() && 0 <= j < after.len() && i != j && after[i].seat_id == after[j].seat_id
                    implies !slots_overlap(#[trigger] after[i].timeslot, #[trigger] after[j].timeslot) by {
                if i == before.len() {
                    assert(before[j].seat_id == seat_id);
                } else if j == before.len() {
                    assert(before[i].seat_id == seat_id);
                }
            }
            assert forall|i: int| 0 <= i < before.len() implies #[trigger] before[i].reservation_id != id by {
            }
        }
        Ok(id)
    }

    fn delete_reservation(&mut self, reservation_id: i64) -> (r: Result<(), BookingError>) {
        let mut i: usize = 0;
        while i < self.rows.len()
            invariant
                0 <= i <= self.rows@.len(),
                *self == *old(self),
                self.inv(),
                forall|k: int| 0 <= k < i ==> #[trigger] self.rows@[k].reservation_id != reservation_id,
            decreases self.rows@.len() - i,
        {
            if self.rows[i].reservation_id == reservation_id {
                let ghost before = self.rows@;
                self.rows.remove(i);
                proof {
                    let after = self.rows@;
                    assert(after == before.remove(i as int));
                    assert(before[i as int].reservation_id == reservation_id);
                    assert(before == old(self).reservations());
                    assert(old(self).reservations()[i as int].reservation_id == reservation_id);
                    assert(self.reservations() == old(self).reservations().remove(i as int));
                    assert forall|a: int| 0 <= a < after.len() implies #[trigger] after[a] == before[if a < i { a } else { a + 1 }] by {}
                    assert forall|a: int, b: int|
                        0 <= a < after.len() && 0 <= b < after.len() && a != b && after[a].seat_id == after[b].seat_id
                            implies !slots_overlap(#[trigger] after[a].timeslot, #[trigger] after[b].timeslot) by {
                        let a2 = if a < i { a } else { a + 1 };
                        let b2 = if b < i { b } else { b + 1 };
                        assert(after[a] == before[a2]);
                        assert(after[b] == before[b2]);
                    }
                    assert forall|a: int, b: int|
                        0 <= a < after.len() && 0 <= b < after.len() && a != b
                            implies #[trigger] after[a].reservation_id != #[trigger] after[b].reservation_id by {
                        let a2 = if a < i { a } else { a + 1 };
                        let b2 = if b < i { b } else { b + 1 };
                        assert(after[a] == before[a2]);
                        assert(after[b] == before[b2]);
                    }
                    assert forall|a: int| 0 <= a < after.len() implies #[trigger] after[a].reservation_id < self.next_id by {
                        let a2 = if a < i { a } else { a + 1 };
                        assert(after[a] == before[a2]);
                    }
                }
                return Ok(());
            }
            i = i + 1;
        }
        Err(BookingError::NotFound)
    }

    fn query_reservation_by_id(&self, reservation_id: i64) -> (r: Option<Reservation>) {
        let mut i: usize = 0;
        while i < self.rows.len()
            invariant
                0 <= i <= self.rows@.len(),
                forall|k: int| 0 <= k < i ==> #[trigger] self.rows@[k].reservation_id != reservation_id,
            decreases self.rows@.len() - i,
        {
            if self.rows[i].reservation_id == reservation_id {
                assert(self.reservations()[i as int] == self.rows@[i as int]);
                return Some(self.rows[i]);
            }
            i = i + 1;
        }
        None
    }
}

/// Blackout windows held in memory.
pub struct MemoryTimeSlotRepository {
    windows: Vec<TimeSlot>,
}

impl MemoryTimeSlotRepository {
    /// A store with no windows.
    pub fn new() -> (r: MemoryTimeSlotRepository)
        ensures
            r.windows() == Seq::<TimeSlot>::empty(),
    {
        MemoryTimeSlotRepository { windows: Vec::new() }
    }
}

impl TimeSlotRepository for MemoryTimeSlotRepository {
    closed spec fn windows(&self) -> Seq<TimeSlot> {
        self.windows@
    }

    fn is_overlapping_with_unavailable_timeslot(&self, timeslot: TimeSlot) -> (r: bool) {
        let mut i: usize = 0;
        while i < self.windows.len()
            invariant
                0 <= i <= self.windows@.len(),
                forall|k: int| 0 <= k < i ==> !slots_overlap(#[trigger] self.windows@[k], timeslot),
            decreases self.windows@.len() - i,
        {
            if self.windows[i].overlaps(&timeslot) {
                return true;
            }
            i = i + 1;
        }
        false
    }

    fn is_within_unavailable_timeslot(&self, time: i64) -> (r: bool) {
        let mut i: usize = 0;
        while i < self.windows.len()
            invariant
                0 <= i <= self.windows@.len(),
                forall|k: int| 0 <= k < i ==> !slot_contains(#[trigger] self.windows@[k], time as int),
            decreases self.windows@.len() - i,
        {
            if self.windows[i].contains(time) {
                return true;
            }
            i = i + 1;
        }
        false
    }

    fn insert_timeslot(&mut self, timeslot: TimeSlot) -> (r: Result<(), BookingError>) {
        self.windows.push(timeslot);
        Ok(())
    }
}

/// Seats held in memory.
pub struct MemorySeatRepository {
    seats: Vec<Seat>,
}

impl MemorySeatRepository {
    /// A store with no seats.
    pub fn new() -> (r: MemorySeatRepository)
        ensures
            r.inv(),
            r.seats() == Seq::<Seat>::empty(),
    {
        MemorySeatRepository { seats: Vec::new() }
    }

    /// The position of the seat with id `seat_id`, if any.
    fn position(&self, seat_id: u16) -> (r: Option<usize>)
        ensures
            match r {
                Some(i) => i < self.seats@.len() && self.seats@[i as int].seat_id == seat_id,
                None => !has_seat(self.seats@, seat_id),
            },
    {
        let mut i: usize = 0;
        while i < self.seats.len()
            invariant
                0 <= i <= self.seats@.len(),
                forall|k: int| 0 <= k < i ==> #[trigger] self.seats@[k].seat_id != seat_id,
            decreases self.seats@.len() - i,
        {
            if self.seats[i].seat_id == seat_id {
                return Some(i);
            }
            i = i + 1;
        }
        None
    }
}

impl SeatRepository for MemorySeatRepository {
    closed spec fn seats(&self) -> Seq<Seat> {
        self.seats@
    }

    closed spec fn inv(&self) -> bool {
        seat_ids_unique(self.seats@)
    }

    proof fn lemma_inv(&self) {
    }

    fn query_seat_flags(&self) -> (r: Vec<(u16, bool)>) {
        let mut out: Vec<(u16, bool)> = Vec::new();
        let mut i: usize = 0;
        while i < self.seats.len()
            invariant
                0 <= i <= self.seats@.len(),
                out@.len() == i,
                forall|k: int| 0 <= k < i ==> #[trigger] out@[k] == (self.seats@[k].seat_id, self.seats@[k].available),
            decreases self.seats@.len() - i,
        {
            out.push((self.seats[i].seat_id, self.seats[i].available));
            i = i + 1;
        }
        out
    }

    fn query_seat(&self, seat_id: u16) -> (r: Option<Seat>) {
        match self.position(seat_id) {
            Some(i) => {
                let s = self.seats[i].duplicate();
                assert(self.seats()[i as int].seat_id == seat_id);
                Some(s)
            },
            None => None,
        }
    }

    fn update_seat(&mut self, seat_id: u16, available: bool, other_info: Option<String>) -> (r: Result<(), BookingError>) {
        match self.position(seat_id) {
            Some(i) => {
                let ghost before = self.seats@;
                self.seats.set(i, Seat { seat_id, available, other_info });
                proof {
                    assert(old(self).seats()[i as int].seat_id == seat_id);
                    assert forall|a: int, b: int|
                        0 <= a < self.seats@.len() && 0 <= b < self.seats@.len() && a != b
                            implies #[trigger] self.seats@[a].seat_id != #[trigger] self.seats@[b].seat_id by {
                        assert(before[a].seat_id == self.seats@[a].seat_id);
                        assert(before[b].seat_id == self.seats@[b].seat_id);
                    }
                }
                Ok(())
            },
            None => Err(BookingError::NotFound),
        }
    }

    fn insert_seat(&mut self, seat_id: u16, available: bool, other_info: Option<String>) -> (r: Result<(), BookingError>) {
        match self.position(seat_id) {
            Some(i) => {
                assert(self.seats@[i as int].seat_id == seat_id);
                Ok(())
            },
            None => {
                let ghost before = self.seats@;
                self.seats.push(Seat { seat_id, available, other_info });
                proof {
                    assert(self.seats@.drop_last() =~= before);
                    assert forall|a: int, b: int|
                        0 <= a < self.seats@.len() && 0 <= b < self.seats@.len() && a != b
                            implies #[trigger] self.seats@[a].seat_id != #[trigger] self.seats@[b].seat_id by {
                        if a == before.len() {
                            assert(self.seats@[b] == before[b]);
                        } else if b == before.len() {
                            assert(self.seats@[a] == before[a]);
                        } else {
                            assert(self.seats@[a] == before[a]);
                            assert(self.seats@[b] == before[b]);
                        }
                    }
                }
                Ok(())
            },
        }
    }
}

} // verus!
