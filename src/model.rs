use crate::timeslot::TimeSlot;
use vstd::prelude::*;
use vstd::string::StrSliceExecFns;

verus! {

/// A committed claim of one seat for one time slot.
#[derive(Clone, Copy, Debug)]
pub struct Reservation {
    pub reservation_id: i64,
    pub user_id: i64,
    pub timeslot: TimeSlot,
    pub seat_id: u16,
    pub check_in_time: Option<i64>,
    pub check_out_time: Option<i64>,
}

/// A seat; `available == false` marks it administratively withdrawn.
#[derive(Clone, Debug)]
pub struct Seat {
    pub seat_id: u16,
    pub available: bool,
    pub other_info: Option<String>,
}

/// Two seats hold the same values.
pub open spec fn seat_same(a: Seat, b: Seat) -> bool {
    &&& a.seat_id == b.seat_id
    &&& a.available == b.available
    &&& a.other_info.deep_view() == b.other_info.deep_view()
}

impl Seat {
    pub fn new(seat_id: u16, available: bool, other_info: Option<String>) -> (r: Seat)
        ensures
            r.seat_id == seat_id,
            r.available == available,
            r.other_info.deep_view() == other_info.deep_view(),
    {
        Seat { seat_id, available, other_info }
    }

    /// A copy holding the same values.
    pub fn duplicate(&self) -> (r: Seat)
        ensures
            seat_same(r, *self),
    {
        let other_info = match &self.other_info {
            Some(s) => Some(s.clone()),
            None => None,
        };
        Seat { seat_id: self.seat_id, available: self.available, other_info }
    }
}

/// The status of one seat in an overview.
#[derive(Clone, Copy, Debug, PartialEq, Eq, Structural)]
pub enum SeatAvailabilityStatus {
    Available,
    Unavailable,
    Borrowed,
}

/// One line of an overview.
#[derive(Clone, Copy, Debug, PartialEq, Eq, Structural)]
pub struct SeatAvailability {
    pub seat_id: u16,
    pub status: SeatAvailabilityStatus,
}

/// The status of every seat.
#[derive(Clone, Debug)]
pub struct SeatsOverview {
    pub seats: Vec<SeatAvailability>,
}

/// The role a caller holds.
#[derive(Clone, Copy, Debug, PartialEq, Eq, Structural)]
pub enum UserRole {
    Student,
    RegularUser,
    Admin,
    Assistant,
}

/// A registered user.
#[derive(Clone, Debug)]
pub struct User {
    pub user_id: i64,
    pub password_hash: String,
    pub email: String,
    pub user_role: UserRole,
    pub verified: bool,
    pub verification_token: String,
    pub points: i64,
}

/// The identity a caller's credential resolves to.
#[derive(Clone, Copy, Debug)]
pub struct UserClaim {
    pub user_id: i64,
    pub user_role: UserRole,
    pub exp: usize,
}

/// The content of an e-mail verification credential.
#[derive(Clone, Copy, Debug)]
pub struct VerificationClaim {
    pub user_id: i64,
    pub expiration: i64,
    pub exp: usize,
}

/// Whether two strings hold the same characters.
pub fn same_text(a: &str, b: &str) -> (r: bool)
    ensures
        r == (a@ == b@),
{
    let n = a.unicode_len();
    if n != b.unicode_len() {
        return false;
    }
    let mut i: usize = 0;
    while i < n
        invariant
            0 <= i <= n,
            n == a@.len(),
            n == b@.len(),
            forall|k: int| 0 <= k < i ==> a@[k] == b@[k],
        decreases n - i,
    {
        if a.get_char(i) != b.get_char(i) {
            return false;
        }
        i = i + 1;
    }
    assert(a@ =~= b@);
    true
}

/// The name under which a seat status is written.
pub open spec fn status_name(s: SeatAvailabilityStatus) -> Seq<char> {
    match s {
        SeatAvailabilityStatus::Available => "Available"@,
        SeatAvailabilityStatus::Unavailable => "Unavailable"@,
        SeatAvailabilityStatus::Borrowed => "Borrowed"@,
    }
}

impl SeatAvailabilityStatus {
    /// The status's name.
    pub fn to_string(&self) -> (r: String)
        ensures
            r@ == status_name(*self),
    {
        match self {
            SeatAvailabilityStatus::Available => "Available".to_owned(),
            SeatAvailabilityStatus::Unavailable => "Unavailable".to_owned(),
            SeatAvailabilityStatus::Borrowed => "Borrowed".to_owned(),
        }
    }

    /// The status with the given name, if any.
    pub fn from_str(s: &str) -> (r: Option<SeatAvailabilityStatus>)
        ensures
            match r {
                Some(x) => s@ == status_name(x),
                None => forall|x: SeatAvailabilityStatus| s@ != #[trigger] status_name(x),
            },
    {
        if same_text(s, "Available") {
            Some(SeatAvailabilityStatus::Available)
        } else if same_text(s, "Unavailable") {
            Some(SeatAvailabilityStatus::Unavailable)
        } else if same_text(s, "Borrowed") {
            Some(SeatAvailabilityStatus::Borrowed)
        } else {
            None
        }
    }
}

/// The name under which a role is written.
pub open spec fn role_name(r: UserRole) -> Seq<char> {
    match r {
        UserRole::Student => "Student"@,
        UserRole::RegularUser => "RegularUser"@,
        UserRole::Admin => "Admin"@,
        UserRole::Assistant => "Assistant"@,
    }
}

impl UserRole {
    /// The role's name.
    pub fn to_string(&self) -> (r: String)
        ensures
            r@ == role_name(*self),
    {
        match self {
            UserRole::Student => "Student".to_owned(),
            UserRole::RegularUser => "RegularUser".to_owned(),
            UserRole::Admin => "Admin".to_owned(),
            UserRole::Assistant => "Assistant".to_owned(),
        }
    }

    /// The role with the given name, if any.
    pub fn from_str(s: &str) -> (r: Option<UserRole>)
        ensures
            match r {
                Some(x) => s@ == role_name(x),
                None => forall|x: UserRole| s@ != #[trigger] role_name(x),
            },
    {
        if same_text(s, "Student") {
            Some(UserRole::Student)
        } else if same_text(s, "RegularUser") {
            Some(UserRole::RegularUser)
        } else if same_text(s, "Admin") {
            Some(UserRole::Admin)
        } else if same_text(s, "Assistant") {
            Some(UserRole::Assistant)
        } else {
            None
        }
    }
}

} // verus!
