use crate::error::Status;
use vstd::prelude::*;

verus! {

/// A status code and its name.
#[derive(Clone, Debug)]
pub struct StatusCodeResponse {
    pub code: u16,
    pub name: String,
}

/// The outcome that a demonstration endpoint answers for a given code:
/// success for 200, the matching status for 404, 400 and 503, and an
/// internal error for anything else.
pub open spec fn status_for_code(code: u16) -> Result<(), Status> {
    if code == 200 {
        Ok(())
    } else if code == 404 {
        Err(Status::NotFound)
    } else if code == 400 {
        Err(Status::BadRequest)
    } else if code == 503 {
        Err(Status::ServiceUnavailable)
    } else {
        Err(Status::InternalServerError)
    }
}

/// Answers with the outcome named by `reservation_id` read as a status code.
pub fn get_status_code(reservation_id: u16) -> (r: Result<(), Status>)
    ensures
        r == status_for_code(reservation_id),
{
    match reservation_id {
        200 => Ok(()),
        404 => Err(Status::NotFound),
        400 => Err(Status::BadRequest),
        503 => Err(Status::ServiceUnavailable),
        _ => Err(Status::InternalServerError),
    }
}

/// Allocates a buffer of `size` zeroed words and answers success.
pub fn big_memory(size: usize) -> (r: Result<(), Status>)
    ensures
        r == Ok::<(), Status>(()),
{
    let mut v: Vec<u64> = Vec::with_capacity(size);
    let mut i: usize = 0;
    while i < size
        invariant
            0 <= i <= size,
            v@.len() == i,
        decreases size - i,
    {
        v.push(0);
        i = i + 1;
    }
    Ok(())
}

/// Stands for an allocation conflict that could not be resolved: always
/// answers an internal error.
pub fn concurrent_error() -> (r: Result<(), Status>)
    ensures
        r == Err::<(), Status>(Status::InternalServerError),
{
    Err(Status::InternalServerError)
}

} // verus!
