//! Response status codes.

use vstd::prelude::*;

verus! {

/// The status of a response.
#[derive(Clone, Copy, Debug, PartialEq, Eq, Structural)]
pub enum Status {
    /// 200, "OK".
    Success,
    /// 201, "Created".
    Created,
    /// 400, "Bad Request".
    BadRequest,
    /// 404, "Not Found".
    NotFound,
    /// 500, "Internal Server Error".
    InternalServerError,
}

impl Status {
    /// The three-digit code of the status.
    pub open spec fn number(self) -> u16 {
        match self {
            Status::Success => 200,
            Status::Created => 201,
            Status::BadRequest => 400,
            Status::NotFound => 404,
            Status::InternalServerError => 500,
        }
    }

    /// The status that a code stands for, where this library uses the code.
    pub open spec fn of_number(code: u16) -> Option<Status> {
        if code == 200 {
            Some(Status::Success)
        } else if code == 201 {
            Some(Status::Created)
        } else if code == 400 {
            Some(Status::BadRequest)
        } else if code == 404 {
            Some(Status::NotFound)
        } else if code == 500 {
            Some(Status::InternalServerError)
        } else {
            None
        }
    }

    /// The three-digit code of the status.
    pub fn code(self) -> (code: u16)
        ensures
            code == self.number(),
            Status::of_number(code) == Some(self),
    {
        match self {
            Status::Success => 200,
            Status::Created => 201,
            Status::BadRequest => 400,
            Status::NotFound => 404,
            Status::InternalServerError => 500,
        }
    }

    /// Reads a status from its code; `None` for a code that this library does not use.
    pub fn from_code(code: u16) -> (status: Option<Status>)
        ensures
            status == Status::of_number(code),
    {
        if code == 200 {
            Some(Status::Success)
        } else if code == 201 {
            Some(Status::Created)
        } else if code == 400 {
            Some(Status::BadRequest)
        } else if code == 404 {
            Some(Status::NotFound)
        } else if code == 500 {
            Some(Status::InternalServerError)
        } else {
            None
        }
    }
}

} // verus!
