use vstd::prelude::*;

verus! {

/// The failures a request can end in.
#[derive(Clone, Copy, Debug, PartialEq, Eq, Structural)]
pub enum ServiceError {
    /// The storage backend failed, or a unit of work was aborted.
    InternalServerError,
    /// A malformed identifier or payload.
    BadRequest,
    /// A missing, invalid or expired credential or session.
    Unauthorized,
    /// The caller is authenticated but may not act on this resource.
    AdminRequired,
    /// The target entity does not exist.
    NotFound,
    /// A query returned no rows where at least one was expected.
    Empty,
}

impl ServiceError {
    pub open spec fn spec_status_code(self) -> u16 {
        match self {
            ServiceError::InternalServerError => 500,
            ServiceError::BadRequest => 400,
            ServiceError::Unauthorized => 401,
            ServiceError::AdminRequired => 401,
            ServiceError::NotFound => 404,
            ServiceError::Empty => 404,
        }
    }

    /// The HTTP status that reports this error.
    pub fn status_code(&self) -> (r: u16)
        ensures
            r == self.spec_status_code(),
    {
        match self {
            ServiceError::InternalServerError => 500,
            ServiceError::BadRequest => 400,
            ServiceError::Unauthorized => 401,
            ServiceError::AdminRequired => 401,
            ServiceError::NotFound => 404,
            ServiceError::Empty => 404,
        }
    }
}

} // verus!
