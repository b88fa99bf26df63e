//! Identifiers (UUIDs held as `u128`) and timestamps (seconds since the Unix
//! epoch held as `i64`).
use vstd::prelude::*;

use crate::errors::ServiceError;

verus! {

#[verifier::external_type_specification]
#[verifier::external_body]
pub struct ExUuidError(uuid::Error);

/// The UUID that `s` spells (simple, hyphenated, braced or URN form), or
/// `None` where `s` is no UUID.
pub uninterp spec fn parsed_uuid(s: Seq<char>) -> Option<u128>;

/// Relies on uuid::Uuid::parse_str and Uuid::as_u128: the result depends on
/// the text alone, and a text of a length other than 32, 36, 38 or 45 bytes
/// (the empty one among them) is refused.
#[verifier::external_body]
fn parse_uuid(s: &str) -> (r: Result<u128, uuid::Error>)
    ensures
        match r {
            Ok(v) => parsed_uuid(s@) == Some(v),
            Err(_) => parsed_uuid(s@) is None,
        },
        s@.len() == 0 ==> r is Err,
{
    uuid::Uuid::parse_str(s).map(|u| u.as_u128())
}

/// Relies on uuid::Uuid::new_v4 and Uuid::as_u128: a random UUID whose
/// version field reads 4.
#[verifier::external_body]
pub(crate) fn new_id() -> (r: u128)
    ensures
        (r >> 76u128) & 0xfu128 == 4,
{
    uuid::Uuid::new_v4().as_u128()
}

/// Relies on chrono::Local::now: the local wall-clock time, read as seconds
/// since the epoch. chrono's dates end in the year 262142, so the value stays
/// below 10^13.
#[verifier::external_body]
pub(crate) fn now_timestamp() -> (r: i64)
    ensures
        r < 10_000_000_000_000i64,
{
    chrono::Local::now().naive_local().and_utc().timestamp()
}

/// The identifier that `s` spells; `BadRequest` where it is no UUID.
pub fn parse_id(s: &str) -> (r: Result<u128, ServiceError>)
    ensures
        match r {
            Ok(v) => parsed_uuid(s@) == Some(v),
            Err(e) => e == ServiceError::BadRequest && parsed_uuid(s@) is None,
        },
{
    match parse_uuid(s) {
        Ok(v) => Ok(v),
        Err(_) => Err(ServiceError::BadRequest),
    }
}

} // verus!
