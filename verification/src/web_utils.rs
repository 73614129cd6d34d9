//! Errors reported to the transport layer.
//!
//! A request that holds what is no number is refused with [`BAD_REQUEST`] and
//! changes nothing. A step that the record is not ready for aborts with a
//! [`DbTxErr`], which the caller sees as [`INTERNAL_SERVER_ERROR`], and
//! changes nothing either.

use vstd::prelude::*;

verus! {

/// The status of a request that was refused for what it holds.
pub const BAD_REQUEST: u16 = 400;

/// The status of a request that could not be carried out.
pub const INTERNAL_SERVER_ERROR: u16 = 500;

/// A refused request: the status to answer with, and the reason.
#[derive(Debug)]
pub struct JsonErr {
    pub err: String,
    pub status_code: u16,
}

impl JsonErr {
    /// A refusal with the status `status_code` and the reason `str`.
    pub fn new(status_code: u16, str: &str) -> (e: Self)
        ensures
            e.err@ == str@,
            e.status_code == status_code,
    {
        Self { err: str.to_string(), status_code }
    }
}

/// An aborted session transaction, with the reason.
#[derive(Debug, PartialEq)]
pub struct DbTxErr {
    pub err: String,
}

impl DbTxErr {
    /// An abort with the reason `str`.
    pub fn new(str: &str) -> (e: Self)
        ensures
            e.err@ == str@,
    {
        Self { err: str.to_string() }
    }
}

/// The client identifier that a request carries in its `x-client-id` header,
/// where `header` is the header's text, if the request has one.
pub fn client_id<'a>(header: Option<&'a str>) -> (r: Result<&'a str, JsonErr>)
    ensures
        match header {
            Some(id) => r == Ok::<&str, JsonErr>(id),
            None => r matches Err(e) && e.status_code == BAD_REQUEST && e.err@
                == "x-client-id header not present or not valid"@,
        },
{
    match header {
        Some(id) => Ok(id),
        None => Err(JsonErr::new(BAD_REQUEST, "x-client-id header not present or not valid")),
    }
}

} // verus!
