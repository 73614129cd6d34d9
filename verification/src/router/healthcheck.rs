//! The liveness probe.

use vstd::prelude::*;

verus! {

/// The answer to a liveness probe.
#[derive(Debug)]
pub struct Response {
    pub ok: bool,
}

impl Response {
    /// The answer that holds what is given.
    pub fn new(ok: bool) -> (r: Self)
        ensures
            r.ok == ok,
    {
        Self { ok }
    }
}

/// Answers a liveness probe: always well.
pub fn healthcheck() -> (r: Response)
    ensures
        r.ok,
{
    Response::new(true)
}

} // verus!
