//! Finalization: the verdict on the rounds so far.

use crate::client_data::{finalize, verdict, ClientData};
use vstd::prelude::*;

verus! {

/// Whether the client is authenticated.
#[derive(Debug)]
pub struct Response {
    pub auth: bool,
}

impl Response {
    /// The answer that holds what is given.
    pub fn new(auth: bool) -> (r: Self)
        ensures
            r.auth == auth,
    {
        Self { auth }
    }
}

/// Gives the verdict, keeps it in the record and clears the rounds. The
/// client is authenticated when enough rounds were valid. Asked again before
/// any round was begun, it gives the verdict it gave last.
pub fn do_authenticated(data: &mut ClientData) -> (r: Response)
    ensures
        r.auth == verdict(old(data)@),
        final(data)@ == finalize(old(data)@),
{
    let auth = match data.auth {
        Some(last) if data.tests.len() == 0 => last,
        _ => !data.should_continue(),
    };
    data.auth = Some(auth);
    data.tests = Vec::new();
    proof {
        assert(data@.tests =~= Seq::empty());
    }
    Response::new(auth)
}

/// Handles a request for the verdict.
pub fn authenticated(data: &mut ClientData) -> (r: Response)
    ensures
        r.auth == verdict(old(data)@),
        final(data)@ == finalize(old(data)@),
{
    do_authenticated(data)
}

} // verus!
