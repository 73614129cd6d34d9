//! Registering the client's public key.

use crate::client_data::{register_key, ClientData};
use crate::hex::is_hex_text;
use crate::natural::Natural;
use crate::web_utils::{JsonErr, BAD_REQUEST};
use vstd::prelude::*;

verus! {

/// Sets the public key of the record to `y`, whatever it was before.
pub fn do_public_key(data: &mut ClientData, y: &str)
    ensures
        final(data)@ == register_key(old(data)@, y@),
{
    data.y = Some(y.to_string());
}

/// Checks the public key `y` of a request before any record is touched: it
/// is to be hexadecimal text.
pub fn check_request(y: &str) -> (r: Result<(), JsonErr>)
    ensures
        is_hex_text(y@) ==> r is Ok,
        !is_hex_text(y@) ==> (r matches Err(e) && e.status_code == BAD_REQUEST && e.err@
            == "y is not a number"@),
{
    if Natural::from_hex(y).is_none() {
        return Err(JsonErr::new(BAD_REQUEST, "y is not a number"));
    }
    Ok(())
}

/// Handles a request to register the public key `y`: hexadecimal text. Any
/// other text is refused and leaves the record as it was.
pub fn public_key(data: &mut ClientData, y: &str) -> (r: Result<(), JsonErr>)
    ensures
        is_hex_text(y@) ==> r is Ok && final(data)@ == register_key(old(data)@, y@),
        !is_hex_text(y@) ==> final(data)@ == old(data)@ && (r matches Err(e) && e.status_code
            == BAD_REQUEST && e.err@ == "y is not a number"@),
{
    check_request(y)?;
    do_public_key(data, y);
    Ok(())
}

} // verus!
