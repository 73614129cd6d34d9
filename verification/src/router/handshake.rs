//! Creating a session: a client identifier and fresh group parameters.

use crate::bn;
use crate::client_data::{new_session, ClientData};
use crate::hex::{hex_value, is_canonical_hex};
use crate::natural::Natural;
use crate::victor::{is_valid_group, Victor, VictorError};
use crate::web_utils::{JsonErr, INTERNAL_SERVER_ERROR};
use vstd::arithmetic::power2::pow2;
use vstd::prelude::*;

verus! {

/// The bit length of a client identifier.
pub const CLIENT_ID_BITS: i32 = 128;

/// What a new client is told: its identifier and the group parameters, each
/// as hexadecimal text.
#[derive(Debug)]
pub struct Response {
    pub client_id: String,
    pub p: String,
    pub g: String,
}

impl Response {
    /// The answer that holds what is given.
    pub fn new(client_id: &str, p: &str, g: &str) -> (r: Self)
        ensures
            r.client_id@ == client_id@,
            r.p@ == p@,
            r.g@ == g@,
    {
        Self { client_id: client_id.to_string(), p: p.to_string(), g: g.to_string() }
    }
}

/// The record of a new client and the answer to it, for the identifier and
/// the group parameters that were drawn.
pub fn open_session(client_id: &Natural, p: &Natural, g: &Natural) -> (r: (ClientData, Response))
    ensures
        r.0@ == new_session(r.1.p@, r.1.g@),
        is_canonical_hex(r.1.client_id@) && hex_value(r.1.client_id@) == client_id@,
        is_canonical_hex(r.1.p@) && hex_value(r.1.p@) == p@,
        is_canonical_hex(r.1.g@) && hex_value(r.1.g@) == g@,
{
    let client_id = client_id.to_hex();
    let p = p.to_hex();
    let g = g.to_hex();
    let mut data = ClientData::new();
    data.p = Some(p.clone());
    data.g = Some(g.clone());
    (data, Response::new(client_id.as_str(), p.as_str(), g.as_str()))
}

/// Draws a client identifier and group parameters, and builds the record to
/// keep under that identifier. The parameters are a safe prime and a
/// generator of order `p - 1`, so every honest round on the record is valid.
pub fn do_handshake() -> (r: Result<(ClientData, Response), VictorError>)
    ensures
        r matches Ok(v) ==> {
            &&& v.0@ == new_session(v.1.p@, v.1.g@)
            &&& is_canonical_hex(v.1.client_id@)
            &&& hex_value(v.1.client_id@) < pow2(CLIENT_ID_BITS as nat)
            &&& is_canonical_hex(v.1.p@)
            &&& is_canonical_hex(v.1.g@)
            &&& is_valid_group(hex_value(v.1.g@), hex_value(v.1.p@))
        },
        r matches Err(e) ==> e == VictorError::GenerationFailure || e == VictorError::Backend,
{
    let client_id = match bn::rand_bits(CLIENT_ID_BITS) {
        Ok(id) => id,
        Err(_) => {
            return Err(VictorError::Backend);
        },
    };
    let victor = Victor::new();
    let (p, g) = victor.handshake()?;
    Ok(open_session(&client_id, &p, &g))
}

/// Handles a request for a new session.
pub fn handshake() -> (r: Result<(ClientData, Response), JsonErr>)
    ensures
        r matches Ok(v) ==> {
            &&& v.0@ == new_session(v.1.p@, v.1.g@)
            &&& is_canonical_hex(v.1.client_id@)
            &&& hex_value(v.1.client_id@) < pow2(CLIENT_ID_BITS as nat)
            &&& is_canonical_hex(v.1.p@)
            &&& is_canonical_hex(v.1.g@)
            &&& is_valid_group(hex_value(v.1.g@), hex_value(v.1.p@))
        },
        r matches Err(e) ==> e.status_code == INTERNAL_SERVER_ERROR && e.err@
            == "unable to handshake"@,
{
    match do_handshake() {
        Ok(v) => Ok(v),
        Err(_) => Err(JsonErr::new(INTERNAL_SERVER_ERROR, "unable to handshake")),
    }
}

} // verus!
