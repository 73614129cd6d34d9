//! Beginning a round: the client commits, the verifier challenges.

use crate::choice::Choice;
use crate::client_data::{begin_round, lemma_begin_round_view, ClientData, ClientTest};
use crate::hex::is_hex_text;
use crate::natural::Natural;
use crate::victor::Victor;
use crate::web_utils::{JsonErr, BAD_REQUEST};
use vstd::prelude::*;

verus! {

/// The challenge of the round that was begun.
#[derive(Debug)]
pub struct Response {
    pub choice: Choice,
}

impl Response {
    /// The answer that holds what is given.
    pub fn new(choice: Choice) -> (r: Self)
        ensures
            r.choice == choice,
    {
        Self { choice }
    }
}

/// Records a round begun with the commitment `c` and the challenge `choice`.
/// Rounds begun earlier stay as they are, completed or not.
pub fn begin(data: &mut ClientData, c: &str, choice: Choice)
    ensures
        final(data)@ == begin_round(old(data)@, c@, choice),
{
    let client_test = ClientTest { c: Some(c.to_string()), choice: Some(choice), valid: None };
    proof {
        lemma_begin_round_view(data.tests@, client_test);
    }
    data.tests.push(client_test);
}

/// Draws the challenge for the commitment `c` and records the round.
pub fn do_pick_choice(data: &mut ClientData, c: &str) -> (r: Response)
    ensures
        final(data)@ == begin_round(old(data)@, c@, r.choice),
{
    let mut rng = rand::thread_rng();
    let victor = Victor::new();
    let choice = victor.pick_choice(&mut rng);
    begin(data, c, choice);
    Response::new(choice)
}

/// Checks the commitment `c` of a request before any record is touched: it
/// is to be hexadecimal text.
pub fn check_request(c: &str) -> (r: Result<(), JsonErr>)
    ensures
        is_hex_text(c@) ==> r is Ok,
        !is_hex_text(c@) ==> (r matches Err(e) && e.status_code == BAD_REQUEST && e.err@
            == "c is not a number"@),
{
    if Natural::from_hex(c).is_none() {
        return Err(JsonErr::new(BAD_REQUEST, "c is not a number"));
    }
    Ok(())
}

/// Handles a request to begin a round with the commitment `c`: hexadecimal
/// text. Any other text is refused and leaves the record as it was.
pub fn pick_choice(data: &mut ClientData, c: &str) -> (r: Result<Response, JsonErr>)
    ensures
        is_hex_text(c@) ==> (r matches Ok(v) && final(data)@ == begin_round(
            old(data)@,
            c@,
            v.choice,
        )),
        !is_hex_text(c@) ==> final(data)@ == old(data)@ && (r matches Err(e) && e.status_code
            == BAD_REQUEST && e.err@ == "c is not a number"@),
{
    check_request(c)?;
    Ok(do_pick_choice(data, c))
}

} // verus!
