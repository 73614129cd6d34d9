//! Completing a round: the response is checked against the commitment.

use crate::choice::Choice;
use crate::client_data::{
    begin_round, complete_round, count_valid, finalize, has_pending_round, lemma_count_valid_push,
    lemma_threshold, lemma_valid_rounds_count, must_continue, new_session, register_key,
    run_valid_rounds, valid_round, verdict, ClientData, ClientDataView, ClientTest,
    REQUIRED_ROUNDS,
};
use crate::hex::{hex_value, is_hex_text};
use crate::natural::Natural;
use crate::protocol::{lemma_round_trip, spec_commit, spec_public_key, spec_respond, spec_verify};
use crate::victor::{is_valid_group, verify_operands_ok, Victor, VictorError};
use crate::web_utils::{DbTxErr, JsonErr, BAD_REQUEST, INTERNAL_SERVER_ERROR};
use vstd::prelude::*;

verus! {

/// The verdict on a round, and whether the client has rounds left to pass.
#[derive(Debug)]
pub struct Response {
    pub cont: bool,
    pub valid: bool,
}

impl Response {
    /// Checks the response `res` and counts the round: `executions` is the
    /// number of valid rounds before this one.
    pub fn new(
        choice: &Choice,
        res: &Natural,
        c: &Natural,
        y: &Natural,
        g: &Natural,
        p: &Natural,
        executions: usize,
    ) -> (r: Result<Self, VictorError>)
        ensures
            !verify_operands_ok(*choice, res, c, y, g, p) ==> r == Err::<Self, VictorError>(
                VictorError::InvalidInput,
            ),
            verify_operands_ok(*choice, res, c, y, g, p) ==> (r is Ok || r == Err::<
                Self,
                VictorError,
            >(VictorError::Backend)),
            r matches Ok(v) ==> v.valid == spec_verify(*choice, res@, c@, y@, g@, p@) && v.cont
                == (executions + if v.valid {
                1nat
            } else {
                0nat
            } < REQUIRED_ROUNDS),
    {
        let victor = Victor::new();
        let valid = victor.verify(choice, res, c, y, g, p)?;
        Ok(Response::counted(valid, executions))
    }

    /// Counts a round whose verdict is `valid`: `executions` is the number
    /// of valid rounds before it, and the client is to continue while the
    /// valid rounds, this one included, are fewer than [`REQUIRED_ROUNDS`].
    pub fn counted(valid: bool, executions: usize) -> (r: Self)
        ensures
            r.valid == valid,
            r.cont == (executions + if valid {
                1nat
            } else {
                0nat
            } < REQUIRED_ROUNDS),
    {
        let cont = if valid {
            executions < REQUIRED_ROUNDS - 1
        } else {
            executions < REQUIRED_ROUNDS
        };
        Self { cont, valid }
    }
}

/// Whether the record holds all that a response is checked against: a
/// pending round with its commitment and challenge, the group parameters and
/// the public key.
pub open spec fn round_ready(s: ClientDataView) -> bool {
    &&& has_pending_round(s)
    &&& s.tests.last().c is Some
    &&& s.tests.last().choice is Some
    &&& s.g is Some
    &&& s.p is Some
    &&& s.y is Some
}

/// Whether the numbers that a response is checked against are hexadecimal
/// text.
pub open spec fn round_numbers_ok(s: ClientDataView) -> bool {
    &&& is_hex_text(s.tests.last().c->0)
    &&& is_hex_text(s.y->0)
    &&& is_hex_text(s.g->0)
    &&& is_hex_text(s.p->0)
}

/// Whether the response `res` is valid for the pending round of `s`.
pub open spec fn round_verdict(s: ClientDataView, res: nat) -> bool {
    spec_verify(
        s.tests.last().choice->0,
        res,
        hex_value(s.tests.last().c->0),
        hex_value(s.y->0),
        hex_value(s.g->0),
        hex_value(s.p->0),
    )
}

/// The text of an optional string.
fn text(s: &Option<String>) -> (r: Option<&str>)
    ensures
        r is Some == s is Some,
        r matches Some(t) ==> t@ == s->0@,
{
    match s {
        Some(t) => Some(t.as_str()),
        None => None,
    }
}

/// Writes the verdict `valid` into the pending round and counts the round.
/// Earlier rounds stay as they are. Where no round is pending, nothing
/// changes.
pub fn complete(data: &mut ClientData, valid: bool) -> (r: Result<Response, DbTxErr>)
    ensures
        !has_pending_round(old(data)@) ==> *final(data) == *old(data) && (r matches Err(e) && e.err@
            == "error cloning client data"@),
        has_pending_round(old(data)@) ==> (r matches Ok(v) && v.valid == valid && final(data)@
            == complete_round(old(data)@, valid) && v.cont == must_continue(final(data)@)),
        r matches Ok(v) ==> v.cont == (count_valid(old(data)@.tests) + if valid {
            1nat
        } else {
            0nat
        } < REQUIRED_ROUNDS),
{
    let n = data.tests.len();
    if n == 0 || data.tests[n - 1].valid.is_some() {
        return Err(DbTxErr::new("error cloning client data"));
    }
    let executions = data.valid_rounds();
    let ghost before = data@;
    let ghost rounds = data.tests@;
    let mut client_test = data.tests.pop().unwrap();
    client_test.valid = Some(valid);
    proof {
        let done = rounds.drop_last().push(client_test);
        assert(done.map_values(|t: ClientTest| t@) =~= complete_round(before, valid).tests);
        assert(before.tests.drop_last().push(before.tests.last()) =~= before.tests);
        lemma_count_valid_push(before.tests.drop_last(), before.tests.last());
        lemma_count_valid_push(before.tests.drop_last(), client_test@);
    }
    data.tests.push(client_test);
    Ok(Response::counted(valid, executions))
}

/// Checks the response `res` against the pending round and records the
/// verdict in it. Where the record is not ready for a response, nothing
/// changes.
pub fn do_verify(data: &mut ClientData, res: &Natural) -> (r: Result<Response, DbTxErr>)
    ensures
        r is Err ==> *final(data) == *old(data),
        !round_ready(old(data)@) ==> (r matches Err(e) && e.err@
            == "error cloning client data"@),
        round_ready(old(data)@) && !round_numbers_ok(old(data)@) ==> (r matches Err(e) && e.err@
            == "error extracting client data"@),
        round_ready(old(data)@) && round_numbers_ok(old(data)@) ==> (r is Ok || (r matches Err(e)
            && e.err@ == "error verifying the response"@)),
        round_ready(old(data)@) && round_numbers_ok(old(data)@) && hex_value(old(data)@.p->0) == 0
            ==> r is Err,
        r matches Ok(v) ==> {
            &&& round_ready(old(data)@)
            &&& round_numbers_ok(old(data)@)
            &&& v.valid == round_verdict(old(data)@, res@)
            &&& final(data)@ == complete_round(old(data)@, v.valid)
            &&& v.cont == must_continue(final(data)@)
        },
{
    let n = data.tests.len();
    if n == 0 {
        return Err(DbTxErr::new("error cloning client data"));
    }
    let last = &data.tests[n - 1];
    let (choice, c, y, g, p) = match (
        last.valid,
        last.choice,
        text(&last.c),
        text(&data.y),
        text(&data.g),
        text(&data.p),
    ) {
        (None, Some(choice), Some(c), Some(y), Some(g), Some(p)) => (choice, c, y, g, p),
        _ => {
            return Err(DbTxErr::new("error cloning client data"));
        },
    };
    let (c, y, g, p) = match (
        Natural::from_hex(c),
        Natural::from_hex(y),
        Natural::from_hex(g),
        Natural::from_hex(p),
    ) {
        (Some(c), Some(y), Some(g), Some(p)) => (c, y, g, p),
        _ => {
            return Err(DbTxErr::new("error extracting client data"));
        },
    };
    let valid = match Victor::new().verify(&choice, res, &c, &y, &g, &p) {
        Ok(valid) => valid,
        Err(_) => {
            return Err(DbTxErr::new("error verifying the response"));
        },
    };
    complete(data, valid)
}

/// Reads the response `res` of a request before any record is touched: it
/// is to be hexadecimal text.
pub fn check_request(res: &str) -> (r: Result<Natural, JsonErr>)
    ensures
        is_hex_text(res@) ==> (r matches Ok(n) && n@ == hex_value(res@)),
        !is_hex_text(res@) ==> (r matches Err(e) && e.status_code == BAD_REQUEST && e.err@
            == "res is not a number"@),
{
    match Natural::from_hex(res) {
        Some(res) => Ok(res),
        None => Err(JsonErr::new(BAD_REQUEST, "res is not a number")),
    }
}

/// Handles a response to the pending round: hexadecimal text. Any other
/// text is refused, and so is a response that the record is not ready for;
/// both leave the record as it was.
pub fn verify(data: &mut ClientData, res: &str) -> (r: Result<Response, JsonErr>)
    ensures
        r is Err ==> *final(data) == *old(data),
        !is_hex_text(res@) ==> (r matches Err(e) && e.status_code == BAD_REQUEST && e.err@
            == "res is not a number"@),
        is_hex_text(res@) && !(round_ready(old(data)@) && round_numbers_ok(old(data)@)) ==> (
        r matches Err(e) && e.status_code == INTERNAL_SERVER_ERROR && e.err@
            == "unable to verify"@),
        is_hex_text(res@) ==> (r is Ok || (r matches Err(e) && e.status_code
            == INTERNAL_SERVER_ERROR && e.err@ == "unable to verify"@)),
        r matches Ok(v) ==> {
            &&& is_hex_text(res@)
            &&& round_ready(old(data)@)
            &&& round_numbers_ok(old(data)@)
            &&& v.valid == round_verdict(old(data)@, hex_value(res@))
            &&& final(data)@ == complete_round(old(data)@, v.valid)
            &&& v.cont == must_continue(final(data)@)
        },
{
    let res = check_request(res)?;
    match do_verify(data, &res) {
        Ok(v) => Ok(v),
        Err(_) => Err(JsonErr::new(INTERNAL_SERVER_ERROR, "unable to verify")),
    }
}

/// Whether the record holds group parameters as the handshake gives them
/// and the public key of the secret `x`, each as hexadecimal text.
pub open spec fn holds_key_of(s: ClientDataView, x: nat) -> bool {
    &&& s.p is Some && is_hex_text(s.p->0)
    &&& s.g is Some && is_hex_text(s.g->0)
    &&& s.y is Some && is_hex_text(s.y->0)
    &&& is_valid_group(hex_value(s.g->0), hex_value(s.p->0))
    &&& hex_value(s.y->0) == spec_public_key(x, hex_value(s.g->0), hex_value(s.p->0))
}

/// Whether `c` is the commitment to the ephemeral secret `r` under the
/// parameters of the record, as hexadecimal text.
pub open spec fn commits_to(s: ClientDataView, c: Seq<char>, r: nat) -> bool {
    is_hex_text(c) && hex_value(c) == spec_commit(r, hex_value(s.g->0), hex_value(s.p->0))
}

/// The honest response to the challenge `choice`, from the secret `x` and
/// the ephemeral secret `r`, under the parameters of the record.
pub open spec fn honest_response(s: ClientDataView, choice: Choice, x: nat, r: nat) -> nat {
    spec_respond(choice, x, r, hex_value(s.p->0))
}

/// An honest round is valid: on a record with the handshake's parameters and
/// the public key of `x`, a round begun with the commitment to `r` is ready
/// for a response, and the honest response to its challenge is found valid,
/// whichever challenge was drawn. The round leaves the record fit for the
/// next one.
pub proof fn lemma_honest_round(s: ClientDataView, x: nat, r: nat, c: Seq<char>, choice: Choice)
    requires
        holds_key_of(s, x),
        commits_to(s, c, r),
    ensures
        round_ready(begin_round(s, c, choice)),
        round_numbers_ok(begin_round(s, c, choice)),
        round_verdict(begin_round(s, c, choice), honest_response(s, choice, x, r)),
        complete_round(begin_round(s, c, choice), true) == valid_round(s, c, choice),
        holds_key_of(valid_round(s, c, choice), x),
{
    lemma_round_trip(choice, x, r, hex_value(s.g->0), hex_value(s.p->0));
}

/// A run of valid rounds leaves the parameters and the public key alone.
pub proof fn lemma_rounds_keep_the_key(s: ClientDataView, x: nat, rounds: Seq<(Seq<char>, Choice)>)
    requires
        holds_key_of(s, x),
    ensures
        holds_key_of(run_valid_rounds(s, rounds), x),
        run_valid_rounds(s, rounds).p == s.p,
        run_valid_rounds(s, rounds).g == s.g,
    decreases rounds.len(),
{
    if rounds.len() > 0 {
        lemma_rounds_keep_the_key(s, x, rounds.drop_last());
    }
}

/// What the `k`-th round of an honest run comes to: the record is ready for
/// the response, the honest response is found valid, and the client is told
/// to continue until the last of the required rounds.
pub open spec fn honest_round_succeeds(
    s: ClientDataView,
    x: nat,
    rounds: Seq<(Seq<char>, Choice)>,
    secrets: Seq<nat>,
    k: int,
) -> bool {
    let before = run_valid_rounds(s, rounds.take(k));
    let begun = begin_round(before, rounds[k].0, rounds[k].1);
    &&& round_ready(begun)
    &&& round_numbers_ok(begun)
    &&& round_verdict(begun, honest_response(s, rounds[k].1, x, secrets[k]))
    &&& complete_round(begun, true) == run_valid_rounds(s, rounds.take(k + 1))
    &&& must_continue(complete_round(begun, true)) == (k + 1 < REQUIRED_ROUNDS)
}

/// End to end: on the record of a handshake with the public key of `x`
/// registered and no valid round so far, ten rounds in which the prover
/// commits to `secrets[k]` and answers the challenge honestly are all found
/// valid, whatever the challenges are; the tenth tells the client that it
/// need not continue, and finalization then authenticates it.
pub proof fn lemma_end_to_end(
    s: ClientDataView,
    x: nat,
    rounds: Seq<(Seq<char>, Choice)>,
    secrets: Seq<nat>,
)
    requires
        holds_key_of(s, x),
        count_valid(s.tests) == 0,
        rounds.len() == REQUIRED_ROUNDS,
        secrets.len() == rounds.len(),
        forall|k: int| 0 <= k < rounds.len() ==> commits_to(s, (#[trigger] rounds[k]).0, secrets[k]),
    ensures
        forall|k: int|
            0 <= k < rounds.len() ==> #[trigger] honest_round_succeeds(s, x, rounds, secrets, k),
        verdict(run_valid_rounds(s, rounds)),
        finalize(run_valid_rounds(s, rounds)).auth == Some(true),
{
    assert forall|k: int| 0 <= k < rounds.len() implies #[trigger] honest_round_succeeds(
        s,
        x,
        rounds,
        secrets,
        k,
    ) by {
        let before = run_valid_rounds(s, rounds.take(k));
        lemma_rounds_keep_the_key(s, x, rounds.take(k));
        assert(commits_to(s, rounds[k].0, secrets[k]));
        lemma_honest_round(before, x, secrets[k], rounds[k].0, rounds[k].1);
        assert(rounds.take(k + 1).drop_last() =~= rounds.take(k));
        lemma_valid_rounds_count(s, rounds.take(k + 1));
    }
    lemma_threshold(s, rounds);
}

/// The record of a handshake, once the public key of `x` is registered, is
/// where an honest run starts: it holds the key and has no round yet.
pub proof fn lemma_registered_session(p: Seq<char>, g: Seq<char>, y: Seq<char>, x: nat)
    requires
        is_hex_text(p),
        is_hex_text(g),
        is_hex_text(y),
        is_valid_group(hex_value(g), hex_value(p)),
        hex_value(y) == spec_public_key(x, hex_value(g), hex_value(p)),
    ensures
        holds_key_of(register_key(new_session(p, g), y), x),
        count_valid(register_key(new_session(p, g), y).tests) == 0,
{
}

} // verus!
