//! The record that the verifier keeps of one client, and the steps that
//! change it.
//!
//! A record is created with the group parameters, takes the client's public
//! key, then collects rounds: a round is begun with a commitment and a
//! challenge, and completed with the verdict on the response. When enough
//! rounds were valid the client can be authenticated, which clears the
//! rounds.

use crate::choice::Choice;
use vstd::prelude::*;

verus! {

/// The number of valid rounds that authenticates a client.
pub const REQUIRED_ROUNDS: usize = 10;

/// One round: the commitment, the challenge, and the verdict once the
/// response was checked.
#[derive(Debug)]
pub struct ClientTest {
    pub c: Option<String>,
    pub choice: Option<Choice>,
    pub valid: Option<bool>,
}

/// The mathematical model of a [`ClientTest`].
pub struct ClientTestView {
    pub c: Option<Seq<char>>,
    pub choice: Option<Choice>,
    pub valid: Option<bool>,
}

/// The text of an optional string.
pub open spec fn text_of(s: Option<String>) -> Option<Seq<char>> {
    match s {
        Some(t) => Some(t@),
        None => None,
    }
}

impl View for ClientTest {
    type V = ClientTestView;

    open spec fn view(&self) -> ClientTestView {
        ClientTestView { c: text_of(self.c), choice: self.choice, valid: self.valid }
    }
}

/// What is kept of one client.
#[derive(Debug)]
pub struct ClientData {
    pub created_at: String,
    pub p: Option<String>,
    pub g: Option<String>,
    pub y: Option<String>,
    pub tests: Vec<ClientTest>,
    pub auth: Option<bool>,
}

/// The mathematical model of a [`ClientData`].
pub struct ClientDataView {
    pub created_at: Seq<char>,
    pub p: Option<Seq<char>>,
    pub g: Option<Seq<char>>,
    pub y: Option<Seq<char>>,
    pub tests: Seq<ClientTestView>,
    pub auth: Option<bool>,
}

impl View for ClientData {
    type V = ClientDataView;

    open spec fn view(&self) -> ClientDataView {
        ClientDataView {
            created_at: self.created_at@,
            p: text_of(self.p),
            g: text_of(self.g),
            y: text_of(self.y),
            tests: self.tests@.map_values(|t: ClientTest| t@),
            auth: self.auth,
        }
    }
}

/// How many of the rounds were found valid.
pub open spec fn count_valid(tests: Seq<ClientTestView>) -> nat
    decreases tests.len(),
{
    if tests.len() == 0 {
        0
    } else {
        count_valid(tests.drop_last()) + if tests.last().valid == Some(true) {
            1nat
        } else {
            0nat
        }
    }
}

/// The record before anything is known of the client.
pub open spec fn empty_session() -> ClientDataView {
    ClientDataView {
        created_at: Seq::empty(),
        p: None,
        g: None,
        y: None,
        tests: Seq::empty(),
        auth: None,
    }
}

/// The record of a new client, with the group parameters it was given.
pub open spec fn new_session(p: Seq<char>, g: Seq<char>) -> ClientDataView {
    ClientDataView { p: Some(p), g: Some(g), ..empty_session() }
}

/// The record after the client registered the public key `y`.
pub open spec fn register_key(s: ClientDataView, y: Seq<char>) -> ClientDataView {
    ClientDataView { y: Some(y), ..s }
}

/// A round that was begun and not completed yet.
pub open spec fn pending_round(c: Seq<char>, choice: Choice) -> ClientTestView {
    ClientTestView { c: Some(c), choice: Some(choice), valid: None }
}

/// The record after a round was begun with the commitment `c`.
pub open spec fn begin_round(s: ClientDataView, c: Seq<char>, choice: Choice) -> ClientDataView {
    ClientDataView { tests: s.tests.push(pending_round(c, choice)), ..s }
}

/// Whether the most recent round waits for its response.
pub open spec fn has_pending_round(s: ClientDataView) -> bool {
    s.tests.len() > 0 && s.tests.last().valid is None
}

/// The record after the most recent round got its verdict.
pub open spec fn complete_round(s: ClientDataView, valid: bool) -> ClientDataView {
    ClientDataView {
        tests: s.tests.drop_last().push(
            ClientTestView { valid: Some(valid), ..s.tests.last() },
        ),
        ..s
    }
}

/// Whether the client has rounds left to pass.
pub open spec fn must_continue(s: ClientDataView) -> bool {
    count_valid(s.tests) < REQUIRED_ROUNDS
}

/// The verdict of finalization: whether enough rounds were valid. Where no
/// round was begun since the last verdict, that verdict stands.
pub open spec fn verdict(s: ClientDataView) -> bool {
    if s.tests.len() == 0 && s.auth is Some {
        s.auth->0
    } else {
        !must_continue(s)
    }
}

/// The record after finalization: the verdict is kept, the rounds are
/// cleared.
pub open spec fn finalize(s: ClientDataView) -> ClientDataView {
    ClientDataView { auth: Some(verdict(s)), tests: Seq::empty(), ..s }
}

/// One more round adds one to the count if it is valid, and nothing if not.
pub proof fn lemma_count_valid_push(tests: Seq<ClientTestView>, t: ClientTestView)
    ensures
        count_valid(tests.push(t)) == count_valid(tests) + if t.valid == Some(true) {
            1nat
        } else {
            0nat
        },
{
    assert(tests.push(t).drop_last() =~= tests);
}

/// Registration overwrites: of two public keys registered one after the
/// other, only the later one is kept.
pub proof fn lemma_register_key_overwrites(s: ClientDataView, first: Seq<char>, second: Seq<char>)
    ensures
        register_key(register_key(s, first), second) == register_key(s, second),
        register_key(register_key(s, first), second).y == Some(second),
{
}

/// Beginning a round and completing a round leave every earlier round as it
/// was: a round that was begun and then followed by another is never
/// resolved.
pub proof fn lemma_earlier_rounds_untouched(
    s: ClientDataView,
    c: Seq<char>,
    choice: Choice,
    valid: bool,
    i: int,
)
    ensures
        0 <= i < s.tests.len() ==> begin_round(s, c, choice).tests[i] == s.tests[i],
        0 <= i < s.tests.len() - 1 ==> complete_round(s, valid).tests[i] == s.tests[i],
        begin_round(s, c, choice).tests.len() == s.tests.len() + 1,
        s.tests.len() > 0 ==> complete_round(s, valid).tests.len() == s.tests.len(),
{
}

/// Pending-round tolerance: after two rounds begun in a row, completing a
/// round resolves the second one only. The first stays without a verdict and
/// does not count as valid.
pub proof fn lemma_pending_round_tolerance(
    s: ClientDataView,
    c1: Seq<char>,
    choice1: Choice,
    c2: Seq<char>,
    choice2: Choice,
    valid: bool,
)
    ensures
        ({
            let after = complete_round(
                begin_round(begin_round(s, c1, choice1), c2, choice2),
                valid,
            );
            &&& after.tests == s.tests.push(pending_round(c1, choice1)).push(
                ClientTestView { valid: Some(valid), ..pending_round(c2, choice2) },
            )
            &&& after.tests[s.tests.len() as int].valid is None
            &&& count_valid(after.tests) == count_valid(s.tests) + if valid {
                1nat
            } else {
                0nat
            }
        }),
{
    let begun = begin_round(begin_round(s, c1, choice1), c2, choice2);
    let after = complete_round(begun, valid);
    let first = pending_round(c1, choice1);
    let second = ClientTestView { valid: Some(valid), ..pending_round(c2, choice2) };
    assert(begun.tests.drop_last() =~= s.tests.push(first));
    assert(after.tests =~= s.tests.push(first).push(second));
    lemma_count_valid_push(s.tests, first);
    lemma_count_valid_push(s.tests.push(first), second);
}

/// The record after one round that was begun and found valid.
pub open spec fn valid_round(s: ClientDataView, c: Seq<char>, choice: Choice) -> ClientDataView {
    complete_round(begin_round(s, c, choice), true)
}

/// The record after a run of rounds, each begun and found valid.
pub open spec fn run_valid_rounds(s: ClientDataView, rounds: Seq<(Seq<char>, Choice)>) -> ClientDataView
    decreases rounds.len(),
{
    if rounds.len() == 0 {
        s
    } else {
        valid_round(run_valid_rounds(s, rounds.drop_last()), rounds.last().0, rounds.last().1)
    }
}

/// Each valid round adds one to the count of valid rounds.
pub proof fn lemma_valid_rounds_count(s: ClientDataView, rounds: Seq<(Seq<char>, Choice)>)
    ensures
        count_valid(run_valid_rounds(s, rounds).tests) == count_valid(s.tests) + rounds.len(),
        run_valid_rounds(s, rounds).tests.len() == s.tests.len() + rounds.len(),
        run_valid_rounds(s, rounds).auth == s.auth,
    decreases rounds.len(),
{
    if rounds.len() > 0 {
        let before = run_valid_rounds(s, rounds.drop_last());
        lemma_valid_rounds_count(s, rounds.drop_last());
        let c = rounds.last().0;
        let choice = rounds.last().1;
        let begun = begin_round(before, c, choice);
        let done = ClientTestView { valid: Some(true), ..pending_round(c, choice) };
        assert(begun.tests.drop_last() =~= before.tests);
        assert(valid_round(before, c, choice).tests =~= before.tests.push(done));
        lemma_count_valid_push(before.tests, done);
    }
}

/// Threshold: in a session without a valid round so far, each of the first
/// nine valid rounds reports that the client must continue, the tenth reports
/// that it need not, and finalization then authenticates the client.
pub proof fn lemma_threshold(s: ClientDataView, rounds: Seq<(Seq<char>, Choice)>)
    requires
        count_valid(s.tests) == 0,
        rounds.len() == REQUIRED_ROUNDS,
    ensures
        forall|k: int|
            0 <= k <= rounds.len() ==> #[trigger] must_continue(run_valid_rounds(s, rounds.take(k)))
                == (k < REQUIRED_ROUNDS),
        !must_continue(run_valid_rounds(s, rounds)),
        verdict(run_valid_rounds(s, rounds)),
        finalize(run_valid_rounds(s, rounds)).auth == Some(true),
{
    assert forall|k: int| 0 <= k <= rounds.len() implies #[trigger] must_continue(
        run_valid_rounds(s, rounds.take(k)),
    ) == (k < REQUIRED_ROUNDS) by {
        lemma_valid_rounds_count(s, rounds.take(k));
    }
    lemma_valid_rounds_count(s, rounds);
}

/// Finalization is idempotent: asked again before any round was begun, it
/// gives the same verdict and leaves the record as it is.
pub proof fn lemma_finalize_idempotent(s: ClientDataView)
    ensures
        verdict(finalize(s)) == verdict(s),
        finalize(finalize(s)) == finalize(s),
{
}

/// Finalization needs evidence: a record that never had a verdict and holds
/// fewer valid rounds than required is not authenticated.
pub proof fn lemma_no_verdict_without_rounds(s: ClientDataView)
    requires
        s.auth is None,
        count_valid(s.tests) < REQUIRED_ROUNDS,
    ensures
        !verdict(s),
{
}

/// The model of a list of rounds with one more round at its end.
pub proof fn lemma_begin_round_view(tests: Seq<ClientTest>, t: ClientTest)
    ensures
        tests.push(t).map_values(|t: ClientTest| t@) == tests.map_values(|t: ClientTest| t@).push(
            t@,
        ),
{
    assert(tests.push(t).map_values(|t: ClientTest| t@) =~= tests.map_values(
        |t: ClientTest| t@,
    ).push(t@));
}

/// A copy of an optional string.
fn clone_text(s: &Option<String>) -> (r: Option<String>)
    ensures
        text_of(r) == text_of(*s),
{
    match s {
        Some(t) => Some(t.clone()),
        None => None,
    }
}

impl Clone for ClientTest {
    fn clone(&self) -> (t: Self)
        ensures
            t@ == self@,
    {
        ClientTest { c: clone_text(&self.c), choice: self.choice, valid: self.valid }
    }
}

impl Default for ClientTest {
    /// A round of which nothing is known yet.
    fn default() -> (t: Self)
        ensures
            t@ == (ClientTestView { c: None, choice: None, valid: None }),
    {
        ClientTest { c: None, choice: None, valid: None }
    }
}

impl Clone for ClientData {
    fn clone(&self) -> (d: Self)
        ensures
            d@ == self@,
    {
        let mut tests: Vec<ClientTest> = Vec::new();
        let mut i: usize = 0;
        while i < self.tests.len()
            invariant
                i <= self.tests.len(),
                tests@.len() == i,
                forall|j: int| 0 <= j < i ==> tests@[j]@ == self.tests@[j]@,
            decreases self.tests.len() - i,
        {
            tests.push(self.tests[i].clone());
            i = i + 1;
        }
        let d = ClientData {
            created_at: self.created_at.clone(),
            p: clone_text(&self.p),
            g: clone_text(&self.g),
            y: clone_text(&self.y),
            tests,
            auth: self.auth,
        };
        proof {
            assert(d@.tests =~= self@.tests);
        }
        d
    }
}

impl Default for ClientData {
    /// The record before anything is known of the client.
    fn default() -> (d: Self)
        ensures
            d@ == empty_session(),
    {
        ClientData::new()
    }
}

impl ClientData {
    /// The record before anything is known of the client.
    pub fn new() -> (d: Self)
        ensures
            d@ == empty_session(),
    {
        let d = Self {
            created_at: String::new(),
            p: None,
            g: None,
            y: None,
            tests: Vec::new(),
            auth: None,
        };
        proof {
            assert(d@.tests =~= Seq::empty());
        }
        d
    }

    /// How many of the rounds were found valid.
    pub fn valid_rounds(&self) -> (n: usize)
        ensures
            n == count_valid(self@.tests),
    {
        let mut n: usize = 0;
        let mut i: usize = 0;
        while i < self.tests.len()
            invariant
                i <= self.tests.len(),
                n == count_valid(self@.tests.take(i as int)),
                n <= i,
            decreases self.tests.len() - i,
        {
            proof {
                let done = self@.tests.take(i as int);
                lemma_count_valid_push(done, self@.tests[i as int]);
                assert(self@.tests.take(i + 1) =~= done.push(self@.tests[i as int]));
            }
            if let Some(true) = self.tests[i].valid {
                n = n + 1;
            }
            i = i + 1;
        }
        proof {
            assert(self@.tests.take(i as int) =~= self@.tests);
        }
        n
    }

    /// Whether the client has rounds left to pass: fewer than
    /// [`REQUIRED_ROUNDS`] rounds were valid.
    pub fn should_continue(&self) -> (b: bool)
        ensures
            b == must_continue(self@),
    {
        self.valid_rounds() < REQUIRED_ROUNDS
    }
}

} // verus!
