use pwd_dl_zkp::choice::Choice;
use pwd_dl_zkp::client_data::{ClientData, ClientTest, REQUIRED_ROUNDS};
use pwd_dl_zkp::fe_lib;
use pwd_dl_zkp::natural::Natural;
use pwd_dl_zkp::router::authenticated::{authenticated, do_authenticated};
use pwd_dl_zkp::router::handshake::{do_handshake, handshake, open_session};
use pwd_dl_zkp::router::healthcheck::healthcheck;
use pwd_dl_zkp::router::pick_choice::{begin, do_pick_choice, pick_choice};
use pwd_dl_zkp::router::public_key::{do_public_key, public_key};
use pwd_dl_zkp::router::verify::{complete, do_verify, verify};
use pwd_dl_zkp::router::{authenticated, handshake, healthcheck, pick_choice, public_key, verify};
use pwd_dl_zkp::victor::VictorError;
use pwd_dl_zkp::web_utils::{client_id, DbTxErr, JsonErr, BAD_REQUEST, INTERNAL_SERVER_ERROR};

/// A session modulo 23 with the generator 5 and the public key of x = 6.
fn small_session() -> ClientData {
    let mut data = ClientData::new();
    data.p = Some("17".to_string());
    data.g = Some("5".to_string());
    data.y = Some("8".to_string());
    data
}

fn snapshot(data: &ClientData) -> String {
    format!("{:?}", data)
}

#[test]
fn new_record_is_empty() {
    let data = ClientData::new();
    assert_eq!(data.created_at, "");
    assert_eq!(data.p, None);
    assert_eq!(data.g, None);
    assert_eq!(data.y, None);
    assert!(data.tests.is_empty());
    assert_eq!(data.auth, None);
    assert!(data.should_continue());
    assert_eq!(data.valid_rounds(), 0);
}

#[test]
fn default_records_are_empty() {
    assert_eq!(snapshot(&ClientData::default()), snapshot(&ClientData::new()));
    let round = ClientTest::default();
    assert_eq!((round.c, round.choice, round.valid), (None, None, None));
}

#[test]
fn clone_copies_the_record() {
    let mut data = small_session();
    begin(&mut data, "a", Choice::R);
    verify(&mut data, "3").unwrap();
    begin(&mut data, "b", Choice::XRMP);
    data.auth = Some(false);
    data.created_at = "then".to_string();
    let copy = data.clone();
    assert_eq!(snapshot(&copy), snapshot(&data));
    assert_eq!(copy.tests.len(), 2);
    assert_eq!(copy.tests[0].valid, Some(true));
    assert_eq!(copy.tests[1].c.as_deref(), Some("b"));
}

#[test]
fn should_continue_until_ten_valid_rounds() {
    assert_eq!(REQUIRED_ROUNDS, 10);
    let mut data = ClientData::new();
    for i in 0..9 {
        data.tests.push(ClientTest { c: None, choice: None, valid: Some(true) });
        data.tests.push(ClientTest { c: None, choice: None, valid: Some(false) });
        data.tests.push(ClientTest { c: None, choice: None, valid: None });
        assert_eq!(data.valid_rounds(), i + 1);
        assert!(data.should_continue());
    }
    data.tests.push(ClientTest { c: None, choice: None, valid: Some(true) });
    assert_eq!(data.valid_rounds(), 10);
    assert!(!data.should_continue());
    data.tests.push(ClientTest { c: None, choice: None, valid: Some(true) });
    assert!(!data.should_continue());
}

#[test]
fn errors_keep_what_they_are_given() {
    let e = JsonErr::new(BAD_REQUEST, "c is not a number");
    assert_eq!(e.status_code, 400);
    assert_eq!(e.err, "c is not a number");
    let e = JsonErr::new(INTERNAL_SERVER_ERROR, "");
    assert_eq!(e.status_code, 500);
    assert_eq!(e.err, "");
    assert_eq!(DbTxErr::new("error cloning client data").err, "error cloning client data");
}

#[test]
fn aborts_compare_by_their_reason() {
    assert_eq!(DbTxErr::new("error cloning client data"), DbTxErr::new("error cloning client data"));
    assert_ne!(DbTxErr::new("error cloning client data"), DbTxErr::new("error extracting client data"));
}

#[test]
fn requests_are_checked_before_the_record() {
    assert!(public_key::check_request("1f").is_ok());
    let e = public_key::check_request("1g").unwrap_err();
    assert_eq!((e.status_code, e.err.as_str()), (400, "y is not a number"));
    assert!(pick_choice::check_request("0A").is_ok());
    let e = pick_choice::check_request("").unwrap_err();
    assert_eq!((e.status_code, e.err.as_str()), (400, "c is not a number"));
    assert_eq!(verify::check_request("0100").unwrap(), Natural::from_u64(256));
    let e = verify::check_request("-1").unwrap_err();
    assert_eq!((e.status_code, e.err.as_str()), (400, "res is not a number"));
}

#[test]
fn client_id_needs_the_header() {
    assert_eq!(client_id(Some("ab12")).unwrap(), "ab12");
    let e = client_id(None).unwrap_err();
    assert_eq!(e.status_code, 400);
    assert_eq!(e.err, "x-client-id header not present or not valid");
}

#[test]
fn healthcheck_is_well() {
    assert!(healthcheck().ok);
    assert!(!healthcheck::Response::new(false).ok);
}

#[test]
fn responses_keep_what_they_are_given() {
    assert!(authenticated::Response::new(true).auth);
    assert!(!authenticated::Response::new(false).auth);
    let r = handshake::Response::new("id", "17", "5");
    assert_eq!((r.client_id.as_str(), r.p.as_str(), r.g.as_str()), ("id", "17", "5"));
    assert_eq!(pick_choice::Response::new(Choice::R).choice, Choice::R);
    assert_eq!(pick_choice::Response::new(Choice::XRMP).choice, Choice::XRMP);
}

#[test]
fn verify_response_counts_the_round() {
    let n = Natural::from_u64;
    // p = 23, g = 5, x = 6, y = 8, r = 3, c = 10.
    let r = verify::Response::new(&Choice::R, &n(3), &n(10), &n(8), &n(5), &n(23), 0).unwrap();
    assert!(r.valid && r.cont);
    let r = verify::Response::new(&Choice::R, &n(3), &n(10), &n(8), &n(5), &n(23), 8).unwrap();
    assert!(r.valid && r.cont);
    let r = verify::Response::new(&Choice::XRMP, &n(9), &n(10), &n(8), &n(5), &n(23), 9).unwrap();
    assert!(r.valid && !r.cont);
    let r = verify::Response::new(&Choice::R, &n(4), &n(10), &n(8), &n(5), &n(23), 9).unwrap();
    assert!(!r.valid && r.cont);
    let r = verify::Response::new(&Choice::R, &n(4), &n(10), &n(8), &n(5), &n(23), 10).unwrap();
    assert!(!r.valid && !r.cont);
    let r = verify::Response::new(&Choice::R, &n(3), &n(10), &n(8), &n(5), &n(23), usize::MAX)
        .unwrap();
    assert!(r.valid && !r.cont);
    assert_eq!(
        verify::Response::new(&Choice::R, &n(3), &n(10), &n(8), &n(5), &n(0), 0).unwrap_err(),
        VictorError::InvalidInput
    );
}

#[test]
fn counted_tells_when_to_stop() {
    for executions in 0..9 {
        let r = verify::Response::counted(true, executions);
        assert!(r.valid);
        assert_eq!(r.cont, executions < 9);
        let r = verify::Response::counted(false, executions);
        assert!(!r.valid && r.cont);
    }
    let r = verify::Response::counted(true, 9);
    assert!(r.valid && !r.cont);
    let r = verify::Response::counted(false, 9);
    assert!(!r.valid && r.cont);
    let r = verify::Response::counted(false, 10);
    assert!(!r.valid && !r.cont);
    let r = verify::Response::counted(true, usize::MAX);
    assert!(r.valid && !r.cont);
}

#[test]
fn complete_writes_the_verdict_into_the_pending_round() {
    let mut data = ClientData::new();
    begin(&mut data, "a", Choice::R);
    begin(&mut data, "b", Choice::XRMP);
    let r = complete(&mut data, false).unwrap();
    assert!(!r.valid && r.cont);
    assert_eq!(data.tests.len(), 2);
    assert_eq!(data.tests[0].valid, None);
    assert_eq!(data.tests[1].valid, Some(false));
    assert_eq!(data.tests[1].c.as_deref(), Some("b"));
    assert_eq!(data.tests[1].choice, Some(Choice::XRMP));
    for i in 0..10 {
        begin(&mut data, "c", Choice::R);
        let r = complete(&mut data, true).unwrap();
        assert!(r.valid);
        assert_eq!(r.cont, i < 9);
        assert_eq!(data.tests.last().unwrap().valid, Some(true));
    }
    assert_eq!(data.valid_rounds(), 10);
    assert_eq!(data.tests.len(), 12);
    assert!(do_authenticated(&mut data).auth);
}

#[test]
fn complete_needs_a_pending_round() {
    let mut data = ClientData::new();
    let before = snapshot(&data);
    assert_eq!(complete(&mut data, true).unwrap_err(), DbTxErr::new("error cloning client data"));
    assert_eq!(snapshot(&data), before);
    begin(&mut data, "a", Choice::R);
    complete(&mut data, true).unwrap();
    let before = snapshot(&data);
    assert_eq!(complete(&mut data, false).unwrap_err(), DbTxErr::new("error cloning client data"));
    assert_eq!(snapshot(&data), before);
}

#[test]
fn open_session_keeps_the_parameters() {
    let (data, resp) =
        open_session(&Natural::from_u64(0xab12), &Natural::from_u64(23), &Natural::from_u64(5));
    assert_eq!(resp.client_id, "ab12");
    assert_eq!(resp.p, "17");
    assert_eq!(resp.g, "5");
    assert_eq!(data.p.as_deref(), Some("17"));
    assert_eq!(data.g.as_deref(), Some("5"));
    assert_eq!(data.y, None);
    assert_eq!(data.auth, None);
    assert!(data.tests.is_empty());
    assert_eq!(data.created_at, "");
}

#[test]
fn handshake_creates_a_session() {
    let (data, resp) = do_handshake().unwrap();
    assert_eq!(data.p.as_ref(), Some(&resp.p));
    assert_eq!(data.g.as_ref(), Some(&resp.g));
    assert_eq!(data.y, None);
    assert_eq!(data.auth, None);
    assert!(data.tests.is_empty());
    assert!(resp.client_id.len() <= 32 && !resp.client_id.is_empty());
    assert!(Natural::from_hex(&resp.client_id).is_some());
    assert_eq!(resp.client_id, resp.client_id.to_lowercase());
    let p = Natural::from_hex(&resp.p).unwrap();
    let g = Natural::from_hex(&resp.g).unwrap();
    assert_eq!(p.to_hex().len(), 128);
    assert!(Natural::from_u64(1).lt(&g) && g.lt(&p));
    let (_, other) = do_handshake().unwrap();
    assert_ne!(other.client_id, resp.client_id);
}

#[test]
fn registering_twice_keeps_the_later_key() {
    let mut data = small_session();
    do_public_key(&mut data, "1f");
    assert_eq!(data.y.as_deref(), Some("1f"));
    do_public_key(&mut data, "2a");
    assert_eq!(data.y.as_deref(), Some("2a"));
    public_key(&mut data, "3b").unwrap();
    public_key(&mut data, "4C").unwrap();
    assert_eq!(data.y.as_deref(), Some("4C"));
    assert_eq!(data.p.as_deref(), Some("17"));
    assert_eq!(data.g.as_deref(), Some("5"));
    assert!(data.tests.is_empty());
}

#[test]
fn registering_refuses_what_is_no_number() {
    let mut data = small_session();
    let before = snapshot(&data);
    let e = public_key(&mut data, "xyz").unwrap_err();
    assert_eq!(e.status_code, 400);
    assert_eq!(e.err, "y is not a number");
    assert_eq!(snapshot(&data), before);
}

#[test]
fn begin_appends_a_pending_round() {
    let mut data = small_session();
    begin(&mut data, "a", Choice::XRMP);
    assert_eq!(data.tests.len(), 1);
    assert_eq!(data.tests[0].c.as_deref(), Some("a"));
    assert_eq!(data.tests[0].choice, Some(Choice::XRMP));
    assert_eq!(data.tests[0].valid, None);
    let resp = do_pick_choice(&mut data, "b");
    assert_eq!(data.tests.len(), 2);
    assert_eq!(data.tests[1].c.as_deref(), Some("b"));
    assert_eq!(data.tests[1].choice, Some(resp.choice));
    assert_eq!(data.tests[1].valid, None);
    assert_eq!(data.tests[0].c.as_deref(), Some("a"));
}

#[test]
fn beginning_refuses_what_is_no_number() {
    let mut data = small_session();
    begin(&mut data, "a", Choice::R);
    let before = snapshot(&data);
    for c in ["", "not hex", "-a", "0x1"] {
        let e = pick_choice(&mut data, c).unwrap_err();
        assert_eq!(e.status_code, 400);
        assert_eq!(e.err, "c is not a number");
        assert_eq!(snapshot(&data), before);
    }
}

#[test]
fn completing_without_a_round_is_a_mismatch() {
    let mut data = small_session();
    let before = snapshot(&data);
    let e = do_verify(&mut data, &Natural::from_u64(3)).unwrap_err();
    assert_eq!(e, DbTxErr::new("error cloning client data"));
    assert_eq!(snapshot(&data), before);
    let e = verify(&mut data, "3").unwrap_err();
    assert_eq!(e.status_code, 500);
    assert_eq!(e.err, "unable to verify");
    assert_eq!(snapshot(&data), before);
}

#[test]
fn completing_a_completed_round_is_a_mismatch() {
    let mut data = small_session();
    begin(&mut data, "a", Choice::R);
    assert!(do_verify(&mut data, &Natural::from_u64(3)).unwrap().valid);
    let before = snapshot(&data);
    let e = do_verify(&mut data, &Natural::from_u64(3)).unwrap_err();
    assert_eq!(e.err, "error cloning client data");
    assert_eq!(snapshot(&data), before);
}

#[test]
fn completing_needs_the_key_and_the_parameters() {
    for missing in 0..5 {
        let mut data = small_session();
        begin(&mut data, "a", Choice::R);
        match missing {
            0 => data.y = None,
            1 => data.g = None,
            2 => data.p = None,
            3 => data.tests[0].c = None,
            _ => data.tests[0].choice = None,
        }
        let before = snapshot(&data);
        let e = do_verify(&mut data, &Natural::from_u64(3)).unwrap_err();
        assert_eq!(e.err, "error cloning client data");
        assert_eq!(snapshot(&data), before);
    }
}

#[test]
fn completing_needs_numbers() {
    for broken in 0..4 {
        let mut data = small_session();
        begin(&mut data, "a", Choice::R);
        match broken {
            0 => data.y = Some("y".to_string()),
            1 => data.g = Some("".to_string()),
            2 => data.p = Some("-17".to_string()),
            _ => data.tests[0].c = Some("0xa".to_string()),
        }
        let before = snapshot(&data);
        let e = do_verify(&mut data, &Natural::from_u64(3)).unwrap_err();
        assert_eq!(e.err, "error extracting client data");
        assert_eq!(snapshot(&data), before);
    }
}

#[test]
fn completing_needs_a_modulus() {
    let mut data = small_session();
    data.p = Some("0".to_string());
    begin(&mut data, "a", Choice::R);
    let before = snapshot(&data);
    let e = do_verify(&mut data, &Natural::from_u64(3)).unwrap_err();
    assert_eq!(e.err, "error verifying the response");
    assert_eq!(snapshot(&data), before);
}

#[test]
fn completing_refuses_what_is_no_number() {
    let mut data = small_session();
    begin(&mut data, "a", Choice::R);
    let before = snapshot(&data);
    let e = verify(&mut data, "three").unwrap_err();
    assert_eq!(e.status_code, 400);
    assert_eq!(e.err, "res is not a number");
    assert_eq!(snapshot(&data), before);
}

#[test]
fn completing_records_the_verdict() {
    let mut data = small_session();
    begin(&mut data, "a", Choice::R);
    let v = verify(&mut data, "3").unwrap();
    assert!(v.valid && v.cont);
    assert_eq!(data.tests[0].valid, Some(true));
    assert_eq!(data.tests[0].c.as_deref(), Some("a"));
    assert_eq!(data.tests[0].choice, Some(Choice::R));
    begin(&mut data, "a", Choice::XRMP);
    let v = verify(&mut data, "3").unwrap();
    assert!(!v.valid && v.cont);
    assert_eq!(data.tests[1].valid, Some(false));
    begin(&mut data, "a", Choice::XRMP);
    let v = verify(&mut data, "9").unwrap();
    assert!(v.valid && v.cont);
    assert_eq!(data.tests.len(), 3);
    assert_eq!(data.valid_rounds(), 2);
    assert_eq!(data.y.as_deref(), Some("8"));
}

#[test]
fn an_abandoned_round_is_never_resolved() {
    let mut data = small_session();
    begin(&mut data, "a", Choice::R);
    begin(&mut data, "a", Choice::XRMP);
    let v = verify(&mut data, "9").unwrap();
    assert!(v.valid);
    assert_eq!(data.tests.len(), 2);
    assert_eq!(data.tests[0].valid, None);
    assert_eq!(data.tests[1].valid, Some(true));
    assert_eq!(data.valid_rounds(), 1);
    assert!(verify(&mut data, "3").is_err());
    for _ in 0..3 {
        begin(&mut data, "a", Choice::R);
        verify(&mut data, "3").unwrap();
        assert_eq!(data.tests[0].valid, None);
    }
    assert_eq!(data.valid_rounds(), 4);
}

#[test]
fn the_tenth_valid_round_ends_the_run() {
    let mut data = small_session();
    for i in 0..10 {
        begin(&mut data, "a", Choice::R);
        let v = verify(&mut data, "3").unwrap();
        assert!(v.valid);
        assert_eq!(v.cont, i < 9);
    }
    assert!(!data.should_continue());
    assert!(authenticated(&mut data).auth);
    assert_eq!(data.auth, Some(true));
    assert!(data.tests.is_empty());
}

#[test]
fn invalid_rounds_do_not_count() {
    let mut data = small_session();
    for _ in 0..9 {
        begin(&mut data, "a", Choice::R);
        assert!(verify(&mut data, "3").unwrap().cont);
    }
    for _ in 0..5 {
        begin(&mut data, "a", Choice::R);
        let v = verify(&mut data, "4").unwrap();
        assert!(!v.valid && v.cont);
    }
    let mut early = data.clone();
    assert!(!do_authenticated(&mut early).auth);
    assert_eq!(early.auth, Some(false));
    assert!(early.tests.is_empty());
    begin(&mut data, "a", Choice::R);
    let v = verify(&mut data, "3").unwrap();
    assert!(v.valid && !v.cont);
    assert!(do_authenticated(&mut data).auth);
}

#[test]
fn a_fresh_session_is_not_authenticated() {
    let mut data = small_session();
    assert!(!do_authenticated(&mut data).auth);
    assert_eq!(data.auth, Some(false));
    assert!(!do_authenticated(&mut data).auth);
    assert_eq!(data.p.as_deref(), Some("17"));
    assert_eq!(data.y.as_deref(), Some("8"));
}

#[test]
fn the_verdict_stands_until_a_round_is_begun() {
    let mut data = small_session();
    for _ in 0..10 {
        begin(&mut data, "a", Choice::R);
        verify(&mut data, "3").unwrap();
    }
    assert!(do_authenticated(&mut data).auth);
    assert!(do_authenticated(&mut data).auth);
    assert!(authenticated(&mut data).auth);
    assert_eq!(data.auth, Some(true));
    begin(&mut data, "a", Choice::R);
    assert!(!do_authenticated(&mut data).auth);
    assert_eq!(data.auth, Some(false));
    assert!(data.tests.is_empty());
    assert!(!do_authenticated(&mut data).auth);
}

#[test]
fn end_to_end() {
    let (mut data, session) = handshake().map_err(|e| e.err).unwrap();
    let x = "1d4f2a6b";
    let y = fe_lib::public_key(x, &session.g, &session.p).unwrap();
    public_key(&mut data, &y).unwrap();
    for i in 0..10 {
        let r = fe_lib::gen_r(&session.p).unwrap();
        let c = fe_lib::calc_c(&r, &session.g, &session.p).unwrap();
        let choice = pick_choice(&mut data, &c).unwrap().choice;
        let res = fe_lib::calc_choice(&choice, x, &r, &session.p).unwrap();
        let v = verify(&mut data, &res).unwrap();
        assert!(v.valid);
        assert_eq!(v.cont, i < 9);
    }
    assert!(authenticated(&mut data).auth);
    assert_eq!(data.auth, Some(true));
    assert!(data.tests.is_empty());
    assert_eq!(data.p.as_ref(), Some(&session.p));
    assert_eq!(data.g.as_ref(), Some(&session.g));
    assert_eq!(data.y.as_ref(), Some(&y));
}

#[test]
fn a_prover_without_the_secret_fails() {
    let (mut data, session) = do_handshake().unwrap();
    let y = fe_lib::public_key("1d4f2a6b", &session.g, &session.p).unwrap();
    public_key(&mut data, &y).unwrap();
    let guess = "2e5a3b7c";
    let mut caught = false;
    for _ in 0..40 {
        let r = fe_lib::gen_r(&session.p).unwrap();
        let c = fe_lib::calc_c(&r, &session.g, &session.p).unwrap();
        let choice = pick_choice(&mut data, &c).unwrap().choice;
        let res = fe_lib::calc_choice(&choice, guess, &r, &session.p).unwrap();
        let v = verify(&mut data, &res).unwrap();
        assert_eq!(v.valid, choice == Choice::R);
        caught = caught || !v.valid;
    }
    assert!(caught);
}
