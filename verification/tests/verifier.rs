use openssl::bn::{BigNum, BigNumContext};
use pwd_dl_zkp::choice::Choice;
use pwd_dl_zkp::natural::Natural;
use pwd_dl_zkp::peggy::Peggy;
use pwd_dl_zkp::victor::{
    accept_prime, find_cyclic_group_generator, generate_safe_prime, is_generator, Victor,
    VictorError, BITS, BYTES,
};
use rand::thread_rng;

fn n(v: u64) -> Natural {
    Natural::from_u64(v)
}

#[test]
fn new_victor() {
    let victor = Victor::new();
    let _copy = victor.clone();
}

#[test]
fn choice_of_a_bit() {
    assert_eq!(Victor::choice_of(true), Choice::XRMP);
    assert_eq!(Victor::choice_of(false), Choice::R);
}

#[test]
fn pick_choice_gives_both_challenges() {
    let victor = Victor::new();
    let mut rng = thread_rng();
    let mut r = 0;
    let mut xrmp = 0;
    for _ in 0..400 {
        match victor.pick_choice(&mut rng) {
            Choice::R => r += 1,
            Choice::XRMP => xrmp += 1,
        }
    }
    assert!(r > 0 && xrmp > 0);
    assert_eq!(r + xrmp, 400);
}

#[test]
fn check_response_compares_the_two_sides() {
    assert!(Victor::check_response(&Choice::R, &n(10), Some(&n(99)), &n(10)));
    assert!(Victor::check_response(&Choice::R, &n(10), None, &n(10)));
    assert!(!Victor::check_response(&Choice::R, &n(10), Some(&n(11)), &n(11)));
    assert!(!Victor::check_response(&Choice::R, &n(10), None, &n(11)));
    assert!(Victor::check_response(&Choice::XRMP, &n(10), Some(&n(11)), &n(11)));
    assert!(!Victor::check_response(&Choice::XRMP, &n(10), Some(&n(99)), &n(10)));
    assert!(!Victor::check_response(&Choice::XRMP, &n(10), None, &n(10)));
}

#[test]
fn verify_accepts_honest_responses() {
    let victor = Victor::new();
    // p = 23, g = 5, x = 6, y = 8, r = 3, c = 10.
    assert_eq!(victor.verify(&Choice::R, &n(3), &n(10), &n(8), &n(5), &n(23)), Ok(true));
    assert_eq!(victor.verify(&Choice::XRMP, &n(9), &n(10), &n(8), &n(5), &n(23)), Ok(true));
}

#[test]
fn verify_rejects_a_response_to_the_other_challenge() {
    let victor = Victor::new();
    assert_eq!(victor.verify(&Choice::XRMP, &n(3), &n(10), &n(8), &n(5), &n(23)), Ok(false));
    assert_eq!(victor.verify(&Choice::R, &n(9), &n(10), &n(8), &n(5), &n(23)), Ok(false));
}

#[test]
fn verify_rejects_wrong_numbers() {
    let victor = Victor::new();
    assert_eq!(victor.verify(&Choice::R, &n(4), &n(10), &n(8), &n(5), &n(23)), Ok(false));
    assert_eq!(victor.verify(&Choice::XRMP, &n(9), &n(10), &n(9), &n(5), &n(23)), Ok(false));
    assert_eq!(victor.verify(&Choice::XRMP, &n(9), &n(11), &n(8), &n(5), &n(23)), Ok(false));
}

#[test]
fn verify_needs_no_public_key_for_r() {
    let victor = Victor::new();
    for y in [0u64, 1, 8, 22, 23, 1000] {
        assert_eq!(victor.verify(&Choice::R, &n(3), &n(10), &n(y), &n(5), &n(23)), Ok(true));
        assert_eq!(victor.verify(&Choice::R, &n(4), &n(10), &n(y), &n(5), &n(23)), Ok(false));
    }
}

#[test]
fn a_candidate_below_two_is_no_generator() {
    for p in [1u64, 2, 7, 23] {
        assert_eq!(is_generator(&n(0), &n(p), &n((p - 1) / 2)), Ok(false));
        assert_eq!(is_generator(&n(1), &n(p), &n((p - 1) / 2)), Ok(false));
    }
}

#[test]
fn verify_refuses_a_zero_modulus() {
    let victor = Victor::new();
    assert_eq!(
        victor.verify(&Choice::R, &n(3), &n(10), &n(8), &n(5), &n(0)),
        Err(VictorError::InvalidInput)
    );
}

#[test]
fn is_generator_tests_the_candidate() {
    // Modulo 23 the generators are 5, 7, 10, 11, 14, 15, 17, 19, 20, 21.
    let p = n(23);
    let q = n(11);
    for g in [5u64, 7, 10, 11, 14, 15, 17, 19, 20, 21] {
        assert_eq!(is_generator(&n(g), &p, &q), Ok(true));
    }
    for g in [0u64, 1, 2, 3, 4, 6, 8, 9, 12, 13, 16, 18, 22] {
        assert_eq!(is_generator(&n(g), &p, &q), Ok(false));
    }
    assert_eq!(is_generator(&n(5), &n(0), &q), Err(VictorError::InvalidInput));
}

#[test]
fn generator_of_a_small_group() {
    // Modulo 7 the generators are 3 and 5; 2 and 4 have order 3, 6 has order 2.
    for _ in 0..200 {
        let g = find_cyclic_group_generator(&n(7)).unwrap();
        assert!(g == n(3) || g == n(5));
    }
    for _ in 0..50 {
        let g = find_cyclic_group_generator(&n(23)).unwrap();
        assert_eq!(is_generator(&g, &n(23), &n(11)), Ok(true));
        assert!(g.lt(&n(23)));
    }
}

#[test]
fn generator_search_refuses_a_zero_modulus() {
    assert_eq!(find_cyclic_group_generator(&n(0)).unwrap_err(), VictorError::InvalidInput);
}

#[test]
fn a_prime_is_accepted_up_to_the_size_asked_for() {
    let mut largest = vec![0u8, 0];
    largest.extend(vec![255u8; 64]);
    let p = accept_prime(Natural::from_bytes_be(largest.clone())).unwrap();
    assert_eq!(p.bytes, largest);
    assert_eq!(accept_prime(n(23)).unwrap().bytes, n(23).bytes);
    assert_eq!(accept_prime(n(0)).unwrap(), n(0));
    let mut too_long = vec![1u8];
    too_long.extend(vec![0u8; 64]);
    assert_eq!(
        accept_prime(Natural::from_bytes_be(too_long)).unwrap_err(),
        VictorError::GenerationFailure
    );
    assert_eq!(
        accept_prime(Natural::from_bytes_be(vec![7u8; 65])).unwrap_err(),
        VictorError::GenerationFailure
    );
}

#[test]
fn safe_prime_has_the_size_asked_for() {
    let p = generate_safe_prime().unwrap();
    let bn = BigNum::from_slice(&p.bytes).unwrap();
    assert_eq!(bn.num_bits(), BITS);
    assert_eq!(BITS, 512);
    assert_eq!(BYTES, 64);
    assert!(p.fits_in(BYTES) && !p.fits_in(BYTES - 1));
    let mut ctx = BigNumContext::new().unwrap();
    assert!(bn.is_prime(20, &mut ctx).unwrap());
    let mut half = BigNum::from_slice(&p.bytes).unwrap();
    half.sub_word(1).unwrap();
    half.div_word(2).unwrap();
    assert!(half.is_prime(20, &mut ctx).unwrap());
}

#[test]
fn handshake_gives_a_valid_group() {
    let victor = Victor::new();
    let (p, g) = victor.handshake().unwrap();
    let mut ctx = BigNumContext::new().unwrap();
    let p_bn = BigNum::from_slice(&p.bytes).unwrap();
    assert!(p_bn.is_prime(20, &mut ctx).unwrap());
    let mut q_bn = BigNum::from_slice(&p.bytes).unwrap();
    q_bn.sub_word(1).unwrap();
    q_bn.div_word(2).unwrap();
    assert!(q_bn.is_prime(20, &mut ctx).unwrap());
    let q = Natural::from_bytes_be(q_bn.to_vec());
    assert!(n(1).lt(&g) && g.lt(&p));
    assert!(p.fits_in(BYTES) && !p.fits_in(BYTES - 1));
    assert_eq!(p_bn.num_bits(), BITS);
    assert!(Peggy::public_key(&n(2), &g, &p).unwrap() != n(1));
    assert!(Peggy::public_key(&q, &g, &p).unwrap() != n(1));
    let mut order = p.clone();
    let last = order.bytes.len() - 1;
    order.bytes[last] -= 1;
    assert_eq!(Peggy::public_key(&order, &g, &p).unwrap(), n(1));
}
