use openssl::bn::{BigNum, MsbOption};
use pwd_dl_zkp::choice::Choice;
use pwd_dl_zkp::natural::Natural;
use pwd_dl_zkp::peggy::Peggy;
use pwd_dl_zkp::victor::Victor;
use rand::thread_rng;

#[test]
fn protocol() {
    let mut rng = thread_rng();

    let mut x_bignum = BigNum::new().unwrap();
    x_bignum.rand(32, MsbOption::MAYBE_ZERO, false).unwrap();
    let x = Natural::from_bytes_be(x_bignum.to_vec());

    let victor = Victor::new();

    let (p, g) = victor.handshake().unwrap();

    let y = Peggy::public_key(&x, &g, &p).unwrap();

    let check = (0..1000)
        .into_iter()
        .map(|_| {
            let r = Peggy::gen_r(&p).unwrap();

            let c = Peggy::calc_c(&r, &g, &p).unwrap();

            let choice = victor.pick_choice(&mut rng);

            let res = Peggy::calc_choice(&choice, &x, &r, &p).unwrap();

            victor.verify(&choice, &res, &c, &y, &g, &p)
        })
        .all(|res| res.is_ok() && res.unwrap());

    assert_eq!(check, true);
}

#[test]
fn round_trip_on_a_small_group() {
    let victor = Victor::new();
    let p = Natural::from_u64(23);
    let g = Natural::from_u64(5);
    for x in 0..30u64 {
        let x = Natural::from_u64(x);
        let y = Peggy::public_key(&x, &g, &p).unwrap();
        for r in 0..22u64 {
            let r = Natural::from_u64(r);
            let c = Peggy::calc_c(&r, &g, &p).unwrap();
            for choice in [Choice::R, Choice::XRMP] {
                let res = Peggy::calc_choice(&choice, &x, &r, &p).unwrap();
                assert_eq!(victor.verify(&choice, &res, &c, &y, &g, &p), Ok(true));
            }
        }
    }
}

#[test]
fn wrong_challenge_fails_on_a_small_group() {
    let victor = Victor::new();
    let p = Natural::from_u64(23);
    let g = Natural::from_u64(5);
    let one = Natural::from_u64(1);
    for x in 0..30u64 {
        let x = Natural::from_u64(x);
        let y = Peggy::public_key(&x, &g, &p).unwrap();
        for r in 0..22u64 {
            let r = Natural::from_u64(r);
            let c = Peggy::calc_c(&r, &g, &p).unwrap();
            let for_r = Peggy::calc_choice(&Choice::R, &x, &r, &p).unwrap();
            let for_xrmp = Peggy::calc_choice(&Choice::XRMP, &x, &r, &p).unwrap();
            let degenerate = y == one;
            assert_eq!(
                victor.verify(&Choice::XRMP, &for_r, &c, &y, &g, &p),
                Ok(degenerate)
            );
            assert_eq!(
                victor.verify(&Choice::R, &for_xrmp, &c, &y, &g, &p),
                Ok(degenerate)
            );
        }
    }
}

#[test]
fn round_trip_needs_a_group() {
    // Modulo 8 the number 2 generates nothing: 2^7 mod 8 is 0, not 1.
    let victor = Victor::new();
    let p = Natural::from_u64(8);
    let g = Natural::from_u64(2);
    let x = Natural::from_u64(3);
    let r = Natural::from_u64(4);
    let y = Peggy::public_key(&x, &g, &p).unwrap();
    let c = Peggy::calc_c(&r, &g, &p).unwrap();
    let res = Peggy::calc_choice(&Choice::XRMP, &x, &r, &p).unwrap();
    assert_eq!(res, Natural::from_u64(0));
    assert_eq!(victor.verify(&Choice::XRMP, &res, &c, &y, &g, &p), Ok(false));
}
