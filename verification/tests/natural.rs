use pwd_dl_zkp::natural::{Natural, Order};

#[test]
fn from_u64_gives_the_number() {
    assert_eq!(Natural::from_u64(0).bytes, vec![0, 0, 0, 0, 0, 0, 0, 0]);
    assert_eq!(Natural::from_u64(0x0102_0304_0506_0708).bytes, vec![1, 2, 3, 4, 5, 6, 7, 8]);
    assert_eq!(Natural::from_u64(u64::MAX).bytes, vec![255; 8]);
}

#[test]
fn leading_zero_bytes_do_not_count() {
    let short = Natural::from_bytes_be(vec![1, 0]);
    let long = Natural::from_bytes_be(vec![0, 0, 0, 1, 0]);
    assert_eq!(short.compare(&long), Order::Equal);
    assert!(short.equals(&long));
    assert!(short == long);
    assert_eq!(long.leading_zeros(), 3);
    assert_eq!(short, Natural::from_u64(256));
}

#[test]
fn compare_orders_by_value() {
    let a = Natural::from_bytes_be(vec![0x01, 0xff]);
    let b = Natural::from_bytes_be(vec![0x02, 0x00]);
    let c = Natural::from_bytes_be(vec![0xff]);
    let d = Natural::from_bytes_be(vec![0x01, 0x00, 0x00]);
    assert_eq!(a.compare(&b), Order::Less);
    assert_eq!(b.compare(&a), Order::Greater);
    assert_eq!(c.compare(&a), Order::Less);
    assert_eq!(d.compare(&b), Order::Greater);
    assert_eq!(a.compare(&a), Order::Equal);
    assert!(a.lt(&b) && !b.lt(&a) && !a.lt(&a));
    assert!(a.le(&b) && !b.le(&a) && a.le(&a));
    assert!(!a.equals(&b));
    assert!(a != b);
}

#[test]
fn zero_has_many_spellings() {
    assert!(Natural::from_bytes_be(vec![]).is_zero());
    assert!(Natural::from_bytes_be(vec![0]).is_zero());
    assert!(Natural::from_bytes_be(vec![0, 0, 0]).is_zero());
    assert!(Natural::from_u64(0).is_zero());
    assert!(!Natural::from_bytes_be(vec![0, 1]).is_zero());
    assert_eq!(Natural::from_bytes_be(vec![]), Natural::from_u64(0));
    assert_eq!(Natural::from_bytes_be(vec![]).compare(&Natural::from_u64(1)), Order::Less);
}

#[test]
fn clone_keeps_the_bytes() {
    let n = Natural::from_bytes_be(vec![0, 7, 9]);
    assert_eq!(n.clone().bytes, vec![0, 7, 9]);
}

#[test]
fn fits_in_counts_the_bytes_that_matter() {
    assert!(Natural::from_u64(0).fits_in(0));
    assert!(Natural::from_bytes_be(vec![]).fits_in(0));
    assert!(!Natural::from_u64(1).fits_in(0));
    assert!(Natural::from_u64(255).fits_in(1));
    assert!(!Natural::from_u64(256).fits_in(1));
    assert!(Natural::from_u64(256).fits_in(2));
    assert!(Natural::from_u64(65535).fits_in(2));
    assert!(!Natural::from_u64(65536).fits_in(2));
    assert!(Natural::from_bytes_be(vec![0, 0, 0, 1, 2]).fits_in(2));
    assert!(!Natural::from_bytes_be(vec![0, 0, 1, 1, 2]).fits_in(2));
    assert!(Natural::from_u64(u64::MAX).fits_in(8) && !Natural::from_u64(u64::MAX).fits_in(7));
}

#[test]
fn fits_up_to_the_limit() {
    assert!(Natural::from_u64(1).fits());
    assert_eq!(pwd_dl_zkp::natural::MAX_BYTES, 0x7fff_ffff);
}

#[test]
fn from_hex_reads_digits_of_either_case() {
    assert_eq!(Natural::from_hex("0").unwrap(), Natural::from_u64(0));
    assert_eq!(Natural::from_hex("a").unwrap(), Natural::from_u64(10));
    assert_eq!(Natural::from_hex("ff").unwrap(), Natural::from_u64(255));
    assert_eq!(Natural::from_hex("FF").unwrap(), Natural::from_u64(255));
    assert_eq!(Natural::from_hex("100").unwrap(), Natural::from_u64(256));
    assert_eq!(Natural::from_hex("00000100").unwrap(), Natural::from_u64(256));
    assert_eq!(Natural::from_hex("DeadBeef").unwrap(), Natural::from_u64(0xdead_beef));
    assert_eq!(
        Natural::from_hex("123456789abcdef0").unwrap(),
        Natural::from_u64(0x1234_5678_9abc_def0)
    );
    assert_eq!(Natural::from_hex("abc").unwrap().bytes, vec![0x0a, 0xbc]);
}

#[test]
fn from_hex_refuses_anything_else() {
    assert!(Natural::from_hex("").is_none());
    assert!(Natural::from_hex("-1f").is_none());
    assert!(Natural::from_hex("+1f").is_none());
    assert!(Natural::from_hex("0x10").is_none());
    assert!(Natural::from_hex("12zz").is_none());
    assert!(Natural::from_hex("g").is_none());
    assert!(Natural::from_hex("1 2").is_none());
    assert!(Natural::from_hex("1_2").is_none());
    assert!(Natural::from_hex("é1").is_none());
    assert!(Natural::from_hex("12\u{0}").is_none());
    assert!(Natural::from_hex("/").is_none());
    assert!(Natural::from_hex(":").is_none());
    assert!(Natural::from_hex("@").is_none());
    assert!(Natural::from_hex("G").is_none());
    assert!(Natural::from_hex("`").is_none());
}

#[test]
fn to_hex_writes_canonical_text() {
    assert_eq!(Natural::from_u64(0).to_hex(), "0");
    assert_eq!(Natural::from_bytes_be(vec![]).to_hex(), "0");
    assert_eq!(Natural::from_u64(10).to_hex(), "a");
    assert_eq!(Natural::from_u64(16).to_hex(), "10");
    assert_eq!(Natural::from_u64(255).to_hex(), "ff");
    assert_eq!(Natural::from_u64(256).to_hex(), "100");
    assert_eq!(Natural::from_u64(0xdead_beef).to_hex(), "deadbeef");
    assert_eq!(Natural::from_u64(u64::MAX).to_hex(), "ffffffffffffffff");
    assert_eq!(Natural::from_bytes_be(vec![0, 0, 0x0a, 0x00]).to_hex(), "a00");
    assert_eq!(Natural::from_u64(0x0123_4567_89ab_cdef).to_hex(), "123456789abcdef");
}

#[test]
fn hex_round_trip() {
    for v in [0u64, 1, 15, 16, 255, 256, 4095, 65535, 65536, 0xdead_beef, u64::MAX] {
        let n = Natural::from_u64(v);
        assert_eq!(Natural::from_hex(&n.to_hex()).unwrap(), n);
        assert_eq!(n.to_hex(), format!("{:x}", v));
    }
    let big = "1ffffffffffffffffffffffffffffffffffffffffffffffff000000000000000001";
    assert_eq!(Natural::from_hex(big).unwrap().to_hex(), big);
}
