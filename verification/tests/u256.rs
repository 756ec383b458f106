use rkb::U256;

fn be(bytes: [u8; 32]) -> U256 {
    let v: Vec<u8> = bytes.to_vec();
    U256::from_be_bytes(&v, 0)
}

fn word(n: u64) -> [u8; 32] {
    let mut b = [0u8; 32];
    b[24..32].copy_from_slice(&n.to_be_bytes());
    b
}

#[test]
fn test_from_be_bytes_small() {
    assert_eq!(be(word(0)), U256::from_u64(0));
    assert_eq!(be(word(1000)), U256::from_u64(1000));
    assert_eq!(be(word(u64::MAX)), U256::from_u64(u64::MAX));
}

#[test]
fn test_from_be_bytes_wide() {
    // 2^64 sits one byte above the least significant eight
    let mut b = [0u8; 32];
    b[23] = 1;
    let two_to_64 = be(b);
    assert_ne!(two_to_64, U256::from_u64(u64::MAX));
    let one = U256::from_u64(1);
    let max_low = U256::from_u64(u64::MAX);
    assert_eq!(max_low.checked_add(&one), Some(two_to_64));
}

#[test]
fn test_less_than() {
    assert!(U256::from_u64(5).less_than(&U256::from_u64(10)));
    assert!(!U256::from_u64(10).less_than(&U256::from_u64(5)));
    assert!(!U256::from_u64(5).less_than(&U256::from_u64(5)));
    let mut high = [0u8; 32];
    high[0] = 1;
    assert!(U256::from_u64(u64::MAX).less_than(&be(high)));
}

#[test]
fn test_checked_sub_exact() {
    let a = U256::from_u64(1000);
    let b = U256::from_u64(400);
    assert_eq!(a.checked_sub(&b), Some(U256::from_u64(600)));
    assert_eq!(b.checked_sub(&a), None);
    // borrow across the limb boundary: 2^64 - 1 == u64::MAX
    let mut b64 = [0u8; 32];
    b64[23] = 1;
    let two_to_64 = be(b64);
    assert_eq!(two_to_64.checked_sub(&U256::from_u64(1)), Some(U256::from_u64(u64::MAX)));
}

#[test]
fn test_checked_add_overflow() {
    let max = be([0xff; 32]);
    assert_eq!(max.checked_add(&U256::from_u64(1)), None);
    assert_eq!(max.checked_add(&U256::from_u64(0)), Some(max));
}
