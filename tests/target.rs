use share_relay::target::{does_hash_meet_target, nbits_to_target, weak_block_is_good};

#[test]
fn genesis_target_decodes() {
    let (t, neg, over) = nbits_to_target(0x1d00ffff);
    let mut want = vec![0u8; 32];
    want[26] = 0xff;
    want[27] = 0xff;
    assert_eq!(t, want);
    assert!(!neg);
    assert!(!over);
}

#[test]
fn small_exponent_shifts_mantissa() {
    let (t, _, _) = nbits_to_target(0x02123456);
    let mut want = vec![0u8; 32];
    want[0] = 0x34;
    want[1] = 0x12;
    assert_eq!(t, want);
}

#[test]
fn negative_and_overflow_flags() {
    assert!(nbits_to_target(0x04923456).1);
    assert!(!nbits_to_target(0x04123456).1);
    assert!(nbits_to_target(0x23000001).2);
    assert!(nbits_to_target(0x22000100).2);
    assert!(!nbits_to_target(0x22000001).2);
    assert!(!nbits_to_target(0xff000000).2);
}

#[test]
fn hash_comparison_is_little_endian() {
    let mut target = vec![0u8; 32];
    target[31] = 0x10;
    let mut hash = vec![0xffu8; 32];
    hash[31] = 0x0f;
    assert!(does_hash_meet_target(&hash, &target));
    hash[31] = 0x10;
    assert!(!does_hash_meet_target(&hash, &target));
    assert!(does_hash_meet_target(&target, &target));
}

#[test]
fn weak_block_good_flag() {
    let mut hash = vec![0u8; 32];
    hash[25] = 0x01;
    assert_eq!(weak_block_is_good(0x1d00ffff, &hash), Some(true));
    hash[29] = 0x01;
    assert_eq!(weak_block_is_good(0x1d00ffff, &hash), Some(false));
    assert_eq!(weak_block_is_good(0x23000001, &vec![0u8; 32]), None);
    assert_eq!(weak_block_is_good(0x04923456, &vec![0u8; 32]), None);
}
