use epic_miner::boundary::{
    boundary, effective_difficulty, gpu_target, hashes_per_sec, meets_boundary,
};
use epic_miner::header::{
    from_hex_string, get_next_header_data, header_with_nonce, progpow_header, u64_le_bytes,
};

fn plus_one(b: &[u8; 32]) -> [u8; 32] {
    let mut r = *b;
    let mut i = 31;
    loop {
        let (v, carry) = r[i].overflowing_add(1);
        r[i] = v;
        if !carry || i == 0 {
            break;
        }
        i -= 1;
    }
    r
}

#[test]
fn difficulty_zero_counts_as_one() {
    assert_eq!(effective_difficulty(0), 1);
    assert_eq!(effective_difficulty(9), 9);
    assert_eq!(boundary(0), [0xff; 32]);
    assert_eq!(boundary(1), [0xff; 32]);
}

#[test]
fn boundary_of_two_halves() {
    let mut expected = [0xff; 32];
    expected[0] = 0x7f;
    assert_eq!(boundary(2), expected);
}

#[test]
fn boundary_of_three() {
    assert_eq!(boundary(3), [0x55; 32]);
}

#[test]
fn hash_equal_to_boundary_is_accepted() {
    let b = boundary(1000);
    assert!(meets_boundary(&b, &b));
    assert!(!meets_boundary(&plus_one(&b), &b));
    let mut below = b;
    below[31] = below[31].wrapping_sub(1);
    assert!(meets_boundary(&below, &b));
}

#[test]
fn gpu_target_is_high_word() {
    assert_eq!(gpu_target(1), u64::MAX);
    assert_eq!(gpu_target(0), u64::MAX);
    assert_eq!(gpu_target(2), 0x7fff_ffff_ffff_ffff);
}

#[test]
fn rate_with_zero_elapsed_is_work() {
    assert_eq!(hashes_per_sec(100, 5, 5), 100);
    assert_eq!(hashes_per_sec(524288, 7, 7), 524288);
    assert_eq!(hashes_per_sec(100, 9, 5), 100);
}

#[test]
fn rate_formula() {
    assert_eq!(hashes_per_sec(100, 0, 1000), 100);
    assert_eq!(hashes_per_sec(100, 1000, 1050), 2000);
    assert_eq!(hashes_per_sec(524288, 0, 2000), 262144);
}

#[test]
fn hex_decoding() {
    assert_eq!(from_hex_string("0aFf"), Some(vec![10, 255]));
    assert_eq!(from_hex_string(""), Some(vec![]));
    assert_eq!(from_hex_string("abc"), None);
    assert_eq!(from_hex_string("zz"), None);
}

#[test]
fn nonce_bytes_little_endian() {
    assert_eq!(u64_le_bytes(0x0102030405060708), [8, 7, 6, 5, 4, 3, 2, 1]);
}

#[test]
fn header_layout() {
    assert_eq!(
        header_with_nonce("00aa", "ff", 1),
        Some(vec![0, 0xaa, 1, 0, 0, 0, 0, 0, 0, 0, 0xff])
    );
    assert_eq!(header_with_nonce("0", "ff", 1), None);
    assert_eq!(header_with_nonce("00", "g0", 1), None);
}

#[test]
fn next_header_uses_drawn_nonce() {
    let pre = "00".repeat(40);
    let (nonce, h) = get_next_header_data(&pre, "").unwrap();
    assert_eq!(h.len(), 48);
    assert_eq!(&h[40..], &nonce.to_le_bytes());
    assert!(get_next_header_data("x", "").is_none());
}

#[test]
fn progpow_header_is_keccak_of_bytes() {
    let empty = progpow_header("").unwrap();
    assert_eq!(
        empty,
        [
            0xc5, 0xd2, 0x46, 0x01, 0x86, 0xf7, 0x23, 0x3c, 0x92, 0x7e, 0x7d, 0xb2, 0xdc, 0xc7,
            0x03, 0xc0, 0xe5, 0x00, 0xb6, 0x53, 0xca, 0x82, 0x27, 0x3b, 0x7b, 0xfa, 0xd8, 0x04,
            0x5d, 0x85, 0xa4, 0x70
        ]
    );
    assert_ne!(progpow_header("00").unwrap(), empty);
    assert!(progpow_header("0").is_none());
}
