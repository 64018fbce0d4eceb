use storage_ledger::encoding::{same_text, to_decimal, to_hex};
use storage_ledger::utils::{compute_file_hash, get_deterministic_random};

use rand::{Rng, SeedableRng};
use rand_chacha::ChaChaRng;
use sha2::{Digest, Sha256};

#[test]
fn hex_of_no_bytes_is_empty() {
    assert_eq!(to_hex(&[]), "");
}

#[test]
fn hex_is_lower_case_two_digits_per_byte() {
    assert_eq!(to_hex(&[0x00, 0x0a, 0x14, 0x1e, 0xab, 0xff]), "000a141eabff");
    assert_eq!(to_hex(&[10, 20, 30]), "0a141e");
}

#[test]
fn hex_covers_every_digit() {
    assert_eq!(to_hex(&[0x01, 0x23, 0x45, 0x67, 0x89, 0xab, 0xcd, 0xef]), "0123456789abcdef");
}

#[test]
fn decimal_of_small_and_large_sizes() {
    assert_eq!(to_decimal(0), "0");
    assert_eq!(to_decimal(7), "7");
    assert_eq!(to_decimal(10), "10");
    assert_eq!(to_decimal(100), "100");
    assert_eq!(to_decimal(1234567890), "1234567890");
    assert_eq!(to_decimal(usize::MAX), format!("{}", usize::MAX));
}

#[test]
fn same_text_compares_by_content() {
    assert!(same_text("abc", "abc"));
    assert!(same_text("", ""));
    assert!(!same_text("abc", "abd"));
    assert!(!same_text("abc", "ab"));
}

#[test]
fn file_hash_of_known_inputs() {
    assert_eq!(
        compute_file_hash(b""),
        "e3b0c44298fc1c149afbf4c8996fb92427ae41e4649b934ca495991b7852b855"
    );
    assert_eq!(
        compute_file_hash(b"abc"),
        "ba7816bf8f01cfea414140de5dae2223b00361a396177a9cb410ff61f20015ad"
    );
    assert_eq!(
        compute_file_hash(b"hello world"),
        "b94d27b9934d3e08a52e52d7da7dabfac484efe37a5380ee9088f7ace2efcde9"
    );
}

#[test]
fn file_hash_has_sixty_four_digits() {
    let hash = compute_file_hash(&[1, 2, 3, 4, 5]);
    assert_eq!(hash.len(), 64);
    assert!(hash.chars().all(|c| c.is_ascii_digit() || ('a'..='f').contains(&c)));
}

#[test]
fn file_hash_changes_with_one_byte() {
    assert_ne!(compute_file_hash(b"abc"), compute_file_hash(b"abd"));
    assert_eq!(compute_file_hash(b"abc"), compute_file_hash(b"abc"));
}

#[test]
fn seeded_number_is_first_output_of_generator() {
    let expected = ChaChaRng::seed_from_u64(5 ^ 9).random::<u64>();
    assert_eq!(get_deterministic_random(5, 9), expected);
    assert_ne!(get_deterministic_random(5, 9), 5 ^ 9);
}

#[test]
fn seeded_number_depends_on_exclusive_or_alone() {
    assert_eq!(get_deterministic_random(5, 9), get_deterministic_random(9, 5));
    assert_eq!(get_deterministic_random(12, 0), get_deterministic_random(0, 12));
    assert_eq!(get_deterministic_random(6, 10), get_deterministic_random(12, 0));
    assert_ne!(get_deterministic_random(1, 2), get_deterministic_random(1, 3));
}

#[test]
fn file_hash_matches_the_digest_in_lower_hex() {
    for len in [0usize, 1, 31, 32, 33, 55, 56, 63, 64, 65, 1000] {
        let data: Vec<u8> = (0..len).map(|i| (i * 7 + 3) as u8).collect();
        assert_eq!(compute_file_hash(&data), format!("{:x}", Sha256::digest(&data)));
    }
}

#[test]
fn hex_matches_two_digit_formatting() {
    let all: Vec<u8> = (0..=255).collect();
    let expected: String = all.iter().map(|b| format!("{:02x}", b)).collect();
    assert_eq!(to_hex(&all), expected);
}

#[test]
fn decimal_matches_standard_formatting() {
    for n in [0usize, 9, 10, 11, 99, 100, 101, 999, 1000, 65535, 65536, 4294967295] {
        assert_eq!(to_decimal(n), format!("{}", n));
    }
}
