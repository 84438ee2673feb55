use fusion_htlc::fills::percent_filled;
use fusion_htlc::hashing::{hash_bytes, hash_secret, preimage_matches, secret_matches};
use fusion_htlc::ids::{generate_contract_id, generate_order_id, generate_request_id, generate_swap_id};
use fusion_htlc::text::{
    bytes_equal, is_commitment_well_formed, is_foreign_address_well_formed, push_decimal, push_text,
};
use fusion_htlc::HtlcError;
use sha2::{Digest, Sha256};

#[test]
fn sha256_of_empty_input_is_the_known_digest() {
    assert_eq!(
        hash_bytes(b""),
        "e3b0c44298fc1c149afbf4c8996fb92427ae41e4649b934ca495991b7852b855"
    );
}

#[test]
fn sha256_of_abc_is_the_known_digest() {
    assert_eq!(
        hash_secret("abc"),
        "ba7816bf8f01cfea414140de5dae2223b00361a396177a9cb410ff61f20015ad"
    );
}

#[test]
fn secret_matches_only_its_own_commitment() {
    let h = hash_secret("test_secret_123");
    assert!(secret_matches("test_secret_123", &h));
    assert!(!secret_matches("test_secret_124", &h));
    let prefix = h[..63].to_string();
    assert!(!secret_matches("test_secret_123", &prefix));
}

#[test]
fn preimage_matches_only_its_own_digest() {
    let digest: Vec<u8> = vec![
        0xba, 0x78, 0x16, 0xbf, 0x8f, 0x01, 0xcf, 0xea, 0x41, 0x41, 0x40, 0xde, 0x5d, 0xae, 0x22,
        0x23, 0xb0, 0x03, 0x61, 0xa3, 0x96, 0x17, 0x7a, 0x9c, 0xb4, 0x10, 0xff, 0x61, 0xf2, 0x00,
        0x15, 0xad,
    ];
    assert!(preimage_matches(b"abc", &digest));
    assert!(!preimage_matches(b"abd", &digest));
    assert!(!preimage_matches(b"abc", &digest[..31]));
}

#[test]
fn decimal_form_has_no_leading_zeros() {
    let render = |n: u128| {
        let mut buf = b"n=".to_vec();
        push_decimal(&mut buf, n);
        String::from_utf8(buf).unwrap()
    };
    assert_eq!(render(0), "n=0");
    assert_eq!(render(9), "n=9");
    assert_eq!(render(10), "n=10");
    assert_eq!(render(1_000_000), "n=1000000");
    assert_eq!(render(u128::MAX), "n=340282366920938463463374607431768211455");
}

#[test]
fn text_is_appended_as_its_bytes() {
    let mut buf = vec![1u8];
    push_text(&mut buf, "a-é");
    assert_eq!(buf, vec![1, b'a', b'-', 0xc3, 0xa9]);
    push_text(&mut buf, "");
    assert_eq!(buf.len(), 5);
}

#[test]
fn commitment_format_is_64_hex_digits() {
    assert!(is_commitment_well_formed(&"0123456789abcdefABCDEF".repeat(3)[..64]));
    assert!(!is_commitment_well_formed(""));
    assert!(!is_commitment_well_formed(&"a".repeat(63)));
    assert!(!is_commitment_well_formed(&"a".repeat(65)));
    assert!(!is_commitment_well_formed(&format!("{}g", "a".repeat(63))));
    assert!(!is_commitment_well_formed(&format!("{}/", "a".repeat(63))));
    assert!(!is_commitment_well_formed(&format!("{}:", "a".repeat(63))));
    assert!(!is_commitment_well_formed(&format!("{}@", "a".repeat(63))));
    assert!(!is_commitment_well_formed(&format!("{}G", "a".repeat(63))));
    assert!(!is_commitment_well_formed(&format!("{}`", "a".repeat(63))));
    assert!(!is_commitment_well_formed(&"é".repeat(32)));
}

#[test]
fn foreign_address_is_42_bytes_after_0x() {
    assert!(is_foreign_address_well_formed("0x1234567890123456789012345678901234567890"));
    assert!(is_foreign_address_well_formed(&format!("0x{}", "z".repeat(40))));
    assert!(!is_foreign_address_well_formed("invalid_address"));
    assert!(!is_foreign_address_well_formed(&format!("0X{}", "1".repeat(40))));
    assert!(!is_foreign_address_well_formed(&format!("0x{}", "1".repeat(39))));
    assert!(!is_foreign_address_well_formed(&format!("0x{}", "1".repeat(41))));
    assert!(!is_foreign_address_well_formed(""));
    assert!(!is_foreign_address_well_formed("0"));
}

#[test]
fn bytes_are_compared_in_full() {
    assert!(bytes_equal(b"", b""));
    assert!(bytes_equal(b"abc", b"abc"));
    assert!(!bytes_equal(b"abc", b"abd"));
    assert!(!bytes_equal(b"abc", b"ab"));
    assert!(!bytes_equal(b"ab", b"abc"));
}

#[test]
fn identifiers_are_deterministic_and_tell_kinds_apart() {
    let h = |s: &str| hex::encode(Sha256::digest(s.as_bytes()));
    assert_eq!(generate_swap_id("a", "b", "c", 1, 2), h("a-b-c-1-2"));
    assert_eq!(generate_swap_id("a", "b", "c", 1, 2), generate_swap_id("a", "b", "c", 1, 2));
    assert_ne!(generate_swap_id("a", "b", "c", 1, 2), generate_swap_id("a", "b", "c", 1, 3));
    assert_eq!(generate_request_id("a", "0x", 5, "c", 1, 2), h("near_to_eth_a-0x-5-c-1-2"));
    assert_eq!(generate_contract_id("", "a", "b", 5, 2), h("a-b-5-2"));
    assert_eq!(generate_contract_id("cc-", "a", "b", 5, 2), h("cc-a-b-5-2"));
    assert_eq!(generate_order_id("pf-swap-", "a", 5, 2), h("pf-swap-a-5-2"));
    assert_eq!(generate_order_id("fill-", "a", 0, u64::MAX), h("fill-a-0-18446744073709551615"));
    assert_eq!(generate_swap_id("", "", "", 0, 0).len(), 64);
}

#[test]
fn every_failure_has_its_text() {
    let all = [
        (HtlcError::NotFound, "record not found"),
        (HtlcError::AlreadyFinalized, "record already finalized"),
        (HtlcError::Expired, "deadline expired"),
        (HtlcError::NotYetExpired, "deadline not yet expired"),
        (HtlcError::InvalidSecret, "invalid secret"),
        (HtlcError::Unauthorized, "caller not authorized"),
        (HtlcError::InvalidAmount, "invalid amount"),
        (HtlcError::InvalidCommitment, "invalid commitment"),
        (HtlcError::InvalidForeignAddress, "invalid foreign address"),
        (HtlcError::Conflict, "identifier already exists"),
        (HtlcError::ConcurrentClaim, "claim already in progress"),
    ];
    for (e, text) in all {
        assert_eq!(e.message(), text);
    }
}

#[test]
fn percentage_is_exact_without_forming_the_product() {
    assert_eq!(percent_filled(0, 0), 0);
    assert_eq!(percent_filled(0, 7), 0);
    assert_eq!(percent_filled(7, 7), 100);
    assert_eq!(percent_filled(1, 3), 33);
    assert_eq!(percent_filled(2, 3), 66);
    assert_eq!(percent_filled(199, 200), 99);
    assert_eq!(percent_filled(1, 101), 0);
    assert_eq!(percent_filled(2, 101), 1);
    assert_eq!(percent_filled(u128::MAX - 1, u128::MAX), 99);
    assert_eq!(percent_filled(u128::MAX, u128::MAX), 100);
    assert_eq!(percent_filled(u128::MAX / 100 + 1, u128::MAX), 1);
    assert_eq!(percent_filled(u128::MAX / 100, u128::MAX), 0);
}
