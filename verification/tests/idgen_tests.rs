use glyphos::hex::hex_encode;
use glyphos::idgen::{generate, make_id, make_marker};

#[test]
fn every_hexadecimal_digit_encodes_correctly() {
    assert_eq!(hex_encode(0x0123456789abcdef, 16), "0123456789abcdef");
    assert_eq!(hex_encode(0xfedcba9876543210, 16), "fedcba9876543210");
    assert_eq!(hex_encode(0, 1), "0");
    assert_eq!(hex_encode(0, 0), "0");
    assert_eq!(hex_encode(0x1b, 1), "1b");
}

#[test]
fn identifier_is_zero_padded_to_64_digits() {
    assert_eq!(make_id(0), "0".repeat(64));
    let mut expected = "0".repeat(62);
    expected.push_str("ff");
    assert_eq!(make_id(255), expected);
}

#[test]
fn identifier_of_large_value_keeps_all_digits() {
    let id = make_id(u128::MAX);
    assert_eq!(id.len(), 64);
    assert_eq!(&id[..32], "0".repeat(32));
    assert_eq!(&id[32..], "f".repeat(32));
}

#[test]
fn marker_is_prefix_plus_16_digits() {
    assert_eq!(make_marker(0), "commit_0000000000000000");
    assert_eq!(make_marker(0xabc), "commit_0000000000000abc");
}

#[test]
fn marker_grows_past_16_digits_for_huge_values() {
    let marker = make_marker(u128::MAX);
    assert_eq!(marker, format!("commit_{}", "f".repeat(32)));
}

#[test]
fn generated_pair_encodes_one_clock_reading() {
    let (id, marker) = generate();
    assert_eq!(id.len(), 64);
    assert!(id.chars().all(|c| c.is_ascii_hexdigit() && !c.is_ascii_uppercase()));
    assert!(marker.starts_with("commit_"));
    // The clock reads after the epoch, so the identifier is never all zeros
    // and its low digits agree with the marker's digits.
    assert_ne!(id, "0".repeat(64));
    let id_tail = &id[64 - 16..];
    let marker_tail = &marker[marker.len() - 16..];
    assert_eq!(id_tail, marker_tail);
}
