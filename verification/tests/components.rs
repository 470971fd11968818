//! Unit behaviour of the composer, the encoder and the policy check.

use nobrain::compose_input;
use nobrain::encode;
use nobrain::has_all_features;

#[test]
fn alphabet_string_value() {
    assert_eq!(
        nobrain::alphabet::alphabet_string(),
        "ABCDEF$!:+-.GHJKLMNPQRSTUVWXYZabcdefghijknopqrstuvwxyz0123456789"
    );
}

#[test]
fn compose_order_secondary_username_domain() {
    let composed = compose_input(Some(b"KEY"), Some("user"), "domain");
    assert_eq!(composed, b"KEYuserdomain".to_vec());
}

#[test]
fn compose_without_secondary() {
    let composed = compose_input(None, Some("user"), "domain");
    assert_eq!(composed, b"userdomain".to_vec());
}

#[test]
fn compose_domain_only() {
    let composed = compose_input(None, None, "domain");
    assert_eq!(composed, b"domain".to_vec());
}

#[test]
fn compose_has_no_separators() {
    let a = compose_input(Some(b"ab"), Some("c"), "d");
    let b = compose_input(Some(b"a"), Some("bc"), "d");
    assert_eq!(a, b);
}

#[test]
fn encode_empty() {
    assert_eq!(encode(&[]), Vec::<u8>::new());
}

#[test]
fn encode_zero_group() {
    assert_eq!(encode(&[0, 0, 0]), b"AAAA".to_vec());
}

#[test]
fn encode_all_ones_group() {
    assert_eq!(encode(&[255, 255, 255]), b"9999".to_vec());
}

#[test]
fn encode_low_bit() {
    // The last 6-bit group of three bytes is the low six bits of the third.
    assert_eq!(encode(&[0, 0, 1]), b"AAAB".to_vec());
}

#[test]
fn encode_single_byte() {
    // 0x04 = 000001|00(0000): symbols at indexes 1 and 0.
    assert_eq!(encode(&[4]), b"BA".to_vec());
}

#[test]
fn encode_two_bytes() {
    // 0x00 0x10 = 000000|000001|0000(00): symbols at indexes 0, 1, 0.
    assert_eq!(encode(&[0, 16]), b"ABA".to_vec());
}

#[test]
fn encode_digest_length() {
    assert_eq!(encode(&[0u8; 32]).len(), 43);
    assert_eq!(encode(&[0u8; 32]), vec![b'A'; 43]);
}

#[test]
fn features_all_present() {
    assert!(has_all_features(b"aA0$"));
}

#[test]
fn features_missing_lowercase() {
    assert!(!has_all_features(b"AA00$$"));
}

#[test]
fn features_missing_uppercase() {
    assert!(!has_all_features(b"aa00$$"));
}

#[test]
fn features_missing_digit() {
    assert!(!has_all_features(b"aaAA$$"));
}

#[test]
fn features_missing_punctuation() {
    assert!(!has_all_features(b"aaAA00"));
}

#[test]
fn features_empty() {
    assert!(!has_all_features(b""));
}

#[test]
fn features_each_punctuation_symbol_counts() {
    for p in [b'$', b'!', b'+', b'-', b'.', b':'] {
        let s = vec![b'a', b'A', b'0', p];
        assert!(has_all_features(s.as_slice()));
    }
}
