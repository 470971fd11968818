//! End-to-end derivation behaviour against a fixed reference configuration.

use nobrain::derive_password;
use nobrain::derive_with;
use nobrain::has_all_features;
use nobrain::DerivationError;
use nobrain::ZeroTransform;

const MASTER: &[u8] = b"correct-horse-battery-staple";

const ALPHABET: &str = "ABCDEF$!:+-.GHJKLMNPQRSTUVWXYZabcdefghijknopqrstuvwxyz0123456789";

#[test]
fn determinism_same_inputs() {
    let a = derive_password("example.com", None, MASTER, None).unwrap();
    let b = derive_password("example.com", None, MASTER, None).unwrap();
    assert_eq!(a.password, b.password);
    assert_eq!(a.iterations, b.iterations);
}

#[test]
fn reference_value_no_username() {
    let d = derive_password("example.com", None, MASTER, None).unwrap();
    assert_eq!(d.password, "pCgK5h2y1+4SxGAnokiMwHa8:oHCDKc:H+Vup4oG3uL");
    assert_eq!(d.iterations, 1);
}

#[test]
fn reference_value_with_username() {
    let d = derive_password("example.com", Some("alice"), MASTER, None).unwrap();
    assert_eq!(d.password, "XZLrbR6+XqzCGD-Nf4UMwuZk7vx:SphyC!cR!PoTxNy");
    assert_eq!(d.iterations, 1);
}

#[test]
fn reference_value_with_secondary_secret() {
    let d = derive_password("example.com", None, MASTER, Some(b"hardkey-material")).unwrap();
    assert_eq!(d.password, "iiTnY6nBdeUoqSDNJx$uecNBVACd:3tH0F7gN5Q3JiQ");
    assert_eq!(d.iterations, 1);
}

#[test]
fn username_changes_password() {
    let plain = derive_password("example.com", None, MASTER, None).unwrap();
    let named = derive_password("example.com", Some("alice"), MASTER, None).unwrap();
    assert_ne!(plain.password, named.password);
}

#[test]
fn domain_changes_password() {
    let com = derive_password("example.com", None, MASTER, None).unwrap();
    let org = derive_password("example.org", None, MASTER, None).unwrap();
    assert_ne!(com.password, org.password);
    assert_eq!(org.password, "TWTW7vk.VP!3j:kH32XSR6RVtYvHCyQq+9:tgV-:Qg:");
}

#[test]
fn master_secret_changes_password() {
    let a = derive_password("example.com", None, MASTER, None).unwrap();
    let b = derive_password("example.com", None, b"correct-horse-battery-staplf", None).unwrap();
    assert_ne!(a.password, b.password);
    assert_eq!(b.password, "7MC$3Nz2dQ!wM8ptovds:s84jkdqonUD2+A4iozdErL");
}

#[test]
fn secondary_secret_changes_password() {
    let without = derive_password("example.com", None, MASTER, None).unwrap();
    let with = derive_password("example.com", None, MASTER, Some(b"hardkey-material")).unwrap();
    assert_ne!(without.password, with.password);
}

#[test]
fn policy_satisfied_by_results() {
    let d = derive_password("example.com", Some("alice"), MASTER, None).unwrap();
    assert!(has_all_features(d.password.as_bytes()));
    assert!(d.password.chars().any(|c| c.is_ascii_lowercase()));
    assert!(d.password.chars().any(|c| c.is_ascii_uppercase()));
    assert!(d.password.chars().any(|c| c.is_ascii_digit()));
    assert!(d.password.chars().any(|c| "$!+-.:".contains(c)));
}

#[test]
fn alphabet_closure_of_results() {
    let d = derive_password("example.org", None, MASTER, None).unwrap();
    for c in d.password.chars() {
        assert!(ALPHABET.contains(c));
    }
}

#[test]
fn password_length_is_fixed() {
    let d = derive_password("example.com", None, MASTER, None).unwrap();
    assert_eq!(d.password.len(), 43);
}

#[test]
fn iterations_at_least_one() {
    let d = derive_password("example.com", None, MASTER, None).unwrap();
    assert!(d.iterations >= 1);
}

#[test]
fn multiple_iterations_reported() {
    let d = derive_password("iter74.example", None, MASTER, None).unwrap();
    assert_eq!(d.password, "3gTgz-w9ewWw+-xUBerJKc4WPkSK5PAJNGh!RMaf9WU");
    assert_eq!(d.iterations, 2);
}

#[test]
fn iterations_count_transform_applications() {
    // Re-run the chain by hand with the real transform: one application for
    // the first reference case, two for the multi-iteration case.
    let mut digest = [0u8; 32];
    pbkdf2::pbkdf2_hmac::<sha2::Sha256>(b"example.com", MASTER, 32, &mut digest);
    let once = nobrain::encode(&digest);
    let d = derive_password("example.com", None, MASTER, None).unwrap();
    assert_eq!(d.password.as_bytes(), once.as_slice());
    assert_eq!(d.iterations, 1);

    let mut first = [0u8; 32];
    pbkdf2::pbkdf2_hmac::<sha2::Sha256>(b"iter74.example", MASTER, 32, &mut first);
    let enc1 = nobrain::encode(&first);
    assert!(!has_all_features(enc1.as_slice()));
    let mut second = [0u8; 32];
    pbkdf2::pbkdf2_hmac::<sha2::Sha256>(enc1.as_slice(), MASTER, 32, &mut second);
    let enc2 = nobrain::encode(&second);
    assert!(has_all_features(enc2.as_slice()));
    let d2 = derive_password("iter74.example", None, MASTER, None).unwrap();
    assert_eq!(d2.password.as_bytes(), enc2.as_slice());
    assert_eq!(d2.iterations, 2);
}

#[test]
fn ceiling_enforced_with_degenerate_transform() {
    let r = derive_with(&ZeroTransform {}, b"example.com", MASTER);
    assert!(matches!(r, Err(DerivationError::ConfigurationExhaustion)));
}

#[test]
fn empty_username_matches_absent_username() {
    // With no separators an empty username adds nothing to the composition.
    let absent = derive_password("example.com", None, MASTER, None).unwrap();
    let empty = derive_password("example.com", Some(""), MASTER, None).unwrap();
    assert_eq!(absent.password, empty.password);
}
