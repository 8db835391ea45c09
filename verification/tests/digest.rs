use qrstats::digest::{constant_time_eq, gen_hash, gen_hash_with_salt, to_hex, verify_hash};

#[test]
fn hex_of_bytes_is_lower_case_pairs() {
    assert_eq!(to_hex(&[0x00, 0x0f, 0xa5, 0xff]), "000fa5ff");
    assert_eq!(to_hex(&[]), "");
}

#[test]
fn salted_digest_is_salt_separator_and_sha256_hex() {
    assert_eq!(
        gen_hash_with_salt("salt", "secret"),
        "salt$bede90386d450cea8b77b822f8887065e4e5abf132c2f9dccfcc7fbd4cba5e35"
    );
    assert_eq!(
        gen_hash_with_salt("", ""),
        "$e3b0c44298fc1c149afbf4c8996fb92427ae41e4649b934ca495991b7852b855"
    );
}

#[test]
fn stored_digest_matches_its_password_only() {
    let stored = gen_hash_with_salt("salt", "secret");
    assert!(verify_hash(&stored, "secret"));
    assert!(!verify_hash(&stored, "wrong"));
    assert!(!verify_hash(&stored, ""));
    assert!(!verify_hash(&stored, "secret "));
}

#[test]
fn separator_is_the_last_dollar_sign() {
    let stored = gen_hash_with_salt("sa$lt$", "pa$$word");
    assert!(stored.starts_with("sa$lt$$"));
    assert!(verify_hash(&stored, "pa$$word"));
    assert!(!verify_hash(&stored, "password"));
}

#[test]
fn text_without_separator_matches_nothing() {
    assert!(!verify_hash("", ""));
    assert!(!verify_hash("bede90386d450cea", "secret"));
    assert!(!verify_hash("salt$", "secret"));
}

#[test]
fn fresh_digests_differ_and_both_match() {
    let a = gen_hash("secret".to_string());
    let b = gen_hash("secret".to_string());
    assert_ne!(a, b);
    assert_eq!(a.len(), 36 + 1 + 64);
    assert_eq!(a.as_bytes()[36], b'$');
    assert!(verify_hash(&a, "secret"));
    assert!(verify_hash(&b, "secret"));
    assert!(!verify_hash(&a, "Secret"));
}

#[test]
fn constant_time_comparison_agrees_with_equality() {
    assert!(constant_time_eq(b"", b""));
    assert!(constant_time_eq(b"abc", b"abc"));
    assert!(!constant_time_eq(b"abc", b"abd"));
    assert!(!constant_time_eq(b"abc", b"ab"));
    assert!(!constant_time_eq(b"xbc", b"abc"));
}
