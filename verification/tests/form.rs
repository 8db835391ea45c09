use qrstats::digest::verify_hash;
use qrstats::error::Error;
use qrstats::form::{field, get_target, FormValue};

fn text(value: &str) -> Option<FormValue> {
    Some(FormValue::Field(value.to_string()))
}

#[test]
fn only_text_entries_have_text() {
    assert_eq!(field(text("abc")), Some("abc".to_string()));
    assert_eq!(field(text("")), Some("".to_string()));
    assert_eq!(field(Some(FormValue::File)), None);
    assert_eq!(field(None), None);
}

#[test]
fn form_without_password_asks_for_an_open_record() {
    let target = get_target(text("http://example.com"), None).expect("the form has a URL");
    assert_eq!(target.url, "http://example.com");
    assert_eq!(target.pw_hash, None);
    let target = get_target(text("http://example.com"), Some(FormValue::File)).expect("a URL");
    assert_eq!(target.pw_hash, None);
}

#[test]
fn form_with_password_asks_for_a_gated_record() {
    let target = get_target(text("http://x.com"), text("secret")).expect("the form has a URL");
    assert_eq!(target.url, "http://x.com");
    let digest = target.pw_hash.expect("a password was entered");
    assert_ne!(digest, "secret");
    assert!(verify_hash(&digest, "secret"));
    assert!(!verify_hash(&digest, "wrong"));
}

#[test]
fn url_is_taken_as_entered() {
    let target = get_target(text("not-a-url"), None).expect("the form has a URL");
    assert_eq!(target.url, "not-a-url");
}

#[test]
fn form_without_url_fails_validation() {
    assert_eq!(get_target(None, None), Err(Error::Validation));
    assert_eq!(get_target(None, text("secret")), Err(Error::Validation));
    assert_eq!(get_target(Some(FormValue::File), None), Err(Error::Validation));
}
