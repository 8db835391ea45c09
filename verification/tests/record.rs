use qrstats::error::Error;
use qrstats::record::{accept_if, validate_target, Target};

fn target(url: &str) -> Target {
    Target { url: url.to_string(), pw_hash: None }
}

#[test]
fn absolute_urls_are_valid() {
    assert_eq!(validate_target(&target("http://example.com")), Ok(()));
    assert_eq!(validate_target(&target("http://x.com")), Ok(()));
    assert_eq!(validate_target(&target("https://example.net/path?q=1#frag")), Ok(()));
    assert_eq!(validate_target(&target("mailto:someone@example.com")), Ok(()));
}

#[test]
fn text_that_is_no_absolute_url_fails_validation() {
    assert_eq!(validate_target(&target("not-a-url")), Err(Error::Validation));
    assert_eq!(validate_target(&target("")), Err(Error::Validation));
    assert_eq!(validate_target(&target("example.com")), Err(Error::Validation));
    assert_eq!(validate_target(&target("/relative/path")), Err(Error::Validation));
    assert_eq!(validate_target(&target("http://")), Err(Error::Validation));
    assert_eq!(validate_target(&target("htt")), Err(Error::Validation));
}

#[test]
fn validation_leaves_the_record_as_it_is() {
    let record = Target { url: "example.com".to_string(), pw_hash: Some("s$0".to_string()) };
    let copy = record.clone();
    let _ = validate_target(&record);
    assert_eq!(record, copy);
}

#[test]
fn parser_verdict_decides_validation() {
    assert_eq!(accept_if(true), Ok(()));
    assert_eq!(accept_if(false), Err(Error::Validation));
}

#[test]
fn clone_copies_every_field() {
    let record = Target { url: "http://x.com".to_string(), pw_hash: Some("s$0".to_string()) };
    assert_eq!(record.clone(), record);
    let open = target("http://example.com");
    assert_eq!(open.clone(), open);
}
