use qrstats::ident::{
    allocate, allocate_from, candidate_id, first_group, Allocation, Attempts, MAX_ID_ATTEMPTS,
};
use qrstats::record::Target;
use qrstats::store::RecordStore;

fn is_short_id(id: &str) -> bool {
    id.len() == 8 && id.chars().all(|c| matches!(c, '0'..='9' | 'a'..='f'))
}

fn sample_target() -> Target {
    Target { url: "http://example.com".to_string(), pw_hash: None }
}

#[test]
fn first_group_stops_at_the_first_hyphen() {
    assert_eq!(first_group("67e55044-10b1-426f-9247-bb680e5fe0c8"), "67e55044");
    assert_eq!(first_group("abc"), "abc");
    assert_eq!(first_group(""), "");
    assert_eq!(first_group("-abc"), "");
    assert_eq!(first_group("ab-"), "ab");
    assert_eq!(first_group("é-x"), "é");
}

#[test]
fn candidate_is_eight_lower_hex_characters() {
    for _ in 0..200 {
        let id = candidate_id();
        assert!(is_short_id(&id), "{:?}", id);
    }
}

#[test]
fn candidates_are_drawn_at_random() {
    let a = candidate_id();
    let mut differs = false;
    for _ in 0..16 {
        if candidate_id() != a {
            differs = true;
        }
    }
    assert!(differs);
}

#[test]
fn attempts_give_out_as_many_candidates_as_allowed() {
    let mut attempts = Attempts::new(3);
    for _ in 0..3 {
        let candidate = attempts.next_candidate();
        assert!(matches!(&candidate, Some(id) if is_short_id(id)));
    }
    assert_eq!(attempts.next_candidate(), None);
    assert_eq!(attempts.next_candidate(), None);
    assert_eq!(Attempts::new(0).next_candidate(), None);
}

#[test]
fn allocation_takes_the_first_free_candidate() {
    let mut records = RecordStore::new();
    assert!(records.put("aaaaaaaa".to_string(), sample_target()).is_ok());
    assert!(records.put("bbbbbbbb".to_string(), sample_target()).is_ok());
    let candidates = vec![
        "aaaaaaaa".to_string(),
        "bbbbbbbb".to_string(),
        "cccccccc".to_string(),
        "dddddddd".to_string(),
    ];
    assert_eq!(
        allocate_from(&records, &candidates),
        Allocation::Allocated("cccccccc".to_string())
    );
}

#[test]
fn allocation_is_exhausted_when_every_candidate_is_taken() {
    let mut records = RecordStore::new();
    assert!(records.put("aaaaaaaa".to_string(), sample_target()).is_ok());
    let candidates = vec!["aaaaaaaa".to_string(), "aaaaaaaa".to_string()];
    assert_eq!(allocate_from(&records, &candidates), Allocation::Exhausted);
    assert_eq!(allocate_from(&records, &Vec::new()), Allocation::Exhausted);
}

#[test]
fn allocation_without_attempts_is_exhausted() {
    let records = RecordStore::new();
    assert_eq!(allocate(&records, 0), Allocation::Exhausted);
}

#[test]
fn allocation_in_an_empty_store_succeeds_at_once() {
    let records = RecordStore::new();
    match allocate(&records, 1) {
        Allocation::Allocated(id) => assert!(is_short_id(&id)),
        Allocation::Exhausted => panic!("the store is empty"),
    }
}

#[test]
fn default_bound_allows_eight_attempts() {
    assert_eq!(MAX_ID_ATTEMPTS, 8);
    let mut attempts = Attempts::new(MAX_ID_ATTEMPTS);
    let mut drawn = 0;
    while attempts.next_candidate().is_some() {
        drawn += 1;
    }
    assert_eq!(drawn, 8);
}
