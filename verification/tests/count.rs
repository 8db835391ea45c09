use qrstats::count::{next_count, parse_count, render_count};
use qrstats::store::{count_of_text, counted_text};

#[test]
fn count_is_written_in_shortest_decimal_form() {
    assert_eq!(render_count(0), "0");
    assert_eq!(render_count(7), "7");
    assert_eq!(render_count(10), "10");
    assert_eq!(render_count(1203), "1203");
    assert_eq!(render_count(4_294_967_295), "4294967295");
}

#[test]
fn count_is_read_from_digits_with_optional_plus() {
    assert_eq!(parse_count("0"), Some(0));
    assert_eq!(parse_count("42"), Some(42));
    assert_eq!(parse_count("+42"), Some(42));
    assert_eq!(parse_count("007"), Some(7));
    assert_eq!(parse_count("4294967295"), Some(u32::MAX));
    assert_eq!(parse_count("0000000004294967295"), Some(u32::MAX));
}

#[test]
fn text_that_is_not_a_count_reads_as_nothing() {
    assert_eq!(parse_count(""), None);
    assert_eq!(parse_count("+"), None);
    assert_eq!(parse_count("-1"), None);
    assert_eq!(parse_count("-0"), None);
    assert_eq!(parse_count("++1"), None);
    assert_eq!(parse_count("1+"), None);
    assert_eq!(parse_count(" 1"), None);
    assert_eq!(parse_count("1 "), None);
    assert_eq!(parse_count("12a"), None);
    assert_eq!(parse_count("1.0"), None);
    assert_eq!(parse_count("٣"), None);
    assert_eq!(parse_count("4294967296"), None);
    assert_eq!(parse_count("99999999999999999999999999"), None);
}

#[test]
fn reading_agrees_with_the_standard_parser() {
    let samples = [
        "", "0", "1", "+", "-", "+0", "-0", "+7", "-7", "00", "0123", "12345", "4294967295",
        "4294967296", "42949672950", "+4294967295", "+4294967296", "1e3", "0x10", "１２", "9 ",
        "\n9", "18446744073709551616", "a", "+a", "1_000",
    ];
    for text in samples {
        assert_eq!(parse_count(text), text.parse::<u32>().ok(), "for {:?}", text);
    }
}

#[test]
fn written_count_reads_back() {
    let samples = [0u32, 1, 9, 10, 11, 99, 100, 101, 65_535, 65_536, 999_999_999, 1_000_000_000,
        4_294_967_294, 4_294_967_295];
    for n in samples {
        assert_eq!(parse_count(&render_count(n)), Some(n));
        assert_eq!(render_count(n), n.to_string());
    }
}

#[test]
fn missing_or_broken_entry_counts_as_zero() {
    assert_eq!(count_of_text(None), 0);
    assert_eq!(count_of_text(Some("")), 0);
    assert_eq!(count_of_text(Some("three")), 0);
    assert_eq!(count_of_text(Some("4294967296")), 0);
    assert_eq!(count_of_text(Some("3")), 3);
}

#[test]
fn next_count_adds_one_and_stops_at_the_maximum() {
    assert_eq!(next_count(0), 1);
    assert_eq!(next_count(41), 42);
    assert_eq!(next_count(u32::MAX - 1), u32::MAX);
    assert_eq!(next_count(u32::MAX), u32::MAX);
}

#[test]
fn written_back_text_is_the_count_plus_one() {
    assert_eq!(counted_text(None), "1");
    assert_eq!(counted_text(Some("1")), "2");
    assert_eq!(counted_text(Some("9")), "10");
    assert_eq!(counted_text(Some("+41")), "42");
    assert_eq!(counted_text(Some("0099")), "100");
    assert_eq!(counted_text(Some("not a count")), "1");
    assert_eq!(counted_text(Some("")), "1");
    assert_eq!(counted_text(Some("4294967294")), "4294967295");
    assert_eq!(counted_text(Some("4294967295")), "4294967295");
    assert_eq!(counted_text(Some("4294967296")), "1");
}
