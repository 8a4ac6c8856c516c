use shippy::errors::CliError;
use shippy::numbers::{parse_u64, u64_to_string};
use shippy::tags::{select_greatest_tag, str_starts_with};

#[test]
fn parse_u64_accepts_plain_digit_strings() {
    assert_eq!(parse_u64("0"), Some(0));
    assert_eq!(parse_u64("123"), Some(123));
    assert_eq!(parse_u64("007"), Some(7));
    assert_eq!(parse_u64("18446744073709551615"), Some(u64::MAX));
}

#[test]
fn parse_u64_rejects_everything_else() {
    assert_eq!(parse_u64(""), None);
    assert_eq!(parse_u64("abc"), None);
    assert_eq!(parse_u64("12a"), None);
    assert_eq!(parse_u64("+5"), None);
    assert_eq!(parse_u64("-5"), None);
    assert_eq!(parse_u64(" 5"), None);
    // one past the largest value that fits
    assert_eq!(parse_u64("18446744073709551616"), None);
    assert_eq!(parse_u64("99999999999999999999999"), None);
}

#[test]
fn u64_to_string_renders_decimal() {
    assert_eq!(u64_to_string(0), "0");
    assert_eq!(u64_to_string(7), "7");
    assert_eq!(u64_to_string(120), "120");
    assert_eq!(u64_to_string(u64::MAX), "18446744073709551615");
}

#[test]
fn starts_with_compares_prefixes() {
    assert!(str_starts_with("tag-123", "tag-"));
    assert!(str_starts_with("tag-", "tag-"));
    assert!(!str_starts_with("tag", "tag-"));
    assert!(!str_starts_with("tbg-123", "tag-"));
    assert!(str_starts_with("anything", ""));
}

#[test]
fn select_reports_not_found_on_empty_candidate_list() {
    let tags: Vec<Option<String>> = Vec::new();
    let err = select_greatest_tag("tag-", &tags).unwrap_err();
    assert!(matches!(err, CliError::NotFound(_)));
    assert_eq!(err.message(), "Could not find any tags with prefix: tag-");
}

#[test]
fn select_takes_greatest_numeric_suffix() {
    let tags = vec![Some("tag-2".to_string()), Some("tag-123".to_string())];
    let tag = select_greatest_tag("tag-", &tags).unwrap();
    assert_eq!(tag.name, "tag-123");
    assert_eq!(tag.number, 123);
}

#[test]
fn select_reports_parse_error_naming_suffix_and_tag() {
    let tags = vec![Some("tag-abc".to_string())];
    let err = select_greatest_tag("tag-", &tags).unwrap_err();
    assert!(matches!(err, CliError::Parse(_)));
    assert_eq!(err.message(), "Could not parse u64 from: abc, in tag: tag-abc");
}

#[test]
fn select_stops_at_first_bad_tag() {
    let tags = vec![
        Some("tag-1".to_string()),
        Some("tag-x".to_string()),
        Some("tag-9".to_string()),
    ];
    let err = select_greatest_tag("tag-", &tags).unwrap_err();
    assert_eq!(err.message(), "Could not parse u64 from: x, in tag: tag-x");
}

#[test]
fn select_on_equal_values_later_tag_wins() {
    let tags = vec![Some("v01".to_string()), Some("v1".to_string())];
    let tag = select_greatest_tag("v", &tags).unwrap();
    assert_eq!(tag.name, "v1");
    assert_eq!(tag.number, 1);

    let tags_rev = vec![Some("v1".to_string()), Some("v01".to_string())];
    let tag_rev = select_greatest_tag("v", &tags_rev).unwrap();
    assert_eq!(tag_rev.name, "v01");
    assert_eq!(tag_rev.number, 1);
}

#[test]
fn select_skips_unreadable_and_unmatched_names() {
    let tags = vec![
        None,
        Some("other-999".to_string()),
        Some("tag-3".to_string()),
    ];
    let tag = select_greatest_tag("tag-", &tags).unwrap();
    assert_eq!(tag.name, "tag-3");
    assert_eq!(tag.number, 3);
}

#[test]
fn error_messages_are_carried_verbatim() {
    assert_eq!(
        CliError::Configuration("a".to_string()).message(),
        "a"
    );
    assert_eq!(CliError::Parse("b".to_string()).message(), "b");
    assert_eq!(CliError::NotFound("c".to_string()).message(), "c");
    assert_eq!(CliError::RefNotFound("d".to_string()).message(), "d");
    assert_eq!(CliError::History("e".to_string()).message(), "e");
    assert_eq!(CliError::Transport("f".to_string()).message(), "f");
    assert_eq!(CliError::Decode("g".to_string()).message(), "g");
}
