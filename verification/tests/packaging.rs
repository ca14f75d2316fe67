use bbcheck::packaging::{
    encode_source, length_trailer, parse_config, CompilerConfig, ConfigErrorKind,
};

fn lines(src: &[&str]) -> Vec<String> {
    src.iter().map(|s| s.to_string()).collect()
}

#[test]
fn new_config_is_empty() {
    let c = CompilerConfig::new();
    assert!(c.name.is_empty() && c.authors.is_empty() && c.version.is_empty());
}

#[test]
fn full_config_parses() {
    let c = parse_config(&lines(&["Name: demo", "Authors: someone", "Ver: 0.1"])).unwrap();
    assert_eq!(c.name, "demo");
    assert_eq!(c.authors, "someone");
    assert_eq!(c.version, "0.1");
}

#[test]
fn config_keys_match_case_insensitively() {
    let c = parse_config(&lines(&["nAmE: a", "AUTHORS: b", "ver: c"])).unwrap();
    assert_eq!(c.name, "a");
    assert_eq!(c.authors, "b");
    assert_eq!(c.version, "c");
}

#[test]
fn later_config_values_overwrite_earlier_ones() {
    let c = parse_config(&lines(&["Name: one", "Name: two", "Authors: x", "Ver: 1"])).unwrap();
    assert_eq!(c.name, "two");
}

#[test]
fn blank_config_lines_are_skipped() {
    let c = parse_config(&lines(&["", "Name: a", "   ", "Authors: b", "Ver: c"])).unwrap();
    assert_eq!(c.name, "a");
}

#[test]
fn missing_keys_are_reported_in_order() {
    let e = parse_config(&lines(&["Authors: b", "Ver: c"])).unwrap_err();
    assert_eq!(e.kind, ConfigErrorKind::MissingName);
    let e2 = parse_config(&lines(&["Name: a", "Ver: c"])).unwrap_err();
    assert_eq!(e2.kind, ConfigErrorKind::MissingAuthors);
    let e3 = parse_config(&lines(&["Name: a", "Authors: b"])).unwrap_err();
    assert_eq!(e3.kind, ConfigErrorKind::MissingVersion);
}

#[test]
fn empty_config_value_counts_as_missing() {
    let e = parse_config(&lines(&["Name: ", "Authors: b", "Ver: c"])).unwrap_err();
    assert_eq!(e.kind, ConfigErrorKind::MissingName);
}

#[test]
fn invalid_config_key_is_reported_with_line() {
    let e = parse_config(&lines(&["Name: a", "Color: red"])).unwrap_err();
    assert_eq!(e.kind, ConfigErrorKind::InvalidKey);
    assert_eq!(e.detail, "Color");
    assert_eq!(e.line, 2);
}

#[test]
fn two_separators_on_one_config_line_are_rejected() {
    let e = parse_config(&lines(&["Name: a: b"])).unwrap_err();
    assert_eq!(e.kind, ConfigErrorKind::TooManyValues);
    assert_eq!(e.line, 1);
}

#[test]
fn bare_config_term_is_rejected() {
    let e = parse_config(&lines(&["just some words"])).unwrap_err();
    assert_eq!(e.kind, ConfigErrorKind::InvalidTerm);
    assert_eq!(e.detail, "just some words");
}

#[test]
fn encode_single_byte() {
    assert_eq!(encode_source(&vec![b'A']), "01000001.");
}

#[test]
fn encode_empty_input() {
    assert_eq!(encode_source(&Vec::new()), "");
}

#[test]
fn encode_several_bytes_in_order() {
    assert_eq!(encode_source(&vec![0u8, 255u8, 1u8]), "00000000.11111111.00000001.");
}

#[test]
fn trailer_pads_small_lengths_to_ten_bytes() {
    assert_eq!(length_trailer(0), b"         0".to_vec());
    assert_eq!(length_trailer(123), b"       123".to_vec());
}

#[test]
fn trailer_of_ten_digit_length_has_no_padding() {
    assert_eq!(length_trailer(9_999_999_999), b"9999999999".to_vec());
}

#[test]
fn trailer_matches_encoding_length() {
    let code = encode_source(&vec![b'h', b'i']);
    assert_eq!(code.chars().count(), 18);
    assert_eq!(length_trailer(code.chars().count()), b"        18".to_vec());
}
