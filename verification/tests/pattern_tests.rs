use findeverything::CompileError;
use findeverything::SearchPattern;

#[test]
fn test_search_pattern_text() {
    let pattern = SearchPattern::from_input("hello", false, false).unwrap();
    match pattern {
        SearchPattern::Text(text) => assert_eq!(text, "hello"),
        _ => panic!("Expected Text pattern"),
    }
}

#[test]
fn test_search_pattern_regex() {
    let pattern = SearchPattern::from_input("h.*o", true, false).unwrap();
    match pattern {
        SearchPattern::Regex(regex) => assert_eq!(regex, "h.*o"),
        _ => panic!("Expected Regex pattern"),
    }
}

#[test]
fn test_search_pattern_hex() {
    let pattern = SearchPattern::from_input("48656c6c6f", false, true).unwrap();
    match pattern {
        SearchPattern::Hex(bytes) => assert_eq!(bytes, vec![0x48, 0x65, 0x6c, 0x6c, 0x6f]),
        _ => panic!("Expected Hex pattern"),
    }
}

#[test]
fn test_get_matcher() {
    let pattern = SearchPattern::Text("test".to_string());
    let matcher = pattern.get_matcher().unwrap();

    let test_line = "this is a test line";
    assert!(matcher.find_first(test_line.as_bytes()).is_some());
}

#[test]
fn test_text_pattern_is_literal() {
    // A text pattern with regex metacharacters matches only the literal
    // text, never what the metacharacters would mean as syntax.
    let matcher = SearchPattern::Text("a.b".to_string()).get_matcher().unwrap();
    assert_eq!(matcher.find_first(b"xx a.b yy"), Some((3, 6)));
    assert_eq!(matcher.find_first(b"axb"), None);

    // The same input as a regex does treat the dot as syntax.
    let regex_matcher = SearchPattern::Regex("a.b".to_string()).get_matcher().unwrap();
    assert!(regex_matcher.find_first(b"axb").is_some());
}

#[test]
fn test_text_pattern_finds_leftmost_occurrence() {
    let matcher = SearchPattern::Text("ab".to_string()).get_matcher().unwrap();
    assert_eq!(matcher.find_first(b"xabyab"), Some((1, 3)));
    assert_eq!(matcher.find_first(b"ab"), Some((0, 2)));
    assert_eq!(matcher.find_first(b"ba"), None);
}

#[test]
fn test_hex_pattern_matches_decoded_bytes() {
    // "4865" decodes to b"He" and matches byte-for-byte.
    let matcher = SearchPattern::from_input("48 65", false, true)
        .unwrap()
        .get_matcher()
        .unwrap();
    assert_eq!(matcher.find_first(b"say Hello"), Some((4, 6)));
    assert_eq!(matcher.find_first(b"say hello"), None);
}

#[test]
fn test_hex_pattern_spaces_stripped() {
    let spaced = SearchPattern::from_input("48 65 6c", false, true).unwrap();
    let plain = SearchPattern::from_input("48656c", false, true).unwrap();
    match (spaced, plain) {
        (SearchPattern::Hex(a), SearchPattern::Hex(b)) => assert_eq!(a, b),
        _ => panic!("Expected Hex patterns"),
    }
}

#[test]
fn test_hex_pattern_odd_length_rejected() {
    let r = SearchPattern::from_input("488", false, true);
    assert_eq!(r.unwrap_err(), CompileError::InvalidHex);
}

#[test]
fn test_hex_pattern_non_hex_rejected() {
    let r = SearchPattern::from_input("4z", false, true);
    assert_eq!(r.unwrap_err(), CompileError::InvalidHex);
}

#[test]
fn test_hex_decoding_agrees_with_hex_crate() {
    for input in ["", "00", "ff", "deadBEEF", "0123456789abcdefABCDEF"] {
        let pattern = SearchPattern::from_input(input, false, true).unwrap();
        let expected = hex::decode(input).unwrap();
        match pattern {
            SearchPattern::Hex(bytes) => assert_eq!(bytes, expected),
            _ => panic!("Expected Hex pattern"),
        }
    }
}

#[test]
fn test_invalid_regex_rejected() {
    let r = SearchPattern::from_input("(", true, false);
    assert_eq!(r.unwrap_err(), CompileError::InvalidRegex);

    match SearchPattern::Regex("(".to_string()).get_matcher() {
        Err(e) => assert_eq!(e, CompileError::InvalidRegex),
        Ok(_) => panic!("expected an invalid-regex error"),
    }
}

#[test]
fn test_regex_matcher_reports_match_range() {
    let matcher = SearchPattern::Regex("wor".to_string()).get_matcher().unwrap();
    assert_eq!(matcher.find_first(b"hello world"), Some((6, 9)));
    assert_eq!(matcher.find_first(b"hello"), None);

    let digits = SearchPattern::Regex("[0-9]+".to_string()).get_matcher().unwrap();
    assert_eq!(digits.find_first(b"abc 1234 xyz"), Some((4, 8)));
}

#[test]
fn test_empty_text_pattern_matches_at_start() {
    let matcher = SearchPattern::Text(String::new()).get_matcher().unwrap();
    assert_eq!(matcher.find_first(b"abc"), Some((0, 0)));
    assert_eq!(matcher.find_first(b""), Some((0, 0)));
}
