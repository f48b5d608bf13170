use findeverything::SearchPattern;
use findeverything::search::get_context_lines;
use findeverything::search::search_in_file;
use findeverything::search::split_lines;

fn lines(content: &[&str]) -> Vec<String> {
    content.iter().map(|s| s.to_string()).collect()
}

#[test]
fn test_split_lines_basic() {
    let r = split_lines(b"a\nb\nc");
    assert_eq!(r, vec![b"a".to_vec(), b"b".to_vec(), b"c".to_vec()]);
}

#[test]
fn test_split_lines_trailing_newline() {
    let r = split_lines(b"a\nb\n");
    assert_eq!(r, vec![b"a".to_vec(), b"b".to_vec()]);
}

#[test]
fn test_split_lines_carriage_returns() {
    let r = split_lines(b"a\r\nb\r\n");
    assert_eq!(r, vec![b"a".to_vec(), b"b".to_vec()]);
}

#[test]
fn test_split_lines_empty_and_blank() {
    assert_eq!(split_lines(b""), Vec::<Vec<u8>>::new());
    assert_eq!(split_lines(b"\n"), vec![b"".to_vec()]);
    assert_eq!(split_lines(b"a\n\nb"), vec![b"a".to_vec(), b"".to_vec(), b"b".to_vec()]);
}

#[test]
fn test_context_lines_clamped_at_start() {
    let ls = lines(&["l1", "l2", "l3", "l4", "l5"]);
    // Match on line 2 (index 1) with 3 context lines: only line 1 precedes.
    let before = get_context_lines(&ls, 1, 3, true);
    assert_eq!(before, lines(&["l1"]));
    let after = get_context_lines(&ls, 1, 3, false);
    assert_eq!(after, lines(&["l3", "l4", "l5"]));
}

#[test]
fn test_context_lines_clamped_at_end() {
    let ls = lines(&["l1", "l2", "l3", "l4", "l5"]);
    // Match on line 4 (index 3) with 2 context lines.
    let before = get_context_lines(&ls, 3, 2, true);
    assert_eq!(before, lines(&["l2", "l3"]));
    let after = get_context_lines(&ls, 3, 2, false);
    assert_eq!(after, lines(&["l5"]));
}

#[test]
fn test_context_lines_zero() {
    let ls = lines(&["l1", "l2", "l3"]);
    assert_eq!(get_context_lines(&ls, 1, 0, true), Vec::<String>::new());
    assert_eq!(get_context_lines(&ls, 1, 0, false), Vec::<String>::new());
}

#[test]
fn test_search_in_file_reports_matches_in_order() {
    let matcher = SearchPattern::Text("hello".to_string()).get_matcher().unwrap();
    let content = "hello world\nfoo\nhello again";
    let results = search_in_file("f.txt", content, &matcher, 1);

    assert_eq!(results.len(), 2);
    assert_eq!(results[0].path, "f.txt");
    assert_eq!(results[0].line_number, 1);
    assert_eq!(results[0].line, "hello world");
    assert_eq!(results[0].matched_text, "hello");
    assert_eq!(results[0].context_before, Vec::<String>::new());
    assert_eq!(results[0].context_after, vec!["foo".to_string()]);

    assert_eq!(results[1].line_number, 3);
    assert_eq!(results[1].line, "hello again");
    assert_eq!(results[1].context_before, vec!["foo".to_string()]);
    assert_eq!(results[1].context_after, Vec::<String>::new());
}

#[test]
fn test_search_in_file_first_match_per_line() {
    let matcher = SearchPattern::Text("ab".to_string()).get_matcher().unwrap();
    let results = search_in_file("f", "ab and ab again", &matcher, 0);
    // Only the first occurrence on the line is reported.
    assert_eq!(results.len(), 1);
    assert_eq!(results[0].matched_text, "ab");
    assert_eq!(results[0].line_number, 1);
}

#[test]
fn test_search_in_file_no_match() {
    let matcher = SearchPattern::Text("zzz".to_string()).get_matcher().unwrap();
    let results = search_in_file("f", "nothing here\nat all", &matcher, 2);
    assert_eq!(results.len(), 0);
}

#[test]
fn test_search_in_file_context_extents() {
    // A match on line 3 of 5 with 2 context lines: before holds
    // min(2, 3 - 1) = 2 lines ending at line 2, after holds
    // min(2, 5 - 3) = 2 lines starting at line 4.
    let matcher = SearchPattern::Text("needle".to_string()).get_matcher().unwrap();
    let content = "l1\nl2\nx needle y\nl4\nl5";
    let results = search_in_file("f", content, &matcher, 2);
    assert_eq!(results.len(), 1);
    assert_eq!(results[0].line_number, 3);
    assert_eq!(results[0].context_before, lines(&["l1", "l2"]));
    assert_eq!(results[0].context_after, lines(&["l4", "l5"]));
}

#[test]
fn test_search_in_file_regex_mode() {
    let matcher = SearchPattern::Regex("ne+dle".to_string()).get_matcher().unwrap();
    let results = search_in_file("f", "a neeedle in line two\nnothing", &matcher, 0);
    assert_eq!(results.len(), 1);
    assert_eq!(results[0].matched_text, "neeedle");
}
