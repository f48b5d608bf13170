use findeverything::Config;
use findeverything::FileFilter;
use findeverything::SearchPattern;
use findeverything::SearchResult;
use findeverything::pipeline::Aggregator;
use findeverything::pipeline::FileEntry;
use findeverything::pipeline::run_pipeline;

fn entry(path: &str, content: &str) -> FileEntry {
    FileEntry {
        path: path.to_string(),
        is_file: true,
        size: Some(content.len() as u64),
        content: Some(content.to_string()),
    }
}

fn result(path: &str) -> SearchResult {
    SearchResult {
        path: path.to_string(),
        line_number: 1,
        line: "x".to_string(),
        matched_text: "x".to_string(),
        context_before: vec![],
        context_after: vec![],
    }
}

#[test]
fn test_end_to_end_scenario() {
    // Root holding a.txt ("hello world"), b.txt ("goodbye") and
    // .git/ignored.txt ("hello"), searched for "hello" with the default
    // exclusions: the .git entry is excluded, two files are processed,
    // one file matches, with one match on line 1.
    let config = Config::default();
    let filter = FileFilter::new(None, None, config.exclude.default_dirs.clone(), vec![]);
    let matcher = SearchPattern::from_input("hello", false, false)
        .unwrap()
        .get_matcher()
        .unwrap();
    let entries = vec![
        entry("a.txt", "hello world"),
        entry("b.txt", "goodbye"),
        entry(".git/ignored.txt", "hello"),
    ];

    let out = run_pipeline(&entries, &filter, &matcher, config.search.context_lines);

    assert_eq!(out.summary.total_files, 2);
    assert_eq!(out.summary.matched_files, 1);
    assert_eq!(out.summary.total_matches, 1);
    assert_eq!(out.processed_files, 2);
    assert_eq!(out.results.len(), 1);
    assert_eq!(out.results[0].path, "a.txt");
    assert_eq!(out.results[0].line_number, 1);
    assert_eq!(out.results[0].matched_text, "hello");
}

#[test]
fn test_pipeline_counts_files_matches_and_dedup() {
    // N = 4 files seen, M = 2 contain a match, K = 3 total matches.
    let filter = FileFilter::new(None, None, vec![], vec![]);
    let matcher = SearchPattern::Text("x".to_string()).get_matcher().unwrap();
    let entries = vec![
        entry("one", "x here\nand x again"),
        entry("two", "nothing"),
        entry("three", "an x"),
        entry("four", "empty of matches"),
    ];

    let out = run_pipeline(&entries, &filter, &matcher, 0);

    assert_eq!(out.summary.total_files, 4);
    assert_eq!(out.summary.matched_files, 2);
    assert_eq!(out.summary.total_matches, 3);
    assert_eq!(out.processed_files, 4);
}

#[test]
fn test_pipeline_deduplicates_repeated_paths() {
    let filter = FileFilter::new(None, None, vec![], vec![]);
    let matcher = SearchPattern::Text("x".to_string()).get_matcher().unwrap();
    let entries = vec![entry("same", "x"), entry("same", "x")];

    let out = run_pipeline(&entries, &filter, &matcher, 0);

    assert_eq!(out.summary.total_files, 2);
    assert_eq!(out.summary.matched_files, 1);
    assert_eq!(out.summary.total_matches, 2);
}

#[test]
fn test_pipeline_skips_unreadable_files() {
    let filter = FileFilter::new(None, None, vec![], vec![]);
    let matcher = SearchPattern::Text("x".to_string()).get_matcher().unwrap();
    let entries = vec![
        entry("ok", "x"),
        FileEntry {
            path: "broken".to_string(),
            is_file: true,
            size: Some(10),
            content: None,
        },
    ];

    let out = run_pipeline(&entries, &filter, &matcher, 0);

    // The unreadable file counts as seen but not processed and adds no
    // results.
    assert_eq!(out.summary.total_files, 2);
    assert_eq!(out.processed_files, 1);
    assert_eq!(out.summary.total_matches, 1);
    assert_eq!(out.summary.matched_files, 1);
}

#[test]
fn test_pipeline_skips_non_files() {
    let filter = FileFilter::new(None, None, vec![], vec![]);
    let matcher = SearchPattern::Text("x".to_string()).get_matcher().unwrap();
    let entries = vec![
        FileEntry {
            path: "somedir".to_string(),
            is_file: false,
            size: None,
            content: None,
        },
        entry("file", "x"),
    ];

    let out = run_pipeline(&entries, &filter, &matcher, 0);

    assert_eq!(out.summary.total_files, 1);
    assert_eq!(out.summary.total_matches, 1);
}

#[test]
fn test_aggregator_counts_and_dedup() {
    let mut agg = Aggregator::new();
    assert_eq!(agg.summary.total_matches, 0);
    assert_eq!(agg.summary.matched_files, 0);

    agg.record(&result("a"));
    agg.record(&result("a"));
    agg.record(&result("b"));

    assert_eq!(agg.summary.total_matches, 3);
    assert_eq!(agg.summary.matched_files, 2);

    agg.set_total_files(7);
    assert_eq!(agg.summary.total_files, 7);
    assert_eq!(agg.summary.total_matches, 3);
}
