use minigrep::matcher::build_query;
use minigrep::search::{find_matches_in_dir_child_files, scan_file, search, split_lines, FileInput};

fn s(text: &str) -> String {
    text.to_string()
}

#[test]
fn one_result() {
    let re = build_query("duct").unwrap();
    let contents = "Rust:\nsafe, fast, productive.\nPick three.";
    let results = search(&re, contents);
    assert_eq!(results.len(), 1);
    assert_eq!(results[0].line_number, 2);
    assert_eq!(results[0].line, "safe, fast, productive.");
    assert_eq!(results[0].matches, vec![(15, 19)]);
}

#[test]
fn two_results() {
    let re = build_query("fast").unwrap();
    let contents = "fast Rust:\nsafe, fast, productive.\nPick three.";
    let results = search(&re, contents);
    assert_eq!(results.len(), 2);
    assert_eq!(results[0].line_number, 1);
    assert_eq!(results[0].line, "fast Rust:");
    assert_eq!(results[0].matches, vec![(0, 4)]);
    assert_eq!(results[1].line_number, 2);
    assert_eq!(results[1].line, "safe, fast, productive.");
    assert_eq!(results[1].matches, vec![(6, 10)]);
}

#[test]
fn case_insensitive() {
    let re = build_query("DuCt").unwrap();
    let contents = "Rust:\nsafe, fast, productive.\nPick three.";
    let results = search(&re, contents);
    assert_eq!(results.len(), 1);
    assert_eq!(results[0].line_number, 2);
    assert_eq!(results[0].line, "safe, fast, productive.");
    assert_eq!(results[0].matches, vec![(15, 19)]);
}

#[test]
fn empty_contents_give_no_results() {
    let re = build_query("duct").unwrap();
    let results = search(&re, "");
    assert_eq!(results.len(), 0);
}

#[test]
fn bad_pattern_is_rejected() {
    assert!(build_query("(").is_err());
    assert!(build_query("[z-a]").is_err());
}

#[test]
fn empty_pattern_matches_every_line() {
    let re = build_query("").unwrap();
    let results = search(&re, "ab\ncd");
    assert_eq!(results.len(), 2);
    assert!(results[0].matches.len() > 0);
    assert!(results[1].matches.len() > 0);
}

#[test]
fn spans_are_byte_offsets_into_the_line() {
    let re = build_query("llo").unwrap();
    let results = search(&re, "h\u{e9}llo");
    assert_eq!(results.len(), 1);
    assert_eq!(results[0].matches, vec![(3, 6)]);
}

#[test]
fn multiple_spans_on_one_line_are_ordered() {
    let re = build_query("ab").unwrap();
    let results = search(&re, "ab cd ab ab");
    assert_eq!(results.len(), 1);
    assert_eq!(results[0].matches, vec![(0, 2), (6, 8), (9, 11)]);
}

#[test]
fn split_lines_handles_terminators() {
    let lines = split_lines("a\r\nb\nc");
    assert_eq!(lines, vec![s("a"), s("b"), s("c")]);
    assert_eq!(split_lines("a\n"), vec![s("a")]);
    assert_eq!(split_lines("a\rb"), vec![s("a\rb")]);
    assert_eq!(split_lines(""), Vec::<String>::new());
    assert_eq!(split_lines("\n"), vec![s("")]);
}

#[test]
fn scan_file_skips_unreadable_and_unmatched() {
    let re = build_query("duct").unwrap();
    let unreadable = FileInput { file_name: s("bad.txt"), contents: None };
    assert!(scan_file(&re, &unreadable).is_none());
    let unmatched = FileInput { file_name: s("other.txt"), contents: Some(s("nothing here")) };
    assert!(scan_file(&re, &unmatched).is_none());
    let matched = FileInput {
        file_name: s("poem.txt"),
        contents: Some(s("Rust:\nsafe, fast, productive.\nPick three.")),
    };
    let file_result = scan_file(&re, &matched).expect("one file result");
    assert_eq!(file_result.file_name, "poem.txt");
    assert_eq!(file_result.line_results.len(), 1);
    assert_eq!(file_result.line_results[0].line_number, 2);
}

#[test]
fn directory_scan_skips_files_with_no_matches() {
    let re = build_query("duct").unwrap();
    let files = vec![
        FileInput { file_name: s("a.txt"), contents: Some(s("productive work")) },
        FileInput { file_name: s("b.txt"), contents: Some(s("nothing at all")) },
    ];
    let results = find_matches_in_dir_child_files(&re, &files);
    assert_eq!(results.len(), 1);
    assert_eq!(results[0].file_name, "a.txt");
    assert!(results[0].line_results.len() > 0);
}

#[test]
fn unreadable_file_does_not_hide_siblings() {
    let re = build_query("duct").unwrap();
    let files = vec![
        FileInput { file_name: s("a.txt"), contents: Some(s("a duct here")) },
        FileInput { file_name: s("broken.bin"), contents: None },
        FileInput { file_name: s("c.txt"), contents: Some(s("another duct")) },
    ];
    let results = find_matches_in_dir_child_files(&re, &files);
    assert_eq!(results.len(), 2);
    assert_eq!(results[0].file_name, "a.txt");
    assert_eq!(results[1].file_name, "c.txt");
}

#[test]
fn repeated_scan_is_identical() {
    let re = build_query("duct").unwrap();
    let files = vec![
        FileInput { file_name: s("a.txt"), contents: Some(s("a duct here\nand one duct more")) },
        FileInput { file_name: s("b.txt"), contents: None },
        FileInput { file_name: s("c.txt"), contents: Some(s("no match")) },
    ];
    let first = find_matches_in_dir_child_files(&re, &files.clone());
    let second = find_matches_in_dir_child_files(&re, &files);
    assert_eq!(first, second);
}
