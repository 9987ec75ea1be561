use minigrep::format::{
    format_line, format_number, format_results, format_results_dir, FormatterError,
};
use minigrep::matcher::build_query;
use minigrep::search::{search, LineResult};

fn s(text: &str) -> String {
    text.to_string()
}

#[test]
fn format_number_renders_decimal() {
    assert_eq!(format_number(0), "0");
    assert_eq!(format_number(7), "7");
    assert_eq!(format_number(42), "42");
    assert_eq!(format_number(120), "120");
    assert_eq!(format_number(98765), "98765");
}

#[test]
fn format_line_highlights_the_span() {
    let lr = LineResult::new(2, s("safe, fast, productive."), vec![(15, 19)]);
    assert_eq!(
        format_line(&lr),
        "\u{1b}[32m2\u{1b}[0m: safe, fast, pro\u{1b}[31mduct\u{1b}[0mive."
    );
}

#[test]
fn format_line_with_match_to_end_of_line() {
    let lr = LineResult::new(1, s("fast"), vec![(0, 4)]);
    assert_eq!(format_line(&lr), "\u{1b}[32m1\u{1b}[0m: \u{1b}[31mfast");
}

#[test]
fn format_line_with_two_spans() {
    let lr = LineResult::new(3, s("ab cd ab"), vec![(0, 2), (6, 8)]);
    assert_eq!(
        format_line(&lr),
        "\u{1b}[32m3\u{1b}[0m: \u{1b}[31mab\u{1b}[0m cd \u{1b}[31mab"
    );
}

#[test]
fn format_line_uses_byte_offsets() {
    let re = build_query("llo").unwrap();
    let results = search(&re, "h\u{e9}llo");
    assert_eq!(results.len(), 1);
    assert_eq!(
        format_line(&results[0]),
        "\u{1b}[32m1\u{1b}[0m: h\u{e9}\u{1b}[31mllo"
    );
}

#[test]
fn format_results_renders_each_line() {
    let re = build_query("fast").unwrap();
    let results = search(&re, "fast Rust:\nsafe, fast, productive.\nPick three.");
    let rendered = format_results(&results);
    assert_eq!(rendered.len(), 2);
    assert_eq!(rendered[0], format_line(&results[0]));
    assert_eq!(rendered[1], format_line(&results[1]));
}

#[test]
fn format_results_dir_prints_the_file_name_first() {
    let re = build_query("duct").unwrap();
    let results = search(&re, "Rust:\nsafe, fast, productive.\nPick three.");
    let rendered = format_results_dir("poems/poem.txt", &results);
    assert_eq!(rendered.len(), 2);
    assert_eq!(rendered[0], "poems/poem.txt");
    assert_eq!(rendered[1], format_line(&results[0]));
}

#[test]
fn formatter_error_message() {
    assert_eq!(
        FormatterError::InvalidFile.message(),
        "Path specified was not a proper file"
    );
}
