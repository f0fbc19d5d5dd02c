use website_status_checker::url_list::{parse_url_list, select_urls};

#[test]
fn parse_skips_blanks_and_comments() {
    let text = "  https://a.test  \n\n# a comment\n\t\nhttps://b.test\r\n   # indented comment\nhttp://c.test/path?q=1";
    let urls = parse_url_list(text);
    assert_eq!(urls, vec!["https://a.test", "https://b.test", "http://c.test/path?q=1"]);
}

#[test]
fn parse_empty_text() {
    assert!(parse_url_list("").is_empty());
    assert!(parse_url_list("\n\n# only comments\n").is_empty());
}

#[test]
fn parse_single_line_without_newline() {
    assert_eq!(parse_url_list("https://one.test"), vec!["https://one.test"]);
}

#[test]
fn select_keeps_order() {
    let lines: Vec<String> = vec!["b".into(), "".into(), "#x".into(), "a".into(), "b".into()];
    assert_eq!(select_urls(&lines), vec!["b", "a", "b"]);
}
