use ez_vps::commands::check::is_successful_probe_response;
use ez_vps::text::{
    contains, eq_ignore_ascii_case, join_strings, lines, parse_u16, split_whitespace, trim,
};

fn chars(s: &str) -> Vec<char> {
    s.chars().collect()
}

fn strings(v: Vec<Vec<char>>) -> Vec<String> {
    v.into_iter().map(|c| c.into_iter().collect()).collect()
}

#[test]
fn probe_status_edges() {
    assert!(is_successful_probe_response("HTTP/1.1 200 OK"));
    assert!(is_successful_probe_response("HTTP/2 399"));
    assert!(!is_successful_probe_response("HTTP/2 400"));
    assert!(!is_successful_probe_response("HTTP/1.1 199 Early"));
    assert!(!is_successful_probe_response(""));
    assert!(!is_successful_probe_response("curl: (7) Failed to connect"));
    assert!(is_successful_probe_response("status +0301 moved"));
    assert!(is_successful_probe_response("HTTP 70000 200"));
}

#[test]
fn parse_u16_follows_from_str() {
    assert_eq!(parse_u16(&chars("0")), Some(0));
    assert_eq!(parse_u16(&chars("65535")), Some(65535));
    assert_eq!(parse_u16(&chars("65536")), None);
    assert_eq!(parse_u16(&chars("+7")), Some(7));
    assert_eq!(parse_u16(&chars("+")), None);
    assert_eq!(parse_u16(&chars("-1")), None);
    assert_eq!(parse_u16(&chars("")), None);
    assert_eq!(parse_u16(&chars("0000000000012")), Some(12));
    assert_eq!(parse_u16(&chars("12a")), None);
}

#[test]
fn whitespace_handling() {
    assert_eq!(
        strings(split_whitespace(&chars("  a\tb\u{3000}c \n"))),
        vec!["a", "b", "c"]
    );
    assert_eq!(trim(&chars("\u{a0} x y \r\n")), chars("x y"));
    assert_eq!(trim(&chars("   ")), chars(""));
}

#[test]
fn lines_like_str_lines() {
    assert_eq!(strings(lines(&chars("a\r\nb\n\nc"))), vec!["a", "b", "", "c"]);
    assert_eq!(strings(lines(&chars("a\n"))), vec!["a"]);
    assert_eq!(strings(lines(&chars("x\r"))), vec!["x\r"]);
    assert!(lines(&chars("")).is_empty());
}

#[test]
fn search_and_compare() {
    assert!(contains(&chars("hello world"), &chars("o w")));
    assert!(!contains(&chars("hello"), &chars("hello!")));
    assert!(contains(&chars("abc"), &chars("")));
    assert!(eq_ignore_ascii_case(&chars("Web-01"), &chars("wEB-01")));
    assert!(!eq_ignore_ascii_case(&chars("web"), &chars("webs")));
}

#[test]
fn joins() {
    let parts = vec!["a".to_string(), "b".to_string(), "c".to_string()];
    assert_eq!(join_strings(&parts, ", "), "a, b, c");
    assert_eq!(join_strings(&Vec::new(), "\n"), "");
}
