use zerosh::command::{parse_cmd, parse_cmd_one, parse_pipe, split_by, ParseError};
use zerosh::number::{parse_i32, parse_usize};

#[test]
fn pipe_split_keeps_empty_pieces() {
    let v = parse_pipe("a | b|");
    assert_eq!(v, vec!["a ".to_string(), " b".to_string(), "".to_string()]);
}

#[test]
fn split_without_separator_is_whole_line() {
    assert_eq!(split_by("abc", ' '), vec!["abc".to_string()]);
    assert_eq!(split_by("", ' '), vec!["".to_string()]);
}

#[test]
fn one_stage_words() {
    let c = parse_cmd_one("  ls   -l  /tmp ").ok().unwrap();
    assert_eq!(c.filename, "ls");
    assert_eq!(c.args, vec!["ls".to_string(), "-l".to_string(), "/tmp".to_string()]);
}

#[test]
fn blank_stage_is_rejected() {
    assert!(matches!(parse_cmd_one("   "), Err(ParseError::BlankCommand)));
    assert!(matches!(parse_cmd("ls | "), Err(ParseError::BlankCommand)));
    assert!(matches!(parse_cmd("a || b"), Err(ParseError::BlankCommand)));
}

#[test]
fn two_stage_pipeline_parses() {
    let cmds = parse_cmd("cat f | wc -l").ok().unwrap();
    assert_eq!(cmds.len(), 2);
    assert_eq!(cmds[0].filename, "cat");
    assert_eq!(cmds[0].args, vec!["cat".to_string(), "f".to_string()]);
    assert_eq!(cmds[1].filename, "wc");
    assert_eq!(cmds[1].args, vec!["wc".to_string(), "-l".to_string()]);
}

#[test]
fn i32_parsing_follows_decimal_rules() {
    assert_eq!(parse_i32("7"), Some(7));
    assert_eq!(parse_i32("+7"), Some(7));
    assert_eq!(parse_i32("-12"), Some(-12));
    assert_eq!(parse_i32("007"), Some(7));
    assert_eq!(parse_i32("2147483647"), Some(i32::MAX));
    assert_eq!(parse_i32("-2147483648"), Some(i32::MIN));
    assert_eq!(parse_i32("2147483648"), None);
    assert_eq!(parse_i32("99999999999999999999999"), None);
    assert_eq!(parse_i32(""), None);
    assert_eq!(parse_i32("-"), None);
    assert_eq!(parse_i32("1x"), None);
}

#[test]
fn usize_parsing_follows_decimal_rules() {
    assert_eq!(parse_usize("0"), Some(0));
    assert_eq!(parse_usize("+3"), Some(3));
    assert_eq!(parse_usize("-0"), None);
    assert_eq!(parse_usize("18446744073709551615"), Some(usize::MAX));
    assert_eq!(parse_usize("18446744073709551616"), None);
    assert_eq!(parse_usize("abc"), None);
}
