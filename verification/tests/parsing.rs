use sinitc::text;
use sinitc::SupervisorError;

#[test]
fn env_entry_key_value() {
    let r = text::parse_env_entry("KEY=VALUE").unwrap();
    assert_eq!(r.0, "KEY".to_string());
    assert_eq!(r.1, "VALUE".to_string());
}

#[test]
fn env_entry_without_separator_is_an_error() {
    let r = text::parse_env_entry("KEYVALUE");
    assert_eq!(r.unwrap_err(), SupervisorError::EnvParseError);
}

#[test]
fn env_entry_splits_on_first_separator_only() {
    let r = text::parse_env_entry("A=B=C").unwrap();
    assert_eq!(r.0, "A".to_string());
    assert_eq!(r.1, "B=C".to_string());
}

#[test]
fn env_entry_empty_key_and_value() {
    let r = text::parse_env_entry("=").unwrap();
    assert_eq!(r.0, "".to_string());
    assert_eq!(r.1, "".to_string());
}

#[test]
fn env_entries_in_order() {
    let entries = vec!["A=1".to_string(), "B=2".to_string()];
    let pairs = text::parse_env_entries(&entries).unwrap();
    assert_eq!(pairs.len(), 2);
    assert_eq!(pairs[0].0, "A".to_string());
    assert_eq!(pairs[0].1, "1".to_string());
    assert_eq!(pairs[1].0, "B".to_string());
    assert_eq!(pairs[1].1, "2".to_string());
}

#[test]
fn env_entries_fail_on_one_bad_entry() {
    let entries = vec!["A=1".to_string(), "BROKEN".to_string()];
    let r = text::parse_env_entries(&entries);
    assert_eq!(r.unwrap_err(), SupervisorError::EnvParseError);
}

#[test]
fn pid_record_simple() {
    assert_eq!(text::parse_pid_record("123"), Some(123));
}

#[test]
fn pid_record_first_line_only() {
    assert_eq!(text::parse_pid_record("123\n456"), Some(123));
}

#[test]
fn pid_record_with_crlf() {
    assert_eq!(text::parse_pid_record("123\r\n"), Some(123));
}

#[test]
fn pid_record_leading_zeros() {
    assert_eq!(text::parse_pid_record("007"), Some(7));
}

#[test]
fn pid_record_empty_is_nothing() {
    assert_eq!(text::parse_pid_record(""), None);
    assert_eq!(text::parse_pid_record("\n123"), None);
}

#[test]
fn pid_record_non_digit_is_nothing() {
    assert_eq!(text::parse_pid_record("12a"), None);
    assert_eq!(text::parse_pid_record("-5"), None);
    assert_eq!(text::parse_pid_record(" 5"), None);
}

#[test]
fn pid_record_limits() {
    assert_eq!(text::parse_pid_record("4294967295"), Some(u32::MAX));
    assert_eq!(text::parse_pid_record("4294967296"), None);
    assert_eq!(text::parse_pid_record("99999999999999999999"), None);
}

#[test]
fn pid_record_round_trip() {
    assert_eq!(text::pid_record_content(0), "0".to_string());
    assert_eq!(text::pid_record_content(42), "42".to_string());
    assert_eq!(text::pid_record_content(u32::MAX), "4294967295".to_string());
    assert_eq!(text::parse_pid_record(&text::pid_record_content(34567)), Some(34567));
}

#[test]
fn lines_split_on_newline() {
    let r = text::split_lines("a\nb");
    assert_eq!(r, vec!["a".to_string(), "b".to_string()]);
}

#[test]
fn lines_no_empty_tail_after_final_newline() {
    let r = text::split_lines("a\n");
    assert_eq!(r, vec!["a".to_string()]);
}

#[test]
fn lines_of_empty_input() {
    let r = text::split_lines("");
    assert_eq!(r, Vec::<String>::new());
}

#[test]
fn lines_strip_carriage_returns() {
    let r = text::split_lines("a\r\nb\r\n");
    assert_eq!(r, vec!["a".to_string(), "b".to_string()]);
}

#[test]
fn lines_keep_inner_empties() {
    let r = text::split_lines("\n");
    assert_eq!(r, vec!["".to_string()]);
    let r = text::split_lines("a\n\nb");
    assert_eq!(r, vec!["a".to_string(), "".to_string(), "b".to_string()]);
}

#[test]
fn str_eq_agrees_with_equality() {
    assert!(text::str_eq("abc", "abc"));
    assert!(!text::str_eq("abc", "abd"));
    assert!(!text::str_eq("abc", "ab"));
    assert!(text::str_eq("", ""));
}
