use parchment::process::{Stat, State};
use parchment::stat::{split_words, StatError};

fn line(name: &str, rest_tail: &str) -> String {
    format!(
        "1234 {name} S 1 1234 77 0 -1 4194560 100 0 0 0 5 3 0 0 20 -5 1 0 12345 1000000 200 18446744073709551615 1 1 0 0 0 0 0 0 0 0 0 0 17 0 0 0 0 0 0 0 0 0 0 0 0 0 {rest_tail}\n"
    )
}

#[test]
fn reads_a_status_line() {
    let st = Stat::from_str(&line("(bash)", "9")).unwrap();
    assert_eq!(st.process_id, 1234);
    assert_eq!(st.filename, "bash");
    assert!(matches!(st.state, State::Sleeping));
    assert_eq!(st.parent_process_id, 1);
    assert_eq!(st.session_id, 77);
    assert_eq!(st.tty_process_group, -1);
    assert_eq!(st.flags, 4194560);
    assert_eq!(st.priority, 20);
    assert_eq!(st.nice, -5);
    assert_eq!(st.resident_set_memory_limit, 18446744073709551615);
    assert_eq!(st.exit_signal, 17);
    assert_eq!(st.exit_code, 9);
}

#[test]
fn command_name_with_spaces_is_joined() {
    let st = Stat::from_str(&line("(Web  Content)", "0")).unwrap();
    assert_eq!(st.filename, "Web Content");
    let st = Stat::from_str(&line("(kworker/0:1 events]", "0")).unwrap();
    assert_eq!(st.filename, "kworker/0:1 events");
}

#[test]
fn malformed_lines_are_rejected() {
    assert_eq!(Stat::from_str("").unwrap_err(), StatError::Malformed);
    assert_eq!(Stat::from_str("x (bash) S").unwrap_err(), StatError::Malformed);
    assert_eq!(Stat::from_str(&line("(bash)", "")).unwrap_err(), StatError::Malformed);
    assert_eq!(Stat::from_str(&line("(bash)", "-3")).unwrap_err(), StatError::Malformed);
    assert_eq!(Stat::from_str(&line("(never closes", "1")).unwrap_err(), StatError::Malformed);
    assert_eq!(Stat::from_str(&line("x", "1")).unwrap_err(), StatError::Malformed);
}

#[test]
fn words_are_whitespace_separated() {
    assert_eq!(split_words("  ab c\td  "), vec![(2, 4), (5, 6), (7, 8)]);
    assert!(split_words(" \n ").is_empty());
}
