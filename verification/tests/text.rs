use histdb::rows::{show_all, HistoryEntry, HistoryRow};
use histdb::text::{append_decimal, join_words};

fn words(items: &[&str]) -> Vec<String> {
    items.iter().map(|w| w.to_string()).collect()
}

fn shown(n: i64) -> String {
    let mut line = String::new();
    append_decimal(&mut line, n);
    line
}

#[test]
fn join_words_puts_one_space_between_words() {
    assert_eq!(join_words(&words(&["ls", "-la"])), "ls -la");
    assert_eq!(join_words(&words(&["git", "commit", "-m", "fix it"])), "git commit -m fix it");
}

#[test]
fn join_words_of_one_word_is_the_word() {
    assert_eq!(join_words(&words(&["ls"])), "ls");
}

#[test]
fn join_words_of_no_words_is_empty() {
    assert_eq!(join_words(&words(&[])), "");
}

#[test]
fn join_words_keeps_empty_words() {
    assert_eq!(join_words(&words(&["", ""])), " ");
    assert_eq!(join_words(&words(&["a", "", "b"])), "a  b");
    assert_eq!(join_words(&words(&[""])), "");
}

#[test]
fn join_words_keeps_other_alphabets() {
    assert_eq!(join_words(&words(&["echo", "héllo", "wörld"])), "echo héllo wörld");
}

#[test]
fn decimal_of_small_numbers() {
    assert_eq!(shown(0), "0");
    assert_eq!(shown(7), "7");
    assert_eq!(shown(10), "10");
    assert_eq!(shown(1234567890), "1234567890");
    assert_eq!(shown(-1), "-1");
    assert_eq!(shown(-120), "-120");
}

#[test]
fn decimal_of_the_extremes() {
    assert_eq!(shown(i64::MAX), "9223372036854775807");
    assert_eq!(shown(i64::MIN), "-9223372036854775808");
    assert_eq!(shown(i64::MIN + 1), "-9223372036854775807");
}

#[test]
fn decimal_appends_to_what_is_there() {
    let mut line = String::from("n = ");
    append_decimal(&mut line, 42);
    append_decimal(&mut line, -3);
    assert_eq!(line, "n = 42-3");
}

#[test]
fn line_names_each_field() {
    let row = HistoryRow {
        execution_id: 12,
        exit_code: -2,
        directory: "/home/me".to_string(),
        text: "cargo build".to_string(),
    };
    assert_eq!(row.line(), "id: 12\texit: -2\tdir: /home/me\targv: cargo build");
}

#[test]
fn an_entry_without_exit_code_is_shown_with_zero() {
    let open = HistoryEntry {
        execution_id: 3,
        exit_code: None,
        directory: "/".to_string(),
        text: "top".to_string(),
    };
    let closed = HistoryEntry {
        execution_id: 4,
        exit_code: Some(130),
        directory: "/".to_string(),
        text: "top".to_string(),
    };
    assert_eq!(open.shown().exit_code, 0);
    assert_eq!(open.shown().execution_id, 3);
    assert_eq!(closed.shown().exit_code, 130);
    let rows = show_all(&vec![open, closed]);
    assert_eq!(rows.len(), 2);
    assert_eq!(rows[0].line(), "id: 3\texit: 0\tdir: /\targv: top");
    assert_eq!(rows[1].line(), "id: 4\texit: 130\tdir: /\targv: top");
}
