use todos::number::{parse_number, push_decimal};
use todos::text::{chars_of, find, same_text, string_of};
use todos::{Task, TodoError};

fn task(name: &str, completed: bool) -> Task {
    Task { name: name.to_string(), completed }
}

#[test]
fn new_task_is_open() {
    let t = Task::new("buy milk".to_string());
    assert_eq!(t.name, "buy milk");
    assert!(!t.completed);
}

#[test]
fn complete_sets_the_flag_and_keeps_the_name() {
    let mut t = Task::new("buy milk".to_string());
    t.complete();
    assert_eq!(t, task("buy milk", true));
    t.complete();
    assert_eq!(t, task("buy milk", true));
}

#[test]
fn encode_open_task() {
    assert_eq!(task("buy milk", false).to_string(), "0|buy milk");
}

#[test]
fn encode_completed_task() {
    assert_eq!(task("buy milk", true).to_string(), "1|buy milk");
}

#[test]
fn encode_empty_name() {
    assert_eq!(task("", false).to_string(), "0|");
}

#[test]
fn encode_does_not_escape_the_separator() {
    assert_eq!(task("a|b", true).to_string(), "1|a|b");
}

#[test]
fn decode_open_task() {
    assert_eq!(Task::from_string("0|buy milk"), Ok(task("buy milk", false)));
}

#[test]
fn decode_completed_task() {
    assert_eq!(Task::from_string("1|buy milk"), Ok(task("buy milk", true)));
}

#[test]
fn decode_empty_name() {
    assert_eq!(Task::from_string("1|"), Ok(task("", true)));
}

#[test]
fn decode_keeps_spaces_and_other_scripts() {
    assert_eq!(Task::from_string("0|  caf\u{e9} \u{4e2d}\u{6587} "), Ok(task("  caf\u{e9} \u{4e2d}\u{6587} ", false)));
}

#[test]
fn decode_flag_other_than_one_is_open() {
    assert_eq!(Task::from_string("2|x"), Ok(task("x", false)));
    assert_eq!(Task::from_string("10|x"), Ok(task("x", false)));
    assert_eq!(Task::from_string("11|x"), Ok(task("x", false)));
}

#[test]
fn decode_flag_is_read_as_a_number() {
    assert_eq!(Task::from_string("01|x"), Ok(task("x", true)));
    assert_eq!(Task::from_string("+1|x"), Ok(task("x", true)));
    assert_eq!(Task::from_string("00|x"), Ok(task("x", false)));
}

#[test]
fn decode_without_separator_fails() {
    assert_eq!(Task::from_string("1 buy milk"), Err(TodoError::Parse));
    assert_eq!(Task::from_string("1"), Err(TodoError::Parse));
    assert_eq!(Task::from_string(""), Err(TodoError::Parse));
}

#[test]
fn decode_with_two_separators_fails() {
    assert_eq!(Task::from_string("1|a|b"), Err(TodoError::Parse));
    assert_eq!(Task::from_string("1||"), Err(TodoError::Parse));
    assert_eq!(Task::from_string("0|a|"), Err(TodoError::Parse));
}

#[test]
fn decode_with_bad_flag_fails() {
    assert_eq!(Task::from_string("x|a"), Err(TodoError::Parse));
    assert_eq!(Task::from_string("|a"), Err(TodoError::Parse));
    assert_eq!(Task::from_string("-1|a"), Err(TodoError::Parse));
    assert_eq!(Task::from_string(" 1|a"), Err(TodoError::Parse));
    assert_eq!(Task::from_string("1 |a"), Err(TodoError::Parse));
    assert_eq!(Task::from_string("+|a"), Err(TodoError::Parse));
    assert_eq!(Task::from_string("99999999999999999999999999|a"), Err(TodoError::Parse));
}

#[test]
fn round_trip_of_tasks_without_separator() {
    let names = ["buy milk", "", " ", "0", "1", "a\rb", "tab\there", "\u{e9}t\u{e9}"];
    for name in names {
        for completed in [false, true] {
            let t = task(name, completed);
            assert_eq!(Task::from_string(&t.to_string()), Ok(t));
        }
    }
}

#[test]
fn name_with_separator_does_not_come_back() {
    let t = task("a|b", false);
    assert_eq!(Task::from_string(&t.to_string()), Err(TodoError::Parse));
}

#[test]
fn parse_number_reads_decimal() {
    assert_eq!(parse_number("0"), Some(0));
    assert_eq!(parse_number("7"), Some(7));
    assert_eq!(parse_number("42"), Some(42));
    assert_eq!(parse_number("007"), Some(7));
    assert_eq!(parse_number("+5"), Some(5));
    assert_eq!(parse_number("1234567890"), Some(1234567890));
}

#[test]
fn parse_number_agrees_with_std_on_good_input() {
    for text in ["0", "1", "9", "10", "+0", "+12", "000", "4096"] {
        assert_eq!(parse_number(text), text.parse::<usize>().ok());
    }
}

#[test]
fn parse_number_agrees_with_std_on_bad_input() {
    for text in ["", "+", "-", "-0", "-5", "++5", "5+", " 5", "5 ", "1_000", "abc", "1a", "0x10", "\u{663}", "1.0"] {
        assert_eq!(parse_number(text), None);
        assert!(text.parse::<usize>().is_err());
    }
}

#[test]
fn parse_number_at_the_limit() {
    let max = usize::MAX.to_string();
    assert_eq!(parse_number(&max), Some(usize::MAX));
    let mut over = max.clone();
    over.push('0');
    assert_eq!(parse_number(&over), None);
    // one above the largest value
    let digits: Vec<char> = max.chars().collect();
    let mut above = String::new();
    let last = digits[digits.len() - 1];
    for c in &digits[..digits.len() - 1] {
        above.push(*c);
    }
    assert!(last != '9');
    above.push(((last as u8) + 1) as char);
    assert_eq!(parse_number(&above), None);
    assert!(above.parse::<usize>().is_err());
}

#[test]
fn push_decimal_writes_decimal() {
    for (n, text) in [(0usize, "0"), (5, "5"), (9, "9"), (10, "10"), (11, "11"), (99, "99"), (100, "100"), (12345, "12345")] {
        let mut out = String::new();
        push_decimal(&mut out, n);
        assert_eq!(out, text);
    }
}

#[test]
fn push_decimal_appends() {
    let mut out = "n=".to_string();
    push_decimal(&mut out, 407);
    assert_eq!(out, "n=407");
    push_decimal(&mut out, usize::MAX);
    assert_eq!(out, format!("n=407{}", usize::MAX));
}

#[test]
fn decimal_is_read_back() {
    for n in [0usize, 1, 9, 10, 19, 100, 65535, usize::MAX] {
        let mut out = String::new();
        push_decimal(&mut out, n);
        assert_eq!(parse_number(&out), Some(n));
    }
}

#[test]
fn chars_of_gives_the_characters() {
    assert_eq!(chars_of(""), Vec::<char>::new());
    assert_eq!(chars_of("a|\u{e9}"), vec!['a', '|', '\u{e9}']);
}

#[test]
fn string_of_takes_a_range() {
    let chars = vec!['a', 'b', 'c', 'd'];
    assert_eq!(string_of(&chars, 0, 4), "abcd");
    assert_eq!(string_of(&chars, 1, 3), "bc");
    assert_eq!(string_of(&chars, 2, 2), "");
    assert_eq!(string_of(&chars, 4, 4), "");
}

#[test]
fn find_gives_the_first_position() {
    let chars = vec!['a', '|', 'b', '|'];
    assert_eq!(find(&chars, 0, '|'), 1);
    assert_eq!(find(&chars, 1, '|'), 1);
    assert_eq!(find(&chars, 2, '|'), 3);
    assert_eq!(find(&chars, 4, '|'), 4);
    assert_eq!(find(&chars, 0, 'x'), 4);
}

#[test]
fn same_text_compares_characters() {
    assert!(same_text("", ""));
    assert!(same_text("add", "add"));
    assert!(!same_text("add", "ADD"));
    assert!(!same_text("add", "ad"));
    assert!(!same_text("ad", "add"));
    assert!(!same_text("add", "adx"));
}
