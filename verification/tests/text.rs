use runit::text::{append_decimal, join_lines, same_text};

fn lines(list: &[&str]) -> Vec<String> {
    list.iter().map(|line| line.to_string()).collect()
}

#[test]
fn equal_texts_are_the_same() {
    assert!(same_text("", ""));
    assert!(same_text("#!shell", "#!shell"));
    assert!(same_text("h\u{e9}llo \u{1f41a}", "h\u{e9}llo \u{1f41a}"));
}

#[test]
fn different_texts_are_not_the_same() {
    assert!(!same_text("", " "));
    assert!(!same_text("#!shell", "#!shel"));
    assert!(!same_text("#!shel", "#!shell"));
    assert!(!same_text("#!shell", "#!Shell"));
    assert!(!same_text("abc", "abd"));
    assert!(!same_text("\u{e9}", "e\u{301}"));
    assert!(!same_text("a\u{1f41a}", "a\u{1f41b}"));
}

#[test]
fn joining_puts_a_line_feed_between_lines() {
    assert_eq!(join_lines(&lines(&[])), "");
    assert_eq!(join_lines(&lines(&["one"])), "one");
    assert_eq!(join_lines(&lines(&["one", "two"])), "one\ntwo");
    assert_eq!(join_lines(&lines(&["one", "two", "three"])), "one\ntwo\nthree");
}

#[test]
fn joining_keeps_empty_lines() {
    assert_eq!(join_lines(&lines(&[""])), "");
    assert_eq!(join_lines(&lines(&["", ""])), "\n");
    assert_eq!(join_lines(&lines(&["a", ""])), "a\n");
    assert_eq!(join_lines(&lines(&["", "a"])), "\na");
    assert_eq!(join_lines(&lines(&["a", "", "b"])), "a\n\nb");
}

#[test]
fn joined_lines_come_back_when_split() {
    for body in [
        lines(&["one"]),
        lines(&[""]),
        lines(&["a", "", "b", ""]),
        lines(&["echo \"hi\"", "  indented", "\ttab", "\u{1f41a}"]),
    ] {
        let text = join_lines(&body);
        let back: Vec<String> = text.split('\n').map(|line| line.to_string()).collect();
        assert_eq!(back, body);
    }
}

#[test]
fn numbers_are_appended_in_decimal() {
    for n in [0u128, 1, 9, 10, 11, 99, 100, 101, 12345, 1_000_000, u64::MAX as u128, u128::MAX] {
        let mut text = String::from("n=");
        append_decimal(&mut text, n);
        assert_eq!(text, format!("n={n}"));
    }
    let mut text = String::new();
    append_decimal(&mut text, 340282366920938463463374607431768211455);
    assert_eq!(text, "340282366920938463463374607431768211455");
    append_decimal(&mut text, 0);
    assert_eq!(text, "3402823669209384634633746074317682114550");
}
