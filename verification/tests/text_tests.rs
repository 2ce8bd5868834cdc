use command_gate::decimal::decimal_string;
use command_gate::text::{
    chars_of, find, find_word, join_strings, line_spans, lines_of, lower_chars_of, lower_vec,
    matches_at, matches_word_at, space, to_lower_char, trim_span, word_char,
};

fn chars(s: &str) -> Vec<char> {
    s.chars().collect()
}

#[test]
fn chars_are_taken_in_order() {
    assert_eq!(chars_of("héllo"), vec!['h', 'é', 'l', 'l', 'o']);
    assert_eq!(chars_of(""), Vec::<char>::new());
}

#[test]
fn folding_changes_ascii_capitals_only() {
    assert_eq!(to_lower_char('A'), 'a');
    assert_eq!(to_lower_char('Z'), 'z');
    assert_eq!(to_lower_char('m'), 'm');
    assert_eq!(to_lower_char('@'), '@');
    assert_eq!(to_lower_char('['), '[');
    assert_eq!(to_lower_char('É'), 'É');
    assert_eq!(lower_chars_of("Rm -RF /"), chars("rm -rf /"));
    assert_eq!(lower_vec(&chars("ABC xyz 123")), chars("abc xyz 123"));
}

#[test]
fn substring_search_finds_every_position() {
    let hay = chars("hello world");
    assert!(find(&hay, &chars("hello")));
    assert!(find(&hay, &chars("world")));
    assert!(find(&hay, &chars("o w")));
    assert!(find(&hay, &chars("")));
    assert!(find(&hay, &chars("hello world")));
    assert!(!find(&hay, &chars("worlds")));
    assert!(!find(&hay, &chars("hello world!")));
    assert!(!find(&chars(""), &chars("a")));
    assert!(find(&chars(""), &chars("")));
}

#[test]
fn match_at_checks_one_position() {
    let hay = chars("abcabc");
    assert!(matches_at(&hay, &chars("abc"), 0));
    assert!(matches_at(&hay, &chars("abc"), 3));
    assert!(!matches_at(&hay, &chars("abc"), 1));
    assert!(!matches_at(&hay, &chars("abc"), 4));
    assert!(!matches_at(&hay, &chars("abc"), 100));
    assert!(matches_at(&hay, &chars(""), 6));
    assert!(!matches_at(&hay, &chars(""), 7));
}

#[test]
fn word_search_respects_boundaries() {
    assert!(find_word(&chars("sudo ls"), &chars("sudo")));
    assert!(find_word(&chars("ls; sudo"), &chars("sudo")));
    assert!(find_word(&chars("(sudo)"), &chars("sudo")));
    assert!(!find_word(&chars("pseudo"), &chars("sudo")));
    assert!(!find_word(&chars("sudoers"), &chars("sudo")));
    assert!(!find_word(&chars("my_sudo"), &chars("sudo")));
    assert!(!find_word(&chars("sudo2"), &chars("sudo")));
    assert!(find_word(&chars("pseudo sudo"), &chars("sudo")));
    assert!(matches_word_at(&chars("a rm b"), &chars("rm"), 2));
    assert!(!matches_word_at(&chars("a rm b"), &chars("rm"), 1));
    assert!(!matches_word_at(&chars("arm b"), &chars("rm"), 1));
}

#[test]
fn word_characters_are_letters_digits_and_underscore() {
    for c in ['a', 'z', 'A', 'Z', '0', '9', '_'] {
        assert!(word_char(c));
    }
    for c in [' ', '-', '/', '|', '.', 'é', '\n'] {
        assert!(!word_char(c));
    }
}

#[test]
fn lines_are_split_at_line_feeds() {
    assert_eq!(lines_of(&chars("a\nbc\n\nd")), vec![chars("a"), chars("bc"), chars(""), chars("d")]);
    assert_eq!(lines_of(&chars("")), vec![chars("")]);
    assert_eq!(lines_of(&chars("abc")), vec![chars("abc")]);
    assert_eq!(lines_of(&chars("abc\n")), vec![chars("abc"), chars("")]);
    assert_eq!(lines_of(&chars("\n")), vec![chars(""), chars("")]);
    assert_eq!(lines_of(&chars("a\r\nb")), vec![chars("a\r"), chars("b")]);
}

#[test]
fn line_spans_cut_out_the_lines() {
    assert_eq!(line_spans(&chars("a\nbc\n\nd")), vec![(0, 1), (2, 4), (5, 5), (6, 7)]);
    assert_eq!(line_spans(&chars("")), vec![(0, 0)]);
    assert_eq!(line_spans(&chars("ab\n")), vec![(0, 2), (3, 3)]);
}

#[test]
fn trimming_cuts_white_space_at_both_ends() {
    let text = chars("  \t echo hi \r");
    assert_eq!(trim_span(&text, 0, text.len()), (4, 11));
    assert_eq!(trim_span(&chars("abc"), 0, 3), (0, 3));
    assert_eq!(trim_span(&chars("   "), 0, 3), (3, 3));
    assert_eq!(trim_span(&chars(""), 0, 0), (0, 0));
    assert_eq!(trim_span(&chars("a b c"), 1, 4), (2, 3));
    assert!(space(' ') && space('\t') && space('\r') && space('\n'));
    assert!(!space('a') && !space('\u{a0}'));
}

#[test]
fn joining_puts_the_separator_between_neighbours() {
    let parts = vec!["a".to_string(), "b".to_string(), "c".to_string()];
    assert_eq!(join_strings(&parts, ", "), "a, b, c");
    assert_eq!(join_strings(&vec!["solo".to_string()], ", "), "solo");
    assert_eq!(join_strings(&Vec::new(), ", "), "");
    assert_eq!(join_strings(&vec![String::new(), String::new()], "\n"), "\n");
}

#[test]
fn decimal_notation_is_exact() {
    assert_eq!(decimal_string(0), "0");
    assert_eq!(decimal_string(7), "7");
    assert_eq!(decimal_string(10), "10");
    assert_eq!(decimal_string(1234567890), "1234567890");
    assert_eq!(decimal_string(u64::MAX), "18446744073709551615");
}
