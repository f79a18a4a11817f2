use solver_log::text::{
    chars_of, contains_pattern, copy_range, decimal_chars, find_in, first_visible_char, is_digit,
    is_space, join_rows, push_all, rows_of, split_lines, split_words, starts_at, string_of,
    strings_of,
};

fn row(s: &str) -> Vec<char> {
    s.chars().collect()
}

fn rows(all: &[&str]) -> Vec<Vec<char>> {
    all.iter().map(|s| row(s)).collect()
}

#[test]
fn chars_and_string_round_trip() {
    assert_eq!(chars_of("a→b"), vec!['a', '→', 'b']);
    assert_eq!(string_of(&vec!['x', 'é', '1']), "xé1");
    assert_eq!(string_of(&chars_of("")), "");
}

#[test]
fn decimal_of_numbers() {
    assert_eq!(decimal_chars(0), row("0"));
    assert_eq!(decimal_chars(7), row("7"));
    assert_eq!(decimal_chars(10), row("10"));
    assert_eq!(decimal_chars(1234567890), row("1234567890"));
    assert_eq!(decimal_chars(u32::MAX as usize), row("4294967295"));
}

#[test]
fn pattern_search() {
    let text = row("abcabc");
    assert!(starts_at(&text, &row("bc"), 1));
    assert!(!starts_at(&text, &row("bc"), 2));
    assert!(!starts_at(&text, &row("bc"), 5));
    assert!(starts_at(&text, &row(""), 6));
    assert!(!starts_at(&text, &row(""), 7));
    assert_eq!(find_in(&text, &row("bc"), 0), Some(1));
    assert_eq!(find_in(&text, &row("bc"), 2), Some(4));
    assert_eq!(find_in(&text, &row("bc"), 5), None);
    assert_eq!(find_in(&text, &row("abcabcd"), 0), None);
    assert!(contains_pattern(&text, &row("cab")));
    assert!(!contains_pattern(&text, &row("cb")));
    assert!(contains_pattern(&text, &row("")));
    assert!(contains_pattern(&row(""), &row("")));
}

#[test]
fn lines_follow_line_feeds() {
    assert_eq!(split_lines(&row("")), rows(&[]));
    assert_eq!(split_lines(&row("a")), rows(&["a"]));
    assert_eq!(split_lines(&row("a\n")), rows(&["a"]));
    assert_eq!(split_lines(&row("a\n\n")), rows(&["a", ""]));
    assert_eq!(split_lines(&row("\n")), rows(&[""]));
    assert_eq!(split_lines(&row("a\r\nb\rc\n\r\nd\r")), rows(&["a", "b\rc", "", "d\r"]));
    assert_eq!(split_lines(&row("a\r\r\nb")), rows(&["a\r", "b"]));
}

#[test]
fn lines_agree_with_std() {
    for text in ["", "x", "x\n", "\n\nx", "a\r\nb\n", "a\rb", "tail\r", "\r\n", "é\nü"] {
        let expected: Vec<Vec<char>> = text.lines().map(|l| l.chars().collect()).collect();
        assert_eq!(split_lines(&row(text)), expected, "text {:?}", text);
    }
}

#[test]
fn rows_joined_by_line_feeds() {
    assert_eq!(join_rows(&rows(&[])), row(""));
    assert_eq!(join_rows(&rows(&["a"])), row("a"));
    assert_eq!(join_rows(&rows(&["a", "", "b"])), row("a\n\nb"));
    assert_eq!(join_rows(&rows(&[""])), row(""));
}

#[test]
fn words_split_at_white_space() {
    assert_eq!(split_words(&row("")), rows(&[]));
    assert_eq!(split_words(&row("  \t\n")), rows(&[]));
    assert_eq!(split_words(&row("uv run  python\t-u ")), rows(&["uv", "run", "python", "-u"]));
    assert_eq!(split_words(&row("a\u{3000}b\u{a0}c")), rows(&["a", "b", "c"]));
}

#[test]
fn words_agree_with_std() {
    for text in ["", " a", "a  b ", "\u{2003}x\u{85}y", "one", "a\u{200b}b c"] {
        let expected: Vec<Vec<char>> =
            text.split_whitespace().map(|l| l.chars().collect()).collect();
        assert_eq!(split_words(&row(text)), expected, "text {:?}", text);
    }
}

#[test]
fn white_space_agrees_with_std() {
    for code in 0u32..0x3100 {
        if let Some(c) = char::from_u32(code) {
            assert_eq!(is_space(c), c.is_whitespace(), "code {:#x}", code);
            assert_eq!(is_digit(c), c.is_ascii_digit(), "code {:#x}", code);
        }
    }
    assert!(!is_space('\u{feff}'));
    assert!(!is_digit('٣'));
}

#[test]
fn first_visible_skips_white_space() {
    assert_eq!(first_visible_char(&row("")), None);
    assert_eq!(first_visible_char(&row(" \t ")), None);
    assert_eq!(first_visible_char(&row("  12 a")), Some('1'));
    assert_eq!(first_visible_char(&row("H 3")), Some('H'));
}

#[test]
fn ranges_and_appends() {
    let text = row("abcdef");
    assert_eq!(copy_range(&text, 2, 5), row("cde"));
    assert_eq!(copy_range(&text, 3, 3), row(""));
    let mut dst = row("ab");
    push_all(&mut dst, &row("cd"));
    assert_eq!(dst, row("abcd"));
}

#[test]
fn rows_and_strings_convert() {
    let all: Vec<Vec<char>> = vec![row("a"), row("bé"), vec![]];
    assert_eq!(strings_of(&all), vec!["a", "bé", ""]);
    assert_eq!(rows_of(&vec!["a".to_string(), "bé".to_string(), String::new()]), all);
    assert_eq!(strings_of(&Vec::new()), Vec::<String>::new());
}
