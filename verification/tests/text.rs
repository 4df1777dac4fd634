use dsh_desktop::text::{
    begins_with, chars_of, contains_char, contains_text, decimal, ends_with, found_at, parse_u32,
    rows_of, same, trim, white, words_of,
};

fn joined(parts: Vec<Vec<char>>) -> Vec<String> {
    parts.into_iter().map(|p| p.into_iter().collect()).collect()
}

#[test]
fn white_space_is_that_of_the_standard_library() {
    for n in 0..0x110000u32 {
        if let Some(c) = char::from_u32(n) {
            assert_eq!(white(c), c.is_whitespace(), "{n:x}");
        }
    }
}

#[test]
fn trimming_agrees_with_the_standard_library() {
    for t in ["", " ", "a", " a b\u{3000}\n", "\u{a0}x", "\u{200b} y \u{200b}", "\t\r\n"] {
        assert_eq!(trim(t), t.trim());
    }
}

#[test]
fn parts_are_found() {
    assert!(begins_with("text/plain; charset=utf-8", "text/plain"));
    assert!(!begins_with("text/plai", "text/plain"));
    assert!(begins_with("", ""));
    assert!(ends_with(&chars_of("0.0.0.0:3080"), ":3080"));
    assert!(!ends_with(&chars_of("0.0.0.0:13080"), ":3080"));
    assert!(!ends_with(&chars_of("80"), ":3080"));
    assert!(contains_text("dsh web authentication required", "authentication required"));
    assert!(contains_text("authentication required", "authentication required"));
    assert!(!contains_text("authentication  required", "authentication required"));
    assert!(contains_text("", ""));
    assert!(contains_text("a", ""));
    assert!(!contains_text("", "a"));
    assert!(contains_char("C:\\x", '\\'));
    assert!(!contains_char("", '\\'));
    assert!(found_at(&chars_of("abc"), &chars_of("c"), 2));
    assert!(!found_at(&chars_of("abc"), &chars_of("c"), 3));
    assert!(same("é", "é"));
    assert!(!same("a", "b"));
}

#[test]
fn rows_and_words_agree_with_the_standard_library() {
    for t in ["", "a", "a\n", "a\nb", "\n\n", " a  b\tc\u{3000}d ", "x\r\ny z\r\n"] {
        let rows: Vec<String> = t.split('\n').map(|r| r.to_string()).collect();
        assert_eq!(joined(rows_of(t)), rows);
        let words: Vec<String> = t.split_whitespace().map(|w| w.to_string()).collect();
        assert_eq!(joined(words_of(&chars_of(t))), words);
    }
}

#[test]
fn numbers_are_read_as_the_standard_library_does() {
    for t in ["", "+", "-1", "0", "007", "+12", "++1", "4294967295", "4294967296", "12a", " 1",
        "99999999999999999999999", "\u{661}"]
    {
        assert_eq!(parse_u32(&chars_of(t)), t.parse::<u32>().ok(), "{t}");
    }
}

#[test]
fn numbers_are_written_as_the_standard_library_does() {
    for n in [0, 1, 9, 10, 99, 100, 3080, 1700000000, u64::MAX] {
        assert_eq!(decimal(n), n.to_string());
    }
    for n in [0, 4, 37316, u32::MAX] {
        assert_eq!(parse_u32(&chars_of(&decimal(n as u64))), Some(n));
    }
}
