use oto_core::text::{decimal_text, ends_with, is_blank, is_space_char, same_text, strip_suffix, to_chars, trim};

#[test]
fn white_space_agrees_with_std_on_every_char() {
    let mut n: u32 = 0;
    while n <= 0x10FFFF {
        if let Some(c) = char::from_u32(n) {
            assert_eq!(is_space_char(c), c.is_whitespace(), "U+{:04X}", n);
        }
        n += 1;
    }
}

#[test]
fn white_space_chars_are_the_known_ones() {
    assert!(is_space_char(' '));
    assert!(is_space_char('\t'));
    assert!(is_space_char('\n'));
    assert!(is_space_char('\u{00A0}'));
    assert!(is_space_char('\u{3000}'));
    assert!(!is_space_char('a'));
    assert!(!is_space_char('\u{200B}'));
}

#[test]
fn to_chars_keeps_every_char() {
    assert_eq!(to_chars("aé日"), vec!['a', 'é', '日']);
    assert_eq!(to_chars(""), Vec::<char>::new());
}

#[test]
fn trim_removes_both_ends_only() {
    assert_eq!(trim("  a b \n"), "a b");
    assert_eq!(trim("a"), "a");
    assert_eq!(trim(""), "");
    assert_eq!(trim(" \t\r\n"), "");
    assert_eq!(trim("\u{3000}é x\u{00A0}"), "é x");
}

#[test]
fn trim_agrees_with_std() {
    let samples = [
        "",
        " ",
        "x",
        " x",
        "x ",
        "  http://x/y.zip  ",
        "\n\tname with spaces\t\n",
        "\u{2003}日本語\u{2003}",
        "a\u{0085}",
    ];
    for s in samples {
        assert_eq!(trim(s), s.trim());
        assert_eq!(is_blank(s), s.trim().is_empty());
    }
}

#[test]
fn is_blank_on_empty_and_spaces() {
    assert!(is_blank(""));
    assert!(is_blank("   "));
    assert!(is_blank("\t\n"));
    assert!(!is_blank(" a "));
}

#[test]
fn ends_with_compares_the_tail() {
    assert!(ends_with("foo.model3.json", ".model3.json"));
    assert!(ends_with(".model3.json", ".model3.json"));
    assert!(!ends_with("model3.json", ".model3.json"));
    assert!(!ends_with("foo.model3.json.bak", ".model3.json"));
    assert!(ends_with("anything", ""));
    assert!(ends_with("", ""));
    assert!(!ends_with("", "a"));
    assert!(ends_with("dir/", "/"));
}

#[test]
fn strip_suffix_removes_every_repetition() {
    assert_eq!(strip_suffix("foo.model3.json", ".model3.json"), "foo");
    assert_eq!(strip_suffix("foo.model3.json.model3.json", ".model3.json"), "foo");
    assert_eq!(strip_suffix(".model3.json", ".model3.json"), "");
    assert_eq!(strip_suffix("foo.json", ".model3.json"), "foo.json");
    assert_eq!(strip_suffix("foo", ""), "foo");
    assert_eq!(strip_suffix("aaa", "a"), "");
    assert_eq!(
        strip_suffix("x.model3.json.model3.json", ".model3.json"),
        "x.model3.json.model3.json".trim_end_matches(".model3.json")
    );
}

#[test]
fn same_text_is_equality() {
    assert!(same_text("character_1", "character_1"));
    assert!(!same_text("character_1", "character_2"));
    assert!(!same_text("character_1", "character_"));
    assert!(same_text("", ""));
}

#[test]
fn decimal_text_agrees_with_std() {
    let mut n: u8 = 0;
    loop {
        assert_eq!(decimal_text(n), n.to_string());
        if n == 255 {
            break;
        }
        n += 1;
    }
    assert_eq!(decimal_text(0), "0");
    assert_eq!(decimal_text(7), "7");
    assert_eq!(decimal_text(10), "10");
    assert_eq!(decimal_text(100), "100");
    assert_eq!(decimal_text(205), "205");
}
