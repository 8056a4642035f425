use teams_usb_fix::text::{
    chars_of, eq_ignore_ascii_case, is_blank, is_white_space, push_byte_list, push_decimal,
    push_decimal_padded, push_hex4, push_list, same_text, to_ascii_lower,
};

#[test]
fn decimal_agrees_with_format() {
    for n in [0u64, 7, 9, 10, 42, 99, 100, 65535, 4294967295, u64::MAX] {
        let mut out = String::from("n=");
        push_decimal(&mut out, n);
        assert_eq!(out, format!("n={}", n));
    }
}

#[test]
fn padded_decimal_agrees_with_format() {
    for n in [0u64, 5, 10, 99, 100, 999, 2026, 12345] {
        for width in 0usize..6 {
            let mut out = String::new();
            push_decimal_padded(&mut out, n, width);
            assert_eq!(out, format!("{:0w$}", n, w = width));
        }
    }
}

#[test]
fn padded_decimal_of_a_short_number() {
    let mut out = String::new();
    push_decimal_padded(&mut out, 42, 4);
    assert_eq!(out, "0042");
}

#[test]
fn hex_agrees_with_format_for_all_numbers() {
    for n in 0u16..=u16::MAX {
        let mut out = String::new();
        push_hex4(&mut out, n);
        assert_eq!(out, format!("{:04X}", n));
    }
}

#[test]
fn lists_agree_with_debug_format() {
    let lists: Vec<Vec<u32>> = vec![vec![], vec![7], vec![1, 22, 333], vec![4294967295, 0]];
    for list in lists {
        let mut out = String::new();
        push_list(&mut out, &list);
        assert_eq!(out, format!("{:?}", list));
    }
    let mut out = String::new();
    push_byte_list(&mut out, &[1, 2, 3]);
    assert_eq!(out, "[1, 2, 3]");
}

#[test]
fn characters_in_their_order() {
    assert_eq!(chars_of("a\u{1f600}b"), vec!['a', '\u{1f600}', 'b']);
}

#[test]
fn same_text_compares_whole_texts() {
    assert!(same_text("--tray", "--tray"));
    assert!(same_text("", ""));
    assert!(!same_text("--tray", "--tra"));
    assert!(!same_text("--tray", "--Tray"));
}

#[test]
fn case_is_ignored_for_ascii_only() {
    assert!(eq_ignore_ascii_case("MS-Teams.EXE", "ms-teams.exe"));
    assert!(!eq_ignore_ascii_case("ms-teams.exe ", "ms-teams.exe"));
    assert!(!eq_ignore_ascii_case("\u{c9}", "\u{e9}"));
    assert!(!eq_ignore_ascii_case("[", "{"));
    for code in 0u32..0x300 {
        if let Some(c) = char::from_u32(code) {
            assert_eq!(to_ascii_lower(c), c.to_ascii_lowercase());
        }
    }
}

#[test]
fn comparison_ignoring_case_is_an_equivalence() {
    let texts = ["Teams", "teams", "TEAMS", "team"];
    for a in texts {
        assert!(eq_ignore_ascii_case(a, a));
        for b in texts {
            assert_eq!(eq_ignore_ascii_case(a, b), eq_ignore_ascii_case(b, a));
            assert_eq!(eq_ignore_ascii_case(a, b), a.eq_ignore_ascii_case(b));
        }
    }
}

#[test]
fn white_space_agrees_with_the_standard_library_for_all_characters() {
    for code in 0u32..=0x10FFFF {
        if let Some(c) = char::from_u32(code) {
            assert_eq!(is_white_space(c), c.is_whitespace());
        }
    }
}

#[test]
fn blank_texts_have_nothing_left_when_trimmed() {
    for text in ["", " ", "\t\n", "\u{3000}\u{a0}", " x ", "name", "\u{200b}"] {
        assert_eq!(is_blank(text), text.trim().is_empty());
    }
}
