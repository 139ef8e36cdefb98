use tmux_otg::text::{
    ascii_lower_chars, contains, decimal_string, is_white_space, signed_decimal_string,
    split_lines, trim,
};

#[test]
fn white_space_is_the_unicode_property() {
    for code in 0u32..0x11_0000 {
        if let Some(c) = char::from_u32(code) {
            assert_eq!(is_white_space(c), c.is_whitespace(), "U+{code:04X}");
        }
    }
}

#[test]
fn trim_takes_white_space_off_both_ends() {
    for s in ["", " ", "a", "  can't find session  ", "\t\n x y \u{3000}", "\u{a0}\u{2028}é \u{85}"] {
        assert_eq!(trim(s), s.trim());
    }
}

#[test]
fn lines_are_cut_at_line_endings() {
    for s in ["", "\n", "a", "a\n", "a\nb", "a\r\nb\n", "a\rb\n", "\n\n", "a\r", "x\n\r\n\r", "é\r\r\n"] {
        let expected: Vec<String> = s.lines().map(|l| l.to_string()).collect();
        assert_eq!(split_lines(s), expected, "{s:?}");
    }
}

#[test]
fn numerals_are_decimal() {
    for n in [0u32, 1, 9, 10, 100, 4096, 100_000, u32::MAX] {
        assert_eq!(decimal_string(n), n.to_string());
    }
    for i in [0i32, 1, -1, 127, -128, i32::MAX, i32::MIN] {
        assert_eq!(signed_decimal_string(i), i.to_string());
    }
}

#[test]
fn search_ignores_no_position() {
    let hay = ascii_lower_chars("ABCabd");
    assert_eq!(hay, vec!['a', 'b', 'c', 'a', 'b', 'd']);
    assert!(contains(&hay, "abc"));
    assert!(contains(&hay, "abd"));
    assert!(contains(&hay, ""));
    assert!(!contains(&hay, "abcabdx"));
    assert!(!contains(&hay, "abe"));
    assert!(!contains(&hay, "ABC"));
}
