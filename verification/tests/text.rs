use realtime_translation::text::{
    decimal_text, has_prefix, has_suffix, pad_left, pad_right, parse_up_to, repeat_char, text_after,
    trim_text,
};

#[test]
fn trimming_is_that_of_std() {
    for s in ["", "  ", " a b ", "\u{a0}x\u{3000}", "\u{200b}y", "\t\r\n z\u{85}", "ü\u{2028}"] {
        assert_eq!(trim_text(s), s.trim(), "{s:?}");
    }
}

#[test]
fn numbers_are_read_as_std_does() {
    for s in ["", "+", "-", "0", "+7", "-0", "007", "4294967295", "4294967296", "99999999999999999999", " 1", "1x", "٣"] {
        assert_eq!(parse_up_to(s, u32::MAX as u64), s.parse::<u32>().ok().map(|n| n as u64), "{s:?}");
        assert_eq!(parse_up_to(s, u64::MAX), s.parse::<u64>().ok(), "{s:?}");
    }
}

#[test]
fn text_helpers() {
    assert_eq!(decimal_text(0), "0");
    assert_eq!(decimal_text(u64::MAX), u64::MAX.to_string());
    assert_eq!(pad_left("é", '0', 3), "00é");
    assert_eq!(pad_right("é", 3), "é  ");
    assert_eq!(pad_right("long", 3), "long");
    assert_eq!(repeat_char('x', 3), "xxx");
    assert_eq!(text_after("pcm_8", 4), "8");
    assert!(has_prefix("abc", "ab") && !has_prefix("abc", "b"));
    assert!(has_suffix("abc", "bc") && !has_suffix("c", "bc"));
}
