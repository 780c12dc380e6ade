use datafusion_table_providers_quack::secrets::SecretMap;
use datafusion_table_providers_quack::text::{
    chars_of, contains, double, number_text, parse_u64, parse_usize, same_text, strip_prefix,
    to_ascii_lowercase, trim,
};

#[test]
fn every_white_space_character_is_trimmed() {
    for n in 0..=0x10ffff_u32 {
        if let Some(c) = char::from_u32(n) {
            let text = c.to_string();
            assert_eq!(trim(&text), text.trim(), "{n:x}");
        }
    }
}

#[test]
fn trimming_keeps_the_middle() {
    for text in ["", " ", " a b ", "a", "\t\u{2003}x\u{3000}\n", "x y", "\u{200b} a"] {
        assert_eq!(trim(text), text.trim());
        assert_eq!(trim(trim(text)), trim(text));
    }
}

#[test]
fn a_text_is_found_wherever_it_stands() {
    for text in ["", "a", "ab", "aab", "xaaby", "\u{e9}ab", "ba", "aaab"] {
        for needle in ["", "a", "ab", "aab", "\u{e9}", "abc"] {
            assert_eq!(contains(text, needle), text.contains(needle), "{text} {needle}");
        }
    }
}

#[test]
fn a_prefix_is_taken_off_once() {
    for text in ["", "quack.", "quack.uri", "quack.quack.a", "quac", "\u{e9}quack."] {
        assert_eq!(strip_prefix(text, "quack."), text.strip_prefix("quack."));
    }
    assert_eq!(strip_prefix("\u{e9}a", "\u{e9}"), Some("a"));
    assert_eq!(strip_prefix("a", ""), Some("a"));
}

#[test]
fn only_ascii_letters_are_lowered() {
    for n in 0..=0x24f_u32 {
        let text = char::from_u32(n).expect("a character").to_string();
        assert_eq!(to_ascii_lowercase(&text), text.to_ascii_lowercase());
    }
    assert_eq!(to_ascii_lowercase("On/OFF \u{c9}"), "on/off \u{c9}");
}

#[test]
fn marks_are_doubled() {
    assert_eq!(double("a'b''", '\''), "a''b''''");
    assert_eq!(double("a'b", '"'), "a'b");
    assert_eq!(double("", '"'), "");
}

#[test]
fn numbers_are_parsed_as_std_parses_them() {
    for text in [
        "", "+", "-", "0", "00", "+0", "-0", "-1", "1", "+1", "++1", "1 ", " 1", "12a", "1_000",
        "18446744073709551615", "18446744073709551616", "018446744073709551615",
        "99999999999999999999999", "\u{0661}", "0x10", "1.0", "1+",
    ] {
        assert_eq!(parse_u64(text), text.parse::<u64>().ok(), "{text}");
        assert_eq!(parse_usize(text), text.parse::<usize>().ok(), "{text}");
    }
}

#[test]
fn the_text_of_a_number_reads_back() {
    for n in [0, 1, 9, 10, 99, 100, 300, 4_294_967_296, u64::MAX] {
        assert_eq!(number_text(n), n.to_string());
        assert_eq!(parse_u64(&number_text(n)), Some(n));
    }
}

#[test]
fn texts_are_compared_by_their_characters() {
    assert!(same_text("a\u{e9}", "a\u{e9}"));
    assert!(!same_text("a", "ab"));
    assert!(!same_text("ab", "a"));
    assert!(same_text("", ""));
    assert_eq!(chars_of("a\u{e9}\u{1f986}"), vec!['a', '\u{e9}', '\u{1f986}']);
}

#[test]
fn a_secret_is_read_back() {
    let mut map = SecretMap::new();
    assert_eq!(map.len(), 0);
    map.insert("token".to_string(), "one".to_string());
    map.insert("Token".to_string(), "two".to_string());
    assert_eq!(map.get("token"), Some("one"));
    map.insert("token".to_string(), String::new());
    assert_eq!(map.get("token"), Some(""));
    assert_eq!(map.get("Token"), Some("two"));
    assert_eq!(map.get("other"), None);
    assert_eq!(map.len(), 2);
}
