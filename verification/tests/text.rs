use turso_dst::text::{
    flag_word, has_prefix, has_text, join2, join3, join_text, parse_signed, push_hex, push_quoted,
    push_quoted_list, push_signed, push_unsigned, same_text, take_chars,
};

fn signed(n: i64) -> String {
    let mut s = String::new();
    push_signed(&mut s, n);
    s
}

#[test]
fn numbers_are_written() {
    let mut s = String::from("n=");
    push_unsigned(&mut s, 18446744073709551615);
    assert_eq!(s, "n=18446744073709551615");
    assert_eq!(signed(0), "0");
    assert_eq!(signed(-42), "-42");
    assert_eq!(signed(i64::MIN), "-9223372036854775808");
    let mut h = String::new();
    push_hex(&mut h, 0xcbf29ce484222325);
    assert_eq!(h, "cbf29ce484222325");
}

#[test]
fn written_numbers_read_back() {
    for n in [0, 1, -1, 9, 10, -10, 123456789, i64::MAX, i64::MIN] {
        assert_eq!(parse_signed(&signed(n)), Some(n));
    }
}

#[test]
fn numbers_are_read_as_the_standard_library_reads_them() {
    for s in [
        "", "-", "+", "+7", "-7", "007", "1 ", " 1", "1_0", "x", "--1", "9223372036854775807",
        "9223372036854775808", "-9223372036854775808", "-9223372036854775809", "\u{661}", "0x10",
    ] {
        assert_eq!(parse_signed(s), s.parse::<i64>().ok(), "{s:?}");
    }
}

#[test]
fn quoting_escapes() {
    for s in ["", "a", "a\"b", "a\\b", "a\nb", "\u{e9}", "\u{7f}", "'"] {
        let mut out = String::from("<");
        push_quoted(&mut out, s);
        assert_eq!(out, format!("<{s:?}"));
    }
}

#[test]
fn lists_are_quoted() {
    for list in [
        vec![],
        vec![String::from("5")],
        vec![String::from("5"), String::from("1\"5")],
        vec![String::from("a"), String::from("b"), String::from("c")],
    ] {
        let mut out = String::new();
        push_quoted_list(&mut out, &list);
        assert_eq!(out, format!("{list:?}"));
    }
}

#[test]
fn pieces_are_joined() {
    assert_eq!(join2("ab", "c"), "abc");
    assert_eq!(join3("a", "b", "c"), "abc");
    assert_eq!(join_text(&vec![], ","), "");
    assert_eq!(join_text(&vec![String::from("x")], ","), "x");
    let list = vec![String::from("x"), String::from(""), String::from("z")];
    assert_eq!(join_text(&list, "; "), list.join("; "));
}

#[test]
fn prefixes_and_parts_are_found() {
    assert!(has_prefix("ok rows=1", "ok"));
    assert!(has_prefix("ok", "ok"));
    assert!(has_prefix("ok", ""));
    assert!(!has_prefix("o", "ok"));
    assert!(!has_prefix("ERR ok", "ok"));
    assert!(has_text("Error(\"no such table: kv\")", "no such table"));
    assert!(has_text("abc", ""));
    assert!(has_text("aab", "ab"));
    assert!(!has_text("Error(\"disk full\")", "no such table"));
    assert!(!has_text("", "x"));
    assert!(same_text("kv", "kv"));
    assert!(!same_text("kv", "kw"));
}

#[test]
fn texts_are_cut_by_characters() {
    assert_eq!(take_chars("abcdef", 3), "abc");
    assert_eq!(take_chars("ab", 3), "ab");
    assert_eq!(take_chars("\u{e9}\u{e8}x", 2), "\u{e9}\u{e8}");
    assert_eq!(take_chars("abc", 0), "");
}

#[test]
fn flags_are_written() {
    assert_eq!(flag_word(true), "true");
    assert_eq!(flag_word(false), "false");
}
