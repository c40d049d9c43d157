use hdr_netflix::text::{
    chars_of, contains_chars, occurs_at_exec, push_decimal, str_eq, to_ascii_lowercase,
    trim, wide_array_to_string,
};

#[test]
fn lowercase_is_ascii_only() {
    assert_eq!(to_ascii_lowercase("NeTfLiX.EXE"), "netflix.exe");
    assert_eq!(to_ascii_lowercase("ÄBC"), "Äbc");
}

#[test]
fn substring_and_prefix() {
    let c = |s: &str| s.chars().collect::<Vec<char>>();
    assert!(contains_chars(&c("stranger things - netflix"), &c(" - netflix")));
    assert!(!contains_chars(&c("netfli"), &c("netflix")));
    assert!(contains_chars(&c("abc"), &c("")));
    assert!(occurs_at_exec(&c("netflix - show"), &c("netflix -"), 0));
    assert!(!occurs_at_exec(&c("a netflix"), &c("netflix"), 0));
    assert!(occurs_at_exec(&c("a netflix"), &c("netflix"), 2));
    assert!(str_eq("--on", "--on"));
    assert!(!str_eq("--on", "--off"));
}

#[test]
fn decimal_rendering() {
    let mut s = String::new();
    push_decimal(&mut s, 0);
    assert_eq!(s, "0");
    let mut s = String::from("x=");
    push_decimal(&mut s, 1234567);
    assert_eq!(s, "x=1234567");
    let mut s = String::new();
    push_decimal(&mut s, u64::MAX);
    assert_eq!(s, u64::MAX.to_string());
}

#[test]
fn trimming_uses_unicode_white_space() {
    assert_eq!(trim("  a b \t\n"), "a b");
    assert_eq!(trim("\u{3000}x\u{a0}"), "x");
    assert_eq!(trim(" \t "), "");
    assert_eq!(trim("key"), "key");
    assert_eq!(trim(" a"), "a");
    assert_eq!(trim("\u{85}\u{1680}\u{200a}\u{202f}\u{205f}x\u{2029}\u{b}\u{c}\r"), "x");
    assert_eq!(trim("\u{200b}x"), "\u{200b}x");
}

#[test]
fn chars_round_trip() {
    let cs = chars_of("añ😀");
    assert_eq!(cs, vec!['a', 'ñ', '😀']);
}

#[test]
fn wide_buffers_stop_at_the_terminator() {
    assert_eq!(wide_array_to_string(&[72, 105, 0, 65, 66]), "Hi");
    assert_eq!(wide_array_to_string(&[72, 105]), "Hi");
    assert_eq!(wide_array_to_string(&[0, 72]), "");
    assert_eq!(wide_array_to_string(&[0xD83D, 0xDE00, 0]), "😀");
    assert_eq!(wide_array_to_string(&[0xD800, 65, 0]), "\u{FFFD}A");
    assert_eq!(wide_array_to_string(&[0xDC00, 0xD83D]), "\u{FFFD}\u{FFFD}");
    assert_eq!(wide_array_to_string(&[0xD83D, 0xD83D, 0xDE00]), "\u{FFFD}😀");
}
