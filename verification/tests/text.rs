use auto_shit::paths::{session, CONFIG_FILE, HISTORY_FILE, SESSIONS_FOLDER};
use auto_shit::text::{
    chars_of, find_char, i64_text, parse_i32, parse_i64, parse_usize, slice_chars, string_of,
    usize_text,
};

fn chars(s: &str) -> Vec<char> {
    s.chars().collect()
}

#[test]
fn chars_and_back() {
    assert_eq!(chars_of("a🤡b"), vec!['a', '🤡', 'b']);
    assert_eq!(string_of(&vec!['a', '🤡', 'b']), "a🤡b");
    assert_eq!(chars_of(""), Vec::<char>::new());
}

#[test]
fn slices_and_finds() {
    let text = chars("ab=cd=e");
    assert_eq!(find_char(&text, 0, '='), 2);
    assert_eq!(find_char(&text, 3, '='), 5);
    assert_eq!(find_char(&text, 6, '='), 7);
    assert_eq!(slice_chars(&text, 3, 5), chars("cd"));
    assert_eq!(slice_chars(&text, 7, 7), chars(""));
}

#[test]
fn i64_text_exact_values() {
    assert_eq!(i64_text(0), "0");
    assert_eq!(i64_text(7), "7");
    assert_eq!(i64_text(-7), "-7");
    assert_eq!(i64_text(10), "10");
    assert_eq!(i64_text(1234567890), "1234567890");
    assert_eq!(i64_text(i64::MAX), "9223372036854775807");
    assert_eq!(i64_text(i64::MIN), "-9223372036854775808");
}

#[test]
fn usize_text_exact_values() {
    assert_eq!(usize_text(0), "0");
    assert_eq!(usize_text(20), "20");
    assert_eq!(usize_text(usize::MAX), usize::MAX.to_string());
}

#[test]
fn parse_i64_accepts_what_the_standard_library_accepts() {
    for text in [
        "0", "-0", "+0", "7", "-7", "+7", "007", "-007", "", "-", "+", "+-7", "--7", "7-", " 7", "7 ", "1_000",
        "0x10", "9223372036854775807", "9223372036854775808", "-9223372036854775808", "-9223372036854775809",
        "00000000000000000000000000000000000009", "99999999999999999999999999999999999999", "٣", "1.0", "1e3",
    ] {
        assert_eq!(parse_i64(&chars(text)), text.parse::<i64>().ok(), "on {text:?}");
        assert_eq!(parse_i32(&chars(text)), text.parse::<i32>().ok(), "on {text:?}");
        assert_eq!(parse_usize(&chars(text)), text.parse::<usize>().ok(), "on {text:?}");
    }
}

#[test]
fn parse_limits() {
    assert_eq!(parse_i32(&chars("2147483647")), Some(i32::MAX));
    assert_eq!(parse_i32(&chars("2147483648")), None);
    assert_eq!(parse_i32(&chars("-2147483648")), Some(i32::MIN));
    assert_eq!(parse_i32(&chars("-2147483649")), None);
    assert_eq!(parse_usize(&chars(&usize::MAX.to_string())), Some(usize::MAX));
    assert_eq!(parse_usize(&chars("18446744073709551616")), None);
    assert_eq!(parse_usize(&chars("-1")), None);
}

#[test]
fn written_numbers_are_read_back() {
    for v in [0, 1, -1, 9, 10, -10, 99, 100, 4711, -4711, i64::MAX, i64::MIN, i64::MAX - 1, i64::MIN + 1] {
        assert_eq!(parse_i64(&chars_of(&i64_text(v))), Some(v));
        assert_eq!(i64_text(v), v.to_string());
    }
}

#[test]
fn session_path_is_folder_and_identifier() {
    assert_eq!(session(123456), "sessions/123456");
    assert_eq!(session(-5), "sessions/-5");
    assert_eq!(session(0), "sessions/0");
    assert_eq!(SESSIONS_FOLDER, "sessions");
    assert_eq!(HISTORY_FILE, ".auto-shit-history");
    assert_eq!(CONFIG_FILE, "auto-shit.toml");
}
