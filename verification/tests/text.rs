use squabble::text::{
    char_width, contains, copy_all, ends_with, find, indent, is_hex_digit,
    is_white, join, lines, listed, parse_number, push_new, same, show, skip_bytes, split, starts_with,
    strip_prefix, strip_suffix, take_before, take_bytes, to_lower, trim, words,
};

const SAMPLES: [&str; 22] = [
    "",
    " ",
    "\n",
    "\r\n",
    "a",
    "a\n",
    "a\r\n\r\nb\rc\n\n",
    "  leading and trailing  ",
    "\u{a0}nbsp\u{2003}em\u{3000}",
    "\tTab\u{b}and\u{c}feed",
    "a/b//c/",
    "/",
    "ÄÖÜ mixed CASE straße",
    "name: \"quoted\"",
    "aaa",
    "abab",
    "\u{1f600} wide",
    "x\u{85}y\u{2028}z",
    "no-separator",
    "one two\tthree\n four",
    "\r",
    "a\r\r\nb",
];

#[test]
fn white_space_is_that_of_unicode() {
    for u in 0..=0x10ffffu32 {
        if let Some(c) = char::from_u32(u) {
            assert_eq!(is_white(c), c.is_whitespace(), "{u:x}");
            assert_eq!(char_width(c), c.len_utf8(), "{u:x}");
            assert_eq!(is_hex_digit(c), c.is_ascii_hexdigit(), "{u:x}");
        }
    }
}

#[test]
fn each_reading_of_a_text_agrees_with_std() {
    for s in SAMPLES {
        assert_eq!(lines(s), s.lines().collect::<Vec<_>>(), "{s:?}");
        assert_eq!(words(s), s.split_whitespace().collect::<Vec<_>>(), "{s:?}");
        assert_eq!(split(s, '/'), s.split('/').collect::<Vec<_>>(), "{s:?}");
        assert_eq!(trim(s), s.trim(), "{s:?}");
        assert_eq!(to_lower(s), s.to_ascii_lowercase(), "{s:?}");
        assert_eq!(indent(s), (s.len() - s.trim_start().len()) as u128, "{s:?}");
    }
}

#[test]
fn each_comparison_of_two_texts_agrees_with_std() {
    for a in SAMPLES {
        for b in SAMPLES {
            assert_eq!(same(a, b), a == b);
            assert_eq!(starts_with(a, b), a.starts_with(b), "{a:?} {b:?}");
            assert_eq!(ends_with(a, b), a.ends_with(b), "{a:?} {b:?}");
            assert_eq!(contains(a, b), a.contains(b), "{a:?} {b:?}");
            assert_eq!(strip_prefix(a, b), a.strip_prefix(b), "{a:?} {b:?}");
            assert_eq!(strip_suffix(a, b), a.strip_suffix(b), "{a:?} {b:?}");
            assert_eq!(
                find(a, b),
                a.find(b).map(|i| a[..i].chars().count()),
                "{a:?} {b:?}"
            );
            if !b.is_empty() {
                assert_eq!(take_before(a, b), a.split(b).next().unwrap(), "{a:?} {b:?}");
            }
        }
    }
}

#[test]
fn numbers_are_read_and_written_as_std_does() {
    for s in [
        "", "0", "+", "+7", "-1", "007", "12a", "18446744073709551615", "18446744073709551616",
        "99999999999999999999999", " 1", "１",
    ] {
        assert_eq!(parse_number(s), s.parse::<u64>().ok(), "{s:?}");
    }
    for n in [0, 7, 10, 99, 100, 12345, u64::MAX] {
        assert_eq!(show(n), n.to_string());
        assert_eq!(parse_number(&show(n)), Some(n));
    }
}

#[test]
fn bytes_are_counted_up_to_the_next_boundary() {
    assert_eq!(take_bytes("abcdefghij", 7), "abcdefg");
    assert_eq!(take_bytes("abc", 7), "abc");
    assert_eq!(take_bytes("éé", 1), "é");
    assert_eq!(skip_bytes("abcdef", 2), "cdef");
    assert_eq!(skip_bytes("éé", 1), "é");
    assert_eq!(skip_bytes("é", 9), "");
}

#[test]
fn lists_are_joined_and_kept_free_of_repetitions() {
    let list: Vec<String> = ["a", "b", "c"].iter().map(|s| s.to_string()).collect();
    assert_eq!(join(&list, ", "), "a, b, c");
    assert_eq!(join(&vec![], ", "), "");
    assert!(listed(&list, "b") && !listed(&list, "d"));
    let mut more = copy_all(&list);
    push_new(&mut more, "b".to_string());
    push_new(&mut more, "d".to_string());
    assert_eq!(more, vec!["a", "b", "c", "d"]);
}
