use virsh_usb::text::{
    contains, contains_char, find, is_ascii_hexdigit, is_whitespace, join, join_from, lines,
    pad_right, same, split, starts_with, trim, trim_end_char, trim_start_matches, words,
};

const SAMPLES: [&str; 12] = [
    "",
    "\n",
    "one",
    "one\n",
    "one\r\ntwo\rthree\r\n\nfour\r",
    "  leading and trailing \t ",
    "a,b,,c,",
    ",",
    "0x0x12",
    "Größe\u{a0}über\u{3000}alles\u{2028}!",
    "'one' 'two'",
    "::a:b::",
];

#[test]
fn white_space_is_that_of_unicode() {
    for n in 0..=0x10ffffu32 {
        if let Some(c) = char::from_u32(n) {
            assert_eq!(is_whitespace(c), c.is_whitespace(), "{:x}", n);
        }
    }
}

#[test]
fn hexadecimal_digits_are_those_of_ascii() {
    for n in 0..=0x10ffffu32 {
        if let Some(c) = char::from_u32(n) {
            assert_eq!(is_ascii_hexdigit(c), c.is_ascii_hexdigit(), "{:x}", n);
        }
    }
}

#[test]
fn lines_end_at_newlines() {
    for s in SAMPLES {
        assert_eq!(lines(s), s.lines().collect::<Vec<_>>(), "{:?}", s);
    }
}

#[test]
fn words_stand_between_white_space() {
    for s in SAMPLES {
        assert_eq!(words(s), s.split_whitespace().collect::<Vec<_>>(), "{:?}", s);
    }
}

#[test]
fn pieces_stand_between_separators() {
    for s in SAMPLES {
        for c in [',', ':', '\'', 'ß'] {
            assert_eq!(split(s, c), s.split(c).collect::<Vec<_>>(), "{:?}", s);
        }
    }
}

#[test]
fn trimming_takes_from_the_ends() {
    for s in SAMPLES {
        assert_eq!(trim(s), s.trim(), "{:?}", s);
        assert_eq!(trim_end_char(s, ':'), s.trim_end_matches(':'), "{:?}", s);
        assert_eq!(trim_start_matches(s, "0x"), s.trim_start_matches("0x"), "{:?}", s);
    }
}

#[test]
fn searching_finds_the_first_place() {
    for s in SAMPLES {
        for pat in ["", "two", "ö", "\n", "0x", "nowhere", "::"] {
            assert_eq!(contains(s, pat), s.contains(pat), "{:?} {:?}", s, pat);
            assert_eq!(starts_with(s, pat), s.starts_with(pat), "{:?} {:?}", s, pat);
            let place = s.find(pat).map(|i| s[..i].chars().count());
            assert_eq!(find(s, pat), place, "{:?} {:?}", s, pat);
        }
        assert_eq!(contains_char(s, ':'), s.contains(':'));
    }
}

#[test]
fn joining_puts_the_separator_between() {
    let parts = vec!["a", "b", "c"];
    assert_eq!(join_from(&parts, 0, ", "), "a, b, c");
    assert_eq!(join_from(&parts, 1, " "), "b c");
    assert_eq!(join_from(&parts, 3, " "), "");
    assert_eq!(join(&vec!["virsh".to_string(), "list".to_string()], " "), "virsh list");
    assert_eq!(join(&vec![], " "), "");
}

#[test]
fn padding_fills_up_with_blanks() {
    for s in ["", "a", "größe", "exactly-twenty-chars", "more than twenty characters"] {
        assert_eq!(pad_right(s, 20), format!("{:<20}", s));
    }
}

#[test]
fn texts_are_the_same_by_their_characters() {
    assert!(same("größe", "größe"));
    assert!(!same("größe", "grosse"));
}
