use signal::decimal::{digit, parse_unsigned, push_decimal, push_two_digits};
use signal::text::{
    contains, eq_ignore_ascii_case, fold_case, is_whitespace, join_from, line_end, matches_at,
    push_chars, same_text, slice, split_lines, split_whitespace, starts_with, to_chars, to_text,
    trim, word_end,
};

fn chars_of(s: &str) -> Vec<char> {
    s.chars().collect()
}

fn texts_of(parts: Vec<Vec<char>>) -> Vec<String> {
    parts.into_iter().map(|p| p.into_iter().collect()).collect()
}

const SAMPLES: [&str; 16] = [
    "",
    " ",
    "a",
    " a",
    "a ",
    "  a b  ",
    "\t\n a\u{a0}b\u{3000}\r\n",
    "\u{85}x\u{1680}y\u{2000}\u{200a}z\u{2028}\u{2029}\u{202f}\u{205f}",
    "\u{200b}zero\u{200b}width\u{180e}",
    "one\ntwo\r\nthree\rfour\n\nfive\n",
    "\n\n",
    "\r\n\r\n",
    "a\r",
    "a\r\r\n\rb",
    "no line feed at the end",
    "✅ **100%** - 名前 (Idle)\n",
];

#[test]
fn white_space_is_that_of_unicode() {
    let mut found = 0;
    for code in 0..=0x10ffffu32 {
        if let Some(c) = char::from_u32(code) {
            assert_eq!(is_whitespace(c), c.is_whitespace(), "{:x}", code);
            if is_whitespace(c) {
                found += 1;
            }
        }
    }
    assert_eq!(found, 25);
}

#[test]
fn case_is_folded_for_ascii_letters_only() {
    for code in 0..=0x10ffffu32 {
        if let Some(c) = char::from_u32(code) {
            assert_eq!(fold_case(c), c.to_ascii_lowercase() as u32, "{:x}", code);
        }
    }
    assert_eq!(fold_case('A'), 'a' as u32);
    assert_eq!(fold_case('Z'), 'z' as u32);
    assert_eq!(fold_case('@'), '@' as u32);
    assert_eq!(fold_case('['), '[' as u32);
    assert_eq!(fold_case('É'), 'É' as u32);
}

#[test]
fn strings_and_characters_convert_both_ways() {
    for s in SAMPLES {
        assert_eq!(to_chars(s), chars_of(s));
        assert_eq!(to_text(&chars_of(s)), s);
        let mut out = String::from("<");
        push_chars(&mut out, &chars_of(s));
        assert_eq!(out, format!("<{}", s));
    }
}

#[test]
fn trim_agrees_with_the_standard_library() {
    for s in SAMPLES {
        assert_eq!(to_text(&trim(&chars_of(s))), s.trim(), "{:?}", s);
    }
    assert_eq!(to_text(&trim(&chars_of("  a b  "))), "a b");
}

#[test]
fn words_agree_with_the_standard_library() {
    for s in SAMPLES {
        let expected: Vec<String> = s.split_whitespace().map(|w| w.to_string()).collect();
        assert_eq!(texts_of(split_whitespace(&chars_of(s))), expected, "{:?}", s);
    }
    assert_eq!(texts_of(split_whitespace(&chars_of("  a  bc d "))), vec!["a", "bc", "d"]);
}

#[test]
fn lines_agree_with_the_standard_library() {
    for s in SAMPLES {
        let expected: Vec<String> = s.lines().map(|l| l.to_string()).collect();
        assert_eq!(texts_of(split_lines(&chars_of(s))), expected, "{:?}", s);
    }
    assert_eq!(texts_of(split_lines(&chars_of("a\r\nb\n\nc"))), vec!["a", "b", "", "c"]);
    assert_eq!(texts_of(split_lines(&chars_of("a\r"))), vec!["a\r"]);
}

#[test]
fn ends_of_words_and_lines_are_found() {
    let v = chars_of("ab cd\nef");
    assert_eq!(word_end(&v, 0), 2);
    assert_eq!(word_end(&v, 2), 2);
    assert_eq!(word_end(&v, 3), 5);
    assert_eq!(word_end(&v, 6), 8);
    assert_eq!(word_end(&v, 8), 8);
    assert_eq!(line_end(&v, 0), 5);
    assert_eq!(line_end(&v, 5), 5);
    assert_eq!(line_end(&v, 6), 8);
    assert_eq!(slice(&v, 3, 5), chars_of("cd"));
    assert_eq!(slice(&v, 8, 8), chars_of(""));
}

#[test]
fn join_puts_the_separator_between() {
    let parts = vec![chars_of("a"), chars_of(""), chars_of("bc"), chars_of("d")];
    assert_eq!(to_text(&join_from(&parts, 0, ' ')), "a  bc d");
    assert_eq!(to_text(&join_from(&parts, 2, ' ')), "bc d");
    assert_eq!(to_text(&join_from(&parts, 3, '-')), "d");
    assert_eq!(to_text(&join_from(&parts, 4, ' ')), "");
    assert_eq!(to_text(&join_from(&parts, 1, ',')), ",bc,d");
}

#[test]
fn prefixes_and_parts_agree_with_the_standard_library() {
    let patterns = ["", "a", " ", "a b", "\n", "\r\n", "success", "\u{200b}", "five\n", "名前"];
    for s in SAMPLES {
        for p in patterns {
            assert_eq!(starts_with(&chars_of(s), &chars_of(p)), s.starts_with(p), "{:?} {:?}", s, p);
            assert_eq!(contains(&chars_of(s), &chars_of(p)), s.contains(p), "{:?} {:?}", s, p);
            assert_eq!(same_text(s, p), s == p);
            assert_eq!(eq_ignore_ascii_case(&chars_of(s), &chars_of(p)), s.eq_ignore_ascii_case(p));
        }
        assert!(same_text(s, s));
        assert!(eq_ignore_ascii_case(&chars_of(&s.to_uppercase()), &chars_of(&s.to_uppercase().to_ascii_lowercase())));
    }
    assert!(matches_at(&chars_of("abcabc"), &chars_of("bc"), 1));
    assert!(matches_at(&chars_of("abcabc"), &chars_of("bc"), 4));
    assert!(!matches_at(&chars_of("abcabc"), &chars_of("bc"), 3));
    assert!(contains(&chars_of("it was a success."), &chars_of("success")));
    assert!(!contains(&chars_of("it was a succes."), &chars_of("success")));
}

#[test]
fn numbers_are_written_in_decimal() {
    for n in [0u64, 1, 9, 10, 11, 99, 100, 101, 12345, u32::MAX as u64, u64::MAX] {
        let mut out = chars_of("=");
        push_decimal(&mut out, n);
        assert_eq!(to_text(&out), format!("={}", n));
    }
    for n in 0..100u64 {
        let mut out = Vec::new();
        push_two_digits(&mut out, n);
        assert_eq!(to_text(&out), format!("{:02}", n));
    }
    for d in 0..10u8 {
        assert_eq!(digit(d), char::from_digit(d as u32, 10).unwrap());
    }
}

#[test]
fn numbers_are_read_up_to_the_limit() {
    assert_eq!(parse_unsigned(&chars_of("255"), 255), Some(255));
    assert_eq!(parse_unsigned(&chars_of("256"), 255), None);
    assert_eq!(parse_unsigned(&chars_of("0255"), 255), Some(255));
    assert_eq!(parse_unsigned(&chars_of("+0"), 0), Some(0));
    assert_eq!(parse_unsigned(&chars_of("1"), 0), None);
    assert_eq!(parse_unsigned(&chars_of(""), 255), None);
    assert_eq!(parse_unsigned(&chars_of("+"), 255), None);
    assert_eq!(parse_unsigned(&chars_of("18446744073709551615"), u64::MAX), Some(u64::MAX));
    assert_eq!(parse_unsigned(&chars_of("18446744073709551616"), u64::MAX), None);
    assert_eq!(parse_unsigned(&chars_of("99999999999999999999999999"), u64::MAX), None);
    for text in ["12", "+12", "012", "1 2", "12a", "-12", "١٢"] {
        assert_eq!(parse_unsigned(&chars_of(text), 255), text.parse::<u8>().ok().map(|n| n as u64));
    }
}
