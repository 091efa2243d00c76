//! String work, held against the standard library.
use firnflow::text::{
    begins_with, chars_of, contains, cut_before, dec_text, dec_text_i64, hex_text, last_word,
    lines, lower, parse_unsigned, same, split, trim,
};

const SAMPLES: [&str; 10] = [
    "",
    " ",
    "a",
    "\u{a0} a\tb \u{2003}",
    "x,,y, z,",
    "one\ntwo\r\n\nthree",
    "tail\r\n",
    "caf\u{e9} \u{4e2d}",
    "no-space",
    "a b  c",
];

#[test]
fn strings_are_cut_like_the_standard_library_cuts_them() {
    for s in SAMPLES {
        assert_eq!(trim(s), s.trim(), "{s:?}");
        assert_eq!(split(s, ','), s.split(',').map(String::from).collect::<Vec<_>>(), "{s:?}");
        assert_eq!(lines(s), s.lines().map(String::from).collect::<Vec<_>>(), "{s:?}");
        assert_eq!(
            last_word(s),
            s.rsplit_once(char::is_whitespace).map(|p| p.1.to_string()),
            "{s:?}"
        );
        assert_eq!(cut_before(s, ','), s.split(',').next().unwrap(), "{s:?}");
        for t in SAMPLES {
            assert_eq!(same(s, t), s == t, "{s:?} {t:?}");
            assert_eq!(begins_with(s, t), s.starts_with(t), "{s:?} {t:?}");
            assert_eq!(contains(&chars_of(s), t), s.contains(t), "{s:?} {t:?}");
        }
    }
    assert_eq!(lower("AWS_Secret-9"), "aws_secret-9");
}

#[test]
fn white_space_is_trimmed_and_nothing_else() {
    for c in '\0'..=char::MAX {
        let blank = matches!(
            c,
            '\u{9}'..='\u{d}' | ' ' | '\u{85}' | '\u{a0}' | '\u{1680}' | '\u{2000}'..='\u{200a}'
                | '\u{2028}' | '\u{2029}' | '\u{202f}' | '\u{205f}' | '\u{3000}'
        );
        let mut one = String::new();
        one.push(c);
        assert_eq!(trim(&one).is_empty(), blank, "{c:?}");
    }
}

#[test]
fn numbers_are_written_and_read_like_the_standard_library_does() {
    for n in [0u64, 7, 10, 99, 1_000_000, u64::MAX] {
        assert_eq!(dec_text(n), n.to_string());
        assert_eq!(hex_text(n, 16), format!("{n:016x}"));
    }
    for n in [0i64, -1, 42, i64::MIN, i64::MAX] {
        assert_eq!(dec_text_i64(n), n.to_string());
    }
    for s in ["", "+", "-1", "+5", "007", "18446744073709551615", "18446744073709551616", "1a", " 1"] {
        assert_eq!(parse_unsigned(s, u64::MAX), s.parse::<u64>().ok(), "{s:?}");
        assert_eq!(parse_unsigned(s, u32::MAX as u64), s.parse::<u32>().ok().map(u64::from), "{s:?}");
    }
}
