use score_messages::text::{
    chars_of, is_white_space, join, read_i64, read_u64, same_chars, split_words, to_ascii_lower,
    trim, trimmed_ascii_lower,
};

const SAMPLES: [&str; 9] = [
    "",
    " ",
    "word",
    "  two words\t",
    "\u{a0}no-break\u{3000}space\u{2003}",
    "a\u{200b}b",
    "\r\nline\n\nline\r\n",
    "x y  z   ",
    "\u{85}\u{2028}\u{2029}\u{202f}\u{205f}\u{1680}",
];

#[test]
fn white_space_is_that_of_unicode() {
    for n in 0u32..=0x10FFFF {
        if let Some(c) = char::from_u32(n) {
            assert_eq!(is_white_space(c), c.is_whitespace(), "U+{:04X}", n);
        }
    }
}

#[test]
fn ascii_lower_case_is_that_of_char() {
    for n in 0u32..=0x10FFFF {
        if let Some(c) = char::from_u32(n) {
            assert_eq!(to_ascii_lower(c), c.to_ascii_lowercase(), "U+{:04X}", n);
        }
    }
}

#[test]
fn trimming_is_that_of_str() {
    for s in SAMPLES {
        assert_eq!(trim(s), s.trim());
        assert_eq!(trim(trim(s)), trim(s));
    }
}

#[test]
fn words_are_those_of_str() {
    for s in SAMPLES {
        let expected: Vec<String> = s.split_whitespace().map(String::from).collect();
        assert_eq!(split_words(&chars_of(s)), expected);
        assert_eq!(split_words(&chars_of(trim(s))), expected);
    }
}

#[test]
fn trimmed_lower_case_and_comparison() {
    let word = trimmed_ascii_lower("  TrUe\u{c9} ");
    assert_eq!(word, vec!['t', 'r', 'u', 'e', '\u{c9}']);
    assert!(same_chars(&word, "true\u{c9}"));
    assert!(!same_chars(&word, "true"));
    assert!(!same_chars(&word, "trve\u{c9}"));
}

#[test]
fn joining_puts_commas_between() {
    let parts = vec![String::from("a"), String::from("bc"), String::from("d")];
    assert_eq!(join(&parts), "a,bc,d");
    assert_eq!(join(&vec![String::from("alone")]), "alone");
    assert_eq!(join(&Vec::new()), "");
}

#[test]
fn numbers_are_read_as_str_reads_them() {
    for s in [
        "", "+", "-", "0", "-0", "+0", "7", "-7", "+7", "007", "-007", "1_0", "1 0", " 1", "1 ",
        "--1", "+-1", "1.5", "1e3", "0x1", "\u{661}", "9223372036854775807",
        "9223372036854775808", "-9223372036854775808", "-9223372036854775809",
        "18446744073709551615", "18446744073709551616", "18446744073709551619",
        "18446744073709551620", "184467440737095516150", "-18446744073709551616",
        "000000000000000000000000000000018446744073709551615", "99999999999999999999999999x",
    ] {
        assert_eq!(read_i64(s), s.parse::<i64>().ok(), "{:?}", s);
        assert_eq!(read_u64(s), s.parse::<u64>().ok(), "{:?}", s);
    }
}

#[test]
fn lower_case_does_not_depend_on_ascii_case() {
    // Sigma is the one letter whose lower case depends on what stands around it.
    for n in 0x80u32..=0x10FFFF {
        if let Some(c) = char::from_u32(n) {
            for (before, after) in [
                ("A", "B"),
                ("", "Z"),
                ("A", ""),
                ("A", "\u{3a3}"),
                ("A\u{3a3}", "B"),
                ("A'", "-\u{3a3}X"),
            ] {
                let s = format!("{}{}{}", before, c, after);
                assert_eq!(s.to_ascii_lowercase().to_lowercase(), s.to_lowercase());
            }
        }
    }
}
