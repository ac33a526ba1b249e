use hellcall_stratagems::text::{
    chars_of, contains, eq_ignore_ascii_case, is_white_space, join, normalize_whitespace,
    same_text, split_words, starts_with, string_of, to_lowercase, to_uppercase,
};

const SAMPLES: [&str; 12] = [
    "",
    " ",
    "a",
    " a ",
    "a b",
    "\t a \n b\u{a0}c\u{3000}",
    "Mission  Stratagems",
    "\u{e9}\u{c9}\u{131}K\u{212a}",
    "\u{2191}x\u{2193}",
    "\u{200b}a\u{180e}b",
    "./././a",
    "[@`{AZaz",
];

#[test]
fn white_space_is_that_of_unicode() {
    for code in 0..=0x10ffffu32 {
        if let Some(c) = char::from_u32(code) {
            assert_eq!(is_white_space(c), c.is_whitespace(), "{:?}", c);
        }
    }
}

#[test]
fn words_are_those_of_std() {
    for sample in SAMPLES {
        let expected = sample.split_whitespace().map(String::from).collect::<Vec<_>>();
        assert_eq!(split_words(sample), expected);
        assert_eq!(normalize_whitespace(sample), expected.join(" "));
    }
    assert_eq!(normalize_whitespace("  Orbital \n Strikes\t"), "Orbital Strikes");
}

#[test]
fn normalizing_twice_changes_nothing() {
    for sample in SAMPLES {
        let once = normalize_whitespace(sample);
        assert_eq!(normalize_whitespace(&once), once);
    }
}

#[test]
fn joining() {
    let parts = |texts: &[&str]| texts.iter().map(|text| text.to_string()).collect::<Vec<_>>();
    assert_eq!(join(&parts(&[]), ","), "");
    assert_eq!(join(&parts(&["a"]), ","), "a");
    assert_eq!(join(&parts(&["a", "", "b"]), ", "), "a, , b");
}

#[test]
fn letter_case_is_that_of_std() {
    for sample in SAMPLES {
        assert_eq!(to_lowercase(sample), sample.to_ascii_lowercase());
        assert_eq!(to_uppercase(sample), sample.to_ascii_uppercase());
        for other in SAMPLES {
            assert_eq!(eq_ignore_ascii_case(sample, other), sample.eq_ignore_ascii_case(other));
        }
    }
    assert!(eq_ignore_ascii_case("AbC", "aBc"));
    assert!(!eq_ignore_ascii_case("\u{e9}", "\u{c9}"));
}

#[test]
fn searching_is_that_of_std() {
    let patterns = ["", "a", " ", "ab", "./", "Stratagems", "\u{2193}", "\u{e9}", "longer than any of the samples"];
    for sample in SAMPLES {
        for pattern in patterns {
            assert_eq!(contains(sample, pattern), sample.contains(pattern));
            assert_eq!(starts_with(sample, pattern), sample.starts_with(pattern));
            assert_eq!(same_text(sample, pattern), sample == pattern);
        }
    }
    assert!(contains("aab", "ab"));
}

#[test]
fn characters_and_back() {
    for sample in SAMPLES {
        let chars = chars_of(sample);
        assert_eq!(chars, sample.chars().collect::<Vec<_>>());
        assert_eq!(string_of(&chars), sample);
    }
}
