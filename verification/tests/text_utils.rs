use zho_text_normalizer::utils::text::{
    from_chars, is_whitespace_char, same_chars, split, split_words, stands_at, to_chars,
    trimmed_length,
};
use zho_text_normalizer::utils::unicode_utils::{code_point_to_char, parse_code_point};

fn chars(text: &str) -> Vec<char> {
    text.chars().collect()
}

fn pieces(texts: &[&str]) -> Vec<Vec<char>> {
    texts.iter().map(|text| chars(text)).collect()
}

#[test]
fn strings_and_characters_convert_both_ways() {
    for text in ["", "a", "方面問題", "e\u{0301}", "\u{10FFFF}\u{0}"] {
        assert_eq!(to_chars(text), chars(text));
        assert_eq!(from_chars(&chars(text)), text);
    }
}

#[test]
fn white_space_is_the_unicode_property() {
    for code in 0..=0x10FFFFu32 {
        if let Some(ch) = char::from_u32(code) {
            assert_eq!(is_whitespace_char(ch), ch.is_whitespace(), "U+{:04X}", code);
        }
    }
}

#[test]
fn splitting_keeps_empty_pieces() {
    assert_eq!(split(&chars(""), ','), pieces(&[""]));
    assert_eq!(split(&chars("a"), ','), pieces(&["a"]));
    assert_eq!(split(&chars("a,b"), ','), pieces(&["a", "b"]));
    assert_eq!(split(&chars(",a,,b,"), ','), pieces(&["", "a", "", "b", ""]));
    assert_eq!(split(&chars(","), ','), pieces(&["", ""]));
    for text in ["", "a\tb", "\t\t", "x\ty\tz\t", "no tab"] {
        let expected: Vec<Vec<char>> = text.split('\t').map(|piece| chars(piece)).collect();
        assert_eq!(split(&chars(text), '\t'), expected);
    }
}

#[test]
fn words_are_runs_without_white_space() {
    for text in ["", "   ", "a", " a ", "a b", "\ta\u{3000}b  c\n", "U+53EB<kLau U+FA0C"] {
        let expected: Vec<Vec<char>> = text.split_whitespace().map(|word| chars(word)).collect();
        assert_eq!(split_words(&chars(text)), expected);
    }
}

#[test]
fn trimmed_length_leaves_out_white_space_at_the_ends() {
    for text in ["", " ", "a", " a", "a ", "  a b  ", "\tAGTJHKMP\r", "\u{3000}", "a\u{A0}"] {
        assert_eq!(trimmed_length(&chars(text)), text.trim().chars().count());
    }
}

#[test]
fn patterns_are_found_where_they_stand() {
    let text = chars("U+4E00\tkIICore\tAGT");
    assert!(stands_at(&text, &chars("U+4E00"), 0));
    assert!(!stands_at(&text, &chars("U+4E01"), 0));
    assert!(stands_at(&text, &chars("kIICore"), 7));
    assert!(!stands_at(&text, &chars("kIICore"), 8));
    assert!(stands_at(&text, &chars("AGT"), 15));
    assert!(!stands_at(&text, &chars("AGT"), 16));
    assert!(!stands_at(&text, &chars("AGT"), usize::MAX));
    assert!(stands_at(&text, &chars(""), 18));
    assert!(!stands_at(&text, &chars(""), 19));
    assert!(!stands_at(&chars("ab"), &chars("abc"), 0));
}

#[test]
fn same_characters() {
    assert!(same_chars(&chars(""), &chars("")));
    assert!(same_chars(&chars("kLau"), &chars("kLau")));
    assert!(!same_chars(&chars("kLau"), &chars("kLaU")));
    assert!(!same_chars(&chars("kLau"), &chars("kLa")));
}

#[test]
fn hexadecimal_numbers_are_read_as_the_standard_library_reads_them() {
    let samples = [
        "", "0", "+", "-", "+0", "-0", "4E00", "4e00", "+4E00", "++4E00", "4E 00", " 4E00", "4E00 ",
        "G", "0x4E00", "FFFFFFFF", "100000000", "0000000000000000FFFFFFFF", "10FFFF", "110000",
        "D7FF", "D800", "DFFF", "E000", "_1", "1_0", "４Ｅ００", "٤",
    ];
    for digits in samples {
        let text = format!("U+{}", digits);
        let expected = u32::from_str_radix(digits, 16).ok().and_then(char::from_u32);
        assert_eq!(code_point_to_char(&text), expected, "{:?}", text);
        assert_eq!(parse_code_point(&chars(&text)), expected, "{:?}", text);
    }
}
