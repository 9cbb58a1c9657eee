use zho_text_normalizer::utils::unicode_utils::{
    char_to_code_point, code_point_to_char, is_cjk_unified_ideograph, is_compatibility_character,
    is_hangul, is_hiragana, is_kangxi_radical, is_katakana,
};

#[test]
fn test_code_point_conversion() {
    assert_eq!(code_point_to_char("U+4E00"), Some('一'));
    assert_eq!(code_point_to_char("U+9FFF"), Some('鿿'));
    assert_eq!(code_point_to_char("invalid"), None);

    assert_eq!(char_to_code_point('一'), "U+4E00");
    assert_eq!(char_to_code_point('A'), "U+0041");
}

#[test]
fn test_cjk_detection() {
    assert!(is_cjk_unified_ideograph('一'));
    assert!(is_cjk_unified_ideograph('國'));
    assert!(!is_cjk_unified_ideograph('A'));
}

#[test]
fn test_kangxi_detection() {
    assert!(is_kangxi_radical('⽅')); // U+2F45
    assert!(is_kangxi_radical('⾯')); // U+2FAF
    assert!(!is_kangxi_radical('一'));
}

#[test]
fn unicode_utils_test_script_detection() {
    assert!(is_hiragana('あ'));
    assert!(is_katakana('ア'));
    assert!(is_hangul('안'));
    assert!(!is_hiragana('一'));
}

#[test]
fn code_point_notation_edge_cases() {
    assert_eq!(code_point_to_char(""), None);
    assert_eq!(code_point_to_char("U+"), None);
    assert_eq!(code_point_to_char("U"), None);
    assert_eq!(code_point_to_char("u+4E00"), None);
    assert_eq!(code_point_to_char("U+4e00"), Some('一'));
    assert_eq!(code_point_to_char("U++4E00"), Some('一'));
    assert_eq!(code_point_to_char("U+-4E00"), None);
    assert_eq!(code_point_to_char("U+4E00<"), None);
    assert_eq!(code_point_to_char("U+ 4E00"), None);
    assert_eq!(code_point_to_char("U+0000000000004E00"), Some('一'));
    assert_eq!(code_point_to_char("U+10FFFF"), Some('\u{10FFFF}'));
    assert_eq!(code_point_to_char("U+110000"), None);
    assert_eq!(code_point_to_char("U+D800"), None);
    assert_eq!(code_point_to_char("U+DFFF"), None);
    assert_eq!(code_point_to_char("U+E000"), Some('\u{E000}'));
    assert_eq!(code_point_to_char("U+FFFFFFFF"), None);
    assert_eq!(code_point_to_char("U+100000000"), None);
    assert_eq!(code_point_to_char("U+0"), Some('\u{0}'));
}

#[test]
fn code_point_notation_widths() {
    assert_eq!(char_to_code_point('\u{0}'), "U+0000");
    assert_eq!(char_to_code_point('\u{FFFF}'), "U+FFFF");
    assert_eq!(char_to_code_point('\u{10000}'), "U+10000");
    assert_eq!(char_to_code_point('\u{2F800}'), "U+2F800");
    assert_eq!(char_to_code_point('\u{10FFFF}'), "U+10FFFF");
    assert_eq!(char_to_code_point('\u{AB}'), "U+00AB");
}

#[test]
fn code_point_notation_round_trip() {
    for ch in ['\u{0}', 'A', '一', '\u{D7FF}', '\u{E000}', '\u{FFFF}', '\u{10000}', '\u{10FFFF}'] {
        assert_eq!(code_point_to_char(&char_to_code_point(ch)), Some(ch));
    }
}

#[test]
fn block_boundaries() {
    assert!(is_cjk_unified_ideograph('\u{4E00}'));
    assert!(is_cjk_unified_ideograph('\u{9FFF}'));
    assert!(!is_cjk_unified_ideograph('\u{4DFF}'));
    assert!(is_cjk_unified_ideograph('\u{3400}'));
    assert!(is_cjk_unified_ideograph('\u{4DBF}'));
    assert!(!is_cjk_unified_ideograph('\u{33FF}'));
    assert!(is_cjk_unified_ideograph('\u{20000}'));
    assert!(is_cjk_unified_ideograph('\u{2A6DF}'));
    assert!(!is_cjk_unified_ideograph('\u{2A6E0}'));
    assert!(is_cjk_unified_ideograph('\u{3134F}'));
    assert!(!is_cjk_unified_ideograph('\u{31350}'));
    assert!(is_kangxi_radical('\u{2F00}'));
    assert!(is_kangxi_radical('\u{2FDF}'));
    assert!(!is_kangxi_radical('\u{2EFF}'));
    assert!(!is_kangxi_radical('\u{2FE0}'));
    assert!(is_compatibility_character('\u{F900}'));
    assert!(is_compatibility_character('\u{FAFF}'));
    assert!(is_compatibility_character('\u{2F800}'));
    assert!(is_compatibility_character('\u{3300}'));
    assert!(is_compatibility_character('\u{FE30}'));
    assert!(is_compatibility_character('\u{FF00}'));
    assert!(is_compatibility_character('\u{FFEF}'));
    assert!(!is_compatibility_character('\u{FFF0}'));
    assert!(!is_compatibility_character('一'));
    assert!(is_hiragana('\u{3040}'));
    assert!(is_hiragana('\u{309F}'));
    assert!(!is_hiragana('\u{30A0}'));
    assert!(is_katakana('\u{30A0}'));
    assert!(is_katakana('\u{30FF}'));
    assert!(!is_katakana('\u{3100}'));
    assert!(is_hangul('\u{AC00}'));
    assert!(is_hangul('\u{D7AF}'));
    assert!(is_hangul('\u{1100}'));
    assert!(is_hangul('\u{318F}'));
    assert!(!is_hangul('\u{3190}'));
}
