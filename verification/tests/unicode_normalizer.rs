use zho_text_normalizer::normalizers::unicode_normalizer::UnicodeNormalizer;
use zho_text_normalizer::types::{ChangeType, UnicodeNormalization};

#[test]
fn test_nfc_normalization() {
    let normalizer = UnicodeNormalizer::new();
    let result = normalizer.normalize("e\u{0301}", UnicodeNormalization::NFC);

    assert_eq!(result.normalized, "é");
    assert!(!result.changes.is_empty());
}

#[test]
fn test_nfd_normalization() {
    let normalizer = UnicodeNormalizer::new();
    let result = normalizer.normalize("é", UnicodeNormalization::NFD);

    assert_eq!(result.normalized, "e\u{0301}");
    assert!(!result.changes.is_empty());
}

#[test]
fn test_no_normalization() {
    let normalizer = UnicodeNormalizer::new();
    let result = normalizer.normalize("test", UnicodeNormalization::Identity);

    assert_eq!(result.normalized, "test");
    assert!(result.changes.is_empty());
}

#[test]
fn nfkc_and_nfkd_fold_compatibility_characters() {
    let normalizer = UnicodeNormalizer::new();
    let result = normalizer.normalize("ｱ\u{FB01}", UnicodeNormalization::NFKC);
    assert_eq!(result.normalized, "アfi");
    let result = normalizer.normalize("ｶﾞ", UnicodeNormalization::NFKC);
    assert_eq!(result.normalized, "ガ");
    let result = normalizer.normalize("ｶﾞ", UnicodeNormalization::NFKD);
    assert_eq!(result.normalized, "カ\u{3099}");
    let result = normalizer.normalize("é", UnicodeNormalization::NFKD);
    assert_eq!(result.normalized, "e\u{0301}");
}

#[test]
fn unicode_changes_compare_position_by_position() {
    let normalizer = UnicodeNormalizer::new();
    // "e" + accent + "x" composes to "é" + "x": position 0 differs (e/é),
    // position 1 differs (accent/x), position 2 has no counterpart.
    let result = normalizer.normalize("e\u{0301}x", UnicodeNormalization::NFC);
    assert_eq!(result.normalized, "éx");
    assert_eq!(result.changes.len(), 2);
    assert_eq!(result.changes[0].position, 0);
    assert_eq!(result.changes[0].original_char, 'e');
    assert_eq!(result.changes[0].normalized_char, 'é');
    assert_eq!(result.changes[0].change_type, ChangeType::UnicodeNormalization);
    assert_eq!(result.changes[0].reason, "Unicode normalization e → é");
    assert_eq!(result.changes[1].position, 1);
    assert_eq!(result.changes[1].original_char, '\u{0301}');
    assert_eq!(result.changes[1].normalized_char, 'x');

    // A longer normal form: only the positions of the input are compared
    let result = normalizer.normalize("éa", UnicodeNormalization::NFD);
    assert_eq!(result.normalized, "e\u{0301}a");
    assert_eq!(result.changes.len(), 2);
    assert_eq!(result.changes[1].original_char, 'a');
    assert_eq!(result.changes[1].normalized_char, '\u{0301}');
}

#[test]
fn compare_reports_differences_of_given_texts() {
    let result = UnicodeNormalizer::compare("abc", String::from("axc"));
    assert_eq!(result.original, "abc");
    assert_eq!(result.normalized, "axc");
    assert_eq!(result.changes.len(), 1);
    assert_eq!(result.changes[0].position, 1);
    let result = UnicodeNormalizer::compare("abc", String::from("abc"));
    assert!(result.changes.is_empty());
    let result = UnicodeNormalizer::compare("abc", String::new());
    assert!(result.changes.is_empty());
}
