use zho_text_normalizer::normalizers::script_detector::ScriptDetector;
use zho_text_normalizer::types::Script;

#[test]
fn test_simplified_chinese_detection() {
    let detector = ScriptDetector::new();

    let result = detector.detect("这是中文");
    assert!(matches!(result, Script::SimplifiedChinese));

    let result = detector.detect("学习中文");
    assert!(matches!(result, Script::SimplifiedChinese));
}

#[test]
fn test_traditional_chinese_detection() {
    let detector = ScriptDetector::new();

    let result = detector.detect("這是中文");
    assert!(matches!(result, Script::TraditionalChinese));

    let result = detector.detect("學習中文");
    assert!(matches!(result, Script::TraditionalChinese));
}

#[test]
fn test_japanese_detection() {
    let detector = ScriptDetector::new();

    let result = detector.detect("これは日本語です");
    assert!(matches!(result, Script::Japanese));

    let result = detector.detect("カタカナ");
    assert!(matches!(result, Script::Japanese));
}

#[test]
fn test_korean_detection() {
    let detector = ScriptDetector::new();

    let result = detector.detect("안녕하세요");
    assert!(matches!(result, Script::Korean));

    let result = detector.detect("한국어");
    assert!(matches!(result, Script::Korean));
}

#[test]
fn test_mixed_script_detection() {
    let detector = ScriptDetector::new();

    // Japanese with some Chinese characters should be detected as Japanese
    let result = detector.detect("これは中国語です");
    assert!(matches!(result, Script::Japanese));

    // Korean with some Chinese characters should be detected as Korean
    let result = detector.detect("한국어와 중국어");
    assert!(matches!(result, Script::Korean));
}

#[test]
fn detection_defaults_to_simplified_without_indicators() {
    let detector = ScriptDetector::new();
    assert_eq!(detector.detect(""), Script::SimplifiedChinese);
    assert_eq!(detector.detect("hello, world"), Script::SimplifiedChinese);
    assert_eq!(detector.detect("中文"), Script::SimplifiedChinese);
    assert_eq!(detector.detect("普通文字"), Script::SimplifiedChinese);
}

#[test]
fn detection_tie_is_simplified() {
    let detector = ScriptDetector::new();
    // 国 (3) against 國 (3): a tie
    assert_eq!(detector.detect("国國"), Script::SimplifiedChinese);
    // Shared indicators count for both sides
    assert_eq!(detector.detect("出西南北"), Script::SimplifiedChinese);
    // 國 (3) against 发 (2): Traditional is strictly greater
    assert_eq!(detector.detect("國发"), Script::TraditionalChinese);
    // 發 (2) against 国 (3)
    assert_eq!(detector.detect("發国"), Script::SimplifiedChinese);
}

#[test]
fn detection_weights_of_traditional_indicators() {
    let detector = ScriptDetector::new();
    // 說 weighs 2 on the Traditional side, 说 weighs 3 on the Simplified
    assert_eq!(detector.detect("說说"), Script::SimplifiedChinese);
    // 說 (2) + 烏 (1) = 3 against 说 (3): a tie
    assert_eq!(detector.detect("說烏说"), Script::SimplifiedChinese);
    // 說 (2) + 烏 (1) + 例 (1) = 4 against 说 (3)
    assert_eq!(detector.detect("說烏例说"), Script::TraditionalChinese);
}

#[test]
fn detection_kana_wins_over_hangul() {
    let detector = ScriptDetector::new();
    assert_eq!(detector.detect("한あ"), Script::Japanese);
    // Hangul Jamo outside the syllable block do not count as Korean
    assert_eq!(detector.detect("\u{1100}"), Script::SimplifiedChinese);
    assert_eq!(detector.detect("\u{1100}國"), Script::TraditionalChinese);
}
