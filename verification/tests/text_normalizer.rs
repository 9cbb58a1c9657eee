use zho_text_normalizer::normalizers::compatibility_normalizer::CompatibilityNormalizer;
use zho_text_normalizer::normalizers::kangxi_normalizer::KangxiNormalizer;
use zho_text_normalizer::normalizers::script_converter::ScriptConverter;
use zho_text_normalizer::normalizers::script_detector::ScriptDetector;
use zho_text_normalizer::normalizers::text_normalizer::TextNormalizer;
use zho_text_normalizer::normalizers::variant_normalizer::VariantNormalizer;
use zho_text_normalizer::types::{
    ChangeType, NormalizedText, Script, VariantMapping, VariantMappings, VariantType,
};
use zho_text_normalizer::utils::char_map::CharMap;
use zho_text_normalizer::utils::clock::reduce_millis;
use zho_text_normalizer::{normalize, normalize_to_script};

fn normalizer_with_variants(mappings: Vec<VariantMapping>) -> TextNormalizer {
    let mut store = VariantMappings::new();
    for m in mappings {
        store.add_mapping(m);
    }
    TextNormalizer::with_stages(
        ScriptDetector::new(),
        ScriptConverter::new(),
        KangxiNormalizer::new(),
        VariantNormalizer::with_mappings(store),
        CompatibilityNormalizer::new(),
    )
}

fn kinds(result: &NormalizedText) -> Vec<ChangeType> {
    result.changes.iter().map(|c| c.change_type).collect()
}

#[test]
fn lib_test_basic_normalization() {
    let result = normalize("⽅⾯問題");
    assert_eq!(result.normalized, "方面問題");
    assert!(!result.changes.is_empty());
}

#[test]
fn lib_test_variant_normalization() {
    let normalizer = normalizer_with_variants(vec![VariantMapping::new(
        '育',
        '毓',
        VariantType::Semantic,
        95,
        false,
        "kSemanticVariant".to_string(),
    )]);
    let result = normalizer.normalize("硏究敎育", None);
    assert_eq!(result.normalized, "硏究敎毓");
    assert!(!result.changes.is_empty());
}

#[test]
fn test_script_conversion() {
    let result = normalize_to_script("這個藥", Script::SimplifiedChinese);
    assert_ne!(result.normalized, "這個藥");
    assert!(!result.changes.is_empty());
}

#[test]
fn text_normalizer_test_basic_normalization() {
    let normalizer = TextNormalizer::new();
    let result = normalizer.normalize("⽅⾯問題", None);

    assert_eq!(result.normalized, "方面問題");
    assert!(!result.changes.is_empty());
    assert!(result.processing_time_ms < 100); // Should be very fast
}

#[test]
fn text_normalizer_test_variant_normalization() {
    let normalizer = normalizer_with_variants(vec![VariantMapping::new(
        '敎',
        '教',
        VariantType::ZVariant,
        95,
        false,
        "kZVariant".to_string(),
    )]);
    let result = normalizer.normalize("硏究敎育", None);

    assert_eq!(result.normalized, "硏究教育");
    assert!(!result.changes.is_empty());
}

#[test]
fn text_normalizer_test_script_detection() {
    let normalizer = TextNormalizer::new();

    let chinese_result = normalizer.normalize("这是中文", None);
    assert!(matches!(
        chinese_result.detected_script,
        Script::SimplifiedChinese
    ));

    let japanese_result = normalizer.normalize("これは日本語です", None);
    assert!(matches!(japanese_result.detected_script, Script::Japanese));
}

#[test]
fn text_normalizer_test_kangxi_normalization() {
    let normalizer = TextNormalizer::new();
    let result = normalizer.normalize("⽅⾯問題", None);

    // Should normalize Kangxi radicals
    assert_eq!(result.normalized, "方面問題");
    assert!(!result.changes.is_empty());
}

#[test]
fn scenario_two_kangxi_radicals_without_target() {
    let normalizer = TextNormalizer::new();
    let result = normalizer.normalize("⽅⾯", None);
    assert_eq!(result.original, "⽅⾯");
    assert_eq!(result.normalized, "方面");
    assert_eq!(kinds(&result), vec![ChangeType::KangxiRadical, ChangeType::KangxiRadical]);
}

#[test]
fn scenario_traditional_text_to_simplified() {
    let normalizer = TextNormalizer::new();
    let result = normalizer.normalize("這個國語", Some(Script::SimplifiedChinese));
    assert_eq!(result.detected_script, Script::TraditionalChinese);
    assert_eq!(result.normalized, "这个国语");
    assert_eq!(kinds(&result), vec![ChangeType::ScriptConversion; 4]);
    let positions: Vec<usize> = result.changes.iter().map(|c| c.position).collect();
    assert_eq!(positions, vec![0, 1, 2, 3]);
}

#[test]
fn scenario_high_confidence_semantic_variant() {
    let normalizer = normalizer_with_variants(vec![VariantMapping::new(
        '呌',
        '叫',
        VariantType::Semantic,
        90,
        false,
        "kLau".to_string(),
    )]);
    let result = normalizer.normalize("呌", None);
    assert_eq!(result.normalized, "叫");
    assert_eq!(kinds(&result), vec![ChangeType::SemanticVariant]);
    assert_eq!(result.changes[0].normalized_char, '叫');
}

#[test]
fn scenario_semantic_variant_with_one_source_at_medium_confidence() {
    let normalizer = normalizer_with_variants(vec![VariantMapping::new(
        '呌',
        '叫',
        VariantType::Semantic,
        85,
        false,
        "kLau".to_string(),
    )]);
    let result = normalizer.normalize("呌", None);
    assert_eq!(result.normalized, "呌");
    assert!(result.changes.is_empty());
}

#[test]
fn scenario_validate_never_converts_the_script() {
    let normalizer = TextNormalizer::new();
    let result = normalizer.validate("⽅這");
    assert_eq!(result.detected_script, Script::TraditionalChinese);
    assert_eq!(result.normalized, "方這");
    assert_eq!(kinds(&result), vec![ChangeType::KangxiRadical]);
    // The same text is converted by normalization towards Simplified
    let converted = normalizer.normalize("⽅這", Some(Script::SimplifiedChinese));
    assert_eq!(converted.normalized, "方这");
    assert_eq!(
        kinds(&converted),
        vec![ChangeType::KangxiRadical, ChangeType::ScriptConversion]
    );
}

#[test]
fn unmapped_text_comes_back_unchanged() {
    let normalizer = TextNormalizer::new();
    for text in ["", "hello", "普通文字", "中文 text 123"] {
        let result = normalizer.normalize(text, None);
        assert_eq!(result.original, text);
        assert_eq!(result.normalized, text);
        assert!(result.changes.is_empty());
        let validated = normalizer.validate(text);
        assert_eq!(validated.normalized, text);
        assert!(validated.changes.is_empty());
    }
}

#[test]
fn target_equal_to_detected_script_converts_nothing() {
    let normalizer = TextNormalizer::new();
    let result = normalizer.normalize("這個", Some(Script::TraditionalChinese));
    assert_eq!(result.normalized, "這個");
    assert!(result.changes.is_empty());
    let result = normalizer.normalize("这个", Some(Script::SimplifiedChinese));
    assert_eq!(result.normalized, "这个");
    assert!(result.changes.is_empty());
    // Targets other than the two Chinese scripts convert nothing either
    let result = normalizer.normalize("這個", Some(Script::Japanese));
    assert_eq!(result.normalized, "這個");
    let result = normalizer.normalize("這個", Some(Script::Auto));
    assert_eq!(result.normalized, "這個");
}

#[test]
fn stages_run_in_order_and_number_positions_per_stage() {
    let mut compat = CharMap::new();
    compat.insert('ａ', 'a');
    let mut store = VariantMappings::new();
    store.add_mapping(VariantMapping::new(
        '方',
        '芳',
        VariantType::ZVariant,
        90,
        false,
        String::new(),
    ));
    let normalizer = TextNormalizer::with_stages(
        ScriptDetector::new(),
        ScriptConverter::new(),
        KangxiNormalizer::new(),
        VariantNormalizer::with_mappings(store),
        CompatibilityNormalizer::with_table(compat),
    );
    // NFC composes e + accent at positions 0 and 1, so the radical moves
    // from position 2 of the input to position 1 of the Kangxi stage.
    let result = normalizer.normalize("e\u{0301}⽅ａ這", Some(Script::SimplifiedChinese));
    assert_eq!(result.detected_script, Script::TraditionalChinese);
    assert_eq!(result.normalized, "é芳a这");
    assert_eq!(
        kinds(&result),
        vec![
            ChangeType::UnicodeNormalization,
            ChangeType::UnicodeNormalization,
            ChangeType::UnicodeNormalization,
            ChangeType::UnicodeNormalization,
            ChangeType::KangxiRadical,
            ChangeType::VariantForm,
            ChangeType::CompatibilityForm,
            ChangeType::ScriptConversion,
        ]
        .into_iter()
        .enumerate()
        .map(|(i, kind)| if i == 5 { ChangeType::ZVariant } else { kind })
        .collect::<Vec<ChangeType>>()
    );
    assert_eq!(result.changes[4].position, 1);
    assert_eq!(result.changes[5].position, 1);
    assert_eq!(result.changes[6].position, 2);
    assert_eq!(result.changes[7].position, 3);
}

#[test]
fn script_conversion_with_external_answers() {
    let normalizer = TextNormalizer::new();
    let staged = normalizer.validate("⽅這藥");
    assert_eq!(staged.normalized, "方這藥");
    let external = vec![None, Some('這'), Some('药')];
    let result = normalizer.convert_script(staged, Some(Script::SimplifiedChinese), &external);
    assert_eq!(result.original, "⽅這藥");
    assert_eq!(result.normalized, "方这药");
    assert_eq!(
        kinds(&result),
        vec![
            ChangeType::KangxiRadical,
            ChangeType::ScriptConversion,
            ChangeType::ScriptConversion
        ]
    );
    assert_eq!(result.changes[1].reason, "Traditional 這 → Simplified 这 (Unihan)");
    assert_eq!(result.changes[2].reason, "Traditional 藥 → Simplified 药 (OpenCC)");

    let staged = normalizer.validate("這");
    let kept = normalizer.convert_script(staged, None, &external);
    assert_eq!(kept.normalized, "這");
    assert!(kept.changes.is_empty());
}

#[test]
fn milliseconds_are_reduced_to_64_bits() {
    assert_eq!(reduce_millis(0), 0);
    assert_eq!(reduce_millis(1234), 1234);
    assert_eq!(reduce_millis(u64::MAX as u128), u64::MAX);
    assert_eq!(reduce_millis(u64::MAX as u128 + 1), 0);
    assert_eq!(reduce_millis(u128::MAX), u64::MAX);
}
