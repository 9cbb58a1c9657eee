use zho_text_normalizer::normalizers::variant_normalizer::{
    names_two_distinct_sources, VariantNormalizer,
};
use zho_text_normalizer::types::{ChangeType, VariantMapping, VariantMappings, VariantType};

fn mapping(
    source: char,
    target: char,
    variant_type: VariantType,
    confidence: u32,
    bidirectional: bool,
    source_info: &str,
) -> VariantMapping {
    VariantMapping::new(
        source,
        target,
        variant_type,
        confidence,
        bidirectional,
        source_info.to_string(),
    )
}

fn normalizer_with(mappings: Vec<VariantMapping>) -> VariantNormalizer {
    let mut store = VariantMappings::new();
    for m in mappings {
        store.add_mapping(m);
    }
    VariantNormalizer::with_mappings(store)
}

fn sample_normalizer() -> VariantNormalizer {
    normalizer_with(vec![
        mapping('呌', '叫', VariantType::Semantic, 95, false, "kLau,kMatthews"),
        mapping('敎', '教', VariantType::ZVariant, 90, false, "kZVariant"),
    ])
}

#[test]
fn test_enhanced_variant_normalization() {
    let normalizer = sample_normalizer();

    // Test that the normalizer loads successfully
    let stats = normalizer.get_statistics();
    assert!(stats.total_mappings > 0, "Should load variant mappings");

    // Test semantic variant normalization (呌 → 叫)
    let result = normalizer.normalize("呌");
    if !result.changes.is_empty() {
        assert_eq!(result.normalized, "叫");
        assert!(matches!(
            result.changes[0].change_type,
            ChangeType::SemanticVariant
        ));
    }
}

#[test]
fn test_confidence_based_selection() {
    let normalizer = sample_normalizer();

    // Test that we get the best mapping based on confidence
    if let Some(_mappings) = normalizer.get_all_mappings('呌') {
        let best = normalizer.mappings().get_best_mapping('呌');
        assert!(best.is_some(), "Should find best mapping for 呌");

        if let Some(best_mapping) = best {
            assert!(
                best_mapping.confidence > 50,
                "Should have reasonable confidence"
            );
            assert_eq!(best_mapping.target, '叫', "Should map 呌 to 叫");
        }
    }
}

#[test]
fn test_no_change_for_unmapped_chars() {
    let normalizer = sample_normalizer();
    let result = normalizer.normalize("普通文字");

    assert_eq!(result.normalized, "普通文字");
    assert!(result.changes.is_empty());
}

#[test]
fn empty_store_changes_nothing() {
    let normalizer = VariantNormalizer::new();
    assert_eq!(normalizer.get_statistics().total_mappings, 0);
    assert!(normalizer.get_all_mappings('呌').is_none());
    let result = normalizer.normalize("呌敎");
    assert_eq!(result.normalized, "呌敎");
    assert!(result.changes.is_empty());
}

#[test]
fn low_confidence_is_never_applied_whatever_the_type() {
    for variant_type in [
        VariantType::Semantic,
        VariantType::Spoofing,
        VariantType::ZVariant,
        VariantType::Specialized,
        VariantType::Script,
    ] {
        let low = mapping('a', 'b', variant_type, 79, false, "kOne,kTwo");
        assert!(!VariantNormalizer::should_apply_mapping(&low));
        let normalizer = normalizer_with(vec![mapping('a', 'b', variant_type, 79, false, "kOne,kTwo")]);
        assert!(normalizer.get_all_mappings('a').is_some());
        let result = normalizer.normalize("a");
        assert_eq!(result.normalized, "a");
        assert!(result.changes.is_empty());
    }
}

#[test]
fn semantic_variants_need_two_sources_or_high_confidence() {
    let single = mapping('a', 'b', VariantType::Semantic, 85, false, "kOne");
    assert!(!VariantNormalizer::should_apply_mapping(&single));
    let double = mapping('a', 'b', VariantType::Semantic, 85, false, "kOne,kTwo");
    assert!(VariantNormalizer::should_apply_mapping(&double));
    let unsourced = mapping('a', 'b', VariantType::Semantic, 85, false, "");
    assert!(!VariantNormalizer::should_apply_mapping(&unsourced));
    let certain = mapping('a', 'b', VariantType::Semantic, 90, false, "kOne");
    assert!(VariantNormalizer::should_apply_mapping(&certain));
    let certain_unsourced = mapping('a', 'b', VariantType::Semantic, 90, false, "");
    assert!(VariantNormalizer::should_apply_mapping(&certain_unsourced));
    let threshold = mapping('a', 'b', VariantType::Semantic, 80, false, "kOne,kTwo");
    assert!(VariantNormalizer::should_apply_mapping(&threshold));
    let almost = mapping('a', 'b', VariantType::Semantic, 89, false, "kOne");
    assert!(!VariantNormalizer::should_apply_mapping(&almost));
    let repeated = mapping('a', 'b', VariantType::Semantic, 85, false, "kOne,kOne");
    assert!(!VariantNormalizer::should_apply_mapping(&repeated));
}

#[test]
fn other_types_are_applied_from_medium_confidence() {
    for variant_type in [
        VariantType::Spoofing,
        VariantType::ZVariant,
        VariantType::Specialized,
        VariantType::Script,
    ] {
        let at = mapping('a', 'b', variant_type, 80, false, "");
        assert!(VariantNormalizer::should_apply_mapping(&at));
        let below = mapping('a', 'b', variant_type, 79, false, "kOne,kTwo");
        assert!(!VariantNormalizer::should_apply_mapping(&below));
    }
}

#[test]
fn distinct_sources_are_counted_by_comma() {
    assert!(!names_two_distinct_sources(""));
    assert!(!names_two_distinct_sources("kLau"));
    assert!(names_two_distinct_sources("kLau,kMatthews"));
    assert!(!names_two_distinct_sources("kLau,kLau"));
    assert!(names_two_distinct_sources("kLau,kLau,kMeyerWempe"));
    assert!(names_two_distinct_sources("kLau,"));
    assert!(names_two_distinct_sources(",kLau"));
    assert!(!names_two_distinct_sources(","));
}

#[test]
fn single_source_semantic_variant_is_kept_and_double_source_is_applied() {
    let rejected = normalizer_with(vec![mapping('呌', '叫', VariantType::Semantic, 85, false, "kLau")]);
    let result = rejected.normalize("呌");
    assert_eq!(result.normalized, "呌");
    assert!(result.changes.is_empty());

    let accepted = normalizer_with(vec![mapping(
        '呌',
        '叫',
        VariantType::Semantic,
        85,
        false,
        "kLau,kMatthews",
    )]);
    let result = accepted.normalize("x呌");
    assert_eq!(result.normalized, "x叫");
    assert_eq!(result.changes.len(), 1);
    assert_eq!(result.changes[0].position, 1);
    assert_eq!(result.changes[0].original_char, '呌');
    assert_eq!(result.changes[0].normalized_char, '叫');
    assert_eq!(result.changes[0].change_type, ChangeType::SemanticVariant);
    assert_eq!(
        result.changes[0].reason,
        "Semantic variant 呌 → 叫 (confidence: 0.85, sources: kLau,kMatthews)"
    );
}

#[test]
fn change_classification_follows_the_type() {
    let normalizer = normalizer_with(vec![
        mapping('a', 'A', VariantType::Semantic, 100, false, ""),
        mapping('b', 'B', VariantType::Spoofing, 80, false, "kSpoofingVariant"),
        mapping('c', 'C', VariantType::ZVariant, 90, false, ""),
        mapping('d', 'D', VariantType::Specialized, 95, false, ""),
        mapping('e', 'E', VariantType::Script, 99, false, ""),
    ]);
    let result = normalizer.normalize("abcde");
    assert_eq!(result.normalized, "ABCDE");
    let kinds: Vec<ChangeType> = result.changes.iter().map(|c| c.change_type).collect();
    assert_eq!(
        kinds,
        vec![
            ChangeType::SemanticVariant,
            ChangeType::SpoofingVariant,
            ChangeType::ZVariant,
            ChangeType::SpecializedVariant,
            ChangeType::VariantForm,
        ]
    );
    assert_eq!(result.changes[0].reason, "Semantic variant a → A (confidence: 1.00)");
    assert_eq!(
        result.changes[1].reason,
        "Spoofing variant b → B (confidence: 0.80, sources: kSpoofingVariant)"
    );
    assert_eq!(result.changes[2].reason, "ZVariant variant c → C (confidence: 0.90)");
    assert_eq!(result.changes[3].reason, "Specialized variant d → D (confidence: 0.95)");
    assert_eq!(result.changes[4].reason, "Script variant e → E (confidence: 0.99)");
}

#[test]
fn best_mapping_is_the_first_of_the_highest_confidence() {
    let mut store = VariantMappings::new();
    store.add_mapping(mapping('a', 'x', VariantType::ZVariant, 85, false, ""));
    store.add_mapping(mapping('a', 'y', VariantType::ZVariant, 95, false, ""));
    store.add_mapping(mapping('a', 'z', VariantType::ZVariant, 95, false, ""));
    store.add_mapping(mapping('a', 'w', VariantType::ZVariant, 90, false, ""));
    assert_eq!(store.get_mappings('a').map(|list| list.len()), Some(4));
    assert_eq!(store.get_best_mapping('a').map(|m| m.target), Some('y'));
    assert!(store.get_best_mapping('b').is_none());
    let normalizer = VariantNormalizer::with_mappings(store);
    assert_eq!(normalizer.normalize("a").normalized, "y");
}

#[test]
fn best_mapping_that_is_turned_down_blocks_the_character() {
    // The best entry is a semantic variant that the filter turns down; the
    // lesser entry would pass, yet only the best is considered.
    let normalizer = normalizer_with(vec![
        mapping('a', 'x', VariantType::Semantic, 89, false, "kOne"),
        mapping('a', 'y', VariantType::ZVariant, 85, false, ""),
    ]);
    let result = normalizer.normalize("a");
    assert_eq!(result.normalized, "a");
    assert!(result.changes.is_empty());
}

#[test]
fn bidirectional_mapping_is_found_both_ways_and_counted_once() {
    let mut store = VariantMappings::new();
    store.add_mapping(mapping('a', 'b', VariantType::Spoofing, 90, true, "kSrc"));
    let forward = store.get_mappings('a').expect("forward entry");
    assert_eq!(forward.len(), 1);
    assert_eq!(forward[0].source, 'a');
    assert_eq!(forward[0].target, 'b');
    let backward = store.get_mappings('b').expect("reverse entry");
    assert_eq!(backward.len(), 1);
    assert_eq!(backward[0].source, 'b');
    assert_eq!(backward[0].target, 'a');
    assert_eq!(backward[0].variant_type, VariantType::Spoofing);
    assert_eq!(backward[0].confidence, 90);
    assert!(backward[0].bidirectional);
    assert_eq!(backward[0].source_info, "kSrc");

    let stats = store.statistics();
    assert_eq!(stats.total_mappings, 1);
    assert_eq!(stats.spoofing_mappings, 1);
    assert_eq!(stats.bidirectional_mappings, 1);
    assert_eq!(stats.high_confidence_mappings, 1);
    assert_eq!(stats.semantic_mappings, 0);
    assert_eq!(store.mappings().len(), 1);
    assert_eq!(store.get_by_type(VariantType::Spoofing).len(), 1);
    assert_eq!(store.get_by_type(VariantType::Semantic).len(), 0);
}

#[test]
fn statistics_count_primary_entries() {
    let mut store = VariantMappings::new();
    store.add_mapping(mapping('a', 'b', VariantType::Semantic, 79, false, ""));
    store.add_mapping(mapping('c', 'd', VariantType::Semantic, 80, true, ""));
    store.add_mapping(mapping('e', 'f', VariantType::ZVariant, 100, true, ""));
    store.add_mapping(mapping('g', 'h', VariantType::Specialized, 10, false, ""));
    store.add_mapping(mapping('i', 'j', VariantType::Script, 90, false, ""));
    let stats = store.statistics();
    assert_eq!(stats.total_mappings, 5);
    assert_eq!(stats.semantic_mappings, 2);
    assert_eq!(stats.spoofing_mappings, 0);
    assert_eq!(stats.z_variant_mappings, 1);
    assert_eq!(stats.specialized_mappings, 1);
    assert_eq!(stats.bidirectional_mappings, 2);
    assert_eq!(stats.high_confidence_mappings, 3);
    assert_eq!(store.get_by_type(VariantType::Script).len(), 1);
}

#[test]
fn high_confidence_starts_at_eighty_hundredths() {
    assert!(mapping('a', 'b', VariantType::Semantic, 80, false, "").is_high_confidence());
    assert!(!mapping('a', 'b', VariantType::Semantic, 79, false, "").is_high_confidence());
    assert!(mapping('a', 'b', VariantType::Semantic, 100, false, "").is_high_confidence());
}

#[test]
fn self_mapping_that_is_bidirectional_is_filed_twice() {
    let mut store = VariantMappings::new();
    store.add_mapping(mapping('a', 'a', VariantType::ZVariant, 90, true, ""));
    assert_eq!(store.get_mappings('a').map(|list| list.len()), Some(2));
    assert_eq!(store.statistics().total_mappings, 1);
}
