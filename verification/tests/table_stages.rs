use zho_text_normalizer::normalizers::compatibility_normalizer::CompatibilityNormalizer;
use zho_text_normalizer::normalizers::kangxi_normalizer::KangxiNormalizer;
use zho_text_normalizer::types::{ChangeType, Script};
use zho_text_normalizer::utils::char_map::CharMap;

#[test]
fn test_compatibility_normalization() {
    let normalizer = CompatibilityNormalizer::new();
    let result = normalizer.normalize("凞"); // Test with compatibility character

    // Just verify it runs without crashing and produces output
    assert!(!result.normalized.is_empty());
}

#[test]
fn test_no_compatibility_characters() {
    let normalizer = CompatibilityNormalizer::new();
    let result = normalizer.normalize("普通文字");

    assert_eq!(result.normalized, "普通文字");
    assert!(result.changes.is_empty());
}

#[test]
fn kangxi_normalizer_test_kangxi_normalization() {
    let normalizer = KangxiNormalizer::new();
    let result = normalizer.normalize("⽅⾯問題");

    assert_eq!(result.normalized, "方面問題");
    assert_eq!(result.changes.len(), 2);
    assert_eq!(result.changes[0].change_type, ChangeType::KangxiRadical);
    assert_eq!(result.changes[1].change_type, ChangeType::KangxiRadical);
}

#[test]
fn test_no_kangxi_characters() {
    let normalizer = KangxiNormalizer::new();
    let result = normalizer.normalize("普通文字");

    assert_eq!(result.normalized, "普通文字");
    assert!(result.changes.is_empty());
}

#[test]
fn test_mixed_kangxi_and_normal() {
    let normalizer = KangxiNormalizer::new();
    let result = normalizer.normalize("⽅面⽅面");

    assert_eq!(result.normalized, "方面方面");
    assert_eq!(result.changes.len(), 2);
}

#[test]
fn kangxi_change_details() {
    let normalizer = KangxiNormalizer::new();
    let result = normalizer.normalize("a⽅b⾯");
    assert_eq!(result.original, "a⽅b⾯");
    assert_eq!(result.normalized, "a方b面");
    assert_eq!(result.detected_script, Script::Auto);
    assert_eq!(result.processing_time_ms, 0);
    assert_eq!(result.changes.len(), 2);
    assert_eq!(result.changes[0].position, 1);
    assert_eq!(result.changes[0].original_char, '⽅');
    assert_eq!(result.changes[0].normalized_char, '方');
    assert_eq!(result.changes[0].reason, "Kangxi radical ⽅ → standard character 方");
    assert_eq!(result.changes[1].position, 3);
    assert_eq!(result.changes[1].original_char, '⾯');
    assert_eq!(result.changes[1].normalized_char, '面');
    assert_eq!(result.changes[1].reason, "Kangxi radical ⾯ → standard character 面");
}

#[test]
fn kangxi_table_covers_all_radicals() {
    let normalizer = KangxiNormalizer::new();
    let first = normalizer.normalize("\u{2F00}");
    assert_eq!(first.normalized, "一");
    let last = normalizer.normalize("\u{2FD5}");
    assert_eq!(last.normalized, "龠");
    // U+2FD6 to U+2FDF are in the block but are no radicals
    let beyond = normalizer.normalize("\u{2FD6}");
    assert_eq!(beyond.normalized, "\u{2FD6}");
    assert!(beyond.changes.is_empty());
}

#[test]
fn kangxi_stage_is_idempotent() {
    let normalizer = KangxiNormalizer::new();
    for text in ["", "⽅⾯問題", "⽅面⽅面", "普通文字", "abc\u{2F00}\u{2FD5}"] {
        let once = normalizer.normalize(text);
        let twice = normalizer.normalize(&once.normalized);
        assert_eq!(twice.normalized, once.normalized);
        assert!(twice.changes.is_empty());
    }
}

#[test]
fn compatibility_table_is_applied() {
    let mut table = CharMap::new();
    table.insert('凞', '熙');
    table.insert('ａ', 'a');
    let normalizer = CompatibilityNormalizer::with_table(table);
    let result = normalizer.normalize("凞ａ凞x");
    assert_eq!(result.normalized, "熙a熙x");
    assert_eq!(result.changes.len(), 3);
    assert_eq!(result.changes[0].change_type, ChangeType::CompatibilityForm);
    assert_eq!(result.changes[0].position, 0);
    assert_eq!(result.changes[0].reason, "Compatibility form 凞 → standard 熙");
    assert_eq!(result.changes[1].position, 1);
    assert_eq!(result.changes[2].position, 2);
    let again = normalizer.normalize(&result.normalized);
    assert_eq!(again.normalized, "熙a熙x");
    assert!(again.changes.is_empty());
}

#[test]
fn table_stage_reports_a_key_mapped_to_itself() {
    let mut table = CharMap::new();
    table.insert('x', 'x');
    let normalizer = KangxiNormalizer::with_table(table);
    let result = normalizer.normalize("xy");
    assert_eq!(result.normalized, "xy");
    assert_eq!(result.changes.len(), 1);
    assert_eq!(result.changes[0].original_char, 'x');
    assert_eq!(result.changes[0].normalized_char, 'x');
}

#[test]
fn tables_load_from_json() {
    let normalizer = KangxiNormalizer::from_json("{ \"⽅\": \"方\",\n \"⾯\" : \"面\", \"\": \"x\", \"y\": \"\" }");
    let result = normalizer.normalize("⽅⾯y");
    assert_eq!(result.normalized, "方面y");
    assert_eq!(result.changes.len(), 2);

    let compat = CompatibilityNormalizer::from_json("{\"凞\":\"熙\"}");
    assert_eq!(compat.normalize("凞").normalized, "熙");
}

#[test]
fn malformed_table_document_gives_an_empty_table() {
    for contents in ["", "not json", "[1, 2]", "{\"a\": 1}", "{\"a\": \"b\""] {
        let normalizer = KangxiNormalizer::from_json(contents);
        let result = normalizer.normalize("a⽅");
        assert_eq!(result.normalized, "a⽅");
        assert!(result.changes.is_empty());
    }
}

#[test]
fn char_map_keeps_insertion_order() {
    let mut map = CharMap::new();
    assert_eq!(map.len(), 0);
    map.insert('b', 1u32);
    map.insert('a', 2u32);
    map.insert('b', 3u32);
    assert_eq!(map.len(), 2);
    assert_eq!(map.get('b'), Some(3));
    assert_eq!(map.get('a'), Some(2));
    assert_eq!(map.get('c'), None);
    assert!(map.contains_key('a'));
    assert!(!map.contains_key('c'));
    assert_eq!(map.keys(), &vec!['b', 'a']);
}
