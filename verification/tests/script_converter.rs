use zho_text_normalizer::normalizers::script_converter::{Direction, ScriptConverter};
use zho_text_normalizer::types::{ChangeType, Script};

fn entries(pairs: &[(&str, &str)]) -> Vec<(String, String)> {
    pairs.iter().map(|(a, b)| (a.to_string(), b.to_string())).collect()
}

fn sample_converter() -> ScriptConverter {
    let t2s = entries(&[
        ("榮", "荣"),
        ("耀", "耀"),
        ("歸", "归"),
        ("於", "于"),
        ("烏", "乌"),
        ("蘭", "兰"),
    ]);
    let s2t = entries(&[("荣", "榮"), ("归", "歸"), ("于", "於"), ("乌", "烏"), ("兰", "蘭")]);
    ScriptConverter::from_entries(&t2s, &s2t)
}

#[test]
fn test_traditional_to_simplified() {
    let converter = sample_converter();
    let (result, changes) = converter.convert(
        "榮耀歸於烏克蘭",
        Script::SimplifiedChinese,
        Script::TraditionalChinese,
    );

    assert!(!changes.is_empty());
    assert_ne!(result, "榮耀歸於烏克蘭");
}

#[test]
fn test_simplified_to_traditional() {
    let converter = sample_converter();
    let (result, changes) = converter.convert(
        "荣耀归于乌克兰",
        Script::TraditionalChinese,
        Script::SimplifiedChinese,
    );

    assert!(!changes.is_empty());
    assert_ne!(result, "荣耀归于乌克兰");
}

#[test]
fn test_no_conversion_needed() {
    let converter = ScriptConverter::new();
    let (result, changes) =
        converter.convert("test", Script::SimplifiedChinese, Script::SimplifiedChinese);

    assert_eq!(result, "test");
    assert!(changes.is_empty());
}

#[test]
fn table_conversion_details() {
    let converter = sample_converter();
    let (result, changes) = converter.convert(
        "榮耀歸於烏克蘭",
        Script::SimplifiedChinese,
        Script::TraditionalChinese,
    );
    assert_eq!(result, "荣耀归于乌克兰");
    assert_eq!(changes.len(), 5);
    let positions: Vec<usize> = changes.iter().map(|c| c.position).collect();
    assert_eq!(positions, vec![0, 2, 3, 4, 6]);
    for change in &changes {
        assert_eq!(change.change_type, ChangeType::ScriptConversion);
    }
    assert_eq!(changes[0].reason, "Traditional 榮 → Simplified 荣 (Unihan)");

    let (result, changes) = converter.convert(
        "荣耀归于乌克兰",
        Script::TraditionalChinese,
        Script::SimplifiedChinese,
    );
    assert_eq!(result, "榮耀歸於烏克蘭");
    assert_eq!(changes.len(), 5);
    assert_eq!(changes[4].reason, "Simplified 兰 → Traditional 蘭 (Unihan)");
}

#[test]
fn built_in_pairs_convert_both_ways() {
    let converter = ScriptConverter::new();
    let (result, changes) = converter.convert(
        "書說這個為國語學員參",
        Script::SimplifiedChinese,
        Script::TraditionalChinese,
    );
    assert_eq!(result, "书说这个为国语学员参");
    assert_eq!(changes.len(), 10);
    let (result, changes) = converter.convert(
        "书说这个为国语学员参",
        Script::TraditionalChinese,
        Script::SimplifiedChinese,
    );
    assert_eq!(result, "書說這個為國語學員參");
    assert_eq!(changes.len(), 10);
}

#[test]
fn built_in_pairs_are_added_only_to_an_empty_table() {
    let t2s = entries(&[("榮", "荣")]);
    let converter = ScriptConverter::from_entries(&t2s, &Vec::new());
    assert_eq!(converter.lookup('榮', Direction::ToSimplified), Some('荣'));
    assert_eq!(converter.lookup('書', Direction::ToSimplified), None);
    assert_eq!(converter.lookup('书', Direction::ToTraditional), None);

    // An empty Traditional-to-Simplified table draws the built-in pairs
    // into both tables, behind what the other table already holds.
    let s2t = entries(&[("书", "畫")]);
    let converter = ScriptConverter::from_entries(&Vec::new(), &s2t);
    assert_eq!(converter.lookup('書', Direction::ToSimplified), Some('书'));
    assert_eq!(converter.lookup('书', Direction::ToTraditional), Some('畫'));
    assert_eq!(converter.lookup('说', Direction::ToTraditional), Some('說'));
}

#[test]
fn conversion_happens_only_between_traditional_and_simplified() {
    let converter = ScriptConverter::new();
    let scripts = [
        Script::Auto,
        Script::SimplifiedChinese,
        Script::TraditionalChinese,
        Script::Japanese,
        Script::Korean,
    ];
    for detected in scripts {
        for target in scripts {
            let direction = ScriptConverter::direction(detected, target);
            let expected = match (detected, target) {
                (Script::TraditionalChinese, Script::SimplifiedChinese) => {
                    Some(Direction::ToSimplified)
                }
                (Script::SimplifiedChinese, Script::TraditionalChinese) => {
                    Some(Direction::ToTraditional)
                }
                _ => None,
            };
            assert_eq!(direction, expected);
            if expected.is_none() {
                let (result, changes) = converter.convert("書书", target, detected);
                assert_eq!(result, "書书");
                assert!(changes.is_empty());
            }
        }
    }
}

#[test]
fn external_answer_takes_precedence_over_the_table() {
    let converter = ScriptConverter::new();
    // Position 0: the service answers with a different character.
    // Position 1: the service answers with the same character, so the
    // table is consulted. Position 2: the service gave no answer.
    // Position 3: beyond the answers. Position 4: nobody converts it.
    let external = vec![Some('畫'), Some('說'), None];
    let (result, changes) = converter.convert_with(
        "書說這個x",
        Script::SimplifiedChinese,
        Script::TraditionalChinese,
        &external,
    );
    assert_eq!(result, "畫说这个x");
    assert_eq!(changes.len(), 4);
    assert_eq!(changes[0].reason, "Traditional 書 → Simplified 畫 (OpenCC)");
    assert_eq!(changes[1].reason, "Traditional 說 → Simplified 说 (Unihan)");
    assert_eq!(changes[2].reason, "Traditional 這 → Simplified 这 (Unihan)");
    assert_eq!(changes[3].position, 3);
}

#[test]
fn single_character_conversion() {
    let converter = ScriptConverter::new();
    let (ch, change) = converter.convert_char('書', 7, Direction::ToSimplified, None);
    assert_eq!(ch, '书');
    let change = change.expect("a change");
    assert_eq!(change.position, 7);
    assert_eq!(change.original_char, '書');
    assert_eq!(change.normalized_char, '书');

    let (ch, change) = converter.convert_char('x', 0, Direction::ToSimplified, Some('y'));
    assert_eq!(ch, 'y');
    assert_eq!(change.expect("a change").reason, "Traditional x → Simplified y (OpenCC)");

    let (ch, change) = converter.convert_char('x', 0, Direction::ToTraditional, Some('x'));
    assert_eq!(ch, 'x');
    assert!(change.is_none());

    let (ch, change) = converter.convert_char('书', 0, Direction::ToTraditional, None);
    assert_eq!(ch, '書');
    assert_eq!(change.expect("a change").reason, "Simplified 书 → Traditional 書 (Unihan)");
}

#[test]
fn first_candidate_wins_and_an_empty_side_keeps_the_character() {
    let t2s = entries(&[("阿", ""), ("乾", "干燥")]);
    let converter = ScriptConverter::from_entries(&t2s, &Vec::new());
    assert_eq!(converter.lookup('阿', Direction::ToSimplified), Some('阿'));
    assert_eq!(converter.lookup('乾', Direction::ToSimplified), Some('干'));
    let (result, changes) =
        converter.convert("阿乾", Script::SimplifiedChinese, Script::TraditionalChinese);
    assert_eq!(result, "阿干");
    assert_eq!(changes.len(), 1);
}

#[test]
fn script_tables_load_from_json() {
    let converter = ScriptConverter::from_json("{\"榮\": \"荣\"}", "{\"荣\": \"榮\"}");
    assert_eq!(converter.lookup('榮', Direction::ToSimplified), Some('荣'));
    assert_eq!(converter.lookup('荣', Direction::ToTraditional), Some('榮'));
    assert_eq!(converter.lookup('書', Direction::ToSimplified), None);

    let fallback = ScriptConverter::from_json("", "not json");
    assert_eq!(fallback.lookup('書', Direction::ToSimplified), Some('书'));
    assert_eq!(fallback.lookup('参', Direction::ToTraditional), Some('參'));
}
