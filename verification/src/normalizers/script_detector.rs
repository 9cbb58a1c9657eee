//! Script detection for CJK text.

use crate::types::Script;
use crate::utils::char_map::CharMap;
use crate::utils::text::to_chars;
use crate::utils::unicode_utils::{
    is_main_block, is_main_block_ideograph, spec_is_hiragana, spec_is_katakana,
};
use vstd::prelude::*;

verus! {

/// Script detector that identifies the script of input text.
pub struct ScriptDetector {
    simplified_indicators: CharMap<u32>,
    traditional_indicators: CharMap<u32>,
}

/// Whether `ch` is a Hiragana or a Katakana.
pub open spec fn is_kana(ch: char) -> bool {
    spec_is_hiragana(ch) || spec_is_katakana(ch)
}

/// Whether `ch` lies in the Hangul Syllables block.
pub open spec fn is_hangul_syllable(ch: char) -> bool {
    0xAC00 <= ch as u32 <= 0xD7AF
}

/// What `ch` adds to the score of the script whose indicators are
/// `indicators`: its weight if it is an ideograph of the main block listed
/// there, and nothing otherwise.
pub open spec fn indicator_weight(indicators: Map<char, u32>, ch: char) -> nat {
    if is_main_block_ideograph(ch) && indicators.contains_key(ch) {
        indicators[ch] as nat
    } else {
        0
    }
}

/// The score of `text` for the script whose indicators are `indicators`:
/// the sum of the weights of its characters.
pub open spec fn script_score(indicators: Map<char, u32>, text: Seq<char>) -> nat
    decreases text.len(),
{
    if text.len() == 0 {
        0
    } else {
        script_score(indicators, text.drop_last()) + indicator_weight(indicators, text.last())
    }
}

/// Whether `text` holds a Hiragana or a Katakana.
pub open spec fn has_kana(text: Seq<char>) -> bool {
    exists|i: int| 0 <= i < text.len() && is_kana(#[trigger] text[i])
}

/// Whether `text` holds a Hangul syllable.
pub open spec fn has_hangul_syllable(text: Seq<char>) -> bool {
    exists|i: int| 0 <= i < text.len() && is_hangul_syllable(#[trigger] text[i])
}

/// The script of `text`: Japanese if it holds any kana; else Korean if it
/// holds any Hangul syllable; else Traditional Chinese if its Traditional
/// score is strictly the greater; else Simplified Chinese.
pub open spec fn detected_script(
    simplified: Map<char, u32>,
    traditional: Map<char, u32>,
    text: Seq<char>,
) -> Script {
    if has_kana(text) {
        Script::Japanese
    } else if has_hangul_syllable(text) {
        Script::Korean
    } else if script_score(traditional, text) > script_score(simplified, text) {
        Script::TraditionalChinese
    } else {
        Script::SimplifiedChinese
    }
}

/// The weights of the characters that indicate Simplified Chinese.
pub open spec fn simplified_indicators() -> Map<char, u32> {
    Map::<char, u32>::empty().insert('国', 3).insert('学', 3).insert('为', 3).insert('这', 3).insert(
        '个',
        3,
    ).insert('说', 3).insert('话', 3).insert('发', 2).insert('现', 2).insert('实', 2).insert(
        '时',
        2,
    ).insert('间', 2).insert('进', 2).insert('出', 2).insert('东', 1).insert('西', 1).insert(
        '南',
        1,
    ).insert('北', 1).insert('车', 1).insert('马', 1).insert('鸟', 1)
}

/// The weights of the characters that indicate Traditional Chinese.
pub open spec fn traditional_indicators() -> Map<char, u32> {
    Map::<char, u32>::empty().insert('國', 3).insert('學', 3).insert('為', 3).insert('這', 3).insert(
        '個',
        3,
    ).insert('說', 3).insert('話', 3).insert('發', 2).insert('現', 2).insert('實', 2).insert(
        '時',
        2,
    ).insert('間', 2).insert('進', 2).insert('出', 2).insert('東', 1).insert('西', 1).insert(
        '南',
        1,
    ).insert('北', 1).insert('車', 1).insert('馬', 1).insert('鳥', 1).insert('榮', 2).insert(
        '歸',
        2,
    ).insert('於', 2).insert('烏', 1).insert('蘭', 1).insert('語', 2).insert('現', 2).insert(
        '書',
        2,
    ).insert('說', 2).insert('規', 1).insert('論', 2).insert('著', 2).insert('輔', 1).insert(
        '員',
        1,
    ).insert('參', 1).insert('例', 1)
}

/// A text without kana, without Hangul syllables and without any
/// character listed as a Traditional indicator is detected as Simplified
/// Chinese, whatever the Simplified indicators are.
pub proof fn lemma_unmatched_text_is_simplified(
    simplified: Map<char, u32>,
    traditional: Map<char, u32>,
    text: Seq<char>,
)
    requires
        !has_kana(text),
        !has_hangul_syllable(text),
        forall|i: int| 0 <= i < text.len() ==> !traditional.contains_key(#[trigger] text[i]),
    ensures
        script_score(traditional, text) == 0,
        detected_script(simplified, traditional, text) == Script::SimplifiedChinese,
    decreases text.len(),
{
    if text.len() > 0 {
        let rest = text.drop_last();
        assert forall|i: int| 0 <= i < rest.len() implies !traditional.contains_key(
            #[trigger] rest[i],
        ) by {
            assert(rest[i] == text[i]);
        }
        assert(!has_kana(rest)) by {
            if has_kana(rest) {
                let i = choose|i: int| 0 <= i < rest.len() && is_kana(#[trigger] rest[i]);
                assert(is_kana(text[i]));
            }
        }
        assert(!has_hangul_syllable(rest)) by {
            if has_hangul_syllable(rest) {
                let i = choose|i: int| 0 <= i < rest.len() && is_hangul_syllable(#[trigger] rest[i]);
                assert(is_hangul_syllable(text[i]));
            }
        }
        lemma_unmatched_text_is_simplified(simplified, traditional, rest);
        assert(!traditional.contains_key(text[text.len() - 1]));
    }
}

/// The score of a text is at most the greatest weight times its length.
proof fn lemma_score_bound(indicators: Map<char, u32>, text: Seq<char>)
    ensures
        script_score(indicators, text) <= text.len() * 0xFFFF_FFFF,
    decreases text.len(),
{
    if text.len() > 0 {
        lemma_score_bound(indicators, text.drop_last());
        assert(text.len() * 0xFFFF_FFFF == text.drop_last().len() * 0xFFFF_FFFF + 0xFFFF_FFFF)
            by (nonlinear_arith)
            requires
                text.drop_last().len() == text.len() - 1,
        ;
    }
}

impl ScriptDetector {
    /// The weights of the Simplified indicators of this detector.
    pub closed spec fn simplified(&self) -> Map<char, u32> {
        self.simplified_indicators@
    }

    /// The weights of the Traditional indicators of this detector.
    pub closed spec fn traditional(&self) -> Map<char, u32> {
        self.traditional_indicators@
    }

    /// Create a new script detector.
    pub fn new() -> (detector: Self)
        ensures
            detector.simplified() == simplified_indicators(),
            detector.traditional() == traditional_indicators(),
    {
        ScriptDetector {
            simplified_indicators: Self::build_simplified_indicators(),
            traditional_indicators: Self::build_traditional_indicators(),
        }
    }

    /// Detect the script of the given text.
    pub fn detect(&self, text: &str) -> (script: Script)
        ensures
            script == detected_script(self.simplified(), self.traditional(), text@),
    {
        let chars = to_chars(text);
        let mut simplified_score: u128 = 0;
        let mut traditional_score: u128 = 0;
        let mut japanese = false;
        let mut korean = false;
        let mut pos: usize = 0;
        while pos < chars.len()
            invariant
                pos <= chars.len(),
                chars@ == text@,
                simplified_score == script_score(self.simplified(), text@.take(pos as int)),
                traditional_score == script_score(self.traditional(), text@.take(pos as int)),
                japanese == has_kana(text@.take(pos as int)),
                korean == has_hangul_syllable(text@.take(pos as int)),
            decreases chars.len() - pos,
        {
            let ch = chars[pos];
            let cp: u32 = ch as u32;
            let ghost before = text@.take(pos as int);
            let ghost after = text@.take(pos + 1);
            proof {
                assert(after.drop_last() =~= before);
                assert(after.last() == ch);
                lemma_score_bound(self.simplified(), after);
                lemma_score_bound(self.traditional(), after);
                assert(after.len() * 0xFFFF_FFFF <= 0xFFFF_FFFF_FFFF_FFFF * 0xFFFF_FFFF)
                    by (nonlinear_arith)
                    requires
                        after.len() <= 0xFFFF_FFFF_FFFF_FFFF,
                ;
                assert(has_kana(after) == (has_kana(before) || is_kana(ch))) by {
                    if has_kana(before) {
                        let i = choose|i: int| 0 <= i < before.len() && is_kana(#[trigger] before[i]);
                        assert(is_kana(after[i]));
                    }
                    if is_kana(ch) {
                        assert(is_kana(after[pos as int]));
                    }
                    if has_kana(after) {
                        let i = choose|i: int| 0 <= i < after.len() && is_kana(#[trigger] after[i]);
                        if i < pos {
                            assert(is_kana(before[i]));
                        }
                    }
                }
                assert(has_hangul_syllable(after) == (has_hangul_syllable(before)
                    || is_hangul_syllable(ch))) by {
                    if has_hangul_syllable(before) {
                        let i = choose|i: int|
                            0 <= i < before.len() && is_hangul_syllable(#[trigger] before[i]);
                        assert(is_hangul_syllable(after[i]));
                    }
                    if is_hangul_syllable(ch) {
                        assert(is_hangul_syllable(after[pos as int]));
                    }
                    if has_hangul_syllable(after) {
                        let i = choose|i: int|
                            0 <= i < after.len() && is_hangul_syllable(#[trigger] after[i]);
                        if i < pos {
                            assert(is_hangul_syllable(before[i]));
                        }
                    }
                }
            }
            if (0x3040 <= cp && cp <= 0x309F) || (0x30A0 <= cp && cp <= 0x30FF) {
                japanese = true;
            } else if 0xAC00 <= cp && cp <= 0xD7AF {
                korean = true;
            } else if is_main_block(ch) {
                match self.simplified_indicators.get(ch) {
                    Some(weight) => {
                        simplified_score = simplified_score + weight as u128;
                    },
                    None => {},
                }
                match self.traditional_indicators.get(ch) {
                    Some(weight) => {
                        traditional_score = traditional_score + weight as u128;
                    },
                    None => {},
                }
            }
            pos += 1;
        }
        assert(text@.take(pos as int) =~= text@);
        if japanese {
            Script::Japanese
        } else if korean {
            Script::Korean
        } else if traditional_score > simplified_score {
            Script::TraditionalChinese
        } else {
            Script::SimplifiedChinese
        }
    }

    /// Build simplified Chinese indicator characters with weights.
    pub fn build_simplified_indicators() -> (indicators: CharMap<u32>)
        ensures
            indicators@ == simplified_indicators(),
    {
        let mut map: CharMap<u32> = CharMap::new();
        // High-frequency simplified characters (weight 3)
        map.insert('国', 3);
        map.insert('学', 3);
        map.insert('为', 3);
        map.insert('这', 3);
        map.insert('个', 3);
        map.insert('说', 3);
        map.insert('话', 3);
        // Medium-frequency simplified characters (weight 2)
        map.insert('发', 2);
        map.insert('现', 2);
        map.insert('实', 2);
        map.insert('时', 2);
        map.insert('间', 2);
        map.insert('进', 2);
        map.insert('出', 2);
        // Lower-frequency simplified characters (weight 1)
        map.insert('东', 1);
        map.insert('西', 1);
        map.insert('南', 1);
        map.insert('北', 1);
        map.insert('车', 1);
        map.insert('马', 1);
        map.insert('鸟', 1);
        map
    }

    /// Build traditional Chinese indicator characters with weights.
    pub fn build_traditional_indicators() -> (indicators: CharMap<u32>)
        ensures
            indicators@ == traditional_indicators(),
    {
        let mut map: CharMap<u32> = CharMap::new();
        // High-frequency traditional characters (weight 3)
        map.insert('國', 3);
        map.insert('學', 3);
        map.insert('為', 3);
        map.insert('這', 3);
        map.insert('個', 3);
        map.insert('說', 3);
        map.insert('話', 3);
        // Medium-frequency traditional characters (weight 2)
        map.insert('發', 2);
        map.insert('現', 2);
        map.insert('實', 2);
        map.insert('時', 2);
        map.insert('間', 2);
        map.insert('進', 2);
        map.insert('出', 2);
        // Lower-frequency traditional characters (weight 1)
        map.insert('東', 1);
        map.insert('西', 1);
        map.insert('南', 1);
        map.insert('北', 1);
        map.insert('車', 1);
        map.insert('馬', 1);
        map.insert('鳥', 1);
        // Further characters of Traditional orthography
        map.insert('榮', 2);
        map.insert('歸', 2);
        map.insert('於', 2);
        map.insert('烏', 1);
        map.insert('蘭', 1);
        map.insert('語', 2);
        map.insert('現', 2);
        map.insert('書', 2);
        map.insert('說', 2);
        map.insert('規', 1);
        map.insert('論', 2);
        map.insert('著', 2);
        map.insert('輔', 1);
        map.insert('員', 1);
        map.insert('參', 1);
        map.insert('例', 1);
        map
    }
}

impl Default for ScriptDetector {
    fn default() -> (detector: Self)
        ensures
            detector.simplified() == simplified_indicators(),
            detector.traditional() == traditional_indicators(),
    {
        ScriptDetector::new()
    }
}

} // verus!
