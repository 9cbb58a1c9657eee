//! Unicode normalization.

use crate::normalizers::substitution::{emitted, reason_text, record_change};
use crate::types::{
    changes_view, ChangeSpec, ChangeType, NormalizedText, NormalizedTextSpec, Script, TextChange,
    UnicodeNormalization,
};
use crate::utils::text::to_chars;
use vstd::prelude::*;

verus! {

/// Normalizer for Unicode normalization forms.
pub struct UnicodeNormalizer;

/// `text` in Unicode Normalization Form C.
pub uninterp spec fn nfc_form(text: Seq<char>) -> Seq<char>;

/// `text` in Unicode Normalization Form D.
pub uninterp spec fn nfd_form(text: Seq<char>) -> Seq<char>;

/// `text` in Unicode Normalization Form KC.
pub uninterp spec fn nfkc_form(text: Seq<char>) -> Seq<char>;

/// `text` in Unicode Normalization Form KD.
pub uninterp spec fn nfkd_form(text: Seq<char>) -> Seq<char>;

/// Collects what `unicode_normalization::UnicodeNormalization::nfc` yields
/// for `text`: the text in Normalization Form C (canonical decomposition
/// followed by canonical composition).
#[verifier::external_body]
fn nfc(text: &str) -> (normalized: String)
    ensures
        normalized@ == nfc_form(text@),
{
    unicode_normalization::UnicodeNormalization::nfc(text).collect::<String>()
}

/// Collects what `unicode_normalization::UnicodeNormalization::nfd` yields
/// for `text`: the text in Normalization Form D (canonical decomposition).
#[verifier::external_body]
fn nfd(text: &str) -> (normalized: String)
    ensures
        normalized@ == nfd_form(text@),
{
    unicode_normalization::UnicodeNormalization::nfd(text).collect::<String>()
}

/// Collects what `unicode_normalization::UnicodeNormalization::nfkc` yields
/// for `text`: the text in Normalization Form KC (compatibility
/// decomposition followed by canonical composition).
#[verifier::external_body]
fn nfkc(text: &str) -> (normalized: String)
    ensures
        normalized@ == nfkc_form(text@),
{
    unicode_normalization::UnicodeNormalization::nfkc(text).collect::<String>()
}

/// Collects what `unicode_normalization::UnicodeNormalization::nfkd` yields
/// for `text`: the text in Normalization Form KD (compatibility
/// decomposition).
#[verifier::external_body]
fn nfkd(text: &str) -> (normalized: String)
    ensures
        normalized@ == nfkd_form(text@),
{
    unicode_normalization::UnicodeNormalization::nfkd(text).collect::<String>()
}

/// `text` in the given normalization form.
pub open spec fn normal_form(text: Seq<char>, form: UnicodeNormalization) -> Seq<char> {
    match form {
        UnicodeNormalization::NFC => nfc_form(text),
        UnicodeNormalization::NFD => nfd_form(text),
        UnicodeNormalization::NFKC => nfkc_form(text),
        UnicodeNormalization::NFKD => nfkd_form(text),
        UnicodeNormalization::Identity => text,
    }
}

/// What is reported when a text is compared with its normal form
/// `normalized`, position by position: a change wherever both hold a
/// character and the two differ.
pub open spec fn difference_decision(normalized: Seq<char>) -> spec_fn(int, char) -> Option<
    ChangeSpec,
> {
    |i: int, c: char|
        if 0 <= i < normalized.len() && normalized[i] != c {
            Some(
                ChangeSpec {
                    position: i,
                    original_char: c,
                    normalized_char: normalized[i],
                    change_type: ChangeType::UnicodeNormalization,
                    reason: "Unicode normalization "@ + seq![c] + " → "@ + seq![normalized[i]],
                },
            )
        } else {
            None
        }
}

/// The result of the Unicode stage for `text` whose normal form is
/// `normalized`.
pub open spec fn difference_result(text: Seq<char>, normalized: Seq<char>) -> NormalizedTextSpec {
    NormalizedTextSpec {
        original: text,
        normalized,
        changes: emitted(text, difference_decision(normalized), text.len() as int),
        detected_script: Script::Auto,
        processing_time_ms: 0,
    }
}

/// A text that equals its normal form gives no change.
pub proof fn lemma_normal_text_is_kept(text: Seq<char>)
    ensures
        difference_result(text, text).changes == Seq::<ChangeSpec>::empty(),
{
    crate::normalizers::substitution::lemma_undecided_text_is_kept(
        text,
        difference_decision(text),
    );
}

impl UnicodeNormalizer {
    /// Create a new Unicode normalizer.
    pub fn new() -> (normalizer: Self) {
        UnicodeNormalizer
    }

    /// Normalize text using the specified Unicode normalization form.
    pub fn normalize(&self, text: &str, form: UnicodeNormalization) -> (result: NormalizedText)
        ensures
            result@ == difference_result(text@, normal_form(text@, form)),
    {
        let normalized = match form {
            UnicodeNormalization::NFC => nfc(text),
            UnicodeNormalization::NFD => nfd(text),
            UnicodeNormalization::NFKC => nfkc(text),
            UnicodeNormalization::NFKD => nfkd(text),
            UnicodeNormalization::Identity => text.to_owned(),
        };
        Self::compare(text, normalized)
    }

    /// Reports how `text` differs from its normal form `normalized`,
    /// position by position.
    pub fn compare(text: &str, normalized: String) -> (result: NormalizedText)
        ensures
            result@ == difference_result(text@, normalized@),
    {
        let ghost decide = difference_decision(normalized@);
        let original_chars = to_chars(text);
        let normalized_chars = to_chars(normalized.as_str());
        let mut changes: Vec<TextChange> = Vec::new();
        let mut i: usize = 0;
        while i < original_chars.len()
            invariant
                i <= original_chars.len(),
                original_chars@ == text@,
                normalized_chars@ == normalized@,
                decide == difference_decision(normalized@),
                changes_view(changes@) == emitted(text@, decide, i as int),
            decreases original_chars.len() - i,
        {
            if i < normalized_chars.len() {
                let orig = original_chars[i];
                let norm = normalized_chars[i];
                if orig != norm {
                    let change = TextChange {
                        position: i,
                        original_char: orig,
                        normalized_char: norm,
                        change_type: ChangeType::UnicodeNormalization,
                        reason: reason_text("Unicode normalization ", orig, " → ", norm),
                    };
                    record_change(&mut changes, change);
                }
            }
            i += 1;
        }
        NormalizedText {
            original: text.to_owned(),
            normalized,
            changes,
            detected_script: Script::Auto,
            processing_time_ms: 0,
        }
    }
}

impl Default for UnicodeNormalizer {
    fn default() -> (normalizer: Self) {
        UnicodeNormalizer::new()
    }
}

} // verus!
