//! Canonicalisation of Chinese text: Unicode composition, Kangxi radicals,
//! character variants, compatibility forms and Traditional/Simplified
//! script conversion, with a log of every substitution made.

pub mod constants;
pub mod normalizers;
pub mod options;
pub mod types;
pub mod utils;

pub use normalizers::text_normalizer::TextNormalizer;
pub use types::{NormalizedText, Script};

use normalizers::text_normalizer::{builtin_tables, normalized};
use vstd::prelude::*;

verus! {

/// Normalize text with the built-in tables and no target script.
pub fn normalize(text: &str) -> (result: NormalizedText)
    ensures
        result@ == normalized(
            builtin_tables(),
            text@,
            None,
            Seq::empty(),
            result.processing_time_ms,
        ),
{
    let normalizer = TextNormalizer::new();
    normalizer.normalize(text, None)
}

/// Normalize text with the built-in tables towards a target script.
pub fn normalize_to_script(text: &str, target_script: Script) -> (result: NormalizedText)
    ensures
        result@ == normalized(
            builtin_tables(),
            text@,
            Some(target_script),
            Seq::empty(),
            result.processing_time_ms,
        ),
{
    let normalizer = TextNormalizer::new();
    normalizer.normalize(text, Some(target_script))
}

} // verus!
