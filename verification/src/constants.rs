//! Shared constants of the normalization and classification rules.

use vstd::prelude::*;

verus! {

/// First code point of the main CJK Unified Ideographs block.
pub const MAIN_CJK_START: u32 = 0x4E00;

/// Last code point of the main CJK Unified Ideographs block.
pub const MAIN_CJK_END: u32 = 0x9FFF;

/// The confidence, in hundredths, from which a semantic variant is applied
/// on the word of a single source.
pub const HIGH_CONFIDENCE: u32 = 90;

/// The least confidence, in hundredths, at which a mapping counts as high
/// confidence and may be applied.
pub const MEDIUM_CONFIDENCE: u32 = 80;

} // verus!
