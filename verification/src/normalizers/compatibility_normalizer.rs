//! Compatibility form normalization.

use crate::normalizers::substitution::{apply_table, stage_result, table_decision};
use crate::types::{ChangeSpec, ChangeType, NormalizedText};
use crate::utils::char_map::CharMap;
use crate::utils::json::{load_table, loaded_table};
use vstd::prelude::*;

verus! {

/// Normalizer for compatibility forms.
pub struct CompatibilityNormalizer {
    compatibility_map: CharMap<char>,
}

/// What the compatibility stage decides with the table `table`: a key is
/// replaced by its value, for the reason "Compatibility form K → standard V".
pub open spec fn compatibility_decision(table: Map<char, char>) -> spec_fn(int, char) -> Option<
    ChangeSpec,
> {
    table_decision(
        table,
        ChangeType::CompatibilityForm,
        "Compatibility form "@,
        " → standard "@,
    )
}

impl View for CompatibilityNormalizer {
    type V = Map<char, char>;

    closed spec fn view(&self) -> Map<char, char> {
        self.compatibility_map@
    }
}

impl CompatibilityNormalizer {
    /// Create a new compatibility normalizer with an empty table.
    pub fn new() -> (normalizer: Self)
        ensures
            normalizer@ == Map::<char, char>::empty(),
    {
        CompatibilityNormalizer { compatibility_map: CharMap::new() }
    }

    /// A normalizer that works with the table written in the JSON document
    /// `contents`: an object that maps each character to its standard form.
    /// A document that is no object of strings gives an empty table.
    pub fn from_json(contents: &str) -> (normalizer: Self)
        ensures
            normalizer@ == loaded_table(contents@),
    {
        CompatibilityNormalizer { compatibility_map: load_table(contents) }
    }

    /// A normalizer that works with the given table.
    pub fn with_table(table: CharMap<char>) -> (normalizer: Self)
        ensures
            normalizer@ == table@,
    {
        CompatibilityNormalizer { compatibility_map: table }
    }

    /// Normalize compatibility forms in the given text.
    pub fn normalize(&self, text: &str) -> (result: NormalizedText)
        ensures
            result@ == stage_result(text@, compatibility_decision(self@)),
    {
        apply_table(
            &self.compatibility_map,
            text,
            ChangeType::CompatibilityForm,
            "Compatibility form ",
            " → standard ",
        )
    }
}

impl Default for CompatibilityNormalizer {
    fn default() -> (normalizer: Self)
        ensures
            normalizer@ == Map::<char, char>::empty(),
    {
        CompatibilityNormalizer::new()
    }
}

} // verus!
