//! Kangxi radical normalization.

use crate::normalizers::substitution::{
    apply_table, lemma_table_stage_idempotent, lemma_table_stage_settles, stage_result,
    table_decision,
};
use crate::types::{ChangeSpec, ChangeType, NormalizedText};
use crate::utils::char_map::CharMap;
use crate::utils::json::{load_table, loaded_table};
use crate::utils::data_processor::{
    kangxi_table, lemma_kangxi_table_is_settled, UnihanDataProcessor,
};
use crate::utils::pair_set::PairSet;
use vstd::prelude::*;

verus! {

/// Normalizer for Kangxi radicals.
pub struct KangxiNormalizer {
    kangxi_map: CharMap<char>,
}

/// What the Kangxi stage decides with the table `table`: a key is replaced
/// by its value, for the reason "Kangxi radical K → standard character V".
pub open spec fn kangxi_decision(table: Map<char, char>) -> spec_fn(int, char) -> Option<
    ChangeSpec,
> {
    table_decision(
        table,
        ChangeType::KangxiRadical,
        "Kangxi radical "@,
        " → standard character "@,
    )
}

/// The Kangxi stage with the table of the radicals is idempotent: no
/// standard form is a radical, so a second run changes nothing and reports
/// nothing.
pub proof fn lemma_kangxi_stage_is_idempotent(excluded: Set<(char, char)>, text: Seq<char>)
    ensures
        ({
            let decide = kangxi_decision(kangxi_table(excluded));
            let once = stage_result(text, decide);
            stage_result(once.normalized, decide).normalized == once.normalized && stage_result(
                once.normalized,
                decide,
            ).changes == Seq::<ChangeSpec>::empty()
        }),
{
    lemma_kangxi_table_is_settled(excluded);
    lemma_table_stage_idempotent(
        kangxi_table(excluded),
        ChangeType::KangxiRadical,
        "Kangxi radical "@,
        " → standard character "@,
        text,
    );
    lemma_table_stage_settles(
        kangxi_table(excluded),
        ChangeType::KangxiRadical,
        "Kangxi radical "@,
        " → standard character "@,
        text,
    );
}

impl View for KangxiNormalizer {
    type V = Map<char, char>;

    closed spec fn view(&self) -> Map<char, char> {
        self.kangxi_map@
    }
}

impl KangxiNormalizer {
    /// Create a new Kangxi normalizer with the full table of the 214
    /// radicals.
    pub fn new() -> (normalizer: Self)
        ensures
            normalizer@ == kangxi_table(Set::empty()),
    {
        let excluded = PairSet::new();
        KangxiNormalizer {
            kangxi_map: UnihanDataProcessor::process_kangxi_radicals_clean(&excluded),
        }
    }

    /// A normalizer that works with the table written in the JSON document
    /// `contents`: an object that maps each character to its standard form.
    /// A document that is no object of strings gives an empty table.
    pub fn from_json(contents: &str) -> (normalizer: Self)
        ensures
            normalizer@ == loaded_table(contents@),
    {
        KangxiNormalizer { kangxi_map: load_table(contents) }
    }

    /// A normalizer that works with the given table.
    pub fn with_table(table: CharMap<char>) -> (normalizer: Self)
        ensures
            normalizer@ == table@,
    {
        KangxiNormalizer { kangxi_map: table }
    }

    /// Normalize Kangxi radicals in the given text.
    pub fn normalize(&self, text: &str) -> (result: NormalizedText)
        ensures
            result@ == stage_result(text@, kangxi_decision(self@)),
    {
        apply_table(
            &self.kangxi_map,
            text,
            ChangeType::KangxiRadical,
            "Kangxi radical ",
            " → standard character ",
        )
    }
}

impl Default for KangxiNormalizer {
    fn default() -> (normalizer: Self)
        ensures
            normalizer@ == kangxi_table(Set::empty()),
    {
        KangxiNormalizer::new()
    }
}

} // verus!
