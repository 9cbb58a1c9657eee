//! Main text normalizer that orchestrates all normalization steps.

use crate::normalizers::compatibility_normalizer::{compatibility_decision, CompatibilityNormalizer};
use crate::normalizers::kangxi_normalizer::{kangxi_decision, KangxiNormalizer};
use crate::normalizers::script_converter::{
    conversion_changes, converted_text, lemma_unconverted_text_is_kept, loaded_tables,
    ScriptConverter, ScriptTablesSpec,
};
use crate::normalizers::script_detector::{
    detected_script, simplified_indicators, traditional_indicators, ScriptDetector,
};
use crate::normalizers::substitution::{emitted, lemma_undecided_text_is_kept, rewritten};
use crate::normalizers::unicode_normalizer::{difference_decision, nfc_form, UnicodeNormalizer};
use crate::normalizers::variant_normalizer::{variant_decision, VariantNormalizer};
use crate::types::{
    best_of, changes_view, lookup_of, ChangeSpec, NormalizedText, NormalizedTextSpec, Script,
    TextChange, UnicodeNormalization, VariantMappingSpec,
};
use crate::utils::clock::elapsed_ms;
use crate::utils::data_processor::kangxi_table;
use std::time::Instant;
use vstd::prelude::*;

verus! {

/// Main text normalizer that orchestrates all normalization steps.
pub struct TextNormalizer {
    script_detector: ScriptDetector,
    script_converter: ScriptConverter,
    kangxi_normalizer: KangxiNormalizer,
    variant_normalizer: VariantNormalizer,
    compatibility_normalizer: CompatibilityNormalizer,
    unicode_normalizer: UnicodeNormalizer,
}

/// The tables that a text normalizer works with.
pub ghost struct PipelineSpec {
    pub simplified_indicators: Map<char, u32>,
    pub traditional_indicators: Map<char, u32>,
    pub kangxi: Map<char, char>,
    pub variants: Seq<VariantMappingSpec>,
    pub compatibility: Map<char, char>,
    pub script_tables: ScriptTablesSpec,
}

/// The built-in tables: the indicator characters, the 214 Kangxi
/// radicals, no variants, no compatibility forms, and the built-in script
/// pairs.
pub open spec fn builtin_tables() -> PipelineSpec {
    PipelineSpec {
        simplified_indicators: simplified_indicators(),
        traditional_indicators: traditional_indicators(),
        kangxi: kangxi_table(Set::empty()),
        variants: Seq::empty(),
        compatibility: Map::empty(),
        script_tables: loaded_tables(Seq::empty(), Seq::empty()),
    }
}

/// The text after Unicode composition and the Kangxi stage.
pub open spec fn after_kangxi(tables: PipelineSpec, text: Seq<char>) -> Seq<char> {
    rewritten(nfc_form(text), kangxi_decision(tables.kangxi))
}

/// The text after the variant stage.
pub open spec fn after_variants(tables: PipelineSpec, text: Seq<char>) -> Seq<char> {
    rewritten(after_kangxi(tables, text), variant_decision(tables.variants))
}

/// The text after the compatibility stage.
pub open spec fn after_compatibility(tables: PipelineSpec, text: Seq<char>) -> Seq<char> {
    rewritten(after_variants(tables, text), compatibility_decision(tables.compatibility))
}

/// Every change of a stage, each stage numbering positions over its own
/// input.
pub open spec fn stage_changes(
    input: Seq<char>,
    decide: spec_fn(int, char) -> Option<ChangeSpec>,
) -> Seq<ChangeSpec> {
    emitted(input, decide, input.len() as int)
}

/// The changes of the four table stages, in stage order.
pub open spec fn staged_changes(tables: PipelineSpec, text: Seq<char>) -> Seq<ChangeSpec> {
    stage_changes(text, difference_decision(nfc_form(text))) + stage_changes(
        nfc_form(text),
        kangxi_decision(tables.kangxi),
    ) + stage_changes(after_kangxi(tables, text), variant_decision(tables.variants))
        + stage_changes(
        after_variants(tables, text),
        compatibility_decision(tables.compatibility),
    )
}

/// The script detected for `text`.
pub open spec fn pipeline_script(tables: PipelineSpec, text: Seq<char>) -> Script {
    detected_script(tables.simplified_indicators, tables.traditional_indicators, text)
}

/// What validation returns for `text` when it took `time` milliseconds.
pub open spec fn validated(tables: PipelineSpec, text: Seq<char>, time: u64) -> NormalizedTextSpec {
    NormalizedTextSpec {
        original: text,
        normalized: after_compatibility(tables, text),
        changes: staged_changes(tables, text),
        detected_script: pipeline_script(tables, text),
        processing_time_ms: time,
    }
}

/// Whether the pipeline converts the script of a text detected as
/// `detected` when `target` is asked for.
pub open spec fn converts(detected: Script, target: Option<Script>) -> bool {
    target matches Some(script) && script != detected
}

/// `staged` after script conversion towards `target`, given the answers of
/// the external service. Nothing changes where no target is given or the
/// target is the detected script.
pub open spec fn script_converted(
    script_tables: ScriptTablesSpec,
    staged: NormalizedTextSpec,
    target: Option<Script>,
    external: Seq<Option<char>>,
) -> NormalizedTextSpec {
    if converts(staged.detected_script, target) {
        NormalizedTextSpec {
            original: staged.original,
            normalized: converted_text(
                script_tables,
                staged.normalized,
                target->0,
                staged.detected_script,
                external,
            ),
            changes: staged.changes + conversion_changes(
                script_tables,
                staged.normalized,
                target->0,
                staged.detected_script,
                external,
            ),
            detected_script: staged.detected_script,
            processing_time_ms: staged.processing_time_ms,
        }
    } else {
        staged
    }
}

/// What normalization returns for `text` when it took `time` milliseconds.
pub open spec fn normalized(
    tables: PipelineSpec,
    text: Seq<char>,
    target: Option<Script>,
    external: Seq<Option<char>>,
    time: u64,
) -> NormalizedTextSpec {
    script_converted(tables.script_tables, validated(tables, text, time), target, external)
}

/// A text in Normalization Form C none of whose characters is a key of
/// any table comes back unchanged, with an empty change log, from
/// validation and from normalization, whatever the target script, as long
/// as the external service gives no answer.
pub proof fn lemma_pipeline_keeps_unmapped_text(
    tables: PipelineSpec,
    text: Seq<char>,
    target: Option<Script>,
    time: u64,
)
    requires
        nfc_form(text) == text,
        forall|i: int| 0 <= i < text.len() ==> !tables.kangxi.contains_key(#[trigger] text[i]),
        forall|i: int|
            0 <= i < text.len() ==> lookup_of(tables.variants, #[trigger] text[i]).len() == 0,
        forall|i: int|
            0 <= i < text.len() ==> !tables.compatibility.contains_key(#[trigger] text[i]),
        forall|i: int|
            0 <= i < text.len() ==> !tables.script_tables.traditional_to_simplified.contains_key(
                seq![#[trigger] text[i]],
            ) && !tables.script_tables.simplified_to_traditional.contains_key(seq![text[i]]),
    ensures
        validated(tables, text, time).normalized == text,
        validated(tables, text, time).changes == Seq::<ChangeSpec>::empty(),
        normalized(tables, text, target, Seq::empty(), time) == validated(tables, text, time),
{
    lemma_undecided_text_is_kept(text, difference_decision(text));
    lemma_undecided_text_is_kept(text, kangxi_decision(tables.kangxi));
    assert forall|i: int| 0 <= i < text.len() implies variant_decision(tables.variants)(
        i,
        text[i],
    ) is None by {
        assert(lookup_of(tables.variants, text[i]).len() == 0);
        assert(best_of(lookup_of(tables.variants, text[i])) is None);
    }
    lemma_undecided_text_is_kept(text, variant_decision(tables.variants));
    lemma_undecided_text_is_kept(text, compatibility_decision(tables.compatibility));
    assert(staged_changes(tables, text) =~= Seq::<ChangeSpec>::empty());
    let staged = validated(tables, text, time);
    if converts(staged.detected_script, target) {
        lemma_unconverted_text_is_kept(
            tables.script_tables,
            text,
            target->0,
            staged.detected_script,
            Seq::empty(),
        );
        assert(staged.changes + Seq::<ChangeSpec>::empty() =~= staged.changes);
    }
}

/// Validation never converts the script: its result for a text is the
/// result of normalization without a target, whatever the script tables
/// hold.
pub proof fn lemma_validation_converts_nothing(
    tables: PipelineSpec,
    text: Seq<char>,
    external: Seq<Option<char>>,
    time: u64,
)
    ensures
        normalized(tables, text, None, external, time) == validated(tables, text, time),
        normalized(tables, text, Some(pipeline_script(tables, text)), external, time) == validated(
            tables,
            text,
            time,
        ),
{
}

/// Moves the changes of `more` to the end of `log`.
fn extend_log(log: &mut Vec<TextChange>, more: Vec<TextChange>)
    ensures
        changes_view(final(log)@) == changes_view(old(log)@) + changes_view(more@),
{
    let ghost added = more@;
    let mut rest = more;
    log.append(&mut rest);
    assert(changes_view(log@) =~= changes_view(old(log)@) + changes_view(added));
}

impl View for TextNormalizer {
    type V = PipelineSpec;

    closed spec fn view(&self) -> PipelineSpec {
        PipelineSpec {
            simplified_indicators: self.script_detector.simplified(),
            traditional_indicators: self.script_detector.traditional(),
            kangxi: self.kangxi_normalizer@,
            variants: self.variant_normalizer@,
            compatibility: self.compatibility_normalizer@,
            script_tables: self.script_converter@,
        }
    }
}

impl TextNormalizer {
    /// Create a new text normalizer with the built-in tables: the
    /// indicator characters, the 214 Kangxi radicals and the built-in
    /// script pairs. Its variant and compatibility tables are empty.
    pub fn new() -> (normalizer: Self)
        ensures
            normalizer@ == builtin_tables(),
    {
        TextNormalizer {
            script_detector: ScriptDetector::new(),
            script_converter: ScriptConverter::new(),
            kangxi_normalizer: KangxiNormalizer::new(),
            variant_normalizer: VariantNormalizer::new(),
            compatibility_normalizer: CompatibilityNormalizer::new(),
            unicode_normalizer: UnicodeNormalizer::new(),
        }
    }

    /// Create a text normalizer from its stages.
    pub fn with_stages(
        script_detector: ScriptDetector,
        script_converter: ScriptConverter,
        kangxi_normalizer: KangxiNormalizer,
        variant_normalizer: VariantNormalizer,
        compatibility_normalizer: CompatibilityNormalizer,
    ) -> (normalizer: Self)
        ensures
            normalizer@ == (PipelineSpec {
                simplified_indicators: script_detector.simplified(),
                traditional_indicators: script_detector.traditional(),
                kangxi: kangxi_normalizer@,
                variants: variant_normalizer@,
                compatibility: compatibility_normalizer@,
                script_tables: script_converter@,
            }),
    {
        TextNormalizer {
            script_detector,
            script_converter,
            kangxi_normalizer,
            variant_normalizer,
            compatibility_normalizer,
            unicode_normalizer: UnicodeNormalizer::new(),
        }
    }

    /// Normalize text with the specified target script, converting the
    /// script through the normalizer's own tables.
    pub fn normalize(&self, text: &str, target_script: Option<Script>) -> (result: NormalizedText)
        ensures
            result@ == normalized(
                self@,
                text@,
                target_script,
                Seq::empty(),
                result.processing_time_ms,
            ),
    {
        let start_time = Instant::now();
        let staged = self.run_stages(text);
        let external: Vec<Option<char>> = Vec::new();
        let mut result = self.convert_script(staged, target_script, &external);
        result.processing_time_ms = elapsed_ms(&start_time);
        result
    }

    /// Validate text without performing conversions (for analysis).
    pub fn validate(&self, text: &str) -> (result: NormalizedText)
        ensures
            result@ == validated(self@, text@, result.processing_time_ms),
    {
        let start_time = Instant::now();
        let mut result = self.run_stages(text);
        result.processing_time_ms = elapsed_ms(&start_time);
        result
    }

    /// Detects the script and runs the four table stages in their fixed
    /// order, without measuring time.
    fn run_stages(&self, text: &str) -> (result: NormalizedText)
        ensures
            result@ == validated(self@, text@, 0),
    {
        // Step 1: Detect script
        let detected_script = self.script_detector.detect(text);
        // Step 2: Unicode normalization (NFC)
        let unicode_result = self.unicode_normalizer.normalize(text, UnicodeNormalization::NFC);
        let mut all_changes = unicode_result.changes;
        // Step 3: Kangxi radical normalization
        let kangxi_result = self.kangxi_normalizer.normalize(unicode_result.normalized.as_str());
        extend_log(&mut all_changes, kangxi_result.changes);
        // Step 4: Character variant normalization
        let variant_result = self.variant_normalizer.normalize(kangxi_result.normalized.as_str());
        extend_log(&mut all_changes, variant_result.changes);
        // Step 5: Compatibility form normalization
        let compatibility_result = self.compatibility_normalizer.normalize(
            variant_result.normalized.as_str(),
        );
        extend_log(&mut all_changes, compatibility_result.changes);
        NormalizedText {
            original: text.to_owned(),
            normalized: compatibility_result.normalized,
            changes: all_changes,
            detected_script,
            processing_time_ms: 0,
        }
    }

    /// Converts the script of a validated text towards `target_script`, if
    /// one is given and differs from the detected script. `external`
    /// holds, for each position of the validated text that the external
    /// conversion service answered for, the character it gave.
    pub fn convert_script(
        &self,
        staged: NormalizedText,
        target_script: Option<Script>,
        external: &Vec<Option<char>>,
    ) -> (result: NormalizedText)
        ensures
            result@ == script_converted(self@.script_tables, staged@, target_script, external@),
    {
        match target_script {
            Some(target) => {
                if staged.detected_script != target {
                    let (converted_text, script_changes) = self.script_converter.convert_with(
                        staged.normalized.as_str(),
                        target,
                        staged.detected_script,
                        external,
                    );
                    let mut all_changes = staged.changes;
                    extend_log(&mut all_changes, script_changes);
                    NormalizedText {
                        original: staged.original,
                        normalized: converted_text,
                        changes: all_changes,
                        detected_script: staged.detected_script,
                        processing_time_ms: staged.processing_time_ms,
                    }
                } else {
                    staged
                }
            },
            None => staged,
        }
    }
}

impl Default for TextNormalizer {
    fn default() -> (normalizer: Self)
        ensures
            normalizer@ == builtin_tables(),
    {
        TextNormalizer::new()
    }
}

} // verus!
