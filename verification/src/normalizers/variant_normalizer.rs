//! Character variant normalization.

use crate::constants::{HIGH_CONFIDENCE, MEDIUM_CONFIDENCE};
use crate::normalizers::substitution::{emitted, record_change, rewritten, stage_result};
use crate::types::{
    best_index, best_of, changes_view, reversed, lookup_of, mappings_view, stats_of, ChangeSpec, ChangeType,
    NormalizedText, Script, TextChange, VariantMapping, VariantMappingSpec, VariantMappingStats,
    VariantMappings, VariantType,
};
use crate::utils::text::{
    find_char, from_chars, lemma_find_char, pieces_view, same_chars, split, split_from, split_on,
    to_chars,
};
use vstd::prelude::*;
use vstd::string::StringExecFns;

verus! {

/// Enhanced normalizer for character variants with confidence-based
/// selection.
pub struct VariantNormalizer {
    variant_mappings: VariantMappings,
}

/// The entries of a comma-separated list of sources. An empty text has no
/// entry.
pub open spec fn source_entries(source_info: Seq<char>) -> Seq<Seq<char>> {
    if source_info.len() == 0 {
        Seq::empty()
    } else {
        split_on(source_info, ',')
    }
}

/// Whether `source_info` names at least two distinct sources.
pub open spec fn has_two_distinct_sources(source_info: Seq<char>) -> bool {
    let entries = source_entries(source_info);
    exists|i: int, j: int|
        0 <= i < entries.len() && 0 <= j < entries.len() && #[trigger] entries[i]
            != #[trigger] entries[j]
}

/// The confidence filter: a mapping is applied only at a confidence of 0.80
/// or more, and a semantic variant only if it also has two distinct
/// sources or a confidence of 0.90 or more.
pub open spec fn should_apply(mapping: VariantMappingSpec) -> bool {
    &&& mapping.confidence >= MEDIUM_CONFIDENCE
    &&& mapping.variant_type == VariantType::Semantic ==> has_two_distinct_sources(
        mapping.source_info,
    ) || mapping.confidence >= HIGH_CONFIDENCE
}

/// The classification of a change made through a mapping of the given
/// type.
pub open spec fn change_type_of(variant_type: VariantType) -> ChangeType {
    match variant_type {
        VariantType::Semantic => ChangeType::SemanticVariant,
        VariantType::Spoofing => ChangeType::SpoofingVariant,
        VariantType::ZVariant => ChangeType::ZVariant,
        VariantType::Specialized => ChangeType::SpecializedVariant,
        VariantType::Script => ChangeType::VariantForm,
    }
}

/// The name of a variant type as it appears in a reason.
pub open spec fn variant_label(variant_type: VariantType) -> Seq<char> {
    match variant_type {
        VariantType::Semantic => "Semantic"@,
        VariantType::Spoofing => "Spoofing"@,
        VariantType::ZVariant => "ZVariant"@,
        VariantType::Specialized => "Specialized"@,
        VariantType::Script => "Script"@,
    }
}

/// The decimal digit of value `d`.
pub open spec fn decimal_digit(d: int) -> char {
    (0x30 + d) as char
}

/// The decimal digits of `n`, most significant first.
pub open spec fn decimal_digits(n: nat) -> Seq<char>
    decreases n,
{
    if n < 10 {
        seq![decimal_digit(n as int)]
    } else {
        decimal_digits(n / 10).push(decimal_digit((n % 10) as int))
    }
}

/// A confidence of `hundredths` hundredths written with two decimals.
pub open spec fn confidence_text(hundredths: u32) -> Seq<char> {
    decimal_digits((hundredths / 100) as nat) + seq![
        '.',
        decimal_digit((hundredths / 10 % 10) as int),
        decimal_digit((hundredths % 10) as int),
    ]
}

/// The reason reported when `ch` is replaced through `mapping`.
pub open spec fn variant_reason(ch: char, mapping: VariantMappingSpec) -> Seq<char> {
    variant_label(mapping.variant_type) + " variant "@ + seq![ch] + " → "@ + seq![mapping.target]
        + " (confidence: "@ + confidence_text(mapping.confidence) + (if mapping.source_info.len()
        > 0 {
        ", sources: "@ + mapping.source_info
    } else {
        Seq::empty()
    }) + ")"@
}

/// What the variant stage decides with a store holding `mappings`: the
/// best lookup entry of the character is applied if the confidence filter accepts it.
pub open spec fn variant_decision(mappings: Seq<VariantMappingSpec>) -> spec_fn(int, char) -> Option<
    ChangeSpec,
> {
    |i: int, c: char|
        match best_of(lookup_of(mappings, c)) {
            Some(mapping) => if should_apply(mapping) {
                Some(
                    ChangeSpec {
                        position: i,
                        original_char: c,
                        normalized_char: mapping.target,
                        change_type: change_type_of(mapping.variant_type),
                        reason: variant_reason(c, mapping),
                    },
                )
            } else {
                None
            },
            None => None,
        }
}

/// The confidence filter turns down every mapping under 0.80, whatever its
/// type, and every semantic variant under 0.90 that lacks two distinct
/// sources; it accepts every other mapping.
pub proof fn lemma_confidence_filter(mapping: VariantMappingSpec)
    ensures
        mapping.confidence < MEDIUM_CONFIDENCE ==> !should_apply(mapping),
        mapping.variant_type == VariantType::Semantic && mapping.confidence < HIGH_CONFIDENCE
            && !has_two_distinct_sources(mapping.source_info) ==> !should_apply(mapping),
        mapping.variant_type == VariantType::Semantic && mapping.confidence >= MEDIUM_CONFIDENCE
            && has_two_distinct_sources(mapping.source_info) ==> should_apply(mapping),
        mapping.variant_type != VariantType::Semantic && mapping.confidence >= MEDIUM_CONFIDENCE
            ==> should_apply(mapping),
{
}

/// A mapping that the confidence filter turns down is never applied:
/// whatever the store holds besides, a character whose best entry is
/// turned down is left
/// alone.
pub proof fn lemma_rejected_mapping_is_not_applied(
    mappings: Seq<VariantMappingSpec>,
    position: int,
    ch: char,
)
    requires
        best_of(lookup_of(mappings, ch)) matches Some(mapping) && !should_apply(mapping),
    ensures
        variant_decision(mappings)(position, ch) is None,
{
}

/// With a store that holds a single mapping, the source of that mapping is
/// replaced by its target exactly if the confidence filter accepts the
/// mapping.
pub proof fn lemma_single_mapping_store(mapping: VariantMappingSpec, position: int)
    ensures
        variant_decision(seq![mapping])(position, mapping.source) == if should_apply(mapping) {
            Some(
                ChangeSpec {
                    position,
                    original_char: mapping.source,
                    normalized_char: mapping.target,
                    change_type: change_type_of(mapping.variant_type),
                    reason: variant_reason(mapping.source, mapping),
                },
            )
        } else {
            None
        },
{
    let store = seq![mapping];
    assert(store.drop_last() =~= Seq::<VariantMappingSpec>::empty());
    assert(store.last() == mapping);
    let none = Seq::<VariantMappingSpec>::empty();
    assert(lookup_of(none, mapping.source) == none);
    let entries = lookup_of(store, mapping.source);
    if mapping.bidirectional && mapping.target == mapping.source {
        assert(entries == none.push(mapping).push(reversed(mapping)));
        assert(entries.drop_last() =~= none.push(mapping));
        assert(entries.drop_last()[0] == mapping);
        assert(best_index(entries.drop_last()) == 0);
        assert(entries[0] == mapping);
        assert(best_index(entries) == 0);
    } else {
        assert(entries == none.push(mapping));
        assert(entries[0] == mapping);
    }
    assert(best_of(entries) == Some(mapping));
}

/// A source list without a comma names a single source.
pub proof fn lemma_single_source(source_info: Seq<char>)
    requires
        !source_info.contains(','),
    ensures
        !has_two_distinct_sources(source_info),
{
    if source_info.len() > 0 {
        lemma_find_char(source_info, ',', 0);
        let end = find_char(source_info, ',', 0);
        if end < source_info.len() {
            assert(source_info.contains(source_info[end]));
        }
        assert(source_entries(source_info).len() == 1);
    }
}

/// Two different sources joined by a comma are two distinct sources.
pub proof fn lemma_second_source(first: Seq<char>, second: Seq<char>)
    requires
        !first.contains(','),
        !second.contains(','),
        first != second,
    ensures
        has_two_distinct_sources(first + seq![','] + second),
{
    let joined = first + seq![','] + second;
    lemma_find_char(joined, ',', 0);
    let end = find_char(joined, ',', 0);
    assert(joined[first.len() as int] == ',');
    if end < first.len() {
        assert(joined[end] == first[end]);
        assert(first.contains(first[end]));
    }
    assert(end == first.len());
    let next = end + 1;
    lemma_find_char(joined, ',', next);
    let stop = find_char(joined, ',', next);
    if stop < joined.len() {
        assert(joined[stop] == second[stop - next]);
        assert(second.contains(second[stop - next]));
    }
    assert(joined.subrange(0, end) =~= first);
    assert(joined.subrange(next, joined.len() as int) =~= second);
    let entries = source_entries(joined);
    assert(split_from(joined, ',', next) == seq![second]);
    assert(entries == seq![first] + seq![second]);
    assert(entries[0] == first);
    assert(entries[1] == second);
}

/// The decimal digit of value `d`.
fn digit_char(d: u32) -> (c: char)
    requires
        d < 10,
    ensures
        c == decimal_digit(d as int),
{
    match char::from_u32(0x30 + d) {
        Some(c) => c,
        None => '0',
    }
}

/// Appends the decimal digits of `n` to `text`.
fn push_decimal(text: &mut String, n: u32)
    ensures
        final(text)@ == old(text)@ + decimal_digits(n as nat),
    decreases n,
{
    if n >= 10 {
        push_decimal(text, n / 10);
    }
    text.push(digit_char(n % 10));
    assert(text@ =~= old(text)@ + decimal_digits(n as nat));
}

/// The name of `variant_type` as it appears in a reason.
fn variant_label_text(variant_type: VariantType) -> (name: &'static str)
    ensures
        name@ == variant_label(variant_type),
{
    match variant_type {
        VariantType::Semantic => "Semantic",
        VariantType::Spoofing => "Spoofing",
        VariantType::ZVariant => "ZVariant",
        VariantType::Specialized => "Specialized",
        VariantType::Script => "Script",
    }
}

/// The reason reported when `ch` is replaced through `mapping`.
fn reason_for(ch: char, mapping: &VariantMapping) -> (reason: String)
    ensures
        reason@ == variant_reason(ch, mapping@),
{
    let mut reason = String::from_str(variant_label_text(mapping.variant_type));
    reason.append(" variant ");
    reason.push(ch);
    reason.append(" → ");
    reason.push(mapping.target);
    reason.append(" (confidence: ");
    push_decimal(&mut reason, mapping.confidence / 100);
    reason.push('.');
    reason.push(digit_char(mapping.confidence / 10 % 10));
    reason.push(digit_char(mapping.confidence % 10));
    let ghost head = reason@;
    assert(head =~= variant_label(mapping.variant_type) + " variant "@ + seq![ch] + " → "@
        + seq![mapping.target] + " (confidence: "@ + confidence_text(mapping.confidence));
    if mapping.source_info.as_str().unicode_len() > 0 {
        reason.append(", sources: ");
        reason.append(mapping.source_info.as_str());
        assert(reason@ =~= head + (", sources: "@ + mapping.source_info@));
    } else {
        assert(reason@ =~= head + Seq::<char>::empty());
    }
    reason.append(")");
    reason
}

/// Whether `source_info` names at least two distinct sources.
pub fn names_two_distinct_sources(source_info: &str) -> (two: bool)
    ensures
        two == has_two_distinct_sources(source_info@),
{
    let chars = to_chars(source_info);
    if chars.len() == 0 {
        return false;
    }
    let entries = split(&chars, ',');
    let ghost views = pieces_view(entries@);
    let mut i: usize = 1;
    while i < entries.len()
        invariant
            1 <= i <= entries.len(),
            views == pieces_view(entries@),
            views == source_entries(source_info@),
            forall|k: int| 0 <= k < i ==> #[trigger] views[k] == views[0],
        decreases entries.len() - i,
    {
        if !same_chars(&entries[i], &entries[0]) {
            assert(views[i as int] != views[0]);
            return true;
        }
        i += 1;
    }
    false
}

impl View for VariantNormalizer {
    type V = Seq<VariantMappingSpec>;

    /// The mappings that the normalizer works with, in the order in which
    /// they were added to its store.
    closed spec fn view(&self) -> Seq<VariantMappingSpec> {
        self.variant_mappings@
    }
}

impl VariantNormalizer {
    /// Create a new variant normalizer with an empty store.
    pub fn new() -> (normalizer: Self)
        ensures
            normalizer@ == Seq::<VariantMappingSpec>::empty(),
    {
        VariantNormalizer { variant_mappings: VariantMappings::new() }
    }

    /// A normalizer that works with the given store.
    pub fn with_mappings(variant_mappings: VariantMappings) -> (normalizer: Self)
        ensures
            normalizer@ == variant_mappings@,
    {
        VariantNormalizer { variant_mappings }
    }

    /// Normalize character variants in the given text with
    /// confidence-based selection.
    pub fn normalize(&self, text: &str) -> (result: NormalizedText)
        ensures
            result@ == stage_result(text@, variant_decision(self@)),
    {
        let ghost decide = variant_decision(self@);
        let chars = to_chars(text);
        let mut out: Vec<char> = Vec::new();
        let mut changes: Vec<TextChange> = Vec::new();
        let mut pos: usize = 0;
        while pos < chars.len()
            invariant
                pos <= chars.len(),
                chars@ == text@,
                decide == variant_decision(self@),
                out@ == rewritten(text@, decide).subrange(0, pos as int),
                changes_view(changes@) == emitted(text@, decide, pos as int),
            decreases chars.len() - pos,
        {
            let ch = chars[pos];
            let mut applied = false;
            match self.variant_mappings.get_best_mapping(ch) {
                Some(best_mapping) => {
                    if Self::should_apply_mapping(best_mapping) {
                        let normalized_char = best_mapping.target;
                        out.push(normalized_char);
                        let change_type = match best_mapping.variant_type {
                            VariantType::Semantic => ChangeType::SemanticVariant,
                            VariantType::Spoofing => ChangeType::SpoofingVariant,
                            VariantType::ZVariant => ChangeType::ZVariant,
                            VariantType::Specialized => ChangeType::SpecializedVariant,
                            VariantType::Script => ChangeType::VariantForm,
                        };
                        let change = TextChange {
                            position: pos,
                            original_char: ch,
                            normalized_char,
                            change_type,
                            reason: reason_for(ch, best_mapping),
                        };
                        record_change(&mut changes, change);
                        applied = true;
                    }
                },
                None => {},
            }
            if !applied {
                out.push(ch);
            }
            pos += 1;
            assert(out@ =~= rewritten(text@, decide).subrange(0, pos as int));
        }
        assert(out@ =~= rewritten(text@, decide));
        NormalizedText {
            original: text.to_owned(),
            normalized: from_chars(&out),
            changes,
            detected_script: Script::Auto,
            processing_time_ms: 0,
        }
    }

    /// Get all available lookup entries for a character.
    pub fn get_all_mappings(&self, ch: char) -> (entries: Option<&Vec<VariantMapping>>)
        ensures
            match entries {
                Some(list) => mappings_view(list@) == lookup_of(self@, ch) && list@.len() > 0,
                None => lookup_of(self@, ch).len() == 0,
            },
    {
        self.variant_mappings.get_mappings(ch)
    }

    /// Get statistics about the variant mappings of the store.
    pub fn get_statistics(&self) -> (stats: &VariantMappingStats)
        ensures
            stats_of(*stats, self@),
    {
        self.variant_mappings.statistics()
    }

    /// The store that the normalizer works with.
    pub fn mappings(&self) -> (store: &VariantMappings)
        ensures
            store@ == self@,
    {
        &self.variant_mappings
    }

    /// The confidence filter that decides whether a mapping is applied.
    pub fn should_apply_mapping(mapping: &VariantMapping) -> (apply: bool)
        ensures
            apply == should_apply(mapping@),
    {
        if mapping.confidence < MEDIUM_CONFIDENCE {
            return false;
        }
        match mapping.variant_type {
            VariantType::Semantic => {
                mapping.confidence >= HIGH_CONFIDENCE || names_two_distinct_sources(
                    mapping.source_info.as_str(),
                )
            },
            _ => true,
        }
    }
}

impl Default for VariantNormalizer {
    fn default() -> (normalizer: Self)
        ensures
            normalizer@ == Seq::<VariantMappingSpec>::empty(),
    {
        VariantNormalizer::new()
    }
}

} // verus!
