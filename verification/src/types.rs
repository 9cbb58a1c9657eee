//! Core types and data structures for text normalization.

use crate::constants::MEDIUM_CONFIDENCE;
use crate::utils::char_map::CharMap;
use vstd::hash_map::StringHashMap;
use vstd::prelude::*;

verus! {

/// Script types for CJK text.
#[derive(Debug, Clone, Copy, PartialEq, Eq, Structural)]
pub enum Script {
    Auto,
    SimplifiedChinese,
    TraditionalChinese,
    Japanese,
    Korean,
}

/// Output format for a command-line front end.
#[derive(Debug, Clone, Copy, PartialEq, Eq, Structural)]
pub enum OutputFormat {
    Simple,
    Detailed,
    Verbose,
}

/// Unicode normalization forms.
#[derive(Debug, Clone, Copy, PartialEq, Eq, Structural)]
pub enum UnicodeNormalization {
    /// Leave the text as it is.
    Identity,
    NFC,
    NFD,
    NFKC,
    NFKD,
}

/// Types of character variants.
#[derive(Debug, Clone, Copy, PartialEq, Eq, Hash, Structural)]
pub enum VariantType {
    /// Semantic variants: characters with the same meaning.
    Semantic,
    /// Spoofing variants: visually similar characters (a security concern).
    Spoofing,
    /// Z-variants: different forms of the same character.
    ZVariant,
    /// Specialized semantic variants: domain-specific variants.
    Specialized,
    /// Traditional/Simplified script variants (handled by script conversion).
    Script,
}

/// Types of text changes.
#[derive(Debug, Clone, Copy, PartialEq, Eq, Structural)]
pub enum ChangeType {
    ScriptConversion,
    KangxiRadical,
    VariantForm,
    SemanticVariant,
    SpoofingVariant,
    ZVariant,
    SpecializedVariant,
    CompatibilityForm,
    UnicodeNormalization,
}

/// One substitution: the character at `position` of a stage's input was
/// replaced by `normalized_char`.
#[derive(Debug)]
pub struct TextChange {
    pub position: usize,
    pub original_char: char,
    pub normalized_char: char,
    pub change_type: ChangeType,
    pub reason: String,
}

/// The mathematical value of a [`TextChange`].
pub ghost struct ChangeSpec {
    pub position: int,
    pub original_char: char,
    pub normalized_char: char,
    pub change_type: ChangeType,
    pub reason: Seq<char>,
}

impl View for TextChange {
    type V = ChangeSpec;

    open spec fn view(&self) -> ChangeSpec {
        ChangeSpec {
            position: self.position as int,
            original_char: self.original_char,
            normalized_char: self.normalized_char,
            change_type: self.change_type,
            reason: self.reason@,
        }
    }
}

impl Clone for TextChange {
    fn clone(&self) -> (copy: Self)
        ensures
            copy@ == self@,
    {
        TextChange {
            position: self.position,
            original_char: self.original_char,
            normalized_char: self.normalized_char,
            change_type: self.change_type,
            reason: self.reason.clone(),
        }
    }
}

/// The values of a list of changes, in order.
pub open spec fn changes_view(changes: Seq<TextChange>) -> Seq<ChangeSpec> {
    changes.map_values(|c: TextChange| c@)
}

/// Enhanced variant mapping with metadata.
#[derive(Debug)]
pub struct VariantMapping {
    pub source: char,
    pub target: char,
    pub variant_type: VariantType,
    /// Confidence in hundredths, from 0 to 100.
    pub confidence: u32,
    pub bidirectional: bool,
    /// Dictionary references, separated by commas (e.g., "kLau,kMatthews").
    pub source_info: String,
}

/// The mathematical value of a [`VariantMapping`].
pub ghost struct VariantMappingSpec {
    pub source: char,
    pub target: char,
    pub variant_type: VariantType,
    pub confidence: u32,
    pub bidirectional: bool,
    pub source_info: Seq<char>,
}

impl View for VariantMapping {
    type V = VariantMappingSpec;

    open spec fn view(&self) -> VariantMappingSpec {
        VariantMappingSpec {
            source: self.source,
            target: self.target,
            variant_type: self.variant_type,
            confidence: self.confidence,
            bidirectional: self.bidirectional,
            source_info: self.source_info@,
        }
    }
}

impl Clone for VariantMapping {
    fn clone(&self) -> (copy: Self)
        ensures
            copy@ == self@,
    {
        VariantMapping {
            source: self.source,
            target: self.target,
            variant_type: self.variant_type,
            confidence: self.confidence,
            bidirectional: self.bidirectional,
            source_info: self.source_info.clone(),
        }
    }
}

/// The values of a list of mappings, in order.
pub open spec fn mappings_view(mappings: Seq<VariantMapping>) -> Seq<VariantMappingSpec> {
    mappings.map_values(|m: VariantMapping| m@)
}

/// Script mapping with additional metadata.
#[derive(Debug)]
pub struct ScriptMapping {
    pub traditional: String,
    pub simplified: String,
    pub pinyin: String,
    pub zhuyin: String,
    pub frequency: u32,
}

/// The mathematical value of a [`ScriptMapping`].
pub ghost struct ScriptMappingSpec {
    pub traditional: Seq<char>,
    pub simplified: Seq<char>,
    pub pinyin: Seq<char>,
    pub zhuyin: Seq<char>,
    pub frequency: u32,
}

impl View for ScriptMapping {
    type V = ScriptMappingSpec;

    open spec fn view(&self) -> ScriptMappingSpec {
        ScriptMappingSpec {
            traditional: self.traditional@,
            simplified: self.simplified@,
            pinyin: self.pinyin@,
            zhuyin: self.zhuyin@,
            frequency: self.frequency,
        }
    }
}

impl Clone for ScriptMapping {
    fn clone(&self) -> (copy: Self)
        ensures
            copy@ == self@,
    {
        ScriptMapping {
            traditional: self.traditional.clone(),
            simplified: self.simplified.clone(),
            pinyin: self.pinyin.clone(),
            zhuyin: self.zhuyin.clone(),
            frequency: self.frequency,
        }
    }
}

/// The values of a list of script mappings, in order.
pub open spec fn script_mappings_view(mappings: Seq<ScriptMapping>) -> Seq<ScriptMappingSpec> {
    mappings.map_values(|m: ScriptMapping| m@)
}

/// The candidate lists of a script table, each as a list of values.
pub open spec fn script_table_view(table: Map<Seq<char>, Vec<ScriptMapping>>) -> Map<
    Seq<char>,
    Seq<ScriptMappingSpec>,
> {
    Map::new(
        |key: Seq<char>| table.contains_key(key),
        |key: Seq<char>| script_mappings_view(table[key]@),
    )
}

/// Complete script mappings structure: the candidates for each string of
/// either script, and statistics.
pub struct ScriptMappings {
    pub traditional_to_simplified: StringHashMap<Vec<ScriptMapping>>,
    pub simplified_to_traditional: StringHashMap<Vec<ScriptMapping>>,
    pub statistics: ScriptMappingStats,
}

/// Statistics for variant mappings.
#[derive(Debug, Clone, Copy, PartialEq, Eq, Structural)]
pub struct VariantMappingStats {
    pub total_mappings: usize,
    pub semantic_mappings: usize,
    pub spoofing_mappings: usize,
    pub z_variant_mappings: usize,
    pub specialized_mappings: usize,
    pub bidirectional_mappings: usize,
    pub high_confidence_mappings: usize,
}

/// Statistics for script mappings.
#[derive(Debug, Clone, Copy, PartialEq, Eq, Structural)]
pub struct ScriptMappingStats {
    pub total_mappings: usize,
    pub unique_traditional: usize,
    pub unique_simplified: usize,
    pub ambiguous_mappings: usize,
    pub single_character_mappings: usize,
    pub multi_character_mappings: usize,
}

/// Normalized text result.
#[derive(Debug)]
pub struct NormalizedText {
    pub original: String,
    pub normalized: String,
    pub changes: Vec<TextChange>,
    pub detected_script: Script,
    pub processing_time_ms: u64,
}

/// The mathematical value of a [`NormalizedText`].
pub ghost struct NormalizedTextSpec {
    pub original: Seq<char>,
    pub normalized: Seq<char>,
    pub changes: Seq<ChangeSpec>,
    pub detected_script: Script,
    pub processing_time_ms: u64,
}

impl View for NormalizedText {
    type V = NormalizedTextSpec;

    open spec fn view(&self) -> NormalizedTextSpec {
        NormalizedTextSpec {
            original: self.original@,
            normalized: self.normalized@,
            changes: changes_view(self.changes@),
            detected_script: self.detected_script,
            processing_time_ms: self.processing_time_ms,
        }
    }
}

impl Clone for NormalizedText {
    fn clone(&self) -> (copy: Self)
        ensures
            copy@ == self@,
    {
        let mut changes: Vec<TextChange> = Vec::new();
        let mut i: usize = 0;
        while i < self.changes.len()
            invariant
                i <= self.changes.len(),
                changes_view(changes@) == changes_view(self.changes@).take(i as int),
            decreases self.changes.len() - i,
        {
            let ghost before = changes_view(changes@);
            changes.push(self.changes[i].clone());
            i += 1;
            assert(changes_view(changes@) =~= before.push(self.changes@[i - 1]@));
            assert(changes_view(self.changes@).take(i as int) =~= before.push(
                self.changes@[i - 1]@,
            ));
        }
        assert(changes_view(self.changes@).take(i as int) =~= changes_view(self.changes@));
        NormalizedText {
            original: self.original.clone(),
            normalized: self.normalized.clone(),
            changes,
            detected_script: self.detected_script,
            processing_time_ms: self.processing_time_ms,
        }
    }
}

/// Normalization configuration.
#[derive(Debug, Clone, Copy, PartialEq, Eq, Structural)]
pub struct NormalizationConfig {
    pub target_script: Script,
    pub unicode_normalization: UnicodeNormalization,
    pub normalize_kangxi_radicals: bool,
    pub normalize_variants: bool,
    pub normalize_compatibility: bool,
    pub preserve_original: bool,
}

impl Default for NormalizationConfig {
    fn default() -> (config: Self)
        ensures
            config == (NormalizationConfig {
                target_script: Script::Auto,
                unicode_normalization: UnicodeNormalization::NFC,
                normalize_kangxi_radicals: true,
                normalize_variants: true,
                normalize_compatibility: true,
                preserve_original: true,
            }),
    {
        NormalizationConfig {
            target_script: Script::Auto,
            unicode_normalization: UnicodeNormalization::NFC,
            normalize_kangxi_radicals: true,
            normalize_variants: true,
            normalize_compatibility: true,
            preserve_original: true,
        }
    }
}


impl VariantMapping {
    /// Create a new variant mapping. `confidence` is given in hundredths.
    pub fn new(
        source: char,
        target: char,
        variant_type: VariantType,
        confidence: u32,
        bidirectional: bool,
        source_info: String,
    ) -> (mapping: Self)
        ensures
            mapping@ == (VariantMappingSpec {
                source,
                target,
                variant_type,
                confidence,
                bidirectional,
                source_info: source_info@,
            }),
    {
        VariantMapping { source, target, variant_type, confidence, bidirectional, source_info }
    }

    /// Check if this mapping is high confidence (at least 0.80).
    pub fn is_high_confidence(&self) -> (high: bool)
        ensures
            high == is_high_confidence(self@),
    {
        self.confidence >= MEDIUM_CONFIDENCE
    }
}

/// Whether the confidence of `mapping` is at least 0.80.
pub open spec fn is_high_confidence(mapping: VariantMappingSpec) -> bool {
    mapping.confidence >= MEDIUM_CONFIDENCE
}

/// The mapping from the target of `mapping` back to its source, with the
/// same type, confidence and sources.
pub open spec fn reversed(mapping: VariantMappingSpec) -> VariantMappingSpec {
    VariantMappingSpec {
        source: mapping.target,
        target: mapping.source,
        variant_type: mapping.variant_type,
        confidence: mapping.confidence,
        bidirectional: true,
        source_info: mapping.source_info,
    }
}

/// The entries that a lookup of `ch` finds in a store holding `mappings`:
/// in the order of insertion, each mapping whose source is `ch`, and the
/// reverse of each bidirectional mapping whose target is `ch`.
pub open spec fn lookup_of(mappings: Seq<VariantMappingSpec>, ch: char) -> Seq<VariantMappingSpec>
    decreases mappings.len(),
{
    if mappings.len() == 0 {
        Seq::empty()
    } else {
        let before = lookup_of(mappings.drop_last(), ch);
        let mapping = mappings.last();
        let forward = if mapping.source == ch {
            before.push(mapping)
        } else {
            before
        };
        if mapping.bidirectional && mapping.target == ch {
            forward.push(reversed(mapping))
        } else {
            forward
        }
    }
}

/// The mappings of type `variant_type` among `mappings`, in order.
pub open spec fn of_type(mappings: Seq<VariantMappingSpec>, variant_type: VariantType) -> Seq<
    VariantMappingSpec,
>
    decreases mappings.len(),
{
    if mappings.len() == 0 {
        Seq::empty()
    } else if mappings.last().variant_type == variant_type {
        of_type(mappings.drop_last(), variant_type).push(mappings.last())
    } else {
        of_type(mappings.drop_last(), variant_type)
    }
}

/// How many of `mappings` are bidirectional.
pub open spec fn count_bidirectional(mappings: Seq<VariantMappingSpec>) -> nat
    decreases mappings.len(),
{
    if mappings.len() == 0 {
        0
    } else {
        count_bidirectional(mappings.drop_last()) + if mappings.last().bidirectional {
            1nat
        } else {
            0nat
        }
    }
}

/// How many of `mappings` are of high confidence.
pub open spec fn count_high_confidence(mappings: Seq<VariantMappingSpec>) -> nat
    decreases mappings.len(),
{
    if mappings.len() == 0 {
        0
    } else {
        count_high_confidence(mappings.drop_last()) + if is_high_confidence(mappings.last()) {
            1nat
        } else {
            0nat
        }
    }
}

/// Whether `stats` are the statistics of a store holding `mappings`: each
/// mapping counted once, whether bidirectional or not.
pub open spec fn stats_of(stats: VariantMappingStats, mappings: Seq<VariantMappingSpec>) -> bool {
    &&& stats.total_mappings == mappings.len()
    &&& stats.semantic_mappings == of_type(mappings, VariantType::Semantic).len()
    &&& stats.spoofing_mappings == of_type(mappings, VariantType::Spoofing).len()
    &&& stats.z_variant_mappings == of_type(mappings, VariantType::ZVariant).len()
    &&& stats.specialized_mappings == of_type(mappings, VariantType::Specialized).len()
    &&& stats.bidirectional_mappings == count_bidirectional(mappings)
    &&& stats.high_confidence_mappings == count_high_confidence(mappings)
}

/// The index of the entry of `entries` with the greatest confidence;
/// among several of that confidence, the least index.
pub open spec fn best_index(entries: Seq<VariantMappingSpec>) -> int
    decreases entries.len(),
{
    if entries.len() <= 1 {
        0
    } else {
        let best = best_index(entries.drop_last());
        if entries.last().confidence > entries[best].confidence {
            entries.len() - 1
        } else {
            best
        }
    }
}

/// The entry of `entries` with the greatest confidence; among several of
/// that confidence, the one inserted first.
pub open spec fn best_of(entries: Seq<VariantMappingSpec>) -> Option<VariantMappingSpec> {
    if entries.len() == 0 {
        None
    } else {
        Some(entries[best_index(entries)])
    }
}

/// `best_index` names an entry that no entry exceeds in confidence and
/// that no earlier entry equals in confidence.
pub proof fn lemma_best_index(entries: Seq<VariantMappingSpec>)
    requires
        entries.len() > 0,
    ensures
        0 <= best_index(entries) < entries.len(),
        forall|j: int|
            0 <= j < entries.len() ==> (#[trigger] entries[j]).confidence
                <= entries[best_index(entries)].confidence,
        forall|j: int|
            0 <= j < best_index(entries) ==> (#[trigger] entries[j]).confidence
                < entries[best_index(entries)].confidence,
    decreases entries.len(),
{
    if entries.len() > 1 {
        let rest = entries.drop_last();
        lemma_best_index(rest);
        let best = best_index(rest);
        assert(rest[best] == entries[best]);
        assert forall|j: int| 0 <= j < entries.len() implies (#[trigger] entries[j]).confidence
            <= entries[best_index(entries)].confidence by {
            if j < rest.len() {
                assert(rest[j] == entries[j]);
            }
        }
        assert forall|j: int| 0 <= j < best_index(entries) implies (#[trigger] entries[j]).confidence
            < entries[best_index(entries)].confidence by {
            assert(rest[j] == entries[j]);
        }
    }
}

/// Adding a bidirectional mapping makes it retrievable under its source
/// and its reverse retrievable under its target, while every count that
/// it enters grows by exactly one.
pub proof fn lemma_bidirectional_pair_counts_once(
    mappings: Seq<VariantMappingSpec>,
    mapping: VariantMappingSpec,
)
    requires
        mapping.bidirectional,
    ensures
        lookup_of(mappings.push(mapping), mapping.source).contains(mapping),
        lookup_of(mappings.push(mapping), mapping.target).contains(reversed(mapping)),
        mappings.push(mapping).len() == mappings.len() + 1,
        count_bidirectional(mappings.push(mapping)) == count_bidirectional(mappings) + 1,
        of_type(mappings.push(mapping), mapping.variant_type).len() == of_type(
            mappings,
            mapping.variant_type,
        ).len() + 1,
        forall|other: VariantType|
            other != mapping.variant_type ==> #[trigger] of_type(mappings.push(mapping), other)
                == of_type(mappings, other),
        count_high_confidence(mappings.push(mapping)) == count_high_confidence(mappings) + (
        if is_high_confidence(mapping) {
            1nat
        } else {
            0nat
        }),
{
    let after = mappings.push(mapping);
    assert(after.drop_last() =~= mappings);
    assert(after.last() == mapping);
    let under_source = lookup_of(after, mapping.source);
    let under_target = lookup_of(after, mapping.target);
    let before = lookup_of(mappings, mapping.source);
    if mapping.target == mapping.source {
        assert(under_source == before.push(mapping).push(reversed(mapping)));
        assert(under_source[before.len() as int] == mapping);
        assert(under_source[before.len() as int + 1] == reversed(mapping));
    } else {
        assert(under_source == before.push(mapping));
        assert(under_source[before.len() as int] == mapping);
        let before_target = lookup_of(mappings, mapping.target);
        assert(under_target == before_target.push(reversed(mapping)));
        assert(under_target[before_target.len() as int] == reversed(mapping));
    }
}


/// Every mapping of a store is retrievable under its source, and the
/// reverse of every bidirectional mapping under its target.
pub proof fn lemma_every_mapping_is_retrievable(mappings: Seq<VariantMappingSpec>, i: int)
    requires
        0 <= i < mappings.len(),
    ensures
        lookup_of(mappings, mappings[i].source).contains(mappings[i]),
        mappings[i].bidirectional ==> lookup_of(mappings, mappings[i].target).contains(
            reversed(mappings[i]),
        ),
    decreases mappings.len(),
{
    let mapping = mappings[i];
    let rest = mappings.drop_last();
    if i == mappings.len() - 1 {
        assert(mappings =~= rest.push(mapping));
        let under_source = lookup_of(mappings, mapping.source);
        let before = lookup_of(rest, mapping.source);
        if mapping.bidirectional {
            lemma_bidirectional_pair_counts_once(rest, mapping);
        } else {
            assert(under_source == before.push(mapping));
            assert(under_source[before.len() as int] == mapping);
        }
    } else {
        assert(rest[i] == mapping);
        lemma_every_mapping_is_retrievable(rest, i);
        lemma_lookup_keeps_entries(mappings, mapping.source, mapping);
        if mapping.bidirectional {
            lemma_lookup_keeps_entries(mappings, mapping.target, reversed(mapping));
        }
    }
}

/// What a lookup found before the last mapping was added, it still finds.
proof fn lemma_lookup_keeps_entries(
    mappings: Seq<VariantMappingSpec>,
    ch: char,
    entry: VariantMappingSpec,
)
    requires
        mappings.len() > 0,
        lookup_of(mappings.drop_last(), ch).contains(entry),
    ensures
        lookup_of(mappings, ch).contains(entry),
{
    let before = lookup_of(mappings.drop_last(), ch);
    let after = lookup_of(mappings, ch);
    let k = choose|k: int| 0 <= k < before.len() && before[k] == entry;
    let last = mappings.last();
    let forward = if last.source == ch {
        before.push(last)
    } else {
        before
    };
    assert(forward[k] == entry);
    assert(after[k] == entry);
}

/// The entries filed under `ch`, if any bucket is.
spec fn bucket_of(buckets: Seq<Vec<VariantMapping>>, lookup: Map<char, usize>, ch: char) -> Seq<
    VariantMappingSpec,
> {
    if lookup.contains_key(ch) && lookup[ch] < buckets.len() {
        mappings_view(buckets[lookup[ch] as int]@)
    } else {
        Seq::empty()
    }
}

/// Whether `lookup` sends each of its keys to a bucket of its own, none of
/// them empty.
spec fn filed(buckets: Seq<Vec<VariantMapping>>, lookup: Map<char, usize>) -> bool {
    &&& forall|c: char| #[trigger]
        lookup.contains_key(c) ==> lookup[c] < buckets.len() && buckets[lookup[c] as int]@.len() > 0
    &&& forall|c: char, d: char|
        #![trigger lookup.contains_key(c), lookup.contains_key(d)]
        lookup.contains_key(c) && lookup.contains_key(d) && c != d ==> lookup[c] != lookup[d]
}

/// Appends `entry` to the bucket of `ch`, opening one if there is none.
fn file_under(
    buckets: &mut Vec<Vec<VariantMapping>>,
    lookup: &mut CharMap<usize>,
    ch: char,
    entry: VariantMapping,
)
    requires
        filed(old(buckets)@, old(lookup)@),
    ensures
        filed(final(buckets)@, final(lookup)@),
        forall|c: char|
            #![trigger bucket_of(final(buckets)@, final(lookup)@, c)]
            bucket_of(final(buckets)@, final(lookup)@, c) == if c == ch {
                bucket_of(old(buckets)@, old(lookup)@, c).push(entry@)
            } else {
                bucket_of(old(buckets)@, old(lookup)@, c)
            },
{
    let ghost old_buckets = buckets@;
    let ghost old_lookup = lookup@;
    match lookup.get(ch) {
        Some(b) => {
            let ghost before = buckets@[b as int]@;
            buckets[b].push(entry);
            assert(mappings_view(buckets@[b as int]@) =~= mappings_view(before).push(entry@));
            assert forall|c: char|
                #![trigger bucket_of(buckets@, lookup@, c)]
                bucket_of(buckets@, lookup@, c) == if c == ch {
                    bucket_of(old_buckets, old_lookup, c).push(entry@)
                } else {
                    bucket_of(old_buckets, old_lookup, c)
                } by {
                if c != ch && lookup@.contains_key(c) {
                    assert(lookup@.contains_key(ch));
                    assert(lookup@[c] != lookup@[ch]);
                }
            }
        },
        None => {
            let b: usize = buckets.len();
            let mut bucket: Vec<VariantMapping> = Vec::new();
            bucket.push(entry);
            assert(mappings_view(bucket@) =~= Seq::<VariantMappingSpec>::empty().push(entry@));
            buckets.push(bucket);
            lookup.insert(ch, b);
            assert forall|c: char|
                #![trigger bucket_of(buckets@, lookup@, c)]
                bucket_of(buckets@, lookup@, c) == if c == ch {
                    bucket_of(old_buckets, old_lookup, c).push(entry@)
                } else {
                    bucket_of(old_buckets, old_lookup, c)
                } by {
                if c != ch && old_lookup.contains_key(c) {
                    assert(buckets@[old_lookup[c] as int] == old_buckets[old_lookup[c] as int]);
                }
            }
            assert(filed(buckets@, lookup@)) by {
                assert forall|c: char| #[trigger] lookup@.contains_key(c) implies lookup@[c]
                    < buckets@.len() && buckets@[lookup@[c] as int]@.len() > 0 by {
                    if c != ch {
                        assert(old_lookup.contains_key(c));
                        assert(buckets@[old_lookup[c] as int] == old_buckets[old_lookup[c] as int]);
                    }
                }
                assert forall|c: char, d: char|
                    #![trigger lookup@.contains_key(c), lookup@.contains_key(d)]
                    lookup@.contains_key(c) && lookup@.contains_key(d) && c != d implies lookup@[c]
                    != lookup@[d] by {
                    if c != ch {
                        assert(old_lookup.contains_key(c));
                    }
                    if d != ch {
                        assert(old_lookup.contains_key(d));
                    }
                }
            }
        },
    }
}


/// A store of variant mappings: the flat list of the mappings added, an
/// index by type, a lookup index by character that also holds the reverse
/// of each bidirectional mapping, and statistics over the flat list.
pub struct VariantMappings {
    mappings: Vec<VariantMapping>,
    semantic: Vec<VariantMapping>,
    spoofing: Vec<VariantMapping>,
    z_variant: Vec<VariantMapping>,
    specialized: Vec<VariantMapping>,
    script: Vec<VariantMapping>,
    buckets: Vec<Vec<VariantMapping>>,
    lookup: CharMap<usize>,
    statistics: VariantMappingStats,
}

impl View for VariantMappings {
    type V = Seq<VariantMappingSpec>;

    /// The mappings added to the store, in the order of insertion.
    closed spec fn view(&self) -> Seq<VariantMappingSpec> {
        mappings_view(self.mappings@)
    }
}

/// Whether the indexes and the statistics agree with the flat list.
spec fn consistent_parts(
    flat: Seq<VariantMappingSpec>,
    semantic: Seq<VariantMappingSpec>,
    spoofing: Seq<VariantMappingSpec>,
    z_variant: Seq<VariantMappingSpec>,
    specialized: Seq<VariantMappingSpec>,
    script: Seq<VariantMappingSpec>,
    buckets: Seq<Vec<VariantMapping>>,
    lookup: Map<char, usize>,
    statistics: VariantMappingStats,
) -> bool {
    &&& semantic == of_type(flat, VariantType::Semantic)
    &&& spoofing == of_type(flat, VariantType::Spoofing)
    &&& z_variant == of_type(flat, VariantType::ZVariant)
    &&& specialized == of_type(flat, VariantType::Specialized)
    &&& script == of_type(flat, VariantType::Script)
    &&& filed(buckets, lookup)
    &&& forall|c: char| #[trigger] bucket_of(buckets, lookup, c) == lookup_of(flat, c)
    &&& stats_of(statistics, flat)
}

/// Whether the indexes and the statistics of `store` agree with its flat
/// list.
spec fn consistent(store: VariantMappings) -> bool {
    consistent_parts(
        mappings_view(store.mappings@),
        mappings_view(store.semantic@),
        mappings_view(store.spoofing@),
        mappings_view(store.z_variant@),
        mappings_view(store.specialized@),
        mappings_view(store.script@),
        store.buckets@,
        store.lookup@,
        store.statistics,
    )
}

proof fn lemma_counts_bounded(mappings: Seq<VariantMappingSpec>)
    ensures
        count_bidirectional(mappings) <= mappings.len(),
        count_high_confidence(mappings) <= mappings.len(),
    decreases mappings.len(),
{
    if mappings.len() > 0 {
        lemma_counts_bounded(mappings.drop_last());
    }
}

impl VariantMappings {
    #[verifier::type_invariant]
    spec fn inv(self) -> bool {
        consistent(self)
    }

    /// Create a new empty variant mappings structure.
    pub fn new() -> (store: Self)
        ensures
            store@ == Seq::<VariantMappingSpec>::empty(),
    {
        let mappings: Vec<VariantMapping> = Vec::new();
        let semantic: Vec<VariantMapping> = Vec::new();
        let spoofing: Vec<VariantMapping> = Vec::new();
        let z_variant: Vec<VariantMapping> = Vec::new();
        let specialized: Vec<VariantMapping> = Vec::new();
        let script: Vec<VariantMapping> = Vec::new();
        let buckets: Vec<Vec<VariantMapping>> = Vec::new();
        let lookup: CharMap<usize> = CharMap::new();
        let statistics = VariantMappingStats {
            total_mappings: 0,
            semantic_mappings: 0,
            spoofing_mappings: 0,
            z_variant_mappings: 0,
            specialized_mappings: 0,
            bidirectional_mappings: 0,
            high_confidence_mappings: 0,
        };
        proof {
            let empty = Seq::<VariantMappingSpec>::empty();
            assert(mappings_view(mappings@) =~= empty);
            assert(mappings_view(semantic@) =~= empty);
            assert(mappings_view(spoofing@) =~= empty);
            assert(mappings_view(z_variant@) =~= empty);
            assert(mappings_view(specialized@) =~= empty);
            assert(mappings_view(script@) =~= empty);
            assert(consistent_parts(
                empty,
                empty,
                empty,
                empty,
                empty,
                empty,
                buckets@,
                lookup@,
                statistics,
            ));
        }
        let store = VariantMappings {
            mappings,
            semantic,
            spoofing,
            z_variant,
            specialized,
            script,
            buckets,
            lookup,
            statistics,
        };
        store
    }

    /// Add a variant mapping and update the indexes and the statistics.
    /// A bidirectional mapping is also filed, reversed, under its target;
    /// the flat list and the statistics count it once.
    pub fn add_mapping(&mut self, mapping: VariantMapping)
        ensures
            final(self)@ == old(self)@.push(mapping@),
    {
        proof {
            use_type_invariant(&*self);
        }
        let mut this = VariantMappings::new();
        std::mem::swap(self, &mut this);
        let ghost before = this@;
        let ghost after = before.push(mapping@);
        proof {
            assert(consistent(this));
            assert(after.drop_last() =~= before);
            assert(after.last() == mapping@);
            lemma_counts_bounded(before);
        }
        let ghost old_buckets = this.buckets@;
        let ghost old_lookup = this.lookup@;
        let VariantMappings {
            mut mappings,
            mut semantic,
            mut spoofing,
            mut z_variant,
            mut specialized,
            mut script,
            mut buckets,
            mut lookup,
            statistics,
        } = this;
        match mapping.variant_type {
            VariantType::Semantic => {
                let ghost list = mappings_view(semantic@);
                semantic.push(mapping.clone());
                assert(mappings_view(semantic@) =~= list.push(mapping@));
            },
            VariantType::Spoofing => {
                let ghost list = mappings_view(spoofing@);
                spoofing.push(mapping.clone());
                assert(mappings_view(spoofing@) =~= list.push(mapping@));
            },
            VariantType::ZVariant => {
                let ghost list = mappings_view(z_variant@);
                z_variant.push(mapping.clone());
                assert(mappings_view(z_variant@) =~= list.push(mapping@));
            },
            VariantType::Specialized => {
                let ghost list = mappings_view(specialized@);
                specialized.push(mapping.clone());
                assert(mappings_view(specialized@) =~= list.push(mapping@));
            },
            VariantType::Script => {
                let ghost list = mappings_view(script@);
                script.push(mapping.clone());
                assert(mappings_view(script@) =~= list.push(mapping@));
            },
        }
        file_under(&mut buckets, &mut lookup, mapping.source, mapping.clone());
        let ghost mid_buckets = buckets@;
        let ghost mid_lookup = lookup@;
        if mapping.bidirectional {
            let reverse_mapping = VariantMapping {
                source: mapping.target,
                target: mapping.source,
                variant_type: mapping.variant_type,
                confidence: mapping.confidence,
                bidirectional: true,
                source_info: mapping.source_info.clone(),
            };
            assert(reverse_mapping@ == reversed(mapping@));
            file_under(&mut buckets, &mut lookup, mapping.target, reverse_mapping);
        }
        let bidirectional = mapping.bidirectional;
        let high = mapping.is_high_confidence();
        let ghost list = mappings_view(mappings@);
        mappings.push(mapping);
        assert(mappings_view(mappings@) =~= after);
        let statistics = VariantMappingStats {
            total_mappings: mappings.len(),
            semantic_mappings: semantic.len(),
            spoofing_mappings: spoofing.len(),
            z_variant_mappings: z_variant.len(),
            specialized_mappings: specialized.len(),
            bidirectional_mappings: if bidirectional {
                statistics.bidirectional_mappings + 1
            } else {
                statistics.bidirectional_mappings
            },
            high_confidence_mappings: if high {
                statistics.high_confidence_mappings + 1
            } else {
                statistics.high_confidence_mappings
            },
        };
        proof {
            assert forall|c: char| #[trigger]
                bucket_of(buckets@, lookup@, c) == lookup_of(after, c) by {
                assert(bucket_of(old_buckets, old_lookup, c) == lookup_of(before, c));
                assert(bucket_of(mid_buckets, mid_lookup, c) == if c == mapping@.source {
                    bucket_of(old_buckets, old_lookup, c).push(mapping@)
                } else {
                    bucket_of(old_buckets, old_lookup, c)
                });
            }
        }
        assert(consistent_parts(
            mappings_view(mappings@),
            mappings_view(semantic@),
            mappings_view(spoofing@),
            mappings_view(z_variant@),
            mappings_view(specialized@),
            mappings_view(script@),
            buckets@,
            lookup@,
            statistics,
        ));
        *self = VariantMappings {
            mappings,
            semantic,
            spoofing,
            z_variant,
            specialized,
            script,
            buckets,
            lookup,
            statistics,
        };
    }

    /// Get all lookup entries for a character, in the order of insertion.
    pub fn get_mappings(&self, ch: char) -> (entries: Option<&Vec<VariantMapping>>)
        ensures
            match entries {
                Some(list) => mappings_view(list@) == lookup_of(self@, ch) && list@.len() > 0,
                None => lookup_of(self@, ch).len() == 0,
            },
    {
        proof {
            use_type_invariant(self);
            assert(bucket_of(self.buckets@, self.lookup@, ch) == lookup_of(self@, ch));
        }
        match self.lookup.get(ch) {
            Some(b) => Some(&self.buckets[b]),
            None => None,
        }
    }

    /// Get best mapping for a character: the lookup entry of the highest
    /// confidence, and among several of that confidence the first inserted.
    pub fn get_best_mapping(&self, ch: char) -> (best: Option<&VariantMapping>)
        ensures
            match best {
                Some(mapping) => best_of(lookup_of(self@, ch)) == Some(mapping@),
                None => best_of(lookup_of(self@, ch)) is None,
            },
    {
        match self.get_mappings(ch) {
            Some(list) => {
                let mut best: usize = 0;
                let mut i: usize = 1;
                assert(mappings_view(list@).take(1).len() == 1);
                while i < list.len()
                    invariant
                        1 <= i <= list.len(),
                        best < i,
                        best == best_index(mappings_view(list@).take(i as int)),
                    decreases list.len() - i,
                {
                    let ghost views = mappings_view(list@);
                    assert(views.take(i + 1).drop_last() =~= views.take(i as int));
                    assert(views.take(i + 1).last() == list@[i as int]@);
                    assert(views.take(i + 1)[best as int] == list@[best as int]@);
                    if list[i].confidence > list[best].confidence {
                        best = i;
                    }
                    i += 1;
                }
                assert(mappings_view(list@).take(i as int) =~= mappings_view(list@));
                Some(&list[best])
            },
            None => None,
        }
    }

    /// The mappings added to the store, in the order of insertion.
    pub fn mappings(&self) -> (list: &Vec<VariantMapping>)
        ensures
            mappings_view(list@) == self@,
    {
        &self.mappings
    }

    /// The mappings of the given type, in the order of insertion.
    pub fn get_by_type(&self, variant_type: VariantType) -> (list: &Vec<VariantMapping>)
        ensures
            mappings_view(list@) == of_type(self@, variant_type),
    {
        proof {
            use_type_invariant(self);
        }
        match variant_type {
            VariantType::Semantic => &self.semantic,
            VariantType::Spoofing => &self.spoofing,
            VariantType::ZVariant => &self.z_variant,
            VariantType::Specialized => &self.specialized,
            VariantType::Script => &self.script,
        }
    }

    /// The statistics over the mappings added: each counted once.
    pub fn statistics(&self) -> (stats: &VariantMappingStats)
        ensures
            stats_of(*stats, self@),
    {
        proof {
            use_type_invariant(self);
        }
        &self.statistics
    }
}

} // verus!
