//! Script conversion (Traditional ↔ Simplified Chinese).
//!
//! A character is converted by an external conversion service where one
//! has answered for it with a different character, and otherwise through
//! the converter's own tables. The service is consulted by the caller, who
//! hands its answers over position by position.

use crate::normalizers::substitution::{emitted, reason_text, record_change, rewritten};
use crate::types::{
    changes_view, script_mappings_view, script_table_view, ChangeSpec, ChangeType, Script,
    ScriptMapping, ScriptMappingSpec, TextChange,
};
use crate::utils::json::{char_string, entries_view, first_char, load_entries};
use crate::utils::text::{from_chars, to_chars};
use vstd::hash_map::StringHashMap;
use vstd::prelude::*;
use vstd::string::StringExecFns;

verus! {

/// The direction of a script conversion.
#[derive(Debug, Clone, Copy, PartialEq, Eq, Structural)]
pub enum Direction {
    ToSimplified,
    ToTraditional,
}

/// Converter for Traditional ↔ Simplified Chinese script conversion.
pub struct ScriptConverter {
    traditional_to_simplified: StringHashMap<Vec<ScriptMapping>>,
    simplified_to_traditional: StringHashMap<Vec<ScriptMapping>>,
}

/// The tables of a converter: for each string of one script the list of
/// its candidates in the other.
pub ghost struct ScriptTablesSpec {
    pub traditional_to_simplified: Map<Seq<char>, Seq<ScriptMappingSpec>>,
    pub simplified_to_traditional: Map<Seq<char>, Seq<ScriptMappingSpec>>,
}

/// The Traditional characters of the built-in pairs.
pub const FALLBACK_TRADITIONAL: &'static str = "書說這個為國語學員參";

/// The Simplified characters of the built-in pairs, in the order of their
/// Traditional counterparts.
pub const FALLBACK_SIMPLIFIED: &'static str = "书说这个为国语学员参";

/// The number of built-in pairs.
pub const FALLBACK_COUNT: usize = 10;

/// The direction in which a text detected as `detected` is converted to
/// reach `target`; none unless one is Traditional and the other Simplified.
pub open spec fn direction_of(detected: Script, target: Script) -> Option<Direction> {
    match (detected, target) {
        (Script::TraditionalChinese, Script::SimplifiedChinese) => Some(Direction::ToSimplified),
        (Script::SimplifiedChinese, Script::TraditionalChinese) => Some(Direction::ToTraditional),
        _ => None,
    }
}

/// The candidates filed under `key`.
pub open spec fn candidates(table: Map<Seq<char>, Seq<ScriptMappingSpec>>, key: Seq<char>) -> Seq<
    ScriptMappingSpec,
> {
    if table.contains_key(key) {
        table[key]
    } else {
        Seq::empty()
    }
}

/// `table` with `mapping` added to the candidates of `key`.
pub open spec fn with_candidate(
    table: Map<Seq<char>, Seq<ScriptMappingSpec>>,
    key: Seq<char>,
    mapping: ScriptMappingSpec,
) -> Map<Seq<char>, Seq<ScriptMappingSpec>> {
    table.insert(key, candidates(table, key).push(mapping))
}

/// A mapping between `traditional` and `simplified` without readings, of
/// frequency 1.
pub open spec fn plain_mapping(traditional: Seq<char>, simplified: Seq<char>) -> ScriptMappingSpec {
    ScriptMappingSpec {
        traditional,
        simplified,
        pinyin: Seq::empty(),
        zhuyin: Seq::empty(),
        frequency: 1,
    }
}

/// The table made of `entries`, each read as a pair of key and value. The
/// keys are Traditional where `from_traditional` holds, Simplified where
/// not.
pub open spec fn grouped(entries: Seq<(Seq<char>, Seq<char>)>, from_traditional: bool) -> Map<
    Seq<char>,
    Seq<ScriptMappingSpec>,
>
    decreases entries.len(),
{
    if entries.len() == 0 {
        Map::empty()
    } else {
        let before = grouped(entries.drop_last(), from_traditional);
        let (key, value) = entries.last();
        let mapping = if from_traditional {
            plain_mapping(key, value)
        } else {
            plain_mapping(value, key)
        };
        with_candidate(before, key, mapping)
    }
}

/// `tables` with the first `n` built-in pairs added in both directions.
pub open spec fn with_fallback(tables: ScriptTablesSpec, n: int) -> ScriptTablesSpec
    decreases n,
{
    if n <= 0 {
        tables
    } else {
        let before = with_fallback(tables, n - 1);
        let traditional = seq![FALLBACK_TRADITIONAL@[n - 1]];
        let simplified = seq![FALLBACK_SIMPLIFIED@[n - 1]];
        let mapping = plain_mapping(traditional, simplified);
        ScriptTablesSpec {
            traditional_to_simplified: with_candidate(
                before.traditional_to_simplified,
                traditional,
                mapping,
            ),
            simplified_to_traditional: with_candidate(
                before.simplified_to_traditional,
                simplified,
                mapping,
            ),
        }
    }
}

/// The tables made of the entries of the two table documents. Where the
/// Traditional-to-Simplified table comes out empty, the built-in pairs are
/// added in both directions.
pub open spec fn loaded_tables(
    traditional_entries: Seq<(Seq<char>, Seq<char>)>,
    simplified_entries: Seq<(Seq<char>, Seq<char>)>,
) -> ScriptTablesSpec {
    let tables = ScriptTablesSpec {
        traditional_to_simplified: grouped(traditional_entries, true),
        simplified_to_traditional: grouped(simplified_entries, false),
    };
    if tables.traditional_to_simplified.dom() =~= Set::empty() {
        with_fallback(tables, FALLBACK_COUNT as int)
    } else {
        tables
    }
}

/// What the table `table` offers for `ch`: the first character of the
/// chosen side of the first candidate filed under `ch`, or `ch` itself
/// where that side is empty; nothing where no candidate is filed.
pub open spec fn table_candidate(
    table: Map<Seq<char>, Seq<ScriptMappingSpec>>,
    ch: char,
    direction: Direction,
) -> Option<char> {
    let list = candidates(table, seq![ch]);
    if list.len() > 0 {
        let side = match direction {
            Direction::ToSimplified => list[0].simplified,
            Direction::ToTraditional => list[0].traditional,
        };
        Some(
            if side.len() > 0 {
                side[0]
            } else {
                ch
            },
        )
    } else {
        None
    }
}

/// The table consulted for `direction`.
pub open spec fn table_for(tables: ScriptTablesSpec, direction: Direction) -> Map<
    Seq<char>,
    Seq<ScriptMappingSpec>,
> {
    match direction {
        Direction::ToSimplified => tables.traditional_to_simplified,
        Direction::ToTraditional => tables.simplified_to_traditional,
    }
}

/// The answer of the external service for position `i`, if it gave one.
pub open spec fn external_answer(external: Seq<Option<char>>, i: int) -> Option<char> {
    if 0 <= i < external.len() {
        external[i]
    } else {
        None
    }
}

/// The words before the original character in a reason.
pub open spec fn lead_of(direction: Direction) -> Seq<char> {
    match direction {
        Direction::ToSimplified => "Traditional "@,
        Direction::ToTraditional => "Simplified "@,
    }
}

/// The words between the two characters in a reason.
pub open spec fn middle_of(direction: Direction) -> Seq<char> {
    match direction {
        Direction::ToSimplified => " → Simplified "@,
        Direction::ToTraditional => " → Traditional "@,
    }
}

/// The change of `c` at position `i` into `converted`, for a reason that
/// ends in `origin`.
pub open spec fn conversion_change(
    direction: Direction,
    i: int,
    c: char,
    converted: char,
    origin: Seq<char>,
) -> ChangeSpec {
    ChangeSpec {
        position: i,
        original_char: c,
        normalized_char: converted,
        change_type: ChangeType::ScriptConversion,
        reason: lead_of(direction) + seq![c] + middle_of(direction) + seq![converted] + origin,
    }
}

/// What script conversion decides for the character `c` at position `i`,
/// given the answer of the external service for it: that answer where it
/// differs from the character; failing that, the offer of the table where
/// it differs from the character; failing that, no change.
pub open spec fn char_decision(
    tables: ScriptTablesSpec,
    direction: Direction,
    answer: Option<char>,
    i: int,
    c: char,
) -> Option<ChangeSpec> {
    match answer {
        Some(converted) if converted != c => Some(
            conversion_change(direction, i, c, converted, " (OpenCC)"@),
        ),
        _ => match table_candidate(table_for(tables, direction), c, direction) {
            Some(offer) if offer != c => Some(
                conversion_change(direction, i, c, offer, " (Unihan)"@),
            ),
            _ => None,
        },
    }
}

/// What script conversion decides for each character of a text, given the
/// answers of the external service position by position.
pub open spec fn conversion_decision(
    tables: ScriptTablesSpec,
    direction: Direction,
    external: Seq<Option<char>>,
) -> spec_fn(int, char) -> Option<ChangeSpec> {
    |i: int, c: char| char_decision(tables, direction, external_answer(external, i), i, c)
}

/// The value of a change that may have been made.
pub open spec fn made_change(change: Option<TextChange>) -> Option<ChangeSpec> {
    match change {
        Some(made) => Some(made@),
        None => None,
    }
}

/// The text that script conversion returns.
pub open spec fn converted_text(
    tables: ScriptTablesSpec,
    text: Seq<char>,
    target: Script,
    detected: Script,
    external: Seq<Option<char>>,
) -> Seq<char> {
    match direction_of(detected, target) {
        Some(direction) => rewritten(text, conversion_decision(tables, direction, external)),
        None => text,
    }
}

/// The changes that script conversion reports.
pub open spec fn conversion_changes(
    tables: ScriptTablesSpec,
    text: Seq<char>,
    target: Script,
    detected: Script,
    external: Seq<Option<char>>,
) -> Seq<ChangeSpec> {
    match direction_of(detected, target) {
        Some(direction) => emitted(
            text,
            conversion_decision(tables, direction, external),
            text.len() as int,
        ),
        None => Seq::empty(),
    }
}

/// Where the external service gives no answer and the table offers no
/// candidate for any character of `text`, script conversion returns the
/// text as it is and reports nothing, whatever the scripts are.
pub proof fn lemma_unconverted_text_is_kept(
    tables: ScriptTablesSpec,
    text: Seq<char>,
    target: Script,
    detected: Script,
    external: Seq<Option<char>>,
)
    requires
        forall|i: int| 0 <= i < text.len() ==> external_answer(external, i) is None,
        forall|i: int|
            0 <= i < text.len() ==> !tables.traditional_to_simplified.contains_key(
                seq![#[trigger] text[i]],
            ) && !tables.simplified_to_traditional.contains_key(seq![text[i]]),
    ensures
        converted_text(tables, text, target, detected, external) == text,
        conversion_changes(tables, text, target, detected, external) == Seq::<ChangeSpec>::empty(),
{
    match direction_of(detected, target) {
        Some(direction) => {
            let decide = conversion_decision(tables, direction, external);
            assert forall|i: int| 0 <= i < text.len() implies decide(i, text[i]) is None by {
                assert(external_answer(external, i) is None);
                assert(!tables.traditional_to_simplified.contains_key(seq![text[i]]));
            }
            crate::normalizers::substitution::lemma_undecided_text_is_kept(text, decide);
        },
        None => {},
    }
}

/// A copy of `list`.
fn clone_candidates(list: &Vec<ScriptMapping>) -> (copy: Vec<ScriptMapping>)
    ensures
        script_mappings_view(copy@) == script_mappings_view(list@),
{
    let mut copy: Vec<ScriptMapping> = Vec::new();
    let mut i: usize = 0;
    while i < list.len()
        invariant
            i <= list.len(),
            script_mappings_view(copy@) == script_mappings_view(list@).take(i as int),
        decreases list.len() - i,
    {
        let ghost before = script_mappings_view(copy@);
        copy.push(list[i].clone());
        i += 1;
        assert(script_mappings_view(copy@) =~= before.push(list@[i - 1]@));
        assert(script_mappings_view(list@).take(i as int) =~= before.push(list@[i - 1]@));
    }
    assert(script_mappings_view(list@).take(i as int) =~= script_mappings_view(list@));
    copy
}

/// Adds `mapping` to the candidates filed under `key`.
fn add_candidate(table: &mut StringHashMap<Vec<ScriptMapping>>, key: String, mapping: ScriptMapping)
    ensures
        script_table_view(final(table)@) == with_candidate(
            script_table_view(old(table)@),
            key@,
            mapping@,
        ),
{
    let ghost before = script_table_view(table@);
    let mut list = match table.get(key.as_str()) {
        Some(found) => clone_candidates(found),
        None => Vec::new(),
    };
    assert(script_mappings_view(list@) =~= candidates(before, key@));
    list.push(mapping);
    assert(script_mappings_view(list@) =~= candidates(before, key@).push(mapping@));
    table.insert(key, list);
    assert(script_table_view(table@) =~= with_candidate(before, key@, mapping@));
}

/// A mapping between `traditional` and `simplified` without readings, of
/// frequency 1.
fn new_mapping(traditional: String, simplified: String) -> (mapping: ScriptMapping)
    ensures
        mapping@ == plain_mapping(traditional@, simplified@),
{
    ScriptMapping {
        traditional,
        simplified,
        pinyin: String::new(),
        zhuyin: String::new(),
        frequency: 1,
    }
}

/// The table made of `entries`.
fn group(entries: &Vec<(String, String)>, from_traditional: bool) -> (table: StringHashMap<
    Vec<ScriptMapping>,
>)
    ensures
        script_table_view(table@) == grouped(entries_view(entries@), from_traditional),
{
    let mut table: StringHashMap<Vec<ScriptMapping>> = StringHashMap::new();
    assert(script_table_view(table@) =~= Map::<Seq<char>, Seq<ScriptMappingSpec>>::empty());
    let mut i: usize = 0;
    while i < entries.len()
        invariant
            i <= entries.len(),
            script_table_view(table@) == grouped(
                entries_view(entries@).take(i as int),
                from_traditional,
            ),
        decreases entries.len() - i,
    {
        let ghost views = entries_view(entries@);
        assert(views.take(i + 1).drop_last() =~= views.take(i as int));
        assert(views.take(i + 1).last() == (entries@[i as int].0@, entries@[i as int].1@));
        let key = entries[i].0.clone();
        let value = entries[i].1.clone();
        let mapping = if from_traditional {
            new_mapping(key.clone(), value)
        } else {
            new_mapping(value, key.clone())
        };
        add_candidate(&mut table, key, mapping);
        i += 1;
    }
    assert(entries_view(entries@).take(i as int) =~= entries_view(entries@));
    table
}

impl View for ScriptConverter {
    type V = ScriptTablesSpec;

    closed spec fn view(&self) -> ScriptTablesSpec {
        ScriptTablesSpec {
            traditional_to_simplified: script_table_view(self.traditional_to_simplified@),
            simplified_to_traditional: script_table_view(self.simplified_to_traditional@),
        }
    }
}

impl ScriptConverter {
    /// Create a new script converter that holds the built-in pairs.
    pub fn new() -> (converter: Self)
        ensures
            converter@ == loaded_tables(Seq::empty(), Seq::empty()),
    {
        let none: Vec<(String, String)> = Vec::new();
        assert(entries_view(none@) =~= Seq::empty());
        Self::from_entries(&none, &none)
    }

    /// Create a script converter from the two table documents: JSON objects
    /// that map a Traditional string to its Simplified form and a
    /// Simplified string to its Traditional form. A document that is no
    /// object of strings counts as empty.
    pub fn from_json(traditional_to_simplified: &str, simplified_to_traditional: &str) -> (converter:
        Self)
        ensures
            converter@ == loaded_tables(
                match crate::utils::json::json_string_entries(traditional_to_simplified@) {
                    Some(entries) => entries,
                    None => Seq::empty(),
                },
                match crate::utils::json::json_string_entries(simplified_to_traditional@) {
                    Some(entries) => entries,
                    None => Seq::empty(),
                },
            ),
    {
        let traditional_entries = match load_entries(traditional_to_simplified) {
            Some(entries) => entries,
            None => {
                let none: Vec<(String, String)> = Vec::new();
                assert(entries_view(none@) =~= Seq::empty());
                none
            },
        };
        let simplified_entries = match load_entries(simplified_to_traditional) {
            Some(entries) => entries,
            None => {
                let none: Vec<(String, String)> = Vec::new();
                assert(entries_view(none@) =~= Seq::empty());
                none
            },
        };
        Self::from_entries(&traditional_entries, &simplified_entries)
    }

    /// Create a script converter from the entries of the two tables. Where
    /// the Traditional-to-Simplified table comes out empty, the built-in
    /// pairs are added in both directions.
    pub fn from_entries(
        traditional_entries: &Vec<(String, String)>,
        simplified_entries: &Vec<(String, String)>,
    ) -> (converter: Self)
        ensures
            converter@ == loaded_tables(
                entries_view(traditional_entries@),
                entries_view(simplified_entries@),
            ),
    {
        let mut traditional_to_simplified = group(traditional_entries, true);
        let mut simplified_to_traditional = group(simplified_entries, false);
        let ghost loaded = ScriptTablesSpec {
            traditional_to_simplified: script_table_view(traditional_to_simplified@),
            simplified_to_traditional: script_table_view(simplified_to_traditional@),
        };
        assert(traditional_to_simplified@.is_empty() == (loaded.traditional_to_simplified.dom()
            =~= Set::empty())) by {
            if traditional_to_simplified@.is_empty() {
                assert(loaded.traditional_to_simplified.dom() =~= Set::empty());
            } else {
                let key = choose|key: Seq<char>| traditional_to_simplified@.dom().contains(key);
                assert(loaded.traditional_to_simplified.dom().contains(key));
            }
        }
        if traditional_to_simplified.is_empty() {
            let traditional = to_chars(FALLBACK_TRADITIONAL);
            let simplified = to_chars(FALLBACK_SIMPLIFIED);
            proof {
                reveal_strlit("書說這個為國語學員參");
                reveal_strlit("书说这个为国语学员参");
            }
            let mut i: usize = 0;
            while i < FALLBACK_COUNT
                invariant
                    i <= FALLBACK_COUNT,
                    traditional@ == FALLBACK_TRADITIONAL@,
                    simplified@ == FALLBACK_SIMPLIFIED@,
                    traditional@.len() == FALLBACK_COUNT,
                    simplified@.len() == FALLBACK_COUNT,
                    (ScriptTablesSpec {
                        traditional_to_simplified: script_table_view(traditional_to_simplified@),
                        simplified_to_traditional: script_table_view(simplified_to_traditional@),
                    }) == with_fallback(loaded, i as int),
                decreases FALLBACK_COUNT - i,
            {
                let trad = char_string(traditional[i]);
                let simp = char_string(simplified[i]);
                let mapping = new_mapping(trad.clone(), simp.clone());
                add_candidate(&mut traditional_to_simplified, trad, mapping.clone());
                add_candidate(&mut simplified_to_traditional, simp, mapping);
                i += 1;
            }
        }
        ScriptConverter { traditional_to_simplified, simplified_to_traditional }
    }

    /// The direction in which a text detected as `detected` has to be
    /// converted to reach `target`, if any.
    pub fn direction(detected: Script, target: Script) -> (direction: Option<Direction>)
        ensures
            direction == direction_of(detected, target),
    {
        match (detected, target) {
            (Script::TraditionalChinese, Script::SimplifiedChinese) => Some(
                Direction::ToSimplified,
            ),
            (Script::SimplifiedChinese, Script::TraditionalChinese) => Some(
                Direction::ToTraditional,
            ),
            _ => None,
        }
    }

    /// What the converter's own table offers for `ch` in `direction`.
    pub fn lookup(&self, ch: char, direction: Direction) -> (offer: Option<char>)
        ensures
            offer == table_candidate(table_for(self@, direction), ch, direction),
    {
        let key = char_string(ch);
        let table = match direction {
            Direction::ToSimplified => &self.traditional_to_simplified,
            Direction::ToTraditional => &self.simplified_to_traditional,
        };
        match table.get(key.as_str()) {
            Some(list) => {
                if list.len() > 0 {
                    let side = match direction {
                        Direction::ToSimplified => first_char(list[0].simplified.as_str()),
                        Direction::ToTraditional => first_char(list[0].traditional.as_str()),
                    };
                    assert(script_mappings_view(list@)[0] == list@[0]@);
                    match side {
                        Some(first) => Some(first),
                        None => Some(ch),
                    }
                } else {
                    None
                }
            },
            None => None,
        }
    }

    /// Convert text between Traditional and Simplified Chinese through the
    /// converter's own tables.
    pub fn convert(&self, text: &str, target_script: Script, detected_script: Script) -> (result: (
        String,
        Vec<TextChange>,
    ))
        ensures
            result.0@ == converted_text(
                self@,
                text@,
                target_script,
                detected_script,
                Seq::empty(),
            ),
            changes_view(result.1@) == conversion_changes(
                self@,
                text@,
                target_script,
                detected_script,
                Seq::empty(),
            ),
    {
        let external: Vec<Option<char>> = Vec::new();
        self.convert_with(text, target_script, detected_script, &external)
    }

    /// Convert text between Traditional and Simplified Chinese. `external`
    /// holds, for each position of `text` that the external conversion
    /// service answered for, the character it gave; positions beyond its
    /// end count as unanswered.
    pub fn convert_with(
        &self,
        text: &str,
        target_script: Script,
        detected_script: Script,
        external: &Vec<Option<char>>,
    ) -> (result: (String, Vec<TextChange>))
        ensures
            result.0@ == converted_text(
                self@,
                text@,
                target_script,
                detected_script,
                external@,
            ),
            changes_view(result.1@) == conversion_changes(
                self@,
                text@,
                target_script,
                detected_script,
                external@,
            ),
    {
        let mut changes: Vec<TextChange> = Vec::new();
        assert(changes_view(changes@) =~= Seq::<ChangeSpec>::empty());
        let direction = match Self::direction(detected_script, target_script) {
            Some(direction) => direction,
            None => {
                return (text.to_owned(), changes);
            },
        };
        let ghost decide = conversion_decision(self@, direction, external@);
        let chars = to_chars(text);
        let mut out: Vec<char> = Vec::new();
        let mut pos: usize = 0;
        while pos < chars.len()
            invariant
                pos <= chars.len(),
                chars@ == text@,
                decide == conversion_decision(self@, direction, external@),
                out@ == rewritten(text@, decide).subrange(0, pos as int),
                changes_view(changes@) == emitted(text@, decide, pos as int),
            decreases chars.len() - pos,
        {
            let ch = chars[pos];
            let answer: Option<char> = if pos < external.len() {
                external[pos]
            } else {
                None
            };
            let (converted, change) = self.convert_char(ch, pos, direction, answer);
            out.push(converted);
            match change {
                Some(change) => {
                    record_change(&mut changes, change);
                },
                None => {},
            }
            pos += 1;
            assert(out@ =~= rewritten(text@, decide).subrange(0, pos as int));
        }
        assert(out@ =~= rewritten(text@, decide));
        (from_chars(&out), changes)
    }

    /// Converts the character `ch` found at position `pos`, given what the
    /// external service answered for it.
    pub fn convert_char(
        &self,
        ch: char,
        pos: usize,
        direction: Direction,
        answer: Option<char>,
    ) -> (result: (char, Option<TextChange>))
        ensures
            made_change(result.1) == char_decision(self@, direction, answer, pos as int, ch),
            result.0 == match char_decision(self@, direction, answer, pos as int, ch) {
                Some(change) => change.normalized_char,
                None => ch,
            },
    {
        let (lead, middle) = match direction {
            Direction::ToSimplified => ("Traditional ", " → Simplified "),
            Direction::ToTraditional => ("Simplified ", " → Traditional "),
        };
        match answer {
            Some(converted) => {
                if converted != ch {
                    let mut reason = reason_text(lead, ch, middle, converted);
                    reason.append(" (OpenCC)");
                    return (
                        converted,
                        Some(
                            TextChange {
                                position: pos,
                                original_char: ch,
                                normalized_char: converted,
                                change_type: ChangeType::ScriptConversion,
                                reason,
                            },
                        ),
                    );
                }
            },
            None => {},
        }
        match self.lookup(ch, direction) {
            Some(converted) => {
                if converted != ch {
                    let mut reason = reason_text(lead, ch, middle, converted);
                    reason.append(" (Unihan)");
                    return (
                        converted,
                        Some(
                            TextChange {
                                position: pos,
                                original_char: ch,
                                normalized_char: converted,
                                change_type: ChangeType::ScriptConversion,
                                reason,
                            },
                        ),
                    );
                }
            },
            None => {},
        }
        (ch, None)
    }
}

impl Default for ScriptConverter {
    fn default() -> (converter: Self)
        ensures
            converter@ == loaded_tables(Seq::empty(), Seq::empty()),
    {
        ScriptConverter::new()
    }
}

} // verus!
