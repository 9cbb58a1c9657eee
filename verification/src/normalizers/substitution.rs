//! Character-by-character substitution, the shape shared by every stage
//! that rewrites text through a table.
//!
//! A stage is described by a decision function: for a position and the
//! character found there it either names the change to make or leaves the
//! character alone. The text a stage produces and the changes it reports
//! are both determined by that function.

use crate::types::{
    changes_view, ChangeSpec, ChangeType, NormalizedText, NormalizedTextSpec, Script, TextChange,
};
use crate::utils::char_map::CharMap;
use crate::utils::text::{from_chars, to_chars};
use vstd::prelude::*;
use vstd::string::StringExecFns;

verus! {

/// The text after every decided change has been applied.
pub open spec fn rewritten(text: Seq<char>, decide: spec_fn(int, char) -> Option<ChangeSpec>) -> Seq<
    char,
> {
    Seq::new(
        text.len(),
        |i: int|
            match decide(i, text[i]) {
                Some(change) => change.normalized_char,
                None => text[i],
            },
    )
}

/// The changes decided for the first `n` characters, from left to right.
pub open spec fn emitted(
    text: Seq<char>,
    decide: spec_fn(int, char) -> Option<ChangeSpec>,
    n: int,
) -> Seq<ChangeSpec>
    decreases n,
{
    if n <= 0 {
        Seq::empty()
    } else {
        let before = emitted(text, decide, n - 1);
        match decide(n - 1, text[n - 1]) {
            Some(change) => before.push(change),
            None => before,
        }
    }
}

/// What a stage returns for `text`: the rewritten text and every change,
/// with no script detected and no time measured.
pub open spec fn stage_result(
    text: Seq<char>,
    decide: spec_fn(int, char) -> Option<ChangeSpec>,
) -> NormalizedTextSpec {
    NormalizedTextSpec {
        original: text,
        normalized: rewritten(text, decide),
        changes: emitted(text, decide, text.len() as int),
        detected_script: Script::Auto,
        processing_time_ms: 0,
    }
}

/// The decision of a table stage: a character that is a key of `table` is
/// replaced by the table's value, whatever its position. The reason reads
/// `lead`, the original character, `middle`, the new character.
pub open spec fn table_decision(
    table: Map<char, char>,
    change_type: ChangeType,
    lead: Seq<char>,
    middle: Seq<char>,
) -> spec_fn(int, char) -> Option<ChangeSpec> {
    |i: int, c: char|
        if table.contains_key(c) {
            Some(
                ChangeSpec {
                    position: i,
                    original_char: c,
                    normalized_char: table[c],
                    change_type,
                    reason: lead + seq![c] + middle + seq![table[c]],
                },
            )
        } else {
            None
        }
}

/// A stage that decides no change for any character of `text` returns the
/// text as it is and reports nothing.
pub proof fn lemma_undecided_text_is_kept(
    text: Seq<char>,
    decide: spec_fn(int, char) -> Option<ChangeSpec>,
)
    requires
        forall|i: int| 0 <= i < text.len() ==> decide(i, text[i]) is None,
    ensures
        rewritten(text, decide) == text,
        emitted(text, decide, text.len() as int) == Seq::<ChangeSpec>::empty(),
{
    assert(rewritten(text, decide) =~= text);
    lemma_undecided_prefix(text, decide, text.len() as int);
}

proof fn lemma_undecided_prefix(
    text: Seq<char>,
    decide: spec_fn(int, char) -> Option<ChangeSpec>,
    n: int,
)
    requires
        n <= text.len(),
        forall|i: int| 0 <= i < text.len() ==> decide(i, text[i]) is None,
    ensures
        emitted(text, decide, n) == Seq::<ChangeSpec>::empty(),
    decreases n,
{
    if n > 0 {
        lemma_undecided_prefix(text, decide, n - 1);
    }
}

/// A table stage leaves a text without any key of the table unchanged and
/// reports no change.
pub proof fn lemma_unmapped_text_is_kept(
    table: Map<char, char>,
    change_type: ChangeType,
    lead: Seq<char>,
    middle: Seq<char>,
    text: Seq<char>,
)
    requires
        forall|i: int| 0 <= i < text.len() ==> !table.contains_key(#[trigger] text[i]),
    ensures
        stage_result(text, table_decision(table, change_type, lead, middle)) == (NormalizedTextSpec {
            original: text,
            normalized: text,
            changes: Seq::empty(),
            detected_script: Script::Auto,
            processing_time_ms: 0,
        }),
{
    lemma_undecided_text_is_kept(text, table_decision(table, change_type, lead, middle));
}

/// Running a table stage twice gives the same text as running it once,
/// provided that no value of the table is itself a key mapped elsewhere.
pub proof fn lemma_table_stage_idempotent(
    table: Map<char, char>,
    change_type: ChangeType,
    lead: Seq<char>,
    middle: Seq<char>,
    text: Seq<char>,
)
    requires
        forall|k: char| #[trigger]
            table.contains_key(k) && table.contains_key(table[k]) ==> table[table[k]] == table[k],
    ensures
        ({
            let decide = table_decision(table, change_type, lead, middle);
            rewritten(rewritten(text, decide), decide) == rewritten(text, decide)
        }),
{
    let decide = table_decision(table, change_type, lead, middle);
    let once = rewritten(text, decide);
    assert forall|i: int| 0 <= i < once.len() implies #[trigger] rewritten(once, decide)[i]
        == once[i] by {
        if table.contains_key(text[i]) {
            assert(once[i] == table[text[i]]);
        }
    }
    assert(rewritten(once, decide) =~= once);
}

/// Where no value of the table is a key, a second run of a table stage
/// reports no change at all.
pub proof fn lemma_table_stage_settles(
    table: Map<char, char>,
    change_type: ChangeType,
    lead: Seq<char>,
    middle: Seq<char>,
    text: Seq<char>,
)
    requires
        forall|k: char| #[trigger] table.contains_key(k) ==> !table.contains_key(table[k]),
    ensures
        ({
            let decide = table_decision(table, change_type, lead, middle);
            stage_result(rewritten(text, decide), decide).changes == Seq::<ChangeSpec>::empty()
        }),
{
    let decide = table_decision(table, change_type, lead, middle);
    let once = rewritten(text, decide);
    assert forall|i: int| 0 <= i < once.len() implies !table.contains_key(#[trigger] once[i]) by {
        if table.contains_key(text[i]) {
            assert(once[i] == table[text[i]]);
        }
    }
    lemma_unmapped_text_is_kept(table, change_type, lead, middle, once);
}

/// Appends `change` to the log.
pub fn record_change(changes: &mut Vec<TextChange>, change: TextChange)
    ensures
        changes_view(final(changes)@) == changes_view(old(changes)@).push(change@),
{
    changes.push(change);
    assert(changes_view(changes@) =~= changes_view(old(changes)@).push(change@));
}

/// The sentence `lead from middle to`, used as the reason of a change.
pub fn reason_text(lead: &str, from: char, middle: &str, to: char) -> (reason: String)
    ensures
        reason@ == lead@ + seq![from] + middle@ + seq![to],
{
    let mut reason = String::from_str(lead);
    reason.push(from);
    reason.append(middle);
    reason.push(to);
    assert(reason@ =~= lead@ + seq![from] + middle@ + seq![to]);
    reason
}

/// Applies the one-to-one `table` to each character of `text`, reporting
/// each hit as a change of type `change_type` whose reason is made of
/// `lead`, the original character, `middle` and the new character.
pub fn apply_table(
    table: &CharMap<char>,
    text: &str,
    change_type: ChangeType,
    lead: &str,
    middle: &str,
) -> (result: NormalizedText)
    ensures
        result@ == stage_result(
            text@,
            table_decision(table@, change_type, lead@, middle@),
        ),
{
    let ghost decide = table_decision(table@, change_type, lead@, middle@);
    let chars = to_chars(text);
    let mut out: Vec<char> = Vec::new();
    let mut changes: Vec<TextChange> = Vec::new();
    let mut pos: usize = 0;
    while pos < chars.len()
        invariant
            pos <= chars.len(),
            chars@ == text@,
            decide == table_decision(table@, change_type, lead@, middle@),
            out@ == rewritten(text@, decide).subrange(0, pos as int),
            changes_view(changes@) == emitted(text@, decide, pos as int),
        decreases chars.len() - pos,
    {
        let ch = chars[pos];
        match table.get(ch) {
            Some(normalized) => {
                out.push(normalized);
                let change = TextChange {
                    position: pos,
                    original_char: ch,
                    normalized_char: normalized,
                    change_type,
                    reason: reason_text(lead, ch, middle, normalized),
                };
                record_change(&mut changes, change);
            },
            None => {
                out.push(ch);
            },
        }
        pos += 1;
        assert(out@ =~= rewritten(text@, decide).subrange(0, pos as int));
    }
    assert(out@ =~= rewritten(text@, decide));
    NormalizedText {
        original: text.to_owned(),
        normalized: from_chars(&out),
        changes,
        detected_script: Script::Auto,
        processing_time_ms: 0,
    }
}

} // verus!
