//! Mapping tables as JSON documents: an object whose keys and values are
//! strings.

use crate::utils::char_map::CharMap;
use crate::utils::text::to_chars;
use std::collections::BTreeMap;
use vstd::prelude::*;

verus! {

/// The entries of the JSON object written as `text`, in the order of their
/// keys, where `text` is a JSON object whose values are all strings;
/// nothing where it is not.
pub uninterp spec fn json_string_entries(text: Seq<char>) -> Option<Seq<(Seq<char>, Seq<char>)>>;

/// The JSON object whose members are the entries of `entries`,
/// pretty-printed, where it can be written.
pub uninterp spec fn json_pretty_text(entries: Map<Seq<char>, Seq<char>>) -> Option<Seq<char>>;

/// The character sequences of a list of string pairs.
pub open spec fn entries_view(entries: Seq<(String, String)>) -> Seq<(Seq<char>, Seq<char>)> {
    entries.map_values(|entry: (String, String)| (entry.0@, entry.1@))
}

/// The character sequences of an optional list of string pairs.
pub open spec fn parsed_view(parsed: Option<Vec<(String, String)>>) -> Option<
    Seq<(Seq<char>, Seq<char>)>,
> {
    match parsed {
        Some(entries) => Some(entries_view(entries@)),
        None => None,
    }
}

/// Reads `contents` with `serde_json::from_str` as a map from strings to
/// strings and lists the entries in the order of their keys; nothing where
/// `serde_json` reports an error.
#[verifier::external_body]
fn parse_entries(contents: &str) -> (parsed: Option<Vec<(String, String)>>)
    ensures
        parsed_view(parsed) == json_string_entries(contents@),
{
    match serde_json::from_str::<BTreeMap<String, String>>(contents) {
        Ok(map) => Some(map.into_iter().collect()),
        Err(_) => None,
    }
}

/// The keys of a list of entries, in order.
pub open spec fn keys_of(entries: Seq<(Seq<char>, Seq<char>)>) -> Seq<Seq<char>> {
    entries.map_values(|entry: (Seq<char>, Seq<char>)| entry.0)
}

/// The map that holds the entries of `entries`.
pub open spec fn entries_map(entries: Seq<(Seq<char>, Seq<char>)>) -> Map<Seq<char>, Seq<char>>
    decreases entries.len(),
{
    if entries.len() == 0 {
        Map::empty()
    } else {
        entries_map(entries.drop_last()).insert(entries.last().0, entries.last().1)
    }
}

/// The characters of a text that may have been written.
pub open spec fn written_view(written: Option<String>) -> Option<Seq<char>> {
    match written {
        Some(text) => Some(text@),
        None => None,
    }
}

/// Writes the map that holds `entries`, whose keys all differ, with
/// `serde_json::to_string_pretty`; nothing where `serde_json` reports an
/// error.
#[verifier::external_body]
fn render_entries(entries: &Vec<(String, String)>) -> (text: Option<String>)
    requires
        keys_of(entries_view(entries@)).no_duplicates(),
    ensures
        written_view(text) == json_pretty_text(entries_map(entries_view(entries@))),
{
    let map: BTreeMap<String, String> = entries.iter().cloned().collect();
    match serde_json::to_string_pretty(&map) {
        Ok(written) => Some(written),
        Err(_) => None,
    }
}

/// The one-to-one table that a list of string entries stands for: each
/// entry with a non-empty key and a non-empty value maps the first
/// character of its key to the first character of its value, a later
/// entry replacing an earlier one with the same first character.
pub open spec fn char_table_of(entries: Seq<(Seq<char>, Seq<char>)>) -> Map<char, char>
    decreases entries.len(),
{
    if entries.len() == 0 {
        Map::empty()
    } else {
        let before = char_table_of(entries.drop_last());
        let (key, value) = entries.last();
        if key.len() > 0 && value.len() > 0 {
            before.insert(key[0], value[0])
        } else {
            before
        }
    }
}

/// The table that the JSON document `text` stands for, and an empty table
/// where `text` is no object of strings.
pub open spec fn loaded_table(text: Seq<char>) -> Map<char, char> {
    match json_string_entries(text) {
        Some(entries) => char_table_of(entries),
        None => Map::empty(),
    }
}

/// The string entries that a table is written as: one per key, in the
/// order of `keys`, each a pair of one-character strings.
pub open spec fn table_entries(table: Map<char, char>, keys: Seq<char>) -> Seq<
    (Seq<char>, Seq<char>),
> {
    keys.map_values(|key: char| (seq![key], seq![table[key]]))
}

/// The first character of `text`, if it has one.
pub fn first_char(text: &str) -> (first: Option<char>)
    ensures
        first == if text@.len() > 0 {
            Some(text@[0])
        } else {
            None::<char>
        },
{
    let chars = to_chars(text);
    if chars.len() > 0 {
        Some(chars[0])
    } else {
        None
    }
}

/// The string made of the single character `ch`.
pub fn char_string(ch: char) -> (text: String)
    ensures
        text@ == seq![ch],
{
    let mut text = String::new();
    text.push(ch);
    assert(text@ =~= seq![ch]);
    text
}

/// Builds the one-to-one table that `entries` stand for.
pub fn table_from_entries(entries: &Vec<(String, String)>) -> (table: CharMap<char>)
    ensures
        table@ == char_table_of(entries_view(entries@)),
{
    let mut table: CharMap<char> = CharMap::new();
    let mut i: usize = 0;
    while i < entries.len()
        invariant
            i <= entries.len(),
            table@ == char_table_of(entries_view(entries@).take(i as int)),
        decreases entries.len() - i,
    {
        let ghost views = entries_view(entries@);
        assert(views.take(i + 1).drop_last() =~= views.take(i as int));
        assert(views.take(i + 1).last() == (entries@[i as int].0@, entries@[i as int].1@));
        match first_char(entries[i].0.as_str()) {
            Some(key) => {
                match first_char(entries[i].1.as_str()) {
                    Some(value) => {
                        table.insert(key, value);
                    },
                    None => {},
                }
            },
            None => {},
        }
        i += 1;
    }
    assert(entries_view(entries@).take(i as int) =~= entries_view(entries@));
    table
}

/// Reads a table from a JSON document. A document that is no object of
/// strings gives an empty table.
pub fn load_table(contents: &str) -> (table: CharMap<char>)
    ensures
        table@ == loaded_table(contents@),
{
    match parse_entries(contents) {
        Some(entries) => table_from_entries(&entries),
        None => CharMap::new(),
    }
}

/// Reads the string entries of a JSON document, in the order of their
/// keys. A document that is no object of strings gives nothing.
pub fn load_entries(contents: &str) -> (parsed: Option<Vec<(String, String)>>)
    ensures
        parsed_view(parsed) == json_string_entries(contents@),
{
    parse_entries(contents)
}

/// The entries that `table` is written as, in the order in which its keys
/// were inserted.
pub fn entries_of_table(table: &CharMap<char>) -> (entries: Vec<(String, String)>)
    ensures
        entries_view(entries@) == table_entries(table@, table.spec_keys()),
{
    let keys = table.keys();
    let mut entries: Vec<(String, String)> = Vec::new();
    let mut i: usize = 0;
    while i < keys.len()
        invariant
            i <= keys.len(),
            keys@ == table.spec_keys(),
            forall|c: char| table@.contains_key(c) <==> keys@.contains(c),
            entries_view(entries@) == table_entries(table@, keys@.take(i as int)),
        decreases keys.len() - i,
    {
        let key = keys[i];
        assert(keys@.contains(key));
        let value = match table.get(key) {
            Some(value) => value,
            None => key,
        };
        let ghost before = entries_view(entries@);
        entries.push((char_string(key), char_string(value)));
        i += 1;
        assert(entries_view(entries@) =~= before.push((seq![key], seq![table@[key]])));
        assert(table_entries(table@, keys@.take(i as int)) =~= before.push(
            (seq![key], seq![table@[key]]),
        ));
    }
    assert(keys@.take(i as int) =~= keys@);
    entries
}

/// The map of one-character strings that `table` is written as.
pub open spec fn string_table(table: Map<char, char>) -> Map<Seq<char>, Seq<char>> {
    Map::new(
        |key: Seq<char>| key.len() == 1 && table.contains_key(key[0]),
        |key: Seq<char>| seq![table[key[0]]],
    )
}

/// The entries written for a list of keys without repetitions hold one
/// string entry for each key, and their keys all differ.
proof fn lemma_table_entries(table: Map<char, char>, keys: Seq<char>)
    requires
        keys.no_duplicates(),
    ensures
        keys_of(table_entries(table, keys)).no_duplicates(),
        entries_map(table_entries(table, keys)) == Map::new(
            |key: Seq<char>| key.len() == 1 && keys.contains(key[0]),
            |key: Seq<char>| seq![table[key[0]]],
        ),
    decreases keys.len(),
{
    let entries = table_entries(table, keys);
    let target = Map::new(
        |key: Seq<char>| key.len() == 1 && keys.contains(key[0]),
        |key: Seq<char>| seq![table[key[0]]],
    );
    assert forall|i: int, j: int|
        0 <= i < entries.len() && 0 <= j < entries.len() && i != j implies keys_of(entries)[i]
        != keys_of(entries)[j] by {
        assert(keys_of(entries)[i] == seq![keys[i]]);
        assert(keys_of(entries)[j] == seq![keys[j]]);
        assert(seq![keys[i]][0] == keys[i]);
        assert(seq![keys[j]][0] == keys[j]);
    }
    if keys.len() == 0 {
        assert(entries_map(entries) =~= target);
    } else {
        let shorter = keys.drop_last();
        let last = keys.last();
        lemma_table_entries(table, shorter);
        assert(entries.drop_last() =~= table_entries(table, shorter));
        assert(entries.last() == (seq![last], seq![table[last]]));
        assert forall|key: Seq<char>| #[trigger]
            entries_map(entries).contains_key(key) == target.contains_key(key) by {
            if key.len() == 1 {
                if key == seq![last] {
                    assert(key[0] == last);
                    assert(keys[keys.len() - 1] == last);
                } else {
                    if keys.contains(key[0]) {
                        let k = choose|k: int| 0 <= k < keys.len() && keys[k] == key[0];
                        if k == keys.len() - 1 {
                            assert(key =~= seq![last]);
                        }
                        assert(shorter[k] == key[0]);
                    }
                    if shorter.contains(key[0]) {
                        let k = choose|k: int| 0 <= k < shorter.len() && shorter[k] == key[0];
                        assert(keys[k] == key[0]);
                    }
                }
            } else {
                assert(key != seq![last]);
            }
        }
        assert forall|key: Seq<char>| #[trigger]
            entries_map(entries).contains_key(key) implies entries_map(entries)[key]
            == target[key] by {
            if key == seq![last] {
                assert(key[0] == last);
            }
        }
        assert(entries_map(entries) =~= target);
    }
}

/// Writes `table` as a pretty-printed JSON object of one-character
/// strings.
pub fn table_to_json(table: &CharMap<char>) -> (text: Option<String>)
    ensures
        written_view(text) == json_pretty_text(string_table(table@)),
{
    let keys = table.keys();
    let entries = entries_of_table(table);
    proof {
        lemma_table_entries(table@, keys@);
        assert(string_table(table@) =~= entries_map(table_entries(table@, keys@)));
    }
    render_entries(&entries)
}

} // verus!
