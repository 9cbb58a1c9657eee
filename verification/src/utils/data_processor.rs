//! Derivation of the curated mapping tables from raw character
//! relationship records.

use crate::utils::char_map::CharMap;
use crate::utils::pair_set::PairSet;
use crate::utils::text::{
    find, find_char, find_of_kind, find_pattern, find_text, is_blank, occurs_at, pieces_view,
    same_chars, slice, split, split_on, split_words, stands_at, to_chars, trimmed_len,
    trimmed_length, words,
};
use crate::utils::unicode_utils::{
    char_to_code_point, is_main_block, is_main_block_ideograph, parse_code_point,
    spec_char_to_code_point, spec_code_point_to_char,
};
use vstd::prelude::*;

verus! {

/// The unified ideographs that stand for the 214 Kangxi radicals, in the
/// order of the radicals from U+2F00 to U+2FD5.
pub const KANGXI_STANDARD_FORMS: &'static str =
    "一丨丶丿乙亅二亠人儿入八冂冖冫几凵刀力勹匕匚匸十卜卩厂厶又口囗土士夂夊夕大女子宀寸小尢尸屮山巛工己巾干幺广廴廾弋弓彐彡彳心戈戶手支攴文斗斤方无日曰月木欠止歹殳毋比毛氏气水火爪父爻爿片牙牛犬玄玉瓜瓦甘生用田疋疒癶白皮皿目矛矢石示禸禾穴立竹米糸缶网羊羽老而耒耳聿肉臣自至臼舌舛舟艮色艸虍虫血行衣襾見角言谷豆豕豸貝赤走足身車辛辰辵邑酉釆里金長門阜隶隹雨青非面革韋韭音頁風飛食首香馬骨高髟鬥鬯鬲鬼魚鳥鹵鹿麥麻黃黍黑黹黽鼎鼓鼠鼻齊齒龍龜龠";

/// The number of Kangxi radicals.
pub const KANGXI_RADICAL_COUNT: u32 = 214;

/// The code point of the first Kangxi radical.
pub const KANGXI_RADICAL_FIRST: u32 = 0x2F00;

/// Whether `ch` is one of the 214 Kangxi radicals.
pub open spec fn is_listed_radical(ch: char) -> bool {
    KANGXI_RADICAL_FIRST <= (ch as u32) && (ch as u32) < KANGXI_RADICAL_FIRST + KANGXI_RADICAL_COUNT
}

/// The unified ideograph that stands for the Kangxi radical `radical`.
pub open spec fn radical_standard_form(radical: char) -> char {
    KANGXI_STANDARD_FORMS@[radical as u32 - KANGXI_RADICAL_FIRST]
}

/// Whether `excluded` holds the pair of `a` and `b` in either order.
pub open spec fn is_excluded(excluded: Set<(char, char)>, a: char, b: char) -> bool {
    excluded.contains((a, b)) || excluded.contains((b, a))
}

/// The Kangxi table: each radical mapped to its standard form, without
/// the pairs that `excluded` holds in either order.
pub open spec fn kangxi_table(excluded: Set<(char, char)>) -> Map<char, char> {
    Map::new(
        |ch: char|
            is_listed_radical(ch) && !is_excluded(excluded, ch, radical_standard_form(ch)),
        |ch: char| radical_standard_form(ch),
    )
}

/// Every standard form of a radical is an ideograph of the main block, so
/// none of them is itself a radical.
pub proof fn lemma_standard_forms_are_ideographs()
    ensures
        KANGXI_STANDARD_FORMS@.len() == KANGXI_RADICAL_COUNT,
        forall|i: int|
            0 <= i < KANGXI_RADICAL_COUNT ==> is_main_block_ideograph(
                #[trigger] KANGXI_STANDARD_FORMS@[i],
            ),
{
    reveal_strlit("一丨丶丿乙亅二亠人儿入八冂冖冫几凵刀力勹匕匚匸十卜卩厂厶又口囗土士夂夊夕大女子宀寸小尢尸屮山巛工己巾干幺广廴廾弋弓彐彡彳心戈戶手支攴文斗斤方无日曰月木欠止歹殳毋比毛氏气水火爪父爻爿片牙牛犬玄玉瓜瓦甘生用田疋疒癶白皮皿目矛矢石示禸禾穴立竹米糸缶网羊羽老而耒耳聿肉臣自至臼舌舛舟艮色艸虍虫血行衣襾見角言谷豆豕豸貝赤走足身車辛辰辵邑酉釆里金長門阜隶隹雨青非面革韋韭音頁風飛食首香馬骨高髟鬥鬯鬲鬼魚鳥鹵鹿麥麻黃黍黑黹黽鼎鼓鼠鼻齊齒龍龜龠");
}

/// No value of the Kangxi table is a key of it, whatever was excluded.
pub proof fn lemma_kangxi_table_is_settled(excluded: Set<(char, char)>)
    ensures
        forall|key: char| #[trigger]
            kangxi_table(excluded).contains_key(key) ==> !kangxi_table(excluded).contains_key(
                kangxi_table(excluded)[key],
            ),
{
    lemma_standard_forms_are_ideographs();
    assert forall|key: char| #[trigger] kangxi_table(excluded).contains_key(key) implies
        !kangxi_table(excluded).contains_key(kangxi_table(excluded)[key]) by {
        let form = radical_standard_form(key);
        let i = key as u32 - KANGXI_RADICAL_FIRST;
        assert(is_main_block_ideograph(KANGXI_STANDARD_FORMS@[i as int]));
    }
}

/// The standard forms of the radicals as a vector.
fn kangxi_standard_forms() -> (forms: Vec<char>)
    ensures
        forms@ == KANGXI_STANDARD_FORMS@,
        forms@.len() == KANGXI_RADICAL_COUNT,
{
    proof {
        lemma_standard_forms_are_ideographs();
    }
    to_chars(KANGXI_STANDARD_FORMS)
}

/// Whether `pairs` holds the pair of `a` and `b` in either order.
pub fn excludes(pairs: &PairSet, a: char, b: char) -> (found: bool)
    ensures
        found == is_excluded(pairs@, a, b),
{
    pairs.contains(a, b) || pairs.contains(b, a)
}

/// The relation that maps a Traditional character to its Simplified form.
pub const SIMPLIFIED_VARIANT: &'static str = "kSimplifiedVariant";

/// The relation that maps a Simplified character to its Traditional form.
pub const TRADITIONAL_VARIANT: &'static str = "kTraditionalVariant";

/// The relation between characters of the same meaning.
pub const SEMANTIC_VARIANT: &'static str = "kSemanticVariant";

/// The relation that maps a compatibility ideograph to its unified form.
pub const COMPATIBILITY_VARIANT: &'static str = "kCompatibilityVariant";

/// The marker that precedes the regions in which a character is a core
/// ideograph.
pub const REGION_MARKER: &'static str = "kIICore";

/// `piece` without a carriage return at its end.
pub open spec fn without_carriage_return(piece: Seq<char>) -> Seq<char> {
    if piece.len() > 0 && piece.last() == '\r' {
        piece.drop_last()
    } else {
        piece
    }
}

/// The lines of `text`. A line ends with a line feed, or with a carriage
/// return and a line feed; the last line may lack its ending.
pub open spec fn lines_of(text: Seq<char>) -> Seq<Seq<char>> {
    let pieces = split_on(text, '\n');
    let count = if pieces.len() > 0 && pieces.last().len() == 0 {
        pieces.len() - 1
    } else {
        pieces.len() as int
    };
    Seq::new(
        count as nat,
        |i: int|
            if i < pieces.len() - 1 {
                without_carriage_return(pieces[i])
            } else {
                pieces[i]
            },
    )
}

/// One record of the relationship corpus: the source character, the kind
/// of relation, and the targets as they are written.
pub struct VariantRecord {
    pub source: char,
    pub kind: Vec<char>,
    pub targets: Vec<Vec<char>>,
}

/// The mathematical value of a [`VariantRecord`].
pub ghost struct RecordSpec {
    pub source: char,
    pub kind: Seq<char>,
    pub targets: Seq<Seq<char>>,
}

impl View for VariantRecord {
    type V = RecordSpec;

    open spec fn view(&self) -> RecordSpec {
        RecordSpec {
            source: self.source,
            kind: self.kind@,
            targets: pieces_view(self.targets@),
        }
    }
}

/// The value of a record that may have been read.
pub open spec fn record_view(record: Option<VariantRecord>) -> Option<RecordSpec> {
    match record {
        Some(read) => Some(read@),
        None => None,
    }
}

/// The record written on `line`: three fields separated by tabs, the code
/// point of the source, the kind of relation, and the targets separated by
/// white space. A comment line (one that starts with `#`), a blank line, a
/// line with fewer than three fields and a line whose source is no code
/// point hold no record.
pub open spec fn parse_record(line: Seq<char>) -> Option<RecordSpec> {
    let fields = split_on(line, '\t');
    if (line.len() > 0 && line[0] == '#') || is_blank(line) || fields.len() < 3 {
        None
    } else {
        match spec_code_point_to_char(fields[0]) {
            Some(source) => Some(RecordSpec { source, kind: fields[1], targets: words(fields[2]) }),
            None => None,
        }
    }
}

/// The character that the target `token` names: its code point, read
/// without the qualifier that may follow a `<`.
pub open spec fn target_of(token: Seq<char>) -> Option<char> {
    spec_code_point_to_char(token.subrange(0, find_char(token, '<', 0)))
}

/// The character that the first target of `record` names, if it has a
/// target and that target is a code point.
pub open spec fn first_target(record: RecordSpec) -> Option<char> {
    if record.targets.len() > 0 {
        target_of(record.targets[0])
    } else {
        None
    }
}

/// The tables of the script-conversion pass.
pub ghost struct ScriptTables {
    pub traditional_to_simplified: Map<char, char>,
    pub simplified_to_traditional: Map<char, char>,
    pub pairs: Set<(char, char)>,
}

/// The tables of the script-conversion pass after `record`.
///
/// A Simplified variant of the source maps the source to the first target,
/// replacing what the source was mapped to before. A Traditional variant of
/// the source maps the source to the first target unless that pair of
/// Traditional and Simplified character has been met before.
pub open spec fn script_step(state: ScriptTables, record: RecordSpec) -> ScriptTables {
    match first_target(record) {
        Some(target) => {
            if record.kind == SIMPLIFIED_VARIANT@ {
                ScriptTables {
                    traditional_to_simplified: state.traditional_to_simplified.insert(
                        record.source,
                        target,
                    ),
                    simplified_to_traditional: state.simplified_to_traditional,
                    pairs: state.pairs.insert((record.source, target)),
                }
            } else if record.kind == TRADITIONAL_VARIANT@ && !state.pairs.contains(
                (target, record.source),
            ) {
                ScriptTables {
                    traditional_to_simplified: state.traditional_to_simplified,
                    simplified_to_traditional: state.simplified_to_traditional.insert(
                        record.source,
                        target,
                    ),
                    pairs: state.pairs.insert((target, record.source)),
                }
            } else {
                state
            }
        },
        None => state,
    }
}

/// The tables of the script-conversion pass after the first `n` lines.
pub open spec fn script_pass(lines: Seq<Seq<char>>, n: int) -> ScriptTables
    decreases n,
{
    if n <= 0 {
        ScriptTables {
            traditional_to_simplified: Map::empty(),
            simplified_to_traditional: Map::empty(),
            pairs: Set::empty(),
        }
    } else {
        let before = script_pass(lines, n - 1);
        match parse_record(lines[n - 1]) {
            Some(record) => script_step(before, record),
            None => before,
        }
    }
}

/// The pairs of Traditional and Simplified character that the two script
/// tables hold.
pub open spec fn script_pairs_of(
    traditional_to_simplified: Map<char, char>,
    simplified_to_traditional: Map<char, char>,
) -> Set<(char, char)> {
    Set::new(
        |pair: (char, char)|
            (traditional_to_simplified.contains_key(pair.0) && traditional_to_simplified[pair.0]
                == pair.1) || (simplified_to_traditional.contains_key(pair.1)
                && simplified_to_traditional[pair.1] == pair.0),
    )
}

/// The region coverage count that `line` gives for the code point written
/// as `code_point`: where the line starts with the code point and holds
/// the region marker, the number of characters between the first marker
/// and the next, white space at the two ends left out.
pub open spec fn line_coverage(line: Seq<char>, code_point: Seq<char>) -> Option<int> {
    let marker = REGION_MARKER@;
    let at = find_text(line, marker, 0);
    if occurs_at(line, code_point, 0) && at < line.len() {
        let start = at + marker.len();
        let next = find_text(line, marker, start);
        Some(trimmed_len(line.subrange(start, next)))
    } else {
        None
    }
}

/// The region coverage count of `ch`: what the first line from index
/// `from` on that gives a count for it gives, and 0 where none does.
pub open spec fn region_coverage(annotations: Seq<Seq<char>>, ch: char, from: int) -> int
    decreases annotations.len() - from,
{
    if from < 0 || from >= annotations.len() {
        0
    } else {
        match line_coverage(annotations[from], spec_char_to_code_point(ch)) {
            Some(count) => count,
            None => region_coverage(annotations, ch, from + 1),
        }
    }
}

/// The variant and the standard form among two related characters, in
/// this order.
///
/// A character of the main block is the standard form of one outside it.
/// Of two characters of the main block the one with the greater region
/// coverage is the standard form. Where the coverage is the same, or
/// neither lies in the main block, nothing is decided.
pub open spec fn standard_form(annotations: Seq<Seq<char>>, char1: char, char2: char) -> Option<
    (char, char),
> {
    let main1 = is_main_block_ideograph(char1);
    let main2 = is_main_block_ideograph(char2);
    if main1 && !main2 {
        Some((char2, char1))
    } else if !main1 && main2 {
        Some((char1, char2))
    } else if main1 && main2 {
        let count1 = region_coverage(annotations, char1, 0);
        let count2 = region_coverage(annotations, char2, 0);
        if count1 > count2 {
            Some((char2, char1))
        } else if count2 > count1 {
            Some((char1, char2))
        } else {
            None
        }
    } else {
        None
    }
}

/// The semantic table after the first `n` targets of a record with the
/// source `source`: each target that names a character, forms no excluded
/// pair with the source and has a standard form decided is entered as
/// variant mapped to standard form.
pub open spec fn semantic_targets(
    table: Map<char, char>,
    source: char,
    targets: Seq<Seq<char>>,
    n: int,
    excluded: Set<(char, char)>,
    annotations: Seq<Seq<char>>,
) -> Map<char, char>
    decreases n,
{
    if n <= 0 {
        table
    } else {
        let before = semantic_targets(table, source, targets, n - 1, excluded, annotations);
        match target_of(targets[n - 1]) {
            Some(target) => if is_excluded(excluded, source, target) {
                before
            } else {
                match standard_form(annotations, source, target) {
                    Some((variant, standard)) => before.insert(variant, standard),
                    None => before,
                }
            },
            None => before,
        }
    }
}

/// The semantic table after the first `n` lines.
pub open spec fn semantic_pass(
    lines: Seq<Seq<char>>,
    n: int,
    excluded: Set<(char, char)>,
    annotations: Seq<Seq<char>>,
) -> Map<char, char>
    decreases n,
{
    if n <= 0 {
        Map::empty()
    } else {
        let before = semantic_pass(lines, n - 1, excluded, annotations);
        match parse_record(lines[n - 1]) {
            Some(record) => if record.kind == SEMANTIC_VARIANT@ {
                semantic_targets(
                    before,
                    record.source,
                    record.targets,
                    record.targets.len() as int,
                    excluded,
                    annotations,
                )
            } else {
                before
            },
            None => before,
        }
    }
}

/// The compatibility table after `record`: a compatibility variant whose
/// source and first target are two different characters of the main block
/// that form no excluded pair maps the source to the target.
pub open spec fn compatibility_step(
    table: Map<char, char>,
    record: RecordSpec,
    excluded: Set<(char, char)>,
) -> Map<char, char> {
    match first_target(record) {
        Some(target) => if record.kind == COMPATIBILITY_VARIANT@ && is_main_block_ideograph(
            record.source,
        ) && is_main_block_ideograph(target) && record.source != target && !is_excluded(
            excluded,
            record.source,
            target,
        ) {
            table.insert(record.source, target)
        } else {
            table
        },
        None => table,
    }
}

/// The compatibility table after the first `n` lines.
pub open spec fn compatibility_pass(lines: Seq<Seq<char>>, n: int, excluded: Set<(char, char)>) -> Map<
    char,
    char,
>
    decreases n,
{
    if n <= 0 {
        Map::empty()
    } else {
        let before = compatibility_pass(lines, n - 1, excluded);
        match parse_record(lines[n - 1]) {
            Some(record) => compatibility_step(before, record, excluded),
            None => before,
        }
    }
}

/// The lines among the first `n` of `lines` that hold the region marker.
pub open spec fn marked_lines(lines: Seq<Seq<char>>, n: int) -> Seq<Seq<char>>
    decreases n,
{
    if n <= 0 {
        Seq::empty()
    } else if find_text(lines[n - 1], REGION_MARKER@, 0) < lines[n - 1].len() {
        marked_lines(lines, n - 1).push(lines[n - 1])
    } else {
        marked_lines(lines, n - 1)
    }
}

/// Whether no key of `table` forms an excluded pair with its value.
pub open spec fn avoids(table: Map<char, char>, excluded: Set<(char, char)>) -> bool {
    forall|key: char| #[trigger] table.contains_key(key) ==> !is_excluded(excluded, key, table[key])
}

/// The pair that the entry of `key` in `table` stands for: the key and its
/// value, or the value and the key where `flipped` holds.
pub open spec fn entry_pair(table: Map<char, char>, key: char, flipped: bool) -> (char, char) {
    if flipped {
        (table[key], key)
    } else {
        (key, table[key])
    }
}

/// The side of `pair` that is the key of its entry.
pub open spec fn key_side(pair: (char, char), flipped: bool) -> char {
    if flipped {
        pair.1
    } else {
        pair.0
    }
}

/// `start` with the pair of the entry of each of the first `n` keys of
/// `keys` added.
pub open spec fn listed_pairs(
    start: Set<(char, char)>,
    table: Map<char, char>,
    keys: Seq<char>,
    flipped: bool,
    n: int,
) -> Set<(char, char)>
    decreases n,
{
    if n <= 0 {
        start
    } else {
        listed_pairs(start, table, keys, flipped, n - 1).insert(
            entry_pair(table, keys[n - 1], flipped),
        )
    }
}

/// Whether `pair` is the pair of the entry of one of the first `n` keys.
pub open spec fn is_listed(
    table: Map<char, char>,
    keys: Seq<char>,
    flipped: bool,
    n: int,
    pair: (char, char),
) -> bool {
    keys.take(n).contains(key_side(pair, flipped)) && pair == entry_pair(
        table,
        key_side(pair, flipped),
        flipped,
    )
}

/// `listed_pairs` holds the pairs of `start` and the pairs of the entries
/// of the first `n` keys, and nothing else.
proof fn lemma_listed_pairs(
    start: Set<(char, char)>,
    table: Map<char, char>,
    keys: Seq<char>,
    flipped: bool,
    n: int,
    pair: (char, char),
)
    requires
        0 <= n <= keys.len(),
    ensures
        listed_pairs(start, table, keys, flipped, n).contains(pair) <==> start.contains(pair)
            || is_listed(table, keys, flipped, n, pair),
    decreases n,
{
    if n > 0 {
        lemma_listed_pairs(start, table, keys, flipped, n - 1, pair);
        let last = keys[n - 1];
        let shorter = keys.take(n - 1);
        let longer = keys.take(n);
        let key = key_side(pair, flipped);
        assert(longer[n - 1] == last);
        if shorter.contains(key) {
            let k = choose|k: int| 0 <= k < shorter.len() && shorter[k] == key;
            assert(longer[k] == key);
        }
        if longer.contains(key) {
            let k = choose|k: int| 0 <= k < longer.len() && longer[k] == key;
            if k < n - 1 {
                assert(shorter[k] == key);
            }
        }
    } else {
        assert(keys.take(0) =~= Seq::<char>::empty());
    }
}

/// The lines of `text`.
pub fn read_lines(text: &str) -> (lines: Vec<Vec<char>>)
    ensures
        pieces_view(lines@) == lines_of(text@),
{
    let chars = to_chars(text);
    let pieces = split(&chars, '\n');
    let ghost views = pieces_view(pieces@);
    let last: usize = pieces.len() - 1;
    let count: usize = if pieces[last].len() == 0 {
        last
    } else {
        pieces.len()
    };
    let mut lines: Vec<Vec<char>> = Vec::new();
    let mut i: usize = 0;
    while i < count
        invariant
            i <= count <= pieces.len(),
            last == pieces.len() - 1,
            views == pieces_view(pieces@),
            views == split_on(text@, '\n'),
            count == if views.len() > 0 && views.last().len() == 0 {
                views.len() - 1
            } else {
                views.len() as int
            },
            pieces_view(lines@) == lines_of(text@).take(i as int),
        decreases count - i,
    {
        let piece = &pieces[i];
        assert(views[i as int] == piece@);
        let ghost before = pieces_view(lines@);
        let line = if i < last && piece.len() > 0 && piece[piece.len() - 1] == '\r' {
            let cut = slice(piece, 0, piece.len() - 1);
            assert(cut@ =~= piece@.drop_last());
            cut
        } else {
            let whole = slice(piece, 0, piece.len());
            assert(whole@ =~= piece@);
            whole
        };
        lines.push(line);
        i += 1;
        assert(pieces_view(lines@) =~= before.push(lines_of(text@)[i - 1]));
        assert(lines_of(text@).take(i as int) =~= before.push(lines_of(text@)[i - 1]));
    }
    assert(lines_of(text@).take(i as int) =~= lines_of(text@));
    lines
}

/// The characters of `chars` before the first `<`.
fn strip_qualifier(chars: &Vec<char>) -> (bare: Vec<char>)
    ensures
        bare@ == chars@.subrange(0, find_char(chars@, '<', 0)),
{
    let end = find(chars, '<', 0);
    slice(chars, 0, end)
}

/// The character that the target `token` names.
pub fn parse_target(token: &Vec<char>) -> (target: Option<char>)
    ensures
        target == target_of(token@),
{
    let bare = strip_qualifier(token);
    parse_code_point(&bare)
}

/// Reads the record written on `line`, if it holds one.
pub fn read_record(line: &Vec<char>) -> (record: Option<VariantRecord>)
    ensures
        record_view(record) == parse_record(line@),
{
    if line.len() > 0 && line[0] == '#' {
        return None;
    }
    if find_of_kind(line, false, 0) >= line.len() {
        return None;
    }
    let mut fields = split(line, '\t');
    if fields.len() < 3 {
        return None;
    }
    let ghost views = pieces_view(fields@);
    assert(views[0] == fields@[0]@);
    assert(views[1] == fields@[1]@);
    assert(views[2] == fields@[2]@);
    match parse_code_point(&fields[0]) {
        Some(source) => {
            let targets = split_words(&fields[2]);
            let kind = fields.swap_remove(1);
            Some(VariantRecord { source, kind, targets })
        },
        None => None,
    }
}

/// The character that the first target of `record` names.
fn read_first_target(record: &VariantRecord) -> (target: Option<char>)
    ensures
        target == first_target(record@),
{
    if record.targets.len() > 0 {
        assert(pieces_view(record.targets@)[0] == record.targets@[0]@);
        parse_target(&record.targets[0])
    } else {
        None
    }
}

/// The result of the script-conversion pass: the two tables and the set
/// of pairs of Traditional and Simplified character met.
pub struct ScriptConversionTables {
    pub traditional_to_simplified: CharMap<char>,
    pub simplified_to_traditional: CharMap<char>,
    pub pairs: PairSet,
}

impl View for ScriptConversionTables {
    type V = ScriptTables;

    open spec fn view(&self) -> ScriptTables {
        ScriptTables {
            traditional_to_simplified: self.traditional_to_simplified@,
            simplified_to_traditional: self.simplified_to_traditional@,
            pairs: self.pairs@,
        }
    }
}

/// The result of the normalization pass: the three tables and the set of
/// script-conversion pairs that were kept out of them.
pub struct NormalizationTables {
    pub semantic_variants: CharMap<char>,
    pub compatibility_variants: CharMap<char>,
    pub kangxi_radicals: CharMap<char>,
    pub script_pairs: PairSet,
}

/// Everything that the classification of a corpus produces.
pub struct ProcessedTables {
    pub script_conversion: ScriptConversionTables,
    pub normalization: NormalizationTables,
}

/// Processor for Unihan database files. It holds the lines of the regional
/// usage annotations that name core regions.
pub struct UnihanDataProcessor {
    annotations: Vec<Vec<char>>,
}

impl View for UnihanDataProcessor {
    type V = Seq<Seq<char>>;

    /// The annotation lines that hold the region marker, in file order.
    closed spec fn view(&self) -> Seq<Seq<char>> {
        pieces_view(self.annotations@)
    }
}

impl UnihanDataProcessor {
    /// A processor that takes its region coverage counts from the
    /// annotation text `irg_sources`.
    pub fn new(irg_sources: &str) -> (processor: Self)
        ensures
            processor@ == marked_lines(lines_of(irg_sources@), lines_of(irg_sources@).len() as int),
    {
        let marker = to_chars(REGION_MARKER);
        let mut lines = read_lines(irg_sources);
        let ghost all = pieces_view(lines@);
        let mut annotations: Vec<Vec<char>> = Vec::new();
        assert(pieces_view(annotations@) =~= Seq::<Seq<char>>::empty());
        let mut i: usize = 0;
        while i < lines.len()
            invariant
                i <= lines.len(),
                marker@ == REGION_MARKER@,
                all == pieces_view(lines@),
                pieces_view(annotations@) == marked_lines(all, i as int),
            decreases lines.len() - i,
        {
            assert(all[i as int] == lines@[i as int]@);
            if find_pattern(&lines[i], &marker, 0) < lines[i].len() {
                let ghost before = pieces_view(annotations@);
                let line = slice(&lines[i], 0, lines[i].len());
                assert(line@ =~= lines@[i as int]@);
                annotations.push(line);
                assert(pieces_view(annotations@) =~= before.push(all[i as int]));
            }
            i += 1;
        }
        UnihanDataProcessor { annotations }
    }

    /// Process the corpus of variant relations and the annotation text and
    /// derive every table: first the script-conversion tables, then the
    /// normalization tables without the pairs of the former.
    pub fn process_all(variants: &str, irg_sources: &str) -> (tables: ProcessedTables)
        ensures
            tables.script_conversion@ == script_pass(
                lines_of(variants@),
                lines_of(variants@).len() as int,
            ),
            ({
                let excluded = script_pairs_of(
                    tables.script_conversion.traditional_to_simplified@,
                    tables.script_conversion.simplified_to_traditional@,
                );
                let annotations = marked_lines(
                    lines_of(irg_sources@),
                    lines_of(irg_sources@).len() as int,
                );
                &&& tables.normalization.script_pairs@ == excluded
                &&& tables.normalization.semantic_variants@ == semantic_pass(
                    lines_of(variants@),
                    lines_of(variants@).len() as int,
                    excluded,
                    annotations,
                )
                &&& tables.normalization.compatibility_variants@ == compatibility_pass(
                    lines_of(irg_sources@),
                    lines_of(irg_sources@).len() as int,
                    excluded,
                )
                &&& tables.normalization.kangxi_radicals@ == kangxi_table(excluded)
            }),
    {
        let processor = UnihanDataProcessor::new(irg_sources);
        let script_conversion = Self::process_script_conversion_mappings(variants);
        let normalization = processor.process_normalization_mappings(
            variants,
            irg_sources,
            &script_conversion.traditional_to_simplified,
            &script_conversion.simplified_to_traditional,
        );
        ProcessedTables { script_conversion, normalization }
    }

    /// Process script conversion mappings (Traditional ↔ Simplified) from
    /// the records of Simplified and Traditional variants in `variants`.
    pub fn process_script_conversion_mappings(variants: &str) -> (tables: ScriptConversionTables)
        ensures
            tables@ == script_pass(lines_of(variants@), lines_of(variants@).len() as int),
    {
        let simplified_kind = to_chars(SIMPLIFIED_VARIANT);
        let traditional_kind = to_chars(TRADITIONAL_VARIANT);
        let lines = read_lines(variants);
        let ghost all = pieces_view(lines@);
        let mut t2s: CharMap<char> = CharMap::new();
        let mut s2t: CharMap<char> = CharMap::new();
        let mut pairs = PairSet::new();
        let mut i: usize = 0;
        while i < lines.len()
            invariant
                i <= lines.len(),
                simplified_kind@ == SIMPLIFIED_VARIANT@,
                traditional_kind@ == TRADITIONAL_VARIANT@,
                all == pieces_view(lines@),
                (ScriptTables {
                    traditional_to_simplified: t2s@,
                    simplified_to_traditional: s2t@,
                    pairs: pairs@,
                }) == script_pass(all, i as int),
            decreases lines.len() - i,
        {
            assert(all[i as int] == lines@[i as int]@);
            match read_record(&lines[i]) {
                Some(record) => {
                    match read_first_target(&record) {
                        Some(target) => {
                            if same_chars(&record.kind, &simplified_kind) {
                                t2s.insert(record.source, target);
                                pairs.insert(record.source, target);
                            } else if same_chars(&record.kind, &traditional_kind)
                                && !pairs.contains(target, record.source) {
                                s2t.insert(record.source, target);
                                pairs.insert(target, record.source);
                            }
                        },
                        None => {},
                    }
                },
                None => {},
            }
            i += 1;
        }
        ScriptConversionTables {
            traditional_to_simplified: t2s,
            simplified_to_traditional: s2t,
            pairs,
        }
    }

    /// Process normalization mappings (variants → standard forms), leaving
    /// out every pair that the script-conversion tables hold.
    pub fn process_normalization_mappings(
        &self,
        variants: &str,
        irg_sources: &str,
        traditional_to_simplified: &CharMap<char>,
        simplified_to_traditional: &CharMap<char>,
    ) -> (tables: NormalizationTables)
        ensures
            ({
                let excluded = script_pairs_of(
                    traditional_to_simplified@,
                    simplified_to_traditional@,
                );
                &&& tables.script_pairs@ == excluded
                &&& tables.semantic_variants@ == semantic_pass(
                    lines_of(variants@),
                    lines_of(variants@).len() as int,
                    excluded,
                    self@,
                )
                &&& tables.compatibility_variants@ == compatibility_pass(
                    lines_of(irg_sources@),
                    lines_of(irg_sources@).len() as int,
                    excluded,
                )
                &&& tables.kangxi_radicals@ == kangxi_table(excluded)
                &&& avoids(tables.semantic_variants@, excluded)
                &&& avoids(tables.compatibility_variants@, excluded)
                &&& avoids(tables.kangxi_radicals@, excluded)
            }),
    {
        // Step 1: Collect the script conversion pairs to exclude them
        let script_pairs = Self::load_script_conversion_pairs(
            traditional_to_simplified,
            simplified_to_traditional,
        );
        // Step 2: Process semantic variants
        let semantic_variants = self.process_semantic_variants_clean(variants, &script_pairs);
        // Step 3: Process compatibility variants
        let compatibility_variants = Self::process_compatibility_variants_clean(
            irg_sources,
            &script_pairs,
        );
        // Step 4: Process Kangxi radicals
        let kangxi_radicals = Self::process_kangxi_radicals_clean(&script_pairs);
        NormalizationTables {
            semantic_variants,
            compatibility_variants,
            kangxi_radicals,
            script_pairs,
        }
    }

    /// Collect the pairs of Traditional and Simplified character that the
    /// two script tables hold, to exclude them from normalization.
    pub fn load_script_conversion_pairs(
        traditional_to_simplified: &CharMap<char>,
        simplified_to_traditional: &CharMap<char>,
    ) -> (pairs: PairSet)
        ensures
            pairs@ == script_pairs_of(traditional_to_simplified@, simplified_to_traditional@),
    {
        let mut pairs = PairSet::new();
        let traditional_keys = traditional_to_simplified.keys();
        let mut i: usize = 0;
        while i < traditional_keys.len()
            invariant
                i <= traditional_keys.len(),
                forall|c: char|
                    traditional_to_simplified@.contains_key(c) <==> traditional_keys@.contains(c),
                pairs@ == listed_pairs(
                    Set::empty(),
                    traditional_to_simplified@,
                    traditional_keys@,
                    false,
                    i as int,
                ),
            decreases traditional_keys.len() - i,
        {
            let trad = traditional_keys[i];
            assert(traditional_keys@.contains(trad));
            match traditional_to_simplified.get(trad) {
                Some(simp) => {
                    pairs.insert(trad, simp);
                },
                None => {},
            }
            i += 1;
        }
        let ghost from_traditional = pairs@;
        let simplified_keys = simplified_to_traditional.keys();
        let mut j: usize = 0;
        while j < simplified_keys.len()
            invariant
                j <= simplified_keys.len(),
                forall|c: char|
                    simplified_to_traditional@.contains_key(c) <==> simplified_keys@.contains(c),
                pairs@ == listed_pairs(
                    from_traditional,
                    simplified_to_traditional@,
                    simplified_keys@,
                    true,
                    j as int,
                ),
            decreases simplified_keys.len() - j,
        {
            let simp = simplified_keys[j];
            assert(simplified_keys@.contains(simp));
            match simplified_to_traditional.get(simp) {
                Some(trad) => {
                    pairs.insert(trad, simp);
                },
                None => {},
            }
            j += 1;
        }
        proof {
            let target = script_pairs_of(traditional_to_simplified@, simplified_to_traditional@);
            assert(traditional_keys@.take(traditional_keys@.len() as int) =~= traditional_keys@);
            assert(simplified_keys@.take(simplified_keys@.len() as int) =~= simplified_keys@);
            assert forall|pair: (char, char)| pairs@.contains(pair) == target.contains(pair) by {
                lemma_listed_pairs(
                    Set::empty(),
                    traditional_to_simplified@,
                    traditional_keys@,
                    false,
                    traditional_keys@.len() as int,
                    pair,
                );
                lemma_listed_pairs(
                    from_traditional,
                    simplified_to_traditional@,
                    simplified_keys@,
                    true,
                    simplified_keys@.len() as int,
                    pair,
                );
                assert(traditional_to_simplified@.contains_key(pair.0)
                    <==> traditional_keys@.contains(pair.0));
                assert(simplified_to_traditional@.contains_key(pair.1)
                    <==> simplified_keys@.contains(pair.1));
            }
            assert(pairs@ =~= target);
        }
        pairs
    }

    /// Process semantic variants with standard form detection, leaving out
    /// the script pairs.
    pub fn process_semantic_variants_clean(&self, variants: &str, script_pairs: &PairSet) -> (table:
        CharMap<char>)
        ensures
            table@ == semantic_pass(
                lines_of(variants@),
                lines_of(variants@).len() as int,
                script_pairs@,
                self@,
            ),
            avoids(table@, script_pairs@),
    {
        let semantic_kind = to_chars(SEMANTIC_VARIANT);
        let lines = read_lines(variants);
        let ghost all = pieces_view(lines@);
        let mut table: CharMap<char> = CharMap::new();
        let mut i: usize = 0;
        while i < lines.len()
            invariant
                i <= lines.len(),
                semantic_kind@ == SEMANTIC_VARIANT@,
                all == pieces_view(lines@),
                table@ == semantic_pass(all, i as int, script_pairs@, self@),
                avoids(table@, script_pairs@),
            decreases lines.len() - i,
        {
            assert(all[i as int] == lines@[i as int]@);
            match read_record(&lines[i]) {
                Some(record) => {
                    if same_chars(&record.kind, &semantic_kind) {
                        let ghost start = table@;
                        let ghost targets = pieces_view(record.targets@);
                        let mut k: usize = 0;
                        while k < record.targets.len()
                            invariant
                                k <= record.targets.len(),
                                targets == pieces_view(record.targets@),
                                table@ == semantic_targets(
                                    start,
                                    record.source,
                                    targets,
                                    k as int,
                                    script_pairs@,
                                    self@,
                                ),
                                avoids(table@, script_pairs@),
                            decreases record.targets.len() - k,
                        {
                            assert(targets[k as int] == record.targets@[k as int]@);
                            match parse_target(&record.targets[k]) {
                                Some(target) => {
                                    if !excludes(script_pairs, record.source, target) {
                                        match self.determine_standard_form(record.source, target) {
                                            Some((variant, standard)) => {
                                                table.insert(variant, standard);
                                            },
                                            None => {},
                                        }
                                    }
                                },
                                None => {},
                            }
                            k += 1;
                        }
                    }
                },
                None => {},
            }
            i += 1;
        }
        table
    }

    /// Determine which of two related characters is the standard form. The
    /// result names the variant first and the standard form second.
    pub fn determine_standard_form(&self, char1: char, char2: char) -> (decided: Option<
        (char, char),
    >)
        ensures
            decided == standard_form(self@, char1, char2),
    {
        // Primary rule: the main block is preferred over every other block
        let is_main_1 = is_main_block(char1);
        let is_main_2 = is_main_block(char2);
        if is_main_1 && !is_main_2 {
            Some((char2, char1))
        } else if !is_main_1 && is_main_2 {
            Some((char1, char2))
        } else if is_main_1 && is_main_2 {
            // Both in the main block: the region coverage decides
            let iicore1 = self.get_iicore_count(char1);
            let iicore2 = self.get_iicore_count(char2);
            if iicore1 > iicore2 {
                Some((char2, char1))
            } else if iicore2 > iicore1 {
                Some((char1, char2))
            } else {
                None
            }
        } else {
            None
        }
    }

    /// Get the region coverage count for a character (a higher count means
    /// a more standard form).
    pub fn get_iicore_count(&self, ch: char) -> (count: usize)
        ensures
            count == region_coverage(self@, ch, 0),
    {
        let code_point = to_chars(char_to_code_point(ch).as_str());
        let marker = to_chars(REGION_MARKER);
        let mut i: usize = 0;
        while i < self.annotations.len()
            invariant
                i <= self.annotations.len(),
                code_point@ == spec_char_to_code_point(ch),
                marker@ == REGION_MARKER@,
                region_coverage(self@, ch, 0) == region_coverage(self@, ch, i as int),
            decreases self.annotations.len() - i,
        {
            let line = &self.annotations[i];
            assert(self@[i as int] == line@);
            if stands_at(line, &code_point, 0) {
                let at = find_pattern(line, &marker, 0);
                if at < line.len() {
                    let start: usize = at + marker.len();
                    let next = find_pattern(line, &marker, start);
                    let regions = slice(line, start, next);
                    return trimmed_length(&regions);
                }
            }
            i += 1;
        }
        0
    }

    /// Process compatibility variants, leaving out the script pairs.
    pub fn process_compatibility_variants_clean(irg_sources: &str, script_pairs: &PairSet) -> (table:
        CharMap<char>)
        ensures
            table@ == compatibility_pass(
                lines_of(irg_sources@),
                lines_of(irg_sources@).len() as int,
                script_pairs@,
            ),
            avoids(table@, script_pairs@),
    {
        let compatibility_kind = to_chars(COMPATIBILITY_VARIANT);
        let lines = read_lines(irg_sources);
        let ghost all = pieces_view(lines@);
        let mut table: CharMap<char> = CharMap::new();
        let mut i: usize = 0;
        while i < lines.len()
            invariant
                i <= lines.len(),
                compatibility_kind@ == COMPATIBILITY_VARIANT@,
                all == pieces_view(lines@),
                table@ == compatibility_pass(all, i as int, script_pairs@),
                avoids(table@, script_pairs@),
            decreases lines.len() - i,
        {
            assert(all[i as int] == lines@[i as int]@);
            match read_record(&lines[i]) {
                Some(record) => {
                    match read_first_target(&record) {
                        Some(target) => {
                            if same_chars(&record.kind, &compatibility_kind) && is_main_block(
                                record.source,
                            ) && is_main_block(target) && record.source != target && !excludes(
                                script_pairs,
                                record.source,
                                target,
                            ) {
                                table.insert(record.source, target);
                            }
                        },
                        None => {},
                    }
                },
                None => {},
            }
            i += 1;
        }
        table
    }

    /// Process Kangxi radicals: each of the 214 radicals is mapped to its
    /// standard form, leaving out the script pairs.
    pub fn process_kangxi_radicals_clean(script_pairs: &PairSet) -> (table: CharMap<char>)
        ensures
            table@ == kangxi_table(script_pairs@),
            avoids(table@, script_pairs@),
    {
        let forms = kangxi_standard_forms();
        let mut table: CharMap<char> = CharMap::new();
        let mut i: u32 = 0;
        while i < KANGXI_RADICAL_COUNT
            invariant
                i <= KANGXI_RADICAL_COUNT,
                forms@ == KANGXI_STANDARD_FORMS@,
                forms@.len() == KANGXI_RADICAL_COUNT,
                table@ == kangxi_table(script_pairs@).restrict(
                    Set::new(|ch: char| (ch as u32) < KANGXI_RADICAL_FIRST + i),
                ),
            decreases KANGXI_RADICAL_COUNT - i,
        {
            let ghost before = table@;
            let cp: u32 = KANGXI_RADICAL_FIRST + i;
            let found = char::from_u32(cp);
            match found {
                Some(radical) => {
                    let standard = forms[i as usize];
                    if !excludes(script_pairs, radical, standard) {
                        table.insert(radical, standard);
                    }
                },
                None => {},
            }
            i += 1;
            proof {
                let target = kangxi_table(script_pairs@).restrict(
                    Set::new(|ch: char| (ch as u32) < KANGXI_RADICAL_FIRST + i),
                );
                let radical = found->0;
                assert forall|ch: char| #[trigger] table@.contains_key(ch) == target.contains_key(ch) by {
                    if ch as u32 == cp {
                        crate::utils::text::lemma_code_point_injective(ch, radical);
                    }
                }
                assert forall|ch: char| #[trigger] table@.contains_key(ch) implies table@[ch] == target[ch] by {
                    if ch as u32 == cp {
                        crate::utils::text::lemma_code_point_injective(ch, radical);
                    }
                }
                assert(table@ =~= target);
            }
        }
        assert(table@ =~= kangxi_table(script_pairs@));
        table
    }
}

} // verus!
