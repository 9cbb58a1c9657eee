//! Unicode utility functions: block predicates and the `U+XXXX` notation
//! for code points.

use crate::constants::{MAIN_CJK_END, MAIN_CJK_START};
use crate::utils::text::to_chars;
use vstd::prelude::*;
use vstd::string::StringExecFns;

verus! {

/// Whether `cp` is a Unicode scalar value: a code point up to U+10FFFF that
/// is not a surrogate.
pub open spec fn is_scalar_value(cp: u32) -> bool {
    cp <= 0xD7FF || 0xE000 <= cp <= 0x10FFFF
}

/// `char::from_u32` returns the character with code point `i` when `i` is a
/// scalar value, and nothing otherwise.
pub assume_specification[ char::from_u32 ](i: u32) -> (ch: Option<char>)
    ensures
        ch == if is_scalar_value(i) {
            Some(i as char)
        } else {
            None::<char>
        },
;

/// Whether `ch` lies in one of the CJK Unified Ideographs blocks (the main
/// block or extensions A to G).
pub open spec fn spec_is_cjk_unified_ideograph(ch: char) -> bool {
    let cp = ch as u32;
    ||| 0x4E00 <= cp <= 0x9FFF
    ||| 0x3400 <= cp <= 0x4DBF
    ||| 0x20000 <= cp <= 0x2A6DF
    ||| 0x2A700 <= cp <= 0x2B73F
    ||| 0x2B740 <= cp <= 0x2B81F
    ||| 0x2B820 <= cp <= 0x2CEAF
    ||| 0x2CEB0 <= cp <= 0x2EBEF
    ||| 0x30000 <= cp <= 0x3134F
}

/// Whether `ch` lies in the main CJK Unified Ideographs block.
pub open spec fn is_main_block_ideograph(ch: char) -> bool {
    MAIN_CJK_START <= ch as u32 <= MAIN_CJK_END
}

/// Whether `ch` lies in the Kangxi Radicals block.
pub open spec fn spec_is_kangxi_radical(ch: char) -> bool {
    0x2F00 <= ch as u32 <= 0x2FDF
}

/// Whether `ch` lies in one of the compatibility blocks: CJK Compatibility
/// Ideographs and their supplement, CJK Compatibility, CJK Compatibility
/// Forms, Halfwidth and Fullwidth Forms.
pub open spec fn spec_is_compatibility_character(ch: char) -> bool {
    let cp = ch as u32;
    ||| 0xF900 <= cp <= 0xFAFF
    ||| 0x2F800 <= cp <= 0x2FA1F
    ||| 0x3300 <= cp <= 0x33FF
    ||| 0xFE30 <= cp <= 0xFE4F
    ||| 0xFF00 <= cp <= 0xFFEF
}

/// Whether `ch` lies in the Hiragana block.
pub open spec fn spec_is_hiragana(ch: char) -> bool {
    0x3040 <= ch as u32 <= 0x309F
}

/// Whether `ch` lies in the Katakana block.
pub open spec fn spec_is_katakana(ch: char) -> bool {
    0x30A0 <= ch as u32 <= 0x30FF
}

/// Whether `ch` is a Hangul syllable, a Hangul Jamo or a Hangul
/// Compatibility Jamo.
pub open spec fn spec_is_hangul(ch: char) -> bool {
    let cp = ch as u32;
    ||| 0xAC00 <= cp <= 0xD7AF
    ||| 0x1100 <= cp <= 0x11FF
    ||| 0x3130 <= cp <= 0x318F
}

/// Check if a character is a CJK Unified Ideograph.
pub fn is_cjk_unified_ideograph(ch: char) -> (r: bool)
    ensures
        r == spec_is_cjk_unified_ideograph(ch),
{
    let cp: u32 = ch as u32;
    (0x4E00 <= cp && cp <= 0x9FFF) || (0x3400 <= cp && cp <= 0x4DBF) || (0x20000 <= cp && cp
        <= 0x2A6DF) || (0x2A700 <= cp && cp <= 0x2B73F) || (0x2B740 <= cp && cp <= 0x2B81F) || (
    0x2B820 <= cp && cp <= 0x2CEAF) || (0x2CEB0 <= cp && cp <= 0x2EBEF) || (0x30000 <= cp && cp
        <= 0x3134F)
}

/// Check if a character lies in the main CJK Unified Ideographs block.
pub fn is_main_block(ch: char) -> (r: bool)
    ensures
        r == is_main_block_ideograph(ch),
{
    let cp: u32 = ch as u32;
    MAIN_CJK_START <= cp && cp <= MAIN_CJK_END
}

/// Check if a character is a Kangxi radical.
pub fn is_kangxi_radical(ch: char) -> (r: bool)
    ensures
        r == spec_is_kangxi_radical(ch),
{
    let cp: u32 = ch as u32;
    0x2F00 <= cp && cp <= 0x2FDF
}

/// Check if a character is a compatibility character.
pub fn is_compatibility_character(ch: char) -> (r: bool)
    ensures
        r == spec_is_compatibility_character(ch),
{
    let cp: u32 = ch as u32;
    (0xF900 <= cp && cp <= 0xFAFF) || (0x2F800 <= cp && cp <= 0x2FA1F) || (0x3300 <= cp && cp
        <= 0x33FF) || (0xFE30 <= cp && cp <= 0xFE4F) || (0xFF00 <= cp && cp <= 0xFFEF)
}

/// Check if a character is a Hiragana.
pub fn is_hiragana(ch: char) -> (r: bool)
    ensures
        r == spec_is_hiragana(ch),
{
    let cp: u32 = ch as u32;
    0x3040 <= cp && cp <= 0x309F
}

/// Check if a character is a Katakana.
pub fn is_katakana(ch: char) -> (r: bool)
    ensures
        r == spec_is_katakana(ch),
{
    let cp: u32 = ch as u32;
    0x30A0 <= cp && cp <= 0x30FF
}

/// Check if a character is a Hangul.
pub fn is_hangul(ch: char) -> (r: bool)
    ensures
        r == spec_is_hangul(ch),
{
    let cp: u32 = ch as u32;
    (0xAC00 <= cp && cp <= 0xD7AF) || (0x1100 <= cp && cp <= 0x11FF) || (0x3130 <= cp && cp
        <= 0x318F)
}

/// The value of a hexadecimal digit of either case.
pub open spec fn hex_digit_value(c: char) -> Option<int> {
    let cp = c as u32;
    if 0x30 <= cp <= 0x39 {
        Some(cp - 0x30)
    } else if 0x41 <= cp <= 0x46 {
        Some(cp - 0x41 + 10)
    } else if 0x61 <= cp <= 0x66 {
        Some(cp - 0x61 + 10)
    } else {
        None
    }
}

/// Whether every character of `digits` is a hexadecimal digit.
pub open spec fn all_hex_digits(digits: Seq<char>) -> bool {
    forall|i: int| 0 <= i < digits.len() ==> hex_digit_value(#[trigger] digits[i]) is Some
}

/// The number that `digits` denotes in base sixteen, most significant
/// digit first.
pub open spec fn hex_value(digits: Seq<char>) -> int
    decreases digits.len(),
{
    if digits.len() == 0 {
        0
    } else {
        16 * hex_value(digits.drop_last()) + match hex_digit_value(digits.last()) {
            Some(d) => d,
            None => 0,
        }
    }
}

/// The 32-bit number written as `text`: an optional plus sign, then one or
/// more hexadecimal digits whose value fits in 32 bits.
pub open spec fn parse_hex_u32(text: Seq<char>) -> Option<u32> {
    let digits = if text.len() > 0 && text[0] == '+' {
        text.drop_first()
    } else {
        text
    };
    if digits.len() > 0 && all_hex_digits(digits) && hex_value(digits) <= u32::MAX {
        Some(hex_value(digits) as u32)
    } else {
        None
    }
}

/// The character written as `text` in the notation `U+XXXX`.
pub open spec fn spec_code_point_to_char(text: Seq<char>) -> Option<char> {
    if text.len() >= 2 && text[0] == 'U' && text[1] == '+' {
        match parse_hex_u32(text.skip(2)) {
            Some(cp) => if is_scalar_value(cp) {
                Some(cp as char)
            } else {
                None
            },
            None => None,
        }
    } else {
        None
    }
}

proof fn lemma_hex_value_bounds(digits: Seq<char>, n: int)
    requires
        0 <= n <= digits.len(),
    ensures
        0 <= hex_value(digits.take(n)) <= hex_value(digits),
    decreases digits.len() - n,
{
    lemma_hex_value_nonnegative(digits.take(n));
    if n < digits.len() {
        lemma_hex_value_bounds(digits, n + 1);
        assert(digits.take(n + 1).drop_last() =~= digits.take(n));
    } else {
        assert(digits.take(n) =~= digits);
    }
}

proof fn lemma_hex_value_nonnegative(digits: Seq<char>)
    ensures
        0 <= hex_value(digits),
    decreases digits.len(),
{
    if digits.len() > 0 {
        lemma_hex_value_nonnegative(digits.drop_last());
    }
}

/// The value of the hexadecimal digit `c`, if it is one.
fn hex_digit(c: char) -> (d: Option<u64>)
    ensures
        match d {
            Some(v) => hex_digit_value(c) == Some(v as int) && v < 16,
            None => hex_digit_value(c) is None,
        },
{
    let cp: u32 = c as u32;
    if 0x30 <= cp && cp <= 0x39 {
        Some((cp - 0x30) as u64)
    } else if 0x41 <= cp && cp <= 0x46 {
        Some((cp - 0x41 + 10) as u64)
    } else if 0x61 <= cp && cp <= 0x66 {
        Some((cp - 0x61 + 10) as u64)
    } else {
        None
    }
}

/// Reads the characters of `chars` from index `start` on as a 32-bit
/// hexadecimal number.
fn parse_hex_from(chars: &Vec<char>, start: usize) -> (value: Option<u32>)
    requires
        start <= chars.len(),
    ensures
        value == parse_hex_u32(chars@.skip(start as int)),
{
    let ghost text = chars@.skip(start as int);
    let mut pos: usize = start;
    if pos < chars.len() && chars[pos] == '+' {
        pos += 1;
    }
    let first: usize = pos;
    let ghost digits = chars@.skip(first as int);
    assert(digits =~= if text.len() > 0 && text[0] == '+' {
        text.drop_first()
    } else {
        text
    });
    if pos == chars.len() {
        return None;
    }
    let mut acc: u64 = 0;
    while pos < chars.len()
        invariant
            first <= pos <= chars.len(),
            first < chars.len(),
            text == chars@.skip(start as int),
            digits == chars@.skip(first as int),
            digits == if text.len() > 0 && text[0] == '+' {
                text.drop_first()
            } else {
                text
            },
            all_hex_digits(digits.take(pos - first)),
            acc == hex_value(digits.take(pos - first)),
            acc <= u32::MAX,
        decreases chars.len() - pos,
    {
        let ghost before = digits.take(pos - first);
        let ghost after = digits.take(pos - first + 1);
        assert(after.drop_last() =~= before);
        assert(after.last() == chars@[pos as int]);
        match hex_digit(chars[pos]) {
            Some(d) => {
                acc = acc * 16 + d;
                assert(acc == hex_value(after));
                if acc > 0xFFFF_FFFF {
                    proof {
                        lemma_hex_value_bounds(digits, pos - first + 1);
                    }
                    return None;
                }
                assert forall|i: int| 0 <= i < after.len() implies hex_digit_value(
                    #[trigger] after[i],
                ) is Some by {
                    if i < before.len() {
                        assert(after[i] == before[i]);
                    }
                }
            },
            None => {
                assert(digits[pos - first] == chars@[pos as int]);
                return None;
            },
        }
        pos += 1;
    }
    assert(digits.take(pos - first) =~= digits);
    Some(acc as u32)
}

/// The character that `chars` denotes in the notation `U+XXXX`.
pub fn parse_code_point(chars: &Vec<char>) -> (ch: Option<char>)
    ensures
        ch == spec_code_point_to_char(chars@),
{
    if chars.len() >= 2 && chars[0] == 'U' && chars[1] == '+' {
        match parse_hex_from(chars, 2) {
            Some(cp) => char::from_u32(cp),
            None => None,
        }
    } else {
        None
    }
}

/// Convert a Unicode code point string (e.g., "U+4E00") to a char.
pub fn code_point_to_char(code_point: &str) -> (ch: Option<char>)
    ensures
        ch == spec_code_point_to_char(code_point@),
{
    let chars = to_chars(code_point);
    parse_code_point(&chars)
}

/// The upper-case hexadecimal digit of value `d`.
pub open spec fn hex_digit_char(d: int) -> char {
    if d < 10 {
        (0x30 + d) as char
    } else {
        (0x41 + d - 10) as char
    }
}

/// The six hexadecimal digits of a code point, most significant first.
pub open spec fn six_hex_digits(cp: int) -> Seq<char> {
    seq![
        hex_digit_char(cp / 0x100000 % 16),
        hex_digit_char(cp / 0x10000 % 16),
        hex_digit_char(cp / 0x1000 % 16),
        hex_digit_char(cp / 0x100 % 16),
        hex_digit_char(cp / 0x10 % 16),
        hex_digit_char(cp % 16),
    ]
}

/// The number of hexadecimal digits that `cp` is written with: as many as
/// it needs, and four at least.
pub open spec fn code_point_width(cp: int) -> int {
    if cp >= 0x100000 {
        6
    } else if cp >= 0x10000 {
        5
    } else {
        4
    }
}

/// `ch` in the notation `U+XXXX`: upper-case hexadecimal digits, padded
/// with zeros to four digits.
pub open spec fn spec_char_to_code_point(ch: char) -> Seq<char> {
    let cp = ch as int;
    "U+"@ + six_hex_digits(cp).skip(6 - code_point_width(cp))
}

/// A character written in the notation `U+XXXX` is read back as itself.
pub proof fn lemma_code_point_round_trip(ch: char)
    ensures
        spec_code_point_to_char(spec_char_to_code_point(ch)) == Some(ch),
{
    reveal_strlit("U+");
    let cp = ch as int;
    let width = code_point_width(cp);
    let digits = six_hex_digits(cp).skip(6 - width);
    let text = "U+"@ + digits;
    assert(text.skip(2) =~= digits);
    assert forall|d: int| 0 <= d < 16 implies hex_digit_value(#[trigger] hex_digit_char(d)) == Some(
        d,
    ) by {}
    assert(all_hex_digits(digits));
    assert(digits[0] != '+');
    let d0 = cp % 16;
    let d1 = cp / 0x10 % 16;
    let d2 = cp / 0x100 % 16;
    let d3 = cp / 0x1000 % 16;
    let d4 = cp / 0x10000 % 16;
    let d5 = cp / 0x100000 % 16;
    assert(cp == d0 + 16 * (d1 + 16 * (d2 + 16 * (d3 + 16 * (d4 + 16 * d5)))));
    let four = seq![hex_digit_char(d3), hex_digit_char(d2), hex_digit_char(d1), hex_digit_char(d0)];
    let five = seq![hex_digit_char(d4)] + four;
    let six = seq![hex_digit_char(d5)] + five;
    assert(four.drop_last() =~= seq![hex_digit_char(d3), hex_digit_char(d2), hex_digit_char(d1)]);
    assert(four.drop_last().drop_last() =~= seq![hex_digit_char(d3), hex_digit_char(d2)]);
    assert(four.drop_last().drop_last().drop_last() =~= seq![hex_digit_char(d3)]);
    assert(four.drop_last().drop_last().drop_last().drop_last() =~= Seq::<char>::empty());
    assert(hex_value(four) == d0 + 16 * (d1 + 16 * (d2 + 16 * d3))) by {
        reveal_with_fuel(hex_value, 6);
    }
    assert(sixteen_to(4) == 0x10000 && sixteen_to(5) == 0x100000) by {
        reveal_with_fuel(sixteen_to, 6);
    }
    if width == 4 {
        assert(digits =~= four);
        assert(d4 == 0 && d5 == 0);
    } else if width == 5 {
        assert(digits =~= five);
        lemma_hex_value_prepend(hex_digit_char(d4), four);
        assert(d5 == 0);
        assert(hex_value(five) == d4 * 0x10000 + hex_value(four));
    } else {
        assert(digits =~= six);
        lemma_hex_value_prepend(hex_digit_char(d4), four);
        lemma_hex_value_prepend(hex_digit_char(d5), five);
        assert(hex_value(five) == d4 * 0x10000 + hex_value(four));
        assert(hex_value(six) == d5 * 0x100000 + hex_value(five));
    }
    assert(hex_value(digits) == cp);
    assert(parse_hex_u32(digits) == Some(cp as u32));
    assert(text[0] == 'U' && text[1] == '+');
    assert(is_scalar_value(cp as u32));
    assert((cp as u32) as char == ch);
}

/// 16 to the power of `n`.
spec fn sixteen_to(n: nat) -> int
    decreases n,
{
    if n == 0 {
        1
    } else {
        16 * sixteen_to((n - 1) as nat)
    }
}

/// A digit put in front of a number adds its value times a power of 16.
proof fn lemma_hex_value_prepend(first: char, digits: Seq<char>)
    ensures
        hex_value(seq![first] + digits) == (match hex_digit_value(first) {
            Some(d) => d,
            None => 0,
        }) * sixteen_to(digits.len()) + hex_value(digits),
    decreases digits.len(),
{
    let whole = seq![first] + digits;
    if digits.len() == 0 {
        assert(whole.drop_last() =~= Seq::<char>::empty());
        assert(whole.last() == first);
        reveal_with_fuel(hex_value, 2);
    } else {
        lemma_hex_value_prepend(first, digits.drop_last());
        assert(whole.drop_last() =~= seq![first] + digits.drop_last());
        assert(whole.last() == digits.last());
        let d: int = match hex_digit_value(first) {
            Some(d) => d,
            None => 0,
        };
        assert(16 * (d * sixteen_to((digits.len() - 1) as nat)) == d * sixteen_to(digits.len()))
            by (nonlinear_arith)
            requires
                sixteen_to(digits.len()) == 16 * sixteen_to((digits.len() - 1) as nat),
        ;
    }
}

fn hex_char(d: u32) -> (c: char)
    requires
        d < 16,
    ensures
        c == hex_digit_char(d as int),
{
    let cp: u32 = if d < 10 {
        0x30 + d
    } else {
        0x41 + d - 10
    };
    match char::from_u32(cp) {
        Some(c) => c,
        None => '0',
    }
}

/// Convert a char to a Unicode code point string (e.g., "U+4E00").
pub fn char_to_code_point(ch: char) -> (text: String)
    ensures
        text@ == spec_char_to_code_point(ch),
{
    let cp: u32 = ch as u32;
    let mut text = String::from_str("U+");
    if cp >= 0x100000 {
        text.push(hex_char(cp / 0x100000 % 16));
    }
    if cp >= 0x10000 {
        text.push(hex_char(cp / 0x10000 % 16));
    }
    text.push(hex_char(cp / 0x1000 % 16));
    text.push(hex_char(cp / 0x100 % 16));
    text.push(hex_char(cp / 0x10 % 16));
    text.push(hex_char(cp % 16));
    assert(text@ =~= spec_char_to_code_point(ch));
    text
}

} // verus!
