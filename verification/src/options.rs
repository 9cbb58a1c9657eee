//! The names by which scripts and output formats are chosen.

use crate::types::{OutputFormat, Script};
use vstd::prelude::*;

verus! {

/// `text` with each character replaced by its lowercase form.
pub uninterp spec fn lowercase_of(text: Seq<char>) -> Seq<char>;

/// `str::to_lowercase` returns the lowercase equivalent of the string.
pub assume_specification[ str::to_lowercase ](text: &str) -> (lower: String)
    ensures
        lower@ == lowercase_of(text@),
;

/// The script called `name`; `Auto` for every other word.
pub open spec fn script_of_name(name: Seq<char>) -> Script {
    if name == "simplified"@ {
        Script::SimplifiedChinese
    } else if name == "traditional"@ {
        Script::TraditionalChinese
    } else if name == "japanese"@ {
        Script::Japanese
    } else if name == "korean"@ {
        Script::Korean
    } else {
        Script::Auto
    }
}

/// The output format called `name`; `Simple` for every other word.
pub open spec fn format_of_name(name: Seq<char>) -> OutputFormat {
    if name == "detailed"@ {
        OutputFormat::Detailed
    } else if name == "verbose"@ {
        OutputFormat::Verbose
    } else {
        OutputFormat::Simple
    }
}

/// Whether `name` reads `word`.
fn reads(name: &str, word: &str) -> (same: bool)
    ensures
        same == (name@ == word@),
{
    let a = crate::utils::text::to_chars(name);
    let b = crate::utils::text::to_chars(word);
    crate::utils::text::same_chars(&a, &b)
}

/// The script called `name`, which is written in lower case.
pub fn script_named(name: &str) -> (script: Script)
    ensures
        script == script_of_name(name@),
{
    if reads(name, "simplified") {
        Script::SimplifiedChinese
    } else if reads(name, "traditional") {
        Script::TraditionalChinese
    } else if reads(name, "japanese") {
        Script::Japanese
    } else if reads(name, "korean") {
        Script::Korean
    } else {
        Script::Auto
    }
}

/// The output format called `name`, which is written in lower case.
pub fn format_named(name: &str) -> (format: OutputFormat)
    ensures
        format == format_of_name(name@),
{
    if reads(name, "detailed") {
        OutputFormat::Detailed
    } else if reads(name, "verbose") {
        OutputFormat::Verbose
    } else {
        OutputFormat::Simple
    }
}

/// The script that `script` names, whatever the case of its letters.
pub fn parse_script(script: &str) -> (parsed: Script)
    ensures
        parsed == script_of_name(lowercase_of(script@)),
{
    let lower = script.to_lowercase();
    script_named(lower.as_str())
}

/// The output format that `format` names, whatever the case of its
/// letters.
pub fn parse_format(format: &str) -> (parsed: OutputFormat)
    ensures
        parsed == format_of_name(lowercase_of(format@)),
{
    let lower = format.to_lowercase();
    format_named(lower.as_str())
}

} // verus!
