//! Verified decision logic of an options trading client for the tastytrade API:
//! option symbol parsing, position classification, exit rules, order
//! construction, market-data snapshot bookkeeping and the streaming-session
//! state machines.
use vstd::prelude::*;

pub mod decimal;
pub mod text;
pub mod calendar;
pub mod platform;
pub mod tt_api;
pub mod strategy;
pub mod connectivity;
pub mod positions;
pub mod settings;
pub mod utils;

verus! {

broadcast use vstd::string::to_string_from_display_ensures_for_str;

/// The lowercase form of a text, character by character by the Unicode
/// lowercase mapping, as `str::to_lowercase` computes it.
pub uninterp spec fn lowercase(s: Seq<char>) -> Seq<char>;

/// Every character of the text is ASCII.
pub open spec fn is_ascii_text(s: Seq<char>) -> bool {
    forall|i: int| 0 <= i < s.len() ==> (#[trigger] s[i] as u32) < 128
}

/// An ASCII text's uppercase form: `a`-`z` become `A`-`Z`, the rest stays.
pub open spec fn ascii_uppercase(s: Seq<char>) -> Seq<char> {
    s.map_values(|c: char| if 'a' <= c <= 'z' { ((c as u32) - 32) as char } else { c })
}

/// An ASCII text's lowercase form: `A`-`Z` become `a`-`z`, the rest stays.
pub open spec fn ascii_lowercase(s: Seq<char>) -> Seq<char> {
    s.map_values(|c: char| if 'A' <= c <= 'Z' { ((c as u32) + 32) as char } else { c })
}

/// `str::to_lowercase`. Its result is named `lowercase`; of ASCII text, std
/// documents that only `A`-`Z` change, to `a`-`z`.
#[verifier::external_body]
fn to_lowercase(s: &str) -> (r: String)
    ensures
        r@ == lowercase(s@),
        is_ascii_text(s@) ==> r@ == ascii_lowercase(s@),
{
    s.to_lowercase()
}

/// How much the application logs.
#[derive(Debug, Clone, Copy, PartialEq, Eq, Structural)]
pub enum LogLevel {
    Debug,
    Info,
    Warn,
}

/// The log level a lowercase name stands for: `debug`, `info`, and warnings
/// for anything else.
pub open spec fn level_of(lower: Seq<char>) -> LogLevel {
    if lower == "debug"@ {
        LogLevel::Debug
    } else if lower == "info"@ {
        LogLevel::Info
    } else {
        LogLevel::Warn
    }
}

/// The log level a lowercase name stands for.
pub fn log_level_of_lowercase(lower: &str) -> (l: LogLevel)
    ensures
        l == level_of(lower@),
{
    if text::str_eq(lower, "debug") {
        LogLevel::Debug
    } else if text::str_eq(lower, "info") {
        LogLevel::Info
    } else {
        LogLevel::Warn
    }
}

/// The log level a setting names, whatever its case.
pub fn get_log_level(level: &str) -> (l: LogLevel)
    ensures
        l == level_of(lowercase(level@)),
        is_ascii_text(level@) ==> l == level_of(ascii_lowercase(level@)),
{
    let lower = to_lowercase(level);
    log_level_of_lowercase(lower.as_str())
}


/// The log level of an ASCII name does not depend on its case: the name, its
/// uppercase form and its lowercase form (all ASCII again) give one level.
pub proof fn lemma_log_level_ignores_case(s: Seq<char>)
    requires
        is_ascii_text(s),
    ensures
        is_ascii_text(ascii_uppercase(s)),
        is_ascii_text(ascii_lowercase(s)),
        level_of(ascii_lowercase(ascii_uppercase(s))) == level_of(ascii_lowercase(s)),
        level_of(ascii_lowercase(ascii_lowercase(s))) == level_of(ascii_lowercase(s)),
{
    let up = ascii_uppercase(s);
    let low = ascii_lowercase(s);
    assert forall|i: int| 0 <= i < s.len() implies (#[trigger] up[i] as u32) < 128
        && (low[i] as u32) < 128 && ascii_lowercase(up)[i] == low[i]
        && ascii_lowercase(low)[i] == low[i] by {
        let c = s[i];
        assert((c as u32) < 128);
    }
    assert(ascii_lowercase(up) =~= low);
    assert(ascii_lowercase(low) =~= low);
}

} // verus!
