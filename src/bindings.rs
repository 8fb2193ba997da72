//! The calls this library makes into std and outside crates whose behaviour
//! Verus does not know. Each item states what the called function's
//! documentation promises, and nothing more.

use vstd::prelude::*;

verus! {

/// What `str::to_uppercase` returns for a string: the Unicode upper-case
/// mapping of each character, which depends on the characters alone.
pub uninterp spec fn upper_of(s: Seq<char>) -> Seq<char>;

/// Relies on `str::to_uppercase`: the result is a function of the input's
/// characters; an empty string stays empty.
#[verifier::external_body]
pub(crate) fn to_upper(s: &str) -> (r: String)
    ensures
        r@ == upper_of(s@),
        s@.len() == 0 ==> r@.len() == 0,
{
    s.to_uppercase()
}

/// Whether `regex::Regex::new` accepts a pattern (it is valid and within
/// the default size limit).
pub uninterp spec fn regex_compiles(pattern: Seq<char>) -> bool;

/// Whether the regex compiled from `pattern` finds a match in `text`, as
/// `regex::Regex::is_match` reports it.
pub uninterp spec fn regex_accepts(pattern: Seq<char>, text: Seq<char>) -> bool;

/// Relies on `regex::Regex::new` and `regex::Regex::is_match`: `None` when
/// the pattern does not compile, else whether `text` holds a match.
#[verifier::external_body]
pub(crate) fn regex_is_match(pattern: &str, text: &str) -> (r: Option<bool>)
    ensures
        r is Some == regex_compiles(pattern@),
        r matches Some(b) ==> b == regex_accepts(pattern@, text@),
{
    match regex::Regex::new(pattern) {
        Ok(re) => Some(re.is_match(text)),
        Err(_) => None,
    }
}

/// Relies on `std::time::SystemTime::now` and chrono's
/// `From<SystemTime> for DateTime<Utc>` with `DateTime::timestamp_millis`:
/// the current time in milliseconds since the Unix epoch, negative for a
/// clock set before it. Nothing is promised of the value.
#[verifier::external_body]
pub(crate) fn now_millis() -> (r: i64) {
    chrono::DateTime::<chrono::Utc>::from(std::time::SystemTime::now()).timestamp_millis()
}

/// The words of a string as `str::split_whitespace` yields them: the runs
/// of characters between Unicode white space, none of them empty.
pub uninterp spec fn whitespace_words(s: Seq<char>) -> Seq<Seq<char>>;

/// Relies on `str::split_whitespace`: the words of `s`, in order.
#[verifier::external_body]
pub(crate) fn split_words(s: &str) -> (r: Vec<String>)
    ensures
        r@.map_values(|w: String| w@) == whitespace_words(s@),
{
    s.split_whitespace().map(|w| w.to_string()).collect()
}

} // verus!
