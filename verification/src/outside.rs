//! The calls this library makes into outside crates and into parts of `std`
//! that vstd does not specify. Every item here is trusted: Verus believes its
//! contract and does not read its body.
use vstd::prelude::*;
use vstd::utf8::*;

verus! {

/// What the `regex` crate finds for capture group `group` in the leftmost
/// match of `pattern` in `haystack`: the text of the group, or `None` where
/// the pattern does not compile, nothing matches, or the group takes no part
/// in the match. It depends on the pattern and the haystack alone.
pub uninterp spec fn regex_first_capture(pattern: Seq<char>, haystack: Seq<char>, group: nat) -> Option<Seq<char>>;

/// Compiles `pattern` with `regex::Regex::new`, searches `haystack` with
/// `Regex::captures` and hands out the text of group `group`
/// (`Captures::get`, `Match::as_str`). The contract claims only that the
/// result is the one named by `regex_first_capture` for these arguments;
/// what the regex engine matches is not restated here.
#[verifier::external_body]
pub(crate) fn regex_capture(pattern: &str, haystack: &str, group: usize) -> (r: Option<String>)
    ensures
        match r {
            Some(g) => regex_first_capture(pattern@, haystack@, group as nat) == Some(g@),
            None => regex_first_capture(pattern@, haystack@, group as nat) is None,
        },
{
    let re = match regex::Regex::new(pattern) {
        Ok(re) => re,
        Err(_) => return None,
    };
    match re.captures(haystack) {
        Some(caps) => match caps.get(group) {
            Some(m) => Some(m.as_str().to_string()),
            None => None,
        },
        None => None,
    }
}

/// Whether `s` is a lowercase hyphenated UUID of version 4, variant RFC 4122:
/// 36 characters, `-` at positions 8, 13, 18 and 23, lowercase hexadecimal
/// digits elsewhere, `4` at position 14 and one of `8`, `9`, `a`, `b` at 19.
pub open spec fn is_uuid_v4_text(s: Seq<char>) -> bool {
    &&& s.len() == 36
    &&& forall|i: int| 0 <= i < 36 ==> (#[trigger] s[i] == '-' <==> (i == 8 || i == 13 || i == 18 || i == 23))
    &&& forall|i: int| 0 <= i < 36 && s[i] != '-' ==> (('0' <= #[trigger] s[i] && s[i] <= '9') || ('a' <= s[i] && s[i] <= 'f'))
    &&& s[14] == '4'
    &&& (s[19] == '8' || s[19] == '9' || s[19] == 'a' || s[19] == 'b')
}

/// A fresh random identifier: `uuid::Uuid::new_v4()` rendered by
/// `Uuid::hyphenated().to_string()`. The contract claims the text format that
/// the `uuid` crate writes (lowercase hyphenated hex with the version and
/// variant digits set); the random digits themselves are unknown.
#[verifier::external_body]
pub(crate) fn new_uuid_v4() -> (r: String)
    ensures
        is_uuid_v4_text(r@),
{
    uuid::Uuid::new_v4().hyphenated().to_string()
}

/// The instant that `chrono::NaiveDateTime::parse_from_str(text, format)`
/// reads, as whole seconds since the Unix epoch taken in UTC; `None` where the
/// parse fails. It depends on the two strings alone.
pub uninterp spec fn naive_datetime_seconds(text: Seq<char>, format: Seq<char>) -> Option<i64>;

/// What `chrono::DateTime::<Utc>::from_timestamp(secs, 0)` displays
/// (`to_string`), such as `1970-01-01 00:00:00 UTC`; `None` where the
/// instant is outside chrono's range.
pub uninterp spec fn utc_datetime_text(secs: i64) -> Option<Seq<char>>;

/// Parses `text` with `chrono::NaiveDateTime::parse_from_str(text, format)`
/// and takes the result in UTC (`and_utc().timestamp()`). Besides naming the
/// result, the contract claims what chrono documents for `from_timestamp`: a
/// timestamp taken from a parsed date and time converts back, so it can be
/// displayed.
#[verifier::external_body]
pub(crate) fn parse_naive_datetime_seconds(text: &str, format: &str) -> (r: Option<i64>)
    ensures
        r == naive_datetime_seconds(text@, format@),
        r matches Some(t) ==> utc_datetime_text(t) is Some,
{
    match chrono::NaiveDateTime::parse_from_str(text, format) {
        Ok(dt) => Some(dt.and_utc().timestamp()),
        Err(_) => None,
    }
}

/// Displays the instant `secs` seconds after the Unix epoch with
/// `chrono::DateTime::<Utc>::from_timestamp(secs, 0)` and `to_string`. Besides
/// naming the result, the contract claims that the epoch itself (the value of
/// `DateTime::<Utc>::default()`) is in range.
#[verifier::external_body]
pub(crate) fn utc_datetime_string(secs: i64) -> (r: Option<String>)
    ensures
        match r {
            Some(t) => utc_datetime_text(secs) == Some(t@),
            None => utc_datetime_text(secs) is None,
        },
        secs == 0 ==> r is Some,
{
    match chrono::DateTime::<chrono::Utc>::from_timestamp(secs, 0) {
        Some(d) => Some(d.to_string()),
        None => None,
    }
}

/// Whether `chrono_tz` knows a time zone of this exact name. It depends on
/// the name alone.
pub uninterp spec fn tz_name_known(name: Seq<char>) -> bool;

/// Looks `name` up with `<chrono_tz::Tz as FromStr>::from_str`. The contract
/// names the outcome only. (In `chrono_tz` the zone found for a name displays
/// as that very name, which is why the library keeps the name.)
#[verifier::external_body]
pub(crate) fn tz_is_known(name: &str) -> (r: bool)
    ensures
        r == tz_name_known(name@),
{
    name.parse::<chrono_tz::Tz>().is_ok()
}

/// Appends `c` to `s` (`String::push`).
#[verifier::external_body]
pub(crate) fn string_push(s: &mut String, c: char)
    ensures
        final(s)@ == old(s)@.push(c),
{
    s.push(c);
}

/// The Unicode uppercase of `s`, as `str::to_uppercase` computes it.
pub uninterp spec fn unicode_uppercase(s: Seq<char>) -> Seq<char>;

/// `str::to_uppercase`. The contract names the result only.
#[verifier::external_body]
pub(crate) fn to_uppercase(s: &str) -> (r: String)
    ensures
        r@ == unicode_uppercase(s@),
{
    s.to_uppercase()
}

/// `String::from_utf8`, its error dropped: `Some` exactly when the bytes
/// are valid UTF-8, holding the characters they encode (as std documents).
#[verifier::external_body]
pub(crate) fn string_from_utf8(bytes: Vec<u8>) -> (r: Option<String>)
    ensures
        r is Some <==> valid_utf8(bytes@),
        r matches Some(s) ==> s@ == decode_utf8(bytes@),
{
    String::from_utf8(bytes).ok()
}

/// How `{:?}` writes the path `p`: between double quotes, with escapes.
pub uninterp spec fn path_debug_text(p: Seq<char>) -> Seq<char>;

/// `format!("{:?}", Path::new(p))`. The contract names the result only.
#[verifier::external_body]
pub(crate) fn path_debug_string(p: &str) -> (r: String)
    ensures
        r@ == path_debug_text(p@),
{
    format!("{:?}", std::path::Path::new(p))
}

} // verus!
