//! The outside functions that the library calls, each behind a contract that says
//! what is relied on.
use vstd::prelude::*;
use vstd::string::*;

use crate::text;

verus! {

/// `chrono::Utc::now`, written as RFC 3339 with whole seconds at the offset from UTC, or at
/// UTC where there is no such offset. The machine's clock decides; nothing is claimed of the
/// text.
#[verifier::external_body]
fn now_at_offset(offset_seconds: i32) -> (r: String)
{
    let now = chrono::Utc::now();
    match chrono::FixedOffset::east_opt(offset_seconds) {
        Some(offset) => now.with_timezone(&offset).to_rfc3339_opts(chrono::SecondsFormat::Secs, false),
        None => now.to_rfc3339_opts(chrono::SecondsFormat::Secs, false),
    }
}

/// Seconds by which China standard time is ahead of UTC.
pub const CHINA_OFFSET_SECONDS: i32 = 28800;

/// The time of day in China standard time.
pub(crate) fn now_iso_cn() -> (r: String)
{
    now_at_offset(CHINA_OFFSET_SECONDS)
}

/// `chrono::Utc::now` as seconds and nanoseconds of the Unix epoch. The machine's clock
/// decides; nothing is claimed of it.
#[verifier::external_body]
pub(crate) fn now_moment() -> (r: (i64, u32))
{
    let now = chrono::Utc::now();
    (now.timestamp(), now.timestamp_subsec_nanos())
}

/// What `chrono::DateTime::parse_from_rfc3339` reads: seconds and nanoseconds of the Unix
/// epoch, and the time written out again at the offset.
pub uninterp spec fn rfc3339_reading(s: Seq<char>, offset_seconds: i32) -> Option<(i64, u32, Seq<char>)>;

/// A time as it was read.
pub open spec fn time_view(o: Option<(i64, u32, String)>) -> Option<(i64, u32, Seq<char>)> {
    match o {
        Some(t) => Some((t.0, t.1, t.2@)),
        None => None,
    }
}

/// `chrono::DateTime::parse_from_rfc3339`, with the time moved to the offset. The result is
/// named; nothing more is claimed of it.
#[verifier::external_body]
pub(crate) fn parse_rfc3339(s: &str, offset_seconds: i32) -> (r: Option<(i64, u32, String)>)
    ensures
        time_view(r) == rfc3339_reading(s@, offset_seconds),
{
    let offset = chrono::FixedOffset::east_opt(offset_seconds)?;
    let time = chrono::DateTime::parse_from_rfc3339(s).ok()?.with_timezone(&offset);
    Some((time.timestamp(), time.timestamp_subsec_nanos(), time.to_rfc3339()))
}

/// What `chrono::NaiveDateTime::parse_from_str` reads, taken as a local time at the offset:
/// nothing where the text does not have the format, and no time where the local time is
/// none at that offset.
pub uninterp spec fn local_reading(
    s: Seq<char>,
    format: Seq<char>,
    offset_seconds: i32,
) -> Option<Option<(i64, u32, Seq<char>)>>;

/// A local time as it was read.
pub open spec fn local_view(o: Option<Option<(i64, u32, String)>>) -> Option<Option<(i64, u32, Seq<char>)>> {
    match o {
        Some(t) => Some(time_view(t)),
        None => None,
    }
}

/// `chrono::NaiveDateTime::parse_from_str`, and `from_local_datetime` at the offset. The
/// result is named; nothing more is claimed of it.
#[verifier::external_body]
pub(crate) fn parse_local(s: &str, format: &str, offset_seconds: i32) -> (r: Option<Option<(i64, u32, String)>>)
    ensures
        local_view(r) == local_reading(s@, format@, offset_seconds),
{
    let offset = chrono::FixedOffset::east_opt(offset_seconds)?;
    let naive = chrono::NaiveDateTime::parse_from_str(s, format).ok()?;
    match chrono::TimeZone::from_local_datetime(&offset, &naive).single() {
        Some(time) => Some(Some((time.timestamp(), time.timestamp_subsec_nanos(), time.to_rfc3339()))),
        None => Some(None),
    }
}

/// The SHA-256 digest of a text's UTF-8 bytes.
pub uninterp spec fn sha256(s: Seq<char>) -> Seq<u8>;

/// `sha2::Sha256::digest` of the text's UTF-8 bytes: always 32 bytes. The digest is named;
/// nothing more is claimed of it.
#[verifier::external_body]
pub(crate) fn sha256_of(s: &str) -> (r: Vec<u8>)
    ensures
        r@ == sha256(s@),
        r@.len() == 32,
{
    <sha2::Sha256 as sha2::Digest>::digest(s.as_bytes()).to_vec()
}

pub open spec fn is_lower_hex(c: char) -> bool {
    ('0' <= c && c <= '9') || ('a' <= c && c <= 'f')
}

/// Whether the text is written as a UUID: lower-case hexadecimal digits in five groups, with
/// hyphens between them.
pub open spec fn is_record_id(s: Seq<char>) -> bool {
    &&& s.len() == 36
    &&& forall|i: int|
        0 <= i < 36 ==> if i == 8 || i == 13 || i == 18 || i == 23 {
            #[trigger] s[i] == '-'
        } else {
            is_lower_hex(s[i])
        }
}

/// `uuid::Uuid::new_v4`, written out by its `Display`: a random identifier. Chance decides its
/// digits; only the form of the text is claimed.
#[verifier::external_body]
pub(crate) fn new_record_id() -> (r: String)
    ensures
        is_record_id(r@),
{
    uuid::Uuid::new_v4().to_string()
}

/// What `serde_json` finds under a key of a JSON text: nothing where the text is no JSON, and
/// no text where the value is no object or the entry is no string.
pub uninterp spec fn json_entry(s: Seq<char>, key: Seq<char>) -> Option<Option<Seq<char>>>;

/// The characters of what was found.
pub open spec fn entry_view(o: Option<Option<String>>) -> Option<Option<Seq<char>>> {
    match o {
        Some(Some(s)) => Some(Some(s@)),
        Some(None) => Some(None),
        None => None,
    }
}

/// `serde_json::from_str` into a `serde_json::Value`, and the string under a key of it. The
/// result is named; nothing more is claimed of it.
#[verifier::external_body]
pub(crate) fn read_json_entry(s: &str, key: &str) -> (r: Option<Option<String>>)
    ensures
        entry_view(r) == json_entry(s@, key@),
{
    match serde_json::from_str::<serde_json::Value>(s) {
        Ok(value) => match value.get(key) {
            Some(serde_json::Value::String(text)) => Some(Some(text.clone())),
            _ => Some(None),
        },
        Err(_) => None,
    }
}

/// A character as it stands within a string of JSON: quotes, backslashes and the control
/// characters are escaped.
pub open spec fn json_char(c: char) -> Seq<char> {
    let n = c as int;
    if c == '"' || c == '\\' {
        seq!['\\', c]
    } else if n == 8 {
        seq!['\\', 'b']
    } else if n == 12 {
        seq!['\\', 'f']
    } else if c == '\n' {
        seq!['\\', 'n']
    } else if c == '\r' {
        seq!['\\', 'r']
    } else if c == '\t' {
        seq!['\\', 't']
    } else if n < 32 {
        seq!['\\', 'u', '0', '0', text::hex_digit(n / 16), text::hex_digit(n % 16)]
    } else {
        seq![c]
    }
}

pub open spec fn json_chars(s: Seq<char>) -> Seq<char>
    decreases s.len(),
{
    if s.len() == 0 {
        Seq::empty()
    } else {
        json_chars(s.drop_last()) + json_char(s.last())
    }
}

/// The text in quotes, as JSON writes it.
pub open spec fn json_string(s: Seq<char>) -> Seq<char> {
    seq!['"'] + json_chars(s) + seq!['"']
}

/// `serde_json::Value::String` written out: the text in quotes, with what JSON cannot hold
/// escaped by the table of `serde_json`.
#[verifier::external_body]
pub(crate) fn quote_json(s: &str) -> (r: String)
    ensures
        r@ == json_string(s@),
{
    serde_json::Value::String(s.to_owned()).to_string()
}

/// What `pulldown_cmark` finds in a Markdown text with these options: for each of its events in
/// order, the target of the link or image that begins there, if one does.
pub uninterp spec fn link_targets(s: Seq<char>, options: u32) -> Seq<Option<Seq<char>>>;

pub open spec fn option_views(v: Seq<Option<String>>) -> Seq<Option<Seq<char>>> {
    Seq::new(v.len(), |i: int| text::opt_view(v[i]))
}

/// `pulldown_cmark::Parser::new_ext`, with the options whose bits are given: the events of the
/// text in order, of which only the targets of links and images are kept. They depend on the
/// text and the options alone.
#[verifier::external_body]
pub(crate) fn markdown_link_targets(s: &str, options: u32) -> (r: Vec<Option<String>>)
    ensures
        option_views(r@) == link_targets(s@, options),
{
    let options = pulldown_cmark::Options::from_bits_truncate(options);
    pulldown_cmark::Parser::new_ext(s, options).map(|event| match event {
        pulldown_cmark::Event::Start(pulldown_cmark::Tag::Link { dest_url, .. }) => Some(dest_url.to_string()),
        pulldown_cmark::Event::Start(pulldown_cmark::Tag::Image { dest_url, .. }) => Some(dest_url.to_string()),
        _ => None,
    }).collect()
}

/// The day that chrono reads from a text in a format: year, month and day.
pub uninterp spec fn date_reading(s: Seq<char>, format: Seq<char>) -> Option<(i32, u32, u32)>;

/// `chrono::NaiveDate::parse_from_str`: the day that the text gives in the format, or nothing
/// where it gives none. It depends on the two alone.
#[verifier::external_body]
pub(crate) fn parse_date(s: &str, format: &str) -> (r: Option<(i32, u32, u32)>)
    ensures
        r == date_reading(s@, format@),
{
    match chrono::NaiveDate::parse_from_str(s, format) {
        Ok(day) => Some((chrono::Datelike::year(&day), chrono::Datelike::month(&day), chrono::Datelike::day(&day))),
        Err(_) => None,
    }
}

/// Why `regex` does not take a text as a regular expression, if it does not.
pub uninterp spec fn regex_error(pattern: Seq<char>) -> Option<Seq<char>>;

/// `regex::Regex::new`: the text of its error, or nothing where the text is a regular
/// expression. It depends on the text alone.
#[verifier::external_body]
pub(crate) fn check_regex(pattern: &str) -> (r: Option<String>)
    ensures
        text::opt_view(r) == regex_error(pattern@),
{
    match regex::Regex::new(pattern) {
        Ok(_) => None,
        Err(error) => Some(error.to_string()),
    }
}

/// Whether `regex` finds the regular expression in a text.
pub uninterp spec fn regex_matches(pattern: Seq<char>, s: Seq<char>) -> bool;

/// `regex::Regex::is_match`, of the expression that the pattern is: whether it stands anywhere
/// in the text. It depends on the two alone.
#[verifier::external_body]
pub(crate) fn regex_is_match(pattern: &str, s: &str) -> (r: bool)
    requires
        regex_error(pattern@) is None,
    ensures
        r == regex_matches(pattern@, s@),
{
    match regex::Regex::new(pattern) {
        Ok(expression) => expression.is_match(s),
        Err(_) => false,
    }
}

} // verus!
