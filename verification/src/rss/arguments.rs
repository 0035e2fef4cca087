//! Reading what the feed tools are asked for.
use vstd::prelude::*;
use vstd::string::*;

use crate::error;
use crate::error::{Failure, ToolError};
use crate::json::Json;
use crate::text;

verus! {

pub const QUERY_MAX_CHARS: usize = 80;

pub const DEFAULT_LIMIT: usize = 3;

pub const MAX_LIMIT: usize = 20;

/// How many feeds one request can add or delete.
pub const MAX_BATCH_ITEMS: usize = 10;

pub const NAME_MAX_CHARS: usize = 120;

pub const URL_MAX_CHARS: usize = 500;

pub const RAW_TEXT_MAX_CHARS: usize = 4000;

/// The value that was found, if one was.
pub open spec fn found(o: Option<&Json>) -> Option<Json> {
    match o {
        Some(v) => Some(*v),
        None => None,
    }
}

// Texts.

/// The trimmed text, cut to its first characters; nothing where it is blank.
pub open spec fn limited(s: Seq<char>, max_chars: int) -> Option<Seq<char>> {
    if text::blank(s) {
        None
    } else {
        Some(text::first_chars(text::trimmed(s), max_chars))
    }
}

pub fn clean_optional(value: &str, max_chars: usize) -> (r: Option<String>)
    ensures
        text::opt_view(r) == limited(value@, max_chars as int),
{
    if text::is_blank(value) {
        None
    } else {
        Some(text::take_chars(text::trim(value), max_chars).to_owned())
    }
}

/// The text under a field, if it has one.
pub open spec fn optional(v: Option<Json>, field: Seq<char>, max_chars: int) -> Result<Option<Seq<char>>, Failure> {
    match v {
        None => Ok(None),
        Some(Json::Null) => Ok(None),
        Some(Json::Text(s)) => Ok(limited(s@, max_chars)),
        Some(_) => Err(error::bad_arguments(field + " must be a string or null"@)),
    }
}

pub open spec fn option_shown(r: Result<Option<String>, ToolError>) -> Result<Option<Seq<char>>, Failure> {
    match r {
        Ok(o) => Ok(text::opt_view(o)),
        Err(e) => Err(e.shown()),
    }
}

pub fn optional_string(value: Option<&Json>, field: &str, max_chars: usize) -> (r: Result<Option<String>, ToolError>)
    ensures
        option_shown(r) == optional(found(value), field@, max_chars as int),
{
    match value {
        None => Ok(None),
        Some(Json::Null) => Ok(None),
        Some(Json::Text(s)) => Ok(clean_optional(s.as_str(), max_chars)),
        Some(_) => {
            let mut message = field.to_owned();
            message.append(" must be a string or null");
            Err(error::reject_bad_arguments(message.as_str()))
        },
    }
}

/// The text under a field that has to have one.
pub open spec fn required(v: Option<Json>, field: Seq<char>) -> Result<Seq<char>, Failure> {
    match optional(v, field, URL_MAX_CHARS as int) {
        Err(e) => Err(e),
        Ok(Some(s)) => Ok(s),
        Ok(None) => Err(error::bad_arguments(field + " is required"@)),
    }
}

pub open spec fn text_shown(r: Result<String, ToolError>) -> Result<Seq<char>, Failure> {
    match r {
        Ok(s) => Ok(s@),
        Err(e) => Err(e.shown()),
    }
}

pub fn required_string(value: Option<&Json>, field: &str) -> (r: Result<String, ToolError>)
    ensures
        text_shown(r) == required(found(value), field@),
{
    match optional_string(value, field, URL_MAX_CHARS) {
        Err(e) => Err(e),
        Ok(Some(s)) => Ok(s),
        Ok(None) => {
            let mut message = field.to_owned();
            message.append(" is required");
            Err(error::reject_bad_arguments(message.as_str()))
        },
    }
}

// Asking for recent items.

/// What the items are searched for. A blank text is as wrong as a value of another kind.
pub open spec fn query_in(v: Option<Json>) -> Result<Option<Seq<char>>, Failure> {
    match v {
        None => Ok(None),
        Some(Json::Null) => Ok(None),
        Some(Json::Text(s)) => if text::blank(s@) {
            Err(error::bad_arguments("query must be a string or null"@))
        } else if text::trimmed(s@).len() > QUERY_MAX_CHARS {
            Err(error::bad_arguments("query is too long"@))
        } else {
            Ok(Some(text::trimmed(s@)))
        },
        Some(_) => Err(error::bad_arguments("query must be a string or null"@)),
    }
}

pub fn parse_query(value: Option<&Json>) -> (r: Result<Option<String>, ToolError>)
    ensures
        option_shown(r) == query_in(found(value)),
{
    match value {
        None => Ok(None),
        Some(Json::Null) => Ok(None),
        Some(Json::Text(s)) => {
            if text::is_blank(s.as_str()) {
                return Err(error::reject_bad_arguments("query must be a string or null"));
            }
            let t = text::trim(s.as_str());
            let len: usize = t.unicode_len();
            if len > QUERY_MAX_CHARS {
                Err(error::reject_bad_arguments("query is too long"))
            } else {
                Ok(Some(t.to_owned()))
            }
        },
        Some(_) => Err(error::reject_bad_arguments("query must be a string or null")),
    }
}

/// How many items are wanted.
pub open spec fn limit_in(v: Option<Json>) -> Result<usize, Failure> {
    match v {
        None => Ok(DEFAULT_LIMIT),
        Some(Json::Null) => Ok(DEFAULT_LIMIT),
        Some(Json::Whole(n)) => if 1 <= n <= MAX_LIMIT {
            Ok(n as usize)
        } else {
            Err(error::bad_arguments("limit must be an integer between 1 and 20"@))
        },
        Some(Json::Negative(_)) => Err(error::bad_arguments("limit must be an integer between 1 and 20"@)),
        Some(_) => Err(error::bad_arguments("limit must be an integer or null"@)),
    }
}

pub open spec fn number_shown(r: Result<usize, ToolError>) -> Result<usize, Failure> {
    match r {
        Ok(n) => Ok(n),
        Err(e) => Err(e.shown()),
    }
}

pub fn parse_limit(value: Option<&Json>) -> (r: Result<usize, ToolError>)
    ensures
        number_shown(r) == limit_in(found(value)),
{
    match value {
        None => Ok(DEFAULT_LIMIT),
        Some(Json::Null) => Ok(DEFAULT_LIMIT),
        Some(Json::Whole(n)) => {
            if 1 <= *n && *n <= MAX_LIMIT as u64 {
                Ok(*n as usize)
            } else {
                Err(error::reject_bad_arguments("limit must be an integer between 1 and 20"))
            }
        },
        Some(Json::Negative(_)) => Err(
            error::reject_bad_arguments("limit must be an integer between 1 and 20"),
        ),
        Some(_) => Err(error::reject_bad_arguments("limit must be an integer or null")),
    }
}

// Lines of a pasted list.

/// Whether the character ends the number of a list item.
pub open spec fn ends_marker(c: char) -> bool {
    c == '.' || c == '。' || c == '、' || c == ')' || c == '）' || c == ':' || c == '：'
}

/// The trimmed text without the number of a list item at its start.
pub open spec fn unmarked(s: Seq<char>) -> Seq<char> {
    let t = text::trimmed(s);
    let n = text::digits_len(t) as int;
    let rest = text::trim_start(t.skip(n));
    if n > 0 && rest.len() > 0 && ends_marker(rest[0]) {
        text::trim_start(rest.skip(1))
    } else {
        t
    }
}

pub fn strip_list_marker<'a>(value: &'a str) -> (r: &'a str)
    ensures
        r@ == unmarked(value@),
{
    let t = text::trim(value);
    let v = text::chars_of(t);
    let n: usize = text::skip_digits(&v, 0);
    assert(v@.skip(0) =~= t@);
    if n == 0 {
        return t;
    }
    assert(t@.subrange(n as int, t@.len() as int) =~= t@.skip(n as int));
    let rest = text::trim_left(t.substring_char(n, v.len()));
    let len: usize = rest.unicode_len();
    if len == 0 {
        return t;
    }
    let c = rest.get_char(0);
    if c == '.' || c == '。' || c == '、' || c == ')' || c == '）' || c == ':' || c == '：' {
        assert(rest@.subrange(1, rest@.len() as int) =~= rest@.skip(1));
        text::trim_left(rest.substring_char(1, len))
    } else {
        t
    }
}

/// Where a web address starts: at the first `https://`, or else at the first `http://`.
pub open spec fn is_url_start(s: Seq<char>, i: int) -> bool {
    text::is_first_at(s, "https://"@, 0, i) || ((forall|k: int|
        0 <= k ==> !text::occurs_at(s, "https://"@, k)) && text::is_first_at(s, "http://"@, 0, i))
}

/// The web address in a line, with what stands before and behind it.
pub open spec fn url_in(s: Seq<char>) -> Option<(Seq<char>, Seq<char>, Seq<char>)> {
    if exists|i: int| is_url_start(s, i) {
        let i = choose|i: int| is_url_start(s, i);
        let n = text::word_len(s.skip(i)) as int;
        Some((text::trimmed(s.take(i)), s.skip(i).take(n), text::trimmed(s.skip(i).skip(n))))
    } else {
        None
    }
}

proof fn lemma_one_start(s: Seq<char>, i: int, k: int)
    requires
        is_url_start(s, i),
        is_url_start(s, k),
    ensures
        i == k,
{
    if i < k {
        assert(text::occurs_at(s, "https://"@, i) || text::occurs_at(s, "http://"@, i));
    } else if k < i {
        assert(text::occurs_at(s, "https://"@, k) || text::occurs_at(s, "http://"@, k));
    }
}

pub open spec fn parts_shown(r: Option<(&str, &str, &str)>) -> Option<(Seq<char>, Seq<char>, Seq<char>)> {
    match r {
        Some((a, b, c)) => Some((a@, b@, c@)),
        None => None,
    }
}

pub fn extract_url_from_line<'a>(line: &'a str) -> (r: Option<(&'a str, &'a str, &'a str)>)
    ensures
        parts_shown(r) == url_in(line@),
{
    let v = text::chars_of(line);
    let https = text::chars_of("https://");
    let http = text::chars_of("http://");
    let start: usize = match text::find_from(&v, &https, 0) {
        Some(i) => i,
        None => match text::find_from(&v, &http, 0) {
            Some(i) => i,
            None => {
                return None;
            },
        },
    };
    proof {
        assert(is_url_start(line@, start as int));
        let k = choose|k: int| is_url_start(line@, k);
        lemma_one_start(line@, start as int, k);
    }
    let before = text::trim(line.substring_char(0, start));
    let behind = line.substring_char(start, v.len());
    let mut n: usize = start;
    while n < v.len() && !text::is_whitespace(v[n])
        invariant
            start <= n <= v@.len(),
            forall|k: int| start <= k < n ==> !text::is_space(#[trigger] v@[k]),
        decreases v@.len() - n,
    {
        n += 1;
    }
    let len: usize = n - start;
    proof {
        assert(behind@ =~= line@.skip(start as int));
        assert forall|k: int| 0 <= k < len implies !text::is_space(#[trigger] behind@[k]) by {
            assert(behind@[k] == v@[k + start]);
        }
        text::lemma_word_len(behind@, len as int);
        assert(line@.subrange(0, start as int) =~= line@.take(start as int));
        assert(behind@.subrange(0, len as int) =~= behind@.take(len as int));
        assert(behind@.subrange(len as int, behind@.len() as int) =~= behind@.skip(len as int));
    }
    let url = behind.substring_char(0, len);
    let after = text::trim(behind.substring_char(len, v.len() - start));
    Some((before, url, after))
}

// Adding feeds.

#[derive(Debug)]
pub struct RssToolAddEntry {
    pub url: String,
    pub title: Option<String>,
}

/// Address and title.
pub type EntryView = (Seq<char>, Option<Seq<char>>);

pub open spec fn entry_views(v: Seq<RssToolAddEntry>) -> Seq<EntryView> {
    Seq::new(v.len(), |i: int| (v[i].url@, text::opt_view(v[i].title)))
}

/// The feeds of the lines so far, and the title that waits for its address. A title before
/// the address on its line goes before the one that waits, and that goes before a title
/// behind the address.
pub open spec fn raw_state(lines: Seq<Seq<char>>) -> (Seq<EntryView>, Option<Seq<char>>)
    decreases lines.len(),
{
    if lines.len() == 0 {
        (Seq::empty(), None)
    } else {
        let (entries, pending) = raw_state(lines.drop_last());
        let line = unmarked(text::trimmed(lines.last()));
        if line.len() == 0 {
            (entries, pending)
        } else {
            match url_in(line) {
                Some((before, url, after)) => {
                    let prefix = limited(before, NAME_MAX_CHARS as int);
                    if prefix is Some {
                        (entries.push((url, prefix)), pending)
                    } else if pending is Some {
                        (entries.push((url, pending)), None)
                    } else {
                        (entries.push((url, limited(after, NAME_MAX_CHARS as int))), None)
                    }
                },
                None => (entries, limited(line, NAME_MAX_CHARS as int)),
            }
        }
    }
}

/// The feeds of a pasted list.
pub open spec fn raw_entries(s: Seq<char>) -> Seq<EntryView> {
    raw_state(text::lines(s)).0
}

pub fn parse_raw_add_entries(raw_text: &str) -> (r: Vec<RssToolAddEntry>)
    ensures
        entry_views(r@) == raw_entries(raw_text@),
{
    let lines = text::split_lines(raw_text);
    let ghost all = text::lines(raw_text@);
    let mut entries: Vec<RssToolAddEntry> = Vec::new();
    let mut pending: Option<String> = None;
    let mut i: usize = 0;
    assert(all.take(0) =~= Seq::empty());
    assert(entry_views(entries@) =~= Seq::empty());
    while i < lines.len()
        invariant
            0 <= i <= lines@.len(),
            all == text::views(lines@),
            entry_views(entries@) == raw_state(all.take(i as int)).0,
            text::opt_view(pending) == raw_state(all.take(i as int)).1,
        decreases lines@.len() - i,
    {
        proof {
            assert(all.take(i + 1).drop_last() =~= all.take(i as int));
            assert(all.take(i + 1).last() == lines@[i as int]@);
        }
        let line = strip_list_marker(text::trim(lines[i].as_str()));
        i += 1;
        let len: usize = line.unicode_len();
        if len == 0 {
            continue;
        }
        match extract_url_from_line(line) {
            Some((before, url, after)) => {
                let ghost earlier = entries@;
                let prefix = clean_optional(before, NAME_MAX_CHARS);
                let title = if prefix.is_some() {
                    prefix
                } else if pending.is_some() {
                    let t = pending;
                    pending = None;
                    t
                } else {
                    clean_optional(after, NAME_MAX_CHARS)
                };
                entries.push(RssToolAddEntry { url: url.to_owned(), title });
                assert(entry_views(entries@) =~= entry_views(earlier).push((url@, text::opt_view(title))));
            },
            None => {
                pending = clean_optional(line, NAME_MAX_CHARS);
            },
        }
    }
    assert(all.take(i as int) =~= all);
    entries
}

/// The feed of one element.
pub open spec fn feed_in(v: Json) -> Result<EntryView, Failure> {
    match required(v.entry("url"@), "url"@) {
        Err(e) => Err(e),
        Ok(url) => match optional(v.entry("title"@), "title"@, NAME_MAX_CHARS as int) {
            Err(e) => Err(e),
            Ok(title) => Ok((url, title)),
        },
    }
}

/// The feeds of a list, or what is wrong with the first that is.
pub open spec fn feeds_in(feeds: Seq<Json>) -> Result<Seq<EntryView>, Failure>
    decreases feeds.len(),
{
    if feeds.len() == 0 {
        Ok(Seq::empty())
    } else {
        match feeds_in(feeds.drop_last()) {
            Err(e) => Err(e),
            Ok(entries) => match feed_in(feeds.last()) {
                Err(e) => Err(e),
                Ok(entry) => Ok(entries.push(entry)),
            },
        }
    }
}

proof fn lemma_feeds_fail(feeds: Seq<Json>, n: int)
    requires
        0 <= n <= feeds.len(),
        feeds_in(feeds.take(n)) is Err,
    ensures
        feeds_in(feeds) == feeds_in(feeds.take(n)),
    decreases feeds.len() - n,
{
    if n == feeds.len() {
        assert(feeds.take(n) =~= feeds);
    } else {
        assert(feeds.take(n + 1).drop_last() =~= feeds.take(n));
        lemma_feeds_fail(feeds, n + 1);
    }
}

pub open spec fn entries_shown(r: Result<Vec<RssToolAddEntry>, ToolError>) -> Result<Seq<EntryView>, Failure> {
    match r {
        Ok(v) => Ok(entry_views(v@)),
        Err(e) => Err(e.shown()),
    }
}

fn parse_feeds(feeds: &Vec<Json>) -> (r: Result<Vec<RssToolAddEntry>, ToolError>)
    ensures
        entries_shown(r) == feeds_in(feeds@),
{
    let mut entries: Vec<RssToolAddEntry> = Vec::new();
    let mut i: usize = 0;
    assert(feeds@.take(0) =~= Seq::empty());
    assert(entry_views(entries@) =~= Seq::empty());
    while i < feeds.len()
        invariant
            0 <= i <= feeds@.len(),
            feeds_in(feeds@.take(i as int)) == Ok::<Seq<EntryView>, Failure>(entry_views(entries@)),
        decreases feeds@.len() - i,
    {
        let ghost earlier = entries@;
        let feed = &feeds[i];
        proof {
            assert(feeds@.take(i + 1).drop_last() =~= feeds@.take(i as int));
            assert(feeds@.take(i + 1).last() == *feed);
        }
        let url = match required_string(feed.get("url"), "url") {
            Ok(s) => s,
            Err(e) => {
                proof {
                    lemma_feeds_fail(feeds@, i + 1);
                }
                return Err(e);
            },
        };
        let title = match optional_string(feed.get("title"), "title", NAME_MAX_CHARS) {
            Ok(o) => o,
            Err(e) => {
                proof {
                    lemma_feeds_fail(feeds@, i + 1);
                }
                return Err(e);
            },
        };
        entries.push(RssToolAddEntry { url, title });
        assert(entry_views(entries@) =~= entry_views(earlier).push((url@, text::opt_view(title))));
        i += 1;
    }
    assert(feeds@.take(i as int) =~= feeds@);
    Ok(entries)
}

/// What is wrong with an address, if anything is.
pub open spec fn url_fault(url: Seq<char>) -> Option<Failure> {
    if url.len() > URL_MAX_CHARS {
        Some(error::bad_arguments("url is too long"@))
    } else if !(text::starts_with(url, "http://"@) || text::starts_with(url, "https://"@)) {
        Some(error::bad_arguments("url must be http or https"@))
    } else {
        None
    }
}

pub fn validate_url(url: &str) -> (r: Result<(), ToolError>)
    ensures
        match url_fault(url@) {
            Some(f) => r matches Err(e) && e.shown() == f,
            None => r is Ok,
        },
{
    let len: usize = url.unicode_len();
    if len > URL_MAX_CHARS {
        return Err(error::reject_bad_arguments("url is too long"));
    }
    if !(text::has_prefix(url, "http://") || text::has_prefix(url, "https://")) {
        return Err(error::reject_bad_arguments("url must be http or https"));
    }
    Ok(())
}

/// What is wrong with the first address that is wrong.
pub open spec fn entries_fault(entries: Seq<EntryView>) -> Option<Failure>
    decreases entries.len(),
{
    if entries.len() == 0 {
        None
    } else {
        match entries_fault(entries.drop_last()) {
            Some(f) => Some(f),
            None => url_fault(entries.last().0),
        }
    }
}

proof fn lemma_fault_stays(entries: Seq<EntryView>, n: int)
    requires
        0 <= n <= entries.len(),
        entries_fault(entries.take(n)) is Some,
    ensures
        entries_fault(entries) == entries_fault(entries.take(n)),
    decreases entries.len() - n,
{
    if n == entries.len() {
        assert(entries.take(n) =~= entries);
    } else {
        assert(entries.take(n + 1).drop_last() =~= entries.take(n));
        lemma_fault_stays(entries, n + 1);
    }
}

pub fn validate_add_entries(entries: &Vec<RssToolAddEntry>) -> (r: Result<(), ToolError>)
    ensures
        match entries_fault(entry_views(entries@)) {
            Some(f) => r matches Err(e) && e.shown() == f,
            None => r is Ok,
        },
{
    let ghost all = entry_views(entries@);
    let mut i: usize = 0;
    assert(all.take(0) =~= Seq::empty());
    while i < entries.len()
        invariant
            0 <= i <= entries@.len(),
            all == entry_views(entries@),
            entries_fault(all.take(i as int)) is None,
        decreases entries@.len() - i,
    {
        proof {
            assert(all.take(i + 1).drop_last() =~= all.take(i as int));
            assert(all.take(i + 1).last().0 == entries@[i as int].url@);
        }
        match validate_url(entries[i].url.as_str()) {
            Ok(_) => {},
            Err(e) => {
                proof {
                    lemma_fault_stays(all, i + 1);
                }
                return Err(e);
            },
        }
        i += 1;
    }
    assert(all.take(i as int) =~= all);
    Ok(())
}

/// The feeds that the list under a key gives; none without a list.
pub open spec fn listed_feeds(arguments: Json) -> Result<Seq<EntryView>, Failure> {
    match arguments.list_at("feeds"@) {
        Some(feeds) => if feeds.len() > MAX_BATCH_ITEMS {
            Err(error::bad_arguments("feeds is too long"@))
        } else {
            feeds_in(feeds)
        },
        None => Ok(Seq::empty()),
    }
}

/// The listed feeds, or where none are listed those of the pasted text.
pub open spec fn wanted_feeds(arguments: Json) -> Result<Seq<EntryView>, Failure> {
    match listed_feeds(arguments) {
        Err(e) => Err(e),
        Ok(listed) => if listed.len() > 0 {
            Ok(listed)
        } else {
            match optional(arguments.entry("raw_text"@), "raw_text"@, RAW_TEXT_MAX_CHARS as int) {
                Err(e) => Err(e),
                Ok(Some(s)) => Ok(raw_entries(s)),
                Ok(None) => Ok(listed),
            }
        },
    }
}

/// The feeds to add: at least one, not too many, each with an address that can be read.
pub open spec fn feeds_to_add(arguments: Json) -> Result<Seq<EntryView>, Failure> {
    match wanted_feeds(arguments) {
        Err(e) => Err(e),
        Ok(entries) => if entries.len() == 0 {
            Err(error::bad_arguments("feeds or raw_text must contain at least one RSS URL"@))
        } else if entries.len() > MAX_BATCH_ITEMS {
            Err(error::bad_arguments("too many RSS feeds"@))
        } else {
            match entries_fault(entries) {
                Some(f) => Err(f),
                None => Ok(entries),
            }
        },
    }
}

pub fn parse_tool_add_entries(arguments: &Json) -> (r: Result<Vec<RssToolAddEntry>, ToolError>)
    ensures
        entries_shown(r) == feeds_to_add(*arguments),
{
    let mut entries: Vec<RssToolAddEntry> = Vec::new();
    assert(entry_views(entries@) =~= Seq::empty());
    match arguments.get_list("feeds") {
        Some(feeds) => {
            if feeds.len() > MAX_BATCH_ITEMS {
                return Err(error::reject_bad_arguments("feeds is too long"));
            }
            match parse_feeds(feeds) {
                Ok(v) => {
                    entries = v;
                },
                Err(e) => {
                    return Err(e);
                },
            }
        },
        None => {},
    }
    assert(listed_feeds(*arguments) == Ok::<Seq<EntryView>, Failure>(entry_views(entries@)));
    if entries.len() == 0 {
        match optional_string(arguments.get("raw_text"), "raw_text", RAW_TEXT_MAX_CHARS) {
            Err(e) => {
                return Err(e);
            },
            Ok(Some(s)) => {
                entries = parse_raw_add_entries(s.as_str());
            },
            Ok(None) => {},
        }
    }
    assert(wanted_feeds(*arguments) == Ok::<Seq<EntryView>, Failure>(entry_views(entries@)));
    if entries.len() == 0 {
        return Err(
            error::reject_bad_arguments("feeds or raw_text must contain at least one RSS URL"),
        );
    }
    if entries.len() > MAX_BATCH_ITEMS {
        return Err(error::reject_bad_arguments("too many RSS feeds"));
    }
    match validate_add_entries(&entries) {
        Ok(_) => Ok(entries),
        Err(e) => Err(e),
    }
}

// Deleting subscriptions.

/// The targets of a list, or what is wrong with the first that is.
pub open spec fn targets_in(values: Seq<Json>) -> Result<Seq<Seq<char>>, Failure>
    decreases values.len(),
{
    if values.len() == 0 {
        Ok(Seq::empty())
    } else {
        match targets_in(values.drop_last()) {
            Err(e) => Err(e),
            Ok(targets) => match required(Some(values.last()), "target"@) {
                Err(e) => Err(e),
                Ok(t) => Ok(targets.push(t)),
            },
        }
    }
}

proof fn lemma_targets_fail(values: Seq<Json>, n: int)
    requires
        0 <= n <= values.len(),
        targets_in(values.take(n)) is Err,
    ensures
        targets_in(values) == targets_in(values.take(n)),
    decreases values.len() - n,
{
    if n == values.len() {
        assert(values.take(n) =~= values);
    } else {
        assert(values.take(n + 1).drop_last() =~= values.take(n));
        lemma_targets_fail(values, n + 1);
    }
}

pub open spec fn texts_shown(r: Result<Vec<String>, ToolError>) -> Result<Seq<Seq<char>>, Failure> {
    match r {
        Ok(v) => Ok(text::views(v@)),
        Err(e) => Err(e.shown()),
    }
}

fn parse_targets(values: &Vec<Json>) -> (r: Result<Vec<String>, ToolError>)
    ensures
        texts_shown(r) == targets_in(values@),
{
    let mut targets: Vec<String> = Vec::new();
    let mut i: usize = 0;
    assert(values@.take(0) =~= Seq::empty());
    assert(text::views(targets@) =~= Seq::empty());
    while i < values.len()
        invariant
            0 <= i <= values@.len(),
            targets_in(values@.take(i as int)) == Ok::<Seq<Seq<char>>, Failure>(text::views(targets@)),
        decreases values@.len() - i,
    {
        let ghost earlier = targets@;
        proof {
            assert(values@.take(i + 1).drop_last() =~= values@.take(i as int));
            assert(values@.take(i + 1).last() == values@[i as int]);
        }
        match required_string(Some(&values[i]), "target") {
            Ok(s) => {
                targets.push(s);
                assert(text::views(targets@) =~= text::views(earlier).push(s@));
            },
            Err(e) => {
                proof {
                    lemma_targets_fail(values@, i + 1);
                }
                return Err(e);
            },
        }
        i += 1;
    }
    assert(values@.take(i as int) =~= values@);
    Ok(targets)
}

/// The words without the numbers of list items, as far as anything is left of them.
pub open spec fn unmarked_words(words: Seq<Seq<char>>) -> Seq<Seq<char>>
    decreases words.len(),
{
    if words.len() == 0 {
        Seq::empty()
    } else {
        let before = unmarked_words(words.drop_last());
        let last = unmarked(words.last());
        if last.len() == 0 {
            before
        } else {
            before.push(last)
        }
    }
}

/// The targets of a pasted list: its words, where a comma parts words too.
pub open spec fn raw_targets(s: Seq<char>) -> Seq<Seq<char>> {
    unmarked_words(text::words(text::replaced(text::replaced(s, ","@, " "@), "，"@, " "@)))
}

fn parse_raw_targets(s: &str) -> (r: Vec<String>)
    ensures
        text::views(r@) == raw_targets(s@),
{
    let spaced = text::replace(text::replace(s, ",", " ").as_str(), "，", " ");
    let words = text::split_words(spaced.as_str());
    let ghost all = text::views(words@);
    let mut targets: Vec<String> = Vec::new();
    let mut i: usize = 0;
    assert(all.take(0) =~= Seq::empty());
    assert(text::views(targets@) =~= Seq::empty());
    while i < words.len()
        invariant
            0 <= i <= words@.len(),
            all == text::views(words@),
            text::views(targets@) == unmarked_words(all.take(i as int)),
        decreases words@.len() - i,
    {
        let ghost earlier = targets@;
        proof {
            assert(all.take(i + 1).drop_last() =~= all.take(i as int));
            assert(all.take(i + 1).last() == words@[i as int]@);
        }
        let t = strip_list_marker(words[i].as_str());
        let len: usize = t.unicode_len();
        if len > 0 {
            targets.push(t.to_owned());
            assert(text::views(targets@) =~= text::views(earlier).push(t@));
        }
        i += 1;
    }
    assert(all.take(i as int) =~= all);
    targets
}

pub open spec fn listed_targets(arguments: Json) -> Result<Seq<Seq<char>>, Failure> {
    match arguments.list_at("targets"@) {
        Some(values) => if values.len() > MAX_BATCH_ITEMS {
            Err(error::bad_arguments("targets is too long"@))
        } else {
            targets_in(values)
        },
        None => Ok(Seq::empty()),
    }
}

/// The listed targets, or where none are listed those of the pasted text.
pub open spec fn wanted_targets(arguments: Json) -> Result<Seq<Seq<char>>, Failure> {
    match listed_targets(arguments) {
        Err(e) => Err(e),
        Ok(listed) => if listed.len() > 0 {
            Ok(listed)
        } else {
            match optional(arguments.entry("raw_text"@), "raw_text"@, RAW_TEXT_MAX_CHARS as int) {
                Err(e) => Err(e),
                Ok(Some(s)) => Ok(raw_targets(s)),
                Ok(None) => Ok(listed),
            }
        },
    }
}

/// The subscriptions to delete: at least one, not too many.
pub open spec fn targets_to_delete(arguments: Json) -> Result<Seq<Seq<char>>, Failure> {
    match wanted_targets(arguments) {
        Err(e) => Err(e),
        Ok(targets) => if targets.len() == 0 {
            Err(error::bad_arguments("targets or raw_text must contain at least one delete target"@))
        } else if targets.len() > MAX_BATCH_ITEMS {
            Err(error::bad_arguments("too many delete targets"@))
        } else {
            Ok(targets)
        },
    }
}

pub fn parse_tool_delete_targets(arguments: &Json) -> (r: Result<Vec<String>, ToolError>)
    ensures
        texts_shown(r) == targets_to_delete(*arguments),
{
    let mut targets: Vec<String> = Vec::new();
    assert(text::views(targets@) =~= Seq::empty());
    match arguments.get_list("targets") {
        Some(values) => {
            if values.len() > MAX_BATCH_ITEMS {
                return Err(error::reject_bad_arguments("targets is too long"));
            }
            match parse_targets(values) {
                Ok(v) => {
                    targets = v;
                },
                Err(e) => {
                    return Err(e);
                },
            }
        },
        None => {},
    }
    assert(listed_targets(*arguments) == Ok::<Seq<Seq<char>>, Failure>(text::views(targets@)));
    if targets.len() == 0 {
        match optional_string(arguments.get("raw_text"), "raw_text", RAW_TEXT_MAX_CHARS) {
            Err(e) => {
                return Err(e);
            },
            Ok(Some(s)) => {
                targets = parse_raw_targets(s.as_str());
            },
            Ok(None) => {},
        }
    }
    assert(wanted_targets(*arguments) == Ok::<Seq<Seq<char>>, Failure>(text::views(targets@)));
    if targets.len() == 0 {
        return Err(
            error::reject_bad_arguments("targets or raw_text must contain at least one delete target"),
        );
    }
    if targets.len() > MAX_BATCH_ITEMS {
        return Err(error::reject_bad_arguments("too many delete targets"));
    }
    Ok(targets)
}

/// A request is never passed on with more feeds than a batch holds, nor with an address of
/// another kind.
pub proof fn added_feeds_can_be_read(arguments: Json)
    ensures
        feeds_to_add(arguments) matches Ok(entries) ==> 1 <= entries.len() <= MAX_BATCH_ITEMS && forall|
            i: int,
        |
            0 <= i < entries.len() ==> url_fault((#[trigger] entries[i]).0) is None,
{
    if let Ok(entries) = feeds_to_add(arguments) {
        assert forall|i: int| 0 <= i < entries.len() implies url_fault((#[trigger] entries[i]).0) is None by {
            lemma_each_is_sound(entries, i);
        }
    }
}

proof fn lemma_each_is_sound(entries: Seq<EntryView>, i: int)
    requires
        entries_fault(entries) is None,
        0 <= i < entries.len(),
    ensures
        url_fault(entries[i].0) is None,
    decreases entries.len(),
{
    if i < entries.len() - 1 {
        assert(entries.drop_last()[i] == entries[i]);
        lemma_each_is_sound(entries.drop_last(), i);
    }
}

} // verus!
