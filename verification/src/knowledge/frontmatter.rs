//! The head of a note: a few lines between `---` that name its title and other words by which
//! it is to be found.
use vstd::prelude::*;
use vstd::string::*;

use crate::knowledge::terms;
use crate::text;

verus! {

/// Title and words of a head.
#[derive(Debug)]
pub struct FrontmatterMetadata {
    pub title: Option<String>,
    pub search_terms: Vec<String>,
}

/// A note without its head.
#[derive(Debug)]
pub struct ParsedMarkdown {
    pub body: String,
    pub body_start_line: usize,
    pub metadata: FrontmatterMetadata,
}

/// What a head says.
pub struct HeadView {
    pub title: Option<Seq<char>>,
    pub terms: Seq<Seq<char>>,
}

impl FrontmatterMetadata {
    pub open spec fn shown(self) -> HeadView {
        HeadView { title: text::opt_view(self.title), terms: text::views(self.search_terms@) }
    }
}

pub open spec fn no_head() -> HeadView {
    HeadView { title: None, terms: Seq::empty() }
}

fn empty_metadata() -> (r: FrontmatterMetadata)
    ensures
        r.shown() == no_head(),
{
    let r = FrontmatterMetadata { title: None, search_terms: Vec::new() };
    assert(r.shown().terms =~= no_head().terms);
    r
}

// Values.

/// Whether a plain value is no text: a truth value, nothing, or a number.
pub open spec fn is_other_scalar(s: Seq<char>) -> bool {
    let l = text::ascii_lowered(s);
    l == "true"@ || l == "false"@ || l == "null"@ || l == "~"@ || text::is_numeric(s)
}

pub fn is_plain_yaml_scalar_non_string(s: &str) -> (r: bool)
    ensures
        r == is_other_scalar(s@),
{
    let l = text::to_ascii_lowercase(s);
    text::same(l.as_str(), "true") || text::same(l.as_str(), "false") || text::same(
        l.as_str(),
        "null",
    ) || text::same(l.as_str(), "~") || text::reads_as_number(s)
}

/// What stands between two quotes of one kind, if the text is that.
pub open spec fn between(s: Seq<char>, quote: Seq<char>) -> Option<Seq<char>> {
    match text::behind(s, quote) {
        Some(t) => text::before(t, quote),
        None => None,
    }
}

fn strip_quotes<'a>(s: &'a str, quote: &str) -> (r: Option<&'a str>)
    ensures
        text::opt_str_view(r) == between(s@, quote@),
{
    match text::strip_prefix(s, quote) {
        Some(t) => text::strip_suffix(t, quote),
        None => None,
    }
}

pub open spec fn unquoted(s: Seq<char>) -> Seq<char> {
    match between(s, "\""@) {
        Some(t) => t,
        None => match between(s, "'"@) {
            Some(t) => t,
            None => s,
        },
    }
}

/// The text of a value, without quotes; nothing where the value is blank, a list, a map or
/// another scalar.
pub open spec fn value_text(s: Seq<char>) -> Option<Seq<char>> {
    let t = text::trimmed(s);
    let u = text::trimmed(unquoted(t));
    if t.len() == 0 || t[0] == '{' || t[0] == '[' || u.len() == 0 || is_other_scalar(u) {
        None
    } else {
        Some(u)
    }
}

pub fn parse_yaml_string(s: &str) -> (r: Option<String>)
    ensures
        text::opt_view(r) == value_text(s@),
{
    let t = text::trim(s);
    if t.unicode_len() == 0 {
        return None;
    }
    let first = t.get_char(0);
    if first == '{' || first == '[' {
        return None;
    }
    let inner = match strip_quotes(t, "\"") {
        Some(u) => u,
        None => match strip_quotes(t, "'") {
            Some(u) => u,
            None => t,
        },
    };
    let u = text::trim(inner);
    if u.unicode_len() == 0 || is_plain_yaml_scalar_non_string(u) {
        None
    } else {
        Some(u.to_owned())
    }
}

/// The value of an entry of a list.
pub open spec fn item_text(line: Seq<char>) -> Option<Seq<char>> {
    match text::behind(text::trim_start(line), "- "@) {
        Some(t) => value_text(text::trimmed(t)),
        None => None,
    }
}

pub fn parse_yaml_list_item(line: &str) -> (r: Option<String>)
    ensures
        text::opt_view(r) == item_text(line@),
{
    match text::strip_prefix(text::trim_left(line), "- ") {
        Some(t) => parse_yaml_string(text::trim(t)),
        None => None,
    }
}

/// The values of the parts that have one.
pub open spec fn values(parts: Seq<Seq<char>>) -> Seq<Seq<char>>
    decreases parts.len(),
{
    if parts.len() == 0 {
        Seq::empty()
    } else {
        let before = values(parts.drop_last());
        match value_text(text::trimmed(parts.last())) {
            Some(v) => before.push(v),
            None => before,
        }
    }
}

/// The values of a list in brackets.
pub open spec fn array_values(s: Seq<char>) -> Option<Seq<Seq<char>>> {
    match text::behind(s, "["@) {
        Some(t) => match text::before(t, "]"@) {
            Some(u) => Some(values(text::pieces(u, ','))),
            None => None,
        },
        None => None,
    }
}

pub open spec fn list_view(o: Option<Vec<String>>) -> Option<Seq<Seq<char>>> {
    match o {
        Some(v) => Some(text::views(v@)),
        None => None,
    }
}

pub fn parse_inline_string_array(s: &str) -> (r: Option<Vec<String>>)
    ensures
        list_view(r) == array_values(s@),
{
    let inner = match text::strip_prefix(s, "[") {
        Some(t) => match text::strip_suffix(t, "]") {
            Some(u) => u,
            None => {
                return None;
            },
        },
        None => {
            return None;
        },
    };
    let parts = text::split_char(inner, ',');
    let ghost all = text::views(parts@);
    let mut items: Vec<String> = Vec::new();
    let mut i: usize = 0;
    proof {
        assert(all.take(0) =~= Seq::empty());
        assert(text::views(items@) =~= values(all.take(0)));
    }
    while i < parts.len()
        invariant
            0 <= i <= parts@.len(),
            all == text::views(parts@),
            text::views(items@) == values(all.take(i as int)),
        decreases parts@.len() - i,
    {
        proof {
            assert(all.take(i + 1).drop_last() =~= all.take(i as int));
            assert(all.take(i + 1).last() == parts@[i as int]@);
        }
        match parse_yaml_string(text::trim(parts[i].as_str())) {
            Some(v) => {
                let ghost before = text::views(items@);
                let ghost added = v@;
                items.push(v);
                assert(text::views(items@) =~= before.push(added));
            },
            None => {},
        }
        i += 1;
    }
    assert(all.take(i as int) =~= all);
    Some(items)
}

// Lines.

pub open spec fn is_key_char(c: char) -> bool {
    terms::is_alphanumeric(c) || c == '_'
}

/// Key and value of a line.
pub open spec fn pair(line: Seq<char>) -> Option<(Seq<char>, Seq<char>)> {
    match text::cut_at(line, ':') {
        Some(p) => {
            let key = text::trimmed(p.0);
            if forall|i: int| 0 <= i < key.len() ==> is_key_char(#[trigger] key[i]) {
                Some((key, text::trimmed(p.1)))
            } else {
                None
            }
        },
        None => None,
    }
}

pub fn parse_yaml_pair(line: &str) -> (r: Option<(String, String)>)
    ensures
        match r {
            Some(p) => pair(line@) == Some((p.0@, p.1@)),
            None => pair(line@) is None,
        },
{
    let p = match text::split_once(line, ':') {
        Some(p) => p,
        None => {
            return None;
        },
    };
    let key = text::trim(p.0.as_str());
    let v = text::chars_of(key);
    let mut i: usize = 0;
    while i < v.len()
        invariant
            0 <= i <= v@.len(),
            v@ == key@,
            forall|k: int| 0 <= k < i ==> is_key_char(#[trigger] key@[k]),
            text::cut_at(line@, ':') == Some((p.0@, p.1@)),
            key@ == text::trimmed(p.0@),
        decreases v@.len() - i,
    {
        let c = v[i];
        if !(text::is_ascii_alphabetic(c) || text::is_ascii_digit(c) || c == '_') {
            assert(!is_key_char(key@[i as int]));
            return None;
        }
        i += 1;
    }
    Some((key.to_owned(), text::trim(p.1.as_str()).to_owned()))
}

/// The keys that count.
#[derive(Debug, Clone, Copy, PartialEq, Eq, Structural)]
pub enum HeadKey {
    Title,
    /// Other words for the title.
    Words,
}

pub open spec fn head_key(s: Seq<char>) -> Option<HeadKey> {
    if s == "title"@ {
        Some(HeadKey::Title)
    } else if s == "synonyms"@ || s == "aliases"@ {
        Some(HeadKey::Words)
    } else {
        None
    }
}

fn key_of(s: &str) -> (r: Option<HeadKey>)
    ensures
        r == head_key(s@),
{
    if text::same(s, "title") {
        Some(HeadKey::Title)
    } else if text::same(s, "synonyms") || text::same(s, "aliases") {
        Some(HeadKey::Words)
    } else {
        None
    }
}

/// What was read so far: title, words, and the key whose list may follow.
pub struct HeadState {
    pub title: Option<Seq<char>>,
    pub terms: Seq<Seq<char>>,
    pub open_key: Option<HeadKey>,
}

/// The words with another one, unless that is blank.
pub open spec fn with_term(terms: Seq<Seq<char>>, v: Seq<char>) -> Seq<Seq<char>> {
    if text::blank(v) {
        terms
    } else {
        terms.push(text::trimmed(v))
    }
}

pub open spec fn with_terms(terms: Seq<Seq<char>>, v: Seq<Seq<char>>) -> Seq<Seq<char>>
    decreases v.len(),
{
    if v.len() == 0 {
        terms
    } else {
        with_term(with_terms(terms, v.drop_last()), v.last())
    }
}

/// The first title stays.
pub open spec fn with_title(title: Option<Seq<char>>, key: HeadKey, v: Seq<char>) -> Option<Seq<char>> {
    if key == HeadKey::Title && title is None {
        Some(v)
    } else {
        title
    }
}

/// What a line `key: value` adds.
pub open spec fn after_pair(st: HeadState, line: Seq<char>) -> HeadState {
    match pair(line) {
        None => st,
        Some(p) => match head_key(p.0) {
            None => st,
            Some(key) => if p.1.len() == 0 {
                HeadState { open_key: Some(key), ..st }
            } else {
                match array_values(p.1) {
                    Some(v) => HeadState {
                        title: if v.len() > 0 {
                            with_title(st.title, key, v[0])
                        } else {
                            st.title
                        },
                        terms: with_terms(st.terms, v),
                        ..st
                    },
                    None => match value_text(p.1) {
                        Some(v) => HeadState {
                            title: with_title(st.title, key, v),
                            terms: with_term(st.terms, v),
                            ..st
                        },
                        None => st,
                    },
                }
            },
        },
    }
}

/// What one line adds. Behind a key without a value, entries of a list belong to the key;
/// the first line that is none ends the list.
pub open spec fn after_line(st: HeadState, line: Seq<char>) -> HeadState {
    let t = text::trimmed(line);
    if t.len() == 0 || t[0] == '#' {
        st
    } else {
        match st.open_key {
            Some(key) => match item_text(line) {
                Some(item) => if key == HeadKey::Words {
                    HeadState { terms: with_term(st.terms, item), ..st }
                } else {
                    st
                },
                None => after_pair(HeadState { open_key: None, ..st }, t),
            },
            None => after_pair(st, t),
        }
    }
}

pub open spec fn after_lines(lines: Seq<Seq<char>>) -> HeadState
    decreases lines.len(),
{
    if lines.len() == 0 {
        HeadState { title: None, terms: Seq::empty(), open_key: None }
    } else {
        after_line(after_lines(lines.drop_last()), lines.last())
    }
}

/// Whether an earlier word says the same to the index.
pub open spec fn is_known(terms: Seq<Seq<char>>, t: Seq<char>) -> bool {
    exists|i: int| 0 <= i < terms.len() && terms::index_text(#[trigger] terms[i]) == terms::index_text(t)
}

/// The words, of those that say the same to the index only the first.
pub open spec fn distinct(terms: Seq<Seq<char>>) -> Seq<Seq<char>>
    decreases terms.len(),
{
    if terms.len() == 0 {
        Seq::empty()
    } else {
        let before = distinct(terms.drop_last());
        if is_known(before, terms.last()) {
            before
        } else {
            before.push(terms.last())
        }
    }
}

/// What the lines of a head say.
pub open spec fn head_of(yaml: Seq<char>) -> HeadView {
    let st = after_lines(text::lines(yaml));
    HeadView {
        title: match st.title {
            Some(t) => if text::blank(t) {
                None
            } else {
                Some(t)
            },
            None => None,
        },
        terms: distinct(st.terms),
    }
}

struct HeadReader {
    title: Option<String>,
    terms: Vec<String>,
    open_key: Option<HeadKey>,
}

impl HeadReader {
    spec fn shown(self) -> HeadState {
        HeadState {
            title: text::opt_view(self.title),
            terms: text::views(self.terms@),
            open_key: self.open_key,
        }
    }
}

pub fn push_metadata_term(terms: &mut Vec<String>, value: &str)
    ensures
        text::views(final(terms)@) == with_term(text::views(old(terms)@), value@),
{
    let v = text::trim(value);
    if v.unicode_len() > 0 {
        terms.push(v.to_owned());
        assert(text::views(terms@) =~= text::views(old(terms)@).push(v@));
    }
}

fn push_terms(terms: &mut Vec<String>, items: &Vec<String>)
    ensures
        text::views(final(terms)@) == with_terms(text::views(old(terms)@), text::views(items@)),
{
    let ghost all = text::views(items@);
    let ghost start = text::views(terms@);
    let mut i: usize = 0;
    assert(all.take(0) =~= Seq::empty());
    while i < items.len()
        invariant
            0 <= i <= items@.len(),
            all == text::views(items@),
            text::views(terms@) == with_terms(start, all.take(i as int)),
        decreases items@.len() - i,
    {
        proof {
            assert(all.take(i + 1).drop_last() =~= all.take(i as int));
            assert(all.take(i + 1).last() == items@[i as int]@);
        }
        push_metadata_term(terms, items[i].as_str());
        i += 1;
    }
    assert(all.take(i as int) =~= all);
}

fn read_pair(st: HeadReader, line: &str) -> (r: HeadReader)
    ensures
        r.shown() == after_pair(st.shown(), line@),
{
    let mut st = st;
    let (name, value) = match parse_yaml_pair(line) {
        Some(p) => p,
        None => {
            return st;
        },
    };
    let key = match key_of(name.as_str()) {
        Some(k) => k,
        None => {
            return st;
        },
    };
    if value.as_str().unicode_len() == 0 {
        st.open_key = Some(key);
        return st;
    }
    match parse_inline_string_array(value.as_str()) {
        Some(items) => {
            if items.len() > 0 && key == HeadKey::Title && st.title.is_none() {
                st.title = Some(items[0].clone());
            }
            push_terms(&mut st.terms, &items);
            return st;
        },
        None => {},
    }
    match parse_yaml_string(value.as_str()) {
        Some(v) => {
            push_metadata_term(&mut st.terms, v.as_str());
            if key == HeadKey::Title && st.title.is_none() {
                st.title = Some(v);
            }
            st
        },
        None => st,
    }
}

fn read_line(st: HeadReader, line: &str) -> (r: HeadReader)
    ensures
        r.shown() == after_line(st.shown(), line@),
{
    let t = text::trim(line);
    if t.unicode_len() == 0 || t.get_char(0) == '#' {
        return st;
    }
    let mut st = st;
    match st.open_key {
        Some(key) => {
            match parse_yaml_list_item(line) {
                Some(item) => {
                    if key == HeadKey::Words {
                        push_metadata_term(&mut st.terms, item.as_str());
                    }
                    return st;
                },
                None => {},
            }
            st.open_key = None;
        },
        None => {},
    }
    read_pair(st, t)
}

pub fn dedup_metadata_terms(all: &Vec<String>) -> (r: Vec<String>)
    ensures
        text::views(r@) == distinct(text::views(all@)),
{
    let ghost list = text::views(all@);
    let mut out: Vec<String> = Vec::new();
    let mut keys: Vec<String> = Vec::new();
    let mut i: usize = 0;
    proof {
        assert(list.take(0) =~= Seq::empty());
        assert(text::views(out@) =~= distinct(list.take(0)));
    }
    while i < all.len()
        invariant
            0 <= i <= all@.len(),
            list == text::views(all@),
            text::views(out@) == distinct(list.take(i as int)),
            keys@.len() == out@.len(),
            forall|k: int| 0 <= k < out@.len() ==> (#[trigger] keys@[k])@ == terms::index_text(out@[k]@),
        decreases all@.len() - i,
    {
        proof {
            assert(list.take(i + 1).drop_last() =~= list.take(i as int));
            assert(list.take(i + 1).last() == all@[i as int]@);
        }
        let key = terms::build_index_text(all[i].as_str());
        let known = terms::holds(&keys, &key);
        let ghost before = text::views(out@);
        let ghost t = all@[i as int]@;
        proof {
            if known {
                let k = choose|k: int|
                    0 <= k < text::views(keys@).len() && text::views(keys@)[k] == key@;
                assert(keys@[k]@ == key@);
                assert(terms::index_text(before[k]) == terms::index_text(t));
            } else if is_known(before, t) {
                let k = choose|k: int|
                    0 <= k < before.len() && terms::index_text(#[trigger] before[k])
                        == terms::index_text(t);
                assert(keys@[k]@ == key@);
                assert(text::views(keys@)[k] == key@);
            }
        }
        if !known {
            out.push(all[i].clone());
            keys.push(key);
            assert(text::views(out@) =~= before.push(t));
        }
        i += 1;
    }
    assert(list.take(i as int) =~= list);
    out
}

pub fn parse_frontmatter_metadata(yaml: &str) -> (r: FrontmatterMetadata)
    ensures
        r.shown() == head_of(yaml@),
{
    let lines = text::split_lines(yaml);
    let ghost all = text::views(lines@);
    let mut st = HeadReader { title: None, terms: Vec::new(), open_key: None };
    let mut i: usize = 0;
    proof {
        assert(all.take(0) =~= Seq::empty());
        assert(text::views(st.terms@) =~= Seq::empty());
    }
    while i < lines.len()
        invariant
            0 <= i <= lines@.len(),
            all == text::views(lines@),
            st.shown() == after_lines(all.take(i as int)),
        decreases lines@.len() - i,
    {
        proof {
            assert(all.take(i + 1).drop_last() =~= all.take(i as int));
            assert(all.take(i + 1).last() == lines@[i as int]@);
        }
        st = read_line(st, lines[i].as_str());
        i += 1;
    }
    assert(all.take(i as int) =~= all);
    let title = match st.title {
        Some(t) => {
            if text::is_blank(t.as_str()) {
                None
            } else {
                Some(t)
            }
        },
        None => None,
    };
    FrontmatterMetadata { title, search_terms: dedup_metadata_terms(&st.terms) }
}

// The head.

/// Whether the line from `start` to `end` is the mark of a head.
pub open spec fn is_mark(c: Seq<char>, start: int, end: int) -> bool {
    is_mark_text(c.subrange(start, end))
}

/// Three dashes and nothing else but carriage returns.
pub open spec fn is_mark_text(line: Seq<char>) -> bool {
    &&& line.len() >= 3
    &&& line[0] == '-' && line[1] == '-' && line[2] == '-'
    &&& forall|i: int| 3 <= i < line.len() ==> #[trigger] line[i] == '\r'
}

fn is_mark_line(v: &Vec<char>, start: usize, end: usize) -> (r: bool)
    requires
        start <= end <= v@.len(),
    ensures
        r == is_mark(v@, start as int, end as int),
{
    let ghost line = v@.subrange(start as int, end as int);
    if end - start < 3 {
        return false;
    }
    assert(line[0] == v@[start as int] && line[1] == v@[start + 1] && line[2] == v@[start + 2]);
    if v[start] != '-' || v[start + 1] != '-' || v[start + 2] != '-' {
        return false;
    }
    let mut i: usize = start + 3;
    while i < end
        invariant
            start + 3 <= i <= end <= v@.len(),
            line == v@.subrange(start as int, end as int),
            forall|k: int| 3 <= k < i - start ==> #[trigger] line[k] == '\r',
        decreases end - i,
    {
        assert(line[i - start] == v@[i as int]);
        if v[i] != '\r' {
            return false;
        }
        i += 1;
    }
    true
}

/// Start, end and number of the next line that is a mark.
pub open spec fn closing(c: Seq<char>, cursor: int, line: int) -> Option<(int, int, int)>
    decreases c.len() - cursor,
{
    if cursor < 0 || cursor > c.len() {
        None
    } else {
        let end = cursor + text::until(c.skip(cursor), '\n');
        if is_mark(c, cursor, end) {
            Some((cursor, end, line))
        } else if end >= c.len() {
            None
        } else {
            closing(c, end + 1, line + 1)
        }
    }
}

/// Body, number of its first line, and head of a note.
pub struct NoteView {
    pub body: Seq<char>,
    pub first_line: int,
    pub head: HeadView,
}

impl ParsedMarkdown {
    pub open spec fn shown(self) -> NoteView {
        NoteView {
            body: self.body@,
            first_line: self.body_start_line as int,
            head: self.metadata.shown(),
        }
    }
}

/// The note without a byte order mark.
pub open spec fn without_mark(s: Seq<char>) -> Seq<char> {
    if s.len() > 0 && s[0] == '\u{feff}' {
        s.skip(1)
    } else {
        s
    }
}

/// The parts of a note. A head starts on the first line and has an end; else all is body.
pub open spec fn note_of(content: Seq<char>) -> NoteView {
    let c = without_mark(content);
    let whole = NoteView { body: c, first_line: 1, head: no_head() };
    let first = text::until(c, '\n') as int;
    if first >= c.len() || !is_mark(c, 0, first) {
        whole
    } else {
        match closing(c, first + 1, 2) {
            None => whole,
            Some(at) => NoteView {
                body: if at.1 < c.len() {
                    c.skip(at.1 + 1)
                } else {
                    Seq::empty()
                },
                first_line: at.2 + 1,
                head: head_of(c.subrange(first + 1, at.0)),
            },
        }
    }
}

/// Takes the head off a note. No text is longer than `isize::MAX` bytes.
pub fn strip_frontmatter(content: &str) -> (r: ParsedMarkdown)
    requires
        content@.len() <= isize::MAX,
    ensures
        r.shown() == note_of(content@),
        r.body_start_line + r.body@.len() <= content@.len() + 2,
{
    let all = text::chars_of(content);
    let from: usize = if all.len() > 0 && all[0] == '\u{feff}' {
        1
    } else {
        0
    };
    let rest = text::slice_of(&all, from, all.len());
    assert(rest@ =~= without_mark(content@));
    let v = text::chars_of(rest.as_str());
    let ghost c = without_mark(content@);
    assert(v@.skip(0) =~= v@);
    let first = text::stop_at(&v, '\n', 0);
    if first == v.len() || !is_mark_line(&v, 0, first) {
        return ParsedMarkdown { body: rest, body_start_line: 1, metadata: empty_metadata() };
    }
    let mut cursor: usize = first + 1;
    let mut line: usize = 2;
    loop
        invariant
            v@ == c,
            rest@ == c,
            c == without_mark(content@),
            content@.len() <= isize::MAX,
            c.len() <= content@.len(),
            first < v@.len(),
            first == text::until(c, '\n'),
            is_mark(c, 0, first as int),
            first + 1 <= cursor <= v@.len(),
            line <= cursor + 1,
            closing(c, cursor as int, line as int) == closing(c, first + 1, 2),
        decreases v@.len() - cursor,
    {
        let end = text::stop_at(&v, '\n', cursor);
        if is_mark_line(&v, cursor, end) {
            let body = if end < v.len() {
                let b = text::slice_of(&v, end + 1, v.len());
                assert(b@ =~= c.skip(end + 1));
                b
            } else {
                String::new()
            };
            let head = text::slice_of(&v, first + 1, cursor);
            return ParsedMarkdown {
                body,
                body_start_line: line + 1,
                metadata: parse_frontmatter_metadata(head.as_str()),
            };
        }
        if end == v.len() {
            return ParsedMarkdown { body: rest, body_start_line: 1, metadata: empty_metadata() };
        }
        cursor = end + 1;
        line += 1;
    }
}

} // verus!
