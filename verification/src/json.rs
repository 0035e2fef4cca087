//! JSON values: what tools are called with and what they return.
use vstd::prelude::*;
use vstd::string::*;

use crate::outside;
use crate::text;

verus! {

#[derive(Debug)]
pub enum Json {
    Null,
    Bool(bool),
    /// A whole number that is not negative.
    Whole(u64),
    /// A negative whole number.
    Negative(i64),
    /// Another number, as it is written.
    Decimal(String),
    Text(String),
    List(Vec<Json>),
    Object(Vec<(String, Json)>),
}

/// Whether the first entry with the key is at `i`.
pub open spec fn is_entry(entries: Seq<(String, Json)>, key: Seq<char>, i: int) -> bool {
    0 <= i < entries.len() && entries[i].0@ == key && forall|j: int|
        0 <= j < i ==> (#[trigger] entries[j]).0@ != key
}

impl Json {
    /// The value under the key of an object.
    pub open spec fn entry(self, key: Seq<char>) -> Option<Json> {
        match self {
            Json::Object(entries) => if exists|i: int| is_entry(entries@, key, i) {
                Some(entries@[choose|i: int| is_entry(entries@, key, i)].1)
            } else {
                None
            },
            _ => None,
        }
    }

    /// The text of a text.
    pub open spec fn words(self) -> Option<Seq<char>> {
        match self {
            Json::Text(s) => Some(s@),
            _ => None,
        }
    }

    /// The text under the key.
    pub open spec fn words_at(self, key: Seq<char>) -> Option<Seq<char>> {
        match self.entry(key) {
            Some(v) => v.words(),
            None => None,
        }
    }

    /// The elements of the list under the key.
    pub open spec fn list_at(self, key: Seq<char>) -> Option<Seq<Json>> {
        match self.entry(key) {
            Some(Json::List(items)) => Some(items@),
            _ => None,
        }
    }

    /// The truth value under the key.
    pub open spec fn bool_at(self, key: Seq<char>) -> Option<bool> {
        match self.entry(key) {
            Some(Json::Bool(b)) => Some(b),
            _ => None,
        }
    }

    /// The whole number under the key, if it is not negative.
    pub open spec fn whole_at(self, key: Seq<char>) -> Option<u64> {
        match self.entry(key) {
            Some(Json::Whole(n)) => Some(n),
            _ => None,
        }
    }

    pub fn get<'a>(&'a self, key: &str) -> (r: Option<&'a Json>)
        ensures
            match r {
                Some(v) => self.entry(key@) == Some(*v),
                None => self.entry(key@) is None,
            },
    {
        match self {
            Json::Object(entries) => {
                let mut i: usize = 0;
                while i < entries.len()
                    invariant
                        0 <= i <= entries@.len(),
                        *self == Json::Object(*entries),
                        forall|j: int| 0 <= j < i ==> (#[trigger] entries@[j]).0@ != key@,
                    decreases entries@.len() - i,
                {
                    if text::same(entries[i].0.as_str(), key) {
                        proof {
                            assert(is_entry(entries@, key@, i as int));
                            let k = choose|k: int| is_entry(entries@, key@, k);
                            if k < i {
                                assert(entries@[k].0@ != key@);
                            } else if i < k {
                                assert(entries@[i as int].0@ != key@);
                            }
                            assert(k == i);
                            assert(self.entry(key@) == Some(entries@[k].1));
                        }
                        return Some(&entries[i].1);
                    }
                    i += 1;
                }
                None
            },
            _ => None,
        }
    }

    pub fn as_str<'a>(&'a self) -> (r: Option<&'a str>)
        ensures
            text::opt_str_view(r) == self.words(),
    {
        match self {
            Json::Text(s) => Some(s.as_str()),
            _ => None,
        }
    }

    pub fn get_str<'a>(&'a self, key: &str) -> (r: Option<&'a str>)
        ensures
            text::opt_str_view(r) == self.words_at(key@),
    {
        match self.get(key) {
            Some(v) => v.as_str(),
            None => None,
        }
    }

    pub fn get_list<'a>(&'a self, key: &str) -> (r: Option<&'a Vec<Json>>)
        ensures
            match r {
                Some(v) => self.list_at(key@) == Some(v@),
                None => self.list_at(key@) is None,
            },
    {
        match self.get(key) {
            Some(Json::List(items)) => Some(items),
            _ => None,
        }
    }

    pub fn get_bool(&self, key: &str) -> (r: Option<bool>)
        ensures
            r == self.bool_at(key@),
    {
        match self.get(key) {
            Some(Json::Bool(b)) => Some(*b),
            _ => None,
        }
    }

    pub fn get_whole(&self, key: &str) -> (r: Option<u64>)
        ensures
            r == self.whole_at(key@),
    {
        match self.get(key) {
            Some(Json::Whole(n)) => Some(*n),
            _ => None,
        }
    }
}

// Writing.

/// The number with its sign.
pub open spec fn signed(n: i64) -> Seq<char> {
    if n < 0 {
        "-"@ + text::decimal((0 - n) as nat)
    } else {
        ""@ + text::decimal(n as nat)
    }
}

fn signed_text(n: i64) -> (r: String)
    ensures
        r@ == signed(n),
{
    if n < 0 {
        let mut s = "-".to_owned();
        let m: u64 = if n == i64::MIN {
            0x8000_0000_0000_0000
        } else {
            (0 - n) as u64
        };
        s.append(text::decimal_string(m).as_str());
        s
    } else {
        let mut s = "".to_owned();
        s.append(text::decimal_string(n as u64).as_str());
        s
    }
}

/// The value written as JSON without spaces.
pub open spec fn written(v: Json) -> Seq<char>
    decreases v,
{
    match v {
        Json::Null => "null"@,
        Json::Bool(b) => if b {
            "true"@
        } else {
            "false"@
        },
        Json::Whole(n) => text::decimal(n as nat),
        Json::Negative(n) => signed(n),
        Json::Decimal(s) => s@,
        Json::Text(s) => outside::json_string(s@),
        Json::List(items) => "["@ + written_list(items@) + "]"@,
        Json::Object(entries) => "{"@ + written_entries(entries@) + "}"@,
    }
}

pub open spec fn written_list(items: Seq<Json>) -> Seq<char>
    decreases items,
{
    if items.len() == 0 {
        ""@
    } else {
        written_list(items.drop_last()) + (if items.len() > 1 {
            ","@
        } else {
            ""@
        }) + written(items[items.len() - 1])
    }
}

pub open spec fn written_entries(entries: Seq<(String, Json)>) -> Seq<char>
    decreases entries,
{
    if entries.len() == 0 {
        ""@
    } else {
        written_entries(entries.drop_last()) + (if entries.len() > 1 {
            ","@
        } else {
            ""@
        }) + outside::json_string(entries[entries.len() - 1].0@) + ":"@ + written(
            entries[entries.len() - 1].1,
        )
    }
}

pub fn write_json(v: &Json) -> (r: String)
    ensures
        r@ == written(*v),
    decreases v,
{
    match v {
        Json::Null => "null".to_owned(),
        Json::Bool(b) => {
            if *b {
                "true".to_owned()
            } else {
                "false".to_owned()
            }
        },
        Json::Whole(n) => text::decimal_string(*n),
        Json::Negative(n) => signed_text(*n),
        Json::Decimal(s) => s.clone(),
        Json::Text(s) => outside::quote_json(s.as_str()),
        Json::List(items) => {
            let mut s = "[".to_owned();
            s.append(write_list(items, items.len()).as_str());
            s.append("]");
            assert(items@.take(items@.len() as int) =~= items@);
            s
        },
        Json::Object(entries) => {
            let mut s = "{".to_owned();
            s.append(write_entries(entries, entries.len()).as_str());
            s.append("}");
            assert(entries@.take(entries@.len() as int) =~= entries@);
            s
        },
    }
}

fn write_list(items: &Vec<Json>, n: usize) -> (r: String)
    requires
        n <= items@.len(),
    ensures
        r@ == written_list(items@.take(n as int)),
    decreases items, n,
{
    if n == 0 {
        return "".to_owned();
    }
    let ghost some = items@.take(n as int);
    let mut s = write_list(items, n - 1);
    assert(some.drop_last() =~= items@.take(n - 1));
    if n > 1 {
        s.append(",");
    } else {
        s.append("");
    }
    s.append(write_json(&items[n - 1]).as_str());
    s
}

fn write_entries(entries: &Vec<(String, Json)>, n: usize) -> (r: String)
    requires
        n <= entries@.len(),
    ensures
        r@ == written_entries(entries@.take(n as int)),
    decreases entries, n,
{
    if n == 0 {
        return "".to_owned();
    }
    let ghost some = entries@.take(n as int);
    let mut s = write_entries(entries, n - 1);
    assert(some.drop_last() =~= entries@.take(n - 1));
    if n > 1 {
        s.append(",");
    } else {
        s.append("");
    }
    s.append(outside::quote_json(entries[n - 1].0.as_str()).as_str());
    s.append(":");
    s.append(write_json(&entries[n - 1].1).as_str());
    s
}

// What a value says, whatever strings it is made of.

pub enum Shape {
    Null,
    Bool(bool),
    Whole(u64),
    Negative(i64),
    Decimal(Seq<char>),
    Text(Seq<char>),
    List(Seq<Shape>),
    Object(Seq<(Seq<char>, Shape)>),
}

impl Json {
    pub open spec fn shape(self) -> Shape
        decreases self,
    {
        match self {
            Json::Null => Shape::Null,
            Json::Bool(b) => Shape::Bool(b),
            Json::Whole(n) => Shape::Whole(n),
            Json::Negative(n) => Shape::Negative(n),
            Json::Decimal(s) => Shape::Decimal(s@),
            Json::Text(s) => Shape::Text(s@),
            Json::List(items) => Shape::List(shapes(items@)),
            Json::Object(entries) => Shape::Object(entry_shapes(entries@)),
        }
    }
}

pub open spec fn shapes(items: Seq<Json>) -> Seq<Shape>
    decreases items,
{
    if items.len() == 0 {
        Seq::empty()
    } else {
        shapes(items.drop_last()).push(items[items.len() - 1].shape())
    }
}

pub open spec fn entry_shapes(entries: Seq<(String, Json)>) -> Seq<(Seq<char>, Shape)>
    decreases entries,
{
    if entries.len() == 0 {
        Seq::empty()
    } else {
        entry_shapes(entries.drop_last()).push(
            (entries[entries.len() - 1].0@, entries[entries.len() - 1].1.shape()),
        )
    }
}

/// Adds an entry to an object.
pub fn put(entries: &mut Vec<(String, Json)>, key: &str, value: Json)
    ensures
        entry_shapes(final(entries)@) == entry_shapes(old(entries)@).push((key@, value.shape())),
{
    let ghost before = entries@;
    entries.push((key.to_owned(), value));
    assert(entries@.drop_last() =~= before);
}

/// Adds an element to a list.
pub fn append_item(items: &mut Vec<Json>, value: Json)
    ensures
        shapes(final(items)@) == shapes(old(items)@).push(value.shape()),
{
    let ghost before = items@;
    items.push(value);
    assert(items@.drop_last() =~= before);
}

pub fn text_value(s: &str) -> (r: Json)
    ensures
        r.shape() == Shape::Text(s@),
{
    Json::Text(s.to_owned())
}

pub open spec fn text_shape(o: Option<Seq<char>>) -> Shape {
    match o {
        Some(s) => Shape::Text(s),
        None => Shape::Null,
    }
}

/// The text, or nothing.
pub fn option_value(o: &Option<String>) -> (r: Json)
    ensures
        r.shape() == text_shape(text::opt_view(*o)),
{
    match o {
        Some(s) => Json::Text(s.clone()),
        None => Json::Null,
    }
}

pub open spec fn text_shapes(v: Seq<Seq<char>>) -> Seq<Shape> {
    Seq::new(v.len(), |i: int| Shape::Text(v[i]))
}

/// The texts, as a list.
pub fn list_value(v: &Vec<String>) -> (r: Json)
    ensures
        r.shape() == Shape::List(text_shapes(text::views(v@))),
{
    let mut items: Vec<Json> = Vec::new();
    let mut i: usize = 0;
    while i < v.len()
        invariant
            0 <= i <= v@.len(),
            shapes(items@) == text_shapes(text::views(v@)).take(i as int),
        decreases v@.len() - i,
    {
        append_item(&mut items, Json::Text(v[i].clone()));
        assert(shapes(items@) =~= text_shapes(text::views(v@)).take(i + 1));
        i += 1;
    }
    assert(text_shapes(text::views(v@)).take(i as int) =~= text_shapes(text::views(v@)));
    Json::List(items)
}

} // verus!
