//! Texts that a formatter made of other texts, looked up by the text they were made of.
use vstd::prelude::*;
use vstd::string::*;

use crate::text;

verus! {

#[derive(Debug)]
pub struct Labels {
    pub entries: Vec<(String, String)>,
}

/// What the entries say of the text: the first entry for it, or the text itself.
pub open spec fn label_in(entries: Seq<(String, String)>, s: Seq<char>) -> Seq<char>
    decreases entries.len(),
{
    if entries.len() == 0 {
        s
    } else if entries[0].0@ == s {
        entries[0].1@
    } else {
        label_in(entries.skip(1), s)
    }
}

impl Labels {
    pub open spec fn label(self, s: Seq<char>) -> Seq<char> {
        label_in(self.entries@, s)
    }

    /// The text as a place with room for `max_chars` characters shows it. How a text that does
    /// not fit is shortened is up to its entry, of which no more than that is shown; without an
    /// entry its first characters are shown, with no mark that something is missing.
    pub open spec fn shortened(self, s: Seq<char>, max_chars: int) -> Seq<char> {
        if s.len() <= max_chars {
            s
        } else {
            text::first_chars(self.label(s), max_chars)
        }
    }

    pub fn shorten(&self, s: &str, max_chars: usize) -> (r: String)
        ensures
            r@ == self.shortened(s@, max_chars as int),
            r@.len() <= max_chars,
    {
        if s.unicode_len() <= max_chars {
            return s.to_owned();
        }
        text::take_chars(self.get(s).as_str(), max_chars).to_owned()
    }

    pub fn new() -> (r: Self)
        ensures
            forall|s: Seq<char>| #[trigger] r.label(s) == s,
    {
        Labels { entries: Vec::new() }
    }

    pub fn insert(&mut self, text: String, label: String)
        ensures
            final(self).entries@ == old(self).entries@.push((text, label)),
    {
        self.entries.push((text, label));
    }

    pub fn get(&self, s: &str) -> (r: String)
        ensures
            r@ == self.label(s@),
    {
        let mut i: usize = 0;
        assert(self.entries@.skip(0) =~= self.entries@);
        while i < self.entries.len()
            invariant
                0 <= i <= self.entries@.len(),
                label_in(self.entries@.skip(i as int), s@) == self.label(s@),
            decreases self.entries@.len() - i,
        {
            assert(self.entries@.skip(i as int)[0] == self.entries@[i as int]);
            assert(self.entries@.skip(i as int).skip(1) =~= self.entries@.skip(i + 1));
            if text::same(self.entries[i].0.as_str(), s) {
                return self.entries[i].1.clone();
            }
            i += 1;
        }
        s.to_owned()
    }
}

/// However long a text is, no more of it is shown than there is room for, and one that fits is
/// shown as it is.
pub proof fn long_texts_are_cut(labels: Labels, s: Seq<char>, max_chars: int)
    requires
        0 <= max_chars,
    ensures
        labels.shortened(s, max_chars).len() <= max_chars,
        s.len() <= max_chars ==> labels.shortened(s, max_chars) == s,
{
}

} // verus!
