//! Which files of a directory are notes.
use vstd::prelude::*;
use vstd::seq_lib::*;
use vstd::string::*;

use crate::knowledge::terms;
use crate::text;

verus! {

/// A note that was found.
#[derive(Debug)]
pub struct ScannedMarkdown {
    pub relative_path: String,
    pub absolute_path: String,
    pub modified_at: Option<String>,
}

/// Whether a name is that of a hidden, temporary or backup file.
pub open spec fn is_ignored(name: Seq<char>) -> bool {
    ||| text::starts_with(name, "."@)
    ||| text::ends_with(name, "~"@)
    ||| text::ends_with(name, ".tmp"@)
    ||| text::ends_with(name, ".temp"@)
    ||| text::ends_with(name, ".bak"@)
    ||| text::ends_with(name, ".swp"@)
}

pub fn should_ignore_name(name: &str) -> (r: bool)
    ensures
        r == is_ignored(name@),
{
    text::has_prefix(name, ".") || text::has_suffix(name, "~") || text::has_suffix(name, ".tmp")
        || text::has_suffix(name, ".temp") || text::has_suffix(name, ".bak") || text::has_suffix(
        name,
        ".swp",
    )
}

/// What stands behind the last dot of a name that does not start with it.
pub open spec fn extension(name: Seq<char>) -> Option<Seq<char>> {
    if exists|i: int| text::last_of(name, '.', i) {
        let i = choose|i: int| text::last_of(name, '.', i);
        if i == 0 {
            None
        } else {
            Some(name.skip(i + 1))
        }
    } else {
        None
    }
}

proof fn lemma_last_is_one(s: Seq<char>, c: char, i: int, j: int)
    requires
        text::last_of(s, c, i),
        text::last_of(s, c, j),
    ensures
        i == j,
{
    if i < j {
        assert(s.skip(i + 1)[j - i - 1] == s[j]);
    } else if j < i {
        assert(s.skip(j + 1)[i - j - 1] == s[i]);
    }
}

/// Whether the name is that of a Markdown file.
pub open spec fn is_markdown(name: Seq<char>) -> bool {
    match extension(name) {
        Some(e) => text::ascii_lowered(e) == "md"@ || text::ascii_lowered(e) == "markdown"@,
        None => false,
    }
}

pub fn is_markdown_file(name: &str) -> (r: bool)
    ensures
        r == is_markdown(name@),
{
    match text::rfind_char(name, '.') {
        Some(i) => {
            proof {
                let k = choose|k: int| text::last_of(name@, '.', k);
                lemma_last_is_one(name@, '.', k, i as int);
            }
            if i == 0 {
                return false;
            }
            let v = text::chars_of(name);
            let n: usize = v.len();
            let ext = text::slice_of(&v, i + 1, n);
            assert(ext@ =~= name@.skip(i + 1));
            let lower = text::to_ascii_lowercase(ext.as_str());
            text::same(lower.as_str(), "md") || text::same(lower.as_str(), "markdown")
        },
        None => {
            proof {
                if exists|k: int| text::last_of(name@, '.', k) {
                    let k = choose|k: int| text::last_of(name@, '.', k);
                    assert(name@[k] == '.');
                }
            }
            false
        },
    }
}

/// Whether the name is that of an example.
pub open spec fn is_example(name: Seq<char>) -> bool {
    let l = text::ascii_lowered(name);
    text::ends_with(l, ".example.md"@) || text::ends_with(l, ".example.markdown"@)
}

pub fn is_markdown_example_file(name: &str) -> (r: bool)
    ensures
        r == is_example(name@),
{
    let l = text::to_ascii_lowercase(name);
    text::has_suffix(l.as_str(), ".example.md") || text::has_suffix(l.as_str(), ".example.markdown")
}

#[derive(Debug, Clone, Copy, PartialEq, Eq, Structural)]
pub enum EntryKind {
    Link,
    Directory,
    File,
    Other,
}

/// What is done with an entry of a directory.
#[derive(Debug, Clone, Copy, PartialEq, Eq, Structural)]
pub enum EntryAction {
    Skip,
    Enter,
    Take,
}

/// Links are never followed; directories are entered; files are taken if they are notes and
/// no examples.
pub open spec fn action_for(name: Seq<char>, kind: EntryKind) -> EntryAction {
    if is_ignored(name) || kind == EntryKind::Link || kind == EntryKind::Other {
        EntryAction::Skip
    } else if kind == EntryKind::Directory {
        EntryAction::Enter
    } else if is_markdown(name) && !is_example(name) {
        EntryAction::Take
    } else {
        EntryAction::Skip
    }
}

pub fn scan_entry(name: &str, kind: EntryKind) -> (r: EntryAction)
    ensures
        r == action_for(name@, kind),
{
    if should_ignore_name(name) || kind == EntryKind::Link || kind == EntryKind::Other {
        return EntryAction::Skip;
    }
    if kind == EntryKind::Directory {
        return EntryAction::Enter;
    }
    if !is_markdown_file(name) || is_markdown_example_file(name) {
        return EntryAction::Skip;
    }
    EntryAction::Take
}

/// The path of a note below the directory, given the names on the way; none where the way
/// holds anything but names.
pub fn relative_slash_path(parts: &Vec<Option<String>>) -> (r: Option<String>)
    ensures
        match r {
            Some(s) => all_named(parts@) && s@ == text::joined(names(parts@), "/"@),
            None => !all_named(parts@),
        },
{
    let mut out: Vec<String> = Vec::new();
    let mut i: usize = 0;
    while i < parts.len()
        invariant
            0 <= i <= parts@.len(),
            out@.len() == i,
            forall|k: int|
                0 <= k < i ==> (#[trigger] parts@[k]) is Some && out@[k]@ == parts@[k]->0@,
        decreases parts@.len() - i,
    {
        match &parts[i] {
            Some(s) => {
                out.push(s.clone());
            },
            None => {
                assert(parts@[i as int] is None);
                return None;
            },
        }
        i += 1;
    }
    assert(text::views(out@) =~= names(parts@));
    Some(text::join(&out, "/"))
}

pub open spec fn all_named(parts: Seq<Option<String>>) -> bool {
    forall|i: int| 0 <= i < parts.len() ==> (#[trigger] parts[i]) is Some
}

pub open spec fn names(parts: Seq<Option<String>>) -> Seq<Seq<char>> {
    Seq::new(parts.len(), |i: int| parts[i]->0@)
}

/// Whether the notes are in the order of their paths.
pub open spec fn in_path_order(v: Seq<ScannedMarkdown>) -> bool {
    forall|i: int, j: int|
        0 <= i < j < v.len() ==> !terms::precedes((#[trigger] v[j]).relative_path@, (#[trigger] v[i]).relative_path@)
}

proof fn lemma_not_before(a: Seq<char>, b: Seq<char>, c: Seq<char>)
    requires
        !terms::precedes(b, a),
        !terms::precedes(c, b),
    ensures
        !terms::precedes(c, a),
{
    terms::lemma_precedes_total(a, b);
    terms::lemma_precedes_total(b, c);
    terms::lemma_precedes_total(a, c);
    if terms::precedes(a, b) && terms::precedes(b, c) {
        terms::lemma_precedes_transitive(a, b, c);
    }
}

/// Puts the notes in the order of their paths.
pub fn sort_scanned(files: Vec<ScannedMarkdown>) -> (r: Vec<ScannedMarkdown>)
    ensures
        in_path_order(r@),
        r@.to_multiset() == files@.to_multiset(),
{
    let ghost given = files@;
    let mut rest = files;
    let mut out: Vec<ScannedMarkdown> = Vec::new();
    proof {
        assert(out@ =~= Seq::empty());
        broadcast use vstd::seq_lib::group_to_multiset_ensures;
        assert(out@.to_multiset().add(rest@.to_multiset()) =~= given.to_multiset());
    }
    while rest.len() > 0
        invariant
            in_path_order(out@),
            out@.to_multiset().add(rest@.to_multiset()) == given.to_multiset(),
        decreases rest@.len(),
    {
        let last: usize = rest.len() - 1;
        let ghost before_rest = rest@;
        let x = rest.remove(last);
        let mut k: usize = out.len();
        while k > 0 && terms::is_smaller(x.relative_path.as_str(), out[k - 1].relative_path.as_str())
            invariant
                k <= out@.len(),
                in_path_order(out@),
                forall|a: int|
                    k <= a < out@.len() ==> terms::precedes(
                        x.relative_path@,
                        (#[trigger] out@[a]).relative_path@,
                    ),
            decreases k,
        {
            k -= 1;
        }
        let ghost before = out@;
        let ghost y = x;
        out.insert(k, x);
        proof {
            to_multiset_insert(before, k as int, y);
            to_multiset_remove(before_rest, last as int);
            assert(out@ =~= before.insert(k as int, y));
            assert(rest@ =~= before_rest.remove(last as int));
            assert(before_rest[last as int] == y);
            to_multiset_contains(before_rest, y);
            assert(out@.to_multiset().add(rest@.to_multiset()) =~= given.to_multiset());
            assert forall|a: int, b: int| 0 <= a < b < out@.len() implies !terms::precedes(
                (#[trigger] out@[b]).relative_path@,
                (#[trigger] out@[a]).relative_path@,
            ) by {
                if a == k {
                    assert(out@[b] == before[b - 1]);
                    terms::lemma_precedes_total(y.relative_path@, before[b - 1].relative_path@);
                } else if b == k {
                    assert(out@[a] == before[a]);
                    if a < k - 1 {
                        lemma_not_before(
                            before[a].relative_path@,
                            before[k - 1].relative_path@,
                            y.relative_path@,
                        );
                    }
                } else {
                    let c = if a < k {
                        a
                    } else {
                        a - 1
                    };
                    let d = if b < k {
                        b
                    } else {
                        b - 1
                    };
                    assert(out@[a] == before[c] && out@[b] == before[d]);
                }
            }
        }
    }
    proof {
        assert(rest@ =~= Seq::empty());
        broadcast use vstd::seq_lib::group_to_multiset_ensures;
        assert(out@.to_multiset() =~= given.to_multiset());
    }
    out
}

} // verus!
