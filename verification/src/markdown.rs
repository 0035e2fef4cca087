//! Writing plain text so that Markdown shows it as it is.
use vstd::prelude::*;
use vstd::string::*;

use crate::text;

verus! {

/// Whether Markdown gives the character a meaning.
pub open spec fn is_special(c: char) -> bool {
    c == '\\' || c == '`' || c == '*' || c == '_' || c == '{' || c == '}' || c == '[' || c == ']' || c
        == '(' || c == ')' || c == '#' || c == '+' || c == '-' || c == '!' || c == '|' || c == '>'
}

fn is_special_char(c: char) -> (r: bool)
    ensures
        r == is_special(c),
{
    c == '\\' || c == '`' || c == '*' || c == '_' || c == '{' || c == '}' || c == '[' || c == ']' || c
        == '(' || c == ')' || c == '#' || c == '+' || c == '-' || c == '!' || c == '|' || c == '>'
}

/// One character as it is written on a line: line ends become spaces, and a backslash goes
/// before each character that has a meaning.
pub open spec fn written(c: char) -> Seq<char> {
    if c == '\r' || c == '\n' {
        seq![' ']
    } else if is_special(c) {
        seq!['\\', c]
    } else {
        seq![c]
    }
}

pub open spec fn all_written(s: Seq<char>) -> Seq<char>
    decreases s.len(),
{
    if s.len() == 0 {
        Seq::empty()
    } else {
        all_written(s.drop_last()) + written(s.last())
    }
}

/// The trimmed text, written on one line.
pub open spec fn inline(s: Seq<char>) -> Seq<char> {
    all_written(text::trimmed(s))
}

pub fn escape_markdown_inline(s: &str) -> (r: String)
    ensures
        r@ == inline(s@),
{
    let t = text::trim(s);
    let v = text::chars_of(t);
    let mut out: Vec<char> = Vec::new();
    let mut i: usize = 0;
    assert(v@.take(0) =~= Seq::empty());
    while i < v.len()
        invariant
            0 <= i <= v@.len(),
            v@ == t@,
            out@ == all_written(t@.take(i as int)),
        decreases v@.len() - i,
    {
        let c = v[i];
        let ghost before = out@;
        proof {
            assert(t@.take(i + 1).drop_last() =~= t@.take(i as int));
            assert(t@.take(i + 1).last() == c);
        }
        if c == '\r' || c == '\n' {
            out.push(' ');
        } else {
            if is_special_char(c) {
                out.push('\\');
            }
            out.push(c);
        }
        assert(out@ =~= before + written(c));
        i += 1;
    }
    assert(t@.take(i as int) =~= t@);
    text::string_of(&out)
}

pub open spec fn inlines(lines: Seq<Seq<char>>) -> Seq<Seq<char>> {
    Seq::new(lines.len(), |i: int| inline(lines[i]))
}

/// The text line by line, each line written on a line of its own.
pub open spec fn block(s: Seq<char>) -> Seq<char> {
    text::joined(inlines(text::lines(s)), "  \n"@)
}

pub fn escape_markdown_text(s: &str) -> (r: String)
    ensures
        r@ == block(s@),
{
    let lines = text::split_lines(s);
    let mut out: Vec<String> = Vec::new();
    let mut i: usize = 0;
    while i < lines.len()
        invariant
            0 <= i <= lines@.len(),
            out@.len() == i,
            forall|k: int| 0 <= k < i ==> (#[trigger] out@[k])@ == inline(lines@[k]@),
        decreases lines@.len() - i,
    {
        out.push(escape_markdown_inline(lines[i].as_str()));
        i += 1;
    }
    assert(text::views(out@) =~= inlines(text::lines(s@)));
    text::join(&out, "  \n")
}

} // verus!
