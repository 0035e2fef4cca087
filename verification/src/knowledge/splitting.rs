//! Cutting what is too long for one chunk: text at the end of a paragraph, an entry or a
//! sentence, code between its lines.
use vstd::prelude::*;
use vstd::string::*;

use crate::knowledge::blocks;
use crate::knowledge::blocks::{BlockView, CodeFence, MarkdownBlock};
use crate::text;

verus! {

/// The most characters of a chunk of code, and the most lines.
pub const CODE_CHUNK_CHARS: usize = 1400;

pub const CODE_CHUNK_LINES: usize = 48;

// Text.

/// The bytes that a character takes in UTF-8.
pub open spec fn width(c: char) -> nat {
    if (c as u32) < 0x80 {
        1
    } else if (c as u32) < 0x800 {
        2
    } else if (c as u32) < 0x10000 {
        3
    } else {
        4
    }
}

pub open spec fn byte_len(s: Seq<char>) -> nat
    decreases s.len(),
{
    if s.len() == 0 {
        0
    } else {
        byte_len(s.drop_last()) + width(s.last())
    }
}

/// Whether the first `n` characters take more than `limit` bytes.
pub fn is_wider(v: &Vec<char>, n: usize, limit: usize) -> (r: bool)
    requires
        n <= v@.len(),
        limit <= usize::MAX - 4,
    ensures
        r == (byte_len(v@.take(n as int)) > limit),
{
    let mut total: usize = 0;
    let mut i: usize = 0;
    assert(v@.take(0) =~= Seq::empty());
    while i < n
        invariant
            0 <= i <= n <= v@.len(),
            limit <= usize::MAX - 4,
            total == byte_len(v@.take(i as int)),
            total <= limit,
        decreases n - i,
    {
        let c: u32 = v[i] as u32;
        let w: usize = if c < 0x80 {
            1
        } else if c < 0x800 {
            2
        } else if c < 0x10000 {
            3
        } else {
            4
        };
        proof {
            assert(v@.take(i + 1).drop_last() =~= v@.take(i as int));
            assert(v@.take(i + 1).last() == v@[i as int]);
        }
        total += w;
        i += 1;
        if total > limit {
            proof {
                lemma_byte_len_grows(v@, i as int, n as int);
            }
            return true;
        }
    }
    false
}

proof fn lemma_byte_len_grows(s: Seq<char>, i: int, n: int)
    requires
        0 <= i <= n <= s.len(),
    ensures
        byte_len(s.take(i)) <= byte_len(s.take(n)),
    decreases n - i,
{
    if i < n {
        lemma_byte_len_grows(s, i, n - 1);
        assert(s.take(n).drop_last() =~= s.take(n - 1));
    }
}

/// Whether the last occurrence of the pattern is at `i`.
pub open spec fn is_last_at(s: Seq<char>, p: Seq<char>, i: int) -> bool {
    text::occurs_at(s, p, i) && forall|j: int| i < j ==> !(#[trigger] text::occurs_at(s, p, j))
}

/// The place behind the last occurrence of the pattern, where that is behind the first half.
pub open spec fn cut_behind(s: Seq<char>, p: Seq<char>, max: int) -> Option<int> {
    if exists|i: int| is_last_at(s, p, i) && byte_len(s.take(i + p.len())) > max / 2 {
        Some((choose|i: int| is_last_at(s, p, i)) + p.len())
    } else {
        None
    }
}

pub open spec fn cut_pattern(k: int) -> Seq<char> {
    if k == 0 {
        "\n\n"@
    } else if k == 1 {
        "\n- "@
    } else if k == 2 {
        "\n* "@
    } else if k == 3 {
        "\n1. "@
    } else if k == 4 {
        "。"@
    } else if k == 5 {
        "？"@
    } else if k == 6 {
        "！"@
    } else if k == 7 {
        ". "@
    } else if k == 8 {
        "? "@
    } else if k == 9 {
        "! "@
    } else if k == 10 {
        "；"@
    } else if k == 11 {
        "; "@
    } else if k == 12 {
        "，"@
    } else {
        ", "@
    }
}

fn pattern(k: usize) -> (r: &'static str)
    ensures
        r@ == cut_pattern(k as int),
{
    if k == 0 {
        "\n\n"
    } else if k == 1 {
        "\n- "
    } else if k == 2 {
        "\n* "
    } else if k == 3 {
        "\n1. "
    } else if k == 4 {
        "。"
    } else if k == 5 {
        "？"
    } else if k == 6 {
        "！"
    } else if k == 7 {
        ". "
    } else if k == 8 {
        "? "
    } else if k == 9 {
        "! "
    } else if k == 10 {
        "；"
    } else if k == 11 {
        "; "
    } else if k == 12 {
        "，"
    } else {
        ", "
    }
}

/// The cut by the first of the patterns from `k` on that gives one.
pub open spec fn first_cut(s: Seq<char>, max: int, k: int) -> Option<int>
    decreases 14 - k,
{
    if k >= 14 {
        None
    } else {
        match cut_behind(s, cut_pattern(k), max) {
            Some(c) => Some(c),
            None => first_cut(s, max, k + 1),
        }
    }
}

/// Where a text is cut whose first `max` characters are `s`: behind a paragraph, an entry, a
/// sentence or a part of one, in this order of liking.
pub open spec fn best_place(s: Seq<char>, max: int) -> int {
    match first_cut(s, max, 0) {
        Some(c) => c,
        None => max,
    }
}

proof fn lemma_last_is_one(s: Seq<char>, p: Seq<char>, i: int, j: int)
    requires
        is_last_at(s, p, i),
        is_last_at(s, p, j),
    ensures
        i == j,
{
    if i < j {
        assert(!text::occurs_at(s, p, j));
    } else if j < i {
        assert(!text::occurs_at(s, p, i));
    }
}

fn find_cut(v: &Vec<char>, p: &Vec<char>, max: usize) -> (r: Option<usize>)
    requires
        p@.len() > 0,
    ensures
        match r {
            Some(c) => cut_behind(v@, p@, max as int) == Some(c as int) && 0 < c <= v@.len(),
            None => cut_behind(v@, p@, max as int) is None,
        },
{
    let n: usize = p.len();
    let len: usize = v.len();
    if len < n {
        assert forall|i: int| !text::occurs_at(v@, p@, i) by {}
        return None;
    }
    let mut i: usize = len - n + 1;
    while i > 0
        invariant
            n == p@.len(),
            n > 0,
            len == v@.len(),
            i + n <= len + 1,
            forall|j: int| i <= j ==> !(#[trigger] text::occurs_at(v@, p@, j)),
        decreases i,
    {
        i -= 1;
        if text::matches_at(v, p, i) {
            assert(is_last_at(v@, p@, i as int));
            let wide = is_wider(v, i + n, max / 2);
            proof {
                let k = choose|k: int| is_last_at(v@, p@, k);
                lemma_last_is_one(v@, p@, k, i as int);
                assert forall|j: int| is_last_at(v@, p@, j) implies j == i by {
                    lemma_last_is_one(v@, p@, j, i as int);
                }
            }
            return if wide {
                Some(i + n)
            } else {
                None
            };
        }
    }
    None
}

/// The cut of a text of more than `max` characters, of which `v` holds the first.
pub fn best_cut(v: &Vec<char>, max: usize) -> (r: usize)
    requires
        0 < max,
        v@.len() == max,
    ensures
        r == best_place(v@, max as int),
        0 < r <= max,
{
    let mut k: usize = 0;
    while k < 14
        invariant
            0 <= k <= 14,
            0 < max,
            v@.len() == max,
            first_cut(v@, max as int, k as int) == first_cut(v@, max as int, 0),
        decreases 14 - k,
    {
        let p = text::chars_of(pattern(k));
        proof {
            reveal_strlit("\n\n");
            reveal_strlit("\n- ");
            reveal_strlit("\n* ");
            reveal_strlit("\n1. ");
            reveal_strlit("。");
            reveal_strlit("？");
            reveal_strlit("！");
            reveal_strlit(". ");
            reveal_strlit("? ");
            reveal_strlit("! ");
            reveal_strlit("；");
            reveal_strlit("; ");
            reveal_strlit("，");
            reveal_strlit(", ");
        }
        match find_cut(v, &p, max) {
            Some(c) => {
                return c;
            },
            None => {},
        }
        k += 1;
    }
    max
}

/// The parts of a long text.
pub open spec fn parts(rest: Seq<char>, max: int) -> Seq<Seq<char>>
    decreases rest.len(),
{
    if rest.len() <= max || max <= 0 {
        if rest.len() == 0 {
            Seq::empty()
        } else {
            seq![rest]
        }
    } else {
        let cut = best_place(rest.take(max), max);
        let tail = text::trim_start(rest.skip(cut));
        if 0 < cut <= max && tail.len() < rest.len() {
            seq![text::trimmed(rest.take(cut))] + parts(tail, max)
        } else {
            Seq::empty()
        }
    }
}

pub fn split_long_text(s: &str, max: usize) -> (r: Vec<String>)
    requires
        0 < max,
    ensures
        text::views(r@) == parts(text::trimmed(s@), max as int),
{
    let mut rest: String = text::trim(s).to_owned();
    let ghost whole = rest@;
    let mut out: Vec<String> = Vec::new();
    assert(text::views(out@) + parts(rest@, max as int) =~= parts(whole, max as int));
    loop
        invariant
            0 < max,
            whole == text::trimmed(s@),
            text::views(out@) + parts(rest@, max as int) == parts(whole, max as int),
        decreases rest@.len(),
    {
        let v = text::chars_of(rest.as_str());
        if v.len() <= max {
            let ghost before = text::views(out@);
            if v.len() > 0 {
                let ghost last = rest@;
                out.push(rest);
                assert(text::views(out@) =~= before.push(last));
                assert(before.push(last) =~= before + seq![last]);
            } else {
                assert(before + Seq::<Seq<char>>::empty() =~= before);
            }
            return out;
        }
        let first = text::chars_of(text::slice_of(&v, 0, max).as_str());
        assert(first@ =~= rest@.take(max as int));
        let cut = best_cut(&first, max);
        let head = text::slice_of(&v, 0, cut);
        let tail = text::slice_of(&v, cut, v.len());
        proof {
            assert(head@ =~= rest@.take(cut as int));
            assert(tail@ =~= rest@.skip(cut as int));
            text::lemma_trim_start_len(tail@);
        }
        let ghost before = text::views(out@);
        let ghost here = rest@;
        let part = text::trim(head.as_str()).to_owned();
        let ghost added = part@;
        out.push(part);
        rest = text::trim_left(tail.as_str()).to_owned();
        proof {
            assert(text::views(out@) =~= before.push(added));
            assert(parts(here, max as int) == seq![added] + parts(rest@, max as int));
            assert(text::views(out@) + parts(rest@, max as int) =~= before + parts(
                here,
                max as int,
            ));
        }
    }
}

// Code.

/// Whether a block of code is too long for one chunk.
pub open spec fn is_oversized(s: Seq<char>) -> bool {
    s.len() > CODE_CHUNK_CHARS || text::lines(s).len() > CODE_CHUNK_LINES
}

pub fn oversized_code_block(block: &MarkdownBlock) -> (r: bool)
    ensures
        r == is_oversized(block.text@),
{
    if block.text.as_str().unicode_len() > CODE_CHUNK_CHARS {
        return true;
    }
    let lines = text::split_lines(block.text.as_str());
    assert(text::views(lines@).len() == lines@.len());
    lines.len() > CODE_CHUNK_LINES
}

/// How far a part of the lines goes that starts at `start`, has reached `end` and takes
/// `chars` characters: as many lines as fit, and at least one.
pub open spec fn part_end(lines: Seq<Seq<char>>, start: int, end: int, chars: int) -> int
    decreases lines.len() - end,
{
    if end >= lines.len() || end - start >= CODE_CHUNK_LINES {
        end
    } else {
        let more = chars + lines[end].len() + 1;
        if end > start && more > CODE_CHUNK_CHARS {
            end
        } else {
            part_end(lines, start, end + 1, more)
        }
    }
}

pub open spec fn code_part(
    b: BlockView,
    opener: Seq<char>,
    closer: Seq<char>,
    lines: Seq<Seq<char>>,
    start: int,
    end: int,
) -> BlockView {
    BlockView {
        text: opener + "\n"@ + text::joined(lines.subrange(start, end), "\n"@) + "\n"@ + closer,
        start_line: b.start_line + start,
        end_line: b.start_line + end + 1,
        ..b
    }
}

/// The parts of the lines from `start` on, each between the fence's two lines.
pub open spec fn code_parts(
    b: BlockView,
    opener: Seq<char>,
    closer: Seq<char>,
    lines: Seq<Seq<char>>,
    start: int,
) -> Seq<BlockView>
    decreases lines.len() - start,
{
    if start >= lines.len() {
        Seq::empty()
    } else {
        let end = part_end(lines, start, start, (opener.len() + closer.len() + 2) as int);
        if start < end <= lines.len() {
            seq![code_part(b, opener, closer, lines, start, end)] + code_parts(
                b,
                opener,
                closer,
                lines,
                end,
            )
        } else {
            Seq::empty()
        }
    }
}

/// The parts of a block of code. Every part is fenced again, so that each can be read alone.
pub open spec fn code_split(b: BlockView) -> Seq<BlockView> {
    let lines = text::lines(b.text);
    let fence = blocks::opened(text::trimmed(lines[0]));
    if lines.len() <= 2 || fence is None {
        seq![b]
    } else {
        let closed = blocks::closes(fence->0, text::trimmed(lines.last()));
        if closed {
            code_parts(b, lines[0], lines.last(), lines.subrange(1, lines.len() - 1), 0)
        } else {
            code_parts(b, lines[0], fence->0.marker, lines.skip(1), 0)
        }
    }
}

fn copy_strings(v: &Vec<String>, from: usize, to: usize) -> (r: Vec<String>)
    requires
        from <= to <= v@.len(),
    ensures
        text::views(r@) == text::views(v@).subrange(from as int, to as int),
{
    let mut out: Vec<String> = Vec::new();
    let mut i: usize = from;
    while i < to
        invariant
            from <= i <= to <= v@.len(),
            out@.len() == i - from,
            forall|k: int| 0 <= k < out@.len() ==> (#[trigger] out@[k])@ == v@[k + from]@,
        decreases to - i,
    {
        out.push(v[i].clone());
        i += 1;
    }
    assert(text::views(out@) =~= text::views(v@).subrange(from as int, to as int));
    out
}

fn find_part_end(lines: &Vec<String>, start: usize, base: u128) -> (r: usize)
    requires
        start < lines@.len(),
        base <= 0x4_0000_0000_0000_0000,
    ensures
        r == part_end(text::views(lines@), start as int, start as int, base as int),
        start < r <= lines@.len(),
{
    let ghost all = text::views(lines@);
    let mut chars: u128 = base;
    let mut end: usize = start;
    while end < lines.len() && end - start < CODE_CHUNK_LINES
        invariant
            start < lines@.len(),
            start <= end <= lines@.len(),
            end - start <= CODE_CHUNK_LINES,
            all == text::views(lines@),
            chars <= 0x4_0000_0000_0000_0000 + (end - start) * 0x2_0000_0000_0000_0000,
            part_end(all, start as int, end as int, chars as int) == part_end(
                all,
                start as int,
                start as int,
                base as int,
            ),
        decreases lines@.len() - end,
    {
        let n: usize = lines[end].as_str().unicode_len();
        let line: u128 = n as u128 + 1;
        assert(all[end as int] == lines@[end as int]@);
        if end > start && chars + line > CODE_CHUNK_CHARS as u128 {
            return end;
        }
        chars = chars + line;
        end += 1;
    }
    end
}

fn split_lines_of_code(
    block: &MarkdownBlock,
    opener: &String,
    closer: &String,
    lines: &Vec<String>,
) -> (r: Vec<MarkdownBlock>)
    requires
        block.start_line + lines@.len() + 1 <= usize::MAX,
    ensures
        blocks::shown_blocks(r@) == code_parts(
            block.shown(),
            opener@,
            closer@,
            text::views(lines@),
            0,
        ),
{
    let ghost all = text::views(lines@);
    let a: usize = opener.as_str().unicode_len();
    let b: usize = closer.as_str().unicode_len();
    let base: u128 = a as u128 + b as u128 + 2;
    let mut out: Vec<MarkdownBlock> = Vec::new();
    let mut start: usize = 0;
    assert(blocks::shown_blocks(out@) + code_parts(block.shown(), opener@, closer@, all, 0)
        =~= code_parts(block.shown(), opener@, closer@, all, 0));
    while start < lines.len()
        invariant
            0 <= start <= lines@.len(),
            all == text::views(lines@),
            block.start_line + lines@.len() + 1 <= usize::MAX,
            base == opener@.len() + closer@.len() + 2,
            base <= 0x4_0000_0000_0000_0000,
            blocks::shown_blocks(out@) + code_parts(
                block.shown(),
                opener@,
                closer@,
                all,
                start as int,
            ) == code_parts(block.shown(), opener@, closer@, all, 0),
        decreases lines@.len() - start,
    {
        let end = find_part_end(lines, start, base);
        let mut s = opener.clone();
        s.append("\n");
        s.append(text::join(&copy_strings(lines, start, end), "\n").as_str());
        s.append("\n");
        s.append(closer.as_str());
        let mut part = block.clone();
        part.text = s;
        part.start_line = block.start_line + start;
        part.end_line = block.start_line + end + 1;
        let ghost before = blocks::shown_blocks(out@);
        let ghost added = part.shown();
        out.push(part);
        proof {
            assert(blocks::shown_blocks(out@) =~= before.push(added));
            assert(added == code_part(
                block.shown(),
                opener@,
                closer@,
                all,
                start as int,
                end as int,
            ));
            let rest = code_parts(block.shown(), opener@, closer@, all, end as int);
            assert(before.push(added) + rest =~= before + (seq![added] + rest));
        }
        start = end;
    }
    assert(blocks::shown_blocks(out@) =~= code_parts(block.shown(), opener@, closer@, all, 0));
    out
}

pub fn split_code_block(block: &MarkdownBlock) -> (r: Vec<MarkdownBlock>)
    requires
        block.start_line + block.text@.len() + 1 <= usize::MAX,
    ensures
        blocks::shown_blocks(r@) == code_split(block.shown()),
{
    let lines = text::split_lines(block.text.as_str());
    let ghost all = text::lines(block.text@);
    proof {
        blocks::lemma_taken(block.text@);
        assert(text::views(lines@).len() == lines@.len());
    }
    let n: usize = lines.len();
    if n <= 2 {
        let mut out: Vec<MarkdownBlock> = Vec::new();
        out.push(block.clone());
        assert(blocks::shown_blocks(out@) =~= seq![block.shown()]);
        return out;
    }
    assert(all[0] == lines@[0]@);
    assert(all.last() == lines@[n - 1]@);
    let fence = match CodeFence::open(text::trim(lines[0].as_str())) {
        Some(f) => f,
        None => {
            let mut out: Vec<MarkdownBlock> = Vec::new();
            out.push(block.clone());
            assert(blocks::shown_blocks(out@) =~= seq![block.shown()]);
            return out;
        },
    };
    if fence.is_closed_by(text::trim(lines[n - 1].as_str())) {
        let content = copy_strings(&lines, 1, n - 1);
        assert(text::views(content@).len() == content@.len());
        split_lines_of_code(block, &lines[0], &lines[n - 1], &content)
    } else {
        let content = copy_strings(&lines, 1, n);
        assert(text::views(content@) =~= all.skip(1));
        assert(text::views(content@).len() == content@.len());
        split_lines_of_code(block, &lines[0], &fence.marker, &content)
    }
}

// Laws.

/// Every part of a long text is short enough.
pub proof fn parts_are_short(rest: Seq<char>, max: int, i: int)
    requires
        max > 0,
        0 <= i < parts(rest, max).len(),
    ensures
        parts(rest, max)[i].len() <= max,
    decreases rest.len(),
{
    if rest.len() > max {
        let cut = best_place(rest.take(max), max);
        let tail = text::trim_start(rest.skip(cut));
        if 0 < cut <= max && tail.len() < rest.len() {
            lemma_trimmed_is_shorter(rest.take(cut));
            if i > 0 {
                parts_are_short(tail, max, i - 1);
            }
        }
    }
}

/// Every part of a long text holds something, and none is white space alone.
pub proof fn parts_hold_something(s: Seq<char>, max: int, i: int)
    requires
        max > 0,
        0 <= i < parts(text::trimmed(s), max).len(),
    ensures
        parts(text::trimmed(s), max)[i].len() > 0,
        !text::blank(parts(text::trimmed(s), max)[i]),
{
    text::lemma_trimmed_is_clean(s);
    lemma_parts_hold_something(text::trimmed(s), max, i);
}

proof fn lemma_parts_hold_something(rest: Seq<char>, max: int, i: int)
    requires
        max > 0,
        rest.len() > 0 ==> !text::is_space(rest[0]),
        0 <= i < parts(rest, max).len(),
    ensures
        parts(rest, max)[i].len() > 0,
        !text::blank(parts(rest, max)[i]),
    decreases rest.len(),
{
    if rest.len() > max {
        let cut = best_place(rest.take(max), max);
        let tail = text::trim_start(rest.skip(cut));
        if 0 < cut <= max && tail.len() < rest.len() {
            let head = rest.take(cut);
            lemma_start_is_kept(head);
            text::lemma_trimmed_is_clean(head);
            if i > 0 {
                text::lemma_trim_start_len(rest.skip(cut));
                lemma_parts_hold_something(tail, max, i - 1);
            }
        }
    } else {
        lemma_start_is_kept(rest);
    }
}

/// A text that does not start with white space is not blank.
proof fn lemma_start_is_kept(s: Seq<char>)
    requires
        s.len() > 0,
        !text::is_space(s[0]),
    ensures
        text::trimmed(s).len() > 0,
{
    text::lemma_trim_start(s, 0);
    assert(s.skip(0) =~= s);
    lemma_end_keeps_start(s);
}

proof fn lemma_end_keeps_start(s: Seq<char>)
    requires
        s.len() > 0,
        !text::is_space(s[0]),
    ensures
        text::trim_end(s).len() > 0,
    decreases s.len(),
{
    if text::is_space(s.last()) {
        lemma_end_keeps_start(s.drop_last());
    }
}

proof fn lemma_trimmed_is_shorter(s: Seq<char>)
    ensures
        text::trimmed(s).len() <= s.len(),
{
    text::lemma_trim_start_len(s);
    lemma_end_is_shorter(text::trim_start(s));
}

proof fn lemma_end_is_shorter(s: Seq<char>)
    ensures
        text::trim_end(s).len() <= s.len(),
    decreases s.len(),
{
    if s.len() > 0 && text::is_space(s.last()) {
        lemma_end_is_shorter(s.drop_last());
    }
}

/// A part of a block of code never has more lines of code than allowed.
pub proof fn code_parts_are_short(lines: Seq<Seq<char>>, start: int, end: int, chars: int)
    requires
        0 <= start <= end <= lines.len(),
        end - start <= CODE_CHUNK_LINES,
    ensures
        end <= part_end(lines, start, end, chars) <= lines.len(),
        part_end(lines, start, end, chars) - start <= CODE_CHUNK_LINES,
    decreases lines.len() - end,
{
    if end < lines.len() && end - start < CODE_CHUNK_LINES {
        code_parts_are_short(lines, start, end + 1, chars + lines[end].len() + 1);
    }
}

/// What is left of the parts without white space, one behind the other.
pub open spec fn all_compacted(list: Seq<Seq<char>>) -> Seq<char>
    decreases list.len(),
{
    if list.len() == 0 {
        Seq::empty()
    } else {
        text::compacted(list[0]) + all_compacted(list.skip(1))
    }
}

pub proof fn lemma_trimming_keeps_the_rest(s: Seq<char>)
    ensures
        text::compacted(text::trim_start(s)) == text::compacted(s),
        text::compacted(text::trim_end(s)) == text::compacted(s),
    decreases s.len(),
{
    reveal(Seq::filter);
    let keep = |c: char| !text::is_space(c);
    if s.len() > 0 && text::is_space(s[0]) {
        lemma_trimming_keeps_the_rest(s.skip(1));
        let one = seq![s[0]];
        assert(s =~= one + s.skip(1));
        Seq::filter_distributes_over_add(one, s.skip(1), keep);
        assert(one.drop_last() =~= Seq::empty());
        assert(one.drop_last().filter(keep) =~= Seq::empty());
        assert(!keep(one.last()));
        assert(one.filter(keep) =~= Seq::empty());
        assert(text::compacted(s) =~= text::compacted(s.skip(1)));
    }
    if s.len() > 0 && text::is_space(s.last()) {
        lemma_trimming_keeps_the_rest(s.drop_last());
    }
}

proof fn lemma_place_is_inside(s: Seq<char>, max: int, k: int)
    requires
        0 < max,
        s.len() == max,
        0 <= k,
    ensures
        first_cut(s, max, k) matches Some(c) ==> 0 < c <= max,
    decreases 14 - k,
{
    if k < 14 {
        reveal_strlit("\n\n");
        reveal_strlit("\n- ");
        reveal_strlit("\n* ");
        reveal_strlit("\n1. ");
        reveal_strlit("。");
        reveal_strlit("？");
        reveal_strlit("！");
        reveal_strlit(". ");
        reveal_strlit("? ");
        reveal_strlit("! ");
        reveal_strlit("；");
        reveal_strlit("; ");
        reveal_strlit("，");
        reveal_strlit(", ");
        let p = cut_pattern(k);
        assert(p.len() > 0);
        if cut_behind(s, p, max) is Some {
            let i = choose|i: int| is_last_at(s, p, i);
            assert(text::occurs_at(s, p, i));
        }
        lemma_place_is_inside(s, max, k + 1);
    }
}

/// Cutting a long text loses nothing but white space, and keeps the order.
pub proof fn cutting_loses_only_white_space(rest: Seq<char>, max: int)
    requires
        0 < max,
    ensures
        all_compacted(parts(rest, max)) == text::compacted(rest),
    decreases rest.len(),
{
    reveal(Seq::filter);
    let list = parts(rest, max);
    if rest.len() <= max {
        if rest.len() > 0 {
            assert(list.skip(1) =~= Seq::empty());
            assert(all_compacted(list.skip(1)) =~= Seq::empty());
            assert(all_compacted(list) =~= text::compacted(rest));
        } else {
            assert(text::compacted(rest) =~= Seq::empty());
        }
    } else {
        let cut = best_place(rest.take(max), max);
        lemma_place_is_inside(rest.take(max), max, 0);
        let head = rest.take(cut);
        let tail = text::trim_start(rest.skip(cut));
        text::lemma_trim_start_len(rest.skip(cut));
        assert(list.skip(1) =~= parts(tail, max));
        cutting_loses_only_white_space(tail, max);
        lemma_trimming_keeps_the_rest(head);
        lemma_trimming_keeps_the_rest(text::trim_start(head));
        lemma_trimming_keeps_the_rest(rest.skip(cut));
        assert(rest =~= head + rest.skip(cut));
        Seq::filter_distributes_over_add(head, rest.skip(cut), |c: char| !text::is_space(c));
    }
}

/// The parts of a block of code follow each other line by line: the first begins where the
/// code does, the last ends where it ends, and no line is left out or repeated.
pub proof fn code_parts_follow_each_other(
    b: BlockView,
    opener: Seq<char>,
    closer: Seq<char>,
    lines: Seq<Seq<char>>,
    start: int,
    i: int,
)
    requires
        0 <= start < lines.len(),
        0 <= i < code_parts(b, opener, closer, lines, start).len(),
    ensures
        ({
            let all = code_parts(b, opener, closer, lines, start);
            &&& all[0].start_line == b.start_line + start
            &&& all.last().end_line == b.start_line + lines.len() + 1
            &&& i + 1 < all.len() ==> all[i + 1].start_line + 1 == all[i].end_line
        }),
    decreases lines.len() - start,
{
    let all = code_parts(b, opener, closer, lines, start);
    let end = part_end(lines, start, start, (opener.len() + closer.len() + 2) as int);
    code_parts_are_short(lines, start, start, (opener.len() + closer.len() + 2) as int);
    assert(start < end);
    let rest = code_parts(b, opener, closer, lines, end);
    assert(all =~= seq![code_part(b, opener, closer, lines, start, end)] + rest);
    if end < lines.len() {
        let chars = (opener.len() + closer.len() + 2) as int;
        let next = part_end(lines, end, end, chars);
        code_parts_are_short(lines, end, end + 1, chars + lines[end].len() + 1);
        assert(end < next);
        assert(rest.len() > 0);
        code_parts_follow_each_other(b, opener, closer, lines, end, if i > 0 { i - 1 } else { 0 });
        assert(all.last() == rest.last());
        if i + 1 < all.len() {
            assert(all[i + 1] == rest[i]);
            if i > 0 {
                assert(all[i] == rest[i - 1]);
            }
        }
    } else {
        assert(rest =~= Seq::empty());
    }
}

} // verus!
