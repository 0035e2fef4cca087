//! What holds of cutting a note into chunks: no text of its blocks is lost, none is put under
//! another heading, and what fits stays in one piece.
use vstd::prelude::*;
use vstd::string::*;

use crate::knowledge::blocks;
use crate::knowledge::blocks::{BlockKind, BlockView, ParserView};
use crate::knowledge::chunking;
use crate::knowledge::chunking::PieceView;
use crate::knowledge::frontmatter;
use crate::knowledge::splitting;
use crate::knowledge::terms;
use crate::text;

verus! {

/// The texts of the pieces.
pub open spec fn bodies(pieces: Seq<PieceView>) -> Seq<Seq<char>> {
    Seq::new(pieces.len(), |i: int| pieces[i].block.text)
}

/// Whether the block is code of more characters or lines than a chunk of code holds.
pub open spec fn is_long_code(b: BlockView) -> bool {
    b.kind == BlockKind::Code && (b.text.len() > 1400 || text::lines(b.text).len() > 48)
}

/// What the chunks hold of a block without its white space: all of its text, and, for long
/// code, its parts in their fences.
pub open spec fn letters_of(b: BlockView) -> Seq<char> {
    if is_long_code(b) {
        splitting::all_compacted(
            Seq::new(splitting::code_split(b).len(), |i: int| splitting::code_split(b)[i].text),
        )
    } else {
        text::compacted(b.text)
    }
}

/// What the chunks hold of the blocks, one behind the other.
pub open spec fn all_letters(list: Seq<BlockView>) -> Seq<char>
    decreases list.len(),
{
    if list.len() == 0 {
        Seq::empty()
    } else {
        all_letters(list.drop_last()) + letters_of(list.last())
    }
}

proof fn lemma_compacted_sum(a: Seq<char>, b: Seq<char>)
    ensures
        text::compacted(a + b) == text::compacted(a) + text::compacted(b),
{
    Seq::filter_distributes_over_add(a, b, |c: char| !text::is_space(c));
}

proof fn lemma_all_compacted_sum(a: Seq<Seq<char>>, b: Seq<Seq<char>>)
    ensures
        splitting::all_compacted(a + b) == splitting::all_compacted(a) + splitting::all_compacted(b),
    decreases a.len(),
{
    if a.len() == 0 {
        assert(a + b =~= b);
        assert(Seq::<char>::empty() + splitting::all_compacted(b) =~= splitting::all_compacted(b));
    } else {
        assert((a + b).skip(1) =~= a.skip(1) + b);
        lemma_all_compacted_sum(a.skip(1), b);
        assert(splitting::all_compacted(a + b) =~= splitting::all_compacted(a)
            + splitting::all_compacted(b));
    }
}

proof fn lemma_one_compacted(t: Seq<char>)
    ensures
        splitting::all_compacted(seq![t]) == text::compacted(t),
{
    assert(seq![t].skip(1) =~= Seq::empty());
    assert(splitting::all_compacted(seq![t].skip(1)) =~= Seq::empty());
    assert(splitting::all_compacted(seq![t]) =~= text::compacted(t));
}

proof fn lemma_gap_is_blank()
    ensures
        text::compacted("\n\n"@) == Seq::<char>::empty(),
{
    reveal(Seq::filter);
    reveal_strlit("\n\n");
    let s = "\n\n"@;
    let keep = |c: char| !text::is_space(c);
    assert(s.drop_last().drop_last() =~= Seq::empty());
    assert(s.drop_last().drop_last().filter(keep) =~= Seq::empty());
    assert(s.drop_last().last() == '\n');
    assert(s.drop_last().filter(keep) =~= Seq::empty());
    assert(s.filter(keep) =~= Seq::empty());
}

proof fn lemma_joined_letters(parts: Seq<Seq<char>>)
    ensures
        text::compacted(text::joined(parts, "\n\n"@)) == splitting::all_compacted(parts),
    decreases parts.len(),
{
    if parts.len() == 0 {
        reveal(Seq::filter);
        assert(text::compacted(text::joined(parts, "\n\n"@)) =~= Seq::empty());
    } else if parts.len() == 1 {
        lemma_one_compacted(parts[0]);
        assert(parts =~= seq![parts[0]]);
    } else {
        let front = parts.drop_last();
        let a = text::joined(front, "\n\n"@);
        lemma_joined_letters(front);
        lemma_gap_is_blank();
        lemma_compacted_sum(a + "\n\n"@, parts.last());
        lemma_compacted_sum(a, "\n\n"@);
        assert(text::compacted(a) + Seq::<char>::empty() =~= text::compacted(a));
        assert(parts =~= front + seq![parts.last()]);
        lemma_all_compacted_sum(front, seq![parts.last()]);
        lemma_one_compacted(parts.last());
    }
}

proof fn lemma_trimmed_letters(s: Seq<char>)
    ensures
        text::compacted(text::trimmed(s)) == text::compacted(s),
{
    splitting::lemma_trimming_keeps_the_rest(s);
    splitting::lemma_trimming_keeps_the_rest(text::trim_start(s));
}

/// The pieces of blocks that wait hold all of their text.
proof fn lemma_waiting_letters(list: Seq<BlockView>)
    ensures
        splitting::all_compacted(bodies(chunking::waiting_pieces(list))) == splitting::all_compacted(
            chunking::texts(list),
        ),
{
    if list.len() == 0 {
        assert(bodies(chunking::waiting_pieces(list)) =~= chunking::texts(list));
    } else {
        let body = text::joined(chunking::texts(list), "\n\n"@);
        let parts = chunking::waiting_texts(list);
        assert(bodies(chunking::waiting_pieces(list)) =~= parts);
        lemma_joined_letters(chunking::texts(list));
        if body.len() > 1200 && chunking::combined(list) != BlockKind::Code {
            splitting::cutting_loses_only_white_space(text::trimmed(body), 1600);
            lemma_trimmed_letters(body);
        } else {
            lemma_one_compacted(body);
        }
    }
}

/// Whether no block is long code.
pub open spec fn none_is_long_code(list: Seq<BlockView>) -> bool {
    forall|i: int| 0 <= i < list.len() ==> !is_long_code(#[trigger] list[i])
}

proof fn lemma_texts_letters(list: Seq<BlockView>)
    requires
        none_is_long_code(list),
    ensures
        all_letters(list) == splitting::all_compacted(chunking::texts(list)),
    decreases list.len(),
{
    if list.len() == 0 {
        assert(chunking::texts(list) =~= Seq::empty());
    } else {
        let front = list.drop_last();
        assert(list.last() == list[list.len() - 1]);
        assert forall|i: int| 0 <= i < front.len() implies !is_long_code(#[trigger] front[i]) by {
            assert(front[i] == list[i]);
        }
        lemma_texts_letters(front);
        assert(chunking::texts(list) =~= chunking::texts(front) + seq![list.last().text]);
        lemma_all_compacted_sum(chunking::texts(front), seq![list.last().text]);
        lemma_one_compacted(list.last().text);
    }
}

/// Pieces so far and blocks that wait hold together what was taken.
proof fn lemma_taken_letters(list: Seq<BlockView>)
    ensures
        ({
            let e = chunking::take_blocks(list);
            &&& none_is_long_code(e.waiting)
            &&& all_letters(list) == splitting::all_compacted(bodies(e.pieces)) + all_letters(e.waiting)
        }),
    decreases list.len(),
{
    let e = chunking::take_blocks(list);
    if list.len() == 0 {
        assert(bodies(e.pieces) =~= Seq::empty());
        assert(all_letters(list) =~= splitting::all_compacted(bodies(e.pieces)) + all_letters(e.waiting));
    } else {
        let front = list.drop_last();
        let b = list.last();
        let f = chunking::take_blocks(front);
        lemma_taken_letters(front);
        lemma_waiting_letters(f.waiting);
        lemma_texts_letters(f.waiting);
        let done = f.pieces + chunking::waiting_pieces(f.waiting);
        assert(bodies(done) =~= bodies(f.pieces) + bodies(chunking::waiting_pieces(f.waiting)));
        lemma_all_compacted_sum(bodies(f.pieces), bodies(chunking::waiting_pieces(f.waiting)));
        assert(splitting::all_compacted(bodies(done)) == all_letters(front));
        if is_long_code(b) {
            let code = chunking::code_pieces(b);
            assert(bodies(done + code) =~= bodies(done) + bodies(code));
            lemma_all_compacted_sum(bodies(done), bodies(code));
            assert(bodies(code) =~= Seq::new(
                splitting::code_split(b).len(),
                |i: int| splitting::code_split(b)[i].text,
            ));
            assert(all_letters(list) =~= splitting::all_compacted(bodies(e.pieces)) + all_letters(
                e.waiting,
            ));
        } else if chunking::starts_chunk(f.waiting, b) {
            assert(seq![b].drop_last() =~= Seq::empty());
            assert(all_letters(seq![b].drop_last()) =~= Seq::empty());
            assert(all_letters(seq![b]) =~= letters_of(b));
        } else {
            assert(f.waiting.push(b).drop_last() =~= f.waiting);
            assert(all_letters(f.waiting.push(b)) == all_letters(f.waiting) + letters_of(b));
            assert(all_letters(list) =~= splitting::all_compacted(bodies(e.pieces)) + all_letters(
                e.waiting,
            ));
        }
    }
}

/// Cutting blocks into pieces loses no text: the pieces in order hold all that the blocks in
/// order hold, white space aside.
pub proof fn cutting_into_pieces_loses_no_text(list: Seq<BlockView>)
    ensures
        splitting::all_compacted(bodies(chunking::pieces_of(list))) == all_letters(list),
{
    let e = chunking::take_blocks(list);
    lemma_taken_letters(list);
    lemma_waiting_letters(e.waiting);
    lemma_texts_letters(e.waiting);
    assert(bodies(chunking::pieces_of(list)) =~= bodies(e.pieces) + bodies(
        chunking::waiting_pieces(e.waiting),
    ));
    lemma_all_compacted_sum(bodies(e.pieces), bodies(chunking::waiting_pieces(e.waiting)));
}

/// The chunks of a note in order hold all that its blocks in order hold, white space aside.
pub proof fn chunking_loses_no_text(path: Seq<char>, content: Seq<char>)
    ensures
        ({
            let note = frontmatter::note_of(content);
            let list = blocks::blocks_of(note.body, note.first_line, None);
            let chunks = chunking::note_chunks(path, content);
            splitting::all_compacted(Seq::new(chunks.len(), |i: int| chunks[i].body)) == all_letters(
                list,
            )
        }),
{
    let note = frontmatter::note_of(content);
    let list = blocks::blocks_of(note.body, note.first_line, None);
    let chunks = chunking::note_chunks(path, content);
    cutting_into_pieces_loses_no_text(list);
    assert(Seq::new(chunks.len(), |i: int| chunks[i].body) =~= bodies(chunking::pieces_of(list)));
}

// Whole blocks.

/// Whether the piece holds the whole text of the block, under its heading and between its
/// lines.
pub open spec fn is_piece_with(p: PieceView, b: BlockView) -> bool {
    p.block.heading_path == b.heading_path && text::has_sub(p.block.text, b.text)
}

pub open spec fn some_piece_with(pieces: Seq<PieceView>, b: BlockView) -> bool {
    exists|i: int| 0 <= i < pieces.len() && is_piece_with(#[trigger] pieces[i], b)
}

proof fn lemma_sub_of_sum(a: Seq<char>, m: Seq<char>, b: Seq<char>, p: Seq<char>)
    requires
        text::has_sub(m, p),
    ensures
        text::has_sub(a + m + b, p),
{
    let i = choose|i: int| text::occurs_at(m, p, i);
    let s = a + m + b;
    assert(s.subrange(a.len() + i, a.len() + i + p.len()) =~= m.subrange(i, i + p.len()));
    assert(text::occurs_at(s, p, a.len() + i));
}

proof fn lemma_sub_of_joined(parts: Seq<Seq<char>>, i: int)
    requires
        0 <= i < parts.len(),
    ensures
        text::has_sub(text::joined(parts, "\n\n"@), parts[i]),
    decreases parts.len(),
{
    let s = text::joined(parts, "\n\n"@);
    let e = Seq::<char>::empty();
    assert(parts[i].subrange(0, parts[i].len() as int) =~= parts[i]);
    assert(text::occurs_at(parts[i], parts[i], 0));
    if parts.len() > 1 {
        let front = parts.drop_last();
        let a = text::joined(front, "\n\n"@);
        if i < front.len() {
            lemma_sub_of_joined(front, i);
            lemma_sub_of_sum(e, a, "\n\n"@ + parts.last(), parts[i]);
            assert(e + a + ("\n\n"@ + parts.last()) =~= s);
        } else {
            lemma_sub_of_sum(a + "\n\n"@, parts.last(), e, parts[i]);
            assert(a + "\n\n"@ + parts.last() + e =~= s);
        }
    }
}

proof fn lemma_joined_len(list: Seq<BlockView>)
    requires
        list.len() > 0,
    ensures
        text::joined(chunking::texts(list), "\n\n"@).len() + 2 == chunking::total_chars(list),
    decreases list.len(),
{
    reveal_strlit("\n\n");
    let front = list.drop_last();
    assert(chunking::texts(list).drop_last() =~= chunking::texts(front));
    if front.len() > 0 {
        lemma_joined_len(front);
    } else {
        assert(chunking::total_chars(front) == 0);
    }
}

/// Blocks wait together only under one heading, and only as long as they fit.
proof fn lemma_waiting(list: Seq<BlockView>)
    ensures
        ({
            let w = chunking::take_blocks(list).waiting;
            &&& w.len() > 1 ==> chunking::total_chars(w) <= 1202
            &&& forall|i: int|
                0 <= i < w.len() ==> (#[trigger] w[i]).heading_path == w[0].heading_path
        }),
    decreases list.len(),
{
    if list.len() > 0 {
        let f = chunking::take_blocks(list.drop_last());
        let b = list.last();
        lemma_waiting(list.drop_last());
        if !is_long_code(b) && !chunking::starts_chunk(f.waiting, b) {
            assert(f.waiting.push(b).drop_last() =~= f.waiting);
        }
    }
}

proof fn lemma_flushed_whole(list: Seq<BlockView>, i: int)
    requires
        0 <= i < list.len(),
        list[i].text.len() <= 1200,
        list.len() > 1 ==> chunking::total_chars(list) <= 1202,
        forall|k: int| 0 <= k < list.len() ==> (#[trigger] list[k]).heading_path == list[0].heading_path,
    ensures
        some_piece_with(chunking::waiting_pieces(list), list[i]),
{
    let body = text::joined(chunking::texts(list), "\n\n"@);
    lemma_joined_len(list);
    if list.len() == 1 {
        assert(list.drop_last() =~= Seq::empty());
        assert(chunking::total_chars(list.drop_last()) == 0);
    }
    assert(body.len() <= 1200);
    lemma_sub_of_joined(chunking::texts(list), i);
    let p = chunking::waiting_pieces(list)[0];
    assert(chunking::waiting_pieces(list).len() == 1);
    assert(p.block.text == body);
    assert(is_piece_with(p, list[i]));
}

proof fn lemma_some_piece(a: Seq<PieceView>, m: Seq<PieceView>, b: Seq<PieceView>, x: BlockView)
    requires
        some_piece_with(m, x),
    ensures
        some_piece_with(a + m + b, x),
{
    let i = choose|i: int| 0 <= i < m.len() && is_piece_with(#[trigger] m[i], x);
    assert((a + m + b)[a.len() + i] == m[i]);
}

proof fn lemma_taken_whole(list: Seq<BlockView>, i: int)
    requires
        0 <= i < list.len(),
        list[i].text.len() <= 1200,
        !is_long_code(list[i]),
    ensures
        ({
            let e = chunking::take_blocks(list);
            some_piece_with(e.pieces, list[i]) || e.waiting.contains(list[i])
        }),
    decreases list.len(),
{
    let e = chunking::take_blocks(list);
    let front = list.drop_last();
    let b = list.last();
    let f = chunking::take_blocks(front);
    let none = Seq::<PieceView>::empty();
    if i < front.len() {
        lemma_taken_whole(front, i);
        assert(front[i] == list[i]);
        lemma_waiting(front);
        if some_piece_with(f.pieces, list[i]) {
            lemma_some_piece(none, f.pieces, none, list[i]);
            let w = chunking::waiting_pieces(f.waiting);
            lemma_some_piece(none, f.pieces, w, list[i]);
            assert(none + f.pieces + w =~= f.pieces + w);
            lemma_some_piece(none, f.pieces, w + chunking::code_pieces(b), list[i]);
            assert(none + f.pieces + (w + chunking::code_pieces(b)) =~= f.pieces + w
                + chunking::code_pieces(b));
        } else {
            let k = choose|k: int| 0 <= k < f.waiting.len() && f.waiting[k] == list[i];
            if is_long_code(b) || chunking::starts_chunk(f.waiting, b) {
                lemma_flushed_whole(f.waiting, k);
                let w = chunking::waiting_pieces(f.waiting);
                lemma_some_piece(f.pieces, w, none, list[i]);
                assert(f.pieces + w + none =~= f.pieces + w);
                lemma_some_piece(f.pieces, w, chunking::code_pieces(b), list[i]);
            } else {
                assert(e.waiting[k] == list[i]);
            }
        }
    } else {
        assert(b == list[i]);
        if chunking::starts_chunk(f.waiting, b) {
            assert(e.waiting[0] == b);
        } else {
            assert(e.waiting[f.waiting.len() as int] == b);
        }
    }
}

/// A block that fits stands whole in one piece, under its own heading.
pub proof fn blocks_that_fit_stay_whole(list: Seq<BlockView>, i: int)
    requires
        0 <= i < list.len(),
        list[i].text.len() <= 1200,
        !is_long_code(list[i]),
    ensures
        some_piece_with(chunking::pieces_of(list), list[i]),
{
    let e = chunking::take_blocks(list);
    let w = chunking::waiting_pieces(e.waiting);
    let none = Seq::<PieceView>::empty();
    lemma_taken_whole(list, i);
    lemma_waiting(list);
    if some_piece_with(e.pieces, list[i]) {
        lemma_some_piece(none, e.pieces, w, list[i]);
        assert(none + e.pieces + w =~= e.pieces + w);
    } else {
        let k = choose|k: int| 0 <= k < e.waiting.len() && e.waiting[k] == list[i];
        lemma_flushed_whole(e.waiting, k);
        lemma_some_piece(e.pieces, w, none, list[i]);
        assert(e.pieces + w + none =~= e.pieces + w);
    }
}

/// Every block of a note that fits stands whole in one of its chunks, under its heading.
pub proof fn a_note_is_found_block_by_block(path: Seq<char>, content: Seq<char>, i: int)
    requires
        ({
            let note = frontmatter::note_of(content);
            let list = blocks::blocks_of(note.body, note.first_line, None);
            0 <= i < list.len() && list[i].text.len() <= 1200 && !is_long_code(list[i])
        }),
    ensures
        ({
            let note = frontmatter::note_of(content);
            let b = blocks::blocks_of(note.body, note.first_line, None)[i];
            let chunks = chunking::note_chunks(path, content);
            exists|k: int|
                0 <= k < chunks.len() && text::has_sub((#[trigger] chunks[k]).body, b.text)
                    && chunks[k].heading_path == b.heading_path
        }),
{
    let note = frontmatter::note_of(content);
    let list = blocks::blocks_of(note.body, note.first_line, None);
    let chunks = chunking::note_chunks(path, content);
    let pieces = chunking::pieces_of(list);
    blocks_that_fit_stay_whole(list, i);
    let k = choose|k: int| 0 <= k < pieces.len() && is_piece_with(#[trigger] pieces[k], list[i]);
    assert(chunks[k].body == pieces[k].block.text);
}

// Long code.

/// Every part of long code is fenced, and holds the lines of the code from where the one
/// before ended.
pub proof fn code_parts_hold_their_lines(
    b: BlockView,
    opener: Seq<char>,
    closer: Seq<char>,
    lines: Seq<Seq<char>>,
    start: int,
    i: int,
)
    requires
        0 <= start <= lines.len(),
        0 <= i < splitting::code_parts(b, opener, closer, lines, start).len(),
    ensures
        ({
            let part = splitting::code_parts(b, opener, closer, lines, start)[i];
            let from = part.start_line - b.start_line;
            let to = part.end_line - b.start_line - 1;
            &&& start <= from < to <= lines.len()
            &&& to - from <= 48
            &&& part.text == opener + "\n"@ + text::joined(lines.subrange(from, to), "\n"@) + "\n"@ + closer
            &&& part.heading_path == b.heading_path
            &&& part.code_language == b.code_language
        }),
    decreases lines.len() - start,
{
    let end = splitting::part_end(lines, start, start, (opener.len() + closer.len() + 2) as int);
    if start < lines.len() {
        splitting::code_parts_are_short(lines, start, start, (opener.len() + closer.len() + 2) as int);
        lemma_part_end(lines, start, start, (opener.len() + closer.len() + 2) as int);
        if i > 0 {
            assert(splitting::code_parts(b, opener, closer, lines, start)[i] == splitting::code_parts(
                b,
                opener,
                closer,
                lines,
                end,
            )[i - 1]);
            code_parts_hold_their_lines(b, opener, closer, lines, end, i - 1);
        }
    }
}

proof fn lemma_part_end(lines: Seq<Seq<char>>, start: int, end: int, chars: int)
    requires
        start <= end <= lines.len(),
        end - start <= 48,
    ensures
        end <= splitting::part_end(lines, start, end, chars) <= lines.len(),
        splitting::part_end(lines, start, end, chars) - start <= 48,
    decreases lines.len() - end,
{
    if end < lines.len() && end - start < 48 {
        lemma_part_end(lines, start, end + 1, chars + lines[end].len() + 1);
    }
}

// Reading a note.

proof fn lemma_trimmed_whole(s: Seq<char>)
    requires
        s.len() > 0,
        !text::is_space(s[0]),
        !text::is_space(s[s.len() - 1]),
    ensures
        text::trimmed(s) == s,
{
    text::lemma_trim_start(s, 0);
    assert(s.skip(0) =~= s);
    text::lemma_trim_end(s, s.len() as int);
    assert(s.take(s.len() as int) =~= s);
}

/// A heading ends the block before it and opens a section: under the headings of higher rank
/// before it, and in place of the others. The first of the highest rank names the note.
#[verifier::rlimit(60)]
pub proof fn a_heading_opens_its_section(
    p: ParserView,
    hashes: Seq<char>,
    title: Seq<char>,
    line_no: int,
) -> (kept: int)
    requires
        p.fence is None,
        1 <= hashes.len() <= 6,
        forall|i: int| 0 <= i < hashes.len() ==> #[trigger] hashes[i] == '#',
        title.len() > 0,
        !text::is_space(title[0]) && !text::is_space(title[title.len() - 1]),
        title[0] != '#' && title[title.len() - 1] != '#',
    ensures
        ({
            let q = blocks::step(p, hashes + seq![' '] + title, line_no);
            &&& 0 <= kept <= p.headings.len()
            &&& q.headings == p.headings.take(kept).push((hashes.len(), title))
            &&& forall|i: int|
                kept <= i < p.headings.len() ==> (#[trigger] p.headings[i]).0 >= hashes.len()
            &&& kept > 0 ==> p.headings[kept - 1].0 < hashes.len()
            &&& q.current is None
            &&& q.blocks == blocks::flushed(p).blocks
            &&& q.fence is None
            &&& hashes.len() == 1 && p.document_title is None ==> q.document_title == Some(title)
            &&& hashes.len() > 1 || p.document_title is Some ==> q.document_title == p.document_title
        }),
{
    reveal_strlit("#");
    let n = hashes.len() as int;
    let line = hashes + seq![' '] + title;
    assert(line[0] == hashes[0]);
    assert(line[n] == ' ');
    assert(line[line.len() - 1] == title[title.len() - 1]);
    lemma_trimmed_whole(line);
    assert forall|i: int| 0 <= i < n implies (#[trigger] line[i]) == '#' by {
        assert(line[i] == hashes[i]);
    }
    blocks::lemma_lead(line, '#', n);
    let rest = line.skip(n);
    assert(rest =~= seq![' '] + title);
    text::lemma_trim_start(rest, 1);
    assert(rest.skip(1) =~= title);
    lemma_trimmed_whole(title);
    assert(text::trimmed(rest) == title) by {
        text::lemma_trim_end(title, title.len() as int);
        assert(title.take(title.len() as int) =~= title);
    }
    assert(!"#"@.contains(title[0])) by {
        if "#"@.contains(title[0]) {
            let k = choose|k: int| 0 <= k < "#"@.len() && "#"@[k] == title[0];
        }
    }
    assert(!"#"@.contains(title[title.len() - 1])) by {
        if "#"@.contains(title[title.len() - 1]) {
            let k = choose|k: int| 0 <= k < "#"@.len() && "#"@[k] == title[title.len() - 1];
        }
    }
    text::lemma_trim_set_start(title, "#"@, 0);
    assert(title.skip(0) =~= title);
    text::lemma_trim_set_end(title, "#"@, title.len() as int);
    assert(title.take(title.len() as int) =~= title);
    assert(blocks::heading_title(line) == title);
    let kept = lemma_outer(p.headings, hashes.len());
    assert(blocks::flushed(p).headings == p.headings);
    kept
}

proof fn lemma_outer(headings: Seq<(nat, Seq<char>)>, level: nat) -> (kept: int)
    ensures
        0 <= kept <= headings.len(),
        blocks::outer(headings, level) == headings.take(kept),
        forall|i: int| kept <= i < headings.len() ==> (#[trigger] headings[i]).0 >= level,
        kept > 0 ==> headings[kept - 1].0 < level,
    decreases headings.len(),
{
    if headings.len() > 0 && headings.last().0 >= level {
        let front = headings.drop_last();
        let kept = lemma_outer(front, level);
        assert(front.take(kept) =~= headings.take(kept));
        assert forall|i: int| kept <= i < headings.len() implies (#[trigger] headings[i]).0 >= level by {
            if i < front.len() {
                assert(front[i] == headings[i]);
            }
        }
        if kept > 0 {
            assert(front[kept - 1] == headings[kept - 1]);
        }
        kept
    } else {
        assert(headings.take(headings.len() as int) =~= headings);
        headings.len() as int
    }
}

/// A section is named by its heading behind those that it stands under.
pub proof fn sections_are_named_from_the_outside_in(headings: Seq<(nat, Seq<char>)>, level: nat, title: Seq<char>)
    ensures
        blocks::path(Seq::empty()) is None,
        headings.len() == 0 ==> blocks::path(headings.push((level, title))) == Some(title),
        headings.len() > 0 ==> blocks::path(headings.push((level, title))) == Some(
            blocks::path(headings)->0 + " / "@ + title,
        ),
{
    let all = headings.push((level, title));
    assert(blocks::titles(all).drop_last() =~= blocks::titles(headings));
}

/// A line of text goes into the open block or opens one under the headings at hand; nothing
/// that was read before is lost with it.
pub proof fn a_line_is_read_into_a_block(p: ParserView, line: Seq<char>, line_no: int)
    requires
        p.fence is None,
        blocks::opened(text::trimmed(line)) is None,
        !blocks::is_heading(text::trimmed(line)),
        !text::blank(line),
    ensures
        ({
            let q = blocks::step(p, line, line_no);
            let here = q.current->0;
            &&& q.current is Some
            &&& text::ends_with(here.text, line)
            &&& here.kind == blocks::kind_of(text::trimmed(line))
            &&& here.heading_path == blocks::path(p.headings)
            &&& here.end_line == line_no
            &&& q.headings == p.headings && q.document_title == p.document_title && q.fence is None
            &&& q.blocks == p.blocks || q.blocks == blocks::flushed(p).blocks
            &&& q.blocks == p.blocks && p.current is Some && p.current->0.text.len() > 0
                && blocks::flushed(p).blocks != p.blocks ==> here.text == p.current->0.text + "\n"@
                + line && here.start_line == p.current->0.start_line
        }),
{
    let q = blocks::step(p, line, line_no);
    let here = q.current->0;
    if p.current is Some && blocks::goes_on(
        p.current->0,
        blocks::kind_of(text::trimmed(line)),
        blocks::path(p.headings),
        None,
    ) && p.current->0.text.len() > 0 {
        let a = p.current->0.text + "\n"@;
        assert((a + line).subrange(a.len() as int, (a + line).len() as int) =~= line);
    } else {
        let none = Seq::<char>::empty();
        assert(none + line =~= line);
        assert(line.subrange(0, line.len() as int) =~= line);
        if p.current is Some {
            assert(p.current->0.text + line =~= line || p.current->0.text.len() > 0);
        }
    }
}

/// Lines between fences are code, whatever they look like: they are kept as they are, and no
/// heading among them counts.
pub proof fn fenced_lines_are_kept(p: ParserView, line: Seq<char>, line_no: int)
    requires
        p.fence is Some,
        !text::starts_with(text::trimmed(line), p.fence->0.marker),
    ensures
        ({
            let q = blocks::step(p, line, line_no);
            &&& q.headings == p.headings && q.fence == p.fence && q.document_title == p.document_title
            &&& q.current is Some
            &&& q.current->0.kind == BlockKind::Code
            &&& text::ends_with(q.current->0.text, line)
        }),
{
    let q = blocks::step(p, line, line_no);
    if p.current is Some && blocks::goes_on(
        p.current->0,
        BlockKind::Code,
        blocks::path(p.headings),
        p.fence->0.language,
    ) && p.current->0.text.len() > 0 {
        let a = p.current->0.text + "\n"@;
        assert((a + line).subrange(a.len() as int, (a + line).len() as int) =~= line);
    } else {
        let none = Seq::<char>::empty();
        assert(none + line =~= line);
        assert(line.subrange(0, line.len() as int) =~= line);
        if p.current is Some {
            assert(p.current->0.text + line =~= line || p.current->0.text.len() > 0);
        }
    }
}

/// A block is kept when it ends: lists, tables and code always, other text where it has eight
/// characters, or a sign of a path, a setting, a name or a number. A shorter one is not.
pub proof fn blocks_are_kept_when_they_end(p: ParserView, i: int)
    requires
        p.current is Some,
    ensures
        ({
            let b = p.current->0;
            let t = text::trimmed(b.text);
            let after = blocks::flushed(p);
            let kept = p.blocks.push(BlockView { text: t, ..b });
            let plain = b.kind == BlockKind::Text || b.kind == BlockKind::Quote;
            let sign = |c: char| c == '/' || c == '=' || c == '.' || c == '_' || '0' <= c <= '9';
            &&& after.current is None
            &&& after.headings == p.headings && after.fence == p.fence && after.document_title
                == p.document_title
            &&& t.len() > 0 && !plain ==> after.blocks == kept
            &&& t.len() >= 8 ==> after.blocks == kept
            &&& 0 <= i < t.len() && sign(t[i]) ==> after.blocks == kept
            &&& t.len() == 0 ==> after.blocks == p.blocks
            &&& plain && t.len() < 8 && (forall|k: int| 0 <= k < t.len() ==> !sign(#[trigger] t[k]))
                ==> after.blocks == p.blocks
        }),
{
    let t = text::trimmed(p.current->0.text);
    text::lemma_trimmed_is_clean(p.current->0.text);
    assert(text::trimmed(t) == t);
    if 0 <= i < t.len() {
        lemma_telling(t[i]);
        assert(blocks::is_telling(t[i]) ==> blocks::is_worth(t, p.current->0.kind));
    }
    assert forall|k: int| 0 <= k < t.len() implies blocks::is_telling(#[trigger] t[k]) == (t[k] == '/' || t[k]
        == '=' || t[k] == '.' || t[k] == '_' || '0' <= t[k] <= '9') by {
        lemma_telling(t[k]);
    }
}

proof fn lemma_telling(c: char)
    ensures
        blocks::is_telling(c) == (c == '/' || c == '=' || c == '.' || c == '_' || '0' <= c <= '9'),
{
}

/// What a line starts with says what it is: `>` a quote, bars around it a table, a bullet an
/// entry of a list.
pub proof fn lines_say_what_they_are(rest: Seq<char>)
    ensures
        blocks::kind_of(">"@ + rest) == BlockKind::Quote,
        blocks::kind_of("|"@ + rest + "|"@) == BlockKind::Table,
        blocks::kind_of("- "@ + rest) == BlockKind::List,
        blocks::kind_of("* "@ + rest) == BlockKind::List,
        blocks::kind_of("+ "@ + rest) == BlockKind::List,
{
    reveal_strlit(">");
    reveal_strlit("|");
    reveal_strlit("- ");
    reveal_strlit("* ");
    reveal_strlit("+ ");
    let a = ">"@ + rest;
    assert(a.subrange(0, 1) =~= ">"@);
    let b = "|"@ + rest + "|"@;
    assert(b.subrange(0, 1) =~= "|"@);
    assert(b.subrange(b.len() - 1, b.len() as int) =~= "|"@);
    assert(b.subrange(0, 1)[0] != ">"@[0]);
    let c = "- "@ + rest;
    assert(c.subrange(0, 2) =~= "- "@);
    assert(c.subrange(0, 1)[0] == '-');
    let d = "* "@ + rest;
    assert(d.subrange(0, 2) =~= "* "@);
    assert(d.subrange(0, 1)[0] == '*');
    let e = "+ "@ + rest;
    assert(e.subrange(0, 2) =~= "+ "@);
    assert(e.subrange(0, 1)[0] == '+');
}

/// A number and a dot start an entry of a list; three back quotes or tildes open a fence, with
/// the word behind them as its language.
pub proof fn entries_and_fences_are_seen(digits: Seq<char>, rest: Seq<char>, word: Seq<char>)
    requires
        digits.len() > 0,
        forall|i: int| 0 <= i < digits.len() ==> '0' <= #[trigger] digits[i] <= '9',
        word.len() > 0,
        forall|i: int| 0 <= i < word.len() ==> !text::is_space(#[trigger] word[i]),
        word[0] != '`',
    ensures
        blocks::kind_of(digits + seq!['.', ' '] + rest) == BlockKind::List,
        blocks::opened("```"@ + word) matches Some(f) && f.marker == "```"@ && f.language == Some(word),
        blocks::opened("```"@) matches Some(f) && f.marker == "```"@ && f.language is None,
        blocks::opened("~~~"@) matches Some(f) && f.marker == "~~~"@,
{
    reveal_strlit(". ");
    reveal_strlit(">");
    reveal_strlit("|");
    reveal_strlit("```");
    reveal_strlit("~~~");
    let line = digits + seq!['.', ' '] + rest;
    let n = digits.len() as int;
    lemma_telling(digits[0]);
    assert forall|i: int| 0 <= i < n implies text::is_digit(#[trigger] line[i]) by {
        assert(line[i] == digits[i]);
        lemma_telling(digits[i]);
        assert('0' <= digits[i] <= '9');
    }
    assert(line[n] == '.');
    text::lemma_digits_len(line, n);
    assert(line.skip(n).subrange(0, 2) =~= ". "@);
    assert(line[0] == digits[0]);
    assert(line.subrange(0, 1)[0] == line[0]);
    let fence = "```"@ + word;
    blocks::lemma_lead(fence, '`', 3);
    assert(fence.take(3) =~= "```"@);
    assert(fence.skip(3) =~= word);
    text::lemma_trim_start(word, 0);
    assert(word.skip(0) =~= word);
    text::lemma_word_len(word, word.len() as int);
    assert(word.take(word.len() as int) =~= word);
    assert(text::words(word)[0] == word);
    let bare = "```"@;
    blocks::lemma_lead(bare, '`', 3);
    assert(bare.take(3) =~= bare);
    let none = Seq::<char>::empty();
    assert(bare.skip(3) =~= none);
    assert(text::trim_start(none) =~= none);
    assert(text::words(none) =~= Seq::empty());
    let tildes = "~~~"@;
    blocks::lemma_lead(tildes, '~', 3);
    assert(tildes.take(3) =~= tildes);
}

// Sizes.

/// The characters of the blocks, with two more for the gap behind each.
pub open spec fn room_of(list: Seq<BlockView>) -> nat
    decreases list.len(),
{
    if list.len() == 0 {
        0
    } else {
        room_of(list.drop_last()) + list.last().text.len() + 2
    }
}

/// Short blocks of one section share a chunk, which goes from the first line of the first to
/// the last line of the last.
pub proof fn short_blocks_share_a_chunk(list: Seq<BlockView>)
    requires
        list.len() > 0,
        forall|i: int|
            0 <= i < list.len() ==> (#[trigger] list[i]).heading_path == list[0].heading_path && !is_long_code(
                list[i],
            ),
        room_of(list) <= 900,
    ensures
        chunking::pieces_of(list).len() == 1,
        chunking::pieces_of(list)[0].block.text == text::joined(
            Seq::new(list.len(), |i: int| list[i].text),
            "\n\n"@,
        ),
        chunking::pieces_of(list)[0].block.start_line == list[0].start_line,
        chunking::pieces_of(list)[0].block.end_line == list[list.len() - 1].end_line,
        chunking::pieces_of(list)[0].block.heading_path == list[0].heading_path,
        list.len() == 1 ==> chunking::pieces_of(list)[0].kind == list[0].kind,
{
    lemma_all_wait(list);
    lemma_joined_len(list);
    lemma_room(list);
    assert(chunking::texts(list) =~= Seq::new(list.len(), |i: int| list[i].text));
    let e = chunking::take_blocks(list);
    assert(chunking::pieces_of(list) =~= chunking::waiting_pieces(list));
}

proof fn lemma_room(list: Seq<BlockView>)
    ensures
        chunking::total_chars(list) == room_of(list),
    decreases list.len(),
{
    if list.len() > 0 {
        lemma_room(list.drop_last());
    }
}

proof fn lemma_all_wait(list: Seq<BlockView>)
    requires
        forall|i: int|
            0 <= i < list.len() ==> (#[trigger] list[i]).heading_path == list[0].heading_path && !is_long_code(
                list[i],
            ),
        room_of(list) <= 900,
    ensures
        chunking::take_blocks(list).pieces.len() == 0,
        chunking::take_blocks(list).waiting == list,
    decreases list.len(),
{
    if list.len() > 0 {
        let front = list.drop_last();
        assert forall|i: int| 0 <= i < front.len() implies (#[trigger] front[i]).heading_path
            == front[0].heading_path && !is_long_code(front[i]) by {
            assert(front[i] == list[i]);
        }
        lemma_all_wait(front);
        lemma_room(front);
        assert(list.last() == list[list.len() - 1]);
        assert(!is_long_code(list.last()));
        assert(front.push(list.last()) =~= list);
        if front.len() > 0 {
            assert(front[0] == list[0]);
        }
    } else {
        assert(chunking::take_blocks(list).waiting =~= list);
    }
}

/// No chunk of text, a list, a quote or a table is longer than 1600 characters.
pub proof fn chunks_are_short(list: Seq<BlockView>, i: int)
    requires
        0 <= i < chunking::pieces_of(list).len(),
        chunking::pieces_of(list)[i].kind != BlockKind::Code,
    ensures
        chunking::pieces_of(list)[i].block.text.len() <= 1600,
{
    lemma_short(list);
    let e = chunking::take_blocks(list);
    if i >= e.pieces.len() {
        lemma_waiting_short(e.waiting, i - e.pieces.len());
        assert(chunking::pieces_of(list)[i] == chunking::waiting_pieces(e.waiting)[i - e.pieces.len()]);
    }
}

proof fn lemma_waiting_short(waiting: Seq<BlockView>, i: int)
    requires
        0 <= i < chunking::waiting_pieces(waiting).len(),
    ensures
        ({
            let p = chunking::waiting_pieces(waiting)[i];
            p.kind == BlockKind::Code || p.block.text.len() <= 1600
        }),
{
    let body = text::joined(chunking::texts(waiting), "\n\n"@);
    if body.len() > 1200 && chunking::combined(waiting) != BlockKind::Code {
        splitting::parts_are_short(text::trimmed(body), 1600, i);
    }
}

proof fn lemma_short(list: Seq<BlockView>)
    ensures
        forall|i: int|
            0 <= i < chunking::take_blocks(list).pieces.len() ==> ((#[trigger] chunking::take_blocks(
                list,
            ).pieces[i]).kind == BlockKind::Code || chunking::take_blocks(list).pieces[i].block.text.len() <= 1600),
    decreases list.len(),
{
    if list.len() > 0 {
        let front = list.drop_last();
        lemma_short(front);
        let e = chunking::take_blocks(front);
        let all = chunking::take_blocks(list).pieces;
        let w = chunking::waiting_pieces(e.waiting);
        assert forall|i: int| 0 <= i < all.len() implies ((#[trigger] all[i]).kind == BlockKind::Code
            || all[i].block.text.len() <= 1600) by {
            if i < e.pieces.len() {
                assert(all[i] == e.pieces[i]);
            } else if i < e.pieces.len() + w.len() {
                lemma_waiting_short(e.waiting, i - e.pieces.len());
                assert(all[i] == w[i - e.pieces.len()]);
            }
        }
    }
}

// What a chunk tells.

/// The index reads of a chunk the path of its note, its title, its headings and its text, and
/// where it is no bare code or quote the words of the note's head.
pub proof fn the_index_reads_everything(p: PieceView, path: Seq<char>, head: frontmatter::HeadView, k: int)
    ensures
        ({
            let s = chunking::searchable(p, path, head);
            &&& text::has_sub(s, path)
            &&& text::ends_with(s, p.block.text)
            &&& p.block.heading_path matches Some(h) ==> text::has_sub(s, h)
            &&& p.block.document_title matches Some(t) ==> text::has_sub(s, t)
            &&& p.block.heading_path is Some && p.block.document_title is None ==> (head.title matches Some(t)
                ==> text::has_sub(s, t))
            &&& (p.block.heading_path is Some || p.kind == BlockKind::Text || p.kind == BlockKind::List) && 0 <= k
                < head.terms.len() ==> text::has_sub(s, head.terms[k])
        }),
{
    let title = if p.block.document_title is Some {
        p.block.document_title
    } else if chunking::carries_terms(p) {
        head.title
    } else {
        None
    };
    let words = if chunking::carries_terms(p) && head.terms.len() > 0 {
        Some(text::joined(head.terms, "\n"@))
    } else {
        None
    };
    let a = chunking::line_or_nothing(Some(path));
    let b = chunking::line_or_nothing(title);
    let c = chunking::line_or_nothing(p.block.heading_path);
    let d = chunking::line_or_nothing(words);
    let e = p.block.text;
    let s = chunking::searchable(p, path, head);
    assert(s == a + b + c + d + e);
    assert(s.subrange(s.len() - e.len(), s.len() as int) =~= e);
    lemma_line_has(path);
    lemma_in_five(a, b, c, d, e, path);
    if title is Some {
        lemma_line_has(title->0);
        lemma_in_five(a, b, c, d, e, title->0);
    }
    if p.block.heading_path is Some {
        lemma_line_has(p.block.heading_path->0);
        lemma_in_five(a, b, c, d, e, p.block.heading_path->0);
    }
    if words is Some && 0 <= k < head.terms.len() {
        let w = words->0;
        let t = head.terms[k];
        crate::text_laws::lemma_sub_whole(t);
        crate::text_laws::lemma_sub_of_row(head.terms, k, t);
        let none = Seq::<char>::empty();
        assert(d =~= none + w + "\n"@);
        lemma_sub_of_sum(none, w, "\n"@, t);
        lemma_in_five(a, b, c, d, e, t);
    }
}

proof fn lemma_line_has(s: Seq<char>)
    ensures
        text::has_sub(chunking::line_or_nothing(Some(s)), s),
{
    let none = Seq::<char>::empty();
    assert(s + "\n"@ =~= none + s + "\n"@);
    crate::text_laws::lemma_sub_between(none, s, "\n"@);
}

#[verifier::rlimit(60)]
proof fn lemma_in_five(
    a: Seq<char>,
    b: Seq<char>,
    c: Seq<char>,
    d: Seq<char>,
    e: Seq<char>,
    p: Seq<char>,
)
    requires
        text::has_sub(a, p) || text::has_sub(b, p) || text::has_sub(c, p) || text::has_sub(d, p),
    ensures
        text::has_sub(a + b + c + d + e, p),
{
    let none = Seq::<char>::empty();
    let s = a + b + c + d + e;
    if text::has_sub(a, p) {
        assert(s =~= none + a + (b + c + d + e));
        lemma_sub_of_sum(none, a, b + c + d + e, p);
    } else if text::has_sub(b, p) {
        assert(s =~= a + b + (c + d + e));
        lemma_sub_of_sum(a, b, c + d + e, p);
    } else if text::has_sub(c, p) {
        assert(s =~= (a + b) + c + (d + e));
        lemma_sub_of_sum(a + b, c, d + e, p);
    } else {
        lemma_sub_of_sum(a + b + c, d, e, p);
    }
}

/// A chunk tells where it stands in its note, and goes by the note's own title where it has
/// none.
pub proof fn chunks_tell_where_they_stand(p: PieceView, path: Seq<char>, head: frontmatter::HeadView, index: int)
    ensures
        ({
            let c = chunking::chunk_of(p, path, head, index);
            &&& c.relative_path == path
            &&& c.body == p.block.text
            &&& c.chunk_index == index
            &&& c.start_line == Some(p.block.start_line)
            &&& c.end_line == Some(p.block.end_line)
            &&& c.heading_path == p.block.heading_path
            &&& c.code_language == p.block.code_language
            &&& c.content_hash == terms::digest(p.block.text)
            &&& p.block.document_title is Some ==> c.document_title == p.block.document_title
            &&& p.block.document_title is None ==> c.document_title == head.title
        }),
{
}

/// Blocks with code among them are code, those with a table a table, and others text; one
/// block keeps its kind.
pub proof fn mixed_chunks_have_a_kind(list: Seq<BlockView>, k: int)
    requires
        list.len() > 1,
        0 <= k < list.len(),
    ensures
        list[k].kind == BlockKind::Code ==> chunking::combined(list) == BlockKind::Code,
        list[k].kind == BlockKind::Table ==> chunking::combined(list) == BlockKind::Code || chunking::combined(
            list,
        ) == BlockKind::Table,
        (forall|i: int| 0 <= i < list.len() ==> (#[trigger] list[i]).kind == BlockKind::Text) ==> chunking::combined(
            list,
        ) == BlockKind::Text,
        (forall|i: int| 0 <= i < list.len() ==> (#[trigger] list[i]).kind != BlockKind::Code) ==> chunking::combined(
            list,
        ) != BlockKind::Code,
{
}

} // verus!
