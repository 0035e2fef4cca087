//! Chunks of a note: neighbouring blocks under one heading, as long as they stay short, and
//! parts of what is too long. Each has a stable identifier and the text that the index holds.
use vstd::prelude::*;
use vstd::string::*;

use crate::knowledge::blocks;
use crate::knowledge::blocks::{BlockKind, BlockView, MarkdownBlock};
use crate::knowledge::frontmatter;
use crate::knowledge::frontmatter::HeadView;
use crate::knowledge::splitting;
use crate::knowledge::terms;
use crate::text;

verus! {

/// Changes whenever the same note gives other chunks, so that notes are indexed again.
pub const CHUNKING_VERSION: i64 = 4;

/// A chunk of this many characters takes no other block.
pub const TARGET_CHUNK_CHARS: usize = 900;

/// No block makes a chunk longer than this.
pub const SOFT_CHUNK_CHARS: usize = 1200;

/// No part of a longer text is longer than this.
pub const HARD_CHUNK_CHARS: usize = 1600;

#[derive(Debug)]
pub struct MarkdownChunk {
    pub chunk_id: String,
    pub relative_path: String,
    pub document_title: Option<String>,
    pub heading_path: Option<String>,
    pub chunk_index: usize,
    pub chunk_type: String,
    pub body: String,
    pub content_hash: String,
    pub start_line: Option<usize>,
    pub end_line: Option<usize>,
    pub code_language: Option<String>,
    pub search_text: String,
}

pub struct ChunkView {
    pub chunk_id: Seq<char>,
    pub relative_path: Seq<char>,
    pub document_title: Option<Seq<char>>,
    pub heading_path: Option<Seq<char>>,
    pub chunk_index: int,
    pub chunk_type: Seq<char>,
    pub body: Seq<char>,
    pub content_hash: Seq<char>,
    pub start_line: Option<int>,
    pub end_line: Option<int>,
    pub code_language: Option<Seq<char>>,
    pub search_text: Seq<char>,
}

pub open spec fn line_view(o: Option<usize>) -> Option<int> {
    match o {
        Some(n) => Some(n as int),
        None => None,
    }
}

impl MarkdownChunk {
    pub open spec fn shown(self) -> ChunkView {
        ChunkView {
            chunk_id: self.chunk_id@,
            relative_path: self.relative_path@,
            document_title: text::opt_view(self.document_title),
            heading_path: text::opt_view(self.heading_path),
            chunk_index: self.chunk_index as int,
            chunk_type: self.chunk_type@,
            body: self.body@,
            content_hash: self.content_hash@,
            start_line: line_view(self.start_line),
            end_line: line_view(self.end_line),
            code_language: text::opt_view(self.code_language),
            search_text: self.search_text@,
        }
    }
}

pub open spec fn shown_chunks(v: Seq<MarkdownChunk>) -> Seq<ChunkView> {
    Seq::new(v.len(), |i: int| v[i].shown())
}

// Identifiers.

pub open spec fn slug_char(c: char) -> char {
    if terms::is_alphanumeric(c) {
        text::ascii_lower(c)
    } else {
        '-'
    }
}

pub open spec fn slug_chars(s: Seq<char>) -> Seq<char> {
    Seq::new(s.len(), |i: int| slug_char(s[i]))
}

/// A path in letters, digits and dashes.
pub open spec fn slug(path: Seq<char>) -> Seq<char> {
    let t = text::trim_set(slug_chars(path), "-"@);
    if t.len() == 0 {
        "doc"@
    } else {
        t
    }
}

pub fn stable_path_id(path: &str) -> (r: String)
    ensures
        r@ == slug(path@),
{
    let v = text::chars_of(path);
    let mut out: Vec<char> = Vec::new();
    let mut i: usize = 0;
    while i < v.len()
        invariant
            0 <= i <= v@.len(),
            v@ == path@,
            out@ == slug_chars(path@).take(i as int),
        decreases v@.len() - i,
    {
        let c = v[i];
        if text::is_ascii_alphabetic(c) || text::is_ascii_digit(c) {
            out.push(text::lower_char(c));
        } else {
            out.push('-');
        }
        i += 1;
        assert(out@ =~= slug_chars(path@).take(i as int));
    }
    assert(out@ =~= slug_chars(path@));
    let all = text::string_of(&out);
    let t = text::trim_chars(all.as_str(), "-");
    if t.unicode_len() == 0 {
        "doc".to_owned()
    } else {
        t.to_owned()
    }
}

/// The number with at least four digits.
pub open spec fn four_digits(n: nat) -> Seq<char> {
    if n < 10 {
        "000"@ + text::decimal(n)
    } else if n < 100 {
        "00"@ + text::decimal(n)
    } else if n < 1000 {
        "0"@ + text::decimal(n)
    } else {
        ""@ + text::decimal(n)
    }
}

fn pad_index(n: usize) -> (r: String)
    ensures
        r@ == four_digits(n as nat),
{
    let mut s: String = if n < 10 {
        "000".to_owned()
    } else if n < 100 {
        "00".to_owned()
    } else if n < 1000 {
        "0".to_owned()
    } else {
        "".to_owned()
    };
    s.append(text::decimal_string(n as u64).as_str());
    s
}

/// Where a chunk is from, the how-manieth it is, and what it holds.
pub open spec fn chunk_id(path: Seq<char>, index: int, body: Seq<char>) -> Seq<char> {
    slug(path) + "-"@ + text::first_chars(terms::digest(path), 12) + ":"@ + four_digits(index as nat) + ":"@
        + text::first_chars(terms::digest(body), 12)
}

fn make_chunk_id(path: &str, index: usize, content_hash: &str) -> (r: String)
    ensures
        r@ == slug(path@) + "-"@ + text::first_chars(terms::digest(path@), 12) + ":"@ + four_digits(
            index as nat,
        ) + ":"@ + text::first_chars(content_hash@, 12),
{
    let mut s = stable_path_id(path);
    let path_hash = terms::hash_text(path);
    s.append("-");
    s.append(text::take_chars(path_hash.as_str(), 12));
    s.append(":");
    s.append(pad_index(index).as_str());
    s.append(":");
    s.append(text::take_chars(content_hash, 12));
    s
}

// Pieces.

/// What becomes one chunk: a block's place, its text, and what kind of text it is.
pub struct PieceView {
    pub block: BlockView,
    pub kind: BlockKind,
}

pub open spec fn has_kind(list: Seq<BlockView>, kind: BlockKind) -> bool {
    exists|i: int| 0 <= i < list.len() && (#[trigger] list[i]).kind == kind
}

/// The kind of several blocks: code if any is, else a table if any is, else text.
pub open spec fn combined(list: Seq<BlockView>) -> BlockKind {
    if list.len() == 1 {
        list[0].kind
    } else if has_kind(list, BlockKind::Code) {
        BlockKind::Code
    } else if has_kind(list, BlockKind::Table) {
        BlockKind::Table
    } else {
        BlockKind::Text
    }
}

fn any_of_kind(list: &Vec<MarkdownBlock>, kind: BlockKind) -> (r: bool)
    ensures
        r == has_kind(blocks::shown_blocks(list@), kind),
{
    let mut i: usize = 0;
    while i < list.len()
        invariant
            0 <= i <= list@.len(),
            forall|k: int| 0 <= k < i ==> (#[trigger] list@[k]).kind != kind,
        decreases list@.len() - i,
    {
        if list[i].kind == kind {
            assert(blocks::shown_blocks(list@)[i as int].kind == kind);
            return true;
        }
        i += 1;
    }
    assert forall|k: int| 0 <= k < list@.len() implies (#[trigger] blocks::shown_blocks(list@)[k]).kind != kind by {
        assert(list@[k].kind != kind);
    }
    false
}

pub fn combined_kind(list: &Vec<MarkdownBlock>) -> (r: BlockKind)
    ensures
        r == combined(blocks::shown_blocks(list@)),
{
    if list.len() == 1 {
        return list[0].kind;
    }
    if any_of_kind(list, BlockKind::Code) {
        BlockKind::Code
    } else if any_of_kind(list, BlockKind::Table) {
        BlockKind::Table
    } else {
        BlockKind::Text
    }
}

/// The characters of the blocks with the gaps behind them.
pub open spec fn total_chars(list: Seq<BlockView>) -> nat
    decreases list.len(),
{
    if list.len() == 0 {
        0
    } else {
        total_chars(list.drop_last()) + list.last().text.len() + 2
    }
}

/// Whether a block does not go into the chunk of those that wait.
pub open spec fn starts_chunk(waiting: Seq<BlockView>, next: BlockView) -> bool {
    waiting.len() > 0 && (waiting[0].heading_path != next.heading_path || total_chars(waiting)
        >= TARGET_CHUNK_CHARS || total_chars(waiting) + next.text.len() > SOFT_CHUNK_CHARS)
}

proof fn lemma_total_grows(list: Seq<BlockView>, i: int)
    requires
        0 <= i <= list.len(),
    ensures
        total_chars(list.take(i)) <= total_chars(list),
    decreases list.len() - i,
{
    if i == list.len() {
        assert(list.take(i) =~= list);
    } else {
        lemma_total_grows(list, i + 1);
        assert(list.take(i + 1).drop_last() =~= list.take(i));
    }
}

pub fn should_start_new_chunk(waiting: &Vec<MarkdownBlock>, next: &MarkdownBlock) -> (r: bool)
    ensures
        r == starts_chunk(blocks::shown_blocks(waiting@), next.shown()),
{
    let ghost list = blocks::shown_blocks(waiting@);
    if waiting.len() == 0 {
        return false;
    }
    assert(list[0] == waiting@[0].shown());
    if !text::same_option(&waiting[0].heading_path, &next.heading_path) {
        return true;
    }
    let mut total: usize = 0;
    let mut i: usize = 0;
    assert(list.take(0) =~= Seq::empty());
    while i < waiting.len()
        invariant
            0 <= i <= waiting@.len(),
            waiting@.len() > 0,
            list == blocks::shown_blocks(waiting@),
            total == total_chars(list.take(i as int)),
            total < TARGET_CHUNK_CHARS,
        decreases waiting@.len() - i,
    {
        let n: usize = waiting[i].text.as_str().unicode_len();
        proof {
            assert(list.take(i + 1).drop_last() =~= list.take(i as int));
            assert(list.take(i + 1).last() == waiting@[i as int].shown());
            lemma_total_grows(list, i + 1);
        }
        if n >= TARGET_CHUNK_CHARS || total + n + 2 >= TARGET_CHUNK_CHARS {
            return true;
        }
        total = total + n + 2;
        i += 1;
    }
    assert(list.take(i as int) =~= list);
    let n: usize = next.text.as_str().unicode_len();
    n > SOFT_CHUNK_CHARS || total + n > SOFT_CHUNK_CHARS
}

pub open spec fn texts(list: Seq<BlockView>) -> Seq<Seq<char>> {
    Seq::new(list.len(), |i: int| list[i].text)
}

/// The texts that the blocks that wait become.
pub open spec fn waiting_texts(list: Seq<BlockView>) -> Seq<Seq<char>> {
    let body = text::joined(texts(list), "\n\n"@);
    if body.len() > SOFT_CHUNK_CHARS && combined(list) != BlockKind::Code {
        splitting::parts(text::trimmed(body), HARD_CHUNK_CHARS as int)
    } else {
        seq![body]
    }
}

/// The pieces that the blocks that wait become.
pub open spec fn waiting_pieces(list: Seq<BlockView>) -> Seq<PieceView> {
    if list.len() == 0 {
        Seq::empty()
    } else {
        let parts = waiting_texts(list);
        Seq::new(
            parts.len(),
            |i: int|
                PieceView {
                    block: BlockView { text: parts[i], end_line: list.last().end_line, ..list[0] },
                    kind: combined(list),
                },
        )
    }
}

pub open spec fn code_pieces(b: BlockView) -> Seq<PieceView> {
    let parts = splitting::code_split(b);
    Seq::new(parts.len(), |i: int| PieceView { block: parts[i], kind: BlockKind::Code })
}

/// Pieces so far, and the blocks that wait.
pub struct EmitView {
    pub pieces: Seq<PieceView>,
    pub waiting: Seq<BlockView>,
}

/// Takes one more block. Code that is too long is cut on its own.
pub open spec fn take_block(e: EmitView, b: BlockView) -> EmitView {
    if b.kind == BlockKind::Code && splitting::is_oversized(b.text) {
        EmitView {
            pieces: e.pieces + waiting_pieces(e.waiting) + code_pieces(b),
            waiting: Seq::empty(),
        }
    } else if starts_chunk(e.waiting, b) {
        EmitView { pieces: e.pieces + waiting_pieces(e.waiting), waiting: seq![b] }
    } else {
        EmitView { waiting: e.waiting.push(b), ..e }
    }
}

pub open spec fn take_blocks(list: Seq<BlockView>) -> EmitView
    decreases list.len(),
{
    if list.len() == 0 {
        EmitView { pieces: Seq::empty(), waiting: Seq::empty() }
    } else {
        take_block(take_blocks(list.drop_last()), list.last())
    }
}

/// The pieces of the blocks of a note.
pub open spec fn pieces_of(list: Seq<BlockView>) -> Seq<PieceView> {
    let e = take_blocks(list);
    e.pieces + waiting_pieces(e.waiting)
}

// Chunks.

/// Whether the words of the note's head go with the piece.
pub open spec fn carries_terms(p: PieceView) -> bool {
    p.block.heading_path is Some || p.kind == BlockKind::Text || p.kind == BlockKind::List || p.kind
        == BlockKind::Table
}

pub open spec fn line_or_nothing(o: Option<Seq<char>>) -> Seq<char> {
    match o {
        Some(s) => s + "\n"@,
        None => ""@,
    }
}

/// What the index reads of a piece.
pub open spec fn searchable(p: PieceView, path: Seq<char>, head: HeadView) -> Seq<char> {
    let title = if p.block.document_title is Some {
        p.block.document_title
    } else if carries_terms(p) {
        head.title
    } else {
        None
    };
    let words = if carries_terms(p) && head.terms.len() > 0 {
        Some(text::joined(head.terms, "\n"@))
    } else {
        None
    };
    line_or_nothing(Some(path)) + line_or_nothing(title) + line_or_nothing(p.block.heading_path)
        + line_or_nothing(words) + p.block.text
}

/// The chunk that a piece becomes.
pub open spec fn chunk_of(p: PieceView, path: Seq<char>, head: HeadView, index: int) -> ChunkView {
    ChunkView {
        chunk_id: chunk_id(path, index, p.block.text),
        relative_path: path,
        document_title: if p.block.document_title is Some {
            p.block.document_title
        } else {
            head.title
        },
        heading_path: p.block.heading_path,
        chunk_index: index,
        chunk_type: blocks::kind_name(p.kind),
        body: p.block.text,
        content_hash: terms::digest(p.block.text),
        start_line: Some(p.block.start_line),
        end_line: Some(p.block.end_line),
        code_language: p.block.code_language,
        search_text: terms::index_text(searchable(p, path, head)),
    }
}

pub open spec fn chunks_of(pieces: Seq<PieceView>, path: Seq<char>, head: HeadView) -> Seq<ChunkView> {
    Seq::new(pieces.len(), |i: int| chunk_of(pieces[i], path, head, i))
}

/// The chunks of a note.
pub open spec fn note_chunks(path: Seq<char>, content: Seq<char>) -> Seq<ChunkView> {
    let note = frontmatter::note_of(content);
    chunks_of(pieces_of(blocks::blocks_of(note.body, note.first_line, None)), path, note.head)
}

fn line_text(o: &Option<String>) -> (r: String)
    ensures
        r@ == line_or_nothing(text::opt_view(*o)),
{
    match o {
        Some(s) => {
            let mut t = s.clone();
            t.append("\n");
            t
        },
        None => "".to_owned(),
    }
}

struct ChunkEmitter<'a> {
    relative_path: &'a str,
    frontmatter_terms: Vec<String>,
    frontmatter_title: Option<String>,
    chunks: Vec<MarkdownChunk>,
}

impl<'a> ChunkEmitter<'a> {
    spec fn head(self) -> HeadView {
        HeadView {
            title: text::opt_view(self.frontmatter_title),
            terms: text::views(self.frontmatter_terms@),
        }
    }

    spec fn same_note(self, other: Self) -> bool {
        self.relative_path == other.relative_path && self.head() == other.head()
    }

    /// The chunks are those of these pieces.
    spec fn holds(self, pieces: Seq<PieceView>) -> bool {
        shown_chunks(self.chunks@) == chunks_of(pieces, self.relative_path@, self.head())
    }

    fn push_chunk(&mut self, block: &MarkdownBlock, kind: BlockKind, Ghost(pieces): Ghost<Seq<PieceView>>)
        requires
            old(self).holds(pieces),
        ensures
            final(self).same_note(*old(self)),
            final(self).holds(pieces.push(PieceView { block: block.shown(), kind })),
    {
        let ghost p = PieceView { block: block.shown(), kind };
        let ghost path = self.relative_path@;
        let ghost head = self.head();
        assert(shown_chunks(self.chunks@).len() == pieces.len());
        let content_hash = terms::hash_text(block.text.as_str());
        let index: usize = self.chunks.len();
        let id = make_chunk_id(self.relative_path, index, content_hash.as_str());
        let carries = block.heading_path.is_some() || kind == BlockKind::Text || kind
            == BlockKind::List || kind == BlockKind::Table;
        let document_title = match &block.document_title {
            Some(t) => Some(t.clone()),
            None => text::copy_option(&self.frontmatter_title),
        };
        let title_line = match &block.document_title {
            Some(_) => line_text(&block.document_title),
            None => {
                if carries {
                    line_text(&self.frontmatter_title)
                } else {
                    "".to_owned()
                }
            },
        };
        assert(text::views(self.frontmatter_terms@).len() == self.frontmatter_terms@.len());
        let words_line = if carries && self.frontmatter_terms.len() > 0 {
            line_text(&Some(text::join(&self.frontmatter_terms, "\n")))
        } else {
            "".to_owned()
        };
        let mut all = line_text(&Some(self.relative_path.to_owned()));
        all.append(title_line.as_str());
        all.append(line_text(&block.heading_path).as_str());
        all.append(words_line.as_str());
        all.append(block.text.as_str());
        assert(all@ == searchable(p, path, head));
        let chunk = MarkdownChunk {
            chunk_id: id,
            relative_path: self.relative_path.to_owned(),
            document_title,
            heading_path: text::copy_option(&block.heading_path),
            chunk_index: index,
            chunk_type: kind.as_str().to_owned(),
            search_text: terms::build_index_text(all.as_str()),
            body: block.text.clone(),
            content_hash,
            start_line: Some(block.start_line),
            end_line: Some(block.end_line),
            code_language: text::copy_option(&block.code_language),
        };
        let ghost before = shown_chunks(self.chunks@);
        let ghost added = chunk.shown();
        self.chunks.push(chunk);
        proof {
            assert(added == chunk_of(p, path, head, index as int));
            assert(shown_chunks(self.chunks@) =~= before.push(added));
            assert(shown_chunks(self.chunks@) =~= chunks_of(pieces.push(p), path, head));
        }
    }

    fn flush_pending(&mut self, waiting: &Vec<MarkdownBlock>, Ghost(pieces): Ghost<Seq<PieceView>>)
        requires
            old(self).holds(pieces),
        ensures
            final(self).same_note(*old(self)),
            final(self).holds(pieces + waiting_pieces(blocks::shown_blocks(waiting@))),
    {
        let ghost list = blocks::shown_blocks(waiting@);
        if waiting.len() == 0 {
            assert(pieces + waiting_pieces(list) =~= pieces);
            return;
        }
        let mut bodies: Vec<String> = Vec::new();
        let mut i: usize = 0;
        while i < waiting.len()
            invariant
                0 <= i <= waiting@.len(),
                bodies@.len() == i,
                forall|k: int| 0 <= k < i ==> (#[trigger] bodies@[k])@ == waiting@[k].text@,
            decreases waiting@.len() - i,
        {
            bodies.push(waiting[i].text.clone());
            i += 1;
        }
        assert(text::views(bodies@) =~= texts(list));
        let body = text::join(&bodies, "\n\n");
        let kind = combined_kind(waiting);
        let n: usize = body.as_str().unicode_len();
        let parts: Vec<String> = if n > SOFT_CHUNK_CHARS && kind != BlockKind::Code {
            splitting::split_long_text(body.as_str(), HARD_CHUNK_CHARS)
        } else {
            let mut v: Vec<String> = Vec::new();
            let ghost b = body@;
            v.push(body);
            assert(text::views(v@) =~= seq![b]);
            v
        };
        let ghost goal = waiting_pieces(list);
        let last: usize = waiting.len() - 1;
        proof {
            assert(list[0] == waiting@[0].shown());
            assert(list.last() == waiting@[last as int].shown());
            assert(text::views(parts@) == waiting_texts(list));
            assert(text::views(parts@).len() == parts@.len());
            assert(pieces + goal.take(0) =~= pieces);
        }
        let mut j: usize = 0;
        while j < parts.len()
            invariant
                0 <= j <= parts@.len(),
                last == waiting@.len() - 1,
                list == blocks::shown_blocks(waiting@),
                list[0] == waiting@[0].shown(),
                list.last() == waiting@[last as int].shown(),
                list.len() > 0,
                text::views(parts@) == waiting_texts(list),
                goal == waiting_pieces(list),
                goal.len() == parts@.len(),
                kind == combined(list),
                self.same_note(*old(self)),
                self.holds(pieces + goal.take(j as int)),
            decreases parts@.len() - j,
        {
            let mut meta = waiting[0].clone();
            meta.text = parts[j].clone();
            meta.end_line = waiting[last].end_line;
            let ghost p = PieceView { block: meta.shown(), kind };
            proof {
                assert(text::views(parts@)[j as int] == parts@[j as int]@);
                assert(goal[j as int] == p);
                assert((pieces + goal.take(j as int)).push(p) =~= pieces + goal.take(j + 1));
            }
            self.push_chunk(&meta, kind, Ghost(pieces + goal.take(j as int)));
            j += 1;
        }
        assert(goal.take(j as int) =~= goal);
    }

    fn push_code(&mut self, block: &MarkdownBlock, Ghost(pieces): Ghost<Seq<PieceView>>)
        requires
            old(self).holds(pieces),
            block.start_line + block.text@.len() + 1 <= usize::MAX,
        ensures
            final(self).same_note(*old(self)),
            final(self).holds(pieces + code_pieces(block.shown())),
    {
        let parts = splitting::split_code_block(block);
        let ghost goal = code_pieces(block.shown());
        proof {
            assert(blocks::shown_blocks(parts@).len() == parts@.len());
            assert(pieces + goal.take(0) =~= pieces);
        }
        let mut j: usize = 0;
        while j < parts.len()
            invariant
                0 <= j <= parts@.len(),
                blocks::shown_blocks(parts@) == splitting::code_split(block.shown()),
                goal == code_pieces(block.shown()),
                goal.len() == parts@.len(),
                self.same_note(*old(self)),
                self.holds(pieces + goal.take(j as int)),
            decreases parts@.len() - j,
        {
            let ghost p = PieceView { block: parts@[j as int].shown(), kind: BlockKind::Code };
            proof {
                assert(blocks::shown_blocks(parts@)[j as int] == parts@[j as int].shown());
                assert(goal[j as int] == p);
                assert((pieces + goal.take(j as int)).push(p) =~= pieces + goal.take(j + 1));
            }
            self.push_chunk(&parts[j], BlockKind::Code, Ghost(pieces + goal.take(j as int)));
            j += 1;
        }
        assert(goal.take(j as int) =~= goal);
    }

    fn emit(&mut self, list: &Vec<MarkdownBlock>)
        requires
            old(self).holds(Seq::empty()),
            forall|i: int|
                0 <= i < list@.len() ==> (#[trigger] list@[i]).start_line + list@[i].text@.len() + 1
                    <= usize::MAX,
        ensures
            final(self).same_note(*old(self)),
            final(self).holds(pieces_of(blocks::shown_blocks(list@))),
    {
        let ghost all = blocks::shown_blocks(list@);
        let mut waiting: Vec<MarkdownBlock> = Vec::new();
        let mut i: usize = 0;
        proof {
            assert(all.take(0) =~= Seq::empty());
            assert(blocks::shown_blocks(waiting@) =~= Seq::empty());
        }
        while i < list.len()
            invariant
                0 <= i <= list@.len(),
                all == blocks::shown_blocks(list@),
                forall|k: int|
                    0 <= k < list@.len() ==> (#[trigger] list@[k]).start_line
                        + list@[k].text@.len() + 1 <= usize::MAX,
                self.same_note(*old(self)),
                self.holds(take_blocks(all.take(i as int)).pieces),
                blocks::shown_blocks(waiting@) == take_blocks(all.take(i as int)).waiting,
            decreases list@.len() - i,
        {
            let ghost e = take_blocks(all.take(i as int));
            proof {
                assert(all.take(i + 1).drop_last() =~= all.take(i as int));
                assert(all.take(i + 1).last() == list@[i as int].shown());
            }
            let block = &list[i];
            if block.kind == BlockKind::Code && splitting::oversized_code_block(block) {
                self.flush_pending(&waiting, Ghost(e.pieces));
                self.push_code(block, Ghost(e.pieces + waiting_pieces(e.waiting)));
                waiting = Vec::new();
                assert(blocks::shown_blocks(waiting@) =~= Seq::empty());
            } else {
                if should_start_new_chunk(&waiting, block) {
                    self.flush_pending(&waiting, Ghost(e.pieces));
                    waiting = Vec::new();
                    waiting.push(block.clone());
                    assert(blocks::shown_blocks(waiting@) =~= seq![block.shown()]);
                } else {
                    let ghost before = blocks::shown_blocks(waiting@);
                    waiting.push(block.clone());
                    assert(blocks::shown_blocks(waiting@) =~= before.push(block.shown()));
                }
            }
            i += 1;
        }
        assert(all.take(i as int) =~= all);
        self.flush_pending(&waiting, Ghost(take_blocks(all).pieces));
    }
}

/// The chunks of a note. No text is longer than `isize::MAX` bytes.
pub fn chunk_markdown(relative_path: &str, content: &str) -> (r: Vec<MarkdownChunk>)
    requires
        content@.len() <= isize::MAX,
    ensures
        shown_chunks(r@) == note_chunks(relative_path@, content@),
{
    let note = frontmatter::strip_frontmatter(content);
    let list = blocks::parse_blocks_with_title(note.body.as_str(), note.body_start_line, None);
    let mut emitter = ChunkEmitter {
        relative_path,
        frontmatter_terms: note.metadata.search_terms,
        frontmatter_title: note.metadata.title,
        chunks: Vec::new(),
    };
    proof {
        assert(shown_chunks(emitter.chunks@) =~= chunks_of(
            Seq::empty(),
            relative_path@,
            emitter.head(),
        ));
        assert forall|i: int| 0 <= i < list@.len() implies (#[trigger] list@[i]).start_line
            + list@[i].text@.len() + 1 <= usize::MAX by {
            assert(blocks::is_within(
                list@[i].shown(),
                note.body_start_line + note.body@.len() + 1,
            ));
        }
    }
    emitter.emit(&list);
    emitter.chunks
}

// Laws.

/// The chunks of a note are numbered in order and carry its path.
pub proof fn chunks_are_numbered(path: Seq<char>, content: Seq<char>, i: int)
    requires
        0 <= i < note_chunks(path, content).len(),
    ensures
        note_chunks(path, content)[i].chunk_index == i,
        note_chunks(path, content)[i].relative_path == path,
        note_chunks(path, content)[i].content_hash == terms::digest(
            note_chunks(path, content)[i].body,
        ),
{
}

proof fn lemma_four_digits(n: nat)
    ensures
        text::digits_value(four_digits(n)) == n,
        forall|i: int| 0 <= i < four_digits(n).len() ==> #[trigger] four_digits(n)[i] != ':',
{
    reveal_strlit("000");
    reveal_strlit("00");
    reveal_strlit("0");
    reveal_strlit("");
    let zeros = if n < 10 {
        "000"@
    } else if n < 100 {
        "00"@
    } else if n < 1000 {
        "0"@
    } else {
        ""@
    };
    text::lemma_decimal(zeros, n);
    assert forall|i: int| 0 <= i < four_digits(n).len() implies #[trigger] four_digits(n)[i] != ':' by {
        if i >= zeros.len() {
            assert(four_digits(n)[i] == text::decimal(n)[i - zeros.len()]);
        }
    }
}

/// No two chunks of a note have the same identifier, whatever they hold.
pub proof fn chunk_identifiers_differ(path: Seq<char>, content: Seq<char>, i: int, j: int)
    requires
        0 <= i < j < note_chunks(path, content).len(),
    ensures
        note_chunks(path, content)[i].chunk_id != note_chunks(path, content)[j].chunk_id,
{
    reveal_strlit(":");
    let head = slug(path) + "-"@ + text::first_chars(terms::digest(path), 12) + ":"@;
    let x = note_chunks(path, content)[i];
    let y = note_chunks(path, content)[j];
    let a = four_digits(i as nat);
    let b = four_digits(j as nat);
    let p = a + ":"@ + text::first_chars(terms::digest(x.body), 12);
    let q = b + ":"@ + text::first_chars(terms::digest(y.body), 12);
    assert(x.chunk_id =~= head + p);
    assert(y.chunk_id =~= head + q);
    lemma_four_digits(i as nat);
    lemma_four_digits(j as nat);
    if x.chunk_id == y.chunk_id {
        assert((head + p).skip(head.len() as int) =~= p);
        assert((head + q).skip(head.len() as int) =~= q);
        assert(p == q);
        if a.len() < b.len() {
            assert(p[a.len() as int] == ':');
            assert(q[a.len() as int] == b[a.len() as int]);
        } else if b.len() < a.len() {
            assert(q[b.len() as int] == ':');
            assert(p[b.len() as int] == a[b.len() as int]);
        } else {
            assert(p.take(a.len() as int) =~= a);
            assert(q.take(b.len() as int) =~= b);
        }
    }
}

/// Blocks under different headings never share a chunk.
pub proof fn a_chunk_stays_under_one_heading(list: Seq<BlockView>, i: int)
    requires
        0 <= i < take_blocks(list).waiting.len(),
    ensures
        take_blocks(list).waiting[i].heading_path == take_blocks(list).waiting[0].heading_path,
    decreases list.len(),
{
    if list.len() > 0 {
        let e = take_blocks(list.drop_last());
        let b = list.last();
        if !(b.kind == BlockKind::Code && splitting::is_oversized(b.text)) && !starts_chunk(
            e.waiting,
            b,
        ) {
            if i < e.waiting.len() {
                a_chunk_stays_under_one_heading(list.drop_last(), i);
            }
        }
    }
}

} // verus!
