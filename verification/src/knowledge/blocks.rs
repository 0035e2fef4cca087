//! Blocks of a note: paragraphs, lists, quotes, tables and fenced code, each with the headings
//! that it stands under and the lines that it takes.
use vstd::prelude::*;
use vstd::string::*;

use crate::text;

verus! {

#[derive(Debug, Clone, Copy, PartialEq, Eq, Structural)]
pub enum BlockKind {
    Text,
    List,
    Quote,
    Code,
    Table,
}

pub open spec fn kind_name(kind: BlockKind) -> Seq<char> {
    match kind {
        BlockKind::Text => "text"@,
        BlockKind::List => "list"@,
        BlockKind::Quote => "quote"@,
        BlockKind::Code => "code"@,
        BlockKind::Table => "table"@,
    }
}

impl BlockKind {
    pub fn as_str(self) -> (r: &'static str)
        ensures
            r@ == kind_name(self),
    {
        match self {
            BlockKind::Text => "text",
            BlockKind::List => "list",
            BlockKind::Quote => "quote",
            BlockKind::Code => "code",
            BlockKind::Table => "table",
        }
    }
}

#[derive(Debug)]
pub struct MarkdownBlock {
    pub kind: BlockKind,
    pub text: String,
    pub start_line: usize,
    pub end_line: usize,
    pub document_title: Option<String>,
    pub heading_path: Option<String>,
    pub code_language: Option<String>,
}

pub struct BlockView {
    pub kind: BlockKind,
    pub text: Seq<char>,
    pub start_line: int,
    pub end_line: int,
    pub document_title: Option<Seq<char>>,
    pub heading_path: Option<Seq<char>>,
    pub code_language: Option<Seq<char>>,
}

impl MarkdownBlock {
    pub open spec fn shown(self) -> BlockView {
        BlockView {
            kind: self.kind,
            text: self.text@,
            start_line: self.start_line as int,
            end_line: self.end_line as int,
            document_title: text::opt_view(self.document_title),
            heading_path: text::opt_view(self.heading_path),
            code_language: text::opt_view(self.code_language),
        }
    }
}

impl Clone for MarkdownBlock {
    fn clone(&self) -> (r: Self)
        ensures
            r == *self,
    {
        MarkdownBlock {
            kind: self.kind,
            text: self.text.clone(),
            start_line: self.start_line,
            end_line: self.end_line,
            document_title: text::copy_option(&self.document_title),
            heading_path: text::copy_option(&self.heading_path),
            code_language: text::copy_option(&self.code_language),
        }
    }
}

pub open spec fn shown_blocks(v: Seq<MarkdownBlock>) -> Seq<BlockView> {
    Seq::new(v.len(), |i: int| v[i].shown())
}

// Lines.

/// The number of characters `c` at the start of the text.
pub open spec fn lead(s: Seq<char>, c: char) -> nat
    decreases s.len(),
{
    if s.len() == 0 || s[0] != c {
        0
    } else {
        1 + lead(s.skip(1), c)
    }
}

pub proof fn lemma_lead(s: Seq<char>, c: char, k: int)
    requires
        0 <= k <= s.len(),
        forall|i: int| 0 <= i < k ==> (#[trigger] s[i]) == c,
        k < s.len() ==> s[k] != c,
    ensures
        lead(s, c) == k,
    decreases k,
{
    if k > 0 {
        let t = s.skip(1);
        assert forall|i: int| 0 <= i < k - 1 implies (#[trigger] t[i]) == c by {
            assert(t[i] == s[i + 1]);
        }
        lemma_lead(t, c, k - 1);
    }
}

fn count_lead(v: &Vec<char>, c: char) -> (r: usize)
    ensures
        r <= v@.len(),
        r == lead(v@, c),
{
    let mut i: usize = 0;
    while i < v.len() && v[i] == c
        invariant
            0 <= i <= v@.len(),
            forall|k: int| 0 <= k < i ==> (#[trigger] v@[k]) == c,
        decreases v@.len() - i,
    {
        i += 1;
    }
    proof {
        lemma_lead(v@, c, i as int);
    }
    i
}

/// Whether the line is a heading: one to six `#` and white space.
pub open spec fn is_heading(line: Seq<char>) -> bool {
    let n = lead(line, '#') as int;
    1 <= n <= 6 && n < line.len() && text::is_space(line[n])
}

pub fn is_markdown_heading(line: &str) -> (r: bool)
    ensures
        r == is_heading(line@),
{
    let v = text::chars_of(line);
    let n = count_lead(&v, '#');
    1 <= n && n <= 6 && n < v.len() && text::is_whitespace(v[n])
}

/// The words of a heading, without `#` around them.
pub open spec fn heading_title(line: Seq<char>) -> Seq<char> {
    text::trimmed(text::trim_set(text::trimmed(line.skip(lead(line, '#') as int)), "#"@))
}

/// Whether the line is an entry of a list: a bullet, or a number and a dot.
pub open spec fn is_entry(line: Seq<char>) -> bool {
    let n = text::digits_len(line) as int;
    ||| text::starts_with(line, "- "@)
    ||| text::starts_with(line, "* "@)
    ||| text::starts_with(line, "+ "@)
    ||| n > 0 && text::starts_with(line.skip(n), ". "@)
}

pub fn is_list_line(line: &str) -> (r: bool)
    ensures
        r == is_entry(line@),
{
    if text::has_prefix(line, "- ") || text::has_prefix(line, "* ") || text::has_prefix(line, "+ ") {
        return true;
    }
    let v = text::chars_of(line);
    let mut n: usize = 0;
    while n < v.len() && text::is_ascii_digit(v[n])
        invariant
            0 <= n <= v@.len(),
            v@ == line@,
            forall|k: int| 0 <= k < n ==> text::is_digit(#[trigger] line@[k]),
        decreases v@.len() - n,
    {
        n += 1;
    }
    proof {
        text::lemma_digits_len(line@, n as int);
    }
    if n == 0 {
        return false;
    }
    let rest = text::slice_of(&v, n, v.len());
    assert(rest@ =~= line@.skip(n as int));
    text::has_prefix(rest.as_str(), ". ")
}

pub open spec fn kind_of(line: Seq<char>) -> BlockKind {
    if text::starts_with(line, ">"@) {
        BlockKind::Quote
    } else if text::starts_with(line, "|"@) && text::ends_with(line, "|"@) {
        BlockKind::Table
    } else if is_entry(line) {
        BlockKind::List
    } else {
        BlockKind::Text
    }
}

pub fn classify_line(line: &str) -> (r: BlockKind)
    ensures
        r == kind_of(line@),
{
    if text::has_prefix(line, ">") {
        BlockKind::Quote
    } else if text::has_prefix(line, "|") && text::has_suffix(line, "|") {
        BlockKind::Table
    } else if is_list_line(line) {
        BlockKind::List
    } else {
        BlockKind::Text
    }
}

pub open spec fn is_telling(c: char) -> bool {
    c == '/' || c == '=' || c == '.' || c == '_' || text::is_digit(c)
}

/// Whether there is something to find in the text: a short paragraph or quote counts only
/// with a sign of a path, a setting, a name or a number.
pub open spec fn is_worth(s: Seq<char>, kind: BlockKind) -> bool {
    let t = text::trimmed(s);
    &&& t.len() > 0
    &&& {
        ||| kind == BlockKind::Code || kind == BlockKind::List || kind == BlockKind::Table
        ||| t.len() >= 8
        ||| exists|i: int| 0 <= i < t.len() && is_telling(#[trigger] t[i])
    }
}

pub fn has_retrievable_content(s: &str, kind: BlockKind) -> (r: bool)
    ensures
        r == is_worth(s@, kind),
{
    let t = text::trim(s);
    let v = text::chars_of(t);
    if v.len() == 0 {
        return false;
    }
    if kind == BlockKind::Code || kind == BlockKind::List || kind == BlockKind::Table || v.len() >= 8 {
        return true;
    }
    let mut i: usize = 0;
    while i < v.len()
        invariant
            0 <= i <= v@.len(),
            v@ == t@,
            t@ == text::trimmed(s@),
            forall|k: int| 0 <= k < i ==> !is_telling(#[trigger] t@[k]),
        decreases v@.len() - i,
    {
        let c = v[i];
        if c == '/' || c == '=' || c == '.' || c == '_' || text::is_ascii_digit(c) {
            assert(is_telling(t@[i as int]));
            return true;
        }
        i += 1;
    }
    false
}

// Fences.

/// The start of a stretch of code: its mark, and the language that it names.
#[derive(Debug)]
pub struct CodeFence {
    pub marker: String,
    pub language: Option<String>,
}

pub struct FenceView {
    pub marker: Seq<char>,
    pub language: Option<Seq<char>>,
}

impl CodeFence {
    pub open spec fn shown(self) -> FenceView {
        FenceView { marker: self.marker@, language: text::opt_view(self.language) }
    }
}

pub open spec fn shown_fence(o: Option<CodeFence>) -> Option<FenceView> {
    match o {
        Some(f) => Some(f.shown()),
        None => None,
    }
}

pub open spec fn first_word(s: Seq<char>) -> Option<Seq<char>> {
    if text::words(s).len() > 0 {
        Some(text::words(s)[0])
    } else {
        None
    }
}

/// The fence that a line opens: three or more back quotes or tildes.
pub open spec fn opened(line: Seq<char>) -> Option<FenceView> {
    if line.len() == 0 || !(line[0] == '`' || line[0] == '~') {
        None
    } else {
        let n = lead(line, line[0]) as int;
        if n < 3 {
            None
        } else {
            Some(FenceView { marker: line.take(n), language: first_word(line.skip(n)) })
        }
    }
}

/// Whether the line closes the fence.
pub open spec fn closes(f: FenceView, line: Seq<char>) -> bool {
    text::starts_with(line, f.marker)
}

impl CodeFence {
    pub fn open(line: &str) -> (r: Option<Self>)
        ensures
            shown_fence(r) == opened(line@),
    {
        let v = text::chars_of(line);
        if v.len() == 0 {
            return None;
        }
        let c = v[0];
        if c != '`' && c != '~' {
            return None;
        }
        let n = count_lead(&v, c);
        if n < 3 {
            return None;
        }
        let marker = text::slice_of(&v, 0, n);
        let rest = text::slice_of(&v, n, v.len());
        assert(marker@ =~= line@.take(n as int));
        assert(rest@ =~= line@.skip(n as int));
        let words = text::split_words(rest.as_str());
        let language = if words.len() > 0 {
            assert(text::views(words@)[0] == words@[0]@);
            Some(words[0].clone())
        } else {
            assert(text::views(words@).len() == 0);
            None
        };
        Some(CodeFence { marker, language })
    }

    pub fn is_closed_by(&self, line: &str) -> (r: bool)
        ensures
            r == closes(self.shown(), line@),
    {
        text::has_prefix(line, self.marker.as_str())
    }
}

// Reading.

/// What was read so far.
pub struct ParserView {
    pub document_title: Option<Seq<char>>,
    /// The headings that the next line stands under, with their levels.
    pub headings: Seq<(nat, Seq<char>)>,
    pub current: Option<BlockView>,
    pub blocks: Seq<BlockView>,
    pub fence: Option<FenceView>,
}

pub open spec fn nothing_read(document_title: Option<Seq<char>>) -> ParserView {
    ParserView {
        document_title,
        headings: Seq::empty(),
        current: None,
        blocks: Seq::empty(),
        fence: None,
    }
}

pub open spec fn titles(headings: Seq<(nat, Seq<char>)>) -> Seq<Seq<char>> {
    Seq::new(headings.len(), |i: int| headings[i].1)
}

/// The headings from the outside in.
pub open spec fn path(headings: Seq<(nat, Seq<char>)>) -> Option<Seq<char>> {
    if headings.len() == 0 {
        None
    } else {
        Some(text::joined(titles(headings), " / "@))
    }
}

/// Ends the open block; it is kept where there is something to find in it.
pub open spec fn flushed(p: ParserView) -> ParserView {
    match p.current {
        None => p,
        Some(b) => {
            let t = text::trimmed(b.text);
            ParserView {
                current: None,
                blocks: if is_worth(t, b.kind) {
                    p.blocks.push(BlockView { text: t, ..b })
                } else {
                    p.blocks
                },
                ..p
            }
        },
    }
}

/// Whether a line of this kind goes on with the block.
pub open spec fn goes_on(b: BlockView, kind: BlockKind, heading_path: Option<Seq<char>>, language: Option<Seq<char>>) -> bool {
    &&& b.kind == kind
    &&& b.heading_path == heading_path
    &&& kind != BlockKind::Code || b.code_language == language
}

/// The block with another line.
pub open spec fn with_line(b: BlockView, line: Seq<char>, line_no: int) -> BlockView {
    BlockView {
        text: if b.text.len() > 0 {
            b.text + "\n"@ + line
        } else {
            b.text + line
        },
        end_line: line_no,
        ..b
    }
}

/// Puts a line into the open block, or into a new one.
pub open spec fn pushed(
    p: ParserView,
    line: Seq<char>,
    line_no: int,
    kind: BlockKind,
    language: Option<Seq<char>>,
) -> ParserView {
    let here = path(p.headings);
    if p.current is Some && goes_on(p.current->0, kind, here, language) {
        ParserView { current: Some(with_line(p.current->0, line, line_no)), ..p }
    } else {
        let b = BlockView {
            kind,
            text: Seq::empty(),
            start_line: line_no,
            end_line: line_no,
            document_title: p.document_title,
            heading_path: here,
            code_language: language,
        };
        ParserView { current: Some(with_line(b, line, line_no)), ..flushed(p) }
    }
}

/// The headings that stay when one of this level comes: those of higher rank.
pub open spec fn outer(headings: Seq<(nat, Seq<char>)>, level: nat) -> Seq<(nat, Seq<char>)>
    decreases headings.len(),
{
    if headings.len() > 0 && headings.last().0 >= level {
        outer(headings.drop_last(), level)
    } else {
        headings
    }
}

/// Goes under another heading. The first of the highest rank names the note.
pub open spec fn under(p: ParserView, line: Seq<char>) -> ParserView {
    let level = lead(line, '#');
    let title = heading_title(line);
    if title.len() == 0 {
        p
    } else {
        ParserView {
            document_title: if level == 1 && p.document_title is None {
                Some(title)
            } else {
                p.document_title
            },
            headings: outer(p.headings, level).push((level, title)),
            ..p
        }
    }
}

/// Reads one line.
pub open spec fn step(p: ParserView, line: Seq<char>, line_no: int) -> ParserView {
    let t = text::trimmed(line);
    match p.fence {
        Some(f) => {
            let q = pushed(p, line, line_no, BlockKind::Code, f.language);
            if closes(f, t) {
                ParserView { fence: None, ..flushed(q) }
            } else {
                q
            }
        },
        None => match opened(t) {
            Some(f) => pushed(
                ParserView { fence: Some(f), ..flushed(p) },
                line,
                line_no,
                BlockKind::Code,
                f.language,
            ),
            None => if is_heading(t) {
                under(flushed(p), t)
            } else if t.len() == 0 {
                flushed(p)
            } else {
                pushed(p, line, line_no, kind_of(t), None)
            },
        },
    }
}

/// Reads the lines, of which the first has the number `start`.
pub open spec fn steps(p: ParserView, lines: Seq<Seq<char>>, start: int) -> ParserView
    decreases lines.len(),
{
    if lines.len() == 0 {
        p
    } else {
        step(steps(p, lines.drop_last(), start), lines.last(), start + lines.len() - 1)
    }
}

/// The blocks of a text whose first line has the number `start`.
pub open spec fn blocks_of(content: Seq<char>, start: int, document_title: Option<Seq<char>>) -> Seq<BlockView> {
    flushed(steps(nothing_read(document_title), text::lines(content), start)).blocks
}

/// The characters that the lines take, with their ends.
pub open spec fn taken(lines: Seq<Seq<char>>) -> nat
    decreases lines.len(),
{
    if lines.len() == 0 {
        0
    } else {
        taken(lines.drop_last()) + lines.last().len() + 1
    }
}

proof fn lemma_taken_first(line: Seq<char>, rest: Seq<Seq<char>>)
    ensures
        taken(seq![line] + rest) == line.len() + 1 + taken(rest),
    decreases rest.len(),
{
    let all = seq![line] + rest;
    if rest.len() == 0 {
        assert(all.drop_last() =~= Seq::empty());
        assert(all.last() == line);
        assert(taken(all.drop_last()) == 0);
        assert(taken(rest) == 0);
    } else {
        assert(all.drop_last() =~= seq![line] + rest.drop_last());
        assert(all.last() == rest.last());
        lemma_taken_first(line, rest.drop_last());
    }
}

pub proof fn lemma_taken(s: Seq<char>)
    ensures
        taken(text::lines(s)) <= s.len() + 1,
        s.len() == 0 ==> taken(text::lines(s)) == 0,
        text::lines(s).len() <= s.len(),
    decreases s.len(),
{
    let k = text::line_len(s) as int;
    text::lemma_line_len_bound(s);
    if s.len() == 0 {
    } else if k >= s.len() {
        assert(text::lines(s) =~= seq![s]);
        assert(text::lines(s).drop_last() =~= Seq::empty());
        assert(taken(text::lines(s).drop_last()) == 0);
    } else {
        lemma_taken(s.skip(k + 1));
        lemma_taken_first(text::chomped(s.take(k)), text::lines(s.skip(k + 1)));
    }
}

proof fn lemma_taken_prefix(lines: Seq<Seq<char>>, i: int)
    requires
        0 <= i <= lines.len(),
    ensures
        taken(lines.take(i)) <= taken(lines),
        i <= taken(lines.take(i)),
    decreases lines.len(),
{
    if i == lines.len() {
        assert(lines.take(i) =~= lines);
        if i > 0 {
            lemma_taken_prefix(lines.drop_last(), i - 1);
            assert(lines.drop_last().take(i - 1) =~= lines.drop_last());
        }
    } else {
        lemma_taken_prefix(lines.drop_last(), i);
        assert(lines.drop_last().take(i) =~= lines.take(i));
    }
}

/// Whether the lines that a block takes are within the text that was read.
pub open spec fn is_within(b: BlockView, bound: int) -> bool {
    b.start_line + b.text.len() <= bound
}

pub open spec fn all_within(p: ParserView, bound: int) -> bool {
    &&& p.current is Some ==> is_within(p.current->0, bound)
    &&& forall|i: int| 0 <= i < p.blocks.len() ==> is_within(#[trigger] p.blocks[i], bound)
}

proof fn lemma_trimmed_len(s: Seq<char>)
    ensures
        text::trimmed(s).len() <= s.len(),
{
    text::lemma_trim_start_len(s);
    let t = text::trim_start(s);
    lemma_trim_end_len(t);
}

proof fn lemma_trim_end_len(s: Seq<char>)
    ensures
        text::trim_end(s).len() <= s.len(),
    decreases s.len(),
{
    if s.len() > 0 && text::is_space(s.last()) {
        lemma_trim_end_len(s.drop_last());
    }
}

proof fn lemma_flushed_within(p: ParserView, bound: int)
    requires
        all_within(p, bound),
    ensures
        all_within(flushed(p), bound),
{
    if p.current is Some {
        lemma_trimmed_len(p.current->0.text);
    }
}

proof fn lemma_step_within(p: ParserView, line: Seq<char>, line_no: int, bound: int)
    requires
        all_within(p, bound),
        line_no <= bound,
    ensures
        all_within(step(p, line, line_no), bound + line.len() + 1),
{
    reveal_strlit("\n");
    let wider = bound + line.len() + 1;
    let t = text::trimmed(line);
    lemma_flushed_within(p, bound);
    assert(all_within(flushed(p), wider));
    match p.fence {
        Some(f) => {
            let q = pushed(p, line, line_no, BlockKind::Code, f.language);
            assert(all_within(q, wider));
            lemma_flushed_within(q, wider);
        },
        None => {},
    }
}

/// Reads a note line by line.
struct BlockParser {
    document_title: Option<String>,
    headings: Vec<(usize, String)>,
    current: Option<MarkdownBlock>,
    blocks: Vec<MarkdownBlock>,
    fence: Option<CodeFence>,
}

spec fn shown_headings(v: Seq<(usize, String)>) -> Seq<(nat, Seq<char>)> {
    Seq::new(v.len(), |i: int| (v[i].0 as nat, v[i].1@))
}

spec fn shown_block(o: Option<MarkdownBlock>) -> Option<BlockView> {
    match o {
        Some(b) => Some(b.shown()),
        None => None,
    }
}

impl BlockParser {
    spec fn shown(self) -> ParserView {
        ParserView {
            document_title: text::opt_view(self.document_title),
            headings: shown_headings(self.headings@),
            current: shown_block(self.current),
            blocks: shown_blocks(self.blocks@),
            fence: shown_fence(self.fence),
        }
    }

    fn heading_path(&self) -> (r: Option<String>)
        ensures
            text::opt_view(r) == path(self.shown().headings),
    {
        if self.headings.len() == 0 {
            return None;
        }
        let mut names: Vec<String> = Vec::new();
        let mut i: usize = 0;
        while i < self.headings.len()
            invariant
                0 <= i <= self.headings@.len(),
                names@.len() == i,
                forall|k: int| 0 <= k < i ==> (#[trigger] names@[k])@ == self.headings@[k].1@,
            decreases self.headings@.len() - i,
        {
            names.push(self.headings[i].1.clone());
            i += 1;
        }
        assert(text::views(names@) =~= titles(shown_headings(self.headings@)));
        Some(text::join(&names, " / "))
    }

    fn flush_current(&mut self)
        ensures
            final(self).shown() == flushed(old(self).shown()),
    {
        let mut open: Option<MarkdownBlock> = None;
        std::mem::swap(&mut open, &mut self.current);
        match open {
            None => {},
            Some(b) => {
                let t = text::trim(b.text.as_str()).to_owned();
                if has_retrievable_content(t.as_str(), b.kind) {
                    let ghost before = shown_blocks(self.blocks@);
                    let kept = MarkdownBlock {
                        kind: b.kind,
                        text: t,
                        start_line: b.start_line,
                        end_line: b.end_line,
                        document_title: b.document_title,
                        heading_path: b.heading_path,
                        code_language: b.code_language,
                    };
                    let ghost added = kept.shown();
                    self.blocks.push(kept);
                    assert(shown_blocks(self.blocks@) =~= before.push(added));
                }
            },
        }
    }

    fn push_current(&mut self, line: &str, line_no: usize, kind: BlockKind, language: Option<String>)
        ensures
            final(self).shown() == pushed(
                old(self).shown(),
                line@,
                line_no as int,
                kind,
                text::opt_view(language),
            ),
    {
        let heading_path = self.heading_path();
        let same_block = match &self.current {
            Some(b) => b.kind == kind && text::same_option(&b.heading_path, &heading_path) && (kind
                != BlockKind::Code || text::same_option(&b.code_language, &language)),
            None => false,
        };
        let mut open: Option<MarkdownBlock> = None;
        if same_block {
            std::mem::swap(&mut open, &mut self.current);
        } else {
            self.flush_current();
        }
        let mut b = match open {
            Some(b) => b,
            None => MarkdownBlock {
                kind,
                text: String::new(),
                start_line: line_no,
                end_line: line_no,
                document_title: text::copy_option(&self.document_title),
                heading_path,
                code_language: language,
            },
        };
        if b.text.as_str().unicode_len() > 0 {
            b.text.append("\n");
        }
        b.text.append(line);
        b.end_line = line_no;
        self.current = Some(b);
    }

    fn set_heading(&mut self, line: &str)
        ensures
            final(self).shown() == under(old(self).shown(), line@),
    {
        let v = text::chars_of(line);
        let level = count_lead(&v, '#');
        let rest = text::slice_of(&v, level, v.len());
        assert(rest@ =~= line@.skip(level as int));
        let title = text::trim(text::trim_chars(text::trim(rest.as_str()), "#")).to_owned();
        if title.as_str().unicode_len() == 0 {
            return;
        }
        if level == 1 && self.document_title.is_none() {
            self.document_title = Some(title.clone());
        }
        let ghost start = shown_headings(self.headings@);
        let ghost here = self.shown();
        let mut n: usize = self.headings.len();
        assert(start.take(n as int) =~= start);
        while n > 0 && self.headings[n - 1].0 >= level
            invariant
                n <= self.headings@.len(),
                start == shown_headings(self.headings@),
                self.shown() == here,
                outer(start.take(n as int), level as nat) == outer(start, level as nat),
            decreases n,
        {
            proof {
                let some = start.take(n as int);
                assert(some.last() == start[n - 1]);
                assert(some.drop_last() =~= start.take(n - 1));
            }
            n -= 1;
        }
        proof {
            let some = start.take(n as int);
            if n > 0 {
                assert(some.last() == start[n - 1]);
            }
            assert(outer(some, level as nat) == some);
        }
        let ghost kept = start.take(n as int);
        self.headings.truncate(n);
        assert(shown_headings(self.headings@) =~= kept);
        let ghost added = (level as nat, title@);
        self.headings.push((level, title));
        assert(shown_headings(self.headings@) =~= kept.push(added));
    }

    fn push_line(&mut self, line: &str, line_no: usize)
        ensures
            final(self).shown() == step(old(self).shown(), line@, line_no as int),
    {
        let t = text::trim(line);
        let inside: Option<(Option<String>, bool)> = match &self.fence {
            Some(f) => Some((text::copy_option(&f.language), f.is_closed_by(t))),
            None => None,
        };
        match inside {
            Some(f) => {
                self.push_current(line, line_no, BlockKind::Code, f.0);
                if f.1 {
                    self.flush_current();
                    self.fence = None;
                }
                return;
            },
            None => {},
        }
        match CodeFence::open(t) {
            Some(f) => {
                self.flush_current();
                let language = text::copy_option(&f.language);
                self.fence = Some(f);
                self.push_current(line, line_no, BlockKind::Code, language);
                return;
            },
            None => {},
        }
        if is_markdown_heading(t) {
            self.flush_current();
            self.set_heading(t);
            return;
        }
        if t.unicode_len() == 0 {
            self.flush_current();
            return;
        }
        self.push_current(line, line_no, classify_line(t), None);
    }
}

pub fn parse_blocks_with_title(content: &str, start_line: usize, document_title: Option<String>) -> (r: Vec<MarkdownBlock>)
    requires
        start_line + content@.len() <= usize::MAX,
    ensures
        shown_blocks(r@) == blocks_of(content@, start_line as int, text::opt_view(document_title)),
        forall|i: int| 0 <= i < r@.len() ==> is_within(
            (#[trigger] r@[i]).shown(),
            start_line + content@.len() + 1,
        ),
{
    let lines = text::split_lines(content);
    let ghost all = text::lines(content@);
    let ghost title = text::opt_view(document_title);
    let mut p = BlockParser {
        document_title,
        headings: Vec::new(),
        current: None,
        blocks: Vec::new(),
        fence: None,
    };
    let mut i: usize = 0;
    proof {
        lemma_taken(content@);
        assert(text::views(lines@).len() == lines@.len());
        assert(all.take(0) =~= Seq::empty());
        assert(p.shown().headings =~= Seq::empty());
        assert(p.shown().blocks =~= Seq::empty());
    }
    while i < lines.len()
        invariant
            0 <= i <= lines@.len(),
            text::views(lines@) == all,
            lines@.len() <= content@.len(),
            start_line + content@.len() <= usize::MAX,
            p.shown() == steps(nothing_read(title), all.take(i as int), start_line as int),
            all_within(p.shown(), start_line + taken(all.take(i as int))),
        decreases lines@.len() - i,
    {
        proof {
            assert(all.take(i + 1).drop_last() =~= all.take(i as int));
            assert(all.take(i + 1).last() == lines@[i as int]@);
            lemma_taken_prefix(all, i as int);
            lemma_step_within(
                p.shown(),
                lines@[i as int]@,
                start_line + i,
                start_line + taken(all.take(i as int)),
            );
        }
        p.push_line(lines[i].as_str(), start_line + i);
        i += 1;
    }
    proof {
        assert(all.take(i as int) =~= all);
        lemma_flushed_within(p.shown(), start_line + taken(all));
    }
    p.flush_current();
    assert forall|k: int| 0 <= k < p.blocks@.len() implies is_within(
        (#[trigger] p.blocks@[k]).shown(),
        start_line + content@.len() + 1,
    ) by {
        assert(p.shown().blocks[k] == p.blocks@[k].shown());
    }
    p.blocks
}

// Laws.

/// Nothing of a note is shown as a block unless there is something to find in it.
pub proof fn kept_blocks_are_worth_finding(p: ParserView, line: Seq<char>, line_no: int)
    requires
        forall|i: int| 0 <= i < p.blocks.len() ==> is_worth((#[trigger] p.blocks[i]).text, p.blocks[i].kind),
    ensures
        forall|i: int|
            0 <= i < step(p, line, line_no).blocks.len() ==> is_worth(
                (#[trigger] step(p, line, line_no).blocks[i]).text,
                step(p, line, line_no).blocks[i].kind,
            ),
{
}

} // verus!
