//! What holds of notes from the directory to the tables: which files are notes, what is head
//! and what is body, and what a search of the tables gives back.
use vstd::prelude::*;
use vstd::string::*;

use crate::knowledge::frontmatter;
use crate::knowledge::frontmatter::{HeadKey, HeadState};
use crate::knowledge::lookup;
use crate::knowledge::lookup::{FullTextHit, Neighbours};
use crate::knowledge::scan;
use crate::knowledge::scan::{EntryAction, EntryKind};
use crate::knowledge::store;
use crate::knowledge::store::{
    ChunkRow, KnowledgeChunkDraft, KnowledgeSearchResult, KnowledgeView,
};
use crate::knowledge::terms;
use crate::text;

verus! {

// Files.

proof fn lemma_other_end(s: Seq<char>, p: Seq<char>)
    requires
        p.len() > 0,
        s.len() > 0,
        s[s.len() - 1] != p[p.len() - 1],
    ensures
        !text::ends_with(s, p),
{
    if text::ends_with(s, p) {
        assert(s.subrange(s.len() - p.len(), s.len() as int)[p.len() - 1] == s[s.len() - 1]);
    }
}

/// A file is a note if its name ends in `.md`: unless it is hidden or an example.
pub proof fn markdown_files_are_notes(stem: Seq<char>)
    requires
        stem.len() > 0,
        stem[0] != '.',
        !text::ends_with(text::ascii_lowered(stem + ".md"@), ".example.md"@),
        !text::ends_with(text::ascii_lowered(stem + ".md"@), ".example.markdown"@),
    ensures
        scan::action_for(stem + ".md"@, EntryKind::File) == EntryAction::Take,
        scan::action_for(stem + ".md"@, EntryKind::Link) == EntryAction::Skip,
        scan::action_for(stem + ".md"@, EntryKind::Other) == EntryAction::Skip,
{
    reveal_strlit(".md");
    reveal_strlit(".");
    reveal_strlit("~");
    reveal_strlit(".tmp");
    reveal_strlit(".temp");
    reveal_strlit(".bak");
    reveal_strlit(".swp");
    reveal_strlit("md");
    let name = stem + ".md"@;
    let n = stem.len() as int;
    assert(name[name.len() - 1] == 'd');
    assert(name[0] == stem[0]);
    assert(name.subrange(0, 1)[0] == name[0]);
    lemma_other_end(name, "~"@);
    lemma_other_end(name, ".tmp"@);
    lemma_other_end(name, ".temp"@);
    lemma_other_end(name, ".bak"@);
    lemma_other_end(name, ".swp"@);
    assert(!scan::is_ignored(name));
    assert(name[n] == '.');
    assert(name.skip(n + 1) =~= "md"@);
    assert(!"md"@.contains('.')) by {
        if "md"@.contains('.') {
            let k = choose|k: int| 0 <= k < "md"@.len() && "md"@[k] == '.';
        }
    }
    assert(text::last_of(name, '.', n));
    let i = choose|i: int| text::last_of(name, '.', i);
    if i < n {
        assert(name.skip(i + 1)[n - i - 1] == '.');
        assert(name.skip(i + 1).contains('.'));
    } else if i > n {
        assert(name.skip(n + 1)[i - n - 1] == '.');
        assert(name.skip(n + 1).contains('.'));
    }
    assert(scan::extension(name) == Some("md"@));
    assert(text::ascii_lowered("md"@) =~= "md"@);
}

/// Hidden and temporary entries are passed over, whatever they are.
pub proof fn hidden_entries_are_passed_over(name: Seq<char>, kind: EntryKind)
    requires
        name.len() > 0,
        name[0] == '.' || name[name.len() - 1] == '~' || text::ends_with(name, ".tmp"@)
            || text::ends_with(name, ".bak"@) || text::ends_with(name, ".swp"@) || text::ends_with(
            name,
            ".temp"@,
        ),
    ensures
        scan::action_for(name, kind) == EntryAction::Skip,
{
    reveal_strlit(".");
    reveal_strlit("~");
    if name[0] == '.' {
        assert(name.subrange(0, 1) =~= "."@);
    } else if name[name.len() - 1] == '~' {
        assert(name.subrange(name.len() - 1, name.len() as int) =~= "~"@);
    }
}

/// Directories are entered unless they are hidden; links never are.
pub proof fn directories_are_entered(name: Seq<char>)
    ensures
        !scan::is_ignored(name) ==> scan::action_for(name, EntryKind::Directory) == EntryAction::Enter,
        scan::action_for(name, EntryKind::Link) == EntryAction::Skip,
        scan::action_for(name, EntryKind::Directory) != EntryAction::Take,
{
}

// Heads.

/// A note that does not start with a head is all body.
pub proof fn notes_without_a_head_are_all_body(content: Seq<char>)
    requires
        content.len() == 0 || (content[0] != '-' && content[0] != '\u{feff}'),
    ensures
        frontmatter::note_of(content).body == content,
        frontmatter::note_of(content).first_line == 1,
        frontmatter::note_of(content).head.title is None,
        frontmatter::note_of(content).head.terms.len() == 0,
{
    let first = text::until(content, '\n') as int;
    text::lemma_until_bound(content, '\n');
    if first < content.len() && frontmatter::is_mark(content, 0, first) {
        assert(content.subrange(0, first)[0] == content[0]);
    }
}

/// Whether no line of the text starts with three dashes.
pub open spec fn has_no_mark(head: Seq<char>) -> bool {
    forall|i: int|
        0 <= i && i + 2 < head.len() && (i == 0 || head[i - 1] == '\n') ==> !(#[trigger] head[i] == '-' && head[i
            + 1] == '-' && head[i + 2] == '-')
}

/// What stands between two lines of three dashes at the start of a note is its head, and what
/// follows is its body.
pub proof fn a_head_ends_at_its_mark(head: Seq<char>, body: Seq<char>)
    requires
        head.len() == 0 || head[head.len() - 1] == '\n',
        has_no_mark(head),
    ensures
        frontmatter::note_of("---\n"@ + head + "---\n"@ + body).body == body,
        frontmatter::note_of("---\n"@ + head + "---\n"@ + body).head == frontmatter::head_of(head),
{
    reveal_strlit("---\n");
    let c = "---\n"@ + head + "---\n"@ + body;
    assert(c[0] == '-' && c[1] == '-' && c[2] == '-' && c[3] == '\n');
    text::lemma_until(c, '\n', 3);
    assert(c.subrange(0, 3)[0] == '-' && c.subrange(0, 3)[1] == '-' && c.subrange(0, 3)[2] == '-');
    assert(frontmatter::is_mark(c, 0, 3));
    lemma_closing(head, body, 4, 2);
    let at = frontmatter::closing(c, 4, 2)->0;
    assert(c.subrange(4, 4int + head.len()) =~= head);
    assert(c.skip(8int + head.len()) =~= body);
}

proof fn lemma_closing(head: Seq<char>, body: Seq<char>, cursor: int, line: int)
    requires
        head.len() == 0 || head[head.len() - 1] == '\n',
        has_no_mark(head),
        4 <= cursor <= 4 + head.len(),
        cursor == 4 || head[cursor - 5] == '\n',
    ensures
        ({
            let c = "---\n"@ + head + "---\n"@ + body;
            frontmatter::closing(c, cursor, line) matches Some(at) && at.0 == 4 + head.len() && at.1 == 7
                + head.len()
        }),
    decreases 4 + head.len() - cursor,
{
    reveal_strlit("---\n");
    let c = "---\n"@ + head + "---\n"@ + body;
    let n = 4 + head.len() as int;
    assert forall|i: int| 4 <= i < n implies #[trigger] c[i] == head[i - 4] by {}
    assert(c[n] == '-' && c[n + 1] == '-' && c[n + 2] == '-' && c[n + 3] == '\n');
    let rest = c.skip(cursor);
    text::lemma_until_bound(rest, '\n');
    let k = text::until(rest, '\n') as int;
    if cursor == n {
        assert(rest[3] == '\n');
        assert(rest[0] == '-' && rest[1] == '-' && rest[2] == '-');
        text::lemma_until(rest, '\n', 3);
        assert(c.subrange(n, n + 3)[0] == '-' && c.subrange(n, n + 3)[1] == '-' && c.subrange(
            n,
            n + 3,
        )[2] == '-');
        assert(frontmatter::is_mark(c, n, n + 3));
    } else {
        assert(c[n - 1] == '\n');
        assert(rest[n - 1 - cursor] == '\n');
        assert(k <= n - 1 - cursor);
        let end = cursor + k;
        assert(rest[k] == c[end]);
        assert(head[end - 4] == '\n');
        if frontmatter::is_mark(c, cursor, end) {
            let l = c.subrange(cursor, end);
            assert(l[0] == c[cursor] && l[1] == c[cursor + 1] && l[2] == c[cursor + 2]);
            let i = cursor - 4;
            assert(head[i] == '-' && head[i + 1] == '-' && head[i + 2] == '-');
        }
        lemma_closing(head, body, end + 1, line + 1);
    }
}

/// Whether the text is a plain value: not blank, without quotes, brackets, or another meaning.
pub open spec fn is_plain_value(v: Seq<char>) -> bool {
    &&& v.len() > 0
    &&& !text::is_space(v[0]) && !text::is_space(v[v.len() - 1])
    &&& v[0] != '{' && v[0] != '[' && v[0] != '"' && v[0] != '\''
    &&& !frontmatter::is_other_scalar(v)
}

/// A line `title: value` names the note, unless it is named; lines of synonyms and aliases, and
/// the title, are words that the note is found by.
pub proof fn heads_name_the_note(st: HeadState, value: Seq<char>)
    requires
        st.open_key is None,
        is_plain_value(value),
    ensures
        ({
            let t = frontmatter::after_line(st, "title: "@ + value);
            let a = frontmatter::after_line(st, "aliases: "@ + value);
            let y = frontmatter::after_line(st, "synonyms: "@ + value);
            &&& st.title is None ==> t.title == Some(value)
            &&& st.title is Some ==> t.title == st.title
            &&& t.terms == st.terms.push(value)
            &&& a.terms == st.terms.push(value) && a.title == st.title
            &&& y.terms == st.terms.push(value) && y.title == st.title
        }),
{
    reveal_strlit("title");
    reveal_strlit("aliases");
    reveal_strlit("synonyms");
    reveal_strlit("title: ");
    reveal_strlit("aliases: ");
    reveal_strlit("synonyms: ");
    lemma_value(value);
    assert("title: "@ =~= "title"@ + seq![':', ' ']);
    assert("aliases: "@ =~= "aliases"@ + seq![':', ' ']);
    assert("synonyms: "@ =~= "synonyms"@ + seq![':', ' ']);
    lemma_pair("title: "@, "title"@, value);
    lemma_pair("aliases: "@, "aliases"@, value);
    lemma_pair("synonyms: "@, "synonyms"@, value);
    assert("title"@.len() != "aliases"@.len() && "title"@.len() != "synonyms"@.len());
}

/// Entries of a list belong to the key above them.
pub proof fn entries_belong_to_their_key(st: HeadState, value: Seq<char>)
    requires
        is_plain_value(value),
    ensures
        st.open_key == Some(HeadKey::Words) ==> frontmatter::after_line(st, "- "@ + value).terms
            == st.terms.push(value),
        st.open_key == Some(HeadKey::Words) ==> frontmatter::after_line(st, "- "@ + value).title == st.title,
        st.open_key is None ==> frontmatter::after_line(st, "aliases:"@).open_key == Some(HeadKey::Words),
        st.open_key is None ==> frontmatter::after_line(st, "synonyms:"@).open_key == Some(HeadKey::Words),
{
    reveal_strlit("- ");
    lemma_value(value);
    let line = "- "@ + value;
    assert(line[0] == '-');
    assert(line[line.len() - 1] == value[value.len() - 1]);
    lemma_trimmed_whole(line);
    text::lemma_trim_start(line, 0);
    assert(line.skip(0) =~= line);
    assert(line.subrange(0, 2) =~= "- "@);
    assert(line.skip(2) =~= value);
    reveal_strlit("title");
    reveal_strlit("aliases");
    reveal_strlit("synonyms");
    reveal_strlit("aliases:");
    reveal_strlit("synonyms:");
    assert("aliases:"@ =~= "aliases"@.push(':'));
    assert("synonyms:"@ =~= "synonyms"@.push(':'));
    lemma_open("aliases"@);
    lemma_open("synonyms"@);
    assert("title"@.len() != "aliases"@.len() && "title"@.len() != "synonyms"@.len());
}

proof fn lemma_open(key: Seq<char>)
    requires
        key.len() > 0,
        forall|i: int| 0 <= i < key.len() ==> frontmatter::is_key_char(#[trigger] key[i]) && key[i] != ':'
            && !text::is_space(key[i]) && key[i] != '#',
    ensures
        text::trimmed(key.push(':')) == key.push(':'),
        key.push(':')[0] != '#',
        frontmatter::pair(key.push(':')) == Some((key, Seq::<char>::empty())),
{
    let line = key.push(':');
    let n = key.len() as int;
    assert(line[0] == key[0]);
    lemma_trimmed_whole(line);
    text::lemma_until(line, ':', n);
    assert(line.take(n) =~= key);
    let none = Seq::<char>::empty();
    assert(line.skip(n + 1) =~= none);
    assert(text::trimmed(none) =~= none);
    lemma_trimmed_whole(key);
}

/// Quotes round a value are not part of it.
pub proof fn quotes_are_not_part_of_values(value: Seq<char>)
    requires
        is_plain_value(value),
    ensures
        frontmatter::value_text(seq!['"'] + value + seq!['"']) == Some(value),
        frontmatter::value_text(seq!['\''] + value + seq!['\'']) == Some(value),
{
    lemma_quotes('"', value);
    lemma_quotes('\'', value);
}

proof fn lemma_quotes(quote: char, value: Seq<char>)
    requires
        quote == '"' || quote == '\'',
        is_plain_value(value),
    ensures
        frontmatter::value_text(seq![quote] + value + seq![quote]) == Some(value),
{
    reveal_strlit("\"");
    reveal_strlit("'");
    assert("\""@ =~= seq!['"']);
    assert("'"@ =~= seq!['\'']);
    let s = seq![quote] + value + seq![quote];
    assert(s[0] == quote && s[s.len() - 1] == quote);
    lemma_trimmed_whole(s);
    assert(s.subrange(0, 1) =~= seq![quote]);
    assert(s.subrange(0, 1)[0] == quote);
    let t = s.skip(1);
    assert(t =~= value + seq![quote]);
    assert(t.subrange(t.len() - 1, t.len() as int) =~= seq![quote]);
    assert(t.take(t.len() - 1) =~= value);
    lemma_trimmed_whole(value);
}

proof fn lemma_trimmed_whole(s: Seq<char>)
    requires
        s.len() > 0,
        !text::is_space(s[0]),
        !text::is_space(s[s.len() - 1]),
    ensures
        text::trimmed(s) == s,
{
    text::lemma_trim_start(s, 0);
    assert(s.skip(0) =~= s);
    text::lemma_trim_end(s, s.len() as int);
    assert(s.take(s.len() as int) =~= s);
}

proof fn lemma_value(v: Seq<char>)
    requires
        is_plain_value(v),
    ensures
        frontmatter::value_text(v) == Some(v),
        frontmatter::array_values(v) is None,
        !text::blank(v),
        text::trimmed(v) == v,
{
    reveal_strlit("\"");
    reveal_strlit("'");
    reveal_strlit("[");
    lemma_trimmed_whole(v);
    assert(v.subrange(0, 1)[0] == v[0]);
}

proof fn lemma_pair(lead: Seq<char>, key: Seq<char>, value: Seq<char>)
    requires
        key.len() > 0,
        lead == key + seq![':', ' '],
        forall|i: int| 0 <= i < key.len() ==> frontmatter::is_key_char(#[trigger] key[i]) && key[i] != ':'
            && !text::is_space(key[i]) && key[i] != '#',
        is_plain_value(value),
    ensures
        text::trimmed(lead + value) == lead + value,
        (lead + value)[0] != '#',
        (lead + value).len() > 0,
        frontmatter::pair(lead + value) == Some((key, value)),
{
    let line = lead + value;
    let n = key.len() as int;
    assert(line[0] == key[0]);
    assert(line[line.len() - 1] == value[value.len() - 1]);
    lemma_trimmed_whole(line);
    assert(line[n] == ':');
    assert forall|i: int| 0 <= i < n implies (#[trigger] line[i]) != ':' by {
        assert(line[i] == key[i]);
    }
    text::lemma_until(line, ':', n);
    assert(line.take(n) =~= key);
    lemma_trimmed_whole(key);
    let rest = line.skip(n + 1);
    assert(rest =~= seq![' '] + value);
    text::lemma_trim_start(rest, 1);
    assert(rest.skip(1) =~= value);
    text::lemma_trim_end(value, value.len() as int);
    assert(value.take(value.len() as int) =~= value);
}

// Tables.

/// After a note was stored, it has exactly the new chunks in their order, and the chunks of
/// other notes are as they were.
pub proof fn storing_touches_one_note(
    s: KnowledgeView,
    path: Seq<char>,
    file_hash: Seq<char>,
    modified_at: Option<Seq<char>>,
    drafts: Seq<KnowledgeChunkDraft>,
    now: String,
)
    requires
        store::is_consistent(s),
        !store::replace_fails(s, path, drafts),
        drafts.len() < i64::MAX,
    ensures
        ({
            let t = store::replaced(s, path, file_hash, modified_at, drafts, now);
            let id = store::id_for(s, path);
            let n = t.chunks.len() - drafts.len();
            &&& 0 <= n
            &&& t.chunks.take(n) == s.chunks.filter(|c: ChunkRow| c.document_id != id)
            &&& forall|i: int|
                0 <= i < drafts.len() ==> (#[trigger] t.chunks[n + i]).draft == drafts[i] && t.chunks[n
                    + i].document_id == id
            &&& exists|k: int|
                0 <= k < t.documents.len() && (#[trigger] t.documents[k]).relative_path == path
                    && t.documents[k].id == id && t.documents[k].file_hash == file_hash
            &&& forall|k: int|
                0 <= k < s.documents.len() && (#[trigger] s.documents[k]).relative_path != path
                    ==> t.documents[k] == s.documents[k]
        }),
{
    let t = store::replaced(s, path, file_hash, modified_at, drafts, now);
    let id = store::id_for(s, path);
    let kept = store::others(s.chunks, id);
    assert(t.chunks.take(kept.len() as int) =~= kept);
    if store::has_path(s.documents, path) {
        let p = store::place(s.documents, path);
        assert(t.documents[p].relative_path == path);
    } else {
        assert(t.documents[s.documents.len() as int].relative_path == path);
    }
}

/// After a note was deleted, its path and its chunks are gone, and those of other notes are as
/// they were.
pub proof fn deleting_touches_one_note(s: KnowledgeView, path: Seq<char>, k: int)
    requires
        store::is_consistent(s),
        0 <= k < s.documents.len(),
        s.documents[k].relative_path == path,
    ensures
        ({
            let t = store::without_document(s, path);
            &&& t.documents == s.documents.remove(k)
            &&& t.chunks == s.chunks.filter(|c: ChunkRow| c.document_id != s.documents[k].id)
        }),
{
    assert(store::is_at(s.documents, path, k));
    let p = store::place(s.documents, path);
    if p < k {
        assert(s.documents[p].relative_path != s.documents[k].relative_path);
    } else if k < p {
        assert(s.documents[k].relative_path != s.documents[p].relative_path);
    }
}

// Searching the tables.

/// Whether the result shows the chunk of the row.
pub open spec fn shows_row(r: KnowledgeSearchResult, row: ChunkRow) -> bool {
    &&& r.document_id == row.document_id
    &&& r.chunk_id == row.draft.chunk_id
    &&& r.relative_path == row.draft.relative_path
    &&& r.document_title == row.draft.document_title
    &&& r.heading_path == row.draft.heading_path
    &&& r.chunk_index == row.draft.chunk_index
    &&& r.body == row.draft.body
    &&& r.start_line == row.draft.start_line
    &&& r.end_line == row.draft.end_line
    &&& r.search_text == row.draft.search_text
}

/// What full-text search found is shown in its order, hit by hit, with the chunks of the hits,
/// and no more of it than asked for.
pub proof fn hits_are_shown_in_their_order(
    chunks: Seq<ChunkRow>,
    query: Seq<char>,
    limit: int,
    hits: Seq<FullTextHit>,
    at: Seq<int>,
)
    requires
        limit > 0,
        !text::blank(query),
        at.len() == hits.len(),
        forall|i: int|
            0 <= i < hits.len() ==> 0 <= #[trigger] at[i] < chunks.len() && chunks[at[i]].row_id
                == hits[i].row_id,
        forall|i: int, j: int|
            0 <= i < j < chunks.len() ==> (#[trigger] chunks[i]).row_id != (#[trigger] chunks[j]).row_id,
    ensures
        ({
            let r = lookup::found(chunks, query, limit, hits);
            &&& r.len() == (if hits.len() <= limit {
                hits.len() as int
            } else {
                limit
            })
            &&& forall|i: int|
                0 <= i < r.len() ==> shows_row(#[trigger] r[i], chunks[at[i]]) && r[i].score
                    == hits[i].score
        }),
{
    if hits.len() <= limit {
        lemma_joined_hits(chunks, hits, at);
    } else {
        let first = hits.take(limit);
        let places = at.take(limit);
        assert forall|i: int| 0 <= i < first.len() implies 0 <= #[trigger] places[i] < chunks.len()
            && chunks[places[i]].row_id == first[i].row_id by {
            assert(places[i] == at[i]);
        }
        lemma_joined_hits(chunks, first, places);
        let r = lookup::found(chunks, query, limit, hits);
        assert forall|i: int| 0 <= i < r.len() implies shows_row(#[trigger] r[i], chunks[at[i]])
            && r[i].score == hits[i].score by {
            assert(places[i] == at[i]);
        }
    }
}

proof fn lemma_joined_hits(chunks: Seq<ChunkRow>, hits: Seq<FullTextHit>, at: Seq<int>)
    requires
        at.len() == hits.len(),
        forall|i: int|
            0 <= i < hits.len() ==> 0 <= #[trigger] at[i] < chunks.len() && chunks[at[i]].row_id
                == hits[i].row_id,
        forall|i: int, j: int|
            0 <= i < j < chunks.len() ==> (#[trigger] chunks[i]).row_id != (#[trigger] chunks[j]).row_id,
    ensures
        ({
            let r = lookup::joined_hits(chunks, hits);
            &&& r.len() == hits.len()
            &&& forall|i: int|
                0 <= i < r.len() ==> shows_row(#[trigger] r[i], chunks[at[i]]) && r[i].score
                    == hits[i].score
        }),
    decreases hits.len(),
{
    if hits.len() > 0 {
        let n = hits.len() - 1;
        let front = hits.drop_last();
        let places = at.drop_last();
        assert forall|i: int| 0 <= i < front.len() implies 0 <= #[trigger] places[i] < chunks.len()
            && chunks[places[i]].row_id == front[i].row_id by {
            assert(places[i] == at[i]);
        }
        lemma_joined_hits(chunks, front, places);
        let p = at[n];
        assert(lookup::row_at(chunks, hits[n].row_id, p));
        let q = choose|q: int| lookup::row_at(chunks, hits[n].row_id, q);
        if p < q {
            assert(chunks[p].row_id != chunks[q].row_id);
        } else if q < p {
            assert(chunks[q].row_id != chunks[p].row_id);
        }
        let r = lookup::joined_hits(chunks, hits);
        let before = lookup::joined_hits(chunks, front);
        assert forall|i: int| 0 <= i < r.len() implies shows_row(#[trigger] r[i], chunks[at[i]])
            && r[i].score == hits[i].score by {
            if i < n {
                assert(r[i] == before[i]);
                assert(places[i] == at[i]);
            }
        }
    }
}

/// Of the chunks that were compared by meaning the most similar come first, and none that is
/// left out is more similar than one that is shown.
pub proof fn the_most_similar_come_first(
    r: Seq<KnowledgeSearchResult>,
    ranked: Seq<KnowledgeSearchResult>,
    all: Seq<KnowledgeSearchResult>,
    limit: int,
)
    requires
        limit >= 0,
        lookup::are_best(r, ranked, all, limit),
    ensures
        forall|i: int, j: int|
            0 <= i < j < r.len() ==> (#[trigger] r[i]).score >= (#[trigger] r[j]).score,
        r.len() == (if all.len() <= limit {
            all.len() as int
        } else {
            limit
        }),
        forall|i: int, x: KnowledgeSearchResult|
            0 <= i < r.len() && all.contains(x) && !r.contains(x) ==> (#[trigger] r[i]).score >= (
            #[trigger] x.score),
        forall|i: int| 0 <= i < r.len() ==> all.contains(#[trigger] r[i]),
{
    broadcast use vstd::seq_lib::group_to_multiset_ensures;

    assert(ranked.len() == all.len()) by {
        assert(ranked.to_multiset().len() == ranked.len());
        assert(all.to_multiset().len() == all.len());
    }
    assert forall|i: int, j: int| 0 <= i < j < ranked.len() implies (#[trigger] ranked[i]).score >= (
    #[trigger] ranked[j]).score by {
        assert(lookup::goes_before(ranked[i], ranked[j]));
    }
    assert forall|i: int| 0 <= i < r.len() implies all.contains(#[trigger] r[i]) by {
        assert(ranked[i] == r[i]);
        assert(ranked.contains(r[i]));
        assert(ranked.to_multiset().count(r[i]) > 0);
    }
    assert forall|i: int, x: KnowledgeSearchResult|
        0 <= i < r.len() && all.contains(x) && !r.contains(x) implies (#[trigger] r[i]).score >= (
    #[trigger] x.score) by {
        assert(all.to_multiset().count(x) > 0);
        assert(ranked.contains(x));
        let j = choose|j: int| 0 <= j < ranked.len() && ranked[j] == x;
        if j < r.len() {
            assert(r[j] == x);
        }
        assert(ranked[i] == r[i]);
    }
}

/// Around a chunk stand the other chunks of its section, or those before and behind it; of
/// other notes none.
pub proof fn neighbours_are_of_the_same_note(
    row: ChunkRow,
    document_id: i64,
    heading_path: Option<String>,
    chunk_index: usize,
)
    ensures
        lookup::is_neighbour(row, Neighbours::Section { document_id, heading_path }) <==> row.document_id
            == document_id && (row.draft.heading_path is Some) == (heading_path is Some) && (
        heading_path is Some ==> row.draft.heading_path->0@ == heading_path->0@),
        lookup::is_neighbour(row, Neighbours::Adjacent { document_id, chunk_index }) <==> row.document_id
            == document_id && (row.draft.chunk_index + 1 == chunk_index || row.draft.chunk_index
            == chunk_index + 1),
{
}

} // verus!
