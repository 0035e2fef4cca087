//! The tables of the index: notes, their chunks, the full-text rows and the vectors of the
//! chunks.
use vstd::prelude::*;
use vstd::string::*;

use crate::knowledge::terms;
use crate::outside;
use crate::text;

verus! {

/// A chunk that is not stored yet.
#[derive(Debug)]
pub struct KnowledgeChunkDraft {
    pub chunk_id: String,
    pub relative_path: String,
    pub document_title: Option<String>,
    pub heading_path: Option<String>,
    pub chunk_index: usize,
    pub chunk_type: String,
    pub body: String,
    pub content_hash: String,
    pub file_hash: String,
    pub modified_at: Option<String>,
    pub start_line: Option<usize>,
    pub end_line: Option<usize>,
    pub code_language: Option<String>,
    pub chunking_version: i64,
    pub search_text: String,
}

impl Clone for KnowledgeChunkDraft {
    fn clone(&self) -> (r: Self)
        ensures
            r == *self,
    {
        KnowledgeChunkDraft {
            chunk_id: self.chunk_id.clone(),
            relative_path: self.relative_path.clone(),
            document_title: text::copy_option(&self.document_title),
            heading_path: text::copy_option(&self.heading_path),
            chunk_index: self.chunk_index,
            chunk_type: self.chunk_type.clone(),
            body: self.body.clone(),
            content_hash: self.content_hash.clone(),
            file_hash: self.file_hash.clone(),
            modified_at: text::copy_option(&self.modified_at),
            start_line: self.start_line,
            end_line: self.end_line,
            code_language: text::copy_option(&self.code_language),
            chunking_version: self.chunking_version,
            search_text: self.search_text.clone(),
        }
    }
}

/// How a result was found.
#[derive(Debug, Clone, Copy, PartialEq, Eq, Structural)]
pub enum KnowledgeSearchOrigin {
    Lexical,
    Semantic,
    Section,
}

/// A chunk that was found.
#[derive(Debug)]
pub struct KnowledgeSearchResult {
    pub document_id: i64,
    pub chunk_id: String,
    pub relative_path: String,
    pub document_title: Option<String>,
    pub heading_path: Option<String>,
    pub chunk_index: usize,
    pub chunk_type: String,
    pub body: String,
    pub start_line: Option<usize>,
    pub end_line: Option<usize>,
    pub code_language: Option<String>,
    pub search_text: String,
    pub origin: KnowledgeSearchOrigin,
    /// A number that orders results as their scores do: for a score that is not negative, the
    /// bits of its binary floating-point form.
    pub score: i64,
}

impl Clone for KnowledgeSearchResult {
    fn clone(&self) -> (r: Self)
        ensures
            r == *self,
    {
        KnowledgeSearchResult {
            document_id: self.document_id,
            chunk_id: self.chunk_id.clone(),
            relative_path: self.relative_path.clone(),
            document_title: text::copy_option(&self.document_title),
            heading_path: text::copy_option(&self.heading_path),
            chunk_index: self.chunk_index,
            chunk_type: self.chunk_type.clone(),
            body: self.body.clone(),
            start_line: self.start_line,
            end_line: self.end_line,
            code_language: text::copy_option(&self.code_language),
            search_text: self.search_text.clone(),
            origin: self.origin,
            score: self.score,
        }
    }
}

/// A chunk whose vector is missing.
#[derive(Debug)]
pub struct KnowledgeEmbeddingSource {
    pub chunk_id: String,
    pub content_hash: String,
    pub text: String,
}

/// A vector, four bytes to a number.
#[derive(Debug)]
pub struct KnowledgeEmbeddingRecord {
    pub chunk_id: String,
    pub content_hash: String,
    pub vector: Vec<u8>,
}

#[derive(Debug)]
pub struct KnowledgeDocumentState {
    pub file_hash: String,
    pub chunking_version: i64,
}

#[derive(Debug)]
pub struct DatabaseError {
    pub message: String,
}

// Rows.

#[derive(Debug)]
pub struct DocumentRow {
    pub id: i64,
    pub relative_path: String,
    pub file_hash: String,
    pub modified_at: Option<String>,
    pub indexed_at: String,
    pub chunking_version: i64,
}

pub struct DocumentView {
    pub id: i64,
    pub relative_path: Seq<char>,
    pub file_hash: Seq<char>,
    pub modified_at: Option<Seq<char>>,
    pub indexed_at: Seq<char>,
    pub chunking_version: i64,
}

impl DocumentRow {
    pub open spec fn shown(self) -> DocumentView {
        DocumentView {
            id: self.id,
            relative_path: self.relative_path@,
            file_hash: self.file_hash@,
            modified_at: text::opt_view(self.modified_at),
            indexed_at: self.indexed_at@,
            chunking_version: self.chunking_version,
        }
    }
}

#[derive(Debug)]
pub struct ChunkRow {
    pub row_id: i64,
    pub document_id: i64,
    pub draft: KnowledgeChunkDraft,
    pub indexed_at: String,
}

impl Clone for ChunkRow {
    fn clone(&self) -> (r: Self)
        ensures
            r == *self,
    {
        ChunkRow {
            row_id: self.row_id,
            document_id: self.document_id,
            draft: self.draft.clone(),
            indexed_at: self.indexed_at.clone(),
        }
    }
}

/// What full-text search reads of a chunk.
#[derive(Debug)]
pub struct FullTextRow {
    pub row_id: i64,
    pub search_text: String,
}

#[derive(Debug)]
pub struct EmbeddingRow {
    pub chunk_id: String,
    pub model: String,
    pub dimensions: usize,
    pub embedding_version: i64,
    pub content_hash: String,
    pub vector: Vec<u8>,
    pub updated_at: String,
}

pub struct EmbeddingView {
    pub chunk_id: Seq<char>,
    pub model: Seq<char>,
    pub dimensions: nat,
    pub embedding_version: i64,
    pub content_hash: Seq<char>,
    pub vector: Seq<u8>,
    pub updated_at: Seq<char>,
}

impl EmbeddingRow {
    pub open spec fn shown(self) -> EmbeddingView {
        EmbeddingView {
            chunk_id: self.chunk_id@,
            model: self.model@,
            dimensions: self.dimensions as nat,
            embedding_version: self.embedding_version,
            content_hash: self.content_hash@,
            vector: self.vector@,
            updated_at: self.updated_at@,
        }
    }
}

fn copy_embedding(e: &EmbeddingRow) -> (r: EmbeddingRow)
    ensures
        r.shown() == e.shown(),
{
    let mut vector: Vec<u8> = Vec::new();
    let mut i: usize = 0;
    while i < e.vector.len()
        invariant
            0 <= i <= e.vector@.len(),
            vector@ == e.vector@.take(i as int),
        decreases e.vector@.len() - i,
    {
        vector.push(e.vector[i]);
        i += 1;
        assert(vector@ =~= e.vector@.take(i as int));
    }
    assert(vector@ =~= e.vector@);
    EmbeddingRow {
        chunk_id: e.chunk_id.clone(),
        model: e.model.clone(),
        dimensions: e.dimensions,
        embedding_version: e.embedding_version,
        content_hash: e.content_hash.clone(),
        vector,
        updated_at: e.updated_at.clone(),
    }
}

pub open spec fn shown_documents(v: Seq<DocumentRow>) -> Seq<DocumentView> {
    Seq::new(v.len(), |i: int| v[i].shown())
}

pub open spec fn shown_embeddings(v: Seq<EmbeddingRow>) -> Seq<EmbeddingView> {
    Seq::new(v.len(), |i: int| v[i].shown())
}

/// The index.
#[derive(Debug)]
pub struct KnowledgeStore {
    pub documents: Vec<DocumentRow>,
    pub chunks: Vec<ChunkRow>,
    pub full_text: Vec<FullTextRow>,
    pub embeddings: Vec<EmbeddingRow>,
    pub next_document_id: i64,
    pub next_row_id: i64,
}

pub struct KnowledgeView {
    pub documents: Seq<DocumentView>,
    pub chunks: Seq<ChunkRow>,
    pub embeddings: Seq<EmbeddingView>,
    pub next_document_id: i64,
    pub next_row_id: i64,
}

impl View for KnowledgeStore {
    type V = KnowledgeView;

    open spec fn view(&self) -> KnowledgeView {
        KnowledgeView {
            documents: shown_documents(self.documents@),
            chunks: self.chunks@,
            embeddings: shown_embeddings(self.embeddings@),
            next_document_id: self.next_document_id,
            next_row_id: self.next_row_id,
        }
    }
}

/// Whether the tables fit together: identifiers and paths are unique, a chunk belongs to a
/// note.
pub open spec fn is_consistent(s: KnowledgeView) -> bool {
    &&& forall|i: int, j: int|
        0 <= i < j < s.documents.len() ==> (#[trigger] s.documents[i]).id != (
        #[trigger] s.documents[j]).id && s.documents[i].relative_path != s.documents[j].relative_path
    &&& forall|i: int| 0 <= i < s.documents.len() ==> (#[trigger] s.documents[i]).id < s.next_document_id
    &&& forall|i: int, j: int|
        0 <= i < j < s.chunks.len() ==> (#[trigger] s.chunks[i]).draft.chunk_id@ != (
        #[trigger] s.chunks[j]).draft.chunk_id@ && s.chunks[i].row_id != s.chunks[j].row_id
    &&& forall|i: int| 0 <= i < s.chunks.len() ==> (#[trigger] s.chunks[i]).row_id < s.next_row_id
    &&& forall|i: int|
        0 <= i < s.chunks.len() ==> has_document(s.documents, (#[trigger] s.chunks[i]).document_id)
}

pub open spec fn has_document(documents: Seq<DocumentView>, id: i64) -> bool {
    exists|i: int| 0 <= i < documents.len() && (#[trigger] documents[i]).id == id
}

impl KnowledgeStore {
    /// Whether full-text search reads exactly the chunks.
    pub open spec fn is_searchable(self) -> bool {
        &&& self.full_text@.len() == self.chunks@.len()
        &&& forall|i: int|
            0 <= i < self.chunks@.len() ==> (#[trigger] self.full_text@[i]).row_id == self.chunks@[i].row_id
                && self.full_text@[i].search_text@ == self.chunks@[i].draft.search_text@
    }

    pub open spec fn wf(self) -> bool {
        is_consistent(self@) && self.is_searchable()
    }

    pub fn new() -> (r: Self)
        ensures
            r.wf(),
            r@.documents.len() == 0,
            r@.chunks.len() == 0,
            r@.embeddings.len() == 0,
            r@.next_document_id == 1,
            r@.next_row_id == 1,
    {
        KnowledgeStore {
            documents: Vec::new(),
            chunks: Vec::new(),
            full_text: Vec::new(),
            embeddings: Vec::new(),
            next_document_id: 1,
            next_row_id: 1,
        }
    }
}

// Reading.

/// Whether the note at `i` has the path.
pub open spec fn is_at(documents: Seq<DocumentView>, path: Seq<char>, i: int) -> bool {
    0 <= i < documents.len() && documents[i].relative_path == path
}

pub open spec fn has_path(documents: Seq<DocumentView>, path: Seq<char>) -> bool {
    exists|i: int| is_at(documents, path, i)
}

pub open spec fn place(documents: Seq<DocumentView>, path: Seq<char>) -> int {
    choose|i: int| is_at(documents, path, i)
}

pub open spec fn document_paths(documents: Seq<DocumentView>) -> Seq<Seq<char>> {
    Seq::new(documents.len(), |i: int| documents[i].relative_path)
}

impl KnowledgeStore {
    fn find_document(&self, path: &str) -> (r: Option<usize>)
        requires
            is_consistent(self@),
        ensures
            match r {
                Some(i) => has_path(self@.documents, path@) && i == place(self@.documents, path@) && i
                    < self.documents@.len(),
                None => !has_path(self@.documents, path@),
            },
    {
        let ghost docs = self@.documents;
        let mut i: usize = 0;
        while i < self.documents.len()
            invariant
                0 <= i <= self.documents@.len(),
                docs == self@.documents,
                is_consistent(self@),
                forall|k: int| 0 <= k < i ==> !is_at(docs, path@, k),
            decreases self.documents@.len() - i,
        {
            if text::same(self.documents[i].relative_path.as_str(), path) {
                proof {
                    assert(is_at(docs, path@, i as int));
                    let k = place(docs, path@);
                    if k < i {
                        assert(docs[k].relative_path != docs[i as int].relative_path);
                    } else if i < k {
                        assert(docs[i as int].relative_path != docs[k].relative_path);
                    }
                }
                return Some(i);
            }
            i += 1;
        }
        None
    }

    pub fn document_state(&self, relative_path: &str) -> (r: Option<KnowledgeDocumentState>)
        requires
            self.wf(),
        ensures
            match r {
                Some(s) => has_path(self@.documents, relative_path@) && s.file_hash@
                    == self@.documents[place(self@.documents, relative_path@)].file_hash
                    && s.chunking_version
                    == self@.documents[place(self@.documents, relative_path@)].chunking_version,
                None => !has_path(self@.documents, relative_path@),
            },
    {
        match self.find_document(relative_path) {
            Some(i) => Some(
                KnowledgeDocumentState {
                    file_hash: self.documents[i].file_hash.clone(),
                    chunking_version: self.documents[i].chunking_version,
                },
            ),
            None => None,
        }
    }

    /// The paths of all notes in order.
    pub fn list_document_paths(&self) -> (r: Vec<String>)
        ensures
            terms::is_sorted_set(text::views(r@), document_paths(self@.documents)),
    {
        let mut paths: Vec<String> = Vec::new();
        let mut i: usize = 0;
        while i < self.documents.len()
            invariant
                0 <= i <= self.documents@.len(),
                paths@.len() == i,
                forall|k: int|
                    0 <= k < i ==> (#[trigger] paths@[k])@ == self.documents@[k].relative_path@,
            decreases self.documents@.len() - i,
        {
            paths.push(self.documents[i].relative_path.clone());
            i += 1;
        }
        assert(text::views(paths@) =~= document_paths(self@.documents));
        terms::sort_and_dedup(&paths)
    }

    pub fn chunk_count(&self) -> (r: usize)
        ensures
            r == self@.chunks.len(),
    {
        self.chunks.len()
    }
}

// Writing.

/// Whether two of the drafts have one identifier.
pub open spec fn repeats_id(drafts: Seq<KnowledgeChunkDraft>) -> bool {
    exists|i: int, j: int|
        0 <= i < j < drafts.len() && (#[trigger] drafts[i]).chunk_id@ == (#[trigger] drafts[j]).chunk_id@
}

/// Whether a draft has the identifier of a chunk of another note.
pub open spec fn clashes(chunks: Seq<ChunkRow>, document_id: i64, drafts: Seq<KnowledgeChunkDraft>) -> bool {
    exists|i: int, j: int|
        0 <= i < chunks.len() && 0 <= j < drafts.len() && (#[trigger] chunks[i]).document_id
            != document_id && chunks[i].draft.chunk_id@ == (#[trigger] drafts[j]).chunk_id@
}

/// Whether a chunk of the note has the identifier.
pub open spec fn is_chunk_of(chunks: Seq<ChunkRow>, document_id: i64, chunk_id: Seq<char>) -> bool {
    exists|i: int|
        0 <= i < chunks.len() && (#[trigger] chunks[i]).document_id == document_id
            && chunks[i].draft.chunk_id@ == chunk_id
}

pub open spec fn others(chunks: Seq<ChunkRow>, document_id: i64) -> Seq<ChunkRow> {
    chunks.filter(|c: ChunkRow| c.document_id != document_id)
}

/// The vectors of chunks of other notes.
pub open spec fn other_embeddings(
    embeddings: Seq<EmbeddingView>,
    chunks: Seq<ChunkRow>,
    document_id: i64,
) -> Seq<EmbeddingView> {
    embeddings.filter(|e: EmbeddingView| !is_chunk_of(chunks, document_id, e.chunk_id))
}

pub open spec fn new_rows(
    drafts: Seq<KnowledgeChunkDraft>,
    first: i64,
    document_id: i64,
    now: String,
) -> Seq<ChunkRow> {
    Seq::new(
        drafts.len(),
        |i: int|
            ChunkRow {
                row_id: (first + i) as i64,
                document_id,
                draft: drafts[i],
                indexed_at: now,
            },
    )
}

/// A note without chunks counts as cut by an early version.
pub open spec fn version_of(drafts: Seq<KnowledgeChunkDraft>) -> i64 {
    if drafts.len() > 0 {
        drafts[0].chunking_version
    } else {
        2
    }
}

/// The identifier that a note has or gets.
pub open spec fn id_for(s: KnowledgeView, path: Seq<char>) -> i64 {
    if has_path(s.documents, path) {
        s.documents[place(s.documents, path)].id
    } else {
        s.next_document_id
    }
}

/// Whether the note cannot be stored: an identifier would be used twice, or the numbers of
/// rows are used up.
pub open spec fn replace_fails(s: KnowledgeView, path: Seq<char>, drafts: Seq<KnowledgeChunkDraft>) -> bool {
    ||| repeats_id(drafts)
    ||| clashes(s.chunks, id_for(s, path), drafts)
    ||| s.next_row_id + drafts.len() > i64::MAX
    ||| !has_path(s.documents, path) && s.next_document_id == i64::MAX
}

/// The tables after a note was stored: its old chunks and their vectors are gone, its new
/// chunks are there.
pub open spec fn replaced(
    s: KnowledgeView,
    path: Seq<char>,
    file_hash: Seq<char>,
    modified_at: Option<Seq<char>>,
    drafts: Seq<KnowledgeChunkDraft>,
    now: String,
) -> KnowledgeView {
    let id = id_for(s, path);
    let row = DocumentView {
        id,
        relative_path: path,
        file_hash,
        modified_at,
        indexed_at: now@,
        chunking_version: version_of(drafts),
    };
    KnowledgeView {
        documents: if has_path(s.documents, path) {
            s.documents.update(place(s.documents, path), row)
        } else {
            s.documents.push(row)
        },
        chunks: others(s.chunks, id) + new_rows(drafts, s.next_row_id, id, now),
        embeddings: other_embeddings(s.embeddings, s.chunks, id),
        next_document_id: if has_path(s.documents, path) {
            s.next_document_id
        } else {
            (s.next_document_id + 1) as i64
        },
        next_row_id: (s.next_row_id + drafts.len()) as i64,
    }
}

/// The tables after a note was deleted.
pub open spec fn without_document(s: KnowledgeView, path: Seq<char>) -> KnowledgeView {
    if has_path(s.documents, path) {
        let k = place(s.documents, path);
        let id = s.documents[k].id;
        KnowledgeView {
            documents: s.documents.remove(k),
            chunks: others(s.chunks, id),
            embeddings: other_embeddings(s.embeddings, s.chunks, id),
            ..s
        }
    } else {
        s
    }
}

proof fn lemma_filter_contains(chunks: Seq<ChunkRow>, id: i64, c: ChunkRow)
    requires
        others(chunks, id).contains(c),
    ensures
        chunks.contains(c),
        c.document_id != id,
    decreases chunks.len(),
{
    reveal(Seq::filter);
    if chunks.len() > 0 {
        let before = chunks.drop_last();
        if others(before, id).contains(c) {
            lemma_filter_contains(before, id, c);
            let k = choose|k: int| 0 <= k < before.len() && before[k] == c;
            assert(chunks[k] == c);
        } else {
            let k = choose|k: int| 0 <= k < others(chunks, id).len() && others(chunks, id)[k] == c;
            if k < others(before, id).len() {
                assert(others(before, id)[k] == c);
            }
            assert(chunks.last() == c);
            assert(chunks[chunks.len() - 1] == c);
        }
    }
}

/// What is left after a note's chunks are gone keeps its order.
proof fn lemma_filter_distinct(chunks: Seq<ChunkRow>, id: i64)
    requires
        forall|i: int, j: int|
            0 <= i < j < chunks.len() ==> (#[trigger] chunks[i]).draft.chunk_id@ != (
            #[trigger] chunks[j]).draft.chunk_id@ && chunks[i].row_id != chunks[j].row_id,
    ensures
        forall|i: int, j: int|
            0 <= i < j < others(chunks, id).len() ==> (#[trigger] others(chunks, id)[i]).draft.chunk_id@ != (
            #[trigger] others(chunks, id)[j]).draft.chunk_id@ && others(chunks, id)[i].row_id
                != others(chunks, id)[j].row_id,
    decreases chunks.len(),
{
    reveal(Seq::filter);
    if chunks.len() > 0 {
        let before = chunks.drop_last();
        let kept = others(chunks, id);
        assert forall|i: int, j: int| 0 <= i < j < before.len() implies (
        #[trigger] before[i]).draft.chunk_id@ != (#[trigger] before[j]).draft.chunk_id@
            && before[i].row_id != before[j].row_id by {
            assert(chunks[i] == before[i] && chunks[j] == before[j]);
        }
        lemma_filter_distinct(before, id);
        assert forall|i: int, j: int| 0 <= i < j < kept.len() implies (
        #[trigger] kept[i]).draft.chunk_id@ != (#[trigger] kept[j]).draft.chunk_id@
            && kept[i].row_id != kept[j].row_id by {
            if j == others(before, id).len() {
                assert(kept[j] == chunks.last());
                assert(others(before, id).contains(others(before, id)[i]));
                lemma_filter_contains(before, id, others(before, id)[i]);
                let k = choose|k: int| 0 <= k < before.len() && before[k] == kept[i];
                assert(chunks[k] == kept[i]);
                assert(chunks[chunks.len() - 1] == kept[j]);
            } else {
                assert(kept[i] == others(before, id)[i]);
                assert(kept[j] == others(before, id)[j]);
            }
        }
    }
}

impl KnowledgeStore {
    fn repeats(drafts: &Vec<KnowledgeChunkDraft>) -> (r: bool)
        ensures
            r == repeats_id(drafts@),
    {
        let mut i: usize = 0;
        while i < drafts.len()
            invariant
                0 <= i <= drafts@.len(),
                forall|a: int, b: int|
                    0 <= a < i && a < b < drafts@.len() ==> (#[trigger] drafts@[a]).chunk_id@ != (
                    #[trigger] drafts@[b]).chunk_id@,
            decreases drafts@.len() - i,
        {
            let mut j: usize = i + 1;
            while j < drafts.len()
                invariant
                    i < j <= drafts@.len(),
                    forall|b: int|
                        i < b < j ==> drafts@[i as int].chunk_id@ != (#[trigger] drafts@[b]).chunk_id@,
                decreases drafts@.len() - j,
            {
                if drafts[i].chunk_id == drafts[j].chunk_id {
                    assert(drafts@[i as int].chunk_id@ == drafts@[j as int].chunk_id@);
                    return true;
                }
                j += 1;
            }
            i += 1;
        }
        false
    }

    fn has_clash(&self, document_id: i64, drafts: &Vec<KnowledgeChunkDraft>) -> (r: bool)
        ensures
            r == clashes(self.chunks@, document_id, drafts@),
    {
        let mut i: usize = 0;
        while i < self.chunks.len()
            invariant
                0 <= i <= self.chunks@.len(),
                forall|a: int, b: int|
                    0 <= a < i && 0 <= b < drafts@.len() && (#[trigger] self.chunks@[a]).document_id
                        != document_id ==> self.chunks@[a].draft.chunk_id@ != (
                    #[trigger] drafts@[b]).chunk_id@,
            decreases self.chunks@.len() - i,
        {
            if self.chunks[i].document_id != document_id {
                let mut j: usize = 0;
                while j < drafts.len()
                    invariant
                        0 <= j <= drafts@.len(),
                        i < self.chunks@.len(),
                        self.chunks@[i as int].document_id != document_id,
                        forall|b: int|
                            0 <= b < j ==> self.chunks@[i as int].draft.chunk_id@ != (
                            #[trigger] drafts@[b]).chunk_id@,
                    decreases drafts@.len() - j,
                {
                    if self.chunks[i].draft.chunk_id == drafts[j].chunk_id {
                        assert(self.chunks@[i as int].draft.chunk_id@ == drafts@[j as int].chunk_id@);
                        return true;
                    }
                    j += 1;
                }
            }
            i += 1;
        }
        false
    }

    fn owns(&self, document_id: i64, chunk_id: &String) -> (r: bool)
        ensures
            r == is_chunk_of(self.chunks@, document_id, chunk_id@),
    {
        let mut i: usize = 0;
        while i < self.chunks.len()
            invariant
                0 <= i <= self.chunks@.len(),
                forall|a: int|
                    0 <= a < i && (#[trigger] self.chunks@[a]).document_id == document_id
                        ==> self.chunks@[a].draft.chunk_id@ != chunk_id@,
            decreases self.chunks@.len() - i,
        {
            if self.chunks[i].document_id == document_id && self.chunks[i].draft.chunk_id == *chunk_id {
                assert(self.chunks@[i as int].draft.chunk_id@ == chunk_id@);
                return true;
            }
            i += 1;
        }
        false
    }

    fn other_vectors(&self, document_id: i64) -> (r: Vec<EmbeddingRow>)
        ensures
            shown_embeddings(r@) == other_embeddings(
                self@.embeddings,
                self.chunks@,
                document_id,
            ),
    {
        let ghost all = self@.embeddings;
        let ghost p = |e: EmbeddingView| !is_chunk_of(self.chunks@, document_id, e.chunk_id);
        let mut out: Vec<EmbeddingRow> = Vec::new();
        let mut i: usize = 0;
        proof {
            reveal(Seq::filter);
            assert(all.take(0) =~= Seq::empty());
            assert(shown_embeddings(out@) =~= all.take(0).filter(p));
        }
        while i < self.embeddings.len()
            invariant
                0 <= i <= self.embeddings@.len(),
                all == self@.embeddings,
                p == (|e: EmbeddingView| !is_chunk_of(self.chunks@, document_id, e.chunk_id)),
                shown_embeddings(out@) == all.take(i as int).filter(p),
            decreases self.embeddings@.len() - i,
        {
            proof {
                reveal(Seq::filter);
                assert(all.take(i + 1).drop_last() =~= all.take(i as int));
                assert(all.take(i + 1).last() == self.embeddings@[i as int].shown());
            }
            if !self.owns(document_id, &self.embeddings[i].chunk_id) {
                let ghost before = shown_embeddings(out@);
                let row = copy_embedding(&self.embeddings[i]);
                let ghost added = row.shown();
                out.push(row);
                assert(shown_embeddings(out@) =~= before.push(added));
            }
            i += 1;
        }
        assert(all.take(i as int) =~= all);
        out
    }

    /// Chunks and full-text rows of the other notes.
    fn other_chunks(&self, document_id: i64) -> (r: (Vec<ChunkRow>, Vec<FullTextRow>))
        requires
            self.is_searchable(),
        ensures
            r.0@ == others(self.chunks@, document_id),
            r.1@.len() == r.0@.len(),
            forall|i: int|
                0 <= i < r.0@.len() ==> (#[trigger] r.1@[i]).row_id == r.0@[i].row_id
                    && r.1@[i].search_text@ == r.0@[i].draft.search_text@,
    {
        let ghost p = |c: ChunkRow| c.document_id != document_id;
        let mut chunks: Vec<ChunkRow> = Vec::new();
        let mut full_text: Vec<FullTextRow> = Vec::new();
        let mut i: usize = 0;
        proof {
            reveal(Seq::filter);
            assert(self.chunks@.take(0) =~= Seq::empty());
            assert(chunks@ =~= self.chunks@.take(0).filter(p));
        }
        while i < self.chunks.len()
            invariant
                0 <= i <= self.chunks@.len(),
                self.is_searchable(),
                p == (|c: ChunkRow| c.document_id != document_id),
                chunks@ == self.chunks@.take(i as int).filter(p),
                full_text@.len() == chunks@.len(),
                forall|k: int|
                    0 <= k < chunks@.len() ==> (#[trigger] full_text@[k]).row_id == chunks@[k].row_id
                        && full_text@[k].search_text@ == chunks@[k].draft.search_text@,
            decreases self.chunks@.len() - i,
        {
            proof {
                reveal(Seq::filter);
                assert(self.chunks@.take(i + 1).drop_last() =~= self.chunks@.take(i as int));
                assert(self.chunks@.take(i + 1).last() == self.chunks@[i as int]);
                assert(self.full_text@[i as int].row_id == self.chunks@[i as int].row_id);
            }
            if self.chunks[i].document_id != document_id {
                chunks.push(self.chunks[i].clone());
                full_text.push(
                    FullTextRow {
                        row_id: self.full_text[i].row_id,
                        search_text: self.full_text[i].search_text.clone(),
                    },
                );
            }
            i += 1;
        }
        assert(self.chunks@.take(i as int) =~= self.chunks@);
        (chunks, full_text)
    }

    /// Stores a note at a given time.
    pub fn replace_document_at(
        &mut self,
        relative_path: &str,
        file_hash: &str,
        modified_at: Option<String>,
        drafts: &Vec<KnowledgeChunkDraft>,
        now: String,
    ) -> (r: Result<(), DatabaseError>)
        requires
            old(self).wf(),
        ensures
            r is Err <==> replace_fails(old(self)@, relative_path@, drafts@),
            r is Err ==> final(self)@ == old(self)@,
            r is Ok ==> final(self)@ == replaced(
                old(self)@,
                relative_path@,
                file_hash@,
                text::opt_view(modified_at),
                drafts@,
                now,
            ),
            final(self).wf(),
    {
        let ghost s = self@;
        let found = self.find_document(relative_path);
        let id: i64 = match found {
            Some(k) => self.documents[k].id,
            None => self.next_document_id,
        };
        assert(id == id_for(s, relative_path@));
        if Self::repeats(drafts) || self.has_clash(id, drafts) {
            return Err(
                DatabaseError {
                    message: "UNIQUE constraint failed: knowledge_chunks.chunk_id".to_owned(),
                },
            );
        }
        let count: usize = drafts.len();
        if (found.is_none() && self.next_document_id == i64::MAX) || self.next_row_id as i128
            + count as i128 > i64::MAX as i128 {
            return Err(DatabaseError { message: "database or disk is full".to_owned() });
        }
        let version: i64 = if count > 0 {
            drafts[0].chunking_version
        } else {
            2
        };
        let first: i64 = self.next_row_id;
        let embeddings = self.other_vectors(id);
        let (mut chunks, mut full_text) = self.other_chunks(id);
        let ghost kept = chunks@;
        let mut i: usize = 0;
        while i < count
            invariant
                0 <= i <= count,
                count == drafts@.len(),
                first + count <= i64::MAX,
                chunks@ == kept + new_rows(drafts@, first, id, now).take(i as int),
                full_text@.len() == chunks@.len(),
                forall|k: int|
                    0 <= k < chunks@.len() ==> (#[trigger] full_text@[k]).row_id == chunks@[k].row_id
                        && full_text@[k].search_text@ == chunks@[k].draft.search_text@,
            decreases count - i,
        {
            let row_id: i64 = (first as i128 + i as i128) as i64;
            let row = ChunkRow {
                row_id,
                document_id: id,
                draft: drafts[i].clone(),
                indexed_at: now.clone(),
            };
            proof {
                let rows = new_rows(drafts@, first, id, now);
                assert(row == rows[i as int]);
                assert((kept + rows.take(i as int)).push(row) =~= kept + rows.take(i + 1));
            }
            chunks.push(row);
            full_text.push(FullTextRow { row_id, search_text: drafts[i].search_text.clone() });
            i += 1;
        }
        let ghost rows = new_rows(drafts@, first, id, now);
        assert(rows.take(i as int) =~= rows);
        let row = DocumentRow {
            id,
            relative_path: relative_path.to_owned(),
            file_hash: file_hash.to_owned(),
            modified_at,
            indexed_at: now,
            chunking_version: version,
        };
        let ghost shown = row.shown();
        match found {
            Some(k) => {
                self.documents.set(k, row);
                assert(shown_documents(self.documents@) =~= s.documents.update(k as int, shown));
            },
            None => {
                self.documents.push(row);
                assert(shown_documents(self.documents@) =~= s.documents.push(shown));
                self.next_document_id = self.next_document_id + 1;
            },
        }
        self.chunks = chunks;
        self.full_text = full_text;
        self.embeddings = embeddings;
        self.next_row_id = (first as i128 + count as i128) as i64;
        proof {
            lemma_replaced_is_consistent(s, relative_path@, file_hash@, shown.modified_at, drafts@, now);
        }
        Ok(())
    }

    /// Stores a note.
    pub fn replace_document(
        &mut self,
        relative_path: &str,
        file_hash: &str,
        modified_at: Option<String>,
        drafts: &Vec<KnowledgeChunkDraft>,
    ) -> (r: Result<(), DatabaseError>)
        requires
            old(self).wf(),
        ensures
            r is Err <==> replace_fails(old(self)@, relative_path@, drafts@),
            r is Err ==> final(self)@ == old(self)@,
            r is Ok ==> exists|now: String|
                final(self)@ == #[trigger] replaced(
                    old(self)@,
                    relative_path@,
                    file_hash@,
                    text::opt_view(modified_at),
                    drafts@,
                    now,
                ),
            final(self).wf(),
    {
        let now = outside::now_iso_cn();
        self.replace_document_at(relative_path, file_hash, modified_at, drafts, now)
    }

    /// Deletes a note; one that is not there stays away.
    pub fn delete_document(&mut self, relative_path: &str)
        requires
            old(self).wf(),
        ensures
            final(self)@ == without_document(old(self)@, relative_path@),
            final(self).wf(),
    {
        let ghost s = self@;
        let k = match self.find_document(relative_path) {
            Some(k) => k,
            None => {
                return;
            },
        };
        let id: i64 = self.documents[k].id;
        let embeddings = self.other_vectors(id);
        let (chunks, full_text) = self.other_chunks(id);
        let _ = self.documents.remove(k);
        assert(shown_documents(self.documents@) =~= s.documents.remove(k as int));
        self.chunks = chunks;
        self.full_text = full_text;
        self.embeddings = embeddings;
        proof {
            lemma_without_is_consistent(s, relative_path@);
        }
    }
}

proof fn lemma_others_from(chunks: Seq<ChunkRow>, id: i64, i: int) -> (k: int)
    requires
        0 <= i < others(chunks, id).len(),
    ensures
        0 <= k < chunks.len(),
        chunks[k] == others(chunks, id)[i],
        others(chunks, id)[i].document_id != id,
{
    assert(others(chunks, id).contains(others(chunks, id)[i]));
    lemma_filter_contains(chunks, id, others(chunks, id)[i]);
    choose|k: int| 0 <= k < chunks.len() && chunks[k] == others(chunks, id)[i]
}

proof fn lemma_replaced_is_consistent(
    s: KnowledgeView,
    path: Seq<char>,
    file_hash: Seq<char>,
    modified_at: Option<Seq<char>>,
    drafts: Seq<KnowledgeChunkDraft>,
    now: String,
)
    requires
        is_consistent(s),
        !replace_fails(s, path, drafts),
    ensures
        is_consistent(replaced(s, path, file_hash, modified_at, drafts, now)),
{
    let t = replaced(s, path, file_hash, modified_at, drafts, now);
    let id = id_for(s, path);
    let kept = others(s.chunks, id);
    let rows = new_rows(drafts, s.next_row_id, id, now);
    lemma_filter_distinct(s.chunks, id);
    assert forall|i: int, j: int| 0 <= i < j < t.chunks.len() implies (
    #[trigger] t.chunks[i]).draft.chunk_id@ != (#[trigger] t.chunks[j]).draft.chunk_id@
        && t.chunks[i].row_id != t.chunks[j].row_id by {
        if j < kept.len() {
            assert(t.chunks[i] == kept[i] && t.chunks[j] == kept[j]);
        } else if i < kept.len() {
            let k = lemma_others_from(s.chunks, id, i);
            assert(t.chunks[i] == s.chunks[k]);
            assert(t.chunks[j] == rows[j - kept.len()]);
            assert(drafts[j - kept.len()] == t.chunks[j].draft);
        } else {
            assert(t.chunks[i] == rows[i - kept.len()]);
            assert(t.chunks[j] == rows[j - kept.len()]);
            assert(drafts[i - kept.len()] == t.chunks[i].draft);
            assert(drafts[j - kept.len()] == t.chunks[j].draft);
        }
    }
    assert forall|i: int| 0 <= i < t.chunks.len() implies (#[trigger] t.chunks[i]).row_id
        < t.next_row_id by {
        if i < kept.len() {
            let k = lemma_others_from(s.chunks, id, i);
            assert(t.chunks[i] == s.chunks[k]);
        } else {
            assert(t.chunks[i] == rows[i - kept.len()]);
        }
    }
    assert(has_document(t.documents, id)) by {
        if has_path(s.documents, path) {
            let k = place(s.documents, path);
            assert(t.documents[k].id == id);
        } else {
            assert(t.documents[s.documents.len() as int].id == id);
        }
    }
    assert forall|i: int| 0 <= i < t.chunks.len() implies has_document(
        t.documents,
        (#[trigger] t.chunks[i]).document_id,
    ) by {
        if i < kept.len() {
            let k = lemma_others_from(s.chunks, id, i);
            assert(t.chunks[i] == s.chunks[k]);
            assert(has_document(s.documents, s.chunks[k].document_id));
            let d = choose|d: int|
                0 <= d < s.documents.len() && (#[trigger] s.documents[d]).id == s.chunks[k].document_id;
            assert(t.documents[d].id == s.documents[d].id);
        } else {
            assert(t.chunks[i] == rows[i - kept.len()]);
        }
    }
    assert forall|i: int, j: int| 0 <= i < j < t.documents.len() implies (
    #[trigger] t.documents[i]).id != (#[trigger] t.documents[j]).id && t.documents[i].relative_path
        != t.documents[j].relative_path by {
        if has_path(s.documents, path) {
            let k = place(s.documents, path);
            assert(s.documents[i].id != s.documents[j].id);
            assert(t.documents[i].id == s.documents[i].id);
            assert(t.documents[j].id == s.documents[j].id);
            assert(t.documents[i].relative_path == s.documents[i].relative_path);
            assert(t.documents[j].relative_path == s.documents[j].relative_path);
        } else if j == s.documents.len() {
            assert(t.documents[i] == s.documents[i]);
            assert(!is_at(s.documents, path, i));
        } else {
            assert(t.documents[i] == s.documents[i] && t.documents[j] == s.documents[j]);
        }
    }
    assert forall|i: int| 0 <= i < t.documents.len() implies (#[trigger] t.documents[i]).id
        < t.next_document_id by {
        if i < s.documents.len() {
            assert(t.documents[i].id == s.documents[i].id);
        }
    }
}

proof fn lemma_without_is_consistent(s: KnowledgeView, path: Seq<char>)
    requires
        is_consistent(s),
        has_path(s.documents, path),
    ensures
        is_consistent(without_document(s, path)),
{
    let t = without_document(s, path);
    let p = place(s.documents, path);
    let id = s.documents[p].id;
    lemma_filter_distinct(s.chunks, id);
    assert forall|i: int, j: int| 0 <= i < j < t.documents.len() implies (
    #[trigger] t.documents[i]).id != (#[trigger] t.documents[j]).id && t.documents[i].relative_path
        != t.documents[j].relative_path by {
        let a = if i < p {
            i
        } else {
            i + 1
        };
        let b = if j < p {
            j
        } else {
            j + 1
        };
        assert(t.documents[i] == s.documents[a] && t.documents[j] == s.documents[b]);
    }
    assert forall|i: int| 0 <= i < t.documents.len() implies (#[trigger] t.documents[i]).id
        < t.next_document_id by {
        let a = if i < p {
            i
        } else {
            i + 1
        };
        assert(t.documents[i] == s.documents[a]);
    }
    assert forall|i: int| 0 <= i < t.chunks.len() implies has_document(
        t.documents,
        (#[trigger] t.chunks[i]).document_id,
    ) by {
        let k = lemma_others_from(s.chunks, id, i);
        assert(t.chunks[i] == s.chunks[k]);
        let d = choose|d: int|
            0 <= d < s.documents.len() && (#[trigger] s.documents[d]).id == s.chunks[k].document_id;
        assert(d != p);
        let e = if d < p {
            d
        } else {
            d - 1
        };
        assert(t.documents[e] == s.documents[d]);
    }
    assert forall|i: int| 0 <= i < t.chunks.len() implies (#[trigger] t.chunks[i]).row_id
        < t.next_row_id by {
        let k = lemma_others_from(s.chunks, id, i);
        assert(t.chunks[i] == s.chunks[k]);
    }
}

// Laws.

/// After a note was stored, exactly the new drafts are its chunks.
pub proof fn storing_replaces_all_chunks(
    s: KnowledgeView,
    path: Seq<char>,
    file_hash: Seq<char>,
    modified_at: Option<Seq<char>>,
    drafts: Seq<KnowledgeChunkDraft>,
    now: String,
    i: int,
)
    requires
        is_consistent(s),
        !replace_fails(s, path, drafts),
        0 <= i < replaced(s, path, file_hash, modified_at, drafts, now).chunks.len(),
    ensures
        ({
            let c = replaced(s, path, file_hash, modified_at, drafts, now).chunks[i];
            c.document_id == id_for(s, path) <==> i >= others(s.chunks, id_for(s, path)).len()
        }),
        i >= others(s.chunks, id_for(s, path)).len() ==> replaced(
            s,
            path,
            file_hash,
            modified_at,
            drafts,
            now,
        ).chunks[i].draft == drafts[i - others(s.chunks, id_for(s, path)).len()],
{
    let id = id_for(s, path);
    let kept = others(s.chunks, id);
    if i < kept.len() {
        let k = lemma_others_from(s.chunks, id, i);
    } else {
        let rows = new_rows(drafts, s.next_row_id, id, now);
        assert(replaced(s, path, file_hash, modified_at, drafts, now).chunks[i] == rows[i
            - kept.len()]);
    }
}

/// Deleting a note that was just stored for the first time leaves notes and chunks as they
/// were before.
pub proof fn deleting_undoes_storing(
    s: KnowledgeView,
    path: Seq<char>,
    file_hash: Seq<char>,
    modified_at: Option<Seq<char>>,
    drafts: Seq<KnowledgeChunkDraft>,
    now: String,
)
    requires
        is_consistent(s),
        !replace_fails(s, path, drafts),
        !has_path(s.documents, path),
    ensures
        ({
            let t = without_document(
                replaced(s, path, file_hash, modified_at, drafts, now),
                path,
            );
            t.documents == s.documents && t.chunks == s.chunks
        }),
{
    let r = replaced(s, path, file_hash, modified_at, drafts, now);
    let id = s.next_document_id;
    let n = s.documents.len() as int;
    assert(is_at(r.documents, path, n));
    let p = place(r.documents, path);
    if p < n {
        assert(is_at(s.documents, path, p));
    }
    assert(p == n);
    assert(r.documents[p].id == id);
    assert(r.documents.remove(p) =~= s.documents);
    assert forall|i: int| 0 <= i < s.chunks.len() implies (#[trigger] s.chunks[i]).document_id != id by {
        let d = choose|d: int|
            0 <= d < s.documents.len() && (#[trigger] s.documents[d]).id == s.chunks[i].document_id;
        assert(s.documents[d].id < s.next_document_id);
    }
    lemma_none_filtered(s.chunks, id);
    let rows = new_rows(drafts, s.next_row_id, id, now);
    lemma_all_filtered(s.chunks, rows, id);
}

proof fn lemma_none_filtered(chunks: Seq<ChunkRow>, id: i64)
    requires
        forall|i: int| 0 <= i < chunks.len() ==> (#[trigger] chunks[i]).document_id != id,
    ensures
        others(chunks, id) == chunks,
    decreases chunks.len(),
{
    reveal(Seq::filter);
    if chunks.len() > 0 {
        lemma_none_filtered(chunks.drop_last(), id);
        assert(chunks.drop_last().push(chunks.last()) =~= chunks);
    } else {
        assert(others(chunks, id) =~= chunks);
    }
}

proof fn lemma_all_filtered(chunks: Seq<ChunkRow>, rows: Seq<ChunkRow>, id: i64)
    requires
        forall|i: int| 0 <= i < rows.len() ==> (#[trigger] rows[i]).document_id == id,
    ensures
        others(chunks + rows, id) == others(chunks, id),
    decreases rows.len(),
{
    reveal(Seq::filter);
    if rows.len() == 0 {
        assert(chunks + rows =~= chunks);
    } else {
        let all = chunks + rows;
        assert(all.drop_last() =~= chunks + rows.drop_last());
        assert(all.last() == rows.last());
        lemma_all_filtered(chunks, rows.drop_last(), id);
    }
}

} // verus!
