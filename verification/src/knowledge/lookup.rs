//! Finding chunks: by what full-text search or the comparison of vectors gave, and by where
//! they stand in their note.
use vstd::prelude::*;
use vstd::seq_lib::*;
use vstd::string::*;

use crate::knowledge::store;
use crate::knowledge::store::{
    ChunkRow, EmbeddingRow, EmbeddingView, KnowledgeEmbeddingRecord, KnowledgeEmbeddingSource,
    KnowledgeSearchOrigin, KnowledgeSearchResult, KnowledgeStore,
};
use crate::knowledge::terms;
use crate::outside;
use crate::text;

verus! {

/// A stored chunk as a result.
pub open spec fn result_of(row: ChunkRow, origin: KnowledgeSearchOrigin, score: i64) -> KnowledgeSearchResult {
    KnowledgeSearchResult {
        document_id: row.document_id,
        chunk_id: row.draft.chunk_id,
        relative_path: row.draft.relative_path,
        document_title: row.draft.document_title,
        heading_path: row.draft.heading_path,
        chunk_index: row.draft.chunk_index,
        chunk_type: row.draft.chunk_type,
        body: row.draft.body,
        start_line: row.draft.start_line,
        end_line: row.draft.end_line,
        code_language: row.draft.code_language,
        search_text: row.draft.search_text,
        origin,
        score,
    }
}

fn to_result(row: &ChunkRow, origin: KnowledgeSearchOrigin, score: i64) -> (r: KnowledgeSearchResult)
    ensures
        r == result_of(*row, origin, score),
{
    KnowledgeSearchResult {
        document_id: row.document_id,
        chunk_id: row.draft.chunk_id.clone(),
        relative_path: row.draft.relative_path.clone(),
        document_title: text::copy_option(&row.draft.document_title),
        heading_path: text::copy_option(&row.draft.heading_path),
        chunk_index: row.draft.chunk_index,
        chunk_type: row.draft.chunk_type.clone(),
        body: row.draft.body.clone(),
        start_line: row.draft.start_line,
        end_line: row.draft.end_line,
        code_language: text::copy_option(&row.draft.code_language),
        search_text: row.draft.search_text.clone(),
        origin,
        score,
    }
}

// Full-text search.

/// A row that full-text search found, and its score.
#[derive(Debug, Clone, Copy, PartialEq, Eq, Structural)]
pub struct FullTextHit {
    pub row_id: i64,
    pub score: i64,
}

pub open spec fn row_at(chunks: Seq<ChunkRow>, row_id: i64, i: int) -> bool {
    0 <= i < chunks.len() && chunks[i].row_id == row_id
}

/// The chunks of the hits in their order; rows that are gone are left out.
pub open spec fn joined_hits(chunks: Seq<ChunkRow>, hits: Seq<FullTextHit>) -> Seq<KnowledgeSearchResult>
    decreases hits.len(),
{
    if hits.len() == 0 {
        Seq::empty()
    } else {
        let before = joined_hits(chunks, hits.drop_last());
        let hit = hits.last();
        if exists|i: int| row_at(chunks, hit.row_id, i) {
            before.push(
                result_of(
                    chunks[choose|i: int| row_at(chunks, hit.row_id, i)],
                    KnowledgeSearchOrigin::Lexical,
                    hit.score,
                ),
            )
        } else {
            before
        }
    }
}

/// The results of a query, given what full-text search found for it, the best first: nothing
/// for a blank query or where nothing is wanted.
pub open spec fn found(chunks: Seq<ChunkRow>, query: Seq<char>, limit: int, hits: Seq<FullTextHit>) -> Seq<
    KnowledgeSearchResult,
> {
    if text::blank(query) || limit == 0 {
        Seq::empty()
    } else if hits.len() <= limit {
        joined_hits(chunks, hits)
    } else {
        joined_hits(chunks, hits.take(limit))
    }
}

impl KnowledgeStore {
    fn find_row(&self, row_id: i64) -> (r: Option<usize>)
        requires
            self.wf(),
        ensures
            match r {
                Some(i) => i < self.chunks@.len() && row_at(self.chunks@, row_id, i as int) && i == (
                choose|k: int| row_at(self.chunks@, row_id, k)),
                None => forall|k: int| !row_at(self.chunks@, row_id, k),
            },
    {
        let mut i: usize = 0;
        while i < self.chunks.len()
            invariant
                0 <= i <= self.chunks@.len(),
                self.wf(),
                forall|k: int| 0 <= k < i ==> !row_at(self.chunks@, row_id, k),
            decreases self.chunks@.len() - i,
        {
            if self.chunks[i].row_id == row_id {
                proof {
                    assert(row_at(self.chunks@, row_id, i as int));
                    let k = choose|k: int| row_at(self.chunks@, row_id, k);
                    let c = self@.chunks;
                    if k < i {
                        assert(c[k].row_id != c[i as int].row_id);
                    } else if i < k {
                        assert(c[i as int].row_id != c[k].row_id);
                    }
                }
                return Some(i);
            }
            i += 1;
        }
        None
    }

    pub fn search(&self, query: &str, limit: usize, hits: &Vec<FullTextHit>) -> (r: Vec<KnowledgeSearchResult>)
        requires
            self.wf(),
        ensures
            r@ == found(self@.chunks, query@, limit as int, hits@),
    {
        let mut out: Vec<KnowledgeSearchResult> = Vec::new();
        if text::is_blank(query) || limit == 0 {
            return out;
        }
        let n: usize = if hits.len() <= limit {
            hits.len()
        } else {
            limit
        };
        let mut i: usize = 0;
        assert(hits@.take(0) =~= Seq::empty());
        while i < n
            invariant
                0 <= i <= n <= hits@.len(),
                self.wf(),
                out@ == joined_hits(self@.chunks, hits@.take(i as int)),
            decreases n - i,
        {
            proof {
                assert(hits@.take(i + 1).drop_last() =~= hits@.take(i as int));
                assert(hits@.take(i + 1).last() == hits@[i as int]);
            }
            match self.find_row(hits[i].row_id) {
                Some(k) => {
                    out.push(to_result(&self.chunks[k], KnowledgeSearchOrigin::Lexical, hits[i].score));
                },
                None => {},
            }
            i += 1;
        }
        if hits.len() <= limit {
            assert(hits@.take(i as int) =~= hits@);
        }
        out
    }
}

// Neighbours.

/// Which chunks are looked for.
#[derive(Debug)]
pub enum Neighbours {
    /// Those of a note that stand under the same headings.
    Section { document_id: i64, heading_path: Option<String> },
    /// The one before and the one behind.
    Adjacent { document_id: i64, chunk_index: usize },
}

pub open spec fn is_neighbour(row: ChunkRow, which: Neighbours) -> bool {
    match which {
        Neighbours::Section { document_id, heading_path } => row.document_id == document_id
            && text::opt_view(row.draft.heading_path) == text::opt_view(heading_path),
        Neighbours::Adjacent { document_id, chunk_index } => row.document_id == document_id && (
        row.draft.chunk_index == chunk_index - 1 || row.draft.chunk_index == chunk_index + 1),
    }
}

fn is_wanted(row: &ChunkRow, which: &Neighbours) -> (r: bool)
    ensures
        r == is_neighbour(*row, *which),
{
    match which {
        Neighbours::Section { document_id, heading_path } => row.document_id == *document_id
            && text::same_option(&row.draft.heading_path, heading_path),
        Neighbours::Adjacent { document_id, chunk_index } => {
            let here: usize = row.draft.chunk_index;
            let there: usize = *chunk_index;
            row.document_id == *document_id && ((here < there && there - here == 1) || (there < here
                && here - there == 1))
        },
    }
}

pub open spec fn neighbours(chunks: Seq<ChunkRow>, which: Neighbours) -> Seq<KnowledgeSearchResult> {
    let rows = chunks.filter(|c: ChunkRow| is_neighbour(c, which));
    Seq::new(rows.len(), |i: int| result_of(rows[i], KnowledgeSearchOrigin::Section, 0))
}

/// Whether the results are in the order of their note.
pub open spec fn in_note_order(v: Seq<KnowledgeSearchResult>) -> bool {
    forall|i: int, j: int| 0 <= i < j < v.len() ==> (#[trigger] v[i]).chunk_index <= (#[trigger] v[j]).chunk_index
}

/// Whether the results are the neighbours in the order of their note.
pub open spec fn is_ordered_list(r: Seq<KnowledgeSearchResult>, all: Seq<KnowledgeSearchResult>) -> bool {
    in_note_order(r) && r.to_multiset() == all.to_multiset()
}

fn insert_in_order(v: &mut Vec<KnowledgeSearchResult>, x: KnowledgeSearchResult)
    requires
        in_note_order(old(v)@),
    ensures
        in_note_order(final(v)@),
        final(v)@.to_multiset() == old(v)@.to_multiset().insert(x),
{
    let mut k: usize = v.len();
    while k > 0 && v[k - 1].chunk_index > x.chunk_index
        invariant
            k <= v@.len(),
            v@ == old(v)@,
            in_note_order(v@),
            forall|i: int| k <= i < v@.len() ==> (#[trigger] v@[i]).chunk_index > x.chunk_index,
        decreases k,
    {
        k -= 1;
    }
    let ghost before = v@;
    let ghost y = x;
    v.insert(k, x);
    proof {
        to_multiset_insert(before, k as int, y);
        assert(v@ =~= before.insert(k as int, y));
        assert forall|i: int, j: int| 0 <= i < j < v@.len() implies (
        #[trigger] v@[i]).chunk_index <= (#[trigger] v@[j]).chunk_index by {
            if i == k {
                assert(v@[j] == before[j - 1]);
            } else if j == k {
                assert(v@[i] == before[i]);
                if k > 0 && i < k - 1 {
                    assert(before[i].chunk_index <= before[k - 1].chunk_index);
                }
            } else {
                let a = if i < k {
                    i
                } else {
                    i - 1
                };
                let b = if j < k {
                    j
                } else {
                    j - 1
                };
                assert(v@[i] == before[a] && v@[j] == before[b]);
            }
        }
    }
}

impl KnowledgeStore {
    fn list_neighbours(&self, which: &Neighbours) -> (r: Vec<KnowledgeSearchResult>)
        ensures
            is_ordered_list(r@, neighbours(self@.chunks, *which)),
    {
        let ghost p = |c: ChunkRow| is_neighbour(c, *which);
        let ghost chunks = self.chunks@;
        let mut out: Vec<KnowledgeSearchResult> = Vec::new();
        let mut i: usize = 0;
        proof {
            reveal(Seq::filter);
            assert(chunks.take(0) =~= Seq::empty());
            assert(neighbours(chunks.take(0), *which) =~= out@);
        }
        while i < self.chunks.len()
            invariant
                0 <= i <= self.chunks@.len(),
                chunks == self.chunks@,
                p == (|c: ChunkRow| is_neighbour(c, *which)),
                is_ordered_list(out@, neighbours(chunks.take(i as int), *which)),
            decreases self.chunks@.len() - i,
        {
            let ghost earlier = chunks.take(i as int);
            let ghost now = chunks.take(i + 1);
            proof {
                reveal(Seq::filter);
                assert(now.drop_last() =~= earlier);
                assert(now.last() == chunks[i as int]);
            }
            if is_wanted(&self.chunks[i], which) {
                let x = to_result(&self.chunks[i], KnowledgeSearchOrigin::Section, 0);
                proof {
                    assert(now.filter(p) =~= earlier.filter(p).push(chunks[i as int]));
                    assert(neighbours(now, *which) =~= neighbours(earlier, *which).push(x));
                    to_multiset_build(neighbours(earlier, *which), x);
                }
                insert_in_order(&mut out, x);
            } else {
                assert(now.filter(p) =~= earlier.filter(p));
                assert(neighbours(now, *which) =~= neighbours(earlier, *which));
            }
            i += 1;
        }
        assert(chunks.take(i as int) =~= chunks);
        out
    }

    /// The chunks of a note under the same headings.
    pub fn section_chunks(&self, document_id: i64, heading_path: Option<String>) -> (r: Vec<KnowledgeSearchResult>)
        ensures
            is_ordered_list(
                r@,
                neighbours(self@.chunks, (Neighbours::Section { document_id, heading_path })),
            ),
    {
        self.list_neighbours(&Neighbours::Section { document_id, heading_path })
    }

    /// The chunks of a note before and behind another.
    pub fn adjacent_chunks(&self, document_id: i64, chunk_index: usize) -> (r: Vec<KnowledgeSearchResult>)
        ensures
            is_ordered_list(
                r@,
                neighbours(self@.chunks, (Neighbours::Adjacent { document_id, chunk_index })),
            ),
    {
        self.list_neighbours(&Neighbours::Adjacent { document_id, chunk_index })
    }
}

// Vectors.

/// Whether the vector is that of the chunk as it is now.
pub open spec fn fits_chunk(e: EmbeddingView, row: ChunkRow, model: Seq<char>, version: i64) -> bool {
    e.chunk_id == row.draft.chunk_id@ && e.model == model && e.embedding_version == version
        && e.content_hash == row.draft.content_hash@
}

pub open spec fn has_vector(embeddings: Seq<EmbeddingView>, row: ChunkRow, model: Seq<char>, version: i64) -> bool {
    exists|i: int| 0 <= i < embeddings.len() && fits_chunk(#[trigger] embeddings[i], row, model, version)
}

pub open spec fn or_nothing(o: Option<String>) -> Seq<char> {
    match o {
        Some(s) => s@,
        None => ""@,
    }
}

/// What the model reads of a chunk: title, headings and text, without blanks around them.
pub open spec fn vector_text(row: ChunkRow) -> Seq<char> {
    text::trim_set(
        or_nothing(row.draft.document_title) + "\n"@ + or_nothing(row.draft.heading_path) + "\n"@
            + row.draft.body@,
        " "@,
    )
}

fn text_of(o: &Option<String>) -> (r: String)
    ensures
        r@ == or_nothing(*o),
{
    match o {
        Some(s) => s.clone(),
        None => "".to_owned(),
    }
}

/// Whether one chunk comes before the other: by note, then by place.
pub open spec fn is_earlier(a: ChunkRow, b: ChunkRow) -> bool {
    a.document_id < b.document_id || (a.document_id == b.document_id && a.draft.chunk_index
        <= b.draft.chunk_index)
}

pub open spec fn in_table_order(rows: Seq<ChunkRow>) -> bool {
    forall|i: int, j: int| 0 <= i < j < rows.len() ==> is_earlier(#[trigger] rows[i], #[trigger] rows[j])
}

pub open spec fn lacking(chunks: Seq<ChunkRow>, embeddings: Seq<EmbeddingView>, model: Seq<char>, version: i64) -> Seq<
    ChunkRow,
> {
    chunks.filter(|c: ChunkRow| !has_vector(embeddings, c, model, version))
}

/// Whether the sources are the chunks without a vector in order.
pub open spec fn is_missing_list(
    r: Seq<KnowledgeEmbeddingSource>,
    rows: Seq<ChunkRow>,
    chunks: Seq<ChunkRow>,
    embeddings: Seq<EmbeddingView>,
    model: Seq<char>,
    version: i64,
) -> bool {
    &&& in_table_order(rows)
    &&& rows.to_multiset() == lacking(chunks, embeddings, model, version).to_multiset()
    &&& r.len() == rows.len()
    &&& forall|i: int|
        0 <= i < r.len() ==> (#[trigger] r[i]).chunk_id == rows[i].draft.chunk_id && r[i].content_hash
            == rows[i].draft.content_hash && r[i].text@ == vector_text(rows[i])
}

fn insert_by_place(v: &mut Vec<ChunkRow>, x: ChunkRow)
    requires
        in_table_order(old(v)@),
    ensures
        in_table_order(final(v)@),
        final(v)@.to_multiset() == old(v)@.to_multiset().insert(x),
{
    let mut k: usize = v.len();
    while k > 0 && !(v[k - 1].document_id < x.document_id || (v[k - 1].document_id == x.document_id
        && v[k - 1].draft.chunk_index <= x.draft.chunk_index))
        invariant
            k <= v@.len(),
            v@ == old(v)@,
            in_table_order(v@),
            forall|i: int| k <= i < v@.len() ==> !is_earlier(#[trigger] v@[i], x),
        decreases k,
    {
        k -= 1;
    }
    let ghost before = v@;
    let ghost y = x;
    v.insert(k, x);
    proof {
        to_multiset_insert(before, k as int, y);
        assert(v@ =~= before.insert(k as int, y));
        assert forall|i: int, j: int| 0 <= i < j < v@.len() implies is_earlier(
            #[trigger] v@[i],
            #[trigger] v@[j],
        ) by {
            if i == k {
                assert(v@[j] == before[j - 1]);
            } else if j == k {
                assert(v@[i] == before[i]);
                if k > 0 && i < k - 1 {
                    assert(is_earlier(before[i], before[k - 1]));
                }
            } else {
                let a = if i < k {
                    i
                } else {
                    i - 1
                };
                let b = if j < k {
                    j
                } else {
                    j - 1
                };
                assert(v@[i] == before[a] && v@[j] == before[b]);
            }
        }
    }
}

/// The embeddings with another one, which takes the place of an older one for the same chunk,
/// model and version.
pub open spec fn with_vector(embeddings: Seq<EmbeddingView>, e: EmbeddingView) -> Seq<EmbeddingView> {
    if exists|i: int| same_key(embeddings, e, i) {
        embeddings.update(choose|i: int| same_key(embeddings, e, i), e)
    } else {
        embeddings.push(e)
    }
}

pub open spec fn same_key(embeddings: Seq<EmbeddingView>, e: EmbeddingView, i: int) -> bool {
    0 <= i < embeddings.len() && embeddings[i].chunk_id == e.chunk_id && embeddings[i].model == e.model
        && embeddings[i].embedding_version == e.embedding_version && forall|j: int|
        0 <= j < i ==> !((#[trigger] embeddings[j]).chunk_id == e.chunk_id && embeddings[j].model == e.model
            && embeddings[j].embedding_version == e.embedding_version)
}

pub open spec fn vector_row(
    record: KnowledgeEmbeddingRecord,
    model: Seq<char>,
    version: i64,
    now: Seq<char>,
) -> EmbeddingView {
    EmbeddingView {
        chunk_id: record.chunk_id@,
        model,
        dimensions: record.vector@.len() / 4,
        embedding_version: version,
        content_hash: record.content_hash@,
        vector: record.vector@,
        updated_at: now,
    }
}

pub open spec fn with_vectors(
    embeddings: Seq<EmbeddingView>,
    records: Seq<KnowledgeEmbeddingRecord>,
    model: Seq<char>,
    version: i64,
    now: Seq<char>,
) -> Seq<EmbeddingView>
    decreases records.len(),
{
    if records.len() == 0 {
        embeddings
    } else {
        with_vector(
            with_vectors(embeddings, records.drop_last(), model, version, now),
            vector_row(records.last(), model, version, now),
        )
    }
}

/// A vector to compare with, and the chunk that it stands for.
#[derive(Debug)]
pub struct VectorCandidate {
    pub result: KnowledgeSearchResult,
    pub vector: Vec<u8>,
}

/// Whether the vector can be compared: it is that of a chunk as it is now, of the right model
/// and size, and its bytes make whole numbers.
pub open spec fn is_comparable(e: EmbeddingView, row: ChunkRow, model: Seq<char>, version: i64, dimensions: nat) -> bool {
    fits_chunk(e, row, model, version) && e.dimensions == dimensions && e.vector.len() % 4 == 0
}

/// All pairs of a vector and its chunk that can be compared, vector by vector.
pub open spec fn pairs(
    embeddings: Seq<EmbeddingView>,
    chunks: Seq<ChunkRow>,
    model: Seq<char>,
    version: i64,
    dimensions: nat,
) -> Seq<(EmbeddingView, ChunkRow)>
    decreases embeddings.len(),
{
    if embeddings.len() == 0 {
        Seq::empty()
    } else {
        let before = pairs(embeddings.drop_last(), chunks, model, version, dimensions);
        let e = embeddings.last();
        if exists|i: int| chunk_with_id(chunks, e.chunk_id, i) {
            let row = chunks[choose|i: int| chunk_with_id(chunks, e.chunk_id, i)];
            if is_comparable(e, row, model, version, dimensions) {
                before.push((e, row))
            } else {
                before
            }
        } else {
            before
        }
    }
}

pub open spec fn chunk_with_id(chunks: Seq<ChunkRow>, chunk_id: Seq<char>, i: int) -> bool {
    0 <= i < chunks.len() && chunks[i].draft.chunk_id@ == chunk_id
}

pub open spec fn are_candidates(
    r: Seq<VectorCandidate>,
    list: Seq<(EmbeddingView, ChunkRow)>,
) -> bool {
    &&& r.len() == list.len()
    &&& forall|i: int|
        0 <= i < r.len() ==> (#[trigger] r[i]).vector@ == list[i].0.vector && r[i].result == result_of(
            list[i].1,
            KnowledgeSearchOrigin::Semantic,
            0,
        )
}

impl KnowledgeStore {
    fn has_current_vector(&self, row: &ChunkRow, model: &str, version: i64) -> (r: bool)
        ensures
            r == has_vector(self@.embeddings, *row, model@, version),
    {
        let mut i: usize = 0;
        while i < self.embeddings.len()
            invariant
                0 <= i <= self.embeddings@.len(),
                forall|k: int|
                    0 <= k < i ==> !fits_chunk(#[trigger] self@.embeddings[k], *row, model@, version),
            decreases self.embeddings@.len() - i,
        {
            let e = &self.embeddings[i];
            assert(self@.embeddings[i as int] == e.shown());
            if e.chunk_id == row.draft.chunk_id && text::same(e.model.as_str(), model)
                && e.embedding_version == version && e.content_hash == row.draft.content_hash {
                assert(fits_chunk(self@.embeddings[i as int], *row, model@, version));
                return true;
            }
            i += 1;
        }
        false
    }

    /// The chunks whose vectors are missing or out of date.
    pub fn missing_embedding_sources(&self, model: &str, embedding_version: i64) -> (r: Vec<
        KnowledgeEmbeddingSource,
    >)
        ensures
            exists|rows: Seq<ChunkRow>| #[trigger]
                is_missing_list(
                    r@,
                    rows,
                    self@.chunks,
                    self@.embeddings,
                    model@,
                    embedding_version,
                ),
    {
        let ghost chunks = self.chunks@;
        let ghost embeddings = self@.embeddings;
        let ghost p = |c: ChunkRow| !has_vector(embeddings, c, model@, embedding_version);
        let mut rows: Vec<ChunkRow> = Vec::new();
        let mut i: usize = 0;
        proof {
            reveal(Seq::filter);
            assert(chunks.take(0) =~= Seq::empty());
            assert(chunks.take(0).filter(p) =~= rows@);
        }
        while i < self.chunks.len()
            invariant
                0 <= i <= self.chunks@.len(),
                chunks == self.chunks@,
                embeddings == self@.embeddings,
                p == (|c: ChunkRow| !has_vector(embeddings, c, model@, embedding_version)),
                in_table_order(rows@),
                rows@.to_multiset() == chunks.take(i as int).filter(p).to_multiset(),
            decreases self.chunks@.len() - i,
        {
            let ghost earlier = chunks.take(i as int);
            let ghost now = chunks.take(i + 1);
            proof {
                reveal(Seq::filter);
                assert(now.drop_last() =~= earlier);
                assert(now.last() == chunks[i as int]);
            }
            if !self.has_current_vector(&self.chunks[i], model, embedding_version) {
                proof {
                    assert(now.filter(p) =~= earlier.filter(p).push(chunks[i as int]));
                    to_multiset_build(earlier.filter(p), chunks[i as int]);
                }
                insert_by_place(&mut rows, self.chunks[i].clone());
            } else {
                assert(now.filter(p) =~= earlier.filter(p));
            }
            i += 1;
        }
        assert(chunks.take(i as int) =~= chunks);
        let mut out: Vec<KnowledgeEmbeddingSource> = Vec::new();
        let mut j: usize = 0;
        while j < rows.len()
            invariant
                0 <= j <= rows@.len(),
                out@.len() == j,
                forall|k: int|
                    0 <= k < j ==> (#[trigger] out@[k]).chunk_id == rows@[k].draft.chunk_id
                        && out@[k].content_hash == rows@[k].draft.content_hash && out@[k].text@
                        == vector_text(rows@[k]),
            decreases rows@.len() - j,
        {
            let row = &rows[j];
            let mut s = text_of(&row.draft.document_title);
            s.append("\n");
            s.append(text_of(&row.draft.heading_path).as_str());
            s.append("\n");
            s.append(row.draft.body.as_str());
            out.push(
                KnowledgeEmbeddingSource {
                    chunk_id: row.draft.chunk_id.clone(),
                    content_hash: row.draft.content_hash.clone(),
                    text: text::trim_chars(s.as_str(), " ").to_owned(),
                },
            );
            j += 1;
        }
        assert(is_missing_list(
            out@,
            rows@,
            self@.chunks,
            self@.embeddings,
            model@,
            embedding_version,
        ));
        out
    }

    fn put_vector(&mut self, row: EmbeddingRow)
        ensures
            final(self).documents == old(self).documents,
            final(self).chunks == old(self).chunks,
            final(self).full_text == old(self).full_text,
            final(self).next_document_id == old(self).next_document_id,
            final(self).next_row_id == old(self).next_row_id,
            final(self)@.embeddings == with_vector(old(self)@.embeddings, row.shown()),
    {
        let ghost all = self@.embeddings;
        let ghost e = row.shown();
        let mut i: usize = 0;
        while i < self.embeddings.len()
            invariant
                0 <= i <= self.embeddings@.len(),
                *self == *old(self),
                all == self@.embeddings,
                e == row.shown(),
                forall|j: int|
                    0 <= j < i ==> !((#[trigger] all[j]).chunk_id == e.chunk_id && all[j].model == e.model
                        && all[j].embedding_version == e.embedding_version),
            decreases self.embeddings@.len() - i,
        {
            assert(all[i as int] == self.embeddings@[i as int].shown());
            if self.embeddings[i].chunk_id == row.chunk_id && self.embeddings[i].model == row.model
                && self.embeddings[i].embedding_version == row.embedding_version {
                proof {
                    assert(same_key(all, e, i as int));
                    let k = choose|k: int| same_key(all, e, k);
                    if k < i {
                        assert(all[k].chunk_id == e.chunk_id);
                    } else if i < k {
                        assert(all[i as int].chunk_id == e.chunk_id);
                    }
                }
                self.embeddings.set(i, row);
                assert(store::shown_embeddings(self.embeddings@) =~= all.update(i as int, e));
                return;
            }
            i += 1;
        }
        proof {
            if exists|k: int| same_key(all, e, k) {
                let k = choose|k: int| same_key(all, e, k);
                assert(all[k].chunk_id == e.chunk_id);
            }
        }
        self.embeddings.push(row);
        assert(store::shown_embeddings(self.embeddings@) =~= all.push(e));
    }

    /// Stores vectors at a given time.
    pub fn upsert_embeddings_at(
        &mut self,
        model: &str,
        embedding_version: i64,
        records: Vec<KnowledgeEmbeddingRecord>,
        now: &str,
    )
        ensures
            final(self)@ == (store::KnowledgeView {
                embeddings: with_vectors(
                    old(self)@.embeddings,
                    records@,
                    model@,
                    embedding_version,
                    now@,
                ),
                ..old(self)@
            }),
            old(self).wf() ==> final(self).wf(),
    {
        let ghost start = self@;
        let mut i: usize = 0;
        assert(records@.take(0) =~= Seq::empty());
        while i < records.len()
            invariant
                0 <= i <= records@.len(),
                start == old(self)@,
                self@ == (store::KnowledgeView {
                    embeddings: with_vectors(
                        start.embeddings,
                        records@.take(i as int),
                        model@,
                        embedding_version,
                        now@,
                    ),
                    ..start
                }),
                old(self).is_searchable() ==> self.is_searchable(),
            decreases records@.len() - i,
        {
            proof {
                assert(records@.take(i + 1).drop_last() =~= records@.take(i as int));
                assert(records@.take(i + 1).last() == records@[i as int]);
            }
            let mut vector: Vec<u8> = Vec::new();
            let mut j: usize = 0;
            while j < records[i].vector.len()
                invariant
                    i < records@.len(),
                    0 <= j <= records@[i as int].vector@.len(),
                    vector@ == records@[i as int].vector@.take(j as int),
                decreases records@[i as int].vector@.len() - j,
            {
                vector.push(records[i].vector[j]);
                j += 1;
                assert(vector@ =~= records@[i as int].vector@.take(j as int));
            }
            assert(vector@ =~= records@[i as int].vector@);
            let dimensions: usize = vector.len() / 4;
            self.put_vector(
                EmbeddingRow {
                    chunk_id: records[i].chunk_id.clone(),
                    model: model.to_owned(),
                    dimensions,
                    embedding_version,
                    content_hash: records[i].content_hash.clone(),
                    vector,
                    updated_at: now.to_owned(),
                },
            );
            i += 1;
        }
        assert(records@.take(i as int) =~= records@);
    }

    /// Stores vectors.
    pub fn upsert_embeddings(&mut self, model: &str, embedding_version: i64, records: Vec<KnowledgeEmbeddingRecord>)
        ensures
            exists|now: Seq<char>|
                final(self)@ == (store::KnowledgeView {
                    embeddings: #[trigger] with_vectors(
                        old(self)@.embeddings,
                        records@,
                        model@,
                        embedding_version,
                        now,
                    ),
                    ..old(self)@
                }),
            old(self).wf() ==> final(self).wf(),
    {
        let now = outside::now_iso_cn();
        self.upsert_embeddings_at(model, embedding_version, records, now.as_str());
    }

    fn find_chunk(&self, chunk_id: &String) -> (r: Option<usize>)
        requires
            self.wf(),
        ensures
            match r {
                Some(i) => i < self.chunks@.len() && chunk_with_id(
                    self.chunks@,
                    chunk_id@,
                    i as int,
                ) && i == (choose|k: int| chunk_with_id(self.chunks@, chunk_id@, k)),
                None => forall|k: int| !chunk_with_id(self.chunks@, chunk_id@, k),
            },
    {
        let mut i: usize = 0;
        while i < self.chunks.len()
            invariant
                0 <= i <= self.chunks@.len(),
                self.wf(),
                forall|k: int| 0 <= k < i ==> !chunk_with_id(self.chunks@, chunk_id@, k),
            decreases self.chunks@.len() - i,
        {
            if self.chunks[i].draft.chunk_id == *chunk_id {
                proof {
                    assert(chunk_with_id(self.chunks@, chunk_id@, i as int));
                    let k = choose|k: int| chunk_with_id(self.chunks@, chunk_id@, k);
                    let c = self@.chunks;
                    if k < i {
                        assert(c[k].row_id != c[i as int].row_id);
                    } else if i < k {
                        assert(c[i as int].row_id != c[k].row_id);
                    }
                }
                return Some(i);
            }
            i += 1;
        }
        None
    }

    /// The vectors that a query vector of this size is compared with.
    pub fn semantic_candidates(&self, model: &str, embedding_version: i64, dimensions: usize) -> (r: Vec<
        VectorCandidate,
    >)
        requires
            self.wf(),
        ensures
            are_candidates(
                r@,
                pairs(
                    self@.embeddings,
                    self@.chunks,
                    model@,
                    embedding_version,
                    dimensions as nat,
                ),
            ),
    {
        let ghost all = self@.embeddings;
        let ghost chunks = self.chunks@;
        let mut out: Vec<VectorCandidate> = Vec::new();
        let mut i: usize = 0;
        assert(all.take(0) =~= Seq::empty());
        while i < self.embeddings.len()
            invariant
                0 <= i <= self.embeddings@.len(),
                self.wf(),
                all == self@.embeddings,
                chunks == self.chunks@,
                are_candidates(
                    out@,
                    pairs(all.take(i as int), chunks, model@, embedding_version, dimensions as nat),
                ),
            decreases self.embeddings@.len() - i,
        {
            let e = &self.embeddings[i];
            proof {
                assert(all.take(i + 1).drop_last() =~= all.take(i as int));
                assert(all.take(i + 1).last() == e.shown());
            }
            match self.find_chunk(&e.chunk_id) {
                Some(k) => {
                    let row = &self.chunks[k];
                    if text::same(e.model.as_str(), model) && e.embedding_version == embedding_version
                        && e.content_hash == row.draft.content_hash && e.dimensions == dimensions
                        && e.vector.len() % 4 == 0 {
                        let mut vector: Vec<u8> = Vec::new();
                        let mut j: usize = 0;
                        while j < e.vector.len()
                            invariant
                                0 <= j <= e.vector@.len(),
                                vector@ == e.vector@.take(j as int),
                            decreases e.vector@.len() - j,
                        {
                            vector.push(e.vector[j]);
                            j += 1;
                            assert(vector@ =~= e.vector@.take(j as int));
                        }
                        assert(vector@ =~= e.vector@);
                        out.push(
                            VectorCandidate {
                                result: to_result(row, KnowledgeSearchOrigin::Semantic, 0),
                                vector,
                            },
                        );
                    }
                },
                None => {},
            }
            i += 1;
        }
        assert(all.take(i as int) =~= all);
        out
    }
}

// Ranking.

/// Whether one result goes before the other: the higher score, then the smaller identifier.
pub open spec fn goes_before(a: KnowledgeSearchResult, b: KnowledgeSearchResult) -> bool {
    a.score > b.score || (a.score == b.score && (a.chunk_id@ == b.chunk_id@ || terms::precedes(
        a.chunk_id@,
        b.chunk_id@,
    )))
}

pub open spec fn is_ranked(v: Seq<KnowledgeSearchResult>) -> bool {
    forall|i: int, j: int| 0 <= i < j < v.len() ==> goes_before(#[trigger] v[i], #[trigger] v[j])
}

proof fn lemma_goes_before(a: KnowledgeSearchResult, b: KnowledgeSearchResult, c: KnowledgeSearchResult)
    ensures
        goes_before(a, b) || goes_before(b, a),
        goes_before(a, b) && goes_before(b, c) ==> goes_before(a, c),
{
    terms::lemma_precedes_total(a.chunk_id@, b.chunk_id@);
    if terms::precedes(a.chunk_id@, b.chunk_id@) && terms::precedes(b.chunk_id@, c.chunk_id@) {
        terms::lemma_precedes_transitive(a.chunk_id@, b.chunk_id@, c.chunk_id@);
    }
}

fn is_before(a: &KnowledgeSearchResult, b: &KnowledgeSearchResult) -> (r: bool)
    ensures
        r == goes_before(*a, *b),
{
    a.score > b.score || (a.score == b.score && (a.chunk_id == b.chunk_id || terms::is_smaller(
        a.chunk_id.as_str(),
        b.chunk_id.as_str(),
    )))
}

/// The results by score; of equal ones the one with the smaller identifier first.
pub fn rank_results(all: Vec<KnowledgeSearchResult>) -> (r: Vec<KnowledgeSearchResult>)
    ensures
        is_ranked(r@),
        r@.to_multiset() == all@.to_multiset(),
{
    let mut out: Vec<KnowledgeSearchResult> = Vec::new();
    let mut i: usize = 0;
    assert(all@.take(0) =~= out@);
    while i < all.len()
        invariant
            0 <= i <= all@.len(),
            is_ranked(out@),
            out@.to_multiset() == all@.take(i as int).to_multiset(),
        decreases all@.len() - i,
    {
        let x = all[i].clone();
        let mut k: usize = out.len();
        while k > 0 && !is_before(&out[k - 1], &x)
            invariant
                k <= out@.len(),
                is_ranked(out@),
                forall|a: int| k <= a < out@.len() ==> !goes_before(#[trigger] out@[a], x),
            decreases k,
        {
            k -= 1;
        }
        let ghost before = out@;
        let ghost y = x;
        out.insert(k, x);
        proof {
            to_multiset_insert(before, k as int, y);
            assert(out@ =~= before.insert(k as int, y));
            assert(all@.take(i + 1) =~= all@.take(i as int).push(y));
            to_multiset_build(all@.take(i as int), y);
            assert forall|a: int, b: int| 0 <= a < b < out@.len() implies goes_before(
                #[trigger] out@[a],
                #[trigger] out@[b],
            ) by {
                if a == k {
                    assert(out@[b] == before[b - 1]);
                    lemma_goes_before(y, before[b - 1], y);
                } else if b == k {
                    assert(out@[a] == before[a]);
                    if a < k - 1 {
                        assert(goes_before(before[a], before[k - 1]));
                        lemma_goes_before(before[a], before[k - 1], y);
                    }
                } else {
                    let c = if a < k {
                        a
                    } else {
                        a - 1
                    };
                    let d = if b < k {
                        b
                    } else {
                        b - 1
                    };
                    assert(out@[a] == before[c] && out@[b] == before[d]);
                }
            }
        }
        i += 1;
    }
    assert(all@.take(i as int) =~= all@);
    out
}

/// Whether the results are the best of all, in order, and as many as are wanted.
pub open spec fn are_best(r: Seq<KnowledgeSearchResult>, ranked: Seq<KnowledgeSearchResult>, all: Seq<KnowledgeSearchResult>, limit: int) -> bool {
    &&& is_ranked(ranked)
    &&& ranked.to_multiset() == all.to_multiset()
    &&& r == (if ranked.len() <= limit {
        ranked
    } else {
        ranked.take(limit)
    })
}

/// The results of a search by meaning, given the chunks with the similarities of their
/// vectors: nothing where the query has no vector.
pub fn semantic_search(query_dimensions: usize, limit: usize, scored: Vec<KnowledgeSearchResult>) -> (r: Vec<
    KnowledgeSearchResult,
>)
    ensures
        query_dimensions == 0 || limit == 0 ==> r@.len() == 0,
        query_dimensions != 0 && limit != 0 ==> exists|ranked: Seq<KnowledgeSearchResult>| #[trigger]
            are_best(r@, ranked, scored@, limit as int),
{
    if query_dimensions == 0 || limit == 0 {
        return Vec::new();
    }
    let ghost all = scored@;
    let mut out = rank_results(scored);
    let ghost ranked = out@;
    if out.len() > limit {
        out.truncate(limit);
    }
    assert(are_best(out@, ranked, all, limit as int));
    out
}

// Laws.

/// After its vector was stored, a chunk misses none.
pub proof fn stored_vectors_are_not_missing(
    embeddings: Seq<EmbeddingView>,
    e: EmbeddingView,
    row: ChunkRow,
)
    requires
        e.chunk_id == row.draft.chunk_id@,
        e.content_hash == row.draft.content_hash@,
    ensures
        has_vector(with_vector(embeddings, e), row, e.model, e.embedding_version),
{
    let after = with_vector(embeddings, e);
    if exists|i: int| same_key(embeddings, e, i) {
        let i = choose|i: int| same_key(embeddings, e, i);
        assert(fits_chunk(after[i], row, e.model, e.embedding_version));
    } else {
        assert(fits_chunk(
            after[embeddings.len() as int],
            row,
            e.model,
            e.embedding_version,
        ));
    }
}

} // verus!
