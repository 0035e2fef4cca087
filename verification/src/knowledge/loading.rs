//! Tables that come from a database: they are taken only where they fit together.
use vstd::prelude::*;
use vstd::string::*;

use crate::knowledge::store;
use crate::knowledge::store::{
    ChunkRow, DocumentRow, EmbeddingRow, FullTextRow, KnowledgeStore, KnowledgeView,
};
use crate::text;

verus! {

pub open spec fn tables(
    documents: Seq<DocumentRow>,
    chunks: Seq<ChunkRow>,
    embeddings: Seq<EmbeddingRow>,
    next_document_id: i64,
    next_row_id: i64,
) -> KnowledgeView {
    KnowledgeView {
        documents: store::shown_documents(documents),
        chunks,
        embeddings: store::shown_embeddings(embeddings),
        next_document_id,
        next_row_id,
    }
}

/// Whether the note fits behind those before it.
spec fn document_fits(documents: Seq<DocumentRow>, next_document_id: i64, k: int) -> bool {
    &&& documents[k].id < next_document_id
    &&& forall|i: int|
        0 <= i < k ==> (#[trigger] documents[i]).id != documents[k].id && documents[i].relative_path@
            != documents[k].relative_path@
}

fn do_documents_fit(documents: &Vec<DocumentRow>, next_document_id: i64) -> (r: bool)
    ensures
        r == forall|k: int|
            0 <= k < documents@.len() ==> #[trigger] document_fits(documents@, next_document_id, k),
{
    let mut k: usize = 0;
    while k < documents.len()
        invariant
            0 <= k <= documents@.len(),
            forall|j: int|
                0 <= j < k ==> #[trigger] document_fits(documents@, next_document_id, j),
        decreases documents@.len() - k,
    {
        if documents[k].id >= next_document_id {
            assert(!document_fits(documents@, next_document_id, k as int));
            return false;
        }
        let mut i: usize = 0;
        while i < k
            invariant
                0 <= i <= k < documents@.len(),
                forall|j: int|
                    0 <= j < i ==> (#[trigger] documents@[j]).id != documents@[k as int].id
                        && documents@[j].relative_path@ != documents@[k as int].relative_path@,
            decreases k - i,
        {
            if documents[i].id == documents[k].id || text::same(
                documents[i].relative_path.as_str(),
                documents[k].relative_path.as_str(),
            ) {
                assert(!(documents@[i as int].id != documents@[k as int].id
                    && documents@[i as int].relative_path@ != documents@[k as int].relative_path@));
                assert(!document_fits(documents@, next_document_id, k as int));
                return false;
            }
            i += 1;
        }
        k += 1;
    }
    true
}

fn is_document(documents: &Vec<DocumentRow>, id: i64) -> (r: bool)
    ensures
        r == store::has_document(store::shown_documents(documents@), id),
{
    let mut i: usize = 0;
    while i < documents.len()
        invariant
            0 <= i <= documents@.len(),
            forall|j: int| 0 <= j < i ==> (#[trigger] documents@[j]).id != id,
        decreases documents@.len() - i,
    {
        if documents[i].id == id {
            assert(store::shown_documents(documents@)[i as int].id == id);
            return true;
        }
        i += 1;
    }
    assert forall|j: int| 0 <= j < store::shown_documents(documents@).len() implies (
    #[trigger] store::shown_documents(documents@)[j]).id != id by {
        assert(documents@[j].id != id);
    }
    false
}

/// Whether the chunk fits behind those before it and belongs to a note.
spec fn chunk_fits(documents: Seq<DocumentRow>, chunks: Seq<ChunkRow>, next_row_id: i64, k: int) -> bool {
    &&& chunks[k].row_id < next_row_id
    &&& store::has_document(store::shown_documents(documents), chunks[k].document_id)
    &&& forall|i: int|
        0 <= i < k ==> (#[trigger] chunks[i]).draft.chunk_id@ != chunks[k].draft.chunk_id@
            && chunks[i].row_id != chunks[k].row_id
}

fn do_chunks_fit(documents: &Vec<DocumentRow>, chunks: &Vec<ChunkRow>, next_row_id: i64) -> (r: bool)
    ensures
        r == forall|k: int|
            0 <= k < chunks@.len() ==> #[trigger] chunk_fits(documents@, chunks@, next_row_id, k),
{
    let mut k: usize = 0;
    while k < chunks.len()
        invariant
            0 <= k <= chunks@.len(),
            forall|j: int|
                0 <= j < k ==> #[trigger] chunk_fits(documents@, chunks@, next_row_id, j),
        decreases chunks@.len() - k,
    {
        if chunks[k].row_id >= next_row_id || !is_document(documents, chunks[k].document_id) {
            assert(!chunk_fits(documents@, chunks@, next_row_id, k as int));
            return false;
        }
        let mut i: usize = 0;
        while i < k
            invariant
                0 <= i <= k < chunks@.len(),
                forall|j: int|
                    0 <= j < i ==> (#[trigger] chunks@[j]).draft.chunk_id@
                        != chunks@[k as int].draft.chunk_id@ && chunks@[j].row_id
                        != chunks@[k as int].row_id,
            decreases k - i,
        {
            if chunks[i].row_id == chunks[k].row_id || text::same(
                chunks[i].draft.chunk_id.as_str(),
                chunks[k].draft.chunk_id.as_str(),
            ) {
                assert(!(chunks@[i as int].draft.chunk_id@ != chunks@[k as int].draft.chunk_id@
                    && chunks@[i as int].row_id != chunks@[k as int].row_id));
                assert(!chunk_fits(documents@, chunks@, next_row_id, k as int));
                return false;
            }
            i += 1;
        }
        k += 1;
    }
    true
}

/// What full-text search reads of the chunks.
fn full_text_of(chunks: &Vec<ChunkRow>) -> (r: Vec<FullTextRow>)
    ensures
        r@.len() == chunks@.len(),
        forall|i: int|
            0 <= i < chunks@.len() ==> (#[trigger] r@[i]).row_id == chunks@[i].row_id
                && r@[i].search_text@ == chunks@[i].draft.search_text@,
{
    let mut out: Vec<FullTextRow> = Vec::new();
    let mut i: usize = 0;
    while i < chunks.len()
        invariant
            0 <= i <= chunks@.len(),
            out@.len() == i,
            forall|j: int|
                0 <= j < i ==> (#[trigger] out@[j]).row_id == chunks@[j].row_id && out@[j].search_text@
                    == chunks@[j].draft.search_text@,
        decreases chunks@.len() - i,
    {
        out.push(
            FullTextRow {
                row_id: chunks[i].row_id,
                search_text: chunks[i].draft.search_text.clone(),
            },
        );
        i += 1;
    }
    out
}

proof fn lemma_fitting_tables(
    documents: Seq<DocumentRow>,
    chunks: Seq<ChunkRow>,
    embeddings: Seq<EmbeddingRow>,
    next_document_id: i64,
    next_row_id: i64,
)
    ensures
        store::is_consistent(
            tables(documents, chunks, embeddings, next_document_id, next_row_id),
        ) == ((forall|k: int|
            0 <= k < documents.len() ==> #[trigger] document_fits(documents, next_document_id, k)) && (
        forall|k: int|
            0 <= k < chunks.len() ==> #[trigger] chunk_fits(documents, chunks, next_row_id, k))),
{
    let s = tables(documents, chunks, embeddings, next_document_id, next_row_id);
    let fit = (forall|k: int|
        0 <= k < documents.len() ==> #[trigger] document_fits(documents, next_document_id, k)) && (
    forall|k: int| 0 <= k < chunks.len() ==> #[trigger] chunk_fits(documents, chunks, next_row_id, k));
    if fit {
        assert forall|i: int, j: int| 0 <= i < j < s.documents.len() implies (
        #[trigger] s.documents[i]).id != (#[trigger] s.documents[j]).id && s.documents[i].relative_path
            != s.documents[j].relative_path by {
            assert(document_fits(documents, next_document_id, j));
            assert(documents[i].id != documents[j].id);
        }
        assert forall|i: int| 0 <= i < s.documents.len() implies (#[trigger] s.documents[i]).id
            < s.next_document_id by {
            assert(document_fits(documents, next_document_id, i));
        }
        assert forall|i: int, j: int| 0 <= i < j < s.chunks.len() implies (
        #[trigger] s.chunks[i]).draft.chunk_id@ != (#[trigger] s.chunks[j]).draft.chunk_id@
            && s.chunks[i].row_id != s.chunks[j].row_id by {
            assert(chunk_fits(documents, chunks, next_row_id, j));
        }
        assert forall|i: int| 0 <= i < s.chunks.len() implies (#[trigger] s.chunks[i]).row_id
            < s.next_row_id && store::has_document(s.documents, s.chunks[i].document_id) by {
            assert(chunk_fits(documents, chunks, next_row_id, i));
        }
    }
    if store::is_consistent(s) {
        assert forall|k: int| 0 <= k < documents.len() implies #[trigger] document_fits(
            documents,
            next_document_id,
            k,
        ) by {
            assert(s.documents[k].id < s.next_document_id);
            assert forall|i: int| 0 <= i < k implies (#[trigger] documents[i]).id != documents[k].id
                && documents[i].relative_path@ != documents[k].relative_path@ by {
                assert(s.documents[i].id != s.documents[k].id);
            }
        }
    }
}

impl KnowledgeStore {
    /// The tables as they are, if they fit together; full-text search reads the chunks.
    pub fn from_tables(
        documents: Vec<DocumentRow>,
        chunks: Vec<ChunkRow>,
        embeddings: Vec<EmbeddingRow>,
        next_document_id: i64,
        next_row_id: i64,
    ) -> (r: Option<Self>)
        ensures
            match r {
                Some(s) => s.wf() && s@ == tables(
                    documents@,
                    chunks@,
                    embeddings@,
                    next_document_id,
                    next_row_id,
                ),
                None => !store::is_consistent(
                    tables(documents@, chunks@, embeddings@, next_document_id, next_row_id),
                ),
            },
    {
        proof {
            lemma_fitting_tables(documents@, chunks@, embeddings@, next_document_id, next_row_id);
        }
        if !do_documents_fit(&documents, next_document_id) || !do_chunks_fit(
            &documents,
            &chunks,
            next_row_id,
        ) {
            return None;
        }
        let full_text = full_text_of(&chunks);
        Some(
            KnowledgeStore {
                documents,
                chunks,
                full_text,
                embeddings,
                next_document_id,
                next_row_id,
            },
        )
    }
}

} // verus!
