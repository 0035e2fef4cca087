//! Meaning: which local model turns texts into vectors, and which vectors are missing.
use vstd::prelude::*;
use vstd::string::*;

use crate::error::ToolError;
use crate::knowledge::lookup;
use crate::knowledge::store;
use crate::knowledge::store::{
    KnowledgeEmbeddingRecord, KnowledgeEmbeddingSource, KnowledgeStore, KnowledgeView,
};
use crate::text;

verus! {

pub const SEMANTIC_MODEL_ID: &'static str = "BAAI/bge-small-zh-v1.5";

/// Changes whenever the same text gives another vector.
pub const SEMANTIC_EMBEDDING_VERSION: i64 = 1;

#[derive(Debug)]
pub struct KnowledgeSemanticConfig {
    pub enabled: bool,
    pub cache_dir: String,
}

impl KnowledgeSemanticConfig {
    pub fn disabled(cache_dir: String) -> (r: Self)
        ensures
            r == (KnowledgeSemanticConfig { enabled: false, cache_dir }),
    {
        KnowledgeSemanticConfig { enabled: false, cache_dir }
    }

    pub fn local(cache_dir: String) -> (r: Self)
        ensures
            r == (KnowledgeSemanticConfig { enabled: true, cache_dir }),
    {
        KnowledgeSemanticConfig { enabled: true, cache_dir }
    }
}

/// What the model is given for a query.
pub open spec fn query_prompt(query: Seq<char>) -> Seq<char> {
    "为这个句子生成表示以用于检索相关文章："@ + query
}

pub fn embed_query_text(query: &str) -> (r: String)
    ensures
        r@ == query_prompt(query@),
{
    let mut s = "为这个句子生成表示以用于检索相关文章：".to_owned();
    s.append(query);
    s
}

/// The first vector that the model returned for a query.
pub fn first_vector(vectors: Vec<Vec<u8>>) -> (r: Result<Vec<u8>, ToolError>)
    ensures
        vectors@.len() > 0 ==> (r matches Ok(v) && v == vectors@[0]),
        vectors@.len() == 0 ==> (r matches Err(e) && e.says(
            "knowledge_embedding_empty"@,
            "local knowledge embedding returned no vector"@,
            "knowledge"@,
        )),
{
    let mut vectors = vectors;
    if vectors.len() == 0 {
        return Err(
            ToolError::new(
                "knowledge_embedding_empty",
                "local knowledge embedding returned no vector",
                "knowledge",
            ),
        );
    }
    Ok(vectors.remove(0))
}

/// Whether the record is the vector of the chunk.
pub open spec fn is_record(r: KnowledgeEmbeddingRecord, source: KnowledgeEmbeddingSource, vector: Vec<u8>) -> bool {
    r.chunk_id == source.chunk_id && r.content_hash == source.content_hash && r.vector@ == vector@
}

fn copy_bytes(v: &Vec<u8>) -> (r: Vec<u8>)
    ensures
        r@ == v@,
{
    let mut out: Vec<u8> = Vec::new();
    let mut i: usize = 0;
    while i < v.len()
        invariant
            0 <= i <= v@.len(),
            out@ == v@.take(i as int),
        decreases v@.len() - i,
    {
        out.push(v[i]);
        i += 1;
        assert(out@ =~= v@.take(i as int));
    }
    assert(out@ =~= v@);
    out
}

/// The vectors that the model returned, each with its chunk; there must be one for each.
pub fn pair_vectors(sources: &Vec<KnowledgeEmbeddingSource>, vectors: &Vec<Vec<u8>>) -> (r: Result<
    Vec<KnowledgeEmbeddingRecord>,
    ToolError,
>)
    ensures
        sources@.len() == vectors@.len() ==> (r matches Ok(v) && v@.len() == sources@.len()
            && forall|i: int|
            0 <= i < v@.len() ==> is_record(#[trigger] v@[i], sources@[i], vectors@[i])),
        sources@.len() != vectors@.len() ==> (r matches Err(e) && e.says(
            "knowledge_embedding_count_mismatch"@,
            "local knowledge embedding result count does not match chunks"@,
            "knowledge"@,
        )),
{
    if vectors.len() != sources.len() {
        return Err(
            ToolError::new(
                "knowledge_embedding_count_mismatch",
                "local knowledge embedding result count does not match chunks",
                "knowledge",
            ),
        );
    }
    let mut out: Vec<KnowledgeEmbeddingRecord> = Vec::new();
    let mut i: usize = 0;
    while i < sources.len()
        invariant
            0 <= i <= sources@.len(),
            sources@.len() == vectors@.len(),
            out@.len() == i,
            forall|k: int| 0 <= k < i ==> is_record(#[trigger] out@[k], sources@[k], vectors@[k]),
        decreases sources@.len() - i,
    {
        out.push(
            KnowledgeEmbeddingRecord {
                chunk_id: sources[i].chunk_id.clone(),
                content_hash: sources[i].content_hash.clone(),
                vector: copy_bytes(&vectors[i]),
            },
        );
        i += 1;
    }
    Ok(out)
}

/// The texts whose vectors are missing, for the model to turn into vectors.
pub fn texts_of(sources: &Vec<KnowledgeEmbeddingSource>) -> (r: Vec<String>)
    ensures
        r@.len() == sources@.len(),
        forall|i: int| 0 <= i < r@.len() ==> #[trigger] r@[i] == sources@[i].text,
{
    let mut out: Vec<String> = Vec::new();
    let mut i: usize = 0;
    while i < sources.len()
        invariant
            0 <= i <= sources@.len(),
            out@.len() == i,
            forall|k: int| 0 <= k < i ==> #[trigger] out@[k] == sources@[k].text,
        decreases sources@.len() - i,
    {
        out.push(sources[i].text.clone());
        i += 1;
    }
    out
}

pub open spec fn are_records(
    records: Seq<KnowledgeEmbeddingRecord>,
    sources: Seq<KnowledgeEmbeddingSource>,
    vectors: Seq<Vec<u8>>,
) -> bool {
    records.len() == sources.len() && forall|i: int|
        0 <= i < records.len() ==> is_record(#[trigger] records[i], sources[i], vectors[i])
}

/// What storing the vectors of the missing chunks leaves and returns. Without missing chunks
/// nothing happens, and with another number of vectors nothing is stored.
pub open spec fn is_sync(
    s: KnowledgeView,
    t: KnowledgeView,
    r: Result<usize, ToolError>,
    model: Seq<char>,
    sources: Seq<KnowledgeEmbeddingSource>,
    vectors: Seq<Vec<u8>>,
) -> bool {
    if sources.len() == 0 {
        t == s && r == Ok::<usize, ToolError>(0)
    } else if vectors.len() != sources.len() {
        t == s && (r matches Err(e) && e.says(
            "knowledge_embedding_count_mismatch"@,
            "local knowledge embedding result count does not match chunks"@,
            "knowledge"@,
        ))
    } else {
        (r matches Ok(n) && n == sources.len()) && exists|
            records: Seq<KnowledgeEmbeddingRecord>,
            now: Seq<char>,
        | #[trigger]
            are_records(records, sources, vectors) && t == (KnowledgeView {
                embeddings: #[trigger] lookup::with_vectors(
                    s.embeddings,
                    records,
                    model,
                    SEMANTIC_EMBEDDING_VERSION,
                    now,
                ),
                ..s
            })
    }
}

/// Stores the vectors that the model returned for the chunks that had none.
pub fn sync_missing(
    store: &mut KnowledgeStore,
    model: &str,
    sources: &Vec<KnowledgeEmbeddingSource>,
    vectors: &Vec<Vec<u8>>,
) -> (r: Result<usize, ToolError>)
    ensures
        is_sync(old(store)@, final(store)@, r, model@, sources@, vectors@),
        old(store).wf() ==> final(store).wf(),
{
    if sources.len() == 0 {
        return Ok(0);
    }
    let records = match pair_vectors(sources, vectors) {
        Ok(v) => v,
        Err(e) => {
            return Err(e);
        },
    };
    let n: usize = records.len();
    let ghost paired = records@;
    assert(are_records(paired, sources@, vectors@));
    store.upsert_embeddings(model, SEMANTIC_EMBEDDING_VERSION, records);
    Ok(n)
}

} // verus!
