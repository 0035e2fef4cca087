//! Which chunks get a vector, which vectors are compared, and what evidence is made of the
//! chunks that were found.
use vstd::prelude::*;
use vstd::string::*;

use crate::error::ToolError;
use crate::knowledge::evidence::{
    KnowledgeEvidence, KnowledgeEvidenceDiagnostics, KnowledgeEvidenceStatus, KnowledgeInjectionDecision,
    KnowledgeTruncationReason,
};
use crate::knowledge::lookup;
use crate::knowledge::lookup::Neighbours;
use crate::knowledge::ranking;
use crate::knowledge::ranking::{QueryAnswer, RecallChannel};
use crate::knowledge::search_laws;
use crate::knowledge::selection;
use crate::knowledge::selection::{ExpandedResult, SearchOptions};
use crate::knowledge::semantic;
use crate::knowledge::store::{
    ChunkRow, EmbeddingView, KnowledgeEmbeddingSource, KnowledgeSearchResult, KnowledgeView,
};
use crate::text;

verus! {

// Vectors.

/// Whether the vector belongs to the chunk as it is now.
pub open spec fn is_current(e: EmbeddingView, row: ChunkRow, model: Seq<char>, version: i64) -> bool {
    &&& e.chunk_id == row.draft.chunk_id@
    &&& e.content_hash == row.draft.content_hash@
    &&& e.model == model
    &&& e.embedding_version == version
}

/// A chunk lacks a vector exactly if none is stored for its present text, model and version;
/// each that lacks one is listed, and no other.
pub proof fn lacking_chunks_are_listed(
    r: Seq<KnowledgeEmbeddingSource>,
    rows: Seq<ChunkRow>,
    chunks: Seq<ChunkRow>,
    embeddings: Seq<EmbeddingView>,
    model: Seq<char>,
    version: i64,
    k: int,
)
    requires
        lookup::is_missing_list(r, rows, chunks, embeddings, model, version),
        0 <= k < chunks.len(),
    ensures
        (forall|i: int| 0 <= i < embeddings.len() ==> !is_current(#[trigger] embeddings[i], chunks[k], model, version))
            ==> exists|i: int|
            0 <= i < r.len() && (#[trigger] r[i]).chunk_id == chunks[k].draft.chunk_id && r[i].content_hash
                == chunks[k].draft.content_hash,
        forall|i: int|
            0 <= i < r.len() ==> exists|c: int|
                0 <= c < chunks.len() && (#[trigger] r[i]).chunk_id == chunks[c].draft.chunk_id && !(exists|e: int|
                    0 <= e < embeddings.len() && is_current(#[trigger] embeddings[e], chunks[c], model, version)),
{
    let pred = |c: ChunkRow| !lookup::has_vector(embeddings, c, model, version);
    let all = lookup::lacking(chunks, embeddings, model, version);
    lemma_same_members(rows, all);
    if forall|i: int| 0 <= i < embeddings.len() ==> !is_current(#[trigger] embeddings[i], chunks[k], model, version) {
        assert(!lookup::has_vector(embeddings, chunks[k], model, version)) by {
            if lookup::has_vector(embeddings, chunks[k], model, version) {
                let i = choose|i: int|
                    0 <= i < embeddings.len() && lookup::fits_chunk(
                        #[trigger] embeddings[i],
                        chunks[k],
                        model,
                        version,
                    );
                assert(is_current(embeddings[i], chunks[k], model, version));
            }
        }
        chunks.lemma_filter_contains(pred, k);
        assert(rows.contains(chunks[k]));
        let i = choose|i: int| 0 <= i < rows.len() && rows[i] == chunks[k];
        assert(r[i].chunk_id == chunks[k].draft.chunk_id);
    }
    assert forall|i: int| 0 <= i < r.len() implies exists|c: int|
        0 <= c < chunks.len() && (#[trigger] r[i]).chunk_id == chunks[c].draft.chunk_id && !(exists|e: int|
            0 <= e < embeddings.len() && is_current(#[trigger] embeddings[e], chunks[c], model, version)) by {
        assert(rows.contains(rows[i]));
        assert(all.contains(rows[i]));
        let j = choose|j: int| 0 <= j < all.len() && all[j] == rows[i];
        chunks.lemma_filter_pred(pred, j);
        chunks.lemma_filter_contains_rev(pred, all[j]);
        let c = choose|c: int| 0 <= c < chunks.len() && chunks[c] == all[j];
        if exists|e: int| 0 <= e < embeddings.len() && is_current(#[trigger] embeddings[e], chunks[c], model, version) {
            let e = choose|e: int|
                0 <= e < embeddings.len() && is_current(#[trigger] embeddings[e], chunks[c], model, version);
            assert(lookup::fits_chunk(embeddings[e], chunks[c], model, version));
        }
        assert(r[i].chunk_id == chunks[c].draft.chunk_id);
    }
}

proof fn lemma_same_members<T>(a: Seq<T>, b: Seq<T>)
    requires
        a.to_multiset() == b.to_multiset(),
    ensures
        forall|x: T| #[trigger] a.contains(x) <==> b.contains(x),
{
    broadcast use vstd::seq_lib::group_to_multiset_ensures;
    assert forall|x: T| #[trigger] a.contains(x) <==> b.contains(x) by {
        assert(a.contains(x) <==> a.to_multiset().count(x) > 0);
        assert(b.contains(x) <==> b.to_multiset().count(x) > 0);
    }
}

/// Storing a vector leaves exactly it for its chunk, model and version, and touches no other.
pub proof fn stored_vectors_replace_their_own(embeddings: Seq<EmbeddingView>, e: EmbeddingView) -> (p: int)
    ensures
        ({
            let after = lookup::with_vector(embeddings, e);
            &&& 0 <= p < after.len()
            &&& after[p] == e
            &&& forall|i: int| 0 <= i < embeddings.len() && i != p ==> #[trigger] after[i] == embeddings[i]
            &&& after.len() == embeddings.len() || (after.len() == embeddings.len() + 1 && p == embeddings.len())
            &&& p < embeddings.len() ==> embeddings[p].chunk_id == e.chunk_id && embeddings[p].model == e.model
                && embeddings[p].embedding_version == e.embedding_version
        }),
{
    if exists|i: int| lookup::same_key(embeddings, e, i) {
        choose|i: int| lookup::same_key(embeddings, e, i)
    } else {
        embeddings.len() as int
    }
}

/// Storing vectors touches nothing but vectors, and none is stored where their number is not
/// that of the chunks.
pub proof fn vectors_are_stored_together(
    s: KnowledgeView,
    t: KnowledgeView,
    r: Result<usize, ToolError>,
    model: Seq<char>,
    sources: Seq<KnowledgeEmbeddingSource>,
    vectors: Seq<Vec<u8>>,
)
    requires
        semantic::is_sync(s, t, r, model, sources, vectors),
    ensures
        t.documents == s.documents,
        t.chunks == s.chunks,
        r is Err ==> t == s,
        sources.len() == 0 ==> t == s && r == Ok::<usize, ToolError>(0),
        sources.len() > 0 && vectors.len() != sources.len() ==> r is Err,
        sources.len() > 0 && vectors.len() == sources.len() ==> (r matches Ok(n) && n == sources.len()),
{
}

/// The model is asked for the query behind a fixed instruction, whole.
pub proof fn queries_are_asked_whole(query: Seq<char>)
    ensures
        text::ends_with(semantic::query_prompt(query), query),
{
    let s = semantic::query_prompt(query);
    assert(s.subrange(s.len() - query.len(), s.len() as int) =~= query);
}

/// A vector is compared only for a chunk as it is now, of the right model and size.
pub proof fn only_fitting_vectors_are_compared(
    embeddings: Seq<EmbeddingView>,
    chunks: Seq<ChunkRow>,
    model: Seq<char>,
    version: i64,
    dimensions: nat,
    i: int,
)
    requires
        0 <= i < lookup::pairs(embeddings, chunks, model, version, dimensions).len(),
    ensures
        ({
            let p = lookup::pairs(embeddings, chunks, model, version, dimensions)[i];
            &&& is_current(p.0, p.1, model, version)
            &&& p.0.dimensions == dimensions
            &&& embeddings.contains(p.0)
            &&& chunks.contains(p.1)
        }),
    decreases embeddings.len(),
{
    if embeddings.len() > 0 {
        let front = embeddings.drop_last();
        let before = lookup::pairs(front, chunks, model, version, dimensions);
        let all = lookup::pairs(embeddings, chunks, model, version, dimensions);
        if i < before.len() {
            only_fitting_vectors_are_compared(front, chunks, model, version, dimensions, i);
            assert(all[i] == before[i]);
            let k = choose|k: int| 0 <= k < front.len() && front[k] == before[i].0;
            assert(embeddings[k] == before[i].0);
        } else {
            assert(embeddings[embeddings.len() - 1] == embeddings.last());
        }
    }
}

/// Every vector that fits its chunk is compared.
pub proof fn fitting_vectors_are_compared(
    embeddings: Seq<EmbeddingView>,
    chunks: Seq<ChunkRow>,
    model: Seq<char>,
    version: i64,
    dimensions: nat,
    e: int,
    c: int,
)
    requires
        0 <= e < embeddings.len(),
        0 <= c < chunks.len(),
        is_current(embeddings[e], chunks[c], model, version),
        embeddings[e].dimensions == dimensions,
        embeddings[e].vector.len() % 4 == 0,
        forall|i: int, j: int|
            0 <= i < j < chunks.len() ==> (#[trigger] chunks[i]).draft.chunk_id@ != (
            #[trigger] chunks[j]).draft.chunk_id@,
    ensures
        lookup::pairs(embeddings, chunks, model, version, dimensions).contains((embeddings[e], chunks[c])),
    decreases embeddings.len(),
{
    let front = embeddings.drop_last();
    let before = lookup::pairs(front, chunks, model, version, dimensions);
    let all = lookup::pairs(embeddings, chunks, model, version, dimensions);
    if e < front.len() {
        assert(front[e] == embeddings[e]);
        fitting_vectors_are_compared(front, chunks, model, version, dimensions, e, c);
        let i = choose|i: int| 0 <= i < before.len() && before[i] == (embeddings[e], chunks[c]);
        assert(all[i] == before[i]);
    } else {
        let last = embeddings.last();
        assert(last == embeddings[e]);
        assert(lookup::chunk_with_id(chunks, last.chunk_id, c));
        let i = choose|i: int| lookup::chunk_with_id(chunks, last.chunk_id, i);
        if i < c {
            assert(chunks[i].draft.chunk_id@ != chunks[c].draft.chunk_id@);
        }
        if c < i {
            assert(chunks[c].draft.chunk_id@ != chunks[i].draft.chunk_id@);
        }
        assert(all[before.len() as int] == (embeddings[e], chunks[c]));
    }
}

// Neighbours.

/// The chunks around a hit are exactly those of its section, or those next to it, each once,
/// in the order of the note.
pub proof fn neighbours_are_complete(
    r: Seq<KnowledgeSearchResult>,
    chunks: Seq<ChunkRow>,
    which: Neighbours,
    c: int,
)
    requires
        lookup::is_ordered_list(r, lookup::neighbours(chunks, which)),
        0 <= c < chunks.len(),
        match which {
            Neighbours::Section { document_id, heading_path } => chunks[c].document_id == document_id
                && text::opt_view(chunks[c].draft.heading_path) == text::opt_view(heading_path),
            Neighbours::Adjacent { document_id, chunk_index } => chunks[c].document_id == document_id && (
            chunks[c].draft.chunk_index + 1 == chunk_index || chunks[c].draft.chunk_index == chunk_index + 1),
        },
    ensures
        exists|i: int|
            0 <= i < r.len() && (#[trigger] r[i]).chunk_id == chunks[c].draft.chunk_id && r[i].body
                == chunks[c].draft.body,
        forall|i: int, j: int|
            0 <= i < j < r.len() ==> (#[trigger] r[i]).chunk_index <= (#[trigger] r[j]).chunk_index,
{
    let pred = |x: ChunkRow| lookup::is_neighbour(x, which);
    let rows = chunks.filter(pred);
    let all = lookup::neighbours(chunks, which);
    lemma_same_members(r, all);
    chunks.lemma_filter_contains(pred, c);
    let k = choose|k: int| 0 <= k < rows.len() && rows[k] == chunks[c];
    assert(all.contains(all[k]));
    assert(r.contains(all[k]));
    let i = choose|i: int| 0 <= i < r.len() && r[i] == all[k];
    assert(r[i].chunk_id == chunks[c].draft.chunk_id);
}

// Searching by several queries.

/// What any query found by full text is among the candidates.
pub proof fn what_a_query_found_is_a_candidate(answers: Seq<QueryAnswer>, use_semantic: bool, a: int, k: int)
    requires
        0 <= a < answers.len(),
        ranking::is_searched(answers[a]),
        0 <= k < answers[a].lexical@.len(),
        forall|i: int| 0 <= i < answers.len() ==> (#[trigger] answers[i]).lexical@.len() <= usize::MAX,
        forall|i: int|
            0 <= i < answers.len() ==> ((#[trigger] answers[i]).semantic matches Some(f) ==> f@.len() <= usize::MAX),
    ensures
        exists|i: int|
            0 <= i < ranking::retrieved(answers, use_semantic).len() && (#[trigger] ranking::retrieved(
                answers,
                use_semantic,
            )[i]).result.chunk_id@ == answers[a].lexical@[k].chunk_id@,
    decreases answers.len(),
{
    let front = answers.drop_last();
    let last = answers.last();
    let n = answers.len() - 1;
    assert(last == answers[n]);
    let before = ranking::retrieved(front, use_semantic);
    let all = ranking::retrieved(answers, use_semantic);
    let id = answers[a].lexical@[k].chunk_id@;
    assert forall|i: int| 0 <= i < front.len() implies #[trigger] front[i] == answers[i] by {}
    if a < n {
        assert(front[a] == answers[a]);
        what_a_query_found_is_a_candidate(front, use_semantic, a, k);
    }
    if ranking::is_searched(last) {
        let lexical = ranking::with_results(before, last.query@, last.lexical@, RecallChannel::Lexical);
        search_laws::no_result_is_lost(before, last.query@, last.lexical@, RecallChannel::Lexical);
        if a < n {
            let i = choose|i: int| 0 <= i < before.len() && (#[trigger] before[i]).result.chunk_id@ == id;
            assert(lexical[i].result.chunk_id@ == id);
        } else {
            assert(search_laws::is_found_at(lexical, last.lexical@[k].chunk_id@, k));
        }
        let i = choose|i: int| 0 <= i < lexical.len() && (#[trigger] lexical[i]).result.chunk_id@ == id;
        if last.semantic is Some && use_semantic {
            let found = last.semantic->0@;
            search_laws::no_result_is_lost(lexical, last.query@, found, RecallChannel::Semantic);
        }
        assert(all[i].result.chunk_id@ == id);
    }
}

// Numbers.

/// What is reported of a selection is what it did: how many were chosen, how many fell to which
/// reason, and that a limit was met.
pub proof fn selections_are_reported(
    after: KnowledgeEvidenceDiagnostics,
    before: KnowledgeEvidenceDiagnostics,
    st: selection::SelectView,
)
    requires
        selection::tells_selection(after, before, st),
        st.results.len() <= usize::MAX,
        st.per_file <= usize::MAX,
        st.low_relevance <= usize::MAX,
    ensures
        after.selected_hit_count == st.results.len(),
        after.per_file_filtered_count == st.per_file,
        after.low_relevance_filtered_count == st.low_relevance,
        after.latency_ms == before.latency_ms,
        st.per_file > 0 ==> after.truncation_reasons@.contains(KnowledgeTruncationReason::PerFileLimit),
        st.limit_reached ==> after.truncation_reasons@.contains(KnowledgeTruncationReason::ResultLimit),
        st.per_file == 0 && !st.limit_reached ==> after.truncation_reasons@ == before.truncation_reasons@,
{
    let reasons = before.truncation_reasons@;
    let file = KnowledgeTruncationReason::PerFileLimit;
    let most = KnowledgeTruncationReason::ResultLimit;
    let a = if st.per_file > 0 {
        crate::knowledge::evidence::with_reason(reasons, file)
    } else {
        reasons
    };
    lemma_with_reason(reasons, file, file);
    lemma_with_reason(a, most, most);
    lemma_with_reason(a, most, file);
}

proof fn lemma_with_reason(
    reasons: Seq<KnowledgeTruncationReason>,
    reason: KnowledgeTruncationReason,
    other: KnowledgeTruncationReason,
)
    ensures
        crate::knowledge::evidence::with_reason(reasons, reason).contains(reason),
        reasons.contains(other) ==> crate::knowledge::evidence::with_reason(reasons, reason).contains(other),
{
    let after = crate::knowledge::evidence::with_reason(reasons, reason);
    if !reasons.contains(reason) {
        assert(after[reasons.len() as int] == reason);
        if reasons.contains(other) {
            let i = choose|i: int| 0 <= i < reasons.len() && reasons[i] == other;
            assert(after[i] == other);
        }
    }
}

// Evidence.

/// The items of evidence are the chunks that are shown, in their order, as far as there is
/// room; the status says whether something was found, and whether anything is missing.
pub proof fn evidence_is_made_of_chunks(
    e: KnowledgeEvidence,
    shown: Seq<ExpandedResult>,
    options: SearchOptions,
    before: KnowledgeEvidenceDiagnostics,
    injection: KnowledgeInjectionDecision,
    i: int,
)
    requires
        selection::is_evidence(e, shown, options, before, injection),
        0 <= i < e.items@.len(),
    ensures
        e.items@.len() <= shown.len(),
        e.items@[i].chunk_id == shown[i].result.chunk_id,
        e.items@[i].relative_path == shown[i].result.relative_path,
        e.items@[i].heading_path == shown[i].result.heading_path,
        e.items@[i].start_line == shown[i].result.start_line,
        e.items@[i].end_line == shown[i].result.end_line,
        e.items@[i].recall_type == shown[i].recall_type,
        e.items@[i].score == shown[i].score,
{
    lemma_items(shown, options.total_char_budget as int);
    let b = selection::filled(shown, options.total_char_budget as int);
    assert(selection::is_item(e.items@[i], b.items[i]));
}

proof fn lemma_items(shown: Seq<ExpandedResult>, budget: int)
    ensures
        ({
            let b = selection::filled(shown, budget);
            &&& b.items.len() <= shown.len()
            &&& forall|i: int| 0 <= i < b.items.len() ==> (#[trigger] b.items[i]).source == shown[i]
            &&& !b.full ==> b.items.len() == shown.len()
        }),
    decreases shown.len(),
{
    if shown.len() > 0 {
        let front = shown.drop_last();
        lemma_items(front, budget);
        assert(shown.last() == shown[shown.len() - 1]);
        let b = selection::filled(shown, budget);
        let a = selection::filled(front, budget);
        assert forall|i: int| 0 <= i < b.items.len() implies (#[trigger] b.items[i]).source == shown[i] by {
            if i < a.items.len() {
                assert(b.items[i] == a.items[i]);
                assert(front[i] == shown[i]);
            }
        }
    }
}

/// Evidence is complete only if nothing was left out; it tells what was not found, what was too
/// weak, and what was cut.
pub proof fn the_status_tells_how_it_ended(
    e: KnowledgeEvidence,
    shown: Seq<ExpandedResult>,
    options: SearchOptions,
    before: KnowledgeEvidenceDiagnostics,
    injection: KnowledgeInjectionDecision,
)
    requires
        selection::is_evidence(e, shown, options, before, injection),
    ensures
        e.status == KnowledgeEvidenceStatus::NoHit <==> before.fused_candidate_count == 0,
        e.status == KnowledgeEvidenceStatus::LowRelevance <==> before.fused_candidate_count > 0
            && e.items@.len() == 0,
        e.status == KnowledgeEvidenceStatus::Complete ==> e.items@.len() > 0
            && e.diagnostics.truncation_reasons@.len() == 0,
        e.status == KnowledgeEvidenceStatus::Truncated ==> e.diagnostics.truncation_reasons@.len() > 0,
        e.status != KnowledgeEvidenceStatus::Failed,
        e.failure is None,
        e.items@.len() < shown.len() ==> e.diagnostics.truncation_reasons@.contains(
            KnowledgeTruncationReason::CharacterBudget,
        ),
{
    lemma_items(shown, options.total_char_budget as int);
    let b = selection::filled(shown, options.total_char_budget as int);
    lemma_full_is_cut(shown, options.total_char_budget as int);
    let reasons = before.truncation_reasons@;
    let room = KnowledgeTruncationReason::CharacterBudget;
    if !reasons.contains(room) {
        assert(reasons.push(room)[reasons.len() as int] == room);
    }
}

proof fn lemma_full_is_cut(shown: Seq<ExpandedResult>, budget: int)
    ensures
        selection::filled(shown, budget).full ==> selection::filled(shown, budget).truncated,
    decreases shown.len(),
{
    if shown.len() > 0 {
        lemma_full_is_cut(shown.drop_last(), budget);
    }
}

} // verus!
