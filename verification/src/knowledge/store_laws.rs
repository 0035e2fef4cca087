//! What listing gives back of what was stored and deleted.
use vstd::prelude::*;

use crate::knowledge::store;
use crate::knowledge::store::{DocumentView, KnowledgeChunkDraft, KnowledgeView};
use crate::knowledge::terms;

verus! {

/// One call that changes which notes there are.
pub enum NoteStep {
    Stored {
        path: Seq<char>,
        file_hash: Seq<char>,
        modified_at: Option<Seq<char>>,
        drafts: Seq<KnowledgeChunkDraft>,
        now: String,
    },
    /// A note that could not be stored.
    Refused { path: Seq<char>, drafts: Seq<KnowledgeChunkDraft> },
    Deleted { path: Seq<char> },
}

/// Whether the call leads from the first tables to the second.
pub open spec fn is_step(s: KnowledgeView, t: KnowledgeView, step: NoteStep) -> bool {
    match step {
        NoteStep::Stored { path, file_hash, modified_at, drafts, now } => !store::replace_fails(
            s,
            path,
            drafts,
        ) && t == store::replaced(s, path, file_hash, modified_at, drafts, now),
        NoteStep::Refused { path, drafts } => store::replace_fails(s, path, drafts) && t == s,
        NoteStep::Deleted { path } => t == store::without_document(s, path),
    }
}

/// Whether the tables follow each other by the calls, from tables without notes on.
pub open spec fn is_history(states: Seq<KnowledgeView>, steps: Seq<NoteStep>) -> bool {
    &&& states.len() == steps.len() + 1
    &&& states[0].documents.len() == 0
    &&& forall|i: int|
        #![trigger steps[i]]
        0 <= i < steps.len() ==> is_step(states[i], states[i + 1], steps[i])
}

pub open spec fn stores(step: NoteStep, p: Seq<char>) -> bool {
    step matches NoteStep::Stored { path, .. } && path == p
}

pub open spec fn deletes(step: NoteStep, p: Seq<char>) -> bool {
    step matches NoteStep::Deleted { path } && path == p
}

/// Whether the note was stored and not deleted since.
pub open spec fn is_kept(steps: Seq<NoteStep>, p: Seq<char>) -> bool {
    exists|i: int|
        0 <= i < steps.len() && stores(#[trigger] steps[i], p) && forall|j: int|
            i < j < steps.len() ==> !deletes(#[trigger] steps[j], p)
}

/// Whether every note has a path of its own.
pub open spec fn paths_differ(documents: Seq<DocumentView>) -> bool {
    forall|i: int, j: int|
        0 <= i < j < documents.len() ==> (#[trigger] documents[i]).relative_path != (
        #[trigger] documents[j]).relative_path
}

/// What one call does to the paths.
proof fn lemma_step(s: KnowledgeView, t: KnowledgeView, step: NoteStep, p: Seq<char>)
    requires
        paths_differ(s.documents),
        is_step(s, t, step),
    ensures
        paths_differ(t.documents),
        store::has_path(t.documents, p) == (stores(step, p) || (store::has_path(s.documents, p)
            && !deletes(step, p))),
{
    match step {
        NoteStep::Stored { path, .. } => {
            if store::has_path(s.documents, path) {
                let k = store::place(s.documents, path);
                assert(store::is_at(s.documents, path, k));
                assert forall|i: int| 0 <= i < t.documents.len() implies (
                #[trigger] t.documents[i]).relative_path == s.documents[i].relative_path by {}
                assert(store::is_at(t.documents, path, k));
            } else {
                let n = s.documents.len() as int;
                assert(store::is_at(t.documents, path, n));
                assert forall|i: int| 0 <= i < n implies (#[trigger] t.documents[i]).relative_path
                    != path by {
                    assert(!store::is_at(s.documents, path, i));
                }
            }
            if store::has_path(s.documents, p) {
                let k = store::place(s.documents, p);
                assert(store::is_at(t.documents, p, k));
            }
            if store::has_path(t.documents, p) && p != path {
                let k = store::place(t.documents, p);
                assert(store::is_at(s.documents, p, k));
            }
        },
        NoteStep::Refused { .. } => {},
        NoteStep::Deleted { path } => {
            if store::has_path(s.documents, path) {
                let k = store::place(s.documents, path);
                assert(store::is_at(s.documents, path, k));
                assert forall|i: int| 0 <= i < t.documents.len() implies #[trigger] t.documents[i]
                    == s.documents[if i < k {
                    i
                } else {
                    i + 1
                }] by {}
                assert forall|i: int, j: int| 0 <= i < j < t.documents.len() implies (
                #[trigger] t.documents[i]).relative_path != (
                #[trigger] t.documents[j]).relative_path by {
                    let a = if i < k { i } else { i + 1 };
                    let b = if j < k { j } else { j + 1 };
                    assert(s.documents[a].relative_path != s.documents[b].relative_path);
                }
                if store::has_path(t.documents, p) {
                    let i = store::place(t.documents, p);
                    let a = if i < k { i } else { i + 1 };
                    assert(store::is_at(s.documents, p, a));
                    assert(s.documents[a].relative_path != s.documents[k].relative_path);
                }
                if store::has_path(s.documents, p) && p != path {
                    let a = store::place(s.documents, p);
                    let i = if a < k { a } else { a - 1 };
                    assert(store::is_at(t.documents, p, i));
                }
            }
        },
    }
}

proof fn lemma_history(states: Seq<KnowledgeView>, steps: Seq<NoteStep>, p: Seq<char>)
    requires
        is_history(states, steps),
    ensures
        paths_differ(states.last().documents),
        store::has_path(states.last().documents, p) == is_kept(steps, p),
    decreases steps.len(),
{
    if steps.len() > 0 {
        let n = steps.len() - 1;
        let before = steps.drop_last();
        let earlier = states.drop_last();
        assert forall|i: int|
            #![trigger before[i]]
            0 <= i < before.len() implies is_step(earlier[i], earlier[i + 1], before[i]) by {
            assert(before[i] == steps[i]);
        }
        lemma_history(earlier, before, p);
        assert(earlier.last() == states[n]);
        assert(is_step(states[n], states[n + 1], steps[n]));
        lemma_step(states[n], states[n + 1], steps[n], p);
        if is_kept(before, p) && !deletes(steps[n], p) {
            let i = choose|i: int|
                0 <= i < before.len() && stores(#[trigger] before[i], p) && forall|j: int|
                    i < j < before.len() ==> !deletes(#[trigger] before[j], p);
            assert(stores(steps[i], p));
            assert forall|j: int| i < j < steps.len() implies !deletes(#[trigger] steps[j], p) by {
                if j < n {
                    assert(before[j] == steps[j]);
                }
            }
        }
        if is_kept(steps, p) && !stores(steps[n], p) {
            let i = choose|i: int|
                0 <= i < steps.len() && stores(#[trigger] steps[i], p) && forall|j: int|
                    i < j < steps.len() ==> !deletes(#[trigger] steps[j], p);
            assert(stores(before[i], p));
            assert forall|j: int| i < j < before.len() implies !deletes(#[trigger] before[j], p) by {
                assert(before[j] == steps[j]);
            }
        }
    }
}

/// After any calls that store and delete notes, the paths that are listed stand in ascending
/// order, each once, and are those of the notes that were stored and not deleted since.
pub proof fn listed_paths_are_those_kept(
    states: Seq<KnowledgeView>,
    steps: Seq<NoteStep>,
    listed: Seq<Seq<char>>,
    p: Seq<char>,
)
    requires
        is_history(states, steps),
        terms::is_sorted_set(listed, store::document_paths(states.last().documents)),
    ensures
        terms::is_ascending(listed),
        listed.contains(p) == is_kept(steps, p),
{
    lemma_history(states, steps, p);
    let documents = states.last().documents;
    let paths = store::document_paths(documents);
    if store::has_path(documents, p) {
        let k = store::place(documents, p);
        assert(paths[k] == p);
    }
    if paths.contains(p) {
        let k = choose|k: int| 0 <= k < paths.len() && paths[k] == p;
        assert(store::is_at(documents, p, k));
    }
}

} // verus!
