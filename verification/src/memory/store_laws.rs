//! What reading gives back of what was written.
use vstd::prelude::*;

use crate::memory::mutations;
use crate::memory::operations;
use crate::memory::records;
use crate::memory::scoped;
use crate::memory::store;
use crate::memory::store::{MemoryRow, RowFilter, StoreView};
use crate::memory::types;
use crate::memory::types::{
    CreateScopedMemoryRequest, MemoryActor, MemoryError, MemoryQuery, MemoryRecord,
    MemoryScopeType, MemoryStatus, MemoryTarget, MemoryWriteResult, PersistMemoryRequest,
    PersistMemoryResult, SaveMemoryRequest,
};
use crate::outside;
use crate::text;

verus! {

/// A filter for the target picks the record that was just stored, and nothing else with
/// its identifier.
proof fn lemma_stored_row(
    s: StoreView,
    t: StoreView,
    done: PersistMemoryResult,
    req: PersistMemoryRequest,
    id: String,
    now: String,
)
    requires
        records::is_stored(s, t, Ok::<PersistMemoryResult, MemoryError>(done), req, id, now),
    ensures
        t.rows.len() == s.rows.len() + 1,
        t.rows.last().record == done.record,
        t.faults == s.faults,
        forall|k: int| 0 <= k < s.rows.len() ==> (#[trigger] t.rows[k]).record.id@ != id@,
{
    assert forall|k: int| 0 <= k < s.rows.len() implies (#[trigger] t.rows[k]).record.id@ != id@ by {
        assert(s.rows[k].record.id@ != id@) by {
            assert(!store::id_taken(s.rows, id@));
        }
        assert(t.rows[k].record.id == s.rows[k].record.id);
    }
}

/// A memory that was saved is what a read of its identifier gives back.
pub proof fn a_saved_memory_is_found(
    s: StoreView,
    t: StoreView,
    done: PersistMemoryResult,
    req: PersistMemoryRequest,
    id: String,
    now: String,
    got: Result<MemoryRecord, MemoryError>,
)
    requires
        records::is_stored(s, t, Ok::<PersistMemoryResult, MemoryError>(done), req, id, now),
        records::is_get(t, got, req.target, id@),
    ensures
        got matches Ok(record) && record == done.record,
{
    lemma_stored_row(s, t, done, req, id, now);
    let f = choose|f: RowFilter| #[trigger]
        records::names(f, req.target, id@) && match got {
            Ok(record) => records::is_found(t, f, record),
            Err(_) => records::is_missing(t, f) && types::refused(
                got,
                "not_found"@,
                "memory not found"@,
            ),
        };
    let last = t.rows.len() - 1;
    assert(store::picks(f, t.rows[last]));
    if let Ok(record) = got {
        let k = choose|k: int|
            0 <= k < t.rows.len() && store::picks(f, #[trigger] t.rows[k]) && t.rows[k].record == record;
        assert(t.rows[k].record.id@ == id@);
        assert(k == last);
    }
}

/// A memory that was saved is among the active records of its target.
pub proof fn a_saved_memory_is_listed(
    s: StoreView,
    t: StoreView,
    done: PersistMemoryResult,
    req: PersistMemoryRequest,
    id: String,
    now: String,
    listed: Result<Vec<MemoryRecord>, MemoryError>,
)
    requires
        records::is_stored(s, t, Ok::<PersistMemoryResult, MemoryError>(done), req, id, now),
        records::is_listing(
            t,
            listed,
            MemoryQuery { target: req.target, status: Some(MemoryStatus::Active) },
        ),
    ensures
        listed matches Ok(all) && all@.contains(done.record),
{
    lemma_stored_row(s, t, done, req, id, now);
    let query = MemoryQuery { target: req.target, status: Some(MemoryStatus::Active) };
    let f = choose|f: RowFilter| #[trigger]
        records::covers(f, query.target) && listed->Ok_0@ == records::records_of(
            t.rows.filter(|row: MemoryRow| records::asked_for(row, f.target, query.status)),
        );
    let wanted = |row: MemoryRow| records::asked_for(row, f.target, query.status);
    let last = t.rows.len() - 1;
    assert(wanted(t.rows[last]));
    t.rows.lemma_filter_contains(wanted, last);
    let shown = t.rows.filter(wanted);
    let k = choose|k: int| 0 <= k < shown.len() && shown[k] == t.rows[last];
    assert(listed->Ok_0@[k] == done.record);
}

/// Two filters for one record pick the same rows.
proof fn lemma_same_picks(f: RowFilter, g: RowFilter, target: MemoryTarget, id: Seq<char>, row: MemoryRow)
    requires
        records::names(f, target, id),
        records::names(g, target, id),
    ensures
        store::picks(f, row) == store::picks(g, row),
{
}

/// A memory that was deleted is not found any more.
pub proof fn a_deleted_memory_is_gone(
    s: StoreView,
    t: StoreView,
    done: Result<String, MemoryError>,
    target: MemoryTarget,
    id: Seq<char>,
    got: Result<MemoryRecord, MemoryError>,
)
    requires
        mutations::is_delete(s, t, done, target, id),
        done is Ok,
        records::is_get(t, got, target, id),
    ensures
        types::refused(got, "not_found"@, "memory not found"@),
{
    let f = choose|f: RowFilter| #[trigger]
        records::names(f, target, id) && !records::is_missing(s, f) && t == mutations::without(s, f);
    let g = choose|g: RowFilter| #[trigger]
        records::names(g, target, id) && match got {
            Ok(record) => records::is_found(t, g, record),
            Err(_) => records::is_missing(t, g) && types::refused(
                got,
                "not_found"@,
                "memory not found"@,
            ),
        };
    if let Ok(record) = got {
        let k = choose|k: int|
            0 <= k < t.rows.len() && store::picks(g, #[trigger] t.rows[k]) && t.rows[k].record == record;
        let kept = |row: MemoryRow| !store::picks(f, row);
        s.rows.lemma_filter_pred(kept, k);
        lemma_same_picks(f, g, target, id, t.rows[k]);
    }
}

/// A memory that was archived is not found any more, though its row is kept.
pub proof fn an_archived_memory_is_not_found(
    s: StoreView,
    t: StoreView,
    done: Result<String, MemoryError>,
    target: MemoryTarget,
    id: Seq<char>,
    now: String,
    got: Result<MemoryRecord, MemoryError>,
)
    requires
        mutations::is_archive(s, t, done, target, id, now),
        done is Ok,
        records::is_get(t, got, target, id),
    ensures
        types::refused(got, "not_found"@, "memory not found"@),
        t.rows.len() == s.rows.len(),
{
    let f = choose|f: RowFilter| #[trigger]
        records::names(f, target, id) && !records::is_missing(s, f) && t == mutations::without_active(
            s,
            f,
            now,
        );
    let g = choose|g: RowFilter| #[trigger]
        records::names(g, target, id) && match got {
            Ok(record) => records::is_found(t, g, record),
            Err(_) => records::is_missing(t, g) && types::refused(
                got,
                "not_found"@,
                "memory not found"@,
            ),
        };
    if let Ok(record) = got {
        let k = choose|k: int|
            0 <= k < t.rows.len() && store::picks(g, #[trigger] t.rows[k]) && t.rows[k].record == record;
        lemma_same_picks(f, g, target, id, s.rows[k]);
        lemma_same_picks(f, g, target, id, t.rows[k]);
    }
}

// At the operations.

/// What an actor has saved is what the actor reads under its identifier.
pub proof fn what_was_saved_is_read_back(
    s: StoreView,
    t: StoreView,
    done: MemoryWriteResult,
    req: SaveMemoryRequest,
    got: Result<MemoryRecord, MemoryError>,
)
    requires
        operations::save_answer(s, t, Ok::<MemoryWriteResult, MemoryError>(done), req),
        operations::get_answer(t, got, req.actor, req.target, done.memory.id@),
    ensures
        got matches Ok(record) && record == done.memory,
{
    let r = Ok::<MemoryWriteResult, MemoryError>(done);
    let (stored, id, now) = choose|
        stored: Result<PersistMemoryResult, MemoryError>,
        id: String,
        now: String,
    |
        outside::is_record_id(id@) && operations::passes_on(r, stored) && #[trigger]
        records::is_stored(s, t, stored, operations::as_persisted(req), id, now);
    a_saved_memory_is_found(
        s,
        t,
        stored->Ok_0,
        operations::as_persisted(req),
        id,
        now,
        got,
    );
}

/// Identifiers that the library makes have no white space around them.
proof fn lemma_record_ids_are_clean(id: Seq<char>)
    requires
        outside::is_record_id(id),
    ensures
        text::cleaned(id) == Some(id),
{
    assert(outside::is_lower_hex(id[0]));
    assert(outside::is_lower_hex(id[35]));
    text::lemma_trim_start(id, 0);
    assert(id.skip(0) =~= id);
    text::lemma_trim_end(id, 36);
    assert(id.take(36) =~= id);
}

/// What an actor has created under a plain boundary is what the actor reads under its
/// identifier.
pub proof fn what_was_created_is_read_back(
    s: StoreView,
    t: StoreView,
    done: MemoryRecord,
    actor: MemoryActor,
    req: CreateScopedMemoryRequest,
    content_masked: Seq<char>,
    source_masked: Seq<char>,
    got: Result<MemoryRecord, MemoryError>,
)
    requires
        operations::create_scoped_answer(
            s,
            t,
            Ok::<MemoryRecord, MemoryError>(done),
            actor,
            req,
            content_masked,
            source_masked,
        ),
        operations::get_scoped_answer(t, got, actor, req.scope_type, req.scope_id@, done.id@),
    ensures
        got matches Ok(record) && record == done,
{
    let r = Ok::<MemoryRecord, MemoryError>(done);
    let own = CreateScopedMemoryRequest { created_by_user_id: actor.personal_scope_id, ..req };
    let (id, now) = choose|id: String, now: String|
        outside::is_record_id(id@) && #[trigger] scoped::is_create(
            s,
            t,
            r,
            own,
            content_masked,
            source_masked,
            id,
            now,
        );
    lemma_record_ids_are_clean(id@);
    scoped::a_created_memory_is_read_back(
        s,
        t,
        done,
        own,
        content_masked,
        source_masked,
        id,
        now,
        got,
    );
}

/// What an actor has deleted was a record of the boundary; it is neither read nor deleted
/// again by its identifier, unless another record of the boundary is taken for it, and all
/// other records are left as they are.
pub proof fn what_was_deleted_is_gone(
    s: StoreView,
    t: StoreView,
    u: StoreView,
    done: Result<String, MemoryError>,
    actor: MemoryActor,
    scope_type: MemoryScopeType,
    scope_id: Seq<char>,
    id: Seq<char>,
    got: Result<MemoryRecord, MemoryError>,
    again: Result<String, MemoryError>,
) -> (k: int)
    requires
        s.wf(),
        operations::delete_scoped_answer(s, t, done, actor, scope_type, scope_id, id),
        done is Ok,
        forall|i: int| !scoped::stands_in(s, scope_type, scope_id, done->Ok_0@, i),
        operations::get_scoped_answer(t, got, actor, scope_type, scope_id, done->Ok_0@),
        operations::delete_scoped_answer(t, u, again, actor, scope_type, scope_id, done->Ok_0@),
    ensures
        0 <= k < s.rows.len(),
        s.rows[k].record.id == done->Ok_0,
        scoped::belongs(s.rows[k].record, scope_type, scope_id),
        t == (StoreView { rows: s.rows.remove(k), ..s }),
        got is Err,
        again is Err,
        u == t,
{
    scoped::a_deleted_record_is_gone(s, t, u, done, scope_type, scope_id, id, got, again);
    scoped::deleting_takes_one_record(s, t, done, scope_type, scope_id, id)
}

/// Among records with identifiers that the library made, none is taken for another.
pub proof fn made_identifiers_are_not_mistaken(
    s: StoreView,
    scope_type: MemoryScopeType,
    scope_id: Seq<char>,
    gone: Seq<char>,
    i: int,
)
    requires
        forall|k: int| 0 <= k < s.rows.len() ==> outside::is_record_id((#[trigger] s.rows[k]).record.id@),
        outside::is_record_id(gone),
    ensures
        !scoped::stands_in(s, scope_type, scope_id, gone, i),
{
    lemma_record_ids_are_clean(gone);
    if scoped::stands_in(s, scope_type, scope_id, gone, i) {
        let other = s.rows[i].record.id@;
        assert(outside::is_record_id(other));
        assert(other.subrange(0, gone.len() as int) =~= other);
        assert(other == gone);
    }
}

} // verus!
