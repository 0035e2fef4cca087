//! What changing and replacing a record of a plain boundary leaves.
use vstd::prelude::*;
use vstd::string::*;

use crate::memory::mutations;
use crate::memory::records;
use crate::memory::scoped;
use crate::memory::store;
use crate::memory::store::{MemoryRow, RowFilter, StoreView};
use crate::memory::types::{
    MemoryError, MemoryRecord, MemoryScopeType, MemoryStatus, MemoryTarget, PersistMemoryRequest,
    PersistMemoryResult, ReplaceScopedStorageRequest, UpdateMemoryRequest,
};
use crate::text;

verus! {

/// An update changes one record of the boundary, whose identifier starts with the given text;
/// it takes the new words trimmed, and keeps what was not named.
pub proof fn updates_change_one_record(
    s: StoreView,
    t: StoreView,
    record: MemoryRecord,
    scope_type: MemoryScopeType,
    scope_id: Seq<char>,
    id: Seq<char>,
    req: UpdateMemoryRequest,
    now: String,
) -> (k: int)
    requires
        scoped::is_scoped_update(
            s,
            t,
            Ok::<MemoryRecord, MemoryError>(record),
            scope_type,
            scope_id,
            id,
            req,
            now,
        ),
    ensures
        0 <= k < s.rows.len(),
        t.rows.len() == s.rows.len(),
        forall|i: int| 0 <= i < s.rows.len() && i != k ==> #[trigger] t.rows[i] == s.rows[i],
        t.rows[k].record == record,
        t.rows[k].row_id == s.rows[k].row_id,
        text::starts_with(s.rows[k].record.id@, text::trimmed(id)),
        s.rows[k].record.status == MemoryStatus::Active,
        s.rows[k].record.scope_type == scope_type,
        text::opt_view(s.rows[k].record.scope_id) == Some(text::trimmed(scope_id)),
        record.id == s.rows[k].record.id,
        record.scope_id == s.rows[k].record.scope_id,
        record.visibility == s.rows[k].record.visibility,
        record.status == s.rows[k].record.status,
        record.updated_at == Some(now),
        req.content matches Some(c) ==> record.content@ == text::trimmed(c@) && text::trimmed(c@).len() > 0,
        req.content is None ==> record.content == s.rows[k].record.content,
        req.memory_type is None ==> record.memory_type == s.rows[k].record.memory_type,
        req.scope is None ==> record.scope == s.rows[k].record.scope,
{
    let k = choose|k: int| #[trigger]
        scoped::means_row(s, scope_type, scope_id, id, k) && scoped::updates(
            s.rows[k].record,
            record,
            req,
            now,
        ) && t == (StoreView {
            rows: s.rows.update(k, MemoryRow { row_id: s.rows[k].row_id, record }),
            ..s
        });
    k
}

/// An update without anything to change, or with blank words, is refused and changes nothing.
pub proof fn empty_updates_change_nothing(
    s: StoreView,
    t: StoreView,
    r: Result<MemoryRecord, MemoryError>,
    scope_type: MemoryScopeType,
    scope_id: Seq<char>,
    id: Seq<char>,
    req: UpdateMemoryRequest,
    now: String,
)
    requires
        scoped::is_scoped_update(s, t, r, scope_type, scope_id, id, req, now),
    ensures
        req.content is None && req.memory_type is None && req.scope is None ==> r is Err,
        req.content matches Some(c) ==> (text::trimmed(c@).len() == 0 ==> r is Err),
        r is Err ==> t == s,
{
}

/// A replacement takes away the record that was named and stores the new one, which belongs to
/// the same boundary; all others stay.
pub proof fn replacements_take_the_place(
    s: StoreView,
    t: StoreView,
    record: MemoryRecord,
    req: ReplaceScopedStorageRequest,
    content_masked: Seq<char>,
    source_masked: Seq<char>,
    id: String,
    now: String,
) -> (k: int)
    requires
        scoped::is_scoped_replace(
            s,
            t,
            Ok::<MemoryRecord, MemoryError>(record),
            req,
            content_masked,
            source_masked,
            id,
            now,
        ),
    ensures
        0 <= k < s.rows.len(),
        t.rows.len() == s.rows.len(),
        text::starts_with(s.rows[k].record.id@, text::trimmed(req.id_or_prefix@)),
        s.rows[k].record.scope_type == req.scope_type,
        text::opt_view(s.rows[k].record.scope_id) == Some(text::trimmed(req.scope_id@)),
        forall|i: int| 0 <= i < k ==> #[trigger] t.rows[i] == s.rows[i],
        forall|i: int| k < i < s.rows.len() ==> t.rows[i - 1] == #[trigger] s.rows[i],
        t.rows[t.rows.len() - 1].record == record,
        record.content@ == content_masked,
        record.id == id,
        record.scope_type == req.scope_type,
        text::opt_view(record.scope_id) == Some(text::trimmed(req.scope_id@)),
{
    let k = choose|k: int| #[trigger]
        scoped::means_row(s, req.scope_type, req.scope_id@, req.id_or_prefix@, k) && t == (StoreView {
            rows: store::with_record(s, record).rows.remove(k),
            ..store::with_record(s, record)
        });
    let all = store::with_record(s, record).rows;
    assert(t.rows == all.remove(k));
    assert forall|i: int| k < i < s.rows.len() implies t.rows[i - 1] == #[trigger] s.rows[i] by {
        assert(all.remove(k)[i - 1] == all[i]);
    }
    assert(t.rows[t.rows.len() - 1] == all[all.len() - 1]);
    k
}

/// A replacement that fails changes nothing.
pub proof fn failed_replacements_change_nothing(
    s: StoreView,
    t: StoreView,
    r: Result<MemoryRecord, MemoryError>,
    req: ReplaceScopedStorageRequest,
    content_masked: Seq<char>,
    source_masked: Seq<char>,
    id: String,
    now: String,
)
    requires
        scoped::is_scoped_replace(s, t, r, req, content_masked, source_masked, id, now),
    ensures
        r is Err ==> t == s,
        text::trimmed(req.scope_id@).len() == 0 ==> r is Err,
        text::trimmed(req.content@).len() == 0 ==> r is Err,
{
}

/// Replacing a record of a target stores the new words and leaves no other active record under
/// the old identifier; where it fails nothing changes.
pub proof fn replaced_records_are_not_active(
    s: StoreView,
    t: StoreView,
    r: Result<PersistMemoryResult, MemoryError>,
    target: MemoryTarget,
    id: Seq<char>,
    req: PersistMemoryRequest,
    new_id: String,
    now: String,
)
    requires
        mutations::is_replace(s, t, r, target, id, req, new_id, now),
    ensures
        r is Err ==> t == s,
        r matches Ok(done) ==> {
            &&& done.record.id == new_id
            &&& done.record.content@ == text::trimmed(req.content@)
            &&& done.record.visibility == req.visibility
            &&& done.record.status == MemoryStatus::Active
            &&& done.archived_ids@.len() > 0 && done.archived_ids@[0]@ == id
        },
{
    if r is Ok {
        let f = choose|f: RowFilter| #[trigger]
            records::names(f, target, id) && if records::is_missing(s, f) {
                t == s && crate::memory::types::refused(r, "not_found"@, "memory not found"@)
            } else {
                mutations::is_replaced(s, t, r, f, id, req, new_id, now)
            };
        let done = r->Ok_0;
        assert(text::views(done.archived_ids@).len() == done.archived_ids@.len());
        assert(text::views(done.archived_ids@)[0] == id);
        assert(text::views(done.archived_ids@).len() > 0);
        assert(done.archived_ids@[0]@ == text::views(done.archived_ids@)[0]);
    }
}

} // verus!
