//! What memory operations do, field by field and row by row: who may, what is stored, what is
//! listed, what goes and what stays.
use vstd::prelude::*;
use vstd::string::*;

use crate::memory::mutations;
use crate::memory::operations;
use crate::memory::records;
use crate::memory::scoped;
use crate::memory::store;
use crate::memory::store::{MemoryRow, RowFilter, StoreView};
use crate::memory::types;
use crate::memory::types::{
    CreateScopedMemoryRequest, MemoryActor, MemoryError, MemoryKind,
    MemoryQuery, MemoryRecord, MemoryScopeType, MemorySourceType,
    MemoryStatus, MemoryTarget, MemoryVisibility, MemoryWriteResult, PersistMemoryResult,
    SaveMemoryRequest, ScopedMemoryQuery, UpdateMemoryRequest,
};
use crate::text;

verus! {

// Who may.

/// Users read and change their own notes, and nobody else's.
pub proof fn notes_are_their_users(target: MemoryTarget, actor: MemoryActor, write: bool)
    requires
        target.scope_type == MemoryScopeType::Personal,
        target.memory_kind == MemoryKind::Personal,
        target.subject_id is None,
    ensures
        operations::may_use(target, actor, write) <==> target.scope_id@ == actor.personal_scope_id@,
{
}

/// Members read and change the notes on themselves in the group that they are in, and on nobody
/// else, whatever they manage.
pub proof fn profiles_are_their_members(target: MemoryTarget, actor: MemoryActor, write: bool)
    requires
        target.scope_type == MemoryScopeType::Group,
        target.memory_kind == MemoryKind::GroupProfile,
        target.subject_id is Some,
    ensures
        operations::may_use(target, actor, write) <==> actor.group_scope_id is Some
            && actor.group_scope_id->0@ == target.scope_id@ && target.subject_id->0@
            == actor.personal_scope_id@,
{
}

/// The notes of a group are read by those who are in it, and changed by those of them who
/// manage it.
pub proof fn group_notes_are_the_groups(target: MemoryTarget, actor: MemoryActor)
    requires
        target.scope_type == MemoryScopeType::Group,
        target.memory_kind == MemoryKind::Group,
    ensures
        ({
            let member = actor.group_scope_id is Some && actor.group_scope_id->0@ == target.scope_id@;
            &&& operations::may_use(target, actor, false) <==> member
            &&& operations::may_use(target, actor, true) <==> member && actor.can_manage_group_memory
        }),
{
}

/// Records without an owner belong to nobody, and no target is of two minds about its boundary.
pub proof fn nobody_uses_the_rest(target: MemoryTarget, actor: MemoryActor, write: bool)
    requires
        target.memory_kind == MemoryKind::LegacyUnassigned || target.scope_type
            == MemoryScopeType::LegacyUnassigned || (target.memory_kind == MemoryKind::Personal)
            != (target.scope_type == MemoryScopeType::Personal),
    ensures
        !operations::may_use(target, actor, write),
{
}

/// Plain boundaries are used likewise: the own one, the group one is in, and, to change that
/// one, with the group in one's hands.
pub proof fn plain_boundaries_are_used_likewise(scope_id: Seq<char>, actor: MemoryActor)
    ensures
        ({
            let member = actor.group_scope_id is Some && actor.group_scope_id->0@ == scope_id;
            let own = actor.personal_scope_id@ == scope_id;
            &&& operations::may_use_scope(MemoryScopeType::Personal, scope_id, actor, false) <==> own
            &&& operations::may_use_scope(MemoryScopeType::Personal, scope_id, actor, true) <==> own
            &&& operations::may_use_scope(MemoryScopeType::Group, scope_id, actor, false) <==> member
            &&& operations::may_use_scope(MemoryScopeType::Group, scope_id, actor, true) <==> member
                && actor.can_manage_group_memory
            &&& !operations::may_use_scope(MemoryScopeType::LegacyUnassigned, scope_id, actor, false)
            &&& !operations::may_use_scope(MemoryScopeType::LegacyUnassigned, scope_id, actor, true)
        }),
{
}

/// A user's notes are not for the members of a group, a group's notes neither private nor for
/// one conversation, and the notes on a member not private.
pub proof fn visibilities_fit_their_targets(target: MemoryTarget, visibility: MemoryVisibility)
    ensures
        target.memory_kind == MemoryKind::Personal ==> (operations::fits_target(target, visibility)
            <==> visibility != MemoryVisibility::GroupMembers),
        target.memory_kind == MemoryKind::GroupProfile ==> (operations::fits_target(target, visibility)
            <==> visibility != MemoryVisibility::Private),
        target.memory_kind == MemoryKind::Group ==> (operations::fits_target(target, visibility)
            <==> visibility == MemoryVisibility::GroupMembers || visibility
            == MemoryVisibility::Public),
        target.memory_kind == MemoryKind::LegacyUnassigned ==> !operations::fits_target(
            target,
            visibility,
        ),
{
}

/// Whoever may not is told so, and nothing changes.
pub proof fn refused_requests_change_nothing(
    s: StoreView,
    t: StoreView,
    r: Result<MemoryWriteResult, MemoryError>,
    req: SaveMemoryRequest,
)
    requires
        operations::save_answer(s, t, r, req),
    ensures
        !operations::may_use(req.target, req.actor, true) ==> t == s && r is Err && r->Err_0.code_text()
            == "forbidden"@,
        operations::may_use(req.target, req.actor, true) && !operations::fits_target(
            req.target,
            req.visibility,
        ) ==> t == s && r is Err && r->Err_0.code_text() == "bad_request"@,
        r is Err ==> t == s,
{
}

// Storing.

/// The trimmed text of an optional one, where something is left of it.
pub open spec fn kept_text(o: Option<String>) -> Option<Seq<char>> {
    if o is Some && !text::blank(o->0@) {
        Some(text::trimmed(o->0@))
    } else {
        None
    }
}

/// Whether the row says what the request says: its words, what they are about, whose they are
/// and who may see them.
pub open spec fn says(row: MemoryRow, req: SaveMemoryRequest) -> bool {
    let record = row.record;
    &&& record.content@ == text::trimmed(req.content@)
    &&& record.source_text@ == req.source_text@
    &&& record.memory_type@ == req.category.name()
    &&& record.visibility == req.visibility
    &&& record.status == MemoryStatus::Active
    &&& record.pinned == req.pinned
    &&& record.source_type == req.source_type
    &&& record.scope_type == req.target.scope_type
    &&& record.memory_kind == req.target.memory_kind
    &&& text::opt_view(record.scope_id) == Some(text::trimmed(req.target.scope_id@))
    &&& text::opt_view(record.subject_id) == kept_text(req.target.subject_id)
    &&& text::opt_view(record.created_by_user_id) == Some(text::trimmed(req.actor.personal_scope_id@))
    &&& text::opt_view(record.attribute_key) == kept_text(req.attribute_key)
    &&& text::opt_view(record.relation_subject_id) == kept_text(req.relation_subject_id)
    &&& text::opt_view(record.relation_object_id) == kept_text(req.relation_object_id)
    &&& text::opt_view(record.source_ref) == kept_text(req.source_ref)
    &&& text::opt_view(record.last_confirmed_at) == kept_text(req.confirmed_at)
}

/// Whether the record is an active one on the same attribute of the same target, with the same
/// relations.
pub open spec fn is_rival(old: MemoryRecord, new: MemoryRecord) -> bool {
    &&& new.attribute_key is Some
    &&& old.status == MemoryStatus::Active
    &&& old.scope_type == new.scope_type
    &&& old.memory_kind == new.memory_kind
    &&& text::opt_view(old.scope_id) == text::opt_view(new.scope_id)
    &&& text::opt_view(old.subject_id) == text::opt_view(new.subject_id)
    &&& text::opt_view(old.attribute_key) == text::opt_view(new.attribute_key)
    &&& text::opt_view(old.relation_subject_id) == text::opt_view(new.relation_subject_id)
    &&& text::opt_view(old.relation_object_id) == text::opt_view(new.relation_object_id)
}

/// Whether the second row is the first one, archived.
pub open spec fn is_archived_form(old: MemoryRow, new: MemoryRow) -> bool {
    &&& new.row_id == old.row_id
    &&& new.record.status == MemoryStatus::Archived
    &&& new.record == (MemoryRecord {
        status: new.record.status,
        updated_at: new.record.updated_at,
        ..old.record
    })
}

/// A memory that is saved stands in a new last row and says what was asked for; active records
/// on the same attribute are archived, and no other row changes.
pub proof fn saving_stores_what_was_said(
    s: StoreView,
    t: StoreView,
    r: Result<MemoryWriteResult, MemoryError>,
    req: SaveMemoryRequest,
)
    requires
        operations::is_save(s, t, r, req),
        r is Ok,
    ensures
        t.rows.len() == s.rows.len() + 1,
        t.rows.last().record == r->Ok_0.memory,
        says(t.rows.last(), req),
        forall|k: int|
            0 <= k < s.rows.len() ==> if is_rival(s.rows[k].record, r->Ok_0.memory) {
                is_archived_form(s.rows[k], #[trigger] t.rows[k])
            } else {
                t.rows[k] == s.rows[k]
            },
        t.preferences == s.preferences,
        t.checkpoints == s.checkpoints,
{
    let (done, id, now) = choose|done: Result<PersistMemoryResult, MemoryError>, id: String, now: String|
        crate::outside::is_record_id(id@) && operations::passes_on(r, done)
            && #[trigger] records::is_stored(s, t, done, operations::as_persisted(req), id, now);
    assert(done is Ok);
    let record = done->Ok_0.record;
    assert forall|k: int| 0 <= k < s.rows.len() implies if is_rival(s.rows[k].record, record) {
        is_archived_form(s.rows[k], #[trigger] t.rows[k])
    } else {
        t.rows[k] == s.rows[k]
    } by {
        if record.attribute_key is Some {
            let f = records::rivals_of(record);
            assert(store::picks(f, s.rows[k]) == is_rival(s.rows[k].record, record));
        }
    }
}

/// A memory with words, an author and a boundary is saved wherever the tables take it, unless
/// the member does not want it kept; one without is refused.
pub proof fn complete_memories_are_saved(
    s: StoreView,
    t: StoreView,
    r: Result<MemoryWriteResult, MemoryError>,
    req: SaveMemoryRequest,
)
    requires
        operations::is_save(s, t, r, req),
    ensures
        text::blank(req.content@) || text::blank(req.target.scope_id@) || text::blank(
            req.actor.personal_scope_id@,
        ) ==> r is Err && r->Err_0.code_text() == "bad_request"@ && t == s,
        r is Err && !text::blank(req.content@) && !text::blank(req.target.scope_id@) && !text::blank(
            req.actor.personal_scope_id@,
        ) && !s.faults.table_dropped && !s.faults.insert_aborts && !s.faults.archive_aborts
            && req.target.memory_kind != MemoryKind::GroupProfile && s.last_row_id < i64::MAX ==> exists|id: Seq<char>|
            crate::outside::is_record_id(id) && #[trigger] store::id_taken(s.rows, id),
{
    let (done, id, now) = choose|done: Result<PersistMemoryResult, MemoryError>, id: String, now: String|
        crate::outside::is_record_id(id@) && operations::passes_on(r, done)
            && #[trigger] records::is_stored(s, t, done, operations::as_persisted(req), id, now);
    if r is Err {
        assert(done is Err);
        if records::is_storable(s, operations::as_persisted(req)) && !s.faults.archive_aborts {
            assert(store::insert_fails(s, id@));
        }
    }
}

// Reading.

/// Whether the record belongs to the target, whose identifiers are read without white space
/// around them.
pub open spec fn is_of(record: MemoryRecord, target: MemoryTarget) -> bool {
    &&& record.scope_type == target.scope_type
    &&& record.memory_kind == target.memory_kind
    &&& text::opt_view(record.scope_id) == Some(text::trimmed(target.scope_id@))
    &&& text::opt_view(record.subject_id) == kept_text(target.subject_id)
}

/// A list of a target holds all of its records of the status asked for, in the order in which
/// they were stored, and nothing else.
pub proof fn lists_are_complete(s: StoreView, r: Result<Vec<MemoryRecord>, MemoryError>, query: MemoryQuery)
    requires
        records::is_listing(s, r, query),
        !s.faults.table_dropped,
        !text::blank(query.target.scope_id@),
    ensures
        r is Ok,
        r->Ok_0@ == s.rows.filter(
            |row: MemoryRow|
                is_of(row.record, query.target) && (query.status is None || row.record.status
                    == query.status->0),
        ).map_values(|row: MemoryRow| row.record),
{
    let f = choose|f: RowFilter| #[trigger]
        records::covers(f, query.target) && r->Ok_0@ == records::records_of(
            s.rows.filter(|row: MemoryRow| records::asked_for(row, f.target, query.status)),
        );
    let a = |row: MemoryRow| records::asked_for(row, f.target, query.status);
    let b = |row: MemoryRow|
        is_of(row.record, query.target) && (query.status is None || row.record.status
            == query.status->0);
    lemma_same_filter(s.rows, a, b);
    assert(r->Ok_0@ =~= s.rows.filter(b).map_values(|row: MemoryRow| row.record));
}

proof fn lemma_same_filter(
    rows: Seq<MemoryRow>,
    a: spec_fn(MemoryRow) -> bool,
    b: spec_fn(MemoryRow) -> bool,
)
    requires
        forall|row: MemoryRow| #[trigger] a(row) == b(row),
    ensures
        rows.filter(a) == rows.filter(b),
    decreases rows.len(),
{
    reveal(Seq::filter);
    if rows.len() > 0 {
        lemma_same_filter(rows.drop_last(), a, b);
        assert(a(rows.last()) == b(rows.last()));
    }
}

/// One record of a target is read by its identifier: the active one that has it, and where
/// there is none, nothing.
pub proof fn one_record_is_read(
    s: StoreView,
    r: Result<MemoryRecord, MemoryError>,
    target: MemoryTarget,
    id: Seq<char>,
    k: int,
)
    requires
        s.wf(),
        records::is_get(s, r, target, id),
        !s.faults.table_dropped,
        !text::blank(target.scope_id@),
    ensures
        ({
            let named = |i: int|
                0 <= i < s.rows.len() && s.rows[i].record.id@ == id && s.rows[i].record.status
                    == MemoryStatus::Active && is_of(s.rows[i].record, target);
            &&& named(k) ==> r is Ok && r->Ok_0 == s.rows[k].record
            &&& r is Err ==> r->Err_0.code_text() == "not_found"@
            &&& r is Ok ==> exists|i: int| #[trigger] named(i) && r->Ok_0 == s.rows[i].record
        }),
{
    let f = choose|f: RowFilter| #[trigger]
        records::names(f, target, id) && match r {
            Ok(record) => records::is_found(s, f, record),
            Err(_) => records::is_missing(s, f) && types::refused(
                r,
                "not_found"@,
                "memory not found"@,
            ),
        };
    let named = |i: int|
        0 <= i < s.rows.len() && s.rows[i].record.id@ == id && s.rows[i].record.status
            == MemoryStatus::Active && is_of(s.rows[i].record, target);
    assert forall|i: int| 0 <= i < s.rows.len() implies #[trigger] named(i) == store::picks(f, s.rows[i]) by {}
    if r is Ok {
        let i = choose|i: int|
            0 <= i < s.rows.len() && store::picks(f, #[trigger] s.rows[i]) && s.rows[i].record == r->Ok_0;
        assert(named(i));
        if named(k) && i != k {
            assert(s.rows[i].record.id@ == s.rows[k].record.id@);
            if i < k {
                assert(s.rows[i].record.id@ != s.rows[k].record.id@);
            } else {
                assert(s.rows[k].record.id@ != s.rows[i].record.id@);
            }
        }
    } else if named(k) {
        assert(store::picks(f, s.rows[k]));
    }
}

// Taking away.

/// Deleting takes the active record of the target with the identifier, and leaves all other
/// rows; where there is none, nothing changes.
pub proof fn deleting_takes_what_was_named(
    s: StoreView,
    t: StoreView,
    r: Result<String, MemoryError>,
    target: MemoryTarget,
    id: Seq<char>,
)
    requires
        mutations::is_delete(s, t, r, target, id),
        !s.faults.table_dropped,
        !text::blank(target.scope_id@),
    ensures
        ({
            let gone = |row: MemoryRow|
                row.record.id@ == id && row.record.status == MemoryStatus::Active && is_of(
                    row.record,
                    target,
                );
            &&& t.rows == s.rows.filter(|row: MemoryRow| !gone(row))
            &&& r is Ok <==> exists|k: int| 0 <= k < s.rows.len() && gone(#[trigger] s.rows[k])
            &&& r is Ok ==> r->Ok_0@ == id
            &&& r is Err ==> t == s && r->Err_0.code_text() == "not_found"@
        }),
{
    let f = choose|f: RowFilter| #[trigger]
        records::names(f, target, id) && if records::is_missing(s, f) {
            t == s && types::refused(r, "not_found"@, "memory not found"@)
        } else {
            t == mutations::without(s, f) && (r matches Ok(done) && done@ == id)
        };
    let gone = |row: MemoryRow|
        row.record.id@ == id && row.record.status == MemoryStatus::Active && is_of(row.record, target);
    assert forall|row: MemoryRow| #[trigger] gone(row) == store::picks(f, row) by {}
    let a = |row: MemoryRow| !gone(row);
    let b = |row: MemoryRow| !store::picks(f, row);
    lemma_same_filter(s.rows, a, b);
    if records::is_missing(s, f) {
        lemma_filter_all(s.rows, a);
    } else {
        let k = choose|k: int| 0 <= k < s.rows.len() && store::picks(f, #[trigger] s.rows[k]);
        assert(gone(s.rows[k]));
    }
}

proof fn lemma_filter_all(rows: Seq<MemoryRow>, a: spec_fn(MemoryRow) -> bool)
    requires
        forall|i: int| 0 <= i < rows.len() ==> a(#[trigger] rows[i]),
    ensures
        rows.filter(a) == rows,
    decreases rows.len(),
{
    reveal(Seq::filter);
    if rows.len() > 0 {
        let front = rows.drop_last();
        assert forall|i: int| 0 <= i < front.len() implies a(#[trigger] front[i]) by {
            assert(front[i] == rows[i]);
        }
        lemma_filter_all(front, a);
        assert(rows.last() == rows[rows.len() - 1]);
        assert(front.push(rows.last()) =~= rows);
    } else {
        assert(rows.filter(a) =~= rows);
    }
}

/// Clearing takes all active records of the target and says which, and leaves all other rows.
pub proof fn clearing_takes_the_whole_target(
    s: StoreView,
    t: StoreView,
    r: Result<Vec<String>, MemoryError>,
    target: MemoryTarget,
)
    requires
        mutations::is_clear(s, t, r, target),
        !s.faults.table_dropped,
        !text::blank(target.scope_id@),
    ensures
        ({
            let gone = |row: MemoryRow|
                row.record.status == MemoryStatus::Active && is_of(row.record, target);
            &&& t.rows == s.rows.filter(|row: MemoryRow| !gone(row))
            &&& r is Ok
            &&& text::views(r->Ok_0@) == s.rows.filter(gone).map_values(|row: MemoryRow| row.record.id@)
        }),
{
    let f = choose|f: RowFilter| #[trigger]
        records::covers(f, target) && t == mutations::without(s, f) && (r matches Ok(ids)
            && text::views(ids@) == store::row_ids(store::picked(s.rows, f)));
    let gone = |row: MemoryRow|
        row.record.status == MemoryStatus::Active && is_of(row.record, target);
    assert forall|row: MemoryRow| #[trigger] gone(row) == store::picks(f, row) by {}
    lemma_same_filter(s.rows, |row: MemoryRow| !gone(row), |row: MemoryRow| !store::picks(f, row));
    lemma_same_filter(s.rows, gone, |row: MemoryRow| store::picks(f, row));
    assert(store::row_ids(store::picked(s.rows, f)) =~= s.rows.filter(gone).map_values(
        |row: MemoryRow| row.record.id@,
    ));
}

/// A list that has changed since is not cleared: only where the active records are exactly the
/// expected ones, in whatever order, are they taken.
pub proof fn a_changed_list_is_not_cleared(
    s: StoreView,
    t: StoreView,
    r: Result<Vec<String>, MemoryError>,
    target: MemoryTarget,
    expected: Seq<Seq<char>>,
)
    requires
        mutations::is_clear_unchanged(s, t, r, target, expected),
        !s.faults.table_dropped,
        !text::blank(target.scope_id@),
    ensures
        ({
            let gone = |row: MemoryRow|
                row.record.status == MemoryStatus::Active && is_of(row.record, target);
            let ids = s.rows.filter(gone).map_values(|row: MemoryRow| row.record.id@);
            &&& r is Ok <==> ids.len() == expected.len() && forall|x: Seq<char>|
                ids.contains(x) <==> expected.contains(x)
            &&& r is Ok ==> t.rows == s.rows.filter(|row: MemoryRow| !gone(row)) && text::views(
                r->Ok_0@,
            ) == ids
            &&& r is Err ==> t == s && r->Err_0.code_text() == "memory_changed"@
        }),
{
    let f = choose|f: RowFilter| #[trigger]
        records::covers(f, target) && if mutations::same_ids(
            store::row_ids(store::picked(s.rows, f)),
            expected,
        ) {
            t == mutations::without(s, f) && (r matches Ok(ids) && text::views(ids@) == store::row_ids(
                store::picked(s.rows, f),
            ))
        } else {
            t == s && mutations::is_stale(r)
        };
    let gone = |row: MemoryRow|
        row.record.status == MemoryStatus::Active && is_of(row.record, target);
    assert forall|row: MemoryRow| #[trigger] gone(row) == store::picks(f, row) by {}
    lemma_same_filter(s.rows, |row: MemoryRow| !gone(row), |row: MemoryRow| !store::picks(f, row));
    lemma_same_filter(s.rows, gone, |row: MemoryRow| store::picks(f, row));
    assert(store::row_ids(store::picked(s.rows, f)) =~= s.rows.filter(gone).map_values(
        |row: MemoryRow| row.record.id@,
    ));
}

/// Archiving keeps every row: the active record of the target with the identifier becomes an
/// archived one, the others stay as they are.
pub proof fn archiving_keeps_every_row(
    s: StoreView,
    t: StoreView,
    r: Result<String, MemoryError>,
    target: MemoryTarget,
    id: Seq<char>,
    now: String,
)
    requires
        mutations::is_archive(s, t, r, target, id, now),
        !s.faults.table_dropped,
        !s.faults.archive_aborts,
        !text::blank(target.scope_id@),
    ensures
        ({
            let gone = |row: MemoryRow|
                row.record.id@ == id && row.record.status == MemoryStatus::Active && is_of(
                    row.record,
                    target,
                );
            &&& t.rows.len() == s.rows.len()
            &&& forall|k: int|
                0 <= k < s.rows.len() ==> if gone(s.rows[k]) {
                    is_archived_form(s.rows[k], #[trigger] t.rows[k])
                } else {
                    t.rows[k] == s.rows[k]
                }
            &&& r is Ok <==> exists|k: int| 0 <= k < s.rows.len() && gone(#[trigger] s.rows[k])
        }),
{
    let f = choose|f: RowFilter| #[trigger]
        records::names(f, target, id) && if records::is_missing(s, f) {
            t == s && types::refused(r, "not_found"@, "memory not found"@)
        } else if s.faults.archive_aborts {
            t == s && types::broken(r)
        } else {
            t == mutations::without_active(s, f, now) && (r matches Ok(done) && done@ == id)
        };
    let gone = |row: MemoryRow|
        row.record.id@ == id && row.record.status == MemoryStatus::Active && is_of(row.record, target);
    assert forall|row: MemoryRow| #[trigger] gone(row) == store::picks(f, row) by {}
    assert forall|k: int| 0 <= k < s.rows.len() implies if gone(s.rows[k]) {
        is_archived_form(s.rows[k], #[trigger] t.rows[k])
    } else {
        t.rows[k] == s.rows[k]
    } by {
        assert(gone(s.rows[k]) == store::picks(f, s.rows[k]));
    }
    if !records::is_missing(s, f) {
        let k = choose|k: int| 0 <= k < s.rows.len() && store::picks(f, #[trigger] s.rows[k]);
        assert(gone(s.rows[k]));
    }
}

/// A record is deleted as of a snapshot only where it still is as it was then; otherwise
/// nothing changes.
pub proof fn a_changed_record_is_not_deleted(
    s: StoreView,
    t: StoreView,
    r: Result<String, MemoryError>,
    target: MemoryTarget,
    id: Seq<char>,
    expected: MemoryRecord,
    k: int,
)
    requires
        s.wf(),
        mutations::is_delete_unchanged(s, t, r, target, id, expected),
        !s.faults.table_dropped,
        !text::blank(target.scope_id@),
        0 <= k < s.rows.len(),
        s.rows[k].record.id@ == id,
    ensures
        s.rows[k].record.content@ != expected.content@ || s.rows[k].record.status
            != MemoryStatus::Active || !is_of(s.rows[k].record, target) ==> r is Err && t == s
            && r->Err_0.code_text() == "memory_changed"@,
        s.rows[k].record == expected && expected.status == MemoryStatus::Active && is_of(expected, target)
            ==> r is Ok && t.rows == s.rows.remove(k),
{
    let f = choose|f: RowFilter| #[trigger]
        records::names(f, target, id) && if mutations::is_unchanged(s, f, expected) {
            t == mutations::without(s, f) && (r matches Ok(done) && done@ == id)
        } else {
            t == s && mutations::is_stale(r)
        };
    if mutations::is_unchanged(s, f, expected) {
        let i = choose|i: int|
            0 <= i < s.rows.len() && store::picks(f, #[trigger] s.rows[i]) && types::same_record(
                s.rows[i].record,
                expected,
            );
        if i != k {
            assert(s.rows[i].record.id@ == s.rows[k].record.id@);
            if i < k {
                assert(s.rows[i].record.id@ != s.rows[k].record.id@);
            } else {
                assert(s.rows[k].record.id@ != s.rows[i].record.id@);
            }
        }
    }
    if s.rows[k].record == expected && expected.status == MemoryStatus::Active && is_of(expected, target) {
        assert(store::picks(f, s.rows[k]));
        assert(types::same_record(s.rows[k].record, expected));
        assert(mutations::is_unchanged(s, f, expected));
        lemma_filter_one(s, f, k);
    }
}

proof fn lemma_filter_one(s: StoreView, f: RowFilter, k: int)
    requires
        s.wf(),
        0 <= k < s.rows.len(),
        store::picks(f, s.rows[k]),
        f.id is Some,
    ensures
        store::deleted_where(s.rows, f) == s.rows.remove(k),
{
    let keep = |row: MemoryRow| !store::picks(f, row);
    let a = s.rows.take(k);
    let b = s.rows.skip(k + 1);
    assert forall|i: int| 0 <= i < s.rows.len() && i != k implies !store::picks(f, #[trigger] s.rows[i]) by {
        if i < k {
            assert(s.rows[i].record.id@ != s.rows[k].record.id@);
        } else {
            assert(s.rows[k].record.id@ != s.rows[i].record.id@);
        }
    }
    assert forall|i: int| 0 <= i < a.len() implies keep(#[trigger] a[i]) by {
        assert(a[i] == s.rows[i]);
    }
    assert forall|i: int| 0 <= i < b.len() implies keep(#[trigger] b[i]) by {
        assert(b[i] == s.rows[k + 1 + i]);
    }
    lemma_filter_all(a, keep);
    lemma_filter_all(b, keep);
    let one = seq![s.rows[k]];
    assert(one.filter(keep) =~= Seq::empty()) by {
        reveal(Seq::filter);
        assert(one.drop_last() =~= Seq::empty());
        assert(one.drop_last().filter(keep) =~= Seq::empty());
        assert(!keep(one.last()));
    }
    assert(s.rows =~= a + one + b);
    Seq::filter_distributes_over_add(a + one, b, keep);
    Seq::filter_distributes_over_add(a, one, keep);
    assert(a + Seq::<MemoryRow>::empty() + b =~= s.rows.remove(k));
}

// Profiles.

/// Opting out archives the notes on the member in that group, and on nobody else; opting in
/// touches no note.
pub proof fn opting_out_archives_the_profile(
    s: StoreView,
    t: StoreView,
    r: Result<Vec<String>, MemoryError>,
    target: MemoryTarget,
    enabled: bool,
    now: String,
)
    requires
        mutations::is_profile_choice(s, t, r, target, enabled, now),
        !s.faults.table_dropped,
        !s.faults.archive_aborts,
        !text::blank(target.scope_id@),
    ensures
        r is Ok,
        t.rows.len() == s.rows.len(),
        forall|k: int|
            0 <= k < s.rows.len() ==> if !enabled && s.rows[k].record.status == MemoryStatus::Active
                && is_of(s.rows[k].record, target) {
                is_archived_form(s.rows[k], #[trigger] t.rows[k])
            } else {
                t.rows[k] == s.rows[k]
            },
        t.checkpoints == s.checkpoints,
{
    let f = choose|f: RowFilter| #[trigger]
        records::covers(f, target) && mutations::is_profile_set(s, t, r, f, enabled, now);
    assert forall|k: int| 0 <= k < s.rows.len() implies if !enabled && s.rows[k].record.status
        == MemoryStatus::Active && is_of(s.rows[k].record, target) {
        is_archived_form(s.rows[k], #[trigger] t.rows[k])
    } else {
        t.rows[k] == s.rows[k]
    } by {
        assert(store::picks(f, s.rows[k]) == (s.rows[k].record.status == MemoryStatus::Active && is_of(
            s.rows[k].record,
            target,
        )));
    }
}

// Plain boundaries.

/// What is created in a plain boundary is an active record that the user confirmed: private
/// to a user, for the members of a group.
pub proof fn created_records_belong_to_their_boundary(
    s: StoreView,
    t: StoreView,
    r: Result<MemoryRecord, MemoryError>,
    req: CreateScopedMemoryRequest,
    content: Seq<char>,
    source: Seq<char>,
    id: String,
    now: String,
)
    requires
        scoped::is_create(s, t, r, req, content, source, id, now),
    ensures
        text::blank(req.content@) || text::blank(req.scope_id@) || text::blank(req.created_by_user_id@)
            ==> r is Err && r->Err_0.code_text() == "bad_request"@,
        r is Err ==> t == s,
        r is Ok ==> {
            let record = r->Ok_0;
            &&& t.rows == s.rows.push(t.rows.last())
            &&& t.rows.last().record == record
            &&& record.content@ == content
            &&& record.source_text@ == source
            &&& record.scope_type == req.scope_type
            &&& text::opt_view(record.scope_id) == Some(text::trimmed(req.scope_id@))
            &&& text::opt_view(record.created_by_user_id) == Some(text::trimmed(req.created_by_user_id@))
            &&& record.source_type == MemorySourceType::UserConfirmed
            &&& !record.pinned
            &&& req.scope_type == MemoryScopeType::Personal ==> record.memory_kind
                == MemoryKind::Personal && record.visibility == MemoryVisibility::Private
                && record.status == MemoryStatus::Active
            &&& req.scope_type == MemoryScopeType::Group ==> record.memory_kind == MemoryKind::Group
                && record.visibility == MemoryVisibility::GroupMembers && record.status
                == MemoryStatus::Active
            &&& req.scope_type == MemoryScopeType::LegacyUnassigned ==> record.status
                == MemoryStatus::Archived
            &&& req.memory_type is None ==> record.memory_type@ == "note"@
            &&& req.scope is None ==> record.scope@ == "general"@
        },
{
}

/// A list of a plain boundary holds all of its active records and nothing else.
pub proof fn plain_lists_are_complete(
    s: StoreView,
    r: Result<Vec<MemoryRecord>, MemoryError>,
    query: ScopedMemoryQuery,
)
    requires
        scoped::is_scoped_list(s, r, query),
        !s.faults.table_dropped,
        !text::blank(query.scope_id@),
        query.scope_type != MemoryScopeType::LegacyUnassigned,
    ensures
        r is Ok,
        r->Ok_0@ == s.rows.filter(
            |row: MemoryRow|
                {
                    &&& row.record.status == MemoryStatus::Active
                    &&& row.record.scope_type == query.scope_type
                    &&& text::opt_view(row.record.scope_id) == Some(text::trimmed(query.scope_id@))
                    &&& (query.scope_type == MemoryScopeType::Personal ==> row.record.memory_kind
                        == MemoryKind::Personal)
                    &&& (query.scope_type == MemoryScopeType::Group ==> row.record.memory_kind
                        == MemoryKind::Group)
                },
        ).map_values(|row: MemoryRow| row.record),
{
    let a = |row: MemoryRow| scoped::in_scope(row, query.scope_type, query.scope_id@);
    let b = |row: MemoryRow|
        {
            &&& row.record.status == MemoryStatus::Active
            &&& row.record.scope_type == query.scope_type
            &&& text::opt_view(row.record.scope_id) == Some(text::trimmed(query.scope_id@))
            &&& (query.scope_type == MemoryScopeType::Personal ==> row.record.memory_kind
                == MemoryKind::Personal)
            &&& (query.scope_type == MemoryScopeType::Group ==> row.record.memory_kind
                == MemoryKind::Group)
        };
    lemma_same_filter(s.rows, a, b);
    assert(r->Ok_0@ =~= s.rows.filter(b).map_values(|row: MemoryRow| row.record));
}

/// Whether the row is an active record of the boundary whose identifier starts like this.
pub open spec fn answers_to(row: MemoryRow, scope_type: MemoryScopeType, scope_id: Seq<char>, id: Seq<char>) -> bool {
    let record = row.record;
    let start = text::trimmed(id);
    &&& record.status == MemoryStatus::Active
    &&& record.scope_type == scope_type
    &&& text::opt_view(record.scope_id) == Some(text::trimmed(scope_id))
    &&& scope_type == MemoryScopeType::Personal ==> record.memory_kind == MemoryKind::Personal
    &&& scope_type == MemoryScopeType::Group ==> record.memory_kind == MemoryKind::Group
    &&& scope_type == MemoryScopeType::LegacyUnassigned ==> record.memory_kind
        == MemoryKind::LegacyUnassigned
    &&& start.len() <= record.id@.len()
    &&& record.id@.take(start.len() as int) == start
}

/// A record of a plain boundary is read by its identifier or the start of it: by the whole one
/// in any case, by a start where no other record has it; a start of several names none.
pub proof fn records_are_read_by_their_start(
    s: StoreView,
    r: Result<MemoryRecord, MemoryError>,
    scope_type: MemoryScopeType,
    scope_id: Seq<char>,
    id: Seq<char>,
    k: int,
)
    requires
        s.wf(),
        scoped::is_scoped_get(s, r, scope_type, scope_id, id),
        !s.faults.table_dropped,
        !text::blank(scope_id),
        !text::blank(id),
        0 <= k < s.rows.len(),
        answers_to(s.rows[k], scope_type, scope_id, id),
    ensures
        s.rows[k].record.id@ == text::trimmed(id) ==> r is Ok && r->Ok_0 == s.rows[k].record,
        (forall|j: int|
            0 <= j < s.rows.len() && answers_to(#[trigger] s.rows[j], scope_type, scope_id, id) ==> j == k)
            ==> r is Ok && r->Ok_0 == s.rows[k].record,
        r is Ok ==> exists|j: int|
            0 <= j < s.rows.len() && answers_to(#[trigger] s.rows[j], scope_type, scope_id, id) && r->Ok_0
                == s.rows[j].record,
        r is Err ==> r->Err_0.code_text() == "bad_request"@,
{
    assert forall|j: int| 0 <= j < s.rows.len() implies answers_to(
        #[trigger] s.rows[j],
        scope_type,
        scope_id,
        id,
    ) == scoped::is_hit(s, scope_type, scope_id, id, j) by {
        let start = text::trimmed(id);
        let full = s.rows[j].record.id@;
        if start.len() <= full.len() {
            assert(full.take(start.len() as int) =~= full.subrange(0, start.len() as int));
        }
    }
    assert(scoped::is_hit(s, scope_type, scope_id, id, k));
    let exact = s.rows[k].record.id@ == text::trimmed(id);
    let alone = forall|j: int|
        0 <= j < s.rows.len() && answers_to(#[trigger] s.rows[j], scope_type, scope_id, id) ==> j == k;
    if exact || alone {
        assert forall|j: int| scoped::is_hit(s, scope_type, scope_id, id, j) && alone implies j == k by {
            assert(answers_to(s.rows[j], scope_type, scope_id, id));
        }
        assert(scoped::means_row(s, scope_type, scope_id, id, k));
    }
    if r is Ok {
        let j = choose|j: int| #[trigger]
            scoped::means_row(s, scope_type, scope_id, id, j) && s.rows[j].record == r->Ok_0;
        assert(answers_to(s.rows[j], scope_type, scope_id, id));
        if exact && j != k {
            if scoped::is_exact(s, scope_type, scope_id, id, j) {
                if j < k {
                    assert(s.rows[j].record.id@ != s.rows[k].record.id@);
                } else {
                    assert(s.rows[k].record.id@ != s.rows[j].record.id@);
                }
            }
        }
    }
}

/// A change of a record of a plain boundary gives it the new words and leaves all else,
/// and all other rows.
pub proof fn changes_keep_what_they_do_not_name(
    a: MemoryRecord,
    b: MemoryRecord,
    req: UpdateMemoryRequest,
    now: String,
)
    requires
        scoped::updates(a, b, req, now),
    ensures
        req.content is Some ==> b.content@ == text::trimmed(req.content->0@),
        req.content is None ==> b.content == a.content,
        req.memory_type is Some && !text::blank(req.memory_type->0@) ==> b.memory_type@ == text::trimmed(
            req.memory_type->0@,
        ),
        req.memory_type is None ==> b.memory_type == a.memory_type,
        req.scope is None ==> b.scope == a.scope,
        b.id == a.id && b.status == a.status && b.scope_type == a.scope_type && b.scope_id == a.scope_id
            && b.memory_kind == a.memory_kind && b.visibility == a.visibility && b.created_at
            == a.created_at,
        b.updated_at == Some(now),
{
}

} // verus!
