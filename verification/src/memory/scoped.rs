//! Records of a plain personal or group boundary, found by identifier or by the start
//! of one. Member profiles are never among them.
use vstd::prelude::*;
use vstd::string::*;

use crate::memory::records;
use crate::memory::store;
use crate::memory::store::{MemoryRow, MemoryStore, StoreView};
use crate::memory::types;
use crate::memory::types::{
    CreateScopedMemoryRequest, MemoryError, MemoryKind, MemoryRecord, MemoryScopeType,
    MemorySourceType, MemoryStatus, MemoryVisibility, ReplaceScopedStorageRequest,
    ScopedMemoryQuery, UpdateMemoryRequest,
};
use crate::text;

verus! {

pub open spec fn kind_of_scope(t: MemoryScopeType) -> MemoryKind {
    match t {
        MemoryScopeType::Personal => MemoryKind::Personal,
        MemoryScopeType::Group => MemoryKind::Group,
        MemoryScopeType::LegacyUnassigned => MemoryKind::LegacyUnassigned,
    }
}

pub open spec fn visibility_of_scope(t: MemoryScopeType) -> MemoryVisibility {
    match t {
        MemoryScopeType::Group => MemoryVisibility::GroupMembers,
        _ => MemoryVisibility::Private,
    }
}

/// Records without an owner are kept out of use.
pub open spec fn status_of_scope(t: MemoryScopeType) -> MemoryStatus {
    match t {
        MemoryScopeType::LegacyUnassigned => MemoryStatus::Archived,
        _ => MemoryStatus::Active,
    }
}

pub open spec fn cleaned_or(o: Option<String>, default: Seq<char>) -> Seq<char> {
    match text::cleaned_opt(text::opt_view(o)) {
        Some(s) => s,
        None => default,
    }
}

/// Whether the record is what the request stores, under this identifier at this time. Its
/// texts are the masked ones.
pub open spec fn builds(
    record: MemoryRecord,
    req: CreateScopedMemoryRequest,
    content_masked: Seq<char>,
    source_masked: Seq<char>,
    id: String,
    now: String,
) -> bool {
    &&& record.id == id
    &&& record.ts == now
    &&& record.created_at == now
    &&& record.updated_at is None
    &&& record.memory_type@ == cleaned_or(req.memory_type, "note"@)
    &&& record.scope@ == cleaned_or(req.scope, "general"@)
    &&& record.scope_type == req.scope_type
    &&& text::opt_view(record.scope_id) == text::cleaned(req.scope_id@)
    &&& text::opt_view(record.created_by_user_id) == text::cleaned(req.created_by_user_id@)
    &&& record.memory_kind == kind_of_scope(req.scope_type)
    &&& record.subject_id is None
    &&& record.relation_subject_id is None
    &&& record.relation_object_id is None
    &&& record.visibility == visibility_of_scope(req.scope_type)
    &&& record.source_type == MemorySourceType::UserConfirmed
    &&& record.source_ref is None
    &&& record.status == status_of_scope(req.scope_type)
    &&& record.last_confirmed_at == (if record.status == MemoryStatus::Active {
        Some(now)
    } else {
        None
    })
    &&& !record.pinned
    &&& record.attribute_key is None
    &&& text::opt_view(record.user_id) == text::cleaned_opt(text::opt_view(req.user_id))
    &&& text::opt_view(record.group_id) == text::cleaned_opt(text::opt_view(req.group_id))
    &&& record.content@ == content_masked
    &&& record.source_text@ == source_masked
}

/// Whether every required text of the request is there.
pub open spec fn is_complete(req: CreateScopedMemoryRequest) -> bool {
    !text::blank(req.content@) && !text::blank(req.scope_id@) && !text::blank(req.created_by_user_id@)
}

/// The answer to a request that lacks a required text.
pub open spec fn says_incomplete<T>(req: CreateScopedMemoryRequest, r: Result<T, MemoryError>) -> bool {
    if text::blank(req.content@) {
        types::refused(r, "bad_request"@, "content is required"@)
    } else if text::blank(req.scope_id@) {
        types::refused(r, "bad_request"@, "scope_id is required"@)
    } else {
        types::refused(r, "bad_request"@, "created_by_user_id is required"@)
    }
}

/// The record that a request stores. `content_masked` is its content without surrounding
/// white space and `source_masked` its source text, both with secrets masked; the texts of
/// the request itself are not stored.
pub fn build_scoped_record(
    req: &CreateScopedMemoryRequest,
    content_masked: &str,
    source_masked: &str,
    id: &String,
    now: &String,
) -> (r: Result<MemoryRecord, MemoryError>)
    ensures
        match r {
            Ok(record) => is_complete(*req) && builds(
                record,
                *req,
                content_masked@,
                source_masked@,
                *id,
                *now,
            ) && (
            record.status == MemoryStatus::Active ==> store::bounded(record)),
            Err(_) => !is_complete(*req) && says_incomplete(*req, r),
        },
{
    proof {
        text::lemma_trimmed_is_clean(req.scope_id@);
    }
    if text::is_blank(req.content.as_str()) {
        return Err(MemoryError::bad_request("content is required"));
    }
    let scope_id = match text::clean_text(req.scope_id.as_str()) {
        Some(c) => c,
        None => {
            return Err(MemoryError::bad_request("scope_id is required"));
        },
    };
    let author = match text::clean_text(req.created_by_user_id.as_str()) {
        Some(c) => c,
        None => {
            return Err(MemoryError::bad_request("created_by_user_id is required"));
        },
    };
    let (memory_kind, visibility, status) = match req.scope_type {
        MemoryScopeType::Personal => (
            MemoryKind::Personal,
            MemoryVisibility::Private,
            MemoryStatus::Active,
        ),
        MemoryScopeType::Group => (
            MemoryKind::Group,
            MemoryVisibility::GroupMembers,
            MemoryStatus::Active,
        ),
        MemoryScopeType::LegacyUnassigned => (
            MemoryKind::LegacyUnassigned,
            MemoryVisibility::Private,
            MemoryStatus::Archived,
        ),
    };
    Ok(
        MemoryRecord {
            id: id.clone(),
            ts: now.clone(),
            created_at: now.clone(),
            updated_at: None,
            memory_type: records::or_default(text::clean_option(&req.memory_type), "note"),
            scope: records::or_default(text::clean_option(&req.scope), "general"),
            scope_type: req.scope_type,
            scope_id: Some(scope_id),
            created_by_user_id: Some(author),
            memory_kind,
            subject_id: None,
            relation_subject_id: None,
            relation_object_id: None,
            visibility,
            source_type: MemorySourceType::UserConfirmed,
            source_ref: None,
            last_confirmed_at: if status == MemoryStatus::Active {
                Some(now.clone())
            } else {
                None
            },
            status,
            pinned: false,
            attribute_key: None,
            user_id: text::clean_option(&req.user_id),
            group_id: text::clean_option(&req.group_id),
            content: content_masked.to_owned(),
            source_text: source_masked.to_owned(),
        },
    )
}

// Finding.

/// Whether the record is an active one of the boundary, and of the kind that belongs there.
pub open spec fn belongs(record: MemoryRecord, scope_type: MemoryScopeType, scope_id: Seq<char>) -> bool {
    &&& record.status == MemoryStatus::Active
    &&& record.scope_type == scope_type
    &&& text::opt_view(record.scope_id) == text::cleaned(scope_id)
    &&& record.memory_kind == kind_of_scope(scope_type)
}

/// Whether the row is an active record of the boundary.
pub open spec fn in_scope(row: MemoryRow, scope_type: MemoryScopeType, scope_id: Seq<char>) -> bool {
    belongs(row.record, scope_type, scope_id)
}

pub open spec fn is_hit(s: StoreView, scope_type: MemoryScopeType, scope_id: Seq<char>, id: Seq<char>, k: int) -> bool {
    &&& 0 <= k < s.rows.len()
    &&& in_scope(s.rows[k], scope_type, scope_id)
    &&& text::starts_with(s.rows[k].record.id@, text::trimmed(id))
}

pub open spec fn is_exact(s: StoreView, scope_type: MemoryScopeType, scope_id: Seq<char>, id: Seq<char>, k: int) -> bool {
    &&& is_hit(s, scope_type, scope_id, id, k)
    &&& s.rows[k].record.id@ == text::trimmed(id)
}

/// Whether the text names row `k`: by its whole identifier, or by the start of no other.
pub open spec fn means_row(s: StoreView, scope_type: MemoryScopeType, scope_id: Seq<char>, id: Seq<char>, k: int) -> bool {
    ||| is_exact(s, scope_type, scope_id, id, k)
    ||| {
        &&& is_hit(s, scope_type, scope_id, id, k)
        &&& forall|j: int| is_hit(s, scope_type, scope_id, id, j) ==> j == k
    }
}

/// The answer where the text names no row.
pub open spec fn says_unresolved<T>(
    s: StoreView,
    scope_type: MemoryScopeType,
    scope_id: Seq<char>,
    id: Seq<char>,
    r: Result<T, MemoryError>,
) -> bool {
    if s.faults.table_dropped {
        types::broken(r)
    } else if text::blank(scope_id) {
        types::refused(r, "bad_request"@, "scope_id is required"@)
    } else if text::blank(id) {
        types::refused(r, "bad_request"@, "memory id is required"@)
    } else if forall|j: int| !is_hit(s, scope_type, scope_id, id, j) {
        types::refused(r, "not_found"@, "memory not found"@)
    } else {
        types::refused(r, "bad_request"@, "memory id prefix is ambiguous"@)
    }
}

pub open spec fn is_resolvable(s: StoreView, scope_type: MemoryScopeType, scope_id: Seq<char>, id: Seq<char>) -> bool {
    &&& !s.faults.table_dropped
    &&& !text::blank(scope_id)
    &&& !text::blank(id)
    &&& exists|k: int| means_row(s, scope_type, scope_id, id, k)
}

fn is_in_scope(row: &MemoryRow, scope_type: MemoryScopeType, clean_scope_id: &str) -> (r: bool)
    requires
        text::cleaned(clean_scope_id@) == Some(clean_scope_id@),
    ensures
        r == in_scope(*row, scope_type, clean_scope_id@),
{
    let kind = match scope_type {
        MemoryScopeType::Personal => MemoryKind::Personal,
        MemoryScopeType::Group => MemoryKind::Group,
        MemoryScopeType::LegacyUnassigned => MemoryKind::LegacyUnassigned,
    };
    row.record.status == MemoryStatus::Active && row.record.scope_type == scope_type
        && row.record.memory_kind == kind && match &row.record.scope_id {
        Some(s) => text::same(s.as_str(), clean_scope_id),
        None => false,
    }
}

impl MemoryStore {
    fn resolve_scoped(&self, scope_type: MemoryScopeType, scope_id: &str, id_or_prefix: &str) -> (r: Result<
        usize,
        MemoryError,
    >)
        requires
            self@.wf(),
        ensures
            match r {
                Ok(k) => is_resolvable(self@, scope_type, scope_id@, id_or_prefix@) && means_row(
                    self@,
                    scope_type,
                    scope_id@,
                    id_or_prefix@,
                    k as int,
                ),
                Err(_) => !is_resolvable(self@, scope_type, scope_id@, id_or_prefix@) && says_unresolved(
                    self@,
                    scope_type,
                    scope_id@,
                    id_or_prefix@,
                    r,
                ),
            },
    {
        proof {
            text::lemma_trimmed_is_clean(scope_id@);
        }
        if self.faults.table_dropped {
            return Err(MemoryError::io("sqlite failed: no such table: memories"));
        }
        let scope = text::trim(scope_id);
        if scope.unicode_len() == 0 {
            return Err(MemoryError::bad_request("scope_id is required"));
        }
        let id = text::trim(id_or_prefix);
        if id.unicode_len() == 0 {
            return Err(MemoryError::bad_request("memory id is required"));
        }
        let mut found: Option<usize> = None;
        let mut many = false;
        let mut i: usize = 0;
        while i < self.rows.len()
            invariant
                0 <= i <= self.rows@.len(),
                !self@.faults.table_dropped,
                !text::blank(scope_id@),
                !text::blank(id_or_prefix@),
                text::cleaned(scope@) == Some(scope@),
                scope@ == text::trimmed(scope_id@),
                id@ == text::trimmed(id_or_prefix@),
                many ==> found is Some,
                forall|k: int| 0 <= k < i ==> !is_exact(self@, scope_type, scope_id@, id_or_prefix@, k),
                match found {
                    Some(k) => k < i && is_hit(self@, scope_type, scope_id@, id_or_prefix@, k as int)
                        && (!many ==> forall|j: int|
                        0 <= j < i && is_hit(self@, scope_type, scope_id@, id_or_prefix@, j) ==> j
                            == k) && (many ==> exists|j: int|
                        0 <= j < i && j != k && is_hit(
                            self@,
                            scope_type,
                            scope_id@,
                            id_or_prefix@,
                            j,
                        )),
                    None => forall|j: int|
                        0 <= j < i ==> !is_hit(self@, scope_type, scope_id@, id_or_prefix@, j),
                },
            decreases self.rows@.len() - i,
        {
            let row = &self.rows[i];
            if is_in_scope(row, scope_type, scope) && text::has_prefix(row.record.id.as_str(), id) {
                assert(is_hit(self@, scope_type, scope_id@, id_or_prefix@, i as int));
                if text::same(row.record.id.as_str(), id) {
                    assert(means_row(self@, scope_type, scope_id@, id_or_prefix@, i as int));
                    return Ok(i);
                }
                match found {
                    Some(_) => {
                        many = true;
                    },
                    None => {
                        found = Some(i);
                    },
                }
            } else {
                assert(!is_hit(self@, scope_type, scope_id@, id_or_prefix@, i as int));
            }
            i += 1;
        }
        match found {
            Some(k) => {
                if many {
                    Err(MemoryError::bad_request("memory id prefix is ambiguous"))
                } else {
                    assert(means_row(self@, scope_type, scope_id@, id_or_prefix@, k as int));
                    Ok(k)
                }
            },
            None => Err(MemoryError::not_found("memory not found")),
        }
    }

    /// Stores a record under `id`, with its texts masked.
    pub fn create_scoped(
        &mut self,
        req: &CreateScopedMemoryRequest,
        content_masked: &str,
        source_masked: &str,
        id: &String,
        now: &String,
    ) -> (r: Result<MemoryRecord, MemoryError>)
        requires
            old(self)@.wf(),
        ensures
            final(self)@.wf(),
            is_create(
                old(self)@,
                final(self)@,
                r,
                *req,
                content_masked@,
                source_masked@,
                *id,
                *now,
            ),
    {
        let record = match build_scoped_record(req, content_masked, source_masked, id, now) {
            Ok(record) => record,
            Err(e) => {
                return Err(e);
            },
        };
        let kept = record.clone();
        match self.insert_record(record) {
            Ok(()) => Ok(kept),
            Err(e) => Err(e),
        }
    }

    /// The active records of the boundary, oldest first.
    pub fn list_scoped(&self, query: &ScopedMemoryQuery) -> (r: Result<Vec<MemoryRecord>, MemoryError>)
        ensures
            is_scoped_list(self@, r, *query),
    {
        proof {
            text::lemma_trimmed_is_clean(query.scope_id@);
        }
        if self.faults.table_dropped {
            return Err(MemoryError::io("sqlite failed: no such table: memories"));
        }
        let scope = text::trim(query.scope_id.as_str());
        if scope.unicode_len() == 0 {
            return Err(MemoryError::bad_request("scope_id is required"));
        }
        let ghost pred = |row: MemoryRow| in_scope(row, query.scope_type, query.scope_id@);
        let mut out: Vec<MemoryRecord> = Vec::new();
        let mut i: usize = 0;
        proof {
            store::lemma_filter_start(self.rows@, pred);
            assert(out@ =~= records::records_of(self.rows@.take(0).filter(pred)));
        }
        while i < self.rows.len()
            invariant
                0 <= i <= self.rows@.len(),
                text::cleaned(scope@) == Some(scope@),
                text::cleaned(query.scope_id@) == Some(scope@),
                pred == (|row: MemoryRow| in_scope(row, query.scope_type, query.scope_id@)),
                out@ == records::records_of(self.rows@.take(i as int).filter(pred)),
            decreases self.rows@.len() - i,
        {
            proof {
                store::lemma_filter_step(self.rows@, pred, i as int);
            }
            let row = &self.rows[i];
            if is_in_scope(row, query.scope_type, scope) {
                assert(pred(self.rows@[i as int]));
                let ghost before = out@;
                out.push(row.record.clone());
                assert(out@ =~= before.push(self.rows@[i as int].record));
                assert(records::records_of(self.rows@.take(i + 1).filter(pred)) =~= before.push(
                    self.rows@[i as int].record,
                ));
            } else {
                assert(!pred(self.rows@[i as int]));
            }
            i += 1;
        }
        assert(self.rows@.take(i as int) =~= self.rows@);
        Ok(out)
    }

    /// The active record of the boundary that the text names.
    pub fn get_scoped(&self, scope_type: MemoryScopeType, scope_id: &str, id_or_prefix: &str) -> (r: Result<
        MemoryRecord,
        MemoryError,
    >)
        requires
            self@.wf(),
        ensures
            is_scoped_get(self@, r, scope_type, scope_id@, id_or_prefix@),
    {
        match self.resolve_scoped(scope_type, scope_id, id_or_prefix) {
            Ok(k) => Ok(self.rows[k].record.clone()),
            Err(e) => Err(e),
        }
    }

    /// Changes fields of the record that the text names.
    pub fn update_scoped(
        &mut self,
        scope_type: MemoryScopeType,
        scope_id: &str,
        id_or_prefix: &str,
        req: &UpdateMemoryRequest,
        now: &String,
    ) -> (r: Result<MemoryRecord, MemoryError>)
        requires
            old(self)@.wf(),
        ensures
            final(self)@.wf(),
            is_scoped_update(
                old(self)@,
                final(self)@,
                r,
                scope_type,
                scope_id@,
                id_or_prefix@,
                *req,
                *now,
            ),
    {
        let ghost s = self@;
        if !req.has_update() {
            return Err(MemoryError::bad_request("no memory update fields provided"));
        }
        let k: usize = match self.resolve_scoped(scope_type, scope_id, id_or_prefix) {
            Ok(k) => k,
            Err(e) => {
                return Err(e);
            },
        };
        let mut record = self.rows[k].record.clone();
        match &req.content {
            Some(c) => {
                match text::clean_text(c.as_str()) {
                    Some(c) => {
                        record.content = c;
                    },
                    None => {
                        return Err(MemoryError::bad_request("content is required"));
                    },
                }
            },
            None => {},
        }
        if req.memory_type.is_some() {
            record.memory_type = records::or_default(text::clean_option(&req.memory_type), "note");
        }
        if req.scope.is_some() {
            record.scope = records::or_default(text::clean_option(&req.scope), "general");
        }
        record.updated_at = Some(now.clone());
        let kept = record.clone();
        assert(updates(s.rows[k as int].record, record, *req, *now));
        let row = MemoryRow { row_id: self.rows[k].row_id, record };
        self.rows.set(k, row);
        proof {
            lemma_updating_keeps_wf(s, k as int, row);
            assert(self@ =~= StoreView { rows: s.rows.update(k as int, row), ..s });
        }
        Ok(kept)
    }

    /// Deletes the record that the text names and returns its identifier.
    pub fn delete_scoped(&mut self, scope_type: MemoryScopeType, scope_id: &str, id_or_prefix: &str) -> (r: Result<
        String,
        MemoryError,
    >)
        requires
            old(self)@.wf(),
        ensures
            final(self)@.wf(),
            is_scoped_delete(old(self)@, final(self)@, r, scope_type, scope_id@, id_or_prefix@),
    {
        let ghost s = self@;
        let k: usize = match self.resolve_scoped(scope_type, scope_id, id_or_prefix) {
            Ok(k) => k,
            Err(e) => {
                return Err(e);
            },
        };
        let gone = self.rows.remove(k);
        proof {
            lemma_removing_keeps_wf(s, k as int);
            assert(self@ =~= StoreView { rows: s.rows.remove(k as int), ..s });
        }
        Ok(gone.record.id)
    }

    /// Stores a record under `id`, with its texts masked, in the place of the one that the text
    /// names.
    pub fn replace_scoped(
        &mut self,
        req: &ReplaceScopedStorageRequest,
        content_masked: &str,
        source_masked: &str,
        id: &String,
        now: &String,
    ) -> (r: Result<MemoryRecord, MemoryError>)
        requires
            old(self)@.wf(),
        ensures
            final(self)@.wf(),
            is_scoped_replace(
                old(self)@,
                final(self)@,
                r,
                *req,
                content_masked@,
                source_masked@,
                *id,
                *now,
            ),
    {
        let ghost s = self@;
        let create = CreateScopedMemoryRequest {
            scope_type: req.scope_type,
            scope_id: req.scope_id.clone(),
            created_by_user_id: req.created_by_user_id.clone(),
            user_id: text::copy_option(&req.user_id),
            group_id: text::copy_option(&req.group_id),
            content: req.content.clone(),
            source_text: req.source_text.clone(),
            memory_type: text::copy_option(&req.memory_type),
            scope: text::copy_option(&req.scope),
        };
        assert(create == replacement(*req));
        if text::is_blank(req.scope_id.as_str()) {
            return Err(MemoryError::bad_request("scope_id is required"));
        }
        let record = match build_scoped_record(&create, content_masked, source_masked, id, now) {
            Ok(record) => record,
            Err(e) => {
                return Err(e);
            },
        };
        let k: usize = match self.resolve_scoped(
            req.scope_type,
            req.scope_id.as_str(),
            req.id_or_prefix.as_str(),
        ) {
            Ok(k) => k,
            Err(e) => {
                return Err(e);
            },
        };
        let kept = record.clone();
        match self.insert_record(record) {
            Ok(()) => {},
            Err(e) => {
                return Err(e);
            },
        }
        let ghost mid = self@;
        let _gone = self.rows.remove(k);
        proof {
            lemma_removing_keeps_wf(mid, k as int);
            assert(self@ =~= StoreView { rows: mid.rows.remove(k as int), ..mid });
        }
        Ok(kept)
    }
}

proof fn lemma_updating_keeps_wf(s: StoreView, k: int, row: MemoryRow)
    requires
        s.wf(),
        0 <= k < s.rows.len(),
        row.row_id == s.rows[k].row_id,
        row.record.id == s.rows[k].record.id,
        row.record.status == s.rows[k].record.status,
        row.record.memory_kind == s.rows[k].record.memory_kind,
        row.record.scope_id == s.rows[k].record.scope_id,
        row.record.subject_id == s.rows[k].record.subject_id,
    ensures
        (StoreView { rows: s.rows.update(k, row), ..s }).wf(),
{
    let t = StoreView { rows: s.rows.update(k, row), ..s };
    assert forall|i: int| 0 <= i < t.rows.len() implies (#[trigger] t.rows[i]).row_id
        == s.rows[i].row_id && t.rows[i].record.id == s.rows[i].record.id by {}
    assert forall|i: int, j: int| 0 <= i < j < t.rows.len() implies (#[trigger] t.rows[i]).row_id < (
    #[trigger] t.rows[j]).row_id by {
        assert(s.rows[i].row_id < s.rows[j].row_id);
    }
    assert forall|i: int, j: int| 0 <= i < j < t.rows.len() implies (#[trigger] t.rows[i]).record.id@
        != (#[trigger] t.rows[j]).record.id@ by {
        assert(s.rows[i].record.id@ != s.rows[j].record.id@);
    }
    assert forall|i: int| 0 <= i < t.rows.len() implies 0 < (#[trigger] t.rows[i]).row_id
        <= t.last_row_id by {
        assert(0 < s.rows[i].row_id <= s.last_row_id);
    }
    assert forall|i: int|
        0 <= i < t.rows.len() && (#[trigger] t.rows[i]).record.status == MemoryStatus::Active
            && t.rows[i].record.memory_kind != MemoryKind::LegacyUnassigned implies store::bounded(
        t.rows[i].record,
    ) by {
        assert(store::bounded(s.rows[i].record));
    }
}

proof fn lemma_removing_keeps_wf(s: StoreView, k: int)
    requires
        s.wf(),
        0 <= k < s.rows.len(),
    ensures
        (StoreView { rows: s.rows.remove(k), ..s }).wf(),
{
    let t = StoreView { rows: s.rows.remove(k), ..s };
    assert forall|i: int| 0 <= i < t.rows.len() implies #[trigger] t.rows[i] == s.rows[if i < k {
        i
    } else {
        i + 1
    }] by {}
    assert forall|i: int, j: int| 0 <= i < j < t.rows.len() implies (#[trigger] t.rows[i]).row_id < (
    #[trigger] t.rows[j]).row_id by {
        let a = if i < k { i } else { i + 1 };
        let b = if j < k { j } else { j + 1 };
        assert(s.rows[a].row_id < s.rows[b].row_id);
    }
    assert forall|i: int, j: int| 0 <= i < j < t.rows.len() implies (#[trigger] t.rows[i]).record.id@
        != (#[trigger] t.rows[j]).record.id@ by {
        let a = if i < k { i } else { i + 1 };
        let b = if j < k { j } else { j + 1 };
        assert(s.rows[a].record.id@ != s.rows[b].record.id@);
    }
    assert forall|i: int| 0 <= i < t.rows.len() implies 0 < (#[trigger] t.rows[i]).row_id
        <= t.last_row_id by {
        let a = if i < k { i } else { i + 1 };
        assert(0 < s.rows[a].row_id <= s.last_row_id);
    }
    assert forall|i: int|
        0 <= i < t.rows.len() && (#[trigger] t.rows[i]).record.status == MemoryStatus::Active
            && t.rows[i].record.memory_kind != MemoryKind::LegacyUnassigned implies store::bounded(
        t.rows[i].record,
    ) by {
        let a = if i < k { i } else { i + 1 };
        assert(store::bounded(s.rows[a].record));
    }
}

// What the operations leave and return.

pub open spec fn is_create(
    s: StoreView,
    t: StoreView,
    r: Result<MemoryRecord, MemoryError>,
    req: CreateScopedMemoryRequest,
    content_masked: Seq<char>,
    source_masked: Seq<char>,
    id: String,
    now: String,
) -> bool {
    if !is_complete(req) {
        t == s && says_incomplete(req, r)
    } else if store::insert_fails(s, id@) {
        t == s && types::broken(r)
    } else {
        r matches Ok(record) && builds(record, req, content_masked, source_masked, id, now) && t
            == store::with_record(s, record)
    }
}

pub open spec fn is_scoped_list(s: StoreView, r: Result<Vec<MemoryRecord>, MemoryError>, query: ScopedMemoryQuery) -> bool {
    if s.faults.table_dropped {
        types::broken(r)
    } else if text::blank(query.scope_id@) {
        types::refused(r, "bad_request"@, "scope_id is required"@)
    } else {
        r matches Ok(found) && found@ == records::records_of(
            s.rows.filter(|row: MemoryRow| in_scope(row, query.scope_type, query.scope_id@)),
        )
    }
}

pub open spec fn is_scoped_get(
    s: StoreView,
    r: Result<MemoryRecord, MemoryError>,
    scope_type: MemoryScopeType,
    scope_id: Seq<char>,
    id: Seq<char>,
) -> bool {
    if is_resolvable(s, scope_type, scope_id, id) {
        r matches Ok(record) && exists|k: int| #[trigger]
            means_row(s, scope_type, scope_id, id, k) && s.rows[k].record == record
    } else {
        says_unresolved(s, scope_type, scope_id, id, r)
    }
}

/// Whether the second record is the first one with the fields of the request.
pub open spec fn updates(a: MemoryRecord, b: MemoryRecord, req: UpdateMemoryRequest, now: String) -> bool {
    &&& b == (MemoryRecord {
        content: b.content,
        memory_type: b.memory_type,
        scope: b.scope,
        updated_at: Some(now),
        ..a
    })
    &&& match req.content {
        Some(c) => Some(b.content@) == text::cleaned(c@),
        None => b.content == a.content,
    }
    &&& if req.memory_type is Some {
        b.memory_type@ == cleaned_or(req.memory_type, "note"@)
    } else {
        b.memory_type == a.memory_type
    }
    &&& if req.scope is Some {
        b.scope@ == cleaned_or(req.scope, "general"@)
    } else {
        b.scope == a.scope
    }
}

pub open spec fn is_scoped_update(
    s: StoreView,
    t: StoreView,
    r: Result<MemoryRecord, MemoryError>,
    scope_type: MemoryScopeType,
    scope_id: Seq<char>,
    id: Seq<char>,
    req: UpdateMemoryRequest,
    now: String,
) -> bool {
    if !req.updates() {
        t == s && types::refused(r, "bad_request"@, "no memory update fields provided"@)
    } else if !is_resolvable(s, scope_type, scope_id, id) {
        t == s && says_unresolved(s, scope_type, scope_id, id, r)
    } else if req.content matches Some(c) && text::blank(c@) {
        t == s && types::refused(r, "bad_request"@, "content is required"@)
    } else {
        r matches Ok(record) && exists|k: int| #[trigger]
            means_row(s, scope_type, scope_id, id, k) && updates(s.rows[k].record, record, req, now) && t
                == (StoreView {
                rows: s.rows.update(k, MemoryRow { row_id: s.rows[k].row_id, record }),
                ..s
            })
    }
}

pub open spec fn is_scoped_delete(
    s: StoreView,
    t: StoreView,
    r: Result<String, MemoryError>,
    scope_type: MemoryScopeType,
    scope_id: Seq<char>,
    id: Seq<char>,
) -> bool {
    if is_resolvable(s, scope_type, scope_id, id) {
        r matches Ok(gone) && exists|k: int| #[trigger]
            means_row(s, scope_type, scope_id, id, k) && gone == s.rows[k].record.id && t == (StoreView {
                rows: s.rows.remove(k),
                ..s
            })
    } else {
        t == s && says_unresolved(s, scope_type, scope_id, id, r)
    }
}

/// The record that a replacement stores.
pub open spec fn replacement(req: ReplaceScopedStorageRequest) -> CreateScopedMemoryRequest {
    CreateScopedMemoryRequest {
        scope_type: req.scope_type,
        scope_id: req.scope_id,
        created_by_user_id: req.created_by_user_id,
        user_id: req.user_id,
        group_id: req.group_id,
        content: req.content,
        source_text: req.source_text,
        memory_type: req.memory_type,
        scope: req.scope,
    }
}

pub open spec fn is_scoped_replace(
    s: StoreView,
    t: StoreView,
    r: Result<MemoryRecord, MemoryError>,
    req: ReplaceScopedStorageRequest,
    content_masked: Seq<char>,
    source_masked: Seq<char>,
    id: String,
    now: String,
) -> bool {
    if text::blank(req.scope_id@) {
        t == s && types::refused(r, "bad_request"@, "scope_id is required"@)
    } else if !is_complete(replacement(req)) {
        t == s && says_incomplete(replacement(req), r)
    } else if !is_resolvable(s, req.scope_type, req.scope_id@, req.id_or_prefix@) {
        t == s && says_unresolved(s, req.scope_type, req.scope_id@, req.id_or_prefix@, r)
    } else if store::insert_fails(s, id@) {
        t == s && types::broken(r)
    } else {
        r matches Ok(record) && builds(
            record,
            replacement(req),
            content_masked,
            source_masked,
            id,
            now,
        ) && exists|k: int| #[trigger]
            means_row(s, req.scope_type, req.scope_id@, req.id_or_prefix@, k) && t == (StoreView {
                rows: store::with_record(s, record).rows.remove(k),
                ..store::with_record(s, record)
            })
    }
}

// Laws.

/// A listing of a boundary never shows what lies in another one: neither the records of
/// other people and groups nor the profiles within the same group.
pub proof fn listings_stay_in_their_boundary(
    s: StoreView,
    r: Result<Vec<MemoryRecord>, MemoryError>,
    query: ScopedMemoryQuery,
    i: int,
)
    requires
        is_scoped_list(s, r, query),
        r matches Ok(found) && 0 <= i < found@.len(),
    ensures
        belongs(r->Ok_0@[i], query.scope_type, query.scope_id@),
{
    let pred = |row: MemoryRow| in_scope(row, query.scope_type, query.scope_id@);
    s.rows.lemma_filter_pred(pred, i);
}

/// A read of a boundary never gives back what lies in another one.
pub proof fn reads_stay_in_their_boundary(
    s: StoreView,
    r: Result<MemoryRecord, MemoryError>,
    scope_type: MemoryScopeType,
    scope_id: Seq<char>,
    id: Seq<char>,
)
    requires
        is_scoped_get(s, r, scope_type, scope_id, id),
        r is Ok,
    ensures
        belongs(r->Ok_0, scope_type, scope_id),
{
}

/// A memory that was created is what a read of its whole identifier gives back.
pub proof fn a_created_memory_is_read_back(
    s: StoreView,
    t: StoreView,
    done: MemoryRecord,
    req: CreateScopedMemoryRequest,
    content_masked: Seq<char>,
    source_masked: Seq<char>,
    id: String,
    now: String,
    got: Result<MemoryRecord, MemoryError>,
)
    requires
        is_create(
            s,
            t,
            Ok::<MemoryRecord, MemoryError>(done),
            req,
            content_masked,
            source_masked,
            id,
            now,
        ),
        req.scope_type != MemoryScopeType::LegacyUnassigned,
        text::cleaned(id@) == Some(id@),
        is_scoped_get(t, got, req.scope_type, req.scope_id@, id@),
    ensures
        got matches Ok(record) && record == done,
{
    let last = t.rows.len() - 1;
    assert(t.rows[last].record == done);
    assert(text::starts_with(id@, id@)) by {
        assert(id@.subrange(0, id@.len() as int) =~= id@);
    }
    assert(is_exact(t, req.scope_type, req.scope_id@, id@, last));
    assert(means_row(t, req.scope_type, req.scope_id@, id@, last));
    assert(is_resolvable(t, req.scope_type, req.scope_id@, id@));
    let k = choose|k: int| #[trigger]
        means_row(t, req.scope_type, req.scope_id@, id@, k) && t.rows[k].record == got->Ok_0;
    assert(is_hit(t, req.scope_type, req.scope_id@, id@, last));
    if k != last {
        assert(is_exact(t, req.scope_type, req.scope_id@, id@, k));
        assert(s.rows[k].record.id@ == id@);
        assert(store::id_taken(s.rows, id@));
    }
}

/// Whether row `i` would be taken for the record `gone` once that is deleted: it answers to the
/// same text, by itself or as the only one left.
pub open spec fn stands_in(
    s: StoreView,
    scope_type: MemoryScopeType,
    scope_id: Seq<char>,
    gone: Seq<char>,
    i: int,
) -> bool {
    &&& is_hit(s, scope_type, scope_id, gone, i)
    &&& s.rows[i].record.id@ != gone
    &&& is_exact(s, scope_type, scope_id, gone, i) || forall|j: int|
        is_hit(s, scope_type, scope_id, gone, j) && s.rows[j].record.id@ != gone ==> j == i
}

/// A record that was deleted was one of the boundary, and all others are left as they are.
pub proof fn deleting_takes_one_record(
    s: StoreView,
    t: StoreView,
    done: Result<String, MemoryError>,
    scope_type: MemoryScopeType,
    scope_id: Seq<char>,
    id: Seq<char>,
) -> (k: int)
    requires
        is_scoped_delete(s, t, done, scope_type, scope_id, id),
        done is Ok,
    ensures
        0 <= k < s.rows.len(),
        s.rows[k].record.id == done->Ok_0,
        belongs(s.rows[k].record, scope_type, scope_id),
        t == (StoreView { rows: s.rows.remove(k), ..s }),
{
    choose|k: int| #[trigger]
        means_row(s, scope_type, scope_id, id, k) && done->Ok_0 == s.rows[k].record.id && t == (StoreView {
            rows: s.rows.remove(k),
            ..s
        })
}

/// A record that was deleted is neither read nor deleted again by its identifier, unless
/// another record of the boundary is taken for it.
pub proof fn a_deleted_record_is_gone(
    s: StoreView,
    t: StoreView,
    u: StoreView,
    done: Result<String, MemoryError>,
    scope_type: MemoryScopeType,
    scope_id: Seq<char>,
    id: Seq<char>,
    got: Result<MemoryRecord, MemoryError>,
    again: Result<String, MemoryError>,
)
    requires
        s.wf(),
        is_scoped_delete(s, t, done, scope_type, scope_id, id),
        done is Ok,
        forall|i: int| !stands_in(s, scope_type, scope_id, done->Ok_0@, i),
        is_scoped_get(t, got, scope_type, scope_id, done->Ok_0@),
        is_scoped_delete(t, u, again, scope_type, scope_id, done->Ok_0@),
    ensures
        got is Err,
        again is Err,
        u == t,
{
    let gone = done->Ok_0@;
    let k = deleting_takes_one_record(s, t, done, scope_type, scope_id, id);
    assert forall|i: int| 0 <= i < t.rows.len() implies #[trigger] t.rows[i] == s.rows[if i < k {
        i
    } else {
        i + 1
    }] by {}
    assert forall|i: int| !means_row(t, scope_type, scope_id, gone, i) by {
        if means_row(t, scope_type, scope_id, gone, i) {
            let a = if i < k { i } else { i + 1 };
            assert(s.rows[a].record.id@ != s.rows[k].record.id@);
            assert(is_hit(s, scope_type, scope_id, gone, a));
            if !is_exact(s, scope_type, scope_id, gone, a) {
                assert forall|j: int|
                    is_hit(s, scope_type, scope_id, gone, j) && s.rows[j].record.id@
                        != gone implies j == a by {
                    let b = if j < k { j } else { j - 1 };
                    assert(t.rows[b] == s.rows[j]);
                    assert(is_hit(t, scope_type, scope_id, gone, b));
                }
            }
            assert(stands_in(s, scope_type, scope_id, gone, a));
        }
    }
}

} // verus!
