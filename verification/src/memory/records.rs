//! Storing, reading, replacing and removing the records of a target.
use vstd::prelude::*;
use vstd::string::*;

use crate::memory::store;
use crate::memory::store::{
    ConflictKey, MemoryRow, MemoryStore, ProfilePreference, RowFilter, StoreView,
};
use crate::memory::types;
use crate::memory::types::{
    MemoryError, MemoryKind, MemoryQuery, MemoryRecord, MemoryStatus, MemoryTarget,
    PersistMemoryRequest, PersistMemoryResult,
};
use crate::text;

verus! {

// Profile preferences.

pub open spec fn is_preference(p: ProfilePreference, group: Seq<char>, subject: Seq<char>) -> bool {
    p.group_scope_id@ == group && p.subject_id@ == subject
}

/// Whether the member has told the group not to keep a profile of them.
pub open spec fn opted_out(s: StoreView, group: Seq<char>, subject: Seq<char>) -> bool {
    exists|k: int|
        0 <= k < s.preferences.len() && is_preference(#[trigger] s.preferences[k], group, subject)
            && !s.preferences[k].profile_enabled
}

/// The subject of a target; the empty text where it has none.
pub open spec fn subject_text(target: MemoryTarget) -> Seq<char> {
    match target.subject_id {
        Some(s) => s@,
        None => Seq::empty(),
    }
}

/// Whether the group may keep the profile that the target names.
pub open spec fn profile_enabled(s: StoreView, target: MemoryTarget) -> bool {
    !opted_out(s, target.scope_id@, subject_text(target))
}

/// The preferences after the member's choice: it overrides every earlier one.
pub open spec fn with_preference(
    old: Seq<ProfilePreference>,
    new: Seq<ProfilePreference>,
    target: MemoryTarget,
    enabled: bool,
) -> bool {
    let group = target.scope_id@;
    let subject = subject_text(target);
    &&& exists|k: int|
        0 <= k < new.len() && is_preference(#[trigger] new[k], group, subject)
    &&& forall|k: int|
        0 <= k < new.len() && is_preference(#[trigger] new[k], group, subject)
            ==> new[k].profile_enabled == enabled
    &&& new.len() >= old.len()
    &&& forall|k: int|
        0 <= k < new.len() && !is_preference(#[trigger] new[k], group, subject) ==> k < old.len()
            && new[k] == old[k]
    &&& forall|k: int|
        0 <= k < old.len() && !is_preference(#[trigger] old[k], group, subject) ==> new[k] == old[k]
}

fn subject_of(target: &MemoryTarget) -> (r: &str)
    ensures
        r@ == subject_text(*target),
{
    match &target.subject_id {
        Some(s) => s.as_str(),
        None => {
            proof {
                reveal_strlit("");
                assert(""@ =~= Seq::<char>::empty());
            }
            ""
        },
    }
}

impl MemoryStore {
    pub(crate) fn is_profile_enabled(&self, target: &MemoryTarget) -> (r: bool)
        ensures
            r == profile_enabled(self@, *target),
    {
        let subject = subject_of(target);
        let mut i: usize = 0;
        while i < self.preferences.len()
            invariant
                0 <= i <= self.preferences@.len(),
                subject@ == subject_text(*target),
                forall|k: int|
                    0 <= k < i ==> !(is_preference(
                        #[trigger] self.preferences@[k],
                        target.scope_id@,
                        subject@,
                    ) && !self.preferences@[k].profile_enabled),
            decreases self.preferences@.len() - i,
        {
            let p = &self.preferences[i];
            if !p.profile_enabled && text::same(p.group_scope_id.as_str(), target.scope_id.as_str())
                && text::same(p.subject_id.as_str(), subject) {
                assert(is_preference(self@.preferences[i as int], target.scope_id@, subject@));
                return false;
            }
            i += 1;
        }
        true
    }

    pub(crate) fn set_preference(&mut self, target: &MemoryTarget, enabled: bool, now: &String)
        ensures
            with_preference(old(self)@.preferences, final(self)@.preferences, *target, enabled),
            final(self)@ == (StoreView { preferences: final(self)@.preferences, ..old(self)@ }),
    {
        let ghost s = self@;
        let subject = subject_of(target);
        let mut found = false;
        let mut i: usize = 0;
        while i < self.preferences.len()
            invariant
                0 <= i <= self.preferences@.len(),
                self.preferences@.len() == s.preferences.len(),
                subject@ == subject_text(*target),
                self@ == (StoreView { preferences: self.preferences@, ..s }),
                found <==> exists|k: int|
                    0 <= k < i && is_preference(
                        #[trigger] self.preferences@[k],
                        target.scope_id@,
                        subject@,
                    ),
                forall|k: int|
                    0 <= k < i && is_preference(
                        #[trigger] self.preferences@[k],
                        target.scope_id@,
                        subject@,
                    ) ==> self.preferences@[k].profile_enabled == enabled,
                forall|k: int|
                    0 <= k < s.preferences.len() && !is_preference(
                        #[trigger] s.preferences[k],
                        target.scope_id@,
                        subject@,
                    ) ==> self.preferences@[k] == s.preferences[k],
                forall|k: int|
                    0 <= k < s.preferences.len() && is_preference(
                        #[trigger] s.preferences[k],
                        target.scope_id@,
                        subject@,
                    ) ==> is_preference(self.preferences@[k], target.scope_id@, subject@),
                forall|k: int|
                    i <= k < s.preferences.len() ==> #[trigger] self.preferences@[k] == s.preferences[k],
            decreases self.preferences@.len() - i,
        {
            let p = &self.preferences[i];
            if text::same(p.group_scope_id.as_str(), target.scope_id.as_str()) && text::same(
                p.subject_id.as_str(),
                subject,
            ) {
                let next = ProfilePreference {
                    group_scope_id: p.group_scope_id.clone(),
                    subject_id: p.subject_id.clone(),
                    profile_enabled: enabled,
                    created_at: p.created_at.clone(),
                    updated_at: now.clone(),
                };
                let ghost before = self.preferences@;
                self.preferences.set(i, next);
                found = true;
                assert(is_preference(self.preferences@[i as int], target.scope_id@, subject@));
                assert forall|k: int| 0 <= k < i implies #[trigger] self.preferences@[k] == before[k] by {}
            }
            i += 1;
        }
        if !found {
            let next = ProfilePreference {
                group_scope_id: target.scope_id.clone(),
                subject_id: subject.to_owned(),
                profile_enabled: enabled,
                created_at: now.clone(),
                updated_at: now.clone(),
            };
            let ghost before = self.preferences@;
            self.preferences.push(next);
            proof {
                assert(is_preference(
                    self.preferences@[before.len() as int],
                    target.scope_id@,
                    subject@,
                ));
                assert forall|k: int| 0 <= k < before.len() implies #[trigger] self.preferences@[k]
                    == before[k] by {}
                assert forall|k: int| 0 <= k < before.len() implies !is_preference(
                    #[trigger] s.preferences[k],
                    target.scope_id@,
                    subject@,
                ) by {
                    if is_preference(s.preferences[k], target.scope_id@, subject@) {
                        assert(is_preference(before[k], target.scope_id@, subject@));
                    }
                }
            }
        }
    }
}

// Storing.

/// Whether the record is what a request stores, under this identifier at this time.
pub open spec fn stores(record: MemoryRecord, req: PersistMemoryRequest, id: String, now: String) -> bool {
    &&& record.id == id
    &&& record.ts == now
    &&& record.created_at == now
    &&& record.updated_at is None
    &&& record.memory_type@ == req.category.name()
    &&& record.scope@ == (match text::cleaned(req.legacy_scope@) {
        Some(s) => s,
        None => "general"@,
    })
    &&& record.scope_type == req.target.scope_type
    &&& text::opt_view(record.scope_id) == text::cleaned(req.target.scope_id@)
    &&& text::opt_view(record.created_by_user_id) == text::cleaned(req.created_by_user_id@)
    &&& record.memory_kind == req.target.memory_kind
    &&& text::opt_view(record.subject_id) == text::cleaned_opt(text::opt_view(req.target.subject_id))
    &&& text::opt_view(record.relation_subject_id) == text::cleaned_opt(
        text::opt_view(req.relation_subject_id),
    )
    &&& text::opt_view(record.relation_object_id) == text::cleaned_opt(
        text::opt_view(req.relation_object_id),
    )
    &&& record.visibility == req.visibility
    &&& record.source_type == req.source_type
    &&& text::opt_view(record.source_ref) == text::cleaned_opt(text::opt_view(req.source_ref))
    &&& text::opt_view(record.last_confirmed_at) == text::cleaned_opt(text::opt_view(req.confirmed_at))
    &&& record.status == MemoryStatus::Active
    &&& record.pinned == req.pinned
    &&& text::opt_view(record.attribute_key) == text::cleaned_opt(text::opt_view(req.attribute_key))
    &&& record.user_id is None
    &&& record.group_id is None
    &&& Some(record.content@) == text::cleaned(req.content@)
    &&& record.source_text@ == req.source_text@
}

/// Active records that hold the attribute of the record.
pub open spec fn rivals_of(record: MemoryRecord) -> RowFilter {
    RowFilter {
        target: MemoryTarget {
            scope_type: record.scope_type,
            scope_id: record.scope_id->0,
            memory_kind: record.memory_kind,
            subject_id: record.subject_id,
        },
        id: None,
        conflict: Some(
            ConflictKey {
                relation_subject_id: record.relation_subject_id,
                relation_object_id: record.relation_object_id,
                attribute_key: record.attribute_key->0,
            },
        ),
    }
}

/// The rows that storing the record displaces.
pub open spec fn displaced(s: StoreView, record: MemoryRecord) -> Seq<MemoryRow> {
    if record.attribute_key is Some {
        store::picked(s.rows, rivals_of(record))
    } else {
        Seq::empty()
    }
}

/// The tables after storing the record: rivals for its attribute are archived.
pub open spec fn with_stored(s: StoreView, record: MemoryRecord, now: String) -> StoreView {
    let cleared = if record.attribute_key is Some {
        StoreView { rows: store::archived_where(s.rows, rivals_of(record), now), ..s }
    } else {
        s
    };
    store::with_record(cleared, record)
}

/// Whether a request to store is answered by the error that the first of its faults
/// calls for.
pub open spec fn store_refused<T>(s: StoreView, req: PersistMemoryRequest, r: Result<T, MemoryError>) -> bool {
    if text::blank(req.target.scope_id@) {
        types::refused(r, "bad_request"@, "scope_id is required"@)
    } else if text::blank(req.content@) {
        types::refused(r, "bad_request"@, "content is required"@)
    } else if text::blank(req.created_by_user_id@) {
        types::refused(r, "bad_request"@, "created_by_user_id is required"@)
    } else if s.faults.table_dropped {
        types::broken(r)
    } else if is_opted_out(s, req) {
        types::refused(
            r,
            "profile_opted_out"@,
            "group profile storage is disabled for this subject"@,
        )
    } else {
        types::broken(r)
    }
}

/// Whether the request is for a profile whose subject has opted out.
pub open spec fn is_opted_out(s: StoreView, req: PersistMemoryRequest) -> bool {
    req.target.memory_kind == MemoryKind::GroupProfile && opted_out(
        s,
        text::trimmed(req.target.scope_id@),
        match text::cleaned_opt(text::opt_view(req.target.subject_id)) {
            Some(t) => t,
            None => Seq::empty(),
        },
    )
}

/// Whether the request itself can be stored.
pub open spec fn is_storable(s: StoreView, req: PersistMemoryRequest) -> bool {
    &&& !text::blank(req.target.scope_id@)
    &&& !text::blank(req.content@)
    &&& !text::blank(req.created_by_user_id@)
    &&& !s.faults.table_dropped
    &&& !is_opted_out(s, req)
}

/// Whether the database refuses to archive what the request displaces, and there is such a
/// record.
pub open spec fn archiving_fails(s: StoreView, req: PersistMemoryRequest, id: String, now: String) -> bool {
    s.faults.archive_aborts && exists|record: MemoryRecord| #[trigger]
        stores(record, req, id, now) && displaced(s, record).len() > 0
}

/// What storing a request under `id` at `now` leaves and returns.
pub open spec fn is_stored(
    s: StoreView,
    t: StoreView,
    r: Result<PersistMemoryResult, MemoryError>,
    req: PersistMemoryRequest,
    id: String,
    now: String,
) -> bool {
    match r {
        Ok(done) => {
            &&& is_storable(s, req)
            &&& stores(done.record, req, id, now)
            &&& !store::insert_fails(s, id@)
            &&& s.faults.archive_aborts ==> displaced(s, done.record).len() == 0
            &&& t == with_stored(s, done.record, now)
            &&& text::views(done.archived_ids@) == store::row_ids(displaced(s, done.record))
        },
        Err(_) => {
            &&& t == s
            &&& store_refused(s, req, r)
            &&& is_storable(s, req) ==> store::insert_fails(s, id@) || archiving_fails(s, req, id, now)
        },
    }
}

pub(crate) fn or_default(o: Option<String>, default: &str) -> (r: String)
    ensures
        r@ == (match text::opt_view(o) {
            Some(s) => s,
            None => default@,
        }),
{
    match o {
        Some(s) => s,
        None => default.to_owned(),
    }
}

impl MemoryStore {
    /// Stores a memory under `id` and archives the active records that hold its attribute
    /// in the same target and relation.
    pub fn persist_v3(&mut self, req: &PersistMemoryRequest, id: &String, now: &String) -> (r: Result<
        PersistMemoryResult,
        MemoryError,
    >)
        requires
            old(self)@.wf(),
        ensures
            final(self)@.wf(),
            is_stored(old(self)@, final(self)@, r, *req, *id, *now),
    {
        let ghost s = self@;
        proof {
            text::lemma_trimmed_is_clean(req.target.scope_id@);
            match text::opt_view(req.target.subject_id) {
                Some(t) => text::lemma_trimmed_is_clean(t),
                None => {},
            }
        }
        let target = match req.target.clean() {
            Ok(t) => t,
            Err(e) => {
                return Err(e);
            },
        };
        let content = match text::clean_text(req.content.as_str()) {
            Some(c) => c,
            None => {
                return Err(MemoryError::bad_request("content is required"));
            },
        };
        let author = match text::clean_text(req.created_by_user_id.as_str()) {
            Some(c) => c,
            None => {
                return Err(MemoryError::bad_request("created_by_user_id is required"));
            },
        };
        if self.faults.table_dropped {
            return Err(MemoryError::io("sqlite failed: no such table: memories"));
        }
        if target.memory_kind == MemoryKind::GroupProfile && !self.is_profile_enabled(&target) {
            return Err(MemoryError::profile_opted_out());
        }
        let record = MemoryRecord {
            id: id.clone(),
            ts: now.clone(),
            created_at: now.clone(),
            updated_at: None,
            memory_type: req.category.as_str().to_owned(),
            scope: or_default(text::clean_text(req.legacy_scope.as_str()), "general"),
            scope_type: target.scope_type,
            scope_id: Some(target.scope_id),
            created_by_user_id: Some(author),
            memory_kind: target.memory_kind,
            subject_id: target.subject_id,
            relation_subject_id: text::clean_option(&req.relation_subject_id),
            relation_object_id: text::clean_option(&req.relation_object_id),
            visibility: req.visibility,
            source_type: req.source_type,
            source_ref: text::clean_option(&req.source_ref),
            last_confirmed_at: text::clean_option(&req.confirmed_at),
            status: MemoryStatus::Active,
            pinned: req.pinned,
            attribute_key: text::clean_option(&req.attribute_key),
            user_id: None,
            group_id: None,
            content,
            source_text: req.source_text.clone(),
        };
        if self.faults.insert_aborts || self.last_row_id == i64::MAX || store::is_id_taken(
            &self.rows,
            id.as_str(),
        ) {
            return Err(MemoryError::io("sqlite failed: memory insert aborted"));
        }
        let ids = match &record.attribute_key {
            Some(key) => {
                let rivals = RowFilter {
                    target: MemoryTarget {
                        scope_type: record.scope_type,
                        scope_id: match &record.scope_id {
                            Some(t) => t.clone(),
                            None => String::new(),
                        },
                        memory_kind: record.memory_kind,
                        subject_id: text::copy_option(&record.subject_id),
                    },
                    id: None,
                    conflict: Some(
                        ConflictKey {
                            relation_subject_id: text::copy_option(&record.relation_subject_id),
                            relation_object_id: text::copy_option(&record.relation_object_id),
                            attribute_key: key.clone(),
                        },
                    ),
                };
                assert(rivals == rivals_of(record));
                if self.faults.archive_aborts && store::any_picked(&self.rows, &rivals) {
                    assert(stores(record, *req, *id, *now));
                    return Err(MemoryError::io("sqlite failed: memory archive aborted"));
                }
                proof {
                    store::lemma_archiving_keeps_wf(s, rivals, *now);
                }
                let ids = store::archive_picked(&mut self.rows, &rivals, now);
                proof {
                    assert(self@ =~= StoreView {
                        rows: store::archived_where(s.rows, rivals, *now),
                        ..s
                    });
                    assert(!store::id_taken(self@.rows, id@)) by {
                        if store::id_taken(self@.rows, id@) {
                            let k = choose|k: int|
                                0 <= k < self@.rows.len() && (#[trigger] self@.rows[k]).record.id@
                                    == id@;
                            assert(s.rows[k].record.id@ == id@);
                        }
                    }
                }
                ids
            },
            None => {
                let ids: Vec<String> = Vec::new();
                assert(text::views(ids@) =~= store::row_ids(displaced(s, record)));
                ids
            },
        };
        let kept = record.clone();
        match self.insert_record(record) {
            Ok(()) => Ok(PersistMemoryResult { record: kept, archived_ids: ids }),
            Err(e) => Err(e),
        }
    }
}

// Reading.

/// The one record that the filter picks.
pub open spec fn is_found(s: StoreView, f: RowFilter, record: MemoryRecord) -> bool {
    exists|k: int| 0 <= k < s.rows.len() && store::picks(f, #[trigger] s.rows[k]) && s.rows[k].record == record
}

pub open spec fn is_missing(s: StoreView, f: RowFilter) -> bool {
    forall|k: int| 0 <= k < s.rows.len() ==> !store::picks(f, #[trigger] s.rows[k])
}

/// A filter for the record with this identifier in the target.
pub open spec fn names(f: RowFilter, target: MemoryTarget, id: Seq<char>) -> bool {
    &&& f.target.scope_type == target.scope_type
    &&& Some(f.target.scope_id@) == text::cleaned(target.scope_id@)
    &&& f.target.memory_kind == target.memory_kind
    &&& text::opt_view(f.target.subject_id) == text::cleaned_opt(text::opt_view(target.subject_id))
    &&& text::opt_view(f.id) == Some(id)
    &&& f.conflict is None
}

/// A filter for all active records of the target.
pub open spec fn covers(f: RowFilter, target: MemoryTarget) -> bool {
    &&& f.target.scope_type == target.scope_type
    &&& Some(f.target.scope_id@) == text::cleaned(target.scope_id@)
    &&& f.target.memory_kind == target.memory_kind
    &&& text::opt_view(f.target.subject_id) == text::cleaned_opt(text::opt_view(target.subject_id))
    &&& f.id is None
    &&& f.conflict is None
}

/// Whether the request fails before any record is looked at.
pub open spec fn unreadable<T>(s: StoreView, target: MemoryTarget, r: Result<T, MemoryError>) -> bool {
    if text::blank(target.scope_id@) {
        types::refused(r, "bad_request"@, "scope_id is required"@)
    } else {
        s.faults.table_dropped && types::broken(r)
    }
}

pub open spec fn is_readable(s: StoreView, target: MemoryTarget) -> bool {
    !text::blank(target.scope_id@) && !s.faults.table_dropped
}

/// What reading one record of a target returns.
pub open spec fn is_get(s: StoreView, r: Result<MemoryRecord, MemoryError>, target: MemoryTarget, id: Seq<char>) -> bool {
    if !is_readable(s, target) {
        unreadable(s, target, r)
    } else {
        exists|f: RowFilter| #[trigger]
            names(f, target, id) && match r {
                Ok(record) => is_found(s, f, record),
                Err(_) => is_missing(s, f) && types::refused(r, "not_found"@, "memory not found"@),
            }
    }
}

impl MemoryStore {
    /// A filter on the cleaned target, if the tables can be read.
    pub(crate) fn open_target(&self, target: &MemoryTarget, id: Option<&str>) -> (r: Result<RowFilter, MemoryError>)
        ensures
            match r {
                Ok(f) => is_readable(self@, *target) && match id {
                    Some(i) => names(f, *target, i@),
                    None => covers(f, *target),
                },
                Err(_) => !is_readable(self@, *target) && unreadable(self@, *target, r),
            },
    {
        let clean = match target.clean() {
            Ok(t) => t,
            Err(e) => {
                return Err(e);
            },
        };
        if self.faults.table_dropped {
            return Err(MemoryError::io("sqlite failed: no such table: memories"));
        }
        match id {
            Some(i) => Ok(store::one_record(&clean, i)),
            None => Ok(store::whole_target(&clean)),
        }
    }

    pub(crate) fn find_picked(&self, f: &RowFilter) -> (r: Option<usize>)
        ensures
            match r {
                Some(k) => k < self@.rows.len() && store::picks(*f, self@.rows[k as int]),
                None => is_missing(self@, *f),
            },
    {
        let mut i: usize = 0;
        while i < self.rows.len()
            invariant
                0 <= i <= self.rows@.len(),
                forall|k: int| 0 <= k < i ==> !store::picks(*f, #[trigger] self.rows@[k]),
            decreases self.rows@.len() - i,
        {
            if store::is_picked(f, &self.rows[i]) {
                return Some(i);
            }
            i += 1;
        }
        None
    }

    /// The active record with this identifier in the target.
    pub fn get_v3(&self, target: &MemoryTarget, id: &str) -> (r: Result<MemoryRecord, MemoryError>)
        ensures
            is_get(self@, r, *target, id@),
    {
        let f = match self.open_target(target, Some(id)) {
            Ok(f) => f,
            Err(e) => {
                return Err(e);
            },
        };
        match self.find_picked(&f) {
            Some(k) => {
                let record = self.rows[k].record.clone();
                assert(is_found(self@, f, record));
                Ok(record)
            },
            None => Err(MemoryError::not_found("memory not found")),
        }
    }

    /// The identifiers of all active records of the target, oldest first.
    pub fn list_active_ids_v3(&self, target: &MemoryTarget) -> (r: Result<Vec<String>, MemoryError>)
        ensures
            is_id_list(self@, r, *target),
    {
        let f = match self.open_target(target, None) {
            Ok(f) => f,
            Err(e) => {
                return Err(e);
            },
        };
        Ok(store::picked_ids(&self.rows, &f))
    }

    /// Whether the profile may be kept, and the identifiers of its active records.
    pub fn group_profile_snapshot_v3(&self, target: &MemoryTarget) -> (r: Result<(bool, Vec<String>), MemoryError>)
        ensures
            is_snapshot(self@, r, *target),
    {
        let f = match self.open_target(target, None) {
            Ok(f) => f,
            Err(e) => {
                return Err(e);
            },
        };
        Ok((self.is_profile_enabled(&f.target), store::picked_ids(&self.rows, &f)))
    }

    /// The records of a target with the status asked for, oldest first.
    pub fn list_v3(&self, query: &MemoryQuery) -> (r: Result<Vec<MemoryRecord>, MemoryError>)
        ensures
            is_listing(self@, r, *query),
    {
        let f = match self.open_target(&query.target, None) {
            Ok(f) => f,
            Err(e) => {
                return Err(e);
            },
        };
        let ghost pred = |row: MemoryRow| asked_for(row, f.target, query.status);
        let mut out: Vec<MemoryRecord> = Vec::new();
        let mut i: usize = 0;
        proof {
            store::lemma_filter_start(self.rows@, pred);
            assert(out@ =~= records_of(self.rows@.take(0).filter(pred)));
        }
        while i < self.rows.len()
            invariant
                0 <= i <= self.rows@.len(),
                pred == (|row: MemoryRow| asked_for(row, f.target, query.status)),
                out@ == records_of(self.rows@.take(i as int).filter(pred)),
            decreases self.rows@.len() - i,
        {
            proof {
                store::lemma_filter_step(self.rows@, pred, i as int);
            }
            let row = &self.rows[i];
            let wanted = match query.status {
                Some(status) => row.record.status == status,
                None => true,
            };
            if wanted && store::is_record_of(&row.record, &f.target) {
                assert(pred(self.rows@[i as int]));
                let ghost before = out@;
                out.push(row.record.clone());
                assert(out@ =~= before.push(self.rows@[i as int].record));
                assert(records_of(self.rows@.take(i + 1).filter(pred)) =~= before.push(
                    self.rows@[i as int].record,
                ));
            } else {
                assert(!pred(self.rows@[i as int]));
            }
            i += 1;
        }
        proof {
            assert(self.rows@.take(i as int) =~= self.rows@);
            assert(covers(f, query.target));
        }
        Ok(out)
    }
}

pub open spec fn records_of(rows: Seq<MemoryRow>) -> Seq<MemoryRecord> {
    Seq::new(rows.len(), |i: int| rows[i].record)
}

pub open spec fn asked_for(row: MemoryRow, target: MemoryTarget, status: Option<MemoryStatus>) -> bool {
    store::record_of(row.record, target) && (status matches Some(s) ==> row.record.status == s)
}

/// What listing the records of a target returns.
pub open spec fn is_listing(s: StoreView, r: Result<Vec<MemoryRecord>, MemoryError>, query: MemoryQuery) -> bool {
    if !is_readable(s, query.target) {
        unreadable(s, query.target, r)
    } else {
        r matches Ok(records) && exists|f: RowFilter| #[trigger]
            covers(f, query.target) && records@ == records_of(
                s.rows.filter(|row: MemoryRow| asked_for(row, f.target, query.status)),
            )
    }
}

/// What listing the identifiers of a target returns.
pub open spec fn is_id_list(s: StoreView, r: Result<Vec<String>, MemoryError>, target: MemoryTarget) -> bool {
    if !is_readable(s, target) {
        unreadable(s, target, r)
    } else {
        r matches Ok(ids) && exists|f: RowFilter| #[trigger]
            covers(f, target) && text::views(ids@) == store::row_ids(store::picked(s.rows, f))
    }
}

/// What a snapshot of a profile returns.
pub open spec fn is_snapshot(s: StoreView, r: Result<(bool, Vec<String>), MemoryError>, target: MemoryTarget) -> bool {
    if !is_readable(s, target) {
        unreadable(s, target, r)
    } else {
        r matches Ok(snap) && exists|f: RowFilter| #[trigger]
            covers(f, target) && snap.0 == profile_enabled(s, f.target) && text::views(snap.1@)
                == store::row_ids(store::picked(s.rows, f))
    }
}

} // verus!
