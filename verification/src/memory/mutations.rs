//! Changes of the records of a target: archiving, deleting, replacing, clearing and the
//! member's choice about their profile. Each takes effect as a whole or not at all, and
//! the variants with a snapshot refuse to act on anything that has changed since.
use vstd::prelude::*;
use vstd::string::*;

use crate::memory::records;
use crate::memory::store;
use crate::memory::store::{MemoryRow, MemoryStore, RowFilter, StoreView};
use crate::memory::types;
use crate::memory::types::{
    MemoryError, MemoryRecord, MemoryTarget, PersistMemoryRequest, PersistMemoryResult,
};
use crate::text;

verus! {

/// The tables with the picked rows archived.
pub open spec fn without_active(s: StoreView, f: RowFilter, now: String) -> StoreView {
    StoreView { rows: store::archived_where(s.rows, f, now), ..s }
}

/// The tables with the picked rows deleted.
pub open spec fn without(s: StoreView, f: RowFilter) -> StoreView {
    StoreView { rows: store::deleted_where(s.rows, f), ..s }
}

/// What archiving one record leaves and returns.
pub open spec fn is_archive(
    s: StoreView,
    t: StoreView,
    r: Result<String, MemoryError>,
    target: MemoryTarget,
    id: Seq<char>,
    now: String,
) -> bool {
    if !records::is_readable(s, target) {
        t == s && records::unreadable(s, target, r)
    } else {
        exists|f: RowFilter| #[trigger]
            records::names(f, target, id) && if records::is_missing(s, f) {
                t == s && types::refused(r, "not_found"@, "memory not found"@)
            } else if s.faults.archive_aborts {
                t == s && types::broken(r)
            } else {
                t == without_active(s, f, now) && (r matches Ok(done) && done@ == id)
            }
    }
}

/// What deleting one record leaves and returns.
pub open spec fn is_delete(
    s: StoreView,
    t: StoreView,
    r: Result<String, MemoryError>,
    target: MemoryTarget,
    id: Seq<char>,
) -> bool {
    if !records::is_readable(s, target) {
        t == s && records::unreadable(s, target, r)
    } else {
        exists|f: RowFilter| #[trigger]
            records::names(f, target, id) && if records::is_missing(s, f) {
                t == s && types::refused(r, "not_found"@, "memory not found"@)
            } else {
                t == without(s, f) && (r matches Ok(done) && done@ == id)
            }
    }
}

/// Whether the filter picks a record that still holds what the snapshot holds.
pub open spec fn is_unchanged(s: StoreView, f: RowFilter, expected: MemoryRecord) -> bool {
    exists|k: int|
        0 <= k < s.rows.len() && store::picks(f, #[trigger] s.rows[k]) && types::same_record(
            s.rows[k].record,
            expected,
        )
}

pub open spec fn is_stale<T>(r: Result<T, MemoryError>) -> bool {
    types::refused(r, "memory_changed"@, "记忆状态已变化，请重新查看列表后操作"@)
}

/// What deleting one record as of a snapshot leaves and returns.
pub open spec fn is_delete_unchanged(
    s: StoreView,
    t: StoreView,
    r: Result<String, MemoryError>,
    target: MemoryTarget,
    id: Seq<char>,
    expected: MemoryRecord,
) -> bool {
    if !records::is_readable(s, target) {
        t == s && records::unreadable(s, target, r)
    } else {
        exists|f: RowFilter| #[trigger]
            records::names(f, target, id) && if is_unchanged(s, f, expected) {
                t == without(s, f) && (r matches Ok(done) && done@ == id)
            } else {
                t == s && is_stale(r)
            }
    }
}

/// What clearing a target leaves and returns.
pub open spec fn is_clear(s: StoreView, t: StoreView, r: Result<Vec<String>, MemoryError>, target: MemoryTarget) -> bool {
    if !records::is_readable(s, target) {
        t == s && records::unreadable(s, target, r)
    } else {
        exists|f: RowFilter| #[trigger]
            records::covers(f, target) && t == without(s, f) && (r matches Ok(ids) && text::views(ids@)
                == store::row_ids(store::picked(s.rows, f)))
    }
}

/// Whether both lists hold the same texts, in whatever order.
pub open spec fn same_ids(a: Seq<Seq<char>>, b: Seq<Seq<char>>) -> bool {
    a.len() == b.len() && (forall|x: Seq<char>| a.contains(x) <==> b.contains(x))
}

/// What clearing exactly the listed records of a target leaves and returns.
pub open spec fn is_clear_unchanged(
    s: StoreView,
    t: StoreView,
    r: Result<Vec<String>, MemoryError>,
    target: MemoryTarget,
    expected: Seq<Seq<char>>,
) -> bool {
    if !records::is_readable(s, target) {
        t == s && records::unreadable(s, target, r)
    } else {
        exists|f: RowFilter| #[trigger]
            records::covers(f, target) && if same_ids(
                store::row_ids(store::picked(s.rows, f)),
                expected,
            ) {
                t == without(s, f) && (r matches Ok(ids) && text::views(ids@) == store::row_ids(
                    store::picked(s.rows, f),
                ))
            } else {
                t == s && is_stale(r)
            }
    }
}

/// What replacing one record of a target leaves and returns: the old record is archived
/// and the new one stored, or nothing happens.
pub open spec fn is_replace(
    s: StoreView,
    t: StoreView,
    r: Result<PersistMemoryResult, MemoryError>,
    target: MemoryTarget,
    id: Seq<char>,
    req: PersistMemoryRequest,
    new_id: String,
    now: String,
) -> bool {
    if !records::is_readable(s, target) {
        t == s && records::unreadable(s, target, r)
    } else {
        exists|f: RowFilter| #[trigger]
            records::names(f, target, id) && if records::is_missing(s, f) {
                t == s && types::refused(r, "not_found"@, "memory not found"@)
            } else {
                is_replaced(s, t, r, f, id, req, new_id, now)
            }
    }
}

/// The same as of a snapshot.
pub open spec fn is_replace_unchanged(
    s: StoreView,
    t: StoreView,
    r: Result<PersistMemoryResult, MemoryError>,
    target: MemoryTarget,
    id: Seq<char>,
    expected: MemoryRecord,
    req: PersistMemoryRequest,
    new_id: String,
    now: String,
) -> bool {
    if !records::is_readable(s, target) {
        t == s && records::unreadable(s, target, r)
    } else {
        exists|f: RowFilter| #[trigger]
            records::names(f, target, id) && if is_unchanged(s, f, expected) {
                is_replaced(s, t, r, f, id, req, new_id, now)
            } else {
                t == s && is_stale(r)
            }
    }
}

/// Replacing the record that the filter picks.
pub open spec fn is_replaced(
    s: StoreView,
    t: StoreView,
    r: Result<PersistMemoryResult, MemoryError>,
    f: RowFilter,
    id: Seq<char>,
    req: PersistMemoryRequest,
    new_id: String,
    now: String,
) -> bool {
    let mid = without_active(s, f, now);
    if s.faults.archive_aborts {
        t == s && types::broken(r)
    } else {
        match r {
            Ok(done) => {
                &&& records::is_storable(s, req)
                &&& !store::insert_fails(s, new_id@)
                &&& records::stores(done.record, req, new_id, now)
                &&& t == records::with_stored(mid, done.record, now)
                &&& text::views(done.archived_ids@) == seq![id] + store::row_ids(
                    records::displaced(mid, done.record),
                )
            },
            Err(_) => {
                &&& t == s
                &&& records::store_refused(s, req, r)
                &&& records::is_storable(s, req) ==> store::insert_fails(s, new_id@)
            },
        }
    }
}

/// What the member's choice about their profile leaves and returns.
pub open spec fn is_profile_choice(
    s: StoreView,
    t: StoreView,
    r: Result<Vec<String>, MemoryError>,
    target: MemoryTarget,
    enabled: bool,
    now: String,
) -> bool {
    if !records::is_readable(s, target) {
        t == s && records::unreadable(s, target, r)
    } else {
        exists|f: RowFilter| #[trigger] records::covers(f, target) && is_profile_set(s, t, r, f, enabled, now)
    }
}

/// The same as of a snapshot of the choice and of the profile's records.
pub open spec fn is_profile_choice_unchanged(
    s: StoreView,
    t: StoreView,
    r: Result<Vec<String>, MemoryError>,
    target: MemoryTarget,
    enabled: bool,
    expected_enabled: bool,
    expected: Seq<Seq<char>>,
    now: String,
) -> bool {
    if !records::is_readable(s, target) {
        t == s && records::unreadable(s, target, r)
    } else {
        exists|f: RowFilter| #[trigger]
            records::covers(f, target) && if records::profile_enabled(s, f.target) == expected_enabled
                && same_ids(store::row_ids(store::picked(s.rows, f)), expected) {
                is_profile_set(s, t, r, f, enabled, now)
            } else {
                t == s && is_stale(r)
            }
    }
}

/// Setting the choice for the target of the filter: opting out archives the profile.
pub open spec fn is_profile_set(
    s: StoreView,
    t: StoreView,
    r: Result<Vec<String>, MemoryError>,
    f: RowFilter,
    enabled: bool,
    now: String,
) -> bool {
    if !enabled && s.faults.archive_aborts && store::picked(s.rows, f).len() > 0 {
        t == s && types::broken(r)
    } else {
        &&& records::with_preference(s.preferences, t.preferences, f.target, enabled)
        &&& t == (StoreView {
            rows: if enabled {
                s.rows
            } else {
                store::archived_where(s.rows, f, now)
            },
            preferences: t.preferences,
            ..s
        })
        &&& r matches Ok(ids) && text::views(ids@) == (if enabled {
            Seq::empty()
        } else {
            store::row_ids(store::picked(s.rows, f))
        })
    }
}

fn stale() -> (r: MemoryError)
    ensures
        r.code_text() == "memory_changed"@,
        r.message_text() == "记忆状态已变化，请重新查看列表后操作"@,
{
    MemoryError::changed("记忆状态已变化，请重新查看列表后操作")
}

fn is_in(list: &Vec<String>, s: &str) -> (r: bool)
    ensures
        r == text::views(list@).contains(s@),
{
    let mut i: usize = 0;
    while i < list.len()
        invariant
            0 <= i <= list@.len(),
            forall|k: int| 0 <= k < i ==> list@[k]@ != s@,
        decreases list@.len() - i,
    {
        if text::same(list[i].as_str(), s) {
            assert(text::views(list@)[i as int] == s@);
            return true;
        }
        i += 1;
    }
    false
}

fn all_in(a: &Vec<String>, b: &Vec<String>) -> (r: bool)
    ensures
        r == forall|x: Seq<char>| text::views(a@).contains(x) ==> text::views(b@).contains(x),
{
    let mut i: usize = 0;
    while i < a.len()
        invariant
            0 <= i <= a@.len(),
            forall|k: int| 0 <= k < i ==> text::views(b@).contains((#[trigger] a@[k])@),
        decreases a@.len() - i,
    {
        if !is_in(b, a[i].as_str()) {
            assert(text::views(a@)[i as int] == a@[i as int]@);
            assert(text::views(a@).contains(a@[i as int]@));
            return false;
        }
        i += 1;
    }
    assert forall|x: Seq<char>| text::views(a@).contains(x) implies text::views(b@).contains(x) by {
        let k = choose|k: int| 0 <= k < text::views(a@).len() && text::views(a@)[k] == x;
        assert(a@[k]@ == x);
    }
    true
}

fn are_same_ids(a: &Vec<String>, b: &Vec<String>) -> (r: bool)
    ensures
        r == same_ids(text::views(a@), text::views(b@)),
{
    a.len() == b.len() && all_in(a, b) && all_in(b, a)
}

impl MemoryStore {
    fn still_holds(&self, f: &RowFilter, expected: &MemoryRecord) -> (r: bool)
        requires
            self@.wf(),
            f.id is Some,
        ensures
            r == is_unchanged(self@, *f, *expected),
    {
        match self.find_picked(f) {
            Some(k) => {
                proof {
                    if is_unchanged(self@, *f, *expected) {
                        let j = choose|j: int|
                            0 <= j < self@.rows.len() && store::picks(*f, #[trigger] self@.rows[j])
                                && types::same_record(self@.rows[j].record, *expected);
                        assert(self@.rows[j].record.id@ == self@.rows[k as int].record.id@);
                        if j < k {
                            assert(self@.rows[j].record.id@ != self@.rows[k as int].record.id@);
                        } else if k < j {
                            assert(self@.rows[k as int].record.id@ != self@.rows[j].record.id@);
                        }
                    }
                }
                types::is_same_record(&self.rows[k].record, expected)
            },
            None => false,
        }
    }

    /// Archives the active record with this identifier in the target.
    pub fn archive_v3(&mut self, target: &MemoryTarget, id: &str, now: &String) -> (r: Result<String, MemoryError>)
        requires
            old(self)@.wf(),
        ensures
            final(self)@.wf(),
            is_archive(old(self)@, final(self)@, r, *target, id@, *now),
    {
        let ghost s = self@;
        let f = match self.open_target(target, Some(id)) {
            Ok(f) => f,
            Err(e) => {
                return Err(e);
            },
        };
        if self.find_picked(&f).is_none() {
            return Err(MemoryError::not_found("memory not found"));
        }
        if self.faults.archive_aborts {
            return Err(MemoryError::io("sqlite failed: memory archive aborted"));
        }
        proof {
            store::lemma_archiving_keeps_wf(s, f, *now);
        }
        let _ids = store::archive_picked(&mut self.rows, &f, now);
        assert(self@ =~= without_active(s, f, *now));
        Ok(id.to_owned())
    }

    /// Deletes the active record with this identifier in the target.
    pub fn delete_v3(&mut self, target: &MemoryTarget, id: &str) -> (r: Result<String, MemoryError>)
        requires
            old(self)@.wf(),
        ensures
            final(self)@.wf(),
            is_delete(old(self)@, final(self)@, r, *target, id@),
    {
        let ghost s = self@;
        let f = match self.open_target(target, Some(id)) {
            Ok(f) => f,
            Err(e) => {
                return Err(e);
            },
        };
        if self.find_picked(&f).is_none() {
            return Err(MemoryError::not_found("memory not found"));
        }
        proof {
            store::lemma_filtering_keeps_wf(s, |r: MemoryRow| !store::picks(f, r));
        }
        let _ids = store::delete_picked(&mut self.rows, &f);
        assert(self@ =~= without(s, f));
        Ok(id.to_owned())
    }

    /// Deletes the record if it still holds what the snapshot holds.
    pub fn delete_v3_if_unchanged(&mut self, target: &MemoryTarget, id: &str, expected: &MemoryRecord) -> (r: Result<
        String,
        MemoryError,
    >)
        requires
            old(self)@.wf(),
        ensures
            final(self)@.wf(),
            is_delete_unchanged(old(self)@, final(self)@, r, *target, id@, *expected),
    {
        let ghost s = self@;
        let f = match self.open_target(target, Some(id)) {
            Ok(f) => f,
            Err(e) => {
                return Err(e);
            },
        };
        if !self.still_holds(&f, expected) {
            return Err(stale());
        }
        proof {
            store::lemma_filtering_keeps_wf(s, |r: MemoryRow| !store::picks(f, r));
        }
        let _ids = store::delete_picked(&mut self.rows, &f);
        assert(self@ =~= without(s, f));
        Ok(id.to_owned())
    }

    /// Deletes all active records of the target.
    pub fn clear_v3(&mut self, target: &MemoryTarget) -> (r: Result<Vec<String>, MemoryError>)
        requires
            old(self)@.wf(),
        ensures
            final(self)@.wf(),
            is_clear(old(self)@, final(self)@, r, *target),
    {
        let ghost s = self@;
        let f = match self.open_target(target, None) {
            Ok(f) => f,
            Err(e) => {
                return Err(e);
            },
        };
        proof {
            store::lemma_filtering_keeps_wf(s, |r: MemoryRow| !store::picks(f, r));
        }
        let ids = store::delete_picked(&mut self.rows, &f);
        assert(self@ =~= without(s, f));
        Ok(ids)
    }

    /// Deletes all active records of the target if they are exactly the listed ones.
    pub fn clear_v3_if_unchanged(&mut self, target: &MemoryTarget, expected_ids: &Vec<String>) -> (r: Result<
        Vec<String>,
        MemoryError,
    >)
        requires
            old(self)@.wf(),
        ensures
            final(self)@.wf(),
            is_clear_unchanged(old(self)@, final(self)@, r, *target, text::views(expected_ids@)),
    {
        let ghost s = self@;
        let f = match self.open_target(target, None) {
            Ok(f) => f,
            Err(e) => {
                return Err(e);
            },
        };
        let current = store::picked_ids(&self.rows, &f);
        if !are_same_ids(&current, expected_ids) {
            return Err(stale());
        }
        proof {
            store::lemma_filtering_keeps_wf(s, |r: MemoryRow| !store::picks(f, r));
        }
        let ids = store::delete_picked(&mut self.rows, &f);
        assert(self@ =~= without(s, f));
        Ok(ids)
    }

    /// Archives the record that the filter picks and stores the new one.
    fn replace_picked(
        &mut self,
        f: &RowFilter,
        id: &str,
        req: &PersistMemoryRequest,
        new_id: &String,
        now: &String,
    ) -> (r: Result<PersistMemoryResult, MemoryError>)
        requires
            old(self)@.wf(),
            !old(self)@.faults.table_dropped,
        ensures
            final(self)@.wf(),
            is_replaced(old(self)@, final(self)@, r, *f, id@, *req, *new_id, *now),
    {
        let ghost s = self@;
        if self.faults.archive_aborts {
            return Err(MemoryError::io("sqlite failed: memory archive aborted"));
        }
        let mut before: Vec<MemoryRow> = Vec::new();
        let mut i: usize = 0;
        while i < self.rows.len()
            invariant
                0 <= i <= self.rows@.len(),
                self@ == s,
                before@ == s.rows.take(i as int),
            decreases self.rows@.len() - i,
        {
            let row = &self.rows[i];
            before.push(MemoryRow { row_id: row.row_id, record: row.record.clone() });
            i += 1;
            assert(before@ =~= s.rows.take(i as int));
        }
        assert(before@ =~= s.rows);
        proof {
            store::lemma_archiving_keeps_wf(s, *f, *now);
        }
        let _ids = store::archive_picked(&mut self.rows, f, now);
        let ghost mid = without_active(s, *f, *now);
        assert(self@ =~= mid);
        proof {
            assert(store::id_taken(mid.rows, new_id@) == store::id_taken(s.rows, new_id@)) by {
                if store::id_taken(mid.rows, new_id@) {
                    let k = choose|k: int|
                        0 <= k < mid.rows.len() && (#[trigger] mid.rows[k]).record.id@ == new_id@;
                    assert(s.rows[k].record.id@ == new_id@);
                }
                if store::id_taken(s.rows, new_id@) {
                    let k = choose|k: int|
                        0 <= k < s.rows.len() && (#[trigger] s.rows[k]).record.id@ == new_id@;
                    assert(mid.rows[k].record.id@ == new_id@);
                }
            }
        }
        match self.persist_v3(req, new_id, now) {
            Ok(done) => {
                let mut ids: Vec<String> = Vec::new();
                ids.push(id.to_owned());
                let mut rest = done.archived_ids;
                let ghost a = ids@;
                let ghost b = rest@;
                ids.append(&mut rest);
                proof {
                    assert(ids@ =~= a + b);
                    assert(text::views(ids@) =~= seq![id@] + text::views(b));
                }
                Ok(PersistMemoryResult { record: done.record, archived_ids: ids })
            },
            Err(e) => {
                self.rows = before;
                assert(self@ =~= s);
                Err(e)
            },
        }
    }

    /// Replaces the active record with this identifier in the target.
    pub fn replace_v3(
        &mut self,
        target: &MemoryTarget,
        id: &str,
        req: &PersistMemoryRequest,
        new_id: &String,
        now: &String,
    ) -> (r: Result<PersistMemoryResult, MemoryError>)
        requires
            old(self)@.wf(),
        ensures
            final(self)@.wf(),
            is_replace(old(self)@, final(self)@, r, *target, id@, *req, *new_id, *now),
    {
        let f = match self.open_target(target, Some(id)) {
            Ok(f) => f,
            Err(e) => {
                return Err(e);
            },
        };
        if self.find_picked(&f).is_none() {
            return Err(MemoryError::not_found("memory not found"));
        }
        self.replace_picked(&f, id, req, new_id, now)
    }

    /// Replaces the record if it still holds what the snapshot holds.
    pub fn replace_v3_if_unchanged(
        &mut self,
        target: &MemoryTarget,
        id: &str,
        expected: &MemoryRecord,
        req: &PersistMemoryRequest,
        new_id: &String,
        now: &String,
    ) -> (r: Result<PersistMemoryResult, MemoryError>)
        requires
            old(self)@.wf(),
        ensures
            final(self)@.wf(),
            is_replace_unchanged(
                old(self)@,
                final(self)@,
                r,
                *target,
                id@,
                *expected,
                *req,
                *new_id,
                *now,
            ),
    {
        let f = match self.open_target(target, Some(id)) {
            Ok(f) => f,
            Err(e) => {
                return Err(e);
            },
        };
        if !self.still_holds(&f, expected) {
            return Err(stale());
        }
        self.replace_picked(&f, id, req, new_id, now)
    }

    fn set_profile(&mut self, f: &RowFilter, enabled: bool, now: &String) -> (r: Result<Vec<String>, MemoryError>)
        requires
            old(self)@.wf(),
        ensures
            final(self)@.wf(),
            is_profile_set(old(self)@, final(self)@, r, *f, enabled, *now),
    {
        let ghost s = self@;
        if !enabled && self.faults.archive_aborts && store::any_picked(&self.rows, f) {
            return Err(MemoryError::io("sqlite failed: memory archive aborted"));
        }
        self.set_preference(&f.target, enabled, now);
        if enabled {
            let ids: Vec<String> = Vec::new();
            assert(text::views(ids@) =~= Seq::empty());
            return Ok(ids);
        }
        let ghost mid = self@;
        proof {
            store::lemma_archiving_keeps_wf(mid, *f, *now);
        }
        let ids = store::archive_picked(&mut self.rows, f, now);
        assert(self@ =~= StoreView { rows: store::archived_where(s.rows, *f, *now), ..mid });
        Ok(ids)
    }

    /// Sets whether the profile may be kept; opting out archives its active records and
    /// returns their identifiers.
    pub fn set_group_profile_enabled(&mut self, target: &MemoryTarget, enabled: bool, now: &String) -> (r: Result<
        Vec<String>,
        MemoryError,
    >)
        requires
            old(self)@.wf(),
        ensures
            final(self)@.wf(),
            is_profile_choice(old(self)@, final(self)@, r, *target, enabled, *now),
    {
        let f = match self.open_target(target, None) {
            Ok(f) => f,
            Err(e) => {
                return Err(e);
            },
        };
        self.set_profile(&f, enabled, now)
    }

    /// The same, if the choice and the profile's records are still as in the snapshot.
    pub fn set_group_profile_enabled_if_unchanged(
        &mut self,
        target: &MemoryTarget,
        enabled: bool,
        expected_enabled: bool,
        expected_ids: &Vec<String>,
        now: &String,
    ) -> (r: Result<Vec<String>, MemoryError>)
        requires
            old(self)@.wf(),
        ensures
            final(self)@.wf(),
            is_profile_choice_unchanged(
                old(self)@,
                final(self)@,
                r,
                *target,
                enabled,
                expected_enabled,
                text::views(expected_ids@),
                *now,
            ),
    {
        let f = match self.open_target(target, None) {
            Ok(f) => f,
            Err(e) => {
                return Err(e);
            },
        };
        let current = store::picked_ids(&self.rows, &f);
        if self.is_profile_enabled(&f.target) != expected_enabled || !are_same_ids(
            &current,
            expected_ids,
        ) {
            return Err(stale());
        }
        self.set_profile(&f, enabled, now)
    }
}

} // verus!
