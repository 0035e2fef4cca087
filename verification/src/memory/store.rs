//! The tables of the memory database and the queries and transactions on them.
use vstd::prelude::*;
use vstd::string::*;

use crate::memory::types;
use crate::memory::types::{MemoryError, MemoryKind, MemoryRecord, MemoryStatus, MemoryTarget};
use crate::text;

verus! {

/// A stored record with the number of its row; later rows have larger numbers.
#[derive(Debug)]
pub struct MemoryRow {
    pub row_id: i64,
    pub record: MemoryRecord,
}

/// How far the background pass has come for one target.
#[derive(Debug)]
pub struct ConsolidationCheckpoint {
    pub target: MemoryTarget,
    pub last_processed_row_id: i64,
    pub last_run_at_epoch: i64,
    pub input_count: usize,
    pub output_count: usize,
    pub duplicate_count: usize,
    pub conflict_count: usize,
    pub truncated: bool,
}

/// Whether a member lets the group keep a profile of them.
#[derive(Debug)]
pub struct ProfilePreference {
    pub group_scope_id: String,
    pub subject_id: String,
    pub profile_enabled: bool,
    pub created_at: String,
    pub updated_at: String,
}

/// What the database refuses to do.
#[derive(Debug, Clone, Copy, PartialEq, Eq, Structural)]
pub struct StoreFaults {
    pub table_dropped: bool,
    pub insert_aborts: bool,
    pub archive_aborts: bool,
}

/// The memory tables as one transaction sees them.
#[derive(Debug)]
pub struct MemoryStore {
    pub rows: Vec<MemoryRow>,
    pub last_row_id: i64,
    pub checkpoints: Vec<ConsolidationCheckpoint>,
    pub preferences: Vec<ProfilePreference>,
    pub faults: StoreFaults,
}

/// The contents of the tables.
#[verifier::ext_equal]
pub struct StoreView {
    pub rows: Seq<MemoryRow>,
    pub last_row_id: i64,
    pub checkpoints: Seq<ConsolidationCheckpoint>,
    pub preferences: Seq<ProfilePreference>,
    pub faults: StoreFaults,
}

impl View for MemoryStore {
    type V = StoreView;

    open spec fn view(&self) -> StoreView {
        StoreView {
            rows: self.rows@,
            last_row_id: self.last_row_id,
            checkpoints: self.checkpoints@,
            preferences: self.preferences@,
            faults: self.faults,
        }
    }
}

/// Whether the row is an active record of the target.
pub open spec fn row_in(row: MemoryRow, target: MemoryTarget) -> bool {
    &&& row.record.status == MemoryStatus::Active
    &&& record_of(row.record, target)
}

/// Whether the record belongs to the target, whatever its status.
pub open spec fn record_of(record: MemoryRecord, target: MemoryTarget) -> bool {
    &&& record.scope_type == target.scope_type
    &&& text::opt_view(record.scope_id) == Some(target.scope_id@)
    &&& record.memory_kind == target.memory_kind
    &&& text::opt_view(record.subject_id) == text::opt_view(target.subject_id)
}

/// Whether the record names its boundary.
pub open spec fn bounded(record: MemoryRecord) -> bool {
    text::opt_view(record.scope_id) matches Some(s) && !text::blank(s)
}

impl StoreView {
    pub open spec fn rows_sorted(self) -> bool {
        forall|i: int, j: int|
            0 <= i < j < self.rows.len() ==> (#[trigger] self.rows[i]).row_id < (
            #[trigger] self.rows[j]).row_id
    }

    pub open spec fn rows_numbered(self) -> bool {
        forall|i: int|
            0 <= i < self.rows.len() ==> 0 < (#[trigger] self.rows[i]).row_id <= self.last_row_id
    }

    pub open spec fn ids_unique(self) -> bool {
        forall|i: int, j: int|
            0 <= i < j < self.rows.len() ==> (#[trigger] self.rows[i]).record.id@ != (
            #[trigger] self.rows[j]).record.id@
    }

    pub open spec fn rows_bounded(self) -> bool {
        forall|i: int|
            0 <= i < self.rows.len() && (#[trigger] self.rows[i]).record.status
                == MemoryStatus::Active && self.rows[i].record.memory_kind
                != MemoryKind::LegacyUnassigned ==> bounded(self.rows[i].record)
    }

    pub open spec fn checkpoints_unique(self) -> bool {
        forall|i: int, j: int|
            0 <= i < j < self.checkpoints.len() ==> !types::same_target(
                (#[trigger] self.checkpoints[i]).target,
                (#[trigger] self.checkpoints[j]).target,
            )
    }

    /// What every operation keeps: rows are numbered in ascending order, no identifier
    /// is used twice, active records name their boundary, and a target has at most one
    /// checkpoint.
    pub open spec fn wf(self) -> bool {
        &&& 0 <= self.last_row_id
        &&& self.rows_sorted()
        &&& self.rows_numbered()
        &&& self.ids_unique()
        &&& self.rows_bounded()
        &&& self.checkpoints_unique()
    }
}

/// Whether the row is an active record of the target.
pub fn is_row_in(row: &MemoryRow, target: &MemoryTarget) -> (r: bool)
    ensures
        r == row_in(*row, *target),
{
    row.record.status == MemoryStatus::Active && is_record_of(&row.record, target)
}

pub fn is_record_of(record: &MemoryRecord, target: &MemoryTarget) -> (r: bool)
    ensures
        r == record_of(*record, *target),
{
    record.scope_type == target.scope_type && record.memory_kind == target.memory_kind && text::same_option(
        &record.subject_id,
        &target.subject_id,
    ) && match &record.scope_id {
        Some(s) => text::same(s.as_str(), target.scope_id.as_str()),
        None => false,
    }
}

impl MemoryStore {
    /// Empty tables.
    pub fn new() -> (r: Self)
        ensures
            r@.wf(),
            r@ == (StoreView {
                rows: Seq::empty(),
                last_row_id: 0,
                checkpoints: Seq::empty(),
                preferences: Seq::empty(),
                faults: StoreFaults {
                    table_dropped: false,
                    insert_aborts: false,
                    archive_aborts: false,
                },
            }),
    {
        let r = MemoryStore {
            rows: Vec::new(),
            last_row_id: 0,
            checkpoints: Vec::new(),
            preferences: Vec::new(),
            faults: StoreFaults {
                table_dropped: false,
                insert_aborts: false,
                archive_aborts: false,
            },
        };
        assert(r@.rows =~= Seq::empty());
        assert(r@.checkpoints =~= Seq::empty());
        assert(r@.preferences =~= Seq::empty());
        r
    }

    /// Drops the memory table: every later access to it fails.
    pub fn drop_schema_for_test(&mut self) -> (r: Result<(), MemoryError>)
        ensures
            old(self)@.faults.table_dropped ==> r is Err && final(self)@ == old(self)@,
            !old(self)@.faults.table_dropped ==> r is Ok && final(self)@ == (StoreView {
                faults: StoreFaults { table_dropped: true, ..old(self)@.faults },
                ..old(self)@
            }),
            r matches Err(e) ==> e.code_text() == "io_error"@,
    {
        if self.faults.table_dropped {
            return Err(MemoryError::io("sqlite failed: no such table: memories"));
        }
        self.faults.table_dropped = true;
        Ok(())
    }

    /// Makes every later insertion of a record fail.
    pub fn abort_memory_insert_for_test(&mut self) -> (r: Result<(), MemoryError>)
        ensures
            r is Ok <==> !(old(self)@.faults.table_dropped || old(self)@.faults.insert_aborts),
            r is Err ==> final(self)@ == old(self)@,
            r is Ok ==> final(self)@ == (StoreView {
                faults: StoreFaults { insert_aborts: true, ..old(self)@.faults },
                ..old(self)@
            }),
            r matches Err(e) ==> e.code_text() == "io_error"@,
    {
        if self.faults.table_dropped || self.faults.insert_aborts {
            return Err(MemoryError::io("sqlite failed: trigger cannot be created"));
        }
        self.faults.insert_aborts = true;
        Ok(())
    }

    /// Makes every later change of a record to archived fail.
    pub fn abort_memory_archive_for_test(&mut self) -> (r: Result<(), MemoryError>)
        ensures
            r is Ok <==> !(old(self)@.faults.table_dropped || old(self)@.faults.archive_aborts),
            r is Err ==> final(self)@ == old(self)@,
            r is Ok ==> final(self)@ == (StoreView {
                faults: StoreFaults { archive_aborts: true, ..old(self)@.faults },
                ..old(self)@
            }),
            r matches Err(e) ==> e.code_text() == "io_error"@,
    {
        if self.faults.table_dropped || self.faults.archive_aborts {
            return Err(MemoryError::io("sqlite failed: trigger cannot be created"));
        }
        self.faults.archive_aborts = true;
        Ok(())
    }
}

// Rows that an operation is about.

/// The relation and attribute within which a target holds one active record.
#[derive(Debug)]
pub struct ConflictKey {
    pub relation_subject_id: Option<String>,
    pub relation_object_id: Option<String>,
    pub attribute_key: String,
}

/// Active records of a target: all of them, the one with an identifier, or those that
/// hold an attribute.
#[derive(Debug)]
pub struct RowFilter {
    pub target: MemoryTarget,
    pub id: Option<String>,
    pub conflict: Option<ConflictKey>,
}

pub open spec fn holds_attribute(record: MemoryRecord, c: ConflictKey) -> bool {
    &&& text::opt_view(record.relation_subject_id) == text::opt_view(c.relation_subject_id)
    &&& text::opt_view(record.relation_object_id) == text::opt_view(c.relation_object_id)
    &&& text::opt_view(record.attribute_key) == Some(c.attribute_key@)
}

pub open spec fn picks(f: RowFilter, row: MemoryRow) -> bool {
    &&& row_in(row, f.target)
    &&& f.id matches Some(id) ==> id@ == row.record.id@
    &&& f.conflict matches Some(c) ==> holds_attribute(row.record, c)
}

/// The rows that the filter picks, in their order.
pub open spec fn picked(rows: Seq<MemoryRow>, f: RowFilter) -> Seq<MemoryRow> {
    rows.filter(|r: MemoryRow| picks(f, r))
}

/// The identifiers of the rows.
pub open spec fn row_ids(rows: Seq<MemoryRow>) -> Seq<Seq<char>> {
    Seq::new(rows.len(), |i: int| rows[i].record.id@)
}

/// The row with its record archived at time `now`.
pub open spec fn archived(row: MemoryRow, now: String) -> MemoryRow {
    MemoryRow {
        row_id: row.row_id,
        record: MemoryRecord { status: MemoryStatus::Archived, updated_at: Some(now), ..row.record },
    }
}

pub open spec fn archived_where(rows: Seq<MemoryRow>, f: RowFilter, now: String) -> Seq<MemoryRow> {
    Seq::new(
        rows.len(),
        |k: int|
            if picks(f, rows[k]) {
                archived(rows[k], now)
            } else {
                rows[k]
            },
    )
}

pub open spec fn deleted_where(rows: Seq<MemoryRow>, f: RowFilter) -> Seq<MemoryRow> {
    rows.filter(|r: MemoryRow| !picks(f, r))
}

pub fn whole_target(target: &MemoryTarget) -> (f: RowFilter)
    ensures
        f.target == *target,
        f.id is None,
        f.conflict is None,
{
    RowFilter { target: target.clone(), id: None, conflict: None }
}

pub fn one_record(target: &MemoryTarget, id: &str) -> (f: RowFilter)
    ensures
        f.target == *target,
        text::opt_view(f.id) == Some(id@),
        f.conflict is None,
{
    RowFilter { target: target.clone(), id: Some(id.to_owned()), conflict: None }
}

pub fn is_picked(f: &RowFilter, row: &MemoryRow) -> (r: bool)
    ensures
        r == picks(*f, *row),
{
    is_row_in(row, &f.target) && match &f.id {
        Some(id) => text::same(id.as_str(), row.record.id.as_str()),
        None => true,
    } && match &f.conflict {
        Some(c) => text::same_option(&row.record.relation_subject_id, &c.relation_subject_id)
            && text::same_option(&row.record.relation_object_id, &c.relation_object_id)
            && match &row.record.attribute_key {
            Some(k) => text::same(k.as_str(), c.attribute_key.as_str()),
            None => false,
        },
        None => true,
    }
}

pub proof fn lemma_filter_step(rows: Seq<MemoryRow>, pred: spec_fn(MemoryRow) -> bool, i: int)
    requires
        0 <= i < rows.len(),
    ensures
        rows.take(i + 1).filter(pred) == (if pred(rows[i]) {
            rows.take(i).filter(pred).push(rows[i])
        } else {
            rows.take(i).filter(pred)
        }),
{
    reveal(Seq::filter);
    let t = rows.take(i + 1);
    assert(t.drop_last() =~= rows.take(i));
    assert(t.last() == rows[i]);
}

pub proof fn lemma_filter_start(rows: Seq<MemoryRow>, pred: spec_fn(MemoryRow) -> bool)
    ensures
        rows.take(0).filter(pred) == Seq::<MemoryRow>::empty(),
{
    reveal(Seq::filter);
    assert(rows.take(0) =~= Seq::empty());
}

/// The identifiers of the rows that the filter picks.
pub fn picked_ids(rows: &Vec<MemoryRow>, f: &RowFilter) -> (r: Vec<String>)
    ensures
        text::views(r@) == row_ids(picked(rows@, *f)),
{
    let ghost pred = |r: MemoryRow| picks(*f, r);
    let mut out: Vec<String> = Vec::new();
    let mut i: usize = 0;
    proof {
        lemma_filter_start(rows@, pred);
        assert(text::views(out@) =~= row_ids(rows@.take(0).filter(pred)));
    }
    while i < rows.len()
        invariant
            0 <= i <= rows@.len(),
            pred == (|r: MemoryRow| picks(*f, r)),
            text::views(out@) == row_ids(rows@.take(i as int).filter(pred)),
        decreases rows@.len() - i,
    {
        proof {
            lemma_filter_step(rows@, pred, i as int);
        }
        if is_picked(f, &rows[i]) {
            let ghost before = out@;
            out.push(rows[i].record.id.clone());
            proof {
                assert(pred(rows@[i as int]));
                assert(text::views(out@) =~= text::views(before).push(rows@[i as int].record.id@));
                assert(row_ids(rows@.take(i + 1).filter(pred)) =~= row_ids(
                    rows@.take(i as int).filter(pred),
                ).push(rows@[i as int].record.id@));
            }
        } else {
            assert(!pred(rows@[i as int]));
        }
        i += 1;
    }
    assert(rows@.take(i as int) =~= rows@);
    out
}

/// Archives the rows that the filter picks and returns their identifiers.
pub fn archive_picked(rows: &mut Vec<MemoryRow>, f: &RowFilter, now: &String) -> (r: Vec<String>)
    ensures
        final(rows)@ == archived_where(old(rows)@, *f, *now),
        text::views(r@) == row_ids(picked(old(rows)@, *f)),
{
    let ids = picked_ids(rows, f);
    let ghost s = rows@;
    let mut i: usize = 0;
    while i < rows.len()
        invariant
            0 <= i <= rows@.len(),
            rows@.len() == s.len(),
            forall|k: int| 0 <= k < i ==> #[trigger] rows@[k] == archived_where(s, *f, *now)[k],
            forall|k: int| i <= k < s.len() ==> #[trigger] rows@[k] == s[k],
        decreases rows@.len() - i,
    {
        if is_picked(f, &rows[i]) {
            let mut record = rows[i].record.clone();
            record.status = MemoryStatus::Archived;
            record.updated_at = Some(now.clone());
            let row = MemoryRow { row_id: rows[i].row_id, record };
            assert(row == archived(s[i as int], *now));
            rows.set(i, row);
        }
        i += 1;
    }
    assert(rows@ =~= archived_where(s, *f, *now));
    ids
}

/// Deletes the rows that the filter picks and returns their identifiers.
pub fn delete_picked(rows: &mut Vec<MemoryRow>, f: &RowFilter) -> (r: Vec<String>)
    ensures
        final(rows)@ == deleted_where(old(rows)@, *f),
        text::views(r@) == row_ids(picked(old(rows)@, *f)),
{
    let ids = picked_ids(rows, f);
    let ghost s = rows@;
    let ghost pred = |r: MemoryRow| !picks(*f, r);
    let ghost mut done: int = 0;
    let mut i: usize = 0;
    proof {
        lemma_filter_start(s, pred);
        assert(rows@ =~= s.take(0).filter(pred) + s.skip(0));
    }
    while i < rows.len()
        invariant
            0 <= done <= s.len(),
            0 <= i <= rows@.len(),
            pred == (|r: MemoryRow| !picks(*f, r)),
            i == s.take(done).filter(pred).len(),
            rows@ == s.take(done).filter(pred) + s.skip(done),
        decreases rows@.len() - i,
    {
        proof {
            lemma_filter_step(s, pred, done);
            assert(rows@[i as int] == s.skip(done)[0]);
            assert(s.skip(done)[0] == s[done]);
        }
        let ghost before = rows@;
        if is_picked(f, &rows[i]) {
            assert(!pred(s[done]));
            let _gone = rows.remove(i);
            proof {
                assert(rows@ =~= s.take(done + 1).filter(pred) + s.skip(done + 1));
                done = done + 1;
            }
        } else {
            assert(pred(s[done]));
            i += 1;
            proof {
                assert(rows@ =~= s.take(done + 1).filter(pred) + s.skip(done + 1));
                done = done + 1;
            }
        }
    }
    proof {
        assert(done == s.len());
        assert(s.take(done) =~= s);
        assert(rows@ =~= s.filter(pred));
    }
    ids
}

/// Whether the filter picks any row.
pub fn any_picked(rows: &Vec<MemoryRow>, f: &RowFilter) -> (r: bool)
    ensures
        r == exists|k: int| 0 <= k < rows@.len() && picks(*f, #[trigger] rows@[k]),
        r == (picked(rows@, *f).len() > 0),
{
    let ids = picked_ids(rows, f);
    proof {
        let p = picked(rows@, *f);
        let pred = |r: MemoryRow| picks(*f, r);
        assert(text::views(ids@).len() == row_ids(p).len());
        if p.len() > 0 {
            broadcast use vstd::seq_lib::group_filter_ensures;
            assert(p.contains(p[0]));
            rows@.lemma_filter_contains_rev(pred, p[0]);
            let k = choose|k: int| 0 <= k < rows@.len() && rows@[k] == p[0];
            assert(pred(p[0]));
            assert(picks(*f, rows@[k]));
        }
        if exists|k: int| 0 <= k < rows@.len() && picks(*f, #[trigger] rows@[k]) {
            let k = choose|k: int| 0 <= k < rows@.len() && picks(*f, #[trigger] rows@[k]);
            rows@.lemma_filter_contains(pred, k);
            let m = choose|m: int| 0 <= m < p.len() && p[m] == rows@[k];
        }
    }
    ids.len() > 0
}

// What keeps the tables well formed.

pub proof fn lemma_archiving_keeps_wf(s: StoreView, f: RowFilter, now: String)
    requires
        s.wf(),
    ensures
        (StoreView { rows: archived_where(s.rows, f, now), ..s }).wf(),
{
    let t = StoreView { rows: archived_where(s.rows, f, now), ..s };
    assert forall|i: int| 0 <= i < t.rows.len() implies (#[trigger] t.rows[i]).row_id
        == s.rows[i].row_id && t.rows[i].record.id == s.rows[i].record.id && (t.rows[i] == s.rows[i]
        || t.rows[i].record.status == MemoryStatus::Archived) by {}
    assert forall|i: int, j: int| 0 <= i < j < t.rows.len() implies (#[trigger] t.rows[i]).row_id < (
    #[trigger] t.rows[j]).row_id by {
        assert(s.rows[i].row_id < s.rows[j].row_id);
    }
    assert forall|i: int, j: int| 0 <= i < j < t.rows.len() implies (#[trigger] t.rows[i]).record.id@
        != (#[trigger] t.rows[j]).record.id@ by {
        assert(s.rows[i].record.id@ != s.rows[j].record.id@);
    }
    assert forall|i: int| 0 <= i < t.rows.len() implies 0 < (#[trigger] t.rows[i]).row_id
        <= t.last_row_id by {
        assert(0 < s.rows[i].row_id <= s.last_row_id);
    }
    assert forall|i: int|
        0 <= i < t.rows.len() && (#[trigger] t.rows[i]).record.status == MemoryStatus::Active
            && t.rows[i].record.memory_kind != MemoryKind::LegacyUnassigned implies bounded(
        t.rows[i].record,
    ) by {
        assert(t.rows[i] == s.rows[i]);
    }
}

/// Whether `rows` are rows of `s` in their order, the last of them before row `n`.
spec fn drawn_from(s: StoreView, rows: Seq<MemoryRow>, at: Seq<int>, n: int) -> bool {
    &&& at.len() == rows.len()
    &&& forall|i: int| 0 <= i < rows.len() ==> 0 <= (#[trigger] at[i]) < n && s.rows[at[i]] == rows[i]
    &&& forall|i: int, j: int| 0 <= i < j < at.len() ==> (#[trigger] at[i]) < (#[trigger] at[j])
}

proof fn lemma_filter_drawn(s: StoreView, pred: spec_fn(MemoryRow) -> bool, n: int) -> (at: Seq<int>)
    requires
        0 <= n <= s.rows.len(),
    ensures
        drawn_from(s, s.rows.take(n).filter(pred), at, n),
    decreases n,
{
    if n == 0 {
        lemma_filter_start(s.rows, pred);
        Seq::empty()
    } else {
        let before = lemma_filter_drawn(s, pred, n - 1);
        lemma_filter_step(s.rows, pred, n - 1);
        if pred(s.rows[n - 1]) {
            before.push(n - 1)
        } else {
            before
        }
    }
}

pub proof fn lemma_filtering_keeps_wf(s: StoreView, pred: spec_fn(MemoryRow) -> bool)
    requires
        s.wf(),
    ensures
        (StoreView { rows: s.rows.filter(pred), ..s }).wf(),
{
    let t = StoreView { rows: s.rows.filter(pred), ..s };
    let at = lemma_filter_drawn(s, pred, s.rows.len() as int);
    assert(s.rows.take(s.rows.len() as int) =~= s.rows);
    assert forall|i: int, j: int| 0 <= i < j < t.rows.len() implies (#[trigger] t.rows[i]).row_id < (
    #[trigger] t.rows[j]).row_id by {
        assert(at[i] < at[j]);
        assert(s.rows[at[i]].row_id < s.rows[at[j]].row_id);
    }
    assert forall|i: int, j: int| 0 <= i < j < t.rows.len() implies (#[trigger] t.rows[i]).record.id@
        != (#[trigger] t.rows[j]).record.id@ by {
        assert(at[i] < at[j]);
        assert(s.rows[at[i]].record.id@ != s.rows[at[j]].record.id@);
    }
    assert forall|i: int| 0 <= i < t.rows.len() implies 0 < (#[trigger] t.rows[i]).row_id
        <= t.last_row_id by {
        assert(0 <= at[i] < s.rows.len());
        assert(0 < s.rows[at[i]].row_id <= s.last_row_id);
    }
    assert forall|i: int|
        0 <= i < t.rows.len() && (#[trigger] t.rows[i]).record.status == MemoryStatus::Active
            && t.rows[i].record.memory_kind != MemoryKind::LegacyUnassigned implies bounded(
        t.rows[i].record,
    ) by {
        assert(0 <= at[i] < s.rows.len());
        assert(bounded(s.rows[at[i]].record));
    }
}

/// The tables with the record in a new last row.
pub open spec fn with_record(s: StoreView, record: MemoryRecord) -> StoreView {
    StoreView {
        rows: s.rows.push(MemoryRow { row_id: (s.last_row_id + 1) as i64, record }),
        last_row_id: (s.last_row_id + 1) as i64,
        ..s
    }
}

pub open spec fn id_taken(rows: Seq<MemoryRow>, id: Seq<char>) -> bool {
    exists|k: int| 0 <= k < rows.len() && (#[trigger] rows[k]).record.id@ == id
}

/// Whether the database refuses to insert a record with this identifier.
pub open spec fn insert_fails(s: StoreView, id: Seq<char>) -> bool {
    s.faults.table_dropped || s.faults.insert_aborts || s.last_row_id == i64::MAX || id_taken(
        s.rows,
        id,
    )
}

pub proof fn lemma_inserting_keeps_wf(s: StoreView, record: MemoryRecord)
    requires
        s.wf(),
        !insert_fails(s, record.id@),
        record.status == MemoryStatus::Active && record.memory_kind != MemoryKind::LegacyUnassigned
            ==> bounded(record),
    ensures
        with_record(s, record).wf(),
{
    let t = with_record(s, record);
    assert forall|i: int, j: int| 0 <= i < j < t.rows.len() implies (#[trigger] t.rows[i]).record.id@
        != (#[trigger] t.rows[j]).record.id@ by {
        if j < s.rows.len() {
            assert(s.rows[i].record.id@ != s.rows[j].record.id@);
        } else {
            assert(s.rows[i].record.id@ != record.id@);
        }
    }
    assert forall|i: int, j: int| 0 <= i < j < t.rows.len() implies (#[trigger] t.rows[i]).row_id < (
    #[trigger] t.rows[j]).row_id by {
        if j < s.rows.len() {
            assert(s.rows[i].row_id < s.rows[j].row_id);
        } else {
            assert(s.rows[i].row_id <= s.last_row_id);
        }
    }
}

pub(crate) fn is_id_taken(rows: &Vec<MemoryRow>, id: &str) -> (r: bool)
    ensures
        r == id_taken(rows@, id@),
{
    let mut i: usize = 0;
    while i < rows.len()
        invariant
            0 <= i <= rows@.len(),
            forall|k: int| 0 <= k < i ==> (#[trigger] rows@[k]).record.id@ != id@,
        decreases rows@.len() - i,
    {
        if text::same(rows[i].record.id.as_str(), id) {
            assert(rows@[i as int].record.id@ == id@);
            return true;
        }
        i += 1;
    }
    false
}

impl MemoryStore {
    pub(crate) fn insert_record(&mut self, record: MemoryRecord) -> (r: Result<(), MemoryError>)
        requires
            old(self)@.wf(),
            record.status == MemoryStatus::Active && record.memory_kind
                != MemoryKind::LegacyUnassigned ==> bounded(record),
        ensures
            final(self)@.wf(),
            insert_fails(old(self)@, record.id@) ==> types::broken(r) && final(self)@ == old(self)@,
            !insert_fails(old(self)@, record.id@) ==> r is Ok && final(self)@ == with_record(
                old(self)@,
                record,
            ),
    {
        if self.faults.table_dropped || self.faults.insert_aborts || self.last_row_id == i64::MAX
            || is_id_taken(&self.rows, record.id.as_str()) {
            return Err(MemoryError::io("sqlite failed: memory insert aborted"));
        }
        proof {
            lemma_inserting_keeps_wf(self@, record);
        }
        let row_id: i64 = self.last_row_id + 1;
        self.last_row_id = row_id;
        self.rows.push(MemoryRow { row_id, record });
        Ok(())
    }
}

} // verus!
