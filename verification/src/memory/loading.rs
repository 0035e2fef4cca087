//! Tables that come from a database: they are taken only where they are well formed.
use vstd::prelude::*;
use vstd::string::*;

use crate::memory::store;
use crate::memory::store::{
    ConsolidationCheckpoint, MemoryRow, MemoryStore, ProfilePreference, StoreFaults, StoreView,
};
use crate::memory::types;
use crate::memory::types::{MemoryKind, MemoryRecord, MemoryStatus};
use crate::text;

verus! {

/// The tables, of a database that refuses nothing.
pub open spec fn tables(
    rows: Seq<MemoryRow>,
    last_row_id: i64,
    checkpoints: Seq<ConsolidationCheckpoint>,
    preferences: Seq<ProfilePreference>,
) -> StoreView {
    StoreView {
        rows,
        last_row_id,
        checkpoints,
        preferences,
        faults: StoreFaults { table_dropped: false, insert_aborts: false, archive_aborts: false },
    }
}

fn is_bounded(record: &MemoryRecord) -> (r: bool)
    ensures
        r == store::bounded(*record),
{
    match &record.scope_id {
        Some(s) => !text::is_blank(s.as_str()),
        None => false,
    }
}

/// Whether the row fits behind those before it.
spec fn row_fits(rows: Seq<MemoryRow>, last_row_id: i64, k: int) -> bool {
    &&& 0 < rows[k].row_id <= last_row_id
    &&& rows[k].record.status == MemoryStatus::Active && rows[k].record.memory_kind
        != MemoryKind::LegacyUnassigned ==> store::bounded(rows[k].record)
    &&& forall|i: int|
        0 <= i < k ==> (#[trigger] rows[i]).row_id < rows[k].row_id && rows[i].record.id@
            != rows[k].record.id@
}

fn does_row_fit(rows: &Vec<MemoryRow>, last_row_id: i64, k: usize) -> (r: bool)
    requires
        k < rows@.len(),
    ensures
        r == row_fits(rows@, last_row_id, k as int),
{
    let row = &rows[k];
    if row.row_id <= 0 || row.row_id > last_row_id {
        return false;
    }
    if row.record.status == MemoryStatus::Active && row.record.memory_kind
        != MemoryKind::LegacyUnassigned && !is_bounded(&row.record) {
        return false;
    }
    let mut i: usize = 0;
    while i < k
        invariant
            0 <= i <= k < rows@.len(),
            row == rows@[k as int],
            forall|j: int|
                0 <= j < i ==> (#[trigger] rows@[j]).row_id < row.row_id && rows@[j].record.id@
                    != row.record.id@,
        decreases k - i,
    {
        if rows[i].row_id >= row.row_id || text::same(rows[i].record.id.as_str(), row.record.id.as_str()) {
            assert(!(rows@[i as int].row_id < row.row_id && rows@[i as int].record.id@
                != row.record.id@));
            return false;
        }
        i += 1;
    }
    true
}

fn do_rows_fit(rows: &Vec<MemoryRow>, last_row_id: i64) -> (r: bool)
    ensures
        r == forall|k: int| 0 <= k < rows@.len() ==> #[trigger] row_fits(rows@, last_row_id, k),
{
    let mut k: usize = 0;
    while k < rows.len()
        invariant
            0 <= k <= rows@.len(),
            forall|j: int| 0 <= j < k ==> #[trigger] row_fits(rows@, last_row_id, j),
        decreases rows@.len() - k,
    {
        if !does_row_fit(rows, last_row_id, k) {
            assert(!row_fits(rows@, last_row_id, k as int));
            return false;
        }
        k += 1;
    }
    true
}

/// Whether no checkpoint before it is for the same target.
spec fn checkpoint_fits(checkpoints: Seq<ConsolidationCheckpoint>, k: int) -> bool {
    forall|i: int|
        0 <= i < k ==> !types::same_target((#[trigger] checkpoints[i]).target, checkpoints[k].target)
}

fn do_checkpoints_fit(checkpoints: &Vec<ConsolidationCheckpoint>) -> (r: bool)
    ensures
        r == forall|k: int| 0 <= k < checkpoints@.len() ==> #[trigger] checkpoint_fits(checkpoints@, k),
{
    let mut k: usize = 0;
    while k < checkpoints.len()
        invariant
            0 <= k <= checkpoints@.len(),
            forall|j: int| 0 <= j < k ==> #[trigger] checkpoint_fits(checkpoints@, j),
        decreases checkpoints@.len() - k,
    {
        let mut i: usize = 0;
        while i < k
            invariant
                0 <= i <= k < checkpoints@.len(),
                forall|j: int|
                    0 <= j < i ==> !types::same_target(
                        (#[trigger] checkpoints@[j]).target,
                        checkpoints@[k as int].target,
                    ),
            decreases k - i,
        {
            if checkpoints[i].target.same_as(&checkpoints[k].target) {
                assert(!checkpoint_fits(checkpoints@, k as int));
                return false;
            }
            i += 1;
        }
        k += 1;
    }
    true
}

proof fn lemma_fitting_rows(s: StoreView)
    ensures
        s.wf() == (0 <= s.last_row_id && (forall|k: int|
            0 <= k < s.rows.len() ==> #[trigger] row_fits(s.rows, s.last_row_id, k)) && (forall|k: int|
            0 <= k < s.checkpoints.len() ==> #[trigger] checkpoint_fits(s.checkpoints, k))),
{
    let fit = 0 <= s.last_row_id && (forall|k: int|
        0 <= k < s.rows.len() ==> #[trigger] row_fits(s.rows, s.last_row_id, k)) && (forall|k: int|
        0 <= k < s.checkpoints.len() ==> #[trigger] checkpoint_fits(s.checkpoints, k));
    if fit {
        assert forall|i: int, j: int| 0 <= i < j < s.rows.len() implies (
        #[trigger] s.rows[i]).row_id < (#[trigger] s.rows[j]).row_id && s.rows[i].record.id@
            != s.rows[j].record.id@ by {
            assert(row_fits(s.rows, s.last_row_id, j));
        }
        assert forall|i: int| 0 <= i < s.rows.len() implies 0 < (#[trigger] s.rows[i]).row_id
            <= s.last_row_id by {
            assert(row_fits(s.rows, s.last_row_id, i));
        }
        assert forall|i: int|
            0 <= i < s.rows.len() && (#[trigger] s.rows[i]).record.status == MemoryStatus::Active
                && s.rows[i].record.memory_kind != MemoryKind::LegacyUnassigned implies store::bounded(
            s.rows[i].record,
        ) by {
            assert(row_fits(s.rows, s.last_row_id, i));
        }
        assert forall|i: int, j: int| 0 <= i < j < s.checkpoints.len() implies !types::same_target(
            (#[trigger] s.checkpoints[i]).target,
            (#[trigger] s.checkpoints[j]).target,
        ) by {
            assert(checkpoint_fits(s.checkpoints, j));
        }
    }
}

impl MemoryStore {
    /// The tables as they are, if they are well formed.
    pub fn from_tables(
        rows: Vec<MemoryRow>,
        last_row_id: i64,
        checkpoints: Vec<ConsolidationCheckpoint>,
        preferences: Vec<ProfilePreference>,
    ) -> (r: Option<Self>)
        ensures
            match r {
                Some(s) => s@.wf() && s@ == tables(rows@, last_row_id, checkpoints@, preferences@),
                None => !tables(rows@, last_row_id, checkpoints@, preferences@).wf(),
            },
    {
        proof {
            lemma_fitting_rows(tables(rows@, last_row_id, checkpoints@, preferences@));
        }
        if last_row_id < 0 || !do_rows_fit(&rows, last_row_id) || !do_checkpoints_fit(&checkpoints) {
            return None;
        }
        Some(
            MemoryStore {
                rows,
                last_row_id,
                checkpoints,
                preferences,
                faults: StoreFaults {
                    table_dropped: false,
                    insert_aborts: false,
                    archive_aborts: false,
                },
            },
        )
    }
}

} // verus!
