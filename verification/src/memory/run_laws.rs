//! What a run over all targets does: which targets it takes, what it leaves of the records, and
//! what it reports.
use vstd::prelude::*;

use crate::memory::consolidation;
use crate::memory::consolidation::{ConsolidationLimits, ConsolidationRunStats};
use crate::memory::consolidation_laws;
use crate::memory::store;
use crate::memory::store::{MemoryRow, StoreView};
use crate::memory::types::{MemoryError, MemoryKind, MemoryStatus, MemoryTarget};
use crate::text;

verus! {

/// A run takes at most ten targets.
pub proof fn runs_are_bounded(s: StoreView, limits: ConsolidationLimits, now_epoch: i64, n: int)
    ensures
        consolidation::due_targets(s, limits, now_epoch, n).len() <= 10,
    decreases n,
{
    if n > 0 {
        runs_are_bounded(s, limits, now_epoch, n - 1);
    }
}

/// Whether row `i` is the last active one of the target it belongs to.
pub open spec fn is_last_of_target(rows: Seq<MemoryRow>, i: int) -> bool {
    let target = consolidation::target_of(rows[i].record);
    &&& rows[i].record.status == MemoryStatus::Active
    &&& rows[i].record.memory_kind != MemoryKind::LegacyUnassigned
    &&& forall|j: int| i < j < rows.len() ==> !store::row_in(#[trigger] rows[j], target)
}

/// Every target that is ready is taken, as long as there is room in the run.
pub proof fn ready_targets_are_taken(s: StoreView, limits: ConsolidationLimits, now_epoch: i64, n: int, i: int)
    requires
        0 <= i < n <= s.rows.len(),
        is_last_of_target(s.rows, i),
        consolidation::is_offered(s, consolidation::target_of(s.rows[i].record), limits, now_epoch),
        consolidation::due_targets(s, limits, now_epoch, n).len() < 10,
    ensures
        consolidation::due_targets(s, limits, now_epoch, n).contains(
            consolidation::target_of(s.rows[i].record),
        ),
    decreases n,
{
    let target = consolidation::target_of(s.rows[i].record);
    let before = consolidation::due_targets(s, limits, now_epoch, n - 1);
    let all = consolidation::due_targets(s, limits, now_epoch, n);
    if i == n - 1 {
        assert(consolidation::closes_target(s.rows, n - 1));
        assert(all[before.len() as int] == target);
    } else {
        ready_targets_are_taken(s, limits, now_epoch, n - 1, i);
        let k = choose|k: int| 0 <= k < before.len() && before[k] == target;
        assert(all[k] == target);
    }
}

/// A target that is taken is ready.
pub proof fn taken_targets_are_ready(s: StoreView, limits: ConsolidationLimits, now_epoch: i64, n: int, k: int)
    requires
        0 <= n <= s.rows.len(),
        0 <= k < consolidation::due_targets(s, limits, now_epoch, n).len(),
    ensures
        ({
            let target = consolidation::due_targets(s, limits, now_epoch, n)[k];
            &&& consolidation::is_offered(s, target, limits, now_epoch)
            &&& target.memory_kind != MemoryKind::LegacyUnassigned
            &&& exists|i: int|
                0 <= i < n && is_last_of_target(s.rows, i) && target == #[trigger] consolidation::target_of(
                    s.rows[i].record,
                )
        }),
    decreases n,
{
    if n > 0 {
        let before = consolidation::due_targets(s, limits, now_epoch, n - 1);
        let all = consolidation::due_targets(s, limits, now_epoch, n);
        if k < before.len() {
            taken_targets_are_ready(s, limits, now_epoch, n - 1, k);
            assert(all[k] == before[k]);
        } else {
            assert(all[k] == consolidation::target_of(s.rows[n - 1].record));
            assert(is_last_of_target(s.rows, n - 1));
        }
    }
}

/// A target is ready only with something new behind its mark, and not before its interval is
/// over.
pub proof fn ready_targets_have_news(s: StoreView, target: MemoryTarget, limits: ConsolidationLimits, now_epoch: i64, k: int)
    requires
        s.wf(),
        consolidation::is_offered(s, target, limits, now_epoch),
        limits.min_interval_seconds <= i64::MAX,
    ensures
        exists|i: int|
            0 <= i < s.rows.len() && store::row_in(#[trigger] s.rows[i], target) && s.rows[i].row_id
                > consolidation::progress(s.checkpoints, target).row_id,
        consolidation_laws::is_mark_of(s, target, k) && s.checkpoints[k].last_run_at_epoch > i64::MIN
            ==> now_epoch - s.checkpoints[k].last_run_at_epoch >= limits.min_interval_seconds,
{
    let after = consolidation::progress(s.checkpoints, target).row_id;
    let new = consolidation::fresh(s.rows, target, after);
    let pred = |r: MemoryRow| store::row_in(r, target) && r.row_id > after;
    s.rows.lemma_filter_contains_rev(pred, new[0]);
    s.rows.lemma_filter_pred(pred, 0);
    let i = choose|i: int| 0 <= i < s.rows.len() && s.rows[i] == new[0];
    assert(store::row_in(s.rows[i], target));
    if consolidation_laws::is_mark_of(s, target, k) {
        consolidation_laws::progress_is_what_was_marked(s, target, k);
        assert(consolidation::is_checkpoint(s.checkpoints, target, k));
    }
}

/// A run deletes nothing and changes no text: it only archives.
pub proof fn runs_only_archive(
    s: StoreView,
    targets: Seq<MemoryTarget>,
    limits: ConsolidationLimits,
    now_epoch: i64,
    now: String,
    n: int,
    k: int,
)
    requires
        0 <= k < s.rows.len(),
    ensures
        ({
            let t = consolidation::run_through(s, targets, limits, now_epoch, now, n).0;
            &&& t.rows.len() == s.rows.len()
            &&& t.rows[k].row_id == s.rows[k].row_id
            &&& t.rows[k].record.id == s.rows[k].record.id
            &&& t.rows[k].record.content == s.rows[k].record.content
            &&& t.rows[k].record.scope_id == s.rows[k].record.scope_id
            &&& t.rows[k].record.visibility == s.rows[k].record.visibility
            &&& t.rows[k].record.status == s.rows[k].record.status || t.rows[k].record.status
                == MemoryStatus::Archived
        }),
    decreases n,
{
    if n > 0 {
        runs_only_archive(s, targets, limits, now_epoch, now, n - 1, k);
        let before = consolidation::run_through(s, targets, limits, now_epoch, now, n - 1).0;
        consolidation_laws::history_is_preserved(before, targets[n - 1], limits, now_epoch, now);
        let t = consolidation::run_through(s, targets, limits, now_epoch, now, n).0;
        assert(t.rows[k] == before.rows[k] || t.rows[k] == store::archived(before.rows[k], now));
    }
}

/// A run reports the sums of what its passes did.
pub proof fn reports_add_up(a: ConsolidationRunStats, b: ConsolidationRunStats)
    requires
        a.processed_target_count + b.processed_target_count <= usize::MAX,
        a.input_record_count + b.input_record_count <= usize::MAX,
        a.output_record_count + b.output_record_count <= usize::MAX,
        a.archived_duplicate_count + b.archived_duplicate_count <= usize::MAX,
        a.conflict_count + b.conflict_count <= usize::MAX,
        a.truncated_target_count + b.truncated_target_count <= usize::MAX,
    ensures
        ({
            let sum = consolidation::add_stats(a, b);
            &&& sum.candidate_target_count == a.candidate_target_count
            &&& sum.processed_target_count == a.processed_target_count + b.processed_target_count
            &&& sum.input_record_count == a.input_record_count + b.input_record_count
            &&& sum.output_record_count == a.output_record_count + b.output_record_count
            &&& sum.archived_duplicate_count == a.archived_duplicate_count + b.archived_duplicate_count
            &&& sum.conflict_count == a.conflict_count + b.conflict_count
            &&& sum.truncated_target_count == a.truncated_target_count + b.truncated_target_count
        }),
{
}

/// A pass reports what it read, what it archived, and that the rest stays.
pub proof fn passes_report_what_they_did(
    s: StoreView,
    target: MemoryTarget,
    limits: ConsolidationLimits,
    now_epoch: i64,
    now: String,
)
    requires
        consolidation::is_due(s, target, limits, now_epoch),
        s.rows.len() <= usize::MAX,
    ensures
        ({
            let stats = consolidation::consolidated(s, target, limits, now_epoch, now).1;
            let b = consolidation::batch(
                s.rows,
                target,
                consolidation::progress(s.checkpoints, target).row_id,
                limits,
            );
            &&& stats.processed_target_count == 1
            &&& stats.input_record_count == b.len()
            &&& stats.archived_duplicate_count + stats.output_record_count == stats.input_record_count
            &&& stats.archived_duplicate_count == consolidation::duplicate_count(b, b.len() as int)
        }),
{
    let p = consolidation::progress(s.checkpoints, target);
    let b = consolidation::batch(s.rows, target, p.row_id, limits);
    consolidation::lemma_batch_in_rows(s.rows, target, p.row_id, limits);
    let pred = |r: MemoryRow| store::row_in(r, target) && r.row_id > p.row_id;
    s.rows.lemma_filter_len(pred);
    lemma_count(b, b.len() as int);
}

proof fn lemma_count(b: Seq<MemoryRow>, n: int)
    requires
        0 <= n <= b.len(),
    ensures
        0 <= consolidation::duplicate_count(b, n) <= n,
    decreases n,
{
    if n > 0 {
        lemma_count(b, n - 1);
    }
}

/// A run that works passes over every target once, in their order, and reports how many there
/// were.
pub proof fn runs_report_their_targets(
    s: StoreView,
    t: StoreView,
    stats: ConsolidationRunStats,
    targets: Seq<MemoryTarget>,
    limits: ConsolidationLimits,
    now_epoch: i64,
    now: String,
)
    requires
        consolidation::is_run_over(s, t, Ok::<ConsolidationRunStats, MemoryError>(stats), targets, limits, now_epoch, now),
        targets.len() <= usize::MAX,
    ensures
        stats.candidate_target_count == targets.len(),
        stats.processed_target_count <= targets.len(),
        targets.len() == 0 ==> t == s,
{
    lemma_targets(s, targets, limits, now_epoch, now, targets.len() as int);
}

proof fn lemma_targets(
    s: StoreView,
    targets: Seq<MemoryTarget>,
    limits: ConsolidationLimits,
    now_epoch: i64,
    now: String,
    n: int,
)
    requires
        0 <= n <= targets.len() <= usize::MAX,
    ensures
        ({
            let stats = consolidation::run_through(s, targets, limits, now_epoch, now, n).1;
            &&& stats.candidate_target_count == targets.len()
            &&& stats.processed_target_count <= n
        }),
    decreases n,
{
    if n > 0 {
        lemma_targets(s, targets, limits, now_epoch, now, n - 1);
    }
}

/// A pass over a target without a scope is refused, and changes nothing.
pub proof fn passes_need_a_scope(
    s: StoreView,
    t: StoreView,
    r: Result<ConsolidationRunStats, MemoryError>,
    target: MemoryTarget,
    limits: ConsolidationLimits,
    now_epoch: i64,
    now: String,
)
    requires
        consolidation::is_pass(s, t, r, target, limits, now_epoch, now),
    ensures
        text::trimmed(target.scope_id@).len() == 0 ==> r is Err,
        r is Err ==> t == s,
{
}

} // verus!
