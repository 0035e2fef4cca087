//! What holds of the background pass as a whole.
use vstd::prelude::*;

use crate::memory::consolidation;
use crate::memory::consolidation::ConsolidationLimits;
use crate::memory::store;
use crate::memory::store::{MemoryRow, StoreView};
use crate::memory::types::{MemoryStatus, MemoryTarget};
use crate::text;

verus! {

/// A pass touches only active records of its target: every other row, whatever it
/// says, stays as it is.
pub proof fn other_targets_are_never_merged(
    s: StoreView,
    target: MemoryTarget,
    limits: ConsolidationLimits,
    now_epoch: i64,
    now: String,
    k: int,
)
    requires
        s.wf(),
        0 <= k < s.rows.len(),
        !store::row_in(s.rows[k], target),
    ensures
        consolidation::consolidated(s, target, limits, now_epoch, now).0.rows[k] == s.rows[k],
{
    if consolidation::is_due(s, target, limits, now_epoch) {
        let p = consolidation::progress(s.checkpoints, target);
        let b = consolidation::batch(s.rows, target, p.row_id, limits);
        if consolidation::dropped_by(b, s.rows[k]) {
            let i = choose|i: int| consolidation::is_duplicate(b, i) && #[trigger] b[i].row_id == s.rows[k].row_id;
            let q = lemma_batch_row(s, target, p.row_id, limits, i);
            lemma_row_ids_differ(s, q, k);
        }
    }
}

pub proof fn lemma_row_ids_differ(s: StoreView, a: int, b: int)
    requires
        s.rows_sorted(),
        0 <= a < s.rows.len(),
        0 <= b < s.rows.len(),
        s.rows[a].row_id == s.rows[b].row_id,
    ensures
        a == b,
{
    if a < b {
        assert(s.rows[a].row_id < s.rows[b].row_id);
    } else if b < a {
        assert(s.rows[b].row_id < s.rows[a].row_id);
    }
}

/// The position in the table of record `i` of a batch.
pub proof fn lemma_batch_row(s: StoreView, target: MemoryTarget, after: int, limits: ConsolidationLimits, i: int) -> (q: int)
    requires
        0 <= i < consolidation::batch(s.rows, target, after, limits).len(),
    ensures
        0 <= q < s.rows.len(),
        s.rows[q] == consolidation::batch(s.rows, target, after, limits)[i],
        store::row_in(s.rows[q], target),
        s.rows[q].row_id > after,
{
    consolidation::lemma_batch_in_rows(s.rows, target, after, limits);
    let pred = |r: MemoryRow| store::row_in(r, target) && r.row_id > after;
    let new = consolidation::fresh(s.rows, target, after);
    let row = consolidation::batch(s.rows, target, after, limits)[i];
    assert(row == new[i]);
    assert(new.contains(row));
    s.rows.lemma_filter_contains_rev(pred, row);
    assert(pred(row)) by {
        broadcast use vstd::seq_lib::group_filter_ensures;
        assert(new[i] == row);
    }
    let q = choose|q: int| 0 <= q < s.rows.len() && s.rows[q] == row;
    q
}

/// A pass keeps history: no row comes or goes, and of a row it changes at most the
/// status and the time of change, from active to archived.
pub proof fn history_is_preserved(
    s: StoreView,
    target: MemoryTarget,
    limits: ConsolidationLimits,
    now_epoch: i64,
    now: String,
)
    ensures
        ({
            let t = consolidation::consolidated(s, target, limits, now_epoch, now).0;
            &&& t.rows.len() == s.rows.len()
            &&& forall|k: int|
                0 <= k < s.rows.len() ==> (#[trigger] t.rows[k] == s.rows[k] || t.rows[k] == store::archived(
                    s.rows[k],
                    now,
                ))
        }),
{
}

/// Of two records of a batch that say the same, the pass archives at least one.
pub proof fn duplicates_do_not_both_stay(
    s: StoreView,
    target: MemoryTarget,
    limits: ConsolidationLimits,
    now_epoch: i64,
    i: int,
    j: int,
)
    requires
        s.wf(),
        consolidation::is_due(s, target, limits, now_epoch),
        ({
            let b = consolidation::batch(s.rows, target, consolidation::progress(s.checkpoints, target).row_id, limits);
            &&& 0 <= i < b.len()
            &&& 0 <= j < b.len()
            &&& b[i].row_id != b[j].row_id
            &&& consolidation::duplicate_key(b[i].record) == consolidation::duplicate_key(b[j].record)
        }),
    ensures
        ({
            let b = consolidation::batch(s.rows, target, consolidation::progress(s.checkpoints, target).row_id, limits);
            consolidation::dropped_by(b, b[i]) || consolidation::dropped_by(b, b[j])
        }),
{
    let b = consolidation::batch(s.rows, target, consolidation::progress(s.checkpoints, target).row_id, limits);
    if consolidation::outranks(b[j], b[i]) {
        assert(consolidation::supersedes(b, i, j));
        assert(consolidation::is_duplicate(b, i));
    } else {
        assert(consolidation::supersedes(b, j, i));
        assert(consolidation::is_duplicate(b, j));
    }
}

/// Whether record `m` of the batch says what record `i` says.
pub open spec fn says_the_same(b: Seq<MemoryRow>, i: int, m: int) -> bool {
    consolidation::duplicate_key(b[m].record) == consolidation::duplicate_key(b[i].record)
}

/// Every record of a batch is kept or repeated by a record of the batch that is kept.
pub proof fn every_statement_survives(b: Seq<MemoryRow>, i: int)
    requires
        0 <= i < b.len(),
    ensures
        exists|j: int|
            0 <= j < b.len() && !consolidation::is_duplicate(b, j) && #[trigger] says_the_same(b, i, j),
{
    let j = lemma_best_of_group(b, i, b.len() as int);
    if consolidation::is_duplicate(b, j) {
        let m = choose|m: int| consolidation::supersedes(b, j, m);
        assert(says_the_same(b, i, m));
    }
    assert(says_the_same(b, i, j));
}

/// Among the first `n` records that say what record `i` says, and record `i` itself, one
/// is outranked by none.
pub proof fn lemma_best_of_group(b: Seq<MemoryRow>, i: int, n: int) -> (j: int)
    requires
        0 <= i < b.len(),
        0 <= n <= b.len(),
    ensures
        0 <= j < b.len(),
        says_the_same(b, i, j),
        forall|m: int|
            (0 <= m < n || m == i) && #[trigger] says_the_same(b, i, m) ==> !consolidation::outranks(
                b[m],
                b[j],
            ),
    decreases n,
{
    if n == 0 {
        i
    } else {
        let j = lemma_best_of_group(b, i, n - 1);
        let l = n - 1;
        if says_the_same(b, i, l) && consolidation::outranks(b[l], b[j]) {
            assert forall|m: int|
                (0 <= m < n || m == i) && #[trigger] says_the_same(
                    b,
                    i,
                    m,
                ) implies !consolidation::outranks(b[m], b[l]) by {
                if m != l {
                    assert(!consolidation::outranks(b[m], b[j]));
                }
            }
            l
        } else {
            j
        }
    }
}

/// The checkpoint moves on, and only over what the pass has scanned: it ends on the last
/// record of the batch, and every new record up to there is in the batch.
pub proof fn checkpoint_covers_only_scanned_records(
    s: StoreView,
    target: MemoryTarget,
    limits: ConsolidationLimits,
    now_epoch: i64,
    k: int,
)
    requires
        s.wf(),
        consolidation::is_due(s, target, limits, now_epoch),
        0 <= k < s.rows.len(),
    ensures
        ({
            let before = consolidation::progress(s.checkpoints, target).row_id;
            let after = consolidation::next_checkpoint(s, target, limits, now_epoch).last_processed_row_id;
            let b = consolidation::batch(s.rows, target, before, limits);
            &&& before < after
            &&& store::row_in(s.rows[k], target) && before < s.rows[k].row_id <= after ==> b.contains(
                s.rows[k],
            )
        }),
{
    let before = consolidation::progress(s.checkpoints, target).row_id;
    let b = consolidation::batch(s.rows, target, before, limits);
    let new = consolidation::fresh(s.rows, target, before);
    consolidation::lemma_batch_in_rows(s.rows, target, before, limits);
    let q = lemma_batch_row(s, target, before, limits, b.len() - 1);
    if store::row_in(s.rows[k], target) && before < s.rows[k].row_id <= s.rows[q].row_id {
        lemma_fresh_sorted(s, target, before, s.rows.len() as int);
        assert(s.rows.take(s.rows.len() as int) =~= s.rows);
        let pred = |r: MemoryRow| store::row_in(r, target) && r.row_id > before;
        assert(pred(s.rows[k]));
        s.rows.lemma_filter_contains(pred, k);
        let m = choose|m: int| 0 <= m < new.len() && new[m] == s.rows[k];
        if m >= b.len() {
            assert(new[b.len() - 1].row_id < new[m].row_id);
        }
        assert(b[m] == s.rows[k]);
    }
}

/// Whether the row is one of the first `n`.
pub open spec fn stands_before(rows: Seq<MemoryRow>, n: int, row: MemoryRow) -> bool {
    exists|q: int| 0 <= q < n && #[trigger] rows[q] == row
}

pub proof fn lemma_fresh_sorted(s: StoreView, target: MemoryTarget, after: int, n: int)
    requires
        s.rows_sorted(),
        0 <= n <= s.rows.len(),
    ensures
        ({
            let new = consolidation::fresh(s.rows.take(n), target, after);
            &&& forall|i: int, j: int|
                0 <= i < j < new.len() ==> (#[trigger] new[i]).row_id < (#[trigger] new[j]).row_id
            &&& forall|i: int| 0 <= i < new.len() ==> stands_before(s.rows, n, #[trigger] new[i])
        }),
    decreases n,
{
    if n == 0 {
        assert(s.rows.take(0) =~= Seq::empty());
        reveal(Seq::filter);
    } else {
        lemma_fresh_sorted(s, target, after, n - 1);
        consolidation::lemma_fresh_step(s.rows, target, after, n - 1);
        let old_new = consolidation::fresh(s.rows.take(n - 1), target, after);
        let new = consolidation::fresh(s.rows.take(n), target, after);
        assert forall|i: int, j: int| 0 <= i < j < new.len() implies (#[trigger] new[i]).row_id < (
        #[trigger] new[j]).row_id by {
            if j < old_new.len() {
                assert(old_new[i].row_id < old_new[j].row_id);
            } else {
                assert(stands_before(s.rows, n - 1, old_new[i]));
                let q = choose|q: int| 0 <= q < n - 1 && #[trigger] s.rows[q] == old_new[i];
                assert(s.rows[q].row_id < s.rows[n - 1].row_id);
            }
        }
        assert forall|i: int| 0 <= i < new.len() implies stands_before(s.rows, n, #[trigger] new[i]) by {
            if i < old_new.len() {
                assert(stands_before(s.rows, n - 1, old_new[i]));
                let q = choose|q: int| 0 <= q < n - 1 && #[trigger] s.rows[q] == old_new[i];
                assert(s.rows[q] == new[i]);
            } else {
                assert(s.rows[n - 1] == new[i]);
            }
        }
    }
}

/// What is remembered of the target after a pass is what the pass has done.
proof fn lemma_progress_after(
    s: StoreView,
    target: MemoryTarget,
    limits: ConsolidationLimits,
    now_epoch: i64,
    now: String,
)
    requires
        s.wf(),
        consolidation::is_due(s, target, limits, now_epoch),
    ensures
        ({
            let t = consolidation::consolidated(s, target, limits, now_epoch, now).0;
            let entry = consolidation::next_checkpoint(s, target, limits, now_epoch);
            let p = consolidation::progress(t.checkpoints, target);
            &&& consolidation::visited(t.checkpoints, target)
            &&& p.row_id == entry.last_processed_row_id
            &&& p.run_at == entry.last_run_at_epoch
            &&& p.truncated == entry.truncated
        }),
{
    let t = consolidation::consolidated(s, target, limits, now_epoch, now).0;
    let entry = consolidation::next_checkpoint(s, target, limits, now_epoch);
    consolidation::pass_keeps_tables_well_formed(s, target, limits, now_epoch, now);
    let k = if consolidation::visited(s.checkpoints, target) {
        choose|k: int| consolidation::is_checkpoint(s.checkpoints, target, k)
    } else {
        s.checkpoints.len() as int
    };
    assert(t.checkpoints[k] == entry);
    assert(consolidation::is_checkpoint(t.checkpoints, target, k));
    let c = choose|c: int| consolidation::is_checkpoint(t.checkpoints, target, c);
    consolidation::lemma_checkpoint_unique(t, target, k, c);
}

/// A second pass at the same time finds nothing to do, so no duplicate is archived
/// twice. The interval between passes must not be zero.
pub proof fn second_pass_archives_nothing(
    s: StoreView,
    target: MemoryTarget,
    limits: ConsolidationLimits,
    now_epoch: i64,
    now: String,
    later: String,
)
    requires
        s.wf(),
        consolidation::is_due(s, target, limits, now_epoch),
        0 < limits.min_interval_seconds <= i64::MAX,
        now_epoch > i64::MIN,
    ensures
        ({
            let t = consolidation::consolidated(s, target, limits, now_epoch, now).0;
            consolidation::consolidated(t, target, limits, now_epoch, later) == (t, consolidation::no_stats())
        }),
{
    lemma_progress_after(s, target, limits, now_epoch, now);
}

/// Records that a pass had to leave out are not forgotten: once the interval is over, the
/// target is due again, however few they are.
#[verifier::spinoff_prover]
pub proof fn a_cut_off_batch_is_continued(
    s: StoreView,
    target: MemoryTarget,
    limits: ConsolidationLimits,
    now_epoch: i64,
    now: String,
    later: i64,
)
    requires
        s.wf(),
        consolidation::is_due(s, target, limits, now_epoch),
        consolidation::next_checkpoint(s, target, limits, now_epoch).truncated,
        now_epoch <= consolidation::cutoff(limits, later),
    ensures
        consolidation::is_due(
            consolidation::consolidated(s, target, limits, now_epoch, now).0,
            target,
            limits,
            later,
        ),
{
    let t = consolidation::consolidated(s, target, limits, now_epoch, now).0;
    let entry = consolidation::next_checkpoint(s, target, limits, now_epoch);
    lemma_progress_after(s, target, limits, now_epoch, now);
    let before = consolidation::progress(s.checkpoints, target).row_id;
    let b = consolidation::batch(s.rows, target, before, limits);
    let new = consolidation::fresh(s.rows, target, before);
    consolidation::lemma_batch_in_rows(s.rows, target, before, limits);
    lemma_fresh_sorted(s, target, before, s.rows.len() as int);
    assert(s.rows.take(s.rows.len() as int) =~= s.rows);
    let m = b.len() as int;
    assert(stands_before(s.rows, s.rows.len() as int, new[m]));
    let q = choose|q: int| 0 <= q < s.rows.len() && #[trigger] s.rows[q] == new[m];
    s.rows.lemma_filter_pred(|r: MemoryRow| store::row_in(r, target) && r.row_id > before, m);
    assert(!consolidation::dropped_by(b, s.rows[q])) by {
        if consolidation::dropped_by(b, s.rows[q]) {
            let i = choose|i: int|
                consolidation::is_duplicate(b, i) && #[trigger] b[i].row_id == s.rows[q].row_id;
            assert(b[i] == new[i]);
            assert(new[i].row_id < new[m].row_id);
        }
    }
    assert(t.rows[q] == s.rows[q]);
    assert(b[m - 1] == new[m - 1]);
    assert(new[m - 1].row_id < new[m].row_id);
    let left = |r: MemoryRow| store::row_in(r, target) && r.row_id > entry.last_processed_row_id;
    assert(left(t.rows[q]));
    t.rows.lemma_filter_contains(left, q);
    assert(consolidation::fresh(t.rows, target, entry.last_processed_row_id as int) =~= t.rows.filter(
        left,
    ));
}

// When a target is due.

/// Whether the row is an active record of the target behind the given row.
pub open spec fn is_new_record(row: MemoryRow, target: MemoryTarget, after: int) -> bool {
    &&& row.record.status == MemoryStatus::Active
    &&& row.record.scope_type == target.scope_type
    &&& row.record.memory_kind == target.memory_kind
    &&& text::opt_view(row.record.scope_id) == Some(target.scope_id@)
    &&& text::opt_view(row.record.subject_id) == text::opt_view(target.subject_id)
    &&& row.row_id > after
}

/// Whether checkpoint `k` is that of the target.
pub open spec fn is_mark_of(s: StoreView, target: MemoryTarget, k: int) -> bool {
    &&& 0 <= k < s.checkpoints.len()
    &&& s.checkpoints[k].target.scope_type == target.scope_type
    &&& s.checkpoints[k].target.memory_kind == target.memory_kind
    &&& s.checkpoints[k].target.scope_id@ == target.scope_id@
    &&& text::opt_view(s.checkpoints[k].target.subject_id) == text::opt_view(target.subject_id)
}

/// A target that was visited waits for its interval, whatever is new.
pub proof fn targets_wait_for_their_interval(
    s: StoreView,
    target: MemoryTarget,
    limits: ConsolidationLimits,
    now_epoch: i64,
    k: int,
)
    requires
        s.wf(),
        is_mark_of(s, target, k),
        limits.min_interval_seconds <= i64::MAX,
        s.checkpoints[k].last_run_at_epoch > i64::MIN,
        now_epoch - s.checkpoints[k].last_run_at_epoch < limits.min_interval_seconds,
    ensures
        !consolidation::is_due(s, target, limits, now_epoch),
{
    assert(consolidation::is_checkpoint(s.checkpoints, target, k));
    let c = choose|c: int| consolidation::is_checkpoint(s.checkpoints, target, c);
    consolidation::lemma_checkpoint_unique(s, target, k, c);
}

/// A target that has nothing new is not due.
pub proof fn nothing_new_is_not_due(
    s: StoreView,
    target: MemoryTarget,
    limits: ConsolidationLimits,
    now_epoch: i64,
)
    requires
        s.wf(),
        forall|i: int|
            0 <= i < s.rows.len() ==> !is_new_record(
                #[trigger] s.rows[i],
                target,
                consolidation::progress(s.checkpoints, target).row_id,
            ),
    ensures
        !consolidation::is_due(s, target, limits, now_epoch),
{
    let after = consolidation::progress(s.checkpoints, target).row_id;
    let new = consolidation::fresh(s.rows, target, after);
    if new.len() > 0 {
        let pred = |r: MemoryRow| store::row_in(r, target) && r.row_id > after;
        s.rows.lemma_filter_contains_rev(pred, new[0]);
        s.rows.lemma_filter_pred(pred, 0);
        let q = choose|q: int| 0 <= q < s.rows.len() && s.rows[q] == new[0];
        assert(is_new_record(s.rows[q], target, after));
    }
}

/// What a target was last visited at and up to; one that was never visited starts at the
/// beginning.
pub proof fn progress_is_what_was_marked(s: StoreView, target: MemoryTarget, k: int)
    requires
        s.wf(),
    ensures
        is_mark_of(s, target, k) ==> {
            let p = consolidation::progress(s.checkpoints, target);
            &&& p.row_id == s.checkpoints[k].last_processed_row_id
            &&& p.run_at == s.checkpoints[k].last_run_at_epoch
            &&& p.truncated == s.checkpoints[k].truncated
        },
        (forall|c: int| !#[trigger] is_mark_of(s, target, c)) ==> {
            let p = consolidation::progress(s.checkpoints, target);
            p.row_id == 0 && p.run_at == 0 && !p.truncated
        },
{
    if is_mark_of(s, target, k) {
        assert(consolidation::is_checkpoint(s.checkpoints, target, k));
        let c = choose|c: int| consolidation::is_checkpoint(s.checkpoints, target, c);
        consolidation::lemma_checkpoint_unique(s, target, k, c);
    } else if consolidation::visited(s.checkpoints, target) {
        let c = choose|c: int| consolidation::is_checkpoint(s.checkpoints, target, c);
        assert(is_mark_of(s, target, c));
    }
}

/// Once its interval is over, a target with as many new records as asked for, from as many
/// sources, is due; and so is one of which something new was left out before.
pub proof fn enough_new_records_are_due(
    s: StoreView,
    target: MemoryTarget,
    limits: ConsolidationLimits,
    now_epoch: i64,
)
    requires
        s.wf(),
        limits.min_interval_seconds <= i64::MAX,
        now_epoch - limits.min_interval_seconds >= i64::MIN,
        now_epoch - limits.min_interval_seconds >= consolidation::progress(s.checkpoints, target).run_at,
        ({
            let p = consolidation::progress(s.checkpoints, target);
            let new = s.rows.filter(|row: MemoryRow| is_new_record(row, target, p.row_id));
            &&& new.len() > 0
            &&& p.truncated || (new.len() >= limits.min_new_records && named_sources(new).len()
                >= limits.min_distinct_sources)
        }),
    ensures
        consolidation::is_due(s, target, limits, now_epoch),
{
    let p = consolidation::progress(s.checkpoints, target);
    let new = s.rows.filter(|row: MemoryRow| is_new_record(row, target, p.row_id));
    lemma_fresh_are_new(s.rows, target, p.row_id);
    lemma_sources(new);
}

/// Too few new records, or from too few sources, make no target due from which nothing was
/// left out.
pub proof fn too_few_new_records_are_not_due(
    s: StoreView,
    target: MemoryTarget,
    limits: ConsolidationLimits,
    now_epoch: i64,
)
    requires
        s.wf(),
        ({
            let p = consolidation::progress(s.checkpoints, target);
            let new = s.rows.filter(|row: MemoryRow| is_new_record(row, target, p.row_id));
            !p.truncated && (new.len() < limits.min_new_records || named_sources(new).len()
                < limits.min_distinct_sources)
        }),
    ensures
        !consolidation::is_due(s, target, limits, now_epoch),
{
    let p = consolidation::progress(s.checkpoints, target);
    lemma_fresh_are_new(s.rows, target, p.row_id);
    lemma_sources(consolidation::fresh(s.rows, target, p.row_id));
}

/// The different sources that the records name; one of nothing but spaces is none.
pub open spec fn named_sources(rows: Seq<MemoryRow>) -> Set<Seq<char>> {
    rows.filter(|row: MemoryRow| is_named(row)).map_values(
        |row: MemoryRow| row.record.source_ref->0@,
    ).to_set()
}

pub open spec fn is_named(row: MemoryRow) -> bool {
    row.record.source_ref is Some && exists|i: int|
        0 <= i < row.record.source_ref->0@.len() && #[trigger] row.record.source_ref->0@[i] != ' '
}

proof fn lemma_fresh_are_new(rows: Seq<MemoryRow>, target: MemoryTarget, after: int)
    ensures
        consolidation::fresh(rows, target, after) == rows.filter(
            |row: MemoryRow| is_new_record(row, target, after),
        ),
    decreases rows.len(),
{
    reveal(Seq::filter);
    if rows.len() > 0 {
        lemma_fresh_are_new(rows.drop_last(), target, after);
    }
}

proof fn lemma_sources(rows: Seq<MemoryRow>)
    ensures
        consolidation::sources(rows) == named_sources(rows),
    decreases rows.len(),
{
    reveal(Seq::filter);
    let named = |row: MemoryRow| is_named(row);
    let source = |row: MemoryRow| row.record.source_ref->0@;
    let all = rows.filter(named).map_values(source);
    if rows.len() == 0 {
        assert(all =~= Seq::empty());
        assert(all.to_set() =~= Set::empty());
    } else {
        let last = rows.last();
        let front = rows.drop_last().filter(named).map_values(source);
        lemma_sources(rows.drop_last());
        if is_named(last) {
            assert(consolidation::source_of(last) == Some(source(last)));
            assert(all =~= front.push(source(last)));
            assert(all.to_set() =~= front.to_set().insert(source(last))) by {
                assert forall|x: Seq<char>| #[trigger] all.contains(x) implies front.contains(x) || x
                    == source(last) by {
                    let k = choose|k: int| 0 <= k < all.len() && all[k] == x;
                    if k < front.len() {
                        assert(front[k] == x);
                    }
                }
                assert forall|x: Seq<char>| front.contains(x) || x == source(last) implies #[trigger] all.contains(x) by {
                    if front.contains(x) {
                        let k = choose|k: int| 0 <= k < front.len() && front[k] == x;
                        assert(all[k] == x);
                    } else {
                        assert(all[front.len() as int] == x);
                    }
                }
            }
        } else {
            assert(consolidation::source_of(last) is None) by {
                if last.record.source_ref is Some && consolidation::names_source(
                    last.record.source_ref->0@,
                ) {
                    let i = choose|i: int|
                        0 <= i < last.record.source_ref->0@.len() && last.record.source_ref->0@[i] != ' ';
                    assert(last.record.source_ref->0@[i] != ' ');
                }
            }
        }
    }
}

// What a pass looks at.

/// The characters of the first `n` records.
pub open spec fn content_chars(rows: Seq<MemoryRow>, n: int) -> int
    decreases n,
{
    if n <= 0 {
        0
    } else {
        content_chars(rows, n - 1) + rows[n - 1].record.content@.len()
    }
}

/// A pass looks at the first of the new records: never more than allowed, and, behind the
/// first, never more characters than allowed; and it looks at all that it may.
pub proof fn a_pass_looks_at_what_it_may(
    rows: Seq<MemoryRow>,
    target: MemoryTarget,
    after: int,
    limits: ConsolidationLimits,
)
    requires
        limits.max_input_chars < usize::MAX,
    ensures
        ({
            let new = rows.filter(|row: MemoryRow| is_new_record(row, target, after));
            let b = consolidation::batch(rows, target, after, limits);
            &&& b.len() <= new.len()
            &&& b == new.take(b.len() as int)
            &&& b.len() <= limits.max_records || b.len() <= 1
            &&& b.len() > 1 ==> content_chars(new, b.len() as int) <= limits.max_input_chars
            &&& b.len() < new.len() && b.len() < limits.max_records ==> content_chars(
                new,
                b.len() + 1int,
            ) > limits.max_input_chars
            &&& new.len() > 0 ==> b.len() > 0
        }),
{
    let new = consolidation::fresh(rows, target, after);
    let cap = consolidation::record_cap(limits);
    lemma_fresh_are_new(rows, target, after);
    consolidation::lemma_batch_in_rows(rows, target, after, limits);
    let capped = if new.len() > cap {
        new.take(cap)
    } else {
        new
    };
    let b = consolidation::batch(rows, target, after, limits);
    lemma_fitting(capped, limits.max_input_chars, 0, 0);
    lemma_same_chars(capped, new, b.len() as int);
    if b.len() < capped.len() {
        lemma_same_chars(capped, new, b.len() + 1int);
    }
}

proof fn lemma_same_chars(a: Seq<MemoryRow>, b: Seq<MemoryRow>, n: int)
    requires
        0 <= n <= a.len() <= b.len(),
        forall|i: int| 0 <= i < a.len() ==> #[trigger] a[i] == b[i],
    ensures
        content_chars(a, n) == content_chars(b, n),
    decreases n,
{
    if n > 0 {
        lemma_same_chars(a, b, n - 1);
        assert(a[n - 1] == b[n - 1]);
    }
}

proof fn lemma_fitting(rows: Seq<MemoryRow>, max_chars: usize, k: int, used: int)
    requires
        0 <= k <= rows.len(),
        max_chars < usize::MAX,
        used == consolidation::clamp_size(content_chars(rows, k)),
        k > 1 ==> content_chars(rows, k) <= max_chars,
    ensures
        ({
            let n = consolidation::fitting(rows, max_chars, k, used);
            &&& k <= n <= rows.len()
            &&& n > 1 ==> content_chars(rows, n) <= max_chars
            &&& n < rows.len() ==> content_chars(rows, n + 1) > max_chars
        }),
    decreases rows.len() - k,
{
    if k < rows.len() {
        let total = consolidation::clamp_size(used + rows[k].record.content@.len());
        assert(content_chars(rows, k + 1) == content_chars(rows, k) + rows[k].record.content@.len());
        if !(k > 0 && total > max_chars) {
            lemma_fitting(rows, max_chars, k + 1, total);
        }
    }
}

} // verus!
