//! The background pass over stored memories: it archives exact duplicates within a
//! bounded batch of one target and remembers how far it has come.
//!
//! Only records whose content and meaning keys agree exactly count as duplicates;
//! similar or contradicting facts stay as they are.
use vstd::prelude::*;
use vstd::string::*;

use crate::memory::store;
use crate::memory::store::{ConsolidationCheckpoint, MemoryRow, MemoryStore, StoreView};
use crate::memory::types;
use crate::memory::types::{
    MemoryError, MemoryKind, MemoryRecord, MemorySourceType, MemoryStatus, MemoryTarget,
};
use crate::text;

verus! {

pub const MAX_TARGETS_PER_RUN: usize = 10;

/// When a target is due and how much of it one pass takes.
#[derive(Debug, Clone, Copy)]
pub struct ConsolidationLimits {
    pub min_interval_seconds: u64,
    pub min_new_records: usize,
    pub min_distinct_sources: usize,
    pub max_records: usize,
    pub max_input_chars: usize,
}

/// What a pass has done.
#[derive(Debug, Clone, Copy, PartialEq, Eq, Structural)]
pub struct ConsolidationRunStats {
    pub candidate_target_count: usize,
    pub processed_target_count: usize,
    pub input_record_count: usize,
    pub output_record_count: usize,
    pub archived_duplicate_count: usize,
    pub conflict_count: usize,
    pub truncated_target_count: usize,
}

pub open spec fn no_stats() -> ConsolidationRunStats {
    ConsolidationRunStats {
        candidate_target_count: 0,
        processed_target_count: 0,
        input_record_count: 0,
        output_record_count: 0,
        archived_duplicate_count: 0,
        conflict_count: 0,
        truncated_target_count: 0,
    }
}

impl Default for ConsolidationRunStats {
    fn default() -> (r: Self)
        ensures
            r == no_stats(),
    {
        ConsolidationRunStats {
            candidate_target_count: 0,
            processed_target_count: 0,
            input_record_count: 0,
            output_record_count: 0,
            archived_duplicate_count: 0,
            conflict_count: 0,
            truncated_target_count: 0,
        }
    }
}

// Time gate.

/// The value of an unsigned number read as a signed one of the same width.
pub open spec fn as_signed(n: u64) -> int {
    if n <= i64::MAX {
        n as int
    } else {
        n - 0x1_0000_0000_0000_0000
    }
}

fn signed(n: u64) -> (r: i64)
    ensures
        r == as_signed(n),
{
    if n <= 0x7fff_ffff_ffff_ffff {
        n as i64
    } else {
        let low: i64 = (n - 0x8000_0000_0000_0000) as i64;
        low + i64::MIN
    }
}

/// `now_epoch` less the interval, kept within the range of the type.
pub open spec fn cutoff(limits: ConsolidationLimits, now_epoch: i64) -> int {
    let d = now_epoch - as_signed(limits.min_interval_seconds);
    if d < i64::MIN {
        i64::MIN as int
    } else if d > i64::MAX {
        i64::MAX as int
    } else {
        d
    }
}

fn compute_cutoff(limits: &ConsolidationLimits, now_epoch: i64) -> (r: i64)
    ensures
        r == cutoff(*limits, now_epoch),
{
    let d: i128 = now_epoch as i128 - signed(limits.min_interval_seconds) as i128;
    if d < i64::MIN as i128 {
        i64::MIN
    } else if d > i64::MAX as i128 {
        i64::MAX
    } else {
        d as i64
    }
}

// New records of a target.

/// Active records of the target behind row `after`, in the order of their rows.
pub open spec fn fresh(rows: Seq<MemoryRow>, target: MemoryTarget, after: int) -> Seq<MemoryRow> {
    rows.filter(|r: MemoryRow| store::row_in(r, target) && r.row_id > after)
}

/// Whether the text holds anything but spaces.
pub open spec fn names_source(s: Seq<char>) -> bool {
    exists|i: int| 0 <= i < s.len() && s[i] != ' '
}

/// The source that a record names, if it names one.
pub open spec fn source_of(row: MemoryRow) -> Option<Seq<char>> {
    match text::opt_view(row.record.source_ref) {
        Some(s) => if names_source(s) {
            Some(s)
        } else {
            None
        },
        None => None,
    }
}

/// The sources that the records name.
pub open spec fn sources(rows: Seq<MemoryRow>) -> Set<Seq<char>>
    decreases rows.len(),
{
    if rows.len() == 0 {
        Set::empty()
    } else {
        match source_of(rows.last()) {
            Some(s) => sources(rows.drop_last()).insert(s),
            None => sources(rows.drop_last()),
        }
    }
}

fn has_source_name(s: &str) -> (r: bool)
    ensures
        r == names_source(s@),
{
    let v = text::chars_of(s);
    let mut i: usize = 0;
    while i < v.len()
        invariant
            v@ == s@,
            0 <= i <= v@.len(),
            forall|k: int| 0 <= k < i ==> s@[k] == ' ',
        decreases v@.len() - i,
    {
        if v[i] != ' ' {
            assert(s@[i as int] != ' ');
            return true;
        }
        i += 1;
    }
    false
}

fn is_fresh(row: &MemoryRow, target: &MemoryTarget, after: i64) -> (r: bool)
    ensures
        r == (store::row_in(*row, *target) && row.row_id > after),
{
    row.row_id > after && store::is_row_in(row, target)
}

pub proof fn lemma_fresh_step(rows: Seq<MemoryRow>, target: MemoryTarget, after: int, i: int)
    requires
        0 <= i < rows.len(),
    ensures
        fresh(rows.take(i + 1), target, after) == (if store::row_in(rows[i], target)
            && rows[i].row_id > after {
            fresh(rows.take(i), target, after).push(rows[i])
        } else {
            fresh(rows.take(i), target, after)
        }),
{
    reveal(Seq::filter);
    let t = rows.take(i + 1);
    assert(t.drop_last() =~= rows.take(i));
    assert(t.last() == rows[i]);
}

/// How many new records the target has, and how many sources they name.
fn new_record_stats(rows: &Vec<MemoryRow>, target: &MemoryTarget, after: i64) -> (r: (usize, usize))
    ensures
        r.0 == fresh(rows@, *target, after as int).len(),
        r.1 == sources(fresh(rows@, *target, after as int)).len(),
{
    let mut count: usize = 0;
    let mut seen: Vec<String> = Vec::new();
    let mut i: usize = 0;
    assert(rows@.take(0) =~= Seq::empty());
    assert(fresh(rows@.take(0), *target, after as int) =~= Seq::empty()) by {
        reveal(Seq::filter);
    }
    assert(text::views(seen@).to_set() =~= Set::empty());
    while i < rows.len()
        invariant
            0 <= i <= rows@.len(),
            count <= i,
            count == fresh(rows@.take(i as int), *target, after as int).len(),
            text::views(seen@).no_duplicates(),
            text::views(seen@).to_set() == sources(fresh(rows@.take(i as int), *target, after as int)),
        decreases rows@.len() - i,
    {
        proof {
            lemma_fresh_step(rows@, *target, after as int, i as int);
        }
        let ghost before = fresh(rows@.take(i as int), *target, after as int);
        if is_fresh(&rows[i], target, after) {
            proof {
                assert(before.push(rows@[i as int]).drop_last() =~= before);
                assert(before.push(rows@[i as int]).last() == rows@[i as int]);
            }
            count += 1;
            match &rows[i].record.source_ref {
                Some(s) => {
                    if has_source_name(s.as_str()) {
                        if !is_listed(&seen, s.as_str()) {
                            let ghost old_seen = text::views(seen@);
                            seen.push(s.clone());
                            proof {
                                assert(text::views(seen@) =~= old_seen.push(s@));
                                assert(text::views(seen@).to_set() =~= old_seen.to_set().insert(s@)) by {
                                    assert forall|t: Seq<char>|
                                        old_seen.push(s@).contains(t) == (old_seen.contains(t) || t
                                            == s@) by {
                                        if old_seen.contains(t) {
                                            let k = choose|k: int|
                                                0 <= k < old_seen.len() && old_seen[k] == t;
                                            assert(old_seen.push(s@)[k] == t);
                                        }
                                        if t == s@ {
                                            assert(old_seen.push(s@)[old_seen.len() as int] == t);
                                        }
                                    }
                                }
                            }
                        } else {
                            assert(text::views(seen@).to_set() =~= text::views(seen@).to_set().insert(s@));
                        }
                    }
                },
                None => {},
            }
        }
        i += 1;
    }
    proof {
        assert(rows@.take(i as int) =~= rows@);
        text::views(seen@).unique_seq_to_set();
    }
    (count, seen.len())
}

fn is_listed(list: &Vec<String>, s: &str) -> (r: bool)
    ensures
        r == text::views(list@).contains(s@),
{
    let mut i: usize = 0;
    while i < list.len()
        invariant
            0 <= i <= list@.len(),
            forall|k: int| 0 <= k < i ==> list@[k]@ != s@,
        decreases list@.len() - i,
    {
        if text::same(list[i].as_str(), s) {
            assert(text::views(list@)[i as int] == s@);
            return true;
        }
        i += 1;
    }
    false
}

// Checkpoints.

/// Row, time and truncation mark that a target's checkpoint holds.
#[verifier::ext_equal]
pub struct Progress {
    pub row_id: int,
    pub run_at: int,
    pub truncated: bool,
}

/// Whether entry `k` is the target's checkpoint.
pub open spec fn is_checkpoint(checkpoints: Seq<ConsolidationCheckpoint>, target: MemoryTarget, k: int) -> bool {
    0 <= k < checkpoints.len() && types::same_target(checkpoints[k].target, target)
}

/// Where the target stands; a target without a checkpoint stands at the start.
pub open spec fn progress(checkpoints: Seq<ConsolidationCheckpoint>, target: MemoryTarget) -> Progress {
    if exists|k: int| is_checkpoint(checkpoints, target, k) {
        let k = choose|k: int| is_checkpoint(checkpoints, target, k);
        Progress {
            row_id: checkpoints[k].last_processed_row_id as int,
            run_at: checkpoints[k].last_run_at_epoch as int,
            truncated: checkpoints[k].truncated,
        }
    } else {
        Progress { row_id: 0, run_at: 0, truncated: false }
    }
}

/// Whether the target has a checkpoint.
pub open spec fn visited(checkpoints: Seq<ConsolidationCheckpoint>, target: MemoryTarget) -> bool {
    exists|k: int| is_checkpoint(checkpoints, target, k)
}

fn find_checkpoint(checkpoints: &Vec<ConsolidationCheckpoint>, target: &MemoryTarget) -> (r: Option<usize>)
    ensures
        match r {
            Some(k) => is_checkpoint(checkpoints@, *target, k as int),
            None => !visited(checkpoints@, *target),
        },
{
    let mut i: usize = 0;
    while i < checkpoints.len()
        invariant
            0 <= i <= checkpoints@.len(),
            forall|k: int| 0 <= k < i ==> !is_checkpoint(checkpoints@, *target, k),
        decreases checkpoints@.len() - i,
    {
        if checkpoints[i].target.same_as(target) {
            return Some(i);
        }
        i += 1;
    }
    None
}

pub proof fn lemma_checkpoint_unique(s: StoreView, target: MemoryTarget, a: int, b: int)
    requires
        s.checkpoints_unique(),
        is_checkpoint(s.checkpoints, target, a),
        is_checkpoint(s.checkpoints, target, b),
    ensures
        a == b,
{
    if a < b {
        assert(types::same_target(s.checkpoints[a].target, s.checkpoints[b].target));
    } else if b < a {
        assert(types::same_target(s.checkpoints[b].target, s.checkpoints[a].target));
    }
}

/// The checkpoint list with the target's entry set to `entry`.
pub open spec fn with_checkpoint(
    checkpoints: Seq<ConsolidationCheckpoint>,
    entry: ConsolidationCheckpoint,
) -> Seq<ConsolidationCheckpoint> {
    if visited(checkpoints, entry.target) {
        checkpoints.update(choose|k: int| is_checkpoint(checkpoints, entry.target, k), entry)
    } else {
        checkpoints.push(entry)
    }
}

// The batch of one pass.

pub open spec fn clamp_size(n: int) -> int {
    if n > usize::MAX {
        usize::MAX as int
    } else {
        n
    }
}

/// How many of the records fit, starting at record `k` with `used` characters taken.
/// The first record always fits.
pub open spec fn fitting(rows: Seq<MemoryRow>, max_chars: usize, k: int, used: int) -> int
    decreases rows.len() - k,
{
    if k < 0 || k >= rows.len() {
        k
    } else {
        let total = clamp_size(used + rows[k].record.content@.len());
        if k > 0 && total > max_chars {
            k
        } else {
            fitting(rows, max_chars, k + 1, total)
        }
    }
}

pub open spec fn record_cap(limits: ConsolidationLimits) -> int {
    if limits.max_records == 0 {
        1
    } else {
        limits.max_records as int
    }
}

/// The records that one pass looks at: new ones in the order of their rows, at most
/// `max_records` of them and, behind the first, at most `max_input_chars` characters.
pub open spec fn batch(rows: Seq<MemoryRow>, target: MemoryTarget, after: int, limits: ConsolidationLimits) -> Seq<
    MemoryRow,
> {
    let new = fresh(rows, target, after);
    let capped = if new.len() > record_cap(limits) {
        new.take(record_cap(limits))
    } else {
        new
    };
    capped.take(fitting(capped, limits.max_input_chars, 0, 0))
}

/// The rows at the given positions.
pub open spec fn rows_at(rows: Seq<MemoryRow>, at: Seq<usize>) -> Seq<MemoryRow> {
    Seq::new(at.len(), |i: int| rows[at[i] as int])
}

pub open spec fn positions_of(rows: Seq<MemoryRow>, at: Seq<usize>) -> bool {
    &&& forall|i: int| 0 <= i < at.len() ==> (#[trigger] at[i]) < rows.len()
    &&& forall|i: int, j: int| 0 <= i < j < at.len() ==> (#[trigger] at[i]) < (#[trigger] at[j])
}

fn load_consolidation_records(
    rows: &Vec<MemoryRow>,
    target: &MemoryTarget,
    after: i64,
    limits: &ConsolidationLimits,
) -> (r: Vec<usize>)
    ensures
        positions_of(rows@, r@),
        rows_at(rows@, r@) == batch(rows@, *target, after as int, *limits),
{
    let cap: usize = if limits.max_records == 0 {
        1
    } else {
        limits.max_records
    };
    let ghost new = fresh(rows@, *target, after as int);
    let ghost capped = if new.len() > cap {
        new.take(cap as int)
    } else {
        new
    };
    let mut at: Vec<usize> = Vec::new();
    let mut i: usize = 0;
    assert(rows@.take(0) =~= Seq::empty());
    assert(fresh(rows@.take(0), *target, after as int) =~= Seq::empty()) by {
        reveal(Seq::filter);
    }
    assert(rows_at(rows@, at@) =~= Seq::empty());
    while i < rows.len() && at.len() < cap
        invariant
            0 <= i <= rows@.len(),
            at@.len() <= cap,
            positions_of(rows@, at@),
            forall|k: int| 0 <= k < at@.len() ==> (#[trigger] at@[k]) < i,
            rows_at(rows@, at@) == fresh(rows@.take(i as int), *target, after as int),
        decreases rows@.len() - i,
    {
        proof {
            lemma_fresh_step(rows@, *target, after as int, i as int);
        }
        if is_fresh(&rows[i], target, after) {
            let ghost old_at = at@;
            at.push(i);
            assert(rows_at(rows@, at@) =~= rows_at(rows@, old_at).push(rows@[i as int]));
        }
        i += 1;
    }
    proof {
        lemma_fresh_prefix(rows@, *target, after as int, i as int);
        if i == rows@.len() {
            assert(rows@.take(i as int) =~= rows@);
            assert(rows_at(rows@, at@) =~= capped);
        } else {
            assert(rows_at(rows@, at@) =~= capped);
        }
    }
    let mut kept: Vec<usize> = Vec::new();
    let mut used: usize = 0;
    let mut k: usize = 0;
    while k < at.len()
        invariant
            0 <= k <= at@.len(),
            positions_of(rows@, at@),
            rows_at(rows@, at@) == capped,
            kept@ == at@.take(k as int),
            fitting(capped, limits.max_input_chars, 0, 0) == fitting(
                capped,
                limits.max_input_chars,
                k as int,
                used as int,
            ),
            capped == (if new.len() > cap {
                new.take(cap as int)
            } else {
                new
            }),
            new == fresh(rows@, *target, after as int),
            cap == record_cap(*limits),
        decreases at@.len() - k,
    {
        let next: usize = rows[at[k]].record.content.as_str().unicode_len();
        let total: usize = used.saturating_add(next);
        assert(capped[k as int] == rows@[at@[k as int] as int]);
        if k > 0 && total > limits.max_input_chars {
            assert(rows_at(rows@, kept@) =~= capped.take(k as int));
            return kept;
        }
        used = total;
        kept.push(at[k]);
        k += 1;
        assert(kept@ =~= at@.take(k as int));
    }
    assert(rows_at(rows@, kept@) =~= capped.take(k as int));
    kept
}

proof fn lemma_fresh_prefix(rows: Seq<MemoryRow>, target: MemoryTarget, after: int, i: int)
    requires
        0 <= i <= rows.len(),
    ensures
        fresh(rows.take(i), target, after).len() <= fresh(rows, target, after).len(),
        fresh(rows, target, after).take(fresh(rows.take(i), target, after).len() as int) == fresh(
            rows.take(i),
            target,
            after,
        ),
    decreases rows.len() - i,
{
    if i == rows.len() {
        assert(rows.take(i) =~= rows);
        assert(fresh(rows, target, after).take(fresh(rows, target, after).len() as int) =~= fresh(
            rows,
            target,
            after,
        ));
    } else {
        lemma_fresh_prefix(rows, target, after, i + 1);
        lemma_fresh_step(rows, target, after, i);
        let a = fresh(rows.take(i), target, after);
        let b = fresh(rows.take(i + 1), target, after);
        let c = fresh(rows, target, after);
        assert(c.take(b.len() as int) == b);
        assert(b.take(a.len() as int) =~= a);
        assert(c.take(b.len() as int).take(a.len() as int) =~= c.take(a.len() as int));
    }
}

// Duplicates.

/// The text with every run of white space as one space, in lower case.
pub open spec fn normalized(s: Seq<char>) -> Seq<char> {
    text::lowercase(text::joined(text::words(s), " "@))
}

fn normalize_text(s: &str) -> (r: String)
    ensures
        r@ == normalized(s@),
{
    let words = text::split_words(s);
    text::to_lowercase(text::join(&words, " ").as_str())
}

pub open spec fn or_empty(o: Option<String>) -> Seq<char> {
    match o {
        Some(s) => s@,
        None => Seq::empty(),
    }
}

/// What two records must agree on to be duplicates.
#[verifier::opaque]
pub open spec fn duplicate_key(record: MemoryRecord) -> Seq<char> {
    normalized(record.content@) + "\u{1f}"@ + record.memory_type@ + "\u{1f}"@
        + record.visibility.name() + "\u{1f}"@ + or_empty(record.attribute_key) + "\u{1f}"@
        + or_empty(record.relation_subject_id) + "\u{1f}"@ + or_empty(record.relation_object_id)
}

fn append_option(s: &mut String, o: &Option<String>)
    ensures
        final(s)@ == old(s)@ + or_empty(*o),
{
    match o {
        Some(t) => s.append(t.as_str()),
        None => {
            assert(s@ =~= s@ + Seq::<char>::empty());
        },
    }
}

fn semantic_duplicate_key(record: &MemoryRecord) -> (r: String)
    ensures
        r@ == duplicate_key(*record),
{
    reveal(duplicate_key);
    let mut s = normalize_text(record.content.as_str());
    s.append("\u{1f}");
    s.append(record.memory_type.as_str());
    s.append("\u{1f}");
    s.append(record.visibility.as_str());
    s.append("\u{1f}");
    append_option(&mut s, &record.attribute_key);
    s.append("\u{1f}");
    append_option(&mut s, &record.relation_subject_id);
    s.append("\u{1f}");
    append_option(&mut s, &record.relation_object_id);
    s
}

pub open spec fn source_rank(t: MemorySourceType) -> int {
    match t {
        MemorySourceType::UserConfirmed => 4,
        MemorySourceType::ManualImport => 3,
        MemorySourceType::Legacy => 2,
        MemorySourceType::SystemDerived => 1,
    }
}

fn source_priority(t: MemorySourceType) -> (r: u8)
    ensures
        r == source_rank(t),
{
    match t {
        MemorySourceType::UserConfirmed => 4,
        MemorySourceType::ManualImport => 3,
        MemorySourceType::Legacy => 2,
        MemorySourceType::SystemDerived => 1,
    }
}

/// Whether `a` is kept rather than `b`: pinned before not pinned, then the better
/// source, then confirmed before not confirmed, then the later row.
pub open spec fn outranks(a: MemoryRow, b: MemoryRow) -> bool {
    if a.record.pinned != b.record.pinned {
        a.record.pinned
    } else if source_rank(a.record.source_type) != source_rank(b.record.source_type) {
        source_rank(a.record.source_type) > source_rank(b.record.source_type)
    } else if a.record.last_confirmed_at.is_some() != b.record.last_confirmed_at.is_some() {
        a.record.last_confirmed_at.is_some()
    } else {
        a.row_id > b.row_id
    }
}

fn canonical_over(a: &MemoryRow, b: &MemoryRow) -> (r: bool)
    ensures
        r == outranks(*a, *b),
{
    let x: u8 = source_priority(a.record.source_type);
    let y: u8 = source_priority(b.record.source_type);
    if a.record.pinned != b.record.pinned {
        a.record.pinned
    } else if x != y {
        x > y
    } else if a.record.last_confirmed_at.is_some() != b.record.last_confirmed_at.is_some() {
        a.record.last_confirmed_at.is_some()
    } else {
        a.row_id > b.row_id
    }
}

/// Whether record `j` of the batch says the same as record `i` and is kept in its place.
pub open spec fn supersedes(rows: Seq<MemoryRow>, i: int, j: int) -> bool {
    &&& 0 <= j < rows.len()
    &&& duplicate_key(rows[i].record) == duplicate_key(rows[j].record)
    &&& outranks(rows[j], rows[i])
}

/// Whether record `i` of the batch is a duplicate of one that is kept.
pub open spec fn is_duplicate(rows: Seq<MemoryRow>, i: int) -> bool {
    &&& 0 <= i < rows.len()
    &&& exists|j: int| supersedes(rows, i, j)
}

pub open spec fn duplicate_count(rows: Seq<MemoryRow>, n: int) -> nat
    decreases n,
{
    if n <= 0 {
        0
    } else {
        duplicate_count(rows, n - 1) + if is_duplicate(rows, n - 1) {
            1nat
        } else {
            0nat
        }
    }
}

pub proof fn lemma_duplicate_count_bound(rows: Seq<MemoryRow>, n: int)
    requires
        0 <= n,
    ensures
        duplicate_count(rows, n) <= n,
    decreases n,
{
    if n > 0 {
        lemma_duplicate_count_bound(rows, n - 1);
    }
}

/// Positions of the duplicates among the rows at `at`.
fn exact_duplicates(rows: &Vec<MemoryRow>, at: &Vec<usize>) -> (r: Vec<usize>)
    requires
        positions_of(rows@, at@),
    ensures
        r@.len() == duplicate_count(rows_at(rows@, at@), at@.len() as int),
        forall|p: usize|
            r@.contains(p) <==> exists|i: int|
                is_duplicate(rows_at(rows@, at@), i) && #[trigger] at@[i] == p,
{
    let ghost b = rows_at(rows@, at@);
    let mut keys: Vec<String> = Vec::new();
    let mut k: usize = 0;
    while k < at.len()
        invariant
            0 <= k <= at@.len(),
            positions_of(rows@, at@),
            b == rows_at(rows@, at@),
            keys@.len() == k,
            forall|i: int| 0 <= i < k ==> (#[trigger] keys@[i])@ == duplicate_key(b[i].record),
        decreases at@.len() - k,
    {
        keys.push(semantic_duplicate_key(&rows[at[k]].record));
        k += 1;
    }
    let mut out: Vec<usize> = Vec::new();
    let mut i: usize = 0;
    while i < at.len()
        invariant
            0 <= i <= at@.len(),
            positions_of(rows@, at@),
            b == rows_at(rows@, at@),
            keys@.len() == at@.len(),
            forall|n: int| 0 <= n < at@.len() ==> (#[trigger] keys@[n])@ == duplicate_key(b[n].record),
            out@.len() == duplicate_count(b, i as int),
            forall|p: usize|
                out@.contains(p) <==> exists|n: int|
                    n < i && is_duplicate(b, n) && #[trigger] at@[n] == p,
        decreases at@.len() - i,
    {
        let mut j: usize = 0;
        let mut found = false;
        while j < at.len()
            invariant
                i < at@.len(),
                0 <= j <= at@.len(),
                positions_of(rows@, at@),
                b == rows_at(rows@, at@),
                keys@.len() == at@.len(),
                forall|n: int| 0 <= n < at@.len() ==> (#[trigger] keys@[n])@ == duplicate_key(b[n].record),
                found <==> exists|n: int| n < j && supersedes(b, i as int, n),
            decreases at@.len() - j,
        {
            if canonical_over(&rows[at[j]], &rows[at[i]]) && text::same(
                keys[i].as_str(),
                keys[j].as_str(),
            ) {
                assert(supersedes(b, i as int, j as int));
                found = true;
            }
            j += 1;
        }
        let ghost before = out@;
        if found {
            assert(is_duplicate(b, i as int));
            out.push(at[i]);
            proof {
                assert forall|p: usize|
                    out@.contains(p) <==> exists|n: int|
                        n < i + 1 && is_duplicate(b, n) && #[trigger] at@[n] == p by {
                    if out@.contains(p) {
                        let m = choose|m: int| 0 <= m < out@.len() && out@[m] == p;
                        if m < before.len() {
                            assert(before[m] == p);
                            assert(before.contains(p));
                        } else {
                            assert(at@[i as int] == p);
                        }
                    }
                    if exists|n: int| n < i + 1 && is_duplicate(b, n) && #[trigger] at@[n] == p {
                        let n = choose|n: int|
                            n < i + 1 && is_duplicate(b, n) && #[trigger] at@[n] == p;
                        if n < i {
                            assert(before.contains(p));
                            let m = choose|m: int| 0 <= m < before.len() && before[m] == p;
                            assert(out@[m] == p);
                        } else {
                            assert(out@[before.len() as int] == p);
                        }
                    }
                }
            }
        } else {
            assert(!is_duplicate(b, i as int));
        }
        i += 1;
    }
    out
}

// One pass over one target.

/// Whether the row is one of the batch's duplicates.
pub open spec fn dropped_by(rows: Seq<MemoryRow>, row: MemoryRow) -> bool {
    exists|i: int| is_duplicate(rows, i) && #[trigger] rows[i].row_id == row.row_id
}

/// Whether a pass at `now_epoch` has work to do on the target.
pub open spec fn is_due(s: StoreView, target: MemoryTarget, limits: ConsolidationLimits, now_epoch: i64) -> bool {
    let p = progress(s.checkpoints, target);
    let new = fresh(s.rows, target, p.row_id);
    &&& p.run_at <= cutoff(limits, now_epoch)
    &&& new.len() > 0
    &&& p.truncated || (new.len() >= limits.min_new_records && sources(new).len()
        >= limits.min_distinct_sources)
}

/// The checkpoint that a pass over the target leaves.
pub open spec fn next_checkpoint(
    s: StoreView,
    target: MemoryTarget,
    limits: ConsolidationLimits,
    now_epoch: i64,
) -> ConsolidationCheckpoint {
    let p = progress(s.checkpoints, target);
    let b = batch(s.rows, target, p.row_id, limits);
    let n = duplicate_count(b, b.len() as int);
    ConsolidationCheckpoint {
        target,
        last_processed_row_id: b.last().row_id,
        last_run_at_epoch: now_epoch,
        input_count: b.len() as usize,
        output_count: (b.len() - n) as usize,
        duplicate_count: n as usize,
        conflict_count: 0,
        truncated: b.len() < fresh(s.rows, target, p.row_id).len(),
    }
}

/// The tables after a pass over a target that is due.
pub open spec fn passed_over(
    s: StoreView,
    target: MemoryTarget,
    limits: ConsolidationLimits,
    now_epoch: i64,
    now: String,
) -> StoreView {
    let p = progress(s.checkpoints, target);
    let b = batch(s.rows, target, p.row_id, limits);
    StoreView {
        rows: Seq::new(
            s.rows.len(),
            |k: int|
                if dropped_by(b, s.rows[k]) {
                    store::archived(s.rows[k], now)
                } else {
                    s.rows[k]
                },
        ),
        checkpoints: with_checkpoint(s.checkpoints, next_checkpoint(s, target, limits, now_epoch)),
        ..s
    }
}

/// Tables and statistics after a pass over the target.
pub open spec fn consolidated(
    s: StoreView,
    target: MemoryTarget,
    limits: ConsolidationLimits,
    now_epoch: i64,
    now: String,
) -> (StoreView, ConsolidationRunStats) {
    if !is_due(s, target, limits, now_epoch) {
        (s, no_stats())
    } else {
        let c = next_checkpoint(s, target, limits, now_epoch);
        (
            passed_over(s, target, limits, now_epoch, now),
            ConsolidationRunStats {
                candidate_target_count: 1,
                processed_target_count: 1,
                input_record_count: c.input_count,
                output_record_count: c.output_count,
                archived_duplicate_count: c.duplicate_count,
                conflict_count: 0,
                truncated_target_count: if c.truncated {
                    1
                } else {
                    0
                },
            },
        )
    }
}

/// Whether a pass over the target fails: the records cannot be read, or one of them
/// would have to be archived and cannot.
pub open spec fn pass_fails(s: StoreView, target: MemoryTarget, limits: ConsolidationLimits, now_epoch: i64) -> bool {
    let p = progress(s.checkpoints, target);
    ||| p.run_at <= cutoff(limits, now_epoch) && s.faults.table_dropped
    ||| is_due(s, target, limits, now_epoch) && s.faults.archive_aborts && next_checkpoint(
        s,
        target,
        limits,
        now_epoch,
    ).duplicate_count > 0
}

pub proof fn lemma_batch_in_rows(rows: Seq<MemoryRow>, target: MemoryTarget, after: int, limits: ConsolidationLimits)
    ensures
        ({
            let new = fresh(rows, target, after);
            let b = batch(rows, target, after, limits);
            &&& b.len() <= new.len() <= rows.len()
            &&& new.len() > 0 ==> b.len() > 0
            &&& b == new.take(b.len() as int)
        }),
{
    let new = fresh(rows, target, after);
    let capped = if new.len() > record_cap(limits) {
        new.take(record_cap(limits))
    } else {
        new
    };
    rows.lemma_filter_len(|r: MemoryRow| store::row_in(r, target) && r.row_id > after);
    lemma_fitting_bound(capped, limits.max_input_chars, 0, 0);
    assert(batch(rows, target, after, limits) =~= new.take(
        batch(rows, target, after, limits).len() as int,
    ));
}

proof fn lemma_fitting_bound(rows: Seq<MemoryRow>, max_chars: usize, k: int, used: int)
    requires
        0 <= k <= rows.len(),
    ensures
        k <= fitting(rows, max_chars, k, used) <= rows.len(),
        k == 0 && rows.len() > 0 ==> fitting(rows, max_chars, k, used) > 0,
    decreases rows.len() - k,
{
    if k < rows.len() {
        let total = clamp_size(used + rows[k].record.content@.len());
        if !(k > 0 && total > max_chars) {
            lemma_fitting_bound(rows, max_chars, k + 1, total);
        }
    }
}

proof fn lemma_with_checkpoint_unique(s: StoreView, entry: ConsolidationCheckpoint)
    requires
        s.checkpoints_unique(),
    ensures
        (StoreView { checkpoints: with_checkpoint(s.checkpoints, entry), ..s }).checkpoints_unique(),
{
    let n = StoreView { checkpoints: with_checkpoint(s.checkpoints, entry), ..s };
    assert forall|i: int, j: int| 0 <= i < j < n.checkpoints.len() implies !types::same_target(
        (#[trigger] n.checkpoints[i]).target,
        (#[trigger] n.checkpoints[j]).target,
    ) by {
        if visited(s.checkpoints, entry.target) {
            let k = choose|k: int| is_checkpoint(s.checkpoints, entry.target, k);
            if i != k && j != k {
                assert(!types::same_target(s.checkpoints[i].target, s.checkpoints[j].target));
            } else if i == k {
                assert(!types::same_target(s.checkpoints[k].target, s.checkpoints[j].target));
            } else {
                assert(!types::same_target(s.checkpoints[i].target, s.checkpoints[k].target));
            }
        } else {
            if j == s.checkpoints.len() {
                assert(!is_checkpoint(s.checkpoints, entry.target, i));
            } else {
                assert(!types::same_target(s.checkpoints[i].target, s.checkpoints[j].target));
            }
        }
    }
}

/// A pass keeps the tables well formed.
pub proof fn pass_keeps_tables_well_formed(
    s: StoreView,
    target: MemoryTarget,
    limits: ConsolidationLimits,
    now_epoch: i64,
    now: String,
)
    requires
        s.wf(),
    ensures
        consolidated(s, target, limits, now_epoch, now).0.wf(),
{
    let t = consolidated(s, target, limits, now_epoch, now).0;
    if is_due(s, target, limits, now_epoch) {
        assert forall|i: int| 0 <= i < t.rows.len() implies (#[trigger] t.rows[i]).row_id
            == s.rows[i].row_id && t.rows[i].record.id == s.rows[i].record.id by {}
        assert(t.rows_sorted()) by {
            assert forall|i: int, j: int| 0 <= i < j < t.rows.len() implies (
            #[trigger] t.rows[i]).row_id < (#[trigger] t.rows[j]).row_id by {
                assert(s.rows[i].row_id < s.rows[j].row_id);
            }
        }
        assert(t.ids_unique()) by {
            assert forall|i: int, j: int| 0 <= i < j < t.rows.len() implies (
            #[trigger] t.rows[i]).record.id@ != (#[trigger] t.rows[j]).record.id@ by {
                assert(s.rows[i].record.id@ != s.rows[j].record.id@);
            }
        }
        assert(t.rows_bounded()) by {
            assert forall|i: int|
                0 <= i < t.rows.len() && (#[trigger] t.rows[i]).record.status
                    == MemoryStatus::Active && t.rows[i].record.memory_kind
                    != MemoryKind::LegacyUnassigned implies store::bounded(t.rows[i].record) by {
                assert(t.rows[i] == s.rows[i]);
            }
        }
        assert(t.rows_numbered()) by {
            assert forall|i: int| 0 <= i < t.rows.len() implies 0 < (#[trigger] t.rows[i]).row_id
                <= t.last_row_id by {
                assert(0 < s.rows[i].row_id <= s.last_row_id);
            }
        }
        lemma_with_checkpoint_unique(s, next_checkpoint(s, target, limits, now_epoch));
    }
}

/// What a pass over one target leaves and returns; a target without a scope is refused.
pub open spec fn is_pass(
    s: StoreView,
    t: StoreView,
    r: Result<ConsolidationRunStats, MemoryError>,
    target: MemoryTarget,
    limits: ConsolidationLimits,
    now_epoch: i64,
    now: String,
) -> bool {
    if text::blank(target.scope_id@) {
        t == s && types::refused(r, "bad_request"@, "scope_id is required"@)
    } else {
        exists|clean: MemoryTarget| #[trigger]
            target.cleans_to(clean) && match r {
                Ok(stats) => !pass_fails(s, clean, limits, now_epoch) && (t, stats) == consolidated(
                    s,
                    clean,
                    limits,
                    now_epoch,
                    now,
                ),
                Err(_) => pass_fails(s, clean, limits, now_epoch) && t == s && types::broken(r),
            }
    }
}

impl MemoryStore {
    /// One pass over one target, as one transaction: it either takes effect as a whole
    /// or leaves the tables as they were.
    pub fn consolidate_target(
        &mut self,
        target: &MemoryTarget,
        limits: &ConsolidationLimits,
        now_epoch: i64,
        now: &String,
    ) -> (r: Result<ConsolidationRunStats, MemoryError>)
        requires
            old(self)@.wf(),
        ensures
            final(self)@.wf(),
            is_pass(old(self)@, final(self)@, r, *target, *limits, now_epoch, *now),
    {
        match target.clean() {
            Ok(clean) => {
                assert(target.cleans_to(clean));
                self.pass_over(&clean, limits, now_epoch, now)
            },
            Err(e) => Err(e),
        }
    }

    /// The pass over a target with trimmed identifiers.
    fn pass_over(
        &mut self,
        target: &MemoryTarget,
        limits: &ConsolidationLimits,
        now_epoch: i64,
        now: &String,
    ) -> (r: Result<ConsolidationRunStats, MemoryError>)
        requires
            old(self)@.wf(),
            target.is_clean(),
        ensures
            final(self)@.wf(),
            r is Err <==> pass_fails(old(self)@, *target, *limits, now_epoch),
            match r {
                Ok(stats) => (final(self)@, stats) == consolidated(
                    old(self)@,
                    *target,
                    *limits,
                    now_epoch,
                    *now,
                ),
                Err(e) => final(self)@ == old(self)@ && e.code_text() == "io_error"@,
            },
    {
        let ghost s = self@;
        let ghost p = progress(s.checkpoints, *target);
        let found = find_checkpoint(&self.checkpoints, target);
        let (after, run_at, truncated): (i64, i64, bool) = match found {
            Some(k) => (
                self.checkpoints[k].last_processed_row_id,
                self.checkpoints[k].last_run_at_epoch,
                self.checkpoints[k].truncated,
            ),
            None => (0, 0, false),
        };
        proof {
            if let Some(k) = found {
                let c = choose|c: int| is_checkpoint(s.checkpoints, *target, c);
                lemma_checkpoint_unique(s, *target, k as int, c);
            }
            assert(p.row_id == after && p.run_at == run_at && p.truncated == truncated);
        }
        if run_at > compute_cutoff(limits, now_epoch) {
            return Ok(ConsolidationRunStats::default());
        }
        if self.faults.table_dropped {
            return Err(MemoryError::io("sqlite failed: no such table: memories"));
        }
        let (new_count, source_count): (usize, usize) = new_record_stats(&self.rows, target, after);
        if new_count == 0 || (!truncated && (new_count < limits.min_new_records || source_count
            < limits.min_distinct_sources)) {
            return Ok(ConsolidationRunStats::default());
        }
        let at = load_consolidation_records(&self.rows, target, after, limits);
        let duplicates = exact_duplicates(&self.rows, &at);
        let ghost b = batch(s.rows, *target, p.row_id, *limits);
        proof {
            lemma_batch_in_rows(s.rows, *target, p.row_id, *limits);
            lemma_duplicate_count_bound(b, b.len() as int);
            assert(rows_at(s.rows, at@) == b);
        }
        if self.faults.archive_aborts && duplicates.len() > 0 {
            return Err(MemoryError::io("sqlite failed: memory archive aborted"));
        }
        let last: i64 = self.rows[at[at.len() - 1]].row_id;
        assert(last == b.last().row_id);
        let row_count: usize = self.rows.len();
        proof {
            assert forall|m: int| 0 <= m < duplicates@.len() implies (#[trigger] duplicates@[m])
                < s.rows.len() by {
                assert(duplicates@.contains(duplicates@[m]));
                let n = choose|n: int| is_duplicate(b, n) && #[trigger] at@[n] == duplicates@[m];
            }
        }
        let mut i: usize = 0;
        while i < duplicates.len()
            invariant
                0 <= i <= duplicates@.len(),
                row_count == s.rows.len(),
                self.rows@.len() == s.rows.len(),
                self.last_row_id == s.last_row_id,
                self.checkpoints@ == s.checkpoints,
                self.preferences@ == s.preferences,
                self.faults == s.faults,
                forall|m: int| 0 <= m < duplicates@.len() ==> (#[trigger] duplicates@[m]) < s.rows.len(),
                forall|k: int|
                    0 <= k < s.rows.len() ==> #[trigger] self.rows@[k] == (if duplicates@.take(
                        i as int,
                    ).contains(k as usize) {
                        store::archived(s.rows[k], *now)
                    } else {
                        s.rows[k]
                    }),
            decreases duplicates@.len() - i,
        {
            let d: usize = duplicates[i];
            let mut record = self.rows[d].record.clone();
            record.status = MemoryStatus::Archived;
            record.updated_at = Some(now.clone());
            let row = MemoryRow { row_id: self.rows[d].row_id, record };
            let ghost before = self.rows@;
            self.rows.set(d, row);
            proof {
                assert(store::archived(before[d as int], *now) == store::archived(s.rows[d as int], *now));
                assert(row == store::archived(s.rows[d as int], *now));
                assert forall|k: int| 0 <= k < s.rows.len() implies #[trigger] self.rows@[k] == (
                if duplicates@.take(i + 1).contains(k as usize) {
                    store::archived(s.rows[k], *now)
                } else {
                    s.rows[k]
                }) by {
                    let old_done = duplicates@.take(i as int);
                    let done = duplicates@.take(i + 1);
                    assert(done =~= old_done.push(d));
                    if k == d {
                        assert(done[i as int] == k as usize);
                    } else {
                        assert(self.rows@[k] == before[k]);
                        if done.contains(k as usize) {
                            let m = choose|m: int| 0 <= m < done.len() && done[m] == k as usize;
                            assert(m < i);
                            assert(old_done[m] == k as usize);
                        }
                        if old_done.contains(k as usize) {
                            let m = choose|m: int|
                                0 <= m < old_done.len() && old_done[m] == k as usize;
                            assert(done[m] == k as usize);
                        }
                    }
                }
            }
            i += 1;
        }
        let input: usize = at.len();
        let output: usize = at.len() - duplicates.len();
        let was_truncated = at.len() < new_count;
        let entry = ConsolidationCheckpoint {
            target: target.clone(),
            last_processed_row_id: last,
            last_run_at_epoch: now_epoch,
            input_count: input,
            output_count: output,
            duplicate_count: duplicates.len(),
            conflict_count: 0,
            truncated: was_truncated,
        };
        assert(entry == next_checkpoint(s, *target, *limits, now_epoch));
        match found {
            Some(k) => {
                proof {
                    let c = choose|c: int| is_checkpoint(s.checkpoints, *target, c);
                    lemma_checkpoint_unique(s, *target, k as int, c);
                }
                self.checkpoints.set(k, entry);
            },
            None => {
                self.checkpoints.push(entry);
            },
        }
        proof {
            let t = passed_over(s, *target, *limits, now_epoch, *now);
            assert(duplicates@.take(i as int) =~= duplicates@);
            assert forall|k: int| 0 <= k < s.rows.len() implies dropped_by(b, s.rows[k])
                == duplicates@.contains(k as usize) by {
                if dropped_by(b, s.rows[k]) {
                    let m = choose|m: int|
                        is_duplicate(b, m) && #[trigger] b[m].row_id == s.rows[k].row_id;
                    let q = at@[m] as int;
                    assert(b[m] == s.rows[q]);
                    assert(q == k) by {
                        if q < k {
                            assert(s.rows[q].row_id < s.rows[k].row_id);
                        } else if k < q {
                            assert(s.rows[k].row_id < s.rows[q].row_id);
                        }
                    }
                    assert(at@[m] == k as usize);
                }
                if duplicates@.contains(k as usize) {
                    let m = choose|m: int| is_duplicate(b, m) && #[trigger] at@[m] == k as usize;
                    assert(b[m].row_id == s.rows[k].row_id);
                }
            }
            assert(self.rows@ =~= t.rows);
            assert(self@ =~= t);
            pass_keeps_tables_well_formed(s, *target, *limits, now_epoch, *now);
        }
        Ok(
            ConsolidationRunStats {
                candidate_target_count: 1,
                processed_target_count: 1,
                input_record_count: input,
                output_record_count: output,
                archived_duplicate_count: duplicates.len(),
                conflict_count: 0,
                truncated_target_count: if was_truncated {
                    1
                } else {
                    0
                },
            },
        )
    }
}

// Choosing the targets of a run.

/// The target that an active record belongs to.
pub open spec fn target_of(record: MemoryRecord) -> MemoryTarget {
    MemoryTarget {
        scope_type: record.scope_type,
        scope_id: record.scope_id->0,
        memory_kind: record.memory_kind,
        subject_id: record.subject_id,
    }
}

/// Whether row `i` is the last active row of a target that can be consolidated.
pub open spec fn closes_target(rows: Seq<MemoryRow>, i: int) -> bool {
    &&& rows[i].record.status == MemoryStatus::Active
    &&& rows[i].record.memory_kind != MemoryKind::LegacyUnassigned
    &&& forall|j: int| i < j < rows.len() ==> !store::row_in(#[trigger] rows[j], target_of(rows[i].record))
}

/// Whether the target is offered to a run: its last pass is long enough ago, and it has
/// enough new records from enough sources or a backlog left by an earlier pass.
pub open spec fn is_offered(s: StoreView, target: MemoryTarget, limits: ConsolidationLimits, now_epoch: i64) -> bool {
    let p = progress(s.checkpoints, target);
    let new = fresh(s.rows, target, p.row_id);
    &&& visited(s.checkpoints, target) ==> p.run_at <= cutoff(limits, now_epoch)
    &&& new.len() > 0
    &&& p.truncated || (new.len() >= as_signed(limits.min_new_records as u64) && sources(new).len()
        >= as_signed(limits.min_distinct_sources as u64))
}

/// The first targets that are offered, in the order of their last active rows, among
/// those whose last active row stands before row `n`.
pub open spec fn due_targets(s: StoreView, limits: ConsolidationLimits, now_epoch: i64, n: int) -> Seq<MemoryTarget>
    decreases n,
{
    if n <= 0 {
        Seq::empty()
    } else {
        let before = due_targets(s, limits, now_epoch, n - 1);
        let target = target_of(s.rows[n - 1].record);
        if closes_target(s.rows, n - 1) && is_offered(s, target, limits, now_epoch)
            && before.len() < MAX_TARGETS_PER_RUN {
            before.push(target)
        } else {
            before
        }
    }
}

/// Whether the second targets are the first ones with their identifiers trimmed.
pub open spec fn are_cleaned(given: Seq<MemoryTarget>, clean: Seq<MemoryTarget>) -> bool {
    &&& given.len() == clean.len()
    &&& forall|i: int| 0 <= i < clean.len() ==> given[i].cleans_to(#[trigger] clean[i])
}

pub open spec fn plus(a: usize, b: usize) -> usize {
    clamp_size(a + b) as usize
}

/// The sum of what two passes have done; the number of candidates stays that of the run.
pub open spec fn add_stats(a: ConsolidationRunStats, b: ConsolidationRunStats) -> ConsolidationRunStats {
    ConsolidationRunStats {
        candidate_target_count: a.candidate_target_count,
        processed_target_count: plus(a.processed_target_count, b.processed_target_count),
        input_record_count: plus(a.input_record_count, b.input_record_count),
        output_record_count: plus(a.output_record_count, b.output_record_count),
        archived_duplicate_count: plus(a.archived_duplicate_count, b.archived_duplicate_count),
        conflict_count: plus(a.conflict_count, b.conflict_count),
        truncated_target_count: plus(a.truncated_target_count, b.truncated_target_count),
    }
}

impl ConsolidationRunStats {
    /// What a run over so many targets starts with.
    pub fn of_candidates(count: usize) -> (r: Self)
        ensures
            r == (ConsolidationRunStats { candidate_target_count: count, ..no_stats() }),
    {
        let mut r = ConsolidationRunStats::default();
        r.candidate_target_count = count;
        r
    }

    /// The statistics of a run with those of one more pass.
    pub fn with_pass(&self, one: &ConsolidationRunStats) -> (r: Self)
        ensures
            r == add_stats(*self, *one),
    {
        ConsolidationRunStats {
            candidate_target_count: self.candidate_target_count,
            processed_target_count: self.processed_target_count.saturating_add(
                one.processed_target_count,
            ),
            input_record_count: self.input_record_count.saturating_add(one.input_record_count),
            output_record_count: self.output_record_count.saturating_add(one.output_record_count),
            archived_duplicate_count: self.archived_duplicate_count.saturating_add(
                one.archived_duplicate_count,
            ),
            conflict_count: self.conflict_count.saturating_add(one.conflict_count),
            truncated_target_count: self.truncated_target_count.saturating_add(
                one.truncated_target_count,
            ),
        }
    }
}

/// Tables and statistics after passes over the first `n` of the targets.
pub open spec fn run_through(
    s: StoreView,
    targets: Seq<MemoryTarget>,
    limits: ConsolidationLimits,
    now_epoch: i64,
    now: String,
    n: int,
) -> (StoreView, ConsolidationRunStats)
    decreases n,
{
    if n <= 0 {
        (s, ConsolidationRunStats { candidate_target_count: targets.len() as usize, ..no_stats() })
    } else {
        let before = run_through(s, targets, limits, now_epoch, now, n - 1);
        let after = consolidated(before.0, targets[n - 1], limits, now_epoch, now);
        (after.0, add_stats(before.1, after.1))
    }
}

/// Whether the pass over target `k` of a run fails.
pub open spec fn run_fails_at(
    s: StoreView,
    targets: Seq<MemoryTarget>,
    limits: ConsolidationLimits,
    now_epoch: i64,
    now: String,
    k: int,
) -> bool {
    0 <= k < targets.len() && pass_fails(
        run_through(s, targets, limits, now_epoch, now, k).0,
        targets[k],
        limits,
        now_epoch,
    )
}

/// What a run at `now_epoch` leaves and reports: the passes over all due targets, or, if
/// one of them fails, those before the first that does.
pub open spec fn is_run(
    s: StoreView,
    t: StoreView,
    r: Result<ConsolidationRunStats, MemoryError>,
    limits: ConsolidationLimits,
    now_epoch: i64,
    now: String,
) -> bool {
    let due = due_targets(s, limits, now_epoch, s.rows.len() as int);
    if s.faults.table_dropped {
        r is Err && t == s
    } else {
        exists|targets: Seq<MemoryTarget>| #[trigger]
            are_cleaned(due, targets) && is_run_over(s, t, r, targets, limits, now_epoch, now)
    }
}

/// What passing over the targets leaves and reports.
pub open spec fn is_run_over(
    s: StoreView,
    t: StoreView,
    r: Result<ConsolidationRunStats, MemoryError>,
    targets: Seq<MemoryTarget>,
    limits: ConsolidationLimits,
    now_epoch: i64,
    now: String,
) -> bool {
    match r {
        Ok(stats) => {
            &&& (t, stats) == run_through(s, targets, limits, now_epoch, now, targets.len() as int)
            &&& forall|k: int| !run_fails_at(s, targets, limits, now_epoch, now, k)
        },
        Err(_) => exists|k: int|
            {
                &&& #[trigger] run_fails_at(s, targets, limits, now_epoch, now, k)
                &&& t == run_through(s, targets, limits, now_epoch, now, k).0
                &&& forall|j: int| j < k ==> !run_fails_at(s, targets, limits, now_epoch, now, j)
            },
    }
}

fn record_target(record: &MemoryRecord) -> (r: MemoryTarget)
    requires
        record.scope_id is Some,
    ensures
        r == target_of(*record),
{
    MemoryTarget {
        scope_type: record.scope_type,
        scope_id: match &record.scope_id {
            Some(s) => s.clone(),
            None => String::new(),
        },
        memory_kind: record.memory_kind,
        subject_id: text::copy_option(&record.subject_id),
    }
}

impl MemoryStore {
    fn is_target_offered(&self, target: &MemoryTarget, limits: &ConsolidationLimits, now_epoch: i64) -> (r: bool)
        requires
            self@.wf(),
        ensures
            r == is_offered(self@, *target, *limits, now_epoch),
    {
        let found = find_checkpoint(&self.checkpoints, target);
        let (after, truncated): (i64, bool) = match found {
            Some(k) => {
                proof {
                    let c = choose|c: int| is_checkpoint(self@.checkpoints, *target, c);
                    lemma_checkpoint_unique(self@, *target, k as int, c);
                }
                if self.checkpoints[k].last_run_at_epoch > compute_cutoff(limits, now_epoch) {
                    return false;
                }
                (self.checkpoints[k].last_processed_row_id, self.checkpoints[k].truncated)
            },
            None => (0, false),
        };
        let (new_count, source_count): (usize, usize) = new_record_stats(&self.rows, target, after);
        new_count > 0 && (truncated || (new_count as i128 >= signed(limits.min_new_records as u64) as i128
            && source_count as i128 >= signed(limits.min_distinct_sources as u64) as i128))
    }

    fn closes_its_target(&self, i: usize) -> (r: bool)
        requires
            self@.wf(),
            i < self@.rows.len(),
        ensures
            r == closes_target(self@.rows, i as int),
    {
        let record = &self.rows[i].record;
        if record.status != MemoryStatus::Active || record.memory_kind == MemoryKind::LegacyUnassigned {
            return false;
        }
        assert(store::bounded(self@.rows[i as int].record));
        let target = record_target(record);
        let row_count: usize = self.rows.len();
        assert(i < row_count);
        let mut j: usize = i + 1;
        while j < self.rows.len()
            invariant
                i < j <= self.rows@.len(),
                target == target_of(self.rows@[i as int].record),
                forall|k: int| i < k < j ==> !store::row_in(#[trigger] self.rows@[k], target),
            decreases self.rows@.len() - j,
        {
            if store::is_row_in(&self.rows[j], &target) {
                return false;
            }
            j += 1;
        }
        true
    }

    /// The targets that a run at `now_epoch` passes over.
    pub fn list_due_consolidation_targets(&self, limits: &ConsolidationLimits, now_epoch: i64) -> (r: Result<
        Vec<MemoryTarget>,
        MemoryError,
    >)
        requires
            self@.wf(),
        ensures
            match r {
                Ok(targets) => {
                    &&& !self@.faults.table_dropped
                    &&& are_cleaned(
                        due_targets(self@, *limits, now_epoch, self@.rows.len() as int),
                        targets@,
                    )
                },
                Err(e) => self@.faults.table_dropped && e.code_text() == "io_error"@,
            },
    {
        if self.faults.table_dropped {
            return Err(MemoryError::io("sqlite failed: no such table: memories"));
        }
        let mut targets: Vec<MemoryTarget> = Vec::new();
        let mut i: usize = 0;
        while i < self.rows.len()
            invariant
                0 <= i <= self.rows@.len(),
                self@.wf(),
                self@.rows == self.rows@,
                !self@.faults.table_dropped,
                are_cleaned(due_targets(self@, *limits, now_epoch, i as int), targets@),
            decreases self.rows@.len() - i,
        {
            if self.closes_its_target(i) && targets.len() < MAX_TARGETS_PER_RUN {
                assert(store::bounded(self@.rows[i as int].record));
                let target = record_target(&self.rows[i].record);
                if self.is_target_offered(&target, limits, now_epoch) {
                    match target.clean() {
                        Ok(clean) => {
                            targets.push(clean);
                        },
                        Err(e) => {
                            return Err(e);
                        },
                    }
                }
            }
            i += 1;
        }
        Ok(targets)
    }

    /// A run whose archived records are stamped with `now`.
    pub fn consolidate_due_at(&mut self, limits: &ConsolidationLimits, now_epoch: i64, now: &String) -> (r: Result<
        ConsolidationRunStats,
        MemoryError,
    >)
        requires
            old(self)@.wf(),
        ensures
            final(self)@.wf(),
            is_run(old(self)@, final(self)@, r, *limits, now_epoch, *now),
            r matches Err(e) ==> e.code_text() == "io_error"@,
    {
        let ghost s = self@;
        let targets = match self.list_due_consolidation_targets(limits, now_epoch) {
            Ok(targets) => targets,
            Err(e) => {
                return Err(e);
            },
        };
        let mut stats = ConsolidationRunStats::of_candidates(targets.len());
        let mut i: usize = 0;
        while i < targets.len()
            invariant
                0 <= i <= targets@.len(),
                s == old(self)@,
                self@.wf(),
                !s.faults.table_dropped,
                are_cleaned(due_targets(s, *limits, now_epoch, s.rows.len() as int), targets@),
                (self@, stats) == run_through(s, targets@, *limits, now_epoch, *now, i as int),
                forall|k: int| k < i ==> !run_fails_at(s, targets@, *limits, now_epoch, *now, k),
            decreases targets@.len() - i,
        {
            let one = match self.pass_over(&targets[i], limits, now_epoch, now) {
                Ok(one) => one,
                Err(e) => {
                    proof {
                        let ts = targets@;
                        assert(self@ == run_through(s, ts, *limits, now_epoch, *now, i as int).0);
                        assert(run_fails_at(s, ts, *limits, now_epoch, *now, i as int));
                    }
                    return Err(e);
                },
            };
            stats = stats.with_pass(&one);
            i += 1;
        }
        Ok(stats)
    }

    /// A run over the targets that are due at `now_epoch`.
    pub fn consolidate_due(&mut self, limits: ConsolidationLimits, now_epoch: i64) -> (r: Result<
        ConsolidationRunStats,
        MemoryError,
    >)
        requires
            old(self)@.wf(),
        ensures
            final(self)@.wf(),
            exists|now: String| is_run(old(self)@, final(self)@, r, limits, now_epoch, now),
            r matches Err(e) ==> e.code_text() == "io_error"@,
    {
        let now = crate::outside::now_iso_cn();
        self.consolidate_due_at(&limits, now_epoch, &now)
    }
}

} // verus!
