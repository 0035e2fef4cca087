//! What counts as a duplicate, and which of two duplicates is kept.
use vstd::prelude::*;
use vstd::string::*;

use crate::memory::consolidation;
use crate::memory::consolidation::ConsolidationLimits;
use crate::memory::consolidation_laws;
use crate::memory::store::{MemoryRow, StoreView};
use crate::memory::types::{
    MemoryRecord, MemorySourceType, MemoryStatus, MemoryTarget, MemoryVisibility,
};
use crate::text;
use crate::text_laws;

verus! {

/// Whether `x` is the text with single spaces in place of all white space between its words.
pub open spec fn is_spaced_form(x: Seq<char>, s: Seq<char>) -> bool {
    text::words(x) == text::words(s) && text_laws::is_single_spaced(x)
}

/// Whether two texts have the same words, whatever the letter case and the white space.
pub open spec fn same_words(a: Seq<char>, b: Seq<char>) -> bool {
    exists|x: Seq<char>, y: Seq<char>|
        #![trigger is_spaced_form(x, a), is_spaced_form(y, b)]
        is_spaced_form(x, a) && is_spaced_form(y, b) && text::lowercase(x) == text::lowercase(y)
}

/// The text, where there is one.
pub open spec fn shown(o: Option<String>) -> Seq<char> {
    if o is Some {
        o->0@
    } else {
        Seq::empty()
    }
}

/// Whether no field holds the character that stands between fields.
pub open spec fn is_separable(r: MemoryRecord) -> bool {
    &&& !r.memory_type@.contains('\u{1f}')
    &&& !shown(r.attribute_key).contains('\u{1f}')
    &&& !shown(r.relation_subject_id).contains('\u{1f}')
    &&& !shown(r.relation_object_id).contains('\u{1f}')
}

/// Whether two records are of the same type and visibility, on the same attribute and between
/// the same subjects.
pub open spec fn same_meaning(a: MemoryRecord, b: MemoryRecord) -> bool {
    &&& a.memory_type@ == b.memory_type@
    &&& a.visibility == b.visibility
    &&& shown(a.attribute_key) == shown(b.attribute_key)
    &&& shown(a.relation_subject_id) == shown(b.relation_subject_id)
    &&& shown(a.relation_object_id) == shown(b.relation_object_id)
}

proof fn lemma_last_part(x: Seq<char>, y: Seq<char>, v: Seq<char>, w: Seq<char>)
    requires
        x + "\u{1f}"@ + y == v + "\u{1f}"@ + w,
        !y.contains('\u{1f}'),
        !w.contains('\u{1f}'),
    ensures
        x == v,
        y == w,
{
    reveal_strlit("\u{1f}");
    let a = x + "\u{1f}"@ + y;
    let b = v + "\u{1f}"@ + w;
    assert(a.len() == x.len() + 1 + y.len());
    assert(b.len() == v.len() + 1 + w.len());
    assert forall|i: int| 0 <= i < y.len() implies #[trigger] a[x.len() + 1 + i] == y[i] by {}
    assert forall|i: int| 0 <= i < w.len() implies #[trigger] b[v.len() + 1 + i] == w[i] by {}
    if x.len() < v.len() {
        assert(b[v.len() as int] == '\u{1f}');
        assert(a[x.len() + 1 + (v.len() - x.len() - 1)] == y[v.len() - x.len() - 1]);
    } else if v.len() < x.len() {
        assert(a[x.len() as int] == '\u{1f}');
        assert(b[v.len() + 1 + (x.len() - v.len() - 1)] == w[x.len() - v.len() - 1]);
    }
    assert(a.take(x.len() as int) =~= x);
    assert(b.take(v.len() as int) =~= v);
    assert(a.skip(x.len() + 1int) =~= y);
    assert(b.skip(v.len() + 1int) =~= w);
}

proof fn lemma_visibility_names(a: MemoryVisibility, b: MemoryVisibility)
    ensures
        !a.name().contains('\u{1f}'),
        a.name() == b.name() ==> a == b,
{
    reveal_strlit("private");
    reveal_strlit("context_only");
    reveal_strlit("group_members");
    reveal_strlit("public");
    let x = a.name();
    let y = b.name();
    assert(x.len() == y.len() ==> a == b || (x[0] == y[0] ==> a == b) || x[1] != y[1]);
}

proof fn lemma_key_parts(a: MemoryRecord, b: MemoryRecord)
    requires
        consolidation::duplicate_key(a) == consolidation::duplicate_key(b),
        is_separable(a),
        is_separable(b),
    ensures
        consolidation::normalized(a.content@) == consolidation::normalized(b.content@),
        same_meaning(a, b),
{
    reveal(consolidation::duplicate_key);
    let s = "\u{1f}"@;
    let a1 = consolidation::normalized(a.content@);
    let a2 = a1 + s + a.memory_type@;
    let a3 = a2 + s + a.visibility.name();
    let a4 = a3 + s + consolidation::or_empty(a.attribute_key);
    let a5 = a4 + s + consolidation::or_empty(a.relation_subject_id);
    let b1 = consolidation::normalized(b.content@);
    let b2 = b1 + s + b.memory_type@;
    let b3 = b2 + s + b.visibility.name();
    let b4 = b3 + s + consolidation::or_empty(b.attribute_key);
    let b5 = b4 + s + consolidation::or_empty(b.relation_subject_id);
    lemma_visibility_names(a.visibility, b.visibility);
    lemma_visibility_names(b.visibility, a.visibility);
    lemma_last_part(
        a5,
        consolidation::or_empty(a.relation_object_id),
        b5,
        consolidation::or_empty(b.relation_object_id),
    );
    lemma_last_part(
        a4,
        consolidation::or_empty(a.relation_subject_id),
        b4,
        consolidation::or_empty(b.relation_subject_id),
    );
    lemma_last_part(
        a3,
        consolidation::or_empty(a.attribute_key),
        b3,
        consolidation::or_empty(b.attribute_key),
    );
    lemma_last_part(a2, a.visibility.name(), b2, b.visibility.name());
    lemma_last_part(a1, a.memory_type@, b1, b.memory_type@);
}

/// Records count as saying the same only if they have the same words and the same meaning.
pub proof fn duplicates_have_the_same_words(a: MemoryRecord, b: MemoryRecord)
    requires
        consolidation::duplicate_key(a) == consolidation::duplicate_key(b),
        is_separable(a),
        is_separable(b),
    ensures
        same_words(a.content@, b.content@),
        same_meaning(a, b),
{
    lemma_key_parts(a, b);
    let x = text::joined(text::words(a.content@), " "@);
    let y = text::joined(text::words(b.content@), " "@);
    text_laws::words_are_words(a.content@);
    text_laws::words_are_words(b.content@);
    text_laws::joined_words_stay_the_same(text::words(a.content@));
    text_laws::joined_words_stay_the_same(text::words(b.content@));
    assert(is_spaced_form(x, a.content@));
    assert(is_spaced_form(y, b.content@));
}

/// Records with the same words in the same letter case and the same meaning say the same,
/// whatever white space stands between the words.
pub proof fn white_space_makes_no_difference(a: MemoryRecord, b: MemoryRecord)
    requires
        text::words(a.content@) == text::words(b.content@),
        same_meaning(a, b),
    ensures
        consolidation::duplicate_key(a) == consolidation::duplicate_key(b),
{
    reveal(consolidation::duplicate_key);
}

/// Records that differ in nothing but letter case, and that have no white space but single
/// spaces, say the same.
pub proof fn letter_case_makes_no_difference(a: MemoryRecord, b: MemoryRecord)
    requires
        text_laws::is_single_spaced(a.content@),
        text_laws::is_single_spaced(b.content@),
        same_meaning(a, b),
    ensures
        text::lowercase(a.content@) == text::lowercase(b.content@) ==> consolidation::duplicate_key(a)
            == consolidation::duplicate_key(b),
{
    reveal(consolidation::duplicate_key);
    lemma_single_spaced_is_its_form(a.content@);
    lemma_single_spaced_is_its_form(b.content@);
}

proof fn lemma_single_spaced_is_its_form(s: Seq<char>)
    requires
        text_laws::is_single_spaced(s),
    ensures
        text::joined(text::words(s), " "@) == s,
    decreases s.len(),
{
    reveal_strlit(" ");
    if s.len() == 0 {
        assert(text::words(s) =~= Seq::empty());
        assert(text::joined(text::words(s), " "@) =~= s);
    } else {
        let k = lemma_last_word(s);
        let w = s.skip(k);
        assert(text_laws::is_word(w)) by {
            assert(w.len() > 0);
        }
        if k == 0 {
            assert(w =~= s);
            let one = seq![s];
            assert(text::joined(one, " "@) == s);
            text_laws::joined_words_stay_the_same(one);
        } else {
            let a = s.take(k - 1);
            assert(s[k - 1] == ' ');
            assert(s =~= a + seq![' '] + w);
            assert(k - 1 > 0);
            if text::is_space(s[k - 2]) {
                assert(!text::is_space(s[k - 1]));
            }
            assert(a[0] == s[0]);
            assert forall|i: int| 0 <= i < a.len() - 1 && text::is_space(#[trigger] a[i]) implies a[i]
                == ' ' && !text::is_space(a[i + 1]) by {
                assert(a[i] == s[i]);
                assert(a[i + 1] == s[i + 1]);
            }
            lemma_single_spaced_is_its_form(a);
            text_laws::a_word_behind_is_the_last(a, w);
            let ws = text::words(a);
            assert(ws.push(w).drop_last() =~= ws);
            assert(" "@ =~= seq![' ']);
            if ws.len() == 0 {
                assert(a =~= Seq::empty());
            }
            assert(text::joined(ws.push(w), " "@) == text::joined(ws, " "@) + " "@ + w);
        }
    }
}

/// Where the last word of a text starts that does not end in white space.
proof fn lemma_last_word(s: Seq<char>) -> (k: int)
    requires
        s.len() > 0,
        !text::is_space(s[s.len() - 1]),
        forall|i: int| 0 <= i < s.len() - 1 && text::is_space(#[trigger] s[i]) ==> s[i] == ' ' && !text::is_space(
            s[i + 1],
        ),
        !text::is_space(s[0]),
    ensures
        0 <= k < s.len(),
        forall|i: int| k <= i < s.len() ==> !text::is_space(#[trigger] s[i]),
        k > 0 ==> k > 1 && s[k - 1] == ' ',
{
    lemma_last_word_from(s, s.len() - 1)
}

proof fn lemma_last_word_from(s: Seq<char>, n: int) -> (k: int)
    requires
        0 <= n < s.len(),
        forall|i: int| n <= i < s.len() ==> !text::is_space(#[trigger] s[i]),
        forall|i: int| 0 <= i < s.len() - 1 && text::is_space(#[trigger] s[i]) ==> s[i] == ' ' && !text::is_space(
            s[i + 1],
        ),
        !text::is_space(s[0]),
    ensures
        0 <= k < s.len(),
        forall|i: int| k <= i < s.len() ==> !text::is_space(#[trigger] s[i]),
        k > 0 ==> k > 1 && s[k - 1] == ' ',
    decreases n,
{
    if n == 0 {
        0
    } else if text::is_space(s[n - 1]) {
        n
    } else {
        lemma_last_word_from(s, n - 1)
    }
}

/// Whether the first record is kept rather than the second: pinned before not pinned, then
/// what a user confirmed before what was imported, that before old records, those before what
/// was derived, then confirmed before not confirmed, then the later row.
pub open spec fn is_kept_over(a: MemoryRow, b: MemoryRow) -> bool {
    let x = a.record;
    let y = b.record;
    let trust = |t: MemorySourceType|
        if t == MemorySourceType::UserConfirmed {
            3int
        } else if t == MemorySourceType::ManualImport {
            2
        } else if t == MemorySourceType::Legacy {
            1
        } else {
            0
        };
    ||| x.pinned && !y.pinned
    ||| x.pinned == y.pinned && trust(x.source_type) > trust(y.source_type)
    ||| x.pinned == y.pinned && x.source_type == y.source_type && x.last_confirmed_at is Some
        && y.last_confirmed_at is None
    ||| x.pinned == y.pinned && x.source_type == y.source_type && (x.last_confirmed_at is Some) == (
    y.last_confirmed_at is Some) && a.row_id > b.row_id
}

/// The better of two records is kept.
pub proof fn the_better_record_is_kept(a: MemoryRow, b: MemoryRow)
    ensures
        consolidation::outranks(a, b) <==> is_kept_over(a, b),
{
}

/// Whether the second row, which stays as it is, says in the first one's place what that one
/// says.
pub open spec fn is_twin(before: Seq<MemoryRow>, after: Seq<MemoryRow>, k: int, j: int) -> bool {
    let a = before[k].record;
    let b = before[j].record;
    &&& 0 <= j < before.len()
    &&& j != k
    &&& after[j] == before[j]
    &&& b.status == MemoryStatus::Active
    &&& a.scope_type == b.scope_type && a.memory_kind == b.memory_kind
    &&& text::opt_view(a.scope_id) == text::opt_view(b.scope_id)
    &&& text::opt_view(a.subject_id) == text::opt_view(b.subject_id)
    &&& is_kept_over(before[j], before[k])
    &&& is_separable(a) && is_separable(b) ==> same_words(a.content@, b.content@) && same_meaning(a, b)
}

/// A pass archives a record only if another one that stays says the same in the same place,
/// and is the better of the two.
pub proof fn archived_records_have_a_twin(
    s: StoreView,
    target: MemoryTarget,
    limits: ConsolidationLimits,
    now_epoch: i64,
    now: String,
    k: int,
)
    requires
        s.wf(),
        0 <= k < s.rows.len(),
        consolidation::consolidated(s, target, limits, now_epoch, now).0.rows[k] != s.rows[k],
    ensures
        exists|j: int|
            is_twin(
                s.rows,
                consolidation::consolidated(s, target, limits, now_epoch, now).0.rows,
                k,
                j,
            ),
        ({
            let after = consolidation::consolidated(s, target, limits, now_epoch, now).0.rows[k];
            &&& s.rows[k].record.status == MemoryStatus::Active
            &&& after.record.status == MemoryStatus::Archived
            &&& after.record.id == s.rows[k].record.id
            &&& after.record.content == s.rows[k].record.content
            &&& after.row_id == s.rows[k].row_id
        }),
{
    let t = consolidation::consolidated(s, target, limits, now_epoch, now).0;
    let before = consolidation::progress(s.checkpoints, target).row_id;
    let b = consolidation::batch(s.rows, target, before, limits);
    let i = choose|i: int| consolidation::is_duplicate(b, i) && #[trigger] b[i].row_id == s.rows[k].row_id;
    let p = consolidation_laws::lemma_batch_row(s, target, before, limits, i);
    consolidation_laws::lemma_row_ids_differ(s, p, k);
    let m = lemma_kept_twin(b, i);
    let j = consolidation_laws::lemma_batch_row(s, target, before, limits, m);
    if consolidation::dropped_by(b, s.rows[j]) {
        let n = choose|n: int| consolidation::is_duplicate(b, n) && #[trigger] b[n].row_id == s.rows[j].row_id;
        let q = consolidation_laws::lemma_batch_row(s, target, before, limits, n);
        consolidation_laws::lemma_row_ids_differ(s, q, j);
        lemma_batch_is_distinct(s, target, before, limits, n, m);
    }
    the_better_record_is_kept(s.rows[j], s.rows[k]);
    if is_separable(s.rows[k].record) && is_separable(s.rows[j].record) {
        duplicates_have_the_same_words(s.rows[k].record, s.rows[j].record);
    }
    assert(is_twin(s.rows, t.rows, k, j));
}

/// Two places of a batch hold different rows.
proof fn lemma_batch_is_distinct(
    s: StoreView,
    target: MemoryTarget,
    after: int,
    limits: ConsolidationLimits,
    n: int,
    m: int,
)
    requires
        s.wf(),
        0 <= n < consolidation::batch(s.rows, target, after, limits).len(),
        0 <= m < consolidation::batch(s.rows, target, after, limits).len(),
        consolidation::batch(s.rows, target, after, limits)[n].row_id == consolidation::batch(
            s.rows,
            target,
            after,
            limits,
        )[m].row_id,
    ensures
        n == m,
{
    let b = consolidation::batch(s.rows, target, after, limits);
    let new = consolidation::fresh(s.rows, target, after);
    consolidation::lemma_batch_in_rows(s.rows, target, after, limits);
    consolidation_laws::lemma_fresh_sorted(s, target, after, s.rows.len() as int);
    assert(s.rows.take(s.rows.len() as int) =~= s.rows);
    assert(b[n] == new[n] && b[m] == new[m]);
    if n < m {
        assert(new[n].row_id < new[m].row_id);
    } else if m < n {
        assert(new[m].row_id < new[n].row_id);
    }
}

/// A duplicate has a record that says the same, is better, and is no duplicate itself.
proof fn lemma_kept_twin(b: Seq<MemoryRow>, i: int) -> (m: int)
    requires
        consolidation::is_duplicate(b, i),
    ensures
        0 <= m < b.len(),
        m != i,
        !consolidation::is_duplicate(b, m),
        consolidation::duplicate_key(b[m].record) == consolidation::duplicate_key(b[i].record),
        consolidation::outranks(b[m], b[i]),
{
    let m = consolidation_laws::lemma_best_of_group(b, i, b.len() as int);
    let j = choose|j: int| consolidation::supersedes(b, i, j);
    assert(consolidation_laws::says_the_same(b, i, j));
    assert(consolidation_laws::says_the_same(b, i, i));
    assert(!consolidation::outranks(b[j], b[m]));
    if consolidation::is_duplicate(b, m) {
        let n = choose|n: int| consolidation::supersedes(b, m, n);
        assert(consolidation_laws::says_the_same(b, i, n));
    }
    the_better_record_is_kept(b[m], b[i]);
    the_better_record_is_kept(b[i], b[m]);
    the_better_record_is_kept(b[j], b[i]);
    the_better_record_is_kept(b[j], b[m]);
    m
}

/// A pass that looks at two active records of its target with the same words and the same
/// meaning does not leave both.
pub proof fn repeated_records_do_not_both_stay(
    s: StoreView,
    target: MemoryTarget,
    limits: ConsolidationLimits,
    now_epoch: i64,
    now: String,
    i: int,
    j: int,
)
    requires
        s.wf(),
        consolidation::is_due(s, target, limits, now_epoch),
        0 <= i < j < s.rows.len(),
        ({
            let b = consolidation::batch(
                s.rows,
                target,
                consolidation::progress(s.checkpoints, target).row_id,
                limits,
            );
            b.contains(s.rows[i]) && b.contains(s.rows[j])
        }),
        text::words(s.rows[i].record.content@) == text::words(s.rows[j].record.content@),
        same_meaning(s.rows[i].record, s.rows[j].record),
    ensures
        ({
            let after = consolidation::consolidated(s, target, limits, now_epoch, now).0.rows;
            after[i].record.status == MemoryStatus::Archived || after[j].record.status
                == MemoryStatus::Archived
        }),
{
    let b = consolidation::batch(
        s.rows,
        target,
        consolidation::progress(s.checkpoints, target).row_id,
        limits,
    );
    let x = choose|x: int| 0 <= x < b.len() && b[x] == s.rows[i];
    let y = choose|y: int| 0 <= y < b.len() && b[y] == s.rows[j];
    white_space_makes_no_difference(s.rows[i].record, s.rows[j].record);
    consolidation_laws::duplicates_do_not_both_stay(s, target, limits, now_epoch, x, y);
}

} // verus!
