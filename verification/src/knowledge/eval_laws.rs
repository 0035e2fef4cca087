//! What an evaluation measures: which sets it takes, what counts as found, and what the numbers
//! say.
use vstd::prelude::*;
use vstd::string::*;

use crate::knowledge::eval;
use crate::knowledge::eval::{
    KnowledgeEvalCase, KnowledgeEvalCaseResult, KnowledgeEvalDataset, KnowledgeEvalDocument, PathPart,
    PathReading,
};
use crate::knowledge::evidence::{KnowledgeEvidence, KnowledgeEvidenceStatus};
use crate::text;

verus! {

// Sets.

/// What a set has to be.
pub open spec fn is_sound(dataset: KnowledgeEvalDataset, readings: Seq<PathReading>) -> bool {
    let documents = dataset.documents@;
    let cases = dataset.cases@;
    &&& dataset.version > 0 && documents.len() > 0 && cases.len() > 0
    &&& forall|i: int|
        0 <= i < documents.len() ==> text::ends_with((#[trigger] documents[i]).path@, ".md"@) && stays_below(
            documents[i].path@,
            readings,
        )
    &&& forall|i: int, k: int|
        0 <= k < i < documents.len() ==> (#[trigger] documents[k]).path@ != (#[trigger] documents[i]).path@
    &&& forall|i: int|
        0 <= i < cases.len() ==> text::trimmed((#[trigger] cases[i]).id@).len() > 0 && text::trimmed(
            cases[i].query@,
        ).len() > 0 && !(cases[i].expect_no_hit && cases[i].expected_sources@.len() > 0)
    &&& forall|i: int, k: int|
        0 <= k < i < cases.len() ==> (#[trigger] cases[k]).id@ != (#[trigger] cases[i]).id@
    &&& forall|i: int, k: int|
        0 <= i < cases.len() && 0 <= k < cases[i].expected_sources@.len() ==> is_note(
            documents,
            (#[trigger] cases[i].expected_sources@[k])@,
        )
}

/// Whether one of the notes has the path.
pub open spec fn is_note(documents: Seq<KnowledgeEvalDocument>, path: Seq<char>) -> bool {
    exists|d: int| 0 <= d < documents.len() && (#[trigger] documents[d]).path@ == path
}

/// Whether the path was read as one that never leaves the directory.
pub open spec fn stays_below(path: Seq<char>, readings: Seq<PathReading>) -> bool {
    exists|k: int|
        {
            &&& 0 <= k < readings.len()
            &&& (#[trigger] readings[k]).path@ == path
            &&& forall|j: int| 0 <= j < k ==> (#[trigger] readings[j]).path@ != path
            &&& !readings[k].absolute
            &&& forall|i: int|
                0 <= i < readings[k].parts@.len() ==> (#[trigger] readings[k].parts@[i]) != PathPart::Parent
                    && readings[k].parts@[i] != PathPart::Root
        }
}

proof fn lemma_reading(readings: Seq<PathReading>, path: Seq<char>)
    ensures
        match eval::reading_in(readings, path) {
            Some(r) => exists|k: int|
                {
                    &&& 0 <= k < readings.len()
                    &&& #[trigger] readings[k] == r
                    &&& r.path@ == path
                    &&& forall|j: int| 0 <= j < k ==> (#[trigger] readings[j]).path@ != path
                },
            None => forall|k: int| 0 <= k < readings.len() ==> (#[trigger] readings[k]).path@ != path,
        },
    decreases readings.len(),
{
    if readings.len() > 0 {
        if readings[0].path@ == path {
            assert(readings[0] == eval::reading_in(readings, path)->0);
        } else {
            let rest = readings.skip(1);
            lemma_reading(rest, path);
            match eval::reading_in(rest, path) {
                Some(r) => {
                    let k = choose|k: int|
                        {
                            &&& 0 <= k < rest.len()
                            &&& #[trigger] rest[k] == r
                            &&& r.path@ == path
                            &&& forall|j: int| 0 <= j < k ==> (#[trigger] rest[j]).path@ != path
                        };
                    assert(readings[k + 1] == r);
                    assert forall|j: int| 0 <= j < k + 1 implies (#[trigger] readings[j]).path@ != path by {
                        if j > 0 {
                            assert(rest[j - 1] == readings[j]);
                        }
                    }
                },
                None => {
                    assert forall|k: int| 0 <= k < readings.len() implies (#[trigger] readings[k]).path@ != path by {
                        if k > 0 {
                            assert(rest[k - 1] == readings[k]);
                        }
                    }
                },
            }
        }
    }
}

proof fn lemma_safe(path: Seq<char>, readings: Seq<PathReading>)
    ensures
        eval::is_safe_path(path, readings) <==> stays_below(path, readings) && text::ends_with(path, ".md"@),
{
    lemma_reading(readings, path);
    reveal_strlit(".md");
    if text::ends_with(path, ".md"@) {
        let n = path.len() - 3;
        assert(path.subrange(n, n + 3)[0] == '.');
        assert(path[n] == '.');
        if text::blank(path) {
            let r = crate::text_laws::trimming_takes_white_space_only(path);
            assert(text::trimmed(path) == path.subrange(r.0, r.1));
            assert(text::is_space(path[n]));
        }
    }
    if stays_below(path, readings) {
        let k = choose|k: int|
            {
                &&& 0 <= k < readings.len()
                &&& (#[trigger] readings[k]).path@ == path
                &&& forall|j: int| 0 <= j < k ==> (#[trigger] readings[j]).path@ != path
                &&& !readings[k].absolute
                &&& forall|i: int|
                    0 <= i < readings[k].parts@.len() ==> (#[trigger] readings[k].parts@[i]) != PathPart::Parent
                        && readings[k].parts@[i] != PathPart::Root
            };
        assert(eval::reading_in(readings, path) is Some);
        let r = eval::reading_in(readings, path)->0;
        let m = choose|m: int|
            {
                &&& 0 <= m < readings.len()
                &&& #[trigger] readings[m] == r
                &&& r.path@ == path
                &&& forall|j: int| 0 <= j < m ==> (#[trigger] readings[j]).path@ != path
            };
        if m < k {
            assert(readings[m].path@ != path);
        }
        if k < m {
            assert(readings[k].path@ != path);
        }
    }
    if eval::is_safe_path(path, readings) {
        let r = eval::reading_in(readings, path)->0;
        let m = choose|m: int|
            {
                &&& 0 <= m < readings.len()
                &&& #[trigger] readings[m] == r
                &&& r.path@ == path
                &&& forall|j: int| 0 <= j < m ==> (#[trigger] readings[j]).path@ != path
            };
        assert forall|i: int| 0 <= i < readings[m].parts@.len() implies (#[trigger] readings[m].parts@[i])
            != PathPart::Parent && readings[m].parts@[i] != PathPart::Root by {
            assert(!eval::climbs(r.parts@[i]));
        }
    }
}

proof fn lemma_all_fit_documents(dataset: KnowledgeEvalDataset, readings: Seq<PathReading>, n: int)
    requires
        0 <= n <= dataset.documents@.len(),
        forall|i: int| !eval::first_unfit_document(dataset.documents@, readings, i),
    ensures
        forall|i: int| 0 <= i < n ==> eval::is_fit_document(dataset.documents@, readings, i),
    decreases n,
{
    if n > 0 {
        lemma_all_fit_documents(dataset, readings, n - 1);
        assert(!eval::first_unfit_document(dataset.documents@, readings, n - 1));
    }
}

proof fn lemma_all_fit_cases(dataset: KnowledgeEvalDataset, n: int)
    requires
        0 <= n <= dataset.cases@.len(),
        forall|i: int| !eval::first_unfit_case(dataset, i),
    ensures
        forall|i: int| 0 <= i < n ==> eval::is_fit_case(dataset, i),
    decreases n,
{
    if n > 0 {
        lemma_all_fit_cases(dataset, n - 1);
        assert(!eval::first_unfit_case(dataset, n - 1));
    }
}

/// A set that is taken is sound: its notes have paths of their own that stay below the
/// directory, its questions have names of their own, and every expected source is a note.
pub proof fn taken_sets_are_sound(r: Result<(), String>, dataset: KnowledgeEvalDataset, readings: Seq<PathReading>)
    requires
        eval::is_verdict(r, dataset, readings),
        r is Ok,
    ensures
        is_sound(dataset, readings),
{
    let documents = dataset.documents@;
    let cases = dataset.cases@;
    lemma_all_fit_documents(dataset, readings, documents.len() as int);
    lemma_all_fit_cases(dataset, cases.len() as int);
    assert forall|i: int| 0 <= i < documents.len() implies text::ends_with((#[trigger] documents[i]).path@, ".md"@)
        && stays_below(documents[i].path@, readings) by {
        assert(eval::is_fit_document(documents, readings, i));
        lemma_safe(documents[i].path@, readings);
    }
    assert forall|i: int, k: int| 0 <= k < i < documents.len() implies (#[trigger] documents[k]).path@ != (
    #[trigger] documents[i]).path@ by {
        assert(eval::is_fit_document(documents, readings, i));
        let before = eval::paths(documents).take(i);
        assert(before[k] == documents[k].path@);
    }
    assert forall|i: int| 0 <= i < cases.len() implies text::trimmed((#[trigger] cases[i]).id@).len() > 0
        && text::trimmed(cases[i].query@).len() > 0 && !(cases[i].expect_no_hit
        && cases[i].expected_sources@.len() > 0) by {
        assert(eval::is_fit_case(dataset, i));
    }
    assert forall|i: int, k: int| 0 <= k < i < cases.len() implies (#[trigger] cases[k]).id@ != (
    #[trigger] cases[i]).id@ by {
        assert(eval::is_fit_case(dataset, i));
        let before = eval::ids(cases).take(i);
        assert(before[k] == cases[k].id@);
    }
    assert forall|i: int, k: int| 0 <= i < cases.len() && 0 <= k < cases[i].expected_sources@.len() implies is_note(
        documents,
        (#[trigger] cases[i].expected_sources@[k])@,
    ) by {
        assert(eval::is_fit_case(dataset, i));
        let wanted = cases[i].expected_sources@[k]@;
        let all = eval::paths(documents);
        assert(all.contains(wanted));
        let d = choose|d: int| 0 <= d < all.len() && all[d] == wanted;
        assert(documents[d].path@ == wanted);
    }
}

/// A sound set is taken.
pub proof fn sound_sets_are_taken(r: Result<(), String>, dataset: KnowledgeEvalDataset, readings: Seq<PathReading>)
    requires
        eval::is_verdict(r, dataset, readings),
        is_sound(dataset, readings),
    ensures
        r is Ok,
{
    let documents = dataset.documents@;
    let cases = dataset.cases@;
    assert forall|i: int| 0 <= i < documents.len() implies eval::is_fit_document(documents, readings, i) by {
        assert(text::ends_with(documents[i].path@, ".md"@));
        lemma_safe(documents[i].path@, readings);
        let before = eval::paths(documents).take(i);
        if before.contains(documents[i].path@) {
            let k = choose|k: int| 0 <= k < before.len() && before[k] == documents[i].path@;
            assert(documents[k].path@ == documents[i].path@);
        }
    }
    assert forall|i: int| 0 <= i < cases.len() implies eval::is_fit_case(dataset, i) by {
        assert(text::trimmed(cases[i].id@).len() > 0);
        let before = eval::ids(cases).take(i);
        if before.contains(cases[i].id@) {
            let k = choose|k: int| 0 <= k < before.len() && before[k] == cases[i].id@;
            assert(cases[k].id@ == cases[i].id@);
        }
        let all = eval::paths(documents);
        assert forall|k: int| 0 <= k < cases[i].expected_sources@.len() implies all.contains(
            #[trigger] cases[i].expected_sources@[k]@,
        ) by {
            let wanted = cases[i].expected_sources@[k]@;
            assert(is_note(documents, wanted));
            let d = choose|d: int| 0 <= d < documents.len() && (#[trigger] documents[d]).path@ == wanted;
            assert(all[d] == wanted);
        }
    }
}

// Results.

/// A source counts as found exactly if one of the items is from it.
pub proof fn sources_are_found_among_items(
    r: KnowledgeEvalCaseResult,
    case: KnowledgeEvalCase,
    e: KnowledgeEvidence,
)
    requires
        eval::is_case_result(r, case, e),
    ensures
        r.matched_sources <= case.expected_sources@.len(),
        (forall|k: int|
            0 <= k < case.expected_sources@.len() ==> is_among((#[trigger] case.expected_sources@[k])@, e))
            ==> r.matched_sources == case.expected_sources@.len(),
        (forall|k: int|
            0 <= k < case.expected_sources@.len() ==> !is_among((#[trigger] case.expected_sources@[k])@, e))
            ==> r.matched_sources == 0,
        (exists|k: int|
            0 <= k < case.expected_sources@.len() && is_among((#[trigger] case.expected_sources@[k])@, e))
            ==> r.matched_sources > 0,
        !case.expect_no_hit ==> r.no_evidence_correct is None,
        case.expect_no_hit ==> r.no_evidence_correct == Some(
            e.items@.len() == 0 && e.status == KnowledgeEvidenceStatus::NoHit,
        ),
        r.latency_ms == e.diagnostics.latency_ms,
        r.status == e.status,
        r.id == case.id,
{
    let expected = text::views(case.expected_sources@);
    let found = text::views(r.retrieved_sources@);
    let paths = crate::knowledge::evidence::item_paths(e.items@);
    assert forall|t: Seq<char>| found.contains(t) == #[trigger] is_among(t, e) by {
        assert(found.contains(t) <==> paths.contains(t));
        if paths.contains(t) {
            let i = choose|i: int| 0 <= i < paths.len() && paths[i] == t;
            assert(e.items@[i].relative_path@ == t);
        }
        if is_among(t, e) {
            let i = choose|i: int| 0 <= i < e.items@.len() && (#[trigger] e.items@[i]).relative_path@ == t;
            assert(paths[i] == t);
        }
    }
    assert forall|k: int| 0 <= k < expected.len() implies #[trigger] expected[k] == case.expected_sources@[k]@ by {}
    lemma_found(expected, found);
    if exists|k: int|
        0 <= k < case.expected_sources@.len() && is_among((#[trigger] case.expected_sources@[k])@, e) {
        let k = choose|k: int|
            0 <= k < case.expected_sources@.len() && is_among((#[trigger] case.expected_sources@[k])@, e);
        assert(found.contains(expected[k]));
    }
}

/// Whether one of the items is from the note.
pub open spec fn is_among(path: Seq<char>, e: KnowledgeEvidence) -> bool {
    exists|i: int| 0 <= i < e.items@.len() && (#[trigger] e.items@[i]).relative_path@ == path
}

proof fn lemma_found(expected: Seq<Seq<char>>, found: Seq<Seq<char>>)
    ensures
        eval::found_count(expected, found) <= expected.len(),
        (forall|k: int| 0 <= k < expected.len() ==> found.contains(#[trigger] expected[k])) ==> eval::found_count(
            expected,
            found,
        ) == expected.len(),
        (forall|k: int| 0 <= k < expected.len() ==> !found.contains(#[trigger] expected[k])) ==> eval::found_count(
            expected,
            found,
        ) == 0,
        (exists|k: int| 0 <= k < expected.len() && found.contains(#[trigger] expected[k])) ==> eval::found_count(
            expected,
            found,
        ) > 0,
    decreases expected.len(),
{
    if expected.len() > 0 {
        let front = expected.drop_last();
        lemma_found(front, found);
        assert(expected.last() == expected[expected.len() - 1]);
        assert forall|k: int| 0 <= k < front.len() implies #[trigger] front[k] == expected[k] by {}
        if exists|k: int| 0 <= k < expected.len() && found.contains(#[trigger] expected[k]) {
            let k = choose|k: int| 0 <= k < expected.len() && found.contains(#[trigger] expected[k]);
            if k < front.len() {
                assert(found.contains(front[k]));
            }
        }
    }
}

// Numbers.

/// Each result counts once under everything that holds of it, and under nothing else.
pub proof fn each_result_counts_once(cases: Seq<KnowledgeEvalCaseResult>, c: KnowledgeEvalCaseResult)
    requires
        cases.len() < usize::MAX,
    ensures
        ({
            let a = eval::tally(cases);
            let b = eval::tally(cases.push(c));
            &&& b.evidence_cases == a.evidence_cases + if c.expected_sources@.len() > 0 {
                1int
            } else {
                0
            }
            &&& b.hit_cases == a.hit_cases + if c.expected_sources@.len() > 0 && c.matched_sources > 0 {
                1int
            } else {
                0
            }
            &&& b.no_hit_cases == a.no_hit_cases + if c.no_evidence_correct is Some {
                1int
            } else {
                0
            }
            &&& b.correct_no_hit_cases == a.correct_no_hit_cases + if c.no_evidence_correct == Some(true) {
                1int
            } else {
                0
            }
            &&& b.injected_no_hit_cases == a.injected_no_hit_cases + if c.no_evidence_correct is Some
                && c.retrieved_sources@.len() > 0 {
                1int
            } else {
                0
            }
            &&& b.truncated_cases == a.truncated_cases + if c.status == KnowledgeEvidenceStatus::Truncated {
                1int
            } else {
                0
            }
        }),
        eval::tally(Seq::empty()).evidence_cases == 0,
        eval::tally(Seq::empty()).hit_cases == 0,
        eval::tally(Seq::empty()).no_hit_cases == 0,
        eval::tally(Seq::empty()).correct_no_hit_cases == 0,
        eval::tally(Seq::empty()).injected_no_hit_cases == 0,
        eval::tally(Seq::empty()).truncated_cases == 0,
{
    assert(cases.push(c).drop_last() =~= cases);
    lemma_bounded(cases);
}

proof fn lemma_bounded(cases: Seq<KnowledgeEvalCaseResult>)
    requires
        cases.len() <= usize::MAX,
    ensures
        ({
            let t = eval::tally(cases);
            let n = cases.len();
            t.evidence_cases <= n && t.hit_cases <= n && t.no_hit_cases <= n && t.correct_no_hit_cases <= n
                && t.injected_no_hit_cases <= n && t.truncated_cases <= n
        }),
    decreases cases.len(),
{
    if cases.len() > 0 {
        lemma_bounded(cases.drop_last());
    }
}

/// A percentile is the first value that as many percent of the values do not go beyond.
pub proof fn percentiles_cover_their_share(n: int, percent: int)
    requires
        n > 0,
        1 <= percent <= 100,
    ensures
        ({
            let at = eval::percentile_place(n, percent);
            &&& 0 <= at < n
            &&& (at + 1) * 100 >= n * percent
            &&& at * 100 < n * percent
        }),
{
    let x = n * percent;
    assert(n <= x <= n * 100) by (nonlinear_arith)
        requires
            n > 0,
            1 <= percent <= 100,
            x == n * percent,
    ;
    let up = (x + 99) / 100;
    assert(up * 100 >= x && (up - 1) * 100 < x);
}

} // verus!
