//! Measuring the search: a set of notes and questions, what was found for each question, and
//! what that adds up to.
use vstd::prelude::*;
use vstd::seq_lib::*;
use vstd::string::*;

use crate::knowledge::evidence::{KnowledgeEvidence, KnowledgeEvidenceStatus};
use crate::knowledge::evidence;
use crate::knowledge::terms;
use crate::text;

verus! {

#[derive(Debug)]
pub struct KnowledgeEvalDataset {
    pub version: u32,
    pub documents: Vec<KnowledgeEvalDocument>,
    pub cases: Vec<KnowledgeEvalCase>,
}

#[derive(Debug)]
pub struct KnowledgeEvalDocument {
    pub path: String,
    pub content: String,
}

#[derive(Debug)]
pub struct KnowledgeEvalCase {
    pub id: String,
    pub category: String,
    pub query: String,
    pub expected_sources: Vec<String>,
    pub expect_no_hit: bool,
}

// Valid sets.

/// A part of a path, as the machine reads it.
#[derive(Debug, Clone, Copy, PartialEq, Eq, Structural)]
pub enum PathPart {
    Prefix,
    Root,
    Current,
    Parent,
    Named,
}

/// How the machine reads a path.
#[derive(Debug)]
pub struct PathReading {
    pub path: String,
    pub absolute: bool,
    pub parts: Vec<PathPart>,
}

/// The reading of the path, if it was read.
pub open spec fn reading_in(readings: Seq<PathReading>, path: Seq<char>) -> Option<PathReading>
    decreases readings.len(),
{
    if readings.len() == 0 {
        None
    } else if readings[0].path@ == path {
        Some(readings[0])
    } else {
        reading_in(readings.skip(1), path)
    }
}

pub open spec fn climbs(part: PathPart) -> bool {
    part == PathPart::Parent || part == PathPart::Root
}

/// Whether a path stays below the directory and is that of a note. One that was not read does
/// not count as such.
pub open spec fn is_safe_path(path: Seq<char>, readings: Seq<PathReading>) -> bool {
    &&& reading_in(readings, path) matches Some(reading) && !reading.absolute && forall|i: int|
        0 <= i < reading.parts@.len() ==> !climbs(#[trigger] reading.parts@[i])
    &&& !text::blank(path)
    &&& text::ends_with(path, ".md"@)
}

fn find_reading<'a>(readings: &'a Vec<PathReading>, path: &str) -> (r: Option<&'a PathReading>)
    ensures
        match reading_in(readings@, path@) {
            Some(reading) => r == Some(&reading),
            None => r is None,
        },
{
    let mut i: usize = 0;
    assert(readings@.skip(0) =~= readings@);
    while i < readings.len()
        invariant
            0 <= i <= readings@.len(),
            reading_in(readings@.skip(i as int), path@) == reading_in(readings@, path@),
        decreases readings@.len() - i,
    {
        assert(readings@.skip(i as int)[0] == readings@[i as int]);
        assert(readings@.skip(i as int).skip(1) =~= readings@.skip(i + 1));
        if text::same(readings[i].path.as_str(), path) {
            return Some(&readings[i]);
        }
        i += 1;
    }
    None
}

fn is_safe(path: &str, readings: &Vec<PathReading>) -> (r: bool)
    ensures
        r == is_safe_path(path@, readings@),
{
    if text::is_blank(path) || !text::has_suffix(path, ".md") {
        return false;
    }
    let reading = match find_reading(readings, path) {
        Some(reading) => reading,
        None => {
            return false;
        },
    };
    if reading.absolute {
        return false;
    }
    let mut i: usize = 0;
    while i < reading.parts.len()
        invariant
            0 <= i <= reading.parts@.len(),
            reading_in(readings@, path@) == Some(*reading),
            forall|k: int| 0 <= k < i ==> !climbs(#[trigger] reading.parts@[k]),
        decreases reading.parts@.len() - i,
    {
        let part = reading.parts[i];
        if part == PathPart::Parent || part == PathPart::Root {
            assert(climbs(reading.parts@[i as int]));
            return false;
        }
        i += 1;
    }
    true
}

pub open spec fn paths(documents: Seq<KnowledgeEvalDocument>) -> Seq<Seq<char>> {
    Seq::new(documents.len(), |i: int| documents[i].path@)
}

pub open spec fn ids(cases: Seq<KnowledgeEvalCase>) -> Seq<Seq<char>> {
    Seq::new(cases.len(), |i: int| cases[i].id@)
}

/// Whether the note at `i` is fit: a safe path that no earlier note has.
pub open spec fn is_fit_document(
    documents: Seq<KnowledgeEvalDocument>,
    readings: Seq<PathReading>,
    i: int,
) -> bool {
    is_safe_path(documents[i].path@, readings) && !paths(documents).take(i).contains(documents[i].path@)
}

/// Whether the question at `i` is fit: a name that no earlier one has, something to ask, and
/// sources that are there unless none is to be found.
pub open spec fn is_fit_case(dataset: KnowledgeEvalDataset, i: int) -> bool {
    let case = dataset.cases@[i];
    &&& !text::blank(case.id@)
    &&& !text::blank(case.query@)
    &&& !ids(dataset.cases@).take(i).contains(case.id@)
    &&& !(case.expect_no_hit && case.expected_sources@.len() > 0)
    &&& forall|k: int|
        0 <= k < case.expected_sources@.len() ==> paths(dataset.documents@).contains(
            #[trigger] case.expected_sources@[k]@,
        )
}

pub open spec fn has_all(dataset: KnowledgeEvalDataset) -> bool {
    dataset.version != 0 && dataset.documents@.len() > 0 && dataset.cases@.len() > 0
}

pub open spec fn first_unfit_document(
    documents: Seq<KnowledgeEvalDocument>,
    readings: Seq<PathReading>,
    i: int,
) -> bool {
    &&& 0 <= i < documents.len()
    &&& !is_fit_document(documents, readings, i)
    &&& forall|k: int| 0 <= k < i ==> is_fit_document(documents, readings, k)
}

pub open spec fn first_unfit_case(dataset: KnowledgeEvalDataset, i: int) -> bool {
    &&& 0 <= i < dataset.cases@.len()
    &&& !is_fit_case(dataset, i)
    &&& forall|k: int| 0 <= k < i ==> is_fit_case(dataset, k)
}

/// What is wrong with a set, if anything: parts that are missing, then the first unfit note,
/// then the first unfit question.
pub open spec fn is_verdict(
    r: Result<(), String>,
    dataset: KnowledgeEvalDataset,
    readings: Seq<PathReading>,
) -> bool {
    if !has_all(dataset) {
        r matches Err(m) && m@ == "knowledge eval dataset requires a version, documents, and cases"@
    } else if exists|i: int| first_unfit_document(dataset.documents@, readings, i) {
        r matches Err(m) && exists|i: int|
            first_unfit_document(dataset.documents@, readings, i) && m@
                == "unsafe or duplicate eval document path: "@ + dataset.documents@[i].path@
    } else if exists|i: int| first_unfit_case(dataset, i) {
        r matches Err(m) && exists|i: int|
            first_unfit_case(dataset, i) && m@ == "invalid knowledge eval case: "@
                + dataset.cases@[i].id@
    } else {
        r is Ok
    }
}

fn check_case(case: &KnowledgeEvalCase, earlier: &Vec<String>, known: &Vec<String>) -> (r: bool)
    ensures
        r == (!text::blank(case.id@) && !text::blank(case.query@) && !text::views(
            earlier@,
        ).contains(case.id@) && !(case.expect_no_hit && case.expected_sources@.len() > 0)
            && forall|k: int|
            0 <= k < case.expected_sources@.len() ==> text::views(known@).contains(
                #[trigger] case.expected_sources@[k]@,
            )),
{
    if text::is_blank(case.id.as_str()) || text::is_blank(case.query.as_str()) || terms::holds(
        earlier,
        &case.id,
    ) || (case.expect_no_hit && case.expected_sources.len() > 0) {
        return false;
    }
    let mut i: usize = 0;
    while i < case.expected_sources.len()
        invariant
            0 <= i <= case.expected_sources@.len(),
            forall|k: int|
                0 <= k < i ==> text::views(known@).contains(
                    #[trigger] case.expected_sources@[k]@,
                ),
        decreases case.expected_sources@.len() - i,
    {
        if !terms::holds(known, &case.expected_sources[i]) {
            assert(!text::views(known@).contains(case.expected_sources@[i as int]@));
            return false;
        }
        i += 1;
    }
    true
}

/// Checks a set whose paths the machine reads in this way.
pub fn validate_dataset(dataset: &KnowledgeEvalDataset, readings: &Vec<PathReading>) -> (r: Result<
    (),
    String,
>)
    ensures
        is_verdict(r, *dataset, readings@),
{
    if dataset.version == 0 || dataset.documents.len() == 0 || dataset.cases.len() == 0 {
        return Err(
            "knowledge eval dataset requires a version, documents, and cases".to_owned(),
        );
    }
    let ghost documents = dataset.documents@;
    let mut known: Vec<String> = Vec::new();
    let mut i: usize = 0;
    assert(text::views(known@) =~= paths(documents).take(0));
    while i < dataset.documents.len()
        invariant
            0 <= i <= dataset.documents@.len(),
            documents == dataset.documents@,
            has_all(*dataset),
            text::views(known@) == paths(documents).take(i as int),
            forall|k: int| 0 <= k < i ==> is_fit_document(documents, readings@, k),
        decreases dataset.documents@.len() - i,
    {
        let path = &dataset.documents[i].path;
        if !is_safe(path.as_str(), readings) || terms::holds(&known, path) {
            assert(first_unfit_document(documents, readings@, i as int));
            let mut m = "unsafe or duplicate eval document path: ".to_owned();
            m.append(path.as_str());
            return Err(m);
        }
        let ghost before = text::views(known@);
        known.push(path.clone());
        proof {
            assert(text::views(known@) =~= before.push(path@));
            assert(text::views(known@) =~= paths(documents).take(i + 1));
        }
        i += 1;
    }
    proof {
        assert(paths(documents).take(i as int) =~= paths(documents));
        assert forall|k: int| !first_unfit_document(documents, readings@, k) by {}
    }
    let ghost cases = dataset.cases@;
    let mut earlier: Vec<String> = Vec::new();
    let mut j: usize = 0;
    assert(text::views(earlier@) =~= ids(cases).take(0));
    while j < dataset.cases.len()
        invariant
            0 <= j <= dataset.cases@.len(),
            documents == dataset.documents@,
            cases == dataset.cases@,
            has_all(*dataset),
            text::views(known@) == paths(documents),
            text::views(earlier@) == ids(cases).take(j as int),
            forall|k: int| !first_unfit_document(documents, readings@, k),
            forall|k: int| 0 <= k < j ==> is_fit_case(*dataset, k),
        decreases dataset.cases@.len() - j,
    {
        let case = &dataset.cases[j];
        if !check_case(case, &earlier, &known) {
            assert(first_unfit_case(*dataset, j as int));
            let mut m = "invalid knowledge eval case: ".to_owned();
            m.append(case.id.as_str());
            return Err(m);
        }
        let ghost before = text::views(earlier@);
        earlier.push(case.id.clone());
        proof {
            assert(text::views(earlier@) =~= before.push(case.id@));
            assert(text::views(earlier@) =~= ids(cases).take(j + 1));
        }
        j += 1;
    }
    assert forall|k: int| !first_unfit_case(*dataset, k) by {}
    Ok(())
}

// Results.

/// What was found for a question.
#[derive(Debug)]
pub struct KnowledgeEvalCaseResult {
    pub id: String,
    pub category: String,
    pub status: KnowledgeEvidenceStatus,
    pub expected_sources: Vec<String>,
    pub retrieved_sources: Vec<String>,
    /// The number of expected sources that were found.
    pub matched_sources: usize,
    pub no_evidence_correct: Option<bool>,
    pub latency_ms: u64,
}

pub open spec fn found_count(expected: Seq<Seq<char>>, found: Seq<Seq<char>>) -> nat
    decreases expected.len(),
{
    if expected.len() == 0 {
        0
    } else {
        found_count(expected.drop_last(), found) + if found.contains(expected.last()) {
            1nat
        } else {
            0
        }
    }
}

/// Whether the result tells what the evidence is worth for the question.
pub open spec fn is_case_result(r: KnowledgeEvalCaseResult, case: KnowledgeEvalCase, e: KnowledgeEvidence) -> bool {
    &&& r.id == case.id
    &&& r.category == case.category
    &&& r.status == e.status
    &&& text::views(r.expected_sources@) == text::views(case.expected_sources@)
    &&& terms::is_sorted_set(text::views(r.retrieved_sources@), evidence::item_paths(e.items@))
    &&& r.matched_sources == found_count(
        text::views(case.expected_sources@),
        text::views(r.retrieved_sources@),
    )
    &&& r.no_evidence_correct == (if case.expect_no_hit {
        Some(e.items@.len() == 0 && e.status == KnowledgeEvidenceStatus::NoHit)
    } else {
        None
    })
    &&& r.latency_ms == e.diagnostics.latency_ms
}

pub fn case_result(case: &KnowledgeEvalCase, e: &KnowledgeEvidence) -> (r: KnowledgeEvalCaseResult)
    ensures
        is_case_result(r, *case, *e),
{
    let mut found: Vec<String> = Vec::new();
    let mut i: usize = 0;
    while i < e.items.len()
        invariant
            0 <= i <= e.items@.len(),
            found@.len() == i,
            forall|k: int| 0 <= k < i ==> (#[trigger] found@[k])@ == e.items@[k].relative_path@,
        decreases e.items@.len() - i,
    {
        found.push(e.items[i].relative_path.clone());
        i += 1;
    }
    assert(text::views(found@) =~= evidence::item_paths(e.items@));
    let retrieved = terms::sort_and_dedup(&found);
    let ghost asked = text::views(case.expected_sources@);
    let mut expected: Vec<String> = Vec::new();
    let mut matched: usize = 0;
    let mut j: usize = 0;
    proof {
        assert(asked.take(0) =~= Seq::empty());
        assert(text::views(expected@) =~= asked.take(0));
    }
    while j < case.expected_sources.len()
        invariant
            0 <= j <= case.expected_sources@.len(),
            asked == text::views(case.expected_sources@),
            text::views(expected@) == asked.take(j as int),
            matched <= j,
            matched == found_count(asked.take(j as int), text::views(retrieved@)),
        decreases case.expected_sources@.len() - j,
    {
        let ghost before = text::views(expected@);
        proof {
            assert(asked.take(j + 1).drop_last() =~= asked.take(j as int));
            assert(asked.take(j + 1).last() == case.expected_sources@[j as int]@);
        }
        if terms::holds(&retrieved, &case.expected_sources[j]) {
            matched = matched + 1;
        }
        expected.push(case.expected_sources[j].clone());
        proof {
            assert(text::views(expected@) =~= before.push(case.expected_sources@[j as int]@));
            assert(text::views(expected@) =~= asked.take(j + 1));
        }
        j += 1;
    }
    assert(asked.take(j as int) =~= asked);
    let no_evidence_correct = if case.expect_no_hit {
        Some(e.items.len() == 0 && e.status == KnowledgeEvidenceStatus::NoHit)
    } else {
        None
    };
    KnowledgeEvalCaseResult {
        id: case.id.clone(),
        category: case.category.clone(),
        status: e.status,
        expected_sources: expected,
        retrieved_sources: retrieved,
        matched_sources: matched,
        no_evidence_correct,
        latency_ms: e.diagnostics.latency_ms,
    }
}

// Sums.

/// The numbers of which the shares in a report are made.
#[derive(Debug, Clone, Copy, PartialEq, Eq, Structural)]
pub struct EvalTally {
    /// Questions with expected sources, and those of them for which one was found.
    pub evidence_cases: usize,
    pub hit_cases: usize,
    /// Questions for which nothing is to be found, those that were answered so, and those
    /// for which something was shown.
    pub no_hit_cases: usize,
    pub correct_no_hit_cases: usize,
    pub injected_no_hit_cases: usize,
    pub truncated_cases: usize,
}

pub open spec fn one_if(b: bool) -> usize {
    if b {
        1
    } else {
        0
    }
}

/// What one result adds.
pub open spec fn tally_of(c: KnowledgeEvalCaseResult) -> EvalTally {
    EvalTally {
        evidence_cases: one_if(c.expected_sources@.len() > 0),
        hit_cases: one_if(c.expected_sources@.len() > 0 && c.matched_sources > 0),
        no_hit_cases: one_if(c.no_evidence_correct is Some),
        correct_no_hit_cases: one_if(c.no_evidence_correct == Some(true)),
        injected_no_hit_cases: one_if(
            c.no_evidence_correct is Some && c.retrieved_sources@.len() > 0,
        ),
        truncated_cases: one_if(c.status == KnowledgeEvidenceStatus::Truncated),
    }
}

pub open spec fn plus(a: EvalTally, b: EvalTally) -> EvalTally {
    EvalTally {
        evidence_cases: (a.evidence_cases + b.evidence_cases) as usize,
        hit_cases: (a.hit_cases + b.hit_cases) as usize,
        no_hit_cases: (a.no_hit_cases + b.no_hit_cases) as usize,
        correct_no_hit_cases: (a.correct_no_hit_cases + b.correct_no_hit_cases) as usize,
        injected_no_hit_cases: (a.injected_no_hit_cases + b.injected_no_hit_cases) as usize,
        truncated_cases: (a.truncated_cases + b.truncated_cases) as usize,
    }
}

pub open spec fn tally(cases: Seq<KnowledgeEvalCaseResult>) -> EvalTally
    decreases cases.len(),
{
    if cases.len() == 0 {
        EvalTally {
            evidence_cases: 0,
            hit_cases: 0,
            no_hit_cases: 0,
            correct_no_hit_cases: 0,
            injected_no_hit_cases: 0,
            truncated_cases: 0,
        }
    } else {
        plus(tally(cases.drop_last()), tally_of(cases.last()))
    }
}

spec fn is_bounded(t: EvalTally, n: int) -> bool {
    t.evidence_cases <= n && t.hit_cases <= n && t.no_hit_cases <= n && t.correct_no_hit_cases <= n
        && t.injected_no_hit_cases <= n && t.truncated_cases <= n
}

fn count(b: bool) -> (r: usize)
    ensures
        r == one_if(b),
        r <= 1,
{
    if b {
        1
    } else {
        0
    }
}

pub fn tally_cases(cases: &Vec<KnowledgeEvalCaseResult>) -> (r: EvalTally)
    ensures
        r == tally(cases@),
{
    let mut t = EvalTally {
        evidence_cases: 0,
        hit_cases: 0,
        no_hit_cases: 0,
        correct_no_hit_cases: 0,
        injected_no_hit_cases: 0,
        truncated_cases: 0,
    };
    let n: usize = cases.len();
    let mut i: usize = 0;
    assert(cases@.take(0) =~= Seq::empty());
    while i < n
        invariant
            0 <= i <= n,
            n == cases@.len(),
            t == tally(cases@.take(i as int)),
            is_bounded(t, i as int),
        decreases n - i,
    {
        assert(cases@.take(i + 1).drop_last() =~= cases@.take(i as int));
        let c = &cases[i];
        let wants = c.expected_sources.len() > 0;
        let none_wanted = c.no_evidence_correct.is_some();
        let correct = match c.no_evidence_correct {
            Some(b) => b,
            None => false,
        };
        t = EvalTally {
            evidence_cases: t.evidence_cases + count(wants),
            hit_cases: t.hit_cases + count(wants && c.matched_sources > 0),
            no_hit_cases: t.no_hit_cases + count(none_wanted),
            correct_no_hit_cases: t.correct_no_hit_cases + count(correct),
            injected_no_hit_cases: t.injected_no_hit_cases + count(
                none_wanted && c.retrieved_sources.len() > 0,
            ),
            truncated_cases: t.truncated_cases + count(
                c.status == KnowledgeEvidenceStatus::Truncated,
            ),
        };
        i += 1;
    }
    assert(cases@.take(i as int) =~= cases@);
    t
}

pub open spec fn is_ascending(v: Seq<u64>) -> bool {
    forall|i: int, j: int| 0 <= i < j < v.len() ==> #[trigger] v[i] <= #[trigger] v[j]
}

/// The times in ascending order.
pub fn sort_latencies(cases: &Vec<KnowledgeEvalCaseResult>) -> (r: Vec<u64>)
    ensures
        is_ascending(r@),
        r@.to_multiset() == latencies(cases@).to_multiset(),
{
    let ghost all = latencies(cases@);
    let mut out: Vec<u64> = Vec::new();
    let mut i: usize = 0;
    assert(all.take(0) =~= out@);
    while i < cases.len()
        invariant
            0 <= i <= cases@.len(),
            all == latencies(cases@),
            is_ascending(out@),
            out@.to_multiset() == all.take(i as int).to_multiset(),
        decreases cases@.len() - i,
    {
        let x: u64 = cases[i].latency_ms;
        let mut k: usize = out.len();
        while k > 0 && out[k - 1] > x
            invariant
                k <= out@.len(),
                is_ascending(out@),
                forall|a: int| k <= a < out@.len() ==> #[trigger] out@[a] > x,
            decreases k,
        {
            k -= 1;
        }
        let ghost before = out@;
        out.insert(k, x);
        proof {
            to_multiset_insert(before, k as int, x);
            assert(out@ =~= before.insert(k as int, x));
            assert(all.take(i + 1) =~= all.take(i as int).push(x));
            to_multiset_build(all.take(i as int), x);
            assert forall|a: int, b: int| 0 <= a < b < out@.len() implies #[trigger] out@[a]
                <= #[trigger] out@[b] by {
                if a == k {
                    assert(out@[b] == before[b - 1]);
                } else if b == k {
                    assert(out@[a] == before[a]);
                    if a < k - 1 {
                        assert(before[a] <= before[k - 1]);
                    }
                } else {
                    let c = if a < k {
                        a
                    } else {
                        a - 1
                    };
                    let d = if b < k {
                        b
                    } else {
                        b - 1
                    };
                    assert(out@[a] == before[c] && out@[b] == before[d]);
                }
            }
        }
        i += 1;
    }
    assert(all.take(i as int) =~= all);
    out
}

pub open spec fn latencies(cases: Seq<KnowledgeEvalCaseResult>) -> Seq<u64> {
    Seq::new(cases.len(), |i: int| cases[i].latency_ms)
}

/// The place of a percentile: rounded up, counted from zero, and within the list.
pub open spec fn percentile_place(n: int, percent: int) -> int {
    let up = (n * percent + 99) / 100;
    let at = if up > 0 {
        up - 1
    } else {
        0
    };
    if at < n {
        at
    } else {
        n - 1
    }
}

/// The value below which so many per cent of the values are; zero of none.
pub fn percentile(values: &Vec<u64>, percent: usize) -> (r: u64)
    ensures
        values@.len() == 0 ==> r == 0,
        values@.len() > 0 ==> r == values@[percentile_place(values@.len() as int, percent as int)],
{
    let n: usize = values.len();
    if n == 0 {
        return 0;
    }
    proof {
        assert(n * percent <= 0xffff_ffff_ffff_ffff * 0xffff_ffff_ffff_ffff && 0 <= n * percent)
            by (nonlinear_arith)
            requires
                0 <= n <= 0xffff_ffff_ffff_ffff,
                0 <= percent <= 0xffff_ffff_ffff_ffff,
        ;
    }
    let up: u128 = (n as u128 * percent as u128 + 99) / 100;
    let at: u128 = if up > 0 {
        up - 1
    } else {
        0
    };
    let place: usize = if at < n as u128 {
        at as usize
    } else {
        n - 1
    };
    values[place]
}

} // verus!
