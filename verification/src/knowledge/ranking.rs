//! Ranking: what several queries found is put together chunk by chunk, with how well each
//! chunk answers in words and in meaning.
use vstd::prelude::*;
use vstd::seq_lib::*;
use vstd::string::*;

use crate::knowledge::evidence;
use crate::knowledge::evidence::{KnowledgeEvidenceDiagnostics, KnowledgeTruncationReason};
use crate::knowledge::store::KnowledgeSearchResult;
use crate::knowledge::terms;
use crate::text;

verus! {

/// The most terms of a query.
pub const MAX_SEARCH_QUERY_TOKENS: usize = 64;

/// The most results of one search.
pub const SEARCH_CANDIDATE_LIMIT: usize = 32;

/// What a search is for.
#[derive(Debug, Clone, Copy, PartialEq, Eq, Structural)]
pub enum KnowledgeSearchProfile {
    /// A search that a model asked for.
    Tool,
    /// A search before the model was asked.
    Preflight,
    /// A search in place of a tool.
    AutoFallback,
}

pub fn query_text(user_text: &str) -> (r: String)
    ensures
        r@ == terms::search_query(user_text@, MAX_SEARCH_QUERY_TOKENS as int),
{
    terms::build_search_query(user_text, MAX_SEARCH_QUERY_TOKENS)
}

// Coverage.

/// The share of a query's terms that a chunk holds, longer and Latin ones counting more.
#[derive(Debug, Clone, Copy, PartialEq, Eq, Structural)]
pub struct Coverage {
    pub matched: u64,
    pub total: u64,
    /// The number of terms that the chunk holds.
    pub count: usize,
}

impl Coverage {
    pub open spec fn nothing() -> Coverage {
        Coverage { matched: 0, total: 0, count: 0 }
    }

    /// Whether the share is at least `num / den`.
    pub open spec fn reaches(self, num: int, den: int) -> bool {
        self.total > 0 && self.matched * den >= num * self.total
    }

    /// Whether the share is larger than the other.
    pub open spec fn exceeds(self, other: Coverage) -> bool {
        if self.total == 0 {
            false
        } else if other.total == 0 {
            self.matched > 0
        } else {
            self.matched * other.total > other.matched * self.total
        }
    }

    pub fn is_at_least(&self, num: u64, den: u64) -> (r: bool)
        ensures
            r == self.reaches(num as int, den as int),
    {
        proof {
            lemma_product_fits(self.matched, den);
            lemma_product_fits(num, self.total);
        }
        self.total > 0 && self.matched as u128 * den as u128 >= num as u128 * self.total as u128
    }

    pub fn is_more_than(&self, other: &Coverage) -> (r: bool)
        ensures
            r == self.exceeds(*other),
    {
        proof {
            lemma_product_fits(self.matched, other.total);
            lemma_product_fits(other.matched, self.total);
        }
        if self.total == 0 {
            false
        } else if other.total == 0 {
            self.matched > 0
        } else {
            self.matched as u128 * other.total as u128 > other.matched as u128 * self.total as u128
        }
    }
}

proof fn lemma_product_fits(a: u64, b: u64)
    ensures
        0 <= a * b <= u128::MAX,
{
    assert(0 <= a * b <= 0xffff_ffff_ffff_ffff * 0xffff_ffff_ffff_ffff) by (nonlinear_arith)
        requires
            0 <= a <= 0xffff_ffff_ffff_ffff,
            0 <= b <= 0xffff_ffff_ffff_ffff,
    ;
}

pub open spec fn is_ascii_text(t: Seq<char>) -> bool {
    forall|i: int| 0 <= i < t.len() ==> (#[trigger] t[i] as u32) < 128
}

/// What a term counts.
pub open spec fn weight(t: Seq<char>) -> int {
    if is_ascii_text(t) {
        4
    } else if t.len() >= 3 {
        3
    } else {
        2
    }
}

fn weight_of(t: &str) -> (r: u64)
    ensures
        r == weight(t@),
{
    let v = text::chars_of(t);
    let mut i: usize = 0;
    while i < v.len()
        invariant
            0 <= i <= v@.len(),
            v@ == t@,
            forall|k: int| 0 <= k < i ==> (#[trigger] t@[k] as u32) < 128,
        decreases v@.len() - i,
    {
        if v[i] as u32 >= 128 {
            assert(!((t@[i as int] as u32) < 128));
            return if v.len() >= 3 {
                3
            } else {
                2
            };
        }
        i += 1;
    }
    4
}

/// Sum of the weights of the terms, of those that the list holds, and their number.
pub open spec fn total_weight(asked: Seq<Seq<char>>) -> int
    decreases asked.len(),
{
    if asked.len() == 0 {
        0
    } else {
        total_weight(asked.drop_last()) + weight(asked.last())
    }
}

pub open spec fn matched_weight(asked: Seq<Seq<char>>, known: Seq<Seq<char>>) -> int
    decreases asked.len(),
{
    if asked.len() == 0 {
        0
    } else {
        matched_weight(asked.drop_last(), known) + if known.contains(asked.last()) {
            weight(asked.last())
        } else {
            0
        }
    }
}

pub open spec fn match_count(asked: Seq<Seq<char>>, known: Seq<Seq<char>>) -> int
    decreases asked.len(),
{
    if asked.len() == 0 {
        0
    } else {
        match_count(asked.drop_last(), known) + if known.contains(asked.last()) {
            1int
        } else {
            0
        }
    }
}

/// How much of the query the text holds.
pub open spec fn coverage_of(query: Seq<char>, candidate: Seq<char>) -> Coverage {
    let asked = terms::relevance(query);
    let known = terms::relevance(candidate);
    Coverage {
        matched: matched_weight(asked, known) as u64,
        total: total_weight(asked) as u64,
        count: match_count(asked, known) as usize,
    }
}

/// No text fills the address space of a machine; queries are far shorter.
pub open spec fn is_query(s: Seq<char>) -> bool {
    s.len() <= 0xff_ffff_ffff_ffff
}

pub fn lexical_coverage(query: &str, candidate: &str) -> (r: Coverage)
    requires
        is_query(query@),
    ensures
        r == coverage_of(query@, candidate@),
        r.total <= 0x00ff_ffff_ffff_ffff * 12,
{
    let asked = terms::relevance_terms(query);
    let known = terms::relevance_terms(candidate);
    let ghost a = terms::relevance(query@);
    let ghost k = terms::relevance(candidate@);
    proof {
        lemma_relevance_len(query@);
        assert(text::views(asked@).len() == asked@.len());
        assert(a.take(0) =~= Seq::empty());
    }
    let mut matched: u64 = 0;
    let mut total: u64 = 0;
    let mut count: usize = 0;
    let mut i: usize = 0;
    while i < asked.len()
        invariant
            0 <= i <= asked@.len(),
            text::views(asked@) == a,
            text::views(known@) == k,
            asked@.len() <= 0xff_ffff_ffff_ffff * 3,
            matched == matched_weight(a.take(i as int), k),
            total == total_weight(a.take(i as int)),
            count == match_count(a.take(i as int), k),
            matched <= total <= 4 * i,
            count <= i,
        decreases asked@.len() - i,
    {
        proof {
            assert(a.take(i + 1).drop_last() =~= a.take(i as int));
            assert(a.take(i + 1).last() == asked@[i as int]@);
        }
        let w = weight_of(asked[i].as_str());
        total = total + w;
        if terms::holds(&known, &asked[i]) {
            matched = matched + w;
            count = count + 1;
        }
        i += 1;
    }
    assert(a.take(i as int) =~= a);
    Coverage { matched, total, count }
}

proof fn lemma_relevance_len(s: Seq<char>)
    ensures
        terms::relevance(s).len() <= 3 * s.len(),
{
    lemma_firsts_len(terms::lexical(s) + terms::cjk_terms(s));
    lemma_runs_len(s, terms::RunKind::Word);
    lemma_kept_len(terms::runs(s, terms::RunKind::Word));
    lemma_cjk_len(s);
}

proof fn lemma_firsts_len(t: Seq<Seq<char>>)
    ensures
        terms::firsts(t).len() <= t.len(),
    decreases t.len(),
{
    if t.len() > 0 {
        lemma_firsts_len(t.drop_last());
    }
}

proof fn lemma_runs_len(s: Seq<char>, kind: terms::RunKind)
    ensures
        terms::runs(s, kind).len() <= s.len(),
    decreases s.len(),
{
    if s.len() > 0 {
        if !terms::belongs(kind, s[0]) {
            lemma_runs_len(s.skip(1), kind);
        } else {
            let n = terms::run_len(s, kind) as int;
            if 0 < n <= s.len() {
                lemma_runs_len(s.skip(n), kind);
            }
        }
    }
}

proof fn lemma_kept_len(t: Seq<Seq<char>>)
    ensures
        t.filter(|x: Seq<char>| x.len() >= 2).len() <= t.len(),
    decreases t.len(),
{
    reveal(Seq::filter);
    if t.len() > 0 {
        lemma_kept_len(t.drop_last());
    }
}

proof fn lemma_cjk_len(s: Seq<char>)
    ensures
        terms::cjk_terms(s).len() <= 2 * s.len(),
{
    lemma_cjk_chars_len(s);
}

proof fn lemma_cjk_chars_len(s: Seq<char>)
    ensures
        terms::cjk_chars(s).len() <= s.len(),
    decreases s.len(),
{
    reveal(Seq::filter);
    if s.len() > 0 {
        lemma_cjk_chars_len(s.drop_last());
    }
}

// Candidates.

#[derive(Debug, Clone, Copy, PartialEq, Eq, Structural)]
pub enum RecallChannel {
    Lexical,
    Semantic,
}

/// A chunk that was found, perhaps more than once.
#[derive(Debug)]
pub struct RankedCandidate {
    pub result: KnowledgeSearchResult,
    /// Its places in the lists in which it was found, counted from zero.
    pub ranks: Vec<usize>,
    pub coverage: Coverage,
    pub exact_identifier_match: bool,
    /// The best similarity in meaning, by its order number.
    pub semantic_similarity: Option<i64>,
    pub lexical_seen: bool,
    pub semantic_seen: bool,
}

pub struct CandidateView {
    pub result: KnowledgeSearchResult,
    pub ranks: Seq<usize>,
    pub coverage: Coverage,
    pub exact_identifier_match: bool,
    pub semantic_similarity: Option<i64>,
    pub lexical_seen: bool,
    pub semantic_seen: bool,
}

impl RankedCandidate {
    pub open spec fn shown(self) -> CandidateView {
        CandidateView {
            result: self.result,
            ranks: self.ranks@,
            coverage: self.coverage,
            exact_identifier_match: self.exact_identifier_match,
            semantic_similarity: self.semantic_similarity,
            lexical_seen: self.lexical_seen,
            semantic_seen: self.semantic_seen,
        }
    }
}

pub open spec fn shown_candidates(v: Seq<RankedCandidate>) -> Seq<CandidateView> {
    Seq::new(v.len(), |i: int| v[i].shown())
}

pub open spec fn or_empty(o: Option<String>) -> Seq<char> {
    match o {
        Some(s) => s@,
        None => ""@,
    }
}

/// What is read of a chunk to judge it.
pub open spec fn judged_text(r: KnowledgeSearchResult) -> Seq<char> {
    or_empty(r.document_title) + "\n"@ + or_empty(r.heading_path) + "\n"@ + r.body@ + "\n"@
        + r.search_text@
}

pub fn candidate_text(r: &KnowledgeSearchResult) -> (s: String)
    ensures
        s@ == judged_text(*r),
{
    let mut s: String = match &r.document_title {
        Some(t) => t.clone(),
        None => "".to_owned(),
    };
    s.append("\n");
    match &r.heading_path {
        Some(t) => s.append(t.as_str()),
        None => s.append(""),
    }
    s.append("\n");
    s.append(r.body.as_str());
    s.append("\n");
    s.append(r.search_text.as_str());
    s
}

pub open spec fn larger(a: Option<i64>, b: Option<i64>) -> Option<i64> {
    match (a, b) {
        (Some(x), Some(y)) => if x >= y {
            Some(x)
        } else {
            Some(y)
        },
        (Some(x), None) => Some(x),
        (None, y) => y,
    }
}

pub fn max_option(a: Option<i64>, b: Option<i64>) -> (r: Option<i64>)
    ensures
        r == larger(a, b),
{
    match (a, b) {
        (Some(x), Some(y)) => {
            if x >= y {
                Some(x)
            } else {
                Some(y)
            }
        },
        (Some(x), None) => Some(x),
        (None, y) => y,
    }
}

/// A chunk before it counts as found.
pub open spec fn fresh(result: KnowledgeSearchResult) -> CandidateView {
    CandidateView {
        result,
        ranks: Seq::empty(),
        coverage: Coverage::nothing(),
        exact_identifier_match: false,
        semantic_similarity: None,
        lexical_seen: false,
        semantic_seen: false,
    }
}

/// A chunk that was found once more. What full-text search returned stands before what the
/// comparison of vectors returned.
pub open spec fn found_again(
    c: CandidateView,
    query: Seq<char>,
    result: KnowledgeSearchResult,
    rank: usize,
    channel: RecallChannel,
) -> CandidateView {
    let coverage = coverage_of(query, judged_text(result));
    CandidateView {
        result: if channel == RecallChannel::Lexical || !c.lexical_seen {
            result
        } else {
            c.result
        },
        ranks: c.ranks.push(rank),
        coverage: if coverage.exceeds(c.coverage) {
            coverage
        } else {
            c.coverage
        },
        exact_identifier_match: c.exact_identifier_match || terms::shares_identifier(
            query,
            judged_text(result),
        ),
        semantic_similarity: larger(
            c.semantic_similarity,
            if channel == RecallChannel::Semantic {
                Some(result.score)
            } else {
                None
            },
        ),
        lexical_seen: c.lexical_seen || channel == RecallChannel::Lexical,
        semantic_seen: c.semantic_seen || channel == RecallChannel::Semantic,
    }
}

/// Whether the first candidate for the chunk is at `i`.
pub open spec fn is_place(fused: Seq<CandidateView>, chunk_id: Seq<char>, i: int) -> bool {
    0 <= i < fused.len() && fused[i].result.chunk_id@ == chunk_id && forall|j: int|
        0 <= j < i ==> (#[trigger] fused[j]).result.chunk_id@ != chunk_id
}

/// The candidates with one more result.
pub open spec fn with_result(
    fused: Seq<CandidateView>,
    query: Seq<char>,
    result: KnowledgeSearchResult,
    rank: usize,
    channel: RecallChannel,
) -> Seq<CandidateView> {
    let id = result.chunk_id@;
    if exists|i: int| is_place(fused, id, i) {
        let i = choose|i: int| is_place(fused, id, i);
        fused.update(i, found_again(fused[i], query, result, rank, channel))
    } else {
        fused.push(found_again(fresh(result), query, result, rank, channel))
    }
}

/// The candidates with the results of one search.
pub open spec fn with_results(
    fused: Seq<CandidateView>,
    query: Seq<char>,
    results: Seq<KnowledgeSearchResult>,
    channel: RecallChannel,
) -> Seq<CandidateView>
    decreases results.len(),
{
    if results.len() == 0 {
        fused
    } else {
        with_result(
            with_results(fused, query, results.drop_last(), channel),
            query,
            results.last(),
            (results.len() - 1) as usize,
            channel,
        )
    }
}

fn find_candidate(fused: &Vec<RankedCandidate>, chunk_id: &String) -> (r: Option<usize>)
    ensures
        match r {
            Some(i) => i < fused@.len() && is_place(shown_candidates(fused@), chunk_id@, i as int)
                && i == (choose|k: int| is_place(shown_candidates(fused@), chunk_id@, k)),
            None => forall|k: int| !is_place(shown_candidates(fused@), chunk_id@, k),
        },
{
    let ghost all = shown_candidates(fused@);
    let mut i: usize = 0;
    while i < fused.len()
        invariant
            0 <= i <= fused@.len(),
            all == shown_candidates(fused@),
            forall|j: int| 0 <= j < i ==> (#[trigger] all[j]).result.chunk_id@ != chunk_id@,
        decreases fused@.len() - i,
    {
        assert(all[i as int] == fused@[i as int].shown());
        if fused[i].result.chunk_id == *chunk_id {
            proof {
                assert(is_place(all, chunk_id@, i as int));
                let k = choose|k: int| is_place(all, chunk_id@, k);
                if k < i {
                    assert(all[k].result.chunk_id@ != chunk_id@);
                } else if i < k {
                    assert(all[i as int].result.chunk_id@ != chunk_id@);
                }
            }
            return Some(i);
        }
        i += 1;
    }
    None
}

fn update_candidate(
    c: RankedCandidate,
    query: &str,
    result: &KnowledgeSearchResult,
    rank: usize,
    channel: RecallChannel,
) -> (r: RankedCandidate)
    requires
        is_query(query@),
    ensures
        r.shown() == found_again(c.shown(), query@, *result, rank, channel),
{
    let mut c = c;
    let judged = candidate_text(result);
    let coverage = lexical_coverage(query, judged.as_str());
    let exact = terms::has_exact_identifier(query, judged.as_str());
    let ghost before = c.ranks@;
    c.ranks.push(rank);
    assert(c.ranks@ =~= before.push(rank));
    if channel == RecallChannel::Lexical || !c.lexical_seen {
        c.result = result.clone();
    }
    if coverage.is_more_than(&c.coverage) {
        c.coverage = coverage;
    }
    c.exact_identifier_match = c.exact_identifier_match || exact;
    if channel == RecallChannel::Lexical {
        c.lexical_seen = true;
        c.semantic_similarity = max_option(c.semantic_similarity, None);
    } else {
        c.semantic_seen = true;
        c.semantic_similarity = max_option(c.semantic_similarity, Some(result.score));
    }
    c
}

fn fresh_candidate(result: &KnowledgeSearchResult) -> (r: RankedCandidate)
    ensures
        r.shown() == fresh(*result),
{
    let r = RankedCandidate {
        result: result.clone(),
        ranks: Vec::new(),
        coverage: Coverage { matched: 0, total: 0, count: 0 },
        exact_identifier_match: false,
        semantic_similarity: None,
        lexical_seen: false,
        semantic_seen: false,
    };
    assert(r.shown().ranks =~= Seq::empty());
    r
}

pub fn add_ranked_results(
    fused: Vec<RankedCandidate>,
    query: &str,
    results: &Vec<KnowledgeSearchResult>,
    channel: RecallChannel,
) -> (r: Vec<RankedCandidate>)
    requires
        is_query(query@),
    ensures
        shown_candidates(r@) == with_results(
            shown_candidates(fused@),
            query@,
            results@,
            channel,
        ),
{
    let ghost start = shown_candidates(fused@);
    let mut out = fused;
    let mut i: usize = 0;
    assert(results@.take(0) =~= Seq::empty());
    while i < results.len()
        invariant
            0 <= i <= results@.len(),
            is_query(query@),
            shown_candidates(out@) == with_results(
                start,
                query@,
                results@.take(i as int),
                channel,
            ),
        decreases results@.len() - i,
    {
        let ghost before = shown_candidates(out@);
        proof {
            assert(results@.take(i + 1).drop_last() =~= results@.take(i as int));
            assert(results@.take(i + 1).last() == results@[i as int]);
        }
        let result = &results[i];
        match find_candidate(&out, &result.chunk_id) {
            Some(k) => {
                let old_candidate = out.remove(k);
                assert(old_candidate.shown() == before[k as int]);
                let next = update_candidate(old_candidate, query, result, i, channel);
                let ghost shown = next.shown();
                out.insert(k, next);
                assert(shown_candidates(out@) =~= before.update(k as int, shown));
            },
            None => {
                let next = update_candidate(fresh_candidate(result), query, result, i, channel);
                let ghost shown = next.shown();
                out.push(next);
                assert(shown_candidates(out@) =~= before.push(shown));
            },
        }
        i += 1;
    }
    assert(results@.take(i as int) =~= results@);
    out
}

/// Counts the results of a full-text search; a full list may lack some.
pub fn count_lexical_results(diagnostics: &mut KnowledgeEvidenceDiagnostics, count: usize)
    requires
        old(diagnostics).fts_candidate_count + count <= usize::MAX,
    ensures
        final(diagnostics).fts_candidate_count == old(diagnostics).fts_candidate_count + count,
        final(diagnostics).truncation_reasons@ == (if count >= SEARCH_CANDIDATE_LIMIT {
            evidence::with_reason(
                old(diagnostics).truncation_reasons@,
                KnowledgeTruncationReason::CandidateLimit,
            )
        } else {
            old(diagnostics).truncation_reasons@
        }),
        *final(diagnostics) == (KnowledgeEvidenceDiagnostics {
            fts_candidate_count: final(diagnostics).fts_candidate_count,
            truncation_reasons: final(diagnostics).truncation_reasons,
            ..*old(diagnostics)
        }),
{
    diagnostics.fts_candidate_count = diagnostics.fts_candidate_count + count;
    if count >= SEARCH_CANDIDATE_LIMIT {
        evidence::push_reason_once(
            &mut diagnostics.truncation_reasons,
            KnowledgeTruncationReason::CandidateLimit,
        );
    }
}

// All queries.

/// What was found for one query.
#[derive(Debug)]
pub struct QueryAnswer {
    pub query: String,
    /// By full-text search.
    pub lexical: Vec<KnowledgeSearchResult>,
    /// By comparing vectors, where there are any.
    pub semantic: Option<Vec<KnowledgeSearchResult>>,
}

/// Whether the query has a term to search for.
pub open spec fn is_searched(a: QueryAnswer) -> bool {
    terms::search_query(a.query@, MAX_SEARCH_QUERY_TOKENS as int).len() > 0
}

/// The candidates that all queries found. A query without a term is passed over.
pub open spec fn retrieved(answers: Seq<QueryAnswer>, use_semantic: bool) -> Seq<CandidateView>
    decreases answers.len(),
{
    if answers.len() == 0 {
        Seq::empty()
    } else {
        let before = retrieved(answers.drop_last(), use_semantic);
        let a = answers.last();
        if !is_searched(a) {
            before
        } else {
            let lexical = with_results(before, a.query@, a.lexical@, RecallChannel::Lexical);
            match a.semantic {
                Some(found) => if use_semantic {
                    with_results(lexical, a.query@, found@, RecallChannel::Semantic)
                } else {
                    lexical
                },
                None => lexical,
            }
        }
    }
}

pub open spec fn lexical_total(answers: Seq<QueryAnswer>) -> nat
    decreases answers.len(),
{
    if answers.len() == 0 {
        0
    } else {
        lexical_total(answers.drop_last()) + (if is_searched(answers.last()) {
            answers.last().lexical@.len()
        } else {
            0
        })
    }
}

pub open spec fn semantic_total(answers: Seq<QueryAnswer>, use_semantic: bool) -> nat
    decreases answers.len(),
{
    if answers.len() == 0 {
        0
    } else {
        let a = answers.last();
        semantic_total(answers.drop_last(), use_semantic) + (match a.semantic {
            Some(found) => if use_semantic && is_searched(a) {
                found@.len()
            } else {
                0
            },
            None => 0,
        })
    }
}

/// Whether a full-text search was cut at its limit.
pub open spec fn hits_limit(answers: Seq<QueryAnswer>) -> bool {
    exists|i: int|
        0 <= i < answers.len() && is_searched(#[trigger] answers[i]) && answers[i].lexical@.len()
            >= SEARCH_CANDIDATE_LIMIT
}

proof fn lemma_totals_grow(answers: Seq<QueryAnswer>, use_semantic: bool, n: int)
    requires
        0 <= n <= answers.len(),
    ensures
        lexical_total(answers.take(n)) <= lexical_total(answers),
        semantic_total(answers.take(n), use_semantic) <= semantic_total(answers, use_semantic),
    decreases answers.len() - n,
{
    if n == answers.len() {
        assert(answers.take(n) =~= answers);
    } else {
        assert(answers.take(n + 1).drop_last() =~= answers.take(n));
        lemma_totals_grow(answers, use_semantic, n + 1);
    }
}

/// Puts together what the queries found, and counts it.
pub fn retrieve_candidates(
    answers: &Vec<QueryAnswer>,
    use_semantic: bool,
    diagnostics: &mut KnowledgeEvidenceDiagnostics,
) -> (r: Vec<RankedCandidate>)
    requires
        forall|i: int| 0 <= i < answers@.len() ==> is_query((#[trigger] answers@[i]).query@),
        old(diagnostics).fts_candidate_count + lexical_total(answers@) <= usize::MAX,
        old(diagnostics).semantic_candidate_count + semantic_total(answers@, use_semantic)
            <= usize::MAX,
    ensures
        shown_candidates(r@) == retrieved(answers@, use_semantic),
        final(diagnostics).fts_candidate_count == old(diagnostics).fts_candidate_count + lexical_total(
            answers@,
        ),
        final(diagnostics).semantic_candidate_count == old(diagnostics).semantic_candidate_count
            + semantic_total(answers@, use_semantic),
        final(diagnostics).truncation_reasons@ == (if hits_limit(answers@) {
            evidence::with_reason(
                old(diagnostics).truncation_reasons@,
                KnowledgeTruncationReason::CandidateLimit,
            )
        } else {
            old(diagnostics).truncation_reasons@
        }),
        *final(diagnostics) == (KnowledgeEvidenceDiagnostics {
            query_count: answers@.len() as usize,
            fts_candidate_count: final(diagnostics).fts_candidate_count,
            semantic_candidate_count: final(diagnostics).semantic_candidate_count,
            truncation_reasons: final(diagnostics).truncation_reasons,
            ..*old(diagnostics)
        }),
{
    let ghost start = *diagnostics;
    diagnostics.query_count = answers.len();
    let mut fused: Vec<RankedCandidate> = Vec::new();
    let mut i: usize = 0;
    proof {
        assert(answers@.take(0) =~= Seq::empty());
        assert(shown_candidates(fused@) =~= Seq::empty());
    }
    while i < answers.len()
        invariant
            0 <= i <= answers@.len(),
            start == *old(diagnostics),
            forall|k: int| 0 <= k < answers@.len() ==> is_query((#[trigger] answers@[k]).query@),
            start.fts_candidate_count + lexical_total(answers@) <= usize::MAX,
            start.semantic_candidate_count + semantic_total(answers@, use_semantic) <= usize::MAX,
            shown_candidates(fused@) == retrieved(answers@.take(i as int), use_semantic),
            diagnostics.fts_candidate_count == start.fts_candidate_count + lexical_total(
                answers@.take(i as int),
            ),
            diagnostics.semantic_candidate_count == start.semantic_candidate_count + semantic_total(
                answers@.take(i as int),
                use_semantic,
            ),
            diagnostics.truncation_reasons@ == (if hits_limit(answers@.take(i as int)) {
                evidence::with_reason(
                    start.truncation_reasons@,
                    KnowledgeTruncationReason::CandidateLimit,
                )
            } else {
                start.truncation_reasons@
            }),
            *diagnostics == (KnowledgeEvidenceDiagnostics {
                query_count: answers@.len() as usize,
                fts_candidate_count: diagnostics.fts_candidate_count,
                semantic_candidate_count: diagnostics.semantic_candidate_count,
                truncation_reasons: diagnostics.truncation_reasons,
                ..start
            }),
        decreases answers@.len() - i,
    {
        let a = &answers[i];
        let ghost earlier = answers@.take(i as int);
        let ghost now = answers@.take(i + 1);
        proof {
            assert(now.drop_last() =~= earlier);
            assert(now.last() == *a);
            lemma_totals_grow(answers@, use_semantic, i + 1);
            lemma_limit_step(answers@, i as int);
        }
        let words = query_text(a.query.as_str());
        let len: usize = words.as_str().unicode_len();
        if len > 0 {
            let ghost reasons = diagnostics.truncation_reasons@;
            count_lexical_results(diagnostics, a.lexical.len());
            proof {
                if hits_limit(earlier) {
                    lemma_reason_once(start.truncation_reasons@, KnowledgeTruncationReason::CandidateLimit);
                }
            }
            fused = add_ranked_results(fused, a.query.as_str(), &a.lexical, RecallChannel::Lexical);
            if use_semantic {
                match &a.semantic {
                    Some(found) => {
                        diagnostics.semantic_candidate_count = diagnostics.semantic_candidate_count
                            + found.len();
                        fused = add_ranked_results(
                            fused,
                            a.query.as_str(),
                            found,
                            RecallChannel::Semantic,
                        );
                    },
                    None => {},
                }
            }
        }
        i += 1;
    }
    assert(answers@.take(i as int) =~= answers@);
    fused
}

proof fn lemma_reason_once(reasons: Seq<KnowledgeTruncationReason>, reason: KnowledgeTruncationReason)
    ensures
        evidence::with_reason(evidence::with_reason(reasons, reason), reason)
            == evidence::with_reason(reasons, reason),
{
    let once = evidence::with_reason(reasons, reason);
    if !reasons.contains(reason) {
        assert(once[once.len() - 1] == reason);
    }
}

proof fn lemma_limit_step(answers: Seq<QueryAnswer>, i: int)
    requires
        0 <= i < answers.len(),
    ensures
        hits_limit(answers.take(i + 1)) == (hits_limit(answers.take(i)) || (is_searched(answers[i])
            && answers[i].lexical@.len() >= SEARCH_CANDIDATE_LIMIT)),
{
    let before = answers.take(i);
    let now = answers.take(i + 1);
    if hits_limit(now) {
        let k = choose|k: int|
            0 <= k < now.len() && is_searched(#[trigger] now[k]) && now[k].lexical@.len()
                >= SEARCH_CANDIDATE_LIMIT;
        if k < i {
            assert(before[k] == now[k]);
        }
    }
    if hits_limit(before) {
        let k = choose|k: int|
            0 <= k < before.len() && is_searched(#[trigger] before[k]) && before[k].lexical@.len()
                >= SEARCH_CANDIDATE_LIMIT;
        assert(now[k] == before[k]);
    }
    assert(now[i] == answers[i]);
}

// Order.

/// A candidate with the numbers that order it.
#[derive(Debug)]
pub struct ScoredCandidate {
    pub candidate: RankedCandidate,
    /// The order number of the score by which ranks are merged.
    pub score: i64,
    /// The order number of the confidence before a model is asked.
    pub confidence: i64,
    /// The score, written as a decimal number.
    pub score_text: String,
}

pub open spec fn order_number(c: ScoredCandidate, profile: KnowledgeSearchProfile) -> i64 {
    if profile == KnowledgeSearchProfile::Preflight {
        c.confidence
    } else {
        c.score
    }
}

/// Whether one candidate goes before the other: the higher number, then the smaller
/// identifier.
pub open spec fn leads(a: ScoredCandidate, b: ScoredCandidate, profile: KnowledgeSearchProfile) -> bool {
    let x = order_number(a, profile);
    let y = order_number(b, profile);
    x > y || (x == y && (a.candidate.result.chunk_id@ == b.candidate.result.chunk_id@
        || terms::precedes(a.candidate.result.chunk_id@, b.candidate.result.chunk_id@)))
}

pub open spec fn is_in_order(v: Seq<ScoredCandidate>, profile: KnowledgeSearchProfile) -> bool {
    forall|i: int, j: int| 0 <= i < j < v.len() ==> leads(#[trigger] v[i], #[trigger] v[j], profile)
}

proof fn lemma_leads(a: ScoredCandidate, b: ScoredCandidate, c: ScoredCandidate, profile: KnowledgeSearchProfile)
    ensures
        leads(a, b, profile) || leads(b, a, profile),
        leads(a, b, profile) && leads(b, c, profile) ==> leads(a, c, profile),
{
    let x = a.candidate.result.chunk_id@;
    let y = b.candidate.result.chunk_id@;
    let z = c.candidate.result.chunk_id@;
    terms::lemma_precedes_total(x, y);
    if terms::precedes(x, y) && terms::precedes(y, z) {
        terms::lemma_precedes_transitive(x, y, z);
    }
}

fn is_leading(a: &ScoredCandidate, b: &ScoredCandidate, profile: KnowledgeSearchProfile) -> (r: bool)
    ensures
        r == leads(*a, *b, profile),
{
    let preflight = profile == KnowledgeSearchProfile::Preflight;
    let x: i64 = if preflight {
        a.confidence
    } else {
        a.score
    };
    let y: i64 = if preflight {
        b.confidence
    } else {
        b.score
    };
    x > y || (x == y && (a.candidate.result.chunk_id == b.candidate.result.chunk_id
        || terms::is_smaller(
        a.candidate.result.chunk_id.as_str(),
        b.candidate.result.chunk_id.as_str(),
    )))
}

/// Puts the candidates in order.
pub fn rank_candidates(
    all: Vec<ScoredCandidate>,
    profile: KnowledgeSearchProfile,
    diagnostics: &mut KnowledgeEvidenceDiagnostics,
) -> (r: Vec<ScoredCandidate>)
    ensures
        is_in_order(r@, profile),
        forall|i: int, j: int|
            0 <= i < j < r@.len() ==> if profile == KnowledgeSearchProfile::Preflight {
                (#[trigger] r@[i]).confidence >= (#[trigger] r@[j]).confidence
            } else {
                r@[i].score >= r@[j].score
            },
        r@.to_multiset() == all@.to_multiset(),
        *final(diagnostics) == (KnowledgeEvidenceDiagnostics {
            fused_candidate_count: all@.len() as usize,
            ..*old(diagnostics)
        }),
{
    diagnostics.fused_candidate_count = all.len();
    let ghost given = all@;
    let mut rest = all;
    let mut out: Vec<ScoredCandidate> = Vec::new();
    proof {
        assert(out@.to_multiset().add(rest@.to_multiset()) =~= given.to_multiset()) by {
            assert(out@ =~= Seq::empty());
            broadcast use vstd::seq_lib::group_to_multiset_ensures;
        }
    }
    while rest.len() > 0
        invariant
            is_in_order(out@, profile),
            out@.to_multiset().add(rest@.to_multiset()) == given.to_multiset(),
            *diagnostics == (KnowledgeEvidenceDiagnostics {
                fused_candidate_count: given.len() as usize,
                ..*old(diagnostics)
            }),
        decreases rest@.len(),
    {
        let last: usize = rest.len() - 1;
        let ghost before_rest = rest@;
        let x = rest.remove(last);
        let mut k: usize = out.len();
        while k > 0 && !is_leading(&out[k - 1], &x, profile)
            invariant
                k <= out@.len(),
                is_in_order(out@, profile),
                forall|a: int| k <= a < out@.len() ==> !leads(#[trigger] out@[a], x, profile),
            decreases k,
        {
            k -= 1;
        }
        let ghost before = out@;
        let ghost y = x;
        out.insert(k, x);
        proof {
            to_multiset_insert(before, k as int, y);
            to_multiset_remove(before_rest, last as int);
            assert(out@ =~= before.insert(k as int, y));
            assert(rest@ =~= before_rest.remove(last as int));
            assert(before_rest.contains(y)) by {
                assert(before_rest[last as int] == y);
            }
            to_multiset_contains(before_rest, y);
            assert(out@.to_multiset().add(rest@.to_multiset()) =~= given.to_multiset());
            assert forall|a: int, b: int| 0 <= a < b < out@.len() implies leads(
                #[trigger] out@[a],
                #[trigger] out@[b],
                profile,
            ) by {
                if a == k {
                    assert(out@[b] == before[b - 1]);
                    lemma_leads(y, before[b - 1], y, profile);
                } else if b == k {
                    assert(out@[a] == before[a]);
                    if a < k - 1 {
                        assert(leads(before[a], before[k - 1], profile));
                        lemma_leads(before[a], before[k - 1], y, profile);
                    }
                } else {
                    let c = if a < k {
                        a
                    } else {
                        a - 1
                    };
                    let d = if b < k {
                        b
                    } else {
                        b - 1
                    };
                    assert(out@[a] == before[c] && out@[b] == before[d]);
                }
            }
        }
    }
    proof {
        assert(rest@ =~= Seq::empty());
        broadcast use vstd::seq_lib::group_to_multiset_ensures;
        assert(out@.to_multiset() =~= given.to_multiset());
        assert forall|i: int, j: int| 0 <= i < j < out@.len() implies if profile
            == KnowledgeSearchProfile::Preflight {
            (#[trigger] out@[i]).confidence >= (#[trigger] out@[j]).confidence
        } else {
            out@[i].score >= out@[j].score
        } by {
            assert(leads(out@[i], out@[j], profile));
        }
    }
    out
}

// Laws.

/// Putting results together never makes two candidates of one chunk.
pub proof fn one_candidate_for_each_chunk(
    fused: Seq<CandidateView>,
    query: Seq<char>,
    results: Seq<KnowledgeSearchResult>,
    channel: RecallChannel,
)
    requires
        are_distinct(fused),
    ensures
        are_distinct(with_results(fused, query, results, channel)),
    decreases results.len(),
{
    if results.len() > 0 {
        let before = with_results(fused, query, results.drop_last(), channel);
        one_candidate_for_each_chunk(fused, query, results.drop_last(), channel);
        let id = results.last().chunk_id@;
        let after = with_results(fused, query, results, channel);
        if exists|i: int| is_place(before, id, i) {
            let p = choose|i: int| is_place(before, id, i);
            assert forall|i: int, j: int| 0 <= i < j < after.len() implies (
            #[trigger] after[i]).result.chunk_id@ != (#[trigger] after[j]).result.chunk_id@ by {
                assert(before[i].result.chunk_id@ != before[j].result.chunk_id@);
                assert(after[i].result.chunk_id@ == before[i].result.chunk_id@);
                assert(after[j].result.chunk_id@ == before[j].result.chunk_id@);
            }
        } else {
            lemma_no_place(before, id);
        }
    }
}

pub open spec fn are_distinct(fused: Seq<CandidateView>) -> bool {
    forall|i: int, j: int|
        0 <= i < j < fused.len() ==> (#[trigger] fused[i]).result.chunk_id@ != (#[trigger] fused[j]).result.chunk_id@
}

proof fn lemma_no_place(fused: Seq<CandidateView>, id: Seq<char>)
    requires
        forall|i: int| !is_place(fused, id, i),
    ensures
        forall|i: int| 0 <= i < fused.len() ==> (#[trigger] fused[i]).result.chunk_id@ != id,
{
    if exists|i: int| 0 <= i < fused.len() && (#[trigger] fused[i]).result.chunk_id@ == id {
        let i = choose|i: int| 0 <= i < fused.len() && (#[trigger] fused[i]).result.chunk_id@ == id;
        lemma_least_place(fused, id, i);
    }
}

pub proof fn lemma_least_place(fused: Seq<CandidateView>, id: Seq<char>, i: int)
    requires
        0 <= i < fused.len(),
        fused[i].result.chunk_id@ == id,
    ensures
        exists|k: int| is_place(fused, id, k),
    decreases i,
{
    if exists|j: int| 0 <= j < i && (#[trigger] fused[j]).result.chunk_id@ == id {
        let j = choose|j: int| 0 <= j < i && (#[trigger] fused[j]).result.chunk_id@ == id;
        lemma_least_place(fused, id, j);
    } else {
        assert(is_place(fused, id, i));
    }
}

} // verus!
