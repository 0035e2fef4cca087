//! Selection: which of the ranked chunks become evidence, what stands around them, and how
//! much of it fits.
use vstd::prelude::*;
use vstd::string::*;

use crate::knowledge::evidence;
use crate::knowledge::evidence::{
    KnowledgeEvidence, KnowledgeEvidenceDiagnostics, KnowledgeEvidenceItem, KnowledgeEvidenceStatus,
    KnowledgeInjectionDecision, KnowledgeInjectionReason, KnowledgeRecallType,
    KnowledgeTruncationReason,
};
use crate::knowledge::lookup;
use crate::knowledge::lookup::Neighbours;
use crate::knowledge::ranking::{
    CandidateView, KnowledgeSearchProfile, RankedCandidate, ScoredCandidate,
};
use crate::knowledge::store::{KnowledgeSearchResult, KnowledgeStore};
use crate::knowledge::terms;
use crate::text;

verus! {

/// Changes with the thresholds.
pub const THRESHOLD_VERSION: &'static str = "knowledge-preflight-v1";

/// Order numbers of similarities: 0.60, 0.62 and 0.30.
pub const SEMANTIC_HIGH_SIMILARITY: i64 = 0x3fe3333333333333;

pub const HYBRID_MIN_SIMILARITY: i64 = 0x3fe3d70a3d70a3d7;

pub const TOOL_MIN_SEMANTIC_SIMILARITY: i64 = 0x3fd3333333333333;

// Options.

/// What is put around the chunks that were found.
#[derive(Debug, Clone, Copy, PartialEq, Eq, Structural)]
pub enum ExpansionMode {
    Nothing,
    /// The rest of the section.
    Section,
    /// The chunk before and the chunk behind.
    Adjacent,
}

#[derive(Debug, Clone, Copy, PartialEq, Eq, Structural)]
pub struct SearchOptions {
    pub result_limit: usize,
    pub total_char_budget: usize,
    pub max_results_per_file: usize,
    pub expansion: ExpansionMode,
    pub use_semantic: bool,
    pub filter_low_relevance: bool,
    pub high_confidence_only: bool,
}

pub open spec fn options_for(profile: KnowledgeSearchProfile) -> SearchOptions {
    match profile {
        KnowledgeSearchProfile::Tool => SearchOptions {
            result_limit: 4,
            total_char_budget: 3200,
            max_results_per_file: 2,
            expansion: ExpansionMode::Section,
            use_semantic: true,
            filter_low_relevance: true,
            high_confidence_only: false,
        },
        KnowledgeSearchProfile::Preflight => SearchOptions {
            result_limit: 1,
            total_char_budget: 1200,
            max_results_per_file: 1,
            expansion: ExpansionMode::Nothing,
            use_semantic: true,
            filter_low_relevance: true,
            high_confidence_only: true,
        },
        KnowledgeSearchProfile::AutoFallback => SearchOptions {
            result_limit: 4,
            total_char_budget: 3200,
            max_results_per_file: 2,
            expansion: ExpansionMode::Adjacent,
            use_semantic: false,
            filter_low_relevance: false,
            high_confidence_only: false,
        },
    }
}

impl SearchOptions {
    pub fn for_profile(profile: KnowledgeSearchProfile) -> (r: Self)
        ensures
            r == options_for(profile),
    {
        match profile {
            KnowledgeSearchProfile::Tool => SearchOptions {
                result_limit: 4,
                total_char_budget: 3200,
                max_results_per_file: 2,
                expansion: ExpansionMode::Section,
                use_semantic: true,
                filter_low_relevance: true,
                high_confidence_only: false,
            },
            KnowledgeSearchProfile::Preflight => SearchOptions {
                result_limit: 1,
                total_char_budget: 1200,
                max_results_per_file: 1,
                expansion: ExpansionMode::Nothing,
                use_semantic: true,
                filter_low_relevance: true,
                high_confidence_only: true,
            },
            KnowledgeSearchProfile::AutoFallback => SearchOptions {
                result_limit: 4,
                total_char_budget: 3200,
                max_results_per_file: 2,
                expansion: ExpansionMode::Adjacent,
                use_semantic: false,
                filter_low_relevance: false,
                high_confidence_only: false,
            },
        }
    }
}

/// The parts of a query between ` OR ` that are not blank; `filled` says whether the part at
/// hand is not blank so far.
pub open spec fn query_parts(s: Seq<char>, filled: bool) -> nat
    decreases s.len(),
{
    if s.len() == 0 {
        if filled {
            1
        } else {
            0
        }
    } else if s.len() >= 4 && s[0] == ' ' && s[1] == 'O' && s[2] == 'R' && s[3] == ' ' {
        (if filled {
            1nat
        } else {
            0nat
        }) + query_parts(s.skip(4), false)
    } else {
        query_parts(s.skip(1), filled || !text::is_space(s[0]))
    }
}

proof fn lemma_query_parts_len(s: Seq<char>, filled: bool)
    ensures
        query_parts(s, filled) <= s.len() + 1,
    decreases s.len(),
{
    if s.len() > 0 {
        if s.len() >= 4 && s[0] == ' ' && s[1] == 'O' && s[2] == 'R' && s[3] == ' ' {
            lemma_query_parts_len(s.skip(4), false);
        } else {
            lemma_query_parts_len(s.skip(1), filled || !text::is_space(s[0]));
        }
    }
}

/// A name for a query that does not show it, and the number of its terms.
pub fn query_diagnostics(query: &str) -> (r: (String, usize))
    requires
        query@.len() <= isize::MAX,
    ensures
        r.0@ == text::first_chars(terms::digest(query@), 12),
        r.1 == query_parts(query@, false),
{
    let hash = terms::hash_text(query);
    let fingerprint = text::take_chars(hash.as_str(), 12).to_owned();
    let v = text::chars_of(query);
    let n: usize = v.len();
    let mut count: usize = 0;
    let mut filled = false;
    let mut i: usize = 0;
    proof {
        assert(v@.skip(0) =~= v@);
        lemma_query_parts_len(query@, false);
    }
    while i < n
        invariant
            0 <= i <= n,
            n == v@.len(),
            v@ == query@,
            count + query_parts(v@.skip(i as int), filled) == query_parts(query@, false),
            query_parts(query@, false) <= n + 1,
            n <= isize::MAX,
        decreases n - i,
    {
        let ghost rest = v@.skip(i as int);
        assert(rest[0] == v@[i as int]);
        if n - i >= 4 && v[i] == ' ' && v[i + 1] == 'O' && v[i + 2] == 'R' && v[i + 3] == ' ' {
            proof {
                assert(rest[1] == v@[i + 1] && rest[2] == v@[i + 2] && rest[3] == v@[i + 3]);
                assert(rest.skip(4) =~= v@.skip(i + 4));
            }
            if filled {
                count = count + 1;
            }
            filled = false;
            i = i + 4;
        } else {
            proof {
                if n - i >= 4 {
                    assert(rest[1] == v@[i + 1] && rest[2] == v@[i + 2] && rest[3] == v@[i + 3]);
                }
                assert(rest.skip(1) =~= v@.skip(i + 1));
            }
            filled = filled || !text::is_whitespace(v[i]);
            i = i + 1;
        }
    }
    assert(v@.skip(i as int) =~= Seq::empty());
    if filled {
        count = count + 1;
    }
    (fingerprint, count)
}

// Confidence.

pub open spec fn is_similar(s: Option<i64>, least: i64) -> bool {
    s matches Some(x) && x >= least
}

/// Why a candidate can be relied on unasked, if it can.
pub open spec fn confidence(c: CandidateView) -> Option<KnowledgeInjectionReason> {
    if c.lexical_seen && c.semantic_seen && c.coverage.reaches(28, 100) && is_similar(
        c.semantic_similarity,
        HYBRID_MIN_SIMILARITY,
    ) {
        Some(KnowledgeInjectionReason::HybridAgreement)
    } else if c.lexical_seen && (c.exact_identifier_match || (c.coverage.reaches(55, 100)
        && c.coverage.count >= 3)) {
        Some(KnowledgeInjectionReason::LexicalHighConfidence)
    } else if c.semantic_seen && is_similar(c.semantic_similarity, SEMANTIC_HIGH_SIMILARITY) {
        Some(KnowledgeInjectionReason::SemanticHighConfidence)
    } else {
        None
    }
}

fn has_similarity(s: Option<i64>, least: i64) -> (r: bool)
    ensures
        r == is_similar(s, least),
{
    match s {
        Some(x) => x >= least,
        None => false,
    }
}

pub fn high_confidence_reason(c: &RankedCandidate) -> (r: Option<KnowledgeInjectionReason>)
    ensures
        r == confidence(c.shown()),
{
    if c.lexical_seen && c.semantic_seen && c.coverage.is_at_least(28, 100) && has_similarity(
        c.semantic_similarity,
        HYBRID_MIN_SIMILARITY,
    ) {
        return Some(KnowledgeInjectionReason::HybridAgreement);
    }
    if c.lexical_seen && (c.exact_identifier_match || (c.coverage.is_at_least(55, 100)
        && c.coverage.count >= 3)) {
        return Some(KnowledgeInjectionReason::LexicalHighConfidence);
    }
    if c.semantic_seen && has_similarity(c.semantic_similarity, SEMANTIC_HIGH_SIMILARITY) {
        return Some(KnowledgeInjectionReason::SemanticHighConfidence);
    }
    None
}

/// By what a candidate is ordered before a model is asked.
#[derive(Debug, Clone, Copy, PartialEq, Eq, Structural)]
pub enum ConfidenceBasis {
    /// An identifier of the query stands in the chunk.
    Identifier,
    /// The coverage, above all similarities.
    Coverage,
    /// The similarity of a chunk that was found both ways.
    Agreement,
    Similarity,
}

pub open spec fn basis(c: CandidateView) -> ConfidenceBasis {
    if c.exact_identifier_match {
        ConfidenceBasis::Identifier
    } else if c.lexical_seen && c.coverage.reaches(55, 100) {
        ConfidenceBasis::Coverage
    } else if c.lexical_seen && c.semantic_seen && c.coverage.reaches(28, 100) {
        ConfidenceBasis::Agreement
    } else {
        ConfidenceBasis::Similarity
    }
}

pub fn preflight_confidence(c: &RankedCandidate) -> (r: ConfidenceBasis)
    ensures
        r == basis(c.shown()),
{
    if c.exact_identifier_match {
        return ConfidenceBasis::Identifier;
    }
    if c.lexical_seen && c.coverage.is_at_least(55, 100) {
        return ConfidenceBasis::Coverage;
    }
    if c.lexical_seen && c.semantic_seen && c.coverage.is_at_least(28, 100) {
        return ConfidenceBasis::Agreement;
    }
    ConfidenceBasis::Similarity
}

/// Whether a candidate is worth showing to a model that asked.
pub open spec fn is_relevant(c: CandidateView) -> bool {
    ||| c.exact_identifier_match
    ||| c.coverage.reaches(1, 1)
    ||| c.coverage.reaches(14, 100) && c.coverage.count >= 2
    ||| is_similar(c.semantic_similarity, TOOL_MIN_SEMANTIC_SIMILARITY)
}

pub fn has_tool_relevance(c: &RankedCandidate) -> (r: bool)
    ensures
        r == is_relevant(c.shown()),
{
    c.exact_identifier_match || c.coverage.is_at_least(1, 1) || (c.coverage.is_at_least(14, 100)
        && c.coverage.count >= 2) || has_similarity(
        c.semantic_similarity,
        TOOL_MIN_SEMANTIC_SIMILARITY,
    )
}

/// The first reason of the candidates in order.
pub open spec fn first_reason(ranked: Seq<ScoredCandidate>) -> Option<KnowledgeInjectionReason>
    decreases ranked.len(),
{
    if ranked.len() == 0 {
        None
    } else {
        match confidence(ranked[0].candidate.shown()) {
            Some(r) => Some(r),
            None => first_reason(ranked.skip(1)),
        }
    }
}

/// Whether the candidates may go into a prompt unasked.
pub open spec fn decision_for(ranked: Seq<ScoredCandidate>) -> (bool, KnowledgeInjectionReason) {
    if ranked.len() == 0 {
        (false, KnowledgeInjectionReason::NoHit)
    } else {
        match first_reason(ranked) {
            Some(r) => (true, r),
            None => (false, KnowledgeInjectionReason::BelowThreshold),
        }
    }
}

pub fn injection_decision(ranked: &Vec<ScoredCandidate>) -> (r: KnowledgeInjectionDecision)
    ensures
        (r.allow_injection, r.reason) == decision_for(ranked@),
        r.threshold_version@ == THRESHOLD_VERSION@,
{
    if ranked.len() == 0 {
        return KnowledgeInjectionDecision {
            allow_injection: false,
            reason: KnowledgeInjectionReason::NoHit,
            threshold_version: THRESHOLD_VERSION.to_owned(),
        };
    }
    let mut i: usize = 0;
    assert(ranked@.skip(0) =~= ranked@);
    while i < ranked.len()
        invariant
            0 <= i <= ranked@.len(),
            ranked@.len() > 0,
            first_reason(ranked@.skip(i as int)) == first_reason(ranked@),
        decreases ranked@.len() - i,
    {
        proof {
            assert(ranked@.skip(i as int)[0] == ranked@[i as int]);
            assert(ranked@.skip(i as int).skip(1) =~= ranked@.skip(i + 1));
        }
        match high_confidence_reason(&ranked[i].candidate) {
            Some(reason) => {
                return KnowledgeInjectionDecision {
                    allow_injection: true,
                    reason,
                    threshold_version: THRESHOLD_VERSION.to_owned(),
                };
            },
            None => {},
        }
        i += 1;
    }
    KnowledgeInjectionDecision {
        allow_injection: false,
        reason: KnowledgeInjectionReason::BelowThreshold,
        threshold_version: THRESHOLD_VERSION.to_owned(),
    }
}

// Selecting.

/// What was chosen, and how much was left out for which reason.
#[derive(Debug)]
pub struct Selection {
    pub results: Vec<ScoredCandidate>,
    pub per_file_filtered_count: usize,
    pub duplicate_body_filtered_count: usize,
    pub duplicate_section_filtered_count: usize,
    pub low_relevance_filtered_count: usize,
    pub result_limit_reached: bool,
}

pub struct SelectView {
    pub results: Seq<ScoredCandidate>,
    /// Digests of the texts seen so far.
    pub bodies: Seq<Seq<char>>,
    /// Note and headings of the sections chosen so far.
    pub sections: Seq<(Seq<char>, Option<Seq<char>>)>,
    pub per_file: nat,
    pub duplicate_body: nat,
    pub duplicate_section: nat,
    pub low_relevance: nat,
    pub limit_reached: bool,
}

pub open spec fn nothing_selected() -> SelectView {
    SelectView {
        results: Seq::empty(),
        bodies: Seq::empty(),
        sections: Seq::empty(),
        per_file: 0,
        duplicate_body: 0,
        duplicate_section: 0,
        low_relevance: 0,
        limit_reached: false,
    }
}

/// The number of chosen chunks of a note.
pub open spec fn of_file(results: Seq<ScoredCandidate>, path: Seq<char>) -> nat
    decreases results.len(),
{
    if results.len() == 0 {
        0
    } else {
        of_file(results.drop_last(), path) + if results.last().candidate.result.relative_path@ == path {
            1nat
        } else {
            0
        }
    }
}

pub open spec fn section_of(c: ScoredCandidate) -> (Seq<char>, Option<Seq<char>>) {
    (c.candidate.result.relative_path@, text::opt_view(c.candidate.result.heading_path))
}

/// Whether the candidate is not good enough.
pub open spec fn is_too_weak(c: ScoredCandidate, options: SearchOptions, allow: bool) -> bool {
    ||| options.high_confidence_only && (confidence(c.candidate.shown()) is None || !allow)
    ||| options.filter_low_relevance && !is_relevant(c.candidate.shown())
}

/// Decides on one more candidate.
pub open spec fn consider(st: SelectView, c: ScoredCandidate, options: SearchOptions, allow: bool) -> SelectView {
    let body = terms::digest(c.candidate.result.body@);
    if st.limit_reached {
        st
    } else if st.results.len() >= options.result_limit {
        SelectView { limit_reached: true, ..st }
    } else if is_too_weak(c, options, allow) {
        SelectView { low_relevance: st.low_relevance + 1, ..st }
    } else if of_file(st.results, c.candidate.result.relative_path@) >= options.max_results_per_file {
        SelectView { per_file: st.per_file + 1, ..st }
    } else if st.bodies.contains(body) {
        SelectView { duplicate_body: st.duplicate_body + 1, ..st }
    } else if options.expansion == ExpansionMode::Section && st.sections.contains(section_of(c)) {
        SelectView {
            bodies: st.bodies.push(body),
            duplicate_section: st.duplicate_section + 1,
            ..st
        }
    } else {
        SelectView {
            results: st.results.push(c),
            bodies: st.bodies.push(body),
            sections: st.sections.push(section_of(c)),
            ..st
        }
    }
}

/// The decisions on all candidates in order.
pub open spec fn considered(ranked: Seq<ScoredCandidate>, options: SearchOptions, allow: bool) -> SelectView
    decreases ranked.len(),
{
    if ranked.len() == 0 {
        nothing_selected()
    } else {
        consider(considered(ranked.drop_last(), options, allow), ranked.last(), options, allow)
    }
}

impl Selection {
    pub open spec fn is_for(self, st: SelectView) -> bool {
        &&& self.results@ == st.results
        &&& self.per_file_filtered_count == st.per_file
        &&& self.duplicate_body_filtered_count == st.duplicate_body
        &&& self.duplicate_section_filtered_count == st.duplicate_section
        &&& self.low_relevance_filtered_count == st.low_relevance
        &&& self.result_limit_reached == st.limit_reached
    }
}

fn count_of_file(results: &Vec<ScoredCandidate>, path: &String) -> (r: usize)
    ensures
        r == of_file(results@, path@),
        r <= results@.len(),
{
    let mut n: usize = 0;
    let mut i: usize = 0;
    assert(results@.take(0) =~= Seq::empty());
    while i < results.len()
        invariant
            0 <= i <= results@.len(),
            n <= i,
            n == of_file(results@.take(i as int), path@),
        decreases results@.len() - i,
    {
        assert(results@.take(i + 1).drop_last() =~= results@.take(i as int));
        if results[i].candidate.result.relative_path == *path {
            n = n + 1;
        }
        i += 1;
    }
    assert(results@.take(i as int) =~= results@);
    n
}

spec fn section_views(v: Seq<(String, Option<String>)>) -> Seq<(Seq<char>, Option<Seq<char>>)> {
    Seq::new(v.len(), |i: int| (v[i].0@, text::opt_view(v[i].1)))
}

fn has_section(v: &Vec<(String, Option<String>)>, path: &String, heading: &Option<String>) -> (r: bool)
    ensures
        r == section_views(v@).contains((path@, text::opt_view(*heading))),
{
    let ghost all = section_views(v@);
    let ghost key = (path@, text::opt_view(*heading));
    let mut i: usize = 0;
    while i < v.len()
        invariant
            0 <= i <= v@.len(),
            all == section_views(v@),
            key == (path@, text::opt_view(*heading)),
            forall|k: int| 0 <= k < i ==> all[k] != key,
        decreases v@.len() - i,
    {
        assert(all[i as int] == (v@[i as int].0@, text::opt_view(v@[i as int].1)));
        if v[i].0 == *path && text::same_option(&v[i].1, heading) {
            assert(all[i as int] == key);
            return true;
        }
        i += 1;
    }
    false
}

pub fn select_results(
    ranked: Vec<ScoredCandidate>,
    options: SearchOptions,
    injection: &KnowledgeInjectionDecision,
) -> (r: Selection)
    ensures
        r.is_for(considered(ranked@, options, injection.allow_injection)),
{
    let ghost all = ranked@;
    let ghost allow = injection.allow_injection;
    let n: usize = ranked.len();
    let mut rest = ranked;
    let mut selected: Vec<ScoredCandidate> = Vec::new();
    let mut bodies: Vec<String> = Vec::new();
    let mut sections: Vec<(String, Option<String>)> = Vec::new();
    let mut per_file: usize = 0;
    let mut duplicate_body: usize = 0;
    let mut duplicate_section: usize = 0;
    let mut low_relevance: usize = 0;
    let mut limit_reached = false;
    let mut i: usize = 0;
    proof {
        assert(all.take(0) =~= Seq::empty());
        assert(text::views(bodies@) =~= Seq::empty());
        assert(section_views(sections@) =~= Seq::empty());
        assert(rest@ =~= all.skip(0));
    }
    while rest.len() > 0
        invariant
            0 <= i <= n,
            n == all.len(),
            rest@ == all.skip(i as int),
            allow == injection.allow_injection,
            per_file <= i,
            duplicate_body <= i,
            duplicate_section <= i,
            low_relevance <= i,
            ({
                let st = considered(all.take(i as int), options, allow);
                &&& selected@ == st.results
                &&& text::views(bodies@) == st.bodies
                &&& section_views(sections@) == st.sections
                &&& per_file == st.per_file
                &&& duplicate_body == st.duplicate_body
                &&& duplicate_section == st.duplicate_section
                &&& low_relevance == st.low_relevance
                &&& limit_reached == st.limit_reached
            }),
        decreases rest@.len(),
    {
        let ghost st = considered(all.take(i as int), options, allow);
        let c = rest.remove(0);
        proof {
            assert(c == all[i as int]);
            assert(rest@ =~= all.skip(i + 1));
            assert(all.take(i + 1).drop_last() =~= all.take(i as int));
            assert(all.take(i + 1).last() == c);
            assert(considered(all.take(i + 1), options, allow) == consider(st, c, options, allow));
        }
        i += 1;
        if limit_reached {
            continue ;
        }
        if selected.len() >= options.result_limit {
            limit_reached = true;
            continue ;
        }
        let weak = (options.high_confidence_only && (high_confidence_reason(&c.candidate).is_none()
            || !injection.allow_injection)) || (options.filter_low_relevance && !has_tool_relevance(
            &c.candidate,
        ));
        if weak {
            low_relevance = low_relevance + 1;
            continue ;
        }
        if count_of_file(&selected, &c.candidate.result.relative_path)
            >= options.max_results_per_file {
            per_file = per_file + 1;
            continue ;
        }
        let body = terms::hash_text(c.candidate.result.body.as_str());
        if terms::holds(&bodies, &body) {
            duplicate_body = duplicate_body + 1;
            continue ;
        }
        let ghost seen = text::views(bodies@);
        let ghost digest = body@;
        bodies.push(body);
        assert(text::views(bodies@) =~= seen.push(digest));
        if options.expansion == ExpansionMode::Section && has_section(
            &sections,
            &c.candidate.result.relative_path,
            &c.candidate.result.heading_path,
        ) {
            duplicate_section = duplicate_section + 1;
            continue ;
        }
        let ghost known = section_views(sections@);
        sections.push(
            (
                c.candidate.result.relative_path.clone(),
                text::copy_option(&c.candidate.result.heading_path),
            ),
        );
        assert(section_views(sections@) =~= known.push(section_of(c)));
        selected.push(c);
    }
    proof {
        assert(i == n);
        assert(all.take(i as int) =~= all);
    }
    Selection {
        results: selected,
        per_file_filtered_count: per_file,
        duplicate_body_filtered_count: duplicate_body,
        duplicate_section_filtered_count: duplicate_section,
        low_relevance_filtered_count: low_relevance,
        result_limit_reached: limit_reached,
    }
}

pub open spec fn selection_reasons(reasons: Seq<KnowledgeTruncationReason>, st: SelectView) -> Seq<
    KnowledgeTruncationReason,
> {
    let a = if st.per_file > 0 {
        evidence::with_reason(reasons, KnowledgeTruncationReason::PerFileLimit)
    } else {
        reasons
    };
    if st.limit_reached {
        evidence::with_reason(a, KnowledgeTruncationReason::ResultLimit)
    } else {
        a
    }
}

/// Whether the numbers tell of the selection, and else are as before.
pub open spec fn tells_selection(
    after: KnowledgeEvidenceDiagnostics,
    before: KnowledgeEvidenceDiagnostics,
    st: SelectView,
) -> bool {
    &&& after.truncation_reasons@ == selection_reasons(before.truncation_reasons@, st)
    &&& after == (KnowledgeEvidenceDiagnostics {
        selected_hit_count: st.results.len() as usize,
        per_file_filtered_count: st.per_file as usize,
        duplicate_body_filtered_count: st.duplicate_body as usize,
        duplicate_section_filtered_count: st.duplicate_section as usize,
        low_relevance_filtered_count: st.low_relevance as usize,
        truncation_reasons: after.truncation_reasons,
        ..before
    })
}

fn apply_selection_diagnostics(
    selection: &Selection,
    diagnostics: &mut KnowledgeEvidenceDiagnostics,
    Ghost(st): Ghost<SelectView>,
)
    requires
        selection.is_for(st),
    ensures
        tells_selection(*final(diagnostics), *old(diagnostics), st),
{
    diagnostics.selected_hit_count = selection.results.len();
    diagnostics.per_file_filtered_count = selection.per_file_filtered_count;
    diagnostics.duplicate_body_filtered_count = selection.duplicate_body_filtered_count;
    diagnostics.duplicate_section_filtered_count = selection.duplicate_section_filtered_count;
    diagnostics.low_relevance_filtered_count = selection.low_relevance_filtered_count;
    if selection.per_file_filtered_count > 0 {
        evidence::push_reason_once(
            &mut diagnostics.truncation_reasons,
            KnowledgeTruncationReason::PerFileLimit,
        );
    }
    if selection.result_limit_reached {
        evidence::push_reason_once(
            &mut diagnostics.truncation_reasons,
            KnowledgeTruncationReason::ResultLimit,
        );
    }
}

// Expanding.

/// A chunk to show, with how it came in.
#[derive(Debug)]
pub struct ExpandedResult {
    pub result: KnowledgeSearchResult,
    pub recall_type: KnowledgeRecallType,
    pub score: Option<String>,
}

pub open spec fn recalled(c: CandidateView) -> KnowledgeRecallType {
    if c.lexical_seen && c.semantic_seen {
        KnowledgeRecallType::Hybrid
    } else if c.semantic_seen {
        KnowledgeRecallType::Semantic
    } else {
        KnowledgeRecallType::Lexical
    }
}

pub fn recall_type(c: &RankedCandidate) -> (r: KnowledgeRecallType)
    ensures
        r == recalled(c.shown()),
{
    if c.lexical_seen && c.semantic_seen {
        KnowledgeRecallType::Hybrid
    } else if c.semantic_seen {
        KnowledgeRecallType::Semantic
    } else {
        KnowledgeRecallType::Lexical
    }
}

/// The chosen chunks themselves.
pub open spec fn primary(selected: Seq<ScoredCandidate>) -> Seq<ExpandedResult> {
    Seq::new(
        selected.len(),
        |i: int|
            ExpandedResult {
                result: selected[i].candidate.result,
                recall_type: recalled(selected[i].candidate.shown()),
                score: Some(selected[i].score_text),
            },
    )
}

pub open spec fn has_chunk(v: Seq<ExpandedResult>, chunk_id: Seq<char>) -> bool {
    exists|i: int| 0 <= i < v.len() && (#[trigger] v[i]).result.chunk_id@ == chunk_id
}

/// The list with a neighbour, unless it is there.
pub open spec fn with_neighbour(v: Seq<ExpandedResult>, chunk: KnowledgeSearchResult) -> Seq<ExpandedResult> {
    if has_chunk(v, chunk.chunk_id@) {
        v
    } else {
        v.push(
            ExpandedResult {
                result: chunk,
                recall_type: KnowledgeRecallType::Section,
                score: None,
            },
        )
    }
}

pub open spec fn with_neighbours(v: Seq<ExpandedResult>, chunks: Seq<KnowledgeSearchResult>) -> Seq<ExpandedResult>
    decreases chunks.len(),
{
    if chunks.len() == 0 {
        v
    } else {
        with_neighbour(with_neighbours(v, chunks.drop_last()), chunks.last())
    }
}

/// The chosen chunks, and behind them the neighbours of each in turn.
pub open spec fn expanded(v: Seq<ExpandedResult>, lists: Seq<Seq<KnowledgeSearchResult>>) -> Seq<ExpandedResult>
    decreases lists.len(),
{
    if lists.len() == 0 {
        v
    } else {
        with_neighbours(expanded(v, lists.drop_last()), lists.last())
    }
}

/// What is looked for around a chosen chunk.
pub open spec fn wanted(c: ScoredCandidate, mode: ExpansionMode) -> Neighbours {
    if mode == ExpansionMode::Section {
        Neighbours::Section {
            document_id: c.candidate.result.document_id,
            heading_path: c.candidate.result.heading_path,
        }
    } else {
        Neighbours::Adjacent {
            document_id: c.candidate.result.document_id,
            chunk_index: c.candidate.result.chunk_index,
        }
    }
}

/// Whether the lists are the neighbours of the chosen chunks.
pub open spec fn are_neighbour_lists(
    lists: Seq<Seq<KnowledgeSearchResult>>,
    store: KnowledgeStore,
    selected: Seq<ScoredCandidate>,
    mode: ExpansionMode,
) -> bool {
    if mode == ExpansionMode::Nothing {
        lists.len() == 0
    } else {
        &&& lists.len() == selected.len()
        &&& forall|i: int|
            0 <= i < lists.len() ==> lookup::is_ordered_list(
                #[trigger] lists[i],
                lookup::neighbours(store@.chunks, wanted(selected[i], mode)),
            )
    }
}

fn add_neighbours(v: &mut Vec<ExpandedResult>, chunks: Vec<KnowledgeSearchResult>)
    ensures
        final(v)@ == with_neighbours(old(v)@, chunks@),
{
    let ghost start = v@;
    let mut i: usize = 0;
    assert(chunks@.take(0) =~= Seq::empty());
    while i < chunks.len()
        invariant
            0 <= i <= chunks@.len(),
            v@ == with_neighbours(start, chunks@.take(i as int)),
        decreases chunks@.len() - i,
    {
        proof {
            assert(chunks@.take(i + 1).drop_last() =~= chunks@.take(i as int));
            assert(chunks@.take(i + 1).last() == chunks@[i as int]);
        }
        let mut present = false;
        let mut j: usize = 0;
        while j < v.len()
            invariant
                0 <= j <= v@.len(),
                i < chunks@.len(),
                present == exists|k: int|
                    0 <= k < j && (#[trigger] v@[k]).result.chunk_id@ == chunks@[i as int].chunk_id@,
            decreases v@.len() - j,
        {
            if v[j].result.chunk_id == chunks[i].chunk_id {
                assert(v@[j as int].result.chunk_id@ == chunks@[i as int].chunk_id@);
                present = true;
            }
            j += 1;
        }
        assert(present == has_chunk(v@, chunks@[i as int].chunk_id@));
        if !present {
            v.push(
                ExpandedResult {
                    result: chunks[i].clone(),
                    recall_type: KnowledgeRecallType::Section,
                    score: None,
                },
            );
        }
        i += 1;
    }
    assert(chunks@.take(i as int) =~= chunks@);
}

pub fn expand_results(store: &KnowledgeStore, selected: &Vec<ScoredCandidate>, mode: ExpansionMode) -> (r: Vec<
    ExpandedResult,
>)
    ensures
        exists|lists: Seq<Seq<KnowledgeSearchResult>>|
            #![trigger are_neighbour_lists(lists, *store, selected@, mode)]
            are_neighbour_lists(lists, *store, selected@, mode) && r@ == expanded(
                primary(selected@),
                lists,
            ),
{
    let mut out: Vec<ExpandedResult> = Vec::new();
    let mut i: usize = 0;
    while i < selected.len()
        invariant
            0 <= i <= selected@.len(),
            out@ == primary(selected@).take(i as int),
        decreases selected@.len() - i,
    {
        let c = &selected[i].candidate;
        out.push(
            ExpandedResult {
                result: c.result.clone(),
                recall_type: recall_type(c),
                score: Some(selected[i].score_text.clone()),
            },
        );
        i += 1;
        assert(out@ =~= primary(selected@).take(i as int));
    }
    assert(out@ =~= primary(selected@));
    let ghost mut lists: Seq<Seq<KnowledgeSearchResult>> = Seq::empty();
    if mode == ExpansionMode::Nothing {
        assert(are_neighbour_lists(lists, *store, selected@, mode));
        return out;
    }
    let mut j: usize = 0;
    while j < selected.len()
        invariant
            0 <= j <= selected@.len(),
            mode != ExpansionMode::Nothing,
            lists.len() == j,
            forall|k: int|
                0 <= k < j ==> lookup::is_ordered_list(
                    #[trigger] lists[k],
                    lookup::neighbours(store@.chunks, wanted(selected@[k], mode)),
                ),
            out@ == expanded(primary(selected@), lists),
        decreases selected@.len() - j,
    {
        let result = &selected[j].candidate.result;
        let chunks = if mode == ExpansionMode::Section {
            store.section_chunks(result.document_id, text::copy_option(&result.heading_path))
        } else {
            store.adjacent_chunks(result.document_id, result.chunk_index)
        };
        let ghost before = lists;
        proof {
            lists = lists.push(chunks@);
            assert(lists.drop_last() =~= before);
            assert(lists.last() == chunks@);
        }
        add_neighbours(&mut out, chunks);
        j += 1;
    }
    assert(are_neighbour_lists(lists, *store, selected@, mode));
    out
}

// The budget.

/// Items so far, the characters that they take, and whether something was cut.
pub struct BudgetView {
    pub items: Seq<ItemView>,
    pub chars: int,
    pub truncated: bool,
    pub full: bool,
}

/// An item as far as it differs from its chunk.
pub struct ItemView {
    pub source: ExpandedResult,
    pub excerpt: Seq<char>,
}

/// The text of a chunk in the room that is left.
pub open spec fn excerpt(body: Seq<char>, remaining: int) -> Seq<char> {
    let t = text::trimmed(body);
    if t.len() > remaining {
        text::first_chars(t, if remaining >= 16 {
            remaining - 16
        } else {
            0
        }) + "\n[片段已裁剪]"@
    } else {
        t
    }
}

/// How much of the prompt an item takes.
pub open spec fn item_len(e: ExpandedResult, excerpt: Seq<char>) -> int {
    let head = "\n\n---\n"@ + (if e.recall_type == KnowledgeRecallType::Section {
        "片段：章节补充\n"@
    } else {
        ""@
    }) + "来源："@ + e.result.relative_path@ + evidence::lines_shown(
        e.result.start_line,
        e.result.end_line,
    ) + evidence::section_shown(
        text::opt_view(e.result.heading_path),
        text::opt_view(e.result.document_title),
    ) + "\n正文：\n"@ + excerpt;
    head.len() as int
}

/// Takes one more chunk, if there is room.
pub open spec fn fill(b: BudgetView, e: ExpandedResult, budget: int) -> BudgetView {
    if b.full {
        b
    } else if b.chars >= budget {
        BudgetView { truncated: true, full: true, ..b }
    } else {
        let remaining = budget - b.chars;
        let x = excerpt(e.result.body@, remaining);
        BudgetView {
            items: b.items.push(ItemView { source: e, excerpt: x }),
            chars: b.chars + item_len(e, x),
            truncated: b.truncated || text::trimmed(e.result.body@).len() > remaining,
            full: false,
        }
    }
}

pub open spec fn filled(results: Seq<ExpandedResult>, budget: int) -> BudgetView
    decreases results.len(),
{
    if results.len() == 0 {
        BudgetView {
            items: Seq::empty(),
            chars: evidence::KNOWLEDGE_CONTEXT_PREAMBLE@.len() as int,
            truncated: false,
            full: false,
        }
    } else {
        fill(filled(results.drop_last(), budget), results.last(), budget)
    }
}

/// Whether the item shows the chunk with this excerpt.
pub open spec fn is_item(item: KnowledgeEvidenceItem, v: ItemView) -> bool {
    &&& item.chunk_id == v.source.result.chunk_id
    &&& item.relative_path == v.source.result.relative_path
    &&& item.document_title == v.source.result.document_title
    &&& item.heading_path == v.source.result.heading_path
    &&& item.start_line == v.source.result.start_line
    &&& item.end_line == v.source.result.end_line
    &&& item.score == v.source.score
    &&& item.recall_type == v.source.recall_type
    &&& item.body_excerpt@ == v.excerpt
}

pub open spec fn are_items(items: Seq<KnowledgeEvidenceItem>, v: Seq<ItemView>) -> bool {
    items.len() == v.len() && forall|i: int| 0 <= i < v.len() ==> is_item(#[trigger] items[i], v[i])
}

fn add_up(a: usize, b: usize) -> (r: usize)
    ensures
        r == (if a + b <= usize::MAX {
            a + b
        } else {
            usize::MAX as int
        }),
{
    if a <= usize::MAX - b {
        a + b
    } else {
        usize::MAX
    }
}

/// The chunks as items, as far as the budget goes.
pub fn evidence_items_within_budget(results: &Vec<ExpandedResult>, total_char_budget: usize) -> (r: (
    Vec<KnowledgeEvidenceItem>,
    bool,
))
    ensures
        are_items(r.0@, filled(results@, total_char_budget as int).items),
        r.1 == filled(results@, total_char_budget as int).truncated,
{
    let ghost budget = total_char_budget as int;
    let mut chars: usize = evidence::KNOWLEDGE_CONTEXT_PREAMBLE.unicode_len();
    let mut items: Vec<KnowledgeEvidenceItem> = Vec::new();
    let mut truncated = false;
    let mut full = false;
    let mut i: usize = 0;
    assert(results@.take(0) =~= Seq::empty());
    while i < results.len()
        invariant
            0 <= i <= results@.len(),
            budget == total_char_budget,
            ({
                let b = filled(results@.take(i as int), budget);
                &&& are_items(items@, b.items)
                &&& chars == (if b.chars <= usize::MAX {
                    b.chars
                } else {
                    usize::MAX as int
                })
                &&& truncated == b.truncated
                &&& full == b.full
                &&& b.chars >= 0
            }),
        decreases results@.len() - i,
    {
        let ghost b = filled(results@.take(i as int), budget);
        proof {
            assert(results@.take(i + 1).drop_last() =~= results@.take(i as int));
            assert(results@.take(i + 1).last() == results@[i as int]);
        }
        let e = &results[i];
        i += 1;
        if full {
            continue ;
        }
        if chars >= total_char_budget {
            truncated = true;
            full = true;
            continue ;
        }
        let remaining: usize = total_char_budget - chars;
        let body = text::trim(e.result.body.as_str());
        let n: usize = body.unicode_len();
        let excerpt_text: String = if n > remaining {
            truncated = true;
            let room: usize = if remaining >= 16 {
                remaining - 16
            } else {
                0
            };
            let mut s = text::take_chars(body, room).to_owned();
            s.append("\n[片段已裁剪]");
            s
        } else {
            body.to_owned()
        };
        assert(excerpt_text@ == excerpt(e.result.body@, remaining as int));
        let item = KnowledgeEvidenceItem {
            chunk_id: e.result.chunk_id.clone(),
            relative_path: e.result.relative_path.clone(),
            document_title: text::copy_option(&e.result.document_title),
            heading_path: text::copy_option(&e.result.heading_path),
            start_line: e.result.start_line,
            end_line: e.result.end_line,
            score: text::copy_option(&e.score),
            recall_type: e.recall_type,
            body_excerpt: excerpt_text,
        };
        let shown: usize = evidence::rendered_item(&item).as_str().unicode_len();
        assert(shown == item_len(*e, item.body_excerpt@));
        chars = add_up(chars, shown);
        items.push(item);
    }
    assert(results@.take(i as int) =~= results@);
    (items, truncated)
}

// Evidence.

pub open spec fn section_items(v: Seq<ExpandedResult>) -> nat
    decreases v.len(),
{
    if v.len() == 0 {
        0
    } else {
        section_items(v.drop_last()) + if v.last().recall_type == KnowledgeRecallType::Section {
            1nat
        } else {
            0
        }
    }
}

fn count_section_items(v: &Vec<ExpandedResult>) -> (r: usize)
    ensures
        r == section_items(v@),
{
    let mut n: usize = 0;
    let mut i: usize = 0;
    assert(v@.take(0) =~= Seq::empty());
    while i < v.len()
        invariant
            0 <= i <= v@.len(),
            n <= i,
            n == section_items(v@.take(i as int)),
        decreases v@.len() - i,
    {
        assert(v@.take(i + 1).drop_last() =~= v@.take(i as int));
        if v[i].recall_type == KnowledgeRecallType::Section {
            n = n + 1;
        }
        i += 1;
    }
    assert(v@.take(i as int) =~= v@);
    n
}

/// How far the evidence can be relied on.
pub open spec fn status_for(candidates: usize, items: nat, reasons: nat) -> KnowledgeEvidenceStatus {
    if candidates == 0 {
        KnowledgeEvidenceStatus::NoHit
    } else if items == 0 {
        KnowledgeEvidenceStatus::LowRelevance
    } else if reasons == 0 {
        KnowledgeEvidenceStatus::Complete
    } else {
        KnowledgeEvidenceStatus::Truncated
    }
}

/// Whether this is the evidence of the chunks to show.
pub open spec fn is_evidence(
    e: KnowledgeEvidence,
    shown: Seq<ExpandedResult>,
    options: SearchOptions,
    before: KnowledgeEvidenceDiagnostics,
    injection: KnowledgeInjectionDecision,
) -> bool {
    let b = filled(shown, options.total_char_budget as int);
    &&& are_items(e.items@, b.items)
    &&& e.injection == injection
    &&& e.failure is None
    &&& e.diagnostics.truncation_reasons@ == (if b.truncated {
        evidence::with_reason(
            before.truncation_reasons@,
            KnowledgeTruncationReason::CharacterBudget,
        )
    } else {
        before.truncation_reasons@
    })
    &&& e.diagnostics == (KnowledgeEvidenceDiagnostics {
        expanded_chunk_count: shown.len() as usize,
        section_expanded_count: section_items(shown) as usize,
        returned_chunk_count: e.items@.len() as usize,
        source_count: evidence::sources(e.items@) as usize,
        truncation_reasons: e.diagnostics.truncation_reasons,
        ..before
    })
    &&& e.status == status_for(
        before.fused_candidate_count,
        e.items@.len(),
        e.diagnostics.truncation_reasons@.len(),
    )
}

/// The evidence of the chunks to show.
pub fn finish_evidence(
    shown: &Vec<ExpandedResult>,
    options: SearchOptions,
    diagnostics: KnowledgeEvidenceDiagnostics,
    injection: KnowledgeInjectionDecision,
) -> (r: KnowledgeEvidence)
    ensures
        is_evidence(r, shown@, options, diagnostics, injection),
{
    let mut diagnostics = diagnostics;
    diagnostics.expanded_chunk_count = shown.len();
    diagnostics.section_expanded_count = count_section_items(shown);
    let (items, cut) = evidence_items_within_budget(shown, options.total_char_budget);
    diagnostics.returned_chunk_count = items.len();
    diagnostics.source_count = evidence::count_sources(&items);
    if cut {
        evidence::push_reason_once(
            &mut diagnostics.truncation_reasons,
            KnowledgeTruncationReason::CharacterBudget,
        );
    }
    let status = if diagnostics.fused_candidate_count == 0 {
        KnowledgeEvidenceStatus::NoHit
    } else if items.len() == 0 {
        KnowledgeEvidenceStatus::LowRelevance
    } else if diagnostics.truncation_reasons.len() == 0 {
        KnowledgeEvidenceStatus::Complete
    } else {
        KnowledgeEvidenceStatus::Truncated
    };
    KnowledgeEvidence { status, items, diagnostics, injection, failure: None }
}

/// Whether this is the evidence of the ranked candidates.
pub open spec fn is_built(
    e: KnowledgeEvidence,
    store: KnowledgeStore,
    ranked: Seq<ScoredCandidate>,
    profile: KnowledgeSearchProfile,
    before: KnowledgeEvidenceDiagnostics,
    told: KnowledgeEvidenceDiagnostics,
    lists: Seq<Seq<KnowledgeSearchResult>>,
) -> bool {
    let options = options_for(profile);
    let decided = decision_for(ranked);
    let st = considered(ranked, options, decided.0);
    &&& tells_selection(told, before, st)
    &&& are_neighbour_lists(lists, store, st.results, options.expansion)
    &&& (e.injection.allow_injection, e.injection.reason) == decided
    &&& e.injection.threshold_version@ == THRESHOLD_VERSION@
    &&& is_evidence(e, expanded(primary(st.results), lists), options, told, e.injection)
}

/// The evidence of the ranked candidates.
pub fn build_evidence(
    store: &KnowledgeStore,
    ranked: Vec<ScoredCandidate>,
    profile: KnowledgeSearchProfile,
    diagnostics: KnowledgeEvidenceDiagnostics,
) -> (r: KnowledgeEvidence)
    ensures
        exists|told: KnowledgeEvidenceDiagnostics, lists: Seq<Seq<KnowledgeSearchResult>>| #[trigger]
            is_built(r, *store, ranked@, profile, diagnostics, told, lists),
{
    let options = SearchOptions::for_profile(profile);
    let injection = injection_decision(&ranked);
    let ghost given = ranked@;
    let ghost before = diagnostics;
    let ghost st = considered(given, options, injection.allow_injection);
    let selection = select_results(ranked, options, &injection);
    let mut told = diagnostics;
    apply_selection_diagnostics(&selection, &mut told, Ghost(st));
    let shown = expand_results(store, &selection.results, options.expansion);
    let ghost lists = choose|lists: Seq<Seq<KnowledgeSearchResult>>|
        #![trigger are_neighbour_lists(lists, *store, selection.results@, options.expansion)]
        are_neighbour_lists(lists, *store, selection.results@, options.expansion) && shown@
            == expanded(primary(selection.results@), lists);
    let ghost t = told;
    let r = finish_evidence(&shown, options, told, injection);
    assert(is_built(r, *store, given, profile, before, t, lists));
    r
}

// Laws.

/// No more chunks of one note are chosen than allowed, and no more in all.
pub proof fn limits_are_kept(ranked: Seq<ScoredCandidate>, options: SearchOptions, allow: bool, path: Seq<char>)
    ensures
        considered(ranked, options, allow).results.len() <= options.result_limit,
        of_file(considered(ranked, options, allow).results, path) <= options.max_results_per_file,
    decreases ranked.len(),
{
    if ranked.len() > 0 {
        let st = considered(ranked.drop_last(), options, allow);
        let c = ranked.last();
        limits_are_kept(ranked.drop_last(), options, allow, path);
        let next = consider(st, c, options, allow);
        assert(st.results.push(c).drop_last() =~= st.results);
        if next.results.len() > st.results.len() {
            assert(next.results == st.results.push(c));
        }
    }
}

/// Every candidate is chosen or counted under one reason, up to the one at which the limit
/// was met.
pub proof fn every_candidate_is_accounted_for(ranked: Seq<ScoredCandidate>, options: SearchOptions, allow: bool)
    ensures
        ({
            let st = considered(ranked, options, allow);
            let counted = st.results.len() + st.low_relevance + st.per_file + st.duplicate_body
                + st.duplicate_section;
            &&& !st.limit_reached ==> counted == ranked.len()
            &&& st.limit_reached ==> counted < ranked.len()
        }),
    decreases ranked.len(),
{
    if ranked.len() > 0 {
        every_candidate_is_accounted_for(ranked.drop_last(), options, allow);
    }
}

/// Before a model was asked, nothing becomes evidence without high confidence.
pub proof fn unasked_evidence_is_confident(ranked: Seq<ScoredCandidate>, allow: bool, i: int)
    requires
        0 <= i < considered(ranked, options_for(KnowledgeSearchProfile::Preflight), allow).results.len(),
    ensures
        allow,
        confidence(
            considered(
                ranked,
                options_for(KnowledgeSearchProfile::Preflight),
                allow,
            ).results[i].candidate.shown(),
        ) is Some,
    decreases ranked.len(),
{
    let options = options_for(KnowledgeSearchProfile::Preflight);
    if ranked.len() > 0 {
        let st = considered(ranked.drop_last(), options, allow);
        if i < st.results.len() {
            unasked_evidence_is_confident(ranked.drop_last(), allow, i);
        }
    }
}

/// The chosen chunks come first, whatever stands around them.
pub proof fn chosen_chunks_come_first(v: Seq<ExpandedResult>, lists: Seq<Seq<KnowledgeSearchResult>>, i: int)
    requires
        0 <= i < v.len(),
    ensures
        i < expanded(v, lists).len(),
        expanded(v, lists)[i] == v[i],
    decreases lists.len(),
{
    if lists.len() > 0 {
        chosen_chunks_come_first(v, lists.drop_last(), i);
        lemma_prefix_stays(expanded(v, lists.drop_last()), lists.last(), i);
    }
}

proof fn lemma_prefix_stays(v: Seq<ExpandedResult>, chunks: Seq<KnowledgeSearchResult>, i: int)
    requires
        0 <= i < v.len(),
    ensures
        i < with_neighbours(v, chunks).len(),
        with_neighbours(v, chunks)[i] == v[i],
    decreases chunks.len(),
{
    if chunks.len() > 0 {
        lemma_prefix_stays(v, chunks.drop_last(), i);
    }
}

} // verus!
