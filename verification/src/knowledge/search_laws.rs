//! What holds of a search as a whole: nothing that was found is lost, the best candidates
//! stand first, and the best of them are handed on.
use vstd::prelude::*;
use vstd::string::*;

use crate::knowledge::evidence::{KnowledgeInjectionReason, KnowledgeRecallType};
use crate::knowledge::ranking;
use crate::knowledge::ranking::{
    CandidateView, Coverage, KnowledgeSearchProfile, RecallChannel, ScoredCandidate,
};
use crate::knowledge::selection;
use crate::knowledge::selection::{ExpandedResult, SearchOptions};
use crate::knowledge::store::KnowledgeSearchResult;
use crate::knowledge::terms;
use crate::text;

verus! {

// Order.

/// Of two texts, the one that ends first or has the smaller character at the first difference
/// comes first.
pub proof fn the_first_difference_decides(a: Seq<char>, b: Seq<char>, k: int)
    requires
        0 <= k <= a.len(),
        k < b.len(),
        a.take(k) == b.take(k),
        k < a.len() ==> (a[k] as int) < (b[k] as int),
    ensures
        terms::precedes(a, b),
        !terms::precedes(b, a),
    decreases k,
{
    terms::lemma_precedes_total(a, b);
    if k > 0 {
        assert(a[0] == a.take(k)[0] && b[0] == b.take(k)[0]);
        assert(a.skip(1).take(k - 1) =~= a.take(k).skip(1));
        assert(b.skip(1).take(k - 1) =~= b.take(k).skip(1));
        the_first_difference_decides(a.skip(1), b.skip(1), k - 1);
    }
}

/// No candidate stands before one with a larger number: the score where a model asked or in
/// place of a tool, the confidence before a model was asked. Of equal numbers, no candidate
/// stands before one with a smaller identifier.
pub proof fn better_candidates_stand_first(
    ranked: Seq<ScoredCandidate>,
    profile: KnowledgeSearchProfile,
    i: int,
    j: int,
)
    requires
        ranking::is_in_order(ranked, profile),
        0 <= i < j < ranked.len(),
    ensures
        profile == KnowledgeSearchProfile::Tool ==> ranked[i].score >= ranked[j].score,
        profile == KnowledgeSearchProfile::AutoFallback ==> ranked[i].score >= ranked[j].score,
        profile == KnowledgeSearchProfile::Preflight ==> ranked[i].confidence >= ranked[j].confidence,
        profile != KnowledgeSearchProfile::Preflight && ranked[i].score == ranked[j].score
            ==> !terms::precedes(
            ranked[j].candidate.result.chunk_id@,
            ranked[i].candidate.result.chunk_id@,
        ),
        profile == KnowledgeSearchProfile::Preflight && ranked[i].confidence == ranked[j].confidence
            ==> !terms::precedes(
            ranked[j].candidate.result.chunk_id@,
            ranked[i].candidate.result.chunk_id@,
        ),
{
    assert(ranking::leads(ranked[i], ranked[j], profile));
    terms::lemma_precedes_total(
        ranked[i].candidate.result.chunk_id@,
        ranked[j].candidate.result.chunk_id@,
    );
}

// Putting results together.

/// One more result goes to the candidate of its chunk, or makes one; its place is noted, and
/// the other candidates stay as they are. What full-text search returned is shown rather than
/// what the comparison of vectors returned, and the best similarity and coverage count.
pub proof fn a_result_goes_to_its_chunk(
    fused: Seq<CandidateView>,
    query: Seq<char>,
    result: KnowledgeSearchResult,
    rank: usize,
    channel: RecallChannel,
) -> (p: int)
    ensures
        ({
            let after = ranking::with_result(fused, query, result, rank, channel);
            let c = after[p];
            let known = 0 <= p < fused.len();
            &&& 0 <= p < after.len()
            &&& after.len() == (if known {
                fused.len()
            } else {
                fused.len() + 1
            })
            &&& forall|i: int|
                0 <= i < fused.len() && i != p ==> #[trigger] after[i] == fused[i] && (!known
                    ==> fused[i].result.chunk_id@ != result.chunk_id@)
            &&& c.result.chunk_id@ == result.chunk_id@
            &&& known ==> fused[p].result.chunk_id@ == result.chunk_id@
            &&& c.ranks == (if known {
                fused[p].ranks
            } else {
                Seq::empty()
            }).push(rank)
            &&& channel == RecallChannel::Lexical ==> c.result == result && c.lexical_seen
            &&& channel == RecallChannel::Semantic ==> c.semantic_seen && c.semantic_similarity is Some
                && c.semantic_similarity->0 >= result.score
            &&& channel == RecallChannel::Semantic && known && fused[p].lexical_seen ==> c.result
                == fused[p].result
            &&& channel == RecallChannel::Semantic && !(known && fused[p].lexical_seen) ==> c.result
                == result
            &&& known ==> {
                &&& c.lexical_seen == (fused[p].lexical_seen || channel == RecallChannel::Lexical)
                &&& c.semantic_seen == (fused[p].semantic_seen || channel == RecallChannel::Semantic)
                &&& channel == RecallChannel::Lexical ==> c.semantic_similarity
                    == fused[p].semantic_similarity
                &&& fused[p].semantic_similarity is Some ==> c.semantic_similarity->0
                    >= fused[p].semantic_similarity->0
                &&& channel == RecallChannel::Semantic ==> c.semantic_similarity->0 == result.score
                    || c.semantic_similarity == fused[p].semantic_similarity
                &&& fused[p].exact_identifier_match ==> c.exact_identifier_match
                &&& c.coverage == fused[p].coverage || c.coverage == ranking::coverage_of(
                    query,
                    ranking::judged_text(result),
                )
                &&& !(fused[p].coverage.total > 0 && c.coverage.total > 0 && fused[p].coverage.matched
                    * c.coverage.total > c.coverage.matched * fused[p].coverage.total)
            }
            &&& !known ==> {
                &&& c.lexical_seen == (channel == RecallChannel::Lexical)
                &&& c.semantic_seen == (channel == RecallChannel::Semantic)
                &&& c.semantic_similarity == (if channel == RecallChannel::Semantic {
                    Some(result.score)
                } else {
                    None
                })
            }
            &&& terms::shares_identifier(query, ranking::judged_text(result))
                ==> c.exact_identifier_match
        }),
{
    let id = result.chunk_id@;
    if exists|i: int| ranking::is_place(fused, id, i) {
        choose|i: int| ranking::is_place(fused, id, i)
    } else {
        assert forall|i: int| 0 <= i < fused.len() implies (#[trigger] fused[i]).result.chunk_id@ != id by {
            if fused[i].result.chunk_id@ == id {
                ranking::lemma_least_place(fused, id, i);
            }
        }
        fused.len() as int
    }
}

/// Whether the candidates hold one of the chunk that was found at this place of a list.
pub open spec fn is_found_at(fused: Seq<CandidateView>, chunk_id: Seq<char>, place: int) -> bool {
    exists|i: int|
        0 <= i < fused.len() && (#[trigger] fused[i]).result.chunk_id@ == chunk_id && fused[i].ranks.contains(
            place as usize,
        )
}

/// Every result of a search has a candidate with the result's place; no candidate is of a
/// chunk that was not found; and candidates from before keep their places.
pub proof fn no_result_is_lost(
    fused: Seq<CandidateView>,
    query: Seq<char>,
    results: Seq<KnowledgeSearchResult>,
    channel: RecallChannel,
)
    requires
        results.len() <= usize::MAX,
    ensures
        ({
            let after = ranking::with_results(fused, query, results, channel);
            &&& forall|k: int|
                0 <= k < results.len() ==> is_found_at(after, (#[trigger] results[k]).chunk_id@, k)
            &&& after.len() >= fused.len()
            &&& forall|i: int|
                0 <= i < fused.len() ==> (#[trigger] after[i]).result.chunk_id@
                    == fused[i].result.chunk_id@
            &&& forall|i: int|
                fused.len() <= i < after.len() ==> exists|k: int|
                    0 <= k < results.len() && results[k].chunk_id@ == (
                    #[trigger] after[i]).result.chunk_id@
        }),
    decreases results.len(),
{
    let after = ranking::with_results(fused, query, results, channel);
    if results.len() > 0 {
        let before = ranking::with_results(fused, query, results.drop_last(), channel);
        let n = results.len() - 1;
        no_result_is_lost(fused, query, results.drop_last(), channel);
        let p = a_result_goes_to_its_chunk(before, query, results.last(), n as usize, channel);
        assert forall|k: int| 0 <= k < results.len() implies is_found_at(
            after,
            (#[trigger] results[k]).chunk_id@,
            k,
        ) by {
            if k < n {
                assert(results.drop_last()[k] == results[k]);
                let i = choose|i: int|
                    0 <= i < before.len() && (#[trigger] before[i]).result.chunk_id@
                        == results[k].chunk_id@ && before[i].ranks.contains(k as usize);
                if i == p {
                    let m = choose|m: int| 0 <= m < before[i].ranks.len() && before[i].ranks[m] == k as usize;
                    assert(after[i].ranks[m] == k as usize);
                }
                assert(after[i].result.chunk_id@ == results[k].chunk_id@);
            } else {
                assert(after[p].ranks[after[p].ranks.len() - 1] == k as usize);
                assert(after[p].ranks.contains(k as usize));
            }
        }
        assert forall|i: int| fused.len() <= i < after.len() implies exists|k: int|
            0 <= k < results.len() && results[k].chunk_id@ == (#[trigger] after[i]).result.chunk_id@ by {
            if i < before.len() {
                let k = choose|k: int|
                    0 <= k < results.drop_last().len() && results.drop_last()[k].chunk_id@
                        == before[i].result.chunk_id@;
                assert(results[k].chunk_id@ == after[i].result.chunk_id@);
            } else {
                assert(results[n].chunk_id@ == after[i].result.chunk_id@);
            }
        }
    }
}

// How much of a query a chunk holds.

/// A chunk that holds all terms of a query covers all of it, one that holds none covers
/// nothing, and any other something in between.
pub proof fn coverage_goes_from_none_to_all(asked: Seq<Seq<char>>, known: Seq<Seq<char>>)
    ensures
        0 <= ranking::matched_weight(asked, known) <= ranking::total_weight(asked),
        0 <= ranking::match_count(asked, known) <= asked.len(),
        ranking::matched_weight(asked, known) == ranking::total_weight(asked) <==> forall|i: int|
            0 <= i < asked.len() ==> known.contains(#[trigger] asked[i]),
        ranking::match_count(asked, known) == asked.len() <==> forall|i: int|
            0 <= i < asked.len() ==> known.contains(#[trigger] asked[i]),
        ranking::matched_weight(asked, known) == 0 <==> forall|i: int|
            0 <= i < asked.len() ==> !known.contains(#[trigger] asked[i]),
        ranking::match_count(asked, known) == 0 <==> forall|i: int|
            0 <= i < asked.len() ==> !known.contains(#[trigger] asked[i]),
        ranking::total_weight(asked) == 0 <==> asked.len() == 0,
    decreases asked.len(),
{
    if asked.len() > 0 {
        let front = asked.drop_last();
        coverage_goes_from_none_to_all(front, known);
        assert forall|i: int| 0 <= i < front.len() implies #[trigger] front[i] == asked[i] by {}
        let all = forall|i: int| 0 <= i < asked.len() ==> known.contains(#[trigger] asked[i]);
        let all_front = forall|i: int| 0 <= i < front.len() ==> known.contains(#[trigger] front[i]);
        let none = forall|i: int| 0 <= i < asked.len() ==> !known.contains(#[trigger] asked[i]);
        let none_front = forall|i: int| 0 <= i < front.len() ==> !known.contains(#[trigger] front[i]);
        assert(asked.last() == asked[asked.len() - 1]);
        assert(all == (all_front && known.contains(asked.last()))) by {
            if all {
                assert forall|i: int| 0 <= i < front.len() implies known.contains(#[trigger] front[i]) by {
                    assert(front[i] == asked[i]);
                }
            }
            if all_front && known.contains(asked.last()) {
                assert forall|i: int| 0 <= i < asked.len() implies known.contains(#[trigger] asked[i]) by {
                    if i < front.len() {
                        assert(front[i] == asked[i]);
                    }
                }
            }
        }
        assert(none == (none_front && !known.contains(asked.last()))) by {
            if none {
                assert forall|i: int| 0 <= i < front.len() implies !known.contains(#[trigger] front[i]) by {
                    assert(front[i] == asked[i]);
                }
            }
            if none_front && !known.contains(asked.last()) {
                assert forall|i: int| 0 <= i < asked.len() implies !known.contains(#[trigger] asked[i]) by {
                    if i < front.len() {
                        assert(front[i] == asked[i]);
                    }
                }
            }
        }
    }
}

/// A chunk with one more of the terms covers more of the query, by what the term counts.
pub proof fn one_more_term_counts(asked: Seq<Seq<char>>, term: Seq<char>, known: Seq<Seq<char>>)
    requires
        known.contains(term),
    ensures
        ranking::matched_weight(asked.push(term), known) - ranking::matched_weight(asked, known)
            == ranking::total_weight(asked.push(term)) - ranking::total_weight(asked),
        ranking::match_count(asked.push(term), known) == ranking::match_count(asked, known) + 1,
{
    assert(asked.push(term).drop_last() =~= asked);
}

/// A term in Latin letters counts twice what a short term in other letters does, and a longer
/// one of those half as much again.
pub proof fn terms_count_by_their_kind(latin: Seq<char>, short: Seq<char>, long: Seq<char>)
    requires
        forall|i: int| 0 <= i < latin.len() ==> (#[trigger] latin[i] as u32) < 128,
        exists|i: int| 0 <= i < short.len() && (#[trigger] short[i] as u32) >= 128,
        exists|i: int| 0 <= i < long.len() && (#[trigger] long[i] as u32) >= 128,
        short.len() < 3,
        long.len() >= 3,
    ensures
        ranking::total_weight(seq![latin]) == 2 * ranking::total_weight(seq![short]),
        2 * ranking::total_weight(seq![long]) == 3 * ranking::total_weight(seq![short]),
        ranking::total_weight(seq![short]) > 0,
{
    assert(ranking::total_weight(Seq::empty()) == 0);
    assert(seq![latin].drop_last() =~= Seq::empty());
    assert(seq![short].drop_last() =~= Seq::empty());
    assert(seq![long].drop_last() =~= Seq::empty());
    assert(!ranking::is_ascii_text(short));
    assert(!ranking::is_ascii_text(long));
}

// What is worth showing.

/// Whether the share of the query that is covered is at least this many hundredths.
pub open spec fn covers(c: Coverage, hundredths: int) -> bool {
    c.total > 0 && 100 * c.matched >= hundredths * c.total
}

/// A model that asked is shown every chunk with an identifier of the query, with all of its
/// terms, with two of them and a seventh of the query, or close in meaning; and no others.
pub proof fn a_model_is_shown_what_is_relevant(c: CandidateView)
    ensures
        c.exact_identifier_match ==> selection::is_relevant(c),
        c.coverage.total > 0 && c.coverage.matched >= c.coverage.total ==> selection::is_relevant(c),
        covers(c.coverage, 14) && c.coverage.count >= 2 ==> selection::is_relevant(c),
        c.semantic_similarity is Some && c.semantic_similarity->0 >= 0x3fd3333333333333
            ==> selection::is_relevant(c),
        !c.exact_identifier_match && c.coverage.matched < c.coverage.total && (c.coverage.count < 2
            || !covers(c.coverage, 14)) && (c.semantic_similarity is None
            || c.semantic_similarity->0 < 0x3fd3333333333333) ==> !selection::is_relevant(c),
{
    assert(c.coverage.matched * 1 == c.coverage.matched) by (nonlinear_arith);
    assert(1 * c.coverage.total == c.coverage.total) by (nonlinear_arith);
    assert(c.coverage.matched * 100 == 100 * c.coverage.matched) by (nonlinear_arith);
}

/// Unasked, a chunk is relied on where words and meaning agree, where it holds an identifier
/// or most of the words, or where it is very close in meaning; and nowhere else.
pub proof fn confidence_needs_a_reason(c: CandidateView)
    ensures
        ({
            let words = c.lexical_seen && (c.exact_identifier_match || (covers(c.coverage, 55)
                && c.coverage.count >= 3));
            let close = |least: int| c.semantic_similarity is Some && c.semantic_similarity->0 >= least;
            let both = c.lexical_seen && c.semantic_seen && covers(c.coverage, 28) && close(
                0x3fe3d70a3d70a3d7,
            );
            let meaning = c.semantic_seen && close(0x3fe3333333333333);
            let reason = selection::confidence(c);
            &&& both ==> reason == Some(KnowledgeInjectionReason::HybridAgreement)
            &&& words && !both ==> reason == Some(KnowledgeInjectionReason::LexicalHighConfidence)
            &&& meaning && !words && !both ==> reason == Some(
                KnowledgeInjectionReason::SemanticHighConfidence,
            )
            &&& reason is Some ==> both || words || meaning
        }),
{
    assert(c.coverage.matched * 100 == 100 * c.coverage.matched) by (nonlinear_arith);
}

/// Candidates may go into a prompt unasked as soon as one of them can be relied on.
pub proof fn one_reliable_candidate_is_enough(ranked: Seq<ScoredCandidate>)
    ensures
        selection::decision_for(ranked).0 <==> exists|i: int|
            0 <= i < ranked.len() && selection::confidence((#[trigger] ranked[i]).candidate.shown()) is Some,
        ranked.len() == 0 <==> selection::decision_for(ranked).1 == KnowledgeInjectionReason::NoHit,
{
    lemma_first_reason(ranked);
    if ranked.len() > 0 {
        assert(selection::first_reason(ranked) != Some(KnowledgeInjectionReason::NoHit)) by {
            lemma_first_reason(ranked);
        }
    }
}

proof fn lemma_first_reason(ranked: Seq<ScoredCandidate>)
    ensures
        selection::first_reason(ranked) is Some <==> exists|i: int|
            0 <= i < ranked.len() && selection::confidence((#[trigger] ranked[i]).candidate.shown()) is Some,
        selection::first_reason(ranked) != Some(KnowledgeInjectionReason::NoHit),
    decreases ranked.len(),
{
    if ranked.len() > 0 {
        let rest = ranked.skip(1);
        lemma_first_reason(rest);
        if selection::first_reason(rest) is Some {
            let i = choose|i: int|
                0 <= i < rest.len() && selection::confidence((#[trigger] rest[i]).candidate.shown()) is Some;
            assert(ranked[i + 1] == rest[i]);
        }
        if exists|i: int|
            0 <= i < ranked.len() && selection::confidence((#[trigger] ranked[i]).candidate.shown()) is Some {
            let i = choose|i: int|
                0 <= i < ranked.len() && selection::confidence((#[trigger] ranked[i]).candidate.shown()) is Some;
            if i > 0 {
                assert(rest[i - 1] == ranked[i]);
            }
        }
        assert(ranked[0] == ranked[0]);
    }
}

// Choosing.

/// How many chunks a search hands on.
pub open spec fn most_results(profile: KnowledgeSearchProfile) -> int {
    if profile == KnowledgeSearchProfile::Preflight {
        1
    } else {
        4
    }
}

/// Whether the candidates are of different notes with different texts.
pub open spec fn are_unlike(ranked: Seq<ScoredCandidate>) -> bool {
    forall|i: int, j: int|
        0 <= i < j < ranked.len() ==> (#[trigger] ranked[i]).candidate.result.relative_path@ != (
        #[trigger] ranked[j]).candidate.result.relative_path@ && terms::digest(
            ranked[i].candidate.result.body@,
        ) != terms::digest(ranked[j].candidate.result.body@)
}

/// Of candidates that are good enough, each of a note of its own and with a text of its own,
/// the first four are handed on in their order: one before a model was asked.
pub proof fn the_first_candidates_are_handed_on(
    ranked: Seq<ScoredCandidate>,
    profile: KnowledgeSearchProfile,
    allow: bool,
)
    requires
        are_unlike(ranked),
        profile == KnowledgeSearchProfile::AutoFallback || forall|i: int|
            0 <= i < ranked.len() ==> selection::is_relevant((#[trigger] ranked[i]).candidate.shown()),
        profile == KnowledgeSearchProfile::Preflight ==> allow && forall|i: int|
            0 <= i < ranked.len() ==> selection::confidence((#[trigger] ranked[i]).candidate.shown()) is Some,
    ensures
        selection::considered(ranked, selection::options_for(profile), allow).results == (
        if ranked.len() <= most_results(profile) {
            ranked
        } else {
            ranked.take(most_results(profile))
        }),
{
    lemma_first_candidates(ranked, profile, allow);
}

proof fn lemma_first_candidates(ranked: Seq<ScoredCandidate>, profile: KnowledgeSearchProfile, allow: bool)
    requires
        are_unlike(ranked),
        profile == KnowledgeSearchProfile::AutoFallback || forall|i: int|
            0 <= i < ranked.len() ==> selection::is_relevant((#[trigger] ranked[i]).candidate.shown()),
        profile == KnowledgeSearchProfile::Preflight ==> allow && forall|i: int|
            0 <= i < ranked.len() ==> selection::confidence((#[trigger] ranked[i]).candidate.shown()) is Some,
    ensures
        ({
            let n = most_results(profile);
            let st = selection::considered(ranked, selection::options_for(profile), allow);
            let kept = if ranked.len() <= n {
                ranked
            } else {
                ranked.take(n)
            };
            &&& st.results == kept
            &&& st.limit_reached == (ranked.len() > n)
            &&& st.bodies == kept.map_values(|c: ScoredCandidate| terms::digest(c.candidate.result.body@))
            &&& st.sections == kept.map_values(|c: ScoredCandidate| selection::section_of(c))
        }),
    decreases ranked.len(),
{
    let n = most_results(profile);
    let options = selection::options_for(profile);
    let digest = |c: ScoredCandidate| terms::digest(c.candidate.result.body@);
    let section = |c: ScoredCandidate| selection::section_of(c);
    if ranked.len() == 0 {
        assert(ranked.map_values(digest) =~= Seq::empty());
        assert(ranked.map_values(section) =~= Seq::empty());
        assert(ranked =~= Seq::empty());
    } else {
        let front = ranked.drop_last();
        let c = ranked.last();
        assert forall|i: int| 0 <= i < front.len() implies #[trigger] front[i] == ranked[i] by {}
        lemma_first_candidates(front, profile, allow);
        let st = selection::considered(front, options, allow);
        if ranked.len() <= n {
            assert(c == ranked[ranked.len() - 1]);
            lemma_none_of_file(front, c.candidate.result.relative_path@);
            assert(!st.bodies.contains(digest(c))) by {
                if st.bodies.contains(digest(c)) {
                    let k = choose|k: int| 0 <= k < st.bodies.len() && st.bodies[k] == digest(c);
                    assert(digest(front[k]) == digest(c));
                    assert(ranked[k] == front[k]);
                }
            }
            assert(!st.sections.contains(section(c))) by {
                if st.sections.contains(section(c)) {
                    let k = choose|k: int| 0 <= k < st.sections.len() && st.sections[k] == section(c);
                    assert(section(front[k]) == section(c));
                    assert(ranked[k] == front[k]);
                }
            }
            assert(front.push(c) =~= ranked);
            assert(front.map_values(digest).push(digest(c)) =~= ranked.map_values(digest));
            assert(front.map_values(section).push(section(c)) =~= ranked.map_values(section));
        } else {
            assert(ranked.take(n) =~= if front.len() <= n {
                front
            } else {
                front.take(n)
            });
        }
    }
}

proof fn lemma_none_of_file(results: Seq<ScoredCandidate>, path: Seq<char>)
    requires
        forall|i: int| 0 <= i < results.len() ==> (#[trigger] results[i]).candidate.result.relative_path@ != path,
    ensures
        selection::of_file(results, path) == 0,
    decreases results.len(),
{
    if results.len() > 0 {
        assert(results.last() == results[results.len() - 1]);
        lemma_none_of_file(results.drop_last(), path);
    }
}

/// What is chosen are candidates in their order: of two chosen ones, the first one stood
/// before the second.
pub proof fn choosing_keeps_the_order(
    ranked: Seq<ScoredCandidate>,
    options: SearchOptions,
    allow: bool,
    a: int,
    b: int,
)
    requires
        0 <= a < b < selection::considered(ranked, options, allow).results.len(),
    ensures
        exists|i: int, j: int|
            0 <= i < j < ranked.len() && #[trigger] ranked[i] == selection::considered(
                ranked,
                options,
                allow,
            ).results[a] && #[trigger] ranked[j] == selection::considered(ranked, options, allow).results[b],
    decreases ranked.len(),
{
    let st = selection::considered(ranked, options, allow);
    let front = ranked.drop_last();
    let before = selection::considered(front, options, allow);
    let n = ranked.len() - 1;
    if b < before.results.len() {
        choosing_keeps_the_order(front, options, allow, a, b);
        let (i, j) = choose|i: int, j: int|
            0 <= i < j < front.len() && #[trigger] front[i] == before.results[a] && #[trigger] front[j]
                == before.results[b];
        assert(ranked[i] == st.results[a] && ranked[j] == st.results[b]);
    } else {
        lemma_chosen_is_ranked(front, options, allow, a);
        let i = choose|i: int| 0 <= i < front.len() && #[trigger] front[i] == before.results[a];
        assert(ranked[i] == st.results[a] && ranked[n] == st.results[b]);
    }
}

proof fn lemma_chosen_is_ranked(ranked: Seq<ScoredCandidate>, options: SearchOptions, allow: bool, a: int)
    requires
        0 <= a < selection::considered(ranked, options, allow).results.len(),
    ensures
        exists|i: int|
            0 <= i < ranked.len() && #[trigger] ranked[i] == selection::considered(
                ranked,
                options,
                allow,
            ).results[a],
    decreases ranked.len(),
{
    let st = selection::considered(ranked, options, allow);
    let front = ranked.drop_last();
    let before = selection::considered(front, options, allow);
    if a < before.results.len() {
        lemma_chosen_is_ranked(front, options, allow, a);
        let i = choose|i: int| 0 <= i < front.len() && #[trigger] front[i] == before.results[a];
        assert(ranked[i] == st.results[a]);
    } else {
        assert(ranked[ranked.len() - 1] == st.results[a]);
    }
}

/// Whether one of the chosen chunks is of the same section.
pub open spec fn section_is_chosen(results: Seq<ScoredCandidate>, c: ScoredCandidate) -> bool {
    exists|a: int|
        0 <= a < results.len() && (#[trigger] results[a]).candidate.result.relative_path@
            == c.candidate.result.relative_path@ && text::opt_view(
            results[a].candidate.result.heading_path,
        ) == text::opt_view(c.candidate.result.heading_path)
}

/// Until enough are chosen, a candidate is left out only because it is too weak, because
/// enough of its note is chosen, because an earlier candidate has the same text, or because its
/// section is shown anyway.
pub proof fn no_candidate_is_left_out_without_reason(
    ranked: Seq<ScoredCandidate>,
    options: SearchOptions,
    allow: bool,
    i: int,
)
    requires
        0 <= i < ranked.len(),
        selection::considered(ranked, options, allow).results.len() < options.result_limit,
    ensures
        ({
            let results = selection::considered(ranked, options, allow).results;
            ||| results.contains(ranked[i])
            ||| selection::is_too_weak(ranked[i], options, allow)
            ||| selection::of_file(results, ranked[i].candidate.result.relative_path@)
                >= options.max_results_per_file
            ||| exists|k: int|
                0 <= k < i && terms::digest((#[trigger] ranked[k]).candidate.result.body@)
                    == terms::digest(ranked[i].candidate.result.body@)
            ||| options.expansion == selection::ExpansionMode::Section && section_is_chosen(
                results,
                ranked[i],
            )
        }),
    decreases ranked.len(),
{
    let st = selection::considered(ranked, options, allow);
    let front = ranked.drop_last();
    let before = selection::considered(front, options, allow);
    lemma_seen(front, options, allow);
    lemma_limit_is_met(front, options, allow);
    if i < front.len() {
        no_candidate_is_left_out_without_reason(front, options, allow, i);
        let path = ranked[i].candidate.result.relative_path@;
        assert(front[i] == ranked[i]);
        if before.results.contains(ranked[i]) {
            let a = choose|a: int| 0 <= a < before.results.len() && before.results[a] == ranked[i];
            assert(st.results[a] == ranked[i]);
        }
        if st.results.len() > before.results.len() {
            assert(st.results.drop_last() =~= before.results);
        }
        assert(selection::of_file(st.results, path) >= selection::of_file(before.results, path));
        if exists|k: int|
            0 <= k < i && terms::digest((#[trigger] front[k]).candidate.result.body@) == terms::digest(
                ranked[i].candidate.result.body@,
            ) {
            let k = choose|k: int|
                0 <= k < i && terms::digest((#[trigger] front[k]).candidate.result.body@)
                    == terms::digest(ranked[i].candidate.result.body@);
            assert(ranked[k] == front[k]);
        }
        if section_is_chosen(before.results, ranked[i]) {
            let a = choose|a: int|
                0 <= a < before.results.len() && (#[trigger] before.results[a]).candidate.result.relative_path@
                    == ranked[i].candidate.result.relative_path@ && text::opt_view(
                    before.results[a].candidate.result.heading_path,
                ) == text::opt_view(ranked[i].candidate.result.heading_path);
            assert(st.results[a] == before.results[a]);
        }
    } else {
        let c = ranked[i];
        assert(c == ranked.last());
        if st.results.len() > before.results.len() {
            assert(st.results[before.results.len() as int] == c);
        } else {
            let body = terms::digest(c.candidate.result.body@);
            if before.bodies.contains(body) {
                let m = choose|m: int| 0 <= m < before.bodies.len() && before.bodies[m] == body;
                let k = choose|k: int|
                    0 <= k < front.len() && terms::digest((#[trigger] front[k]).candidate.result.body@)
                        == before.bodies[m];
                assert(ranked[k] == front[k]);
            } else if options.expansion == selection::ExpansionMode::Section && before.sections.contains(
                selection::section_of(c),
            ) {
                let m = choose|m: int|
                    0 <= m < before.sections.len() && before.sections[m] == selection::section_of(c);
                assert(selection::section_of(before.results[m]) == selection::section_of(c));
                assert(section_is_chosen(st.results, c));
            }
        }
    }
}

/// Where texts and sections that count as seen come from.
proof fn lemma_seen(ranked: Seq<ScoredCandidate>, options: SearchOptions, allow: bool)
    ensures
        ({
            let st = selection::considered(ranked, options, allow);
            &&& st.sections.len() == st.results.len()
            &&& forall|m: int|
                0 <= m < st.sections.len() ==> #[trigger] st.sections[m] == selection::section_of(
                    st.results[m],
                )
            &&& forall|m: int|
                0 <= m < st.bodies.len() ==> exists|k: int|
                    0 <= k < ranked.len() && terms::digest((#[trigger] ranked[k]).candidate.result.body@)
                        == #[trigger] st.bodies[m]
        }),
    decreases ranked.len(),
{
    if ranked.len() > 0 {
        let st = selection::considered(ranked, options, allow);
        let front = ranked.drop_last();
        let before = selection::considered(front, options, allow);
        lemma_seen(front, options, allow);
        assert forall|m: int| 0 <= m < st.bodies.len() implies exists|k: int|
            0 <= k < ranked.len() && terms::digest((#[trigger] ranked[k]).candidate.result.body@)
                == #[trigger] st.bodies[m] by {
            if m < before.bodies.len() {
                let k = choose|k: int|
                    0 <= k < front.len() && terms::digest((#[trigger] front[k]).candidate.result.body@)
                        == before.bodies[m];
                assert(terms::digest(ranked[k].candidate.result.body@) == st.bodies[m]);
            } else {
                assert(terms::digest(ranked[ranked.len() - 1].candidate.result.body@) == st.bodies[m]);
            }
        }
    }
}

proof fn lemma_limit_is_met(ranked: Seq<ScoredCandidate>, options: SearchOptions, allow: bool)
    ensures
        selection::considered(ranked, options, allow).limit_reached ==> selection::considered(
            ranked,
            options,
            allow,
        ).results.len() >= options.result_limit,
    decreases ranked.len(),
{
    if ranked.len() > 0 {
        lemma_limit_is_met(ranked.drop_last(), options, allow);
    }
}

/// What a search is for decides how much it hands on: at most four chunks, two of one note, in
/// 3200 characters; before a model was asked one chunk that can be relied on, in 1200.
pub proof fn profiles_have_their_limits(profile: KnowledgeSearchProfile)
    ensures
        ({
            let o = selection::options_for(profile);
            let asked = profile != KnowledgeSearchProfile::Preflight;
            &&& o.result_limit == most_results(profile)
            &&& asked ==> o.max_results_per_file == 2 && o.total_char_budget == 3200
            &&& !asked ==> o.max_results_per_file == 1 && o.total_char_budget == 1200
            &&& o.high_confidence_only <==> !asked
            &&& o.use_semantic <==> profile != KnowledgeSearchProfile::AutoFallback
            &&& o.filter_low_relevance <==> profile != KnowledgeSearchProfile::AutoFallback
            &&& o.expansion == selection::ExpansionMode::Section <==> profile
                == KnowledgeSearchProfile::Tool
            &&& o.expansion == selection::ExpansionMode::Adjacent <==> profile
                == KnowledgeSearchProfile::AutoFallback
        }),
{
}

// The evidence.

/// As long as there is room, the chunks become items in their order, each with its whole text;
/// nothing behind a chunk changes the items before it.
pub proof fn chunks_become_items_in_order(results: Seq<ExpandedResult>, budget: int, i: int)
    requires
        0 <= i < selection::filled(results, budget).items.len(),
    ensures
        i < results.len(),
        ({
            let item = selection::filled(results, budget).items[i];
            let whole = text::trimmed(results[i].result.body@);
            &&& item.source == results[i]
            &&& item.excerpt == whole || (item.excerpt.len() >= 8 && {
                let n = item.excerpt.len() - 8;
                &&& n < whole.len()
                &&& item.excerpt.take(n) == whole.take(n)
            })
            &&& !selection::filled(results, budget).truncated ==> item.excerpt == whole
        }),
    decreases results.len(),
{
    if results.len() > 0 {
        let front = results.drop_last();
        let b = selection::filled(front, budget);
        lemma_items_len(front, budget);
        if i < b.items.len() {
            chunks_become_items_in_order(front, budget, i);
            assert(front[i] == results[i]);
        } else {
            reveal_strlit("\n[片段已裁剪]");
            let whole = text::trimmed(results.last().result.body@);
            let remaining = budget - b.chars;
            if whole.len() > remaining {
                let n = if remaining >= 16 {
                    remaining - 16
                } else {
                    0
                };
                let x = selection::excerpt(results.last().result.body@, remaining);
                assert(x.len() == n + 8);
                assert(x.take(n) =~= whole.take(n));
            }
        }
    }
}

proof fn lemma_items_len(results: Seq<ExpandedResult>, budget: int)
    ensures
        ({
            let b = selection::filled(results, budget);
            &&& b.items.len() <= results.len()
            &&& !b.full ==> b.items.len() == results.len()
        }),
    decreases results.len(),
{
    if results.len() > 0 {
        lemma_items_len(results.drop_last(), budget);
    }
}

/// No chunk is left out while there is room: where items are missing, the budget is used up
/// and the evidence says that something was cut.
pub proof fn missing_items_are_said(results: Seq<ExpandedResult>, budget: int)
    ensures
        ({
            let b = selection::filled(results, budget);
            &&& b.items.len() <= results.len()
            &&& b.items.len() < results.len() ==> b.truncated && b.chars >= budget
        }),
    decreases results.len(),
{
    if results.len() > 0 {
        missing_items_are_said(results.drop_last(), budget);
        lemma_full(results.drop_last(), budget);
    }
}

proof fn lemma_full(results: Seq<ExpandedResult>, budget: int)
    ensures
        ({
            let b = selection::filled(results, budget);
            &&& b.full ==> b.truncated && b.chars >= budget
            &&& b.full <==> b.items.len() < results.len()
        }),
    decreases results.len(),
{
    if results.len() > 0 {
        lemma_full(results.drop_last(), budget);
        lemma_items_len(results.drop_last(), budget);
    }
}

/// An item says how its chunk was found: in words, in meaning, both ways, or as a part of the
/// section.
pub proof fn items_say_how_they_were_found(selected: Seq<ScoredCandidate>, i: int)
    requires
        0 <= i < selected.len(),
    ensures
        ({
            let e = selection::primary(selected)[i];
            let c = selected[i].candidate;
            &&& selection::primary(selected).len() == selected.len()
            &&& e.result == c.result
            &&& e.score == Some(selected[i].score_text)
            &&& c.lexical_seen && c.semantic_seen ==> e.recall_type == KnowledgeRecallType::Hybrid
            &&& c.lexical_seen && !c.semantic_seen ==> e.recall_type == KnowledgeRecallType::Lexical
            &&& !c.lexical_seen && c.semantic_seen ==> e.recall_type == KnowledgeRecallType::Semantic
        }),
{
}

/// What stands around the chosen chunks is added behind them and marked as such; no chunk is
/// left out, and none is added that does not stand there.
pub proof fn neighbours_are_added(v: Seq<ExpandedResult>, chunks: Seq<KnowledgeSearchResult>)
    ensures
        ({
            let after = selection::with_neighbours(v, chunks);
            &&& v.len() <= after.len() <= v.len() + chunks.len()
            &&& forall|i: int| 0 <= i < v.len() ==> #[trigger] after[i] == v[i]
            &&& forall|i: int|
                v.len() <= i < after.len() ==> (#[trigger] after[i]).recall_type
                    == KnowledgeRecallType::Section && after[i].score is None && chunks.contains(
                    after[i].result,
                )
        }),
        forall|k: int|
            0 <= k < chunks.len() ==> holds_chunk(
                selection::with_neighbours(v, chunks),
                (#[trigger] chunks[k]).chunk_id@,
            ),
    decreases chunks.len(),
{
    let after = selection::with_neighbours(v, chunks);
    if chunks.len() > 0 {
        let front = chunks.drop_last();
        let before = selection::with_neighbours(v, front);
        let last = chunks.last();
        neighbours_are_added(v, front);
        assert(last == chunks[chunks.len() - 1]);
        assert forall|k: int| 0 <= k < chunks.len() implies holds_chunk(
            after,
            (#[trigger] chunks[k]).chunk_id@,
        ) by {
            if k < front.len() {
                assert(front[k] == chunks[k]);
                assert(holds_chunk(before, front[k].chunk_id@));
                let i = choose|i: int|
                    0 <= i < before.len() && (#[trigger] before[i]).result.chunk_id@ == front[k].chunk_id@;
                assert(after[i] == before[i]);
            } else if selection::has_chunk(before, last.chunk_id@) {
                let i = choose|i: int|
                    0 <= i < before.len() && (#[trigger] before[i]).result.chunk_id@ == last.chunk_id@;
                assert(after[i].result.chunk_id@ == last.chunk_id@);
            } else {
                assert(after[before.len() as int].result.chunk_id@ == last.chunk_id@);
            }
        }
        assert forall|i: int| v.len() <= i < after.len() implies (#[trigger] after[i]).recall_type
            == KnowledgeRecallType::Section && after[i].score is None && chunks.contains(
            after[i].result,
        ) by {
            if i < before.len() {
                assert(after[i] == before[i]);
                let k = choose|k: int| 0 <= k < front.len() && front[k] == before[i].result;
                assert(chunks[k] == after[i].result);
            }
        }
    }
}

pub open spec fn holds_chunk(v: Seq<ExpandedResult>, chunk_id: Seq<char>) -> bool {
    exists|i: int| 0 <= i < v.len() && (#[trigger] v[i]).result.chunk_id@ == chunk_id
}

/// No chunk is shown twice.
pub proof fn no_chunk_is_shown_twice(v: Seq<ExpandedResult>, chunks: Seq<KnowledgeSearchResult>)
    requires
        forall|i: int, j: int|
            0 <= i < j < v.len() ==> (#[trigger] v[i]).result.chunk_id@ != (
            #[trigger] v[j]).result.chunk_id@,
    ensures
        ({
            let after = selection::with_neighbours(v, chunks);
            forall|i: int, j: int|
                0 <= i < j < after.len() ==> (#[trigger] after[i]).result.chunk_id@ != (
                #[trigger] after[j]).result.chunk_id@
        }),
    decreases chunks.len(),
{
    if chunks.len() > 0 {
        no_chunk_is_shown_twice(v, chunks.drop_last());
    }
}

} // verus!
