//! What a text can be found by: its words, its neighbouring Chinese characters and its
//! identifiers, wherever they stand.
use vstd::prelude::*;
use vstd::string::*;

use crate::knowledge::ranking;
use crate::knowledge::search_laws;
use crate::knowledge::terms;
use crate::knowledge::terms::RunKind;
use crate::text;

verus! {

/// Whether the character is part of a word: a Latin letter, a digit, `_` or `-`.
pub open spec fn is_word_char(c: char) -> bool {
    'a' <= c <= 'z' || 'A' <= c <= 'Z' || '0' <= c <= '9' || c == '_' || c == '-'
}

/// Whether the word stands alone between the texts.
pub open spec fn stands_alone(before: Seq<char>, word: Seq<char>, behind: Seq<char>) -> bool {
    &&& forall|i: int| 0 <= i < word.len() ==> is_word_char(#[trigger] word[i])
    &&& before.len() > 0 ==> !is_word_char(before[before.len() - 1])
    &&& behind.len() > 0 ==> !is_word_char(behind[0])
}

proof fn lemma_word_char(c: char)
    ensures
        is_word_char(c) == terms::belongs(RunKind::Word, c),
{
}

proof fn lemma_run_found(before: Seq<char>, word: Seq<char>, behind: Seq<char>)
    requires
        word.len() > 0,
        stands_alone(before, word, behind),
    ensures
        terms::runs(before + word + behind, RunKind::Word).contains(word),
    decreases before.len(),
{
    let s = before + word + behind;
    let k = RunKind::Word;
    if before.len() == 0 {
        let n = word.len() as int;
        assert forall|i: int| 0 <= i < n implies terms::belongs(k, #[trigger] s[i]) by {
            assert(s[i] == word[i]);
            lemma_word_char(word[i]);
        }
        if n < s.len() {
            assert(s[n] == behind[0]);
            lemma_word_char(behind[0]);
        }
        terms::lemma_run_len(s, k, n);
        assert(s.take(n) =~= word);
        assert(terms::runs(s, k)[0] == word);
    } else {
        assert(s[0] == before[0]);
        let last = before.len() - 1;
        lemma_word_char(before[last]);
        if !terms::belongs(k, s[0]) {
            let rest = before.skip(1);
            assert(s.skip(1) =~= rest + word + behind);
            if rest.len() > 0 {
                assert(rest[rest.len() - 1] == before[last]);
            }
            lemma_run_found(rest, word, behind);
        } else {
            let n = lemma_first_gap(before, 0);
            assert forall|i: int| 0 <= i < n implies terms::belongs(k, #[trigger] s[i]) by {
                assert(s[i] == before[i]);
            }
            assert(s[n] == before[n]);
            terms::lemma_run_len(s, k, n);
            let rest = before.skip(n);
            assert(s.skip(n) =~= rest + word + behind);
            assert(rest[rest.len() - 1] == before[last]);
            assert(n > 0);
            lemma_run_found(rest, word, behind);
            let tail = terms::runs(s.skip(n), k);
            let i = choose|i: int| 0 <= i < tail.len() && tail[i] == word;
            assert(terms::runs(s, k)[i + 1] == word);
        }
    }
}

/// The first character from `i` on that is no part of a word.
proof fn lemma_first_gap(s: Seq<char>, i: int) -> (n: int)
    requires
        0 <= i < s.len(),
        !terms::belongs(RunKind::Word, s[s.len() - 1]),
    ensures
        i <= n < s.len(),
        !terms::belongs(RunKind::Word, s[n]),
        forall|k: int| i <= k < n ==> terms::belongs(RunKind::Word, #[trigger] s[k]),
    decreases s.len() - i,
{
    if terms::belongs(RunKind::Word, s[i]) {
        lemma_first_gap(s, i + 1)
    } else {
        i
    }
}

proof fn lemma_lexical(s: Seq<char>, word: Seq<char>)
    requires
        terms::runs(s, RunKind::Word).contains(word),
        word.len() >= 2,
    ensures
        terms::lexical(s).contains(text::ascii_lowered(word)),
{
    let all = terms::runs(s, RunKind::Word);
    let long = |t: Seq<char>| t.len() >= 2;
    let i = choose|i: int| 0 <= i < all.len() && all[i] == word;
    all.lemma_filter_contains(long, i);
    let kept = all.filter(long);
    let k = choose|k: int| 0 <= k < kept.len() && kept[k] == word;
    assert(terms::lexical(s)[k] == text::ascii_lowered(word));
}

/// A word of two or more characters that stands alone is a term of its text, whatever its
/// letter case: the index has it, and relevance is judged by it.
pub proof fn words_are_terms(before: Seq<char>, word: Seq<char>, behind: Seq<char>)
    requires
        word.len() >= 2,
        stands_alone(before, word, behind),
    ensures
        terms::all_terms(before + word + behind).contains(text::ascii_lowered(word)),
        terms::relevance(before + word + behind).contains(text::ascii_lowered(word)),
{
    let s = before + word + behind;
    let w = text::ascii_lowered(word);
    lemma_run_found(before, word, behind);
    lemma_lexical(s, word);
    lemma_in_sum(terms::lexical(s), terms::cjk_terms(s), w);
    lemma_in_sum(terms::lexical(s) + terms::cjk_terms(s), terms::ascii_terms(s), w);
    terms::dropping_repeats_loses_nothing(terms::lexical(s) + terms::cjk_terms(s), w);
}

proof fn lemma_in_sum(a: Seq<Seq<char>>, b: Seq<Seq<char>>, t: Seq<char>)
    requires
        a.contains(t) || b.contains(t),
    ensures
        (a + b).contains(t),
{
    if a.contains(t) {
        let i = choose|i: int| 0 <= i < a.len() && a[i] == t;
        assert((a + b)[i] == t);
    } else {
        let i = choose|i: int| 0 <= i < b.len() && b[i] == t;
        assert((a + b)[a.len() + i] == t);
    }
}

/// A query and a text that share a word agree in it: some of the query is covered.
pub proof fn shared_words_count(
    before: Seq<char>,
    word: Seq<char>,
    behind: Seq<char>,
    text_before: Seq<char>,
    same_word: Seq<char>,
    text_behind: Seq<char>,
)
    requires
        word.len() >= 2,
        stands_alone(before, word, behind),
        stands_alone(text_before, same_word, text_behind),
        text::ascii_lowered(word) == text::ascii_lowered(same_word),
    ensures
        ({
            let asked = terms::relevance(before + word + behind);
            let known = terms::relevance(text_before + same_word + text_behind);
            &&& ranking::matched_weight(asked, known) > 0
            &&& ranking::match_count(asked, known) > 0
        }),
{
    let asked = terms::relevance(before + word + behind);
    let known = terms::relevance(text_before + same_word + text_behind);
    assert(text::ascii_lowered(word).len() == word.len());
    assert(text::ascii_lowered(same_word).len() == same_word.len());
    words_are_terms(before, word, behind);
    words_are_terms(text_before, same_word, text_behind);
    search_laws::coverage_goes_from_none_to_all(asked, known);
    let i = choose|i: int| 0 <= i < asked.len() && asked[i] == text::ascii_lowered(word);
    assert(known.contains(asked[i]));
}

/// Whether the character is one of the common Chinese ones.
pub open spec fn is_chinese(c: char) -> bool {
    '\u{4e00}' <= c <= '\u{9fff}'
}

proof fn lemma_chinese(c: char)
    ensures
        is_chinese(c) ==> terms::is_cjk_char(c),
        c as u32 <= 0x7f ==> !terms::is_cjk_char(c),
{
}

/// Two Chinese characters next to each other are a term of their text.
pub proof fn chinese_pairs_are_terms(before: Seq<char>, a: char, b: char, behind: Seq<char>)
    requires
        is_chinese(a),
        is_chinese(b),
    ensures
        terms::all_terms(before + seq![a, b] + behind).contains(seq![a, b]),
        terms::relevance(before + seq![a, b] + behind).contains(seq![a, b]),
{
    let pair = seq![a, b];
    let s = before + pair + behind;
    let keep = |c: char| terms::is_cjk_char(c);
    lemma_chinese(a);
    lemma_chinese(b);
    Seq::filter_distributes_over_add(before + pair, behind, keep);
    Seq::filter_distributes_over_add(before, pair, keep);
    assert(pair.filter(keep) =~= pair) by {
        reveal(Seq::filter);
        assert(pair.drop_last() =~= seq![a]);
        assert(seq![a].drop_last() =~= Seq::empty());
        assert(seq![a].drop_last().filter(keep) =~= Seq::empty());
        assert(seq![a].filter(keep) =~= seq![a]);
        assert(pair.filter(keep) =~= seq![a].push(b));
    }
    let c = terms::cjk_chars(s);
    let p = before.filter(keep);
    assert(c == p + pair + behind.filter(keep));
    assert(c.subrange(p.len() as int, p.len() + 2int) =~= pair);
    let pairs = terms::windows(c, 2);
    assert(pairs[p.len() as int] == pair);
    lemma_in_sum(pairs, terms::windows(c, 3), pair);
    lemma_in_sum(terms::lexical(s), terms::cjk_terms(s), pair);
    lemma_in_sum(terms::lexical(s) + terms::cjk_terms(s), terms::ascii_terms(s), pair);
    terms::dropping_repeats_loses_nothing(terms::lexical(s) + terms::cjk_terms(s), pair);
}

/// Whether the word looks like an identifier: four characters or more, with a digit, a `_` or
/// a `-` at `i`.
pub open spec fn is_marked_word(word: Seq<char>, i: int) -> bool {
    word.len() >= 4 && 0 <= i < word.len() && ('0' <= word[i] <= '9' || word[i] == '_' || word[i] == '-')
}

/// A word with a digit or a joining mark that stands alone is an identifier of its text.
pub proof fn marked_words_are_identifiers(before: Seq<char>, word: Seq<char>, behind: Seq<char>, i: int)
    requires
        is_marked_word(word, i),
        stands_alone(before, word, behind),
    ensures
        terms::identifiers(before + word + behind).contains(text::ascii_lowered(word)),
{
    let s = before + word + behind;
    let all = terms::runs(s, RunKind::Word);
    let named = |t: Seq<char>| terms::is_identifier(t);
    lemma_run_found(before, word, behind);
    assert(terms::is_identifier(word)) by {
        lemma_digit(word[i]);
        assert(text::is_digit(word[i]) || word[i] == '_' || word[i] == '-');
    }
    let k = choose|k: int| 0 <= k < all.len() && all[k] == word;
    all.lemma_filter_contains(named, k);
    let kept = all.filter(named);
    let m = choose|m: int| 0 <= m < kept.len() && kept[m] == word;
    assert(terms::lowered(kept)[m] == text::ascii_lowered(word));
    terms::dropping_repeats_loses_nothing(terms::lowered(kept), text::ascii_lowered(word));
}

proof fn lemma_digit(c: char)
    ensures
        text::is_digit(c) == ('0' <= c <= '9'),
{
}

/// A query and a text with the same identifier share it, whatever the letter case.
pub proof fn shared_identifiers_are_seen(
    before: Seq<char>,
    word: Seq<char>,
    behind: Seq<char>,
    text_before: Seq<char>,
    same_word: Seq<char>,
    text_behind: Seq<char>,
    i: int,
)
    requires
        is_marked_word(word, i),
        is_marked_word(same_word, i),
        stands_alone(before, word, behind),
        stands_alone(text_before, same_word, text_behind),
        text::ascii_lowered(word) == text::ascii_lowered(same_word),
    ensures
        terms::shares_identifier(before + word + behind, text_before + same_word + text_behind),
{
    marked_words_are_identifiers(before, word, behind, i);
    marked_words_are_identifiers(text_before, same_word, text_behind, i);
}

/// Latin letters differ from their small forms in nothing but case.
pub proof fn letter_case_is_all_that_is_lost(s: Seq<char>, i: int)
    requires
        0 <= i < s.len(),
    ensures
        text::ascii_lowered(s).len() == s.len(),
        'A' <= s[i] <= 'Z' ==> text::ascii_lowered(s)[i] as int == s[i] as int + 32,
        !('A' <= s[i] <= 'Z') ==> text::ascii_lowered(s)[i] == s[i],
{
    lemma_lower(s[i]);
}

proof fn lemma_lower(c: char)
    ensures
        'A' <= c <= 'Z' ==> text::ascii_lower(c) as int == c as int + 32,
        !('A' <= c <= 'Z') ==> text::ascii_lower(c) == c,
{
}

/// A search asks for each of the first terms of a text, in quotes.
pub proof fn searches_ask_for_the_first_terms(s: Seq<char>, most: int, i: int)
    requires
        0 <= i < most,
        i < terms::firsts(terms::all_terms(s)).len(),
    ensures
        text::has_sub(
            terms::search_query(s, most),
            terms::quoted(terms::firsts(terms::all_terms(s))[i]),
        ),
{
    let all = terms::firsts(terms::all_terms(s));
    let kept = terms::at_most(all, most);
    assert(kept[i] == all[i]);
    let parts = terms::all_quoted(kept);
    assert(parts[i] == terms::quoted(all[i]));
    lemma_sub_of_joined(parts, " OR "@, i);
}

proof fn lemma_sub_of_joined(parts: Seq<Seq<char>>, sep: Seq<char>, i: int)
    requires
        0 <= i < parts.len(),
    ensures
        text::has_sub(text::joined(parts, sep), parts[i]),
    decreases parts.len(),
{
    let s = text::joined(parts, sep);
    let p = parts[i];
    if parts.len() == 1 {
        assert(s.subrange(0, p.len() as int) =~= p);
        assert(text::occurs_at(s, p, 0));
    } else {
        let front = parts.drop_last();
        let a = text::joined(front, sep);
        if i < front.len() {
            lemma_sub_of_joined(front, sep, i);
            let k = choose|k: int| text::occurs_at(a, p, k);
            assert(s.subrange(k, k + p.len()) =~= a.subrange(k, k + p.len()));
            assert(text::occurs_at(s, p, k));
        } else {
            let k = (a.len() + sep.len()) as int;
            assert(s.subrange(k, k + p.len()) =~= p);
            assert(text::occurs_at(s, p, k));
        }
    }
}

/// A term without quotes is asked for as it is.
pub proof fn plain_terms_are_asked_for_as_they_are(t: Seq<char>)
    requires
        !t.contains('"'),
    ensures
        terms::quoted(t) == seq!['"'] + t + seq!['"'],
{
    reveal_strlit("\"");
    lemma_nothing_to_replace(t);
    assert("\""@ =~= seq!['"']);
}

proof fn lemma_nothing_to_replace(t: Seq<char>)
    requires
        !t.contains('"'),
    ensures
        text::replaced(t, "\""@, "\"\""@) == t,
    decreases t.len(),
{
    reveal_strlit("\"");
    if t.len() > 0 {
        assert(t[0] != '"');
        if text::starts_with(t, "\""@) {
            assert(t.subrange(0, 1)[0] == "\""@[0]);
        }
        assert(!t.skip(1).contains('"')) by {
            if t.skip(1).contains('"') {
                let k = choose|k: int| 0 <= k < t.skip(1).len() && t.skip(1)[k] == '"';
                assert(t[k + 1] == '"');
            }
        }
        lemma_nothing_to_replace(t.skip(1));
        assert(seq![t[0]] + t.skip(1) =~= t);
    }
}

} // verus!
