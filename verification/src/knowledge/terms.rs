//! Terms of a text: words, parts of words, and runs of Chinese characters, as the index and
//! the queries use them.
use vstd::prelude::*;
use vstd::string::*;

use crate::outside;
use crate::text;

verus! {

// Digests.

/// The hexadecimal digit.
fn hex_char(n: u8) -> (c: char)
    requires
        n < 16,
    ensures
        c == text::hex_digit(n as int),
{
    if n < 10 {
        (48 + n) as char
    } else {
        (87 + n) as char
    }
}

/// The bytes, two digits each.
pub open spec fn hex(bytes: Seq<u8>) -> Seq<char>
    decreases bytes.len(),
{
    if bytes.len() == 0 {
        Seq::empty()
    } else {
        hex(bytes.drop_last()) + seq![
            text::hex_digit(bytes.last() as int / 16),
            text::hex_digit(bytes.last() as int % 16),
        ]
    }
}

/// The first `n` bytes in hexadecimal.
pub fn hex_of(bytes: &Vec<u8>, n: usize) -> (r: String)
    requires
        n <= bytes@.len(),
    ensures
        r@ == hex(bytes@.take(n as int)),
{
    let mut out: Vec<char> = Vec::new();
    let mut i: usize = 0;
    assert(bytes@.take(0) =~= Seq::empty());
    while i < n
        invariant
            0 <= i <= n <= bytes@.len(),
            out@ == hex(bytes@.take(i as int)),
        decreases n - i,
    {
        let b = bytes[i];
        let ghost before = out@;
        out.push(hex_char(b / 16));
        out.push(hex_char(b % 16));
        proof {
            assert(bytes@.take(i + 1).drop_last() =~= bytes@.take(i as int));
            assert(out@ =~= before + seq![text::hex_digit(b as int / 16), text::hex_digit(b as int % 16)]);
        }
        i += 1;
    }
    text::string_of(&out)
}

/// The digest of a text in hexadecimal.
pub open spec fn digest(s: Seq<char>) -> Seq<char> {
    hex(outside::sha256(s))
}

pub fn hash_text(s: &str) -> (r: String)
    ensures
        r@ == digest(s@),
{
    let d = outside::sha256_of(s);
    assert(d@.take(32) =~= d@);
    hex_of(&d, 32)
}

pub proof fn lemma_hex_len(bytes: Seq<u8>)
    ensures
        hex(bytes).len() == 2 * bytes.len(),
    decreases bytes.len(),
{
    if bytes.len() > 0 {
        lemma_hex_len(bytes.drop_last());
    }
}

// Runs.

/// Which characters make a run.
#[derive(Debug, Clone, Copy, PartialEq, Eq, Structural)]
pub enum RunKind {
    /// ASCII letters, digits, `_` and `-`.
    Word,
    /// ASCII letters and digits.
    Alphanumeric,
}

pub open spec fn is_alphanumeric(c: char) -> bool {
    text::is_ascii_letter(c) || text::is_digit(c)
}

pub open spec fn belongs(kind: RunKind, c: char) -> bool {
    is_alphanumeric(c) || (kind == RunKind::Word && (c == '_' || c == '-'))
}

fn belongs_to(kind: RunKind, c: char) -> (r: bool)
    ensures
        r == belongs(kind, c),
{
    text::is_ascii_alphabetic(c) || text::is_ascii_digit(c) || (kind == RunKind::Word && (c == '_'
        || c == '-'))
}

/// The length of the run at the start of the text.
pub open spec fn run_len(s: Seq<char>, kind: RunKind) -> nat
    decreases s.len(),
{
    if s.len() == 0 || !belongs(kind, s[0]) {
        0
    } else {
        1 + run_len(s.skip(1), kind)
    }
}

pub proof fn lemma_run_len(s: Seq<char>, kind: RunKind, k: int)
    requires
        0 <= k <= s.len(),
        forall|i: int| 0 <= i < k ==> belongs(kind, #[trigger] s[i]),
        k < s.len() ==> !belongs(kind, s[k]),
    ensures
        run_len(s, kind) == k,
    decreases k,
{
    if k > 0 {
        let t = s.skip(1);
        assert forall|i: int| 0 <= i < k - 1 implies belongs(kind, #[trigger] t[i]) by {
            assert(t[i] == s[i + 1]);
        }
        lemma_run_len(t, kind, k - 1);
    }
}

proof fn lemma_run_len_bound(s: Seq<char>, kind: RunKind)
    ensures
        run_len(s, kind) <= s.len(),
    decreases s.len(),
{
    if s.len() > 0 && belongs(kind, s[0]) {
        lemma_run_len_bound(s.skip(1), kind);
    }
}

/// The longest runs of the text, in order.
pub open spec fn runs(s: Seq<char>, kind: RunKind) -> Seq<Seq<char>>
    decreases s.len(),
{
    if s.len() == 0 {
        Seq::empty()
    } else if !belongs(kind, s[0]) {
        runs(s.skip(1), kind)
    } else {
        let n = run_len(s, kind) as int;
        if 0 < n <= s.len() {
            seq![s.take(n)] + runs(s.skip(n), kind)
        } else {
            Seq::empty()
        }
    }
}

pub fn split_runs(s: &str, kind: RunKind) -> (r: Vec<String>)
    ensures
        text::views(r@) == runs(s@, kind),
{
    let v = text::chars_of(s);
    let mut out: Vec<String> = Vec::new();
    let mut i: usize = 0;
    proof {
        assert(s@.skip(0) =~= s@);
        assert(text::views(out@) + runs(s@.skip(0), kind) =~= runs(s@, kind));
    }
    while i < v.len()
        invariant
            0 <= i <= v@.len(),
            v@ == s@,
            text::views(out@) + runs(s@.skip(i as int), kind) == runs(s@, kind),
        decreases v@.len() - i,
    {
        let ghost rest = s@.skip(i as int);
        if !belongs_to(kind, v[i]) {
            assert(rest[0] == s@[i as int]);
            assert(rest.skip(1) =~= s@.skip(i + 1));
            i += 1;
        } else {
            let mut j: usize = i + 1;
            while j < v.len() && belongs_to(kind, v[j])
                invariant
                    i < j <= v@.len(),
                    v@ == s@,
                    forall|k: int| i <= k < j ==> belongs(kind, #[trigger] s@[k]),
                decreases v@.len() - j,
            {
                j += 1;
            }
            let ghost n = j - i;
            proof {
                assert forall|k: int| 0 <= k < n implies belongs(kind, #[trigger] rest[k]) by {
                    assert(rest[k] == s@[i + k]);
                }
                lemma_run_len(rest, kind, n as int);
                assert(rest.skip(n as int) =~= s@.skip(j as int));
                assert(rest.take(n as int) =~= s@.subrange(i as int, j as int));
            }
            let ghost before = text::views(out@);
            out.push(text::slice_of(&v, i, j));
            proof {
                assert(text::views(out@) =~= before.push(rest.take(n as int)));
                assert(text::views(out@) + runs(s@.skip(j as int), kind) =~= before + (seq![
                    rest.take(n as int),
                ] + runs(s@.skip(j as int), kind)));
            }
            i = j;
        }
    }
    assert(s@.skip(i as int) =~= Seq::empty());
    assert(text::views(out@) =~= runs(s@, kind));
    out
}

// Lists of terms.

pub open spec fn lowered(terms: Seq<Seq<char>>) -> Seq<Seq<char>> {
    Seq::new(terms.len(), |i: int| text::ascii_lowered(terms[i]))
}

/// The terms in order, each only the first time.
pub open spec fn firsts(terms: Seq<Seq<char>>) -> Seq<Seq<char>>
    decreases terms.len(),
{
    if terms.len() == 0 {
        Seq::empty()
    } else {
        let before = firsts(terms.drop_last());
        if before.contains(terms.last()) {
            before
        } else {
            before.push(terms.last())
        }
    }
}

/// Whether the list holds the term.
pub fn holds(terms: &Vec<String>, term: &String) -> (r: bool)
    ensures
        r == text::views(terms@).contains(term@),
{
    let mut i: usize = 0;
    while i < terms.len()
        invariant
            0 <= i <= terms@.len(),
            forall|k: int| 0 <= k < i ==> (#[trigger] terms@[k])@ != term@,
        decreases terms@.len() - i,
    {
        if terms[i] == *term {
            assert(text::views(terms@)[i as int] == term@);
            return true;
        }
        i += 1;
    }
    proof {
        if text::views(terms@).contains(term@) {
            let k = choose|k: int|
                0 <= k < text::views(terms@).len() && text::views(terms@)[k] == term@;
            assert(terms@[k]@ == term@);
        }
    }
    false
}

pub fn dedup_preserving_order(terms: Vec<String>) -> (r: Vec<String>)
    ensures
        text::views(r@) == firsts(text::views(terms@)),
{
    let ghost all = text::views(terms@);
    let mut out: Vec<String> = Vec::new();
    let mut i: usize = 0;
    proof {
        assert(all.take(0) =~= Seq::empty());
        assert(text::views(out@) =~= firsts(all.take(0)));
    }
    while i < terms.len()
        invariant
            0 <= i <= terms@.len(),
            all == text::views(terms@),
            text::views(out@) == firsts(all.take(i as int)),
        decreases terms@.len() - i,
    {
        proof {
            assert(all.take(i + 1).drop_last() =~= all.take(i as int));
            assert(all.take(i + 1).last() == terms@[i as int]@);
        }
        if !holds(&out, &terms[i]) {
            let ghost before = text::views(out@);
            out.push(terms[i].clone());
            assert(text::views(out@) =~= before.push(terms@[i as int]@));
        }
        i += 1;
    }
    assert(all.take(i as int) =~= all);
    out
}

pub fn append_all(first: Vec<String>, second: &Vec<String>) -> (r: Vec<String>)
    ensures
        text::views(r@) == text::views(first@) + text::views(second@),
{
    let ghost a = text::views(first@);
    let ghost b = text::views(second@);
    let mut out = first;
    let mut i: usize = 0;
    assert(text::views(out@) =~= a + b.take(0));
    while i < second.len()
        invariant
            0 <= i <= second@.len(),
            b == text::views(second@),
            text::views(out@) == a + b.take(i as int),
        decreases second@.len() - i,
    {
        let ghost before = text::views(out@);
        out.push(second[i].clone());
        proof {
            assert(text::views(out@) =~= before.push(second@[i as int]@));
            assert(text::views(out@) =~= a + b.take(i + 1));
        }
        i += 1;
    }
    assert(b.take(i as int) =~= b);
    out
}

// Terms.

/// The words of two or more characters, in lower case.
pub open spec fn lexical(s: Seq<char>) -> Seq<Seq<char>> {
    lowered(runs(s, RunKind::Word).filter(|t: Seq<char>| t.len() >= 2))
}

pub fn lexical_tokens(s: &str) -> (r: Vec<String>)
    ensures
        text::views(r@) == lexical(s@),
{
    let all = split_runs(s, RunKind::Word);
    let ghost p = |t: Seq<char>| t.len() >= 2;
    let ghost terms = text::views(all@);
    let mut out: Vec<String> = Vec::new();
    let mut i: usize = 0;
    proof {
        reveal(Seq::filter);
        assert(terms.take(0) =~= Seq::empty());
        assert(text::views(out@) =~= lowered(terms.take(0).filter(p)));
    }
    while i < all.len()
        invariant
            0 <= i <= all@.len(),
            terms == text::views(all@),
            p == (|t: Seq<char>| t.len() >= 2),
            text::views(out@) == lowered(terms.take(i as int).filter(p)),
        decreases all@.len() - i,
    {
        let ghost kept = terms.take(i as int).filter(p);
        proof {
            reveal(Seq::filter);
            assert(terms.take(i + 1).drop_last() =~= terms.take(i as int));
            assert(terms.take(i + 1).last() == all@[i as int]@);
        }
        let n: usize = all[i].as_str().unicode_len();
        if n >= 2 {
            let ghost before = text::views(out@);
            out.push(text::to_ascii_lowercase(all[i].as_str()));
            proof {
                assert(text::views(out@) =~= before.push(text::ascii_lowered(all@[i as int]@)));
                assert(text::views(out@) =~= lowered(kept.push(all@[i as int]@)));
            }
        }
        i += 1;
    }
    assert(terms.take(i as int) =~= terms);
    out
}

/// Whether the character is a Chinese one.
pub open spec fn is_cjk_char(c: char) -> bool {
    let n = c as u32;
    ||| 0x4E00 <= n <= 0x9FFF
    ||| 0x3400 <= n <= 0x4DBF
    ||| 0x20000 <= n <= 0x2A6DF
    ||| 0x2A700 <= n <= 0x2B73F
    ||| 0x2B740 <= n <= 0x2B81F
    ||| 0x2B820 <= n <= 0x2CEAF
    ||| 0xF900 <= n <= 0xFAFF
}

pub fn is_cjk(c: char) -> (r: bool)
    ensures
        r == is_cjk_char(c),
{
    let n: u32 = c as u32;
    (0x4E00 <= n && n <= 0x9FFF) || (0x3400 <= n && n <= 0x4DBF) || (0x20000 <= n && n <= 0x2A6DF)
        || (0x2A700 <= n && n <= 0x2B73F) || (0x2B740 <= n && n <= 0x2B81F) || (0x2B820 <= n && n
        <= 0x2CEAF) || (0xF900 <= n && n <= 0xFAFF)
}

/// All stretches of `n` characters, in order.
pub open spec fn windows(s: Seq<char>, n: int) -> Seq<Seq<char>> {
    if s.len() < n {
        Seq::empty()
    } else {
        Seq::new((s.len() - n + 1) as nat, |i: int| s.subrange(i, i + n))
    }
}

fn stretches(v: &Vec<char>, n: usize) -> (r: Vec<String>)
    requires
        n > 0,
    ensures
        text::views(r@) == windows(v@, n as int),
{
    let mut out: Vec<String> = Vec::new();
    let len: usize = v.len();
    if len < n {
        assert(text::views(out@) =~= windows(v@, n as int));
        return out;
    }
    let count: usize = len - n + 1;
    let mut i: usize = 0;
    while i < count
        invariant
            0 <= i <= count,
            n > 0,
            len == v@.len(),
            count == len - n + 1,
            out@.len() == i,
            forall|k: int| 0 <= k < i ==> (#[trigger] out@[k])@ == v@.subrange(k, k + n),
        decreases count - i,
    {
        out.push(text::slice_of(v, i, i + n));
        i += 1;
    }
    assert(text::views(out@) =~= windows(v@, n as int));
    out
}

/// The Chinese characters of the text.
pub open spec fn cjk_chars(s: Seq<char>) -> Seq<char> {
    s.filter(|c: char| is_cjk_char(c))
}

/// The pairs and then the triples of neighbouring Chinese characters; a lone one by itself.
pub open spec fn cjk_terms(s: Seq<char>) -> Seq<Seq<char>> {
    let c = cjk_chars(s);
    if c.len() == 1 {
        seq![c]
    } else {
        windows(c, 2) + windows(c, 3)
    }
}

pub fn cjk_ngrams(s: &str) -> (r: Vec<String>)
    ensures
        text::views(r@) == cjk_terms(s@),
{
    let v = text::chars_of(s);
    let ghost p = |c: char| is_cjk_char(c);
    let mut chars: Vec<char> = Vec::new();
    let mut i: usize = 0;
    proof {
        reveal(Seq::filter);
        assert(s@.take(0) =~= Seq::empty());
    }
    while i < v.len()
        invariant
            0 <= i <= v@.len(),
            v@ == s@,
            p == (|c: char| is_cjk_char(c)),
            chars@ == s@.take(i as int).filter(p),
        decreases v@.len() - i,
    {
        proof {
            reveal(Seq::filter);
            assert(s@.take(i + 1).drop_last() =~= s@.take(i as int));
        }
        if is_cjk(v[i]) {
            chars.push(v[i]);
        }
        i += 1;
    }
    assert(s@.take(i as int) =~= s@);
    if chars.len() == 1 {
        let mut out: Vec<String> = Vec::new();
        out.push(text::string_of(&chars));
        assert(text::views(out@) =~= seq![chars@]);
        return out;
    }
    let pairs = stretches(&chars, 2);
    let triples = stretches(&chars, 3);
    append_all(pairs, &triples)
}

/// The stretches of three of each term, one term after the other.
pub open spec fn triples(terms: Seq<Seq<char>>) -> Seq<Seq<char>>
    decreases terms.len(),
{
    if terms.len() == 0 {
        Seq::empty()
    } else {
        triples(terms.drop_last()) + windows(text::ascii_lowered(terms.last()), 3)
    }
}

/// The stretches of three within the runs of letters and digits.
pub open spec fn ascii_terms(s: Seq<char>) -> Seq<Seq<char>> {
    triples(runs(s, RunKind::Alphanumeric))
}

pub fn ascii_ngrams(s: &str) -> (r: Vec<String>)
    ensures
        text::views(r@) == ascii_terms(s@),
{
    let all = split_runs(s, RunKind::Alphanumeric);
    let ghost terms = text::views(all@);
    let mut out: Vec<String> = Vec::new();
    let mut i: usize = 0;
    proof {
        assert(terms.take(0) =~= Seq::empty());
        assert(text::views(out@) =~= triples(terms.take(0)));
    }
    while i < all.len()
        invariant
            0 <= i <= all@.len(),
            terms == text::views(all@),
            text::views(out@) == triples(terms.take(i as int)),
        decreases all@.len() - i,
    {
        proof {
            assert(terms.take(i + 1).drop_last() =~= terms.take(i as int));
            assert(terms.take(i + 1).last() == all@[i as int]@);
        }
        let chars = text::chars_of(text::to_ascii_lowercase(all[i].as_str()).as_str());
        let more = stretches(&chars, 3);
        out = append_all(out, &more);
        i += 1;
    }
    assert(terms.take(i as int) =~= terms);
    out
}

/// All terms of a text, with repeats.
pub open spec fn all_terms(s: Seq<char>) -> Seq<Seq<char>> {
    lexical(s) + cjk_terms(s) + ascii_terms(s)
}

fn all_tokens(s: &str) -> (r: Vec<String>)
    ensures
        text::views(r@) == all_terms(s@),
{
    let tokens = lexical_tokens(s);
    let tokens = append_all(tokens, &cjk_ngrams(s));
    append_all(tokens, &ascii_ngrams(s))
}

/// The terms by which relevance is judged.
pub open spec fn relevance(s: Seq<char>) -> Seq<Seq<char>> {
    firsts(lexical(s) + cjk_terms(s))
}

pub fn relevance_terms(s: &str) -> (r: Vec<String>)
    ensures
        text::views(r@) == relevance(s@),
{
    let terms = lexical_tokens(s);
    dedup_preserving_order(append_all(terms, &cjk_ngrams(s)))
}

/// Whether a word looks like an identifier: four or more characters, and a digit, a `_` or a
/// `-`, or no letter in lower case.
pub open spec fn is_identifier(t: Seq<char>) -> bool {
    &&& t.len() >= 4
    &&& {
        ||| exists|i: int| 0 <= i < t.len() && (text::is_digit(#[trigger] t[i]) || t[i] == '_' || t[i] == '-')
        ||| forall|i: int| 0 <= i < t.len() && text::is_ascii_letter(#[trigger] t[i]) ==> 'A' as u32 <= t[i] as u32
            <= 'Z' as u32
    }
}

fn looks_like_identifier(t: &str) -> (r: bool)
    ensures
        r == is_identifier(t@),
{
    let v = text::chars_of(t);
    if v.len() < 4 {
        return false;
    }
    let mut marked = false;
    let mut upper = true;
    let mut i: usize = 0;
    while i < v.len()
        invariant
            0 <= i <= v@.len(),
            v@ == t@,
            marked == exists|k: int|
                0 <= k < i && (text::is_digit(#[trigger] t@[k]) || t@[k] == '_' || t@[k] == '-'),
            upper == forall|k: int|
                0 <= k < i && text::is_ascii_letter(#[trigger] t@[k]) ==> 'A' as u32 <= t@[k] as u32
                    <= 'Z' as u32,
        decreases v@.len() - i,
    {
        let c = v[i];
        if text::is_ascii_digit(c) || c == '_' || c == '-' {
            assert(text::is_digit(t@[i as int]) || t@[i as int] == '_' || t@[i as int] == '-');
            marked = true;
        }
        if text::is_ascii_alphabetic(c) && !('A' as u32 <= c as u32 && c as u32 <= 'Z' as u32) {
            assert(text::is_ascii_letter(t@[i as int]));
            upper = false;
        }
        i += 1;
    }
    marked || upper
}

/// The identifiers of a text in lower case.
pub open spec fn identifiers(s: Seq<char>) -> Seq<Seq<char>> {
    firsts(lowered(runs(s, RunKind::Word).filter(|t: Seq<char>| is_identifier(t))))
}

pub fn identifier_terms(s: &str) -> (r: Vec<String>)
    ensures
        text::views(r@) == identifiers(s@),
{
    let all = split_runs(s, RunKind::Word);
    let ghost p = |t: Seq<char>| is_identifier(t);
    let ghost terms = text::views(all@);
    let mut out: Vec<String> = Vec::new();
    let mut i: usize = 0;
    proof {
        reveal(Seq::filter);
        assert(terms.take(0) =~= Seq::empty());
        assert(text::views(out@) =~= lowered(terms.take(0).filter(p)));
    }
    while i < all.len()
        invariant
            0 <= i <= all@.len(),
            terms == text::views(all@),
            p == (|t: Seq<char>| is_identifier(t)),
            text::views(out@) == lowered(terms.take(i as int).filter(p)),
        decreases all@.len() - i,
    {
        let ghost kept = terms.take(i as int).filter(p);
        proof {
            reveal(Seq::filter);
            assert(terms.take(i + 1).drop_last() =~= terms.take(i as int));
            assert(terms.take(i + 1).last() == all@[i as int]@);
        }
        if looks_like_identifier(all[i].as_str()) {
            let ghost before = text::views(out@);
            out.push(text::to_ascii_lowercase(all[i].as_str()));
            proof {
                assert(text::views(out@) =~= before.push(text::ascii_lowered(all@[i as int]@)));
                assert(text::views(out@) =~= lowered(kept.push(all@[i as int]@)));
            }
        }
        i += 1;
    }
    assert(terms.take(i as int) =~= terms);
    dedup_preserving_order(out)
}

/// Whether an identifier of the first text is one of the second.
pub open spec fn shares_identifier(a: Seq<char>, b: Seq<char>) -> bool {
    exists|t: Seq<char>| #[trigger] identifiers(a).contains(t) && identifiers(b).contains(t)
}

pub fn has_exact_identifier(query: &str, candidate: &str) -> (r: bool)
    ensures
        r == shares_identifier(query@, candidate@),
{
    let known = identifier_terms(candidate);
    let asked = identifier_terms(query);
    let mut i: usize = 0;
    while i < asked.len()
        invariant
            0 <= i <= asked@.len(),
            text::views(asked@) == identifiers(query@),
            text::views(known@) == identifiers(candidate@),
            forall|k: int| 0 <= k < i ==> !identifiers(candidate@).contains(#[trigger] asked@[k]@),
        decreases asked@.len() - i,
    {
        if holds(&known, &asked[i]) {
            assert(text::views(asked@)[i as int] == asked@[i as int]@);
            assert(identifiers(query@).contains(asked@[i as int]@));
            return true;
        }
        i += 1;
    }
    proof {
        if shares_identifier(query@, candidate@) {
            let t = choose|t: Seq<char>| #[trigger]
                identifiers(query@).contains(t) && identifiers(candidate@).contains(t);
            let k = choose|k: int|
                0 <= k < text::views(asked@).len() && text::views(asked@)[k] == t;
            assert(asked@[k]@ == t);
        }
    }
    false
}

// The index.

/// Whether one text comes before the other, character by character.
pub open spec fn precedes(a: Seq<char>, b: Seq<char>) -> bool
    decreases a.len(),
{
    if b.len() == 0 {
        false
    } else if a.len() == 0 {
        true
    } else if a[0] != b[0] {
        (a[0] as int) < (b[0] as int)
    } else {
        precedes(a.skip(1), b.skip(1))
    }
}

fn code_of(c: char) -> (n: u32)
    ensures
        n == c as int,
{
    c as u32
}

fn comes_before(a: &Vec<char>, b: &Vec<char>) -> (r: bool)
    ensures
        r == precedes(a@, b@),
{
    let mut i: usize = 0;
    assert(a@.skip(0) =~= a@ && b@.skip(0) =~= b@);
    while i < a.len() && i < b.len()
        invariant
            0 <= i <= a@.len(),
            i <= b@.len(),
            precedes(a@.skip(i as int), b@.skip(i as int)) == precedes(a@, b@),
        decreases a@.len() - i,
    {
        let ghost x = a@.skip(i as int);
        let ghost y = b@.skip(i as int);
        assert(x[0] == a@[i as int] && y[0] == b@[i as int]);
        let c: char = a[i];
        let d: char = b[i];
        if c != d {
            return code_of(c) < code_of(d);
        }
        proof {
            assert(x.skip(1) =~= a@.skip(i + 1));
            assert(y.skip(1) =~= b@.skip(i + 1));
        }
        i += 1;
    }
    i < b.len()
}

/// Whether one text comes before the other.
pub fn is_smaller(a: &str, b: &str) -> (r: bool)
    ensures
        r == precedes(a@, b@),
{
    comes_before(&text::chars_of(a), &text::chars_of(b))
}

pub proof fn lemma_precedes_total(a: Seq<char>, b: Seq<char>)
    ensures
        a == b || precedes(a, b) || precedes(b, a),
        !(precedes(a, b) && precedes(b, a)),
        !precedes(a, a),
    decreases a.len(),
{
    if a.len() > 0 && b.len() > 0 && a[0] != b[0] {
        assert(precedes(a, b) || precedes(b, a));
    }
    if a.len() > 0 && b.len() > 0 && a[0] == b[0] {
        lemma_precedes_total(a.skip(1), b.skip(1));
        assert(precedes(b, a) == precedes(b.skip(1), a.skip(1)));
        if a.skip(1) == b.skip(1) {
            assert(a =~= seq![a[0]] + a.skip(1));
            assert(b =~= seq![b[0]] + b.skip(1));
            assert(a =~= b);
        }
    }
    if a.len() > 0 {
        lemma_precedes_total(a.skip(1), a.skip(1));
    }
    if a.len() == 0 && b.len() == 0 {
        assert(a =~= b);
    }
}

pub proof fn lemma_precedes_transitive(a: Seq<char>, b: Seq<char>, c: Seq<char>)
    requires
        precedes(a, b),
        precedes(b, c),
    ensures
        precedes(a, c),
    decreases a.len(),
{
    if a.len() > 0 && b.len() > 0 && c.len() > 0 {
        if a[0] == b[0] && b[0] == c[0] {
            lemma_precedes_transitive(a.skip(1), b.skip(1), c.skip(1));
        }
    }
}

/// Whether each term comes before all that follow it.
pub open spec fn is_ascending(terms: Seq<Seq<char>>) -> bool {
    forall|i: int, j: int| 0 <= i < j < terms.len() ==> precedes(#[trigger] terms[i], #[trigger] terms[j])
}

/// Whether the parts are the terms in order and without repeats.
pub open spec fn is_sorted_set(parts: Seq<Seq<char>>, terms: Seq<Seq<char>>) -> bool {
    &&& is_ascending(parts)
    &&& forall|t: Seq<char>| #[trigger] parts.contains(t) <==> terms.contains(t)
}

pub open spec fn char_views(v: Seq<Vec<char>>) -> Seq<Seq<char>> {
    Seq::new(v.len(), |i: int| v[i]@)
}

/// The place of a term among the others: all before it come before, none behind it does.
fn find_place(v: &Vec<Vec<char>>, t: &Vec<char>) -> (k: usize)
    requires
        is_ascending(char_views(v@)),
    ensures
        k <= v@.len(),
        forall|i: int| 0 <= i < k ==> precedes(#[trigger] char_views(v@)[i], t@),
        forall|i: int| k <= i < v@.len() ==> !precedes(#[trigger] char_views(v@)[i], t@),
{
    let ghost all = char_views(v@);
    let mut low: usize = 0;
    let mut high: usize = v.len();
    while low < high
        invariant
            0 <= low <= high <= v@.len(),
            all == char_views(v@),
            is_ascending(all),
            forall|i: int| 0 <= i < low ==> precedes(#[trigger] all[i], t@),
            forall|i: int| high <= i < v@.len() ==> !precedes(#[trigger] all[i], t@),
        decreases high - low,
    {
        let mid: usize = low + (high - low) / 2;
        if comes_before(&v[mid], t) {
            assert forall|i: int| 0 <= i < mid + 1 implies precedes(#[trigger] all[i], t@) by {
                if low <= i < mid {
                    lemma_precedes_transitive(all[i], all[mid as int], t@);
                }
                assert(all[mid as int] == v@[mid as int]@);
            }
            low = mid + 1;
        } else {
            assert forall|i: int| mid <= i < v@.len() implies !precedes(#[trigger] all[i], t@) by {
                assert(all[mid as int] == v@[mid as int]@);
                if mid < i && precedes(all[i], t@) {
                    lemma_precedes_transitive(all[mid as int], all[i], t@);
                }
            }
            high = mid;
        }
    }
    low
}

/// The terms in order and without repeats.
pub fn sort_and_dedup(terms: &Vec<String>) -> (r: Vec<String>)
    ensures
        is_sorted_set(text::views(r@), text::views(terms@)),
{
    let ghost all = text::views(terms@);
    let mut sorted: Vec<Vec<char>> = Vec::new();
    let mut i: usize = 0;
    assert(char_views(sorted@) =~= Seq::empty());
    while i < terms.len()
        invariant
            0 <= i <= terms@.len(),
            all == text::views(terms@),
            is_sorted_set(char_views(sorted@), all.take(i as int)),
        decreases terms@.len() - i,
    {
        let t = text::chars_of(terms[i].as_str());
        let ghost before = char_views(sorted@);
        let ghost earlier = all.take(i as int);
        let ghost now = all.take(i + 1);
        let k = find_place(&sorted, &t);
        let present = k < sorted.len() && !comes_before(&t, &sorted[k]);
        proof {
            assert(now =~= earlier.push(t@));
            lemma_push_contains(earlier, t@);
        }
        if present {
            proof {
                assert(before[k as int] == sorted@[k as int]@);
                lemma_precedes_total(before[k as int], t@);
                assert(before[k as int] == t@);
                assert(before.contains(t@));
            }
        } else {
            let ghost u = t@;
            sorted.insert(k, t);
            proof {
                let after = char_views(sorted@);
                assert(after =~= before.insert(k as int, u));
                assert forall|a: int, b: int| 0 <= a < b < after.len() implies precedes(
                    #[trigger] after[a],
                    #[trigger] after[b],
                ) by {
                    if a == k {
                        assert(after[b] == before[b - 1]);
                        lemma_precedes_total(before[b - 1], u);
                        if before[b - 1] == u {
                            if b - 1 > k {
                                assert(precedes(before[k as int], before[b - 1]));
                            } else {
                                lemma_precedes_total(u, u);
                            }
                        }
                    } else if b == k {
                        assert(after[a] == before[a]);
                    } else {
                        let x = if a < k {
                            a
                        } else {
                            a - 1
                        };
                        let y = if b < k {
                            b
                        } else {
                            b - 1
                        };
                        assert(after[a] == before[x] && after[b] == before[y]);
                    }
                }
                lemma_insert_contains(before, k as int, u);
            }
        }
        i += 1;
    }
    assert(all.take(i as int) =~= all);
    let mut out: Vec<String> = Vec::new();
    let mut j: usize = 0;
    while j < sorted.len()
        invariant
            0 <= j <= sorted@.len(),
            out@.len() == j,
            forall|k: int| 0 <= k < j ==> (#[trigger] out@[k])@ == sorted@[k]@,
        decreases sorted@.len() - j,
    {
        out.push(text::string_of(&sorted[j]));
        j += 1;
    }
    assert(text::views(out@) =~= char_views(sorted@));
    out
}

proof fn lemma_push_contains(s: Seq<Seq<char>>, t: Seq<char>)
    ensures
        forall|x: Seq<char>| #[trigger] s.push(t).contains(x) <==> s.contains(x) || x == t,
{
    assert forall|x: Seq<char>| #[trigger] s.push(t).contains(x) <==> s.contains(x) || x == t by {
        if s.contains(x) {
            let i = choose|i: int| 0 <= i < s.len() && s[i] == x;
            assert(s.push(t)[i] == x);
        }
        assert(s.push(t)[s.len() as int] == t);
        if s.push(t).contains(x) && x != t {
            let i = choose|i: int| 0 <= i < s.push(t).len() && s.push(t)[i] == x;
            assert(s[i] == x);
        }
    }
}

proof fn lemma_insert_contains(s: Seq<Seq<char>>, k: int, t: Seq<char>)
    requires
        0 <= k <= s.len(),
    ensures
        forall|x: Seq<char>| #[trigger] s.insert(k, t).contains(x) <==> s.contains(x) || x == t,
{
    let r = s.insert(k, t);
    assert forall|x: Seq<char>| #[trigger] r.contains(x) <==> s.contains(x) || x == t by {
        if s.contains(x) {
            let i = choose|i: int| 0 <= i < s.len() && s[i] == x;
            if i < k {
                assert(r[i] == x);
            } else {
                assert(r[i + 1] == x);
            }
        }
        assert(r[k] == t);
        if r.contains(x) && x != t {
            let i = choose|i: int| 0 <= i < r.len() && r[i] == x;
            if i < k {
                assert(s[i] == x);
            } else {
                assert(s[i - 1] == x);
            }
        }
    }
}

/// Whether the text is what the index holds for another: its terms, each once and in order.
pub open spec fn is_index_text(r: Seq<char>, s: Seq<char>) -> bool {
    exists|parts: Seq<Seq<char>>| #[trigger] is_sorted_set(parts, all_terms(s)) && r == text::joined(parts, " "@)
}

/// The one text that the index holds for another.
pub open spec fn index_text(s: Seq<char>) -> Seq<char> {
    choose|r: Seq<char>| is_index_text(r, s)
}

pub fn build_index_text(s: &str) -> (r: String)
    ensures
        is_index_text(r@, s@),
        r@ == index_text(s@),
{
    let tokens = all_tokens(s);
    let parts = sort_and_dedup(&tokens);
    let r = text::join(&parts, " ");
    proof {
        assert(is_sorted_set(text::views(parts@), all_terms(s@)));
        assert(is_index_text(r@, s@));
        index_text_depends_on_terms_alone(r@, s@, index_text(s@), s@);
    }
    r
}

// Queries.

/// A term as a query has it: in quotes, with quotes inside doubled.
pub open spec fn quoted(t: Seq<char>) -> Seq<char> {
    "\""@ + text::replaced(t, "\""@, "\"\""@) + "\""@
}

pub fn escape_fts_token(t: &str) -> (r: String)
    ensures
        r@ == quoted(t@),
{
    let mut s = "\"".to_owned();
    s.append(text::replace(t, "\"", "\"\"").as_str());
    s.append("\"");
    s
}

pub open spec fn all_quoted(terms: Seq<Seq<char>>) -> Seq<Seq<char>> {
    Seq::new(terms.len(), |i: int| quoted(terms[i]))
}

pub open spec fn at_most(terms: Seq<Seq<char>>, n: int) -> Seq<Seq<char>> {
    if terms.len() <= n {
        terms
    } else {
        terms.take(n)
    }
}

/// The query for a text: any of its first terms.
pub open spec fn search_query(s: Seq<char>, max_tokens: int) -> Seq<char> {
    text::joined(all_quoted(at_most(firsts(all_terms(s)), max_tokens)), " OR "@)
}

pub fn build_search_query(s: &str, max_tokens: usize) -> (r: String)
    ensures
        r@ == search_query(s@, max_tokens as int),
{
    let terms = dedup_preserving_order(all_tokens(s));
    let n: usize = if terms.len() <= max_tokens {
        terms.len()
    } else {
        max_tokens
    };
    let ghost kept = at_most(text::views(terms@), max_tokens as int);
    let mut out: Vec<String> = Vec::new();
    let mut i: usize = 0;
    while i < n
        invariant
            0 <= i <= n <= terms@.len(),
            out@.len() == i,
            forall|k: int| 0 <= k < i ==> (#[trigger] out@[k])@ == quoted(terms@[k]@),
        decreases n - i,
    {
        out.push(escape_fts_token(terms[i].as_str()));
        i += 1;
    }
    assert(text::views(out@) =~= all_quoted(kept));
    text::join(&out, " OR ")
}

// Laws.

proof fn lemma_first_is_least(a: Seq<Seq<char>>, t: Seq<char>)
    requires
        is_ascending(a),
        a.contains(t),
    ensures
        t == a[0] || precedes(a[0], t),
{
    let i = choose|i: int| 0 <= i < a.len() && a[i] == t;
    if i > 0 {
        assert(precedes(a[0], a[i]));
    }
}

proof fn lemma_rest_contains(a: Seq<Seq<char>>)
    requires
        is_ascending(a),
        a.len() > 0,
    ensures
        is_ascending(a.skip(1)),
        forall|t: Seq<char>| #[trigger] a.skip(1).contains(t) <==> a.contains(t) && t != a[0],
{
    let b = a.skip(1);
    assert forall|i: int, j: int| 0 <= i < j < b.len() implies precedes(#[trigger] b[i], #[trigger] b[j]) by {
        assert(precedes(a[i + 1], a[j + 1]));
    }
    assert forall|t: Seq<char>| #[trigger] b.contains(t) <==> a.contains(t) && t != a[0] by {
        if b.contains(t) {
            let i = choose|i: int| 0 <= i < b.len() && b[i] == t;
            assert(a[i + 1] == t);
            assert(precedes(a[0], a[i + 1]));
            lemma_precedes_total(t, t);
        }
        if a.contains(t) && t != a[0] {
            let i = choose|i: int| 0 <= i < a.len() && a[i] == t;
            assert(b[i - 1] == t);
        }
    }
}

proof fn lemma_sorted_sets_agree(a: Seq<Seq<char>>, b: Seq<Seq<char>>)
    requires
        is_ascending(a),
        is_ascending(b),
        forall|t: Seq<char>| #[trigger] a.contains(t) <==> b.contains(t),
    ensures
        a == b,
    decreases a.len(),
{
    if a.len() == 0 {
        if b.len() > 0 {
            assert(b.contains(b[0]));
            assert(a.contains(b[0]));
        }
        assert(a =~= b);
    } else {
        assert(a.contains(a[0]));
        assert(b.contains(a[0]));
        assert(b.contains(b[0]));
        assert(a.contains(b[0]));
        lemma_first_is_least(a, b[0]);
        lemma_first_is_least(b, a[0]);
        lemma_precedes_total(a[0], b[0]);
        assert(a[0] == b[0]);
        lemma_rest_contains(a);
        lemma_rest_contains(b);
        assert forall|t: Seq<char>| #[trigger] a.skip(1).contains(t) <==> b.skip(1).contains(t) by {
            assert(a.contains(t) <==> b.contains(t));
        }
        lemma_sorted_sets_agree(a.skip(1), b.skip(1));
        assert(a =~= seq![a[0]] + a.skip(1));
        assert(b =~= seq![b[0]] + b.skip(1));
    }
}

/// What the index holds for a text depends on its terms alone, not on their order or number:
/// texts with the same terms have the same index text.
pub proof fn index_text_depends_on_terms_alone(r: Seq<char>, s: Seq<char>, q: Seq<char>, t: Seq<char>)
    requires
        is_index_text(r, s),
        is_index_text(q, t),
        forall|x: Seq<char>| #[trigger] all_terms(s).contains(x) <==> all_terms(t).contains(x),
    ensures
        r == q,
{
    let a = choose|a: Seq<Seq<char>>| #[trigger]
        is_sorted_set(a, all_terms(s)) && r == text::joined(a, " "@);
    let b = choose|b: Seq<Seq<char>>| #[trigger]
        is_sorted_set(b, all_terms(t)) && q == text::joined(b, " "@);
    assert forall|x: Seq<char>| #[trigger] a.contains(x) <==> b.contains(x) by {
        assert(all_terms(s).contains(x) <==> all_terms(t).contains(x));
    }
    lemma_sorted_sets_agree(a, b);
}

/// A list without repeats holds the same terms as the list that it was made of.
pub proof fn dropping_repeats_loses_nothing(terms: Seq<Seq<char>>, t: Seq<char>)
    ensures
        firsts(terms).contains(t) <==> terms.contains(t),
    decreases terms.len(),
{
    if terms.len() > 0 {
        let before = terms.drop_last();
        dropping_repeats_loses_nothing(before, t);
        assert(terms =~= before.push(terms.last()));
        lemma_push_contains(before, terms.last());
        lemma_push_contains(firsts(before), terms.last());
    }
}

} // verus!
