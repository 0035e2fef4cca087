//! What holds of the words of a text.
use vstd::prelude::*;
use vstd::string::*;

use crate::text;

verus! {

/// Whether the text is a word: not empty, and without white space.
pub open spec fn is_word(w: Seq<char>) -> bool {
    w.len() > 0 && forall|i: int| 0 <= i < w.len() ==> !text::is_space(#[trigger] w[i])
}

proof fn lemma_word_is_taken(s: Seq<char>)
    ensures
        forall|i: int| 0 <= i < text::word_len(s) ==> !text::is_space(#[trigger] s[i]),
        text::word_len(s) < s.len() ==> text::is_space(s[text::word_len(s) as int]),
        text::word_len(s) <= s.len(),
    decreases s.len(),
{
    text::lemma_word_len_bound(s);
    if s.len() > 0 && !text::is_space(s[0]) {
        lemma_word_is_taken(s.skip(1));
        assert forall|i: int| 0 <= i < text::word_len(s) implies !text::is_space(#[trigger] s[i]) by {
            if i > 0 {
                assert(s.skip(1)[i - 1] == s[i]);
            }
        }
        if text::word_len(s) < s.len() {
            assert(s.skip(1)[text::word_len(s) - 1] == s[text::word_len(s) as int]);
        }
    }
}

/// Every word of a text is one.
pub proof fn words_are_words(s: Seq<char>)
    ensures
        forall|i: int| 0 <= i < text::words(s).len() ==> is_word(#[trigger] text::words(s)[i]),
    decreases s.len(),
{
    let t = text::trim_start(s);
    text::lemma_trim_start_len(s);
    if t.len() > 0 {
        let n = text::word_len(t) as int;
        text::lemma_word_len_bound(t);
        lemma_word_is_taken(t);
        words_are_words(t.skip(n));
        assert(is_word(t.take(n)));
        assert forall|i: int| 0 <= i < text::words(s).len() implies is_word(#[trigger] text::words(s)[i]) by {
            if i > 0 {
                assert(text::words(s)[i] == text::words(t.skip(n))[i - 1]);
            }
        }
    }
}

proof fn lemma_compacted_sum(a: Seq<char>, b: Seq<char>)
    ensures
        text::compacted(a + b) == text::compacted(a) + text::compacted(b),
{
    Seq::filter_distributes_over_add(a, b, |c: char| !text::is_space(c));
}

proof fn lemma_word_is_compact(w: Seq<char>)
    requires
        forall|i: int| 0 <= i < w.len() ==> !text::is_space(#[trigger] w[i]),
    ensures
        text::compacted(w) == w,
    decreases w.len(),
{
    reveal(Seq::filter);
    if w.len() > 0 {
        lemma_word_is_compact(w.drop_last());
        assert(w.drop_last().push(w.last()) =~= w);
    } else {
        assert(text::compacted(w) =~= w);
    }
}

proof fn lemma_trimming_keeps_letters(s: Seq<char>)
    ensures
        text::compacted(text::trim_start(s)) == text::compacted(s),
    decreases s.len(),
{
    reveal(Seq::filter);
    if s.len() > 0 && text::is_space(s[0]) {
        lemma_trimming_keeps_letters(s.skip(1));
        assert(s =~= seq![s[0]] + s.skip(1));
        lemma_compacted_sum(seq![s[0]], s.skip(1));
        assert(seq![s[0]].drop_last() =~= Seq::empty());
        assert(text::compacted(seq![s[0]].drop_last()) =~= Seq::empty());
        assert(text::compacted(seq![s[0]]) =~= Seq::empty());
        assert(Seq::<char>::empty() + text::compacted(s.skip(1)) =~= text::compacted(s.skip(1)));
    }
}

/// The words of a text, one behind the other, are all of it that is no white space.
pub proof fn words_are_all_of_a_text(s: Seq<char>)
    ensures
        text::words(s).flatten() == text::compacted(s),
    decreases s.len(),
{
    let t = text::trim_start(s);
    text::lemma_trim_start_len(s);
    lemma_trimming_keeps_letters(s);
    if t.len() > 0 {
        let n = text::word_len(t) as int;
        text::lemma_word_len_bound(t);
        lemma_word_is_taken(t);
        words_are_all_of_a_text(t.skip(n));
        assert(text::words(s).first() == t.take(n));
        assert(text::words(s).drop_first() =~= text::words(t.skip(n)));
        assert(t =~= t.take(n) + t.skip(n));
        lemma_compacted_sum(t.take(n), t.skip(n));
        lemma_word_is_compact(t.take(n));
    } else {
        reveal(Seq::filter);
        assert(text::compacted(t) =~= Seq::empty());
        assert(text::words(s).flatten() =~= Seq::empty());
    }
}

/// A word behind a text and a space is its last word.
pub proof fn a_word_behind_is_the_last(a: Seq<char>, w: Seq<char>)
    requires
        is_word(w),
    ensures
        text::words(a + seq![' '] + w) == text::words(a).push(w),
    decreases a.len(),
{
    let u = a + seq![' '] + w;
    let ta = text::trim_start(a);
    text::lemma_trim_start_len(a);
    let k = lemma_lead_len(a);
    if ta.len() == 0 {
        assert forall|i: int| 0 <= i < a.len() + 1 implies text::is_space(#[trigger] u[i]) by {
            if i < a.len() {
                assert(u[i] == a[i]);
            }
        }
        let m = a.len() + 1int;
        assert(u[m] == w[0]);
        text::lemma_trim_start(u, m);
        assert(u.skip(m) =~= w);
        text::lemma_word_len(w, w.len() as int);
        assert(w.take(w.len() as int) =~= w);
        let rest = w.skip(w.len() as int);
        assert(text::trim_start(rest).len() == 0);
        assert(text::words(rest) =~= Seq::empty());
        assert(text::words(a) =~= Seq::empty());
        assert(text::words(u) =~= seq![w]);
    } else {
        assert forall|i: int| 0 <= i < k implies text::is_space(#[trigger] u[i]) by {
            assert(u[i] == a[i]);
        }
        assert(u[k] == a[k]);
        assert(a.skip(k)[0] == a[k]);
        text::lemma_trim_start(u, k);
        let tu = u.skip(k);
        assert(tu =~= ta + seq![' '] + w);
        let n = text::word_len(ta) as int;
        text::lemma_word_len_bound(ta);
        lemma_word_is_taken(ta);
        assert forall|i: int| 0 <= i < n implies !text::is_space(#[trigger] tu[i]) by {
            assert(tu[i] == ta[i]);
        }
        if n < ta.len() {
            assert(tu[n] == ta[n]);
        } else {
            assert(tu[n] == ' ');
        }
        text::lemma_word_len(tu, n);
        assert(tu.take(n) =~= ta.take(n));
        assert(tu.skip(n) =~= ta.skip(n) + seq![' '] + w);
        a_word_behind_is_the_last(ta.skip(n), w);
        assert(text::words(u) =~= text::words(a).push(w));
    }
}

/// The number of white-space characters that a text starts with.
proof fn lemma_lead_len(s: Seq<char>) -> (k: int)
    ensures
        0 <= k <= s.len(),
        forall|i: int| 0 <= i < k ==> text::is_space(#[trigger] s[i]),
        k < s.len() ==> !text::is_space(s[k]),
        text::trim_start(s) == s.skip(k),
    decreases s.len(),
{
    if s.len() > 0 && text::is_space(s[0]) {
        let j = lemma_lead_len(s.skip(1));
        assert forall|i: int| 0 <= i < j + 1 implies text::is_space(#[trigger] s[i]) by {
            if i > 0 {
                assert(s.skip(1)[i - 1] == s[i]);
            }
        }
        if j + 1 < s.len() {
            assert(s.skip(1)[j] == s[j + 1]);
        }
        assert(s.skip(1).skip(j) =~= s.skip(j + 1));
        j + 1
    } else {
        assert(s.skip(0) =~= s);
        0
    }
}

/// Whether the only white space in the text are single spaces between other characters.
pub open spec fn is_single_spaced(s: Seq<char>) -> bool {
    s.len() == 0 || {
        &&& !text::is_space(s[0])
        &&& !text::is_space(s[s.len() - 1])
        &&& forall|i: int|
            0 <= i < s.len() - 1 && text::is_space(#[trigger] s[i]) ==> s[i] == ' ' && !text::is_space(
                s[i + 1],
            )
    }
}

/// Words with single spaces between them are a text with these words.
pub proof fn joined_words_stay_the_same(words: Seq<Seq<char>>)
    requires
        forall|i: int| 0 <= i < words.len() ==> is_word(#[trigger] words[i]),
    ensures
        text::words(text::joined(words, " "@)) == words,
        is_single_spaced(text::joined(words, " "@)),
        words.len() > 0 ==> text::joined(words, " "@).len() > 0,
    decreases words.len(),
{
    reveal_strlit(" ");
    let s = text::joined(words, " "@);
    if words.len() == 0 {
        assert(text::words(s) =~= words);
    } else if words.len() == 1 {
        let w = words[0];
        assert(is_word(w));
        text::lemma_trim_start(w, 0);
        assert(w.skip(0) =~= w);
        text::lemma_word_len(w, w.len() as int);
        assert(w.take(w.len() as int) =~= w);
        assert(text::words(w.skip(w.len() as int)) =~= Seq::empty());
        assert(text::words(w) =~= words);
    } else {
        let front = words.drop_last();
        let w = words.last();
        assert(w == words[words.len() - 1]);
        assert forall|i: int| 0 <= i < front.len() implies is_word(#[trigger] front[i]) by {
            assert(front[i] == words[i]);
        }
        joined_words_stay_the_same(front);
        let a = text::joined(front, " "@);
        assert(" "@ =~= seq![' ']);
        assert(s == a + seq![' '] + w);
        a_word_behind_is_the_last(a, w);
        assert(front.push(w) =~= words);
        assert forall|i: int| 0 <= i < s.len() - 1 && text::is_space(#[trigger] s[i]) implies s[i] == ' '
            && !text::is_space(s[i + 1]) by {
            if i < a.len() {
                assert(s[i] == a[i]);
                if i + 1 < a.len() {
                    assert(s[i + 1] == a[i + 1]);
                }
            } else if i == a.len() {
                assert(s[i + 1] == w[0]);
            } else {
                assert(s[i] == w[i - a.len() - 1]);
            }
        }
        assert(s[s.len() - 1] == w[w.len() - 1]);
        assert(s[0] == a[0]);
    }
}

// Trimming, splitting and replacing.

/// Trimming takes the white space at both ends away and nothing else: what is left stands in
/// the text from the first to the second of the places.
pub proof fn trimming_takes_white_space_only(s: Seq<char>) -> (r: (int, int))
    ensures
        0 <= r.0 <= r.1 <= s.len(),
        text::trimmed(s) == s.subrange(r.0, r.1),
        forall|i: int| 0 <= i < r.0 ==> text::is_space(#[trigger] s[i]),
        forall|i: int| r.1 <= i < s.len() ==> text::is_space(#[trigger] s[i]),
        r.0 < r.1 ==> !text::is_space(s[r.0]) && !text::is_space(s[r.1 - 1]),
        r.0 == r.1 ==> forall|i: int| 0 <= i < s.len() ==> text::is_space(#[trigger] s[i]),
{
    let a = lemma_first_solid(s, 0);
    text::lemma_trim_start(s, a);
    let t = s.skip(a);
    let n = lemma_last_solid(t, t.len() as int);
    text::lemma_trim_end(t, n);
    assert(t.take(n) =~= s.subrange(a, a + n));
    assert forall|i: int| a + n <= i < s.len() implies text::is_space(#[trigger] s[i]) by {
        assert(t[i - a] == s[i]);
    }
    if n > 0 {
        assert(t[n - 1] == s[a + n - 1]);
        if a < s.len() && text::is_space(s[a]) {
            assert(false);
        }
    }
    (a, a + n)
}

proof fn lemma_first_solid(s: Seq<char>, from: int) -> (k: int)
    requires
        0 <= from <= s.len(),
        forall|i: int| 0 <= i < from ==> text::is_space(#[trigger] s[i]),
    ensures
        from <= k <= s.len(),
        forall|i: int| 0 <= i < k ==> text::is_space(#[trigger] s[i]),
        k < s.len() ==> !text::is_space(s[k]),
    decreases s.len() - from,
{
    if from < s.len() && text::is_space(s[from]) {
        lemma_first_solid(s, from + 1)
    } else {
        from
    }
}

proof fn lemma_last_solid(s: Seq<char>, to: int) -> (k: int)
    requires
        0 <= to <= s.len(),
        forall|i: int| to <= i < s.len() ==> text::is_space(#[trigger] s[i]),
    ensures
        0 <= k <= to,
        forall|i: int| k <= i < s.len() ==> text::is_space(#[trigger] s[i]),
        k > 0 ==> !text::is_space(s[k - 1]),
    decreases to,
{
    if to > 0 && text::is_space(s[to - 1]) {
        lemma_last_solid(s, to - 1)
    } else {
        to
    }
}

proof fn lemma_joined_front(first: Seq<char>, rest: Seq<Seq<char>>, sep: Seq<char>)
    requires
        rest.len() > 0,
    ensures
        text::joined(seq![first] + rest, sep) == first + sep + text::joined(rest, sep),
    decreases rest.len(),
{
    let all = seq![first] + rest;
    assert(all.last() == rest.last());
    assert(all.drop_last() =~= seq![first] + rest.drop_last());
    if rest.len() == 1 {
        assert(all.drop_last() =~= seq![first]);
        assert(text::joined(rest, sep) == rest[0]);
        assert(text::joined(all.drop_last(), sep) == first);
    } else {
        lemma_joined_front(first, rest.drop_last(), sep);
        let mid = text::joined(rest.drop_last(), sep);
        assert(first + sep + mid + sep + rest.last() =~= first + sep + (mid + sep + rest.last()));
    }
}

/// The pieces of a text hold no separator, and with separators between them they are the text.
pub proof fn pieces_make_up_the_text(s: Seq<char>, c: char)
    ensures
        text::joined(text::pieces(s, c), seq![c]) == s,
        text::pieces(s, c).len() > 0,
        forall|i: int| 0 <= i < text::pieces(s, c).len() ==> !(#[trigger] text::pieces(s, c)[i]).contains(c),
    decreases s.len(),
{
    let k = text::until(s, c) as int;
    text::lemma_until_bound(s, c);
    let all = text::pieces(s, c);
    if k < s.len() {
        let rest = s.skip(k + 1);
        pieces_make_up_the_text(rest, c);
        lemma_joined_front(s.take(k), text::pieces(rest, c), seq![c]);
        assert(s.take(k) + seq![c] + rest =~= s);
        assert(!s.take(k).contains(c)) by {
            if s.take(k).contains(c) {
                let i = choose|i: int| 0 <= i < k && s.take(k)[i] == c;
                assert(s[i] == c);
            }
        }
        assert forall|i: int| 0 <= i < all.len() implies !(#[trigger] all[i]).contains(c) by {
            if i > 0 {
                assert(all[i] == text::pieces(rest, c)[i - 1]);
            }
        }
    } else {
        assert(all =~= seq![s]);
        if s.contains(c) {
            let i = choose|i: int| 0 <= i < s.len() && s[i] == c;
            assert(s[i] != c);
        }
    }
}

/// The lines of a text with plain line ends are the text, up to a line feed at its end.
pub proof fn lines_make_up_the_text(s: Seq<char>)
    requires
        !s.contains('\r'),
        s.len() > 0,
        s.last() != '\n',
    ensures
        text::joined(text::lines(s), seq!['\n']) == s,
        text::lines(s).len() > 0,
        forall|i: int| 0 <= i < text::lines(s).len() ==> !(#[trigger] text::lines(s)[i]).contains('\n'),
        text::lines(s.push('\n')) == text::lines(s),
    decreases s.len(),
{
    let k = text::line_len(s) as int;
    lemma_line_chars(s);
    text::lemma_line_len_bound(s);
    let more = s.push('\n');
    let all = text::lines(s);
    if k < s.len() {
        let rest = s.skip(k + 1);
        assert(rest.last() == s.last());
        assert(!rest.contains('\r')) by {
            if rest.contains('\r') {
                let i = choose|i: int| 0 <= i < rest.len() && rest[i] == '\r';
                assert(s[i + k + 1] == '\r');
            }
        }
        lines_make_up_the_text(rest);
        let line = s.take(k);
        if line.len() > 0 && line.last() == '\r' {
            assert(s[k - 1] == '\r');
        }
        assert(text::chomped(line) == line);
        assert(all == seq![line] + text::lines(rest));
        lemma_joined_front(line, text::lines(rest), seq!['\n']);
        assert(line + seq!['\n'] + rest =~= s);
        assert forall|i: int| 0 <= i < all.len() implies !(#[trigger] all[i]).contains('\n') by {
            if i == 0 {
                if line.contains('\n') {
                    let j = choose|j: int| 0 <= j < line.len() && line[j] == '\n';
                    assert(s[j] != '\n');
                }
            } else {
                assert(all[i] == text::lines(rest)[i - 1]);
            }
        }
        text::lemma_line_len(more, k);
        assert(more.take(k) =~= line);
        assert(more.skip(k + 1) =~= rest.push('\n'));
    } else {
        assert(all =~= seq![s]);
        if s.contains('\n') {
            let j = choose|j: int| 0 <= j < s.len() && s[j] == '\n';
            assert(s[j] != '\n');
        }
        text::lemma_line_len(more, k);
        assert(more.take(k) =~= s);
        if s.last() == '\r' {
            assert(s[s.len() - 1] == '\r');
        }
        assert(more.skip(k + 1) =~= Seq::<char>::empty());
        assert(text::lines(more.skip(k + 1)) =~= Seq::<Seq<char>>::empty());
        assert(text::lines(more) =~= seq![s]);
    }
}

proof fn lemma_line_chars(s: Seq<char>)
    ensures
        forall|i: int| 0 <= i < text::line_len(s) ==> (#[trigger] s[i]) != '\n',
    decreases s.len(),
{
    text::lemma_line_len_bound(s);
    if s.len() > 0 && s[0] != '\n' {
        lemma_line_chars(s.skip(1));
        assert forall|i: int| 0 <= i < text::line_len(s) implies (#[trigger] s[i]) != '\n' by {
            if i > 0 {
                assert(s[i] == s.skip(1)[i - 1]);
            }
        }
    }
}

/// Replacing changes a text where the pattern first stands, and goes on behind it; a text
/// without the pattern stays as it is.
pub proof fn replacing_changes_what_matches(s: Seq<char>, p: Seq<char>, with: Seq<char>, i: int)
    requires
        p.len() > 0,
    ensures
        text::is_first_at(s, p, 0, i) ==> text::replaced(s, p, with) == s.take(i) + with + text::replaced(
            s.skip(i + p.len()),
            p,
            with,
        ),
        !text::has_sub(s, p) ==> text::replaced(s, p, with) == s,
    decreases s.len(),
{
    if text::is_first_at(s, p, 0, i) {
        if i == 0 {
            assert(s.take(0) + with =~= with);
        } else {
            assert(!text::occurs_at(s, p, 0));
            let t = s.skip(1);
            assert(t.subrange(i - 1, i - 1 + p.len()) =~= s.subrange(i, i + p.len()));
            assert forall|k: int| 0 <= k < i - 1 implies !text::occurs_at(t, p, k) by {
                assert(!text::occurs_at(s, p, k + 1));
                if text::occurs_at(t, p, k) {
                    assert(s.subrange(k + 1, k + 1 + p.len()) =~= t.subrange(k, k + p.len()));
                }
            }
            replacing_changes_what_matches(t, p, with, i - 1);
            let rest = text::replaced(s.skip(i + p.len()), p, with);
            assert(t.skip(i - 1 + p.len()) =~= s.skip(i + p.len()));
            assert(seq![s[0]] + (t.take(i - 1) + with + rest) =~= s.take(i) + with + rest);
        }
    } else if !text::has_sub(s, p) && s.len() > 0 {
        let t = s.skip(1);
        assert(!text::occurs_at(s, p, 0));
        assert(!text::has_sub(t, p)) by {
            if text::has_sub(t, p) {
                let k = choose|k: int| text::occurs_at(t, p, k);
                assert(s.subrange(k + 1, k + 1 + p.len()) =~= t.subrange(k, k + p.len()));
                assert(text::occurs_at(s, p, k + 1));
            }
        }
        replacing_changes_what_matches(t, p, with, i - 1);
        assert(seq![s[0]] + t =~= s);
    }
}

/// Taking the white space out of a text leaves every other character, in its order.
pub proof fn compacting_takes_white_space_only(s: Seq<char>, c: char)
    ensures
        text::compacted(s.push(c)) == (if text::is_space(c) {
            text::compacted(s)
        } else {
            text::compacted(s).push(c)
        }),
        text::compacted(Seq::empty()) == Seq::<char>::empty(),
{
    reveal(Seq::filter);
    assert(s.push(c).drop_last() =~= s);
    assert(text::compacted(Seq::empty()) =~= Seq::<char>::empty());
}

/// Lower case changes the letters from A to Z, each to its small form, and nothing else.
pub proof fn lower_case_changes_capitals_only(s: Seq<char>, i: int)
    requires
        0 <= i < s.len(),
    ensures
        text::ascii_lowered(s).len() == s.len(),
        'A' <= s[i] <= 'Z' ==> text::ascii_lowered(s)[i] as int - 'a' as int == s[i] as int - 'A' as int,
        !('A' <= s[i] <= 'Z') ==> text::ascii_lowered(s)[i] == s[i],
{
    lemma_lower(s[i]);
}

proof fn lemma_lower(c: char)
    ensures
        'A' <= c <= 'Z' ==> text::ascii_lower(c) as int - 'a' as int == c as int - 'A' as int,
        !('A' <= c <= 'Z') ==> text::ascii_lower(c) == c,
{
}

/// A number is read back from its digits.
pub proof fn numbers_are_read_back(n: nat)
    ensures
        text::digits_value(text::decimal(n)) == n,
        n > 0 ==> text::decimal(n)[0] != '0',
        text::decimal(0) == seq!['0'],
    decreases n,
{
    let none = Seq::<char>::empty();
    text::lemma_decimal(none, n);
    assert(none + text::decimal(n) =~= text::decimal(n));
    if n >= 10 {
        numbers_are_read_back(n / 10);
        lemma_decimal_len(n / 10);
        assert(text::decimal(n)[0] == text::decimal(n / 10)[0]);
    }
}

proof fn lemma_decimal_len(n: nat)
    ensures
        text::decimal(n).len() > 0,
    decreases n,
{
    if n >= 10 {
        lemma_decimal_len(n / 10);
    }
}

// Parts of texts.

pub proof fn lemma_sub_of_row(rows: Seq<Seq<char>>, i: int, p: Seq<char>)
    requires
        0 <= i < rows.len(),
        text::has_sub(rows[i], p),
    ensures
        text::has_sub(text::joined(rows, "\n"@), p),
    decreases rows.len(),
{
    let s = text::joined(rows, "\n"@);
    if rows.len() > 1 {
        let front = rows.drop_last();
        let a = text::joined(front, "\n"@);
        if i < front.len() {
            lemma_sub_of_row(front, i, p);
            let k = choose|k: int| text::occurs_at(a, p, k);
            assert(s.subrange(k, k + p.len()) =~= a.subrange(k, k + p.len()));
            assert(text::occurs_at(s, p, k));
        } else {
            let k = choose|k: int| text::occurs_at(rows[i], p, k);
            let m = (a.len() + "\n"@.len()) as int;
            assert(s.subrange(m + k, m + k + p.len()) =~= rows[i].subrange(k, k + p.len()));
            assert(text::occurs_at(s, p, m + k));
        }
    }
}

pub proof fn lemma_sub_between(a: Seq<char>, p: Seq<char>, b: Seq<char>)
    ensures
        text::has_sub(a + p + b, p),
{
    let s = a + p + b;
    assert(s.subrange(a.len() as int, a.len() + p.len() as int) =~= p);
    assert(text::occurs_at(s, p, a.len() as int));
}

pub proof fn lemma_sub_behind(a: Seq<char>, p: Seq<char>)
    ensures
        text::has_sub(a + p, p),
{
    let s = a + p;
    assert(s.subrange(a.len() as int, s.len() as int) =~= p);
    assert(text::occurs_at(s, p, a.len() as int));
}

pub proof fn lemma_sub_whole(p: Seq<char>)
    ensures
        text::has_sub(p, p),
{
    assert(p.subrange(0, p.len() as int) =~= p);
    assert(text::occurs_at(p, p, 0));
}

} // verus!
