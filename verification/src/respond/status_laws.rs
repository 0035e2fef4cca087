//! Which line of a message counts as what it tells to do, and which status a message gets.
use vstd::prelude::*;
use vstd::string::*;

use crate::respond::route;
use crate::respond::status;
use crate::respond::status::{InteractionDomain, InteractionStateSnapshot, StatusAction, StatusSubject};
use crate::text;

verus! {

/// A short message is as a whole what it tells to do; a blank one tells nothing.
pub proof fn short_messages_are_instructions(s: Seq<char>)
    ensures
        0 < text::trimmed(s).len() <= 80 ==> status::instruction(s) == Some(text::trimmed(s)),
        text::trimmed(s).len() == 0 ==> status::instruction(s) is None,
{
}

/// Of a long message the last line counts that is short and not blank, whatever stands before
/// it.
pub proof fn the_last_short_line_counts(s: Seq<char>, k: int)
    requires
        text::trimmed(s).len() > 80,
        0 <= k < text::lines(text::trimmed(s)).len(),
        0 < text::trimmed(text::lines(text::trimmed(s))[k]).len() <= 80,
        forall|i: int|
            k < i < text::lines(text::trimmed(s)).len() ==> !(0 < text::trimmed(
                #[trigger] text::lines(text::trimmed(s))[i],
            ).len() <= 80),
    ensures
        status::instruction(s) == Some(text::trimmed(text::lines(text::trimmed(s))[k])),
{
    lemma_last(text::lines(text::trimmed(s)), k);
}

proof fn lemma_last(lines: Seq<Seq<char>>, k: int)
    requires
        0 <= k < lines.len(),
        0 < text::trimmed(lines[k]).len() <= 80,
        forall|i: int| k < i < lines.len() ==> !(0 < text::trimmed(#[trigger] lines[i]).len() <= 80),
    ensures
        status::last_instruction(lines) == Some(text::trimmed(lines[k])),
    decreases lines.len(),
{
    assert(lines.last() == lines[lines.len() - 1]);
    if k < lines.len() - 1 {
        let front = lines.drop_last();
        assert(front[k] == lines[k]);
        assert forall|i: int| k < i < front.len() implies !(0 < text::trimmed(#[trigger] front[i]).len() <= 80) by {
            assert(front[i] == lines[i]);
        }
        lemma_last(front, k);
    }
}

/// A long message without a short line tells nothing.
pub proof fn long_texts_are_no_instructions(s: Seq<char>)
    requires
        text::trimmed(s).len() > 80,
        forall|i: int|
            0 <= i < text::lines(text::trimmed(s)).len() ==> !(0 < text::trimmed(
                #[trigger] text::lines(text::trimmed(s))[i],
            ).len() <= 80),
    ensures
        status::instruction(s) is None,
        !status::is_local_text_work(s),
{
    lemma_none(text::lines(text::trimmed(s)));
}

proof fn lemma_none(lines: Seq<Seq<char>>)
    requires
        forall|i: int| 0 <= i < lines.len() ==> !(0 < text::trimmed(#[trigger] lines[i]).len() <= 80),
    ensures
        status::last_instruction(lines) is None,
    decreases lines.len(),
{
    if lines.len() > 0 {
        let front = lines.drop_last();
        assert(lines.last() == lines[lines.len() - 1]);
        assert forall|i: int| 0 <= i < front.len() implies !(0 < text::trimmed(#[trigger] front[i]).len() <= 80) by {
            assert(front[i] == lines[i]);
        }
        lemma_none(front);
    }
}

/// The words that ask for a search on the net.
pub open spec fn online_words() -> Seq<Seq<char>> {
    seq![
        "联网"@,
        "上网查"@,
        "网上查"@,
        "网上有没有"@,
        "网络查询"@,
        "搜索"@,
        "搜一下"@,
        "查 GitHub"@,
        "查 github"@,
        "查资料"@,
        "查新闻"@,
        "最新消息"@,
        "最新进展"@,
    ]
}

/// The words that ask for work on a text at hand.
pub open spec fn text_work_words() -> Seq<Seq<char>> {
    seq![
        "人话说这个"@,
        "说人话"@,
        "人话说"@,
        "总结这段"@,
        "总结一下"@,
        "总结下"@,
        "整理一下"@,
        "整理下"@,
        "改写一下"@,
        "改写下"@,
        "润色一下"@,
        "润色下"@,
        "压缩成"@,
        "压缩到"@,
        "解释一下"@,
        "解释下"@,
        "翻译一下"@,
        "翻译下"@,
        "这段是什么意思"@,
        "是什么意思"@,
        "说简单点"@,
        "简单点"@,
        "整理成 issue"@,
        "整理成任务书"@,
        "整理成 Codex prompt"@,
        "整理成 prompt"@,
        "上面这段"@,
        "这段话"@,
        "这段文本"@,
        "这段内容"@,
        "哪里不通顺"@,
        "不通顺"@,
        "语病"@,
        "病句"@,
    ]
}

/// A short message is work on a text at hand exactly if it asks for that and for no search.
pub proof fn text_work_stays_at_hand(s: Seq<char>)
    requires
        0 < s.len() <= 80,
        text::trimmed(s) == s,
    ensures
        status::is_local_text_work(s) <==> (exists|i: int|
            0 <= i < text_work_words().len() && text::has_sub(s, #[trigger] text_work_words()[i])) && !(
        exists|i: int| 0 <= i < online_words().len() && text::has_sub(s, #[trigger] online_words()[i])),
{
    lemma_online(s);
    lemma_text_work(s);
}

proof fn lemma_online(s: Seq<char>)
    ensures
        status::asks_online(s) <==> exists|i: int|
            0 <= i < online_words().len() && text::has_sub(s, #[trigger] online_words()[i]),
{
    let w = online_words();
    if status::asks_online(s) {
        assert(text::has_sub(s, w[0]) || text::has_sub(s, w[1]) || text::has_sub(s, w[2]) || text::has_sub(s, w[3])
            || text::has_sub(s, w[4]) || text::has_sub(s, w[5]) || text::has_sub(s, w[6]) || text::has_sub(s, w[7])
            || text::has_sub(s, w[8]) || text::has_sub(s, w[9]) || text::has_sub(s, w[10]) || text::has_sub(s, w[11])
            || text::has_sub(s, w[12]));
    }
}

proof fn lemma_text_work(s: Seq<char>)
    ensures
        status::asks_text_work(s) <==> exists|i: int|
            0 <= i < text_work_words().len() && text::has_sub(s, #[trigger] text_work_words()[i]),
{
    let w = text_work_words();
    if status::asks_text_work(s) {
        assert(text::has_sub(s, w[0]) || text::has_sub(s, w[1]) || text::has_sub(s, w[2]) || text::has_sub(s, w[3])
            || text::has_sub(s, w[4]) || text::has_sub(s, w[5]) || text::has_sub(s, w[6]) || text::has_sub(s, w[7])
            || text::has_sub(s, w[8]) || text::has_sub(s, w[9]) || text::has_sub(s, w[10]) || text::has_sub(s, w[11])
            || text::has_sub(s, w[12]) || text::has_sub(s, w[13]) || text::has_sub(s, w[14]) || text::has_sub(
            s,
            w[15],
        ) || text::has_sub(s, w[16]) || text::has_sub(s, w[17]) || text::has_sub(s, w[18]) || text::has_sub(s, w[19])
            || text::has_sub(s, w[20]) || text::has_sub(s, w[21]) || text::has_sub(s, w[22]) || text::has_sub(
            s,
            w[23],
        ) || text::has_sub(s, w[24]) || text::has_sub(s, w[25]) || text::has_sub(s, w[26]) || text::has_sub(s, w[27])
            || text::has_sub(s, w[28]) || text::has_sub(s, w[29]) || text::has_sub(s, w[30]) || text::has_sub(
            s,
            w[31],
        ) || text::has_sub(s, w[32]) || text::has_sub(s, w[33]));
    }
}

/// A domain counts as recent exactly if something of it was shown or done.
pub proof fn shown_or_done_is_recent(a: InteractionStateSnapshot, i: int)
    requires
        0 <= i < a.domains@.len(),
    ensures
        a.domains@[i].domain == InteractionDomain::Todo && a.domains@[i].has_visible_snapshot ==> a.recent(
            InteractionDomain::Todo,
        ),
        a.domains@[i].domain == InteractionDomain::Todo && a.domains@[i].has_recent_operation ==> a.recent(
            InteractionDomain::Todo,
        ),
        a.recent(InteractionDomain::Todo) ==> exists|k: int|
            0 <= k < a.domains@.len() && (#[trigger] a.domains@[k]).domain == InteractionDomain::Todo,
{
}

/// A message that reads as nothing else and as a search gets the status of one; without any
/// reading it gets none.
pub proof fn searches_get_their_status(s: Seq<char>, has_due_date: bool, recent: bool)
    requires
        route::shown_status(s, has_due_date, recent) is None,
    ensures
        status::status_for(s, has_due_date, recent, true) matches Some(h) && h.subject == StatusSubject::Search
            && h.action == StatusAction::Query,
        status::status_for(s, has_due_date, recent, false) is None,
{
}

} // verus!
