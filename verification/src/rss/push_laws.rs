//! What subscribers see: what a message shows of an item, where it goes, and which
//! subscriptions a user names.
use vstd::prelude::*;
use vstd::string::*;

use crate::error::Failure;
use crate::json::Json;
use crate::push::{NotificationUpsert, PushTargetType};
use crate::rss::arguments;
use crate::rss::items;
use crate::rss::items::{
    CheckAction, CheckEvent, CheckLimits, PushBody, RssPendingItem, RssSubscription, RssTargetType,
};
use crate::rss::plain_scheduler;
use crate::rss::scheduler;
use crate::rss::tool;
use crate::rss::tool::{AddResult, ConversationKind};
use crate::text;
use crate::text_laws::{lemma_sub_behind, lemma_sub_between, lemma_sub_of_row, lemma_sub_whole};

verus! {

// Messages.

/// A message names the subscription and shows title, summary, time and link of the item, as
/// far as it has them.
#[verifier::rlimit(60)]
pub proof fn messages_show_the_item(item: RssPendingItem, texts: scheduler::PushTexts)
    requires
        texts.title is Some,
        texts.subscription_title is Some,
    ensures
        ({
            let m = text::joined(scheduler::message_rows(item, texts), "\n"@);
            &&& text::has_sub(m, texts.title->0@)
            &&& text::has_sub(m, texts.subscription_title->0@)
            &&& item.summary is Some && !text::blank(item.summary->0@) ==> text::has_sub(
                m,
                texts.plain.label(text::trimmed(item.summary->0@)),
            ) || texts.plain.label(text::trimmed(item.summary->0@)).len() == 0
            &&& item.link is Some && !text::blank(item.link->0@) ==> text::has_sub(m, item.link->0@)
            &&& item.updated_at is Some && !text::blank(item.updated_at->0@) ==> text::has_sub(
                m,
                texts.times.label(item.updated_at->0@),
            )
            &&& (item.updated_at is None || text::blank(item.updated_at->0@)) && item.published_at is Some
                && !text::blank(item.published_at->0@) ==> text::has_sub(
                m,
                texts.times.label(item.published_at->0@),
            )
        }),
{
    let rows = scheduler::message_rows(item, texts);
    let head = seq![
        "【RSS 更新】"@ + texts.subscription_title->0@,
        ""@,
        texts.title->0@,
    ];
    let a = scheduler::row(scheduler::summary_text(item, texts.plain));
    let b = scheduler::row(scheduler::time_line(item, texts));
    assert(rows[0] == head[0]);
    assert(rows[2] == head[2]);
    lemma_sub_behind("【RSS 更新】"@, texts.subscription_title->0@);
    lemma_sub_of_row(rows, 0, texts.subscription_title->0@);
    lemma_sub_whole(texts.title->0@);
    lemma_sub_of_row(rows, 2, texts.title->0@);
    if scheduler::summary_text(item, texts.plain) is Some {
        let shown = scheduler::summary_text(item, texts.plain)->0;
        assert(rows[3] == shown);
        lemma_sub_whole(shown);
        lemma_sub_of_row(rows, 3, shown);
    }
    if items::shown_time(item) is Some {
        let (name, at) = items::shown_time(item)->0;
        let k = (3 + a.len()) as int;
        assert(rows[k] == name + "："@ + texts.times.label(at));
        lemma_sub_behind(name + "："@, texts.times.label(at));
        lemma_sub_of_row(rows, k, texts.times.label(at));
    }
    if item.link is Some && !text::blank(item.link->0@) {
        let k = (3 + a.len() + b.len()) as int;
        assert(rows[k] == "链接："@ + item.link->0@);
        lemma_sub_behind("链接："@, item.link->0@);
        lemma_sub_of_row(rows, k, item.link->0@);
    }
}

/// A message in Markdown shows the same: the title as a link to the item where its address is
/// one of the web, the summary, and the link again.
#[verifier::rlimit(60)]
pub proof fn markdown_messages_show_the_item(item: RssPendingItem, texts: scheduler::PushTexts)
    requires
        texts.title is Some,
        texts.subscription_title is Some,
    ensures
        ({
            let m = text::joined(scheduler::markdown_rows(item, texts), "\n"@);
            let title = scheduler::widened(texts.title->0@);
            &&& text::has_sub(m, title)
            &&& text::has_sub(m, scheduler::widened(texts.subscription_title->0@))
            &&& item.summary is Some && !text::blank(item.summary->0@) ==> text::has_sub(
                m,
                texts.qq.label(text::trimmed(item.summary->0@)),
            ) || texts.qq.label(text::trimmed(item.summary->0@)).len() == 0
            &&& item.link is Some && scheduler::http_link(item.link->0@) is Some ==> text::has_sub(
                m,
                "["@ + title + "](<"@ + scheduler::http_link(item.link->0@)->0 + ">)"@,
            ) && text::has_sub(m, "[查看条目](<"@ + scheduler::http_link(item.link->0@)->0 + ">)"@)
        }),
{
    let rows = scheduler::markdown_rows(item, texts);
    let title = scheduler::widened(texts.title->0@);
    let sub = scheduler::widened(texts.subscription_title->0@);
    let link = scheduler::item_link(item);
    let a = scheduler::spaced_row(scheduler::summary_text(item, texts.qq));
    let b = scheduler::spaced_row(scheduler::time_line(item, texts));
    assert(rows[0] == "## RSS 更新："@ + sub);
    assert(rows[2] == scheduler::heading(title, link));
    lemma_sub_behind("## RSS 更新："@, sub);
    lemma_sub_of_row(rows, 0, sub);
    lemma_heading(title, link);
    lemma_sub_of_row(rows, 2, title);
    if link is Some {
        let l = link->0;
        lemma_sub_of_row(rows, 2, "["@ + title + "](<"@ + l + ">)"@);
        let k = (3 + a.len() + b.len() + 1) as int;
        assert(rows[k] == "原文：[查看条目](<"@ + l + ">)"@);
        lemma_source(l);
        lemma_sub_of_row(rows, k, "[查看条目](<"@ + l + ">)"@);
    }
    if scheduler::summary_text(item, texts.qq) is Some {
        let shown = scheduler::summary_text(item, texts.qq)->0;
        assert(rows[4] == shown);
        lemma_sub_whole(shown);
        lemma_sub_of_row(rows, 4, shown);
    }
}

proof fn lemma_heading(title: Seq<char>, link: Option<Seq<char>>)
    ensures
        text::has_sub(scheduler::heading(title, link), title),
        link is Some ==> text::has_sub(
            scheduler::heading(title, link),
            "["@ + title + "](<"@ + link->0 + ">)"@,
        ),
{
    if link is Some {
        let l = link->0;
        assert("### ["@ =~= "### "@ + "["@) by {
            reveal_strlit("### [");
            reveal_strlit("### ");
            reveal_strlit("[");
        }
        lemma_sub_of_parts("### "@, "["@, title, "](<"@, l, ">)"@);
    } else {
        lemma_sub_behind("### "@, title);
    }
}

proof fn lemma_sub_of_parts(
    a: Seq<char>,
    b: Seq<char>,
    c: Seq<char>,
    d: Seq<char>,
    e: Seq<char>,
    f: Seq<char>,
)
    ensures
        text::has_sub((a + b) + c + d + e + f, b + c + d + e + f),
        text::has_sub((a + b) + c + d + e + f, c),
{
    lemma_regrouped(a, b, c);
    lemma_regrouped(a, b + c, d);
    lemma_regrouped(a, b + c + d, e);
    lemma_regrouped(a, b + c + d + e, f);
    lemma_sub_behind(a, b + c + d + e + f);
    lemma_regrouped(a + b + c, d, e);
    lemma_regrouped(a + b + c, d + e, f);
    lemma_sub_between(a + b, c, d + e + f);
}

proof fn lemma_regrouped(a: Seq<char>, b: Seq<char>, c: Seq<char>)
    ensures
        (a + b) + c == a + (b + c),
{
    assert((a + b) + c =~= a + (b + c));
}

proof fn lemma_source(l: Seq<char>)
    ensures
        text::has_sub("原文：[查看条目](<"@ + l + ">)"@, "[查看条目](<"@ + l + ">)"@),
{
    reveal_strlit("原文：[查看条目](<");
    reveal_strlit("原文：");
    reveal_strlit("[查看条目](<");
    let last = "[查看条目](<"@ + l + ">)"@;
    assert("原文：[查看条目](<"@ =~= "原文："@ + "[查看条目](<"@);
    assert("原文：[查看条目](<"@ + l + ">)"@ =~= "原文："@ + last);
    lemma_sub_behind("原文："@, last);
}

/// The plain messages of the simple scheduler show the same of an item.
#[verifier::rlimit(60)]
pub proof fn plain_messages_show_the_item(
    subscription_title: Seq<char>,
    item: RssPendingItem,
    texts: plain_scheduler::PushTexts,
)
    requires
        texts.title is Some,
    ensures
        ({
            let m = text::joined(plain_scheduler::message_rows(subscription_title, item, texts), "\n"@);
            &&& text::has_sub(m, texts.title->0@)
            &&& text::has_sub(m, text::trimmed(subscription_title))
            &&& item.summary is Some && !text::blank(item.summary->0@) ==> text::has_sub(
                m,
                text::trimmed(item.summary->0@),
            )
            &&& item.link is Some && !text::blank(item.link->0@) ==> text::has_sub(m, item.link->0@)
        }),
{
    let rows = plain_scheduler::message_rows(subscription_title, item, texts);
    let head = seq!["【RSS 更新】"@ + text::trimmed(subscription_title), ""@, texts.title->0@];
    let a = plain_scheduler::row(
        match items::present(item.summary) {
            Some(s) => Some(text::trimmed(s)),
            None => None,
        },
    );
    let b = plain_scheduler::row(
        match items::shown_time(item) {
            Some(t) => Some(t.0 + "："@ + texts.times.label(t.1)),
            None => None,
        },
    );
    assert(rows[0] == head[0]);
    assert(rows[2] == head[2]);
    lemma_sub_behind("【RSS 更新】"@, text::trimmed(subscription_title));
    lemma_sub_of_row(rows, 0, text::trimmed(subscription_title));
    lemma_sub_whole(texts.title->0@);
    lemma_sub_of_row(rows, 2, texts.title->0@);
    if item.summary is Some && !text::blank(item.summary->0@) {
        let shown = text::trimmed(item.summary->0@);
        assert(rows[3] == shown);
        lemma_sub_whole(shown);
        lemma_sub_of_row(rows, 3, shown);
    }
    if item.link is Some && !text::blank(item.link->0@) {
        let k = (3 + a.len() + b.len()) as int;
        assert(rows[k] == "链接："@ + item.link->0@);
        lemma_sub_behind("链接："@, item.link->0@);
        lemma_sub_of_row(rows, k, item.link->0@);
    }
}

/// In Markdown the simple scheduler shows the title as a link to the item, the summary and the
/// link again.
#[verifier::rlimit(60)]
pub proof fn plain_markdown_shows_the_item(
    subscription_title: Seq<char>,
    item: RssPendingItem,
    texts: plain_scheduler::PushTexts,
)
    requires
        texts.title is Some,
    ensures
        ({
            let m = text::joined(plain_scheduler::markdown_rows(subscription_title, item, texts), "\n"@);
            let title = texts.inline.label(texts.title->0@);
            &&& text::has_sub(m, title)
            &&& text::has_sub(m, texts.inline.label(text::trimmed(subscription_title)))
            &&& item.summary is Some && !text::blank(item.summary->0@) ==> text::has_sub(
                m,
                texts.block.label(text::trimmed(item.summary->0@)),
            )
            &&& item.link is Some && !text::blank(item.link->0@) ==> text::has_sub(
                m,
                "["@ + title + "](<"@ + text::trimmed(item.link->0@) + ">)"@,
            ) && text::has_sub(m, item.link->0@)
        }),
{
    let rows = plain_scheduler::markdown_rows(subscription_title, item, texts);
    let title = texts.inline.label(texts.title->0@);
    let sub = texts.inline.label(text::trimmed(subscription_title));
    let link = match items::present(item.link) {
        Some(l) => Some(text::trimmed(l)),
        None => None,
    };
    let a = plain_scheduler::spaced_row(
        match items::present(item.summary) {
            Some(s) => Some(texts.block.label(text::trimmed(s))),
            None => None,
        },
    );
    let b = plain_scheduler::spaced_row(
        match items::shown_time(item) {
            Some(t) => Some(t.0 + "：`"@ + texts.times.label(t.1) + "`"@),
            None => None,
        },
    );
    assert(rows[0] == "## RSS 更新："@ + sub);
    assert(rows[2] == scheduler::heading(title, link));
    lemma_sub_behind("## RSS 更新："@, sub);
    lemma_sub_of_row(rows, 0, sub);
    lemma_heading(title, link);
    lemma_sub_of_row(rows, 2, title);
    if link is Some {
        lemma_sub_of_row(rows, 2, "["@ + title + "](<"@ + link->0 + ">)"@);
        let k = (3 + a.len() + b.len() + 1) as int;
        assert(rows[k] == "链接："@ + item.link->0@);
        lemma_sub_behind("链接："@, item.link->0@);
        lemma_sub_of_row(rows, k, item.link->0@);
    }
    if item.summary is Some && !text::blank(item.summary->0@) {
        let shown = texts.block.label(text::trimmed(item.summary->0@));
        assert(rows[4] == shown);
        lemma_sub_whole(shown);
        lemma_sub_of_row(rows, 4, shown);
    }
}

/// No character of a title is read as markup: those that could be are written wide, all others
/// as they are.
pub proof fn titles_are_no_markup(s: Seq<char>, i: int)
    requires
        0 <= i < s.len(),
    ensures
        scheduler::widened(s).len() == s.len(),
        !"`*_[]()<>|"@.contains(scheduler::widened(s)[i]),
        !"`*_[]()<>|"@.contains(s[i]) ==> scheduler::widened(s)[i] == s[i],
{
    reveal_strlit("`*_[]()<>|");
    let marks = "`*_[]()<>|"@;
    let c = s[i];
    assert(marks[0] == '`' && marks[1] == '*' && marks[2] == '_' && marks[3] == '[' && marks[4] == ']');
    assert(marks[5] == '(' && marks[6] == ')' && marks[7] == '<' && marks[8] == '>' && marks[9] == '|');
    if marks.contains(scheduler::wide(c)) {
        let k = choose|k: int| 0 <= k < marks.len() && marks[k] == scheduler::wide(c);
    }
}

/// A web address is a link as it is; any other text is none.
pub proof fn web_addresses_are_links(rest: Seq<char>, other: Seq<char>)
    requires
        rest.len() > 0,
        !text::is_space(rest[rest.len() - 1]),
        forall|i: int| 0 <= i < rest.len() ==> !scheduler::breaks_link(#[trigger] rest[i]),
        !text::starts_with(text::ascii_lowered(text::trimmed(other)), "http://"@),
        !text::starts_with(text::ascii_lowered(text::trimmed(other)), "https://"@),
    ensures
        scheduler::http_link("https://"@ + rest) == Some("https://"@ + rest),
        scheduler::http_link("http://"@ + rest) == Some("http://"@ + rest),
        scheduler::http_link(other) is None,
{
    reveal_strlit("https://");
    reveal_strlit("http://");
    lemma_link("https://"@, rest);
    lemma_link("http://"@, rest);
}

proof fn lemma_link(lead: Seq<char>, rest: Seq<char>)
    requires
        lead == "https://"@ || lead == "http://"@,
        rest.len() > 0,
        !text::is_space(rest[rest.len() - 1]),
        forall|i: int| 0 <= i < rest.len() ==> !scheduler::breaks_link(#[trigger] rest[i]),
    ensures
        scheduler::http_link(lead + rest) == Some(lead + rest),
{
    reveal_strlit("https://");
    reveal_strlit("http://");
    let s = lead + rest;
    assert(s[0] == 'h');
    assert(s[s.len() - 1] == rest[rest.len() - 1]);
    text::lemma_trim_start(s, 0);
    assert(s.skip(0) =~= s);
    text::lemma_trim_end(s, s.len() as int);
    assert(s.take(s.len() as int) =~= s);
    let low = text::ascii_lowered(s);
    assert forall|i: int| 0 <= i < lead.len() implies #[trigger] low[i] == lead[i] by {
        assert(s[i] == lead[i]);
    }
    assert(low.subrange(0, lead.len() as int) =~= lead);
    assert forall|i: int| 0 <= i < s.len() implies !scheduler::breaks_link(#[trigger] s[i]) by {
        if i < lead.len() {
            assert(s[i] == lead[i]);
        } else {
            assert(s[i] == rest[i - lead.len()]);
        }
    }
    lemma_unbroken(s);
}

proof fn lemma_unbroken(s: Seq<char>)
    requires
        forall|i: int| 0 <= i < s.len() ==> !scheduler::breaks_link(#[trigger] s[i]),
    ensures
        scheduler::unbroken(s) == s,
    decreases s.len(),
{
    reveal(Seq::filter);
    if s.len() > 0 {
        let front = s.drop_last();
        assert forall|i: int| 0 <= i < front.len() implies !scheduler::breaks_link(#[trigger] front[i]) by {
            assert(front[i] == s[i]);
        }
        lemma_unbroken(front);
        assert(s.last() == s[s.len() - 1]);
        assert(front.push(s.last()) =~= s);
    } else {
        assert(scheduler::unbroken(s) =~= s);
    }
}

/// A translation is shown only if it links to what the feed links to; where translating is off
/// it never is.
pub proof fn translations_keep_the_links(enabled: bool, summary: Seq<char>, translated: Seq<char>)
    ensures
        ({
            let same = scheduler::http_links(scheduler::link_targets(summary)) == scheduler::http_links(
                scheduler::link_targets(translated),
            );
            let shown = scheduler::summary_source(enabled, summary, translated);
            &&& enabled && same ==> shown == translated
            &&& !enabled || !same ==> shown == summary
        }),
{
}

/// Whether a text is asked to be translated depends on it alone: it has words, they are not
/// Chinese, and there are not too many.
pub proof fn foreign_texts_are_translated(source: Seq<char>, looks_chinese: bool, most: int)
    ensures
        items::is_kept(source, looks_chinese, most) <==> !(0 < source.len() <= most && !looks_chinese),
{
}

// Sending.

/// An item goes to whom the subscription is for: a user or a group, in its conversation, once
/// for each revision, and with at least one attempt.
pub proof fn items_go_to_their_subscribers(
    m: NotificationUpsert,
    subscription: RssSubscription,
    item: RssPendingItem,
    body: PushBody,
    message_type: Seq<char>,
    push_max_failures: u32,
    now: Seq<char>,
)
    requires
        items::is_push_of(m, subscription, item, body, message_type, push_max_failures, now),
    ensures
        m.target.target_id == subscription.target_id,
        m.target.scope_key == subscription.scope_key,
        m.target.target_type == PushTargetType::Group <==> subscription.target_type
            == RssTargetType::Group,
        m.target.target_type == PushTargetType::Private <==> subscription.target_type
            == RssTargetType::Private,
        m.fallback_text == body.text,
        text::ascii_lowered(text::trimmed(message_type)) == "markdown"@ ==> m.text == body.markdown
            && m.message_type@ == "markdown"@,
        text::ascii_lowered(text::trimmed(message_type)) != "markdown"@ ==> m.text == body.text
            && m.message_type@ == "text"@,
        m.max_attempts >= 1,
        push_max_failures > 0 ==> m.max_attempts == push_max_failures,
        m.scheduled_at@ == now,
        m.source_type@ == "rss"@,
{
}

/// Messages on different items, or for different subscriptions, have different keys, as long
/// as the keys of items are of one length.
pub proof fn items_have_their_own_keys(id: Seq<char>, first: Seq<char>, second: Seq<char>, revision: Seq<char>)
    requires
        first.len() == second.len(),
    ensures
        items::dedupe_key(id, first, revision) == items::dedupe_key(id, second, revision) <==> first
            == second,
        items::source_id(id, first) == items::source_id(id, second) <==> first == second,
{
    let p = "rss:"@ + id + ":"@;
    let n = p.len() as int;
    let a = items::dedupe_key(id, first, revision);
    let b = items::dedupe_key(id, second, revision);
    assert(a.subrange(n, n + first.len()) =~= first);
    assert(b.subrange(n, n + second.len()) =~= second);
    let q = id + ":"@;
    assert((q + first).skip(q.len() as int) =~= first);
    assert((q + second).skip(q.len() as int) =~= second);
}

/// A check asks for what its subscription names, within the limits that are set, and stops at
/// the first failure; one to read the feed is noted.
pub proof fn checks_stay_with_their_subscription(
    subscription: RssSubscription,
    limits: CheckLimits,
    event: CheckEvent,
)
    ensures
        ({
            let next = items::next(subscription, limits, event);
            &&& event is Begun ==> next == (CheckAction::Fetch {
                url: subscription.url,
                summary_max_chars: limits.summary_max_chars,
            })
            &&& event is Fetched ==> next == (CheckAction::KeepItems {
                id: subscription.id,
                seen_retention: limits.seen_retention,
            })
            &&& event is FetchFailed ==> next == (CheckAction::RecordFailure {
                id: subscription.id,
                error: event->error,
            })
            &&& event is Kept ==> next == (CheckAction::RecordSuccess {
                id: subscription.id,
                title: event->title,
            })
            &&& event is Recorded ==> next == (CheckAction::ListPending {
                id: subscription.id,
                limit: limits.max_push_per_subscription,
                max_failures: limits.push_max_failures,
            })
            &&& event is Listed ==> next == (CheckAction::Push { items: event->items })
            &&& event is KeepFailed || event is RecordFailed || event is ListFailed ==> next
                == CheckAction::Stop
        }),
{
}

// Managing.

/// Users manage their own subscriptions, those who manage a group its subscriptions; nobody
/// else does, and nowhere else.
pub proof fn subscriptions_are_managed_by_their_owners(kind: ConversationKind, is_group_manager: bool)
    ensures
        tool::refusal(kind, is_group_manager) is None <==> kind == ConversationKind::Private || kind
            == ConversationKind::ServiceAccount || (kind == ConversationKind::Group && is_group_manager),
{
}

/// A number names the subscription at that place of the list, counted from one.
pub proof fn numbers_name_places(subscriptions: Seq<RssSubscription>, place: int, digits: Seq<char>)
    requires
        digits.len() > 0,
        forall|i: int| 0 <= i < digits.len() ==> '0' <= #[trigger] digits[i] <= '9',
        tool::number(digits) == place,
    ensures
        1 <= place <= subscriptions.len() ==> tool::resolved(subscriptions, digits) == Some(place - 1),
        !(1 <= place <= subscriptions.len()) ==> tool::resolved(subscriptions, digits) is None,
{
    assert forall|i: int| 0 <= i < digits.len() implies !text::is_space(#[trigger] digits[i])
        && text::is_digit(digits[i]) by {
        assert('0' <= digits[i] <= '9');
    }
    lemma_one_word(digits);
}

proof fn lemma_one_word(w: Seq<char>)
    requires
        w.len() > 0,
        forall|i: int| 0 <= i < w.len() ==> !text::is_space(#[trigger] w[i]),
    ensures
        tool::target_word(w) == w,
{
    text::lemma_trim_start(w, 0);
    assert(w.skip(0) =~= w);
    text::lemma_word_len(w, w.len() as int);
    assert(w.take(w.len() as int) =~= w);
    assert(text::words(w)[0] == w);
}

/// The last digit counts once and all before it ten times.
pub proof fn digits_count_by_their_place(front: Seq<char>, digit: char)
    requires
        '0' <= digit <= '9',
    ensures
        tool::number(front.push(digit)) == 10 * tool::number(front) + (digit as int - '0' as int),
        tool::number(Seq::empty()) == 0,
{
    assert(front.push(digit).drop_last() =~= front);
}

/// Another word names the first subscription whose identifier starts with it.
pub proof fn words_name_identifiers(subscriptions: Seq<RssSubscription>, word: Seq<char>, k: int)
    requires
        word.len() > 0,
        forall|i: int| 0 <= i < word.len() ==> !text::is_space(#[trigger] word[i]),
        exists|i: int| 0 <= i < word.len() && !('0' <= #[trigger] word[i] <= '9'),
        0 <= k < subscriptions.len(),
        text::starts_with(subscriptions[k].id@, word),
    ensures
        tool::resolved(subscriptions, word) matches Some(i) && 0 <= i <= k && text::starts_with(
            subscriptions[i].id@,
            word,
        ),
    decreases k,
{
    lemma_one_word(word);
    let d = choose|i: int| 0 <= i < word.len() && !('0' <= #[trigger] word[i] <= '9');
    lemma_digit(word[d]);
    assert(!tool::all_digits(word));
    let f = lemma_first_with(subscriptions, word, k);
    let i = choose|i: int| tool::is_first_with(subscriptions, word, i);
    if i > k {
        assert(!text::starts_with(subscriptions[k].id@, word));
    }
}

proof fn lemma_digit(c: char)
    ensures
        text::is_digit(c) == ('0' <= c <= '9'),
{
}

proof fn lemma_first_with(subscriptions: Seq<RssSubscription>, word: Seq<char>, k: int) -> (f: int)
    requires
        0 <= k < subscriptions.len(),
        text::starts_with(subscriptions[k].id@, word),
    ensures
        tool::is_first_with(subscriptions, word, f),
        f <= k,
    decreases k,
{
    if exists|j: int| 0 <= j < k && text::starts_with((#[trigger] subscriptions[j]).id@, word) {
        let j = choose|j: int| 0 <= j < k && text::starts_with((#[trigger] subscriptions[j]).id@, word);
        lemma_first_with(subscriptions, word, j)
    } else {
        k
    }
}

/// Every target names a subscription that is deleted, or is reported as missing.
pub proof fn every_target_is_answered(subscriptions: Seq<RssSubscription>, targets: Seq<Seq<char>>, i: int)
    requires
        0 <= i < targets.len(),
    ensures
        tool::resolved(subscriptions, targets[i]) is Some ==> tool::has_id(
            subscriptions,
            tool::chosen(subscriptions, targets),
            subscriptions[tool::resolved(subscriptions, targets[i])->0].id@,
        ),
        tool::resolved(subscriptions, targets[i]) is None ==> tool::missing(subscriptions, targets).contains(
            tool::compacted(targets[i], tool::OUTPUT_TARGET_MAX_CHARS as int),
        ),
    decreases targets.len(),
{
    let front = targets.drop_last();
    let before = tool::chosen(subscriptions, front);
    let all = tool::chosen(subscriptions, targets);
    let lost = tool::missing(subscriptions, front);
    let gone = tool::missing(subscriptions, targets);
    if i < front.len() {
        assert(front[i] == targets[i]);
        every_target_is_answered(subscriptions, front, i);
        if tool::resolved(subscriptions, targets[i]) is Some {
            let id = subscriptions[tool::resolved(subscriptions, targets[i])->0].id@;
            let k = choose|k: int| 0 <= k < before.len() && subscriptions[#[trigger] before[k]].id@ == id;
            assert(all[k] == before[k]);
        } else {
            let t = tool::compacted(targets[i], tool::OUTPUT_TARGET_MAX_CHARS as int);
            let k = choose|k: int| 0 <= k < lost.len() && lost[k] == t;
            assert(gone[k] == t);
        }
    } else {
        if tool::resolved(subscriptions, targets[i]) is Some {
            let p = tool::resolved(subscriptions, targets[i])->0;
            if !tool::has_id(subscriptions, before, subscriptions[p].id@) {
                assert(all[before.len() as int] == p);
            }
        } else {
            assert(gone[lost.len() as int] == tool::compacted(
                targets[i],
                tool::OUTPUT_TARGET_MAX_CHARS as int,
            ));
        }
    }
}

/// Every feed that was to be added is reported, as added or as failed.
pub proof fn every_feed_is_reported(results: Seq<AddResult>)
    ensures
        tool::created_shapes(results).len() + tool::failed_shapes(results).len() == results.len(),
        (forall|i: int| 0 <= i < results.len() ==> (#[trigger] results[i]) is Created)
            ==> tool::created_shapes(results).len() == results.len(),
        (forall|i: int| 0 <= i < results.len() ==> !((#[trigger] results[i]) is Created))
            ==> tool::created_shapes(results).len() == 0,
    decreases results.len(),
{
    if results.len() > 0 {
        let front = results.drop_last();
        every_feed_is_reported(front);
        assert(results.last() == results[results.len() - 1]);
        assert forall|i: int| 0 <= i < front.len() implies #[trigger] front[i] == results[i] by {}
    }
}

/// A report shows short texts whole, and of long ones the start with three dots.
pub proof fn reports_show_the_start(s: Seq<char>, most: int)
    requires
        most >= 3,
    ensures
        text::trimmed(s).len() <= most ==> tool::compacted(s, most) == text::trimmed(s),
        text::trimmed(s).len() > most ==> tool::compacted(s, most).len() == most && tool::compacted(
            s,
            most,
        ).take(most - 3) == text::trimmed(s).take(most - 3),
{
    reveal_strlit("...");
    let t = text::trimmed(s);
    if t.len() > most {
        assert((t.take(most - 3) + "..."@).take(most - 3) =~= t.take(most - 3));
    }
}

/// A list is as long as the number between one and twenty that was given, and of three items
/// without one; any other number is refused.
pub proof fn lists_have_a_length(v: Option<Json>, n: u64)
    ensures
        arguments::limit_in(v) matches Ok(most) ==> 1 <= most <= 20,
        v is None ==> arguments::limit_in(v) == Ok::<usize, Failure>(3),
        1 <= n <= 20 ==> arguments::limit_in(Some(Json::Whole(n))) == Ok::<usize, Failure>(n as usize),
        !(1 <= n <= 20) ==> arguments::limit_in(Some(Json::Whole(n))) is Err,
{
}

/// A search looks for the trimmed text, as long as there is one and it is not too long.
pub proof fn searches_ask_for_their_words(s: String)
    ensures
        ({
            let t = text::trimmed(s@);
            let q = arguments::query_in(Some(Json::Text(s)));
            &&& 0 < t.len() <= 80 ==> q == Ok::<Option<Seq<char>>, Failure>(Some(t))
            &&& t.len() == 0 || t.len() > 80 ==> q is Err
        }),
        arguments::query_in(None) == Ok::<Option<Seq<char>>, Failure>(None),
{
    text::lemma_trimmed_is_clean(s@);
}

/// Feeds are added as they were asked for, none left out, as long as each has an address of
/// the web.
pub proof fn feeds_are_added_as_asked(json: Json)
    ensures
        arguments::feeds_to_add(json) matches Ok(feeds) ==> {
            &&& arguments::wanted_feeds(json) == Ok::<Seq<arguments::EntryView>, Failure>(feeds)
            &&& 1 <= feeds.len() <= 10
            &&& forall|i: int| 0 <= i < feeds.len() ==> is_web_address((#[trigger] feeds[i]).0)
        },
        arguments::wanted_feeds(json) matches Ok(feeds) ==> (1 <= feeds.len() <= 10 && (forall|i: int|
            0 <= i < feeds.len() ==> is_web_address((#[trigger] feeds[i]).0))
            ==> arguments::feeds_to_add(json) == Ok::<Seq<arguments::EntryView>, Failure>(feeds)),
{
    if arguments::wanted_feeds(json) is Ok {
        lemma_faultless(arguments::wanted_feeds(json)->Ok_0);
    }
}

pub open spec fn is_web_address(url: Seq<char>) -> bool {
    url.len() <= 500 && (text::starts_with(url, "http://"@) || text::starts_with(url, "https://"@))
}

proof fn lemma_faultless(entries: Seq<arguments::EntryView>)
    ensures
        arguments::entries_fault(entries) is None <==> forall|i: int|
            0 <= i < entries.len() ==> is_web_address((#[trigger] entries[i]).0),
    decreases entries.len(),
{
    if entries.len() > 0 {
        let front = entries.drop_last();
        lemma_faultless(front);
        assert(entries.last() == entries[entries.len() - 1]);
        if arguments::entries_fault(entries) is None {
            assert forall|i: int| 0 <= i < entries.len() implies is_web_address((#[trigger] entries[i]).0) by {
                if i < front.len() {
                    assert(front[i] == entries[i]);
                }
            }
        } else if arguments::entries_fault(front) is Some {
            let i = choose|i: int| 0 <= i < front.len() && !is_web_address((#[trigger] front[i]).0);
            assert(front[i] == entries[i]);
        }
    }
}

/// In a pasted list an address on a line of its own is a feed. It goes by the title on the line
/// before it, where that has one and no address.
pub proof fn addresses_on_lines_are_feeds(lines: Seq<Seq<char>>, rest: Seq<char>)
    requires
        forall|i: int| 0 <= i < rest.len() ==> !text::is_space(#[trigger] rest[i]),
    ensures
        ({
            let url = "https://"@ + rest;
            let (before, waiting) = arguments::raw_state(lines);
            arguments::raw_state(lines.push(url)) == (before.push((url, waiting)), None::<Seq<char>>)
        }),
{
    reveal_strlit("https://");
    let lead = "https://"@;
    let url = lead + rest;
    assert forall|i: int| 0 <= i < url.len() implies !text::is_space(#[trigger] url[i]) by {
        if i < lead.len() {
            assert(url[i] == lead[i]);
        } else {
            assert(url[i] == rest[i - lead.len()]);
        }
    }
    assert(url[0] == 'h');
    assert(url.skip(0) =~= url);
    assert(url.take(url.len() as int) =~= url);
    text::lemma_trim_start(url, 0);
    text::lemma_trim_end(url, url.len() as int);
    text::lemma_digits_len(url, 0);
    assert(arguments::unmarked(text::trimmed(url)) == url);
    assert(url.subrange(0, lead.len() as int) =~= lead);
    assert(text::occurs_at(url, lead, 0));
    assert(arguments::is_url_start(url, 0));
    let i = choose|i: int| arguments::is_url_start(url, i);
    assert(i == 0) by {
        if i != 0 {
            assert(text::occurs_at(url, lead, 0));
        }
    }
    text::lemma_word_len(url, url.len() as int);
    let none = Seq::<char>::empty();
    assert(url.take(0) =~= none);
    assert(url.skip(url.len() as int) =~= none);
    assert(text::trimmed(none) =~= none);
    assert(lines.push(url).drop_last() =~= lines);
    assert(lines.push(url).last() == url);
}

/// A line without an address is the title of the next feed.
pub proof fn titles_go_before_addresses(lines: Seq<Seq<char>>, title: Seq<char>)
    requires
        0 < title.len() <= 120,
        !text::is_space(title[0]),
        !text::is_space(title[title.len() - 1]),
        !('0' <= title[0] <= '9'),
        !text::has_sub(title, "http://"@),
        !text::has_sub(title, "https://"@),
    ensures
        arguments::raw_state(lines.push(title)) == (arguments::raw_state(lines).0, Some(title)),
{
    assert(title.skip(0) =~= title);
    assert(title.take(title.len() as int) =~= title);
    text::lemma_trim_start(title, 0);
    text::lemma_trim_end(title, title.len() as int);
    lemma_digit(title[0]);
    text::lemma_digits_len(title, 0);
    assert(arguments::unmarked(text::trimmed(title)) == title);
    if exists|i: int| arguments::is_url_start(title, i) {
        let i = choose|i: int| arguments::is_url_start(title, i);
        assert(text::occurs_at(title, "https://"@, i) || text::occurs_at(title, "http://"@, i));
    }
    assert(lines.push(title).drop_last() =~= lines);
    assert(lines.push(title).last() == title);
    if text::blank(title) {
        assert(text::trimmed(title).len() == 0);
    }
    assert(text::first_chars(title, 120) =~= title);
}

/// What is deleted is what the targets name, each subscription once.
pub proof fn only_named_feeds_are_deleted(subscriptions: Seq<RssSubscription>, targets: Seq<Seq<char>>)
    ensures
        ({
            let all = tool::chosen(subscriptions, targets);
            &&& forall|k: int|
                0 <= k < all.len() ==> exists|i: int|
                    0 <= i < targets.len() && tool::resolved(subscriptions, targets[i]) == Some(#[trigger] all[k])
            &&& forall|k: int, l: int|
                0 <= k < l < all.len() ==> subscriptions[#[trigger] all[k]].id@
                    != subscriptions[#[trigger] all[l]].id@
        }),
    decreases targets.len(),
{
    if targets.len() > 0 {
        let front = targets.drop_last();
        let before = tool::chosen(subscriptions, front);
        let all = tool::chosen(subscriptions, targets);
        only_named_feeds_are_deleted(subscriptions, front);
        assert forall|k: int| 0 <= k < all.len() implies exists|i: int|
            0 <= i < targets.len() && tool::resolved(subscriptions, targets[i]) == Some(#[trigger] all[k]) by {
            if k < before.len() {
                let i = choose|i: int|
                    0 <= i < front.len() && tool::resolved(subscriptions, front[i]) == Some(before[k]);
                assert(front[i] == targets[i]);
            } else {
                assert(targets.last() == targets[targets.len() - 1]);
            }
        }
    }
}

} // verus!
