//! What users get of managing their feeds: which title a feed goes by, and what a report shows.
use vstd::prelude::*;
use vstd::string::*;

use crate::json::{Json, Shape};
use crate::rss::arguments::RssToolAddEntry;
use crate::rss::items;
use crate::rss::items::{ChatScene, RssTargetType, TranslationPurpose, TranslationRequest};
use crate::rss::tool;
use crate::rss::tool::{AddAction, AddEvent, AddResult};
use crate::text;
use crate::text_laws::{lemma_sub_behind, lemma_sub_between, lemma_sub_of_row};
use crate::tools::outcome;
use crate::tools::outcome::{ToolEffect, ToolOutcomeStatus};
use crate::tools::rss_cards;

verus! {

/// A feed is read from its address; once it was read it is subscribed to under the title that
/// was asked for, or else under its own.
pub proof fn feeds_go_by_their_title(
    entry: RssToolAddEntry,
    own: String,
    summary_max_chars: usize,
    seen_retention: usize,
)
    ensures
        tool::add_action(entry, AddEvent::Begun, summary_max_chars, seen_retention) == (AddAction::Fetch {
            url: entry.url,
            summary_max_chars,
        }),
        entry.title matches Some(asked) ==> tool::add_action(
            entry,
            AddEvent::Fetched { title: own },
            summary_max_chars,
            seen_retention,
        ) == (AddAction::Create { url: entry.url, title: asked, seen_retention }),
        entry.title is None ==> tool::add_action(
            entry,
            AddEvent::Fetched { title: own },
            summary_max_chars,
            seen_retention,
        ) == (AddAction::Create { url: entry.url, title: own, seen_retention }),
{
}

/// A field is translated as it is, into Chinese, by the model of those who get it.
pub proof fn fields_are_translated_as_they_are(
    q: TranslationRequest,
    id: Seq<char>,
    item_key: Seq<char>,
    field: Seq<char>,
    source: Seq<char>,
    purpose: TranslationPurpose,
    t: RssTargetType,
)
    requires
        items::is_request(q, id, item_key, field, source, purpose),
    ensures
        q.source_text@ == source,
        q.purpose == purpose,
        q.target_language@ == "简体中文"@,
        items::scene_of(t) == ChatScene::Group <==> t == RssTargetType::Group,
{
}

/// A batch counts as done as soon as one feed was added.
pub proof fn one_feed_is_enough(scope_id: Seq<char>, results: Seq<AddResult>, k: int)
    requires
        0 <= k < results.len(),
    ensures
        ({
            &&& tool::add_shape(scope_id, results) matches Shape::Object(o)
            &&& o[4].0 == "ok"@
            &&& results[k] is Created ==> o[4].1 == Shape::Bool(true)
            &&& (forall|i: int| 0 <= i < results.len() ==> !((#[trigger] results[i]) is Created)) ==> o[4].1
                == Shape::Bool(false)
        }),
{
    lemma_created(results, k);
    crate::rss::push_laws::every_feed_is_reported(results);
}

proof fn lemma_created(results: Seq<AddResult>, k: int)
    requires
        0 <= k < results.len(),
    ensures
        results[k] is Created ==> tool::created_shapes(results).len() > 0,
    decreases results.len(),
{
    if k < results.len() - 1 {
        assert(results.drop_last()[k] == results[k]);
        lemma_created(results.drop_last(), k);
    } else {
        assert(results.last() == results[k]);
    }
}

// Cards.

proof fn lemma_line(a: Seq<char>, b: Seq<char>, c: Seq<char>, d: Seq<char>, e: Seq<char>)
    ensures
        text::has_sub(a + b + c + d + e, c),
        text::has_sub(a + b + c + d + e, e),
{
    assert(a + b + c + d + e =~= (a + b) + c + (d + e));
    lemma_sub_between(a + b, c, d + e);
    lemma_sub_behind(a + b + c + d, e);
}

/// A card shows title and address of every subscription that was added, and address and error
/// of every one that was not.
pub proof fn cards_show_what_was_added(output: Json, k: int)
    requires
        outcome::field(output, "operation"@) == Some("add"@),
        k >= 0,
    ensures
        ({
            let m = rss_cards::manage_card(output).0;
            let created = outcome::elements(output, "created"@);
            let failed = outcome::elements(output, "failed"@);
            &&& k < created.len() ==> (outcome::field(created[k], "title"@) matches Some(t) ==> text::has_sub(m, t))
            &&& k < created.len() ==> (outcome::field(created[k], "url"@) matches Some(u) ==> text::has_sub(m, u))
            &&& k < failed.len() ==> (outcome::field(failed[k], "url"@) matches Some(u) ==> text::has_sub(m, u))
            &&& k < failed.len() ==> (outcome::field(failed[k], "error"@) matches Some(e) ==> text::has_sub(m, e))
        }),
{
    let created = outcome::elements(output, "created"@);
    let failed = outcome::elements(output, "failed"@);
    let a = rss_cards::subscription_lines(created, "已添加"@);
    let b = rss_cards::failure_lines(failed, "失败"@);
    let rows = rss_cards::manage_lines(output);
    let head = seq![rss_cards::manage_title("add"@), ""@];
    assert(rows == head + (a + b));
    if k < created.len() {
        let title = outcome::field_or(created[k], "title"@, "未命名订阅"@);
        let url = outcome::field_or(created[k], "url"@, ""@);
        assert(a[1 + k] == rss_cards::subscription_line(created[k], k));
        assert(rows[2 + 1 + k] == a[1 + k]);
        lemma_line(text::decimal((k + 1) as nat), ". "@, title, " "@, url);
        lemma_sub_of_row(rows, 3 + k, title);
        lemma_sub_of_row(rows, 3 + k, url);
    }
    if k < failed.len() {
        let url = outcome::field_or(failed[k], "url"@, "未知地址"@);
        let error = outcome::field_or(failed[k], "error"@, "未知错误"@);
        assert(b[1 + k] == rss_cards::failure_line(failed[k], k));
        assert(rows[2 + a.len() + 1 + k] == b[1 + k]);
        lemma_line(text::decimal((k + 1) as nat), ". "@, url, "："@, error);
        lemma_sub_of_row(rows, 2 + a.len() + 1 + k, url);
        lemma_sub_of_row(rows, 2 + a.len() + 1 + k, error);
    }
}

/// A card shows title and address of every subscription that was deleted, and every target
/// that names none.
pub proof fn cards_show_what_was_deleted(output: Json, k: int)
    requires
        outcome::field(output, "operation"@) == Some("delete"@),
        k >= 0,
    ensures
        ({
            let m = rss_cards::manage_card(output).0;
            let deleted = outcome::elements(output, "deleted"@);
            let missing = outcome::elements(output, "missing"@);
            &&& k < deleted.len() ==> (outcome::field(deleted[k], "title"@) matches Some(t) ==> text::has_sub(m, t))
            &&& k < deleted.len() ==> (outcome::field(deleted[k], "url"@) matches Some(u) ==> text::has_sub(m, u))
            &&& k < missing.len() ==> (missing[k] matches Json::Text(s) ==> text::has_sub(m, s@))
        }),
{
    let deleted = outcome::elements(output, "deleted"@);
    let missing = outcome::elements(output, "missing"@);
    assert("delete"@ != "add"@) by {
        reveal_strlit("delete");
        reveal_strlit("add");
        assert("delete"@.len() == 6 && "add"@.len() == 3);
    }
    let a = rss_cards::subscription_lines(deleted, "已删除"@);
    let b = rss_cards::missing_lines(missing);
    let rows = rss_cards::manage_lines(output);
    let head = seq![rss_cards::manage_title("delete"@), ""@];
    assert(rows == head + (a + b));
    if k < deleted.len() {
        let title = outcome::field_or(deleted[k], "title"@, "未命名订阅"@);
        let url = outcome::field_or(deleted[k], "url"@, ""@);
        assert(a[1 + k] == rss_cards::subscription_line(deleted[k], k));
        assert(rows[2 + 1 + k] == a[1 + k]);
        lemma_line(text::decimal((k + 1) as nat), ". "@, title, " "@, url);
        lemma_sub_of_row(rows, 3 + k, title);
        lemma_sub_of_row(rows, 3 + k, url);
    }
    if k < missing.len() && missing[k] is Text {
        let s = missing[k]->Text_0@;
        let i = lemma_missing(missing, k);
        let lines = rss_cards::missing_rows(missing, ". "@, ""@);
        assert(b[1 + i] == lines[i]);
        assert(rows[2 + a.len() + 1 + i] == lines[i]);
        lemma_sub_between(text::decimal((k + 1) as nat) + ". "@, s, ""@);
        lemma_sub_of_row(rows, 2 + a.len() + 1 + i, s);
    }
}

proof fn lemma_missing(missing: Seq<Json>, k: int) -> (i: int)
    requires
        0 <= k < missing.len(),
        missing[k] is Text,
    ensures
        0 <= i < rss_cards::missing_rows(missing, ". "@, ""@).len(),
        rss_cards::missing_rows(missing, ". "@, ""@)[i] == text::decimal((k + 1) as nat) + ". "@
            + missing[k]->Text_0@ + ""@,
    decreases missing.len(),
{
    let front = missing.drop_last();
    if k < front.len() {
        assert(front[k] == missing[k]);
        lemma_missing(front, k)
    } else {
        assert(missing.last() == missing[k]);
        rss_cards::missing_rows(front, ". "@, ""@).len() as int
    }
}

/// A change is told as what it was, and only one that worked gets a receipt.
pub proof fn changes_are_told_as_what_they_were(output: Json, status: ToolOutcomeStatus)
    ensures
        outcome::field(output, "operation"@) == Some("add"@) ==> rss_cards::manage_effect(output)
            == ToolEffect::Created,
        outcome::field(output, "operation"@) == Some("delete"@) ==> rss_cards::manage_effect(output)
            == ToolEffect::Deleted,
        rss_cards::manage_block(output, status) is MutationReceipt <==> status == ToolOutcomeStatus::Succeeded,
        status == ToolOutcomeStatus::Failed ==> rss_cards::manage_block(output, status) is Error,
        status == ToolOutcomeStatus::Skipped ==> rss_cards::manage_block(output, status) is Warning,
{
    reveal_strlit("delete");
    reveal_strlit("add");
    assert("delete"@.len() == 6 && "add"@.len() == 3);
}

} // verus!
