//! How the results of the feed tools are shown.
use vstd::prelude::*;
use vstd::string::*;

use crate::json::Json;
use crate::labels::Labels;
use crate::text;
use crate::tools::outcome;
use crate::tools::outcome::{
    BlockView, BodyView, CommandBody, OutcomeView, ResponseBlock, ToolEffect, ToolExecutionOutcome,
    ToolExecutionResult, ToolOutcomeStatus,
};

verus! {

pub const RSS_TOOL_NAME: &'static str = "get_rss_recent_items";

pub const RSS_MANAGE_TOOL_NAME: &'static str = "manage_rss_subscriptions";

/// How many characters of the card are shown.
pub const RSS_FACT_MAX_CHARS: usize = 1200;

/// How many characters of a summary are shown.
pub const RSS_SUMMARY_MAX_CHARS: usize = 260;

/// How many items a card shows.
pub const RSS_FACT_MAX_ITEMS: usize = 10;

/// What other parts made of the items' texts.
#[derive(Debug)]
pub struct RssCardTexts {
    /// Long summaries in a form that a card has room for.
    pub summaries: Labels,
    /// Times as they are shown.
    pub times: Labels,
}

// Recent items.

/// When the item was last touched, and when it was sent or else kept.
pub open spec fn time_parts(entry: Json, times: Labels) -> Seq<Seq<char>> {
    (match outcome::field(entry, "updated_at"@) {
        Some(t) => seq!["更新时间："@ + times.label(t)],
        None => match outcome::field(entry, "published_at"@) {
            Some(t) => seq!["发布时间："@ + times.label(t)],
            None => Seq::empty(),
        },
    }) + (match outcome::field(entry, "pushed_at"@) {
        Some(t) => seq!["推送时间："@ + times.label(t)],
        None => match outcome::field(entry, "last_seen_at"@) {
            Some(t) => seq!["入库时间："@ + times.label(t)],
            None => Seq::empty(),
        },
    })
}

pub open spec fn time_line(entry: Json, times: Labels) -> Option<Seq<char>> {
    if time_parts(entry, times).len() == 0 {
        None
    } else {
        Some(text::joined(time_parts(entry, times), "；"@))
    }
}

fn labelled(label: &str, times: &Labels, t: &str) -> (r: String)
    ensures
        r@ == label@ + times.label(t@),
{
    let mut s = label.to_owned();
    s.append(times.get(t).as_str());
    s
}

pub fn rss_item_time_line(entry: &Json, times: &Labels) -> (r: Option<String>)
    ensures
        text::opt_view(r) == time_line(*entry, *times),
{
    let mut parts: Vec<String> = Vec::new();
    match outcome::string_field(entry, "updated_at") {
        Some(t) => {
            parts.push(labelled("更新时间：", times, t.as_str()));
        },
        None => match outcome::string_field(entry, "published_at") {
            Some(t) => {
                parts.push(labelled("发布时间：", times, t.as_str()));
            },
            None => {},
        },
    }
    match outcome::string_field(entry, "pushed_at") {
        Some(t) => {
            parts.push(labelled("推送时间：", times, t.as_str()));
        },
        None => match outcome::string_field(entry, "last_seen_at") {
            Some(t) => {
                parts.push(labelled("入库时间：", times, t.as_str()));
            },
            None => {},
        },
    }
    assert(text::views(parts@) =~= time_parts(*entry, *times));
    if parts.len() == 0 {
        None
    } else {
        Some(text::join(&parts, "；"))
    }
}

pub open spec fn feed_title(item: Json) -> Seq<char> {
    outcome::field_or(outcome::part(item, "subscription"@), "title"@, "未命名订阅"@)
}

pub open spec fn item_title(item: Json) -> Seq<char> {
    outcome::field_or(outcome::part(item, "item"@), "title"@, "无标题"@)
}

/// The line, if there is one.
pub open spec fn row(o: Option<Seq<char>>) -> Seq<Seq<char>> {
    match o {
        Some(s) => seq![s],
        None => Seq::empty(),
    }
}

pub open spec fn item_summary(item: Json, texts: RssCardTexts) -> Option<Seq<char>> {
    match outcome::field(outcome::part(item, "item"@), "summary"@) {
        Some(s) => Some(texts.summaries.shortened(s, RSS_SUMMARY_MAX_CHARS as int)),
        None => None,
    }
}

pub open spec fn item_time(item: Json, texts: RssCardTexts) -> Option<Seq<char>> {
    time_line(outcome::part(item, "item"@), texts.times)
}

pub open spec fn item_link(item: Json) -> Option<Seq<char>> {
    match outcome::field(outcome::part(item, "item"@), "link"@) {
        Some(s) => Some("链接："@ + s),
        None => None,
    }
}

/// The lines of one item as plain text, with an empty one at their end.
pub open spec fn item_lines(item: Json, texts: RssCardTexts) -> Seq<Seq<char>> {
    seq!["【"@ + feed_title(item) + "】"@ + item_title(item)] + row(item_summary(item, texts)) + row(
        item_time(item, texts),
    ) + row(item_link(item)) + seq![""@]
}

/// The lines of one item as Markdown.
pub open spec fn item_markdown(item: Json, texts: RssCardTexts) -> Seq<Seq<char>> {
    seq!["## "@ + item_title(item), "订阅：**"@ + feed_title(item) + "**  "@] + row(
        item_summary(item, texts),
    ) + row(
        match item_time(item, texts) {
            Some(t) => Some(t + "  "@),
            None => None,
        },
    ) + row(item_link(item)) + seq![""@]
}

pub open spec fn all_lines(items: Seq<Json>, texts: RssCardTexts) -> Seq<Seq<char>>
    decreases items.len(),
{
    if items.len() == 0 {
        Seq::empty()
    } else {
        all_lines(items.drop_last(), texts) + item_lines(items.last(), texts)
    }
}

pub open spec fn all_markdown(items: Seq<Json>, texts: RssCardTexts) -> Seq<Seq<char>>
    decreases items.len(),
{
    if items.len() == 0 {
        Seq::empty()
    } else {
        all_markdown(items.drop_last(), texts) + item_markdown(items.last(), texts)
    }
}

fn write_item(
    item: &Json,
    texts: &RssCardTexts,
    lines: &mut Vec<String>,
    markdown: &mut Vec<String>,
)
    ensures
        text::views(final(lines)@) == text::views(old(lines)@) + item_lines(*item, *texts),
        text::views(final(markdown)@) == text::views(old(markdown)@) + item_markdown(*item, *texts),
{
    let ghost before = lines@;
    let ghost earlier = markdown@;
    let nothing = Json::Null;
    let entry = match item.get("item") {
        Some(v) => v,
        None => &nothing,
    };
    let subscription = match item.get("subscription") {
        Some(v) => v,
        None => &nothing,
    };
    let feed = outcome::string_field_or(subscription, "title", "未命名订阅");
    let title = outcome::string_field_or(entry, "title", "无标题");
    let mut head = "【".to_owned();
    head.append(feed.as_str());
    head.append("】");
    head.append(title.as_str());
    lines.push(head);
    let mut heading = "## ".to_owned();
    heading.append(title.as_str());
    markdown.push(heading);
    let mut source = "订阅：**".to_owned();
    source.append(feed.as_str());
    source.append("**  ");
    markdown.push(source);
    match outcome::string_field(entry, "summary") {
        Some(s) => {
            let shown = texts.summaries.shorten(s.as_str(), RSS_SUMMARY_MAX_CHARS);
            lines.push(shown.clone());
            markdown.push(shown);
        },
        None => {},
    }
    match rss_item_time_line(entry, &texts.times) {
        Some(t) => {
            let mut m = t.clone();
            m.append("  ");
            lines.push(t);
            markdown.push(m);
        },
        None => {},
    }
    match outcome::string_field(entry, "link") {
        Some(link) => {
            let mut s = "链接：".to_owned();
            s.append(link.as_str());
            lines.push(s.clone());
            markdown.push(s);
        },
        None => {},
    }
    lines.push("".to_owned());
    markdown.push("".to_owned());
    assert(text::views(lines@) =~= text::views(before) + item_lines(*item, *texts));
    assert(text::views(markdown@) =~= text::views(earlier) + item_markdown(*item, *texts));
}

pub open spec fn empty_card(query: Option<Seq<char>>) -> BodyView {
    match query {
        Some(q) => (
            "📰 RSS 最近记录\n\n未找到与“"@ + q + "”匹配的本地 RSS 条目。"@,
            Some("# 📰 RSS 最近记录\n\n未找到与 `"@ + q + "` 匹配的本地 RSS 条目。"@),
        ),
        None => (
            "📰 RSS 最近记录\n\n当前目标没有已入库的 RSS 条目。"@,
            Some("# 📰 RSS 最近记录\n\n当前目标没有已入库的 RSS 条目。"@),
        ),
    }
}

fn write_empty_card(query: &Option<String>) -> (r: CommandBody)
    ensures
        r.shown() == empty_card(text::opt_view(*query)),
{
    match query {
        Some(q) => {
            let mut s = "📰 RSS 最近记录\n\n未找到与“".to_owned();
            s.append(q.as_str());
            s.append("”匹配的本地 RSS 条目。");
            let mut m = "# 📰 RSS 最近记录\n\n未找到与 `".to_owned();
            m.append(q.as_str());
            m.append("` 匹配的本地 RSS 条目。");
            CommandBody::dual(s, m)
        },
        None => CommandBody::dual(
            "📰 RSS 最近记录\n\n当前目标没有已入库的 RSS 条目。".to_owned(),
            "# 📰 RSS 最近记录\n\n当前目标没有已入库的 RSS 条目。".to_owned(),
        ),
    }
}

pub open spec fn card_title(query: Option<Seq<char>>) -> Seq<char> {
    match query {
        Some(q) => "📰 RSS 最近记录："@ + q,
        None => "📰 RSS 最近记录"@,
    }
}

pub open spec fn first_items(items: Seq<Json>) -> Seq<Json> {
    if items.len() > RSS_FACT_MAX_ITEMS {
        items.take(RSS_FACT_MAX_ITEMS as int)
    } else {
        items
    }
}

/// The card of items, before it is cut.
pub open spec fn items_card(query: Option<Seq<char>>, items: Seq<Json>, texts: RssCardTexts) -> BodyView {
    (
        text::joined(
            seq![card_title(query), ""@] + all_lines(first_items(items), texts)
                + seq!["以上为本地已轮询入库记录，不代表刚刚刷新远端 RSS。"@],
            "\n"@,
        ),
        Some(
            text::joined(
                seq!["# "@ + card_title(query), ""@] + all_markdown(first_items(items), texts)
                    + seq!["> 以上为本地已轮询入库记录，不代表刚刚刷新远端 RSS。"@],
                "\n"@,
            ),
        ),
    )
}

/// The card of the recent items. It says that the items are those that were kept, and that
/// the feeds were not read again.
pub open spec fn fact_card(output: Json, texts: RssCardTexts) -> BodyView {
    let query = outcome::field(output, "query"@);
    let items = outcome::elements(output, "items"@);
    if items.len() == 0 {
        empty_card(query)
    } else {
        outcome::cut_body(items_card(query, items, texts), RSS_FACT_MAX_CHARS as int)
    }
}

fn write_items(items: &Vec<Json>, query: &Option<String>, texts: &RssCardTexts) -> (r: CommandBody)
    ensures
        r.shown() == outcome::cut_body(
            items_card(text::opt_view(*query), items@, *texts),
            RSS_FACT_MAX_CHARS as int,
        ),
{
    let title = match query {
        Some(q) => {
            let mut s = "📰 RSS 最近记录：".to_owned();
            s.append(q.as_str());
            s
        },
        None => "📰 RSS 最近记录".to_owned(),
    };
    let ghost head = seq![card_title(text::opt_view(*query)), ""@];
    let ghost markdown_head = seq!["# "@ + card_title(text::opt_view(*query)), ""@];
    let mut marked = "# ".to_owned();
    marked.append(title.as_str());
    let mut lines: Vec<String> = Vec::new();
    let mut markdown: Vec<String> = Vec::new();
    lines.push(title);
    lines.push("".to_owned());
    markdown.push(marked);
    markdown.push("".to_owned());
    let n: usize = if items.len() > RSS_FACT_MAX_ITEMS {
        RSS_FACT_MAX_ITEMS
    } else {
        items.len()
    };
    let ghost shown = first_items(items@);
    assert(shown =~= items@.take(n as int));
    let mut i: usize = 0;
    proof {
        assert(shown.take(0) =~= Seq::empty());
        assert(text::views(lines@) =~= head + all_lines(shown.take(0), *texts));
        assert(text::views(markdown@) =~= markdown_head + all_markdown(shown.take(0), *texts));
    }
    while i < n
        invariant
            0 <= i <= n <= items@.len(),
            shown == items@.take(n as int),
            text::views(lines@) == head + all_lines(shown.take(i as int), *texts),
            text::views(markdown@) == markdown_head + all_markdown(shown.take(i as int), *texts),
        decreases n - i,
    {
        let ghost before = lines@;
        let ghost earlier = markdown@;
        write_item(&items[i], texts, &mut lines, &mut markdown);
        proof {
            assert(shown.take(i + 1).drop_last() =~= shown.take(i as int));
            assert(shown.take(i + 1).last() == items@[i as int]);
            assert(text::views(lines@) =~= head + (all_lines(shown.take(i as int), *texts) + item_lines(
                items@[i as int],
                *texts,
            )));
            assert(text::views(markdown@) =~= markdown_head + (all_markdown(shown.take(i as int), *texts)
                + item_markdown(items@[i as int], *texts)));
        }
        i += 1;
    }
    assert(shown.take(i as int) =~= shown);
    let ghost before = lines@;
    let ghost earlier = markdown@;
    lines.push("以上为本地已轮询入库记录，不代表刚刚刷新远端 RSS。".to_owned());
    markdown.push("> 以上为本地已轮询入库记录，不代表刚刚刷新远端 RSS。".to_owned());
    proof {
        assert(text::views(lines@) =~= head + all_lines(shown, *texts) + seq![
            "以上为本地已轮询入库记录，不代表刚刚刷新远端 RSS。"@,
        ]);
        assert(text::views(markdown@) =~= markdown_head + all_markdown(shown, *texts) + seq![
            "> 以上为本地已轮询入库记录，不代表刚刚刷新远端 RSS。"@,
        ]);
    }
    CommandBody::dual(text::join(&lines, "\n"), text::join(&markdown, "\n")).cut_to(RSS_FACT_MAX_CHARS)
}

pub fn rss_fact_card(output: &Json, texts: &RssCardTexts) -> (r: CommandBody)
    ensures
        r.shown() == fact_card(*output, *texts),
{
    let query = outcome::string_field(output, "query");
    match output.get_list("items") {
        Some(items) => {
            if items.len() == 0 {
                write_empty_card(&query)
            } else {
                write_items(items, &query, texts)
            }
        },
        None => write_empty_card(&query),
    }
}

// What was added or deleted.

pub open spec fn subscription_line(item: Json, index: int) -> Seq<char> {
    text::decimal((index + 1) as nat) + ". "@ + outcome::field_or(item, "title"@, "未命名订阅"@) + " "@
        + outcome::field_or(item, "url"@, ""@)
}

pub open spec fn subscription_markdown(item: Json, index: int) -> Seq<char> {
    text::decimal((index + 1) as nat) + ". **"@ + outcome::field_or(item, "title"@, "未命名订阅"@) + "** "@
        + outcome::field_or(item, "url"@, ""@)
}

/// The lines of the subscriptions, under a line that counts them.
pub open spec fn subscription_lines(items: Seq<Json>, label: Seq<char>) -> Seq<Seq<char>> {
    if items.len() == 0 {
        Seq::empty()
    } else {
        seq![label + " "@ + text::decimal(items.len()) + " 个订阅："@] + Seq::new(
            items.len(),
            |i: int| subscription_line(items[i], i),
        )
    }
}

pub open spec fn subscription_markdowns(items: Seq<Json>, label: Seq<char>) -> Seq<Seq<char>> {
    if items.len() == 0 {
        Seq::empty()
    } else {
        seq!["## "@ + label + " "@ + text::decimal(items.len()) + " 个订阅"@] + Seq::new(
            items.len(),
            |i: int| subscription_markdown(items[i], i),
        )
    }
}

/// One more row of a list of rows was written behind others.
proof fn lemma_row_added(written: Seq<String>, before: Seq<Seq<char>>, rows: Seq<Seq<char>>, s: String, n: int)
    requires
        0 <= n < rows.len(),
        text::views(written) == before + rows.take(n),
        s@ == rows[n],
    ensures
        text::views(written.push(s)) == before + rows.take(n + 1),
{
    assert(text::views(written.push(s)) =~= text::views(written).push(s@));
    assert(rows.take(n + 1) =~= rows.take(n).push(rows[n]));
    assert((before + rows.take(n)).push(s@) =~= before + rows.take(n).push(s@));
}

/// One more row was written behind a first one and others.
proof fn lemma_last_row_added(
    written: Seq<String>,
    before: Seq<Seq<char>>,
    first: Seq<char>,
    rows: Seq<Seq<char>>,
    s: String,
)
    requires
        text::views(written) == before + (seq![first] + rows),
    ensures
        text::views(written.push(s)) == before + (seq![first] + rows.push(s@)),
{
    assert(text::views(written.push(s)) =~= text::views(written).push(s@));
    assert(seq![first] + rows.push(s@) =~= (seq![first] + rows).push(s@));
    assert((before + (seq![first] + rows)).push(s@) =~= before + (seq![first] + rows).push(s@));
}

fn numbered(index: usize) -> (r: String)
    requires
        index < usize::MAX,
    ensures
        r@ == text::decimal((index + 1) as nat),
{
    text::decimal_string((index + 1) as u64)
}

pub fn append_rss_manage_items(
    lines: &mut Vec<String>,
    markdown: &mut Vec<String>,
    items: &Vec<Json>,
    label: &str,
)
    ensures
        text::views(final(lines)@) == text::views(old(lines)@) + subscription_lines(items@, label@),
        text::views(final(markdown)@) == text::views(old(markdown)@) + subscription_markdowns(
            items@,
            label@,
        ),
{
    let ghost before = text::views(lines@);
    let ghost earlier = text::views(markdown@);
    let n: usize = items.len();
    if n == 0 {
        assert(before + subscription_lines(items@, label@) =~= before);
        assert(earlier + subscription_markdowns(items@, label@) =~= earlier);
        return;
    }
    let count = text::decimal_string(n as u64);
    let mut head = label.to_owned();
    head.append(" ");
    head.append(count.as_str());
    head.append(" 个订阅：");
    let mut heading = "## ".to_owned();
    heading.append(label);
    heading.append(" ");
    heading.append(count.as_str());
    heading.append(" 个订阅");
    let ghost l = subscription_lines(items@, label@);
    let ghost m = subscription_markdowns(items@, label@);
    lines.push(head);
    markdown.push(heading);
    let mut i: usize = 0;
    proof {
        assert(text::views(lines@) =~= before + l.take(1));
        assert(text::views(markdown@) =~= earlier + m.take(1));
    }
    while i < n
        invariant
            0 <= i <= n,
            n == items@.len(),
            n > 0,
            l == subscription_lines(items@, label@),
            m == subscription_markdowns(items@, label@),
            text::views(lines@) == before + l.take(i + 1),
            text::views(markdown@) == earlier + m.take(i + 1),
        decreases n - i,
    {
        let title = outcome::string_field_or(&items[i], "title", "未命名订阅");
        let url = outcome::string_field_or(&items[i], "url", "");
        let mut s = numbered(i);
        s.append(". ");
        s.append(title.as_str());
        s.append(" ");
        s.append(url.as_str());
        let mut t = numbered(i);
        t.append(". **");
        t.append(title.as_str());
        t.append("** ");
        t.append(url.as_str());
        let ghost some = lines@;
        let ghost marked = markdown@;
        proof {
            assert(l[i + 1] == subscription_line(items@[i as int], i as int));
            assert(m[i + 1] == subscription_markdown(items@[i as int], i as int));
            assert(s@ == l[i + 1]);
            assert(t@ == m[i + 1]);
            lemma_row_added(some, before, l, s, i + 1);
            lemma_row_added(marked, earlier, m, t, i + 1);
        }
        lines.push(s);
        markdown.push(t);
        i += 1;
    }
    assert(l.take(n + 1) =~= l);
    assert(m.take(n + 1) =~= m);
}

pub open spec fn failure_line(item: Json, index: int) -> Seq<char> {
    text::decimal((index + 1) as nat) + ". "@ + outcome::field_or(item, "url"@, "未知地址"@) + "："@
        + outcome::field_or(item, "error"@, "未知错误"@)
}

pub open spec fn failure_markdown(item: Json, index: int) -> Seq<char> {
    text::decimal((index + 1) as nat) + ". `"@ + outcome::field_or(item, "url"@, "未知地址"@) + "`："@
        + outcome::field_or(item, "error"@, "未知错误"@)
}

pub open spec fn failure_lines(items: Seq<Json>, label: Seq<char>) -> Seq<Seq<char>> {
    if items.len() == 0 {
        Seq::empty()
    } else {
        seq![label + " "@ + text::decimal(items.len()) + " 个："@] + Seq::new(
            items.len(),
            |i: int| failure_line(items[i], i),
        )
    }
}

pub open spec fn failure_markdowns(items: Seq<Json>, label: Seq<char>) -> Seq<Seq<char>> {
    if items.len() == 0 {
        Seq::empty()
    } else {
        seq!["## "@ + label + " "@ + text::decimal(items.len()) + " 个"@] + Seq::new(
            items.len(),
            |i: int| failure_markdown(items[i], i),
        )
    }
}

pub fn append_rss_manage_failures(
    lines: &mut Vec<String>,
    markdown: &mut Vec<String>,
    items: &Vec<Json>,
    label: &str,
)
    ensures
        text::views(final(lines)@) == text::views(old(lines)@) + failure_lines(items@, label@),
        text::views(final(markdown)@) == text::views(old(markdown)@) + failure_markdowns(items@, label@),
{
    let ghost before = text::views(lines@);
    let ghost earlier = text::views(markdown@);
    let n: usize = items.len();
    if n == 0 {
        assert(before + failure_lines(items@, label@) =~= before);
        assert(earlier + failure_markdowns(items@, label@) =~= earlier);
        return;
    }
    let count = text::decimal_string(n as u64);
    let mut head = label.to_owned();
    head.append(" ");
    head.append(count.as_str());
    head.append(" 个：");
    let mut heading = "## ".to_owned();
    heading.append(label);
    heading.append(" ");
    heading.append(count.as_str());
    heading.append(" 个");
    let ghost l = failure_lines(items@, label@);
    let ghost m = failure_markdowns(items@, label@);
    lines.push(head);
    markdown.push(heading);
    let mut i: usize = 0;
    proof {
        assert(text::views(lines@) =~= before + l.take(1));
        assert(text::views(markdown@) =~= earlier + m.take(1));
    }
    while i < n
        invariant
            0 <= i <= n,
            n == items@.len(),
            n > 0,
            l == failure_lines(items@, label@),
            m == failure_markdowns(items@, label@),
            text::views(lines@) == before + l.take(i + 1),
            text::views(markdown@) == earlier + m.take(i + 1),
        decreases n - i,
    {
        let url = outcome::string_field_or(&items[i], "url", "未知地址");
        let error = outcome::string_field_or(&items[i], "error", "未知错误");
        let mut s = numbered(i);
        s.append(". ");
        s.append(url.as_str());
        s.append("：");
        s.append(error.as_str());
        let mut t = numbered(i);
        t.append(". `");
        t.append(url.as_str());
        t.append("`：");
        t.append(error.as_str());
        let ghost some = lines@;
        let ghost marked = markdown@;
        proof {
            assert(l[i + 1] == failure_line(items@[i as int], i as int));
            assert(m[i + 1] == failure_markdown(items@[i as int], i as int));
            assert(s@ == l[i + 1]);
            assert(t@ == m[i + 1]);
            lemma_row_added(some, before, l, s, i + 1);
            lemma_row_added(marked, earlier, m, t, i + 1);
        }
        lines.push(s);
        markdown.push(t);
        i += 1;
    }
    assert(l.take(n + 1) =~= l);
    assert(m.take(n + 1) =~= m);
}

/// The targets that name nothing, each with its number; what is no text is left out.
pub open spec fn missing_rows(items: Seq<Json>, open: Seq<char>, close: Seq<char>) -> Seq<Seq<char>>
    decreases items.len(),
{
    if items.len() == 0 {
        Seq::empty()
    } else {
        let before = missing_rows(items.drop_last(), open, close);
        match items.last().words() {
            Some(s) => before.push(text::decimal(items.len()) + open + s + close),
            None => before,
        }
    }
}

pub open spec fn missing_lines(items: Seq<Json>) -> Seq<Seq<char>> {
    if items.len() == 0 {
        Seq::empty()
    } else {
        seq!["未找到 "@ + text::decimal(items.len()) + " 个目标："@] + missing_rows(items, ". "@, ""@)
    }
}

pub open spec fn missing_markdowns(items: Seq<Json>) -> Seq<Seq<char>> {
    if items.len() == 0 {
        Seq::empty()
    } else {
        seq!["## 未找到 "@ + text::decimal(items.len()) + " 个目标"@] + missing_rows(items, ". `"@, "`"@)
    }
}

fn append_missing(lines: &mut Vec<String>, markdown: &mut Vec<String>, items: &Vec<Json>)
    ensures
        text::views(final(lines)@) == text::views(old(lines)@) + missing_lines(items@),
        text::views(final(markdown)@) == text::views(old(markdown)@) + missing_markdowns(items@),
{
    let ghost before = text::views(lines@);
    let ghost earlier = text::views(markdown@);
    let n: usize = items.len();
    if n == 0 {
        assert(before + missing_lines(items@) =~= before);
        assert(earlier + missing_markdowns(items@) =~= earlier);
        return;
    }
    let count = text::decimal_string(n as u64);
    let mut head = "未找到 ".to_owned();
    head.append(count.as_str());
    head.append(" 个目标：");
    let mut heading = "## 未找到 ".to_owned();
    heading.append(count.as_str());
    heading.append(" 个目标");
    let ghost first = head@;
    let ghost marked = heading@;
    lines.push(head);
    markdown.push(heading);
    let mut i: usize = 0;
    proof {
        assert(items@.take(0) =~= Seq::empty());
        assert(text::views(lines@) =~= before + (seq![first] + missing_rows(items@.take(0), ". "@, ""@)));
        assert(text::views(markdown@) =~= earlier + (seq![marked] + missing_rows(
            items@.take(0),
            ". `"@,
            "`"@,
        )));
    }
    while i < n
        invariant
            0 <= i <= n,
            n == items@.len(),
            text::views(lines@) == before + (seq![first] + missing_rows(
                items@.take(i as int),
                ". "@,
                ""@,
            )),
            text::views(markdown@) == earlier + (seq![marked] + missing_rows(
                items@.take(i as int),
                ". `"@,
                "`"@,
            )),
        decreases n - i,
    {
        let ghost some = items@.take(i + 1);
        proof {
            assert(some.drop_last() =~= items@.take(i as int));
            assert(some.last() == items@[i as int]);
        }
        match items[i].as_str() {
            Some(value) => {
                let mut s = numbered(i);
                s.append(". ");
                s.append(value);
                s.append("");
                let mut t = numbered(i);
                t.append(". `");
                t.append(value);
                t.append("`");
                proof {
                    lemma_last_row_added(lines@, before, first, missing_rows(some.drop_last(), ". "@, ""@), s);
                    lemma_last_row_added(markdown@, earlier, marked, missing_rows(some.drop_last(), ". `"@, "`"@), t);
                }
                lines.push(s);
                markdown.push(t);
            },
            None => {},
        }
        i += 1;
    }
    assert(items@.take(i as int) =~= items@);
}

pub open spec fn manage_title(operation: Seq<char>) -> Seq<char> {
    if operation == "add"@ {
        "RSS 新增结果"@
    } else if operation == "delete"@ {
        "RSS 删除结果"@
    } else {
        "RSS 管理结果"@
    }
}

pub open spec fn manage_lines(output: Json) -> Seq<Seq<char>> {
    let operation = outcome::field_or(output, "operation"@, "manage"@);
    seq![manage_title(operation), ""@] + (if operation == "add"@ {
        subscription_lines(outcome::elements(output, "created"@), "已添加"@) + failure_lines(
            outcome::elements(output, "failed"@),
            "失败"@,
        )
    } else if operation == "delete"@ {
        subscription_lines(outcome::elements(output, "deleted"@), "已删除"@) + missing_lines(
            outcome::elements(output, "missing"@),
        )
    } else {
        row(outcome::field(output, "message"@))
    })
}

pub open spec fn manage_markdown(output: Json) -> Seq<Seq<char>> {
    let operation = outcome::field_or(output, "operation"@, "manage"@);
    seq!["# "@ + manage_title(operation), ""@] + (if operation == "add"@ {
        subscription_markdowns(outcome::elements(output, "created"@), "已添加"@) + failure_markdowns(
            outcome::elements(output, "failed"@),
            "失败"@,
        )
    } else if operation == "delete"@ {
        subscription_markdowns(outcome::elements(output, "deleted"@), "已删除"@) + missing_markdowns(
            outcome::elements(output, "missing"@),
        )
    } else {
        row(outcome::field(output, "message"@))
    })
}

/// What was added or deleted and what was not.
pub open spec fn manage_card(output: Json) -> BodyView {
    (text::joined(manage_lines(output), "\n"@), Some(text::joined(manage_markdown(output), "\n"@)))
}

pub fn rss_manage_body(output: &Json) -> (r: CommandBody)
    ensures
        r.shown() == manage_card(*output),
{
    let operation = outcome::string_field_or(output, "operation", "manage");
    let adds = text::same(operation.as_str(), "add");
    let deletes = text::same(operation.as_str(), "delete");
    let title = if adds {
        "RSS 新增结果"
    } else if deletes {
        "RSS 删除结果"
    } else {
        "RSS 管理结果"
    };
    let mut lines: Vec<String> = Vec::new();
    let mut markdown: Vec<String> = Vec::new();
    lines.push(title.to_owned());
    lines.push("".to_owned());
    let mut heading = "# ".to_owned();
    heading.append(title);
    markdown.push(heading);
    markdown.push("".to_owned());
    let ghost head = seq![manage_title(operation@), ""@];
    let ghost marked = seq!["# "@ + manage_title(operation@), ""@];
    assert(text::views(lines@) =~= head);
    assert(text::views(markdown@) =~= marked);
    let none: Vec<Json> = Vec::new();
    assert(none@ =~= Seq::empty());
    if adds {
        let created = match output.get_list("created") {
            Some(v) => v,
            None => &none,
        };
        append_rss_manage_items(&mut lines, &mut markdown, created, "已添加");
        let failed = match output.get_list("failed") {
            Some(v) => v,
            None => &none,
        };
        append_rss_manage_failures(&mut lines, &mut markdown, failed, "失败");
    } else if deletes {
        let deleted = match output.get_list("deleted") {
            Some(v) => v,
            None => &none,
        };
        append_rss_manage_items(&mut lines, &mut markdown, deleted, "已删除");
        let missing = match output.get_list("missing") {
            Some(v) => v,
            None => &none,
        };
        append_missing(&mut lines, &mut markdown, missing);
    } else {
        match outcome::string_field(output, "message") {
            Some(message) => {
                lines.push(message.clone());
                markdown.push(message);
            },
            None => {},
        }
    }
    assert(text::views(lines@) =~= manage_lines(*output));
    assert(text::views(markdown@) =~= manage_markdown(*output));
    CommandBody::dual(text::join(&lines, "\n"), text::join(&markdown, "\n"))
}

/// Whether a failed request still says what it did.
pub open spec fn has_details(output: Json) -> bool {
    let operation = outcome::field(output, "operation"@);
    operation == Some("add"@) || operation == Some("delete"@) || outcome::elements(output, "failed"@).len()
        > 0 || outcome::elements(output, "missing"@).len() > 0
}

pub fn rss_manage_has_business_details(output: &Json) -> (r: bool)
    ensures
        r == has_details(*output),
{
    match outcome::string_field(output, "operation") {
        Some(operation) => {
            if text::same(operation.as_str(), "add") || text::same(operation.as_str(), "delete") {
                return true;
            }
        },
        None => {},
    }
    match output.get_list("failed") {
        Some(items) => {
            if items.len() > 0 {
                return true;
            }
        },
        None => {},
    }
    match output.get_list("missing") {
        Some(items) => items.len() > 0,
        None => false,
    }
}

// Errors.

pub open spec fn error_text(code: Option<Seq<char>>) -> Seq<char> {
    if code == Some("bad_tool_arguments"@) {
        "【RSS】\n\nRSS 参数不完整，请说明订阅名、关键词，或把条数限制在 1 到 20。"@
    } else if code == Some("permission_denied"@) {
        "【RSS】\n\n群聊 RSS 管理只允许群主或管理员执行。"@
    } else {
        "【RSS】\n\nRSS 本地记录暂时无法读取，请稍后再试。"@
    }
}

pub fn rss_error_body(output: &Json) -> (r: CommandBody)
    ensures
        r.shown() == outcome::plain_body(error_text(outcome::error_code(*output))),
{
    match outcome::structured_error_code(output) {
        Some(code) => {
            if text::same(code.as_str(), "bad_tool_arguments") {
                return CommandBody::plain(
                    "【RSS】\n\nRSS 参数不完整，请说明订阅名、关键词，或把条数限制在 1 到 20。",
                );
            }
            if text::same(code.as_str(), "permission_denied") {
                return CommandBody::plain("【RSS】\n\n群聊 RSS 管理只允许群主或管理员执行。");
            }
        },
        None => {},
    }
    CommandBody::plain("【RSS】\n\nRSS 本地记录暂时无法读取，请稍后再试。")
}

pub open spec fn manage_error(output: Json) -> BodyView {
    if has_details(output) {
        manage_card(output)
    } else {
        outcome::plain_body(error_text(outcome::error_code(output)))
    }
}

pub fn rss_manage_error_body(output: &Json) -> (r: CommandBody)
    ensures
        r.shown() == manage_error(*output),
{
    if rss_manage_has_business_details(output) {
        rss_manage_body(output)
    } else {
        rss_error_body(output)
    }
}

pub open spec fn manage_effect(output: Json) -> ToolEffect {
    let operation = outcome::field(output, "operation"@);
    if operation == Some("add"@) {
        ToolEffect::Created
    } else if operation == Some("delete"@) {
        ToolEffect::Deleted
    } else {
        ToolEffect::Updated
    }
}

pub fn rss_manage_effect(output: &Json) -> (r: ToolEffect)
    ensures
        r == manage_effect(*output),
{
    match outcome::string_field(output, "operation") {
        Some(operation) => {
            if text::same(operation.as_str(), "add") {
                ToolEffect::Created
            } else if text::same(operation.as_str(), "delete") {
                ToolEffect::Deleted
            } else {
                ToolEffect::Updated
            }
        },
        None => ToolEffect::Updated,
    }
}

// Outcomes.

pub open spec fn recent_block(output: Json, status: ToolOutcomeStatus, texts: RssCardTexts) -> BlockView {
    match status {
        ToolOutcomeStatus::Succeeded => BlockView::FactCard(fact_card(output, texts)),
        ToolOutcomeStatus::Skipped => BlockView::Warning(
            outcome::plain_body(outcome::skip_text("RSS 查询"@, output)),
        ),
        ToolOutcomeStatus::RequiresClarification => BlockView::Clarification(
            outcome::plain_body("请说明要查看哪个 RSS 订阅或关键词。"@),
        ),
        ToolOutcomeStatus::PendingConfirmation | ToolOutcomeStatus::Failed => BlockView::Error(
            outcome::plain_body(error_text(outcome::error_code(output))),
        ),
    }
}

pub open spec fn manage_block(output: Json, status: ToolOutcomeStatus) -> BlockView {
    match status {
        ToolOutcomeStatus::Succeeded => BlockView::MutationReceipt(manage_card(output)),
        ToolOutcomeStatus::Skipped => BlockView::Warning(
            outcome::plain_body(outcome::skip_text("RSS 查询"@, output)),
        ),
        ToolOutcomeStatus::RequiresClarification => BlockView::Clarification(
            outcome::plain_body("请说明要新增或删除哪些 RSS 订阅。"@),
        ),
        ToolOutcomeStatus::PendingConfirmation | ToolOutcomeStatus::Failed => BlockView::Error(
            manage_error(output),
        ),
    }
}

pub open spec fn manage_outcome(result: ToolExecutionResult, status: ToolOutcomeStatus) -> OutcomeView {
    outcome::one_block(
        result.name@,
        "rss"@,
        status,
        manage_effect(result.output),
        manage_block(result.output, status),
        outcome::error_code(result.output),
        "rss"@,
    )
}

pub fn rss_manage_outcome(result: &ToolExecutionResult, status: ToolOutcomeStatus) -> (r: ToolExecutionOutcome)
    ensures
        r.shown() == manage_outcome(*result, status),
{
    let block = match status {
        ToolOutcomeStatus::Succeeded => ResponseBlock::MutationReceipt {
            body: rss_manage_body(&result.output),
        },
        ToolOutcomeStatus::Skipped => ResponseBlock::Warning {
            body: outcome::skip_body("RSS 查询", &result.output),
        },
        ToolOutcomeStatus::RequiresClarification => ResponseBlock::Clarification {
            body: CommandBody::plain("请说明要新增或删除哪些 RSS 订阅。"),
        },
        ToolOutcomeStatus::PendingConfirmation | ToolOutcomeStatus::Failed => ResponseBlock::Error {
            body: rss_manage_error_body(&result.output),
        },
    };
    outcome::one_block_outcome(
        result.name.as_str(),
        "rss",
        status,
        rss_manage_effect(&result.output),
        block,
        outcome::structured_error_code(&result.output),
        "rss",
    )
}

/// The outcome of a feed tool; none for another tool.
pub open spec fn rss_outcome(
    result: ToolExecutionResult,
    status: ToolOutcomeStatus,
    texts: RssCardTexts,
) -> Option<OutcomeView> {
    if result.name@ == RSS_MANAGE_TOOL_NAME@ {
        Some(manage_outcome(result, status))
    } else if result.name@ == RSS_TOOL_NAME@ {
        Some(
            outcome::one_block(
                result.name@,
                "rss"@,
                status,
                ToolEffect::ReadOnly,
                recent_block(result.output, status, texts),
                outcome::error_code(result.output),
                "rss"@,
            ),
        )
    } else {
        None
    }
}

pub fn tool_outcome_from_rss_result(
    result: &ToolExecutionResult,
    status: ToolOutcomeStatus,
    texts: &RssCardTexts,
) -> (r: Option<ToolExecutionOutcome>)
    ensures
        match rss_outcome(*result, status, *texts) {
            Some(view) => r matches Some(o) && o.shown() == view,
            None => r is None,
        },
{
    if text::same(result.name.as_str(), RSS_MANAGE_TOOL_NAME) {
        return Some(rss_manage_outcome(result, status));
    }
    if !text::same(result.name.as_str(), RSS_TOOL_NAME) {
        return None;
    }
    let block = match status {
        ToolOutcomeStatus::Succeeded => ResponseBlock::FactCard {
            body: rss_fact_card(&result.output, texts),
        },
        ToolOutcomeStatus::Skipped => ResponseBlock::Warning {
            body: outcome::skip_body("RSS 查询", &result.output),
        },
        ToolOutcomeStatus::RequiresClarification => ResponseBlock::Clarification {
            body: CommandBody::plain("请说明要查看哪个 RSS 订阅或关键词。"),
        },
        ToolOutcomeStatus::PendingConfirmation | ToolOutcomeStatus::Failed => ResponseBlock::Error {
            body: rss_error_body(&result.output),
        },
    };
    Some(
        outcome::one_block_outcome(
            result.name.as_str(),
            "rss",
            status,
            ToolEffect::ReadOnly,
            block,
            outcome::structured_error_code(&result.output),
            "rss",
        ),
    )
}

// Laws.

/// Neither form of a card with items is longer than a card may be.
pub proof fn item_cards_are_short(output: Json, texts: RssCardTexts)
    requires
        outcome::elements(output, "items"@).len() > 0,
    ensures
        fact_card(output, texts).0.len() <= RSS_FACT_MAX_CHARS,
        fact_card(output, texts).1 is Some,
        fact_card(output, texts).1->0.len() <= RSS_FACT_MAX_CHARS,
{
}

} // verus!
