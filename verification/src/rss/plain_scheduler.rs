//! Checking feeds and sending what is new, with every text translated and shown as it is
//! written.
use vstd::prelude::*;
use vstd::string::*;

use crate::labels::Labels;
use crate::push::NotificationUpsert;
use crate::rss::items;
use crate::rss::items::{CheckAction, CheckEvent, CheckLimits, PushBody, RssPendingItem, RssSubscription};
use crate::text;

verus! {

#[derive(Debug)]
pub struct RssSchedulerConfig {
    pub enabled: bool,
    pub interval_seconds: u64,
    pub max_push_per_subscription: usize,
    pub summary_max_chars: usize,
    pub seen_retention: usize,
    pub push_max_failures: u32,
    pub push_message_type: String,
}

#[derive(Debug)]
pub struct RssScheduler {
    config: RssSchedulerConfig,
}

/// What other parts made of an item's texts.
#[derive(Debug)]
pub struct PushTexts {
    /// The item's title, cleaned; none where nothing of it is left.
    pub title: Option<String>,
    /// Texts as they are written on a line of Markdown.
    pub inline: Labels,
    /// Texts as they are written over several lines of Markdown.
    pub block: Labels,
    /// Times as they are shown.
    pub times: Labels,
}

pub open spec fn title_text(texts: PushTexts) -> Seq<char> {
    match texts.title {
        Some(s) => s@,
        None => "无标题"@,
    }
}

fn push_title_text(texts: &PushTexts) -> (r: String)
    ensures
        r@ == title_text(*texts),
{
    match &texts.title {
        Some(s) => s.clone(),
        None => "无标题".to_owned(),
    }
}

/// The line, if there is one.
pub open spec fn row(o: Option<Seq<char>>) -> Seq<Seq<char>> {
    match o {
        Some(s) => seq![s],
        None => Seq::empty(),
    }
}

/// The line behind an empty one, if there is one.
pub open spec fn spaced_row(o: Option<Seq<char>>) -> Seq<Seq<char>> {
    match o {
        Some(s) => seq![""@, s],
        None => Seq::empty(),
    }
}

pub open spec fn link_line(item: RssPendingItem) -> Option<Seq<char>> {
    match items::present(item.link) {
        Some(link) => Some("链接："@ + link),
        None => None,
    }
}

fn write_link_line(item: &RssPendingItem) -> (r: Option<String>)
    ensures
        text::opt_view(r) == link_line(*item),
{
    match items::present_text(&item.link) {
        Some(link) => {
            let mut s = "链接：".to_owned();
            s.append(link);
            Some(s)
        },
        None => None,
    }
}

pub open spec fn message_rows(
    subscription_title: Seq<char>,
    item: RssPendingItem,
    texts: PushTexts,
) -> Seq<Seq<char>> {
    seq!["【RSS 更新】"@ + text::trimmed(subscription_title), ""@, title_text(texts)] + row(
        match items::present(item.summary) {
            Some(s) => Some(text::trimmed(s)),
            None => None,
        },
    ) + row(
        match items::shown_time(item) {
            Some(t) => Some(t.0 + "："@ + texts.times.label(t.1)),
            None => None,
        },
    ) + row(link_line(item))
}

/// The item as plain text.
pub fn format_push_message(subscription_title: &str, item: &RssPendingItem, texts: &PushTexts) -> (r: String)
    ensures
        r@ == text::joined(message_rows(subscription_title@, *item, *texts), "\n"@),
{
    let mut rows: Vec<String> = Vec::new();
    let mut head = "【RSS 更新】".to_owned();
    head.append(text::trim(subscription_title));
    rows.push(head);
    rows.push("".to_owned());
    rows.push(push_title_text(texts));
    match items::present_text(&item.summary) {
        Some(s) => {
            rows.push(text::trim(s).to_owned());
        },
        None => {},
    }
    match items::item_display_time(item) {
        Some((label, value)) => {
            let mut s = label.to_owned();
            s.append("：");
            s.append(texts.times.get(value).as_str());
            rows.push(s);
        },
        None => {},
    }
    match write_link_line(item) {
        Some(s) => {
            rows.push(s);
        },
        None => {},
    }
    assert(text::views(rows@) =~= message_rows(subscription_title@, *item, *texts));
    text::join(&rows, "\n")
}

pub open spec fn heading(item: RssPendingItem, texts: PushTexts) -> Seq<char> {
    let title = texts.inline.label(title_text(texts));
    match items::present(item.link) {
        Some(link) => "### ["@ + title + "](<"@ + text::trimmed(link) + ">)"@,
        None => "### "@ + title,
    }
}

fn write_heading(item: &RssPendingItem, texts: &PushTexts) -> (r: String)
    ensures
        r@ == heading(*item, *texts),
{
    let plain = push_title_text(texts);
    let title = texts.inline.get(plain.as_str());
    match items::present_text(&item.link) {
        Some(link) => {
            let mut s = "### [".to_owned();
            s.append(title.as_str());
            s.append("](<");
            s.append(text::trim(link));
            s.append(">)");
            s
        },
        None => {
            let mut s = "### ".to_owned();
            s.append(title.as_str());
            s
        },
    }
}

pub open spec fn markdown_rows(
    subscription_title: Seq<char>,
    item: RssPendingItem,
    texts: PushTexts,
) -> Seq<Seq<char>> {
    seq![
        "## RSS 更新："@ + texts.inline.label(text::trimmed(subscription_title)),
        ""@,
        heading(item, texts),
    ] + spaced_row(
        match items::present(item.summary) {
            Some(s) => Some(texts.block.label(text::trimmed(s))),
            None => None,
        },
    ) + spaced_row(
        match items::shown_time(item) {
            Some(t) => Some(t.0 + "：`"@ + texts.times.label(t.1) + "`"@),
            None => None,
        },
    ) + spaced_row(link_line(item))
}

/// The item as Markdown.
pub fn format_push_markdown(subscription_title: &str, item: &RssPendingItem, texts: &PushTexts) -> (r: String)
    ensures
        r@ == text::joined(markdown_rows(subscription_title@, *item, *texts), "\n"@),
{
    let mut rows: Vec<String> = Vec::new();
    let mut head = "## RSS 更新：".to_owned();
    head.append(texts.inline.get(text::trim(subscription_title)).as_str());
    rows.push(head);
    rows.push("".to_owned());
    rows.push(write_heading(item, texts));
    match items::present_text(&item.summary) {
        Some(s) => {
            rows.push("".to_owned());
            rows.push(texts.block.get(text::trim(s)));
        },
        None => {},
    }
    match items::item_display_time(item) {
        Some((label, value)) => {
            let mut s = label.to_owned();
            s.append("：`");
            s.append(texts.times.get(value).as_str());
            s.append("`");
            rows.push("".to_owned());
            rows.push(s);
        },
        None => {},
    }
    match write_link_line(item) {
        Some(s) => {
            rows.push("".to_owned());
            rows.push(s);
        },
        None => {},
    }
    assert(text::views(rows@) =~= markdown_rows(subscription_title@, *item, *texts));
    text::join(&rows, "\n")
}

impl RssScheduler {
    pub closed spec fn config(self) -> RssSchedulerConfig {
        self.config
    }

    pub fn new(config: RssSchedulerConfig) -> (r: Self)
        ensures
            r.config() == config,
    {
        RssScheduler { config }
    }

    /// Whether checks are made at all.
    pub fn is_enabled(&self) -> (r: bool)
        ensures
            r == self.config().enabled,
    {
        self.config.enabled
    }

    /// How often a round of checks starts.
    pub fn round_seconds(&self) -> (r: u64)
        ensures
            r == (if self.config().interval_seconds < 10 {
                10
            } else {
                self.config().interval_seconds
            }),
    {
        items::round_seconds(self.config.interval_seconds)
    }

    pub open spec fn limits(self) -> CheckLimits {
        CheckLimits {
            summary_max_chars: self.config().summary_max_chars,
            seen_retention: self.config().seen_retention,
            max_push_per_subscription: self.config().max_push_per_subscription,
            push_max_failures: self.config().push_max_failures,
        }
    }

    /// What the check of a subscription does next.
    pub fn process_subscription(&self, subscription: &RssSubscription, event: CheckEvent) -> (r: CheckAction)
        ensures
            r == items::next(*subscription, self.limits(), event),
    {
        let limits = CheckLimits {
            summary_max_chars: self.config.summary_max_chars,
            seen_retention: self.config.seen_retention,
            max_push_per_subscription: self.config.max_push_per_subscription,
            push_max_failures: self.config.push_max_failures,
        };
        items::next_action(subscription, limits, event)
    }

    /// The item with its translated fields. What the item is known by stays as it is.
    pub fn translate_item_for_push(&self, item: &RssPendingItem, title: String, summary: String) -> (r: RssPendingItem)
        ensures
            r == (RssPendingItem {
                title,
                summary: if item.summary is Some {
                    Some(summary)
                } else {
                    None
                },
                ..*item
            }),
    {
        let shown = if item.summary.is_some() {
            Some(summary)
        } else {
            None
        };
        item.with_texts(title, shown)
    }

    /// The message that sends the item now, as `shown` shows it.
    pub fn push_item(
        &self,
        subscription: &RssSubscription,
        item: &RssPendingItem,
        shown: &RssPendingItem,
        texts: &PushTexts,
    ) -> (r: NotificationUpsert)
        ensures
            exists|now: Seq<char>, body: PushBody| #[trigger]
                items::is_push_of(
                    r,
                    *subscription,
                    *item,
                    body,
                    self.config().push_message_type@,
                    self.config().push_max_failures,
                    now,
                ) && body.text@ == text::joined(
                    message_rows(subscription.title@, *shown, *texts),
                    "\n"@,
                ) && body.markdown@ == text::joined(
                    markdown_rows(subscription.title@, *shown, *texts),
                    "\n"@,
                ),
    {
        let title = subscription.title.as_str();
        let body = PushBody {
            markdown: format_push_markdown(title, shown, texts),
            text: format_push_message(title, shown, texts),
        };
        let ghost b = body;
        let r = items::push_message(
            subscription,
            item,
            body,
            self.config.push_message_type.as_str(),
            self.config.push_max_failures,
        );
        proof {
            let now = choose|now: Seq<char>| #[trigger]
                items::is_push_of(
                    r,
                    *subscription,
                    *item,
                    b,
                    self.config().push_message_type@,
                    self.config().push_max_failures,
                    now,
                );
            assert(items::is_push_of(
                r,
                *subscription,
                *item,
                b,
                self.config().push_message_type@,
                self.config().push_max_failures,
                now,
            ));
        }
        r
    }
}

} // verus!
