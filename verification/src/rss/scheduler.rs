//! Checking feeds and sending what is new, with summaries that keep their Markdown and, where
//! it is switched on, a translation of titles and summaries.
use vstd::prelude::*;
use vstd::string::*;

use crate::labels::Labels;
use crate::outside;
use crate::push::NotificationUpsert;
use crate::rss::items;
use crate::rss::items::{CheckAction, CheckEvent, CheckLimits, PushBody, RssPendingItem, RssSubscription};
use crate::text;

verus! {

#[derive(Debug)]
pub struct RssSchedulerConfig {
    pub enabled: bool,
    pub translation_enabled: bool,
    pub interval_seconds: u64,
    pub max_push_per_subscription: usize,
    pub summary_max_chars: usize,
    pub seen_retention: usize,
    pub push_max_failures: u32,
    pub push_message_type: String,
}

#[derive(Debug)]
pub struct RssScheduler {
    config: RssSchedulerConfig,
}

/// What other parts made of an item's texts.
#[derive(Debug)]
pub struct PushTexts {
    /// The item's title, cleaned; none where nothing of it is left.
    pub title: Option<String>,
    /// The subscription's title, cleaned in the same way.
    pub subscription_title: Option<String>,
    /// Summaries as plain text.
    pub plain: Labels,
    /// Summaries as the Markdown that the chat shows.
    pub qq: Labels,
    /// Times as they are shown.
    pub times: Labels,
}

// Links.

/// Whether the character is left out of a link.
pub open spec fn breaks_link(c: char) -> bool {
    c == '\n' || c == '\r' || c == '<' || c == '>'
}

pub open spec fn unbroken(s: Seq<char>) -> Seq<char> {
    s.filter(|c: char| !breaks_link(c))
}

/// The link that Markdown can hold, if the text is a web address.
pub open spec fn http_link(s: Seq<char>) -> Option<Seq<char>> {
    let t = text::trimmed(s);
    let lower = text::ascii_lowered(t);
    if t.len() > 0 && (text::starts_with(lower, "https://"@) || text::starts_with(lower, "http://"@)) {
        Some(unbroken(t))
    } else {
        None
    }
}

fn unbroken_text(s: &str) -> (r: String)
    ensures
        r@ == unbroken(s@),
{
    let v = text::chars_of(s);
    let mut out: Vec<char> = Vec::new();
    let mut i: usize = 0;
    let ghost keep = |c: char| !breaks_link(c);
    proof {
        reveal(Seq::filter);
        assert(v@.take(0) =~= Seq::empty());
    }
    while i < v.len()
        invariant
            0 <= i <= v@.len(),
            v@ == s@,
            keep == (|c: char| !breaks_link(c)),
            out@ == s@.take(i as int).filter(keep),
        decreases v@.len() - i,
    {
        let c = v[i];
        proof {
            reveal(Seq::filter);
            assert(s@.take(i + 1).drop_last() =~= s@.take(i as int));
            assert(s@.take(i + 1).last() == c);
            assert(keep(c) == !breaks_link(c));
        }
        if !(c == '\n' || c == '\r' || c == '<' || c == '>') {
            out.push(c);
        }
        i += 1;
    }
    assert(s@.take(i as int) =~= s@);
    text::string_of(&out)
}

pub fn http_markdown_link(raw: &str) -> (r: Option<String>)
    ensures
        text::opt_view(r) == http_link(raw@),
{
    let link = text::trim(raw);
    let lower = text::to_ascii_lowercase(link);
    let len: usize = link.unicode_len();
    if len > 0 && (text::has_prefix(lower.as_str(), "https://") || text::has_prefix(lower.as_str(), "http://")) {
        Some(unbroken_text(link))
    } else {
        None
    }
}

/// The options by which summaries are read: tables, strikethrough and task lists, each a bit of
/// `pulldown_cmark::Options`.
pub const LINK_OPTIONS: u32 = 26;

/// The targets of the links and images of a summary.
pub open spec fn link_targets(s: Seq<char>) -> Seq<Option<Seq<char>>> {
    outside::link_targets(s, LINK_OPTIONS)
}

/// The web addresses among the targets, in their order.
pub open spec fn http_links(targets: Seq<Option<Seq<char>>>) -> Seq<Seq<char>>
    decreases targets.len(),
{
    if targets.len() == 0 {
        Seq::empty()
    } else {
        let before = http_links(targets.drop_last());
        match targets.last() {
            Some(t) => match http_link(t) {
                Some(link) => before.push(link),
                None => before,
            },
            None => before,
        }
    }
}

/// The web addresses among the targets of links and images.
pub fn http_links_of(targets: &Vec<Option<String>>) -> (r: Vec<String>)
    ensures
        text::views(r@) == http_links(outside::option_views(targets@)),
{
    let mut out: Vec<String> = Vec::new();
    let mut i: usize = 0;
    let ghost all = outside::option_views(targets@);
    assert(text::views(out@) =~= http_links(all.take(0)));
    while i < targets.len()
        invariant
            0 <= i <= targets@.len(),
            all == outside::option_views(targets@),
            text::views(out@) == http_links(all.take(i as int)),
        decreases targets@.len() - i,
    {
        let ghost before = out@;
        proof {
            assert(all.take(i + 1).drop_last() =~= all.take(i as int));
            assert(all.take(i + 1).last() == text::opt_view(targets@[i as int]));
        }
        match &targets[i] {
            Some(t) => {
                match http_markdown_link(t.as_str()) {
                    Some(link) => {
                        out.push(link);
                        assert(text::views(out@) =~= text::views(before).push(link@));
                    },
                    None => {},
                }
            },
            None => {},
        }
        i += 1;
    }
    assert(all.take(i as int) =~= all);
    out
}

/// The web addresses that a Markdown text links to.
pub fn markdown_http_links(markdown: &str) -> (r: Vec<String>)
    ensures
        text::views(r@) == http_links(link_targets(markdown@)),
{
    let targets = outside::markdown_link_targets(markdown, LINK_OPTIONS);
    http_links_of(&targets)
}

fn same_texts(a: &Vec<String>, b: &Vec<String>) -> (r: bool)
    ensures
        r == (text::views(a@) == text::views(b@)),
{
    if a.len() != b.len() {
        assert(text::views(a@).len() != text::views(b@).len());
        return false;
    }
    let mut i: usize = 0;
    while i < a.len()
        invariant
            0 <= i <= a@.len(),
            a@.len() == b@.len(),
            forall|k: int| 0 <= k < i ==> text::views(a@)[k] == text::views(b@)[k],
        decreases a@.len() - i,
    {
        if !text::same(a[i].as_str(), b[i].as_str()) {
            assert(text::views(a@)[i as int] != text::views(b@)[i as int]);
            return false;
        }
        i += 1;
    }
    assert(text::views(a@) =~= text::views(b@));
    true
}

/// The summary that is shown: its translation, if that links to the same addresses in the
/// same order.
pub open spec fn summary_source(enabled: bool, summary: Seq<char>, translated: Seq<char>) -> Seq<char> {
    if enabled && http_links(link_targets(summary)) == http_links(
        link_targets(translated),
    ) {
        translated
    } else {
        summary
    }
}

/// The translation, where it has the same links.
pub fn choose_summary<'a>(
    summary: &'a str,
    translated: &'a str,
    summary_targets: &Vec<Option<String>>,
    translated_targets: &Vec<Option<String>>,
) -> (r: &'a str)
    ensures
        r@ == (if http_links(outside::option_views(summary_targets@)) == http_links(
            outside::option_views(translated_targets@),
        ) {
            translated@
        } else {
            summary@
        }),
{
    let a = http_links_of(summary_targets);
    let b = http_links_of(translated_targets);
    if same_texts(&a, &b) {
        translated
    } else {
        summary
    }
}

// What a message says.

/// The character, in a form that Markdown leaves alone.
pub open spec fn wide(c: char) -> char {
    if c == '`' {
        '｀'
    } else if c == '*' {
        '＊'
    } else if c == '_' {
        '＿'
    } else if c == '[' {
        '［'
    } else if c == ']' {
        '］'
    } else if c == '(' {
        '（'
    } else if c == ')' {
        '）'
    } else if c == '<' {
        '＜'
    } else if c == '>' {
        '＞'
    } else if c == '|' {
        '｜'
    } else {
        c
    }
}

pub open spec fn widened(s: Seq<char>) -> Seq<char> {
    Seq::new(s.len(), |i: int| wide(s[i]))
}

fn wide_char(c: char) -> (r: char)
    ensures
        r == wide(c),
{
    if c == '`' {
        '｀'
    } else if c == '*' {
        '＊'
    } else if c == '_' {
        '＿'
    } else if c == '[' {
        '［'
    } else if c == ']' {
        '］'
    } else if c == '(' {
        '（'
    } else if c == ')' {
        '）'
    } else if c == '<' {
        '＜'
    } else if c == '>' {
        '＞'
    } else if c == '|' {
        '｜'
    } else {
        c
    }
}

pub fn markdown_inline_text(raw: &str) -> (r: String)
    ensures
        r@ == widened(raw@),
{
    let v = text::chars_of(raw);
    let mut out: Vec<char> = Vec::new();
    let mut i: usize = 0;
    while i < v.len()
        invariant
            0 <= i <= v@.len(),
            v@ == raw@,
            out@ == widened(raw@).take(i as int),
        decreases v@.len() - i,
    {
        let c = wide_char(v[i]);
        out.push(c);
        assert(out@ =~= widened(raw@).take(i + 1));
        i += 1;
    }
    assert(widened(raw@).take(i as int) =~= widened(raw@));
    text::string_of(&out)
}

pub open spec fn or_else(o: Option<String>, other: Seq<char>) -> Seq<char> {
    match o {
        Some(s) => s@,
        None => other,
    }
}

fn text_or(o: &Option<String>, other: &str) -> (r: String)
    ensures
        r@ == or_else(*o, other@),
{
    match o {
        Some(s) => s.clone(),
        None => other.to_owned(),
    }
}

/// The line that says when the item was last touched, if that is known.
pub open spec fn time_line(item: RssPendingItem, texts: PushTexts) -> Option<Seq<char>> {
    match items::shown_time(item) {
        Some(t) => Some(t.0 + "："@ + texts.times.label(t.1)),
        None => None,
    }
}

fn write_time_line(item: &RssPendingItem, texts: &PushTexts) -> (r: Option<String>)
    ensures
        text::opt_view(r) == time_line(*item, *texts),
{
    match items::item_display_time(item) {
        Some((label, value)) => {
            let mut s = label.to_owned();
            s.append("：");
            s.append(texts.times.get(value).as_str());
            Some(s)
        },
        None => None,
    }
}

/// The summary as `labels` shows it, unless nothing is left of it.
pub open spec fn summary_text(item: RssPendingItem, labels: Labels) -> Option<Seq<char>> {
    match items::present(item.summary) {
        Some(s) => if labels.label(text::trimmed(s)).len() > 0 {
            Some(labels.label(text::trimmed(s)))
        } else {
            None
        },
        None => None,
    }
}

fn show_summary(item: &RssPendingItem, labels: &Labels) -> (r: Option<String>)
    ensures
        text::opt_view(r) == summary_text(*item, *labels),
{
    match items::present_text(&item.summary) {
        Some(s) => {
            let shown = labels.get(text::trim(s));
            let len: usize = shown.as_str().unicode_len();
            if len > 0 {
                Some(shown)
            } else {
                None
            }
        },
        None => None,
    }
}

/// The line, if there is one.
pub open spec fn row(o: Option<Seq<char>>) -> Seq<Seq<char>> {
    match o {
        Some(s) => seq![s],
        None => Seq::empty(),
    }
}

/// The line behind an empty one, if there is one.
pub open spec fn spaced_row(o: Option<Seq<char>>) -> Seq<Seq<char>> {
    match o {
        Some(s) => seq![""@, s],
        None => Seq::empty(),
    }
}

pub open spec fn message_rows(item: RssPendingItem, texts: PushTexts) -> Seq<Seq<char>> {
    seq![
        "【RSS 更新】"@ + or_else(texts.subscription_title, "未命名订阅"@),
        ""@,
        or_else(texts.title, "无标题"@),
    ] + row(summary_text(item, texts.plain)) + row(time_line(item, texts)) + row(
        match items::present(item.link) {
            Some(link) => Some("链接："@ + link),
            None => None,
        },
    )
}

/// The item as plain text.
pub fn format_push_message(item: &RssPendingItem, texts: &PushTexts) -> (r: String)
    ensures
        r@ == text::joined(message_rows(*item, *texts), "\n"@),
{
    let mut rows: Vec<String> = Vec::new();
    let mut head = "【RSS 更新】".to_owned();
    head.append(text_or(&texts.subscription_title, "未命名订阅").as_str());
    rows.push(head);
    rows.push("".to_owned());
    rows.push(text_or(&texts.title, "无标题"));
    match show_summary(item, &texts.plain) {
        Some(s) => {
            rows.push(s);
        },
        None => {},
    }
    match write_time_line(item, texts) {
        Some(s) => {
            rows.push(s);
        },
        None => {},
    }
    match items::present_text(&item.link) {
        Some(link) => {
            let mut s = "链接：".to_owned();
            s.append(link);
            rows.push(s);
        },
        None => {},
    }
    assert(text::views(rows@) =~= message_rows(*item, *texts));
    text::join(&rows, "\n")
}

pub open spec fn item_link(item: RssPendingItem) -> Option<Seq<char>> {
    match item.link {
        Some(s) => http_link(s@),
        None => None,
    }
}

pub open spec fn heading(title: Seq<char>, link: Option<Seq<char>>) -> Seq<char> {
    match link {
        Some(l) => "### ["@ + title + "](<"@ + l + ">)"@,
        None => "### "@ + title,
    }
}

pub open spec fn markdown_rows(item: RssPendingItem, texts: PushTexts) -> Seq<Seq<char>> {
    let link = item_link(item);
    seq![
        "## RSS 更新："@ + widened(or_else(texts.subscription_title, "未命名订阅"@)),
        ""@,
        heading(widened(or_else(texts.title, "无标题"@)), link),
    ] + spaced_row(summary_text(item, texts.qq)) + spaced_row(time_line(item, texts)) + spaced_row(
        match link {
            Some(l) => Some("原文：[查看条目](<"@ + l + ">)"@),
            None => None,
        },
    )
}

fn write_heading(title: &str, link: &Option<String>) -> (r: String)
    ensures
        r@ == heading(title@, text::opt_view(*link)),
{
    match link {
        Some(l) => {
            let mut s = "### [".to_owned();
            s.append(title);
            s.append("](<");
            s.append(l.as_str());
            s.append(">)");
            s
        },
        None => {
            let mut s = "### ".to_owned();
            s.append(title);
            s
        },
    }
}

/// The item as Markdown.
pub fn format_push_markdown(item: &RssPendingItem, texts: &PushTexts) -> (r: String)
    ensures
        r@ == text::joined(markdown_rows(*item, *texts), "\n"@),
{
    let title = markdown_inline_text(text_or(&texts.title, "无标题").as_str());
    let subscription_title = markdown_inline_text(
        text_or(&texts.subscription_title, "未命名订阅").as_str(),
    );
    let link = match &item.link {
        Some(s) => http_markdown_link(s.as_str()),
        None => None,
    };
    let mut rows: Vec<String> = Vec::new();
    let mut head = "## RSS 更新：".to_owned();
    head.append(subscription_title.as_str());
    rows.push(head);
    rows.push("".to_owned());
    rows.push(write_heading(title.as_str(), &link));
    match show_summary(item, &texts.qq) {
        Some(s) => {
            rows.push("".to_owned());
            rows.push(s);
        },
        None => {},
    }
    match write_time_line(item, texts) {
        Some(s) => {
            rows.push("".to_owned());
            rows.push(s);
        },
        None => {},
    }
    match &link {
        Some(l) => {
            let mut s = "原文：[查看条目](<".to_owned();
            s.append(l.as_str());
            s.append(">)");
            rows.push("".to_owned());
            rows.push(s);
        },
        None => {},
    }
    assert(text::views(rows@) =~= markdown_rows(*item, *texts));
    text::join(&rows, "\n")
}

impl RssScheduler {
    pub closed spec fn config(self) -> RssSchedulerConfig {
        self.config
    }

    pub fn new(config: RssSchedulerConfig) -> (r: Self)
        ensures
            r.config() == config,
    {
        RssScheduler { config }
    }

    /// Whether checks are made at all.
    pub fn is_enabled(&self) -> (r: bool)
        ensures
            r == self.config().enabled,
    {
        self.config.enabled
    }

    /// Whether translations are asked for.
    pub fn is_translating(&self) -> (r: bool)
        ensures
            r == self.config().translation_enabled,
    {
        self.config.translation_enabled
    }

    /// How often a round of checks starts.
    pub fn round_seconds(&self) -> (r: u64)
        ensures
            r == (if self.config().interval_seconds < 10 {
                10
            } else {
                self.config().interval_seconds
            }),
    {
        items::round_seconds(self.config.interval_seconds)
    }

    pub open spec fn limits(self) -> CheckLimits {
        CheckLimits {
            summary_max_chars: self.config().summary_max_chars,
            seen_retention: self.config().seen_retention,
            max_push_per_subscription: self.config().max_push_per_subscription,
            push_max_failures: self.config().push_max_failures,
        }
    }

    /// What the check of a subscription does next.
    pub fn process_subscription(&self, subscription: &RssSubscription, event: CheckEvent) -> (r: CheckAction)
        ensures
            r == items::next(*subscription, self.limits(), event),
    {
        let limits = CheckLimits {
            summary_max_chars: self.config.summary_max_chars,
            seen_retention: self.config.seen_retention,
            max_push_per_subscription: self.config.max_push_per_subscription,
            push_max_failures: self.config.push_max_failures,
        };
        items::next_action(subscription, limits, event)
    }

    /// The item as it is shown. `title` and `summary` are its translated fields, which count
    /// only where translation is switched on; `rendered` shows a summary as the chat does, within
    /// the configured length.
    /// What the item is known by stays as it is.
    pub fn translate_item_for_push(
        &self,
        item: &RssPendingItem,
        title: &str,
        summary: &str,
        rendered: &Labels,
    ) -> (r: RssPendingItem)
        ensures
            r == (RssPendingItem { title: r.title, summary: r.summary, ..*item }),
            r.title@ == (if self.config().translation_enabled {
                title@
            } else {
                item.title@
            }),
            text::opt_view(r.summary) == (match item.summary {
                Some(s) => Some(
                    rendered.label(
                        summary_source(self.config().translation_enabled, s@, summary@),
                    ),
                ),
                None => None,
            }),
    {
        let shown_title = if self.config.translation_enabled {
            title.to_owned()
        } else {
            item.title.clone()
        };
        let shown_summary = match &item.summary {
            Some(s) => {
                if self.config.translation_enabled {
                    let before = outside::markdown_link_targets(s.as_str(), LINK_OPTIONS);
                    let after = outside::markdown_link_targets(summary, LINK_OPTIONS);
                    Some(rendered.get(choose_summary(s.as_str(), summary, &before, &after)))
                } else {
                    Some(rendered.get(s.as_str()))
                }
            },
            None => None,
        };
        item.with_texts(shown_title, shown_summary)
    }

    /// The message that sends the item now, as `shown` shows it.
    pub fn push_item(
        &self,
        subscription: &RssSubscription,
        item: &RssPendingItem,
        shown: &RssPendingItem,
        texts: &PushTexts,
    ) -> (r: NotificationUpsert)
        ensures
            exists|now: Seq<char>, body: PushBody| #[trigger]
                items::is_push_of(
                    r,
                    *subscription,
                    *item,
                    body,
                    self.config().push_message_type@,
                    self.config().push_max_failures,
                    now,
                ) && body.text@ == text::joined(message_rows(*shown, *texts), "\n"@)
                    && body.markdown@ == text::joined(markdown_rows(*shown, *texts), "\n"@),
    {
        let body = PushBody {
            markdown: format_push_markdown(shown, texts),
            text: format_push_message(shown, texts),
        };
        let ghost b = body;
        let r = items::push_message(
            subscription,
            item,
            body,
            self.config.push_message_type.as_str(),
            self.config.push_max_failures,
        );
        proof {
            let now = choose|now: Seq<char>| #[trigger]
                items::is_push_of(
                    r,
                    *subscription,
                    *item,
                    b,
                    self.config().push_message_type@,
                    self.config().push_max_failures,
                    now,
                );
            assert(items::is_push_of(
                r,
                *subscription,
                *item,
                b,
                self.config().push_message_type@,
                self.config().push_max_failures,
                now,
            ));
        }
        r
    }
}

/// A summary is never shown with links that its feed did not give, whatever a translation
/// says.
pub proof fn shown_links_are_the_feeds_links(enabled: bool, summary: Seq<char>, translated: Seq<char>)
    ensures
        http_links(link_targets(summary_source(enabled, summary, translated))) == http_links(
            link_targets(summary),
        ),
{
}

} // verus!
