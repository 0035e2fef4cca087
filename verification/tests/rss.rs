//! Feeds: what is shown of their items, how they are checked and how they are managed.
use qq_maid_core::json::Json;
use qq_maid_core::labels::Labels;
use qq_maid_core::markdown::{escape_markdown_inline, escape_markdown_text};
use qq_maid_core::push::{NotificationUpsert, PushTargetType};
use qq_maid_core::rss::arguments::{
    extract_url_from_line, parse_limit, parse_query, parse_raw_add_entries, parse_tool_add_entries,
    parse_tool_delete_targets, strip_list_marker, validate_url,
};
use qq_maid_core::rss::items::{
    check_delay_millis, item_to_mark_pushed, next_action, round_seconds, rss_dedupe_key, short_id,
    translate_rss_field, translated_or_source, ChatScene, CheckAction, CheckEvent, CheckLimits,
    RssPendingItem, RssSubscription, RssTargetType, TranslationPurpose, TranslationRequest,
    TranslationStep,
};
use qq_maid_core::rss::plain_scheduler;
use qq_maid_core::rss::scheduler;
use qq_maid_core::rss::tool::{
    add_output, delete_output, feed_error_reply, format_manage_message, plan_delete,
    resolve_subscription_target, rss_store_error, AddAction, AddEvent, AddResult, ConversationKind,
    DeleteResult, ManageRequest, RssFeedError, RssManageSubscriptionsTool, RssRecentItem,
    RssRecentItemsTool, ToolContext,
};

fn labels(entries: &[(&str, &str)]) -> Labels {
    let mut labels = Labels::new();
    for (text, label) in entries {
        labels.insert((*text).to_owned(), (*label).to_owned());
    }
    labels
}

fn times() -> Labels {
    labels(&[
        ("2026-06-17T00:00:00+00:00", "2026-06-17 08:00"),
        ("2026-07-08T00:00:00+00:00", "2026-07-08 08:00"),
        ("2026-07-10T10:02:00Z", "2026-07-10 18:02"),
    ])
}

/// The first sentence of a title on one line, unless it says nothing.
fn cleaned(title: &str) -> Option<String> {
    let line = title.split('。').next().unwrap().replace('\n', " ");
    let line = line.trim();
    if line.is_empty() || line == "null" {
        None
    } else {
        Some(line.to_owned())
    }
}

fn looks_chinese(text: &str) -> bool {
    text.chars().any(|c| ('\u{4e00}'..='\u{9fff}').contains(&c))
}

fn pending_item(title: &str, summary: Option<&str>) -> RssPendingItem {
    RssPendingItem {
        subscription_id: "s1".to_owned(),
        item_key: "key:stable".to_owned(),
        revision_hash: "rev:stable".to_owned(),
        title: title.to_owned(),
        link: Some("https://example.test/a".to_owned()),
        published_at: None,
        updated_at: None,
        summary: summary.map(str::to_owned),
        failed_count: 0,
    }
}

fn shown_item(
    title: &str,
    link: Option<&str>,
    published_at: Option<&str>,
    updated_at: Option<&str>,
    summary: Option<&str>,
) -> RssPendingItem {
    RssPendingItem {
        subscription_id: "s1".to_owned(),
        item_key: "k1".to_owned(),
        revision_hash: "r1".to_owned(),
        title: title.to_owned(),
        link: link.map(str::to_owned),
        published_at: published_at.map(str::to_owned),
        updated_at: updated_at.map(str::to_owned),
        summary: summary.map(str::to_owned),
        failed_count: 0,
    }
}

fn subscription() -> RssSubscription {
    RssSubscription {
        id: "s1".to_owned(),
        target_type: RssTargetType::Group,
        target_id: "g1".to_owned(),
        scope_key: "group:g1".to_owned(),
        url: "https://example.test/feed.xml".to_owned(),
        title: "订阅".to_owned(),
        enabled: true,
        created_at: "2026-06-18T00:00:00+08:00".to_owned(),
        last_checked_at: None,
        last_success_at: None,
        last_error: None,
        consecutive_failures: 0,
        initialized: true,
    }
}

/// Answers requests for a translation in turn; `None` is a failure.
struct Translator {
    replies: Vec<Option<&'static str>>,
    requests: Vec<(TranslationRequest, ChatScene)>,
}

impl Translator {
    fn new(replies: Vec<Option<&'static str>>) -> Self {
        Translator {
            replies,
            requests: Vec::new(),
        }
    }

    fn field(
        &mut self,
        subscription: &RssSubscription,
        item: &RssPendingItem,
        field: &str,
        source: &str,
        purpose: TranslationPurpose,
    ) -> String {
        let step = translate_rss_field(
            subscription,
            item,
            field,
            source,
            purpose,
            looks_chinese(source.trim()),
            4000,
        );
        match step {
            TranslationStep::Keep { text } => text,
            TranslationStep::Ask { request, scene } => {
                self.requests.push((request, scene));
                let reply = self.replies.remove(0);
                translated_or_source(source, reply.map(str::to_owned))
            }
        }
    }

    fn fields(&mut self, subscription: &RssSubscription, item: &RssPendingItem) -> (String, String) {
        let title = self.field(
            subscription,
            item,
            "title",
            &item.title,
            TranslationPurpose::RssTitle,
        );
        let summary = match &item.summary {
            Some(summary) => self.field(
                subscription,
                item,
                "summary",
                summary,
                TranslationPurpose::RssSummary,
            ),
            None => String::new(),
        };
        (title, summary)
    }
}

fn metadata<'a>(request: &'a TranslationRequest, key: &str) -> &'a str {
    &request.metadata.iter().find(|entry| entry.0 == key).unwrap().1
}

// The scheduler that writes plain Markdown.

fn plain(message_type: &str) -> plain_scheduler::RssScheduler {
    plain_scheduler::RssScheduler::new(plain_scheduler::RssSchedulerConfig {
        enabled: true,
        interval_seconds: 300,
        max_push_per_subscription: 3,
        summary_max_chars: 500,
        seen_retention: 500,
        push_max_failures: 3,
        push_message_type: message_type.to_owned(),
    })
}

fn plain_texts(subscription_title: &str, item: &RssPendingItem) -> plain_scheduler::PushTexts {
    let title = cleaned(&item.title);
    let mut inline = Labels::new();
    for text in [subscription_title.trim(), title.as_deref().unwrap_or("无标题")] {
        inline.insert(text.to_owned(), escape_markdown_inline(text));
    }
    let mut block = Labels::new();
    if let Some(summary) = &item.summary {
        block.insert(summary.trim().to_owned(), escape_markdown_text(summary.trim()));
    }
    plain_scheduler::PushTexts {
        title,
        inline,
        block,
        times: times(),
    }
}

fn plain_message(subscription_title: &str, item: &RssPendingItem) -> String {
    let texts = plain_texts(subscription_title, item);
    plain_scheduler::format_push_message(subscription_title, item, &texts)
}

fn plain_markdown(subscription_title: &str, item: &RssPendingItem) -> String {
    let texts = plain_texts(subscription_title, item);
    plain_scheduler::format_push_markdown(subscription_title, item, &texts)
}

fn plain_translate(translator: &mut Translator, item: &RssPendingItem) -> RssPendingItem {
    let (title, summary) = translator.fields(&subscription(), item);
    plain("markdown").translate_item_for_push(item, title, summary)
}

fn plain_push(
    scheduler: &plain_scheduler::RssScheduler,
    translator: &mut Translator,
    subscription: &RssSubscription,
    item: &RssPendingItem,
) -> NotificationUpsert {
    let (title, summary) = translator.fields(subscription, item);
    let shown = scheduler.translate_item_for_push(item, title, summary);
    let texts = plain_texts(&subscription.title, &shown);
    scheduler.push_item(subscription, item, &shown, &texts)
}

#[test]
fn scheduler_rss_translation_success_uses_display_copy_only() {
    let mut translator = Translator::new(vec![Some("中文标题"), Some("中文摘要")]);
    let item = pending_item("English title", Some("English summary"));

    let translated = plain_translate(&mut translator, &item);

    assert_eq!(translated.title, "中文标题");
    assert_eq!(translated.summary.as_deref(), Some("中文摘要"));
    assert_eq!(translated.item_key, item.item_key);
    assert_eq!(translated.revision_hash, item.revision_hash);
    assert_eq!(translator.requests.len(), 2);
    assert_eq!(translator.requests[0].0.purpose, TranslationPurpose::RssTitle);
    assert_eq!(translator.requests[1].0.purpose, TranslationPurpose::RssSummary);
    assert_eq!(metadata(&translator.requests[0].0, "rss_field"), "title");
    assert_eq!(metadata(&translator.requests[1].0, "rss_field"), "summary");
}

#[test]
fn scheduler_rss_translation_falls_back_per_field() {
    let mut translator = Translator::new(vec![Some("中文标题"), None]);
    let item = pending_item("English title", Some("English summary"));

    let translated = plain_translate(&mut translator, &item);

    assert_eq!(translated.title, "中文标题");
    assert_eq!(translated.summary.as_deref(), Some("English summary"));
}

#[test]
fn scheduler_rss_chinese_title_and_summary_skip_translation_model() {
    let mut translator = Translator::new(Vec::new());
    let item = pending_item("中文标题", Some("这是一段中文摘要"));

    let translated = plain_translate(&mut translator, &item);

    assert_eq!(translated.title, "中文标题");
    assert_eq!(translated.summary.as_deref(), Some("这是一段中文摘要"));
    assert_eq!(translator.requests.len(), 0);
}

const RELEASE_TITLE_REPLY: &str = "v0.14.2。最终回答要求：如果正确的下一步输出是普通的助手文本最终回答，请不要调用 tool_call。";

fn release_subscription() -> RssSubscription {
    let mut release = subscription();
    release.url = "https://example.test/releases.xml".to_owned();
    release.title = "Release notes from qq-maid-bot".to_owned();
    release
}

fn release_item() -> RssPendingItem {
    let mut item = pending_item(
        "v0.14.2",
        Some("What's Changed\n\ncpa_final_answer\ntool_call\nCPA final answer\n最终回答要求\n如果正确的下一步输出是普通的助手文本最终回答"),
    );
    item.item_key = "release-v0.14.2".to_owned();
    item.revision_hash = "rev:release-v0.14.2".to_owned();
    item.link = Some("https://github.com/kuliantnt/qq-maid-bot/releases/tag/v0.14.2".to_owned());
    item.published_at = Some("2026-07-08T00:00:00+00:00".to_owned());
    item
}

#[test]
fn scheduler_rss_push_end_to_end_keeps_release_title_when_summary_contains_protocol_text() {
    let mut translator = Translator::new(vec![Some(RELEASE_TITLE_REPLY)]);
    let item = release_item();

    let task = plain_push(
        &plain("markdown"),
        &mut translator,
        &release_subscription(),
        &item,
    );
    let markdown = task.text.as_str();

    assert_eq!(task.dedupe_key, rss_dedupe_key(&release_subscription(), &item));
    assert!(markdown.contains(
        "[v0.14.2](<https://github.com/kuliantnt/qq-maid-bot/releases/tag/v0.14.2>)"
    ));
    assert!(!markdown.contains("[v0.14.2。最终回答要求"));
    assert!(!markdown.contains("[cpa_final_answer]"));
    assert!(!markdown.contains("[tool_call]"));
    assert!(markdown.contains(r"cpa\_final\_answer"));
    assert!(markdown.contains(r"tool\_call"));
    assert!(markdown.contains("最终回答要求"));
}

#[test]
fn scheduler_rss_translation_failure_still_queues_notification_and_marks_rss_item_processed() {
    let mut translator = Translator::new(vec![None, None]);
    let item = pending_item("English title", Some("English summary"));

    let task = plain_push(&plain("text"), &mut translator, &subscription(), &item);

    assert_eq!(
        item_to_mark_pushed(&subscription(), &item, true),
        Some(("s1".to_owned(), "key:stable".to_owned()))
    );
    assert_eq!(item_to_mark_pushed(&subscription(), &item, false), None);
    assert_eq!(task.dedupe_key, rss_dedupe_key(&subscription(), &item));
    assert_eq!(task.source_type, "rss");
    assert_eq!(task.kind, "rss_update");
    assert_eq!(task.target.target_id, "g1");
    assert_eq!(task.message_type, "text");
    assert_eq!(task.text, task.fallback_text);
    assert!(task.text.contains("English title"));
}

#[test]
fn scheduler_rss_notification_uses_subscription_target_not_scope_payload() {
    let mut subscription = subscription();
    subscription.scope_key = "platform:qq_official:account:app-1:group:stale-group".to_owned();
    subscription.target_id = "current-group".to_owned();
    let item = pending_item("中文标题", Some("中文摘要"));

    let task = plain_push(
        &plain("markdown"),
        &mut Translator::new(Vec::new()),
        &subscription,
        &item,
    );

    assert_eq!(
        task.target.scope_key,
        "platform:qq_official:account:app-1:group:stale-group"
    );
    assert_eq!(task.target.target_type, PushTargetType::Group);
    assert_eq!(task.target.target_id, "current-group");
}

#[test]
fn scheduler_rss_notification_uses_stable_dedupe_key_for_same_revision() {
    let item = pending_item("中文标题", Some("中文摘要"));
    let push = || {
        plain_push(
            &plain("markdown"),
            &mut Translator::new(Vec::new()),
            &subscription(),
            &item,
        )
    };
    let first = push();
    let second = push();

    assert_eq!(first.dedupe_key, second.dedupe_key);
    assert_eq!(second.dedupe_key, rss_dedupe_key(&subscription(), &item));
    assert_eq!(second.target.target_type, PushTargetType::Group);
    assert_eq!(second.target.target_id, "g1");
}

#[test]
fn scheduler_push_message_omits_empty_summary() {
    let item = shown_item("文章标题", Some("https://example.test/a"), None, None, None);

    let text = plain_message("订阅", &item);
    assert!(text.contains("【RSS 更新】订阅"));
    assert!(text.contains("文章标题"));
    assert!(text.contains("链接：https://example.test/a"));
}

#[test]
fn markdown_push_message_contains_link() {
    let item = shown_item(
        "文章标题",
        Some("https://example.test/a"),
        Some("2026-06-17T00:00:00+00:00"),
        Some("2026-06-17T00:00:00+00:00"),
        Some("摘要"),
    );

    let text = plain_markdown("订阅", &item);
    assert!(text.contains("## RSS 更新：订阅"));
    assert!(text.contains("[文章标题](<https://example.test/a>)"));
    assert!(text.contains("摘要"));
}

#[test]
fn scheduler_push_messages_keep_original_link_with_summary() {
    let item = shown_item(
        "文章标题",
        Some("https://example.test/original"),
        None,
        None,
        Some("短摘要"),
    );

    let text = plain_message("订阅", &item);
    let markdown = plain_markdown("订阅", &item);

    assert!(text.contains("短摘要"));
    assert!(text.contains("链接：https://example.test/original"));
    assert!(markdown.contains("[文章标题](<https://example.test/original>)"));
    assert!(markdown.contains("链接：https://example.test/original"));
}

#[test]
fn push_markdown_escapes_title_and_preserves_link() {
    let item = shown_item(
        "v0.14.2\n[测试](1)",
        Some("https://example.test/release_(1)?q=[a]"),
        None,
        None,
        Some("cpa_final_answer 只作为正文"),
    );

    let markdown = plain_markdown("订阅 [测试]", &item);

    assert!(markdown.contains("## RSS 更新：订阅 \\[测试\\]"));
    assert!(
        markdown.contains(r"[v0.14.2 \[测试\]\(1\)](<https://example.test/release_(1)?q=[a]>)")
    );
    assert!(markdown.contains(r"cpa\_final\_answer 只作为正文"));
    assert!(!markdown.contains("\n[测试](1)]("));
}

#[test]
fn scheduler_push_messages_preserve_summary_line_breaks() {
    let item = shown_item(
        "文章标题",
        Some("https://example.test/a"),
        None,
        None,
        Some("Status: Resolved\n\nAffected components\n\n* Files\n* Search"),
    );

    let text = plain_message("订阅", &item);
    let markdown = plain_markdown("订阅", &item);

    assert!(text.contains("Status: Resolved\n\nAffected components"));
    assert!(text.contains("* Files\n* Search"));
    assert!(markdown.contains("Status: Resolved  \n  \nAffected components"));
    assert!(markdown.contains("\\* Files"));
    assert!(markdown.contains("\\* Search"));
}

#[test]
fn scheduler_push_messages_localize_published_at_for_display_only() {
    let item = shown_item(
        "文章标题",
        Some("https://example.test/a"),
        Some("2026-06-17T00:00:00+00:00"),
        Some("2026-06-17T00:00:00+00:00"),
        None,
    );

    let text = plain_message("订阅", &item);
    let markdown = plain_markdown("订阅", &item);

    assert_eq!(item.published_at.as_deref(), Some("2026-06-17T00:00:00+00:00"));
    assert!(text.contains("更新时间：2026-06-17 08:00"));
    assert!(markdown.contains("更新时间：`2026-06-17 08:00`"));
}

#[test]
fn scheduler_push_messages_keep_original_published_at_when_parse_fails() {
    let item = shown_item(
        "文章标题",
        Some("https://example.test/a"),
        Some("无法解析的发布时间"),
        Some("无法解析的更新时间"),
        None,
    );

    let text = plain_message("订阅", &item);
    let markdown = plain_markdown("订阅", &item);

    assert!(text.contains("更新时间：无法解析的更新时间"));
    assert!(markdown.contains("更新时间：`无法解析的更新时间`"));
}

// The scheduler that writes the Markdown of the chat.

fn rich(translation_enabled: bool, message_type: &str) -> scheduler::RssScheduler {
    scheduler::RssScheduler::new(scheduler::RssSchedulerConfig {
        enabled: true,
        translation_enabled,
        interval_seconds: 300,
        max_push_per_subscription: 3,
        summary_max_chars: 500,
        seen_retention: 500,
        push_max_failures: 3,
        push_message_type: message_type.to_owned(),
    })
}

fn rich_texts(subscription_title: &str, item: &RssPendingItem) -> scheduler::PushTexts {
    scheduler::PushTexts {
        title: cleaned(&item.title),
        subscription_title: cleaned(subscription_title),
        plain: labels(&[
            (
                "Status: Resolved\n\nAffected components\n\n* Files\n* Search",
                "Status: Resolved\n\nAffected components\n\n• Files\n• Search",
            ),
            (
                RELEASE_NOTES,
                "What's Changed\n\n• docs: 重构 README by @kuliantnt（https://example.test/kuliantnt） in #408（https://example.test/pull/408）\n• 修复待办详情清除与虚假成功确认",
            ),
            (
                "## What's Changed\n\n- by [maintainer](<https://example.test/maintainer>)",
                "What's Changed\n\n• by maintainer（https://example.test/maintainer）",
            ),
        ]),
        qq: labels(&[(
            "Status: Resolved\n\nAffected components\n\n* Files\n* Search",
            "Status: Resolved\n\nAffected components\n\n- Files\n- Search",
        )]),
        times: times(),
    }
}

const RELEASE_NOTES: &str = "## What's Changed\n\n- docs: 重构 README by [@kuliantnt](<https://example.test/kuliantnt>) in [#408](<https://example.test/pull/408>)\n- 修复待办详情清除与虚假成功确认";

fn rich_message(subscription_title: &str, item: &RssPendingItem) -> String {
    scheduler::format_push_message(item, &rich_texts(subscription_title, item))
}

fn rich_markdown(subscription_title: &str, item: &RssPendingItem) -> String {
    scheduler::format_push_markdown(item, &rich_texts(subscription_title, item))
}

fn rendered() -> Labels {
    labels(&[
        ("English **summary**", "English summary"),
        (
            "## 更新内容\n\n* 由 [维护者](https://example.test/maintainer) 发布\n* 运行 `cargo test`",
            "## 更新内容\n\n- 由 [维护者](<https://example.test/maintainer>) 发布\n- 运行 `cargo test`",
        ),
    ])
}

fn rich_translate(
    scheduler: &scheduler::RssScheduler,
    translator: &mut Translator,
    item: &RssPendingItem,
) -> RssPendingItem {
    let (title, summary) = translator.fields(&subscription(), item);
    scheduler.translate_item_for_push(item, &title, &summary, &rendered())
}

fn rich_push(
    scheduler: &scheduler::RssScheduler,
    translator: &mut Translator,
    subscription: &RssSubscription,
    item: &RssPendingItem,
) -> NotificationUpsert {
    let (title, summary) = translator.fields(subscription, item);
    let shown = scheduler.translate_item_for_push(item, &title, &summary, &rendered());
    let texts = rich_texts(&subscription.title, &shown);
    scheduler.push_item(subscription, item, &shown, &texts)
}

#[test]
fn rss_translation_is_disabled_by_default_switch() {
    let item = pending_item("English title", Some("English **summary**"));

    let scheduler = rich(false, "markdown");
    assert!(!scheduler.is_translating());
    let display = scheduler.translate_item_for_push(&item, "", "", &rendered());

    assert_eq!(display.title, "English title");
    assert_eq!(display.summary.as_deref(), Some("English summary"));
}

#[test]
fn rss_translation_uses_subscription_scene_aux_model() {
    let mut translator = Translator::new(vec![Some("中文标题")]);
    let item = pending_item("English title", None);

    let display = rich_translate(&rich(true, "markdown"), &mut translator, &item);

    assert_eq!(display.title, "中文标题");
    assert_eq!(translator.requests[0].1, ChatScene::Group);
}

#[test]
fn scheduler_tests_rss_translation_success_uses_display_copy_only() {
    let mut translator = Translator::new(vec![Some("中文标题"), Some("中文摘要")]);
    let item = pending_item("English title", Some("English summary"));

    let translated = rich_translate(&rich(true, "markdown"), &mut translator, &item);

    assert_eq!(translated.title, "中文标题");
    assert_eq!(translated.summary.as_deref(), Some("中文摘要"));
    assert_eq!(translated.item_key, item.item_key);
    assert_eq!(translated.revision_hash, item.revision_hash);
    assert_eq!(translator.requests.len(), 2);
    assert_eq!(translator.requests[0].0.purpose, TranslationPurpose::RssTitle);
    assert_eq!(translator.requests[1].0.purpose, TranslationPurpose::RssSummary);
}

#[test]
fn scheduler_tests_rss_translation_falls_back_per_field() {
    let mut translator = Translator::new(vec![Some("中文标题"), None]);
    let item = pending_item("English title", Some("English summary"));

    let translated = rich_translate(&rich(true, "markdown"), &mut translator, &item);

    assert_eq!(translated.title, "中文标题");
    assert_eq!(translated.summary.as_deref(), Some("English summary"));
}

#[test]
fn rss_translation_rerenders_release_markdown_and_preserves_links() {
    let mut translator = Translator::new(vec![
        Some("中文标题"),
        Some("## 更新内容\n\n* 由 [维护者](https://example.test/maintainer) 发布\n* 运行 `cargo test`"),
    ]);
    let item = pending_item(
        "Release title",
        Some("## What's Changed\n\n- by [maintainer](<https://example.test/maintainer>)\n- run `cargo test`"),
    );

    let translated = rich_translate(&rich(true, "markdown"), &mut translator, &item);
    let summary = translated.summary.as_deref().unwrap();

    assert!(summary.starts_with("## 更新内容"));
    assert!(summary.contains("- 由 [维护者](<https://example.test/maintainer>) 发布"));
    assert!(summary.contains("- 运行 `cargo test`"));
    assert_eq!(
        scheduler::markdown_http_links(summary),
        scheduler::markdown_http_links(item.summary.as_deref().unwrap())
    );
}

#[test]
fn rss_translation_with_broken_link_falls_back_to_safe_original_summary() {
    let mut translator = Translator::new(vec![
        Some("中文标题"),
        Some("## 更新内容\n\n- [维护者](https://changed.test/broken"),
    ]);
    let item = pending_item(
        "Release title",
        Some("## What's Changed\n\n- by [maintainer](<https://example.test/maintainer>)"),
    );

    let translated = rich_translate(&rich(true, "markdown"), &mut translator, &item);
    let summary = translated.summary.as_deref().unwrap();

    assert_eq!(summary, item.summary.as_deref().unwrap());
    assert!(!summary.contains("changed.test"));
    assert_eq!(summary.matches("](<").count(), summary.matches(">)").count());
    assert!(!rich_message("订阅", &translated).contains("](<"));
}

#[test]
fn scheduler_tests_rss_chinese_title_and_summary_skip_translation_model() {
    let mut translator = Translator::new(Vec::new());
    let item = pending_item("中文标题", Some("这是一段中文摘要"));

    let translated = rich_translate(&rich(true, "markdown"), &mut translator, &item);

    assert_eq!(translated.title, "中文标题");
    assert_eq!(translated.summary.as_deref(), Some("这是一段中文摘要"));
    assert_eq!(translator.requests.len(), 0);
}

#[test]
fn scheduler_tests_rss_push_end_to_end_keeps_release_title_when_summary_contains_protocol_text() {
    let mut translator = Translator::new(vec![Some(RELEASE_TITLE_REPLY)]);
    let item = release_item();

    let task = rich_push(
        &rich(true, "markdown"),
        &mut translator,
        &release_subscription(),
        &item,
    );
    let message = task.text.as_str();
    let fallback = task.fallback_text.as_str();

    assert_eq!(task.message_type, "markdown");
    assert!(message.starts_with("## RSS 更新：Release notes from qq-maid-bot"));
    assert!(message.contains("v0.14.2"));
    assert!(
        message
            .contains("[v0.14.2](<https://github.com/kuliantnt/qq-maid-bot/releases/tag/v0.14.2>)")
    );
    assert!(!message.contains("[v0.14.2。最终回答要求"));
    assert!(!message.contains("[cpa_final_answer]"));
    assert!(!message.contains("[tool_call]"));
    assert!(message.contains("cpa_final_answer"));
    assert!(message.contains("tool_call"));
    assert!(message.contains("最终回答要求"));
    assert_ne!(message, fallback);
    assert!(
        fallback.contains("链接：https://github.com/kuliantnt/qq-maid-bot/releases/tag/v0.14.2")
    );
    assert!(!fallback.contains("## "));
    assert!(!fallback.contains("](<"));
}

#[test]
fn scheduler_tests_rss_translation_failure_still_queues_notification_and_marks_rss_item_processed()
{
    let mut translator = Translator::new(vec![None, None]);
    let item = pending_item("English title", Some("English summary"));

    let task = rich_push(&rich(true, "text"), &mut translator, &subscription(), &item);

    assert_eq!(
        item_to_mark_pushed(&subscription(), &item, true),
        Some(("s1".to_owned(), "key:stable".to_owned()))
    );
    assert_eq!(task.dedupe_key, rss_dedupe_key(&subscription(), &item));
    assert_eq!(task.source_type, "rss");
    assert_eq!(task.kind, "rss_update");
    assert_eq!(task.target.target_id, "g1");
    assert_eq!(task.message_type, "text");
    assert_eq!(task.text, task.fallback_text);
    assert!(task.text.contains("English title"));
}

#[test]
fn scheduler_tests_rss_notification_uses_subscription_target_not_scope_payload() {
    let mut subscription = subscription();
    subscription.scope_key = "platform:qq_official:account:app-1:group:stale-group".to_owned();
    subscription.target_id = "current-group".to_owned();
    let item = pending_item("中文标题", Some("中文摘要"));

    let task = rich_push(
        &rich(true, "markdown"),
        &mut Translator::new(Vec::new()),
        &subscription,
        &item,
    );

    assert_eq!(
        task.target.scope_key,
        "platform:qq_official:account:app-1:group:stale-group"
    );
    assert_eq!(task.target.target_type, PushTargetType::Group);
    assert_eq!(task.target.target_id, "current-group");
}

#[test]
fn scheduler_tests_rss_notification_uses_stable_dedupe_key_for_same_revision() {
    let item = pending_item("中文标题", Some("中文摘要"));
    let push = || {
        rich_push(
            &rich(true, "markdown"),
            &mut Translator::new(Vec::new()),
            &subscription(),
            &item,
        )
    };
    let first = push();
    let second = push();

    assert_eq!(first.dedupe_key, second.dedupe_key);
    assert_eq!(second.target.target_type, PushTargetType::Group);
    assert_eq!(second.target.target_id, "g1");
}

#[test]
fn scheduler_tests_push_message_omits_empty_summary() {
    let item = shown_item("文章标题", Some("https://example.test/a"), None, None, None);

    let text = rich_message("订阅", &item);
    assert!(text.contains("【RSS 更新】订阅"));
    assert!(text.contains("文章标题"));
    assert!(text.contains("链接：https://example.test/a"));
}

#[test]
fn push_message_replaces_null_or_missing_optional_fields() {
    let item = shown_item("null", None, None, None, None);

    let text = rich_message("null", &item);

    assert!(text.starts_with("【RSS 更新】未命名订阅"));
    assert!(text.contains("无标题"));
    assert!(!text.to_ascii_lowercase().contains("null"));
}

#[test]
fn push_markdown_keeps_structure_when_optional_fields_are_empty() {
    let item = shown_item("null", None, None, None, None);

    let markdown = rich_markdown("null", &item);

    assert_eq!(markdown, "## RSS 更新：未命名订阅\n\n### 无标题");
    assert!(!markdown.to_ascii_lowercase().contains("null"));
}

#[test]
fn markdown_payload_uses_headings_and_inline_links() {
    let item = shown_item(
        "文章标题",
        Some("https://example.test/a"),
        Some("2026-06-17T00:00:00+00:00"),
        Some("2026-06-17T00:00:00+00:00"),
        Some("摘要"),
    );

    let markdown = rich_markdown("订阅", &item);
    assert!(markdown.starts_with("## RSS 更新：订阅"));
    assert!(markdown.contains("### [文章标题](<https://example.test/a>)"));
    assert!(markdown.contains("原文：[查看条目](<https://example.test/a>)"));
    assert!(markdown.contains("摘要"));
}

#[test]
fn github_release_markdown_and_plain_fallback_have_independent_semantics() {
    let item = shown_item(
        "v0.15.2",
        Some("https://example.test/releases/v0.15.2"),
        None,
        Some("2026-07-10T10:02:00Z"),
        Some(RELEASE_NOTES),
    );

    let markdown = rich_markdown("Release notes from qq-maid-bot", &item);
    let fallback = rich_message("Release notes from qq-maid-bot", &item);

    assert!(markdown.contains("## What's Changed"));
    assert!(
        markdown.contains("- docs: 重构 README by [@kuliantnt](<https://example.test/kuliantnt>)")
    );
    assert!(markdown.contains("[#408](<https://example.test/pull/408>)"));
    assert!(markdown.contains("更新时间：2026-07-10 18:02"));
    assert!(!markdown.contains("[1]:"));
    assert!(!markdown.contains(r"\#"));
    assert!(!markdown.contains(r"\["));
    assert!(!markdown.contains(r"\-"));

    assert_ne!(markdown, fallback);
    assert!(
        fallback.contains("• docs: 重构 README by @kuliantnt（https://example.test/kuliantnt）")
    );
    assert!(fallback.contains("#408（https://example.test/pull/408）"));
    assert!(!fallback.contains("## What's Changed"));
    assert!(!fallback.contains("](<"));
}

#[test]
fn scheduler_tests_push_messages_keep_original_link_with_summary() {
    let item = shown_item(
        "文章标题",
        Some("https://example.test/original"),
        None,
        None,
        Some("短摘要"),
    );

    let text = rich_message("订阅", &item);
    let markdown = rich_markdown("订阅", &item);

    assert!(text.contains("短摘要"));
    assert!(text.contains("链接：https://example.test/original"));
    assert_ne!(markdown, text);
    assert!(markdown.contains("[文章标题](<https://example.test/original>)"));
    assert!(markdown.contains("原文：[查看条目](<https://example.test/original>)"));
}

#[test]
fn push_markdown_sanitizes_dynamic_titles_without_backslash_escapes() {
    let item = shown_item(
        "v0.14.2\n[测试](1)",
        Some("https://example.test/release_(1)?q=[a]"),
        None,
        None,
        Some("cpa_final_answer 只作为正文"),
    );

    let markdown = rich_markdown("订阅 [测试]", &item);

    assert!(markdown.contains("## RSS 更新：订阅 ［测试］"));
    assert!(markdown.contains("v0.14.2 ［测试］（1）"));
    assert!(markdown.contains("cpa_final_answer 只作为正文"));
    assert!(markdown.contains("原文：[查看条目](<https://example.test/release_(1)?q=[a]>)"));
    assert!(!markdown.contains('\\'));
}

#[test]
fn scheduler_tests_push_messages_preserve_summary_line_breaks() {
    let item = shown_item(
        "文章标题",
        Some("https://example.test/a"),
        None,
        None,
        Some("Status: Resolved\n\nAffected components\n\n* Files\n* Search"),
    );

    let text = rich_message("订阅", &item);
    let markdown = rich_markdown("订阅", &item);

    assert!(text.contains("Status: Resolved\n\nAffected components"));
    assert!(text.contains("• Files\n• Search"));
    assert_ne!(markdown, text);
    assert!(markdown.contains("Status: Resolved\n\nAffected components"));
    assert!(markdown.contains("- Files"));
    assert!(markdown.contains("- Search"));
}

#[test]
fn scheduler_tests_push_messages_localize_published_at_for_display_only() {
    let item = shown_item(
        "文章标题",
        Some("https://example.test/a"),
        Some("2026-06-17T00:00:00+00:00"),
        Some("2026-06-17T00:00:00+00:00"),
        None,
    );

    let text = rich_message("订阅", &item);
    let markdown = rich_markdown("订阅", &item);

    assert_eq!(item.published_at.as_deref(), Some("2026-06-17T00:00:00+00:00"));
    assert!(text.contains("更新时间：2026-06-17 08:00"));
    assert_ne!(markdown, text);
    assert!(markdown.contains("更新时间：2026-06-17 08:00"));
}

#[test]
fn scheduler_tests_push_messages_keep_original_published_at_when_parse_fails() {
    let item = shown_item(
        "文章标题",
        Some("https://example.test/a"),
        Some("无法解析的发布时间"),
        Some("无法解析的更新时间"),
        None,
    );

    let text = rich_message("订阅", &item);
    let markdown = rich_markdown("订阅", &item);

    assert!(text.contains("更新时间：无法解析的更新时间"));
    assert_ne!(markdown, text);
    assert!(markdown.contains("更新时间：无法解析的更新时间"));
}

// Checks.

fn limits() -> CheckLimits {
    CheckLimits {
        summary_max_chars: 500,
        seen_retention: 400,
        max_push_per_subscription: 3,
        push_max_failures: 2,
    }
}

#[test]
fn a_check_fetches_keeps_records_lists_and_pushes() {
    let step = |event| next_action(&subscription(), limits(), event);
    assert!(matches!(
        step(CheckEvent::Begun),
        CheckAction::Fetch { url, summary_max_chars: 500 } if url == "https://example.test/feed.xml"
    ));
    assert!(matches!(
        step(CheckEvent::FetchFailed { error: "坏了".to_owned() }),
        CheckAction::RecordFailure { id, error } if id == "s1" && error == "坏了"
    ));
    assert!(matches!(
        step(CheckEvent::Fetched),
        CheckAction::KeepItems { id, seen_retention: 400 } if id == "s1"
    ));
    assert!(matches!(step(CheckEvent::KeepFailed), CheckAction::Stop));
    assert!(matches!(
        step(CheckEvent::Kept { title: "题".to_owned() }),
        CheckAction::RecordSuccess { id, title } if id == "s1" && title == "题"
    ));
    assert!(matches!(
        step(CheckEvent::Recorded),
        CheckAction::ListPending { id, limit: 3, max_failures: 2 } if id == "s1"
    ));
    let items = vec![pending_item("题", None)];
    assert!(matches!(
        step(CheckEvent::Listed { items }),
        CheckAction::Push { items } if items.len() == 1
    ));
    assert!(matches!(step(CheckEvent::ListFailed), CheckAction::Stop));
}

#[test]
fn rounds_are_not_too_close() {
    assert_eq!(round_seconds(5), 10);
    assert_eq!(round_seconds(300), 300);
    assert!(check_delay_millis(0) <= check_delay_millis(1));
    assert!(plain("text").is_enabled());
    assert_eq!(plain("text").round_seconds(), 300);
    assert_eq!(rich(true, "text").round_seconds(), 300);
}

#[test]
fn revisions_have_keys_of_their_own() {
    let mut other = pending_item("题", None);
    other.revision_hash = "rev:other".to_owned();
    assert_ne!(
        rss_dedupe_key(&subscription(), &pending_item("题", None)),
        rss_dedupe_key(&subscription(), &other)
    );
}

#[test]
fn short_identifiers_come_from_the_digest() {
    // SHA-256 of "abc" begins with ba7816bf8f01cfea.
    assert!("ba7816bf8f01cfea414140de5dae2223".starts_with(&short_id("abc")));
    assert!(!short_id("abc").is_empty());
}

#[test]
fn links_are_read_from_markdown() {
    assert_eq!(
        scheduler::markdown_http_links(
            "[a](https://a.test) ![b](http://b.test/x) [c](mailto:c@c.test) [d](<https://d.test>)"
        ),
        vec!["https://a.test", "http://b.test/x", "https://d.test"]
    );
    assert_eq!(
        scheduler::http_markdown_link(" https://a.test/<x> ").as_deref(),
        Some("https://a.test/x")
    );
    assert_eq!(scheduler::http_markdown_link("ftp://a.test"), None);
}

#[test]
fn only_short_foreign_texts_are_translated() {
    let item = pending_item("题", None);
    let step = |source: &str, chinese: bool, max: usize| {
        translate_rss_field(
            &subscription(),
            &item,
            "title",
            source,
            TranslationPurpose::RssTitle,
            chinese,
            max,
        )
    };
    assert!(matches!(step(" ", false, 10), TranslationStep::Keep { text } if text.is_empty()));
    assert!(matches!(step(" a ", true, 10), TranslationStep::Keep { text } if text == "a"));
    assert!(matches!(step("abcd", false, 3), TranslationStep::Keep { .. }));
    let TranslationStep::Ask { request, scene } = step(" abc ", false, 3) else {
        panic!("expected a request");
    };
    assert_eq!(request.source_text, "abc");
    assert_eq!(request.target_language, "简体中文");
    assert_eq!(
        request.session_id,
        format!("rss:{}:{}", short_id("s1"), short_id("key:stable"))
    );
    assert_eq!(scene, ChatScene::Group);
}

// Arguments.

fn text(s: &str) -> Json {
    Json::Text(s.to_owned())
}

fn object(entries: Vec<(&str, Json)>) -> Json {
    Json::Object(
        entries
            .into_iter()
            .map(|(key, value)| (key.to_owned(), value))
            .collect(),
    )
}

#[test]
fn queries_and_limits_are_read() {
    assert_eq!(parse_query(None).unwrap(), None);
    assert_eq!(
        parse_query(Some(&text(" rust "))).unwrap().as_deref(),
        Some("rust")
    );
    assert_eq!(
        parse_query(Some(&Json::Bool(true))).unwrap_err().code,
        "bad_tool_arguments"
    );
    assert!(parse_limit(Some(&Json::Whole(3))).unwrap() == 3);
    assert!(parse_limit(Some(&text("3"))).is_err());
    assert!(parse_limit(None).unwrap() > 0);
}

#[test]
fn pasted_lists_of_feeds_are_read() {
    assert_eq!(strip_list_marker("1. https://a.test"), "https://a.test");
    assert_eq!(strip_list_marker(" 12） 甲"), "甲");
    assert_eq!(strip_list_marker("1 甲"), "1 甲");
    let entries = parse_raw_add_entries("1、甲 https://a.test/feed\nnothing\n2. https://b.test/feed");
    assert_eq!(entries.len(), 2);
    assert_eq!(entries[0].url, "https://a.test/feed");
    assert_eq!(entries[0].title.as_deref(), Some("甲"));
    assert_eq!(entries[1].url, "https://b.test/feed");
    assert!(extract_url_from_line("none").is_none());
    assert!(validate_url("https://a.test").is_ok());
    assert!(validate_url("ftp://a.test").is_err());
}

#[test]
fn feeds_to_add_are_checked() {
    let entry = object(vec![("url", text("https://a.test/feed")), ("title", Json::Null)]);
    let arguments = object(vec![
        ("operation", text("add")),
        ("feeds", Json::List(vec![entry])),
    ]);
    let entries = parse_tool_add_entries(&arguments).unwrap();
    assert_eq!(entries.len(), 1);
    assert!(parse_tool_add_entries(&object(vec![])).is_err());
    let targets = object(vec![("targets", Json::List(vec![text(" 1 "), text("s1")]))]);
    assert_eq!(parse_tool_delete_targets(&targets).unwrap(), vec!["1", "s1"]);
    assert!(parse_tool_delete_targets(&object(vec![])).is_err());
}

// The tools.

fn context(kind: ConversationKind, is_group_manager: bool) -> ToolContext {
    ToolContext {
        scope_id: "group:g1".to_owned(),
        kind,
        target_id: Some("g1".to_owned()),
        user_id: Some("u1".to_owned()),
        is_group_manager,
    }
}

fn add_arguments() -> Json {
    let entry = object(vec![("url", text("https://a.test/feed")), ("title", Json::Null)]);
    object(vec![
        ("operation", text("add")),
        ("feeds", Json::List(vec![entry])),
    ])
}

#[test]
fn groups_are_managed_by_managers() {
    let tool = RssManageSubscriptionsTool::new(500, 400);
    let refused = tool
        .execute(&context(ConversationKind::Group, false), &add_arguments())
        .unwrap();
    let ManageRequest::Refused { output } = refused else {
        panic!("expected a refusal");
    };
    assert_eq!(output.get_bool("ok"), Some(false));
    let allowed = tool
        .execute(&context(ConversationKind::Group, true), &add_arguments())
        .unwrap();
    let ManageRequest::Add { target, entries } = allowed else {
        panic!("expected an addition");
    };
    assert_eq!(target.target_type, RssTargetType::Group);
    assert_eq!(target.target_id, "g1");
    assert_eq!(entries.len(), 1);
    let fetch = tool.next_add_action(&entries[0], AddEvent::Begun);
    assert!(matches!(
        fetch,
        AddAction::Fetch { url, summary_max_chars: 500 } if url == "https://a.test/feed"
    ));
    let create = tool.next_add_action(&entries[0], AddEvent::Fetched { title: "题".to_owned() });
    assert!(matches!(
        create,
        AddAction::Create { title, seen_retention: 400, .. } if title == "题"
    ));
    let unknown = object(vec![("operation", text("rename"))]);
    assert!(tool
        .execute(&context(ConversationKind::Group, true), &unknown)
        .is_err());
}

#[test]
fn the_result_of_adding_counts_both_sides() {
    let results = vec![
        AddResult::Created {
            subscription: subscription(),
            item_count: 4,
        },
        AddResult::Unread {
            url: "https://b.test".to_owned(),
            error: RssFeedError::Status { status: 404 },
        },
        AddResult::Refused {
            url: "https://c.test".to_owned(),
            message: "rss subscription already exists".to_owned(),
        },
    ];
    let output = add_output(&context(ConversationKind::Group, true), &results);
    assert_eq!(output.get_list("created").unwrap().len(), 1);
    assert_eq!(output.get_list("failed").unwrap().len(), 2);
    assert_eq!(output.get_str("operation"), Some("add"));
    assert_eq!(
        output.get_str("message"),
        Some(format_manage_message("add", 1, 2).as_str())
    );
    assert!(feed_error_reply(&RssFeedError::Status { status: 404 }).contains("404"));
    assert_ne!(
        feed_error_reply(&RssFeedError::UnsafeHost),
        feed_error_reply(&RssFeedError::Other { message: "x".to_owned() })
    );
}

#[test]
fn targets_are_numbers_or_identifiers() {
    let mut second = subscription();
    second.id = "s2".to_owned();
    second.url = "https://example.test/other.xml".to_owned();
    let subscriptions = vec![subscription(), second];
    assert_eq!(resolve_subscription_target(&subscriptions, "2"), Some(1));
    assert_eq!(resolve_subscription_target(&subscriptions, "s1"), Some(0));
    assert_eq!(resolve_subscription_target(&subscriptions, "s"), Some(0));
    assert_eq!(resolve_subscription_target(&subscriptions, "0"), None);
    assert_eq!(resolve_subscription_target(&subscriptions, "9"), None);
    let targets = vec!["2".to_owned(), "s2".to_owned(), "9".to_owned()];
    let plan = plan_delete(&subscriptions, &targets);
    assert_eq!(plan.positions, vec![1]);
    assert_eq!(plan.missing, vec!["9"]);
    let mut deleted = subscription();
    deleted.id = "s2".to_owned();
    let results = vec![DeleteResult {
        subscription: deleted,
        was_deleted: true,
    }];
    let output = delete_output(&context(ConversationKind::Group, true), &plan, &results);
    assert_eq!(output.get_str("operation"), Some("delete"));
    assert_eq!(output.get_list("deleted").unwrap().len(), 1);
    assert_eq!(output.get_list("missing").unwrap().len(), 1);
}

#[test]
fn store_failures_keep_their_code() {
    let error = rss_store_error("io_error", "坏了");
    assert_eq!(error.code, "io_error");
    assert_eq!(error.message, "rss store failed: 坏了");
}

#[test]
fn recent_items_are_listed() {
    let tool = RssRecentItemsTool::new();
    let arguments = object(vec![("query", text("rust")), ("limit", Json::Whole(2))]);
    let request = tool.execute(&arguments).unwrap();
    assert_eq!(request.query.as_deref(), Some("rust"));
    assert_eq!(request.limit, 2);
    let item = RssRecentItem {
        subscription_id: "s1".to_owned(),
        subscription_title: "订阅".to_owned(),
        subscription_url: "https://example.test/feed.xml".to_owned(),
        item_key: "k".to_owned(),
        revision_hash: "r".to_owned(),
        title: "题".to_owned(),
        link: None,
        published_at: None,
        updated_at: None,
        summary: Some("摘要".to_owned()),
        pushed_at: None,
        last_seen_at: "2026-07-01T00:00:00+08:00".to_owned(),
    };
    let output = tool.output(&context(ConversationKind::Group, true), &request, &vec![item]);
    let items = output.get_list("items").unwrap();
    assert_eq!(items.len(), 1);
    let item = items[0].get("item").unwrap();
    assert_eq!(item.get_str("title"), Some("题"));
    assert_eq!(item.get_str("summary"), Some("摘要"));
    assert_eq!(items[0].get("subscription").unwrap().get_str("id"), Some("s1"));
}
