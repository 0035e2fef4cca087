//! Subscriptions and their items, and what every check of a subscription goes through: the
//! feed is read, its items are kept, the success is noted, and what is pending is sent.
use vstd::prelude::*;
use vstd::string::*;

use crate::knowledge::terms;
use crate::outside;
use crate::push::{NotificationUpsert, PushTarget, PushTargetType};
use crate::text;

verus! {

#[derive(Debug, Clone, Copy, PartialEq, Eq, Structural)]
pub enum RssTargetType {
    Private,
    Group,
}

/// Who a subscription is for.
#[derive(Debug)]
pub struct RssTarget {
    pub target_type: RssTargetType,
    pub target_id: String,
    pub scope_key: String,
}

#[derive(Debug)]
pub struct RssSubscription {
    pub id: String,
    pub target_type: RssTargetType,
    pub target_id: String,
    pub scope_key: String,
    pub url: String,
    pub title: String,
    pub enabled: bool,
    pub created_at: String,
    pub last_checked_at: Option<String>,
    pub last_success_at: Option<String>,
    pub last_error: Option<String>,
    pub consecutive_failures: u32,
    pub initialized: bool,
}

/// An item of a feed that waits to be sent.
#[derive(Debug)]
pub struct RssPendingItem {
    pub subscription_id: String,
    pub item_key: String,
    pub revision_hash: String,
    pub title: String,
    pub link: Option<String>,
    pub published_at: Option<String>,
    pub updated_at: Option<String>,
    pub summary: Option<String>,
    pub failed_count: u32,
}

impl RssPendingItem {
    /// The item with another title and summary.
    pub fn with_texts(&self, title: String, summary: Option<String>) -> (r: Self)
        ensures
            r == (RssPendingItem { title, summary, ..*self }),
    {
        RssPendingItem {
            subscription_id: self.subscription_id.clone(),
            item_key: self.item_key.clone(),
            revision_hash: self.revision_hash.clone(),
            title,
            link: text::copy_option(&self.link),
            published_at: text::copy_option(&self.published_at),
            updated_at: text::copy_option(&self.updated_at),
            summary,
            failed_count: self.failed_count,
        }
    }
}

// Keys.

pub open spec fn source_id(id: Seq<char>, item_key: Seq<char>) -> Seq<char> {
    id + ":"@ + item_key
}

pub fn rss_source_id(subscription: &RssSubscription, item: &RssPendingItem) -> (r: String)
    ensures
        r@ == source_id(subscription.id@, item.item_key@),
{
    let mut s = subscription.id.clone();
    s.append(":");
    s.append(item.item_key.as_str());
    s
}

/// One revision of one item has one key, so that it is sent once.
pub open spec fn dedupe_key(id: Seq<char>, item_key: Seq<char>, revision_hash: Seq<char>) -> Seq<char> {
    "rss:"@ + id + ":"@ + item_key + ":"@ + revision_hash
}

pub fn rss_dedupe_key(subscription: &RssSubscription, item: &RssPendingItem) -> (r: String)
    ensures
        r@ == dedupe_key(subscription.id@, item.item_key@, item.revision_hash@),
{
    let mut s = "rss:".to_owned();
    s.append(subscription.id.as_str());
    s.append(":");
    s.append(item.item_key.as_str());
    s.append(":");
    s.append(item.revision_hash.as_str());
    s
}

/// A new revision of an item gets a key of its own.
pub proof fn revisions_have_their_own_keys(
    id: Seq<char>,
    item_key: Seq<char>,
    first: Seq<char>,
    second: Seq<char>,
)
    ensures
        dedupe_key(id, item_key, first) == dedupe_key(id, item_key, second) <==> first == second,
{
    let p = "rss:"@ + id + ":"@ + item_key + ":"@;
    assert((p + first).skip(p.len() as int) =~= first);
    assert((p + second).skip(p.len() as int) =~= second);
}

/// A short name that does not give the value away.
pub open spec fn short(s: Seq<char>) -> Seq<char> {
    terms::hex(outside::sha256(s).take(5))
}

pub fn short_id(value: &str) -> (r: String)
    ensures
        r@ == short(value@),
{
    let bytes = outside::sha256_of(value);
    terms::hex_of(&bytes, 5)
}

// When an item was last touched.

pub open spec fn shown_time(item: RssPendingItem) -> Option<(Seq<char>, Seq<char>)> {
    match item.updated_at {
        Some(t) if !text::blank(t@) => Some(("更新时间"@, t@)),
        _ => match item.published_at {
            Some(t) if !text::blank(t@) => Some(("发布时间"@, t@)),
            _ => None,
        },
    }
}

pub fn item_display_time<'a>(item: &'a RssPendingItem) -> (r: Option<(&'static str, &'a str)>)
    ensures
        match r {
            Some((label, value)) => shown_time(*item) == Some((label@, value@)),
            None => shown_time(*item) is None,
        },
{
    match &item.updated_at {
        Some(t) => {
            if !text::is_blank(t.as_str()) {
                return Some(("更新时间", t.as_str()));
            }
        },
        None => {},
    }
    match &item.published_at {
        Some(t) => {
            if !text::is_blank(t.as_str()) {
                return Some(("发布时间", t.as_str()));
            }
        },
        None => {},
    }
    None
}

/// The text, unless there is none or it is blank.
pub open spec fn present(o: Option<String>) -> Option<Seq<char>> {
    match o {
        Some(s) if !text::blank(s@) => Some(s@),
        _ => None,
    }
}

pub fn present_text<'a>(o: &'a Option<String>) -> (r: Option<&'a str>)
    ensures
        text::opt_str_view(r) == present(*o),
{
    match o {
        Some(s) => {
            if text::is_blank(s.as_str()) {
                None
            } else {
                Some(s.as_str())
            }
        },
        None => None,
    }
}

// The pace of the checks.

/// How long the first round waits.
pub const START_DELAY_SECONDS: u64 = 5;

/// A round starts this often, but never more often than every ten seconds.
pub fn round_seconds(interval_seconds: u64) -> (r: u64)
    ensures
        r == (if interval_seconds < 10 {
            10
        } else {
            interval_seconds
        }),
{
    if interval_seconds < 10 {
        10
    } else {
        interval_seconds
    }
}

/// How long the check of the subscription at `index` waits, so that the feeds of a round are
/// not read all at once.
pub fn check_delay_millis(index: usize) -> (r: u64)
    ensures
        r == (index as int % 10) * 300,
{
    let step: u64 = (index % 10) as u64;
    step * 300
}

// One check.

/// The limits of a check.
#[derive(Debug, Clone, Copy, PartialEq, Eq, Structural)]
pub struct CheckLimits {
    pub summary_max_chars: usize,
    pub seen_retention: usize,
    pub max_push_per_subscription: usize,
    pub push_max_failures: u32,
}

/// What happened last in a check.
#[derive(Debug)]
pub enum CheckEvent {
    Begun,
    FetchFailed { error: String },
    Fetched,
    KeepFailed,
    /// The items were kept; the feed calls itself `title`.
    Kept { title: String },
    RecordFailed,
    Recorded,
    ListFailed,
    Listed { items: Vec<RssPendingItem> },
}

/// What a check does next.
#[derive(Debug)]
pub enum CheckAction {
    Fetch { url: String, summary_max_chars: usize },
    RecordFailure { id: String, error: String },
    KeepItems { id: String, seen_retention: usize },
    RecordSuccess { id: String, title: String },
    ListPending { id: String, limit: usize, max_failures: u32 },
    Push { items: Vec<RssPendingItem> },
    Stop,
}

/// What follows each event. A failure ends the check; one to read the feed is noted.
pub open spec fn next(subscription: RssSubscription, limits: CheckLimits, event: CheckEvent) -> CheckAction {
    match event {
        CheckEvent::Begun => CheckAction::Fetch {
            url: subscription.url,
            summary_max_chars: limits.summary_max_chars,
        },
        CheckEvent::FetchFailed { error } => CheckAction::RecordFailure { id: subscription.id, error },
        CheckEvent::Fetched => CheckAction::KeepItems {
            id: subscription.id,
            seen_retention: limits.seen_retention,
        },
        CheckEvent::Kept { title } => CheckAction::RecordSuccess { id: subscription.id, title },
        CheckEvent::Recorded => CheckAction::ListPending {
            id: subscription.id,
            limit: limits.max_push_per_subscription,
            max_failures: limits.push_max_failures,
        },
        CheckEvent::Listed { items } => CheckAction::Push { items },
        CheckEvent::KeepFailed | CheckEvent::RecordFailed | CheckEvent::ListFailed => CheckAction::Stop,
    }
}

pub fn next_action(subscription: &RssSubscription, limits: CheckLimits, event: CheckEvent) -> (r: CheckAction)
    ensures
        r == next(*subscription, limits, event),
{
    match event {
        CheckEvent::Begun => CheckAction::Fetch {
            url: subscription.url.clone(),
            summary_max_chars: limits.summary_max_chars,
        },
        CheckEvent::FetchFailed { error } => CheckAction::RecordFailure { id: subscription.id.clone(), error },
        CheckEvent::Fetched => CheckAction::KeepItems {
            id: subscription.id.clone(),
            seen_retention: limits.seen_retention,
        },
        CheckEvent::Kept { title } => CheckAction::RecordSuccess { id: subscription.id.clone(), title },
        CheckEvent::Recorded => CheckAction::ListPending {
            id: subscription.id.clone(),
            limit: limits.max_push_per_subscription,
            max_failures: limits.push_max_failures,
        },
        CheckEvent::Listed { items } => CheckAction::Push { items },
        CheckEvent::KeepFailed => CheckAction::Stop,
        CheckEvent::RecordFailed => CheckAction::Stop,
        CheckEvent::ListFailed => CheckAction::Stop,
    }
}

/// A success is noted only once the items of the feed are kept, pending items are listed only
/// once it is noted, and items are sent only once they are listed.
pub proof fn steps_keep_their_order(subscription: RssSubscription, limits: CheckLimits, event: CheckEvent)
    ensures
        next(subscription, limits, event) is RecordSuccess <==> event is Kept,
        next(subscription, limits, event) is ListPending <==> event is Recorded,
        next(subscription, limits, event) is Push <==> event is Listed,
{
}

// Sending an item.

/// What is sent as Markdown, and the plain text for where it is not shown.
#[derive(Debug)]
pub struct PushBody {
    pub markdown: String,
    pub text: String,
}

pub open spec fn target_type(t: RssTargetType) -> PushTargetType {
    match t {
        RssTargetType::Private => PushTargetType::Private,
        RssTargetType::Group => PushTargetType::Group,
    }
}

pub fn push_target_type(t: RssTargetType) -> (r: PushTargetType)
    ensures
        r == target_type(t),
{
    match t {
        RssTargetType::Private => PushTargetType::Private,
        RssTargetType::Group => PushTargetType::Group,
    }
}

/// Whether messages of the configured type are Markdown.
pub open spec fn wants_markdown(message_type: Seq<char>) -> bool {
    text::ascii_lowered(text::trimmed(message_type)) == "markdown"@
}

/// Whether the message sends the item to the subscription's target. The keys are those of the
/// item as it was kept, whatever is shown of it.
pub open spec fn is_push_of(
    m: NotificationUpsert,
    subscription: RssSubscription,
    item: RssPendingItem,
    body: PushBody,
    message_type: Seq<char>,
    push_max_failures: u32,
    now: Seq<char>,
) -> bool {
    &&& m.source_type@ == "rss"@
    &&& m.source_id@ == source_id(subscription.id@, item.item_key@)
    &&& m.dedupe_key@ == dedupe_key(subscription.id@, item.item_key@, item.revision_hash@)
    &&& m.target == (PushTarget {
        scope_key: subscription.scope_key,
        target_type: target_type(subscription.target_type),
        target_id: subscription.target_id,
    })
    &&& m.channel@ == "push"@
    &&& m.kind@ == "rss_update"@
    &&& m.message_type@ == (if wants_markdown(message_type) {
        "markdown"@
    } else {
        "text"@
    })
    &&& m.text == (if wants_markdown(message_type) {
        body.markdown
    } else {
        body.text
    })
    &&& m.fallback_text == body.text
    &&& m.scheduled_at@ == now
    &&& m.max_attempts == (if push_max_failures == 0 {
        1
    } else {
        push_max_failures
    })
    &&& m.reactivate_cancelled
}

/// The message that sends an item at a given time.
pub fn push_message_at(
    subscription: &RssSubscription,
    item: &RssPendingItem,
    body: PushBody,
    message_type: &str,
    push_max_failures: u32,
    now: String,
) -> (r: NotificationUpsert)
    ensures
        is_push_of(r, *subscription, *item, body, message_type@, push_max_failures, now@),
{
    let trimmed = text::trim(message_type);
    let lower = text::to_ascii_lowercase(trimmed);
    let as_markdown = text::same(lower.as_str(), "markdown");
    let fallback_text = body.text.clone();
    NotificationUpsert {
        source_type: "rss".to_owned(),
        source_id: rss_source_id(subscription, item),
        dedupe_key: rss_dedupe_key(subscription, item),
        target: PushTarget {
            scope_key: subscription.scope_key.clone(),
            target_type: push_target_type(subscription.target_type),
            target_id: subscription.target_id.clone(),
        },
        channel: "push".to_owned(),
        kind: "rss_update".to_owned(),
        message_type: if as_markdown {
            "markdown".to_owned()
        } else {
            "text".to_owned()
        },
        text: if as_markdown {
            body.markdown
        } else {
            body.text
        },
        fallback_text,
        scheduled_at: now,
        max_attempts: if push_max_failures == 0 {
            1
        } else {
            push_max_failures
        },
        reactivate_cancelled: true,
    }
}

/// The message that sends an item now.
pub fn push_message(
    subscription: &RssSubscription,
    item: &RssPendingItem,
    body: PushBody,
    message_type: &str,
    push_max_failures: u32,
) -> (r: NotificationUpsert)
    ensures
        exists|now: Seq<char>| #[trigger]
            is_push_of(r, *subscription, *item, body, message_type@, push_max_failures, now),
{
    let now = outside::now_iso_cn();
    let ghost at = now@;
    let r = push_message_at(subscription, item, body, message_type, push_max_failures, now);
    assert(is_push_of(r, *subscription, *item, body, message_type@, push_max_failures, at));
    r
}

/// Which item of which subscription is now noted as sent: the item, once its message is in
/// the outbox, and none where the outbox did not take it.
pub fn item_to_mark_pushed(
    subscription: &RssSubscription,
    item: &RssPendingItem,
    queued: bool,
) -> (r: Option<(String, String)>)
    ensures
        r == (if queued {
            Some((subscription.id, item.item_key))
        } else {
            None
        }),
{
    if queued {
        Some((subscription.id.clone(), item.item_key.clone()))
    } else {
        None
    }
}

// Asking for a translation.

#[derive(Debug, Clone, Copy, PartialEq, Eq, Structural)]
pub enum TranslationPurpose {
    RssTitle,
    RssSummary,
}

#[derive(Debug, Clone, Copy, PartialEq, Eq, Structural)]
pub enum ChatScene {
    Private,
    Group,
}

#[derive(Debug)]
pub struct TranslationRequest {
    pub session_id: String,
    pub source_text: String,
    pub target_language: String,
    pub purpose: TranslationPurpose,
    pub metadata: Vec<(String, String)>,
}

/// What becomes of a field: it is shown as it is, or a translation is asked for.
#[derive(Debug)]
pub enum TranslationStep {
    Keep { text: String },
    Ask { request: TranslationRequest, scene: ChatScene },
}

pub open spec fn is_pair(p: (String, String), key: Seq<char>, value: Seq<char>) -> bool {
    p.0@ == key && p.1@ == value
}

pub open spec fn is_request(
    q: TranslationRequest,
    id: Seq<char>,
    item_key: Seq<char>,
    field: Seq<char>,
    source: Seq<char>,
    purpose: TranslationPurpose,
) -> bool {
    &&& q.session_id@ == "rss:"@ + short(id) + ":"@ + short(item_key)
    &&& q.source_text@ == source
    &&& q.target_language@ == "简体中文"@
    &&& q.purpose == purpose
    &&& q.metadata@.len() == 3
    &&& is_pair(q.metadata@[0], "rss_subscription_id"@, short(id))
    &&& is_pair(q.metadata@[1], "rss_item_key"@, short(item_key))
    &&& is_pair(q.metadata@[2], "rss_field"@, field)
}

/// The scene whose model translates for a target.
pub open spec fn scene_of(t: RssTargetType) -> ChatScene {
    match t {
        RssTargetType::Private => ChatScene::Private,
        RssTargetType::Group => ChatScene::Group,
    }
}

/// Whether a text is shown as it is: it is blank, it is Chinese, or it is too long.
pub open spec fn is_kept(source: Seq<char>, looks_chinese: bool, max_source_chars: int) -> bool {
    source.len() == 0 || looks_chinese || source.len() > max_source_chars
}

/// `looks_chinese` says so of the trimmed text.
pub fn translate_rss_field(
    subscription: &RssSubscription,
    item: &RssPendingItem,
    field: &str,
    source_text: &str,
    purpose: TranslationPurpose,
    looks_chinese: bool,
    max_source_chars: usize,
) -> (r: TranslationStep)
    ensures
        is_kept(text::trimmed(source_text@), looks_chinese, max_source_chars as int) ==> (r matches TranslationStep::Keep { text } && text@ == text::trimmed(source_text@)),
        !is_kept(text::trimmed(source_text@), looks_chinese, max_source_chars as int) ==> (r matches TranslationStep::Ask { request, scene } && is_request(request, subscription.id@, item.item_key@, field@, text::trimmed(source_text@), purpose) && scene == scene_of(subscription.target_type)),
{
    let source = text::trim(source_text);
    let len: usize = source.unicode_len();
    if len == 0 || looks_chinese || len > max_source_chars {
        return TranslationStep::Keep { text: source.to_owned() };
    }
    let id = short_id(subscription.id.as_str());
    let key = short_id(item.item_key.as_str());
    let mut session_id = "rss:".to_owned();
    session_id.append(id.as_str());
    session_id.append(":");
    session_id.append(key.as_str());
    let mut metadata: Vec<(String, String)> = Vec::new();
    metadata.push(("rss_subscription_id".to_owned(), id));
    metadata.push(("rss_item_key".to_owned(), key));
    metadata.push(("rss_field".to_owned(), field.to_owned()));
    let scene = match subscription.target_type {
        RssTargetType::Group => ChatScene::Group,
        RssTargetType::Private => ChatScene::Private,
    };
    TranslationStep::Ask {
        request: TranslationRequest {
            session_id,
            source_text: source.to_owned(),
            target_language: "简体中文".to_owned(),
            purpose,
            metadata,
        },
        scene,
    }
}

/// What is shown after a translation was asked for: the translation, or the trimmed text
/// where none came back.
pub fn translated_or_source(source_text: &str, reply: Option<String>) -> (r: String)
    ensures
        r@ == (match reply {
            Some(t) => t@,
            None => text::trimmed(source_text@),
        }),
{
    match reply {
        Some(t) => t,
        None => text::trim(source_text).to_owned(),
    }
}

} // verus!
