//! The feed tools: recent items of a conversation's subscriptions, and adding and deleting
//! subscriptions on request.
use vstd::prelude::*;
use vstd::string::*;

use crate::error;
use crate::error::{Failure, ToolError};
use crate::json;
use crate::json::{Json, Shape};
use crate::rss::arguments;
use crate::rss::arguments::RssToolAddEntry;
use crate::rss::items::{RssSubscription, RssTarget, RssTargetType};
use crate::text;

verus! {

/// How many characters of each text a report holds.
pub const OUTPUT_TITLE_MAX_CHARS: usize = 80;

pub const OUTPUT_URL_MAX_CHARS: usize = 180;

pub const OUTPUT_ERROR_MAX_CHARS: usize = 180;

pub const OUTPUT_TARGET_MAX_CHARS: usize = 120;

pub const OUTPUT_SCOPE_MAX_CHARS: usize = 120;

// Where a tool is called.

#[derive(Debug, Clone, Copy, PartialEq, Eq, Structural)]
pub enum ConversationKind {
    Private,
    ServiceAccount,
    Group,
    Channel,
    Unknown,
}

/// The conversation and the user that a call comes from.
#[derive(Debug)]
pub struct ToolContext {
    pub scope_id: String,
    pub kind: ConversationKind,
    pub target_id: Option<String>,
    pub user_id: Option<String>,
    /// Whether the user owns or administers the group.
    pub is_group_manager: bool,
}

/// Why the subscriptions of the conversation cannot be managed, if they cannot.
pub open spec fn refusal(kind: ConversationKind, is_group_manager: bool) -> Option<Seq<char>> {
    match kind {
        ConversationKind::Private | ConversationKind::ServiceAccount => None,
        ConversationKind::Group => if is_group_manager {
            None
        } else {
            Some("群聊 RSS 管理只允许群主或管理员执行。"@)
        },
        ConversationKind::Channel => Some("频道会话不允许执行 RSS 管理操作。"@),
        ConversationKind::Unknown => Some("无法确认会话类型，已拒绝执行 RSS 管理操作。"@),
    }
}

pub open spec fn refusal_shape(message: Seq<char>) -> Shape {
    Shape::Object(
        seq![
            (
                "error"@,
                Shape::Object(
                    seq![
                        ("code"@, Shape::Text("permission_denied"@)),
                        ("message"@, Shape::Text(message)),
                    ],
                ),
            ),
            ("ok"@, Shape::Bool(false)),
        ],
    )
}

fn refusal_value(message: &str) -> (r: Json)
    ensures
        r.shape() == refusal_shape(message@),
{
    let mut why: Vec<(String, Json)> = Vec::new();
    json::put(&mut why, "code", json::text_value("permission_denied"));
    json::put(&mut why, "message", json::text_value(message));
    let ghost inner = json::entry_shapes(why@);
    let mut o: Vec<(String, Json)> = Vec::new();
    json::put(&mut o, "error", Json::Object(why));
    json::put(&mut o, "ok", Json::Bool(false));
    proof {
        assert(inner =~= seq![
            ("code"@, Shape::Text("permission_denied"@)),
            ("message"@, Shape::Text(message@)),
        ]);
        assert(json::entry_shapes(o@) =~= refusal_shape(message@)->Object_0);
    }
    Json::Object(o)
}

/// The report of a refusal, where the conversation is refused.
pub fn validate_manage_context(context: &ToolContext) -> (r: Option<Json>)
    ensures
        match refusal(context.kind, context.is_group_manager) {
            Some(message) => r matches Some(v) && v.shape() == refusal_shape(message),
            None => r is None,
        },
{
    match context.kind {
        ConversationKind::Private => None,
        ConversationKind::ServiceAccount => None,
        ConversationKind::Group => {
            if context.is_group_manager {
                None
            } else {
                Some(refusal_value("群聊 RSS 管理只允许群主或管理员执行。"))
            }
        },
        ConversationKind::Channel => Some(refusal_value("频道会话不允许执行 RSS 管理操作。")),
        ConversationKind::Unknown => Some(
            refusal_value("无法确认会话类型，已拒绝执行 RSS 管理操作。"),
        ),
    }
}

/// Who a subscription of the conversation is for: its group, or its user.
pub open spec fn target_in(context: ToolContext) -> Result<(RssTargetType, Seq<char>), Failure> {
    let named = text::cleaned_opt(text::opt_view(context.target_id));
    let user = text::cleaned_opt(text::opt_view(context.user_id));
    match context.kind {
        ConversationKind::Group => match named {
            Some(id) => Ok((RssTargetType::Group, id)),
            None => Err(
                (
                    "missing_conversation_target"@,
                    "group RSS management requires an authoritative conversation target id"@,
                    "tool"@,
                ),
            ),
        },
        ConversationKind::Private | ConversationKind::ServiceAccount => if named is Some {
            Ok((RssTargetType::Private, named->0))
        } else if user is Some {
            Ok((RssTargetType::Private, user->0))
        } else {
            Err(
                (
                    "missing_conversation_target"@,
                    "private RSS management requires a conversation or actor target id"@,
                    "tool"@,
                ),
            )
        },
        ConversationKind::Channel | ConversationKind::Unknown => Err(
            (
                "permission_denied"@,
                "rss management is only available in private or group chat scope"@,
                "tool"@,
            ),
        ),
    }
}

pub open spec fn is_target_of(r: Result<RssTarget, ToolError>, context: ToolContext) -> bool {
    match target_in(context) {
        Ok((target_type, id)) => r matches Ok(t) && t.target_type == target_type && t.target_id@ == id
            && t.scope_key == context.scope_id,
        Err(f) => r matches Err(e) && e.shown() == f,
    }
}

pub fn target_from_context(context: &ToolContext) -> (r: Result<RssTarget, ToolError>)
    ensures
        is_target_of(r, *context),
{
    let named = text::clean_option(&context.target_id);
    match context.kind {
        ConversationKind::Group => match named {
            Some(id) => Ok(
                RssTarget {
                    target_type: RssTargetType::Group,
                    target_id: id,
                    scope_key: context.scope_id.clone(),
                },
            ),
            None => Err(
                ToolError::new(
                    "missing_conversation_target",
                    "group RSS management requires an authoritative conversation target id",
                    "tool",
                ),
            ),
        },
        ConversationKind::Private | ConversationKind::ServiceAccount => {
            let id = if named.is_some() {
                named
            } else {
                text::clean_option(&context.user_id)
            };
            match id {
                Some(id) => Ok(
                    RssTarget {
                        target_type: RssTargetType::Private,
                        target_id: id,
                        scope_key: context.scope_id.clone(),
                    },
                ),
                None => Err(
                    ToolError::new(
                        "missing_conversation_target",
                        "private RSS management requires a conversation or actor target id",
                        "tool",
                    ),
                ),
            }
        },
        ConversationKind::Channel | ConversationKind::Unknown => Err(
            ToolError::new(
                "permission_denied",
                "rss management is only available in private or group chat scope",
                "tool",
            ),
        ),
    }
}

// What a request comes to.

/// A request that was read: it is refused, or it adds or deletes.
#[derive(Debug)]
pub enum ManageRequest {
    Refused { output: Json },
    Add { target: RssTarget, entries: Vec<RssToolAddEntry> },
    Delete { targets: Vec<String> },
}

/// The operation is read first, then the conversation is looked at, and only then the rest.
pub open spec fn is_request_of(r: Result<ManageRequest, ToolError>, context: ToolContext, arguments: Json) -> bool {
    match arguments::required(arguments.entry("operation"@), "operation"@) {
        Err(f) => r matches Err(e) && e.shown() == f,
        Ok(operation) => match refusal(context.kind, context.is_group_manager) {
            Some(message) => r matches Ok(ManageRequest::Refused { output }) && output.shape() == refusal_shape(message),
            None => if operation == "add"@ {
                match arguments::feeds_to_add(arguments) {
                    Err(f) => r matches Err(e) && e.shown() == f,
                    Ok(feeds) => match target_in(context) {
                        Err(f) => r matches Err(e) && e.shown() == f,
                        Ok(_) => r matches Ok(ManageRequest::Add { target, entries }) && is_target_of(
                            Ok(target),
                            context,
                        ) && arguments::entry_views(entries@) == feeds,
                    },
                }
            } else if operation == "delete"@ {
                match arguments::targets_to_delete(arguments) {
                    Err(f) => r matches Err(e) && e.shown() == f,
                    Ok(wanted) => r matches Ok(ManageRequest::Delete { targets }) && text::views(targets@)
                        == wanted,
                }
            } else {
                r matches Err(e) && e.shown() == error::bad_arguments("operation must be add or delete"@)
            },
        },
    }
}

/// The tool that adds and deletes subscriptions.
#[derive(Debug)]
pub struct RssManageSubscriptionsTool {
    summary_max_chars: usize,
    seen_retention: usize,
}

/// What came of adding one feed so far.
#[derive(Debug)]
pub enum AddEvent {
    Begun,
    /// The feed was read; it calls itself `title`.
    Fetched { title: String },
}

/// What adding one feed does next.
#[derive(Debug)]
pub enum AddAction {
    Fetch { url: String, summary_max_chars: usize },
    Create { url: String, title: String, seen_retention: usize },
}

/// A feed goes by the title that was asked for, or else by its own.
pub open spec fn add_action(entry: RssToolAddEntry, event: AddEvent, summary_max_chars: usize, seen_retention: usize) -> AddAction {
    match event {
        AddEvent::Begun => AddAction::Fetch { url: entry.url, summary_max_chars },
        AddEvent::Fetched { title } => AddAction::Create {
            url: entry.url,
            title: match entry.title {
                Some(t) => t,
                None => title,
            },
            seen_retention,
        },
    }
}

impl RssManageSubscriptionsTool {
    pub closed spec fn summary_max_chars(self) -> usize {
        self.summary_max_chars
    }

    pub closed spec fn seen_retention(self) -> usize {
        self.seen_retention
    }

    pub fn new(summary_max_chars: usize, seen_retention: usize) -> (r: Self)
        ensures
            r.summary_max_chars() == summary_max_chars,
            r.seen_retention() == seen_retention,
    {
        RssManageSubscriptionsTool { summary_max_chars, seen_retention }
    }

    /// What a call asks for.
    pub fn execute(&self, context: &ToolContext, arguments: &Json) -> (r: Result<ManageRequest, ToolError>)
        ensures
            is_request_of(r, *context, *arguments),
    {
        let operation = match arguments::required_string(arguments.get("operation"), "operation") {
            Ok(s) => s,
            Err(e) => {
                return Err(e);
            },
        };
        match validate_manage_context(context) {
            Some(output) => {
                return Ok(ManageRequest::Refused { output });
            },
            None => {},
        }
        if text::same(operation.as_str(), "add") {
            let entries = match arguments::parse_tool_add_entries(arguments) {
                Ok(v) => v,
                Err(e) => {
                    return Err(e);
                },
            };
            match target_from_context(context) {
                Ok(target) => Ok(ManageRequest::Add { target, entries }),
                Err(e) => Err(e),
            }
        } else if text::same(operation.as_str(), "delete") {
            match arguments::parse_tool_delete_targets(arguments) {
                Ok(targets) => Ok(ManageRequest::Delete { targets }),
                Err(e) => Err(e),
            }
        } else {
            Err(error::reject_bad_arguments("operation must be add or delete"))
        }
    }

    pub fn next_add_action(&self, entry: &RssToolAddEntry, event: AddEvent) -> (r: AddAction)
        ensures
            r == add_action(*entry, event, self.summary_max_chars(), self.seen_retention()),
    {
        match event {
            AddEvent::Begun => AddAction::Fetch {
                url: entry.url.clone(),
                summary_max_chars: self.summary_max_chars,
            },
            AddEvent::Fetched { title } => AddAction::Create {
                url: entry.url.clone(),
                title: match &entry.title {
                    Some(t) => t.clone(),
                    None => title,
                },
                seen_retention: self.seen_retention,
            },
        }
    }
}

// Reports.

/// Whether the trimmed text is cut in a report.
pub open spec fn is_cut(s: Seq<char>, max_chars: int) -> bool {
    text::trimmed(s).len() > max_chars
}

/// The trimmed text; a long one is cut, with three dots at its end.
pub open spec fn compacted(s: Seq<char>, max_chars: int) -> Seq<char> {
    if is_cut(s, max_chars) {
        text::first_chars(text::trimmed(s), if max_chars < 3 {
            0
        } else {
            max_chars - 3
        }) + "..."@
    } else {
        text::trimmed(s)
    }
}

/// Notes in `details_truncated` that a text was cut.
pub fn compact_manage_string(value: &str, max_chars: usize, details_truncated: &mut bool) -> (r: String)
    ensures
        r@ == compacted(value@, max_chars as int),
        *final(details_truncated) == (*old(details_truncated) || is_cut(value@, max_chars as int)),
{
    let t = text::trim(value);
    let len: usize = t.unicode_len();
    if len <= max_chars {
        return t.to_owned();
    }
    *details_truncated = true;
    let n: usize = if max_chars < 3 {
        0
    } else {
        max_chars - 3
    };
    let mut s = text::take_chars(t, n).to_owned();
    s.append("...");
    s
}

pub open spec fn subscription_shape(s: RssSubscription, baseline_item_count: Option<u64>) -> Shape {
    Shape::Object(
        (match baseline_item_count {
            Some(n) => seq![("baseline_item_count"@, Shape::Whole(n))],
            None => Seq::empty(),
        }) + seq![
            ("id"@, Shape::Text(s.id@)),
            ("title"@, Shape::Text(compacted(s.title@, OUTPUT_TITLE_MAX_CHARS as int))),
            ("url"@, Shape::Text(compacted(s.url@, OUTPUT_URL_MAX_CHARS as int))),
        ],
    )
}

pub open spec fn subscription_is_cut(s: RssSubscription) -> bool {
    is_cut(s.title@, OUTPUT_TITLE_MAX_CHARS as int) || is_cut(s.url@, OUTPUT_URL_MAX_CHARS as int)
}

pub fn compact_manage_subscription_json(
    subscription: &RssSubscription,
    baseline_item_count: Option<u64>,
    details_truncated: &mut bool,
) -> (r: Json)
    ensures
        r.shape() == subscription_shape(*subscription, baseline_item_count),
        *final(details_truncated) == (*old(details_truncated) || subscription_is_cut(*subscription)),
{
    let title = compact_manage_string(
        subscription.title.as_str(),
        OUTPUT_TITLE_MAX_CHARS,
        details_truncated,
    );
    let url = compact_manage_string(subscription.url.as_str(), OUTPUT_URL_MAX_CHARS, details_truncated);
    let mut o: Vec<(String, Json)> = Vec::new();
    match baseline_item_count {
        Some(n) => {
            json::put(&mut o, "baseline_item_count", Json::Whole(n));
        },
        None => {},
    }
    json::put(&mut o, "id", Json::Text(subscription.id.clone()));
    json::put(&mut o, "title", Json::Text(title));
    json::put(&mut o, "url", Json::Text(url));
    assert(json::entry_shapes(o@) =~= subscription_shape(*subscription, baseline_item_count)->Object_0);
    Json::Object(o)
}

pub open spec fn failure_shape(url: Seq<char>, error: Seq<char>) -> Shape {
    Shape::Object(
        seq![
            ("error"@, Shape::Text(compacted(error, OUTPUT_ERROR_MAX_CHARS as int))),
            ("url"@, Shape::Text(compacted(url, OUTPUT_URL_MAX_CHARS as int))),
        ],
    )
}

pub open spec fn failure_is_cut(url: Seq<char>, error: Seq<char>) -> bool {
    is_cut(url, OUTPUT_URL_MAX_CHARS as int) || is_cut(error, OUTPUT_ERROR_MAX_CHARS as int)
}

pub fn compact_manage_failure_json(url: &str, error: &str, details_truncated: &mut bool) -> (r: Json)
    ensures
        r.shape() == failure_shape(url@, error@),
        *final(details_truncated) == (*old(details_truncated) || failure_is_cut(url@, error@)),
{
    let short_url = compact_manage_string(url, OUTPUT_URL_MAX_CHARS, details_truncated);
    let short_error = compact_manage_string(error, OUTPUT_ERROR_MAX_CHARS, details_truncated);
    let mut o: Vec<(String, Json)> = Vec::new();
    json::put(&mut o, "error", Json::Text(short_error));
    json::put(&mut o, "url", Json::Text(short_url));
    assert(json::entry_shapes(o@) =~= failure_shape(url@, error@)->Object_0);
    Json::Object(o)
}

/// The sentence that sums a batch up.
pub open spec fn manage_message(operation: Seq<char>, success: int, failed: int) -> Seq<char> {
    if operation == "add"@ {
        "RSS 批量新增完成：成功 "@ + text::decimal(success as nat) + " 个，失败 "@ + text::decimal(failed as nat)
            + " 个。"@
    } else if operation == "delete"@ {
        "RSS 批量删除完成：成功 "@ + text::decimal(success as nat) + " 个，未找到 "@ + text::decimal(
            failed as nat,
        ) + " 个。"@
    } else {
        "RSS 管理操作完成。"@
    }
}

pub fn format_manage_message(operation: &str, success: usize, failed: usize) -> (r: String)
    ensures
        r@ == manage_message(operation@, success as int, failed as int),
{
    if text::same(operation, "add") {
        let mut s = "RSS 批量新增完成：成功 ".to_owned();
        s.append(text::decimal_string(success as u64).as_str());
        s.append(" 个，失败 ");
        s.append(text::decimal_string(failed as u64).as_str());
        s.append(" 个。");
        s
    } else if text::same(operation, "delete") {
        let mut s = "RSS 批量删除完成：成功 ".to_owned();
        s.append(text::decimal_string(success as u64).as_str());
        s.append(" 个，未找到 ");
        s.append(text::decimal_string(failed as u64).as_str());
        s.append(" 个。");
        s
    } else {
        "RSS 管理操作完成。".to_owned()
    }
}

/// Why a feed could not be read.
#[derive(Debug)]
pub enum RssFeedError {
    Status { status: u16 },
    UnsafeHost,
    Other { message: String },
}

pub open spec fn feed_error(e: RssFeedError) -> Seq<char> {
    match e {
        RssFeedError::Status { status } => "HTTP "@ + text::decimal(status as nat),
        RssFeedError::UnsafeHost => "地址指向本机、内网或 metadata，已拦截"@,
        RssFeedError::Other { message } => message@,
    }
}

pub fn feed_error_reply(e: &RssFeedError) -> (r: String)
    ensures
        r@ == feed_error(*e),
{
    match e {
        RssFeedError::Status { status } => {
            let mut s = "HTTP ".to_owned();
            s.append(text::decimal_string(*status as u64).as_str());
            s
        },
        RssFeedError::UnsafeHost => "地址指向本机、内网或 metadata，已拦截".to_owned(),
        RssFeedError::Other { message } => message.clone(),
    }
}

/// What the tool reports where the store fails.
pub fn rss_store_error(code: &str, message: &str) -> (r: ToolError)
    ensures
        r.shown() == (code@, "rss store failed: "@ + message@, "rss"@),
{
    let mut m = "rss store failed: ".to_owned();
    m.append(message);
    ToolError::new(code, m.as_str(), "rss")
}

/// What came of adding one feed.
#[derive(Debug)]
pub enum AddResult {
    Created { subscription: RssSubscription, item_count: u64 },
    /// The feed could not be read.
    Unread { url: String, error: RssFeedError },
    /// The store did not take the subscription.
    Refused { url: String, message: String },
}

/// The subscriptions that were made, in their order.
pub open spec fn created_shapes(results: Seq<AddResult>) -> Seq<Shape>
    decreases results.len(),
{
    if results.len() == 0 {
        Seq::empty()
    } else {
        let before = created_shapes(results.drop_last());
        match results.last() {
            AddResult::Created { subscription, item_count } => before.push(
                subscription_shape(subscription, Some(item_count)),
            ),
            _ => before,
        }
    }
}

/// The feeds that were not added, in their order.
pub open spec fn failed_shapes(results: Seq<AddResult>) -> Seq<Shape>
    decreases results.len(),
{
    if results.len() == 0 {
        Seq::empty()
    } else {
        let before = failed_shapes(results.drop_last());
        match results.last() {
            AddResult::Created { .. } => before,
            AddResult::Unread { url, error } => before.push(failure_shape(url@, feed_error(error))),
            AddResult::Refused { url, message } => before.push(failure_shape(url@, message@)),
        }
    }
}

pub open spec fn result_is_cut(r: AddResult) -> bool {
    match r {
        AddResult::Created { subscription, .. } => subscription_is_cut(subscription),
        AddResult::Unread { url, error } => failure_is_cut(url@, feed_error(error)),
        AddResult::Refused { url, message } => failure_is_cut(url@, message@),
    }
}

pub open spec fn add_shape(scope_id: Seq<char>, results: Seq<AddResult>) -> Shape {
    let created = created_shapes(results);
    let failed = failed_shapes(results);
    Shape::Object(
        seq![
            ("created"@, Shape::List(created)),
            (
                "details_truncated"@,
                Shape::Bool(
                    is_cut(scope_id, OUTPUT_SCOPE_MAX_CHARS as int) || exists|i: int|
                        0 <= i < results.len() && result_is_cut(#[trigger] results[i]),
                ),
            ),
            ("failed"@, Shape::List(failed)),
            ("message"@, Shape::Text(manage_message("add"@, created.len() as int, failed.len() as int))),
            ("ok"@, Shape::Bool(created.len() > 0)),
            ("operation"@, Shape::Text("add"@)),
            ("scope_id"@, Shape::Text(compacted(scope_id, OUTPUT_SCOPE_MAX_CHARS as int))),
        ],
    )
}

proof fn lemma_shapes_len(items: Seq<Json>)
    ensures
        json::shapes(items).len() == items.len(),
    decreases items.len(),
{
    if items.len() > 0 {
        lemma_shapes_len(items.drop_last());
    }
}

/// The report of a batch of feeds to add.
pub fn add_output(context: &ToolContext, results: &Vec<AddResult>) -> (r: Json)
    ensures
        r.shape() == add_shape(context.scope_id@, results@),
{
    let mut created: Vec<Json> = Vec::new();
    let mut failed: Vec<Json> = Vec::new();
    let mut cut = false;
    let mut i: usize = 0;
    assert(results@.take(0) =~= Seq::empty());
    while i < results.len()
        invariant
            0 <= i <= results@.len(),
            json::shapes(created@) == created_shapes(results@.take(i as int)),
            json::shapes(failed@) == failed_shapes(results@.take(i as int)),
            cut == (exists|k: int| 0 <= k < i && result_is_cut(#[trigger] results@[k])),
        decreases results@.len() - i,
    {
        let ghost was_cut = cut;
        proof {
            assert(results@.take(i + 1).drop_last() =~= results@.take(i as int));
            assert(results@.take(i + 1).last() == results@[i as int]);
        }
        match &results[i] {
            AddResult::Created { subscription, item_count } => {
                let v = compact_manage_subscription_json(subscription, Some(*item_count), &mut cut);
                json::append_item(&mut created, v);
            },
            AddResult::Unread { url, error } => {
                let message = feed_error_reply(error);
                let v = compact_manage_failure_json(url.as_str(), message.as_str(), &mut cut);
                json::append_item(&mut failed, v);
            },
            AddResult::Refused { url, message } => {
                let v = compact_manage_failure_json(url.as_str(), message.as_str(), &mut cut);
                json::append_item(&mut failed, v);
            },
        }
        proof {
            assert(cut == (was_cut || result_is_cut(results@[i as int])));
            if cut {
                if was_cut {
                    let k = choose|k: int| 0 <= k < i && result_is_cut(#[trigger] results@[k]);
                    assert(0 <= k < i + 1 && result_is_cut(results@[k]));
                } else {
                    assert(0 <= i < i + 1 && result_is_cut(results@[i as int]));
                }
            }
        }
        i += 1;
    }
    assert(results@.take(i as int) =~= results@);
    proof {
        lemma_shapes_len(created@);
        lemma_shapes_len(failed@);
    }
    let scope = compact_manage_string(context.scope_id.as_str(), OUTPUT_SCOPE_MAX_CHARS, &mut cut);
    let message = format_manage_message("add", created.len(), failed.len());
    let ok = created.len() > 0;
    let mut o: Vec<(String, Json)> = Vec::new();
    json::put(&mut o, "created", Json::List(created));
    json::put(&mut o, "details_truncated", Json::Bool(cut));
    json::put(&mut o, "failed", Json::List(failed));
    json::put(&mut o, "message", Json::Text(message));
    json::put(&mut o, "ok", Json::Bool(ok));
    json::put(&mut o, "operation", json::text_value("add"));
    json::put(&mut o, "scope_id", Json::Text(scope));
    assert(json::entry_shapes(o@) =~= add_shape(context.scope_id@, results@)->Object_0);
    Json::Object(o)
}

// Finding what to delete.

/// The number that the digits write.
pub open spec fn number(s: Seq<char>) -> nat
    decreases s.len(),
{
    if s.len() == 0 {
        0
    } else {
        number(s.drop_last()) * 10 + ((s.last() as int - '0' as int) as nat)
    }
}

pub open spec fn all_digits(s: Seq<char>) -> bool {
    forall|i: int| 0 <= i < s.len() ==> text::is_digit(#[trigger] s[i])
}

pub open spec fn is_first_with(subscriptions: Seq<RssSubscription>, prefix: Seq<char>, i: int) -> bool {
    0 <= i < subscriptions.len() && text::starts_with(subscriptions[i].id@, prefix) && forall|k: int|
        0 <= k < i ==> !text::starts_with((#[trigger] subscriptions[k]).id@, prefix)
}

/// The first word of a target.
pub open spec fn target_word(target: Seq<char>) -> Seq<char> {
    let words = text::words(target);
    if words.len() == 0 {
        Seq::empty()
    } else {
        words[0]
    }
}

/// The subscription that a target names: a number counts from one, another text is the start
/// of an id.
pub open spec fn resolved(subscriptions: Seq<RssSubscription>, target: Seq<char>) -> Option<int> {
    let t = target_word(target);
    if all_digits(t) {
        if t.len() > 0 && 1 <= number(t) <= subscriptions.len() {
            Some(number(t) - 1)
        } else {
            None
        }
    } else if exists|i: int| is_first_with(subscriptions, t, i) {
        Some(choose|i: int| is_first_with(subscriptions, t, i))
    } else {
        None
    }
}

fn are_digits(s: &str) -> (r: bool)
    ensures
        r == all_digits(s@),
{
    let v = text::chars_of(s);
    let mut i: usize = 0;
    while i < v.len()
        invariant
            0 <= i <= v@.len(),
            v@ == s@,
            forall|k: int| 0 <= k < i ==> text::is_digit(#[trigger] s@[k]),
        decreases v@.len() - i,
    {
        if !text::is_ascii_digit(v[i]) {
            assert(!text::is_digit(s@[i as int]));
            return false;
        }
        i += 1;
    }
    true
}

proof fn lemma_number_grows(s: Seq<char>, n: int)
    requires
        0 <= n <= s.len(),
        all_digits(s),
    ensures
        number(s.take(n)) <= number(s),
    decreases s.len() - n,
{
    if n == s.len() {
        assert(s.take(n) =~= s);
    } else {
        assert(s.take(n + 1).drop_last() =~= s.take(n));
        lemma_number_grows(s, n + 1);
    }
}

fn digit_of(c: char) -> (r: u32)
    requires
        text::is_digit(c),
    ensures
        r == c as int - '0' as int,
        r < 10,
{
    c as u32 - '0' as u32
}

/// The number that the digits write, if it is at most `most`.
fn number_up_to(s: &str, most: usize) -> (r: Option<usize>)
    requires
        all_digits(s@),
    ensures
        match r {
            Some(n) => n == number(s@) && n <= most,
            None => number(s@) > most,
        },
{
    let v = text::chars_of(s);
    let mut n: u128 = 0;
    let mut i: usize = 0;
    assert(s@.take(0) =~= Seq::empty());
    while i < v.len()
        invariant
            0 <= i <= v@.len(),
            v@ == s@,
            all_digits(s@),
            n == number(s@.take(i as int)),
            n <= most,
        decreases v@.len() - i,
    {
        let c = v[i];
        proof {
            assert(text::is_digit(s@[i as int]));
            assert(s@.take(i + 1).drop_last() =~= s@.take(i as int));
            assert(s@.take(i + 1).last() == c);
        }
        let next: u128 = n * 10 + digit_of(c) as u128;
        if next > most as u128 {
            proof {
                lemma_number_grows(s@, i + 1);
            }
            return None;
        }
        n = next;
        i += 1;
    }
    assert(s@.take(i as int) =~= s@);
    Some(n as usize)
}

pub fn resolve_subscription_target(subscriptions: &Vec<RssSubscription>, target: &str) -> (r: Option<usize>)
    ensures
        match r {
            Some(i) => resolved(subscriptions@, target@) == Some(i as int) && i < subscriptions@.len(),
            None => resolved(subscriptions@, target@) is None,
        },
{
    let words = text::split_words(target);
    let t = if words.len() == 0 {
        assert(text::words(target@).len() == 0);
        "".to_owned()
    } else {
        assert(text::words(target@)[0] == words@[0]@);
        words[0].clone()
    };
    proof {
        reveal_strlit("");
        assert(t@ =~= target_word(target@));
    }
    if are_digits(t.as_str()) {
        let len: usize = t.as_str().unicode_len();
        if len == 0 {
            return None;
        }
        return match number_up_to(t.as_str(), subscriptions.len()) {
            Some(n) => {
                if n == 0 {
                    None
                } else {
                    Some(n - 1)
                }
            },
            None => None,
        };
    }
    let mut i: usize = 0;
    while i < subscriptions.len()
        invariant
            0 <= i <= subscriptions@.len(),
            t@ == target_word(target@),
            !all_digits(t@),
            forall|k: int| 0 <= k < i ==> !text::starts_with((#[trigger] subscriptions@[k]).id@, t@),
        decreases subscriptions@.len() - i,
    {
        if text::has_prefix(subscriptions[i].id.as_str(), t.as_str()) {
            proof {
                assert(is_first_with(subscriptions@, t@, i as int));
                let k = choose|k: int| is_first_with(subscriptions@, t@, k);
                if k < i {
                    assert(!text::starts_with(subscriptions@[k].id@, t@));
                } else if i < k {
                    assert(!text::starts_with(subscriptions@[i as int].id@, t@));
                }
            }
            return Some(i);
        }
        i += 1;
    }
    None
}

/// Whether a subscription with the id is among those at the positions.
pub open spec fn has_id(subscriptions: Seq<RssSubscription>, positions: Seq<int>, id: Seq<char>) -> bool {
    exists|k: int| 0 <= k < positions.len() && subscriptions[#[trigger] positions[k]].id@ == id
}

/// The subscriptions that the targets name, each once.
pub open spec fn chosen(subscriptions: Seq<RssSubscription>, targets: Seq<Seq<char>>) -> Seq<int>
    decreases targets.len(),
{
    if targets.len() == 0 {
        Seq::empty()
    } else {
        let before = chosen(subscriptions, targets.drop_last());
        match resolved(subscriptions, targets.last()) {
            Some(i) => if has_id(subscriptions, before, subscriptions[i].id@) {
                before
            } else {
                before.push(i)
            },
            None => before,
        }
    }
}

/// The targets that name none.
pub open spec fn missing(subscriptions: Seq<RssSubscription>, targets: Seq<Seq<char>>) -> Seq<Seq<char>>
    decreases targets.len(),
{
    if targets.len() == 0 {
        Seq::empty()
    } else {
        let before = missing(subscriptions, targets.drop_last());
        if resolved(subscriptions, targets.last()) is None {
            before.push(compacted(targets.last(), OUTPUT_TARGET_MAX_CHARS as int))
        } else {
            before
        }
    }
}

/// Whether a target that names none is cut in the report.
pub open spec fn missing_is_cut(subscriptions: Seq<RssSubscription>, targets: Seq<Seq<char>>) -> bool
    decreases targets.len(),
{
    targets.len() > 0 && (missing_is_cut(subscriptions, targets.drop_last()) || (resolved(
        subscriptions,
        targets.last(),
    ) is None && is_cut(targets.last(), OUTPUT_TARGET_MAX_CHARS as int)))
}

/// What a request to delete comes to.
#[derive(Debug)]
pub struct DeletePlan {
    /// The positions of the subscriptions to delete.
    pub positions: Vec<usize>,
    pub missing: Vec<String>,
    pub details_truncated: bool,
}

pub open spec fn ints(v: Seq<usize>) -> Seq<int> {
    Seq::new(v.len(), |i: int| v[i] as int)
}

fn holds_id(subscriptions: &Vec<RssSubscription>, positions: &Vec<usize>, id: &str) -> (r: bool)
    requires
        forall|k: int| 0 <= k < positions@.len() ==> (#[trigger] positions@[k]) < subscriptions@.len(),
    ensures
        r == has_id(subscriptions@, ints(positions@), id@),
{
    let mut i: usize = 0;
    while i < positions.len()
        invariant
            0 <= i <= positions@.len(),
            forall|k: int|
                0 <= k < positions@.len() ==> (#[trigger] positions@[k]) < subscriptions@.len(),
            forall|k: int|
                0 <= k < i ==> subscriptions@[#[trigger] ints(positions@)[k]].id@ != id@,
        decreases positions@.len() - i,
    {
        let at = positions[i];
        assert(ints(positions@)[i as int] == at as int);
        if text::same(subscriptions[at].id.as_str(), id) {
            return true;
        }
        i += 1;
    }
    false
}

pub fn plan_delete(subscriptions: &Vec<RssSubscription>, targets: &Vec<String>) -> (r: DeletePlan)
    ensures
        ints(r.positions@) == chosen(subscriptions@, text::views(targets@)),
        forall|k: int| 0 <= k < r.positions@.len() ==> (#[trigger] r.positions@[k]) < subscriptions@.len(),
        text::views(r.missing@) == missing(subscriptions@, text::views(targets@)),
        r.details_truncated == missing_is_cut(subscriptions@, text::views(targets@)),
{
    let ghost all = text::views(targets@);
    let mut positions: Vec<usize> = Vec::new();
    let mut absent: Vec<String> = Vec::new();
    let mut cut = false;
    let mut i: usize = 0;
    proof {
        assert(all.take(0) =~= Seq::empty());
        assert(ints(positions@) =~= Seq::empty());
        assert(text::views(absent@) =~= Seq::empty());
    }
    while i < targets.len()
        invariant
            0 <= i <= targets@.len(),
            all == text::views(targets@),
            ints(positions@) == chosen(subscriptions@, all.take(i as int)),
            forall|k: int|
                0 <= k < positions@.len() ==> (#[trigger] positions@[k]) < subscriptions@.len(),
            text::views(absent@) == missing(subscriptions@, all.take(i as int)),
            cut == missing_is_cut(subscriptions@, all.take(i as int)),
        decreases targets@.len() - i,
    {
        let ghost earlier = positions@;
        let ghost before = absent@;
        proof {
            assert(all.take(i + 1).drop_last() =~= all.take(i as int));
            assert(all.take(i + 1).last() == targets@[i as int]@);
        }
        match resolve_subscription_target(subscriptions, targets[i].as_str()) {
            Some(at) => {
                if !holds_id(subscriptions, &positions, subscriptions[at].id.as_str()) {
                    positions.push(at);
                    assert(ints(positions@) =~= ints(earlier).push(at as int));
                }
            },
            None => {
                let s = compact_manage_string(targets[i].as_str(), OUTPUT_TARGET_MAX_CHARS, &mut cut);
                absent.push(s);
                assert(text::views(absent@) =~= text::views(before).push(s@));
            },
        }
        i += 1;
    }
    assert(all.take(i as int) =~= all);
    DeletePlan { positions, missing: absent, details_truncated: cut }
}

/// What came of deleting one subscription.
#[derive(Debug)]
pub struct DeleteResult {
    pub subscription: RssSubscription,
    pub was_deleted: bool,
}

/// The subscriptions that were deleted, in their order.
pub open spec fn deleted_shapes(results: Seq<DeleteResult>) -> Seq<Shape>
    decreases results.len(),
{
    if results.len() == 0 {
        Seq::empty()
    } else {
        let before = deleted_shapes(results.drop_last());
        if results.last().was_deleted {
            before.push(subscription_shape(results.last().subscription, None))
        } else {
            before
        }
    }
}

pub open spec fn delete_shape(scope_id: Seq<char>, plan: DeletePlan, results: Seq<DeleteResult>) -> Shape {
    let deleted = deleted_shapes(results);
    Shape::Object(
        seq![
            ("deleted"@, Shape::List(deleted)),
            (
                "details_truncated"@,
                Shape::Bool(
                    plan.details_truncated || is_cut(scope_id, OUTPUT_SCOPE_MAX_CHARS as int) || exists|
                        i: int,
                    |
                        0 <= i < results.len() && (#[trigger] results[i]).was_deleted
                            && subscription_is_cut(results[i].subscription),
                ),
            ),
            (
                "message"@,
                Shape::Text(
                    manage_message("delete"@, deleted.len() as int, plan.missing@.len() as int),
                ),
            ),
            ("missing"@, Shape::List(json::text_shapes(text::views(plan.missing@)))),
            ("ok"@, Shape::Bool(deleted.len() > 0)),
            ("operation"@, Shape::Text("delete"@)),
            ("scope_id"@, Shape::Text(compacted(scope_id, OUTPUT_SCOPE_MAX_CHARS as int))),
        ],
    )
}

/// The report of a batch of subscriptions to delete.
pub fn delete_output(context: &ToolContext, plan: &DeletePlan, results: &Vec<DeleteResult>) -> (r: Json)
    ensures
        r.shape() == delete_shape(context.scope_id@, *plan, results@),
{
    let mut deleted: Vec<Json> = Vec::new();
    let mut cut = plan.details_truncated;
    let mut i: usize = 0;
    assert(results@.take(0) =~= Seq::empty());
    while i < results.len()
        invariant
            0 <= i <= results@.len(),
            json::shapes(deleted@) == deleted_shapes(results@.take(i as int)),
            cut == (plan.details_truncated || exists|k: int|
                0 <= k < i && (#[trigger] results@[k]).was_deleted && subscription_is_cut(
                    results@[k].subscription,
                )),
        decreases results@.len() - i,
    {
        let ghost was_cut = cut;
        proof {
            assert(results@.take(i + 1).drop_last() =~= results@.take(i as int));
            assert(results@.take(i + 1).last() == results@[i as int]);
        }
        if results[i].was_deleted {
            let v = compact_manage_subscription_json(&results[i].subscription, None, &mut cut);
            json::append_item(&mut deleted, v);
        }
        proof {
            let here = results@[i as int].was_deleted && subscription_is_cut(
                results@[i as int].subscription,
            );
            assert(cut == (was_cut || here));
            if here {
                assert(0 <= i < i + 1 && results@[i as int].was_deleted && subscription_is_cut(
                    results@[i as int].subscription,
                ));
            }
        }
        i += 1;
    }
    assert(results@.take(i as int) =~= results@);
    proof {
        lemma_shapes_len(deleted@);
    }
    let scope = compact_manage_string(context.scope_id.as_str(), OUTPUT_SCOPE_MAX_CHARS, &mut cut);
    let message = format_manage_message("delete", deleted.len(), plan.missing.len());
    let ok = deleted.len() > 0;
    let mut o: Vec<(String, Json)> = Vec::new();
    json::put(&mut o, "deleted", Json::List(deleted));
    json::put(&mut o, "details_truncated", Json::Bool(cut));
    json::put(&mut o, "message", Json::Text(message));
    json::put(&mut o, "missing", json::list_value(&plan.missing));
    json::put(&mut o, "ok", Json::Bool(ok));
    json::put(&mut o, "operation", json::text_value("delete"));
    json::put(&mut o, "scope_id", Json::Text(scope));
    assert(json::entry_shapes(o@) =~= delete_shape(context.scope_id@, *plan, results@)->Object_0);
    Json::Object(o)
}

// Recent items.

#[derive(Debug)]
pub struct RssRecentItem {
    pub subscription_id: String,
    pub subscription_title: String,
    pub subscription_url: String,
    pub item_key: String,
    pub revision_hash: String,
    pub title: String,
    pub link: Option<String>,
    pub published_at: Option<String>,
    pub updated_at: Option<String>,
    pub summary: Option<String>,
    pub pushed_at: Option<String>,
    pub last_seen_at: String,
}

pub open spec fn recent_subscription_shape(item: RssRecentItem) -> Shape {
    Shape::Object(
        seq![
            ("id"@, Shape::Text(item.subscription_id@)),
            ("title"@, Shape::Text(item.subscription_title@)),
            ("url"@, Shape::Text(item.subscription_url@)),
        ],
    )
}

pub open spec fn recent_entry_shape(item: RssRecentItem) -> Shape {
    Shape::Object(
        seq![
            ("item_key"@, Shape::Text(item.item_key@)),
            ("last_seen_at"@, Shape::Text(item.last_seen_at@)),
            ("link"@, json::text_shape(text::opt_view(item.link))),
            ("published_at"@, json::text_shape(text::opt_view(item.published_at))),
            ("pushed_at"@, json::text_shape(text::opt_view(item.pushed_at))),
            ("revision_hash"@, Shape::Text(item.revision_hash@)),
            ("summary"@, json::text_shape(text::opt_view(item.summary))),
            ("title"@, Shape::Text(item.title@)),
            ("updated_at"@, json::text_shape(text::opt_view(item.updated_at))),
        ],
    )
}

pub open spec fn recent_shape(item: RssRecentItem) -> Shape {
    Shape::Object(
        seq![("item"@, recent_entry_shape(item)), ("subscription"@, recent_subscription_shape(item))],
    )
}

pub fn recent_item_json(item: &RssRecentItem) -> (r: Json)
    ensures
        r.shape() == recent_shape(*item),
{
    let mut entry: Vec<(String, Json)> = Vec::new();
    json::put(&mut entry, "item_key", Json::Text(item.item_key.clone()));
    json::put(&mut entry, "last_seen_at", Json::Text(item.last_seen_at.clone()));
    json::put(&mut entry, "link", json::option_value(&item.link));
    json::put(&mut entry, "published_at", json::option_value(&item.published_at));
    json::put(&mut entry, "pushed_at", json::option_value(&item.pushed_at));
    json::put(&mut entry, "revision_hash", Json::Text(item.revision_hash.clone()));
    json::put(&mut entry, "summary", json::option_value(&item.summary));
    json::put(&mut entry, "title", Json::Text(item.title.clone()));
    json::put(&mut entry, "updated_at", json::option_value(&item.updated_at));
    assert(json::entry_shapes(entry@) =~= recent_entry_shape(*item)->Object_0);
    let mut subscription: Vec<(String, Json)> = Vec::new();
    json::put(&mut subscription, "id", Json::Text(item.subscription_id.clone()));
    json::put(&mut subscription, "title", Json::Text(item.subscription_title.clone()));
    json::put(&mut subscription, "url", Json::Text(item.subscription_url.clone()));
    assert(json::entry_shapes(subscription@) =~= recent_subscription_shape(*item)->Object_0);
    let mut o: Vec<(String, Json)> = Vec::new();
    json::put(&mut o, "item", Json::Object(entry));
    json::put(&mut o, "subscription", Json::Object(subscription));
    assert(json::entry_shapes(o@) =~= recent_shape(*item)->Object_0);
    Json::Object(o)
}

/// The tool that looks recent items up.
#[derive(Debug)]
pub struct RssRecentItemsTool {}

/// What is looked up in the conversation's subscriptions.
#[derive(Debug)]
pub struct RecentRequest {
    pub query: Option<String>,
    pub limit: usize,
}

pub open spec fn is_recent_request(r: Result<RecentRequest, ToolError>, arguments: Json) -> bool {
    match arguments::query_in(arguments.entry("query"@)) {
        Err(f) => r matches Err(e) && e.shown() == f,
        Ok(query) => match arguments::limit_in(arguments.entry("limit"@)) {
            Err(f) => r matches Err(e) && e.shown() == f,
            Ok(limit) => r matches Ok(q) && text::opt_view(q.query) == query && q.limit == limit,
        },
    }
}

pub open spec fn recent_output_shape(scope_id: Seq<char>, request: RecentRequest, items: Seq<RssRecentItem>) -> Shape {
    Shape::Object(
        seq![
            ("items"@, Shape::List(Seq::new(items.len(), |i: int| recent_shape(items[i])))),
            ("limit"@, Shape::Whole(request.limit as u64)),
            ("query"@, json::text_shape(text::opt_view(request.query))),
            ("scope_id"@, Shape::Text(scope_id)),
            (
                "summary_guidance"@,
                Shape::Text(
                    "如用户要求总结 RSS 最近更新，请只基于 items 中的 title/summary/link/published_at/updated_at 归纳，不要编造未返回的更新。"@,
                ),
            ),
        ],
    )
}

impl RssRecentItemsTool {
    pub fn new() -> (r: Self)
        ensures
            r == (RssRecentItemsTool {  }),
    {
        RssRecentItemsTool {  }
    }

    /// What a call asks for.
    pub fn execute(&self, arguments: &Json) -> (r: Result<RecentRequest, ToolError>)
        ensures
            is_recent_request(r, *arguments),
    {
        let query = match arguments::parse_query(arguments.get("query")) {
            Ok(q) => q,
            Err(e) => {
                return Err(e);
            },
        };
        match arguments::parse_limit(arguments.get("limit")) {
            Ok(limit) => Ok(RecentRequest { query, limit }),
            Err(e) => Err(e),
        }
    }

    /// The report of the items that were found.
    pub fn output(&self, context: &ToolContext, request: &RecentRequest, items: &Vec<RssRecentItem>) -> (r: Json)
        ensures
            r.shape() == recent_output_shape(context.scope_id@, *request, items@),
    {
        let ghost wanted = Seq::new(items@.len(), |i: int| recent_shape(items@[i]));
        let mut list: Vec<Json> = Vec::new();
        let mut i: usize = 0;
        while i < items.len()
            invariant
                0 <= i <= items@.len(),
                wanted == Seq::new(items@.len(), |i: int| recent_shape(items@[i])),
                json::shapes(list@) == wanted.take(i as int),
            decreases items@.len() - i,
        {
            json::append_item(&mut list, recent_item_json(&items[i]));
            assert(json::shapes(list@) =~= wanted.take(i + 1));
            i += 1;
        }
        assert(wanted.take(i as int) =~= wanted);
        let mut o: Vec<(String, Json)> = Vec::new();
        json::put(&mut o, "items", Json::List(list));
        json::put(&mut o, "limit", Json::Whole(request.limit as u64));
        json::put(&mut o, "query", json::option_value(&request.query));
        json::put(&mut o, "scope_id", Json::Text(context.scope_id.clone()));
        json::put(
            &mut o,
            "summary_guidance",
            json::text_value(
                "如用户要求总结 RSS 最近更新，请只基于 items 中的 title/summary/link/published_at/updated_at 归纳，不要编造未返回的更新。",
            ),
        );
        assert(json::entry_shapes(o@) =~= recent_output_shape(context.scope_id@, *request, items@)->Object_0);
        Json::Object(o)
    }
}

/// In a group, only those who manage it get past the check of the conversation.
pub proof fn groups_are_managed_by_their_managers(
    r: Result<ManageRequest, ToolError>,
    context: ToolContext,
    arguments: Json,
)
    requires
        is_request_of(r, context, arguments),
        context.kind == ConversationKind::Group,
        !context.is_group_manager,
    ensures
        !(r matches Ok(ManageRequest::Add { .. })),
        !(r matches Ok(ManageRequest::Delete { .. })),
{
}

/// No subscription is deleted twice for one request.
pub proof fn no_subscription_is_chosen_twice(subscriptions: Seq<RssSubscription>, targets: Seq<Seq<char>>)
    ensures
        forall|i: int, k: int|
            0 <= i < k < chosen(subscriptions, targets).len()
                ==> subscriptions[#[trigger] chosen(subscriptions, targets)[i]].id@
                != subscriptions[#[trigger] chosen(subscriptions, targets)[k]].id@,
    decreases targets.len(),
{
    if targets.len() > 0 {
        no_subscription_is_chosen_twice(subscriptions, targets.drop_last());
        let before = chosen(subscriptions, targets.drop_last());
        let all = chosen(subscriptions, targets);
        assert forall|i: int, k: int| 0 <= i < k < all.len() implies subscriptions[#[trigger] all[i]].id@
            != subscriptions[#[trigger] all[k]].id@ by {
            assert(before[i] == all[i]);
            if k < before.len() {
                assert(before[k] == all[k]);
            }
        }
    }
}

} // verus!
