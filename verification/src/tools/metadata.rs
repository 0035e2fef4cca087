//! How the tools are offered to a model: their names, what they are for, and what they take.
use vstd::prelude::*;
use vstd::string::*;

use crate::json;
use crate::json::{Json, Shape};
use crate::knowledge::tool::KnowledgeSearchTool;
use crate::memory::save::SaveMemoryTool;
use crate::rss::tool::{RssManageSubscriptionsTool, RssRecentItemsTool};
use crate::tools::search::WebSearchTool;

verus! {

#[derive(Debug)]
pub struct ToolMetadata {
    pub name: String,
    pub description: String,
    /// The JSON schema of the arguments.
    pub parameters: Json,
}

/// Name, description and schema.
pub type MetadataView = (Seq<char>, Seq<char>, Shape);

impl ToolMetadata {
    pub open spec fn shown(self) -> MetadataView {
        (self.name@, self.description@, self.parameters.shape())
    }
}

/// Whether a call of a tool changes anything.
#[derive(Debug, Clone, Copy, PartialEq, Eq, Structural)]
pub enum CallEffect {
    ReadOnly,
    SideEffecting,
}

pub open spec fn integer_or_null_shape() -> Shape {
    Shape::List(seq![Shape::Text("integer"@), Shape::Text("null"@)])
}

fn integer_or_null() -> (r: Json)
    ensures
        r.shape() == integer_or_null_shape(),
{
    let mut l: Vec<Json> = Vec::new();
    json::append_item(&mut l, json::text_value("integer"));
    json::append_item(&mut l, json::text_value("null"));
    assert(json::shapes(l@) =~= integer_or_null_shape()->List_0);
    Json::List(l)
}

pub open spec fn recent_items_fields_limit_shape() -> Shape {
    Shape::Object(
        seq![
            ("description"@, Shape::Text("返回条数，1 到 20；询问“上次/最新一条”时传 1，需要总结最近更新时可传 10 到 20，不确定时传 null"@)),
            ("maximum"@, Shape::Whole(20)),
            ("minimum"@, Shape::Whole(1)),
            ("type"@, integer_or_null_shape()),
        ],
    )
}

fn recent_items_fields_limit() -> (r: Json)
    ensures
        r.shape() == recent_items_fields_limit_shape(),
{
    let mut o: Vec<(String, Json)> = Vec::new();
    json::put(&mut o, "description", json::text_value("返回条数，1 到 20；询问“上次/最新一条”时传 1，需要总结最近更新时可传 10 到 20，不确定时传 null"));
    json::put(&mut o, "maximum", Json::Whole(20));
    json::put(&mut o, "minimum", Json::Whole(1));
    json::put(&mut o, "type", integer_or_null());
    assert(json::entry_shapes(o@) =~= recent_items_fields_limit_shape()->Object_0);
    Json::Object(o)
}

pub open spec fn string_or_null_shape() -> Shape {
    Shape::List(seq![Shape::Text("string"@), Shape::Text("null"@)])
}

fn string_or_null() -> (r: Json)
    ensures
        r.shape() == string_or_null_shape(),
{
    let mut l: Vec<Json> = Vec::new();
    json::append_item(&mut l, json::text_value("string"));
    json::append_item(&mut l, json::text_value("null"));
    assert(json::shapes(l@) =~= string_or_null_shape()->List_0);
    Json::List(l)
}

pub open spec fn recent_items_fields_query_shape() -> Shape {
    Shape::Object(
        seq![
            ("description"@, Shape::Text("订阅名、RSS 地址、条目标题、摘要或链接关键词，例如 codex；不确定时传 null"@)),
            ("type"@, string_or_null_shape()),
        ],
    )
}

fn recent_items_fields_query() -> (r: Json)
    ensures
        r.shape() == recent_items_fields_query_shape(),
{
    let mut o: Vec<(String, Json)> = Vec::new();
    json::put(&mut o, "description", json::text_value("订阅名、RSS 地址、条目标题、摘要或链接关键词，例如 codex；不确定时传 null"));
    json::put(&mut o, "type", string_or_null());
    assert(json::entry_shapes(o@) =~= recent_items_fields_query_shape()->Object_0);
    Json::Object(o)
}

pub open spec fn recent_items_fields_shape() -> Shape {
    Shape::Object(
        seq![
            ("limit"@, recent_items_fields_limit_shape()),
            ("query"@, recent_items_fields_query_shape()),
        ],
    )
}

fn recent_items_fields() -> (r: Json)
    ensures
        r.shape() == recent_items_fields_shape(),
{
    let mut o: Vec<(String, Json)> = Vec::new();
    json::put(&mut o, "limit", recent_items_fields_limit());
    json::put(&mut o, "query", recent_items_fields_query());
    assert(json::entry_shapes(o@) =~= recent_items_fields_shape()->Object_0);
    Json::Object(o)
}

pub open spec fn recent_items_required_shape() -> Shape {
    Shape::List(seq![Shape::Text("query"@), Shape::Text("limit"@)])
}

fn recent_items_required() -> (r: Json)
    ensures
        r.shape() == recent_items_required_shape(),
{
    let mut l: Vec<Json> = Vec::new();
    json::append_item(&mut l, json::text_value("query"));
    json::append_item(&mut l, json::text_value("limit"));
    assert(json::shapes(l@) =~= recent_items_required_shape()->List_0);
    Json::List(l)
}

pub open spec fn recent_items_shape() -> Shape {
    Shape::Object(
        seq![
            ("additionalProperties"@, Shape::Bool(false)),
            ("properties"@, recent_items_fields_shape()),
            ("required"@, recent_items_required_shape()),
            ("type"@, Shape::Text("object"@)),
        ],
    )
}

fn recent_items() -> (r: Json)
    ensures
        r.shape() == recent_items_shape(),
{
    let mut o: Vec<(String, Json)> = Vec::new();
    json::put(&mut o, "additionalProperties", Json::Bool(false));
    json::put(&mut o, "properties", recent_items_fields());
    json::put(&mut o, "required", recent_items_required());
    json::put(&mut o, "type", json::text_value("object"));
    assert(json::entry_shapes(o@) =~= recent_items_shape()->Object_0);
    Json::Object(o)
}

pub open spec fn recent_items_metadata() -> MetadataView {
    (
        "get_rss_recent_items"@,
        "查询当前会话已订阅 RSS / Atom 的最近条目。用于回答某个订阅或关键词上次发布了什么、最近 RSS 更新有哪些，也用于先读取本地条目的标题、摘要、链接和时间后总结最近更新；只读取本地已轮询入库状态，不新增订阅、不刷新远端。"@,
        recent_items_shape(),
    )
}

impl RssRecentItemsTool {
    pub fn metadata(&self) -> (r: ToolMetadata)
        ensures
            r.shown() == recent_items_metadata(),
    {
        ToolMetadata {
            name: "get_rss_recent_items".to_owned(),
            description: "查询当前会话已订阅 RSS / Atom 的最近条目。用于回答某个订阅或关键词上次发布了什么、最近 RSS 更新有哪些，也用于先读取本地条目的标题、摘要、链接和时间后总结最近更新；只读取本地已轮询入库状态，不新增订阅、不刷新远端。".to_owned(),
            parameters: recent_items(),
        }
    }

    pub fn effect(&self) -> (r: CallEffect)
        ensures
            r == CallEffect::ReadOnly,
    {
        CallEffect::ReadOnly
    }
}

pub open spec fn manage_subscriptions_fields_feeds_items_fields_title_shape() -> Shape {
    Shape::Object(
        seq![
            ("type"@, string_or_null_shape()),
        ],
    )
}

fn manage_subscriptions_fields_feeds_items_fields_title() -> (r: Json)
    ensures
        r.shape() == manage_subscriptions_fields_feeds_items_fields_title_shape(),
{
    let mut o: Vec<(String, Json)> = Vec::new();
    json::put(&mut o, "type", string_or_null());
    assert(json::entry_shapes(o@) =~= manage_subscriptions_fields_feeds_items_fields_title_shape()->Object_0);
    Json::Object(o)
}

pub open spec fn any_string_shape() -> Shape {
    Shape::Object(
        seq![
            ("type"@, Shape::Text("string"@)),
        ],
    )
}

fn any_string() -> (r: Json)
    ensures
        r.shape() == any_string_shape(),
{
    let mut o: Vec<(String, Json)> = Vec::new();
    json::put(&mut o, "type", json::text_value("string"));
    assert(json::entry_shapes(o@) =~= any_string_shape()->Object_0);
    Json::Object(o)
}

pub open spec fn manage_subscriptions_fields_feeds_items_fields_shape() -> Shape {
    Shape::Object(
        seq![
            ("title"@, manage_subscriptions_fields_feeds_items_fields_title_shape()),
            ("url"@, any_string_shape()),
        ],
    )
}

fn manage_subscriptions_fields_feeds_items_fields() -> (r: Json)
    ensures
        r.shape() == manage_subscriptions_fields_feeds_items_fields_shape(),
{
    let mut o: Vec<(String, Json)> = Vec::new();
    json::put(&mut o, "title", manage_subscriptions_fields_feeds_items_fields_title());
    json::put(&mut o, "url", any_string());
    assert(json::entry_shapes(o@) =~= manage_subscriptions_fields_feeds_items_fields_shape()->Object_0);
    Json::Object(o)
}

pub open spec fn manage_subscriptions_fields_feeds_items_required_shape() -> Shape {
    Shape::List(seq![Shape::Text("url"@), Shape::Text("title"@)])
}

fn manage_subscriptions_fields_feeds_items_required() -> (r: Json)
    ensures
        r.shape() == manage_subscriptions_fields_feeds_items_required_shape(),
{
    let mut l: Vec<Json> = Vec::new();
    json::append_item(&mut l, json::text_value("url"));
    json::append_item(&mut l, json::text_value("title"));
    assert(json::shapes(l@) =~= manage_subscriptions_fields_feeds_items_required_shape()->List_0);
    Json::List(l)
}

pub open spec fn manage_subscriptions_fields_feeds_items_shape() -> Shape {
    Shape::Object(
        seq![
            ("additionalProperties"@, Shape::Bool(false)),
            ("properties"@, manage_subscriptions_fields_feeds_items_fields_shape()),
            ("required"@, manage_subscriptions_fields_feeds_items_required_shape()),
            ("type"@, Shape::Text("object"@)),
        ],
    )
}

fn manage_subscriptions_fields_feeds_items() -> (r: Json)
    ensures
        r.shape() == manage_subscriptions_fields_feeds_items_shape(),
{
    let mut o: Vec<(String, Json)> = Vec::new();
    json::put(&mut o, "additionalProperties", Json::Bool(false));
    json::put(&mut o, "properties", manage_subscriptions_fields_feeds_items_fields());
    json::put(&mut o, "required", manage_subscriptions_fields_feeds_items_required());
    json::put(&mut o, "type", json::text_value("object"));
    assert(json::entry_shapes(o@) =~= manage_subscriptions_fields_feeds_items_shape()->Object_0);
    Json::Object(o)
}

pub open spec fn array_or_null_shape() -> Shape {
    Shape::List(seq![Shape::Text("array"@), Shape::Text("null"@)])
}

fn array_or_null() -> (r: Json)
    ensures
        r.shape() == array_or_null_shape(),
{
    let mut l: Vec<Json> = Vec::new();
    json::append_item(&mut l, json::text_value("array"));
    json::append_item(&mut l, json::text_value("null"));
    assert(json::shapes(l@) =~= array_or_null_shape()->List_0);
    Json::List(l)
}

pub open spec fn manage_subscriptions_fields_feeds_shape() -> Shape {
    Shape::Object(
        seq![
            ("description"@, Shape::Text("新增订阅列表；operation=add 时使用。每项 url 必填，title 可为 null。"@)),
            ("items"@, manage_subscriptions_fields_feeds_items_shape()),
            ("maxItems"@, Shape::Whole(10)),
            ("minItems"@, Shape::Whole(1)),
            ("type"@, array_or_null_shape()),
        ],
    )
}

fn manage_subscriptions_fields_feeds() -> (r: Json)
    ensures
        r.shape() == manage_subscriptions_fields_feeds_shape(),
{
    let mut o: Vec<(String, Json)> = Vec::new();
    json::put(&mut o, "description", json::text_value("新增订阅列表；operation=add 时使用。每项 url 必填，title 可为 null。"));
    json::put(&mut o, "items", manage_subscriptions_fields_feeds_items());
    json::put(&mut o, "maxItems", Json::Whole(10));
    json::put(&mut o, "minItems", Json::Whole(1));
    json::put(&mut o, "type", array_or_null());
    assert(json::entry_shapes(o@) =~= manage_subscriptions_fields_feeds_shape()->Object_0);
    Json::Object(o)
}

pub open spec fn manage_subscriptions_fields_operation_enum_shape() -> Shape {
    Shape::List(seq![Shape::Text("add"@), Shape::Text("delete"@)])
}

fn manage_subscriptions_fields_operation_enum() -> (r: Json)
    ensures
        r.shape() == manage_subscriptions_fields_operation_enum_shape(),
{
    let mut l: Vec<Json> = Vec::new();
    json::append_item(&mut l, json::text_value("add"));
    json::append_item(&mut l, json::text_value("delete"));
    assert(json::shapes(l@) =~= manage_subscriptions_fields_operation_enum_shape()->List_0);
    Json::List(l)
}

pub open spec fn manage_subscriptions_fields_operation_shape() -> Shape {
    Shape::Object(
        seq![
            ("description"@, Shape::Text("要执行的管理动作。"@)),
            ("enum"@, manage_subscriptions_fields_operation_enum_shape()),
            ("type"@, Shape::Text("string"@)),
        ],
    )
}

fn manage_subscriptions_fields_operation() -> (r: Json)
    ensures
        r.shape() == manage_subscriptions_fields_operation_shape(),
{
    let mut o: Vec<(String, Json)> = Vec::new();
    json::put(&mut o, "description", json::text_value("要执行的管理动作。"));
    json::put(&mut o, "enum", manage_subscriptions_fields_operation_enum());
    json::put(&mut o, "type", json::text_value("string"));
    assert(json::entry_shapes(o@) =~= manage_subscriptions_fields_operation_shape()->Object_0);
    Json::Object(o)
}

pub open spec fn manage_subscriptions_fields_raw_text_shape() -> Shape {
    Shape::Object(
        seq![
            ("description"@, Shape::Text("兼容用户粘贴的多行 RSS 列表，例如“1. 标题\\nhttps://example.com/feed.xml”。feeds/targets 已结构化时传 null。"@)),
            ("type"@, string_or_null_shape()),
        ],
    )
}

fn manage_subscriptions_fields_raw_text() -> (r: Json)
    ensures
        r.shape() == manage_subscriptions_fields_raw_text_shape(),
{
    let mut o: Vec<(String, Json)> = Vec::new();
    json::put(&mut o, "description", json::text_value("兼容用户粘贴的多行 RSS 列表，例如“1. 标题\\nhttps://example.com/feed.xml”。feeds/targets 已结构化时传 null。"));
    json::put(&mut o, "type", string_or_null());
    assert(json::entry_shapes(o@) =~= manage_subscriptions_fields_raw_text_shape()->Object_0);
    Json::Object(o)
}

pub open spec fn manage_subscriptions_fields_targets_shape() -> Shape {
    Shape::Object(
        seq![
            ("description"@, Shape::Text("删除目标列表；operation=delete 时使用。可传 /rss list 中显示的编号、订阅 ID 或 ID 前缀。"@)),
            ("items"@, any_string_shape()),
            ("maxItems"@, Shape::Whole(10)),
            ("minItems"@, Shape::Whole(1)),
            ("type"@, array_or_null_shape()),
        ],
    )
}

fn manage_subscriptions_fields_targets() -> (r: Json)
    ensures
        r.shape() == manage_subscriptions_fields_targets_shape(),
{
    let mut o: Vec<(String, Json)> = Vec::new();
    json::put(&mut o, "description", json::text_value("删除目标列表；operation=delete 时使用。可传 /rss list 中显示的编号、订阅 ID 或 ID 前缀。"));
    json::put(&mut o, "items", any_string());
    json::put(&mut o, "maxItems", Json::Whole(10));
    json::put(&mut o, "minItems", Json::Whole(1));
    json::put(&mut o, "type", array_or_null());
    assert(json::entry_shapes(o@) =~= manage_subscriptions_fields_targets_shape()->Object_0);
    Json::Object(o)
}

pub open spec fn manage_subscriptions_fields_shape() -> Shape {
    Shape::Object(
        seq![
            ("feeds"@, manage_subscriptions_fields_feeds_shape()),
            ("operation"@, manage_subscriptions_fields_operation_shape()),
            ("raw_text"@, manage_subscriptions_fields_raw_text_shape()),
            ("targets"@, manage_subscriptions_fields_targets_shape()),
        ],
    )
}

fn manage_subscriptions_fields() -> (r: Json)
    ensures
        r.shape() == manage_subscriptions_fields_shape(),
{
    let mut o: Vec<(String, Json)> = Vec::new();
    json::put(&mut o, "feeds", manage_subscriptions_fields_feeds());
    json::put(&mut o, "operation", manage_subscriptions_fields_operation());
    json::put(&mut o, "raw_text", manage_subscriptions_fields_raw_text());
    json::put(&mut o, "targets", manage_subscriptions_fields_targets());
    assert(json::entry_shapes(o@) =~= manage_subscriptions_fields_shape()->Object_0);
    Json::Object(o)
}

pub open spec fn manage_subscriptions_required_shape() -> Shape {
    Shape::List(seq![Shape::Text("operation"@), Shape::Text("feeds"@), Shape::Text("targets"@), Shape::Text("raw_text"@)])
}

fn manage_subscriptions_required() -> (r: Json)
    ensures
        r.shape() == manage_subscriptions_required_shape(),
{
    let mut l: Vec<Json> = Vec::new();
    json::append_item(&mut l, json::text_value("operation"));
    json::append_item(&mut l, json::text_value("feeds"));
    json::append_item(&mut l, json::text_value("targets"));
    json::append_item(&mut l, json::text_value("raw_text"));
    assert(json::shapes(l@) =~= manage_subscriptions_required_shape()->List_0);
    Json::List(l)
}

pub open spec fn manage_subscriptions_shape() -> Shape {
    Shape::Object(
        seq![
            ("additionalProperties"@, Shape::Bool(false)),
            ("properties"@, manage_subscriptions_fields_shape()),
            ("required"@, manage_subscriptions_required_shape()),
            ("type"@, Shape::Text("object"@)),
        ],
    )
}

fn manage_subscriptions() -> (r: Json)
    ensures
        r.shape() == manage_subscriptions_shape(),
{
    let mut o: Vec<(String, Json)> = Vec::new();
    json::put(&mut o, "additionalProperties", Json::Bool(false));
    json::put(&mut o, "properties", manage_subscriptions_fields());
    json::put(&mut o, "required", manage_subscriptions_required());
    json::put(&mut o, "type", json::text_value("object"));
    assert(json::entry_shapes(o@) =~= manage_subscriptions_shape()->Object_0);
    Json::Object(o)
}

pub open spec fn manage_subscriptions_metadata() -> MetadataView {
    (
        "manage_rss_subscriptions"@,
        "管理当前会话 scope 下的 RSS / Atom 订阅，支持批量新增和批量删除。新增会真实访问并解析 URL，成功后写入订阅表并把当前历史条目标记为已见；删除只会删除当前 scope 内匹配的订阅。群聊中只有群主或管理员允许执行。用户只是询问最近更新或要求总结时，不要调用本工具，应调用 get_rss_recent_items。"@,
        manage_subscriptions_shape(),
    )
}

impl RssManageSubscriptionsTool {
    pub fn metadata(&self) -> (r: ToolMetadata)
        ensures
            r.shown() == manage_subscriptions_metadata(),
    {
        ToolMetadata {
            name: "manage_rss_subscriptions".to_owned(),
            description: "管理当前会话 scope 下的 RSS / Atom 订阅，支持批量新增和批量删除。新增会真实访问并解析 URL，成功后写入订阅表并把当前历史条目标记为已见；删除只会删除当前 scope 内匹配的订阅。群聊中只有群主或管理员允许执行。用户只是询问最近更新或要求总结时，不要调用本工具，应调用 get_rss_recent_items。".to_owned(),
            parameters: manage_subscriptions(),
        }
    }
}

pub open spec fn knowledge_search_fields_additional_queries_shape() -> Shape {
    Shape::Object(
        seq![
            ("description"@, Shape::Text("复杂问题可补充 1 到 3 个独立检索表达；结果会统一融合、去重和控制预算"@)),
            ("items"@, any_string_shape()),
            ("maxItems"@, Shape::Whole(3)),
            ("minItems"@, Shape::Whole(1)),
            ("type"@, array_or_null_shape()),
        ],
    )
}

fn knowledge_search_fields_additional_queries() -> (r: Json)
    ensures
        r.shape() == knowledge_search_fields_additional_queries_shape(),
{
    let mut o: Vec<(String, Json)> = Vec::new();
    json::put(&mut o, "description", json::text_value("复杂问题可补充 1 到 3 个独立检索表达；结果会统一融合、去重和控制预算"));
    json::put(&mut o, "items", any_string());
    json::put(&mut o, "maxItems", Json::Whole(3));
    json::put(&mut o, "minItems", Json::Whole(1));
    json::put(&mut o, "type", array_or_null());
    assert(json::entry_shapes(o@) =~= knowledge_search_fields_additional_queries_shape()->Object_0);
    Json::Object(o)
}

pub open spec fn knowledge_search_fields_max_results_shape() -> Shape {
    Shape::Object(
        seq![
            ("description"@, Shape::Text("最多返回的证据项数量，1 到 8；不确定时传 null"@)),
            ("maximum"@, Shape::Whole(8)),
            ("minimum"@, Shape::Whole(1)),
            ("type"@, integer_or_null_shape()),
        ],
    )
}

fn knowledge_search_fields_max_results() -> (r: Json)
    ensures
        r.shape() == knowledge_search_fields_max_results_shape(),
{
    let mut o: Vec<(String, Json)> = Vec::new();
    json::put(&mut o, "description", json::text_value("最多返回的证据项数量，1 到 8；不确定时传 null"));
    json::put(&mut o, "maximum", Json::Whole(8));
    json::put(&mut o, "minimum", Json::Whole(1));
    json::put(&mut o, "type", integer_or_null());
    assert(json::entry_shapes(o@) =~= knowledge_search_fields_max_results_shape()->Object_0);
    Json::Object(o)
}

pub open spec fn knowledge_search_fields_query_shape() -> Shape {
    Shape::Object(
        seq![
            ("description"@, Shape::Text("独立、具体的知识检索问题；包含错误码、配置项或项目术语时保留原样"@)),
            ("type"@, Shape::Text("string"@)),
        ],
    )
}

fn knowledge_search_fields_query() -> (r: Json)
    ensures
        r.shape() == knowledge_search_fields_query_shape(),
{
    let mut o: Vec<(String, Json)> = Vec::new();
    json::put(&mut o, "description", json::text_value("独立、具体的知识检索问题；包含错误码、配置项或项目术语时保留原样"));
    json::put(&mut o, "type", json::text_value("string"));
    assert(json::entry_shapes(o@) =~= knowledge_search_fields_query_shape()->Object_0);
    Json::Object(o)
}

pub open spec fn knowledge_search_fields_shape() -> Shape {
    Shape::Object(
        seq![
            ("additional_queries"@, knowledge_search_fields_additional_queries_shape()),
            ("max_results"@, knowledge_search_fields_max_results_shape()),
            ("query"@, knowledge_search_fields_query_shape()),
        ],
    )
}

fn knowledge_search_fields() -> (r: Json)
    ensures
        r.shape() == knowledge_search_fields_shape(),
{
    let mut o: Vec<(String, Json)> = Vec::new();
    json::put(&mut o, "additional_queries", knowledge_search_fields_additional_queries());
    json::put(&mut o, "max_results", knowledge_search_fields_max_results());
    json::put(&mut o, "query", knowledge_search_fields_query());
    assert(json::entry_shapes(o@) =~= knowledge_search_fields_shape()->Object_0);
    Json::Object(o)
}

pub open spec fn knowledge_search_required_shape() -> Shape {
    Shape::List(seq![Shape::Text("query"@), Shape::Text("max_results"@), Shape::Text("additional_queries"@)])
}

fn knowledge_search_required() -> (r: Json)
    ensures
        r.shape() == knowledge_search_required_shape(),
{
    let mut l: Vec<Json> = Vec::new();
    json::append_item(&mut l, json::text_value("query"));
    json::append_item(&mut l, json::text_value("max_results"));
    json::append_item(&mut l, json::text_value("additional_queries"));
    assert(json::shapes(l@) =~= knowledge_search_required_shape()->List_0);
    Json::List(l)
}

pub open spec fn knowledge_search_shape() -> Shape {
    Shape::Object(
        seq![
            ("additionalProperties"@, Shape::Bool(false)),
            ("properties"@, knowledge_search_fields_shape()),
            ("required"@, knowledge_search_required_shape()),
            ("type"@, Shape::Text("object"@)),
        ],
    )
}

fn knowledge_search() -> (r: Json)
    ensures
        r.shape() == knowledge_search_shape(),
{
    let mut o: Vec<(String, Json)> = Vec::new();
    json::put(&mut o, "additionalProperties", Json::Bool(false));
    json::put(&mut o, "properties", knowledge_search_fields());
    json::put(&mut o, "required", knowledge_search_required());
    json::put(&mut o, "type", json::text_value("object"));
    assert(json::entry_shapes(o@) =~= knowledge_search_shape()->Object_0);
    Json::Object(o)
}

pub open spec fn knowledge_search_metadata() -> MetadataView {
    (
        "knowledge_search"@,
        "只读检索本地 Markdown 知识库并返回结构化证据。遇到项目知识、配置项、错误码、部署说明或需要核对本地资料的问题时调用；不要把工具结果当成最终答案，必须基于真实证据回答。无命中、低相关、截断或失败时要明确说明证据状态。不要用它处理普通闲聊。"@,
        knowledge_search_shape(),
    )
}

impl KnowledgeSearchTool {
    pub fn metadata(&self) -> (r: ToolMetadata)
        ensures
            r.shown() == knowledge_search_metadata(),
    {
        ToolMetadata {
            name: "knowledge_search".to_owned(),
            description: "只读检索本地 Markdown 知识库并返回结构化证据。遇到项目知识、配置项、错误码、部署说明或需要核对本地资料的问题时调用；不要把工具结果当成最终答案，必须基于真实证据回答。无命中、低相关、截断或失败时要明确说明证据状态。不要用它处理普通闲聊。".to_owned(),
            parameters: knowledge_search(),
        }
    }

    pub fn effect(&self) -> (r: CallEffect)
        ensures
            r == CallEffect::ReadOnly,
    {
        CallEffect::ReadOnly
    }
}

pub open spec fn web_search_fields_context_size_enum_shape() -> Shape {
    Shape::List(seq![Shape::Text("low"@), Shape::Text("medium"@), Shape::Text("high"@), Shape::Null])
}

fn web_search_fields_context_size_enum() -> (r: Json)
    ensures
        r.shape() == web_search_fields_context_size_enum_shape(),
{
    let mut l: Vec<Json> = Vec::new();
    json::append_item(&mut l, json::text_value("low"));
    json::append_item(&mut l, json::text_value("medium"));
    json::append_item(&mut l, json::text_value("high"));
    json::append_item(&mut l, Json::Null);
    assert(json::shapes(l@) =~= web_search_fields_context_size_enum_shape()->List_0);
    Json::List(l)
}

pub open spec fn web_search_fields_context_size_shape() -> Shape {
    Shape::Object(
        seq![
            ("description"@, Shape::Text("搜索上下文大小，可选 low、medium、high；不确定时传 null"@)),
            ("enum"@, web_search_fields_context_size_enum_shape()),
            ("type"@, string_or_null_shape()),
        ],
    )
}

fn web_search_fields_context_size() -> (r: Json)
    ensures
        r.shape() == web_search_fields_context_size_shape(),
{
    let mut o: Vec<(String, Json)> = Vec::new();
    json::put(&mut o, "description", json::text_value("搜索上下文大小，可选 low、medium、high；不确定时传 null"));
    json::put(&mut o, "enum", web_search_fields_context_size_enum());
    json::put(&mut o, "type", string_or_null());
    assert(json::entry_shapes(o@) =~= web_search_fields_context_size_shape()->Object_0);
    Json::Object(o)
}

pub open spec fn web_search_fields_max_results_shape() -> Shape {
    Shape::Object(
        seq![
            ("description"@, Shape::Text("期望返回的搜索结果数量，1 到 10；不确定时传 null"@)),
            ("type"@, integer_or_null_shape()),
        ],
    )
}

fn web_search_fields_max_results() -> (r: Json)
    ensures
        r.shape() == web_search_fields_max_results_shape(),
{
    let mut o: Vec<(String, Json)> = Vec::new();
    json::put(&mut o, "description", json::text_value("期望返回的搜索结果数量，1 到 10；不确定时传 null"));
    json::put(&mut o, "type", integer_or_null());
    assert(json::entry_shapes(o@) =~= web_search_fields_max_results_shape()->Object_0);
    Json::Object(o)
}

pub open spec fn web_search_fields_query_shape() -> Shape {
    Shape::Object(
        seq![
            ("description"@, Shape::Text("要搜索的关键词或问题，保持具体明确"@)),
            ("type"@, Shape::Text("string"@)),
        ],
    )
}

fn web_search_fields_query() -> (r: Json)
    ensures
        r.shape() == web_search_fields_query_shape(),
{
    let mut o: Vec<(String, Json)> = Vec::new();
    json::put(&mut o, "description", json::text_value("要搜索的关键词或问题，保持具体明确"));
    json::put(&mut o, "type", json::text_value("string"));
    assert(json::entry_shapes(o@) =~= web_search_fields_query_shape()->Object_0);
    Json::Object(o)
}

pub open spec fn web_search_fields_raw_question_shape() -> Shape {
    Shape::Object(
        seq![
            ("description"@, Shape::Text("用户原始问题；不确定时传 null"@)),
            ("type"@, string_or_null_shape()),
        ],
    )
}

fn web_search_fields_raw_question() -> (r: Json)
    ensures
        r.shape() == web_search_fields_raw_question_shape(),
{
    let mut o: Vec<(String, Json)> = Vec::new();
    json::put(&mut o, "description", json::text_value("用户原始问题；不确定时传 null"));
    json::put(&mut o, "type", string_or_null());
    assert(json::entry_shapes(o@) =~= web_search_fields_raw_question_shape()->Object_0);
    Json::Object(o)
}

pub open spec fn web_search_fields_shape() -> Shape {
    Shape::Object(
        seq![
            ("context_size"@, web_search_fields_context_size_shape()),
            ("max_results"@, web_search_fields_max_results_shape()),
            ("query"@, web_search_fields_query_shape()),
            ("raw_question"@, web_search_fields_raw_question_shape()),
        ],
    )
}

fn web_search_fields() -> (r: Json)
    ensures
        r.shape() == web_search_fields_shape(),
{
    let mut o: Vec<(String, Json)> = Vec::new();
    json::put(&mut o, "context_size", web_search_fields_context_size());
    json::put(&mut o, "max_results", web_search_fields_max_results());
    json::put(&mut o, "query", web_search_fields_query());
    json::put(&mut o, "raw_question", web_search_fields_raw_question());
    assert(json::entry_shapes(o@) =~= web_search_fields_shape()->Object_0);
    Json::Object(o)
}

pub open spec fn web_search_required_shape() -> Shape {
    Shape::List(seq![Shape::Text("query"@), Shape::Text("raw_question"@), Shape::Text("max_results"@), Shape::Text("context_size"@)])
}

fn web_search_required() -> (r: Json)
    ensures
        r.shape() == web_search_required_shape(),
{
    let mut l: Vec<Json> = Vec::new();
    json::append_item(&mut l, json::text_value("query"));
    json::append_item(&mut l, json::text_value("raw_question"));
    json::append_item(&mut l, json::text_value("max_results"));
    json::append_item(&mut l, json::text_value("context_size"));
    assert(json::shapes(l@) =~= web_search_required_shape()->List_0);
    Json::List(l)
}

pub open spec fn web_search_shape() -> Shape {
    Shape::Object(
        seq![
            ("additionalProperties"@, Shape::Bool(false)),
            ("properties"@, web_search_fields_shape()),
            ("required"@, web_search_required_shape()),
            ("type"@, Shape::Text("object"@)),
        ],
    )
}

fn web_search() -> (r: Json)
    ensures
        r.shape() == web_search_shape(),
{
    let mut o: Vec<(String, Json)> = Vec::new();
    json::put(&mut o, "additionalProperties", Json::Bool(false));
    json::put(&mut o, "properties", web_search_fields());
    json::put(&mut o, "required", web_search_required());
    json::put(&mut o, "type", json::text_value("object"));
    assert(json::entry_shapes(o@) =~= web_search_shape()->Object_0);
    Json::Object(o)
}

pub open spec fn web_search_metadata() -> MetadataView {
    (
        "web_search"@,
        "联网查询和搜索公开网页信息。用于回答需要实时信息、新闻、网页资料、最新版本、公开资料核实的问题；不用于查询本地待办、天气、火车时刻或 RSS 本地记录。"@,
        web_search_shape(),
    )
}

impl WebSearchTool {
    pub fn metadata(&self) -> (r: ToolMetadata)
        ensures
            r.shown() == web_search_metadata(),
    {
        ToolMetadata {
            name: "web_search".to_owned(),
            description: "联网查询和搜索公开网页信息。用于回答需要实时信息、新闻、网页资料、最新版本、公开资料核实的问题；不用于查询本地待办、天气、火车时刻或 RSS 本地记录。".to_owned(),
            parameters: web_search(),
        }
    }
}

pub open spec fn save_memory_fields_content_shape() -> Shape {
    Shape::Object(
        seq![
            ("description"@, Shape::Text("用户明确要求长期记住的规范化内容，不得补充用户未表达的事实。"@)),
            ("type"@, Shape::Text("string"@)),
        ],
    )
}

fn save_memory_fields_content() -> (r: Json)
    ensures
        r.shape() == save_memory_fields_content_shape(),
{
    let mut o: Vec<(String, Json)> = Vec::new();
    json::put(&mut o, "description", json::text_value("用户明确要求长期记住的规范化内容，不得补充用户未表达的事实。"));
    json::put(&mut o, "type", json::text_value("string"));
    assert(json::entry_shapes(o@) =~= save_memory_fields_content_shape()->Object_0);
    Json::Object(o)
}

pub open spec fn save_memory_fields_scope_enum_shape() -> Shape {
    Shape::List(seq![Shape::Text("auto"@), Shape::Text("personal"@), Shape::Text("profile"@), Shape::Text("group"@)])
}

fn save_memory_fields_scope_enum() -> (r: Json)
    ensures
        r.shape() == save_memory_fields_scope_enum_shape(),
{
    let mut l: Vec<Json> = Vec::new();
    json::append_item(&mut l, json::text_value("auto"));
    json::append_item(&mut l, json::text_value("personal"));
    json::append_item(&mut l, json::text_value("profile"));
    json::append_item(&mut l, json::text_value("group"));
    assert(json::shapes(l@) =~= save_memory_fields_scope_enum_shape()->List_0);
    Json::List(l)
}

pub open spec fn save_memory_fields_scope_shape() -> Shape {
    Shape::Object(
        seq![
            ("description"@, Shape::Text("建议范围：personal=个人记忆，profile=当前用户群内画像，group=当前群公共记忆，无法确定时用 auto。群聊中建议范围必须与服务端从原始消息得到的范围证据一致，否则会要求澄清。"@)),
            ("enum"@, save_memory_fields_scope_enum_shape()),
            ("type"@, Shape::Text("string"@)),
        ],
    )
}

fn save_memory_fields_scope() -> (r: Json)
    ensures
        r.shape() == save_memory_fields_scope_shape(),
{
    let mut o: Vec<(String, Json)> = Vec::new();
    json::put(&mut o, "description", json::text_value("建议范围：personal=个人记忆，profile=当前用户群内画像，group=当前群公共记忆，无法确定时用 auto。群聊中建议范围必须与服务端从原始消息得到的范围证据一致，否则会要求澄清。"));
    json::put(&mut o, "enum", save_memory_fields_scope_enum());
    json::put(&mut o, "type", json::text_value("string"));
    assert(json::entry_shapes(o@) =~= save_memory_fields_scope_shape()->Object_0);
    Json::Object(o)
}

pub open spec fn save_memory_fields_shape() -> Shape {
    Shape::Object(
        seq![
            ("content"@, save_memory_fields_content_shape()),
            ("scope"@, save_memory_fields_scope_shape()),
        ],
    )
}

fn save_memory_fields() -> (r: Json)
    ensures
        r.shape() == save_memory_fields_shape(),
{
    let mut o: Vec<(String, Json)> = Vec::new();
    json::put(&mut o, "content", save_memory_fields_content());
    json::put(&mut o, "scope", save_memory_fields_scope());
    assert(json::entry_shapes(o@) =~= save_memory_fields_shape()->Object_0);
    Json::Object(o)
}

pub open spec fn save_memory_required_shape() -> Shape {
    Shape::List(seq![Shape::Text("content"@), Shape::Text("scope"@)])
}

fn save_memory_required() -> (r: Json)
    ensures
        r.shape() == save_memory_required_shape(),
{
    let mut l: Vec<Json> = Vec::new();
    json::append_item(&mut l, json::text_value("content"));
    json::append_item(&mut l, json::text_value("scope"));
    assert(json::shapes(l@) =~= save_memory_required_shape()->List_0);
    Json::List(l)
}

pub open spec fn save_memory_shape() -> Shape {
    Shape::Object(
        seq![
            ("additionalProperties"@, Shape::Bool(false)),
            ("properties"@, save_memory_fields_shape()),
            ("required"@, save_memory_required_shape()),
            ("type"@, Shape::Text("object"@)),
        ],
    )
}

fn save_memory() -> (r: Json)
    ensures
        r.shape() == save_memory_shape(),
{
    let mut o: Vec<(String, Json)> = Vec::new();
    json::put(&mut o, "additionalProperties", Json::Bool(false));
    json::put(&mut o, "properties", save_memory_fields());
    json::put(&mut o, "required", save_memory_required());
    json::put(&mut o, "type", json::text_value("object"));
    assert(json::entry_shapes(o@) =~= save_memory_shape()->Object_0);
    Json::Object(o)
}

pub open spec fn save_memory_metadata() -> MetadataView {
    (
        "save_memory"@,
        "把用户语义上明确要求长期保存的信息直接写入当前用户可管理的 Memory。明确保存长期偏好、称呼、个人资料或群公共约定等请求可以调用；普通陈述、聊天事实、临时行程、模型自行推断的信息不得调用。content 只放用户要求保存的内容。scope 用于表达建议范围，并与服务端根据原始消息得到的范围证据交叉校验；用户身份、群、管理员权限和最终范围由服务端上下文决定。新增成功后立即写入，不需要二次确认。"@,
        save_memory_shape(),
    )
}

impl SaveMemoryTool {
    pub fn metadata(&self) -> (r: ToolMetadata)
        ensures
            r.shown() == save_memory_metadata(),
    {
        ToolMetadata {
            name: "save_memory".to_owned(),
            description: "把用户语义上明确要求长期保存的信息直接写入当前用户可管理的 Memory。明确保存长期偏好、称呼、个人资料或群公共约定等请求可以调用；普通陈述、聊天事实、临时行程、模型自行推断的信息不得调用。content 只放用户要求保存的内容。scope 用于表达建议范围，并与服务端根据原始消息得到的范围证据交叉校验；用户身份、群、管理员权限和最终范围由服务端上下文决定。新增成功后立即写入，不需要二次确认。".to_owned(),
            parameters: save_memory(),
        }
    }

    pub fn effect(&self) -> (r: CallEffect)
        ensures
            r == CallEffect::SideEffecting,
    {
        CallEffect::SideEffecting
    }
}

} // verus!
