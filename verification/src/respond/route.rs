//! Which messages go to the tools: a reading of the message by its words. Small talk,
//! writing and explaining stay with plain chat; clear tasks go to the tool loop; references
//! such as "this one" count as tasks only where tasks were just shown or worked on.
use vstd::prelude::*;
use vstd::string::*;

use crate::respond::status::{
    InteractionDomain, InteractionStateSnapshot, StatusAction, StatusHint, StatusSubject,
};
use crate::respond::types::RespondRequest;
use crate::text;

verus! {

#[derive(Debug, Clone, Copy, PartialEq, Eq, Structural)]
pub enum ToolLoopRoute {
    PlainChat,
    CompleteToolLoop,
}

#[derive(Debug, Clone, Copy, PartialEq, Eq, Structural)]
pub enum SemanticRoute {
    PlainChat,
    ToolLoop,
    Deterministic,
    Ambiguous,
}

#[derive(Debug, Clone, Copy, PartialEq, Eq, Structural)]
pub enum ToolDomain {
    Todo,
    Weather,
    Train,
    Rss,
    Memory,
    Unknown,
}

#[derive(Debug, Clone, Copy)]
pub struct ToolRouteDecision {
    pub route: ToolLoopRoute,
    pub semantic_route: SemanticRoute,
    pub domain: ToolDomain,
    pub reason: &'static str,
    pub status_hint: Option<StatusHint>,
}

/// What a route depends on besides the message.
#[derive(Debug)]
pub struct ToolRouteContext {
    pub scene_enabled: bool,
    pub tool_calling_enabled: bool,
    pub group_tool_calling_enabled: bool,
    pub provider_supports_tool_calling: bool,
    pub enabled_tools_available: bool,
    pub interaction_state: InteractionStateSnapshot,
    /// Whether a date can be read out of the message.
    pub has_due_date: bool,
}

// Words.

/// Whether the text speaks of a task.
pub open spec fn names_todo(s: Seq<char>) -> bool {
    ||| text::has_sub(s, "待办"@)
    ||| text::has_sub(s, "代办"@)
    ||| text::has_sub(s, "任务"@)
    ||| text::has_sub(s, "提醒"@)
    ||| text::has_sub(s, "事项"@)
}

fn has_todo_object(s: &str) -> (r: bool)
    ensures
        r == names_todo(s@),
{
    text::contains(s, "待办") || text::contains(s, "代办") || text::contains(s, "任务") || text::contains(s, "提醒") || text::contains(s, "事项")
}

/// Whether the text asks to write a task down or change it.
pub open spec fn asks_write(s: Seq<char>) -> bool {
    ||| text::has_sub(s, "新增"@)
    ||| text::has_sub(s, "添加"@)
    ||| text::has_sub(s, "加个"@)
    ||| text::has_sub(s, "加一"@)
    ||| text::has_sub(s, "创建"@)
    ||| text::has_sub(s, "记一下"@)
    ||| text::has_sub(s, "记录"@)
    ||| text::has_sub(s, "提醒我"@)
    ||| text::has_sub(s, "别忘"@)
    ||| text::has_sub(s, "编辑"@)
    ||| text::has_sub(s, "修改"@)
    ||| text::has_sub(s, "改成"@)
}

fn has_write_marker(s: &str) -> (r: bool)
    ensures
        r == asks_write(s@),
{
    text::contains(s, "新增") || text::contains(s, "添加") || text::contains(s, "加个") || text::contains(s, "加一") || text::contains(s, "创建") || text::contains(s, "记一下") || text::contains(s, "记录") || text::contains(s, "提醒我") || text::contains(s, "别忘") || text::contains(s, "编辑") || text::contains(s, "修改") || text::contains(s, "改成")
}

/// Whether the text asks to finish, restore or drop something.
pub open spec fn asks_settle(s: Seq<char>) -> bool {
    ||| text::has_sub(s, "完成"@)
    ||| text::has_sub(s, "做完"@)
    ||| text::has_sub(s, "恢复"@)
    ||| text::has_sub(s, "取消"@)
    ||| text::has_sub(s, "删除"@)
    ||| text::has_sub(s, "删掉"@)
    ||| text::has_sub(s, "移除"@)
}

fn has_confirm_marker(s: &str) -> (r: bool)
    ensures
        r == asks_settle(s@),
{
    text::contains(s, "完成") || text::contains(s, "做完") || text::contains(s, "恢复") || text::contains(s, "取消") || text::contains(s, "删除") || text::contains(s, "删掉") || text::contains(s, "移除")
}

/// Whether the text asks to see something.
pub open spec fn asks_query(s: Seq<char>) -> bool {
    ||| text::has_sub(s, "查看"@)
    ||| text::has_sub(s, "看一下"@)
    ||| text::has_sub(s, "列出"@)
    ||| text::has_sub(s, "有哪些"@)
    ||| text::has_sub(s, "检查"@)
}

fn has_query_marker(s: &str) -> (r: bool)
    ensures
        r == asks_query(s@),
{
    text::contains(s, "查看") || text::contains(s, "看一下") || text::contains(s, "列出") || text::contains(s, "有哪些") || text::contains(s, "检查")
}

/// Whether the text asks for a reminder.
pub open spec fn asks_reminder(s: Seq<char>) -> bool {
    ||| text::has_sub(s, "提醒我"@)
    ||| text::has_sub(s, "提醒一下"@)
    ||| text::has_sub(s, "提醒下"@)
    ||| text::has_sub(s, "帮我提醒"@)
    ||| text::has_sub(s, "回头提醒"@)
    ||| text::has_sub(s, "别忘"@)
    ||| text::has_sub(s, "别忘了"@)
}

fn has_reminder_action(s: &str) -> (r: bool)
    ensures
        r == asks_reminder(s@),
{
    text::contains(s, "提醒我") || text::contains(s, "提醒一下") || text::contains(s, "提醒下") || text::contains(s, "帮我提醒") || text::contains(s, "回头提醒") || text::contains(s, "别忘") || text::contains(s, "别忘了")
}

/// Whether the text asks to edit something.
pub open spec fn asks_edit(s: Seq<char>) -> bool {
    ||| text::has_sub(s, "编辑"@)
    ||| text::has_sub(s, "修改"@)
    ||| text::has_sub(s, "改成"@)
}

fn has_edit_word(s: &str) -> (r: bool)
    ensures
        r == asks_edit(s@),
{
    text::contains(s, "编辑") || text::contains(s, "修改") || text::contains(s, "改成")
}

/// Whether the text points at something just spoken of.
pub open spec fn points_close(s: Seq<char>) -> bool {
    ||| text::has_sub(s, "它"@)
    ||| text::has_sub(s, "这个"@)
    ||| text::has_sub(s, "那个"@)
    ||| text::has_sub(s, "刚才那条"@)
}

fn has_close_pronoun(s: &str) -> (r: bool)
    ensures
        r == points_close(s@),
{
    text::contains(s, "它") || text::contains(s, "这个") || text::contains(s, "那个") || text::contains(s, "刚才那条")
}

/// Whether the text names an action that is planned for a time.
pub open spec fn names_scheduled_action(s: Seq<char>) -> bool {
    ||| text::has_sub(s, "盯一下"@)
    ||| text::has_sub(s, "盯下"@)
    ||| text::has_sub(s, "看一下"@)
    ||| text::has_sub(s, "看下"@)
    ||| text::has_sub(s, "检查"@)
    ||| text::has_sub(s, "跟进"@)
    ||| text::has_sub(s, "开会"@)
    ||| text::has_sub(s, "提交"@)
    ||| text::has_sub(s, "出一版"@)
    ||| text::has_sub(s, "复盘"@)
    ||| text::has_sub(s, "续费"@)
    ||| text::has_sub(s, "验收"@)
    ||| text::has_sub(s, "整理"@)
    ||| text::has_sub(s, "发送"@)
    ||| text::has_sub(s, "发给"@)
    ||| text::has_sub(s, "发一下"@)
    ||| text::has_sub(s, "发布"@)
    ||| text::has_sub(s, "发版"@)
    ||| text::has_sub(s, "交水电费"@)
    ||| text::has_sub(s, "交作业"@)
    ||| text::has_sub(s, "买菜"@)
    ||| text::has_sub(s, "买东西"@)
    ||| text::has_sub(s, "买药"@)
    ||| text::has_sub(s, "完成初稿"@)
    ||| text::has_sub(s, "完成草稿"@)
}

fn has_scheduled_action(s: &str) -> (r: bool)
    ensures
        r == names_scheduled_action(s@),
{
    text::contains(s, "盯一下") || text::contains(s, "盯下") || text::contains(s, "看一下") || text::contains(s, "看下") || text::contains(s, "检查") || text::contains(s, "跟进") || text::contains(s, "开会") || text::contains(s, "提交") || text::contains(s, "出一版") || text::contains(s, "复盘") || text::contains(s, "续费") || text::contains(s, "验收") || text::contains(s, "整理") || text::contains(s, "发送") || text::contains(s, "发给") || text::contains(s, "发一下") || text::contains(s, "发布") || text::contains(s, "发版") || text::contains(s, "交水电费") || text::contains(s, "交作业") || text::contains(s, "买菜") || text::contains(s, "买东西") || text::contains(s, "买药") || text::contains(s, "完成初稿") || text::contains(s, "完成草稿")
}

/// Whether the text names a time of day or of the month.
pub open spec fn names_time(s: Seq<char>) -> bool {
    ||| text::has_sub(s, "今晚"@)
    ||| text::has_sub(s, "明早"@)
    ||| text::has_sub(s, "明晚"@)
    ||| text::has_sub(s, "早上"@)
    ||| text::has_sub(s, "上午"@)
    ||| text::has_sub(s, "中午"@)
    ||| text::has_sub(s, "下午"@)
    ||| text::has_sub(s, "晚上"@)
    ||| text::has_sub(s, "凌晨"@)
    ||| text::has_sub(s, "傍晚"@)
    ||| text::has_sub(s, "回头"@)
    ||| text::has_sub(s, "月末"@)
    ||| text::has_sub(s, "下个月"@)
}

fn has_time_word(s: &str) -> (r: bool)
    ensures
        r == names_time(s@),
{
    text::contains(s, "今晚") || text::contains(s, "明早") || text::contains(s, "明晚") || text::contains(s, "早上") || text::contains(s, "上午") || text::contains(s, "中午") || text::contains(s, "下午") || text::contains(s, "晚上") || text::contains(s, "凌晨") || text::contains(s, "傍晚") || text::contains(s, "回头") || text::contains(s, "月末") || text::contains(s, "下个月")
}

/// Whether the text asks to remember or speaks of memories.
pub open spec fn names_memory(s: Seq<char>) -> bool {
    ||| text::has_sub(s, "记忆"@)
    ||| text::has_sub(s, "记一下"@)
    ||| text::has_sub(s, "记住"@)
    ||| text::has_sub(s, "帮我记"@)
    ||| text::has_sub(s, "记录一下"@)
    ||| text::has_sub(s, "保存一下"@)
}

fn has_memory_word(s: &str) -> (r: bool)
    ensures
        r == names_memory(s@),
{
    text::contains(s, "记忆") || text::contains(s, "记一下") || text::contains(s, "记住") || text::contains(s, "帮我记") || text::contains(s, "记录一下") || text::contains(s, "保存一下")
}

/// Whether the text asks after rain, warmth or warnings.
pub open spec fn asks_weather_by_sign(s: Seq<char>) -> bool {
    ||| text::has_sub(s, "下雨"@)
    ||| text::has_sub(s, "有雨"@)
    ||| text::has_sub(s, "带伞"@)
    ||| text::has_sub(s, "冷吗"@)
    ||| text::has_sub(s, "热吗"@)
    ||| text::has_sub(s, "穿什么"@)
    ||| text::has_sub(s, "几度"@)
    ||| text::has_sub(s, "预报"@)
    ||| text::has_sub(s, "预警"@)
    ||| text::has_sub(s, "台风"@)
}

fn has_weather_sign(s: &str) -> (r: bool)
    ensures
        r == asks_weather_by_sign(s@),
{
    text::contains(s, "下雨") || text::contains(s, "有雨") || text::contains(s, "带伞") || text::contains(s, "冷吗") || text::contains(s, "热吗") || text::contains(s, "穿什么") || text::contains(s, "几度") || text::contains(s, "预报") || text::contains(s, "预警") || text::contains(s, "台风")
}

/// Whether the text speaks of the weather.
pub open spec fn names_weather(s: Seq<char>) -> bool {
    ||| text::has_sub(s, "天气"@)
    ||| text::has_sub(s, "气温"@)
    ||| text::has_sub(s, "温度"@)
}

fn has_weather_word(s: &str) -> (r: bool)
    ensures
        r == names_weather(s@),
{
    text::contains(s, "天气") || text::contains(s, "气温") || text::contains(s, "温度")
}

/// Whether the text asks how something is.
pub open spec fn asks_how(s: Seq<char>) -> bool {
    ||| text::has_sub(s, "查"@)
    ||| text::has_sub(s, "查询"@)
    ||| text::has_sub(s, "看看"@)
    ||| text::has_sub(s, "看下"@)
    ||| text::has_sub(s, "看一下"@)
    ||| text::has_sub(s, "怎么样"@)
    ||| text::has_sub(s, "如何"@)
    ||| text::has_sub(s, "多少"@)
    ||| text::has_sub(s, "会不会"@)
    ||| text::has_sub(s, "有没有"@)
}

fn has_weather_question(s: &str) -> (r: bool)
    ensures
        r == asks_how(s@),
{
    text::contains(s, "查") || text::contains(s, "查询") || text::contains(s, "看看") || text::contains(s, "看下") || text::contains(s, "看一下") || text::contains(s, "怎么样") || text::contains(s, "如何") || text::contains(s, "多少") || text::contains(s, "会不会") || text::contains(s, "有没有")
}

/// Whether the text talks about something rather than asking.
pub open spec fn is_talk(s: Seq<char>) -> bool {
    ||| text::has_sub(s, "聊聊"@)
    ||| text::has_sub(s, "讨论"@)
    ||| text::has_sub(s, "关于"@)
    ||| text::has_sub(s, "这个"@)
    ||| text::has_sub(s, "那个"@)
    ||| text::has_sub(s, "一说"@)
    ||| text::has_sub(s, "说到"@)
    ||| text::has_sub(s, "如果"@)
    ||| text::has_sub(s, "因为"@)
}

fn is_talk_about(s: &str) -> (r: bool)
    ensures
        r == is_talk(s@),
{
    text::contains(s, "聊聊") || text::contains(s, "讨论") || text::contains(s, "关于") || text::contains(s, "这个") || text::contains(s, "那个") || text::contains(s, "一说") || text::contains(s, "说到") || text::contains(s, "如果") || text::contains(s, "因为")
}

/// Whether the text speaks of trains.
pub open spec fn names_train(s: Seq<char>) -> bool {
    ||| text::has_sub(s, "火车"@)
    ||| text::has_sub(s, "列车"@)
    ||| text::has_sub(s, "车次"@)
    ||| text::has_sub(s, "高铁"@)
    ||| text::has_sub(s, "动车"@)
    ||| text::has_sub(s, "时刻"@)
    ||| text::has_sub(s, "站台"@)
}

fn has_train_word(s: &str) -> (r: bool)
    ensures
        r == names_train(s@),
{
    text::contains(s, "火车") || text::contains(s, "列车") || text::contains(s, "车次") || text::contains(s, "高铁") || text::contains(s, "动车") || text::contains(s, "时刻") || text::contains(s, "站台")
}

/// Whether the text speaks of subscriptions.
pub open spec fn names_feed(s: Seq<char>) -> bool {
    ||| text::has_sub(s, "订阅更新"@)
    ||| text::has_sub(s, "最近订阅"@)
    ||| text::has_sub(s, "订阅记录"@)
}

fn has_feed_word(s: &str) -> (r: bool)
    ensures
        r == names_feed(s@),
{
    text::contains(s, "订阅更新") || text::contains(s, "最近订阅") || text::contains(s, "订阅记录")
}

/// Whether the text is small talk.
pub open spec fn is_small_talk(s: Seq<char>) -> bool {
    ||| text::has_sub(s, "陪我聊"@)
    ||| text::has_sub(s, "聊会"@)
    ||| text::has_sub(s, "闲聊"@)
    ||| text::has_sub(s, "说说话"@)
    ||| text::has_sub(s, "聊聊天"@)
    ||| text::has_sub(s, "有点烦"@)
    ||| text::has_sub(s, "有点累"@)
    ||| text::has_sub(s, "不开心"@)
    ||| text::has_sub(s, "你下午在吗"@)
    ||| text::has_sub(s, "你晚上在吗"@)
}

fn has_small_talk(s: &str) -> (r: bool)
    ensures
        r == is_small_talk(s@),
{
    text::contains(s, "陪我聊") || text::contains(s, "聊会") || text::contains(s, "闲聊") || text::contains(s, "说说话") || text::contains(s, "聊聊天") || text::contains(s, "有点烦") || text::contains(s, "有点累") || text::contains(s, "不开心") || text::contains(s, "你下午在吗") || text::contains(s, "你晚上在吗")
}

/// Whether the text asks for something to be written.
pub open spec fn asks_writing(s: Seq<char>) -> bool {
    ||| text::has_sub(s, "写一段"@)
    ||| text::has_sub(s, "写一篇"@)
    ||| text::has_sub(s, "写首"@)
    ||| text::has_sub(s, "生成一段"@)
    ||| text::has_sub(s, "输出一段"@)
    ||| text::has_sub(s, "试试输出"@)
    ||| text::has_sub(s, "长文本"@)
    ||| text::has_sub(s, "流式"@)
    ||| text::has_sub(s, "讲个故事"@)
    ||| text::has_sub(s, "讲故事"@)
    ||| text::has_sub(s, "小说"@)
    ||| text::has_sub(s, "文案"@)
}

fn has_writing_request(s: &str) -> (r: bool)
    ensures
        r == asks_writing(s@),
{
    text::contains(s, "写一段") || text::contains(s, "写一篇") || text::contains(s, "写首") || text::contains(s, "生成一段") || text::contains(s, "输出一段") || text::contains(s, "试试输出") || text::contains(s, "长文本") || text::contains(s, "流式") || text::contains(s, "讲个故事") || text::contains(s, "讲故事") || text::contains(s, "小说") || text::contains(s, "文案")
}

/// Whether the text asks for an explanation.
pub open spec fn asks_explaining(s: Seq<char>) -> bool {
    ||| text::has_sub(s, "解释一下"@)
    ||| text::has_sub(s, "讲解"@)
    ||| text::has_sub(s, "介绍一下"@)
    ||| text::has_sub(s, "分析一下"@)
    ||| text::has_sub(s, "聊聊"@)
    ||| text::has_sub(s, "为什么"@)
    ||| text::has_sub(s, "怎么理解"@)
    ||| text::has_sub(s, "怎么设计"@)
    ||| text::has_sub(s, "怎么选"@)
    ||| text::has_sub(s, "架构"@)
    ||| text::has_sub(s, "模型"@)
    ||| text::has_sub(s, "版本说明"@)
    ||| text::has_sub(s, "消息发送失败"@)
    ||| text::has_sub(s, "流式还有问题"@)
    ||| text::has_sub(s, "排障"@)
}

fn has_explain_request(s: &str) -> (r: bool)
    ensures
        r == asks_explaining(s@),
{
    text::contains(s, "解释一下") || text::contains(s, "讲解") || text::contains(s, "介绍一下") || text::contains(s, "分析一下") || text::contains(s, "聊聊") || text::contains(s, "为什么") || text::contains(s, "怎么理解") || text::contains(s, "怎么设计") || text::contains(s, "怎么选") || text::contains(s, "架构") || text::contains(s, "模型") || text::contains(s, "版本说明") || text::contains(s, "消息发送失败") || text::contains(s, "流式还有问题") || text::contains(s, "排障")
}

/// Whether the text names an entry by its number.
pub open spec fn names_ordinal(s: Seq<char>) -> bool {
    ||| text::has_sub(s, "第一"@)
    ||| text::has_sub(s, "第二"@)
    ||| text::has_sub(s, "第三"@)
    ||| text::has_sub(s, "第四"@)
    ||| text::has_sub(s, "第五"@)
    ||| text::has_sub(s, "第六"@)
    ||| text::has_sub(s, "第七"@)
    ||| text::has_sub(s, "第八"@)
    ||| text::has_sub(s, "第九"@)
    ||| text::has_sub(s, "第十"@)
    ||| text::has_sub(s, "第 1"@)
    ||| text::has_sub(s, "第 2"@)
    ||| text::has_sub(s, "第 3"@)
    ||| text::has_sub(s, "第 4"@)
    ||| text::has_sub(s, "第 5"@)
    ||| text::has_sub(s, "第 6"@)
    ||| text::has_sub(s, "第 7"@)
    ||| text::has_sub(s, "第 8"@)
    ||| text::has_sub(s, "第 9"@)
    ||| text::has_sub(s, "第1"@)
    ||| text::has_sub(s, "第2"@)
    ||| text::has_sub(s, "第3"@)
    ||| text::has_sub(s, "第4"@)
    ||| text::has_sub(s, "第5"@)
    ||| text::has_sub(s, "第6"@)
    ||| text::has_sub(s, "第7"@)
    ||| text::has_sub(s, "第8"@)
    ||| text::has_sub(s, "第9"@)
}

fn has_ordinal_reference(s: &str) -> (r: bool)
    ensures
        r == names_ordinal(s@),
{
    text::contains(s, "第一") || text::contains(s, "第二") || text::contains(s, "第三") || text::contains(s, "第四") || text::contains(s, "第五") || text::contains(s, "第六") || text::contains(s, "第七") || text::contains(s, "第八") || text::contains(s, "第九") || text::contains(s, "第十") || text::contains(s, "第 1") || text::contains(s, "第 2") || text::contains(s, "第 3") || text::contains(s, "第 4") || text::contains(s, "第 5") || text::contains(s, "第 6") || text::contains(s, "第 7") || text::contains(s, "第 8") || text::contains(s, "第 9") || text::contains(s, "第1") || text::contains(s, "第2") || text::contains(s, "第3") || text::contains(s, "第4") || text::contains(s, "第5") || text::contains(s, "第6") || text::contains(s, "第7") || text::contains(s, "第8") || text::contains(s, "第9")
}

/// Whether the text points at something shown before.
pub open spec fn points_back(s: Seq<char>) -> bool {
    ||| text::has_sub(s, "它"@)
    ||| text::has_sub(s, "这个"@)
    ||| text::has_sub(s, "那个"@)
    ||| text::has_sub(s, "这条"@)
    ||| text::has_sub(s, "那条"@)
    ||| text::has_sub(s, "这些"@)
    ||| text::has_sub(s, "它们"@)
    ||| text::has_sub(s, "刚才那条"@)
    ||| text::has_sub(s, "刚刚那条"@)
    ||| text::has_sub(s, "刚才那个"@)
    ||| text::has_sub(s, "刚刚那个"@)
}

fn has_context_pronoun_reference(s: &str) -> (r: bool)
    ensures
        r == points_back(s@),
{
    text::contains(s, "它") || text::contains(s, "这个") || text::contains(s, "那个") || text::contains(s, "这条") || text::contains(s, "那条") || text::contains(s, "这些") || text::contains(s, "它们") || text::contains(s, "刚才那条") || text::contains(s, "刚刚那条") || text::contains(s, "刚才那个") || text::contains(s, "刚刚那个")
}

/// Whether the text asks to work on an entry.
pub open spec fn asks_numbered_edit(s: Seq<char>) -> bool {
    ||| text::has_sub(s, "处理"@)
    ||| text::has_sub(s, "改一下"@)
    ||| text::has_sub(s, "修改"@)
    ||| text::has_sub(s, "编辑"@)
}

fn has_numbered_edit(s: &str) -> (r: bool)
    ensures
        r == asks_numbered_edit(s@),
{
    text::contains(s, "处理") || text::contains(s, "改一下") || text::contains(s, "修改") || text::contains(s, "编辑")
}

/// Whether the text asks to work on what it points at.
pub open spec fn asks_pointed_edit(s: Seq<char>) -> bool {
    ||| text::has_sub(s, "处理"@)
    ||| text::has_sub(s, "改一下"@)
    ||| text::has_sub(s, "修改"@)
    ||| text::has_sub(s, "编辑"@)
    ||| text::has_sub(s, "改成"@)
}

fn has_pointed_edit(s: &str) -> (r: bool)
    ensures
        r == asks_pointed_edit(s@),
{
    text::contains(s, "处理") || text::contains(s, "改一下") || text::contains(s, "修改") || text::contains(s, "编辑") || text::contains(s, "改成")
}

/// Whether the text speaks of all entries.
pub open spec fn names_all(s: Seq<char>) -> bool {
    ||| text::has_sub(s, "都"@)
    ||| text::has_sub(s, "全部"@)
    ||| text::has_sub(s, "全"@)
}

fn has_all_word(s: &str) -> (r: bool)
    ensures
        r == names_all(s@),
{
    text::contains(s, "都") || text::contains(s, "全部") || text::contains(s, "全")
}

/// Whether the text asks to drop or merge an entry.
pub open spec fn asks_drop(s: Seq<char>) -> bool {
    ||| text::has_sub(s, "删"@)
    ||| text::has_sub(s, "清掉"@)
    ||| text::has_sub(s, "作废"@)
    ||| text::has_sub(s, "合并"@)
}

fn has_drop_word(s: &str) -> (r: bool)
    ensures
        r == asks_drop(s@),
{
    text::contains(s, "删") || text::contains(s, "清掉") || text::contains(s, "作废") || text::contains(s, "合并")
}

// Reminders.

/// The text without the words that only ask for a reminder or name a time.
pub open spec fn payload(s: Seq<char>) -> Seq<char> {
    let p = s;
    let p = text::replaced(p, "提醒我"@, ""@);
    let p = text::replaced(p, "提醒一下"@, ""@);
    let p = text::replaced(p, "提醒下"@, ""@);
    let p = text::replaced(p, "帮我提醒"@, ""@);
    let p = text::replaced(p, "回头提醒"@, ""@);
    let p = text::replaced(p, "别忘"@, ""@);
    let p = text::replaced(p, "别忘了"@, ""@);
    let p = text::replaced(p, "帮我"@, ""@);
    let p = text::replaced(p, "请"@, ""@);
    let p = text::replaced(p, "麻烦"@, ""@);
    let p = text::replaced(p, "一下"@, ""@);
    let p = text::replaced(p, "一下子"@, ""@);
    let p = text::replaced(p, "到时候"@, ""@);
    let p = text::replaced(p, "记得"@, ""@);
    let p = text::replaced(p, "记着"@, ""@);
    let p = text::replaced(p, "回头"@, ""@);
    let p = text::replaced(p, "今天"@, ""@);
    let p = text::replaced(p, "明天"@, ""@);
    let p = text::replaced(p, "后天"@, ""@);
    let p = text::replaced(p, "今晚"@, ""@);
    let p = text::replaced(p, "明早"@, ""@);
    let p = text::replaced(p, "明晚"@, ""@);
    let p = text::replaced(p, "早上"@, ""@);
    let p = text::replaced(p, "上午"@, ""@);
    let p = text::replaced(p, "中午"@, ""@);
    let p = text::replaced(p, "下午"@, ""@);
    let p = text::replaced(p, "晚上"@, ""@);
    let p = text::replaced(p, "凌晨"@, ""@);
    let p = text::replaced(p, "傍晚"@, ""@);
    let p = text::replaced(p, "月底"@, ""@);
    let p = text::replaced(p, "月末"@, ""@);
    let p = text::replaced(p, "下个月初"@, ""@);
    let p = text::replaced(p, "下个月"@, ""@);
    let p = text::replaced(p, "周一"@, ""@);
    let p = text::replaced(p, "周二"@, ""@);
    let p = text::replaced(p, "周三"@, ""@);
    let p = text::replaced(p, "周四"@, ""@);
    let p = text::replaced(p, "周五"@, ""@);
    let p = text::replaced(p, "周六"@, ""@);
    let p = text::replaced(p, "周日"@, ""@);
    let p = text::replaced(p, "星期一"@, ""@);
    let p = text::replaced(p, "星期二"@, ""@);
    let p = text::replaced(p, "星期三"@, ""@);
    let p = text::replaced(p, "星期四"@, ""@);
    let p = text::replaced(p, "星期五"@, ""@);
    let p = text::replaced(p, "星期六"@, ""@);
    let p = text::replaced(p, "星期日"@, ""@);
    p
}

fn reminder_payload(s: &str) -> (r: String)
    ensures
        r@ == payload(s@),
{
    let p = s.to_owned();
    let p = text::replace(p.as_str(), "提醒我", "");
    let p = text::replace(p.as_str(), "提醒一下", "");
    let p = text::replace(p.as_str(), "提醒下", "");
    let p = text::replace(p.as_str(), "帮我提醒", "");
    let p = text::replace(p.as_str(), "回头提醒", "");
    let p = text::replace(p.as_str(), "别忘", "");
    let p = text::replace(p.as_str(), "别忘了", "");
    let p = text::replace(p.as_str(), "帮我", "");
    let p = text::replace(p.as_str(), "请", "");
    let p = text::replace(p.as_str(), "麻烦", "");
    let p = text::replace(p.as_str(), "一下", "");
    let p = text::replace(p.as_str(), "一下子", "");
    let p = text::replace(p.as_str(), "到时候", "");
    let p = text::replace(p.as_str(), "记得", "");
    let p = text::replace(p.as_str(), "记着", "");
    let p = text::replace(p.as_str(), "回头", "");
    let p = text::replace(p.as_str(), "今天", "");
    let p = text::replace(p.as_str(), "明天", "");
    let p = text::replace(p.as_str(), "后天", "");
    let p = text::replace(p.as_str(), "今晚", "");
    let p = text::replace(p.as_str(), "明早", "");
    let p = text::replace(p.as_str(), "明晚", "");
    let p = text::replace(p.as_str(), "早上", "");
    let p = text::replace(p.as_str(), "上午", "");
    let p = text::replace(p.as_str(), "中午", "");
    let p = text::replace(p.as_str(), "下午", "");
    let p = text::replace(p.as_str(), "晚上", "");
    let p = text::replace(p.as_str(), "凌晨", "");
    let p = text::replace(p.as_str(), "傍晚", "");
    let p = text::replace(p.as_str(), "月底", "");
    let p = text::replace(p.as_str(), "月末", "");
    let p = text::replace(p.as_str(), "下个月初", "");
    let p = text::replace(p.as_str(), "下个月", "");
    let p = text::replace(p.as_str(), "周一", "");
    let p = text::replace(p.as_str(), "周二", "");
    let p = text::replace(p.as_str(), "周三", "");
    let p = text::replace(p.as_str(), "周四", "");
    let p = text::replace(p.as_str(), "周五", "");
    let p = text::replace(p.as_str(), "周六", "");
    let p = text::replace(p.as_str(), "周日", "");
    let p = text::replace(p.as_str(), "星期一", "");
    let p = text::replace(p.as_str(), "星期二", "");
    let p = text::replace(p.as_str(), "星期三", "");
    let p = text::replace(p.as_str(), "星期四", "");
    let p = text::replace(p.as_str(), "星期五", "");
    let p = text::replace(p.as_str(), "星期六", "");
    let p = text::replace(p.as_str(), "星期日", "");
    p
}

pub open spec fn is_cjk_mark(c: char) -> bool {
    c == '，' || c == '。' || c == '、' || c == '：' || c == '；' || c == '？' || c == '！' || c == '（' || c
        == '）' || c == '【' || c == '】' || c == '《' || c == '》' || c == '“' || c == '”' || c == '‘'
        || c == '’'
}

pub fn is_cjk_punctuation(c: char) -> (r: bool)
    ensures
        r == is_cjk_mark(c),
{
    c == '，' || c == '。' || c == '、' || c == '：' || c == '；' || c == '？' || c == '！' || c == '（' || c
        == '）' || c == '【' || c == '】' || c == '《' || c == '》' || c == '“' || c == '”' || c == '‘'
        || c == '’'
}

/// Whether the character carries no meaning of its own.
pub open spec fn is_mark(c: char) -> bool {
    text::is_space(c) || text::is_punctuation(c) || is_cjk_mark(c)
}

fn is_mark_char(c: char) -> (r: bool)
    ensures
        r == is_mark(c),
{
    text::is_whitespace(c) || text::is_ascii_punctuation(c) || is_cjk_punctuation(c)
}

/// Whether the text is more than one character long once the marks around it are off.
pub open spec fn is_meaningful(s: Seq<char>) -> bool {
    exists|i: int, j: int| 0 <= i < j < s.len() && !is_mark(#[trigger] s[i]) && !is_mark(#[trigger] s[j])
}

fn has_meaning(s: &str) -> (r: bool)
    ensures
        r == is_meaningful(s@),
{
    let v = text::chars_of(s);
    let mut i: usize = 0;
    let mut first: Option<usize> = None;
    while i < v.len()
        invariant
            0 <= i <= v@.len(),
            v@ == s@,
            match first {
                Some(a) => a < i && !is_mark(s@[a as int]) && forall|k: int|
                    0 <= k < i && k != a ==> is_mark(#[trigger] s@[k]),
                None => forall|k: int| 0 <= k < i ==> is_mark(#[trigger] s@[k]),
            },
        decreases v@.len() - i,
    {
        if !is_mark_char(v[i]) {
            match first {
                Some(a) => {
                    assert(!is_mark(s@[a as int]) && !is_mark(s@[i as int]));
                    return true;
                },
                None => {
                    first = Some(i);
                },
            }
        }
        i += 1;
    }
    false
}

/// Whether the text names a time: a date can be read out of it, or it has a word for one.
pub open spec fn is_temporal(s: Seq<char>, has_due_date: bool) -> bool {
    has_due_date || names_time(s)
}

/// Whether the text asks for a reminder of something or at some time.
pub open spec fn wants_reminder(s: Seq<char>, has_due_date: bool) -> bool {
    asks_reminder(s) && (is_temporal(s, has_due_date) || is_meaningful(payload(s)))
}

fn has_reminder_intent(s: &str, has_due_date: bool) -> (r: bool)
    ensures
        r == wants_reminder(s@, has_due_date),
{
    has_reminder_action(s) && (has_due_date || has_time_word(s) || has_meaning(
        reminder_payload(s).as_str(),
    ))
}

// Small talk.

pub open spec fn is_greeting_tail(s: Seq<char>) -> bool {
    s == "呀"@ || s == "啊"@ || s == "哦"@ || s == "喔"@ || s == "哈"@ || s == "～"@ || s == "~"@
}

/// Whether the text is the greeting, with or without a particle behind it.
pub open spec fn greets_with(s: Seq<char>, greeting: Seq<char>) -> bool {
    s == greeting || (text::behind(s, greeting) matches Some(tail) && is_greeting_tail(tail))
}

fn is_greeting(s: &str, greeting: &str) -> (r: bool)
    ensures
        r == greets_with(s@, greeting@),
{
    if text::same(s, greeting) {
        return true;
    }
    match text::strip_prefix(s, greeting) {
        Some(t) => text::same(t, "呀") || text::same(t, "啊") || text::same(t, "哦") || text::same(
            t,
            "喔",
        ) || text::same(t, "哈") || text::same(t, "～") || text::same(t, "~"),
        None => false,
    }
}

/// Whether the text, written without spaces, is nothing but a greeting.
pub open spec fn greets(s: Seq<char>) -> bool {
    ||| s == "你好"@
    ||| s == "您好"@
    ||| s == "你在吗"@
    ||| s == "在吗"@
    ||| greets_with(s, "晚上好"@)
    ||| greets_with(s, "早上好"@)
    ||| greets_with(s, "上午好"@)
    ||| greets_with(s, "中午好"@)
    ||| greets_with(s, "下午好"@)
}

fn is_plain_greeting(s: &str) -> (r: bool)
    ensures
        r == greets(s@),
{
    text::same(s, "你好") || text::same(s, "您好") || text::same(s, "你在吗") || text::same(s, "在吗")
        || is_greeting(s, "晚上好") || is_greeting(s, "早上好") || is_greeting(s, "上午好")
        || is_greeting(s, "中午好") || is_greeting(s, "下午好")
}

pub open spec fn says_hello(s: Seq<char>) -> bool {
    let t = text::trimmed(text::ascii_lowered(s));
    t == "hi"@ || t == "hello"@ || t == "hey"@
}

fn is_hello(s: &str) -> (r: bool)
    ensures
        r == says_hello(s@),
{
    let lower = text::to_ascii_lowercase(s);
    let t = text::trim(lower.as_str());
    text::same(t, "hi") || text::same(t, "hello") || text::same(t, "hey")
}

/// Whether the message is for plain chat: a greeting, small talk, writing or explaining.
pub open spec fn is_plain_chat(s: Seq<char>) -> bool {
    ||| greets(text::compacted(s))
    ||| says_hello(s)
    ||| is_small_talk(s)
    ||| asks_writing(s)
    ||| asks_explaining(s)
}

pub fn has_plain_chat_intent(s: &str) -> (r: bool)
    ensures
        r == is_plain_chat(s@),
{
    is_plain_greeting(text::compact(s).as_str()) || is_hello(s) || has_small_talk(s)
        || has_writing_request(s) || has_explain_request(s)
}

// Tasks.

/// Whether the message plans an action for a time.
pub open spec fn plans_action(s: Seq<char>, has_due_date: bool) -> bool {
    &&& !is_plain_chat(s)
    &&& is_temporal(s, has_due_date)
    &&& names_scheduled_action(text::compacted(s))
}

fn has_scheduled_task_intent(s: &str, has_due_date: bool) -> (r: bool)
    ensures
        r == plans_action(s@, has_due_date),
{
    !has_plain_chat_intent(s) && (has_due_date || has_time_word(s)) && has_scheduled_action(
        text::compact(s).as_str(),
    )
}

/// Whether the message is about a task: it names a task and what to do with it, or an
/// entry or pronoun and a change. A bare call for a reminder is not.
pub open spec fn is_task(s: Seq<char>, has_due_date: bool) -> bool {
    &&& !(asks_reminder(s) && !wants_reminder(s, has_due_date))
    &&& {
        ||| (names_todo(s) || text::has_sub(text::ascii_lowered(s), "todo"@)) && (asks_write(s)
            || asks_settle(s) || asks_query(s))
        ||| (asks_settle(s) || asks_edit(s)) && (names_ordinal(s) || points_close(s))
    }
}

fn has_todo_intent(s: &str, has_due_date: bool) -> (r: bool)
    ensures
        r == is_task(s@, has_due_date),
{
    if has_reminder_action(s) && !has_reminder_intent(s, has_due_date) {
        return false;
    }
    let lower = text::to_ascii_lowercase(s);
    if (has_todo_object(s) || text::contains(lower.as_str(), "todo")) && (has_write_marker(s)
        || has_confirm_marker(s) || has_query_marker(s)) {
        return true;
    }
    (has_confirm_marker(s) || has_edit_word(s)) && (has_ordinal_reference(s) || has_close_pronoun(s))
}

/// Whether the message changes an entry that it names or points at.
pub open spec fn is_strong_reference(s: Seq<char>) -> bool {
    &&& names_ordinal(s) || points_back(s)
    &&& asks_settle(s) || (names_ordinal(s) && asks_numbered_edit(s))
}

fn is_strong_todo_reference_operation(s: &str) -> (r: bool)
    ensures
        r == is_strong_reference(s@),
{
    (has_ordinal_reference(s) || has_context_pronoun_reference(s)) && (has_confirm_marker(s) || (
    has_ordinal_reference(s) && has_numbered_edit(s)))
}

/// Whether the message only makes sense about something shown before.
pub open spec fn is_weak_reference(s: Seq<char>) -> bool {
    ||| points_back(s) && asks_pointed_edit(s)
    ||| names_all(s) && asks_settle(s)
}

fn is_weak_todo_context_reference(s: &str) -> (r: bool)
    ensures
        r == is_weak_reference(s@),
{
    (has_context_pronoun_reference(s) && has_pointed_edit(s)) || (has_all_word(s)
        && has_confirm_marker(s))
}

pub open spec fn holds_digit(s: Seq<char>) -> bool {
    exists|i: int| 0 <= i < s.len() && text::is_digit(#[trigger] s[i])
}

fn has_ascii_digit(s: &str) -> (r: bool)
    ensures
        r == holds_digit(s@),
{
    let v = text::chars_of(s);
    let mut i: usize = 0;
    while i < v.len()
        invariant
            0 <= i <= v@.len(),
            v@ == s@,
            forall|k: int| 0 <= k < i ==> !text::is_digit(#[trigger] s@[k]),
        decreases v@.len() - i,
    {
        if text::is_ascii_digit(v[i]) {
            assert(text::is_digit(s@[i as int]));
            return true;
        }
        i += 1;
    }
    false
}

/// Whether the message settles something that it names by a bare number.
pub open spec fn is_bare_number(s: Seq<char>) -> bool {
    let c = text::compacted(s);
    holds_digit(c) && (asks_settle(c) || asks_drop(c))
}

fn is_bare_number_todo_operation(s: &str) -> (r: bool)
    ensures
        r == is_bare_number(s@),
{
    let c = text::compact(s);
    has_ascii_digit(c.as_str()) && (has_confirm_marker(c.as_str()) || has_drop_word(c.as_str()))
}

// Other domains.

pub open spec fn is_memory_request(s: Seq<char>) -> bool {
    text::has_sub(text::ascii_lowered(s), "memory"@) || names_memory(s)
}

pub fn has_memory_intent(s: &str) -> (r: bool)
    ensures
        r == is_memory_request(s@),
{
    text::contains(text::to_ascii_lowercase(s).as_str(), "memory") || has_memory_word(s)
}

/// Whether the message is a place and the word for weather.
pub open spec fn asks_city_weather(s: Seq<char>) -> bool {
    text::before(text::compacted(s), "天气"@) matches Some(city) && 0 < city.len() <= 12 && !is_talk(city)
}

fn looks_like_city_weather_query(s: &str) -> (r: bool)
    ensures
        r == asks_city_weather(s@),
{
    let c = text::compact(s);
    match text::strip_suffix(c.as_str(), "天气") {
        Some(city) => {
            let n: usize = city.unicode_len();
            0 < n && n <= 12 && !is_talk_about(city)
        },
        None => false,
    }
}

pub open spec fn is_weather_request(s: Seq<char>) -> bool {
    asks_weather_by_sign(s) || asks_city_weather(s) || (names_weather(s) && asks_how(s))
}

pub fn has_weather_intent(s: &str) -> (r: bool)
    ensures
        r == is_weather_request(s@),
{
    has_weather_sign(s) || looks_like_city_weather_query(s) || (has_weather_word(s)
        && has_weather_question(s))
}

pub open spec fn is_code_letter(c: char) -> bool {
    c == 'G' || c == 'D' || c == 'C' || c == 'K' || c == 'Z' || c == 'T' || c == 'g' || c == 'd' || c
        == 'c' || c == 'k' || c == 'z' || c == 't'
}

/// Whether position `i` is outside of the text or holds a mark.
pub open spec fn is_boundary(s: Seq<char>, i: int) -> bool {
    i < 0 || i >= s.len() || is_mark(s[i])
}

/// Whether a train number with `n` digits stands at position `i`.
pub open spec fn train_code_at(s: Seq<char>, i: int, n: int) -> bool {
    &&& 0 <= i < s.len()
    &&& is_code_letter(s[i])
    &&& is_boundary(s, i - 1)
    &&& 2 <= n <= 5 || (n == 1 && (s[i] == 'G' || s[i] == 'g'))
    &&& i + n < s.len()
    &&& forall|k: int| i < k <= i + n ==> text::is_digit(#[trigger] s[k])
    &&& is_boundary(s, i + n + 1)
}

pub open spec fn holds_train_code(s: Seq<char>) -> bool {
    exists|i: int, n: int| train_code_at(s, i, n)
}

pub fn has_train_code(s: &str) -> (r: bool)
    ensures
        r == holds_train_code(s@),
{
    let v = text::chars_of(s);
    let mut start: usize = 0;
    while start < v.len()
        invariant
            0 <= start <= v@.len(),
            v@ == s@,
            forall|i: int, n: int| i < start ==> !train_code_at(s@, i, n),
        decreases v@.len() - start,
    {
        let c = v[start];
        let letter = c == 'G' || c == 'D' || c == 'C' || c == 'K' || c == 'Z' || c == 'T' || c == 'g'
            || c == 'd' || c == 'c' || c == 'k' || c == 'z' || c == 't';
        let open = start == 0 || is_mark_char(v[start - 1]);
        if letter && open {
            let mut end: usize = start + 1;
            while end < v.len() && text::is_ascii_digit(v[end]) && end - start <= 5
                invariant
                    start < end <= v@.len(),
                    end - start <= 6,
                    v@ == s@,
                    forall|k: int| start < k < end ==> text::is_digit(#[trigger] s@[k]),
                decreases v@.len() - end,
            {
                end += 1;
            }
            let count: usize = end - start - 1;
            let single = c == 'G' || c == 'g';
            let closed = end == v.len() || is_mark_char(v[end]);
            if ((2 <= count && count <= 5) || (count == 1 && single)) && closed {
                proof {
                    assert(train_code_at(s@, start as int, count as int));
                }
                return true;
            }
            proof {
                assert forall|n: int| !train_code_at(s@, start as int, n) by {
                    if train_code_at(s@, start as int, n) {
                        if n < count {
                            assert(text::is_digit(s@[start + n + 1]));
                        } else if n > count {
                            assert(text::is_digit(s@[end as int]));
                        }
                    }
                }
            }
        }
        start += 1;
    }
    proof {
        assert forall|i: int, n: int| !train_code_at(s@, i, n) by {}
    }
    false
}

pub open spec fn is_train_request(s: Seq<char>) -> bool {
    names_train(s) || holds_train_code(s)
}

pub fn has_train_intent(s: &str) -> (r: bool)
    ensures
        r == is_train_request(s@),
{
    has_train_word(s) || has_train_code(s)
}

pub open spec fn is_feed_request(s: Seq<char>) -> bool {
    text::has_sub(text::ascii_lowered(s), "rss"@) || names_feed(s)
}

pub fn has_rss_intent(s: &str) -> (r: bool)
    ensures
        r == is_feed_request(s@),
{
    text::contains(text::to_ascii_lowercase(s).as_str(), "rss") || has_feed_word(s)
}

// The reading of a message.

/// What a message is for.
#[derive(Debug, Clone, Copy)]
pub struct SemanticAssessment {
    pub semantic_route: SemanticRoute,
    pub domain: ToolDomain,
    pub reason: &'static str,
}

pub open spec fn starts_command(s: Seq<char>) -> bool {
    s.len() > 0 && (s[0] == '/' || s[0] == '／')
}

fn is_command(s: &str) -> (r: bool)
    ensures
        r == starts_command(s@),
{
    if s.unicode_len() == 0 {
        return false;
    }
    let c = s.get_char(0);
    c == '/' || c == '／'
}

/// Route, domain and reason that a message reads as.
pub open spec fn reading(s: Seq<char>, has_due_date: bool, recent: bool) -> (SemanticRoute, ToolDomain, Seq<char>) {
    if starts_command(s) {
        (SemanticRoute::Deterministic, ToolDomain::Unknown, "deterministic_or_empty"@)
    } else if is_task(s, has_due_date) || wants_reminder(s, has_due_date) || plans_action(
        s,
        has_due_date,
    ) {
        (SemanticRoute::ToolLoop, ToolDomain::Todo, "semantic_tool_intent"@)
    } else if is_strong_reference(s) {
        (SemanticRoute::ToolLoop, ToolDomain::Todo, "todo_reference_strong"@)
    } else if is_weak_reference(s) && recent {
        (SemanticRoute::ToolLoop, ToolDomain::Todo, "todo_reference_context"@)
    } else if is_bare_number(s) {
        if recent {
            (SemanticRoute::ToolLoop, ToolDomain::Todo, "todo_number_context"@)
        } else {
            (SemanticRoute::PlainChat, ToolDomain::Todo, "todo_number_context_missing"@)
        }
    } else if is_memory_request(s) {
        (SemanticRoute::ToolLoop, ToolDomain::Memory, "semantic_tool_intent"@)
    } else if is_weather_request(s) {
        (SemanticRoute::ToolLoop, ToolDomain::Weather, "semantic_tool_intent"@)
    } else if is_train_request(s) {
        (SemanticRoute::ToolLoop, ToolDomain::Train, "semantic_tool_intent"@)
    } else if is_feed_request(s) {
        (SemanticRoute::ToolLoop, ToolDomain::Rss, "semantic_tool_intent"@)
    } else if names_weather(s) || is_plain_chat(s) {
        (SemanticRoute::PlainChat, ToolDomain::Unknown, "semantic_plain_chat"@)
    } else if is_weak_reference(s) {
        (SemanticRoute::PlainChat, ToolDomain::Todo, "todo_reference_context_missing"@)
    } else {
        (SemanticRoute::Ambiguous, ToolDomain::Unknown, "semantic_ambiguous_plain"@)
    }
}

fn assessment(semantic_route: SemanticRoute, domain: ToolDomain, reason: &'static str) -> (r: SemanticAssessment)
    ensures
        r.semantic_route == semantic_route,
        r.domain == domain,
        r.reason == reason,
{
    SemanticAssessment { semantic_route, domain, reason }
}

pub fn classify_semantic_route(s: &str, has_due_date: bool, has_recent_todo_context: bool) -> (r: SemanticAssessment)
    ensures
        (r.semantic_route, r.domain, r.reason@) == reading(s@, has_due_date, has_recent_todo_context),
{
    if is_command(s) {
        return assessment(
            SemanticRoute::Deterministic,
            ToolDomain::Unknown,
            "deterministic_or_empty",
        );
    }
    if has_todo_intent(s, has_due_date) || has_reminder_intent(s, has_due_date)
        || has_scheduled_task_intent(s, has_due_date) {
        return assessment(SemanticRoute::ToolLoop, ToolDomain::Todo, "semantic_tool_intent");
    }
    if is_strong_todo_reference_operation(s) {
        return assessment(SemanticRoute::ToolLoop, ToolDomain::Todo, "todo_reference_strong");
    }
    if is_weak_todo_context_reference(s) && has_recent_todo_context {
        return assessment(SemanticRoute::ToolLoop, ToolDomain::Todo, "todo_reference_context");
    }
    if is_bare_number_todo_operation(s) {
        if has_recent_todo_context {
            return assessment(SemanticRoute::ToolLoop, ToolDomain::Todo, "todo_number_context");
        }
        return assessment(
            SemanticRoute::PlainChat,
            ToolDomain::Todo,
            "todo_number_context_missing",
        );
    }
    if has_memory_intent(s) {
        return assessment(SemanticRoute::ToolLoop, ToolDomain::Memory, "semantic_tool_intent");
    }
    if has_weather_intent(s) {
        return assessment(SemanticRoute::ToolLoop, ToolDomain::Weather, "semantic_tool_intent");
    }
    if has_train_intent(s) {
        return assessment(SemanticRoute::ToolLoop, ToolDomain::Train, "semantic_tool_intent");
    }
    if has_rss_intent(s) {
        return assessment(SemanticRoute::ToolLoop, ToolDomain::Rss, "semantic_tool_intent");
    }
    if has_weather_word(s) {
        return assessment(SemanticRoute::PlainChat, ToolDomain::Unknown, "semantic_plain_chat");
    }
    if has_plain_chat_intent(s) {
        return assessment(SemanticRoute::PlainChat, ToolDomain::Unknown, "semantic_plain_chat");
    }
    if is_weak_todo_context_reference(s) {
        return assessment(
            SemanticRoute::PlainChat,
            ToolDomain::Todo,
            "todo_reference_context_missing",
        );
    }
    assessment(SemanticRoute::Ambiguous, ToolDomain::Unknown, "semantic_ambiguous_plain")
}

/// What the user sees a message about tasks being worked on as.
pub open spec fn task_action(s: Seq<char>) -> StatusAction {
    if asks_settle(s) {
        StatusAction::Confirm
    } else if asks_write(s) {
        StatusAction::Write
    } else if asks_query(s) {
        StatusAction::Query
    } else {
        StatusAction::Process
    }
}

pub fn todo_status_action(s: &str) -> (r: StatusAction)
    ensures
        r == task_action(s@),
{
    if has_confirm_marker(s) {
        return StatusAction::Confirm;
    }
    if has_write_marker(s) {
        return StatusAction::Write;
    }
    if has_query_marker(s) {
        return StatusAction::Query;
    }
    StatusAction::Process
}

/// Whether the message is about tasks, given whether tasks were shown before.
pub open spec fn concerns_tasks(s: Seq<char>, has_due_date: bool, recent: bool) -> bool {
    ||| is_task(s, has_due_date)
    ||| is_strong_reference(s)
    ||| recent && is_weak_reference(s)
    ||| recent && is_bare_number(s)
}

/// What the user is shown while the message is worked on.
pub open spec fn shown_status(s: Seq<char>, has_due_date: bool, recent: bool) -> Option<StatusHint> {
    if wants_reminder(s, has_due_date) || plans_action(s, has_due_date) {
        Some(StatusHint { subject: StatusSubject::Todo, action: StatusAction::Write })
    } else if concerns_tasks(s, has_due_date, recent) {
        Some(StatusHint { subject: StatusSubject::Todo, action: task_action(s) })
    } else if is_memory_request(s) {
        Some(StatusHint { subject: StatusSubject::Record, action: StatusAction::Read })
    } else if is_weather_request(s) {
        Some(StatusHint { subject: StatusSubject::Weather, action: StatusAction::Query })
    } else if is_train_request(s) {
        Some(StatusHint { subject: StatusSubject::Train, action: StatusAction::Query })
    } else if is_feed_request(s) {
        Some(StatusHint { subject: StatusSubject::Rss, action: StatusAction::Query })
    } else {
        None
    }
}

pub fn classify_status_hint(s: &str, has_due_date: bool, has_recent_todo_context: bool) -> (r: Option<StatusHint>)
    ensures
        r == shown_status(s@, has_due_date, has_recent_todo_context),
{
    if has_reminder_intent(s, has_due_date) || has_scheduled_task_intent(s, has_due_date) {
        return Some(StatusHint::new(StatusSubject::Todo, StatusAction::Write));
    }
    if has_todo_intent(s, has_due_date) || is_strong_todo_reference_operation(s) || (
    has_recent_todo_context && is_weak_todo_context_reference(s)) || (has_recent_todo_context
        && is_bare_number_todo_operation(s)) {
        return Some(StatusHint::new(StatusSubject::Todo, todo_status_action(s)));
    }
    if has_memory_intent(s) {
        return Some(StatusHint::new(StatusSubject::Record, StatusAction::Read));
    }
    if has_weather_intent(s) {
        return Some(StatusHint::new(StatusSubject::Weather, StatusAction::Query));
    }
    if has_train_intent(s) {
        return Some(StatusHint::new(StatusSubject::Train, StatusAction::Query));
    }
    if has_rss_intent(s) {
        return Some(StatusHint::new(StatusSubject::Rss, StatusAction::Query));
    }
    None
}

// Routing.

/// Whether tools can be used at all.
pub open spec fn tools_usable(ctx: ToolRouteContext) -> bool {
    ctx.scene_enabled && ctx.tool_calling_enabled && ctx.provider_supports_tool_calling
        && ctx.enabled_tools_available
}

pub open spec fn is_group(req: RespondRequest) -> bool {
    text::opt_view(req.group_id) matches Some(g) && !text::blank(g)
}

pub open spec fn decides(
    d: ToolRouteDecision,
    route: ToolLoopRoute,
    semantic_route: SemanticRoute,
    domain: ToolDomain,
    reason: Seq<char>,
    status_hint: Option<StatusHint>,
) -> bool {
    &&& d.route == route
    &&& d.semantic_route == semantic_route
    &&& d.domain == domain
    &&& d.reason@ == reason
    &&& d.status_hint == status_hint
}

/// Where a message goes.
pub open spec fn is_routed(d: ToolRouteDecision, req: RespondRequest, ctx: ToolRouteContext) -> bool {
    let s = text::trimmed(req.user_words());
    let recent = ctx.interaction_state.recent(InteractionDomain::Todo);
    let plain = ToolLoopRoute::PlainChat;
    if !tools_usable(ctx) {
        decides(d, plain, SemanticRoute::PlainChat, ToolDomain::Unknown, "tool_loop_unavailable"@, None)
    } else if req.holds_other_than_text() {
        decides(d, plain, SemanticRoute::PlainChat, ToolDomain::Unknown, "multimodal_plain_chat"@, None)
    } else if s.len() == 0 || starts_command(s) {
        decides(
            d,
            plain,
            SemanticRoute::Deterministic,
            ToolDomain::Unknown,
            "deterministic_or_empty"@,
            None,
        )
    } else if is_group(req) && !ctx.group_tool_calling_enabled {
        decides(
            d,
            plain,
            SemanticRoute::PlainChat,
            ToolDomain::Unknown,
            "group_tool_loop_disabled"@,
            None,
        )
    } else {
        let read = reading(s, ctx.has_due_date, recent);
        match read.0 {
            SemanticRoute::ToolLoop => decides(
                d,
                ToolLoopRoute::CompleteToolLoop,
                SemanticRoute::ToolLoop,
                read.1,
                read.2,
                shown_status(s, ctx.has_due_date, recent),
            ),
            SemanticRoute::Ambiguous => decides(
                d,
                plain,
                SemanticRoute::Ambiguous,
                read.1,
                if is_group(req) {
                    "semantic_ambiguous_group_plain"@
                } else {
                    read.2
                },
                None,
            ),
            other => decides(d, plain, other, read.1, read.2, None),
        }
    }
}

fn decision(
    route: ToolLoopRoute,
    semantic_route: SemanticRoute,
    domain: ToolDomain,
    reason: &'static str,
    status_hint: Option<StatusHint>,
) -> (r: ToolRouteDecision)
    ensures
        decides(r, route, semantic_route, domain, reason@, status_hint),
{
    ToolRouteDecision { route, semantic_route, domain, reason, status_hint }
}

pub fn route_tool_loop(req: &RespondRequest, ctx: &ToolRouteContext) -> (r: ToolRouteDecision)
    ensures
        is_routed(r, *req, *ctx),
{
    if !ctx.scene_enabled || !ctx.tool_calling_enabled || !ctx.provider_supports_tool_calling
        || !ctx.enabled_tools_available {
        return decision(
            ToolLoopRoute::PlainChat,
            SemanticRoute::PlainChat,
            ToolDomain::Unknown,
            "tool_loop_unavailable",
            None,
        );
    }
    if req.has_non_text_input_parts() {
        return decision(
            ToolLoopRoute::PlainChat,
            SemanticRoute::PlainChat,
            ToolDomain::Unknown,
            "multimodal_plain_chat",
            None,
        );
    }
    let words = req.effective_user_text();
    let s = text::trim(words.as_str());
    if s.unicode_len() == 0 || is_command(s) {
        return decision(
            ToolLoopRoute::PlainChat,
            SemanticRoute::Deterministic,
            ToolDomain::Unknown,
            "deterministic_or_empty",
            None,
        );
    }
    let in_group = match &req.group_id {
        Some(g) => !text::is_blank(g.as_str()),
        None => false,
    };
    if in_group && !ctx.group_tool_calling_enabled {
        return decision(
            ToolLoopRoute::PlainChat,
            SemanticRoute::PlainChat,
            ToolDomain::Unknown,
            "group_tool_loop_disabled",
            None,
        );
    }
    let recent = ctx.interaction_state.has_recent_context(InteractionDomain::Todo);
    let read = classify_semantic_route(s, ctx.has_due_date, recent);
    let hint = classify_status_hint(s, ctx.has_due_date, recent);
    match read.semantic_route {
        SemanticRoute::PlainChat => decision(
            ToolLoopRoute::PlainChat,
            SemanticRoute::PlainChat,
            read.domain,
            read.reason,
            None,
        ),
        SemanticRoute::ToolLoop => decision(
            ToolLoopRoute::CompleteToolLoop,
            SemanticRoute::ToolLoop,
            read.domain,
            read.reason,
            hint,
        ),
        SemanticRoute::Deterministic => decision(
            ToolLoopRoute::PlainChat,
            SemanticRoute::Deterministic,
            read.domain,
            "deterministic_or_empty",
            None,
        ),
        SemanticRoute::Ambiguous => {
            if in_group {
                decision(
                    ToolLoopRoute::PlainChat,
                    SemanticRoute::Ambiguous,
                    read.domain,
                    "semantic_ambiguous_group_plain",
                    None,
                )
            } else {
                decision(
                    ToolLoopRoute::PlainChat,
                    SemanticRoute::Ambiguous,
                    read.domain,
                    read.reason,
                    None,
                )
            }
        },
    }
}

// Laws.

/// A message that goes to the tools is shown with a status, one that does not is not.
pub proof fn status_goes_with_the_tool_loop(d: ToolRouteDecision, req: RespondRequest, ctx: ToolRouteContext)
    requires
        is_routed(d, req, ctx),
    ensures
        d.status_hint is Some <==> d.route == ToolLoopRoute::CompleteToolLoop,
        d.route == ToolLoopRoute::CompleteToolLoop <==> d.semantic_route == SemanticRoute::ToolLoop,
{
}

/// What was shown before matters only to a message that points back: with it the message goes
/// to the tools as a task, without it it never does.
pub proof fn weak_references_need_context(s: Seq<char>, has_due_date: bool)
    requires
        reading(s, has_due_date, true) != reading(s, has_due_date, false),
    ensures
        is_weak_reference(s) || is_bare_number(s),
        reading(s, has_due_date, true).0 == SemanticRoute::ToolLoop,
        reading(s, has_due_date, true).1 == ToolDomain::Todo,
        !(reading(s, has_due_date, false).0 == SemanticRoute::ToolLoop && reading(
            s,
            has_due_date,
            false,
        ).1 == ToolDomain::Todo),
{
}

/// Only plain text that is no command reaches the tools, only where they can be used, and in
/// a group only where the group has switched them on.
pub proof fn tools_are_reached_with_leave(d: ToolRouteDecision, req: RespondRequest, ctx: ToolRouteContext)
    requires
        is_routed(d, req, ctx),
        d.route == ToolLoopRoute::CompleteToolLoop,
    ensures
        tools_usable(ctx),
        !req.holds_other_than_text(),
        is_group(req) ==> ctx.group_tool_calling_enabled,
        !text::blank(req.user_words()),
        !starts_command(text::trimmed(req.user_words())),
{
}

} // verus!
