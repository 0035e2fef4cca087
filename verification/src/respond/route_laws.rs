//! What messages are read as: the words that make a task, a reminder, a memory, a question for
//! weather, trains or subscriptions, and where messages with these words go.
use vstd::prelude::*;
use vstd::string::*;

use crate::respond::route;
use crate::respond::route::{
    SemanticRoute, ToolDomain, ToolLoopRoute, ToolRouteContext, ToolRouteDecision,
};
use crate::respond::status::{StatusAction, StatusHint, StatusSubject};
use crate::respond::status::InteractionDomain;
use crate::respond::types::RespondRequest;
use crate::text;

verus! {

// Words.

/// Words for tasks.
pub open spec fn task_words() -> Seq<Seq<char>> {
    seq!["待办"@, "代办"@, "任务"@, "提醒"@, "事项"@]
}

/// Words for writing a task down.
pub open spec fn writing_down_words() -> Seq<Seq<char>> {
    seq!["新增"@, "添加"@, "加个"@, "加一"@, "创建"@, "记一下"@, "记录"@, "提醒我"@, "别忘"@, "编辑"@, "修改"@, "改成"@]
}

/// Words for finishing, restoring or dropping.
pub open spec fn settling_words() -> Seq<Seq<char>> {
    seq!["完成"@, "做完"@, "恢复"@, "取消"@, "删除"@, "删掉"@, "移除"@]
}

/// Words for looking at tasks.
pub open spec fn looking_words() -> Seq<Seq<char>> {
    seq!["查看"@, "看一下"@, "列出"@, "有哪些"@, "检查"@]
}

/// Words for reminders.
pub open spec fn reminder_words() -> Seq<Seq<char>> {
    seq!["提醒我"@, "提醒一下"@, "提醒下"@, "帮我提醒"@, "回头提醒"@, "别忘"@, "别忘了"@]
}

/// Words for editing.
pub open spec fn editing_words() -> Seq<Seq<char>> {
    seq!["编辑"@, "修改"@, "改成"@]
}

/// Words for what was just spoken of.
pub open spec fn near_words() -> Seq<Seq<char>> {
    seq!["它"@, "这个"@, "那个"@, "刚才那条"@]
}

/// Words for planned actions.
pub open spec fn planned_words() -> Seq<Seq<char>> {
    seq!["盯一下"@, "盯下"@, "看一下"@, "看下"@, "检查"@, "跟进"@, "开会"@, "提交"@, "出一版"@, "复盘"@, "续费"@, "验收"@, "整理"@, "发送"@, "发给"@, "发一下"@, "发布"@, "发版"@, "交水电费"@, "交作业"@, "买菜"@, "买东西"@, "买药"@, "完成初稿"@, "完成草稿"@]
}

/// Words for times.
pub open spec fn time_words() -> Seq<Seq<char>> {
    seq!["今晚"@, "明早"@, "明晚"@, "早上"@, "上午"@, "中午"@, "下午"@, "晚上"@, "凌晨"@, "傍晚"@, "回头"@, "月末"@, "下个月"@]
}

/// Words for memories.
pub open spec fn memory_words() -> Seq<Seq<char>> {
    seq!["记忆"@, "记一下"@, "记住"@, "帮我记"@, "记录一下"@, "保存一下"@]
}

/// Words for rain, warmth and warnings.
pub open spec fn weather_signs() -> Seq<Seq<char>> {
    seq!["下雨"@, "有雨"@, "带伞"@, "冷吗"@, "热吗"@, "穿什么"@, "几度"@, "预报"@, "预警"@, "台风"@]
}

/// Words for the weather.
pub open spec fn weather_words() -> Seq<Seq<char>> {
    seq!["天气"@, "气温"@, "温度"@]
}

/// Words for questions.
pub open spec fn question_words() -> Seq<Seq<char>> {
    seq!["查"@, "查询"@, "看看"@, "看下"@, "看一下"@, "怎么样"@, "如何"@, "多少"@, "会不会"@, "有没有"@]
}

/// Words for talking about something.
pub open spec fn talk_words() -> Seq<Seq<char>> {
    seq!["聊聊"@, "讨论"@, "关于"@, "这个"@, "那个"@, "一说"@, "说到"@, "如果"@, "因为"@]
}

/// Words for trains.
pub open spec fn train_words() -> Seq<Seq<char>> {
    seq!["火车"@, "列车"@, "车次"@, "高铁"@, "动车"@, "时刻"@, "站台"@]
}

/// Words for subscriptions.
pub open spec fn feed_words() -> Seq<Seq<char>> {
    seq!["订阅更新"@, "最近订阅"@, "订阅记录"@]
}

/// Words for small talk.
pub open spec fn small_talk_words() -> Seq<Seq<char>> {
    seq!["陪我聊"@, "聊会"@, "闲聊"@, "说说话"@, "聊聊天"@, "有点烦"@, "有点累"@, "不开心"@, "你下午在吗"@, "你晚上在吗"@]
}

/// Words for writing.
pub open spec fn composing_words() -> Seq<Seq<char>> {
    seq!["写一段"@, "写一篇"@, "写首"@, "生成一段"@, "输出一段"@, "试试输出"@, "长文本"@, "流式"@, "讲个故事"@, "讲故事"@, "小说"@, "文案"@]
}

/// Words for explaining.
pub open spec fn explaining_words() -> Seq<Seq<char>> {
    seq!["解释一下"@, "讲解"@, "介绍一下"@, "分析一下"@, "聊聊"@, "为什么"@, "怎么理解"@, "怎么设计"@, "怎么选"@, "架构"@, "模型"@, "版本说明"@, "消息发送失败"@, "流式还有问题"@, "排障"@]
}

/// Words for entries by number.
pub open spec fn entry_words() -> Seq<Seq<char>> {
    seq!["第一"@, "第二"@, "第三"@, "第四"@, "第五"@, "第六"@, "第七"@, "第八"@, "第九"@, "第十"@, "第 1"@, "第 2"@, "第 3"@, "第 4"@, "第 5"@, "第 6"@, "第 7"@, "第 8"@, "第 9"@, "第1"@, "第2"@, "第3"@, "第4"@, "第5"@, "第6"@, "第7"@, "第8"@, "第9"@]
}

/// Words for what was shown before.
pub open spec fn back_words() -> Seq<Seq<char>> {
    seq!["它"@, "这个"@, "那个"@, "这条"@, "那条"@, "这些"@, "它们"@, "刚才那条"@, "刚刚那条"@, "刚才那个"@, "刚刚那个"@]
}

/// Words for working on an entry.
pub open spec fn entry_change_words() -> Seq<Seq<char>> {
    seq!["处理"@, "改一下"@, "修改"@, "编辑"@]
}

/// Words for working on what is pointed at.
pub open spec fn pointed_change_words() -> Seq<Seq<char>> {
    seq!["处理"@, "改一下"@, "修改"@, "编辑"@, "改成"@]
}

/// Words for all entries.
pub open spec fn all_words() -> Seq<Seq<char>> {
    seq!["都"@, "全部"@, "全"@]
}

/// Words for dropping or merging.
pub open spec fn drop_words() -> Seq<Seq<char>> {
    seq!["删"@, "清掉"@, "作废"@, "合并"@]
}

/// Whether the text holds one of the words.
pub open spec fn holds_one_of(s: Seq<char>, words: Seq<Seq<char>>) -> bool {
    exists|i: int| 0 <= i < words.len() && text::has_sub(s, #[trigger] words[i])
}

proof fn lemma_task_words(s: Seq<char>)
    ensures
        route::names_todo(s) <==> holds_one_of(s, task_words()),
{
    let w = task_words();
    assert(w[0] == "待办"@);
    assert(w[1] == "代办"@);
    assert(w[2] == "任务"@);
    assert(w[3] == "提醒"@);
    assert(w[4] == "事项"@);
    if holds_one_of(s, w) {
        let i = choose|i: int| 0 <= i < w.len() && text::has_sub(s, #[trigger] w[i]);
        assert(w.len() == 5);
    }
}

proof fn lemma_writing_down_words(s: Seq<char>)
    ensures
        route::asks_write(s) <==> holds_one_of(s, writing_down_words()),
{
    let w = writing_down_words();
    assert(w[0] == "新增"@);
    assert(w[1] == "添加"@);
    assert(w[2] == "加个"@);
    assert(w[3] == "加一"@);
    assert(w[4] == "创建"@);
    assert(w[5] == "记一下"@);
    assert(w[6] == "记录"@);
    assert(w[7] == "提醒我"@);
    assert(w[8] == "别忘"@);
    assert(w[9] == "编辑"@);
    assert(w[10] == "修改"@);
    assert(w[11] == "改成"@);
    if holds_one_of(s, w) {
        let i = choose|i: int| 0 <= i < w.len() && text::has_sub(s, #[trigger] w[i]);
        assert(w.len() == 12);
    }
}

proof fn lemma_settling_words(s: Seq<char>)
    ensures
        route::asks_settle(s) <==> holds_one_of(s, settling_words()),
{
    let w = settling_words();
    assert(w[0] == "完成"@);
    assert(w[1] == "做完"@);
    assert(w[2] == "恢复"@);
    assert(w[3] == "取消"@);
    assert(w[4] == "删除"@);
    assert(w[5] == "删掉"@);
    assert(w[6] == "移除"@);
    if holds_one_of(s, w) {
        let i = choose|i: int| 0 <= i < w.len() && text::has_sub(s, #[trigger] w[i]);
        assert(w.len() == 7);
    }
}

proof fn lemma_looking_words(s: Seq<char>)
    ensures
        route::asks_query(s) <==> holds_one_of(s, looking_words()),
{
    let w = looking_words();
    assert(w[0] == "查看"@);
    assert(w[1] == "看一下"@);
    assert(w[2] == "列出"@);
    assert(w[3] == "有哪些"@);
    assert(w[4] == "检查"@);
    if holds_one_of(s, w) {
        let i = choose|i: int| 0 <= i < w.len() && text::has_sub(s, #[trigger] w[i]);
        assert(w.len() == 5);
    }
}

proof fn lemma_reminder_words(s: Seq<char>)
    ensures
        route::asks_reminder(s) <==> holds_one_of(s, reminder_words()),
{
    let w = reminder_words();
    assert(w[0] == "提醒我"@);
    assert(w[1] == "提醒一下"@);
    assert(w[2] == "提醒下"@);
    assert(w[3] == "帮我提醒"@);
    assert(w[4] == "回头提醒"@);
    assert(w[5] == "别忘"@);
    assert(w[6] == "别忘了"@);
    if holds_one_of(s, w) {
        let i = choose|i: int| 0 <= i < w.len() && text::has_sub(s, #[trigger] w[i]);
        assert(w.len() == 7);
    }
}

proof fn lemma_editing_words(s: Seq<char>)
    ensures
        route::asks_edit(s) <==> holds_one_of(s, editing_words()),
{
    let w = editing_words();
    assert(w[0] == "编辑"@);
    assert(w[1] == "修改"@);
    assert(w[2] == "改成"@);
    if holds_one_of(s, w) {
        let i = choose|i: int| 0 <= i < w.len() && text::has_sub(s, #[trigger] w[i]);
        assert(w.len() == 3);
    }
}

proof fn lemma_planned_words(s: Seq<char>)
    ensures
        route::names_scheduled_action(s) <==> holds_one_of(s, planned_words()),
{
    let w = planned_words();
    assert(w[0] == "盯一下"@);
    assert(w[1] == "盯下"@);
    assert(w[2] == "看一下"@);
    assert(w[3] == "看下"@);
    assert(w[4] == "检查"@);
    assert(w[5] == "跟进"@);
    assert(w[6] == "开会"@);
    assert(w[7] == "提交"@);
    assert(w[8] == "出一版"@);
    assert(w[9] == "复盘"@);
    assert(w[10] == "续费"@);
    assert(w[11] == "验收"@);
    assert(w[12] == "整理"@);
    assert(w[13] == "发送"@);
    assert(w[14] == "发给"@);
    assert(w[15] == "发一下"@);
    assert(w[16] == "发布"@);
    assert(w[17] == "发版"@);
    assert(w[18] == "交水电费"@);
    assert(w[19] == "交作业"@);
    assert(w[20] == "买菜"@);
    assert(w[21] == "买东西"@);
    assert(w[22] == "买药"@);
    assert(w[23] == "完成初稿"@);
    assert(w[24] == "完成草稿"@);
    if holds_one_of(s, w) {
        let i = choose|i: int| 0 <= i < w.len() && text::has_sub(s, #[trigger] w[i]);
        assert(w.len() == 25);
    }
}

proof fn lemma_time_words(s: Seq<char>)
    ensures
        route::names_time(s) <==> holds_one_of(s, time_words()),
{
    let w = time_words();
    assert(w[0] == "今晚"@);
    assert(w[1] == "明早"@);
    assert(w[2] == "明晚"@);
    assert(w[3] == "早上"@);
    assert(w[4] == "上午"@);
    assert(w[5] == "中午"@);
    assert(w[6] == "下午"@);
    assert(w[7] == "晚上"@);
    assert(w[8] == "凌晨"@);
    assert(w[9] == "傍晚"@);
    assert(w[10] == "回头"@);
    assert(w[11] == "月末"@);
    assert(w[12] == "下个月"@);
    if holds_one_of(s, w) {
        let i = choose|i: int| 0 <= i < w.len() && text::has_sub(s, #[trigger] w[i]);
        assert(w.len() == 13);
    }
}

proof fn lemma_memory_words(s: Seq<char>)
    ensures
        route::names_memory(s) <==> holds_one_of(s, memory_words()),
{
    let w = memory_words();
    assert(w[0] == "记忆"@);
    assert(w[1] == "记一下"@);
    assert(w[2] == "记住"@);
    assert(w[3] == "帮我记"@);
    assert(w[4] == "记录一下"@);
    assert(w[5] == "保存一下"@);
    if holds_one_of(s, w) {
        let i = choose|i: int| 0 <= i < w.len() && text::has_sub(s, #[trigger] w[i]);
        assert(w.len() == 6);
    }
}

proof fn lemma_weather_signs(s: Seq<char>)
    ensures
        route::asks_weather_by_sign(s) <==> holds_one_of(s, weather_signs()),
{
    let w = weather_signs();
    assert(w[0] == "下雨"@);
    assert(w[1] == "有雨"@);
    assert(w[2] == "带伞"@);
    assert(w[3] == "冷吗"@);
    assert(w[4] == "热吗"@);
    assert(w[5] == "穿什么"@);
    assert(w[6] == "几度"@);
    assert(w[7] == "预报"@);
    assert(w[8] == "预警"@);
    assert(w[9] == "台风"@);
    if holds_one_of(s, w) {
        let i = choose|i: int| 0 <= i < w.len() && text::has_sub(s, #[trigger] w[i]);
        assert(w.len() == 10);
    }
}

proof fn lemma_weather_words(s: Seq<char>)
    ensures
        route::names_weather(s) <==> holds_one_of(s, weather_words()),
{
    let w = weather_words();
    assert(w[0] == "天气"@);
    assert(w[1] == "气温"@);
    assert(w[2] == "温度"@);
    if holds_one_of(s, w) {
        let i = choose|i: int| 0 <= i < w.len() && text::has_sub(s, #[trigger] w[i]);
        assert(w.len() == 3);
    }
}

proof fn lemma_question_words(s: Seq<char>)
    ensures
        route::asks_how(s) <==> holds_one_of(s, question_words()),
{
    let w = question_words();
    assert(w[0] == "查"@);
    assert(w[1] == "查询"@);
    assert(w[2] == "看看"@);
    assert(w[3] == "看下"@);
    assert(w[4] == "看一下"@);
    assert(w[5] == "怎么样"@);
    assert(w[6] == "如何"@);
    assert(w[7] == "多少"@);
    assert(w[8] == "会不会"@);
    assert(w[9] == "有没有"@);
    if holds_one_of(s, w) {
        let i = choose|i: int| 0 <= i < w.len() && text::has_sub(s, #[trigger] w[i]);
        assert(w.len() == 10);
    }
}

proof fn lemma_talk_words(s: Seq<char>)
    ensures
        route::is_talk(s) <==> holds_one_of(s, talk_words()),
{
    let w = talk_words();
    assert(w[0] == "聊聊"@);
    assert(w[1] == "讨论"@);
    assert(w[2] == "关于"@);
    assert(w[3] == "这个"@);
    assert(w[4] == "那个"@);
    assert(w[5] == "一说"@);
    assert(w[6] == "说到"@);
    assert(w[7] == "如果"@);
    assert(w[8] == "因为"@);
    if holds_one_of(s, w) {
        let i = choose|i: int| 0 <= i < w.len() && text::has_sub(s, #[trigger] w[i]);
        assert(w.len() == 9);
    }
}

proof fn lemma_train_words(s: Seq<char>)
    ensures
        route::names_train(s) <==> holds_one_of(s, train_words()),
{
    let w = train_words();
    assert(w[0] == "火车"@);
    assert(w[1] == "列车"@);
    assert(w[2] == "车次"@);
    assert(w[3] == "高铁"@);
    assert(w[4] == "动车"@);
    assert(w[5] == "时刻"@);
    assert(w[6] == "站台"@);
    if holds_one_of(s, w) {
        let i = choose|i: int| 0 <= i < w.len() && text::has_sub(s, #[trigger] w[i]);
        assert(w.len() == 7);
    }
}

proof fn lemma_feed_words(s: Seq<char>)
    ensures
        route::names_feed(s) <==> holds_one_of(s, feed_words()),
{
    let w = feed_words();
    assert(w[0] == "订阅更新"@);
    assert(w[1] == "最近订阅"@);
    assert(w[2] == "订阅记录"@);
    if holds_one_of(s, w) {
        let i = choose|i: int| 0 <= i < w.len() && text::has_sub(s, #[trigger] w[i]);
        assert(w.len() == 3);
    }
}

proof fn lemma_small_talk_words(s: Seq<char>)
    ensures
        route::is_small_talk(s) <==> holds_one_of(s, small_talk_words()),
{
    let w = small_talk_words();
    assert(w[0] == "陪我聊"@);
    assert(w[1] == "聊会"@);
    assert(w[2] == "闲聊"@);
    assert(w[3] == "说说话"@);
    assert(w[4] == "聊聊天"@);
    assert(w[5] == "有点烦"@);
    assert(w[6] == "有点累"@);
    assert(w[7] == "不开心"@);
    assert(w[8] == "你下午在吗"@);
    assert(w[9] == "你晚上在吗"@);
    if holds_one_of(s, w) {
        let i = choose|i: int| 0 <= i < w.len() && text::has_sub(s, #[trigger] w[i]);
        assert(w.len() == 10);
    }
}

proof fn lemma_composing_words(s: Seq<char>)
    ensures
        route::asks_writing(s) <==> holds_one_of(s, composing_words()),
{
    let w = composing_words();
    assert(w[0] == "写一段"@);
    assert(w[1] == "写一篇"@);
    assert(w[2] == "写首"@);
    assert(w[3] == "生成一段"@);
    assert(w[4] == "输出一段"@);
    assert(w[5] == "试试输出"@);
    assert(w[6] == "长文本"@);
    assert(w[7] == "流式"@);
    assert(w[8] == "讲个故事"@);
    assert(w[9] == "讲故事"@);
    assert(w[10] == "小说"@);
    assert(w[11] == "文案"@);
    if holds_one_of(s, w) {
        let i = choose|i: int| 0 <= i < w.len() && text::has_sub(s, #[trigger] w[i]);
        assert(w.len() == 12);
    }
}

proof fn lemma_explaining_words(s: Seq<char>)
    ensures
        route::asks_explaining(s) <==> holds_one_of(s, explaining_words()),
{
    let w = explaining_words();
    assert(w[0] == "解释一下"@);
    assert(w[1] == "讲解"@);
    assert(w[2] == "介绍一下"@);
    assert(w[3] == "分析一下"@);
    assert(w[4] == "聊聊"@);
    assert(w[5] == "为什么"@);
    assert(w[6] == "怎么理解"@);
    assert(w[7] == "怎么设计"@);
    assert(w[8] == "怎么选"@);
    assert(w[9] == "架构"@);
    assert(w[10] == "模型"@);
    assert(w[11] == "版本说明"@);
    assert(w[12] == "消息发送失败"@);
    assert(w[13] == "流式还有问题"@);
    assert(w[14] == "排障"@);
    if holds_one_of(s, w) {
        let i = choose|i: int| 0 <= i < w.len() && text::has_sub(s, #[trigger] w[i]);
        assert(w.len() == 15);
    }
}

proof fn lemma_entry_words(s: Seq<char>)
    ensures
        route::names_ordinal(s) <==> holds_one_of(s, entry_words()),
{
    let w = entry_words();
    assert(w[0] == "第一"@);
    assert(w[1] == "第二"@);
    assert(w[2] == "第三"@);
    assert(w[3] == "第四"@);
    assert(w[4] == "第五"@);
    assert(w[5] == "第六"@);
    assert(w[6] == "第七"@);
    assert(w[7] == "第八"@);
    assert(w[8] == "第九"@);
    assert(w[9] == "第十"@);
    assert(w[10] == "第 1"@);
    assert(w[11] == "第 2"@);
    assert(w[12] == "第 3"@);
    assert(w[13] == "第 4"@);
    assert(w[14] == "第 5"@);
    assert(w[15] == "第 6"@);
    assert(w[16] == "第 7"@);
    assert(w[17] == "第 8"@);
    assert(w[18] == "第 9"@);
    assert(w[19] == "第1"@);
    assert(w[20] == "第2"@);
    assert(w[21] == "第3"@);
    assert(w[22] == "第4"@);
    assert(w[23] == "第5"@);
    assert(w[24] == "第6"@);
    assert(w[25] == "第7"@);
    assert(w[26] == "第8"@);
    assert(w[27] == "第9"@);
    if holds_one_of(s, w) {
        let i = choose|i: int| 0 <= i < w.len() && text::has_sub(s, #[trigger] w[i]);
        assert(w.len() == 28);
    }
}

proof fn lemma_back_words(s: Seq<char>)
    ensures
        route::points_back(s) <==> holds_one_of(s, back_words()),
{
    let w = back_words();
    assert(w[0] == "它"@);
    assert(w[1] == "这个"@);
    assert(w[2] == "那个"@);
    assert(w[3] == "这条"@);
    assert(w[4] == "那条"@);
    assert(w[5] == "这些"@);
    assert(w[6] == "它们"@);
    assert(w[7] == "刚才那条"@);
    assert(w[8] == "刚刚那条"@);
    assert(w[9] == "刚才那个"@);
    assert(w[10] == "刚刚那个"@);
    if holds_one_of(s, w) {
        let i = choose|i: int| 0 <= i < w.len() && text::has_sub(s, #[trigger] w[i]);
        assert(w.len() == 11);
    }
}

proof fn lemma_entry_change_words(s: Seq<char>)
    ensures
        route::asks_numbered_edit(s) <==> holds_one_of(s, entry_change_words()),
{
    let w = entry_change_words();
    assert(w[0] == "处理"@);
    assert(w[1] == "改一下"@);
    assert(w[2] == "修改"@);
    assert(w[3] == "编辑"@);
    if holds_one_of(s, w) {
        let i = choose|i: int| 0 <= i < w.len() && text::has_sub(s, #[trigger] w[i]);
        assert(w.len() == 4);
    }
}

proof fn lemma_pointed_change_words(s: Seq<char>)
    ensures
        route::asks_pointed_edit(s) <==> holds_one_of(s, pointed_change_words()),
{
    let w = pointed_change_words();
    assert(w[0] == "处理"@);
    assert(w[1] == "改一下"@);
    assert(w[2] == "修改"@);
    assert(w[3] == "编辑"@);
    assert(w[4] == "改成"@);
    if holds_one_of(s, w) {
        let i = choose|i: int| 0 <= i < w.len() && text::has_sub(s, #[trigger] w[i]);
        assert(w.len() == 5);
    }
}

proof fn lemma_all_words(s: Seq<char>)
    ensures
        route::names_all(s) <==> holds_one_of(s, all_words()),
{
    let w = all_words();
    assert(w[0] == "都"@);
    assert(w[1] == "全部"@);
    assert(w[2] == "全"@);
    if holds_one_of(s, w) {
        let i = choose|i: int| 0 <= i < w.len() && text::has_sub(s, #[trigger] w[i]);
        assert(w.len() == 3);
    }
}

proof fn lemma_drop_words(s: Seq<char>)
    ensures
        route::asks_drop(s) <==> holds_one_of(s, drop_words()),
{
    let w = drop_words();
    assert(w[0] == "删"@);
    assert(w[1] == "清掉"@);
    assert(w[2] == "作废"@);
    assert(w[3] == "合并"@);
    if holds_one_of(s, w) {
        let i = choose|i: int| 0 <= i < w.len() && text::has_sub(s, #[trigger] w[i]);
        assert(w.len() == 4);
    }
}

// Tasks.

/// Whether the text asks for a reminder without saying of what or when.
pub open spec fn is_bare_reminder(s: Seq<char>, has_due_date: bool) -> bool {
    holds_one_of(s, reminder_words()) && !has_due_date && !holds_one_of(s, time_words())
        && !route::is_meaningful(route::payload(s))
}

/// Whether the message is no command.
pub open spec fn is_no_command(s: Seq<char>) -> bool {
    s.len() == 0 || (s[0] != '/' && s[0] != '／')
}

/// A message that names a task and says what to do with it is about tasks, and goes to the
/// tools.
pub proof fn named_tasks_go_to_the_tools(s: Seq<char>, has_due_date: bool, recent: bool)
    requires
        is_no_command(s),
        holds_one_of(s, task_words()) || text::has_sub(text::ascii_lowered(s), "todo"@),
        holds_one_of(s, writing_down_words()) || holds_one_of(s, settling_words()) || holds_one_of(
            s,
            looking_words(),
        ),
        !is_bare_reminder(s, has_due_date),
    ensures
        route::reading(s, has_due_date, recent) == (
            SemanticRoute::ToolLoop,
            ToolDomain::Todo,
            "semantic_tool_intent"@,
        ),
{
    lemma_task_words(s);
    lemma_writing_down_words(s);
    lemma_settling_words(s);
    lemma_looking_words(s);
    lemma_reminder_words(s);
    lemma_time_words(s);
}

/// A message that asks for a reminder and has a date or a word for a time is about tasks; the
/// user is shown that something is written down.
pub proof fn timed_reminders_go_to_the_tools(s: Seq<char>, has_due_date: bool, recent: bool)
    requires
        is_no_command(s),
        holds_one_of(s, reminder_words()),
        has_due_date || holds_one_of(s, time_words()),
    ensures
        route::reading(s, has_due_date, recent) == (
            SemanticRoute::ToolLoop,
            ToolDomain::Todo,
            "semantic_tool_intent"@,
        ),
        route::shown_status(s, has_due_date, recent) == Some(
            StatusHint { subject: StatusSubject::Todo, action: StatusAction::Write },
        ),
{
    lemma_reminder_words(s);
    lemma_time_words(s);
}

/// A message with a time and a planned action is about tasks, unless it is small talk, writing
/// or explaining.
pub proof fn planned_actions_go_to_the_tools(s: Seq<char>, has_due_date: bool, recent: bool)
    requires
        is_no_command(s),
        has_due_date || holds_one_of(s, time_words()),
        holds_one_of(text::compacted(s), planned_words()),
        !route::is_plain_chat(s),
    ensures
        route::reading(s, has_due_date, recent) == (
            SemanticRoute::ToolLoop,
            ToolDomain::Todo,
            "semantic_tool_intent"@,
        ),
        route::shown_status(s, has_due_date, recent) == Some(
            StatusHint { subject: StatusSubject::Todo, action: StatusAction::Write },
        ),
{
    lemma_time_words(s);
    lemma_planned_words(text::compacted(s));
}

/// A message that finishes, restores or drops an entry by its number, or what was shown before,
/// is about tasks.
pub proof fn settled_entries_go_to_the_tools(s: Seq<char>, has_due_date: bool, recent: bool)
    requires
        is_no_command(s),
        holds_one_of(s, entry_words()) || holds_one_of(s, back_words()),
        holds_one_of(s, settling_words()),
    ensures
        route::reading(s, has_due_date, recent).0 == SemanticRoute::ToolLoop,
        route::reading(s, has_due_date, recent).1 == ToolDomain::Todo,
{
    lemma_entry_words(s);
    lemma_back_words(s);
    lemma_settling_words(s);
}

/// A message that works on an entry by its number is about tasks.
pub proof fn changed_entries_go_to_the_tools(s: Seq<char>, has_due_date: bool, recent: bool)
    requires
        is_no_command(s),
        holds_one_of(s, entry_words()),
        holds_one_of(s, entry_change_words()),
    ensures
        route::reading(s, has_due_date, recent).0 == SemanticRoute::ToolLoop,
        route::reading(s, has_due_date, recent).1 == ToolDomain::Todo,
{
    lemma_entry_words(s);
    lemma_entry_change_words(s);
}

/// Where tasks were just shown or worked on, a message that changes what it points at, settles
/// all, or settles or drops a number is about tasks; elsewhere such a message alone is not.
pub proof fn context_makes_tasks(s: Seq<char>, has_due_date: bool, i: int)
    requires
        is_no_command(s),
        ({
            let c = text::compacted(s);
            ||| holds_one_of(s, back_words()) && holds_one_of(s, pointed_change_words())
            ||| holds_one_of(s, all_words()) && holds_one_of(s, settling_words())
            ||| 0 <= i < c.len() && '0' <= c[i] <= '9' && (holds_one_of(c, settling_words())
                || holds_one_of(c, drop_words()))
        }),
    ensures
        route::reading(s, has_due_date, true).0 == SemanticRoute::ToolLoop,
        route::reading(s, has_due_date, true).1 == ToolDomain::Todo,
{
    let c = text::compacted(s);
    lemma_back_words(s);
    lemma_pointed_change_words(s);
    lemma_all_words(s);
    lemma_settling_words(s);
    lemma_settling_words(c);
    lemma_drop_words(c);
    if 0 <= i < c.len() && '0' <= c[i] <= '9' {
        assert(text::is_digit(c[i]));
    }
}

/// While a message about tasks is worked on, the user is shown what is done: settling before
/// writing, writing before looking.
pub proof fn statuses_name_the_action(s: Seq<char>)
    ensures
        holds_one_of(s, settling_words()) ==> route::task_action(s) == StatusAction::Confirm,
        !holds_one_of(s, settling_words()) && holds_one_of(s, writing_down_words())
            ==> route::task_action(s) == StatusAction::Write,
        !holds_one_of(s, settling_words()) && !holds_one_of(s, writing_down_words()) && holds_one_of(
            s,
            looking_words(),
        ) ==> route::task_action(s) == StatusAction::Query,
        !holds_one_of(s, settling_words()) && !holds_one_of(s, writing_down_words())
            && !holds_one_of(s, looking_words()) ==> route::task_action(s) == StatusAction::Process,
{
    lemma_settling_words(s);
    lemma_writing_down_words(s);
    lemma_looking_words(s);
}

// Other domains.

/// A message that is not about tasks and speaks of memories goes to the memories.
pub proof fn memory_words_go_to_memory(s: Seq<char>, has_due_date: bool, recent: bool)
    requires
        is_no_command(s),
        route::reading(s, has_due_date, recent).1 != ToolDomain::Todo,
        holds_one_of(s, memory_words()) || text::has_sub(text::ascii_lowered(s), "memory"@),
    ensures
        route::reading(s, has_due_date, recent) == (
            SemanticRoute::ToolLoop,
            ToolDomain::Memory,
            "semantic_tool_intent"@,
        ),
        route::shown_status(s, has_due_date, recent) == Some(
            StatusHint { subject: StatusSubject::Record, action: StatusAction::Read },
        ),
{
    lemma_memory_words(s);
}

/// Whether the message is a place of at most twelve characters and the word for weather behind
/// it.
pub open spec fn is_place_and_weather(s: Seq<char>, place: Seq<char>) -> bool {
    &&& text::compacted(s) == place + "天气"@
    &&& 0 < place.len() <= 12
    &&& !holds_one_of(place, talk_words())
}

/// A message that is about neither tasks nor memories and asks after rain, warmth or warnings,
/// that is a place and the word for weather, or that asks how the weather is, goes to the
/// weather.
pub proof fn weather_questions_go_to_the_weather(
    s: Seq<char>,
    has_due_date: bool,
    recent: bool,
    place: Seq<char>,
)
    requires
        is_no_command(s),
        route::reading(s, has_due_date, recent).1 != ToolDomain::Todo,
        route::reading(s, has_due_date, recent).1 != ToolDomain::Memory,
        holds_one_of(s, weather_signs()) || is_place_and_weather(s, place) || (holds_one_of(
            s,
            weather_words(),
        ) && holds_one_of(s, question_words())),
    ensures
        route::reading(s, has_due_date, recent) == (
            SemanticRoute::ToolLoop,
            ToolDomain::Weather,
            "semantic_tool_intent"@,
        ),
        route::shown_status(s, has_due_date, recent) == Some(
            StatusHint { subject: StatusSubject::Weather, action: StatusAction::Query },
        ),
{
    lemma_weather_signs(s);
    lemma_weather_words(s);
    lemma_question_words(s);
    lemma_talk_words(place);
    if is_place_and_weather(s, place) {
        let c = text::compacted(s);
        assert(c.subrange(c.len() - "天气"@.len(), c.len() as int) =~= "天气"@);
        assert(c.take(c.len() - "天气"@.len()) =~= place);
    }
}

/// Whether the character stands between words: white space, or a mark of either kind.
pub open spec fn is_gap(c: char) -> bool {
    let n = c as u32;
    ||| text::is_space(c)
    ||| 0x21 <= n <= 0x2f
    ||| 0x3a <= n <= 0x40
    ||| 0x5b <= n <= 0x60
    ||| 0x7b <= n <= 0x7e
    ||| "，。、：；？！（）【】《》“”‘’"@.contains(c)
}

proof fn lemma_gap(c: char)
    ensures
        is_gap(c) == route::is_mark(c),
{
    reveal_strlit("，。、：；？！（）【】《》“”‘’");
    let marks = "，。、：；？！（）【】《》“”‘’"@;
    assert(marks.len() == 17);
    assert(marks[0] == '，' && marks[1] == '。' && marks[2] == '、' && marks[3] == '：' && marks[4] == '；');
    assert(marks[5] == '？' && marks[6] == '！' && marks[7] == '（' && marks[8] == '）' && marks[9] == '【');
    assert(marks[10] == '】' && marks[11] == '《' && marks[12] == '》' && marks[13] == '“');
    assert(marks[14] == '”' && marks[15] == '‘' && marks[16] == '’');
    if marks.contains(c) {
        let k = choose|k: int| 0 <= k < marks.len() && marks[k] == c;
        assert(route::is_cjk_mark(c));
    }
}

/// Whether the text is a train number: a letter for the kind of train and two to five digits,
/// or one digit behind a `G`.
pub open spec fn is_train_number(t: Seq<char>) -> bool {
    &&& t.len() > 0
    &&& "GDCKZTgdckzt"@.contains(t[0])
    &&& 3 <= t.len() <= 6 || (t.len() == 2 && (t[0] == 'G' || t[0] == 'g'))
    &&& forall|k: int| 0 < k < t.len() ==> '0' <= #[trigger] t[k] <= '9'
}

/// A message that holds a train number, between gaps or the ends of the message, asks for a
/// train.
pub proof fn a_train_number_asks_for_a_train(before: Seq<char>, number: Seq<char>, behind: Seq<char>)
    requires
        is_train_number(number),
        before.len() > 0 ==> is_gap(before.last()),
        behind.len() > 0 ==> is_gap(behind[0]),
    ensures
        route::holds_train_code(before + number + behind),
        route::is_train_request(before + number + behind),
{
    let s = before + number + behind;
    let i = before.len() as int;
    let n = number.len() - 1;
    lemma_letters(number[0]);
    assert(s[i] == number[0]);
    if before.len() > 0 {
        assert(s[i - 1] == before.last());
        lemma_gap(before.last());
    }
    if behind.len() > 0 {
        assert(s[i + n + 1] == behind[0]);
        lemma_gap(behind[0]);
    }
    assert forall|k: int| i < k <= i + n implies text::is_digit(#[trigger] s[k]) by {
        assert(s[k] == number[k - i]);
    }
    assert(route::train_code_at(s, i, n));
}

proof fn lemma_digit(c: char)
    ensures
        text::is_digit(c) == ('0' <= c <= '9'),
{
}

proof fn lemma_letters(c: char)
    ensures
        "GDCKZTgdckzt"@.contains(c) == route::is_code_letter(c),
{
    reveal_strlit("GDCKZTgdckzt");
    let t = "GDCKZTgdckzt"@;
    assert(t[0] == 'G' && t[1] == 'D' && t[2] == 'C' && t[3] == 'K' && t[4] == 'Z' && t[5] == 'T');
    assert(t[6] == 'g' && t[7] == 'd' && t[8] == 'c' && t[9] == 'k' && t[10] == 'z' && t[11] == 't');
}

/// Where a train is asked for without a word for trains, there is a train number between gaps
/// or the ends of the message.
pub proof fn no_train_without_a_number(s: Seq<char>) -> (i: (int, int))
    requires
        route::is_train_request(s),
        !holds_one_of(s, train_words()),
    ensures
        0 <= i.0 <= i.1 <= s.len(),
        is_train_number(s.subrange(i.0, i.1)),
        i.0 > 0 ==> is_gap(s[i.0 - 1]),
        i.1 < s.len() ==> is_gap(s[i.1]),
{
    lemma_train_words(s);
    let (k, n) = choose|k: int, n: int| route::train_code_at(s, k, n);
    let t = s.subrange(k, k + n + 1);
    lemma_letters(t[0]);
    assert forall|m: int| 0 < m < t.len() implies '0' <= #[trigger] t[m] <= '9' by {
        assert(t[m] == s[k + m]);
        assert(text::is_digit(s[k + m]));
        lemma_digit(s[k + m]);
    }
    if k > 0 {
        lemma_gap(s[k - 1]);
    }
    if k + n + 1 < s.len() {
        lemma_gap(s[k + n + 1]);
    }
    (k, k + n + 1)
}

/// A message that is about neither tasks, memories nor the weather and speaks of trains or
/// holds a train number goes to the trains.
pub proof fn train_questions_go_to_the_trains(
    s: Seq<char>,
    has_due_date: bool,
    recent: bool,
    before: Seq<char>,
    number: Seq<char>,
    behind: Seq<char>,
)
    requires
        is_no_command(s),
        route::reading(s, has_due_date, recent).1 != ToolDomain::Todo,
        route::reading(s, has_due_date, recent).1 != ToolDomain::Memory,
        route::reading(s, has_due_date, recent).1 != ToolDomain::Weather,
        holds_one_of(s, train_words()) || {
            &&& s == before + number + behind
            &&& is_train_number(number)
            &&& before.len() > 0 ==> is_gap(before.last())
            &&& behind.len() > 0 ==> is_gap(behind[0])
        },
    ensures
        route::reading(s, has_due_date, recent) == (
            SemanticRoute::ToolLoop,
            ToolDomain::Train,
            "semantic_tool_intent"@,
        ),
        route::shown_status(s, has_due_date, recent) == Some(
            StatusHint { subject: StatusSubject::Train, action: StatusAction::Query },
        ),
{
    lemma_train_words(s);
    if !holds_one_of(s, train_words()) {
        a_train_number_asks_for_a_train(before, number, behind);
    }
}

/// A message that belongs nowhere else and speaks of subscriptions goes to the subscriptions.
pub proof fn feed_questions_go_to_the_feeds(s: Seq<char>, has_due_date: bool, recent: bool)
    requires
        is_no_command(s),
        route::reading(s, has_due_date, recent).1 != ToolDomain::Todo,
        route::reading(s, has_due_date, recent).1 != ToolDomain::Memory,
        route::reading(s, has_due_date, recent).1 != ToolDomain::Weather,
        route::reading(s, has_due_date, recent).1 != ToolDomain::Train,
        holds_one_of(s, feed_words()) || text::has_sub(text::ascii_lowered(s), "rss"@),
    ensures
        route::reading(s, has_due_date, recent) == (
            SemanticRoute::ToolLoop,
            ToolDomain::Rss,
            "semantic_tool_intent"@,
        ),
        route::shown_status(s, has_due_date, recent) == Some(
            StatusHint { subject: StatusSubject::Rss, action: StatusAction::Query },
        ),
{
    lemma_feed_words(s);
}

// Chat.

/// Whether none of the words stands in the message that could send it to the tools.
pub open spec fn has_no_tool_words(s: Seq<char>) -> bool {
    let lower = text::ascii_lowered(s);
    let c = text::compacted(s);
    &&& !holds_one_of(s, settling_words())
    &&& !holds_one_of(s, task_words()) && !text::has_sub(lower, "todo"@)
    &&& !holds_one_of(s, reminder_words())
    &&& !holds_one_of(s, editing_words())
    &&& !holds_one_of(s, entry_words())
    &&& !holds_one_of(s, pointed_change_words())
    &&& !holds_one_of(c, planned_words())
    &&& !holds_one_of(c, settling_words()) && !holds_one_of(c, drop_words())
    &&& !holds_one_of(s, memory_words()) && !text::has_sub(lower, "memory"@)
    &&& !holds_one_of(s, weather_signs()) && !holds_one_of(s, weather_words()) && !text::has_sub(
        c,
        "天气"@,
    )
    &&& !holds_one_of(s, train_words())
    &&& forall|i: int| 0 <= i < s.len() - 1 ==> !("GDCKZTgdckzt"@.contains(#[trigger] s[i]) && '0' <= s[i
        + 1] <= '9')
    &&& !holds_one_of(s, feed_words()) && !text::has_sub(lower, "rss"@)
}

/// A message without any such word never goes to the tools.
pub proof fn other_messages_stay_in_chat(s: Seq<char>, has_due_date: bool, recent: bool)
    requires
        has_no_tool_words(s),
    ensures
        route::reading(s, has_due_date, recent).0 != SemanticRoute::ToolLoop,
        route::reading(s, has_due_date, recent).1 == ToolDomain::Unknown,
{
    let c = text::compacted(s);
    lemma_settling_words(s);
    lemma_settling_words(c);
    lemma_task_words(s);
    lemma_reminder_words(s);
    lemma_editing_words(s);
    lemma_entry_words(s);
    lemma_pointed_change_words(s);
    lemma_planned_words(c);
    lemma_drop_words(c);
    lemma_memory_words(s);
    lemma_weather_signs(s);
    lemma_weather_words(s);
    lemma_train_words(s);
    lemma_feed_words(s);
    if route::asks_city_weather(s) {
        assert(text::occurs_at(c, "天气"@, c.len() - "天气"@.len()));
    }
    if route::holds_train_code(s) {
        let (k, n) = choose|k: int, n: int| route::train_code_at(s, k, n);
        lemma_letters(s[k]);
        assert(text::is_digit(s[k + 1]));
        lemma_digit(s[k + 1]);
        assert(!("GDCKZTgdckzt"@.contains(s[k]) && '0' <= s[k + 1] <= '9'));
    }
}

/// Small talk, calls for writing and explaining are plain chat; unless something else stands
/// in the message, they stay there.
pub proof fn chat_stays_in_chat(s: Seq<char>, has_due_date: bool, recent: bool)
    requires
        is_no_command(s),
        holds_one_of(s, small_talk_words()) || holds_one_of(s, composing_words()) || holds_one_of(
            s,
            explaining_words(),
        ),
        has_no_tool_words(s),
    ensures
        route::reading(s, has_due_date, recent) == (
            SemanticRoute::PlainChat,
            ToolDomain::Unknown,
            "semantic_plain_chat"@,
        ),
{
    let c = text::compacted(s);
    other_messages_stay_in_chat(s, has_due_date, recent);
    lemma_small_talk_words(s);
    lemma_composing_words(s);
    lemma_explaining_words(s);
    lemma_settling_words(s);
    lemma_settling_words(c);
    lemma_drop_words(c);
    lemma_pointed_change_words(s);
}

/// A greeting, in whatever spacing, is plain chat.
pub proof fn greetings_are_plain_chat(s: Seq<char>, particle: Seq<char>)
    requires
        ({
            let c = text::compacted(s);
            let day = |p: Seq<char>| c == "早上好"@ + p || c == "上午好"@ + p || c == "中午好"@ + p || c
                == "下午好"@ + p || c == "晚上好"@ + p;
            let lower = text::trimmed(text::ascii_lowered(s));
            ||| c == "你好"@ || c == "您好"@ || c == "你在吗"@ || c == "在吗"@
            ||| day(""@)
            ||| (particle == "呀"@ || particle == "啊"@ || particle == "哦"@ || particle == "喔"@
                || particle == "哈"@ || particle == "～"@ || particle == "~"@) && day(particle)
            ||| lower == "hi"@ || lower == "hello"@ || lower == "hey"@
        }),
    ensures
        route::is_plain_chat(s),
{
    let c = text::compacted(s);
    reveal_strlit("");
    lemma_greeting(c, "早上好"@, particle);
    lemma_greeting(c, "上午好"@, particle);
    lemma_greeting(c, "中午好"@, particle);
    lemma_greeting(c, "下午好"@, particle);
    lemma_greeting(c, "晚上好"@, particle);
}

proof fn lemma_greeting(c: Seq<char>, greeting: Seq<char>, particle: Seq<char>)
    ensures
        c == greeting + ""@ ==> route::greets_with(c, greeting),
        c == greeting + particle && route::is_greeting_tail(particle) ==> route::greets_with(
            c,
            greeting,
        ),
{
    reveal_strlit("");
    if c == greeting + ""@ {
        assert(c =~= greeting);
    }
    if c == greeting + particle {
        assert(c.subrange(0, greeting.len() as int) =~= greeting);
        assert(c.skip(greeting.len() as int) =~= particle);
    }
}

// Routes.

/// Where tools can be used, a message in words goes where it reads as: to the tools with what
/// it is about, why, and a status; or to plain chat without one.
pub proof fn messages_go_where_they_read_as(d: ToolRouteDecision, req: RespondRequest, ctx: ToolRouteContext)
    requires
        route::is_routed(d, req, ctx),
        ctx.scene_enabled && ctx.tool_calling_enabled && ctx.provider_supports_tool_calling
            && ctx.enabled_tools_available,
        forall|i: int| 0 <= i < req.input_parts@.len() ==> !((#[trigger] req.input_parts@[i]) is Media),
        req.group_id is None || text::blank(req.group_id->0@) || ctx.group_tool_calling_enabled,
        !text::blank(req.user_words()),
        is_no_command(text::trimmed(req.user_words())),
    ensures
        ({
            let s = text::trimmed(req.user_words());
            let recent = ctx.interaction_state.recent(InteractionDomain::Todo);
            let read = route::reading(s, ctx.has_due_date, recent);
            &&& d.semantic_route == read.0
            &&& d.domain == read.1
            &&& read.0 == SemanticRoute::ToolLoop ==> d.route == ToolLoopRoute::CompleteToolLoop
                && d.reason@ == read.2 && d.status_hint == route::shown_status(
                s,
                ctx.has_due_date,
                recent,
            )
            &&& read.0 != SemanticRoute::ToolLoop ==> d.route == ToolLoopRoute::PlainChat
                && d.status_hint is None
        }),
{
}

/// Where tools cannot be used, where there are pictures or files, where nothing is said, or
/// where a command is given, the message goes to plain chat and says why.
pub proof fn other_routes_say_why(d: ToolRouteDecision, req: RespondRequest, ctx: ToolRouteContext, i: int)
    requires
        route::is_routed(d, req, ctx),
    ensures
        ({
            let usable = ctx.scene_enabled && ctx.tool_calling_enabled
                && ctx.provider_supports_tool_calling && ctx.enabled_tools_available;
            let media = 0 <= i < req.input_parts@.len() && req.input_parts@[i] is Media;
            let plain = forall|k: int|
                0 <= k < req.input_parts@.len() ==> !((#[trigger] req.input_parts@[k]) is Media);
            let s = text::trimmed(req.user_words());
            let silent = s.len() == 0 || s[0] == '/' || s[0] == '／';
            let closed = req.group_id is Some && !text::blank(req.group_id->0@)
                && !ctx.group_tool_calling_enabled;
            &&& !usable ==> d.route == ToolLoopRoute::PlainChat && d.reason@ == "tool_loop_unavailable"@
            &&& usable && media ==> d.route == ToolLoopRoute::PlainChat && d.reason@
                == "multimodal_plain_chat"@
            &&& usable && plain && silent ==> d.route == ToolLoopRoute::PlainChat && d.reason@
                == "deterministic_or_empty"@ && d.semantic_route == SemanticRoute::Deterministic
            &&& usable && plain && !silent && closed ==> d.route == ToolLoopRoute::PlainChat
                && d.reason@ == "group_tool_loop_disabled"@
        }),
{
}

/// What a user said counts before the whole content of a message.
pub proof fn own_words_count_first(req: RespondRequest)
    ensures
        !text::blank(req.user_text@) ==> req.user_words() == req.user_text@,
        text::blank(req.user_text@) ==> req.user_words() == req.content@,
{
}

} // verus!
