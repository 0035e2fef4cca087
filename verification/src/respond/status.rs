//! What the user is shown while a message is worked on. These readings only choose words
//! for the user; they decide nothing about tools.
use vstd::prelude::*;
use vstd::string::*;

use crate::respond::route;
use crate::text;

verus! {

#[derive(Debug, Clone, Copy, PartialEq, Eq, Structural)]
pub enum StatusSubject {
    Todo,
    Record,
    Weather,
    Train,
    Rss,
    Search,
}

#[derive(Debug, Clone, Copy, PartialEq, Eq, Structural)]
pub enum StatusAction {
    Write,
    Confirm,
    Query,
    Process,
    Read,
}

#[derive(Debug, Clone, Copy, PartialEq, Eq, Structural)]
pub struct StatusHint {
    pub subject: StatusSubject,
    pub action: StatusAction,
}

impl StatusHint {
    pub fn new(subject: StatusSubject, action: StatusAction) -> (r: Self)
        ensures
            r == (StatusHint { subject, action }),
    {
        StatusHint { subject, action }
    }
}

/// What a conversation has recently been about.
#[derive(Debug, Clone, Copy, PartialEq, Eq, Structural)]
pub enum InteractionDomain {
    Todo,
    Other,
}

#[derive(Debug, Clone, Copy, PartialEq, Eq, Structural)]
pub struct InteractionDomainState {
    pub domain: InteractionDomain,
    pub has_visible_snapshot: bool,
    pub has_recent_operation: bool,
}

/// What was recently shown or done in a conversation.
#[derive(Debug)]
pub struct InteractionStateSnapshot {
    pub domains: Vec<InteractionDomainState>,
}

impl InteractionStateSnapshot {
    /// Whether something of the domain was recently shown or done.
    pub open spec fn recent(self, domain: InteractionDomain) -> bool {
        exists|i: int|
            0 <= i < self.domains@.len() && (#[trigger] self.domains@[i]).domain == domain && (
            self.domains@[i].has_visible_snapshot || self.domains@[i].has_recent_operation)
    }

    pub fn from_domains(domains: Vec<InteractionDomainState>) -> (r: Self)
        ensures
            r.domains == domains,
    {
        InteractionStateSnapshot { domains }
    }

    pub fn has_recent_context(&self, domain: InteractionDomain) -> (r: bool)
        ensures
            r == self.recent(domain),
    {
        let mut i: usize = 0;
        while i < self.domains.len()
            invariant
                0 <= i <= self.domains@.len(),
                forall|k: int|
                    0 <= k < i ==> !((#[trigger] self.domains@[k]).domain == domain && (
                    self.domains@[k].has_visible_snapshot || self.domains@[k].has_recent_operation)),
            decreases self.domains@.len() - i,
        {
            let state = self.domains[i];
            if state.domain == domain && (state.has_visible_snapshot || state.has_recent_operation) {
                assert(self.domains@[i as int].domain == domain);
                return true;
            }
            i += 1;
        }
        false
    }
}

impl Default for InteractionStateSnapshot {
    fn default() -> (r: Self)
        ensures
            r.domains@.len() == 0,
    {
        InteractionStateSnapshot { domains: Vec::new() }
    }
}

/// Whether the text asks for a search on the net.
pub open spec fn asks_online(s: Seq<char>) -> bool {
    ||| text::has_sub(s, "联网"@)
    ||| text::has_sub(s, "上网查"@)
    ||| text::has_sub(s, "网上查"@)
    ||| text::has_sub(s, "网上有没有"@)
    ||| text::has_sub(s, "网络查询"@)
    ||| text::has_sub(s, "搜索"@)
    ||| text::has_sub(s, "搜一下"@)
    ||| text::has_sub(s, "查 GitHub"@)
    ||| text::has_sub(s, "查 github"@)
    ||| text::has_sub(s, "查资料"@)
    ||| text::has_sub(s, "查新闻"@)
    ||| text::has_sub(s, "最新消息"@)
    ||| text::has_sub(s, "最新进展"@)
}

fn has_explicit_online_search_marker(s: &str) -> (r: bool)
    ensures
        r == asks_online(s@),
{
    text::contains(s, "联网") || text::contains(s, "上网查") || text::contains(s, "网上查") || text::contains(s, "网上有没有") || text::contains(s, "网络查询") || text::contains(s, "搜索") || text::contains(s, "搜一下") || text::contains(s, "查 GitHub") || text::contains(s, "查 github") || text::contains(s, "查资料") || text::contains(s, "查新闻") || text::contains(s, "最新消息") || text::contains(s, "最新进展")
}

/// Whether the text asks for work on a text at hand.
pub open spec fn asks_text_work(s: Seq<char>) -> bool {
    ||| text::has_sub(s, "人话说这个"@)
    ||| text::has_sub(s, "说人话"@)
    ||| text::has_sub(s, "人话说"@)
    ||| text::has_sub(s, "总结这段"@)
    ||| text::has_sub(s, "总结一下"@)
    ||| text::has_sub(s, "总结下"@)
    ||| text::has_sub(s, "整理一下"@)
    ||| text::has_sub(s, "整理下"@)
    ||| text::has_sub(s, "改写一下"@)
    ||| text::has_sub(s, "改写下"@)
    ||| text::has_sub(s, "润色一下"@)
    ||| text::has_sub(s, "润色下"@)
    ||| text::has_sub(s, "压缩成"@)
    ||| text::has_sub(s, "压缩到"@)
    ||| text::has_sub(s, "解释一下"@)
    ||| text::has_sub(s, "解释下"@)
    ||| text::has_sub(s, "翻译一下"@)
    ||| text::has_sub(s, "翻译下"@)
    ||| text::has_sub(s, "这段是什么意思"@)
    ||| text::has_sub(s, "是什么意思"@)
    ||| text::has_sub(s, "说简单点"@)
    ||| text::has_sub(s, "简单点"@)
    ||| text::has_sub(s, "整理成 issue"@)
    ||| text::has_sub(s, "整理成任务书"@)
    ||| text::has_sub(s, "整理成 Codex prompt"@)
    ||| text::has_sub(s, "整理成 prompt"@)
    ||| text::has_sub(s, "上面这段"@)
    ||| text::has_sub(s, "这段话"@)
    ||| text::has_sub(s, "这段文本"@)
    ||| text::has_sub(s, "这段内容"@)
    ||| text::has_sub(s, "哪里不通顺"@)
    ||| text::has_sub(s, "不通顺"@)
    ||| text::has_sub(s, "语病"@)
    ||| text::has_sub(s, "病句"@)
}

fn has_text_work(s: &str) -> (r: bool)
    ensures
        r == asks_text_work(s@),
{
    text::contains(s, "人话说这个") || text::contains(s, "说人话") || text::contains(s, "人话说") || text::contains(s, "总结这段") || text::contains(s, "总结一下") || text::contains(s, "总结下") || text::contains(s, "整理一下") || text::contains(s, "整理下") || text::contains(s, "改写一下") || text::contains(s, "改写下") || text::contains(s, "润色一下") || text::contains(s, "润色下") || text::contains(s, "压缩成") || text::contains(s, "压缩到") || text::contains(s, "解释一下") || text::contains(s, "解释下") || text::contains(s, "翻译一下") || text::contains(s, "翻译下") || text::contains(s, "这段是什么意思") || text::contains(s, "是什么意思") || text::contains(s, "说简单点") || text::contains(s, "简单点") || text::contains(s, "整理成 issue") || text::contains(s, "整理成任务书") || text::contains(s, "整理成 Codex prompt") || text::contains(s, "整理成 prompt") || text::contains(s, "上面这段") || text::contains(s, "这段话") || text::contains(s, "这段文本") || text::contains(s, "这段内容") || text::contains(s, "哪里不通顺") || text::contains(s, "不通顺") || text::contains(s, "语病") || text::contains(s, "病句")
}

/// Whether the line can be an instruction.
pub open spec fn is_instruction(line: Seq<char>) -> bool {
    let t = text::trimmed(line);
    0 < t.len() <= 80
}

/// The last of the lines that can be an instruction.
pub open spec fn last_instruction(lines: Seq<Seq<char>>) -> Option<Seq<char>>
    decreases lines.len(),
{
    if lines.len() == 0 {
        None
    } else if is_instruction(lines.last()) {
        Some(text::trimmed(lines.last()))
    } else {
        last_instruction(lines.drop_last())
    }
}

/// What a message tells to do: a short message as a whole; of a long one its last short
/// line, so that the words of a pasted text do not count.
pub open spec fn instruction(s: Seq<char>) -> Option<Seq<char>> {
    let t = text::trimmed(s);
    if t.len() == 0 {
        None
    } else if t.len() <= 80 {
        Some(t)
    } else {
        last_instruction(text::lines(t))
    }
}

pub fn local_text_processing_instruction(s: &str) -> (r: Option<String>)
    ensures
        text::opt_view(r) == instruction(s@),
{
    let t = text::trim(s);
    let n: usize = t.unicode_len();
    if n == 0 {
        return None;
    }
    if n <= 80 {
        return Some(t.to_owned());
    }
    let lines = text::split_lines(t);
    let mut i: usize = lines.len();
    assert(text::views(lines@).take(i as int) =~= text::views(lines@));
    while i > 0
        invariant
            i <= lines@.len(),
            text::views(lines@) == text::lines(t@),
            last_instruction(text::views(lines@).take(i as int)) == last_instruction(
                text::views(lines@),
            ),
            t@ == text::trimmed(s@),
            t@.len() > 80,
        decreases i,
    {
        let line = text::trim(lines[i - 1].as_str());
        let len: usize = line.unicode_len();
        proof {
            let all = text::views(lines@).take(i as int);
            assert(all.last() == lines@[i - 1]@);
            assert(all.drop_last() =~= text::views(lines@).take(i - 1));
        }
        if 0 < len && len <= 80 {
            return Some(line.to_owned());
        }
        i -= 1;
    }
    None
}

/// Whether the message asks for work on a text at hand and not for a search.
pub open spec fn is_local_text_work(s: Seq<char>) -> bool {
    instruction(s) matches Some(line) && !asks_online(line) && !asks_online(s) && asks_text_work(line)
}

pub fn has_local_text_processing_intent(s: &str) -> (r: bool)
    ensures
        r == is_local_text_work(s@),
{
    match local_text_processing_instruction(s) {
        Some(line) => !has_explicit_online_search_marker(line.as_str())
            && !has_explicit_online_search_marker(s) && has_text_work(line.as_str()),
        None => false,
    }
}

/// The status for a message, given whether it reads as a search.
pub open spec fn status_for(s: Seq<char>, has_due_date: bool, recent: bool, is_search: bool) -> Option<StatusHint> {
    match route::shown_status(s, has_due_date, recent) {
        Some(hint) => Some(hint),
        None => if is_search {
            Some(StatusHint { subject: StatusSubject::Search, action: StatusAction::Query })
        } else {
            None
        },
    }
}

pub fn classify_status_hint(
    s: &str,
    interaction_state: &InteractionStateSnapshot,
    has_due_date: bool,
    is_search: bool,
) -> (r: Option<StatusHint>)
    ensures
        r == status_for(
            s@,
            has_due_date,
            interaction_state.recent(InteractionDomain::Todo),
            is_search,
        ),
{
    let recent = interaction_state.has_recent_context(InteractionDomain::Todo);
    match route::classify_status_hint(s, has_due_date, recent) {
        Some(hint) => Some(hint),
        None => {
            if is_search {
                Some(StatusHint::new(StatusSubject::Search, StatusAction::Query))
            } else {
                None
            }
        },
    }
}

// Laws.

/// What was recently shown of other domains changes no status.
pub proof fn only_task_context_counts(
    s: Seq<char>,
    a: InteractionStateSnapshot,
    b: InteractionStateSnapshot,
    has_due_date: bool,
    is_search: bool,
)
    requires
        a.recent(InteractionDomain::Todo) == b.recent(InteractionDomain::Todo),
    ensures
        status_for(s, has_due_date, a.recent(InteractionDomain::Todo), is_search) == status_for(
            s,
            has_due_date,
            b.recent(InteractionDomain::Todo),
            is_search,
        ),
{
}

/// A status that stands without recent context stands with it, too.
pub proof fn context_only_adds_statuses(s: Seq<char>, has_due_date: bool, is_search: bool)
    requires
        route::shown_status(s, has_due_date, false) matches Some(hint) && hint.subject
            == StatusSubject::Todo,
    ensures
        status_for(s, has_due_date, true, is_search) == status_for(s, has_due_date, false, is_search),
{
}

} // verus!
