//! Which tools there are and which of them a request sees.
use vstd::prelude::*;
use vstd::string::*;

use crate::text;

verus! {

/// The tools.
#[derive(Debug, Clone, Copy, PartialEq, Eq, Structural)]
pub enum ToolKind {
    Weather,
    TrainSchedule,
    RssRecentItems,
    RssManageSubscriptions,
    WebSearch,
    ListTodo,
    GetTodo,
    CreateTodo,
    CompleteTodo,
    EditTodo,
    RestoreTodo,
    DeleteTodo,
    MergeTodo,
    ManageRecurringReminder,
    SaveMemory,
    KnowledgeSearch,
}

/// All tools in the order in which they are registered.
pub open spec fn all_tools() -> Seq<ToolKind> {
    seq![
        ToolKind::Weather,
        ToolKind::TrainSchedule,
        ToolKind::RssRecentItems,
        ToolKind::RssManageSubscriptions,
        ToolKind::WebSearch,
        ToolKind::ListTodo,
        ToolKind::GetTodo,
        ToolKind::CreateTodo,
        ToolKind::CompleteTodo,
        ToolKind::EditTodo,
        ToolKind::RestoreTodo,
        ToolKind::DeleteTodo,
        ToolKind::MergeTodo,
        ToolKind::ManageRecurringReminder,
        ToolKind::SaveMemory,
        ToolKind::KnowledgeSearch,
    ]
}

/// The registered tools and the settings that they run with.
#[derive(Debug)]
pub struct ToolRuntime {
    pub registry: Vec<ToolKind>,
    pub rss_summary_max_chars: usize,
    pub rss_seen_retention: usize,
    pub tool_result_max_chars: usize,
    pub web_search_first_activity_timeout_ms: u64,
}

/// Registers a tool; one that is already there stays as it is.
pub fn insert_tool(registry: &mut Vec<ToolKind>, tool: ToolKind) -> (r: bool)
    ensures
        r == !old(registry)@.contains(tool),
        r ==> final(registry)@ == old(registry)@.push(tool),
        !r ==> final(registry)@ == old(registry)@,
{
    let mut i: usize = 0;
    while i < registry.len()
        invariant
            0 <= i <= registry@.len(),
            registry@ == old(registry)@,
            forall|k: int| 0 <= k < i ==> registry@[k] != tool,
        decreases registry@.len() - i,
    {
        if registry[i] == tool {
            assert(old(registry)@[i as int] == tool);
            return false;
        }
        i += 1;
    }
    registry.push(tool);
    true
}

impl ToolRuntime {
    pub fn new(
        rss_summary_max_chars: usize,
        rss_seen_retention: usize,
        tool_result_max_chars: usize,
        web_search_first_activity_timeout_ms: u64,
    ) -> (r: Self)
        ensures
            r.registry@ == all_tools(),
            r.registry@.no_duplicates(),
            r.rss_summary_max_chars == rss_summary_max_chars,
            r.rss_seen_retention == rss_seen_retention,
            r.tool_result_max_chars == tool_result_max_chars,
            r.web_search_first_activity_timeout_ms == web_search_first_activity_timeout_ms,
    {
        let tools: Vec<ToolKind> = vec![
            ToolKind::Weather,
            ToolKind::TrainSchedule,
            ToolKind::RssRecentItems,
            ToolKind::RssManageSubscriptions,
            ToolKind::WebSearch,
            ToolKind::ListTodo,
            ToolKind::GetTodo,
            ToolKind::CreateTodo,
            ToolKind::CompleteTodo,
            ToolKind::EditTodo,
            ToolKind::RestoreTodo,
            ToolKind::DeleteTodo,
            ToolKind::MergeTodo,
            ToolKind::ManageRecurringReminder,
            ToolKind::SaveMemory,
            ToolKind::KnowledgeSearch,
        ];
        assert(tools@ =~= all_tools());
        assert(all_tools().no_duplicates());
        let mut registry: Vec<ToolKind> = Vec::new();
        let mut i: usize = 0;
        while i < tools.len()
            invariant
                0 <= i <= tools@.len(),
                tools@ == all_tools(),
                tools@.no_duplicates(),
                registry@ == tools@.take(i as int),
            decreases tools@.len() - i,
        {
            let fresh = insert_tool(&mut registry, tools[i]);
            proof {
                if tools@.take(i as int).contains(tools@[i as int]) {
                    let k = choose|k: int|
                        0 <= k < i && tools@.take(i as int)[k] == tools@[i as int];
                    assert(tools@[k] == tools@[i as int]);
                }
                assert(fresh);
                assert(tools@.take(i as int).push(tools@[i as int]) =~= tools@.take(i + 1));
            }
            i += 1;
        }
        assert(tools@.take(i as int) =~= tools@);
        ToolRuntime {
            registry,
            rss_summary_max_chars,
            rss_seen_retention,
            tool_result_max_chars,
            web_search_first_activity_timeout_ms,
        }
    }
}

/// How the tools of a request are chosen.
#[derive(Debug, Clone, Copy, PartialEq, Eq, Structural)]
pub enum AgentToolMode {
    ConfiguredWhitelist,
    MemoryOnly,
}

/// The names that are the name of the tool for saving memories.
pub open spec fn memory_only(names: Seq<Seq<char>>) -> Seq<Seq<char>> {
    names.filter(|n: Seq<char>| n == "save_memory"@)
}

/// The tools that a request sees: those of the whitelist as cut for the request, or only
/// the one for saving memories where the policy enables it.
pub fn exposed_tool_names(mode: AgentToolMode, enabled_tools: &Vec<String>, whitelisted: Vec<String>) -> (r: Vec<String>)
    ensures
        match mode {
            AgentToolMode::ConfiguredWhitelist => r == whitelisted,
            AgentToolMode::MemoryOnly => text::views(r@) == memory_only(text::views(enabled_tools@)),
        },
{
    match mode {
        AgentToolMode::ConfiguredWhitelist => whitelisted,
        AgentToolMode::MemoryOnly => {
            let ghost names = text::views(enabled_tools@);
            let ghost pred = |n: Seq<char>| n == "save_memory"@;
            let mut out: Vec<String> = Vec::new();
            let mut i: usize = 0;
            proof {
                reveal(Seq::filter);
                assert(names.take(0) =~= Seq::empty());
                assert(text::views(out@) =~= names.take(0).filter(pred));
            }
            while i < enabled_tools.len()
                invariant
                    0 <= i <= enabled_tools@.len(),
                    names == text::views(enabled_tools@),
                    pred == (|n: Seq<char>| n == "save_memory"@),
                    text::views(out@) == names.take(i as int).filter(pred),
                decreases enabled_tools@.len() - i,
            {
                proof {
                    reveal(Seq::filter);
                    assert(names.take(i + 1).drop_last() =~= names.take(i as int));
                    assert(names.take(i + 1).last() == enabled_tools@[i as int]@);
                }
                if text::same(enabled_tools[i].as_str(), "save_memory") {
                    let ghost before = out@;
                    out.push(enabled_tools[i].clone());
                    assert(text::views(out@) =~= text::views(before).push(
                        enabled_tools@[i as int]@,
                    ));
                }
                i += 1;
            }
            assert(names.take(i as int) =~= names);
            out
        },
    }
}

/// Whether a quoted message is known and came from the bot.
pub fn is_quoted_bot_message(lookup_found: bool, from_bot: Option<bool>) -> (r: bool)
    ensures
        r == (lookup_found && from_bot == Some(true)),
{
    lookup_found && match from_bot {
        Some(b) => b,
        None => false,
    }
}

} // verus!
