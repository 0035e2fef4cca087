//! Results of tools, and how they are shown.
use vstd::prelude::*;
use vstd::string::*;

use crate::json::Json;
use crate::text;

verus! {

/// What a tool returned.
#[derive(Debug)]
pub struct ToolExecutionResult {
    pub name: String,
    pub output: Json,
    pub succeeded: bool,
}

#[derive(Debug, Clone, Copy, PartialEq, Eq, Structural)]
pub enum ToolOutcomeStatus {
    Succeeded,
    Skipped,
    RequiresClarification,
    PendingConfirmation,
    Failed,
}

#[derive(Debug, Clone, Copy, PartialEq, Eq, Structural)]
pub enum ToolEffect {
    ReadOnly,
    Created,
    Updated,
    Deleted,
}

#[derive(Debug, Clone, Copy, PartialEq, Eq, Structural)]
pub enum OutcomePresentation {
    /// Shown as it is.
    Trusted,
    /// Left to the model.
    Internal,
}

/// A text, and where it has one its Markdown.
#[derive(Debug)]
pub struct CommandBody {
    pub text: String,
    pub markdown: Option<String>,
}

/// Text and Markdown.
pub type BodyView = (Seq<char>, Option<Seq<char>>);

pub open spec fn plain_body(s: Seq<char>) -> BodyView {
    (s, None)
}

/// The body with its text and its Markdown cut to their first characters.
pub open spec fn cut_body(body: BodyView, max_chars: int) -> BodyView {
    (
        text::first_chars(body.0, max_chars),
        match body.1 {
            Some(m) => Some(text::first_chars(m, max_chars)),
            None => None,
        },
    )
}

impl CommandBody {
    pub open spec fn shown(self) -> BodyView {
        (self.text@, text::opt_view(self.markdown))
    }

    pub fn plain(s: &str) -> (r: Self)
        ensures
            r.shown() == plain_body(s@),
    {
        CommandBody { text: s.to_owned(), markdown: None }
    }

    pub fn dual(text: String, markdown: String) -> (r: Self)
        ensures
            r.shown() == (text@, Some(markdown@)),
    {
        CommandBody { text, markdown: Some(markdown) }
    }

    /// The body, cut to its first characters, at most this many of text and of Markdown. What is
    /// behind them is left out without a mark.
    pub fn cut_to(self, max_chars: usize) -> (r: Self)
        ensures
            r.shown() == cut_body(self.shown(), max_chars as int),
            r.text@.len() <= max_chars,
            r.markdown matches Some(m) ==> m@.len() <= max_chars,
    {
        CommandBody {
            text: text::take_chars(self.text.as_str(), max_chars).to_owned(),
            markdown: match self.markdown {
                Some(m) => Some(text::take_chars(m.as_str(), max_chars).to_owned()),
                None => None,
            },
        }
    }

    pub fn copy(&self) -> (r: Self)
        ensures
            r == *self,
    {
        CommandBody {
            text: self.text.clone(),
            markdown: text::copy_option(&self.markdown),
        }
    }
}

#[derive(Debug)]
pub enum ResponseBlock {
    FactCard { body: CommandBody },
    MutationReceipt { body: CommandBody },
    Warning { body: CommandBody },
    Clarification { body: CommandBody },
    Error { body: CommandBody },
}

pub enum BlockView {
    FactCard(BodyView),
    MutationReceipt(BodyView),
    Warning(BodyView),
    Clarification(BodyView),
    Error(BodyView),
}

impl ResponseBlock {
    pub open spec fn shown(self) -> BlockView {
        match self {
            ResponseBlock::FactCard { body } => BlockView::FactCard(body.shown()),
            ResponseBlock::MutationReceipt { body } => BlockView::MutationReceipt(body.shown()),
            ResponseBlock::Warning { body } => BlockView::Warning(body.shown()),
            ResponseBlock::Clarification { body } => BlockView::Clarification(body.shown()),
            ResponseBlock::Error { body } => BlockView::Error(body.shown()),
        }
    }
}

/// What a tool did, as it is shown.
#[derive(Debug)]
pub struct ToolExecutionOutcome {
    pub tool_name: String,
    pub domain: String,
    pub status: ToolOutcomeStatus,
    pub effect: ToolEffect,
    pub presentation: OutcomePresentation,
    pub blocks: Vec<ResponseBlock>,
    pub error_code: Option<String>,
    pub command: Option<String>,
}

pub struct OutcomeView {
    pub tool_name: Seq<char>,
    pub domain: Seq<char>,
    pub status: ToolOutcomeStatus,
    pub effect: ToolEffect,
    pub presentation: OutcomePresentation,
    pub blocks: Seq<BlockView>,
    pub error_code: Option<Seq<char>>,
    pub command: Option<Seq<char>>,
}

pub open spec fn block_views(blocks: Seq<ResponseBlock>) -> Seq<BlockView> {
    Seq::new(blocks.len(), |i: int| blocks[i].shown())
}

impl ToolExecutionOutcome {
    pub open spec fn shown(self) -> OutcomeView {
        OutcomeView {
            tool_name: self.tool_name@,
            domain: self.domain@,
            status: self.status,
            effect: self.effect,
            presentation: self.presentation,
            blocks: block_views(self.blocks@),
            error_code: text::opt_view(self.error_code),
            command: text::opt_view(self.command),
        }
    }
}

/// An outcome that is shown as one block.
pub open spec fn one_block(
    tool_name: Seq<char>,
    domain: Seq<char>,
    status: ToolOutcomeStatus,
    effect: ToolEffect,
    block: BlockView,
    error_code: Option<Seq<char>>,
    command: Seq<char>,
) -> OutcomeView {
    OutcomeView {
        tool_name,
        domain,
        status,
        effect,
        presentation: OutcomePresentation::Trusted,
        blocks: seq![block],
        error_code,
        command: Some(command),
    }
}

pub fn one_block_outcome(
    tool_name: &str,
    domain: &str,
    status: ToolOutcomeStatus,
    effect: ToolEffect,
    block: ResponseBlock,
    error_code: Option<String>,
    command: &str,
) -> (r: ToolExecutionOutcome)
    ensures
        r.shown() == one_block(
            tool_name@,
            domain@,
            status,
            effect,
            block.shown(),
            text::opt_view(error_code),
            command@,
        ),
{
    let ghost view = block.shown();
    let mut blocks: Vec<ResponseBlock> = Vec::new();
    blocks.push(block);
    assert(block_views(blocks@) =~= seq![view]);
    ToolExecutionOutcome {
        tool_name: tool_name.to_owned(),
        domain: domain.to_owned(),
        status,
        effect,
        presentation: OutcomePresentation::Trusted,
        blocks,
        error_code,
        command: Some(command.to_owned()),
    }
}

// Reading a result.

/// The trimmed text under a key, unless it is blank.
pub open spec fn field(v: Json, key: Seq<char>) -> Option<Seq<char>> {
    text::cleaned_opt(v.words_at(key))
}

pub fn string_field(value: &Json, key: &str) -> (r: Option<String>)
    ensures
        text::opt_view(r) == field(*value, key@),
{
    match value.get_str(key) {
        Some(s) => text::clean_text(s),
        None => None,
    }
}

/// Whether there is a text and it is this one.
pub fn is_text(o: &Option<String>, s: &str) -> (r: bool)
    ensures
        r == (text::opt_view(*o) == Some(s@)),
{
    match o {
        Some(t) => text::same(t.as_str(), s),
        None => false,
    }
}

pub open spec fn field_or(v: Json, key: Seq<char>, other: Seq<char>) -> Seq<char> {
    match field(v, key) {
        Some(s) => s,
        None => other,
    }
}

pub fn string_field_or(value: &Json, key: &str, other: &str) -> (r: String)
    ensures
        r@ == field_or(*value, key@, other@),
{
    match string_field(value, key) {
        Some(s) => s,
        None => other.to_owned(),
    }
}

/// The value under a key, or null.
pub open spec fn part(v: Json, key: Seq<char>) -> Json {
    match v.entry(key) {
        Some(p) => p,
        None => Json::Null,
    }
}

/// The elements under a key, or none.
pub open spec fn elements(v: Json, key: Seq<char>) -> Seq<Json> {
    match v.list_at(key) {
        Some(items) => items,
        None => Seq::empty(),
    }
}

/// The code under `error_code`, or else the one of the error.
pub open spec fn error_code(output: Json) -> Option<Seq<char>> {
    match output.words_at("error_code"@) {
        Some(s) => Some(s),
        None => match output.entry("error"@) {
            Some(e) => e.words_at("code"@),
            None => None,
        },
    }
}

pub fn structured_error_code(output: &Json) -> (r: Option<String>)
    ensures
        text::opt_view(r) == error_code(*output),
{
    match output.get_str("error_code") {
        Some(s) => Some(s.to_owned()),
        None => match output.get("error") {
            Some(e) => match e.get_str("code") {
                Some(s) => Some(s.to_owned()),
                None => None,
            },
            None => None,
        },
    }
}

// What is said of a call that was skipped.

/// `what` names the call.
pub open spec fn skip_text(what: Seq<char>, output: Json) -> Seq<char> {
    match field(output, "reason"@) {
        Some(reason) => if reason == "dependency_previous_call_failed"@ {
            what + "因前序工具失败已跳过；根因以上方失败信息为准。"@
        } else {
            what + "已跳过："@ + reason + "。"@
        },
        None => what + "已跳过。"@,
    }
}

pub fn skip_body(what: &str, output: &Json) -> (r: CommandBody)
    ensures
        r.shown() == plain_body(skip_text(what@, *output)),
{
    let mut s = what.to_owned();
    match string_field(output, "reason") {
        Some(reason) => {
            if text::same(reason.as_str(), "dependency_previous_call_failed") {
                s.append("因前序工具失败已跳过；根因以上方失败信息为准。");
            } else {
                s.append("已跳过：");
                s.append(reason.as_str());
                s.append("。");
            }
        },
        None => {
            s.append("已跳过。");
        },
    }
    CommandBody::plain(s.as_str())
}

} // verus!
