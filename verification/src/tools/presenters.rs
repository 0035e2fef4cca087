//! How the results of the knowledge search and of the web search are shown.
use vstd::prelude::*;
use vstd::string::*;

use crate::json::Json;
use crate::knowledge::tool::KNOWLEDGE_SEARCH_TOOL_NAME;
use crate::text;
use crate::tools::outcome;
use crate::tools::outcome::{
    BlockView, CommandBody, OutcomePresentation, OutcomeView, ResponseBlock, ToolEffect,
    ToolExecutionOutcome, ToolExecutionResult, ToolOutcomeStatus,
};
use crate::tools::search::WEB_SEARCH_TOOL_NAME;

verus! {

// Knowledge.

/// What is said of a search that found nothing to go by, under its code.
pub open spec fn knowledge_fault(output: Json) -> (BlockView, Seq<char>) {
    let status = outcome::field(output, "status"@);
    if status == Some("no_hit"@) {
        (
            BlockView::Warning(
                outcome::plain_body("本地知识库没有找到相关证据，无法据此给出知识库结论。"@),
            ),
            "knowledge_no_hit"@,
        )
    } else if status == Some("low_relevance"@) {
        (
            BlockView::Warning(
                outcome::plain_body("本地知识库只有低相关片段，当前证据不足，无法据此下结论。"@),
            ),
            "knowledge_low_relevance"@,
        )
    } else if status == Some("failed"@) {
        (
            BlockView::Error(outcome::plain_body("本地知识检索失败，当前不能基于知识库回答。"@)),
            match outcome::error_code(output) {
                Some(code) => code,
                None => "knowledge_search_failed"@,
            },
        )
    } else {
        (
            BlockView::Error(
                outcome::plain_body("本地知识检索返回了无效结果，当前不能基于知识库回答。"@),
            ),
            "knowledge_invalid_result"@,
        )
    }
}

/// Whether the search found evidence that the model is to answer from.
pub open spec fn has_evidence(result: ToolExecutionResult) -> bool {
    let status = outcome::field(result.output, "status"@);
    result.succeeded && (status == Some("ok"@) || status == Some("truncated"@))
}

/// The outcome of a knowledge search; none for another tool. Evidence is left to the model.
/// Without evidence the fault is shown, so that the model's conclusion is not.
pub open spec fn knowledge_outcome(result: ToolExecutionResult) -> Option<OutcomeView> {
    if result.name@ != KNOWLEDGE_SEARCH_TOOL_NAME@ {
        None
    } else if has_evidence(result) {
        Some(
            OutcomeView {
                tool_name: result.name@,
                domain: "knowledge"@,
                status: ToolOutcomeStatus::Succeeded,
                effect: ToolEffect::ReadOnly,
                presentation: OutcomePresentation::Internal,
                blocks: Seq::empty(),
                error_code: None,
                command: Some("knowledge"@),
            },
        )
    } else {
        Some(
            outcome::one_block(
                result.name@,
                "knowledge"@,
                ToolOutcomeStatus::Failed,
                ToolEffect::ReadOnly,
                knowledge_fault(result.output).0,
                Some(knowledge_fault(result.output).1),
                "knowledge"@,
            ),
        )
    }
}

pub fn tool_outcome_from_knowledge_result(result: &ToolExecutionResult) -> (r: Option<ToolExecutionOutcome>)
    ensures
        match knowledge_outcome(*result) {
            Some(view) => r matches Some(o) && o.shown() == view,
            None => r is None,
        },
{
    if !text::same(result.name.as_str(), KNOWLEDGE_SEARCH_TOOL_NAME) {
        return None;
    }
    let status = outcome::string_field(&result.output, "status");
    if result.succeeded && (outcome::is_text(&status, "ok") || outcome::is_text(&status, "truncated")) {
        let blocks: Vec<ResponseBlock> = Vec::new();
        assert(outcome::block_views(blocks@) =~= Seq::empty());
        return Some(
            ToolExecutionOutcome {
                tool_name: result.name.clone(),
                domain: "knowledge".to_owned(),
                status: ToolOutcomeStatus::Succeeded,
                effect: ToolEffect::ReadOnly,
                presentation: OutcomePresentation::Internal,
                blocks,
                error_code: None,
                command: Some("knowledge".to_owned()),
            },
        );
    }
    let (block, code) = if outcome::is_text(&status, "no_hit") {
        (
            ResponseBlock::Warning {
                body: CommandBody::plain("本地知识库没有找到相关证据，无法据此给出知识库结论。"),
            },
            "knowledge_no_hit".to_owned(),
        )
    } else if outcome::is_text(&status, "low_relevance") {
        (
            ResponseBlock::Warning {
                body: CommandBody::plain("本地知识库只有低相关片段，当前证据不足，无法据此下结论。"),
            },
            "knowledge_low_relevance".to_owned(),
        )
    } else if outcome::is_text(&status, "failed") {
        (
            ResponseBlock::Error {
                body: CommandBody::plain("本地知识检索失败，当前不能基于知识库回答。"),
            },
            match outcome::structured_error_code(&result.output) {
                Some(code) => code,
                None => "knowledge_search_failed".to_owned(),
            },
        )
    } else {
        (
            ResponseBlock::Error {
                body: CommandBody::plain("本地知识检索返回了无效结果，当前不能基于知识库回答。"),
            },
            "knowledge_invalid_result".to_owned(),
        )
    };
    Some(
        outcome::one_block_outcome(
            result.name.as_str(),
            "knowledge",
            ToolOutcomeStatus::Failed,
            ToolEffect::ReadOnly,
            block,
            Some(code),
            "knowledge",
        ),
    )
}

/// A search without evidence is never left to the model.
pub proof fn missing_evidence_is_said(result: ToolExecutionResult)
    requires
        result.name@ == KNOWLEDGE_SEARCH_TOOL_NAME@,
        !has_evidence(result),
    ensures
        knowledge_outcome(result) matches Some(view) && view.presentation == OutcomePresentation::Trusted
            && view.status == ToolOutcomeStatus::Failed && view.blocks.len() == 1 && view.error_code is Some,
{
}

// The web.

/// What the search flow made of a result.
#[derive(Debug)]
pub struct WebSearchReplies {
    pub answer: CommandBody,
    pub error: CommandBody,
    /// What is said where the research of several subjects failed.
    pub research_error: CommandBody,
}

/// Code and stage of the error that a failed search is answered with.
pub open spec fn web_search_fault(output: Json) -> (Seq<char>, Seq<char>) {
    (
        match outcome::error_code(output) {
            Some(code) => code,
            None => "provider_error"@,
        },
        match outcome::part(output, "error"@).words_at("stage"@) {
            Some(stage) => stage,
            None => "web_search"@,
        },
    )
}

pub fn web_search_error(output: &Json) -> (r: (String, String))
    ensures
        (r.0@, r.1@) == web_search_fault(*output),
{
    let code = match outcome::structured_error_code(output) {
        Some(code) => code,
        None => "provider_error".to_owned(),
    };
    let stage = match output.get("error") {
        Some(error) => match error.get_str("stage") {
            Some(stage) => stage.to_owned(),
            None => "web_search".to_owned(),
        },
        None => "web_search".to_owned(),
    };
    (code, stage)
}

pub open spec fn web_search_block(output: Json, status: ToolOutcomeStatus, replies: WebSearchReplies) -> BlockView {
    match status {
        ToolOutcomeStatus::Succeeded => BlockView::FactCard(replies.answer.shown()),
        ToolOutcomeStatus::Skipped => BlockView::Warning(
            outcome::plain_body(outcome::skip_text("联网查询"@, output)),
        ),
        ToolOutcomeStatus::RequiresClarification => BlockView::Clarification(
            outcome::plain_body("请说明要联网查询什么内容。"@),
        ),
        ToolOutcomeStatus::PendingConfirmation | ToolOutcomeStatus::Failed => BlockView::Error(
            if outcome::field(output, "mode"@) == Some("multi_entity_research"@) {
                replies.research_error.shown()
            } else {
                replies.error.shown()
            },
        ),
    }
}

/// The outcome of a web search; none for another tool.
pub open spec fn web_search_outcome(
    result: ToolExecutionResult,
    status: ToolOutcomeStatus,
    replies: WebSearchReplies,
) -> Option<OutcomeView> {
    if result.name@ != WEB_SEARCH_TOOL_NAME@ {
        None
    } else {
        Some(
            outcome::one_block(
                result.name@,
                "search"@,
                status,
                ToolEffect::ReadOnly,
                web_search_block(result.output, status, replies),
                outcome::error_code(result.output),
                "web_search"@,
            ),
        )
    }
}

fn web_search_error_body(output: &Json, replies: &WebSearchReplies) -> (r: CommandBody)
    ensures
        r.shown() == (if outcome::field(*output, "mode"@) == Some("multi_entity_research"@) {
            replies.research_error.shown()
        } else {
            replies.error.shown()
        }),
{
    match outcome::string_field(output, "mode") {
        Some(mode) => {
            if text::same(mode.as_str(), "multi_entity_research") {
                return replies.research_error.copy();
            }
        },
        None => {},
    }
    replies.error.copy()
}

pub fn tool_outcome_from_web_search_result(
    result: &ToolExecutionResult,
    status: ToolOutcomeStatus,
    replies: &WebSearchReplies,
) -> (r: Option<ToolExecutionOutcome>)
    ensures
        match web_search_outcome(*result, status, *replies) {
            Some(view) => r matches Some(o) && o.shown() == view,
            None => r is None,
        },
{
    if !text::same(result.name.as_str(), WEB_SEARCH_TOOL_NAME) {
        return None;
    }
    let block = match status {
        ToolOutcomeStatus::Succeeded => ResponseBlock::FactCard { body: replies.answer.copy() },
        ToolOutcomeStatus::Skipped => ResponseBlock::Warning {
            body: outcome::skip_body("联网查询", &result.output),
        },
        ToolOutcomeStatus::RequiresClarification => ResponseBlock::Clarification {
            body: CommandBody::plain("请说明要联网查询什么内容。"),
        },
        ToolOutcomeStatus::PendingConfirmation | ToolOutcomeStatus::Failed => ResponseBlock::Error {
            body: web_search_error_body(&result.output, replies),
        },
    };
    Some(
        outcome::one_block_outcome(
            result.name.as_str(),
            "search",
            status,
            ToolEffect::ReadOnly,
            block,
            outcome::structured_error_code(&result.output),
            "web_search",
        ),
    )
}

} // verus!
