//! How the result of saving a memory is shown.
use vstd::prelude::*;
use vstd::string::*;

use crate::json::Json;
use crate::memory::receipt;
use crate::memory::types::MemoryKind;
use crate::text;
use crate::tools::outcome;
use crate::tools::outcome::{
    BlockView, CommandBody, OutcomeView, ResponseBlock, ToolEffect, ToolExecutionOutcome,
    ToolExecutionResult, ToolOutcomeStatus,
};

verus! {

pub const SAVE_MEMORY_TOOL_NAME: &'static str = "save_memory";

/// What is said of a memory that was not saved: the result's own words, or else what its code
/// stands for.
pub open spec fn failure_text(output: Json) -> Seq<char> {
    outcome::field_or(
        output,
        "message"@,
        receipt::refusal(
            match output.words_at("error_code"@) {
                Some(code) => code,
                None => "memory_write_failed"@,
            },
        ),
    )
}

/// `scope` is the kind of memory that the result names, if it names one.
pub open spec fn memory_block(output: Json, status: ToolOutcomeStatus, scope: Option<MemoryKind>) -> BlockView {
    match status {
        ToolOutcomeStatus::Succeeded => BlockView::MutationReceipt(
            outcome::plain_body(
                receipt::saved_receipt(
                    match scope {
                        Some(kind) => kind,
                        None => MemoryKind::Personal,
                    },
                    outcome::field_or(output, "content"@, ""@),
                ),
            ),
        ),
        ToolOutcomeStatus::RequiresClarification => BlockView::Clarification(
            outcome::plain_body(
                outcome::field_or(
                    output,
                    "question"@,
                    "这条记忆是对所有聊天生效，还是只在当前群使用？"@,
                ),
            ),
        ),
        ToolOutcomeStatus::Skipped => BlockView::Warning(
            outcome::plain_body("本次记忆写入已跳过，没有保存。"@),
        ),
        ToolOutcomeStatus::PendingConfirmation | ToolOutcomeStatus::Failed => BlockView::Error(
            outcome::plain_body(failure_text(output)),
        ),
    }
}

/// The outcome of saving a memory; none for another tool.
pub open spec fn memory_outcome(
    result: ToolExecutionResult,
    status: ToolOutcomeStatus,
    scope: Option<MemoryKind>,
) -> Option<OutcomeView> {
    if result.name@ != SAVE_MEMORY_TOOL_NAME@ {
        None
    } else {
        Some(
            outcome::one_block(
                result.name@,
                "memory"@,
                status,
                ToolEffect::Created,
                memory_block(result.output, status, scope),
                result.output.words_at("error_code"@),
                "memory"@,
            ),
        )
    }
}

fn write_failure(output: &Json) -> (r: String)
    ensures
        r@ == failure_text(*output),
{
    match outcome::string_field(output, "message") {
        Some(s) => s,
        None => match output.get_str("error_code") {
            Some(code) => receipt::memory_write_error_reply(code).to_owned(),
            None => receipt::memory_write_error_reply("memory_write_failed").to_owned(),
        },
    }
}

pub fn tool_outcome_from_result(
    result: &ToolExecutionResult,
    status: ToolOutcomeStatus,
    scope: Option<MemoryKind>,
) -> (r: Option<ToolExecutionOutcome>)
    ensures
        match memory_outcome(*result, status, scope) {
            Some(view) => r matches Some(o) && o.shown() == view,
            None => r is None,
        },
{
    if !text::same(result.name.as_str(), SAVE_MEMORY_TOOL_NAME) {
        return None;
    }
    let output = &result.output;
    let code = match output.get_str("error_code") {
        Some(s) => Some(s.to_owned()),
        None => None,
    };
    let block = match status {
        ToolOutcomeStatus::Succeeded => {
            let kind = match scope {
                Some(kind) => kind,
                None => MemoryKind::Personal,
            };
            let content = outcome::string_field_or(output, "content", "");
            let reply = receipt::format_memory_saved_reply(kind, content.as_str());
            ResponseBlock::MutationReceipt { body: CommandBody::plain(reply.as_str()) }
        },
        ToolOutcomeStatus::RequiresClarification => {
            let question = outcome::string_field_or(
                output,
                "question",
                "这条记忆是对所有聊天生效，还是只在当前群使用？",
            );
            ResponseBlock::Clarification { body: CommandBody::plain(question.as_str()) }
        },
        ToolOutcomeStatus::Skipped => ResponseBlock::Warning {
            body: CommandBody::plain("本次记忆写入已跳过，没有保存。"),
        },
        ToolOutcomeStatus::PendingConfirmation | ToolOutcomeStatus::Failed => {
            let message = write_failure(output);
            ResponseBlock::Error { body: CommandBody::plain(message.as_str()) }
        },
    };
    Some(
        outcome::one_block_outcome(
            result.name.as_str(),
            "memory",
            status,
            ToolEffect::Created,
            block,
            code,
            "memory",
        ),
    )
}

} // verus!
