//! What the user is told about a memory that was or was not saved.
use vstd::prelude::*;
use vstd::string::*;

use crate::memory::types::MemoryKind;
use crate::text;

verus! {

/// How a target is called in a receipt.
pub open spec fn receipt_title(kind: MemoryKind) -> Seq<char> {
    match kind {
        MemoryKind::Personal => "个人记忆"@,
        MemoryKind::GroupProfile => "当前群画像"@,
        MemoryKind::Group => "当前群公共记忆"@,
        MemoryKind::LegacyUnassigned => "未归属旧记忆"@,
    }
}

pub fn memory_kind_label(kind: MemoryKind) -> (r: &'static str)
    ensures
        r@ == receipt_title(kind),
{
    match kind {
        MemoryKind::Personal => "个人记忆",
        MemoryKind::GroupProfile => "当前群画像",
        MemoryKind::Group => "当前群公共记忆",
        MemoryKind::LegacyUnassigned => "未归属旧记忆",
    }
}

/// The receipt for a saved memory.
pub open spec fn saved_receipt(kind: MemoryKind, content: Seq<char>) -> Seq<char> {
    "🧠 已记住\n范围："@ + receipt_title(kind) + "\n内容："@ + text::trimmed(content)
}

pub fn format_memory_saved_reply(kind: MemoryKind, content: &str) -> (r: String)
    ensures
        r@ == saved_receipt(kind, content@),
{
    let mut s = "🧠 已记住\n范围：".to_owned();
    s.append(memory_kind_label(kind));
    s.append("\n内容：");
    s.append(text::trim(content));
    s
}

/// What the user is told where a memory was not saved for this reason.
pub open spec fn refusal(code: Seq<char>) -> Seq<char> {
    if code == "memory_sensitive_rejected"@ {
        "这段内容包含或疑似包含密码、Token、密钥、身份证件等敏感信息，未保存。"@
    } else if code == "memory_actor_missing"@ {
        "当前请求缺少稳定用户身份，不能保存长期记忆。"@
    } else if code == "group_admin_required"@ || code == "forbidden"@ {
        "当前群公共记忆只能由群主或管理员保存，本次未写入。"@
    } else if code == "profile_opted_out"@ {
        "你已停止当前群保存群内画像，本次未写入。可使用 `/memory profile enable` 重新授权。"@
    } else if code == "memory_scope_unsupported"@ {
        "当前会话范围不支持保存这类长期记忆。"@
    } else if code == "memory_pending_conflict"@ {
        "当前还有一项待确认操作，请先处理后再保存记忆。"@
    } else {
        "长期记忆写入失败，没有保存。请稍后重试。"@
    }
}

pub fn memory_write_error_reply(code: &str) -> (r: &'static str)
    ensures
        r@ == refusal(code@),
{
    if text::same(code, "memory_sensitive_rejected") {
        "这段内容包含或疑似包含密码、Token、密钥、身份证件等敏感信息，未保存。"
    } else if text::same(code, "memory_actor_missing") {
        "当前请求缺少稳定用户身份，不能保存长期记忆。"
    } else if text::same(code, "group_admin_required") || text::same(code, "forbidden") {
        "当前群公共记忆只能由群主或管理员保存，本次未写入。"
    } else if text::same(code, "profile_opted_out") {
        "你已停止当前群保存群内画像，本次未写入。可使用 `/memory profile enable` 重新授权。"
    } else if text::same(code, "memory_scope_unsupported") {
        "当前会话范围不支持保存这类长期记忆。"
    } else if text::same(code, "memory_pending_conflict") {
        "当前还有一项待确认操作，请先处理后再保存记忆。"
    } else {
        "长期记忆写入失败，没有保存。请稍后重试。"
    }
}

} // verus!
