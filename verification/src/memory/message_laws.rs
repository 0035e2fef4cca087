//! What users are told of their memories: before something is written, and after.
use vstd::prelude::*;
use vstd::string::*;

use crate::json::{Json, Shape};
use crate::memory::outcome;
use crate::memory::pending;
use crate::memory::pending::{MemoryPendingPayload, PreparedMemoryDraft};
use crate::memory::receipt;
use crate::memory::save;
use crate::memory::save::{CallContext, ConversationKind, InteractionMeta, SaveOutcome};
use crate::memory::types::{MemoryActor, MemoryKind, MemorySourceType, SaveMemoryRequest};
use crate::text;
use crate::text_laws::lemma_sub_between;
use crate::tools::outcome as shown;
use crate::tools::outcome::ToolOutcomeStatus;

verus! {

/// A receipt says what was saved, and for whom.
pub proof fn receipts_say_what_was_saved(kind: MemoryKind, content: Seq<char>)
    ensures
        text::ends_with(receipt::saved_receipt(kind, content), text::trimmed(content)),
        kind == MemoryKind::Personal ==> text::has_sub(receipt::saved_receipt(kind, content), "个人记忆"@),
        kind == MemoryKind::GroupProfile ==> text::has_sub(
            receipt::saved_receipt(kind, content),
            "当前群画像"@,
        ),
        kind == MemoryKind::Group ==> text::has_sub(
            receipt::saved_receipt(kind, content),
            "当前群公共记忆"@,
        ),
{
    let s = receipt::saved_receipt(kind, content);
    let t = text::trimmed(content);
    let title = receipt::receipt_title(kind);
    assert(s.subrange(s.len() - t.len(), s.len() as int) =~= t);
    assert(s =~= "🧠 已记住\n范围："@ + title + ("\n内容："@ + t));
    lemma_sub_between("🧠 已记住\n范围："@, title, "\n内容："@ + t);
}

/// Users are told that something was saved exactly if it was, and nothing else is.
pub proof fn only_saved_words_get_a_receipt(output: Json, status: ToolOutcomeStatus, scope: Option<MemoryKind>)
    ensures
        outcome::memory_block(output, status, scope) is MutationReceipt <==> status
            == ToolOutcomeStatus::Succeeded,
        status == ToolOutcomeStatus::RequiresClarification ==> outcome::memory_block(output, status, scope)
            is Clarification,
        status == ToolOutcomeStatus::Failed ==> outcome::memory_block(output, status, scope) is Error,
        status == ToolOutcomeStatus::Skipped ==> outcome::memory_block(output, status, scope) is Warning,
{
}

/// A failure is told in the result's own words, where it has any.
pub proof fn failures_are_told_in_their_words(output: Json, scope: Option<MemoryKind>)
    ensures
        shown::field(output, "message"@) matches Some(m) ==> (outcome::memory_block(
            output,
            ToolOutcomeStatus::Failed,
            scope,
        ) matches shown::BlockView::Error(body) && body.0 == m),
{
}

#[verifier::rlimit(60)]
proof fn lemma_confirmation(
    a: Seq<char>,
    b: Seq<char>,
    c: Seq<char>,
    d: Seq<char>,
    e: Seq<char>,
    f: Seq<char>,
    g: Seq<char>,
    h: Seq<char>,
    i: Seq<char>,
    content: Seq<char>,
    j: Seq<char>,
    k: Seq<char>,
    l: Seq<char>,
    m: Seq<char>,
    n: Seq<char>,
)
    ensures
        text::has_sub(a + b + c + d + e + f + g + h + i + content + j + k + l + m + n, content),
        text::has_sub(a + b + c + d + e + f + g + h + i + content + j + k + l + m + n, b),
        text::has_sub(a + b + c + d + e + f + g + h + i + content + j + k + l + m + n, f),
        text::has_sub(a + b + c + d + e + f + g + h + i + content + j + k + l + m + n, h),
{
    let s = a + b + c + d + e + f + g + h + i + content + j + k + l + m + n;
    assert(s =~= (a + b + c + d + e + f + g + h + i) + content + (j + k + l + m + n));
    lemma_sub_between(a + b + c + d + e + f + g + h + i, content, j + k + l + m + n);
    assert(s =~= a + b + (c + d + e + f + g + h + i + content + j + k + l + m + n));
    lemma_sub_between(a, b, c + d + e + f + g + h + i + content + j + k + l + m + n);
    assert(s =~= (a + b + c + d + e) + f + (g + h + i + content + j + k + l + m + n));
    lemma_sub_between(a + b + c + d + e, f, g + h + i + content + j + k + l + m + n);
    assert(s =~= (a + b + c + d + e + f + g) + h + (i + content + j + k + l + m + n));
    lemma_sub_between(a + b + c + d + e + f + g, h, i + content + j + k + l + m + n);
}

/// Before a draft is written the user sees its words, its target, its visibility and its type.
pub proof fn users_see_what_they_confirm(d: PreparedMemoryDraft)
    ensures
        text::has_sub(pending::confirmation(d), d.content@),
        text::has_sub(pending::confirmation(d), d.visibility.name()),
        text::has_sub(pending::confirmation(d), d.category.name()),
        d.target.memory_kind == MemoryKind::Personal ==> text::has_sub(pending::confirmation(d), "个人记忆"@),
        d.target.memory_kind == MemoryKind::GroupProfile ==> text::has_sub(
            pending::confirmation(d),
            "当前群画像"@,
        ),
        d.target.memory_kind == MemoryKind::Group ==> text::has_sub(
            pending::confirmation(d),
            "当前群组记忆"@,
        ),
{
    lemma_confirmation(
        "已整理记忆草稿：\n- 目标范围："@,
        pending::kind_title(d.target.memory_kind),
        "\n- 主体："@,
        pending::subject_title(d.target.memory_kind),
        "\n- 可见性："@,
        d.visibility.name(),
        "\n- 类型："@,
        d.category.name(),
        "\n- 规范化内容："@,
        d.content@,
        "\n- 来源摘要："@,
        d.source_summary@,
        "\n- 预期变更："@,
        d.change_type@,
        "\n回复“确认 / 可以 / 记吧”执行真实写入；回复“取消 / 不记 / 算了”放弃。"@,
    );
}

/// What is stored of a draft is what was confirmed: its words, its target, its visibility and
/// its type, as confirmed by the user.
pub proof fn drafts_are_stored_as_confirmed(
    d: PreparedMemoryDraft,
    actor: MemoryActor,
    now: String,
    req: SaveMemoryRequest,
)
    requires
        d.as_save_request(actor, now, req),
    ensures
        req.actor == actor,
        req.content == d.content,
        req.target == d.target,
        req.visibility == d.visibility,
        req.category == d.category,
        req.attribute_key == d.attribute_key,
        req.source_text == d.source_text,
        req.source_ref == d.source_ref,
        req.source_type == MemorySourceType::UserConfirmed,
        req.confirmed_at == Some(now),
        !req.pinned,
{
}

/// A change that waits is shown with the words that it is about, or with the number of records
/// that it takes.
pub proof fn waiting_changes_show_what_they_do(p: MemoryPendingPayload)
    ensures
        p matches MemoryPendingPayload::Delete { content_snapshot, .. } ==> (pending::snapshot_shape(
            p,
        ) matches Shape::Object(o) && o.contains(("content"@, Shape::Text(content_snapshot@)))),
        p matches MemoryPendingPayload::Save { draft, .. } ==> (pending::snapshot_shape(p) matches Shape::Object(o)
            && o.contains(("content"@, Shape::Text(draft.content@)))),
        p matches MemoryPendingPayload::Replace { draft, .. } ==> (pending::snapshot_shape(
            p,
        ) matches Shape::Object(o) && o.contains(("content"@, Shape::Text(draft.content@)))),
        p matches MemoryPendingPayload::Clear { record_ids, .. } ==> (pending::snapshot_shape(
            p,
        ) matches Shape::Object(o) && o.contains(("count"@, Shape::Whole(record_ids@.len() as u64)))),
{
    let o = pending::snapshot_shape(p)->Object_0;
    match p {
        MemoryPendingPayload::Save { draft, .. } => {
            assert(o[2] == ("content"@, Shape::Text(draft.content@)));
        },
        MemoryPendingPayload::Replace { draft, .. } => {
            assert(o[2] == ("content"@, Shape::Text(draft.content@)));
        },
        MemoryPendingPayload::Delete { content_snapshot, .. } => {
            assert(o[0] == ("content"@, Shape::Text(content_snapshot@)));
        },
        MemoryPendingPayload::Clear { record_ids, .. } => {
            assert(o[0] == ("count"@, Shape::Whole(record_ids@.len() as u64)));
        },
        _ => {},
    }
}

/// A call says that it worked exactly if the memory was saved, and then with its words; a
/// question is asked where it is open whose memory it is.
pub proof fn calls_say_how_they_ended(o: SaveOutcome)
    ensures
        ({
            &&& save::outcome_shape(o) matches Shape::Object(e)
            &&& e.contains(("ok"@, Shape::Bool(o is Saved)))
            &&& o matches SaveOutcome::Saved { result } ==> e.contains(
                ("content"@, Shape::Text(result.memory.content@)),
            )
            &&& o matches SaveOutcome::Failed { code, message } ==> e.contains(
                ("error_code"@, Shape::Text(code@)),
            ) && e.contains(("message"@, Shape::Text(message@)))
            &&& o is AskScope ==> e.contains(("requires_clarification"@, Shape::Bool(true)))
        }),
{
    let e = save::outcome_shape(o)->Object_0;
    match o {
        SaveOutcome::Failed { code, message } => {
            assert(e[0] == ("error_code"@, Shape::Text(code@)));
            assert(e[1] == ("message"@, Shape::Text(message@)));
            assert(e[2] == ("ok"@, Shape::Bool(false)));
        },
        SaveOutcome::AskScope { .. } => {
            assert(e[1] == ("ok"@, Shape::Bool(false)));
            assert(e[3] == ("requires_clarification"@, Shape::Bool(true)));
        },
        SaveOutcome::Saved { result } => {
            assert(e[1] == ("content"@, Shape::Text(result.memory.content@)));
            assert(e[2] == ("ok"@, Shape::Bool(true)));
        },
    }
}

/// A call acts for the user who made it, with the rights that the conversation gives them; one
/// without a user acts for nobody.
pub proof fn calls_act_for_their_user(r: Option<(MemoryActor, InteractionMeta)>, context: CallContext)
    requires
        save::is_actor_and_meta(r, context),
    ensures
        context.user_id is None ==> r is None,
        context.personal_scope_id is None ==> r is None,
        r matches Some(p) ==> {
            &&& context.user_id is Some && p.0.user_id@ == text::trimmed(context.user_id->0@)
            &&& context.personal_scope_id is Some && p.0.personal_scope_id@ == context.personal_scope_id->0@
            &&& p.0.can_manage_group_memory == context.can_manage_group_memory
            &&& context.group_scope_id matches Some(g) ==> p.0.group_scope_id is Some
                && p.0.group_scope_id->0@ == g@
            &&& context.group_scope_id is None ==> p.0.group_scope_id is None
            &&& context.kind != ConversationKind::Group ==> p.1.group_id is None
            &&& context.kind != ConversationKind::Group ==> p.1.scope_id == context.interaction_scope_id
        },
{
}

} // verus!
