//! How a waiting memory change goes on with the user's next message: it is dropped, asked
//! about again, revised or carried out. Only the one who started it can do so, within the
//! conversation where it was started, and it is carried out at most once.
use vstd::prelude::*;
use vstd::string::*;

use crate::memory::draft;
use crate::memory::operations;
use crate::memory::operations::MemoryOperations;
use crate::memory::pending;
use crate::memory::pending::{MemoryPendingPayload, PreparedMemoryDraft};
use crate::memory::receipt;
use crate::memory::store::StoreView;
use crate::memory::types;
use crate::memory::types::{
    MemoryActor, MemoryError, MemoryKind, MemoryMutationResult, MemoryTarget, MemoryWriteResult,
    ProfilePreferenceResult, SaveMemoryRequest,
};
use crate::outside;
use crate::text;

verus! {

// Deciding.

#[derive(Debug, Clone, Copy, PartialEq, Eq, Structural)]
pub enum PreparedActionState {
    WaitingConfirmation,
    Executing,
    Failed,
}

/// How the user's message answers the change that waits.
#[derive(Debug, Clone, Copy, PartialEq, Eq, Structural)]
pub enum PendingReplyKind {
    Confirm,
    Cancel,
    Revise,
    Wait,
}

/// What is known of the change that waits.
#[derive(Debug)]
pub struct PendingFacts {
    pub expired: bool,
    pub scope_key: String,
    pub initiator_user_id: Option<String>,
    pub owner_key: Option<String>,
    pub state: PreparedActionState,
    /// Whether the change waits for the user to say where a memory belongs.
    pub asks_for_scope: bool,
}

/// What the user is told without anything being carried out.
#[derive(Debug, Clone, Copy, PartialEq, Eq, Structural)]
pub enum PendingNotice {
    Expired,
    ScopeMismatch,
    ActorMissing,
    ActorMismatch,
    Executing,
    FailedCancelled,
    Failed,
    Cancelled,
    Wait,
    ClaimRejected,
}

/// How a waiting change goes on.
#[derive(Debug, Clone, Copy, PartialEq, Eq, Structural)]
pub enum PendingStep {
    Notify(PendingNotice),
    AskScope,
    Revise,
    Claim,
}

impl PendingNotice {
    /// Whether the change is dropped with this notice.
    pub open spec fn drops(self) -> bool {
        match self {
            PendingNotice::Expired
            | PendingNotice::ScopeMismatch
            | PendingNotice::ActorMissing
            | PendingNotice::FailedCancelled
            | PendingNotice::Cancelled => true,
            _ => false,
        }
    }

    pub open spec fn reply_text(self) -> Seq<char> {
        match self {
            PendingNotice::Expired => "这条记忆操作已过期，没有执行。请重新发起。"@,
            PendingNotice::ScopeMismatch => "这条记忆操作的会话作用域已变化，没有执行。请重新发起。"@,
            PendingNotice::ActorMissing => "这条记忆操作缺少稳定 actor，已取消。"@,
            PendingNotice::ActorMismatch => "这个记忆草稿由其他成员发起，请由发起人继续。"@,
            PendingNotice::Executing => "这条记忆操作正在执行，请勿重复确认。"@,
            PendingNotice::FailedCancelled => "已清理执行失败的记忆操作，请重新发起。"@,
            PendingNotice::Failed => "这条记忆操作上次执行失败，没有重复执行。请回复“取消”后重新发起。"@,
            PendingNotice::Cancelled => "已取消，没有修改长期记忆。"@,
            PendingNotice::Wait => "当前有一条记忆操作等待确认。请回复“确认”或“取消”；也可以直接回复新内容修订草稿。"@,
            PendingNotice::ClaimRejected => "这条记忆操作已被处理或状态已变化，没有重复执行。"@,
        }
    }

    pub open spec fn command_text(self) -> Seq<char> {
        match self {
            PendingNotice::Expired => "memory_pending_expired"@,
            PendingNotice::ScopeMismatch => "memory_pending_scope_mismatch"@,
            PendingNotice::ActorMissing => "memory_pending_actor_missing"@,
            PendingNotice::ActorMismatch => "memory_pending_actor_mismatch"@,
            PendingNotice::Executing => "memory_pending_executing"@,
            PendingNotice::FailedCancelled => "memory_pending_failed_cancel"@,
            PendingNotice::Failed => "memory_pending_failed"@,
            PendingNotice::Cancelled => "memory_pending_cancelled"@,
            PendingNotice::Wait => "memory_pending_wait"@,
            PendingNotice::ClaimRejected => "memory_pending_claim_rejected"@,
        }
    }

    pub fn clears(self) -> (r: bool)
        ensures
            r == self.drops(),
    {
        match self {
            PendingNotice::Expired => true,
            PendingNotice::ScopeMismatch => true,
            PendingNotice::ActorMissing => true,
            PendingNotice::FailedCancelled => true,
            PendingNotice::Cancelled => true,
            _ => false,
        }
    }

    pub fn reply(self) -> (r: &'static str)
        ensures
            r@ == self.reply_text(),
    {
        match self {
            PendingNotice::Expired => "这条记忆操作已过期，没有执行。请重新发起。",
            PendingNotice::ScopeMismatch => "这条记忆操作的会话作用域已变化，没有执行。请重新发起。",
            PendingNotice::ActorMissing => "这条记忆操作缺少稳定 actor，已取消。",
            PendingNotice::ActorMismatch => "这个记忆草稿由其他成员发起，请由发起人继续。",
            PendingNotice::Executing => "这条记忆操作正在执行，请勿重复确认。",
            PendingNotice::FailedCancelled => "已清理执行失败的记忆操作，请重新发起。",
            PendingNotice::Failed => "这条记忆操作上次执行失败，没有重复执行。请回复“取消”后重新发起。",
            PendingNotice::Cancelled => "已取消，没有修改长期记忆。",
            PendingNotice::Wait => "当前有一条记忆操作等待确认。请回复“确认”或“取消”；也可以直接回复新内容修订草稿。",
            PendingNotice::ClaimRejected => "这条记忆操作已被处理或状态已变化，没有重复执行。",
        }
    }

    pub fn command(self) -> (r: &'static str)
        ensures
            r@ == self.command_text(),
    {
        match self {
            PendingNotice::Expired => "memory_pending_expired",
            PendingNotice::ScopeMismatch => "memory_pending_scope_mismatch",
            PendingNotice::ActorMissing => "memory_pending_actor_missing",
            PendingNotice::ActorMismatch => "memory_pending_actor_mismatch",
            PendingNotice::Executing => "memory_pending_executing",
            PendingNotice::FailedCancelled => "memory_pending_failed_cancel",
            PendingNotice::Failed => "memory_pending_failed",
            PendingNotice::Cancelled => "memory_pending_cancelled",
            PendingNotice::Wait => "memory_pending_wait",
            PendingNotice::ClaimRejected => "memory_pending_claim_rejected",
        }
    }
}

/// Whether the actor started the change and owns it.
pub open spec fn is_starter(p: PendingFacts, actor: MemoryActor) -> bool {
    text::opt_view(p.initiator_user_id) == Some(actor.user_id@) && text::opt_view(p.owner_key) == Some(
        actor.personal_scope_id@,
    )
}

/// How a waiting change goes on with the next message.
pub open spec fn next_step(p: PendingFacts, scope_key: Seq<char>, actor: Option<MemoryActor>, reply: PendingReplyKind) -> PendingStep {
    if p.expired {
        PendingStep::Notify(PendingNotice::Expired)
    } else if p.scope_key@ != scope_key {
        PendingStep::Notify(PendingNotice::ScopeMismatch)
    } else {
        match actor {
            None => PendingStep::Notify(PendingNotice::ActorMissing),
            Some(a) => if !is_starter(p, a) {
                PendingStep::Notify(PendingNotice::ActorMismatch)
            } else {
                match p.state {
                    PreparedActionState::Executing => PendingStep::Notify(PendingNotice::Executing),
                    PreparedActionState::Failed => if reply == PendingReplyKind::Cancel {
                        PendingStep::Notify(PendingNotice::FailedCancelled)
                    } else {
                        PendingStep::Notify(PendingNotice::Failed)
                    },
                    PreparedActionState::WaitingConfirmation => if p.asks_for_scope {
                        PendingStep::AskScope
                    } else {
                        match reply {
                            PendingReplyKind::Cancel => PendingStep::Notify(PendingNotice::Cancelled),
                            PendingReplyKind::Revise => PendingStep::Revise,
                            PendingReplyKind::Wait => PendingStep::Notify(PendingNotice::Wait),
                            PendingReplyKind::Confirm => PendingStep::Claim,
                        }
                    },
                }
            },
        }
    }
}

fn option_is(o: &Option<String>, s: &str) -> (r: bool)
    ensures
        r == (text::opt_view(*o) == Some(s@)),
{
    match o {
        Some(t) => text::same(t.as_str(), s),
        None => false,
    }
}

/// How a waiting memory change goes on with the user's next message.
pub fn handle_pending_memory_lifecycle(
    pending: &PendingFacts,
    session_scope_key: &str,
    actor: &Option<MemoryActor>,
    reply: PendingReplyKind,
) -> (r: PendingStep)
    ensures
        r == next_step(*pending, session_scope_key@, *actor, reply),
{
    if pending.expired {
        return PendingStep::Notify(PendingNotice::Expired);
    }
    if !text::same(pending.scope_key.as_str(), session_scope_key) {
        return PendingStep::Notify(PendingNotice::ScopeMismatch);
    }
    let a = match actor {
        Some(a) => a,
        None => {
            return PendingStep::Notify(PendingNotice::ActorMissing);
        },
    };
    if !option_is(&pending.initiator_user_id, a.user_id.as_str()) || !option_is(
        &pending.owner_key,
        a.personal_scope_id.as_str(),
    ) {
        return PendingStep::Notify(PendingNotice::ActorMismatch);
    }
    match pending.state {
        PreparedActionState::WaitingConfirmation => {},
        PreparedActionState::Executing => {
            return PendingStep::Notify(PendingNotice::Executing);
        },
        PreparedActionState::Failed => {
            if reply == PendingReplyKind::Cancel {
                return PendingStep::Notify(PendingNotice::FailedCancelled);
            }
            return PendingStep::Notify(PendingNotice::Failed);
        },
    }
    if pending.asks_for_scope {
        return PendingStep::AskScope;
    }
    match reply {
        PendingReplyKind::Cancel => PendingStep::Notify(PendingNotice::Cancelled),
        PendingReplyKind::Revise => PendingStep::Revise,
        PendingReplyKind::Wait => PendingStep::Notify(PendingNotice::Wait),
        PendingReplyKind::Confirm => PendingStep::Claim,
    }
}

/// What the user is told at the end, and whether the change is dropped.
#[derive(Debug)]
pub struct PendingAnswer {
    pub clears: bool,
    /// Whether the change is kept as failed.
    pub failed: bool,
    pub reply: String,
    pub command: &'static str,
}

pub open spec fn says(a: PendingAnswer, clears: bool, failed: bool, reply: Seq<char>, command: Seq<char>) -> bool {
    a.clears == clears && a.failed == failed && a.reply@ == reply && a.command@ == command
}

/// What follows from carrying a change out, or from being kept from it by a claim that
/// was not granted.
pub fn finish_pending_memory(claimed: bool, result: Result<String, MemoryError>) -> (r: PendingAnswer)
    ensures
        !claimed ==> says(
            r,
            false,
            false,
            PendingNotice::ClaimRejected.reply_text(),
            PendingNotice::ClaimRejected.command_text(),
        ),
        claimed ==> match result {
            Ok(reply) => says(r, true, false, reply@, "memory_pending_completed"@),
            Err(e) => says(
                r,
                false,
                true,
                "这条记忆操作执行失败，没有完成。错误："@ + e.message_text()
                    + "\n请回复“取消”后重新发起。"@,
                "memory_pending_execution_failed"@,
            ),
        },
{
    if !claimed {
        return PendingAnswer {
            clears: false,
            failed: false,
            reply: PendingNotice::ClaimRejected.reply().to_owned(),
            command: PendingNotice::ClaimRejected.command(),
        };
    }
    match result {
        Ok(reply) => PendingAnswer {
            clears: true,
            failed: false,
            reply,
            command: "memory_pending_completed",
        },
        Err(e) => {
            let mut reply = "这条记忆操作执行失败，没有完成。错误：".to_owned();
            reply.append(e.message());
            reply.append("\n请回复“取消”后重新发起。");
            PendingAnswer {
                clears: false,
                failed: true,
                reply,
                command: "memory_pending_execution_failed",
            }
        },
    }
}

// Where a memory belongs.

pub open spec fn scope_choice(s: Seq<char>) -> Option<MemoryKind> {
    let t = text::trim_set(text::trimmed(s), "。！!，,"@);
    if t == "个人"@ || t == "个人记忆"@ || t == "personal"@ {
        Some(MemoryKind::Personal)
    } else if t == "画像"@ || t == "群画像"@ || t == "群内画像"@ || t == "当前群画像"@ || t == "profile"@ {
        Some(MemoryKind::GroupProfile)
    } else if t == "群"@ || t == "群组"@ || t == "群记忆"@ || t == "群组记忆"@ || t == "group"@ {
        Some(MemoryKind::Group)
    } else {
        None
    }
}

pub fn parse_scope_choice(s: &str) -> (r: Option<MemoryKind>)
    ensures
        r == scope_choice(s@),
{
    let t = text::trim_chars(text::trim(s), "。！!，,");
    if text::same(t, "个人") || text::same(t, "个人记忆") || text::same(t, "personal") {
        Some(MemoryKind::Personal)
    } else if text::same(t, "画像") || text::same(t, "群画像") || text::same(t, "群内画像")
        || text::same(t, "当前群画像") || text::same(t, "profile") {
        Some(MemoryKind::GroupProfile)
    } else if text::same(t, "群") || text::same(t, "群组") || text::same(t, "群记忆")
        || text::same(t, "群组记忆") || text::same(t, "group") {
        Some(MemoryKind::Group)
    } else {
        None
    }
}

/// Whether the target is the one of this kind in the conversation; there is none where a
/// scope that it needs is unknown.
pub open spec fn is_target_for(
    target: Option<MemoryTarget>,
    kind: MemoryKind,
    personal: Option<Seq<char>>,
    group: Option<Seq<char>>,
) -> bool {
    match kind {
        MemoryKind::Personal => match (target, personal) {
            (Some(t), Some(p)) => t.scope_type == types::MemoryScopeType::Personal && t.scope_id@ == p
                && t.memory_kind == kind && t.subject_id is None,
            (None, None) => true,
            _ => false,
        },
        MemoryKind::GroupProfile => match (target, group, personal) {
            (Some(t), Some(g), Some(p)) => t.scope_type == types::MemoryScopeType::Group && t.scope_id@
                == g && t.memory_kind == kind && text::opt_view(t.subject_id) == Some(p),
            (None, g, p) => g is None || p is None,
            _ => false,
        },
        MemoryKind::Group => match (target, group) {
            (Some(t), Some(g)) => t.scope_type == types::MemoryScopeType::Group && t.scope_id@ == g
                && t.memory_kind == kind && t.subject_id is None,
            (None, None) => true,
            _ => false,
        },
        MemoryKind::LegacyUnassigned => target is None,
    }
}

pub fn target_for_kind(kind: MemoryKind, personal: Option<&str>, group: Option<&str>) -> (r: Option<MemoryTarget>)
    ensures
        is_target_for(r, kind, text::opt_str_view(personal), text::opt_str_view(group)),
{
    match kind {
        MemoryKind::Personal => match personal {
            Some(p) => Some(MemoryTarget::personal(p)),
            None => None,
        },
        MemoryKind::GroupProfile => match (group, personal) {
            (Some(g), Some(p)) => Some(MemoryTarget::group_profile(g, p)),
            _ => None,
        },
        MemoryKind::Group => match group {
            Some(g) => Some(MemoryTarget::group(g)),
            None => None,
        },
        MemoryKind::LegacyUnassigned => None,
    }
}

/// Whether the target is the one that the user has named.
pub open spec fn is_chosen(
    target: Option<MemoryTarget>,
    user_text: Seq<char>,
    personal: Option<Seq<char>>,
    group: Option<Seq<char>>,
) -> bool {
    match scope_choice(user_text) {
        Some(kind) => is_target_for(target, kind, personal, group),
        None => target is None,
    }
}

/// The answer to a request to save, as the user is told it.
pub open spec fn tells_saved(a: PendingAnswer, w: Result<MemoryWriteResult, MemoryError>) -> bool {
    match w {
        Ok(done) => says(
            a,
            true,
            false,
            receipt::saved_receipt(done.memory.memory_kind, done.memory.content@),
            "memory_saved"@,
        ),
        Err(e) => says(a, true, false, receipt::refusal(e.code_text()), "memory_write_failed"@),
    }
}

/// What the user's answer to the question where a memory belongs leads to.
pub open spec fn is_scope_answer(
    s: StoreView,
    t: StoreView,
    a: PendingAnswer,
    cancels: bool,
    user_text: Seq<char>,
    personal: Option<Seq<char>>,
    group: Option<Seq<char>>,
    actor: MemoryActor,
    content: Seq<char>,
    source_text: Seq<char>,
    source_ref: Option<Seq<char>>,
) -> bool {
    if cancels {
        t == s && says(a, true, false, "已取消，没有创建记忆草稿。"@, "memory_scope_cancelled"@)
    } else {
        exists|target: Option<MemoryTarget>| #[trigger]
            is_chosen(target, user_text, personal, group) && match target {
                None => t == s && says(
                    a,
                    false,
                    false,
                    "请只选择“个人”“画像”或“群组”；回复“取消”放弃。"@,
                    "memory_scope_clarify"@,
                ),
                Some(target) => if target.memory_kind == MemoryKind::Group
                    && !actor.can_manage_group_memory {
                    t == s && says(
                        a,
                        true,
                        false,
                        "群组公共记忆只能由当前群的群主或管理员保存，本次草稿未提交。"@,
                        "group_admin_required"@,
                    )
                } else {
                    exists|d: PreparedMemoryDraft, now: String, req: SaveMemoryRequest, w: Result<
                        MemoryWriteResult,
                        MemoryError,
                    >|
                        draft::is_prepared(d, target, content, source_text, source_ref, "create"@)
                            && #[trigger] d.as_save_request(actor, now, req) && #[trigger]
                        operations::save_answer(s, t, w, req) && tells_saved(a, w)
                },
            }
    }
}

/// Saves a memory whose place the user has now named.
pub fn handle_memory_scope_clarification(
    ops: &mut MemoryOperations,
    cancels: bool,
    user_text: &str,
    personal_scope_id: Option<&str>,
    group_scope_id: Option<&str>,
    actor: MemoryActor,
    normalized_content: String,
    source_text: String,
    source_ref: Option<String>,
) -> (r: PendingAnswer)
    requires
        old(ops).store@.wf(),
    ensures
        final(ops).store@.wf(),
        is_scope_answer(
            old(ops).store@,
            final(ops).store@,
            r,
            cancels,
            user_text@,
            text::opt_str_view(personal_scope_id),
            text::opt_str_view(group_scope_id),
            actor,
            normalized_content@,
            source_text@,
            text::opt_view(source_ref),
        ),
{
    if cancels {
        return PendingAnswer {
            clears: true,
            failed: false,
            reply: "已取消，没有创建记忆草稿。".to_owned(),
            command: "memory_scope_cancelled",
        };
    }
    let found = match parse_scope_choice(user_text) {
        Some(kind) => target_for_kind(kind, personal_scope_id, group_scope_id),
        None => None,
    };
    assert(is_chosen(
        found,
        user_text@,
        text::opt_str_view(personal_scope_id),
        text::opt_str_view(group_scope_id),
    ));
    let target = match found {
        Some(t) => t,
        None => {
            return PendingAnswer {
                clears: false,
                failed: false,
                reply: "请只选择“个人”“画像”或“群组”；回复“取消”放弃。".to_owned(),
                command: "memory_scope_clarify",
            };
        },
    };
    if target.memory_kind() == MemoryKind::Group && !actor.can_manage_group_memory {
        return PendingAnswer {
            clears: true,
            failed: false,
            reply: "群组公共记忆只能由当前群的群主或管理员保存，本次草稿未提交。".to_owned(),
            command: "group_admin_required",
        };
    }
    let d = draft::prepare_memory_draft(
        target,
        normalized_content,
        source_text,
        source_ref,
        "create",
    );
    let ghost gd = d;
    let now = outside::now_iso_cn();
    let ghost g_now = now;
    let req = d.into_save_request(actor, now);
    let ghost g_req = req;
    let w = ops.save(req);
    let ghost gw = w;
    assert(gd.as_save_request(actor, g_now, g_req));
    assert(operations::save_answer(old(ops).store@, ops.store@, gw, g_req));
    match w {
        Ok(done) => PendingAnswer {
            clears: true,
            failed: false,
            reply: receipt::format_memory_saved_reply(
                done.memory.memory_kind,
                done.memory.content.as_str(),
            ),
            command: "memory_saved",
        },
        Err(e) => PendingAnswer {
            clears: true,
            failed: false,
            reply: receipt::memory_write_error_reply(e.code()).to_owned(),
            command: "memory_write_failed",
        },
    }
}

// Revising.

/// What a revision leads to.
#[derive(Debug)]
pub enum Revision {
    /// The draft stays, and the user is told why.
    Unchanged { reply: &'static str, command: &'static str },
    /// The draft is replaced, and the user is asked again.
    Revised { payload: MemoryPendingPayload, confirmation: String },
}

/// What revising a waiting change with a text leads to, given the text with secrets masked.
pub open spec fn is_revision(
    r: Revision,
    user_text: Seq<char>,
    masked: Seq<char>,
    actor: MemoryActor,
    payload: MemoryPendingPayload,
    now: String,
) -> bool {
    if draft::is_sensitive(user_text, masked) {
        r matches Revision::Unchanged { reply, command } && reply@
            == "修订内容像是包含敏感信息，草稿未改变。请换一种内容或回复“取消”。"@ && command@
            == "memory_revision_sensitive"@
    } else {
        match payload {
            MemoryPendingPayload::Save { draft: d, .. } => r matches Revision::Revised {
                payload: MemoryPendingPayload::Save {
                    initiator_user_id,
                    owner_key,
                    draft: e,
                    created_at,
                },
                confirmation,
            } && initiator_user_id == actor.user_id && owner_key == actor.personal_scope_id
                && created_at == now && draft::is_prepared(
                e,
                d.target,
                text::trimmed(user_text),
                d.source_text@,
                text::opt_view(d.source_ref),
                "create"@,
            ) && confirmation@ == pending::confirmation(e),
            MemoryPendingPayload::Replace {
                record_id: id,
                expected_updated_at: at,
                expected_record: snapshot,
                draft: d,
                ..
            } => r matches Revision::Revised {
                payload: MemoryPendingPayload::Replace {
                    initiator_user_id,
                    owner_key,
                    record_id,
                    expected_updated_at,
                    expected_record,
                    draft: e,
                    created_at,
                },
                confirmation,
            } && initiator_user_id == actor.user_id && owner_key == actor.personal_scope_id
                && created_at == now && record_id == id && expected_updated_at == at
                && expected_record == snapshot && draft::is_prepared(
                e,
                d.target,
                text::trimmed(user_text),
                d.source_text@,
                text::opt_view(d.source_ref),
                "replace"@,
            ) && confirmation@ == pending::confirmation(e),
            _ => r matches Revision::Unchanged { reply, command } && reply@
                == "这类记忆操作不能通过文本修订，请回复“确认”或“取消”。"@ && command@
                == "memory_pending_wait"@,
        }
    }
}

/// Revises a waiting change at time `now`.
pub fn revise_pending_memory(
    user_text: &str,
    masked: &str,
    actor: MemoryActor,
    payload: MemoryPendingPayload,
    now: String,
) -> (r: Revision)
    ensures
        is_revision(r, user_text@, masked@, actor, payload, now),
{
    if draft::contains_sensitive_text(user_text, masked) {
        return Revision::Unchanged {
            reply: "修订内容像是包含敏感信息，草稿未改变。请换一种内容或回复“取消”。",
            command: "memory_revision_sensitive",
        };
    }
    match payload {
        MemoryPendingPayload::Save { draft: d, .. } => {
            let e = draft::prepare_memory_draft(
                d.target,
                text::trim(user_text).to_owned(),
                d.source_text,
                d.source_ref,
                "create",
            );
            let confirmation = pending::draft_confirmation_text(&e);
            Revision::Revised {
                payload: MemoryPendingPayload::Save {
                    initiator_user_id: actor.user_id,
                    owner_key: actor.personal_scope_id,
                    draft: e,
                    created_at: now,
                },
                confirmation,
            }
        },
        MemoryPendingPayload::Replace {
            record_id,
            expected_updated_at,
            expected_record,
            draft: d,
            ..
        } => {
            let e = draft::prepare_memory_draft(
                d.target,
                text::trim(user_text).to_owned(),
                d.source_text,
                d.source_ref,
                "replace",
            );
            let confirmation = pending::draft_confirmation_text(&e);
            Revision::Revised {
                payload: MemoryPendingPayload::Replace {
                    initiator_user_id: actor.user_id,
                    owner_key: actor.personal_scope_id,
                    record_id,
                    expected_updated_at,
                    expected_record,
                    draft: e,
                    created_at: now,
                },
                confirmation,
            }
        },
        _ => Revision::Unchanged {
            reply: "这类记忆操作不能通过文本修订，请回复“确认”或“取消”。",
            command: "memory_pending_wait",
        },
    }
}

// Carrying out.

/// The answer that the user gets where an operation succeeded with this text.
pub open spec fn relays<T>(r: Result<String, MemoryError>, done: Result<T, MemoryError>, reply: Seq<char>) -> bool {
    match (r, done) {
        (Ok(s), Ok(_)) => s@ == reply,
        (Err(a), Err(b)) => a == b,
        _ => false,
    }
}

pub open spec fn lost_snapshot(r: Result<String, MemoryError>) -> bool {
    types::refused(r, "memory_changed"@, "记忆状态已变化，请重新查看列表后操作"@)
}

/// What carrying out a waiting change leaves and returns.
pub open spec fn is_executed(
    s: StoreView,
    t: StoreView,
    r: Result<String, MemoryError>,
    actor: MemoryActor,
    payload: MemoryPendingPayload,
) -> bool {
    match payload {
        MemoryPendingPayload::Save { draft: d, .. } => exists|
            now: String,
            req: SaveMemoryRequest,
            w: Result<MemoryWriteResult, MemoryError>,
        |
            #[trigger] d.as_save_request(actor, now, req) && #[trigger] operations::save_answer(
                s,
                t,
                w,
                req,
            ) && relays(
                r,
                w,
                "已保存"@ + pending::kind_title(w->Ok_0.memory.memory_kind) + "："@
                    + w->Ok_0.memory.content@,
            ),
        MemoryPendingPayload::Replace { record_id, expected_record, draft: d, .. } => match expected_record {
            None => t == s && lost_snapshot(r),
            Some(expected) => exists|
                now: String,
                req: SaveMemoryRequest,
                w: Result<MemoryWriteResult, MemoryError>,
            |
                #[trigger] d.as_save_request(actor, now, req) && #[trigger] operations::replace_answer(
                    s,
                    t,
                    w,
                    record_id@,
                    expected,
                    req,
                ) && relays(r, w, "已纠正记忆："@ + w->Ok_0.memory.content@),
        },
        MemoryPendingPayload::Delete { target, record_id, expected_record, .. } => match expected_record {
            None => t == s && lost_snapshot(r),
            Some(expected) => exists|w: Result<MemoryMutationResult, MemoryError>| #[trigger]
                operations::delete_answer(s, t, w, actor, target, record_id@, expected) && relays(
                    r,
                    w,
                    "已删除这条记忆。"@,
                ),
        },
        MemoryPendingPayload::Clear { target, record_ids, scope_label, .. } => exists|
            w: Result<MemoryMutationResult, MemoryError>,
        | #[trigger]
            operations::clear_answer(s, t, w, actor, target, text::views(record_ids@)) && relays(
                r,
                w,
                "已清空"@ + scope_label@ + "中的 "@ + text::decimal(w->Ok_0.count as nat)
                    + " 条记忆。"@,
            ),
        MemoryPendingPayload::SetProfileEnabled {
            target,
            enabled,
            expected_enabled,
            record_ids,
            ..
        } => exists|w: Result<ProfilePreferenceResult, MemoryError>| #[trigger]
            operations::choice_answer(
                s,
                t,
                w,
                actor,
                target,
                enabled,
                expected_enabled,
                text::views(record_ids@),
            ) && relays(
                r,
                w,
                if enabled {
                    "已重新授权当前群保存你的群内画像。"@
                } else {
                    "已停止当前群保存你的画像，并归档 "@ + text::decimal(
                        w->Ok_0.archived_ids@.len(),
                    ) + " 条画像记忆。"@
                },
            ),
        MemoryPendingPayload::ClarifyScope { .. } => t == s && types::refused(
            r,
            "memory_scope_unresolved"@,
            "记忆范围仍未明确"@,
        ),
    }
}

fn snapshot_missing() -> (r: MemoryError)
    ensures
        r.code_text() == "memory_changed"@,
        r.message_text() == "记忆状态已变化，请重新查看列表后操作"@,
{
    MemoryError::changed("记忆状态已变化，请重新查看列表后操作")
}

/// Carries out a waiting change for the actor and returns what the user is told.
pub fn execute_pending_memory(ops: &mut MemoryOperations, actor: &MemoryActor, payload: MemoryPendingPayload) -> (r: Result<
    String,
    MemoryError,
>)
    requires
        old(ops).store@.wf(),
    ensures
        final(ops).store@.wf(),
        is_executed(old(ops).store@, final(ops).store@, r, *actor, payload),
{
    let ghost s = ops.store@;
    match payload {
        MemoryPendingPayload::Save { draft: d, .. } => {
            let ghost gd = d;
            let now = outside::now_iso_cn();
            let ghost g_now = now;
            let req = d.into_save_request(actor.clone(), now);
            let ghost g_req = req;
            let w = ops.save(req);
            assert(gd.as_save_request(*actor, g_now, g_req));
            assert(operations::save_answer(s, ops.store@, w, g_req));
            match w {
                Ok(done) => {
                    let mut reply = "已保存".to_owned();
                    reply.append(pending::kind_label(done.memory.memory_kind));
                    reply.append("：");
                    reply.append(done.memory.content.as_str());
                    Ok(reply)
                },
                Err(e) => Err(e),
            }
        },
        MemoryPendingPayload::Replace { record_id, expected_record, draft: d, .. } => {
            let expected = match expected_record {
                Some(e) => e,
                None => {
                    return Err(snapshot_missing());
                },
            };
            let ghost gd = d;
            let now = outside::now_iso_cn();
            let ghost g_now = now;
            let req = d.into_save_request(actor.clone(), now);
            let ghost g_req = req;
            let w = ops.replace_if_unchanged(record_id.as_str(), &expected, req);
            assert(gd.as_save_request(*actor, g_now, g_req));
            assert(operations::replace_answer(s, ops.store@, w, record_id@, expected, g_req));
            match w {
                Ok(done) => {
                    let mut reply = "已纠正记忆：".to_owned();
                    reply.append(done.memory.content.as_str());
                    Ok(reply)
                },
                Err(e) => Err(e),
            }
        },
        MemoryPendingPayload::Delete { target, record_id, expected_record, .. } => {
            let expected = match expected_record {
                Some(e) => e,
                None => {
                    return Err(snapshot_missing());
                },
            };
            let w = ops.delete_if_unchanged(actor, &target, record_id.as_str(), &expected);
            assert(operations::delete_answer(
                s,
                ops.store@,
                w,
                *actor,
                target,
                record_id@,
                expected,
            ));
            match w {
                Ok(_) => Ok("已删除这条记忆。".to_owned()),
                Err(e) => Err(e),
            }
        },
        MemoryPendingPayload::Clear { target, record_ids, scope_label, .. } => {
            let w = ops.clear_if_unchanged(actor, &target, &record_ids);
            assert(operations::clear_answer(
                s,
                ops.store@,
                w,
                *actor,
                target,
                text::views(record_ids@),
            ));
            match w {
                Ok(done) => {
                    let mut reply = "已清空".to_owned();
                    reply.append(scope_label.as_str());
                    reply.append("中的 ");
                    reply.append(text::decimal_string(done.count as u64).as_str());
                    reply.append(" 条记忆。");
                    Ok(reply)
                },
                Err(e) => Err(e),
            }
        },
        MemoryPendingPayload::SetProfileEnabled {
            target,
            enabled,
            expected_enabled,
            record_ids,
            ..
        } => {
            let w = ops.set_group_profile_enabled_if_unchanged(
                actor,
                &target,
                enabled,
                expected_enabled,
                &record_ids,
            );
            assert(operations::choice_answer(
                s,
                ops.store@,
                w,
                *actor,
                target,
                enabled,
                expected_enabled,
                text::views(record_ids@),
            ));
            match w {
                Ok(done) => {
                    if done.enabled {
                        Ok("已重新授权当前群保存你的群内画像。".to_owned())
                    } else {
                        let mut reply = "已停止当前群保存你的画像，并归档 ".to_owned();
                        reply.append(
                            text::decimal_string(done.archived_ids.len() as u64).as_str(),
                        );
                        reply.append(" 条画像记忆。");
                        Ok(reply)
                    }
                },
                Err(e) => Err(e),
            }
        },
        MemoryPendingPayload::ClarifyScope { .. } => Err(MemoryError::scope_unresolved()),
    }
}

// Laws.

/// Nobody but the one who started a change moves it on, and nothing but a confirmation in
/// its own conversation, in time and while it waits, leads to carrying it out.
pub proof fn only_the_starter_confirms(p: PendingFacts, scope_key: Seq<char>, actor: Option<MemoryActor>, reply: PendingReplyKind)
    requires
        next_step(p, scope_key, actor, reply) !is Notify,
    ensures
        !p.expired,
        p.scope_key@ == scope_key,
        actor is Some,
        is_starter(p, actor->0),
        p.state == PreparedActionState::WaitingConfirmation,
        next_step(p, scope_key, actor, reply) is Claim ==> reply == PendingReplyKind::Confirm
            && !p.asks_for_scope,
{
}

/// A change that is being carried out or has failed is never carried out again.
pub proof fn a_change_is_carried_out_at_most_once(
    p: PendingFacts,
    scope_key: Seq<char>,
    actor: Option<MemoryActor>,
    reply: PendingReplyKind,
)
    requires
        p.state != PreparedActionState::WaitingConfirmation,
    ensures
        next_step(p, scope_key, actor, reply) is Notify,
{
}

/// Somebody else's message neither drops nor changes a waiting change.
pub proof fn others_cannot_drop_a_change(p: PendingFacts, scope_key: Seq<char>, actor: MemoryActor, reply: PendingReplyKind)
    requires
        !p.expired,
        p.scope_key@ == scope_key,
        !is_starter(p, actor),
    ensures
        next_step(p, scope_key, Some(actor), reply) == PendingStep::Notify(
            PendingNotice::ActorMismatch,
        ),
        !PendingNotice::ActorMismatch.drops(),
{
}

} // verus!
