//! The tool by which a model saves what a user has asked to be remembered. The model only
//! proposes: whether, where and on whose behalf something is saved is decided here.
use vstd::prelude::*;
use vstd::string::*;

use crate::json;
use crate::json::{Json, Shape};
use crate::memory::draft;
use crate::memory::operations;
use crate::memory::operations::MemoryOperations;
use crate::memory::pending::{MemoryPendingPayload, PreparedMemoryDraft};
use crate::memory::receipt;
use crate::memory::store::{MemoryStore, StoreView};
use crate::memory::types;
use crate::memory::types::{
    MemoryActor, MemoryError, MemoryKind, MemoryScopeType, MemoryTarget, MemoryWriteResult,
    SaveMemoryRequest,
};
use crate::outside;
use crate::text;

verus! {

/// Where a conversation takes place.
#[derive(Debug, Clone, Copy, PartialEq, Eq, Structural)]
pub enum ConversationKind {
    Private,
    Group,
    ServiceAccount,
    Channel,
    Unknown,
}

/// What is known of a call of the tool.
#[derive(Debug)]
pub struct SaveCall {
    /// Whether the user's message says that nothing is to be saved.
    pub negated: bool,
    /// The user's message with secrets masked.
    pub source_masked: String,
    /// What the model wants saved.
    pub content: Option<String>,
    /// The same with secrets masked.
    pub content_masked: String,
    /// The same without markup.
    pub plain: String,
    /// The cleaned text with secrets masked.
    pub draft_masked: String,
    pub actor: Option<MemoryActor>,
    pub conversation: ConversationKind,
    /// What the user's own words say about where the memory belongs.
    pub inferred_kind: Option<MemoryKind>,
    /// Where the model thinks that it belongs.
    pub suggested: Option<String>,
    pub tool_call_id: Option<String>,
    pub task_id: String,
    /// Whether another change already waits for the user.
    pub has_pending: bool,
}

/// What a call of the tool leads to.
#[derive(Debug)]
pub enum SaveOutcome {
    Failed { code: String, message: String },
    /// The user is asked where the memory belongs.
    AskScope { payload: MemoryPendingPayload },
    Saved { result: MemoryWriteResult },
}

pub const SCOPE_QUESTION: &'static str = "这条记忆是对所有聊天生效，还是只在当前群使用？请回复“个人”“画像”或“群组”。";

pub open spec fn fails(o: SaveOutcome, code: Seq<char>, message: Seq<char>) -> bool {
    o matches SaveOutcome::Failed { code: c, message: m } && c@ == code && m@ == message
}

fn failure(code: &str, message: &str) -> (r: SaveOutcome)
    ensures
        fails(r, code@, message@),
{
    SaveOutcome::Failed { code: code.to_owned(), message: message.to_owned() }
}

// Where a memory belongs.

/// The kind that a proposal names; `auto` names none.
pub open spec fn suggested_kind(s: Seq<char>) -> Option<Option<MemoryKind>> {
    if s == "personal"@ {
        Some(Some(MemoryKind::Personal))
    } else if s == "profile"@ {
        Some(Some(MemoryKind::GroupProfile))
    } else if s == "group"@ {
        Some(Some(MemoryKind::Group))
    } else if s == "auto"@ {
        Some(None)
    } else {
        None
    }
}

fn parse_suggestion(s: &str) -> (r: Option<Option<MemoryKind>>)
    ensures
        r == suggested_kind(s@),
{
    if text::same(s, "personal") {
        Some(Some(MemoryKind::Personal))
    } else if text::same(s, "profile") {
        Some(Some(MemoryKind::GroupProfile))
    } else if text::same(s, "group") {
        Some(Some(MemoryKind::Group))
    } else if text::same(s, "auto") {
        Some(None)
    } else {
        None
    }
}

/// Whether the target holds the actor's own memories of this kind.
pub open spec fn is_own_target(t: MemoryTarget, kind: MemoryKind, actor: MemoryActor) -> bool {
    match kind {
        MemoryKind::Personal => t.scope_type == MemoryScopeType::Personal && t.scope_id@
            == actor.personal_scope_id@ && t.memory_kind == kind && t.subject_id is None,
        MemoryKind::GroupProfile => t.scope_type == MemoryScopeType::Group && Some(t.scope_id@)
            == text::opt_view(actor.group_scope_id) && t.memory_kind == kind && text::opt_view(
            t.subject_id,
        ) == Some(actor.personal_scope_id@),
        MemoryKind::Group => t.scope_type == MemoryScopeType::Group && Some(t.scope_id@)
            == text::opt_view(actor.group_scope_id) && t.memory_kind == kind && t.subject_id is None,
        MemoryKind::LegacyUnassigned => false,
    }
}

/// Where a memory goes. In a group the user's own words decide: a proposal that
/// contradicts them, or words that do not tell, lead to a question.
pub open spec fn is_resolution(
    r: Result<Option<MemoryTarget>, &'static str>,
    conversation: ConversationKind,
    actor: MemoryActor,
    inferred: Option<MemoryKind>,
    suggested: Seq<char>,
) -> bool {
    match conversation {
        ConversationKind::Private | ConversationKind::ServiceAccount => if suggested == "auto"@
            || suggested == "personal"@ {
            r matches Ok(Some(t)) && is_own_target(t, MemoryKind::Personal, actor)
        } else {
            r matches Err(code) && code@ == "memory_scope_unsupported"@
        },
        ConversationKind::Group => match suggested_kind(suggested) {
            None => r matches Err(code) && code@ == "bad_tool_arguments"@,
            Some(proposal) => match inferred {
                None => r matches Ok(t) && t is None,
                Some(kind) => if proposal is Some && proposal != Some(kind) {
                    r matches Ok(t) && t is None
                } else if kind == MemoryKind::LegacyUnassigned || (kind != MemoryKind::Personal
                    && actor.group_scope_id is None) {
                    r matches Err(code) && code@ == "memory_scope_unsupported"@
                } else {
                    r matches Ok(Some(t)) && is_own_target(t, kind, actor)
                },
            },
        },
        ConversationKind::Channel | ConversationKind::Unknown => r matches Err(code) && code@
            == "memory_scope_unsupported"@,
    }
}

pub fn resolve_target(
    conversation: ConversationKind,
    actor: &MemoryActor,
    inferred_kind: Option<MemoryKind>,
    suggested: &str,
) -> (r: Result<Option<MemoryTarget>, &'static str>)
    ensures
        is_resolution(r, conversation, *actor, inferred_kind, suggested@),
{
    match conversation {
        ConversationKind::Channel => Err("memory_scope_unsupported"),
        ConversationKind::Unknown => Err("memory_scope_unsupported"),
        ConversationKind::Group => {
            let proposal = match parse_suggestion(suggested) {
                Some(p) => p,
                None => {
                    return Err("bad_tool_arguments");
                },
            };
            let kind = match inferred_kind {
                Some(k) => k,
                None => {
                    return Ok(None);
                },
            };
            match proposal {
                Some(p) => {
                    if p != kind {
                        return Ok(None);
                    }
                },
                None => {},
            }
            match kind {
                MemoryKind::Personal => Ok(
                    Some(MemoryTarget::personal(actor.personal_scope_id.as_str())),
                ),
                MemoryKind::GroupProfile => match &actor.group_scope_id {
                    Some(g) => Ok(
                        Some(
                            MemoryTarget::group_profile(
                                g.as_str(),
                                actor.personal_scope_id.as_str(),
                            ),
                        ),
                    ),
                    None => Err("memory_scope_unsupported"),
                },
                MemoryKind::Group => match &actor.group_scope_id {
                    Some(g) => Ok(Some(MemoryTarget::group(g.as_str()))),
                    None => Err("memory_scope_unsupported"),
                },
                MemoryKind::LegacyUnassigned => Err("memory_scope_unsupported"),
            }
        },
        _ => {
            if !text::same(suggested, "auto") && !text::same(suggested, "personal") {
                return Err("memory_scope_unsupported");
            }
            Ok(Some(MemoryTarget::personal(actor.personal_scope_id.as_str())))
        },
    }
}

// The source of a memory.

pub open spec fn is_ref_char(c: char) -> bool {
    text::is_digit(c) || text::is_ascii_letter(c) || c == '_' || c == '-' || c == ':' || c == '.'
}

/// Whether the text can stand in a reference.
pub open spec fn is_ref(s: Seq<char>) -> bool {
    0 < s.len() <= 200 && forall|i: int| 0 <= i < s.len() ==> is_ref_char(#[trigger] s[i])
}

/// The reference to the call: its own identifier where it has one, else the task's.
pub open spec fn source_ref(tool_call_id: Option<Seq<char>>, task_id: Seq<char>) -> Option<Seq<char>> {
    let id = text::trimmed(match tool_call_id {
        Some(id) => id,
        None => task_id,
    });
    if is_ref(id) {
        Some("tool:"@ + id)
    } else {
        None
    }
}

pub fn safe_source_ref(tool_call_id: &Option<String>, task_id: &str) -> (r: Option<String>)
    ensures
        text::opt_view(r) == source_ref(text::opt_view(*tool_call_id), task_id@),
{
    let raw = match tool_call_id {
        Some(id) => id.as_str(),
        None => task_id,
    };
    let id = text::trim(raw);
    let v = text::chars_of(id);
    if v.len() == 0 || v.len() > 200 {
        return None;
    }
    let mut i: usize = 0;
    while i < v.len()
        invariant
            0 <= i <= v@.len(),
            v@ == id@,
            id@ == text::trimmed(
                match text::opt_view(*tool_call_id) {
                    Some(t) => t,
                    None => task_id@,
                },
            ),
            forall|k: int| 0 <= k < i ==> is_ref_char(#[trigger] v@[k]),
        decreases v@.len() - i,
    {
        let c = v[i];
        if !(text::is_ascii_digit(c) || text::is_ascii_alphabetic(c) || c == '_' || c == '-' || c
            == ':' || c == '.') {
            assert(!is_ref_char(id@[i as int]));
            return None;
        }
        i += 1;
    }
    let mut s = "tool:".to_owned();
    s.append(id);
    Some(s)
}

// The tool.

#[derive(Debug)]
pub struct SaveMemoryTool {
    pub ops: MemoryOperations,
    pub source_text: Option<String>,
}

pub open spec fn text_or_empty(o: Option<String>) -> Seq<char> {
    match o {
        Some(s) => s@,
        None => Seq::empty(),
    }
}

fn or_empty<'a>(o: &'a Option<String>) -> (r: &'a str)
    ensures
        r@ == text_or_empty(*o),
{
    match o {
        Some(s) => s.as_str(),
        None => {
            proof {
                reveal_strlit("");
                assert(""@ =~= Seq::<char>::empty());
            }
            ""
        },
    }
}

/// The proposal of a call; without one it is `auto`.
pub open spec fn proposal(call: SaveCall) -> Seq<char> {
    match call.suggested {
        Some(s) => s@,
        None => "auto"@,
    }
}

/// The text that a call saves, if it can be saved.
pub open spec fn call_text(call: SaveCall) -> Option<Seq<char>> {
    match draft::sanitized(text_or_empty(call.content), call.plain@) {
        Some(d) => if draft::acceptable(d, call.draft_masked@) {
            Some(d)
        } else {
            None
        },
        None => None,
    }
}

/// What the question where a memory belongs leads to.
pub open spec fn is_question(o: SaveOutcome, call: SaveCall, actor: MemoryActor, content: Seq<char>, source: Seq<char>) -> bool {
    if call.conversation != ConversationKind::Group {
        fails(o, "memory_scope_unsupported"@, receipt::refusal("memory_scope_unsupported"@))
    } else if call.has_pending {
        fails(o, "memory_pending_conflict"@, receipt::refusal("memory_pending_conflict"@))
    } else {
        o matches SaveOutcome::AskScope { payload } && payload matches MemoryPendingPayload::ClarifyScope {
            initiator_user_id,
            owner_key,
            normalized_content,
            source_text,
            source_ref: r,
            created_at,
        } && initiator_user_id == actor.user_id && owner_key == actor.personal_scope_id
            && normalized_content@ == content && source_text@ == source && text::opt_view(r)
            == source_ref(text::opt_view(call.tool_call_id), call.task_id@)
    }
}

/// What saving a text for a target leads to.
pub open spec fn is_saved(
    s: StoreView,
    t: StoreView,
    o: SaveOutcome,
    call: SaveCall,
    actor: MemoryActor,
    target: MemoryTarget,
    content: Seq<char>,
    source: Seq<char>,
) -> bool {
    if target.memory_kind == MemoryKind::Group && !actor.can_manage_group_memory {
        t == s && fails(o, "group_admin_required"@, receipt::refusal("group_admin_required"@))
    } else {
        exists|d: PreparedMemoryDraft, now: String, req: SaveMemoryRequest, w: Result<
            MemoryWriteResult,
            MemoryError,
        >|
            draft::is_prepared(
                d,
                target,
                content,
                source,
                source_ref(text::opt_view(call.tool_call_id), call.task_id@),
                "create"@,
            ) && #[trigger] d.as_save_request(actor, now, req) && #[trigger] operations::save_answer(
                s,
                t,
                w,
                req,
            ) && match w {
                Ok(done) => o matches SaveOutcome::Saved { result } && result == done,
                Err(e) => fails(o, e.code_text(), receipt::refusal(e.code_text())),
            }
    }
}

/// What a call of the tool leaves and leads to.
pub open spec fn is_call(s: StoreView, t: StoreView, o: SaveOutcome, message: Option<String>, call: SaveCall) -> bool {
    let source = text::trimmed(text_or_empty(message));
    let raw = text_or_empty(call.content);
    if source.len() == 0 || call.negated {
        t == s && fails(
            o,
            "memory_intent_required"@,
            "当前消息没有明确要求写入长期记忆，本次未保存。"@,
        )
    } else if draft::is_sensitive(source, call.source_masked@) || draft::is_sensitive(
        raw,
        call.content_masked@,
    ) {
        t == s && fails(
            o,
            "memory_sensitive_rejected"@,
            receipt::refusal("memory_sensitive_rejected"@),
        )
    } else {
        match call_text(call) {
            None => t == s && fails(
                o,
                "bad_tool_arguments"@,
                "记忆内容为空或格式不受支持，本次未保存。"@,
            ),
            Some(content) => match call.actor {
                None => t == s && fails(
                    o,
                    "memory_actor_missing"@,
                    receipt::refusal("memory_actor_missing"@),
                ),
                Some(actor) => exists|r: Result<Option<MemoryTarget>, &'static str>| #[trigger]
                    is_resolution(
                        r,
                        call.conversation,
                        actor,
                        call.inferred_kind,
                        proposal(call),
                    ) && match r {
                        Err(code) => t == s && fails(o, code@, receipt::refusal(code@)),
                        Ok(None) => t == s && is_question(o, call, actor, content, source),
                        Ok(Some(target)) => is_saved(s, t, o, call, actor, target, content, source),
                    },
            },
        }
    }
}

fn ask_scope(call: &SaveCall, actor: &MemoryActor, content: String, source: &str) -> (r: SaveOutcome)
    ensures
        is_question(r, *call, *actor, content@, source@),
{
    if call.conversation != ConversationKind::Group {
        return failure(
            "memory_scope_unsupported",
            receipt::memory_write_error_reply("memory_scope_unsupported"),
        );
    }
    if call.has_pending {
        return failure(
            "memory_pending_conflict",
            receipt::memory_write_error_reply("memory_pending_conflict"),
        );
    }
    SaveOutcome::AskScope {
        payload: MemoryPendingPayload::ClarifyScope {
            initiator_user_id: actor.user_id.clone(),
            owner_key: actor.personal_scope_id.clone(),
            normalized_content: content,
            source_text: source.to_owned(),
            source_ref: safe_source_ref(&call.tool_call_id, call.task_id.as_str()),
            created_at: outside::now_iso_cn(),
        },
    }
}

impl SaveMemoryTool {
    pub fn new(memory_store: MemoryStore) -> (r: Self)
        ensures
            r.ops.store == memory_store,
            r.source_text is None,
    {
        SaveMemoryTool { ops: MemoryOperations::new(memory_store), source_text: None }
    }

    /// The tool for one message of the user.
    pub fn scoped_for_request(self, source_text: String) -> (r: Self)
        ensures
            r.ops == self.ops,
            r.source_text == Some(source_text),
    {
        SaveMemoryTool { ops: self.ops, source_text: Some(source_text) }
    }

    /// Saves what the model proposes, if the user's message asks for it.
    pub fn execute(&mut self, call: &SaveCall) -> (r: SaveOutcome)
        requires
            old(self).ops.store@.wf(),
        ensures
            final(self).ops.store@.wf(),
            final(self).source_text == old(self).source_text,
            is_call(
                old(self).ops.store@,
                final(self).ops.store@,
                r,
                old(self).source_text,
                *call,
            ),
    {
        let source = text::trim(or_empty(&self.source_text)).to_owned();
        let source = source.as_str();
        if source.unicode_len() == 0 || call.negated {
            return failure(
                "memory_intent_required",
                "当前消息没有明确要求写入长期记忆，本次未保存。",
            );
        }
        let raw = or_empty(&call.content);
        if draft::contains_sensitive_text(source, call.source_masked.as_str())
            || draft::contains_sensitive_text(raw, call.content_masked.as_str()) {
            return failure(
                "memory_sensitive_rejected",
                receipt::memory_write_error_reply("memory_sensitive_rejected"),
            );
        }
        let content = match draft::sanitize_memory_content(raw, call.plain.as_str()) {
            Some(d) => draft::accept_draft(d, call.draft_masked.as_str()),
            None => None,
        };
        let content = match content {
            Some(c) => c,
            None => {
                return failure(
                    "bad_tool_arguments",
                    "记忆内容为空或格式不受支持，本次未保存。",
                );
            },
        };
        let actor = match &call.actor {
            Some(a) => a,
            None => {
                return failure(
                    "memory_actor_missing",
                    receipt::memory_write_error_reply("memory_actor_missing"),
                );
            },
        };
        let suggested = match &call.suggested {
            Some(s) => s.as_str(),
            None => "auto",
        };
        let resolved = resolve_target(call.conversation, actor, call.inferred_kind, suggested);
        assert(is_resolution(
            resolved,
            call.conversation,
            *actor,
            call.inferred_kind,
            proposal(*call),
        ));
        let target = match resolved {
            Ok(Some(t)) => t,
            Ok(None) => {
                return ask_scope(call, actor, content, source);
            },
            Err(code) => {
                return failure(code, receipt::memory_write_error_reply(code));
            },
        };
        if target.memory_kind() == MemoryKind::Group && !actor.can_manage_group_memory {
            return failure(
                "group_admin_required",
                receipt::memory_write_error_reply("group_admin_required"),
            );
        }
        let d = draft::prepare_memory_draft(
            target,
            content,
            source.to_owned(),
            safe_source_ref(&call.tool_call_id, call.task_id.as_str()),
            "create",
        );
        let ghost gd = d;
        let now = outside::now_iso_cn();
        let ghost g_now = now;
        let req = d.into_save_request(actor.clone(), now);
        let ghost g_req = req;
        let w = self.ops.save(req);
        assert(gd.as_save_request(*actor, g_now, g_req));
        assert(operations::save_answer(old(self).ops.store@, self.ops.store@, w, g_req));
        match w {
            Ok(result) => SaveOutcome::Saved { result },
            Err(e) => failure(e.code(), receipt::memory_write_error_reply(e.code())),
        }
    }
}

// What the tool reports.

pub open spec fn outcome_shape(o: SaveOutcome) -> Shape {
    match o {
        SaveOutcome::Failed { code, message } => Shape::Object(
            seq![
                ("error_code"@, Shape::Text(code@)),
                ("message"@, Shape::Text(message@)),
                ("ok"@, Shape::Bool(false)),
            ],
        ),
        SaveOutcome::AskScope { .. } => Shape::Object(
            seq![
                ("error_code"@, Shape::Text("memory_scope_ambiguous"@)),
                ("ok"@, Shape::Bool(false)),
                ("question"@, Shape::Text(SCOPE_QUESTION@)),
                ("requires_clarification"@, Shape::Bool(true)),
            ],
        ),
        SaveOutcome::Saved { result } => Shape::Object(
            seq![
                ("archived_conflicts"@, Shape::Whole(result.archived_ids@.len() as u64)),
                ("content"@, Shape::Text(result.memory.content@)),
                ("ok"@, Shape::Bool(true)),
                ("scope"@, Shape::Text(result.memory.memory_kind.name())),
                ("scope_label"@, Shape::Text(receipt::receipt_title(result.memory.memory_kind))),
            ],
        ),
    }
}

/// The report of a call.
pub fn outcome_output(o: &SaveOutcome) -> (r: Json)
    ensures
        r.shape() == outcome_shape(*o),
{
    let mut e: Vec<(String, Json)> = Vec::new();
    match o {
        SaveOutcome::Failed { code, message } => {
            json::put(&mut e, "error_code", Json::Text(code.clone()));
            json::put(&mut e, "message", Json::Text(message.clone()));
            json::put(&mut e, "ok", Json::Bool(false));
        },
        SaveOutcome::AskScope { .. } => {
            json::put(&mut e, "error_code", json::text_value("memory_scope_ambiguous"));
            json::put(&mut e, "ok", Json::Bool(false));
            json::put(&mut e, "question", json::text_value(SCOPE_QUESTION));
            json::put(&mut e, "requires_clarification", Json::Bool(true));
        },
        SaveOutcome::Saved { result } => {
            let kind = result.memory.memory_kind;
            json::put(&mut e, "archived_conflicts", Json::Whole(result.archived_ids.len() as u64));
            json::put(&mut e, "content", Json::Text(result.memory.content.clone()));
            json::put(&mut e, "ok", Json::Bool(true));
            json::put(&mut e, "scope", json::text_value(kind.as_str()));
            json::put(&mut e, "scope_label", json::text_value(receipt::memory_kind_label(kind)));
        },
    }
    assert(json::entry_shapes(e@) =~= outcome_shape(*o)->Object_0);
    Json::Object(e)
}

// Who calls.

/// The conversation that a call comes from, and what is known of its scopes.
#[derive(Debug)]
pub struct CallContext {
    pub user_id: Option<String>,
    pub kind: ConversationKind,
    pub target_id: Option<String>,
    pub scope_id: String,
    pub interaction_scope_id: String,
    /// Whether the scope has a stable key.
    pub has_stable_scope: bool,
    /// The key of the user's own interaction within the scope.
    pub own_interaction_scope_id: String,
    pub personal_scope_id: Option<String>,
    pub group_scope_id: Option<String>,
    pub can_manage_group_memory: bool,
}

/// Where an interaction of the user is kept.
#[derive(Debug)]
pub struct InteractionMeta {
    pub scope_id: String,
    pub user_id: String,
    pub group_id: Option<String>,
}

/// The scope of the interaction. In a group with a stable key, members share the scope of the
/// conversation, so that the user's own one is taken in its place.
pub open spec fn interaction_scope(context: CallContext) -> String {
    if context.kind == ConversationKind::Group && context.interaction_scope_id@ == context.scope_id@
        && context.has_stable_scope {
        context.own_interaction_scope_id
    } else {
        context.interaction_scope_id
    }
}

pub open spec fn is_actor_and_meta(r: Option<(MemoryActor, InteractionMeta)>, context: CallContext) -> bool {
    match text::cleaned_opt(text::opt_view(context.user_id)) {
        None => r is None,
        Some(user_id) => match context.personal_scope_id {
            None => r is None,
            Some(personal) => {
                &&& r matches Some((actor, meta))
                &&& actor.user_id@ == user_id
                &&& actor.personal_scope_id@ == personal@
                &&& text::opt_view(actor.group_scope_id) == text::opt_view(context.group_scope_id)
                &&& actor.can_manage_group_memory == context.can_manage_group_memory
                &&& meta.scope_id == interaction_scope(context)
                &&& meta.user_id@ == user_id
                &&& meta.group_id == (if context.kind == ConversationKind::Group {
                    context.target_id
                } else {
                    None
                })
            },
        },
    }
}

/// Who calls, and where the interaction is kept; nothing without a user or a personal scope.
pub fn actor_and_meta(context: &CallContext) -> (r: Option<(MemoryActor, InteractionMeta)>)
    ensures
        is_actor_and_meta(r, *context),
{
    let user_id = match text::clean_option(&context.user_id) {
        Some(s) => s,
        None => {
            return None;
        },
    };
    let group_id = if context.kind == ConversationKind::Group {
        text::copy_option(&context.target_id)
    } else {
        None
    };
    let scope_id = if context.kind == ConversationKind::Group && text::same(
        context.interaction_scope_id.as_str(),
        context.scope_id.as_str(),
    ) && context.has_stable_scope {
        context.own_interaction_scope_id.clone()
    } else {
        context.interaction_scope_id.clone()
    };
    let personal = match &context.personal_scope_id {
        Some(s) => Some(s.as_str()),
        None => None,
    };
    let group = match &context.group_scope_id {
        Some(s) => Some(s.as_str()),
        None => None,
    };
    match MemoryActor::from_context(
        Some(user_id.clone()),
        personal,
        group,
        context.can_manage_group_memory,
    ) {
        Some(actor) => Some((actor, InteractionMeta { scope_id, user_id, group_id })),
        None => None,
    }
}

// Laws.

/// In a group nothing is saved where the user's own words do not tell where it belongs,
/// whatever the model proposes.
pub proof fn proposals_alone_never_choose_a_group_target(
    r: Result<Option<MemoryTarget>, &'static str>,
    actor: MemoryActor,
    inferred: Option<MemoryKind>,
    suggested: Seq<char>,
)
    requires
        is_resolution(r, ConversationKind::Group, actor, inferred, suggested),
        r matches Ok(t) && t is Some,
    ensures
        inferred is Some,
        r->Ok_0->Some_0.memory_kind == inferred->0,
{
}

/// Nothing is saved where the message asks for nothing, denies it or holds a secret.
pub proof fn secrets_and_silence_are_never_saved(
    s: StoreView,
    t: StoreView,
    o: SaveOutcome,
    message: Option<String>,
    call: SaveCall,
)
    requires
        is_call(s, t, o, message, call),
        call.negated || text::blank(text_or_empty(message)) || draft::is_sensitive(
            text::trimmed(text_or_empty(message)),
            call.source_masked@,
        ),
    ensures
        t == s,
        o is Failed,
{
}

} // verus!
