//! Memory changes that wait for the user: what is kept of them and what the user is shown.
use vstd::prelude::*;
use vstd::string::*;

use crate::json;
use crate::json::{Json, Shape};
use crate::memory::types;
use crate::memory::types::{
    MemoryActor, MemoryCategory, MemoryKind, MemoryRecord, MemorySourceType, MemoryTarget,
    MemoryVisibility, SaveMemoryRequest,
};

verus! {

/// A memory as it was prepared for the user's consent.
#[derive(Debug)]
pub struct PreparedMemoryDraft {
    pub target: MemoryTarget,
    pub visibility: MemoryVisibility,
    pub category: MemoryCategory,
    pub content: String,
    pub source_text: String,
    pub source_summary: String,
    pub change_type: String,
    pub attribute_key: Option<String>,
    pub source_ref: Option<String>,
}

impl PreparedMemoryDraft {
    /// The request that stores the draft, confirmed at time `now`.
    pub open spec fn as_save_request(self, actor: MemoryActor, now: String, req: SaveMemoryRequest) -> bool {
        req == (SaveMemoryRequest {
            actor,
            target: self.target,
            content: self.content,
            source_text: self.source_text,
            category: self.category,
            legacy_scope: req.legacy_scope,
            visibility: self.visibility,
            source_type: MemorySourceType::UserConfirmed,
            source_ref: self.source_ref,
            confirmed_at: Some(now),
            pinned: false,
            attribute_key: self.attribute_key,
            relation_subject_id: None,
            relation_object_id: None,
        }) && req.legacy_scope@ == "general"@
    }

    pub fn into_save_request(self, actor: MemoryActor, now: String) -> (r: SaveMemoryRequest)
        ensures
            self.as_save_request(actor, now, r),
    {
        SaveMemoryRequest {
            actor,
            target: self.target,
            content: self.content,
            source_text: self.source_text,
            category: self.category,
            legacy_scope: "general".to_owned(),
            visibility: self.visibility,
            source_type: MemorySourceType::UserConfirmed,
            source_ref: self.source_ref,
            confirmed_at: Some(now),
            pinned: false,
            attribute_key: self.attribute_key,
            relation_subject_id: None,
            relation_object_id: None,
        }
    }
}

/// A change that waits for the user. Identifiers in it are for checking at execution and
/// never shown.
#[derive(Debug)]
pub enum MemoryPendingPayload {
    Save { initiator_user_id: String, owner_key: String, draft: PreparedMemoryDraft, created_at: String },
    ClarifyScope {
        initiator_user_id: String,
        owner_key: String,
        normalized_content: String,
        source_text: String,
        source_ref: Option<String>,
        created_at: String,
    },
    Replace {
        initiator_user_id: String,
        owner_key: String,
        record_id: String,
        expected_updated_at: Option<String>,
        expected_record: Option<MemoryRecord>,
        draft: PreparedMemoryDraft,
        created_at: String,
    },
    Delete {
        initiator_user_id: String,
        owner_key: String,
        target: MemoryTarget,
        record_id: String,
        expected_updated_at: Option<String>,
        expected_record: Option<MemoryRecord>,
        content_snapshot: String,
        created_at: String,
    },
    Clear {
        initiator_user_id: String,
        owner_key: String,
        target: MemoryTarget,
        record_ids: Vec<String>,
        scope_label: String,
        created_at: String,
    },
    SetProfileEnabled {
        initiator_user_id: String,
        owner_key: String,
        target: MemoryTarget,
        enabled: bool,
        expected_enabled: bool,
        record_ids: Vec<String>,
        created_at: String,
    },
}

impl MemoryPendingPayload {
    /// The name under which a change of this kind is kept.
    pub open spec fn action_name(self) -> Seq<char> {
        match self {
            MemoryPendingPayload::Save { .. } => "save"@,
            MemoryPendingPayload::ClarifyScope { .. } => "clarify_scope"@,
            MemoryPendingPayload::Replace { .. } => "replace"@,
            MemoryPendingPayload::Delete { .. } => "delete"@,
            MemoryPendingPayload::Clear { .. } => "clear"@,
            MemoryPendingPayload::SetProfileEnabled { .. } => "set_profile_enabled"@,
        }
    }

    pub fn action_kind(&self) -> (r: &'static str)
        ensures
            r@ == self.action_name(),
    {
        match self {
            MemoryPendingPayload::Save { .. } => "save",
            MemoryPendingPayload::ClarifyScope { .. } => "clarify_scope",
            MemoryPendingPayload::Replace { .. } => "replace",
            MemoryPendingPayload::Delete { .. } => "delete",
            MemoryPendingPayload::Clear { .. } => "clear",
            MemoryPendingPayload::SetProfileEnabled { .. } => "set_profile_enabled",
        }
    }
}

/// What is kept beside the change itself.
#[derive(Debug)]
pub struct PreparedActionMetadata {
    pub domain: String,
    pub action_kind: String,
    pub initiator_user_id: String,
    pub owner_key: String,
    pub scope_key: String,
    pub created_at: String,
    pub expires_at: String,
}

/// Initiator, owner and time of creation of a change.
pub open spec fn origin(p: MemoryPendingPayload) -> (String, String, String) {
    match p {
        MemoryPendingPayload::Save { initiator_user_id, owner_key, created_at, .. } => (
            initiator_user_id,
            owner_key,
            created_at,
        ),
        MemoryPendingPayload::ClarifyScope { initiator_user_id, owner_key, created_at, .. } => (
            initiator_user_id,
            owner_key,
            created_at,
        ),
        MemoryPendingPayload::Replace { initiator_user_id, owner_key, created_at, .. } => (
            initiator_user_id,
            owner_key,
            created_at,
        ),
        MemoryPendingPayload::Delete { initiator_user_id, owner_key, created_at, .. } => (
            initiator_user_id,
            owner_key,
            created_at,
        ),
        MemoryPendingPayload::Clear { initiator_user_id, owner_key, created_at, .. } => (
            initiator_user_id,
            owner_key,
            created_at,
        ),
        MemoryPendingPayload::SetProfileEnabled { initiator_user_id, owner_key, created_at, .. } => (
            initiator_user_id,
            owner_key,
            created_at,
        ),
    }
}

/// The metadata of a change in a conversation. Where its end of life cannot be computed,
/// it ends when it was created.
pub fn prepared_metadata(payload: &MemoryPendingPayload, scope_key: &str, expires_at: Option<String>) -> (r: PreparedActionMetadata)
    ensures
        r.domain@ == "memory"@,
        r.action_kind@ == payload.action_name(),
        r.initiator_user_id == origin(*payload).0,
        r.owner_key == origin(*payload).1,
        r.scope_key@ == scope_key@,
        r.created_at == origin(*payload).2,
        r.expires_at == (match expires_at {
            Some(t) => t,
            None => origin(*payload).2,
        }),
{
    let (initiator, owner, created): (&String, &String, &String) = match payload {
        MemoryPendingPayload::Save { initiator_user_id, owner_key, created_at, .. } => (
            initiator_user_id,
            owner_key,
            created_at,
        ),
        MemoryPendingPayload::ClarifyScope { initiator_user_id, owner_key, created_at, .. } => (
            initiator_user_id,
            owner_key,
            created_at,
        ),
        MemoryPendingPayload::Replace { initiator_user_id, owner_key, created_at, .. } => (
            initiator_user_id,
            owner_key,
            created_at,
        ),
        MemoryPendingPayload::Delete { initiator_user_id, owner_key, created_at, .. } => (
            initiator_user_id,
            owner_key,
            created_at,
        ),
        MemoryPendingPayload::Clear { initiator_user_id, owner_key, created_at, .. } => (
            initiator_user_id,
            owner_key,
            created_at,
        ),
        MemoryPendingPayload::SetProfileEnabled { initiator_user_id, owner_key, created_at, .. } => (
            initiator_user_id,
            owner_key,
            created_at,
        ),
    };
    PreparedActionMetadata {
        domain: "memory".to_owned(),
        action_kind: payload.action_kind().to_owned(),
        initiator_user_id: initiator.clone(),
        owner_key: owner.clone(),
        scope_key: scope_key.to_owned(),
        created_at: created.clone(),
        expires_at: match expires_at {
            Some(t) => t,
            None => created.clone(),
        },
    }
}

/// How a target is called before it is written to.
pub open spec fn kind_title(kind: MemoryKind) -> Seq<char> {
    match kind {
        MemoryKind::Personal => "个人记忆"@,
        MemoryKind::GroupProfile => "当前群画像"@,
        MemoryKind::Group => "当前群组记忆"@,
        MemoryKind::LegacyUnassigned => "未归属旧记忆"@,
    }
}

pub fn kind_label(kind: MemoryKind) -> (r: &'static str)
    ensures
        r@ == kind_title(kind),
{
    match kind {
        MemoryKind::Personal => "个人记忆",
        MemoryKind::GroupProfile => "当前群画像",
        MemoryKind::Group => "当前群组记忆",
        MemoryKind::LegacyUnassigned => "未归属旧记忆",
    }
}

pub open spec fn subject_title(kind: MemoryKind) -> Seq<char> {
    match kind {
        MemoryKind::Personal => "当前用户"@,
        MemoryKind::GroupProfile => "当前用户在本群的画像"@,
        MemoryKind::Group => "当前群组"@,
        MemoryKind::LegacyUnassigned => "未归属主体"@,
    }
}

fn subject_label(kind: MemoryKind) -> (r: &'static str)
    ensures
        r@ == subject_title(kind),
{
    match kind {
        MemoryKind::Personal => "当前用户",
        MemoryKind::GroupProfile => "当前用户在本群的画像",
        MemoryKind::Group => "当前群组",
        MemoryKind::LegacyUnassigned => "未归属主体",
    }
}

/// What the user is asked to agree to.
pub open spec fn confirmation(d: PreparedMemoryDraft) -> Seq<char> {
    "已整理记忆草稿：\n- 目标范围："@ + kind_title(d.target.memory_kind) + "\n- 主体："@ + subject_title(
        d.target.memory_kind,
    ) + "\n- 可见性："@ + d.visibility.name() + "\n- 类型："@ + d.category.name()
        + "\n- 规范化内容："@ + d.content@ + "\n- 来源摘要："@ + d.source_summary@
        + "\n- 预期变更："@ + d.change_type@
        + "\n回复“确认 / 可以 / 记吧”执行真实写入；回复“取消 / 不记 / 算了”放弃。"@
}

pub fn draft_confirmation_text(draft: &PreparedMemoryDraft) -> (r: String)
    ensures
        r@ == confirmation(*draft),
{
    let mut s = "已整理记忆草稿：\n- 目标范围：".to_owned();
    s.append(kind_label(draft.target.memory_kind()));
    s.append("\n- 主体：");
    s.append(subject_label(draft.target.memory_kind()));
    s.append("\n- 可见性：");
    s.append(draft.visibility.as_str());
    s.append("\n- 类型：");
    s.append(draft.category.as_str());
    s.append("\n- 规范化内容：");
    s.append(draft.content.as_str());
    s.append("\n- 来源摘要：");
    s.append(draft.source_summary.as_str());
    s.append("\n- 预期变更：");
    s.append(draft.change_type.as_str());
    s.append("\n回复“确认 / 可以 / 记吧”执行真实写入；回复“取消 / 不记 / 算了”放弃。");
    s
}

/// The words by which the user agrees to a waiting change or drops it.
#[derive(Debug)]
pub struct PendingLexicon {
    pub confirm: Vec<&'static str>,
    pub cancel: Vec<&'static str>,
}

pub fn memory_lexicon() -> (r: PendingLexicon)
    ensures
        r.confirm@ == seq!["确认", "可以", "好", "好的", "保存", "写入", "执行", "记吧"],
        r.cancel@ == seq!["取消", "不记", "不要", "算了", "不用", "放弃"],
{
    PendingLexicon {
        confirm: vec!["确认", "可以", "好", "好的", "保存", "写入", "执行", "记吧"],
        cancel: vec!["取消", "不记", "不要", "算了", "不用", "放弃"],
    }
}

// What is shown of a change that waits.

pub open spec fn draft_shape(d: PreparedMemoryDraft) -> Shape {
    Shape::Object(
        seq![
            ("category"@, Shape::Text(d.category.name())),
            ("change_type"@, Shape::Text(d.change_type@)),
            ("content"@, Shape::Text(d.content@)),
            ("memory_kind"@, Shape::Text(d.target.memory_kind.name())),
            ("source_summary"@, Shape::Text(d.source_summary@)),
            ("visibility"@, Shape::Text(d.visibility.name())),
        ],
    )
}

fn draft_value(d: &PreparedMemoryDraft) -> (r: Json)
    ensures
        r.shape() == draft_shape(*d),
{
    let mut o: Vec<(String, Json)> = Vec::new();
    json::put(&mut o, "category", json::text_value(d.category.as_str()));
    json::put(&mut o, "change_type", Json::Text(d.change_type.clone()));
    json::put(&mut o, "content", Json::Text(d.content.clone()));
    json::put(&mut o, "memory_kind", json::text_value(d.target.memory_kind.as_str()));
    json::put(&mut o, "source_summary", Json::Text(d.source_summary.clone()));
    json::put(&mut o, "visibility", json::text_value(d.visibility.as_str()));
    assert(json::entry_shapes(o@) =~= draft_shape(*d)->Object_0);
    Json::Object(o)
}

/// What the user may see of the change: no identifier is among it.
pub open spec fn snapshot_shape(p: MemoryPendingPayload) -> Shape {
    match p {
        MemoryPendingPayload::Save { draft, .. } => draft_shape(draft),
        MemoryPendingPayload::Replace { draft, .. } => draft_shape(draft),
        MemoryPendingPayload::ClarifyScope { normalized_content, .. } => Shape::Object(
            seq![
                (
                    "choices"@,
                    Shape::List(
                        seq![
                            Shape::Text("personal"@),
                            Shape::Text("group_profile"@),
                            Shape::Text("group"@),
                        ],
                    ),
                ),
                ("content"@, Shape::Text(normalized_content@)),
            ],
        ),
        MemoryPendingPayload::Delete { content_snapshot, .. } => Shape::Object(
            seq![("content"@, Shape::Text(content_snapshot@))],
        ),
        MemoryPendingPayload::Clear { record_ids, scope_label, .. } => Shape::Object(
            seq![
                ("count"@, Shape::Whole(record_ids@.len() as u64)),
                ("scope"@, Shape::Text(scope_label@)),
            ],
        ),
        MemoryPendingPayload::SetProfileEnabled { enabled, record_ids, .. } => Shape::Object(
            seq![
                ("affected_count"@, Shape::Whole(record_ids@.len() as u64)),
                ("enabled"@, Shape::Bool(enabled)),
            ],
        ),
    }
}

impl MemoryPendingPayload {
    pub fn display_snapshot(&self) -> (r: Json)
        ensures
            r.shape() == snapshot_shape(*self),
    {
        let mut o: Vec<(String, Json)> = Vec::new();
        match self {
            MemoryPendingPayload::Save { draft, .. } => {
                return draft_value(draft);
            },
            MemoryPendingPayload::Replace { draft, .. } => {
                return draft_value(draft);
            },
            MemoryPendingPayload::ClarifyScope { normalized_content, .. } => {
                let mut choices: Vec<Json> = Vec::new();
                json::append_item(&mut choices, json::text_value("personal"));
                json::append_item(&mut choices, json::text_value("group_profile"));
                json::append_item(&mut choices, json::text_value("group"));
                assert(json::shapes(choices@) =~= seq![
                    Shape::Text("personal"@),
                    Shape::Text("group_profile"@),
                    Shape::Text("group"@),
                ]);
                json::put(&mut o, "choices", Json::List(choices));
                json::put(&mut o, "content", Json::Text(normalized_content.clone()));
            },
            MemoryPendingPayload::Delete { content_snapshot, .. } => {
                json::put(&mut o, "content", Json::Text(content_snapshot.clone()));
            },
            MemoryPendingPayload::Clear { record_ids, scope_label, .. } => {
                json::put(&mut o, "count", Json::Whole(record_ids.len() as u64));
                json::put(&mut o, "scope", Json::Text(scope_label.clone()));
            },
            MemoryPendingPayload::SetProfileEnabled { enabled, record_ids, .. } => {
                json::put(&mut o, "affected_count", Json::Whole(record_ids.len() as u64));
                json::put(&mut o, "enabled", Json::Bool(*enabled));
            },
        }
        assert(json::entry_shapes(o@) =~= snapshot_shape(*self)->Object_0);
        Json::Object(o)
    }
}

// Laws.

/// Whether the two changes differ in nothing but who asked for them, when, and by which
/// identifiers their records are known.
pub open spec fn differ_in_identifiers(p: MemoryPendingPayload, q: MemoryPendingPayload) -> bool {
    match (p, q) {
        (
            MemoryPendingPayload::Save { draft: a, .. },
            MemoryPendingPayload::Save { draft: b, .. },
        ) => is_same_draft(a, b),
        (
            MemoryPendingPayload::Replace { draft: a, .. },
            MemoryPendingPayload::Replace { draft: b, .. },
        ) => is_same_draft(a, b),
        (
            MemoryPendingPayload::ClarifyScope { normalized_content: a, .. },
            MemoryPendingPayload::ClarifyScope { normalized_content: b, .. },
        ) => a == b,
        (
            MemoryPendingPayload::Delete { content_snapshot: a, .. },
            MemoryPendingPayload::Delete { content_snapshot: b, .. },
        ) => a == b,
        (
            MemoryPendingPayload::Clear { record_ids: a, scope_label: x, .. },
            MemoryPendingPayload::Clear { record_ids: b, scope_label: y, .. },
        ) => a@.len() == b@.len() && x == y,
        (
            MemoryPendingPayload::SetProfileEnabled { record_ids: a, enabled: x, .. },
            MemoryPendingPayload::SetProfileEnabled { record_ids: b, enabled: y, .. },
        ) => a@.len() == b@.len() && x == y,
        _ => false,
    }
}

/// Whether the two drafts say the same, whoever they belong to.
pub open spec fn is_same_draft(a: PreparedMemoryDraft, b: PreparedMemoryDraft) -> bool {
    &&& a.target.memory_kind == b.target.memory_kind
    &&& a.visibility == b.visibility
    &&& a.category == b.category
    &&& a.content == b.content
    &&& a.source_summary == b.source_summary
    &&& a.change_type == b.change_type
}

/// What the user sees of a change tells nothing of identifiers: two changes that differ in
/// nothing else look the same.
pub proof fn shown_changes_hide_identifiers(p: MemoryPendingPayload, q: MemoryPendingPayload)
    requires
        differ_in_identifiers(p, q),
    ensures
        snapshot_shape(p) == snapshot_shape(q),
{
}

} // verus!
