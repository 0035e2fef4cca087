//! Records, targets and errors of the memory domain.
use vstd::prelude::*;
use vstd::string::*;

use crate::text;

verus! {

/// The boundary that a record belongs to.
#[derive(Debug, Clone, Copy, PartialEq, Eq, Structural)]
pub enum MemoryScopeType {
    Personal,
    Group,
    LegacyUnassigned,
}

/// What a record is about within its boundary.
#[derive(Debug, Clone, Copy, PartialEq, Eq, Structural)]
pub enum MemoryKind {
    Personal,
    GroupProfile,
    Group,
    LegacyUnassigned,
}

#[derive(Debug, Clone, Copy, PartialEq, Eq, Structural)]
pub enum MemoryVisibility {
    Private,
    ContextOnly,
    GroupMembers,
    Public,
}

#[derive(Debug, Clone, Copy, PartialEq, Eq, Structural)]
pub enum MemorySourceType {
    UserConfirmed,
    ManualImport,
    Legacy,
    SystemDerived,
}

#[derive(Debug, Clone, Copy, PartialEq, Eq, Structural)]
pub enum MemoryStatus {
    Active,
    Archived,
}

impl MemoryScopeType {
    pub open spec fn name(self) -> Seq<char> {
        match self {
            MemoryScopeType::Personal => "personal"@,
            MemoryScopeType::Group => "group"@,
            MemoryScopeType::LegacyUnassigned => "legacy_unassigned"@,
        }
    }

    pub fn as_str(self) -> (r: &'static str)
        ensures
            r@ == self.name(),
    {
        match self {
            MemoryScopeType::Personal => "personal",
            MemoryScopeType::Group => "group",
            MemoryScopeType::LegacyUnassigned => "legacy_unassigned",
        }
    }
}

impl MemoryKind {
    pub open spec fn name(self) -> Seq<char> {
        match self {
            MemoryKind::Personal => "personal"@,
            MemoryKind::GroupProfile => "group_profile"@,
            MemoryKind::Group => "group"@,
            MemoryKind::LegacyUnassigned => "legacy_unassigned"@,
        }
    }

    pub fn as_str(self) -> (r: &'static str)
        ensures
            r@ == self.name(),
    {
        match self {
            MemoryKind::Personal => "personal",
            MemoryKind::GroupProfile => "group_profile",
            MemoryKind::Group => "group",
            MemoryKind::LegacyUnassigned => "legacy_unassigned",
        }
    }
}

impl MemoryVisibility {
    pub open spec fn name(self) -> Seq<char> {
        match self {
            MemoryVisibility::Private => "private"@,
            MemoryVisibility::ContextOnly => "context_only"@,
            MemoryVisibility::GroupMembers => "group_members"@,
            MemoryVisibility::Public => "public"@,
        }
    }

    pub fn as_str(self) -> (r: &'static str)
        ensures
            r@ == self.name(),
    {
        match self {
            MemoryVisibility::Private => "private",
            MemoryVisibility::ContextOnly => "context_only",
            MemoryVisibility::GroupMembers => "group_members",
            MemoryVisibility::Public => "public",
        }
    }
}

/// What kind of statement a memory makes.
#[derive(Debug, Clone, Copy, PartialEq, Eq, Structural)]
pub enum MemoryCategory {
    Identity,
    Preference,
    Instruction,
    Note,
}

impl MemoryCategory {
    pub open spec fn name(self) -> Seq<char> {
        match self {
            MemoryCategory::Identity => "identity"@,
            MemoryCategory::Preference => "preference"@,
            MemoryCategory::Instruction => "instruction"@,
            MemoryCategory::Note => "note"@,
        }
    }

    pub fn as_str(self) -> (r: &'static str)
        ensures
            r@ == self.name(),
    {
        match self {
            MemoryCategory::Identity => "identity",
            MemoryCategory::Preference => "preference",
            MemoryCategory::Instruction => "instruction",
            MemoryCategory::Note => "note",
        }
    }
}

/// One stored memory.
#[derive(Debug)]
pub struct MemoryRecord {
    pub id: String,
    pub ts: String,
    pub created_at: String,
    pub updated_at: Option<String>,
    pub memory_type: String,
    pub scope: String,
    pub scope_type: MemoryScopeType,
    pub scope_id: Option<String>,
    pub created_by_user_id: Option<String>,
    pub memory_kind: MemoryKind,
    pub subject_id: Option<String>,
    pub relation_subject_id: Option<String>,
    pub relation_object_id: Option<String>,
    pub visibility: MemoryVisibility,
    pub source_type: MemorySourceType,
    pub source_ref: Option<String>,
    pub last_confirmed_at: Option<String>,
    pub status: MemoryStatus,
    pub pinned: bool,
    pub attribute_key: Option<String>,
    pub user_id: Option<String>,
    pub group_id: Option<String>,
    pub content: String,
    pub source_text: String,
}

impl Clone for MemoryRecord {
    fn clone(&self) -> (r: Self)
        ensures
            r == *self,
    {
        MemoryRecord {
            id: self.id.clone(),
            ts: self.ts.clone(),
            created_at: self.created_at.clone(),
            updated_at: text::copy_option(&self.updated_at),
            memory_type: self.memory_type.clone(),
            scope: self.scope.clone(),
            scope_type: self.scope_type,
            scope_id: text::copy_option(&self.scope_id),
            created_by_user_id: text::copy_option(&self.created_by_user_id),
            memory_kind: self.memory_kind,
            subject_id: text::copy_option(&self.subject_id),
            relation_subject_id: text::copy_option(&self.relation_subject_id),
            relation_object_id: text::copy_option(&self.relation_object_id),
            visibility: self.visibility,
            source_type: self.source_type,
            source_ref: text::copy_option(&self.source_ref),
            last_confirmed_at: text::copy_option(&self.last_confirmed_at),
            status: self.status,
            pinned: self.pinned,
            attribute_key: text::copy_option(&self.attribute_key),
            user_id: text::copy_option(&self.user_id),
            group_id: text::copy_option(&self.group_id),
            content: self.content.clone(),
            source_text: self.source_text.clone(),
        }
    }
}

/// The boundary, kind and subject that a group of records shares.
#[derive(Debug)]
pub struct MemoryTarget {
    pub scope_type: MemoryScopeType,
    pub scope_id: String,
    pub memory_kind: MemoryKind,
    pub subject_id: Option<String>,
}

impl Clone for MemoryTarget {
    fn clone(&self) -> (r: Self)
        ensures
            r == *self,
    {
        MemoryTarget {
            scope_type: self.scope_type,
            scope_id: self.scope_id.clone(),
            memory_kind: self.memory_kind,
            subject_id: text::copy_option(&self.subject_id),
        }
    }
}

/// Whether two targets name the same group of records.
pub open spec fn same_target(a: MemoryTarget, b: MemoryTarget) -> bool {
    &&& a.scope_type == b.scope_type
    &&& a.scope_id@ == b.scope_id@
    &&& a.memory_kind == b.memory_kind
    &&& text::opt_view(a.subject_id) == text::opt_view(b.subject_id)
}

impl MemoryTarget {
    /// The notes of one user.
    pub fn personal(scope_id: &str) -> (r: Self)
        ensures
            r.scope_type == MemoryScopeType::Personal,
            r.scope_id@ == scope_id@,
            r.memory_kind == MemoryKind::Personal,
            r.subject_id is None,
    {
        MemoryTarget {
            scope_type: MemoryScopeType::Personal,
            scope_id: scope_id.to_owned(),
            memory_kind: MemoryKind::Personal,
            subject_id: None,
        }
    }

    /// The notes that a group shares.
    pub fn group(scope_id: &str) -> (r: Self)
        ensures
            r.scope_type == MemoryScopeType::Group,
            r.scope_id@ == scope_id@,
            r.memory_kind == MemoryKind::Group,
            r.subject_id is None,
    {
        MemoryTarget {
            scope_type: MemoryScopeType::Group,
            scope_id: scope_id.to_owned(),
            memory_kind: MemoryKind::Group,
            subject_id: None,
        }
    }

    /// The profile of one member within a group.
    pub fn group_profile(scope_id: &str, subject_id: &str) -> (r: Self)
        ensures
            r.scope_type == MemoryScopeType::Group,
            r.scope_id@ == scope_id@,
            r.memory_kind == MemoryKind::GroupProfile,
            text::opt_view(r.subject_id) == Some(subject_id@),
    {
        MemoryTarget {
            scope_type: MemoryScopeType::Group,
            scope_id: scope_id.to_owned(),
            memory_kind: MemoryKind::GroupProfile,
            subject_id: Some(subject_id.to_owned()),
        }
    }

    pub fn scope_type(&self) -> (r: MemoryScopeType)
        ensures
            r == self.scope_type,
    {
        self.scope_type
    }

    pub fn scope_id(&self) -> (r: &str)
        ensures
            r@ == self.scope_id@,
    {
        self.scope_id.as_str()
    }

    pub fn memory_kind(&self) -> (r: MemoryKind)
        ensures
            r == self.memory_kind,
    {
        self.memory_kind
    }

    pub fn subject_id(&self) -> (r: Option<&str>)
        ensures
            text::opt_str_view(r) == text::opt_view(self.subject_id),
    {
        match &self.subject_id {
            Some(s) => Some(s.as_str()),
            None => None,
        }
    }

    /// Whether identifiers carry no white space around them and none is blank.
    pub open spec fn is_clean(self) -> bool {
        &&& text::cleaned(self.scope_id@) == Some(self.scope_id@)
        &&& text::cleaned_opt(text::opt_view(self.subject_id)) == text::opt_view(self.subject_id)
    }

    /// Whether the target is this one with its identifiers trimmed.
    pub open spec fn cleans_to(self, t: MemoryTarget) -> bool {
        &&& t.is_clean()
        &&& text::cleaned(self.scope_id@) == Some(t.scope_id@)
        &&& text::opt_view(t.subject_id) == text::cleaned_opt(text::opt_view(self.subject_id))
        &&& t.scope_type == self.scope_type
        &&& t.memory_kind == self.memory_kind
    }

    /// Trims the identifiers; a blank subject is no subject, a blank scope is refused.
    pub fn clean(&self) -> (r: Result<MemoryTarget, MemoryError>)
        ensures
            match r {
                Ok(t) => self.cleans_to(t),
                Err(e) => text::blank(self.scope_id@) && e.code_text() == "bad_request"@ && e.message_text()
                    == "scope_id is required"@,
            },
            r is Ok <==> !text::blank(self.scope_id@),
    {
        proof {
            text::lemma_trimmed_is_clean(self.scope_id@);
            match text::opt_view(self.subject_id) {
                Some(s) => text::lemma_trimmed_is_clean(s),
                None => {},
            }
        }
        match text::clean_text(self.scope_id.as_str()) {
            Some(scope_id) => Ok(
                MemoryTarget {
                    scope_type: self.scope_type,
                    scope_id,
                    memory_kind: self.memory_kind,
                    subject_id: text::clean_option(&self.subject_id),
                },
            ),
            None => Err(MemoryError::bad_request("scope_id is required")),
        }
    }

    pub fn same_as(&self, other: &MemoryTarget) -> (r: bool)
        ensures
            r == same_target(*self, *other),
    {
        self.scope_type == other.scope_type && self.memory_kind == other.memory_kind && text::same(
            self.scope_id.as_str(),
            other.scope_id.as_str(),
        ) && text::same_option(&self.subject_id, &other.subject_id)
    }
}

/// Who asks for a memory operation, and where.
#[derive(Debug)]
pub struct MemoryActor {
    pub user_id: String,
    pub personal_scope_id: String,
    pub group_scope_id: Option<String>,
    pub can_manage_group_memory: bool,
}

impl Clone for MemoryActor {
    fn clone(&self) -> (r: Self)
        ensures
            r == *self,
    {
        MemoryActor {
            user_id: self.user_id.clone(),
            personal_scope_id: self.personal_scope_id.clone(),
            group_scope_id: text::copy_option(&self.group_scope_id),
            can_manage_group_memory: self.can_manage_group_memory,
        }
    }
}

impl MemoryActor {
    /// The actor of a conversation; there is none without a user or a personal scope.
    pub fn from_context(
        user_id: Option<String>,
        personal_scope_id: Option<&str>,
        group_scope_id: Option<&str>,
        can_manage_group_memory: bool,
    ) -> (r: Option<MemoryActor>)
        ensures
            match r {
                Some(a) => {
                    &&& user_id == Some(a.user_id)
                    &&& text::opt_str_view(personal_scope_id) == Some(a.personal_scope_id@)
                    &&& text::opt_view(a.group_scope_id) == text::opt_str_view(group_scope_id)
                    &&& a.can_manage_group_memory == can_manage_group_memory
                },
                None => user_id is None || personal_scope_id is None,
            },
    {
        match (user_id, personal_scope_id) {
            (Some(user_id), Some(personal)) => Some(
                MemoryActor {
                    user_id,
                    personal_scope_id: personal.to_owned(),
                    group_scope_id: match group_scope_id {
                        Some(g) => Some(g.to_owned()),
                        None => None,
                    },
                    can_manage_group_memory,
                },
            ),
            _ => None,
        }
    }
}

/// A record to store under a plain personal or group boundary. Its texts are as they were
/// given; what is stored of them is handed in beside the request, with secrets masked.
#[derive(Debug)]
pub struct CreateScopedMemoryRequest {
    pub scope_type: MemoryScopeType,
    pub scope_id: String,
    pub created_by_user_id: String,
    pub user_id: Option<String>,
    pub group_id: Option<String>,
    pub content: String,
    pub source_text: String,
    pub memory_type: Option<String>,
    pub scope: Option<String>,
}

/// A record that takes the place of another one of the same boundary. As with one that is
/// created, the masked texts are handed in beside the request.
#[derive(Debug)]
pub struct ReplaceScopedStorageRequest {
    pub scope_type: MemoryScopeType,
    pub scope_id: String,
    pub id_or_prefix: String,
    pub created_by_user_id: String,
    pub user_id: Option<String>,
    pub group_id: Option<String>,
    pub content: String,
    pub source_text: String,
    pub memory_type: Option<String>,
    pub scope: Option<String>,
}

/// The same, asked for by an actor.
#[derive(Debug)]
pub struct ReplaceScopedMemoryRequest {
    pub actor: MemoryActor,
    pub scope_type: MemoryScopeType,
    pub scope_id: String,
    pub id_or_prefix: String,
    pub user_id: Option<String>,
    pub group_id: Option<String>,
    pub content: String,
    pub source_text: String,
    pub memory_type: Option<String>,
    pub scope: Option<String>,
}

/// The fields of a record that are to change.
#[derive(Debug)]
pub struct UpdateMemoryRequest {
    pub content: Option<String>,
    pub memory_type: Option<String>,
    pub scope: Option<String>,
}

impl UpdateMemoryRequest {
    pub open spec fn updates(self) -> bool {
        self.content is Some || self.memory_type is Some || self.scope is Some
    }

    pub fn has_update(&self) -> (r: bool)
        ensures
            r == self.updates(),
    {
        self.content.is_some() || self.memory_type.is_some() || self.scope.is_some()
    }
}

/// Active records of a plain boundary.
#[derive(Debug)]
pub struct ScopedMemoryQuery {
    pub scope_type: MemoryScopeType,
    pub scope_id: String,
}

/// Records of a target; without a status, those of every status.
#[derive(Debug)]
pub struct MemoryQuery {
    pub target: MemoryTarget,
    pub status: Option<MemoryStatus>,
}

impl MemoryQuery {
    pub fn active(target: MemoryTarget) -> (r: Self)
        ensures
            r.target == target,
            r.status == Some(MemoryStatus::Active),
    {
        MemoryQuery { target, status: Some(MemoryStatus::Active) }
    }
}

/// A memory that an actor wants to be stored.
#[derive(Debug)]
pub struct SaveMemoryRequest {
    pub actor: MemoryActor,
    pub target: MemoryTarget,
    pub content: String,
    pub source_text: String,
    pub category: MemoryCategory,
    pub legacy_scope: String,
    pub visibility: MemoryVisibility,
    pub source_type: MemorySourceType,
    pub source_ref: Option<String>,
    pub confirmed_at: Option<String>,
    pub pinned: bool,
    pub attribute_key: Option<String>,
    pub relation_subject_id: Option<String>,
    pub relation_object_id: Option<String>,
}

/// A memory to store, with the author fixed.
#[derive(Debug)]
pub struct PersistMemoryRequest {
    pub target: MemoryTarget,
    pub created_by_user_id: String,
    pub content: String,
    pub source_text: String,
    pub category: MemoryCategory,
    pub legacy_scope: String,
    pub visibility: MemoryVisibility,
    pub source_type: MemorySourceType,
    pub source_ref: Option<String>,
    pub confirmed_at: Option<String>,
    pub pinned: bool,
    pub attribute_key: Option<String>,
    pub relation_subject_id: Option<String>,
    pub relation_object_id: Option<String>,
}

/// A stored memory and the records that it displaced.
#[derive(Debug)]
pub struct PersistMemoryResult {
    pub record: MemoryRecord,
    pub archived_ids: Vec<String>,
}

#[derive(Debug)]
pub struct MemoryWriteResult {
    pub memory: MemoryRecord,
    pub archived_ids: Vec<String>,
}

#[derive(Debug)]
pub struct MemoryMutationResult {
    pub ids: Vec<String>,
    pub count: usize,
}

impl MemoryMutationResult {
    pub fn from_ids(ids: Vec<String>) -> (r: Self)
        ensures
            r.ids == ids,
            r.count == ids@.len(),
    {
        MemoryMutationResult { count: ids.len(), ids }
    }
}

#[derive(Debug)]
pub struct ProfilePreferenceResult {
    pub enabled: bool,
    pub archived_ids: Vec<String>,
}

/// Whether two records hold the same values.
pub open spec fn same_record(a: MemoryRecord, b: MemoryRecord) -> bool {
    &&& a.id@ == b.id@
    &&& a.ts@ == b.ts@
    &&& a.created_at@ == b.created_at@
    &&& text::opt_view(a.updated_at) == text::opt_view(b.updated_at)
    &&& a.memory_type@ == b.memory_type@
    &&& a.scope@ == b.scope@
    &&& a.scope_type == b.scope_type
    &&& text::opt_view(a.scope_id) == text::opt_view(b.scope_id)
    &&& text::opt_view(a.created_by_user_id) == text::opt_view(b.created_by_user_id)
    &&& a.memory_kind == b.memory_kind
    &&& text::opt_view(a.subject_id) == text::opt_view(b.subject_id)
    &&& text::opt_view(a.relation_subject_id) == text::opt_view(b.relation_subject_id)
    &&& text::opt_view(a.relation_object_id) == text::opt_view(b.relation_object_id)
    &&& a.visibility == b.visibility
    &&& a.source_type == b.source_type
    &&& text::opt_view(a.source_ref) == text::opt_view(b.source_ref)
    &&& text::opt_view(a.last_confirmed_at) == text::opt_view(b.last_confirmed_at)
    &&& a.status == b.status
    &&& a.pinned == b.pinned
    &&& text::opt_view(a.attribute_key) == text::opt_view(b.attribute_key)
    &&& text::opt_view(a.user_id) == text::opt_view(b.user_id)
    &&& text::opt_view(a.group_id) == text::opt_view(b.group_id)
    &&& a.content@ == b.content@
    &&& a.source_text@ == b.source_text@
}

pub fn is_same_record(a: &MemoryRecord, b: &MemoryRecord) -> (r: bool)
    ensures
        r == same_record(*a, *b),
{
    text::same(a.id.as_str(), b.id.as_str()) && text::same(a.ts.as_str(), b.ts.as_str()) && text::same(
        a.created_at.as_str(),
        b.created_at.as_str(),
    ) && text::same_option(&a.updated_at, &b.updated_at) && text::same(
        a.memory_type.as_str(),
        b.memory_type.as_str(),
    ) && text::same(a.scope.as_str(), b.scope.as_str()) && a.scope_type == b.scope_type && text::same_option(
        &a.scope_id,
        &b.scope_id,
    ) && text::same_option(&a.created_by_user_id, &b.created_by_user_id) && a.memory_kind == b.memory_kind
        && text::same_option(&a.subject_id, &b.subject_id) && text::same_option(
        &a.relation_subject_id,
        &b.relation_subject_id,
    ) && text::same_option(&a.relation_object_id, &b.relation_object_id) && a.visibility == b.visibility
        && a.source_type == b.source_type && text::same_option(&a.source_ref, &b.source_ref)
        && text::same_option(&a.last_confirmed_at, &b.last_confirmed_at) && a.status == b.status
        && a.pinned == b.pinned && text::same_option(&a.attribute_key, &b.attribute_key) && text::same_option(
        &a.user_id,
        &b.user_id,
    ) && text::same_option(&a.group_id, &b.group_id) && text::same(a.content.as_str(), b.content.as_str())
        && text::same(a.source_text.as_str(), b.source_text.as_str())
}

/// Whether the result is an error with this code and message.
pub open spec fn refused<T>(r: Result<T, MemoryError>, code: Seq<char>, message: Seq<char>) -> bool {
    r matches Err(e) && e.code_text() == code && e.message_text() == message
}

/// Whether the result says that the database failed.
pub open spec fn broken<T>(r: Result<T, MemoryError>) -> bool {
    r matches Err(e) && e.code_text() == "io_error"@
}

/// Why a memory operation was refused or failed.
#[derive(Debug)]
pub struct MemoryError {
    code: &'static str,
    message: String,
}

impl MemoryError {
    pub closed spec fn code_text(self) -> Seq<char> {
        self.code@
    }

    pub closed spec fn message_text(self) -> Seq<char> {
        self.message@
    }

    pub fn code(&self) -> (r: &str)
        ensures
            r@ == self.code_text(),
    {
        self.code
    }

    pub fn message(&self) -> (r: &str)
        ensures
            r@ == self.message_text(),
    {
        self.message.as_str()
    }

    pub fn is_not_found_or_forbidden(&self) -> (r: bool)
        ensures
            r == (self.code_text() == "not_found"@ || self.code_text() == "forbidden"@),
    {
        text::same(self.code, "not_found") || text::same(self.code, "forbidden")
    }

    pub fn bad_request(message: &str) -> (r: Self)
        ensures
            r.code_text() == "bad_request"@,
            r.message_text() == message@,
    {
        MemoryError { code: "bad_request", message: message.to_owned() }
    }

    pub fn changed(message: &str) -> (r: Self)
        ensures
            r.code_text() == "memory_changed"@,
            r.message_text() == message@,
    {
        MemoryError { code: "memory_changed", message: message.to_owned() }
    }

    pub fn not_found(message: &str) -> (r: Self)
        ensures
            r.code_text() == "not_found"@,
            r.message_text() == message@,
    {
        MemoryError { code: "not_found", message: message.to_owned() }
    }

    pub fn forbidden(message: &str) -> (r: Self)
        ensures
            r.code_text() == "forbidden"@,
            r.message_text() == message@,
    {
        MemoryError { code: "forbidden", message: message.to_owned() }
    }

    pub fn io(message: &str) -> (r: Self)
        ensures
            r.code_text() == "io_error"@,
            r.message_text() == message@,
    {
        MemoryError { code: "io_error", message: message.to_owned() }
    }

    pub fn profile_opted_out() -> (r: Self)
        ensures
            r.code_text() == "profile_opted_out"@,
            r.message_text() == "group profile storage is disabled for this subject"@,
    {
        MemoryError {
            code: "profile_opted_out",
            message: "group profile storage is disabled for this subject".to_owned(),
        }
    }

    pub fn scope_unresolved() -> (r: Self)
        ensures
            r.code_text() == "memory_scope_unresolved"@,
            r.message_text() == "记忆范围仍未明确"@,
    {
        MemoryError { code: "memory_scope_unresolved", message: "记忆范围仍未明确".to_owned() }
    }

    pub fn into_info(self) -> (r: MemoryErrorInfo)
        ensures
            r.code@ == self.code_text(),
            r.message@ == self.message_text(),
    {
        MemoryErrorInfo { code: self.code.to_owned(), message: self.message }
    }
}

#[derive(Debug, Clone)]
pub struct MemoryErrorInfo {
    pub code: String,
    pub message: String,
}

#[derive(Debug, Clone)]
pub struct MemoryItemResponse {
    pub ok: bool,
    pub memory: Option<MemoryRecord>,
    pub error: Option<MemoryErrorInfo>,
}

#[derive(Debug, Clone)]
pub struct MemoryListResponse {
    pub ok: bool,
    pub memories: Vec<MemoryRecord>,
    pub count: usize,
    pub error: Option<MemoryErrorInfo>,
}

#[derive(Debug, Clone)]
pub struct MemoryDeleteResponse {
    pub ok: bool,
    pub deleted: bool,
    pub id: Option<String>,
    pub error: Option<MemoryErrorInfo>,
}

/// Whether the information repeats the code and message of the error.
pub open spec fn tells(info: Option<MemoryErrorInfo>, err: MemoryError) -> bool {
    info matches Some(i) && i.code@ == err.code_text() && i.message@ == err.message_text()
}

impl MemoryItemResponse {
    pub fn ok(memory: MemoryRecord) -> (r: Self)
        ensures
            r.ok,
            r.memory == Some(memory),
            r.error is None,
    {
        MemoryItemResponse { ok: true, memory: Some(memory), error: None }
    }

    pub fn error(err: MemoryError) -> (r: Self)
        ensures
            !r.ok,
            r.memory is None,
            tells(r.error, err),
    {
        MemoryItemResponse { ok: false, memory: None, error: Some(err.into_info()) }
    }
}

impl MemoryListResponse {
    pub fn ok(memories: Vec<MemoryRecord>) -> (r: Self)
        ensures
            r.ok,
            r.memories == memories,
            r.count == memories@.len(),
            r.error is None,
    {
        MemoryListResponse { count: memories.len(), ok: true, memories, error: None }
    }

    pub fn error(err: MemoryError) -> (r: Self)
        ensures
            !r.ok,
            r.memories@.len() == 0,
            r.count == 0,
            tells(r.error, err),
    {
        MemoryListResponse {
            ok: false,
            memories: Vec::new(),
            count: 0,
            error: Some(err.into_info()),
        }
    }
}

impl MemoryDeleteResponse {
    pub fn ok(id: String) -> (r: Self)
        ensures
            r.ok,
            r.deleted,
            r.id == Some(id),
            r.error is None,
    {
        MemoryDeleteResponse { ok: true, deleted: true, id: Some(id), error: None }
    }

    pub fn error(err: MemoryError) -> (r: Self)
        ensures
            !r.ok,
            !r.deleted,
            r.id is None,
            tells(r.error, err),
    {
        MemoryDeleteResponse {
            ok: false,
            deleted: false,
            id: None,
            error: Some(err.into_info()),
        }
    }
}

} // verus!
