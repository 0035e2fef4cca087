//! Memory operations on behalf of an actor. Every operation first asks whether the actor
//! may do it; a refusal looks at no record, so it tells nothing about what is stored.
use vstd::prelude::*;
use vstd::string::*;

use crate::memory::mutations;
use crate::memory::recall;
use crate::memory::recall::{MemoryRecall, RecallOrder};
use crate::memory::records;
use crate::memory::scoped;
use crate::memory::store;
use crate::memory::store::{MemoryStore, StoreView};
use crate::memory::types;
use crate::memory::types::{
    CreateScopedMemoryRequest, MemoryActor, MemoryError, MemoryKind, MemoryMutationResult,
    MemoryQuery, MemoryRecord, MemoryScopeType, MemoryTarget, MemoryVisibility, MemoryWriteResult,
    PersistMemoryRequest, PersistMemoryResult, ProfilePreferenceResult, ReplaceScopedMemoryRequest,
    ReplaceScopedStorageRequest, SaveMemoryRequest, ScopedMemoryQuery, UpdateMemoryRequest,
};
use crate::outside;
use crate::text;

verus! {

// Authority.

/// Whether the actor may read (or, with `write`, change) records of a plain boundary.
pub open spec fn may_use_scope(scope_type: MemoryScopeType, scope_id: Seq<char>, actor: MemoryActor, write: bool) -> bool {
    match scope_type {
        MemoryScopeType::Personal => actor.personal_scope_id@ == scope_id,
        MemoryScopeType::Group => text::opt_view(actor.group_scope_id) == Some(scope_id) && (!write
            || actor.can_manage_group_memory),
        MemoryScopeType::LegacyUnassigned => false,
    }
}

/// Whether the actor may read (or, with `write`, change) records of the target: their own
/// notes, their own profile in the current group, the notes of the current group; group
/// notes are changed by those who manage the group.
pub open spec fn may_use(target: MemoryTarget, actor: MemoryActor, write: bool) -> bool {
    let in_group = text::opt_view(actor.group_scope_id) == Some(target.scope_id@);
    match target.memory_kind {
        MemoryKind::Personal => target.scope_type == MemoryScopeType::Personal && target.scope_id@
            == actor.personal_scope_id@ && target.subject_id is None,
        MemoryKind::GroupProfile => target.scope_type == MemoryScopeType::Group && in_group
            && text::opt_view(target.subject_id) == Some(actor.personal_scope_id@),
        MemoryKind::Group => target.scope_type == MemoryScopeType::Group && in_group && (!write
            || actor.can_manage_group_memory),
        MemoryKind::LegacyUnassigned => false,
    }
}

/// Whether records of the target can have this visibility.
pub open spec fn fits_target(target: MemoryTarget, visibility: MemoryVisibility) -> bool {
    match target.memory_kind {
        MemoryKind::Personal => visibility == MemoryVisibility::Private || visibility
            == MemoryVisibility::ContextOnly || visibility == MemoryVisibility::Public,
        MemoryKind::GroupProfile => visibility == MemoryVisibility::ContextOnly || visibility
            == MemoryVisibility::GroupMembers || visibility == MemoryVisibility::Public,
        MemoryKind::Group => visibility == MemoryVisibility::GroupMembers || visibility
            == MemoryVisibility::Public,
        MemoryKind::LegacyUnassigned => false,
    }
}

pub open spec fn is_forbidden<T>(r: Result<T, MemoryError>) -> bool {
    types::refused(r, "forbidden"@, "memory is not manageable in current scope"@)
}

pub open spec fn has_bad_visibility<T>(r: Result<T, MemoryError>) -> bool {
    types::refused(r, "bad_request"@, "visibility is not valid for memory target"@)
}

pub open spec fn needs_profile<T>(r: Result<T, MemoryError>) -> bool {
    types::refused(r, "bad_request"@, "profile preference requires a group profile target"@)
}

fn group_is(actor: &MemoryActor, scope_id: &str) -> (r: bool)
    ensures
        r == (text::opt_view(actor.group_scope_id) == Some(scope_id@)),
{
    match &actor.group_scope_id {
        Some(g) => text::same(g.as_str(), scope_id),
        None => false,
    }
}

pub fn authorize_legacy_scope(scope_type: MemoryScopeType, scope_id: &str, actor: &MemoryActor, write: bool) -> (r: Result<
    (),
    MemoryError,
>)
    ensures
        r is Ok <==> may_use_scope(scope_type, scope_id@, *actor, write),
        r is Err ==> is_forbidden(r),
{
    let allowed = match scope_type {
        MemoryScopeType::Personal => text::same(actor.personal_scope_id.as_str(), scope_id),
        MemoryScopeType::Group => group_is(actor, scope_id) && (!write
            || actor.can_manage_group_memory),
        MemoryScopeType::LegacyUnassigned => false,
    };
    if allowed {
        Ok(())
    } else {
        Err(MemoryError::forbidden("memory is not manageable in current scope"))
    }
}

pub fn authorize_target(target: &MemoryTarget, actor: &MemoryActor, write: bool) -> (r: Result<(), MemoryError>)
    ensures
        r is Ok <==> may_use(*target, *actor, write),
        r is Err ==> is_forbidden(r),
{
    let allowed = match target.memory_kind() {
        MemoryKind::Personal => target.scope_type() == MemoryScopeType::Personal && text::same(
            target.scope_id(),
            actor.personal_scope_id.as_str(),
        ) && target.subject_id.is_none(),
        MemoryKind::GroupProfile => target.scope_type() == MemoryScopeType::Group && group_is(
            actor,
            target.scope_id(),
        ) && match &target.subject_id {
            Some(s) => text::same(s.as_str(), actor.personal_scope_id.as_str()),
            None => false,
        },
        MemoryKind::Group => target.scope_type() == MemoryScopeType::Group && group_is(
            actor,
            target.scope_id(),
        ) && (!write || actor.can_manage_group_memory),
        MemoryKind::LegacyUnassigned => false,
    };
    if allowed {
        Ok(())
    } else {
        Err(MemoryError::forbidden("memory is not manageable in current scope"))
    }
}

pub fn validate_visibility(target: &MemoryTarget, visibility: MemoryVisibility) -> (r: Result<(), MemoryError>)
    ensures
        r is Ok <==> fits_target(*target, visibility),
        r is Err ==> has_bad_visibility(r),
{
    let valid = match target.memory_kind() {
        MemoryKind::Personal => visibility == MemoryVisibility::Private || visibility
            == MemoryVisibility::ContextOnly || visibility == MemoryVisibility::Public,
        MemoryKind::GroupProfile => visibility == MemoryVisibility::ContextOnly || visibility
            == MemoryVisibility::GroupMembers || visibility == MemoryVisibility::Public,
        MemoryKind::Group => visibility == MemoryVisibility::GroupMembers || visibility
            == MemoryVisibility::Public,
        MemoryKind::LegacyUnassigned => false,
    };
    if valid {
        Ok(())
    } else {
        Err(MemoryError::bad_request("visibility is not valid for memory target"))
    }
}

/// The request as the store takes it: the author is the actor.
pub open spec fn as_persisted(req: SaveMemoryRequest) -> PersistMemoryRequest {
    PersistMemoryRequest {
        target: req.target,
        created_by_user_id: req.actor.personal_scope_id,
        content: req.content,
        source_text: req.source_text,
        category: req.category,
        legacy_scope: req.legacy_scope,
        visibility: req.visibility,
        source_type: req.source_type,
        source_ref: req.source_ref,
        confirmed_at: req.confirmed_at,
        pinned: req.pinned,
        attribute_key: req.attribute_key,
        relation_subject_id: req.relation_subject_id,
        relation_object_id: req.relation_object_id,
    }
}

fn persist_request(req: &SaveMemoryRequest) -> (r: PersistMemoryRequest)
    ensures
        r == as_persisted(*req),
{
    PersistMemoryRequest {
        target: req.target.clone(),
        created_by_user_id: req.actor.personal_scope_id.clone(),
        content: req.content.clone(),
        source_text: req.source_text.clone(),
        category: req.category,
        legacy_scope: req.legacy_scope.clone(),
        visibility: req.visibility,
        source_type: req.source_type,
        source_ref: text::copy_option(&req.source_ref),
        confirmed_at: text::copy_option(&req.confirmed_at),
        pinned: req.pinned,
        attribute_key: text::copy_option(&req.attribute_key),
        relation_subject_id: text::copy_option(&req.relation_subject_id),
        relation_object_id: text::copy_option(&req.relation_object_id),
    }
}

/// The store's answer as the answer to the actor.
pub open spec fn passes_on(r: Result<MemoryWriteResult, MemoryError>, done: Result<PersistMemoryResult, MemoryError>) -> bool {
    match (r, done) {
        (Ok(w), Ok(p)) => w.memory == p.record && w.archived_ids == p.archived_ids,
        (Err(a), Err(b)) => a == b,
        _ => false,
    }
}

fn write_result(done: Result<PersistMemoryResult, MemoryError>) -> (r: Result<MemoryWriteResult, MemoryError>)
    ensures
        passes_on(r, done),
{
    match done {
        Ok(p) => Ok(MemoryWriteResult { memory: p.record, archived_ids: p.archived_ids }),
        Err(e) => Err(e),
    }
}

/// The identifier that the store returns as a list of one.
pub open spec fn passes_on_one(r: Result<MemoryMutationResult, MemoryError>, done: Result<String, MemoryError>) -> bool {
    match (r, done) {
        (Ok(m), Ok(id)) => m.ids@ == seq![id] && m.count == 1,
        (Err(a), Err(b)) => a == b,
        _ => false,
    }
}

fn one_result(done: Result<String, MemoryError>) -> (r: Result<MemoryMutationResult, MemoryError>)
    ensures
        passes_on_one(r, done),
{
    match done {
        Ok(id) => {
            let mut ids: Vec<String> = Vec::new();
            ids.push(id);
            assert(ids@ =~= seq![id]);
            Ok(MemoryMutationResult::from_ids(ids))
        },
        Err(e) => Err(e),
    }
}

pub open spec fn passes_on_all(r: Result<MemoryMutationResult, MemoryError>, done: Result<Vec<String>, MemoryError>) -> bool {
    match (r, done) {
        (Ok(m), Ok(ids)) => m.ids == ids && m.count == ids@.len(),
        (Err(a), Err(b)) => a == b,
        _ => false,
    }
}

fn all_result(done: Result<Vec<String>, MemoryError>) -> (r: Result<MemoryMutationResult, MemoryError>)
    ensures
        passes_on_all(r, done),
{
    match done {
        Ok(ids) => Ok(MemoryMutationResult::from_ids(ids)),
        Err(e) => Err(e),
    }
}

pub open spec fn passes_on_choice(
    r: Result<ProfilePreferenceResult, MemoryError>,
    enabled: bool,
    done: Result<Vec<String>, MemoryError>,
) -> bool {
    match (r, done) {
        (Ok(p), Ok(ids)) => p.enabled == enabled && p.archived_ids == ids,
        (Err(a), Err(b)) => a == b,
        _ => false,
    }
}

fn choice_result(enabled: bool, done: Result<Vec<String>, MemoryError>) -> (r: Result<ProfilePreferenceResult, MemoryError>)
    ensures
        passes_on_choice(r, enabled, done),
{
    match done {
        Ok(archived_ids) => Ok(ProfilePreferenceResult { enabled, archived_ids }),
        Err(e) => Err(e),
    }
}

/// The memory operations over one store.
#[derive(Debug)]
pub struct MemoryOperations {
    pub store: MemoryStore,
}

impl MemoryOperations {
    pub fn new(store: MemoryStore) -> (r: Self)
        ensures
            r.store == store,
    {
        MemoryOperations { store }
    }

    /// Stores a record of a plain boundary, with its texts masked; the actor is its author.
    pub fn create_scoped(
        &mut self,
        actor: &MemoryActor,
        req: CreateScopedMemoryRequest,
        content_masked: &str,
        source_masked: &str,
    ) -> (r: Result<MemoryRecord, MemoryError>)
        requires
            old(self).store@.wf(),
        ensures
            final(self).store@.wf(),
            create_scoped_answer(
                old(self).store@,
                final(self).store@,
                r,
                *actor,
                req,
                content_masked@,
                source_masked@,
            ),
    {
        match authorize_legacy_scope(req.scope_type, req.scope_id.as_str(), actor, true) {
            Ok(()) => {},
            Err(e) => {
                return Err(e);
            },
        }
        let mut req = req;
        req.created_by_user_id = actor.personal_scope_id.clone();
        let id = outside::new_record_id();
        let now = outside::now_iso_cn();
        let r = self.store.create_scoped(&req, content_masked, source_masked, &id, &now);
        assert(scoped::is_create(
            old(self).store@,
            self.store@,
            r,
            req,
            content_masked@,
            source_masked@,
            id,
            now,
        ));
        r
    }

    /// The active records of a plain boundary.
    pub fn list_scoped(&self, actor: &MemoryActor, query: ScopedMemoryQuery) -> (r: Result<Vec<MemoryRecord>, MemoryError>)
        requires
            self.store@.wf(),
        ensures
            !(may_use_scope(query.scope_type, query.scope_id@, *actor, false)) ==> is_forbidden(r),
            may_use_scope(query.scope_type, query.scope_id@, *actor, false) ==> scoped::is_scoped_list(self.store@, r, query),
    {
        match authorize_legacy_scope(query.scope_type, query.scope_id.as_str(), actor, false) {
            Ok(()) => {},
            Err(e) => {
                return Err(e);
            },
        }
        self.store.list_scoped(&query)
    }

    /// The active record of a plain boundary that the text names.
    pub fn get_scoped(&self, actor: &MemoryActor, scope_type: MemoryScopeType, scope_id: &str, id: &str) -> (r: Result<MemoryRecord, MemoryError>)
        requires
            self.store@.wf(),
        ensures
            get_scoped_answer(self.store@, r, *actor, scope_type, scope_id@, id@),
    {
        match authorize_legacy_scope(scope_type, scope_id, actor, false) {
            Ok(()) => {},
            Err(e) => {
                return Err(e);
            },
        }
        self.store.get_scoped(scope_type, scope_id, id)
    }

    /// Changes fields of the record of a plain boundary that the text names.
    pub fn update_scoped(&mut self, actor: &MemoryActor, scope_type: MemoryScopeType, scope_id: &str, id: &str, req: UpdateMemoryRequest) -> (r: Result<MemoryRecord, MemoryError>)
        requires
            old(self).store@.wf(),
        ensures
            final(self).store@.wf(),
            !(may_use_scope(scope_type, scope_id@, *actor, true)) ==> is_forbidden(r) && final(self).store@ == old(self).store@,
            may_use_scope(scope_type, scope_id@, *actor, true) ==> exists|now: String| #[trigger]
                scoped::is_scoped_update(
                    old(self).store@,
                    final(self).store@,
                    r,
                    scope_type,
                    scope_id@,
                    id@,
                    req,
                    now,
                ),
    {
        match authorize_legacy_scope(scope_type, scope_id, actor, true) {
            Ok(()) => {},
            Err(e) => {
                return Err(e);
            },
        }
        let now = outside::now_iso_cn();
        let r = self.store.update_scoped(scope_type, scope_id, id, &req, &now);
        assert(scoped::is_scoped_update(
            old(self).store@,
            self.store@,
            r,
            scope_type,
            scope_id@,
            id@,
            req,
            now,
        ));
        r
    }

    /// Stores a record, with its texts masked, in the place of the one of a plain boundary that
    /// the text names.
    pub fn replace_scoped(
        &mut self,
        req: ReplaceScopedMemoryRequest,
        content_masked: &str,
        source_masked: &str,
    ) -> (r: Result<MemoryRecord, MemoryError>)
        requires
            old(self).store@.wf(),
        ensures
            final(self).store@.wf(),
            !may_use_scope(req.scope_type, req.scope_id@, req.actor, true) ==> is_forbidden(r)
                && final(self).store@ == old(self).store@,
            may_use_scope(req.scope_type, req.scope_id@, req.actor, true) ==> exists|
                id: String,
                now: String,
            |
                outside::is_record_id(id@) && #[trigger] scoped::is_scoped_replace(
                    old(self).store@,
                    final(self).store@,
                    r,
                    as_storage_request(req),
                    content_masked@,
                    source_masked@,
                    id,
                    now,
                ),
    {
        match authorize_legacy_scope(req.scope_type, req.scope_id.as_str(), &req.actor, true) {
            Ok(()) => {},
            Err(e) => {
                return Err(e);
            },
        }
        let id = outside::new_record_id();
        let now = outside::now_iso_cn();
        let storage = ReplaceScopedStorageRequest {
            scope_type: req.scope_type,
            scope_id: req.scope_id,
            id_or_prefix: req.id_or_prefix,
            created_by_user_id: req.actor.personal_scope_id,
            user_id: req.user_id,
            group_id: req.group_id,
            content: req.content,
            source_text: req.source_text,
            memory_type: req.memory_type,
            scope: req.scope,
        };
        self.store.replace_scoped(&storage, content_masked, source_masked, &id, &now)
    }

    /// Deletes the record of a plain boundary that the text names.
    pub fn delete_scoped(&mut self, actor: &MemoryActor, scope_type: MemoryScopeType, scope_id: &str, id: &str) -> (r: Result<String, MemoryError>)
        requires
            old(self).store@.wf(),
        ensures
            final(self).store@.wf(),
            delete_scoped_answer(
                old(self).store@,
                final(self).store@,
                r,
                *actor,
                scope_type,
                scope_id@,
                id@,
            ),
    {
        match authorize_legacy_scope(scope_type, scope_id, actor, true) {
            Ok(()) => {},
            Err(e) => {
                return Err(e);
            },
        }
        self.store.delete_scoped(scope_type, scope_id, id)
    }

    /// The records of a target with the status asked for.
    pub fn list(&self, actor: &MemoryActor, query: MemoryQuery) -> (r: Result<Vec<MemoryRecord>, MemoryError>)
        requires
            self.store@.wf(),
        ensures
            !(may_use(query.target, *actor, false)) ==> is_forbidden(r),
            may_use(query.target, *actor, false) ==> records::is_listing(self.store@, r, query),
    {
        match authorize_target(&query.target, actor, false) {
            Ok(()) => {},
            Err(e) => {
                return Err(e);
            },
        }
        self.store.list_v3(&query)
    }

    /// The active record with this identifier in the target.
    pub fn get(&self, actor: &MemoryActor, target: &MemoryTarget, id: &str) -> (r: Result<MemoryRecord, MemoryError>)
        requires
            self.store@.wf(),
        ensures
            get_answer(self.store@, r, *actor, *target, id@),
    {
        match authorize_target(target, actor, false) {
            Ok(()) => {},
            Err(e) => {
                return Err(e);
            },
        }
        self.store.get_v3(target, id)
    }

    /// The memories that a conversation may draw on, in the order that the question at hand
    /// gives to the candidates of `recall_candidates_for_context`.
    pub fn recall_for_context(
        &self,
        personal_scope_id: Option<&str>,
        group_scope_id: Option<&str>,
        shared_conversation: bool,
        order: &RecallOrder,
    ) -> (r: Result<MemoryRecall, MemoryError>)
        ensures
            recall::is_ordered_recall(
                self.store@,
                r,
                recall::cleaned_str(personal_scope_id),
                recall::cleaned_str(group_scope_id),
                shared_conversation,
                *order,
            ),
    {
        let candidates = self.store.recall_candidates_for_context(
            personal_scope_id,
            group_scope_id,
            shared_conversation,
        );
        let ghost found = candidates;
        let r = match candidates {
            Ok(recall) => Ok(recall::reorder_recall(&recall, order)),
            Err(e) => Err(e),
        };
        assert(recall::is_recall(
            self.store@,
            found,
            recall::cleaned_str(personal_scope_id),
            recall::cleaned_str(group_scope_id),
            shared_conversation,
            recall::PRIVATE_PERSONAL_CANDIDATE_LIMIT as int,
            recall::GROUP_LAYER_CANDIDATE_LIMIT as int,
        ));
        r
    }

    /// Stores a memory. Only records of the same target, relation and attribute give way to it.
    pub fn save(&mut self, req: SaveMemoryRequest) -> (r: Result<MemoryWriteResult, MemoryError>)
        requires
            old(self).store@.wf(),
        ensures
            final(self).store@.wf(),
            !(may_use(req.target, req.actor, true)) ==> is_forbidden(r) && final(self).store@ == old(self).store@,
            may_use(req.target, req.actor, true) && !(fits_target(req.target, req.visibility)) ==> has_bad_visibility(r) && final(self).store@ == old(self).store@,
            may_use(req.target, req.actor, true) && fits_target(req.target, req.visibility) ==> is_save(old(self).store@, final(self).store@, r, req),
    {
        match authorize_target(&req.target, &req.actor, true) {
            Ok(()) => {},
            Err(e) => {
                return Err(e);
            },
        }
        match validate_visibility(&req.target, req.visibility) {
            Ok(()) => {},
            Err(e) => {
                return Err(e);
            },
        }
        let id = outside::new_record_id();
        let now = outside::now_iso_cn();
        let done = self.store.persist_v3(&persist_request(&req), &id, &now);
        assert(records::is_stored(
            old(self).store@,
            self.store@,
            done,
            as_persisted(req),
            id,
            now,
        ));
        write_result(done)
    }

    /// Replaces a record of the target.
    pub fn replace(&mut self, id: &str, req: SaveMemoryRequest) -> (r: Result<MemoryWriteResult, MemoryError>)
        requires
            old(self).store@.wf(),
        ensures
            final(self).store@.wf(),
            !(may_use(req.target, req.actor, true)) ==> is_forbidden(r) && final(self).store@ == old(self).store@,
            may_use(req.target, req.actor, true) && !(fits_target(req.target, req.visibility)) ==> has_bad_visibility(r) && final(self).store@ == old(self).store@,
            may_use(req.target, req.actor, true) && fits_target(req.target, req.visibility) ==> exists|done: Result<PersistMemoryResult, MemoryError>, new_id: String, now: String|
                outside::is_record_id(new_id@) && passes_on(r, done) && #[trigger] mutations::is_replace(
                    old(self).store@,
                    final(self).store@,
                    done,
                    req.target,
                    id@,
                    as_persisted(req),
                    new_id,
                    now,
                ),
    {
        match authorize_target(&req.target, &req.actor, true) {
            Ok(()) => {},
            Err(e) => {
                return Err(e);
            },
        }
        match validate_visibility(&req.target, req.visibility) {
            Ok(()) => {},
            Err(e) => {
                return Err(e);
            },
        }
        let new_id = outside::new_record_id();
        let now = outside::now_iso_cn();
        let done = self.store.replace_v3(&req.target, id, &persist_request(&req), &new_id, &now);
        assert(mutations::is_replace(
            old(self).store@,
            self.store@,
            done,
            req.target,
            id@,
            as_persisted(req),
            new_id,
            now,
        ));
        write_result(done)
    }

    /// Replaces a record of the target if it still holds what the snapshot holds.
    pub fn replace_if_unchanged(&mut self, id: &str, expected: &MemoryRecord, req: SaveMemoryRequest) -> (r: Result<MemoryWriteResult, MemoryError>)
        requires
            old(self).store@.wf(),
        ensures
            final(self).store@.wf(),
            !(may_use(req.target, req.actor, true)) ==> is_forbidden(r) && final(self).store@ == old(self).store@,
            may_use(req.target, req.actor, true) && !(fits_target(req.target, req.visibility)) ==> has_bad_visibility(r) && final(self).store@ == old(self).store@,
            may_use(req.target, req.actor, true) && fits_target(req.target, req.visibility) ==> exists|done: Result<PersistMemoryResult, MemoryError>, new_id: String, now: String|
                outside::is_record_id(new_id@) && passes_on(r, done) && #[trigger] mutations::is_replace_unchanged(
                    old(self).store@,
                    final(self).store@,
                    done,
                    req.target,
                    id@,
                    *expected,
                    as_persisted(req),
                    new_id,
                    now,
                ),
    {
        match authorize_target(&req.target, &req.actor, true) {
            Ok(()) => {},
            Err(e) => {
                return Err(e);
            },
        }
        match validate_visibility(&req.target, req.visibility) {
            Ok(()) => {},
            Err(e) => {
                return Err(e);
            },
        }
        let new_id = outside::new_record_id();
        let now = outside::now_iso_cn();
        let done = self.store.replace_v3_if_unchanged(
            &req.target,
            id,
            expected,
            &persist_request(&req),
            &new_id,
            &now,
        );
        assert(mutations::is_replace_unchanged(
            old(self).store@,
            self.store@,
            done,
            req.target,
            id@,
            *expected,
            as_persisted(req),
            new_id,
            now,
        ));
        write_result(done)
    }

    /// Archives a record of the target.
    pub fn archive(&mut self, actor: &MemoryActor, target: &MemoryTarget, id: &str) -> (r: Result<MemoryMutationResult, MemoryError>)
        requires
            old(self).store@.wf(),
        ensures
            final(self).store@.wf(),
            !(may_use(*target, *actor, true)) ==> is_forbidden(r) && final(self).store@ == old(self).store@,
            may_use(*target, *actor, true) ==> exists|done: Result<String, MemoryError>, now: String|
                passes_on_one(r, done) && #[trigger] mutations::is_archive(
                    old(self).store@,
                    final(self).store@,
                    done,
                    *target,
                    id@,
                    now,
                ),
    {
        match authorize_target(target, actor, true) {
            Ok(()) => {},
            Err(e) => {
                return Err(e);
            },
        }
        let now = outside::now_iso_cn();
        let done = self.store.archive_v3(target, id, &now);
        assert(mutations::is_archive(old(self).store@, self.store@, done, *target, id@, now));
        one_result(done)
    }

    /// Deletes a record of the target.
    pub fn delete(&mut self, actor: &MemoryActor, target: &MemoryTarget, id: &str) -> (r: Result<MemoryMutationResult, MemoryError>)
        requires
            old(self).store@.wf(),
        ensures
            final(self).store@.wf(),
            !(may_use(*target, *actor, true)) ==> is_forbidden(r) && final(self).store@ == old(self).store@,
            may_use(*target, *actor, true) ==> exists|done: Result<String, MemoryError>|
                passes_on_one(r, done) && #[trigger] mutations::is_delete(
                    old(self).store@,
                    final(self).store@,
                    done,
                    *target,
                    id@,
                ),
    {
        match authorize_target(target, actor, true) {
            Ok(()) => {},
            Err(e) => {
                return Err(e);
            },
        }
        let done = self.store.delete_v3(target, id);
        one_result(done)
    }

    /// Deletes a record of the target if it still holds what the snapshot holds.
    pub fn delete_if_unchanged(&mut self, actor: &MemoryActor, target: &MemoryTarget, id: &str, expected: &MemoryRecord) -> (r: Result<MemoryMutationResult, MemoryError>)
        requires
            old(self).store@.wf(),
        ensures
            final(self).store@.wf(),
            !(may_use(*target, *actor, true)) ==> is_forbidden(r) && final(self).store@ == old(self).store@,
            may_use(*target, *actor, true) ==> exists|done: Result<String, MemoryError>|
                passes_on_one(r, done) && #[trigger] mutations::is_delete_unchanged(
                    old(self).store@,
                    final(self).store@,
                    done,
                    *target,
                    id@,
                    *expected,
                ),
    {
        match authorize_target(target, actor, true) {
            Ok(()) => {},
            Err(e) => {
                return Err(e);
            },
        }
        let done = self.store.delete_v3_if_unchanged(target, id, expected);
        one_result(done)
    }

    /// Deletes all active records of the target.
    pub fn clear(&mut self, actor: &MemoryActor, target: &MemoryTarget) -> (r: Result<MemoryMutationResult, MemoryError>)
        requires
            old(self).store@.wf(),
        ensures
            final(self).store@.wf(),
            !(may_use(*target, *actor, true)) ==> is_forbidden(r) && final(self).store@ == old(self).store@,
            may_use(*target, *actor, true) ==> exists|done: Result<Vec<String>, MemoryError>|
                passes_on_all(r, done) && #[trigger] mutations::is_clear(
                    old(self).store@,
                    final(self).store@,
                    done,
                    *target,
                ),
    {
        match authorize_target(target, actor, true) {
            Ok(()) => {},
            Err(e) => {
                return Err(e);
            },
        }
        let done = self.store.clear_v3(target);
        all_result(done)
    }

    /// Deletes all active records of the target if they are exactly the listed ones.
    pub fn clear_if_unchanged(&mut self, actor: &MemoryActor, target: &MemoryTarget, expected_ids: &Vec<String>) -> (r: Result<MemoryMutationResult, MemoryError>)
        requires
            old(self).store@.wf(),
        ensures
            final(self).store@.wf(),
            !(may_use(*target, *actor, true)) ==> is_forbidden(r) && final(self).store@ == old(self).store@,
            may_use(*target, *actor, true) ==> exists|done: Result<Vec<String>, MemoryError>|
                passes_on_all(r, done) && #[trigger] mutations::is_clear_unchanged(
                    old(self).store@,
                    final(self).store@,
                    done,
                    *target,
                    text::views(expected_ids@),
                ),
    {
        match authorize_target(target, actor, true) {
            Ok(()) => {},
            Err(e) => {
                return Err(e);
            },
        }
        let done = self.store.clear_v3_if_unchanged(target, expected_ids);
        all_result(done)
    }

    /// The identifiers of all active records of the target.
    pub fn list_active_ids(&self, actor: &MemoryActor, target: &MemoryTarget) -> (r: Result<Vec<String>, MemoryError>)
        requires
            self.store@.wf(),
        ensures
            !(may_use(*target, *actor, false)) ==> is_forbidden(r),
            may_use(*target, *actor, false) ==> records::is_id_list(self.store@, r, *target),
    {
        match authorize_target(target, actor, false) {
            Ok(()) => {},
            Err(e) => {
                return Err(e);
            },
        }
        self.store.list_active_ids_v3(target)
    }

    /// Whether the profile may be kept, and the identifiers of its active records.
    pub fn group_profile_snapshot(&self, actor: &MemoryActor, target: &MemoryTarget) -> (r: Result<(bool, Vec<String>), MemoryError>)
        requires
            self.store@.wf(),
        ensures
            !(may_use(*target, *actor, false)) ==> is_forbidden(r),
            may_use(*target, *actor, false) && !(target.memory_kind == MemoryKind::GroupProfile) ==> needs_profile(r),
            may_use(*target, *actor, false) && target.memory_kind == MemoryKind::GroupProfile ==> records::is_snapshot(self.store@, r, *target),
    {
        match authorize_target(target, actor, false) {
            Ok(()) => {},
            Err(e) => {
                return Err(e);
            },
        }
        if target.memory_kind() != MemoryKind::GroupProfile {
            return Err(MemoryError::bad_request("profile preference requires a group profile target"));
        }
        self.store.group_profile_snapshot_v3(target)
    }

    /// Sets whether the group may keep the actor's own profile.
    pub fn set_group_profile_enabled(&mut self, actor: &MemoryActor, target: &MemoryTarget, enabled: bool) -> (r: Result<ProfilePreferenceResult, MemoryError>)
        requires
            old(self).store@.wf(),
        ensures
            final(self).store@.wf(),
            !(may_use(*target, *actor, true)) ==> is_forbidden(r) && final(self).store@ == old(self).store@,
            may_use(*target, *actor, true) && !(target.memory_kind == MemoryKind::GroupProfile) ==> needs_profile(r) && final(self).store@ == old(self).store@,
            may_use(*target, *actor, true) && target.memory_kind == MemoryKind::GroupProfile ==> exists|done: Result<Vec<String>, MemoryError>, now: String|
                passes_on_choice(r, enabled, done) && #[trigger] mutations::is_profile_choice(
                    old(self).store@,
                    final(self).store@,
                    done,
                    *target,
                    enabled,
                    now,
                ),
    {
        match authorize_target(target, actor, true) {
            Ok(()) => {},
            Err(e) => {
                return Err(e);
            },
        }
        if target.memory_kind() != MemoryKind::GroupProfile {
            return Err(MemoryError::bad_request("profile preference requires a group profile target"));
        }
        let now = outside::now_iso_cn();
        let done = self.store.set_group_profile_enabled(target, enabled, &now);
        choice_result(enabled, done)
    }

    /// The same, if the choice and the profile's records are still as in the snapshot.
    pub fn set_group_profile_enabled_if_unchanged(&mut self, actor: &MemoryActor, target: &MemoryTarget, enabled: bool, expected_enabled: bool, expected_ids: &Vec<String>) -> (r: Result<ProfilePreferenceResult, MemoryError>)
        requires
            old(self).store@.wf(),
        ensures
            final(self).store@.wf(),
            !(may_use(*target, *actor, true)) ==> is_forbidden(r) && final(self).store@ == old(self).store@,
            may_use(*target, *actor, true) && !(target.memory_kind == MemoryKind::GroupProfile) ==> needs_profile(r) && final(self).store@ == old(self).store@,
            may_use(*target, *actor, true) && target.memory_kind == MemoryKind::GroupProfile ==> exists|done: Result<Vec<String>, MemoryError>, now: String|
                passes_on_choice(r, enabled, done) && #[trigger] mutations::is_profile_choice_unchanged(
                    old(self).store@,
                    final(self).store@,
                    done,
                    *target,
                    enabled,
                    expected_enabled,
                    text::views(expected_ids@),
                    now,
                ),
    {
        match authorize_target(target, actor, true) {
            Ok(()) => {},
            Err(e) => {
                return Err(e);
            },
        }
        if target.memory_kind() != MemoryKind::GroupProfile {
            return Err(MemoryError::bad_request("profile preference requires a group profile target"));
        }
        let now = outside::now_iso_cn();
        let done = self.store.set_group_profile_enabled_if_unchanged(
            target,
            enabled,
            expected_enabled,
            expected_ids,
            &now,
        );
        choice_result(enabled, done)
    }
}

/// What saving a memory leaves and returns.
pub open spec fn is_save(s: StoreView, t: StoreView, r: Result<MemoryWriteResult, MemoryError>, req: SaveMemoryRequest) -> bool {
    exists|done: Result<PersistMemoryResult, MemoryError>, id: String, now: String|
        outside::is_record_id(id@) && passes_on(r, done) && #[trigger] records::is_stored(
            s,
            t,
            done,
            as_persisted(req),
            id,
            now,
        )
}

/// The whole answer to a request to read a record of a target.
pub open spec fn get_answer(
    s: StoreView,
    r: Result<MemoryRecord, MemoryError>,
    actor: MemoryActor,
    target: MemoryTarget,
    id: Seq<char>,
) -> bool {
    if !may_use(target, actor, false) {
        is_forbidden(r)
    } else {
        records::is_get(s, r, target, id)
    }
}

/// The whole answer to a request to save.
pub open spec fn save_answer(s: StoreView, t: StoreView, r: Result<MemoryWriteResult, MemoryError>, req: SaveMemoryRequest) -> bool {
    if !may_use(req.target, req.actor, true) {
        is_forbidden(r) && t == s
    } else if !fits_target(req.target, req.visibility) {
        has_bad_visibility(r) && t == s
    } else {
        is_save(s, t, r, req)
    }
}

/// The whole answer to a request to replace a record as of a snapshot.
pub open spec fn replace_answer(
    s: StoreView,
    t: StoreView,
    r: Result<MemoryWriteResult, MemoryError>,
    id: Seq<char>,
    expected: MemoryRecord,
    req: SaveMemoryRequest,
) -> bool {
    if !may_use(req.target, req.actor, true) {
        is_forbidden(r) && t == s
    } else if !fits_target(req.target, req.visibility) {
        has_bad_visibility(r) && t == s
    } else {
        exists|done: Result<PersistMemoryResult, MemoryError>, new_id: String, now: String|
            outside::is_record_id(new_id@) && passes_on(r, done)
                && #[trigger] mutations::is_replace_unchanged(
                s,
                t,
                done,
                req.target,
                id,
                expected,
                as_persisted(req),
                new_id,
                now,
            )
    }
}

/// The whole answer to a request to delete a record as of a snapshot.
pub open spec fn delete_answer(
    s: StoreView,
    t: StoreView,
    r: Result<MemoryMutationResult, MemoryError>,
    actor: MemoryActor,
    target: MemoryTarget,
    id: Seq<char>,
    expected: MemoryRecord,
) -> bool {
    if !may_use(target, actor, true) {
        is_forbidden(r) && t == s
    } else {
        exists|done: Result<String, MemoryError>|
            passes_on_one(r, done) && #[trigger] mutations::is_delete_unchanged(
                s,
                t,
                done,
                target,
                id,
                expected,
            )
    }
}

/// The whole answer to a request to clear exactly the listed records.
pub open spec fn clear_answer(
    s: StoreView,
    t: StoreView,
    r: Result<MemoryMutationResult, MemoryError>,
    actor: MemoryActor,
    target: MemoryTarget,
    expected: Seq<Seq<char>>,
) -> bool {
    if !may_use(target, actor, true) {
        is_forbidden(r) && t == s
    } else {
        exists|done: Result<Vec<String>, MemoryError>|
            passes_on_all(r, done) && #[trigger] mutations::is_clear_unchanged(
                s,
                t,
                done,
                target,
                expected,
            )
    }
}

/// The whole answer to a member's choice as of a snapshot.
pub open spec fn choice_answer(
    s: StoreView,
    t: StoreView,
    r: Result<ProfilePreferenceResult, MemoryError>,
    actor: MemoryActor,
    target: MemoryTarget,
    enabled: bool,
    expected_enabled: bool,
    expected: Seq<Seq<char>>,
) -> bool {
    if !may_use(target, actor, true) {
        is_forbidden(r) && t == s
    } else if target.memory_kind != MemoryKind::GroupProfile {
        needs_profile(r) && t == s
    } else {
        exists|done: Result<Vec<String>, MemoryError>, now: String|
            passes_on_choice(r, enabled, done) && #[trigger] mutations::is_profile_choice_unchanged(
                s,
                t,
                done,
                target,
                enabled,
                expected_enabled,
                expected,
                now,
            )
    }
}

/// The whole answer to a request to create a record of a plain boundary.
pub open spec fn create_scoped_answer(
    s: StoreView,
    t: StoreView,
    r: Result<MemoryRecord, MemoryError>,
    actor: MemoryActor,
    req: CreateScopedMemoryRequest,
    content_masked: Seq<char>,
    source_masked: Seq<char>,
) -> bool {
    if !may_use_scope(req.scope_type, req.scope_id@, actor, true) {
        is_forbidden(r) && t == s
    } else {
        exists|id: String, now: String|
            outside::is_record_id(id@) && #[trigger] scoped::is_create(
                s,
                t,
                r,
                CreateScopedMemoryRequest { created_by_user_id: actor.personal_scope_id, ..req },
                content_masked,
                source_masked,
                id,
                now,
            )
    }
}

/// The whole answer to a request to read a record of a plain boundary.
pub open spec fn get_scoped_answer(
    s: StoreView,
    r: Result<MemoryRecord, MemoryError>,
    actor: MemoryActor,
    scope_type: MemoryScopeType,
    scope_id: Seq<char>,
    id: Seq<char>,
) -> bool {
    if !may_use_scope(scope_type, scope_id, actor, false) {
        is_forbidden(r)
    } else {
        scoped::is_scoped_get(s, r, scope_type, scope_id, id)
    }
}

/// The whole answer to a request to delete a record of a plain boundary.
pub open spec fn delete_scoped_answer(
    s: StoreView,
    t: StoreView,
    r: Result<String, MemoryError>,
    actor: MemoryActor,
    scope_type: MemoryScopeType,
    scope_id: Seq<char>,
    id: Seq<char>,
) -> bool {
    if !may_use_scope(scope_type, scope_id, actor, true) {
        is_forbidden(r) && t == s
    } else {
        scoped::is_scoped_delete(s, t, r, scope_type, scope_id, id)
    }
}

/// A replacement as the store takes it: the author is the actor.
pub open spec fn as_storage_request(req: ReplaceScopedMemoryRequest) -> ReplaceScopedStorageRequest {
    ReplaceScopedStorageRequest {
        scope_type: req.scope_type,
        scope_id: req.scope_id,
        id_or_prefix: req.id_or_prefix,
        created_by_user_id: req.actor.personal_scope_id,
        user_id: req.user_id,
        group_id: req.group_id,
        content: req.content,
        source_text: req.source_text,
        memory_type: req.memory_type,
        scope: req.scope,
    }
}

// Laws.

/// Managing a group gives no hold on anybody else's notes or profile: what it opens
/// beyond the actor's own records are the notes of that group.
pub proof fn managing_a_group_opens_only_its_notes(target: MemoryTarget, actor: MemoryActor, plain: MemoryActor, write: bool)
    requires
        plain == (MemoryActor { can_manage_group_memory: false, ..actor }),
        may_use(target, actor, write),
        !may_use(target, plain, write),
    ensures
        target.memory_kind == MemoryKind::Group,
        text::opt_view(actor.group_scope_id) == Some(target.scope_id@),
        write,
{
}

/// Who may change a target may read it.
pub proof fn writers_may_read(target: MemoryTarget, actor: MemoryActor)
    requires
        may_use(target, actor, true),
    ensures
        may_use(target, actor, false),
{
}

/// A stored memory displaces only active records of its own target, relation and
/// attribute.
pub proof fn saving_displaces_only_rivals(s: StoreView, record: MemoryRecord, now: String, k: int)
    requires
        0 <= k < s.rows.len(),
        record.scope_id is Some,
    ensures
        ({
            let t = records::with_stored(s, record, now);
            ||| t.rows[k] == s.rows[k]
            ||| {
                let old = s.rows[k].record;
                &&& old.scope_type == record.scope_type
                &&& text::opt_view(old.scope_id) == text::opt_view(record.scope_id)
                &&& old.memory_kind == record.memory_kind
                &&& text::opt_view(old.subject_id) == text::opt_view(record.subject_id)
                &&& text::opt_view(old.relation_subject_id) == text::opt_view(
                    record.relation_subject_id,
                )
                &&& text::opt_view(old.relation_object_id) == text::opt_view(
                    record.relation_object_id,
                )
                &&& text::opt_view(old.attribute_key) == text::opt_view(record.attribute_key)
                &&& record.attribute_key is Some
            }
        }),
{
}

/// After a member has opted out, no profile of them is stored until they opt in again.
pub proof fn no_profile_is_stored_after_opting_out(
    s: StoreView,
    t: StoreView,
    r: Result<PersistMemoryResult, MemoryError>,
    req: PersistMemoryRequest,
    id: String,
    now: String,
)
    requires
        records::is_stored(s, t, r, req, id, now),
        req.target.memory_kind == MemoryKind::GroupProfile,
        req.target.is_clean(),
        !records::profile_enabled(s, req.target),
    ensures
        r is Err,
        t == s,
{
}

/// Opting out is remembered: the profile of the target is then not enabled, and opting in
/// again enables it.
pub proof fn profile_choice_is_remembered(
    s: StoreView,
    t: StoreView,
    target: MemoryTarget,
    enabled: bool,
)
    requires
        records::with_preference(s.preferences, t.preferences, target, enabled),
    ensures
        records::profile_enabled(t, target) == enabled,
{
    let group = target.scope_id@;
    let subject = records::subject_text(target);
    let k = choose|k: int|
        0 <= k < t.preferences.len() && records::is_preference(
            #[trigger] t.preferences[k],
            group,
            subject,
        );
    assert(t.preferences[k].profile_enabled == enabled);
}

} // verus!
