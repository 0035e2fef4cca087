//! Memories: saving, listing, the background pass and changes that wait for the user.
use qq_maid_core::memory::consolidation::{ConsolidationLimits, ConsolidationRunStats};
use qq_maid_core::memory::draft::{
    accept_draft, choose_reading, classify_draft, contains_sensitive_text, extract_draft_text,
};
use qq_maid_core::memory::flow::{
    execute_pending_memory, finish_pending_memory, handle_memory_scope_clarification,
    handle_pending_memory_lifecycle, parse_scope_choice, revise_pending_memory, PendingFacts,
    PendingNotice, PendingReplyKind, PendingStep, PreparedActionState, Revision,
};
use qq_maid_core::memory::operations::MemoryOperations;
use qq_maid_core::memory::pending::{memory_lexicon, MemoryPendingPayload, PreparedMemoryDraft};
use qq_maid_core::memory::recall::RecallOrder;
use qq_maid_core::memory::receipt::{format_memory_saved_reply, memory_write_error_reply};
use qq_maid_core::memory::save::{
    actor_and_meta, outcome_output, safe_source_ref, CallContext, ConversationKind, SaveCall,
    SaveMemoryTool, SaveOutcome,
};
use qq_maid_core::memory::store::MemoryStore;
use qq_maid_core::memory::types::{
    CreateScopedMemoryRequest, MemoryActor, MemoryCategory, MemoryError, MemoryKind, MemoryQuery,
    MemoryScopeType, MemorySourceType, MemoryStatus, MemoryTarget, MemoryVisibility,
    ReplaceScopedMemoryRequest, ReplaceScopedStorageRequest, SaveMemoryRequest, ScopedMemoryQuery, UpdateMemoryRequest,
};
use qq_maid_core::memory::worker::{
    MemoryConsolidationConfig, MemoryConsolidationRunStats, MemoryConsolidationWorker,
};

fn operations() -> MemoryOperations {
    MemoryOperations::new(MemoryStore::new())
}

fn save(
    operations: &mut MemoryOperations,
    target: MemoryTarget,
    actor: MemoryActor,
    content: &str,
    source_ref: &str,
) {
    save_with_source_ref(operations, target, actor, content, Some(source_ref));
}

fn request(
    target: MemoryTarget,
    actor: MemoryActor,
    content: &str,
    source_ref: Option<&str>,
) -> SaveMemoryRequest {
    let visibility = match target.memory_kind() {
        MemoryKind::Personal => MemoryVisibility::Private,
        MemoryKind::GroupProfile => MemoryVisibility::ContextOnly,
        MemoryKind::Group => MemoryVisibility::GroupMembers,
        MemoryKind::LegacyUnassigned => MemoryVisibility::Private,
    };
    SaveMemoryRequest {
        actor,
        target,
        content: content.to_owned(),
        source_text: content.to_owned(),
        category: MemoryCategory::Note,
        legacy_scope: "general".to_owned(),
        visibility,
        source_type: MemorySourceType::UserConfirmed,
        source_ref: source_ref.map(str::to_owned),
        confirmed_at: None,
        pinned: false,
        attribute_key: None,
        relation_subject_id: None,
        relation_object_id: None,
    }
}

fn save_with_source_ref(
    operations: &mut MemoryOperations,
    target: MemoryTarget,
    actor: MemoryActor,
    content: &str,
    source_ref: Option<&str>,
) {
    operations
        .save(request(target, actor, content, source_ref))
        .unwrap();
}

fn target_row_ids(operations: &MemoryOperations, target: &MemoryTarget) -> Vec<i64> {
    operations
        .store
        .rows
        .iter()
        .filter(|row| {
            row.record.scope_type == target.scope_type()
                && row.record.scope_id.as_deref() == Some(target.scope_id())
                && row.record.memory_kind == target.memory_kind()
                && row.record.subject_id.as_deref() == target.subject_id()
        })
        .map(|row| row.row_id)
        .collect()
}

fn checkpoint(operations: &MemoryOperations, target: &MemoryTarget) -> (i64, bool) {
    let found = operations
        .store
        .checkpoints
        .iter()
        .find(|checkpoint| checkpoint.target.same_as(target))
        .unwrap();
    (found.last_processed_row_id, found.truncated)
}

fn actor(scope_id: &str) -> MemoryActor {
    MemoryActor {
        user_id: scope_id.to_owned(),
        personal_scope_id: scope_id.to_owned(),
        group_scope_id: None,
        can_manage_group_memory: false,
    }
}

fn group_actor(personal_scope_id: &str, group_scope_id: &str, admin: bool) -> MemoryActor {
    MemoryActor {
        user_id: personal_scope_id.to_owned(),
        personal_scope_id: personal_scope_id.to_owned(),
        group_scope_id: Some(group_scope_id.to_owned()),
        can_manage_group_memory: admin,
    }
}

fn limits() -> ConsolidationLimits {
    ConsolidationLimits {
        min_interval_seconds: 3600,
        min_new_records: 2,
        min_distinct_sources: 2,
        max_records: 100,
        max_input_chars: 32_000,
    }
}

#[test]
fn exact_duplicates_are_archived_with_history_preserved() {
    let mut operations = operations();
    save(
        &mut operations,
        MemoryTarget::personal("u1"),
        actor("u1"),
        "喜欢 Rust",
        "tool:a",
    );
    save(
        &mut operations,
        MemoryTarget::personal("u1"),
        actor("u1"),
        " 喜欢   Rust ",
        "tool:b",
    );

    let stats = operations.store.consolidate_due(limits(), 10_000).unwrap();
    assert_eq!(stats.archived_duplicate_count, 1);
    let active = operations
        .list(
            &actor("u1"),
            MemoryQuery::active(MemoryTarget::personal("u1")),
        )
        .unwrap();
    let mut archived_query = MemoryQuery::active(MemoryTarget::personal("u1"));
    archived_query.status = Some(MemoryStatus::Archived);
    let archived = operations.list(&actor("u1"), archived_query).unwrap();
    assert_eq!(active.len(), 1);
    assert_eq!(archived.len(), 1);
}

#[test]
fn max_records_checkpoint_advances_only_through_scanned_batches() {
    let mut operations = operations();
    let target = MemoryTarget::personal("u1");
    for index in 0..5 {
        save(
            &mut operations,
            target.clone(),
            actor("u1"),
            &format!("批记录 {index}"),
            &format!("tool:{index}"),
        );
    }
    let row_ids = target_row_ids(&operations, &target);
    let mut batch_limits = limits();
    batch_limits.max_records = 2;

    let first = operations.store.consolidate_due(batch_limits, 10_000).unwrap();
    assert_eq!(first.input_record_count, 2);
    assert_eq!(first.truncated_target_count, 1);
    assert_eq!(checkpoint(&operations, &target), (row_ids[1], true));

    let second = operations.store.consolidate_due(batch_limits, 13_600).unwrap();
    assert_eq!(second.input_record_count, 2);
    assert_eq!(second.truncated_target_count, 1);
    assert_eq!(checkpoint(&operations, &target), (row_ids[3], true));

    let third = operations.store.consolidate_due(batch_limits, 17_200).unwrap();
    assert_eq!(third.input_record_count, 1);
    assert_eq!(third.truncated_target_count, 0);
    assert_eq!(checkpoint(&operations, &target), (row_ids[4], false));
}

#[test]
fn max_input_chars_checkpoint_continues_with_unscanned_records() {
    let mut operations = operations();
    let target = MemoryTarget::personal("u1");
    for (content, source_ref) in [("aaaa", "tool:a"), ("bbbb", "tool:b"), ("cccc", "tool:c")] {
        save(&mut operations, target.clone(), actor("u1"), content, source_ref);
    }
    let row_ids = target_row_ids(&operations, &target);
    let mut batch_limits = limits();
    batch_limits.max_input_chars = 5;

    for (now_epoch, expected_row_id, expected_truncated) in [
        (10_000, row_ids[0], true),
        (13_600, row_ids[1], true),
        (17_200, row_ids[2], false),
    ] {
        let stats = operations.store.consolidate_due(batch_limits, now_epoch).unwrap();
        assert_eq!(stats.input_record_count, 1);
        assert_eq!(
            checkpoint(&operations, &target),
            (expected_row_id, expected_truncated)
        );
    }
}

#[test]
fn null_source_refs_do_not_satisfy_distinct_safe_source_gate() {
    let mut operations = operations();
    let target = MemoryTarget::personal("u1");
    for index in 0..3 {
        save_with_source_ref(
            &mut operations,
            target.clone(),
            actor("u1"),
            &format!("无来源记录 {index}"),
            None,
        );
    }

    let stats = operations.store.consolidate_due(limits(), 10_000).unwrap();
    assert_eq!(stats.candidate_target_count, 0);
    let checkpoint_count = operations.store.checkpoints.len();
    assert_eq!(checkpoint_count, 0);
}

#[test]
fn identical_content_in_different_scopes_is_never_merged() {
    let mut operations = operations();
    for scope in ["u1", "u2"] {
        save(
            &mut operations,
            MemoryTarget::personal(scope),
            actor(scope),
            "共同文本",
            &format!("tool:{scope}:a"),
        );
        save(
            &mut operations,
            MemoryTarget::personal(scope),
            actor(scope),
            "另一条记录",
            &format!("tool:{scope}:b"),
        );
    }

    let stats = operations.store.consolidate_due(limits(), 10_000).unwrap();
    assert_eq!(stats.archived_duplicate_count, 0);
    for scope in ["u1", "u2"] {
        let records = operations
            .list(
                &actor(scope),
                MemoryQuery::active(MemoryTarget::personal(scope)),
            )
            .unwrap();
        assert_eq!(records.len(), 2);
    }
}

#[test]
fn identical_content_in_different_groups_is_never_merged() {
    let mut operations = operations();
    for group in ["group-a", "group-b"] {
        let actor = group_actor("admin", group, true);
        save(
            &mut operations,
            MemoryTarget::group(group),
            actor.clone(),
            "相同群规则",
            &format!("tool:{group}:a"),
        );
        save(
            &mut operations,
            MemoryTarget::group(group),
            actor,
            "独立群规则",
            &format!("tool:{group}:b"),
        );
    }

    let stats = operations.store.consolidate_due(limits(), 10_000).unwrap();
    assert_eq!(stats.archived_duplicate_count, 0);
    for group in ["group-a", "group-b"] {
        let actor = group_actor("admin", group, true);
        let records = operations
            .list(&actor, MemoryQuery::active(MemoryTarget::group(group)))
            .unwrap();
        assert_eq!(records.len(), 2);
    }
}

#[test]
fn opted_out_group_profile_is_not_consolidated() {
    let mut operations = operations();
    let actor = group_actor("member", "group-a", false);
    let target = MemoryTarget::group_profile("group-a", "member");
    save(&mut operations, target.clone(), actor.clone(), "画像内容", "tool:a");
    save(&mut operations, target.clone(), actor.clone(), "画像内容", "tool:b");
    let result = operations
        .set_group_profile_enabled(&actor, &target, false)
        .unwrap();
    assert_eq!(result.archived_ids.len(), 2);

    let stats = operations.store.consolidate_due(limits(), 10_000).unwrap();
    assert_eq!(stats.candidate_target_count, 0);
    assert_eq!(stats.archived_duplicate_count, 0);
}

#[test]
fn failed_archive_rolls_back_records_and_checkpoint() {
    let mut operations = operations();
    save(
        &mut operations,
        MemoryTarget::personal("u1"),
        actor("u1"),
        "重复",
        "tool:a",
    );
    save(
        &mut operations,
        MemoryTarget::personal("u1"),
        actor("u1"),
        "重复",
        "tool:b",
    );
    operations.store.abort_memory_archive_for_test().unwrap();

    assert!(operations.store.consolidate_due(limits(), 10_000).is_err());
    let records = operations
        .list(
            &actor("u1"),
            MemoryQuery::active(MemoryTarget::personal("u1")),
        )
        .unwrap();
    assert_eq!(records.len(), 2);
    let checkpoint_count = operations.store.checkpoints.len();
    assert_eq!(checkpoint_count, 0);
}

#[test]
fn letters_of_either_case_count_as_the_same() {
    let mut operations = operations();
    for (content, source) in [("Café ÉCLAIR", "tool:a"), ("CAFÉ éclair", "tool:b")] {
        save(
            &mut operations,
            MemoryTarget::personal("u1"),
            actor("u1"),
            content,
            source,
        );
    }
    let stats = operations.store.consolidate_due(limits(), 10_000).unwrap();
    assert_eq!(stats.archived_duplicate_count, 1);
}

#[test]
fn a_second_pass_archives_each_duplicate_only_once() {
    let mut operations = operations();
    for source in ["tool:a", "tool:b"] {
        save(
            &mut operations,
            MemoryTarget::personal("u1"),
            actor("u1"),
            "并发重复",
            source,
        );
    }
    let first = operations.store.consolidate_due(limits(), 10_000).unwrap();
    let second = operations.store.consolidate_due(limits(), 10_000).unwrap();
    assert_eq!(first.archived_duplicate_count + second.archived_duplicate_count, 1);
    let records = operations
        .list(
            &actor("u1"),
            MemoryQuery::active(MemoryTarget::personal("u1")),
        )
        .unwrap();
    assert_eq!(records.len(), 1);
}

#[test]
fn the_worker_runs_only_when_it_is_enabled() {
    let mut operations = operations();
    for source in ["tool:a", "tool:b"] {
        save(
            &mut operations,
            MemoryTarget::personal("u1"),
            actor("u1"),
            "重复",
            source,
        );
    }
    let config = MemoryConsolidationConfig {
        enabled: false,
        check_interval_seconds: 5,
        min_interval_seconds: 3600,
        min_new_records: 2,
        min_distinct_sources: 2,
        max_records: 100,
        max_input_chars: 32_000,
    };
    let mut idle = MemoryConsolidationWorker::new(operations.store, config);
    assert_eq!(idle.tick_seconds(), 60);
    let stats = idle.run_once(10_000).unwrap();
    assert_eq!(stats, MemoryConsolidationRunStats::from(ConsolidationRunStats::default()));
    let mut worker = MemoryConsolidationWorker::new(
        idle.store,
        MemoryConsolidationConfig {
            enabled: true,
            ..config
        },
    );
    let stats = worker.run_once(10_000).unwrap();
    assert_eq!(stats.candidate_target_count, 1);
    assert_eq!(stats.processed_target_count, 1);
    assert_eq!(stats.input_record_count, 2);
    assert_eq!(stats.output_record_count, 1);
    assert_eq!(stats.archived_duplicate_count, 1);
}

#[test]
fn a_failed_run_says_why() {
    let mut store = MemoryStore::new();
    store.drop_schema_for_test().unwrap();
    let mut worker = MemoryConsolidationWorker::new(
        store,
        MemoryConsolidationConfig {
            enabled: true,
            check_interval_seconds: 90,
            min_interval_seconds: 3600,
            min_new_records: 2,
            min_distinct_sources: 2,
            max_records: 100,
            max_input_chars: 32_000,
        },
    );
    assert_eq!(worker.tick_seconds(), 90);
    assert!(worker.run_once(10_000).unwrap_err().starts_with("io_error: "));
}

#[test]
fn others_cannot_read_or_write_a_target() {
    let mut operations = operations();
    save(
        &mut operations,
        MemoryTarget::personal("u1"),
        actor("u1"),
        "秘密",
        "tool:a",
    );
    let error = operations
        .list(&actor("u2"), MemoryQuery::active(MemoryTarget::personal("u1")))
        .unwrap_err();
    assert_eq!(error.code(), "forbidden");
    let error = operations
        .save(request(MemoryTarget::personal("u1"), actor("u2"), "改写", None))
        .unwrap_err();
    assert_eq!(error.code(), "forbidden");
    let member = group_actor("member", "group-a", false);
    let error = operations
        .save(request(MemoryTarget::group("group-a"), member, "群规", None))
        .unwrap_err();
    assert_eq!(error.code(), "forbidden");
}

#[test]
fn a_new_attribute_value_archives_the_old_one() {
    let mut operations = operations();
    for content in ["叫我小明", "叫我小红"] {
        let mut request = request(MemoryTarget::personal("u1"), actor("u1"), content, None);
        request.attribute_key = Some("nickname".to_owned());
        operations.save(request).unwrap();
    }
    let active = operations
        .list(
            &actor("u1"),
            MemoryQuery::active(MemoryTarget::personal("u1")),
        )
        .unwrap();
    assert_eq!(active.len(), 1);
    assert_eq!(active[0].content, "叫我小红");
}

#[test]
fn deleting_undoes_saving() {
    let mut operations = operations();
    let target = MemoryTarget::personal("u1");
    let saved = operations
        .save(request(target.clone(), actor("u1"), "喜欢茶", None))
        .unwrap();
    let deleted = operations.delete(&actor("u1"), &target, &saved.memory.id).unwrap();
    assert_eq!(deleted.ids, vec![saved.memory.id.clone()]);
    assert_eq!(deleted.count, 1);
    assert!(operations.store.rows.is_empty());
    let error = operations.delete(&actor("u1"), &target, &saved.memory.id).unwrap_err();
    assert_eq!(error.code(), "not_found");
}

#[test]
fn records_get_their_own_identifiers() {
    let mut operations = operations();
    let target = MemoryTarget::personal("u1");
    let first = operations.save(request(target.clone(), actor("u1"), "甲", None)).unwrap();
    let second = operations.save(request(target, actor("u1"), "乙", None)).unwrap();
    assert!(!first.memory.id.is_empty());
    assert_ne!(first.memory.id, second.memory.id);
    assert!(!first.memory.created_at.is_empty());
}

#[test]
fn a_stale_snapshot_changes_nothing() {
    let mut operations = operations();
    let target = MemoryTarget::personal("u1");
    let saved = operations
        .save(request(target.clone(), actor("u1"), "原文", None))
        .unwrap();
    let mut stale = saved.memory.clone();
    stale.content = "别的".to_owned();
    let error = operations
        .delete_if_unchanged(&actor("u1"), &target, &saved.memory.id, &stale)
        .unwrap_err();
    assert_eq!(error.code(), "memory_changed");
    assert_eq!(operations.store.rows.len(), 1);
}

#[test]
fn recall_keeps_private_notes_out_of_groups() {
    let mut operations = operations();
    save(
        &mut operations,
        MemoryTarget::personal("u1"),
        actor("u1"),
        "私人",
        "tool:a",
    );
    let order = RecallOrder {
        group: vec![0],
        group_profile: vec![0],
        personal: vec![0],
    };
    let alone = operations.recall_for_context(Some("u1"), None, false, &order).unwrap();
    assert_eq!(alone.personal.len(), 1);
    let shared = operations
        .recall_for_context(Some("u1"), Some("group-a"), true, &order)
        .unwrap();
    assert!(shared.personal.is_empty());
}

// Drafts.

#[test]
fn the_draft_is_found_in_the_reply() {
    assert_eq!(
        extract_draft_text("{\"content\":\"喜欢茶\"}").as_deref(),
        Some("喜欢茶")
    );
    assert_eq!(
        extract_draft_text("```json\n{\"content\":\"喜欢茶\"}\n```").as_deref(),
        Some("喜欢茶")
    );
    assert_eq!(
        extract_draft_text("好的：{\"content\":\"喜欢茶\"}。").as_deref(),
        Some("喜欢茶")
    );
    assert_eq!(extract_draft_text("没有"), None);
}

#[test]
fn secrets_are_not_kept() {
    assert!(contains_sensitive_text("登录密码是 123456", "登录密码是 123456"));
    assert!(!contains_sensitive_text("喜欢茶", "喜欢茶"));
    assert!(contains_sensitive_text("喜欢茶", "喜欢*"));
    assert_eq!(accept_draft("喜欢茶".to_owned(), "喜欢茶").as_deref(), Some("喜欢茶"));
    assert_eq!(accept_draft("喜欢茶".to_owned(), "喜欢*"), None);
}

#[test]
fn drafts_are_classified_by_their_words() {
    let (category, key) = classify_draft("以后叫我小明", MemoryKind::Personal);
    assert_eq!(category, MemoryCategory::Identity);
    assert_eq!(key.as_deref(), Some("nickname"));
    assert_eq!(
        classify_draft("喜欢茶", MemoryKind::Personal).0,
        MemoryCategory::Preference
    );
    assert_eq!(
        classify_draft("每周五例会", MemoryKind::Group).0,
        MemoryCategory::Instruction
    );
    assert_eq!(
        classify_draft("每周五例会", MemoryKind::Personal).0,
        MemoryCategory::Note
    );
}

#[test]
fn receipts_name_the_place() {
    assert_eq!(
        format_memory_saved_reply(MemoryKind::Personal, " 喜欢茶 "),
        "🧠 已记住\n范围：个人记忆\n内容：喜欢茶"
    );
    assert_eq!(
        memory_write_error_reply("anything"),
        "长期记忆写入失败，没有保存。请稍后重试。"
    );
}

#[test]
fn scope_choices_are_read() {
    assert_eq!(parse_scope_choice(" 个人。"), Some(MemoryKind::Personal));
    assert_eq!(parse_scope_choice("群画像！"), Some(MemoryKind::GroupProfile));
    assert_eq!(parse_scope_choice("group"), Some(MemoryKind::Group));
    assert_eq!(parse_scope_choice("随便"), None);
}

// The tool.

fn call(content: &str) -> SaveCall {
    SaveCall {
        negated: false,
        source_masked: "记住我喜欢茶".to_owned(),
        content: Some(content.to_owned()),
        content_masked: content.to_owned(),
        plain: content.to_owned(),
        draft_masked: content.to_owned(),
        actor: Some(actor("u1")),
        conversation: ConversationKind::Private,
        inferred_kind: None,
        suggested: None,
        tool_call_id: Some("call-1".to_owned()),
        task_id: "task-1".to_owned(),
        has_pending: false,
    }
}

fn tool() -> SaveMemoryTool {
    SaveMemoryTool::new(MemoryStore::new()).scoped_for_request("记住我喜欢茶".to_owned())
}

#[test]
fn an_explicit_request_is_saved() {
    let mut tool = tool();
    let outcome = tool.execute(&call("喜欢茶"));
    let SaveOutcome::Saved { result } = &outcome else {
        panic!("expected a saved memory");
    };
    assert_eq!(result.memory.content, "喜欢茶");
    assert_eq!(result.memory.source_ref.as_deref(), Some("tool:call-1"));
    let report = outcome_output(&outcome);
    assert_eq!(report.get_str("scope"), Some("personal"));
    assert_eq!(report.get_str("scope_label"), Some("个人记忆"));
    assert_eq!(report.get_bool("ok"), Some(true));
    assert_eq!(report.get_whole("archived_conflicts"), Some(0));
}

fn code_of(outcome: SaveOutcome) -> String {
    match outcome {
        SaveOutcome::Failed { code, .. } => code,
        _ => panic!("expected a failure"),
    }
}

#[test]
fn every_refusal_of_the_tool_has_its_code() {
    let mut negated = call("喜欢茶");
    negated.negated = true;
    assert_eq!(code_of(tool().execute(&negated)), "memory_intent_required");
    let silent = SaveMemoryTool::new(MemoryStore::new()).execute(&call("喜欢茶"));
    assert_eq!(code_of(silent), "memory_intent_required");
    let mut secret = call("密码是 123456");
    secret.content_masked = "密码是 ***".to_owned();
    assert_eq!(code_of(tool().execute(&secret)), "memory_sensitive_rejected");
    assert_eq!(code_of(tool().execute(&call(" "))), "bad_tool_arguments");
    let mut nobody = call("喜欢茶");
    nobody.actor = None;
    assert_eq!(code_of(tool().execute(&nobody)), "memory_actor_missing");
    let mut channel = call("喜欢茶");
    channel.conversation = ConversationKind::Channel;
    assert_eq!(code_of(tool().execute(&channel)), "memory_scope_unsupported");
    let mut group = call("群规");
    group.conversation = ConversationKind::Group;
    group.actor = Some(group_actor("u1", "g1", false));
    group.inferred_kind = Some(MemoryKind::Group);
    assert_eq!(code_of(tool().execute(&group)), "group_admin_required");
    group.inferred_kind = None;
    group.has_pending = true;
    assert_eq!(code_of(tool().execute(&group)), "memory_pending_conflict");
}

#[test]
fn a_group_message_without_a_place_leads_to_a_question() {
    let mut group = call("喜欢茶");
    group.conversation = ConversationKind::Group;
    group.actor = Some(group_actor("u1", "g1", false));
    group.suggested = Some("group".to_owned());
    let outcome = tool().execute(&group);
    let SaveOutcome::AskScope { payload } = &outcome else {
        panic!("expected a question");
    };
    assert_eq!(payload.action_kind(), "clarify_scope");
    let shown = payload.display_snapshot();
    assert_eq!(shown.get_str("content"), Some("喜欢茶"));
    assert_eq!(shown.get_list("choices").unwrap().len(), 3);
    let report = outcome_output(&outcome);
    assert_eq!(report.get_str("error_code"), Some("memory_scope_ambiguous"));
    assert_eq!(report.get_bool("requires_clarification"), Some(true));
}

#[test]
fn only_safe_references_are_kept() {
    assert_eq!(
        safe_source_ref(&Some(" a_b-1:2.3 ".to_owned()), "t").as_deref(),
        Some("tool:a_b-1:2.3")
    );
    assert_eq!(safe_source_ref(&None, "task").as_deref(), Some("tool:task"));
    assert_eq!(safe_source_ref(&Some("有空格 1".to_owned()), "t"), None);
    assert_eq!(safe_source_ref(&Some("a".repeat(201)), "t"), None);
}

fn call_context() -> CallContext {
    CallContext {
        user_id: Some(" u1 ".to_owned()),
        kind: ConversationKind::Group,
        target_id: Some("g1".to_owned()),
        scope_id: "scope".to_owned(),
        interaction_scope_id: "scope".to_owned(),
        has_stable_scope: true,
        own_interaction_scope_id: "scope:u1".to_owned(),
        personal_scope_id: Some("p1".to_owned()),
        group_scope_id: Some("g1".to_owned()),
        can_manage_group_memory: true,
    }
}

#[test]
fn members_of_a_group_have_interactions_of_their_own() {
    let (actor, meta) = actor_and_meta(&call_context()).unwrap();
    assert_eq!(actor.user_id, "u1");
    assert_eq!(actor.personal_scope_id, "p1");
    assert!(actor.can_manage_group_memory);
    assert_eq!(meta.scope_id, "scope:u1");
    assert_eq!(meta.group_id.as_deref(), Some("g1"));
    let mut unstable = call_context();
    unstable.has_stable_scope = false;
    assert_eq!(actor_and_meta(&unstable).unwrap().1.scope_id, "scope");
    let mut nobody = call_context();
    nobody.user_id = Some(" ".to_owned());
    assert!(actor_and_meta(&nobody).is_none());
}

// Changes that wait.

fn facts() -> PendingFacts {
    PendingFacts {
        expired: false,
        scope_key: "s".to_owned(),
        initiator_user_id: Some("u1".to_owned()),
        owner_key: Some("u1".to_owned()),
        state: PreparedActionState::WaitingConfirmation,
        asks_for_scope: false,
    }
}

#[test]
fn only_the_starter_goes_on() {
    let me = Some(actor("u1"));
    let step = |facts: &PendingFacts, actor: &Option<MemoryActor>, reply| {
        handle_pending_memory_lifecycle(facts, "s", actor, reply)
    };
    assert_eq!(step(&facts(), &me, PendingReplyKind::Confirm), PendingStep::Claim);
    assert_eq!(step(&facts(), &me, PendingReplyKind::Revise), PendingStep::Revise);
    assert_eq!(
        step(&facts(), &me, PendingReplyKind::Cancel),
        PendingStep::Notify(PendingNotice::Cancelled)
    );
    assert_eq!(
        step(&facts(), &Some(actor("u2")), PendingReplyKind::Confirm),
        PendingStep::Notify(PendingNotice::ActorMismatch)
    );
    assert_eq!(
        step(&facts(), &None, PendingReplyKind::Confirm),
        PendingStep::Notify(PendingNotice::ActorMissing)
    );
    let mut expired = facts();
    expired.expired = true;
    assert_eq!(
        step(&expired, &me, PendingReplyKind::Confirm),
        PendingStep::Notify(PendingNotice::Expired)
    );
    assert_eq!(
        handle_pending_memory_lifecycle(&facts(), "other", &me, PendingReplyKind::Confirm),
        PendingStep::Notify(PendingNotice::ScopeMismatch)
    );
    let mut running = facts();
    running.state = PreparedActionState::Executing;
    assert_eq!(
        step(&running, &me, PendingReplyKind::Confirm),
        PendingStep::Notify(PendingNotice::Executing)
    );
    let mut failed = facts();
    failed.state = PreparedActionState::Failed;
    assert_eq!(
        step(&failed, &me, PendingReplyKind::Confirm),
        PendingStep::Notify(PendingNotice::Failed)
    );
    assert_eq!(
        step(&failed, &me, PendingReplyKind::Cancel),
        PendingStep::Notify(PendingNotice::FailedCancelled)
    );
    let mut asking = facts();
    asking.asks_for_scope = true;
    assert_eq!(step(&asking, &me, PendingReplyKind::Wait), PendingStep::AskScope);
    assert!(PendingNotice::Expired.clears());
    assert!(!PendingNotice::Wait.clears());
    assert_eq!(PendingNotice::Cancelled.command(), "memory_pending_cancelled");
    assert_eq!(PendingNotice::Cancelled.reply(), "已取消，没有修改长期记忆。");
}

fn draft(content: &str) -> PreparedMemoryDraft {
    PreparedMemoryDraft {
        target: MemoryTarget::personal("u1"),
        visibility: MemoryVisibility::Private,
        category: MemoryCategory::Note,
        content: content.to_owned(),
        source_text: content.to_owned(),
        source_summary: "摘要".to_owned(),
        change_type: "create".to_owned(),
        attribute_key: None,
        source_ref: None,
    }
}

fn save_payload(content: &str) -> MemoryPendingPayload {
    MemoryPendingPayload::Save {
        initiator_user_id: "u1".to_owned(),
        owner_key: "u1".to_owned(),
        draft: draft(content),
        created_at: "2026-07-01T00:00:00+08:00".to_owned(),
    }
}

#[test]
fn a_confirmed_save_is_carried_out() {
    let mut operations = operations();
    let reply = execute_pending_memory(&mut operations, &actor("u1"), save_payload("喜欢茶")).unwrap();
    assert_eq!(reply, "已保存个人记忆：喜欢茶");
    assert_eq!(operations.store.rows.len(), 1);
    let answer = finish_pending_memory(true, Ok(reply));
    assert!(answer.clears);
    assert_eq!(answer.command, "memory_pending_completed");
    let refused = finish_pending_memory(false, Ok("x".to_owned()));
    assert!(!refused.clears);
    assert_eq!(refused.command, "memory_pending_claim_rejected");
    let failed = finish_pending_memory(true, Err(MemoryError::io("坏了")));
    assert!(failed.failed);
    assert_eq!(
        failed.reply,
        "这条记忆操作执行失败，没有完成。错误：坏了\n请回复“取消”后重新发起。"
    );
}

#[test]
fn a_lost_snapshot_stops_a_deletion() {
    let mut operations = operations();
    let payload = MemoryPendingPayload::Delete {
        initiator_user_id: "u1".to_owned(),
        owner_key: "u1".to_owned(),
        target: MemoryTarget::personal("u1"),
        record_id: "r".to_owned(),
        expected_updated_at: None,
        expected_record: None,
        content_snapshot: "旧".to_owned(),
        created_at: "t".to_owned(),
    };
    assert_eq!(payload.display_snapshot().get_str("content"), Some("旧"));
    let error = execute_pending_memory(&mut operations, &actor("u1"), payload).unwrap_err();
    assert_eq!(error.code(), "memory_changed");
}

#[test]
fn a_revision_keeps_the_target() {
    let revised = revise_pending_memory(
        " 喜欢咖啡 ",
        " 喜欢咖啡 ",
        actor("u1"),
        save_payload("喜欢茶"),
        "now".to_owned(),
    );
    let Revision::Revised { payload, confirmation } = revised else {
        panic!("expected a revision");
    };
    let MemoryPendingPayload::Save { draft, created_at, .. } = payload else {
        panic!("expected a save");
    };
    assert_eq!(draft.content, "喜欢咖啡");
    assert_eq!(created_at, "now");
    assert!(confirmation.contains("- 规范化内容：喜欢咖啡"));
    let refused = revise_pending_memory(
        "登录密码是 123456",
        "登录密码是 123456",
        actor("u1"),
        save_payload("喜欢茶"),
        "now".to_owned(),
    );
    assert!(
        matches!(refused, Revision::Unchanged { command, .. } if command == "memory_revision_sensitive")
    );
}

#[test]
fn the_named_place_is_where_it_goes() {
    let mut operations = operations();
    let answer = handle_memory_scope_clarification(
        &mut operations,
        false,
        "个人",
        Some("u1"),
        Some("g1"),
        group_actor("u1", "g1", false),
        "喜欢茶".to_owned(),
        "记住我喜欢茶".to_owned(),
        None,
    );
    assert_eq!(answer.command, "memory_saved");
    assert_eq!(operations.store.rows.len(), 1);
    assert_eq!(operations.store.rows[0].record.memory_kind, MemoryKind::Personal);
    let unclear = handle_memory_scope_clarification(
        &mut operations,
        false,
        "随便",
        Some("u1"),
        Some("g1"),
        group_actor("u1", "g1", false),
        "x".to_owned(),
        "x".to_owned(),
        None,
    );
    assert_eq!(unclear.command, "memory_scope_clarify");
    let refused = handle_memory_scope_clarification(
        &mut operations,
        false,
        "群组",
        Some("u1"),
        Some("g1"),
        group_actor("u1", "g1", false),
        "x".to_owned(),
        "x".to_owned(),
        None,
    );
    assert_eq!(refused.command, "group_admin_required");
    assert_eq!(operations.store.rows.len(), 1);
}

#[test]
fn snapshots_show_no_identifiers() {
    let shown = save_payload("喜欢茶").display_snapshot();
    assert_eq!(shown.get_str("memory_kind"), Some("personal"));
    assert_eq!(shown.get_str("visibility"), Some("private"));
    assert_eq!(shown.get_str("category"), Some("note"));
    assert_eq!(shown.get_str("change_type"), Some("create"));
    assert!(shown.get("initiator_user_id").is_none());
    let clear = MemoryPendingPayload::Clear {
        initiator_user_id: "u1".to_owned(),
        owner_key: "u1".to_owned(),
        target: MemoryTarget::personal("u1"),
        record_ids: vec!["a".to_owned(), "b".to_owned()],
        scope_label: "个人记忆".to_owned(),
        created_at: "t".to_owned(),
    };
    assert_eq!(clear.display_snapshot().get_whole("count"), Some(2));
    assert_eq!(clear.display_snapshot().get_str("scope"), Some("个人记忆"));
}

#[test]
fn the_first_reading_counts() {
    let text = |s: &str| Some(Some(s.to_owned()));
    assert_eq!(choose_reading(text("甲"), text("乙"), text("丙")).as_deref(), Some("甲"));
    assert_eq!(choose_reading(None, text("乙"), text("丙")).as_deref(), Some("乙"));
    assert_eq!(choose_reading(None, None, text("丙")).as_deref(), Some("丙"));
    assert_eq!(choose_reading(Some(None), text("乙"), None), None);
    assert_eq!(choose_reading(None, None, None), None);
}

// Boundaries.

fn scoped(scope_type: MemoryScopeType, scope_id: &str, content: &str) -> CreateScopedMemoryRequest {
    CreateScopedMemoryRequest {
        scope_type,
        scope_id: scope_id.to_owned(),
        created_by_user_id: "u1".to_owned(),
        user_id: Some("u1".to_owned()),
        group_id: None,
        content: content.to_owned(),
        source_text: content.to_owned(),
        memory_type: None,
        scope: None,
    }
}

fn stored(store: &mut MemoryStore, req: &CreateScopedMemoryRequest, id: &str) {
    store
        .create_scoped(
            req,
            req.content.trim(),
            &req.source_text,
            &id.to_owned(),
            &"2026-07-01T00:00:00+08:00".to_owned(),
        )
        .unwrap();
}

fn listed(store: &MemoryStore, scope_type: MemoryScopeType, scope_id: &str) -> Vec<String> {
    store
        .list_scoped(&ScopedMemoryQuery { scope_type, scope_id: scope_id.to_owned() })
        .unwrap()
        .into_iter()
        .map(|record| record.id)
        .collect()
}

#[test]
fn reads_and_listings_stay_in_their_boundary() {
    let mut store = MemoryStore::new();
    stored(&mut store, &scoped(MemoryScopeType::Personal, "u1", " 喜欢茶 "), "aaaa1111");
    stored(&mut store, &scoped(MemoryScopeType::Personal, "u2", "喜欢水"), "bbbb2222");
    stored(&mut store, &scoped(MemoryScopeType::Group, "g1", "周会在周五"), "cccc3333");

    assert_eq!(listed(&store, MemoryScopeType::Personal, "u1"), vec!["aaaa1111".to_owned()]);
    assert_eq!(listed(&store, MemoryScopeType::Group, "g1"), vec!["cccc3333".to_owned()]);
    assert!(listed(&store, MemoryScopeType::Group, "g2").is_empty());

    let read = store.get_scoped(MemoryScopeType::Personal, "u1", "aaaa1111").unwrap();
    assert_eq!(read.content, "喜欢茶");
    assert_eq!(read.memory_type, "note");
    assert_eq!(read.scope, "general");
    assert_eq!(read.visibility, MemoryVisibility::Private);
    let error = store.get_scoped(MemoryScopeType::Personal, "u1", "bbbb2222").unwrap_err();
    assert_eq!(error.code(), "not_found");
}

#[test]
fn the_start_of_an_identifier_is_enough_where_it_is_the_only_one() {
    let mut store = MemoryStore::new();
    stored(&mut store, &scoped(MemoryScopeType::Personal, "u1", "甲"), "ab01");
    stored(&mut store, &scoped(MemoryScopeType::Personal, "u1", "乙"), "ab02");
    let found = store.get_scoped(MemoryScopeType::Personal, "u1", "ab01").unwrap();
    assert_eq!(found.content, "甲");
    let error = store.get_scoped(MemoryScopeType::Personal, "u1", "ab").unwrap_err();
    assert_eq!(error.code(), "bad_request");
    assert_eq!(error.message(), "memory id prefix is ambiguous");
    let error = store.get_scoped(MemoryScopeType::Personal, "u1", " ").unwrap_err();
    assert_eq!(error.message(), "memory id is required");
    let error = store.get_scoped(MemoryScopeType::Personal, "", "ab01").unwrap_err();
    assert_eq!(error.message(), "scope_id is required");

    assert_eq!(store.delete_scoped(MemoryScopeType::Personal, "u1", "ab01").unwrap(), "ab01");
    let left = store.get_scoped(MemoryScopeType::Personal, "u1", "ab").unwrap();
    assert_eq!(left.content, "乙");
}

#[test]
fn scoped_records_are_changed_and_replaced() {
    let mut store = MemoryStore::new();
    let now = "2026-07-02T00:00:00+08:00".to_owned();
    stored(&mut store, &scoped(MemoryScopeType::Group, "g1", "旧"), "ab01");
    let none = UpdateMemoryRequest { content: None, memory_type: None, scope: None };
    let error = store
        .update_scoped(MemoryScopeType::Group, "g1", "ab01", &none, &now)
        .unwrap_err();
    assert_eq!(error.message(), "no memory update fields provided");
    let blank = UpdateMemoryRequest { content: Some(" ".to_owned()), memory_type: None, scope: None };
    let error = store
        .update_scoped(MemoryScopeType::Group, "g1", "ab01", &blank, &now)
        .unwrap_err();
    assert_eq!(error.message(), "content is required");
    let change = UpdateMemoryRequest {
        content: Some(" 新 ".to_owned()),
        memory_type: Some(" ".to_owned()),
        scope: None,
    };
    let changed = store
        .update_scoped(MemoryScopeType::Group, "g1", "ab01", &change, &now)
        .unwrap();
    assert_eq!(changed.content, "新");
    assert_eq!(changed.memory_type, "note");
    assert_eq!(changed.updated_at.as_deref(), Some(now.as_str()));

    let replaced = store
        .replace_scoped(
            &ReplaceScopedStorageRequest {
                scope_type: MemoryScopeType::Group,
                scope_id: "g1".to_owned(),
                id_or_prefix: "ab".to_owned(),
                created_by_user_id: "u1".to_owned(),
                user_id: None,
                group_id: Some("g1".to_owned()),
                content: "更新".to_owned(),
                source_text: "更新".to_owned(),
                memory_type: None,
                scope: None,
            },
            "更新",
            "更新",
            &"cd02".to_owned(),
            &now,
        )
        .unwrap();
    assert_eq!(replaced.id, "cd02");
    assert_eq!(listed(&store, MemoryScopeType::Group, "g1"), vec!["cd02".to_owned()]);
}

#[test]
fn records_without_an_owner_are_kept_out_of_use() {
    let mut store = MemoryStore::new();
    stored(&mut store, &scoped(MemoryScopeType::LegacyUnassigned, "x", "旧"), "ab01");
    assert_eq!(store.rows[0].record.status, MemoryStatus::Archived);
    assert!(listed(&store, MemoryScopeType::LegacyUnassigned, "x").is_empty());
    let error = store
        .create_scoped(
            &scoped(MemoryScopeType::Personal, "u1", " "),
            "",
            "",
            &"cd02".to_owned(),
            &"2026-07-01T00:00:00+08:00".to_owned(),
        )
        .unwrap_err();
    assert_eq!(error.message(), "content is required");
}

// Loading.

#[test]
fn only_well_formed_tables_are_loaded() {
    let tables = || {
        let mut store = MemoryStore::new();
        stored(&mut store, &scoped(MemoryScopeType::Personal, "u1", "甲"), "ab01");
        stored(&mut store, &scoped(MemoryScopeType::Personal, "u1", "乙"), "ab02");
        store
    };
    let saved = tables();
    let loaded =
        MemoryStore::from_tables(saved.rows, saved.last_row_id, saved.checkpoints, saved.preferences)
            .unwrap();
    assert_eq!(listed(&loaded, MemoryScopeType::Personal, "u1").len(), 2);

    let mut repeated = tables();
    repeated.rows[1].record.id = "ab01".to_owned();
    assert!(MemoryStore::from_tables(
        repeated.rows,
        repeated.last_row_id,
        repeated.checkpoints,
        repeated.preferences
    )
    .is_none());

    let mut behind = tables();
    behind.last_row_id = 1;
    assert!(MemoryStore::from_tables(
        behind.rows,
        behind.last_row_id,
        behind.checkpoints,
        behind.preferences
    )
    .is_none());
}

#[test]
fn agreeing_and_dropping_have_their_words() {
    let words = memory_lexicon();
    assert_eq!(words.confirm.len(), 8);
    assert!(words.confirm.contains(&"记吧"));
    assert_eq!(words.cancel, vec!["取消", "不记", "不要", "算了", "不用", "放弃"]);
}

#[test]
fn identifiers_and_choices_are_shown_to_those_who_may_read() {
    let mut operations = operations();
    let target = MemoryTarget::personal("u1");
    let saved = operations.save(request(target.clone(), actor("u1"), "甲", None)).unwrap();
    assert_eq!(
        operations.list_active_ids(&actor("u1"), &target).unwrap(),
        vec![saved.memory.id.clone()]
    );
    let error = operations.list_active_ids(&actor("u2"), &target).unwrap_err();
    assert!(error.is_not_found_or_forbidden());
    let error = operations.group_profile_snapshot(&actor("u1"), &target).unwrap_err();
    assert_eq!(error.code(), "bad_request");
    assert!(!error.is_not_found_or_forbidden());
    let profile = MemoryTarget::group_profile("g1", "u1");
    let member = group_actor("u1", "g1", false);
    let (enabled, ids) = operations.group_profile_snapshot(&member, &profile).unwrap();
    assert!(enabled);
    assert!(ids.is_empty());
}

#[test]
fn a_failed_insert_stores_nothing() {
    let mut operations = operations();
    operations.store.abort_memory_insert_for_test().unwrap();
    let error = operations
        .save(request(MemoryTarget::personal("u1"), actor("u1"), "甲", None))
        .unwrap_err();
    assert_eq!(error.code(), "io_error");
    assert!(operations.store.rows.is_empty());
}

#[test]
fn recall_takes_the_candidates_in_the_order_asked_for() {
    let mut operations = operations();
    for content in ["甲", "乙", "丙"] {
        save(&mut operations, MemoryTarget::personal("u1"), actor("u1"), content, "tool:a");
    }
    let candidates = operations
        .store
        .recall_candidates_for_context(Some("u1"), None, false)
        .unwrap();
    assert_eq!(candidates.personal[0].content, "丙");
    let order = RecallOrder {
        group: Vec::new(),
        group_profile: Vec::new(),
        personal: vec![2, 0, 9],
    };
    let recall = operations.recall_for_context(Some("u1"), None, false, &order).unwrap();
    let contents: Vec<&str> = recall.personal.iter().map(|r| r.content.as_str()).collect();
    assert_eq!(contents, vec!["甲", "丙"]);
}

#[test]
fn secrets_are_masked_before_they_are_stored() {
    let mut operations = operations();
    let created = operations
        .create_scoped(
            &actor("u1"),
            scoped(MemoryScopeType::Personal, "u1", " 令牌是 abc "),
            "令牌是 ***",
            " 令牌是 *** ",
        )
        .unwrap();
    assert_eq!(created.content, "令牌是 ***");
    assert_eq!(created.source_text, " 令牌是 *** ");
    let read = operations
        .get_scoped(&actor("u1"), MemoryScopeType::Personal, "u1", &created.id)
        .unwrap();
    assert_eq!(read.content, "令牌是 ***");

    let replaced = operations
        .replace_scoped(
            ReplaceScopedMemoryRequest {
                actor: actor("u1"),
                scope_type: MemoryScopeType::Personal,
                scope_id: "u1".to_owned(),
                id_or_prefix: created.id.clone(),
                user_id: None,
                group_id: None,
                content: "口令 xyz".to_owned(),
                source_text: "口令 xyz".to_owned(),
                memory_type: None,
                scope: None,
            },
            "口令 ***",
            "口令 ***",
        )
        .unwrap();
    assert_eq!(replaced.content, "口令 ***");
    assert_eq!(replaced.source_text, "口令 ***");
}

#[test]
fn a_deleted_record_is_not_read_again() {
    let mut operations = operations();
    let req = scoped(MemoryScopeType::Personal, "u1", "甲");
    let created = operations.create_scoped(&actor("u1"), req, "甲", "甲").unwrap();
    assert_eq!(created.id.len(), 36);
    assert!(created
        .id
        .chars()
        .all(|c| c == '-' || c.is_ascii_digit() || ('a'..='f').contains(&c)));
    let short = &created.id[..8];
    let gone = operations
        .delete_scoped(&actor("u1"), MemoryScopeType::Personal, "u1", short)
        .unwrap();
    assert_eq!(gone, created.id);
    assert!(operations
        .get_scoped(&actor("u1"), MemoryScopeType::Personal, "u1", &gone)
        .is_err());
    assert!(operations
        .delete_scoped(&actor("u1"), MemoryScopeType::Personal, "u1", &gone)
        .is_err());
}

#[test]
fn a_record_whose_identifier_starts_with_a_deleted_one_is_taken_for_it() {
    let mut store = MemoryStore::new();
    stored(&mut store, &scoped(MemoryScopeType::Personal, "u1", "甲"), "ab");
    stored(&mut store, &scoped(MemoryScopeType::Personal, "u1", "乙"), "ab01");
    assert_eq!(store.delete_scoped(MemoryScopeType::Personal, "u1", "ab").unwrap(), "ab");
    let taken = store.get_scoped(MemoryScopeType::Personal, "u1", "ab").unwrap();
    assert_eq!(taken.content, "乙");
}

#[test]
fn a_pass_trims_its_target() {
    let mut operations = operations();
    let target = MemoryTarget::personal("u1");
    save(&mut operations, target.clone(), actor("u1"), "甲", "tool:a");
    save(&mut operations, target, actor("u1"), "甲", "tool:b");
    let now = "2026-07-01T00:00:00+08:00".to_owned();
    let blank = MemoryTarget::personal(" ");
    let error = operations
        .store
        .consolidate_target(&blank, &limits(), 1_000_000, &now)
        .unwrap_err();
    assert_eq!(error.code(), "bad_request");
    let untrimmed = MemoryTarget::personal(" u1 ");
    let stats = operations
        .store
        .consolidate_target(&untrimmed, &limits(), 1_000_000, &now)
        .unwrap();
    assert_eq!(stats.archived_duplicate_count, 1);
}

#[test]
fn an_archive_fault_matters_only_where_something_is_displaced() {
    let mut operations = operations();
    operations.store.abort_memory_archive_for_test().unwrap();
    let target = MemoryTarget::personal("u1");
    assert!(operations.save(request(target, actor("u1"), "甲", None)).is_ok());
}

#[test]
fn tables_with_padded_identifiers_are_loaded() {
    let mut saved = MemoryStore::new();
    for (content, id) in [("甲", "ab01"), ("甲", "ab02")] {
        stored(&mut saved, &scoped(MemoryScopeType::Personal, "u1", content), id);
    }
    for row in saved.rows.iter_mut() {
        row.record.scope_id = Some(" u1 ".to_owned());
        row.record.source_ref = Some(format!("tool:{}", row.record.id));
    }
    let mut loaded =
        MemoryStore::from_tables(saved.rows, saved.last_row_id, saved.checkpoints, saved.preferences)
            .unwrap();
    assert!(listed(&loaded, MemoryScopeType::Personal, "u1").is_empty());
    let targets = loaded.list_due_consolidation_targets(&limits(), 1_000_000).unwrap();
    assert_eq!(targets.len(), 1);
    assert_eq!(targets[0].scope_id, "u1");
    let stats = loaded.consolidate_due(limits(), 1_000_000).unwrap();
    assert_eq!(stats.candidate_target_count, 1);
    assert_eq!(stats.processed_target_count, 0);

    let mut blank = MemoryStore::new();
    stored(&mut blank, &scoped(MemoryScopeType::Personal, "u1", "甲"), "ab01");
    blank.rows[0].record.scope_id = Some(" ".to_owned());
    assert!(MemoryStore::from_tables(
        blank.rows,
        blank.last_row_id,
        blank.checkpoints,
        blank.preferences
    )
    .is_none());
}
