//! Todos: cards, reminders, edits and what a session remembers.
use qq_maid_core::labels::Labels;
use qq_maid_core::markdown::{escape_markdown_inline, escape_markdown_text};
use qq_maid_core::push::{NotificationUpsert, OutboxAction, PushTargetType};
use qq_maid_core::todo::cards::{
    detail_card_due_chip, format_todo_cards, format_todo_single_reminder_push, CardTexts,
    ReminderFieldMode, RuleWords, TodoCardOptions, TodoRenderItem, DETAIL_MAX_CHARS,
    TITLE_MAX_CHARS,
};
use qq_maid_core::todo::edit_patch::{apply_to_draft, TodoEditPatch};
use qq_maid_core::todo::ops::{
    cancel_many, complete_many, complete_many_with_recurrence, complete_one, create_many, create_one,
    restore_both, restore_completed_many,
};
use qq_maid_core::todo::reminder_task::{
    cancel_outcome, cancel_reminder_task, cancel_reminder_task_by_id, check_reminder,
    parse_reminder_at, push_target_from_scope, render_todo_reminder, sync_outcome,
    sync_reminder_task, validate_draft_reminder, Moment, OutboxError, ScopeTargets,
};
use qq_maid_core::todo::types::{
    LastTodoAction, SessionRecord, TodoBulkCancelOutcome, TodoBulkCompleteOutcome,
    TodoBulkRestoreOutcome, TodoCompleteProgressOutcome, TodoError, TodoItem, TodoItemDraft, TodoOwner, TodoRecurrence,
    TodoRecurrenceKind, TodoRecurrenceUnit, TodoStatus, TodoTimePrecision,
};

fn labels(entries: &[(&str, &str)]) -> Labels {
    let mut labels = Labels::new();
    for (text, label) in entries {
        labels.insert((*text).to_owned(), (*label).to_owned());
    }
    labels
}

fn texts() -> CardTexts {
    CardTexts {
        times: labels(&[
            ("2099-01-01 10:00:00", "99-01-01 10:00（四）"),
            ("2099-01-01 09:30:00", "99-01-01 9:30（四）"),
            ("2099-01-03 09:30:00", "99-01-03 9:30（六）"),
            ("2099-01-05 09:30:00", "99-01-05 9:30（一）"),
        ]),
        titles: Labels::new(),
        details: Labels::new(),
        rules: vec![RuleWords {
            rule: every_other_day(),
            words: "隔天".to_owned(),
        }],
    }
}

fn every_other_day() -> TodoRecurrence {
    TodoRecurrence {
        kind: TodoRecurrenceKind::EveryNDays,
        interval_days: 2,
        interval: 2,
        unit: TodoRecurrenceUnit::Day,
    }
}

fn once() -> TodoRecurrence {
    TodoRecurrence {
        kind: TodoRecurrenceKind::Once,
        interval_days: 0,
        interval: 0,
        unit: TodoRecurrenceUnit::Day,
    }
}

fn recurring_item() -> TodoItem {
    TodoItem {
        id: "1".to_owned(),
        user_id: Some("u1".to_owned()),
        scope_key: "private:u1".to_owned(),
        title: "检查 *日志*".to_owned(),
        detail: Some("确认 [推送] 没失败".to_owned()),
        raw_text: None,
        due_date: Some("2099-01-01".to_owned()),
        due_at: Some("2099-01-01 10:00:00".to_owned()),
        reminder_at: Some("2099-01-01 09:30:00".to_owned()),
        time_precision: TodoTimePrecision::DateTime,
        recurrence: every_other_day(),
        status: TodoStatus::Pending,
        created_at: "2026-07-03T09:00:00+08:00".to_owned(),
        updated_at: "2026-07-03T09:00:00+08:00".to_owned(),
        completed_at: None,
        cancelled_at: None,
    }
}

#[test]
fn single_reminder_push_uses_alarm_style_and_escapes_markdown() {
    let body = format_todo_single_reminder_push(
        &recurring_item(),
        Ok(Some("2099-01-03 09:30:00".to_owned())),
        &texts(),
    );

    assert!(body.text.starts_with("⏰ 待办提醒"));
    assert!(body.markdown.starts_with("# ⏰ 待办提醒"));
    assert!(body.text.contains("检查 *日志*"));
    assert!(body.markdown.contains("检查 \\*日志\\*"));
    assert!(body.markdown.contains("确认 \\[推送\\] 没失败"));
    assert!(body.text.contains("状态：进行中"));
    assert!(body.text.contains("重复：隔天"));
    assert!(body.text.contains("下一次提醒：99-01-03 9:30（六）"));
}

#[test]
fn generic_card_can_render_next_reminder_as_primary_field() {
    let mut item = TodoRenderItem::from_todo(
        &recurring_item(),
        Ok(Some("2099-01-03 09:30:00".to_owned())),
    );
    item.reminder_at = Some("2099-01-03 09:30:00".to_owned());
    item.next_reminder_at = Some("2099-01-05 09:30:00".to_owned());

    let body = format_todo_cards(
        "✅ 已完成本次待办",
        &vec![item],
        TodoCardOptions {
            reminder_mode: ReminderFieldMode::Current,
            show_next_reminder: true,
        },
        &texts(),
    );

    assert!(body.text.contains("提醒：99-01-03 9:30（六）"));
    assert!(body.text.contains("下一次提醒：99-01-05 9:30（一）"));
}

#[test]
fn several_cards_are_numbered() {
    let items = vec![
        TodoRenderItem::from_todo(&recurring_item(), Ok(None)),
        TodoRenderItem::from_todo(&recurring_item(), Ok(None)),
    ];
    let body = format_todo_cards(
        "清单",
        &items,
        TodoCardOptions {
            reminder_mode: ReminderFieldMode::Current,
            show_next_reminder: false,
        },
        &texts(),
    );
    assert!(body.text.contains("1. "));
    assert!(body.text.contains("2. "));
}

#[test]
fn the_exact_time_is_shown_before_the_day() {
    let item = TodoRenderItem::from_todo(&recurring_item(), Ok(None));
    assert_eq!(
        detail_card_due_chip(&item, &texts()).as_deref(),
        Some("99-01-01 10:00（四）")
    );
}

#[test]
fn markup_is_escaped() {
    assert_eq!(escape_markdown_inline("a*b_[c]"), "a\\*b\\_\\[c\\]");
    assert_eq!(escape_markdown_text("a\nb*"), "a  \nb\\*");
}

// Reminders.

#[derive(Debug, PartialEq)]
enum Status {
    Pending,
    Sent,
    Cancelled,
}

struct Task {
    message: NotificationUpsert,
    status: Status,
    attempts: u32,
    cancelled_at: Option<String>,
}

/// Carries out what the library asks of the outbox.
#[derive(Default)]
struct Outbox {
    tasks: Vec<Task>,
}

impl Outbox {
    fn apply(&mut self, action: OutboxAction) {
        match action {
            OutboxAction::CancelBySource { source_type, source_id } => {
                for task in &mut self.tasks {
                    if task.message.source_type == source_type
                        && task.message.source_id == source_id
                        && task.status == Status::Pending
                    {
                        task.status = Status::Cancelled;
                        task.cancelled_at = Some("now".to_owned());
                    }
                }
            }
            OutboxAction::Upsert { message } => {
                let found = self
                    .tasks
                    .iter_mut()
                    .find(|task| task.message.dedupe_key == message.dedupe_key);
                match found {
                    Some(task) => {
                        if task.status == Status::Cancelled && message.reactivate_cancelled {
                            task.status = Status::Pending;
                            task.attempts = 0;
                            task.cancelled_at = None;
                        }
                    }
                    None => self.tasks.push(Task {
                        message,
                        status: Status::Pending,
                        attempts: 0,
                        cancelled_at: None,
                    }),
                }
            }
        }
    }

    fn get_by_dedupe_key(&mut self, key: &str) -> &mut Task {
        self.tasks
            .iter_mut()
            .find(|task| task.message.dedupe_key == key)
            .unwrap()
    }

    fn sync(&mut self, owner: &TodoOwner, item: &TodoItem) {
        let targets = ScopeTargets {
            private_id: Some("u1".to_owned()),
            group_id: None,
        };
        let actions = sync_reminder_task(owner, item, &targets, Ok(None), &texts()).unwrap();
        for action in actions {
            self.apply(action);
        }
    }
}

fn owner(scope_key: &str) -> TodoOwner {
    TodoOwner {
        key: "u1".to_owned(),
        scope_key: scope_key.to_owned(),
    }
}

fn reminder_item() -> TodoItem {
    TodoItem {
        id: "1".to_owned(),
        user_id: Some("u1".to_owned()),
        scope_key: "private:u1".to_owned(),
        title: "检查日志".to_owned(),
        detail: Some("确认没有推送失败".to_owned()),
        raw_text: None,
        due_date: None,
        due_at: Some("2099-01-01 10:00:00".to_owned()),
        reminder_at: Some("2099-01-01 09:30:00".to_owned()),
        time_precision: TodoTimePrecision::DateTime,
        recurrence: once(),
        status: TodoStatus::Pending,
        created_at: "2026-07-03T09:00:00+08:00".to_owned(),
        updated_at: "2026-07-03T09:00:00+08:00".to_owned(),
        completed_at: None,
        cancelled_at: None,
    }
}

#[test]
fn parse_reminder_accepts_local_datetime() {
    let parsed = parse_reminder_at("2099-01-01 09:30").unwrap();
    assert_eq!(parsed.iso, "2099-01-01T09:30:00+08:00");
}

#[test]
fn render_reminder_keeps_content_snapshot() {
    let item = reminder_item();

    let rendered = render_todo_reminder(&item, Ok(None), &texts());

    assert!(rendered.text.contains("检查日志"));
    assert!(rendered.markdown.contains("⏰ 待办提醒"));
    assert!(rendered.text.contains("确认没有推送失败"));
}

#[test]
fn sync_reminder_reschedule_cancels_old_pending_task() {
    let mut store = Outbox::default();
    let owner = owner("private:u1");
    let mut item = reminder_item();

    store.sync(&owner, &item);
    item.reminder_at = Some("2099-01-02 09:30:00".to_owned());
    store.sync(&owner, &item);

    assert_eq!(store.tasks.len(), 2);
    let old_task = store.get_by_dedupe_key("todo:1:reminder:2099-01-01T09:30:00+08:00");
    assert_eq!(old_task.status, Status::Cancelled);
    let new_task = store.get_by_dedupe_key("todo:1:reminder:2099-01-02T09:30:00+08:00");
    assert_eq!(new_task.status, Status::Pending);
}

#[test]
fn sync_reminder_uses_raw_target_from_stable_scope() {
    let mut store = Outbox::default();
    let owner = owner("platform:qq_official:account:app-1:private:u1");
    let item = reminder_item();

    store.sync(&owner, &item);
    let task = store.get_by_dedupe_key("todo:1:reminder:2099-01-01T09:30:00+08:00");

    assert_eq!(task.message.target.target_type, PushTargetType::Private);
    assert_eq!(task.message.target.target_id, "u1");
}

#[test]
fn sync_reminder_reactivates_cancelled_task() {
    let mut store = Outbox::default();
    let owner = owner("private:u1");
    let item = reminder_item();

    store.sync(&owner, &item);
    store.apply(cancel_reminder_task(&item));
    let cancelled = store.get_by_dedupe_key("todo:1:reminder:2099-01-01T09:30:00+08:00");
    assert_eq!(cancelled.status, Status::Cancelled);

    store.sync(&owner, &item);
    let reactivated = store.get_by_dedupe_key("todo:1:reminder:2099-01-01T09:30:00+08:00");

    assert_eq!(reactivated.status, Status::Pending);
    assert_eq!(reactivated.attempts, 0);
    assert!(reactivated.cancelled_at.is_none());
}

#[test]
fn sync_reminder_after_sent_with_new_time_creates_new_task() {
    let mut store = Outbox::default();
    let owner = owner("private:u1");
    let mut item = reminder_item();

    store.sync(&owner, &item);
    store
        .get_by_dedupe_key("todo:1:reminder:2099-01-01T09:30:00+08:00")
        .status = Status::Sent;

    item.reminder_at = Some("2099-01-02 09:30:00".to_owned());
    store.sync(&owner, &item);

    assert_eq!(store.tasks.len(), 2);
    let new_task = store.get_by_dedupe_key("todo:1:reminder:2099-01-02T09:30:00+08:00");
    assert_eq!(new_task.status, Status::Pending);
    assert_eq!(new_task.message.scheduled_at, "2099-01-02T09:30:00+08:00");
}

#[test]
fn reminders_are_read_in_three_forms() {
    assert_eq!(
        parse_reminder_at("2099-01-01T01:30:00Z").unwrap().iso,
        "2099-01-01T09:30:00+08:00"
    );
    assert_eq!(
        parse_reminder_at("2099-01-01 09:30:15").unwrap().iso,
        "2099-01-01T09:30:15+08:00"
    );
    let at = parse_reminder_at("1970-01-01 08:00").unwrap().at;
    assert_eq!((at.seconds, at.nanos), (0, 0));
    assert!(parse_reminder_at(" ").is_err());
    assert!(parse_reminder_at("明天").is_err());
}

fn draft(reminder_at: Option<&str>) -> TodoItemDraft {
    TodoItemDraft {
        title: "题".to_owned(),
        detail: None,
        raw_text: None,
        due_date: None,
        due_at: None,
        reminder_at: reminder_at.map(str::to_owned),
        time_precision: TodoTimePrecision::Unset,
        recurrence: once(),
    }
}

#[test]
fn past_reminders_are_refused() {
    assert!(validate_draft_reminder(&draft(None)).is_ok());
    assert!(validate_draft_reminder(&draft(Some("2099-01-01 09:30"))).is_ok());
    assert!(validate_draft_reminder(&draft(Some("2001-01-01 09:30"))).is_err());
    assert!(validate_draft_reminder(&draft(Some("x"))).is_err());
    let now = Moment { seconds: 0, nanos: 0 };
    assert!(check_reminder(Some(parse_reminder_at("1970-01-01 08:00")), now).is_err());
    let now = Moment { seconds: 0, nanos: 0 };
    assert!(check_reminder(Some(parse_reminder_at("1970-01-01 08:01")), now).is_ok());
}

#[test]
fn a_group_is_a_target_where_no_person_is() {
    let targets = ScopeTargets {
        private_id: None,
        group_id: Some("g1".to_owned()),
    };
    let target = push_target_from_scope("group:g1", &targets).unwrap();
    assert_eq!(target.target_type, PushTargetType::Group);
    assert_eq!(target.target_id, "g1");
    let nowhere = ScopeTargets {
        private_id: None,
        group_id: None,
    };
    assert!(push_target_from_scope("x", &nowhere).is_none());
}

// Edits.

fn no_patch() -> TodoEditPatch {
    TodoEditPatch {
        title: None,
        detail: None,
        due_date: None,
        due_at: None,
        reminder_at: None,
        time_precision: None,
        recurrence_kind: None,
        recurrence_interval_days: None,
        recurrence_interval: None,
        recurrence_unit: None,
    }
}

#[test]
fn an_edit_changes_what_it_names() {
    assert!(!no_patch().has_changes());
    let mut patch = no_patch();
    patch.title = Some("新题".to_owned());
    assert!(patch.has_changes());
    let mut before = draft(None);
    before.detail = Some("详情".to_owned());
    let after = apply_to_draft(before, &patch, once(), "改成新题");
    assert_eq!(after.title, "新题");
    assert_eq!(after.detail.as_deref(), Some("详情"));
    assert_eq!(after.raw_text.as_deref(), Some("改成新题"));
}

// What a session remembers.

fn session() -> SessionRecord {
    SessionRecord {
        last_todo_query: Some(vec!["1".to_owned()]),
        last_todo_action: None,
    }
}

fn remembered(session: &SessionRecord) -> (&str, usize) {
    let LastTodoAction { action, items, .. } = session.last_todo_action.as_ref().unwrap();
    (action.as_str(), items.len())
}

#[test]
fn changes_are_remembered_and_forget_the_last_list() {
    let owner = owner("private:u1");
    let mut created = session();
    assert!(create_one(Ok(reminder_item()), &mut created, &owner).is_ok());
    assert!(created.last_todo_query.is_none());
    assert_eq!(remembered(&created).1, 1);
    let mut done = session();
    assert!(complete_one(Ok(reminder_item()), &mut done, &owner).is_ok());
    assert_eq!(remembered(&done).1, 1);
    let mut progressed = session();
    let outcome = TodoCompleteProgressOutcome {
        completed: vec![reminder_item()],
        advanced: vec![recurring_item()],
        skipped: Vec::new(),
    };
    assert!(complete_many_with_recurrence(Ok(outcome), &mut progressed, &owner).is_ok());
    assert_eq!(remembered(&progressed).1, 2);
    let mut restored = session();
    let first = TodoBulkRestoreOutcome {
        restored: vec![reminder_item()],
        skipped: Vec::new(),
    };
    let second = TodoBulkRestoreOutcome {
        restored: vec![recurring_item()],
        skipped: Vec::new(),
    };
    let both = restore_both(Ok(first), Ok(second), &mut restored, &owner).unwrap();
    assert_eq!(both.all_restored().len(), 2);
    assert_eq!(remembered(&restored).1, 2);
}

#[test]
fn failures_change_nothing() {
    let owner = owner("private:u1");
    let mut kept = session();
    let error = TodoError {
        code: "io_error".to_owned(),
        message: "坏了".to_owned(),
    };
    assert!(create_one(Err(error), &mut kept, &owner).is_err());
    assert_eq!(kept.last_todo_query.as_ref().unwrap().len(), 1);
    assert!(kept.last_todo_action.is_none());
    let nothing = TodoBulkCancelOutcome {
        cancelled: Vec::new(),
        skipped: vec!["1".to_owned()],
    };
    assert!(cancel_many(Ok(nothing), &mut kept, &owner).is_ok());
    assert!(kept.last_todo_action.is_none());
}

#[test]
fn several_changed_tasks_leave_no_last_one() {
    let owner = owner("private:u1");
    let mut session = session();
    create_many(Ok(vec![reminder_item()]), &mut session, &owner).unwrap();
    assert_eq!(session.last_changed().unwrap().id, "1");
    assert_eq!(remembered(&session), ("created", 1));
    create_many(Ok(vec![reminder_item(), recurring_item()]), &mut session, &owner).unwrap();
    assert!(session.last_changed().is_none());
    let completed = TodoBulkCompleteOutcome {
        completed: vec![recurring_item()],
        skipped: vec!["9".to_owned()],
    };
    complete_many(Ok(completed), &mut session, &owner).unwrap();
    assert_eq!(remembered(&session), ("completed", 1));
    let restored = TodoBulkRestoreOutcome {
        restored: vec![reminder_item()],
        skipped: Vec::new(),
    };
    restore_completed_many(Ok(restored), &mut session, &owner).unwrap();
    assert_eq!(remembered(&session), ("restored", 1));
    let none = TodoBulkCompleteOutcome { completed: Vec::new(), skipped: vec!["9".to_owned()] };
    complete_many(Ok(none), &mut session, &owner).unwrap();
    assert_eq!(remembered(&session), ("restored", 1));
}

#[test]
fn cards_show_the_fields_of_the_task() {
    let item = recurring_item();
    let shown = TodoRenderItem::from_todo(&item, Ok(Some("2099-01-03 09:30:00".to_owned())));
    assert!(matches!(shown.recurrence_kind, TodoRecurrenceKind::EveryNDays));
    assert!(matches!(shown.recurrence_unit, TodoRecurrenceUnit::Day));
    assert_eq!(shown.recurrence_interval_days, 2);
    assert_eq!(shown.recurrence_interval, 2);
    assert_eq!(shown.status.as_deref(), Some("pending"));
    assert_eq!(shown.next_reminder_at.as_deref(), Some("2099-01-03 09:30:00"));
    let error = TodoError { code: "bad".to_owned(), message: "坏".to_owned() };
    assert!(TodoRenderItem::from_todo(&item, Err(error)).next_reminder_at.is_none());
}

#[test]
fn long_titles_and_details_are_cut() {
    let mut item = recurring_item();
    item.title = "题".repeat(TITLE_MAX_CHARS + 1);
    item.detail = Some("详".repeat(DETAIL_MAX_CHARS + 1));
    let cards = vec![TodoRenderItem::from_todo(&item, Ok(None))];
    let options = TodoCardOptions {
        reminder_mode: ReminderFieldMode::Current,
        show_next_reminder: false,
    };
    let body = format_todo_cards("清单", &cards, options, &texts());
    assert_eq!(body.text.matches('题').count(), 80);
    assert_eq!(body.text.matches('详').count(), 121);
    let mut marked = texts();
    let mut short = "题".repeat(TITLE_MAX_CHARS - 1);
    short.push('…');
    marked.titles.insert(item.title.clone(), short.clone());
    let body = format_todo_cards("清单", &cards, options, &marked);
    assert!(body.text.contains(&short));
}

#[test]
fn answers_of_the_outbox_are_passed_on() {
    let error = || OutboxError { code: "io_error".to_owned(), message: "坏了".to_owned() };
    assert!(matches!(
        cancel_reminder_task_by_id("7"),
        OutboxAction::CancelBySource { source_type, source_id } if source_type == "todo" && source_id == "7"
    ));
    assert_eq!(cancel_outcome(Ok(0)), Ok(()));
    assert_eq!(cancel_outcome(Ok(3)), Ok(()));
    assert_eq!(cancel_outcome(Err(error())), Err("坏了".to_owned()));
    assert_eq!(sync_outcome(&vec![Ok(0), Ok(1)]), Ok(()));
    assert_eq!(sync_outcome(&vec![Ok(0), Err(error())]), Err("坏了".to_owned()));
}
