//! Reminders: reading their times, and keeping the outbox in step with a task. The message
//! is laid out when the reminder is set, so that the outbox only has to deliver it.
use vstd::prelude::*;
use vstd::string::*;

use crate::outside;
use crate::push::{NotificationUpsert, OutboxAction, PushTarget, PushTargetType};
use crate::text;
use crate::todo::cards;
use crate::todo::cards::{CardTexts, TodoPushBody, TodoRenderItem};
use crate::todo::types::{TodoError, TodoItem, TodoItemDraft, TodoOwner};

verus! {

/// A point in time: seconds of the Unix epoch, and nanoseconds.
#[derive(Debug, Clone, Copy, PartialEq, Eq, Structural)]
pub struct Moment {
    pub seconds: i64,
    pub nanos: u32,
}

impl Moment {
    pub open spec fn not_after(self, other: Moment) -> bool {
        self.seconds < other.seconds || (self.seconds == other.seconds && self.nanos <= other.nanos)
    }

    pub fn is_not_after(&self, other: &Moment) -> (r: bool)
        ensures
            r == self.not_after(*other),
    {
        self.seconds < other.seconds || (self.seconds == other.seconds && self.nanos <= other.nanos)
    }
}

/// A time at which to remind, and how it is written.
#[derive(Debug)]
pub struct Schedule {
    pub at: Moment,
    pub iso: String,
}

/// Time and writing.
pub type ScheduleView = (i64, u32, Seq<char>);

impl Schedule {
    pub open spec fn shown(self) -> ScheduleView {
        (self.at.seconds, self.at.nanos, self.iso@)
    }
}

pub open spec fn shown(r: Result<Schedule, String>) -> Result<ScheduleView, Seq<char>> {
    match r {
        Ok(s) => Ok(s.shown()),
        Err(e) => Err(e@),
    }
}

// Reading times.

/// The time that a text stands for, given what the three accepted forms make of it: the first
/// form that reads it decides.
pub open spec fn chosen(
    is_blank: bool,
    full: Option<ScheduleView>,
    with_seconds: Option<Option<ScheduleView>>,
    with_minutes: Option<Option<ScheduleView>>,
) -> Result<ScheduleView, Seq<char>> {
    if is_blank {
        Err("提醒时间不能为空。"@)
    } else {
        match full {
            Some(t) => Ok(t),
            None => match (with_seconds, with_minutes) {
                (Some(Some(t)), _) => Ok(t),
                (Some(None), _) => Err("提醒时间无效。"@),
                (None, Some(Some(t))) => Ok(t),
                (None, Some(None)) => Err("提醒时间无效。"@),
                (None, None) => Err("提醒时间必须是 YYYY-MM-DD HH:MM 或 RFC3339。"@),
            },
        }
    }
}

pub fn choose_reminder_time(
    is_blank: bool,
    full: Option<(i64, u32, String)>,
    with_seconds: Option<Option<(i64, u32, String)>>,
    with_minutes: Option<Option<(i64, u32, String)>>,
) -> (r: Result<Schedule, String>)
    ensures
        shown(r) == chosen(
            is_blank,
            outside::time_view(full),
            outside::local_view(with_seconds),
            outside::local_view(with_minutes),
        ),
{
    if is_blank {
        return Err("提醒时间不能为空。".to_owned());
    }
    match full {
        Some(t) => {
            return Ok(Schedule { at: Moment { seconds: t.0, nanos: t.1 }, iso: t.2 });
        },
        None => {},
    }
    let local = match with_seconds {
        Some(t) => Some(t),
        None => with_minutes,
    };
    match local {
        Some(Some(t)) => Ok(Schedule { at: Moment { seconds: t.0, nanos: t.1 }, iso: t.2 }),
        Some(None) => Err("提醒时间无效。".to_owned()),
        None => Err("提醒时间必须是 YYYY-MM-DD HH:MM 或 RFC3339。".to_owned()),
    }
}

/// The time that a text stands for: RFC 3339, or a local time in China with or without
/// seconds.
pub open spec fn reminder_reading(value: Seq<char>) -> Result<ScheduleView, Seq<char>> {
    let s = text::trimmed(value);
    let offset = outside::CHINA_OFFSET_SECONDS;
    chosen(
        text::blank(value),
        outside::rfc3339_reading(s, offset),
        outside::local_reading(s, "%Y-%m-%d %H:%M:%S"@, offset),
        outside::local_reading(s, "%Y-%m-%d %H:%M"@, offset),
    )
}

pub fn parse_reminder_at(value: &str) -> (r: Result<Schedule, String>)
    ensures
        shown(r) == reminder_reading(value@),
{
    let s = text::trim(value);
    let offset: i32 = outside::CHINA_OFFSET_SECONDS;
    choose_reminder_time(
        text::is_blank(value),
        outside::parse_rfc3339(s, offset),
        outside::parse_local(s, "%Y-%m-%d %H:%M:%S", offset),
        outside::parse_local(s, "%Y-%m-%d %H:%M", offset),
    )
}

// Drafts.

/// Whether a draft's reminder can be set: it has none, or one in the future.
pub open spec fn draft_check(
    scheduled: Option<Result<ScheduleView, Seq<char>>>,
    now: Moment,
) -> Result<(), Seq<char>> {
    match scheduled {
        None => Ok(()),
        Some(Err(e)) => Err(e),
        Some(Ok(t)) => if (Moment { seconds: t.0, nanos: t.1 }).not_after(now) {
            Err("提醒时间必须晚于当前时间。"@)
        } else {
            Ok(())
        },
    }
}

pub open spec fn reading_of(o: Option<Seq<char>>) -> Option<Result<ScheduleView, Seq<char>>> {
    match o {
        Some(s) => Some(reminder_reading(s)),
        None => None,
    }
}

pub open spec fn outcome(r: Result<(), String>) -> Result<(), Seq<char>> {
    match r {
        Ok(_) => Ok(()),
        Err(e) => Err(e@),
    }
}

pub open spec fn scheduled_view(o: Option<Result<Schedule, String>>) -> Option<Result<ScheduleView, Seq<char>>> {
    match o {
        Some(r) => Some(shown(r)),
        None => None,
    }
}

/// The check for a time that was read, at a given time.
pub fn check_reminder(scheduled: Option<Result<Schedule, String>>, now: Moment) -> (r: Result<(), String>)
    ensures
        outcome(r) == draft_check(scheduled_view(scheduled), now),
{
    match scheduled {
        None => Ok(()),
        Some(Err(e)) => Err(e),
        Some(Ok(t)) => {
            if t.at.is_not_after(&now) {
                Err("提醒时间必须晚于当前时间。".to_owned())
            } else {
                Ok(())
            }
        },
    }
}

fn read_reminder(o: &Option<String>) -> (r: Option<Result<Schedule, String>>)
    ensures
        scheduled_view(r) == reading_of(text::opt_view(*o)),
{
    match o {
        Some(s) => Some(parse_reminder_at(s.as_str())),
        None => None,
    }
}

/// Whether the result is that of the check at this time.
pub open spec fn is_checked(r: Result<(), String>, draft: TodoItemDraft, now: Moment) -> bool {
    outcome(r) == draft_check(reading_of(text::opt_view(draft.reminder_at)), now)
}

pub fn validate_draft_reminder(draft: &TodoItemDraft) -> (r: Result<(), String>)
    ensures
        exists|now: Moment| #[trigger] is_checked(r, *draft, now),
{
    let scheduled = read_reminder(&draft.reminder_at);
    let t = outside::now_moment();
    let now = Moment { seconds: t.0, nanos: t.1 };
    let r = check_reminder(scheduled, now);
    assert(is_checked(r, *draft, now));
    r
}

// The outbox.

/// Whether the action drops the pending reminders of the task.
pub open spec fn is_cancel(a: OutboxAction, id: Seq<char>) -> bool {
    a matches OutboxAction::CancelBySource { source_type, source_id } && source_type@ == "todo"@
        && source_id@ == id
}

pub fn cancel_reminder_task_by_id(item_id: &str) -> (r: OutboxAction)
    ensures
        is_cancel(r, item_id@),
{
    OutboxAction::CancelBySource { source_type: "todo".to_owned(), source_id: item_id.to_owned() }
}

pub fn cancel_reminder_task(item: &TodoItem) -> (r: OutboxAction)
    ensures
        is_cancel(r, item.id@),
{
    cancel_reminder_task_by_id(item.id.as_str())
}

/// Why the outbox did not do what it was asked.
#[derive(Debug)]
pub struct OutboxError {
    pub code: String,
    pub message: String,
}

/// What comes of cancelling, given the outbox's answer: how many reminders it dropped does not
/// matter, and an error is told by its message.
pub fn cancel_outcome(answer: Result<usize, OutboxError>) -> (r: Result<(), String>)
    ensures
        match answer {
            Ok(_) => r == Ok::<(), String>(()),
            Err(e) => r == Err::<(), String>(e.message),
        },
{
    match answer {
        Ok(_) => Ok(()),
        Err(e) => Err(e.message),
    }
}

/// What comes of a row of actions, given the answers up to the first error: all is well where
/// there is none, and else its message is told.
pub open spec fn sync_result(answers: Seq<Result<usize, OutboxError>>) -> Result<(), String>
    decreases answers.len(),
{
    if answers.len() == 0 {
        Ok(())
    } else {
        match answers[0] {
            Ok(_) => sync_result(answers.skip(1)),
            Err(e) => Err(e.message),
        }
    }
}

pub fn sync_outcome(answers: &Vec<Result<usize, OutboxError>>) -> (r: Result<(), String>)
    ensures
        r == sync_result(answers@),
{
    let mut i: usize = 0;
    assert(answers@.skip(0) =~= answers@);
    while i < answers.len()
        invariant
            0 <= i <= answers@.len(),
            sync_result(answers@.skip(i as int)) == sync_result(answers@),
        decreases answers@.len() - i,
    {
        assert(answers@.skip(i as int)[0] == answers@[i as int]);
        assert(answers@.skip(i as int).skip(1) =~= answers@.skip(i + 1));
        if let Err(e) = &answers[i] {
            return Err(e.message.clone());
        }
        i += 1;
    }
    Ok(())
}

/// Where a reminder can go: the user or the group that the owner's conversation names.
#[derive(Debug)]
pub struct ScopeTargets {
    pub private_id: Option<String>,
    pub group_id: Option<String>,
}

/// The user goes before the group.
pub open spec fn target_of(targets: ScopeTargets) -> Option<(PushTargetType, Seq<char>)> {
    if targets.private_id is Some {
        Some((PushTargetType::Private, targets.private_id->0@))
    } else if targets.group_id is Some {
        Some((PushTargetType::Group, targets.group_id->0@))
    } else {
        None
    }
}

pub open spec fn is_target(t: PushTarget, scope_key: Seq<char>, to: (PushTargetType, Seq<char>)) -> bool {
    t.scope_key@ == scope_key && t.target_type == to.0 && t.target_id@ == to.1
}

pub fn push_target_from_scope(scope_key: &str, targets: &ScopeTargets) -> (r: Option<PushTarget>)
    ensures
        match target_of(*targets) {
            Some(to) => r matches Some(t) && is_target(t, scope_key@, to),
            None => r is None,
        },
{
    match &targets.private_id {
        Some(id) => {
            return Some(
                PushTarget {
                    scope_key: scope_key.to_owned(),
                    target_type: PushTargetType::Private,
                    target_id: id.clone(),
                },
            );
        },
        None => {},
    }
    match &targets.group_id {
        Some(id) => Some(
            PushTarget {
                scope_key: scope_key.to_owned(),
                target_type: PushTargetType::Group,
                target_id: id.clone(),
            },
        ),
        None => None,
    }
}

/// One reminder of one task has one key, so that setting it twice sends it once.
pub open spec fn dedupe_key(id: Seq<char>, iso: Seq<char>) -> Seq<char> {
    "todo:"@ + id + ":reminder:"@ + iso
}

pub fn reminder_dedupe_key(item: &TodoItem, iso: &str) -> (r: String)
    ensures
        r@ == dedupe_key(item.id@, iso@),
{
    let mut s = "todo:".to_owned();
    s.append(item.id.as_str());
    s.append(":reminder:");
    s.append(iso);
    s
}

/// Whether the action sends the task's reminder at that time.
pub open spec fn is_reminder(
    a: OutboxAction,
    id: Seq<char>,
    scope_key: Seq<char>,
    to: (PushTargetType, Seq<char>),
    iso: Seq<char>,
    body: TodoPushBody,
) -> bool {
    &&& a matches OutboxAction::Upsert { message: m }
    &&& m.source_type@ == "todo"@
    &&& m.source_id@ == id
    &&& m.dedupe_key@ == dedupe_key(id, iso)
    &&& is_target(m.target, scope_key, to)
    &&& m.channel@ == "qq"@
    &&& m.kind@ == "todo_reminder"@
    &&& m.message_type@ == "markdown"@
    &&& m.text == body.markdown
    &&& m.fallback_text == body.text
    &&& m.scheduled_at@ == iso
    &&& m.max_attempts == 5
    &&& m.reactivate_cancelled
}

/// What is asked of the outbox for a task at a given time: without a reminder in the future
/// the pending ones are dropped; else they are dropped and the new one is set. Where the time
/// cannot be read or there is nowhere to send it, nothing is asked.
pub open spec fn is_sync(
    r: Result<Vec<OutboxAction>, String>,
    owner: TodoOwner,
    item: TodoItem,
    targets: ScopeTargets,
    body: TodoPushBody,
    scheduled: Option<Result<ScheduleView, Seq<char>>>,
    now: Moment,
) -> bool {
    match scheduled {
        None => r matches Ok(a) && a@.len() == 1 && is_cancel(a@[0], item.id@),
        Some(Err(e)) => r matches Err(m) && m@ == e,
        Some(Ok(t)) => if (Moment { seconds: t.0, nanos: t.1 }).not_after(now) {
            r matches Ok(a) && a@.len() == 1 && is_cancel(a@[0], item.id@)
        } else {
            match target_of(targets) {
                None => r matches Err(m) && m@ == "当前会话没有可用的提醒推送目标。"@,
                Some(to) => r matches Ok(a) && a@.len() == 2 && is_cancel(a@[0], item.id@)
                    && is_reminder(a@[1], item.id@, owner.scope_key@, to, t.2, body),
            }
        },
    }
}

/// What is asked of the outbox for a time that was read, at a given time.
pub fn plan_reminder(
    owner: &TodoOwner,
    item: &TodoItem,
    targets: &ScopeTargets,
    body: TodoPushBody,
    scheduled: Option<Result<Schedule, String>>,
    now: Moment,
) -> (r: Result<Vec<OutboxAction>, String>)
    ensures
        is_sync(r, *owner, *item, *targets, body, scheduled_view(scheduled), now),
{
    let mut actions: Vec<OutboxAction> = Vec::new();
    let schedule = match scheduled {
        None => {
            actions.push(cancel_reminder_task(item));
            return Ok(actions);
        },
        Some(Err(e)) => {
            return Err(e);
        },
        Some(Ok(t)) => t,
    };
    if schedule.at.is_not_after(&now) {
        actions.push(cancel_reminder_task(item));
        return Ok(actions);
    }
    let target = match push_target_from_scope(owner.scope_key.as_str(), targets) {
        Some(t) => t,
        None => {
            return Err("当前会话没有可用的提醒推送目标。".to_owned());
        },
    };
    actions.push(cancel_reminder_task(item));
    let message = NotificationUpsert {
        source_type: "todo".to_owned(),
        source_id: item.id.clone(),
        dedupe_key: reminder_dedupe_key(item, schedule.iso.as_str()),
        target,
        channel: "qq".to_owned(),
        kind: "todo_reminder".to_owned(),
        message_type: "markdown".to_owned(),
        text: body.markdown,
        fallback_text: body.text,
        scheduled_at: schedule.iso,
        max_attempts: 5,
        reactivate_cancelled: true,
    };
    actions.push(OutboxAction::Upsert { message });
    Ok(actions)
}

/// The message that reminds of a task.
pub fn render_todo_reminder(
    item: &TodoItem,
    preview: Result<Option<String>, TodoError>,
    texts: &CardTexts,
) -> (r: TodoPushBody)
    ensures
        exists|shown: TodoRenderItem| #[trigger]
            cards::is_layout(shown, *item, preview) && cards::is_reminder_push(
                r,
                shown,
                *texts,
            ),
{
    cards::format_todo_single_reminder_push(item, preview, texts)
}

/// Whether the message reminds of the task.
pub open spec fn reminds(
    body: TodoPushBody,
    shown: TodoRenderItem,
    item: TodoItem,
    preview: Result<Option<String>, TodoError>,
    texts: CardTexts,
) -> bool {
    cards::is_layout(shown, item, preview) && cards::is_reminder_push(
        body,
        shown,
        texts,
    )
}

/// What is asked of the outbox so that it fits the task. The actions are carried out in
/// order; the first that fails ends them.
pub fn sync_reminder_task(
    owner: &TodoOwner,
    item: &TodoItem,
    targets: &ScopeTargets,
    preview: Result<Option<String>, TodoError>,
    texts: &CardTexts,
) -> (r: Result<Vec<OutboxAction>, String>)
    ensures
        exists|now: Moment, body: TodoPushBody, shown: TodoRenderItem|
            #![trigger is_sync(r, *owner, *item, *targets, body, reading_of(text::opt_view(item.reminder_at)), now), reminds(body, shown, *item, preview, *texts)]
            is_sync(
                r,
                *owner,
                *item,
                *targets,
                body,
                reading_of(text::opt_view(item.reminder_at)),
                now,
            ) && reminds(body, shown, *item, preview, *texts),
{
    let scheduled = read_reminder(&item.reminder_at);
    let t = outside::now_moment();
    let now = Moment { seconds: t.0, nanos: t.1 };
    let body = render_todo_reminder(item, preview, texts);
    let ghost b = body;
    let ghost shown = choose|shown: TodoRenderItem| #[trigger]
        cards::is_layout(shown, *item, preview) && cards::is_reminder_push(
            b,
            shown,
            *texts,
        );
    assert(reminds(b, shown, *item, preview, *texts));
    let r = plan_reminder(owner, item, targets, body, scheduled, now);
    assert(is_sync(
        r,
        *owner,
        *item,
        *targets,
        b,
        reading_of(text::opt_view(item.reminder_at)),
        now,
    ));
    r
}

// Laws.

/// Whatever is asked of the outbox for a task first drops its pending reminders, so that at
/// most one is left.
pub proof fn old_reminders_are_dropped_first(
    r: Result<Vec<OutboxAction>, String>,
    owner: TodoOwner,
    item: TodoItem,
    targets: ScopeTargets,
    body: TodoPushBody,
    scheduled: Option<Result<ScheduleView, Seq<char>>>,
    now: Moment,
)
    requires
        is_sync(r, owner, item, targets, body, scheduled, now),
    ensures
        r matches Ok(a) ==> 1 <= a@.len() <= 2 && is_cancel(a@[0], item.id@) && (a@.len() == 2
            ==> a@[1] is Upsert),
{
}

/// A reminder that can be set for a draft is one that is set for the task: the check of the
/// draft and the asking agree on which times are in the future.
pub proof fn accepted_reminders_are_set(
    r: Result<Vec<OutboxAction>, String>,
    owner: TodoOwner,
    item: TodoItem,
    targets: ScopeTargets,
    body: TodoPushBody,
    scheduled: Option<Result<ScheduleView, Seq<char>>>,
    now: Moment,
)
    requires
        is_sync(r, owner, item, targets, body, scheduled, now),
        scheduled is Some,
        draft_check(scheduled, now) is Ok,
        target_of(targets) is Some,
    ensures
        r matches Ok(a) && a@.len() == 2 && a@[1] is Upsert,
{
}

/// Another time is another reminder: it is sent though an earlier one was.
pub proof fn another_time_is_another_reminder(id: Seq<char>, first: Seq<char>, second: Seq<char>)
    requires
        first != second,
    ensures
        dedupe_key(id, first) != dedupe_key(id, second),
{
    let head = "todo:"@ + id + ":reminder:"@;
    if dedupe_key(id, first) == dedupe_key(id, second) {
        assert(first =~= (head + first).skip(head.len() as int));
        assert(second =~= (head + second).skip(head.len() as int));
    }
}

} // verus!
