//! What users see of their tasks: which edits change which time, when a reminder is sent and to
//! whom, and what a card shows.
use vstd::prelude::*;
use vstd::string::*;

use crate::push::{OutboxAction, PushTargetType};
use crate::text;
use crate::text_laws::{lemma_sub_behind, lemma_sub_between, lemma_sub_of_row};
use crate::todo::cards;
use crate::todo::cards::{
    CardTexts, ReminderFieldMode, TodoCardOptions, TodoPushBody, TodoRenderItem,
};
use crate::todo::edit_patch;
use crate::todo::edit_patch::{Times, TodoEditPatch};
use crate::todo::reminder_task;
use crate::todo::reminder_task::{Moment, OutboxError, ScheduleView, ScopeTargets};
use crate::todo::types;
use crate::todo::types::{TodoItem, TodoOwner, TodoRecurrence, TodoStatus, TodoTimePrecision};

verus! {

// Edits.

/// A new time of day is when the task is due, to the minute, on the date that comes with it.
pub proof fn a_new_time_is_taken(t: Times, patch: TodoEditPatch)
    requires
        patch.due_at is Some,
    ensures
        ({
            let after = edit_patch::patched_times(t, patch);
            &&& after.due_at == Some(patch.due_at->0@)
            &&& patch.due_date is Some ==> after.due_date == Some(patch.due_date->0@)
            &&& patch.due_date is None ==> after.due_date is None
            &&& patch.time_precision is None ==> after.precision == TodoTimePrecision::DateTime
            &&& patch.reminder_at is None ==> after.reminder_at == t.reminder_at
        }),
{
}

/// A new date is when the task is due, at no time of the day.
pub proof fn a_new_date_drops_the_time(t: Times, patch: TodoEditPatch)
    requires
        patch.due_at is None,
        patch.due_date is Some,
    ensures
        ({
            let after = edit_patch::patched_times(t, patch);
            &&& after.due_date == Some(patch.due_date->0@)
            &&& after.due_at is None
            &&& patch.time_precision is None ==> after.precision == TodoTimePrecision::Date
            &&& patch.reminder_at is None ==> after.reminder_at == t.reminder_at
        }),
{
}

/// A reminder that is given is set, and a blank one takes the reminder away, whatever else an
/// edit changes.
pub proof fn a_new_reminder_is_taken(t: Times, patch: TodoEditPatch)
    requires
        patch.reminder_at is Some,
    ensures
        ({
            let after = edit_patch::patched_times(t, patch);
            let asked = patch.reminder_at->0@;
            &&& text::trimmed(asked).len() > 0 ==> after.reminder_at == Some(asked)
            &&& text::trimmed(asked).len() == 0 ==> after.reminder_at is None
        }),
{
    text::lemma_trimmed_is_clean(patch.reminder_at->0@);
}

/// A task that is due when it reminds is so after its reminder was moved, and no longer due
/// after it was taken away.
pub proof fn the_due_time_follows_its_reminder(t: Times, patch: TodoEditPatch)
    requires
        patch.reminder_at is Some,
        patch.due_at is None,
        patch.due_date is None,
        t.due_at == t.reminder_at,
    ensures
        ({
            let after = edit_patch::patched_times(t, patch);
            &&& after.due_at == after.reminder_at
            &&& after.due_date == t.due_date
            &&& after.reminder_at is None && t.due_date is None ==> after.precision
                == TodoTimePrecision::Unset
            &&& after.reminder_at is Some && patch.time_precision is None ==> after.precision
                == TodoTimePrecision::DateTime
        }),
{
}

/// Two rules are the same if all that they say is.
pub proof fn rules_are_compared_whole(a: TodoRecurrence, b: TodoRecurrence)
    ensures
        types::same_rule(a, b) ==> a.interval == b.interval && a.interval_days == b.interval_days,
        types::same_rule(a, b) ==> (a.kind is Once <==> b.kind is Once),
        types::same_rule(a, b) ==> (a.kind is EveryNDays <==> b.kind is EveryNDays),
        types::same_rule(a, b) ==> (a.unit is Day <==> b.unit is Day),
        types::same_rule(a, b) && a.kind is Named ==> a.kind->Named_0@ == b.kind->Named_0@,
        types::same_rule(a, b) && a.unit is Named ==> a.unit->Named_0@ == b.unit->Named_0@,
        types::same_rule(a, a),
        types::same_rule(a, b) == types::same_rule(b, a),
{
}

// Reminders.

pub open spec fn is_later(seconds: int, nanos: int, now: Moment) -> bool {
    seconds > now.seconds || (seconds == now.seconds && nanos > now.nanos)
}

/// A reminder in the future is sent at its time to the user, or where there is none to the
/// group; the pending ones of the task are dropped first.
pub proof fn reminders_ahead_are_sent(
    r: Result<Vec<OutboxAction>, String>,
    owner: TodoOwner,
    item: TodoItem,
    targets: ScopeTargets,
    body: TodoPushBody,
    t: ScheduleView,
    now: Moment,
)
    requires
        reminder_task::is_sync(
            r,
            owner,
            item,
            targets,
            body,
            Some(Ok::<ScheduleView, Seq<char>>(t)),
            now,
        ),
        is_later(t.0 as int, t.1 as int, now),
        targets.private_id is Some || targets.group_id is Some,
    ensures
        ({
            &&& r matches Ok(a)
            &&& a@.len() == 2
            &&& a@[0] matches OutboxAction::CancelBySource { source_type, source_id }
            &&& source_type@ == "todo"@
            &&& source_id@ == item.id@
            &&& a@[1] matches OutboxAction::Upsert { message: m }
            &&& m.source_type@ == "todo"@
            &&& m.source_id@ == item.id@
            &&& m.scheduled_at@ == t.2
            &&& m.text == body.markdown
            &&& m.fallback_text == body.text
            &&& m.message_type@ == "markdown"@
            &&& m.max_attempts >= 1
            &&& m.target.scope_key@ == owner.scope_key@
            &&& targets.private_id is Some ==> m.target.target_type == PushTargetType::Private
                && m.target.target_id@ == targets.private_id->0@
            &&& targets.private_id is None ==> m.target.target_type == PushTargetType::Group
                && m.target.target_id@ == targets.group_id->0@
        }),
{
}

/// Without a reminder, or with one that is not ahead, nothing is sent and nothing stays to be
/// sent.
pub proof fn past_reminders_are_not_sent(
    r: Result<Vec<OutboxAction>, String>,
    owner: TodoOwner,
    item: TodoItem,
    targets: ScopeTargets,
    body: TodoPushBody,
    scheduled: Option<Result<ScheduleView, Seq<char>>>,
    now: Moment,
)
    requires
        reminder_task::is_sync(r, owner, item, targets, body, scheduled, now),
        scheduled matches Some(x) ==> x is Ok && !is_later(x->Ok_0.0 as int, x->Ok_0.1 as int, now),
    ensures
        ({
            &&& r matches Ok(a)
            &&& a@.len() == 1
            &&& a@[0] matches OutboxAction::CancelBySource { source_type, source_id }
            &&& source_type@ == "todo"@
            &&& source_id@ == item.id@
        }),
{
}

/// A draft is taken with a reminder exactly if that is in the future; one without a reminder
/// always is.
pub proof fn drafts_remind_of_the_future(t: ScheduleView, e: Seq<char>, now: Moment)
    ensures
        reminder_task::draft_check(Some(Ok::<ScheduleView, Seq<char>>(t)), now) is Ok <==> is_later(
            t.0 as int,
            t.1 as int,
            now,
        ),
        reminder_task::draft_check(None, now) is Ok,
        reminder_task::draft_check(Some(Err::<ScheduleView, Seq<char>>(e)), now) == Err::<(), Seq<char>>(e),
{
}

/// A time is taken as soon as one of the accepted forms reads it; without text, or where none
/// does, it is refused.
pub proof fn times_are_read_in_one_of_their_forms(
    full: Option<ScheduleView>,
    with_seconds: Option<Option<ScheduleView>>,
    with_minutes: Option<Option<ScheduleView>>,
)
    ensures
        ({
            let r = reminder_task::chosen(false, full, with_seconds, with_minutes);
            &&& full is Some ==> r == Ok::<ScheduleView, Seq<char>>(full->0)
            &&& with_seconds matches Some(Some(t)) ==> (full is None ==> r == Ok::<ScheduleView, Seq<char>>(t))
            &&& with_minutes matches Some(Some(t)) ==> (full is None && with_seconds is None ==> r
                == Ok::<ScheduleView, Seq<char>>(t))
            &&& full is None && with_seconds is None && with_minutes is None ==> r is Err
            &&& full is None && with_seconds == Some(None::<ScheduleView>) ==> r is Err
        }),
        reminder_task::chosen(true, full, with_seconds, with_minutes) is Err,
{
}

/// Asking the outbox went well exactly if it answered no request with an error; else its first
/// error is told.
pub proof fn the_first_error_is_told(answers: Seq<Result<usize, OutboxError>>, k: int)
    ensures
        (forall|i: int| 0 <= i < answers.len() ==> (#[trigger] answers[i]) is Ok) ==> reminder_task::sync_result(
            answers,
        ) is Ok,
        0 <= k < answers.len() && answers[k] is Err && (forall|i: int|
            0 <= i < k ==> (#[trigger] answers[i]) is Ok) ==> reminder_task::sync_result(answers) == Err::<
            (),
            String,
        >(answers[k]->Err_0.message),
    decreases answers.len(),
{
    if answers.len() > 0 {
        let rest = answers.skip(1);
        the_first_error_is_told(rest, k - 1);
        assert forall|i: int| 0 <= i < rest.len() implies #[trigger] rest[i] == answers[i + 1] by {}
        if 0 < k < answers.len() {
            assert(rest[k - 1] == answers[k]);
        }
    }
}

// Cards.

proof fn lemma_line_is_there(
    first: Seq<char>,
    items: Seq<TodoRenderItem>,
    md: bool,
    numbered: bool,
    options: TodoCardOptions,
    texts: CardTexts,
    k: int,
    line: Seq<char>,
    p: Seq<char>,
)
    requires
        0 <= k < items.len(),
        is_line(items[k], md, k, numbered, options, texts, line),
        text::has_sub(line, p),
    ensures
        text::has_sub(text::joined(cards::cards(first, items, md, numbered, options, texts), "\n"@), p),
{
    lemma_lines(items[k], md, k, numbered, options, texts, line);
    lemma_line_of_cards(first, items, md, numbered, options, texts, k, line);
    let all = cards::cards(first, items, md, numbered, options, texts);
    let i = choose|i: int| 0 <= i < all.len() && all[i] == line;
    lemma_sub_of_row(all, i, p);
}

proof fn lemma_in_sum(a: Seq<Seq<char>>, b: Seq<Seq<char>>, x: Seq<char>)
    requires
        a.contains(x) || b.contains(x),
    ensures
        (a + b).contains(x),
{
    if a.contains(x) {
        let i = choose|i: int| 0 <= i < a.len() && a[i] == x;
        assert((a + b)[i] == x);
    } else {
        let i = choose|i: int| 0 <= i < b.len() && b[i] == x;
        assert((a + b)[a.len() + i] == x);
    }
}

proof fn lemma_regrouped(a: Seq<Seq<char>>, b: Seq<Seq<char>>, c: Seq<Seq<char>>)
    ensures
        (a + b) + c == a + (b + c),
{
    assert((a + b) + c =~= a + (b + c));
}

/// The lines of a card stand behind those before it.
proof fn lemma_card_behind(
    lines: Seq<Seq<char>>,
    item: TodoRenderItem,
    md: bool,
    index: int,
    numbered: bool,
    options: TodoCardOptions,
    texts: CardTexts,
)
    ensures
        cards::card_behind(lines, item, md, index, numbered, options, texts) == lines
            + cards::card_behind(Seq::empty(), item, md, index, numbered, options, texts),
{
    let a = cards::line_of(Some(cards::title_line(item, md, index, numbered, texts)));
    let b = cards::line_of(cards::status_line(item, md));
    let c = cards::line_of(cards::reminder_line(item, md, options, texts));
    let d = cards::line_of(cards::recurrence_line(item, md, texts));
    let e = cards::line_of(cards::next_line(item, md, options, texts));
    let f = cards::line_of(cards::detail_line(item, md, texts));
    let g = cards::line_of(
        cards::end_line(item, "completed"@, "完成时间"@, text::opt_view(item.completed_at), md, texts),
    );
    let h = cards::line_of(
        cards::end_line(item, "cancelled"@, "取消时间"@, text::opt_view(item.cancelled_at), md, texts),
    );
    lemma_eight_parts(lines, a, b, c, d, e, f, g, h);
}

proof fn lemma_eight_parts(
    lines: Seq<Seq<char>>,
    a: Seq<Seq<char>>,
    b: Seq<Seq<char>>,
    c: Seq<Seq<char>>,
    d: Seq<Seq<char>>,
    e: Seq<Seq<char>>,
    f: Seq<Seq<char>>,
    g: Seq<Seq<char>>,
    h: Seq<Seq<char>>,
)
    ensures
        lines + a + b + c + d + e + f + g + h == lines + (Seq::<Seq<char>>::empty() + a + b + c + d + e
            + f + g + h),
{
    let none = Seq::<Seq<char>>::empty();
    assert(lines + none =~= lines);
    lemma_regrouped(lines, none, a);
    lemma_regrouped(lines, none + a, b);
    lemma_regrouped(lines, none + a + b, c);
    lemma_regrouped(lines, none + a + b + c, d);
    lemma_regrouped(lines, none + a + b + c + d, e);
    lemma_regrouped(lines, none + a + b + c + d + e, f);
    lemma_regrouped(lines, none + a + b + c + d + e + f, g);
    lemma_regrouped(lines, none + a + b + c + d + e + f + g, h);
}

proof fn lemma_in_eight_parts(
    a: Seq<Seq<char>>,
    b: Seq<Seq<char>>,
    c: Seq<Seq<char>>,
    d: Seq<Seq<char>>,
    e: Seq<Seq<char>>,
    f: Seq<Seq<char>>,
    g: Seq<Seq<char>>,
    h: Seq<Seq<char>>,
    x: Seq<char>,
)
    requires
        a.contains(x) || b.contains(x) || c.contains(x) || d.contains(x) || e.contains(x) || f.contains(
            x,
        ) || g.contains(x) || h.contains(x),
    ensures
        (Seq::<Seq<char>>::empty() + a + b + c + d + e + f + g + h).contains(x),
{
    let none = Seq::<Seq<char>>::empty();
    let s1 = none + a;
    let s2 = s1 + b;
    let s3 = s2 + c;
    let s4 = s3 + d;
    let s5 = s4 + e;
    let s6 = s5 + f;
    let s7 = s6 + g;
    if a.contains(x) {
        lemma_in_sum(none, a, x);
    }
    if s1.contains(x) || b.contains(x) {
        lemma_in_sum(s1, b, x);
    }
    if s2.contains(x) || c.contains(x) {
        lemma_in_sum(s2, c, x);
    }
    if s3.contains(x) || d.contains(x) {
        lemma_in_sum(s3, d, x);
    }
    if s4.contains(x) || e.contains(x) {
        lemma_in_sum(s4, e, x);
    }
    if s5.contains(x) || f.contains(x) {
        lemma_in_sum(s5, f, x);
    }
    if s6.contains(x) || g.contains(x) {
        lemma_in_sum(s6, g, x);
    }
    lemma_in_sum(s7, h, x);
}

proof fn lemma_line_of_cards(
    first: Seq<char>,
    items: Seq<TodoRenderItem>,
    md: bool,
    numbered: bool,
    options: TodoCardOptions,
    texts: CardTexts,
    k: int,
    line: Seq<char>,
)
    requires
        0 <= k < items.len(),
        cards::card_behind(Seq::empty(), items[k], md, k, numbered, options, texts).contains(line),
    ensures
        cards::cards(first, items, md, numbered, options, texts).contains(line),
    decreases items.len(),
{
    let front = items.drop_last();
    let before = cards::cards(first, front, md, numbered, options, texts).push(Seq::empty());
    let all = cards::cards(first, items, md, numbered, options, texts);
    let own = cards::card_behind(
        Seq::empty(),
        items.last(),
        md,
        items.len() - 1,
        numbered,
        options,
        texts,
    );
    lemma_card_behind(before, items.last(), md, items.len() - 1, numbered, options, texts);
    assert(all == before + own);
    if k < front.len() {
        assert(front[k] == items[k]);
        lemma_line_of_cards(first, front, md, numbered, options, texts, k, line);
        let earlier = cards::cards(first, front, md, numbered, options, texts);
        let i = choose|i: int| 0 <= i < earlier.len() && earlier[i] == line;
        assert(all[i] == line);
    } else {
        assert(items.last() == items[k]);
        let i = choose|i: int| 0 <= i < own.len() && own[i] == line;
        assert(all[before.len() + i] == line);
    }
}

/// Whether the line is one of those that a card can have.
spec fn is_line(
    item: TodoRenderItem,
    md: bool,
    index: int,
    numbered: bool,
    options: TodoCardOptions,
    texts: CardTexts,
    x: Seq<char>,
) -> bool {
    ||| x == cards::title_line(item, md, index, numbered, texts)
    ||| cards::status_line(item, md) == Some(x)
    ||| cards::reminder_line(item, md, options, texts) == Some(x)
    ||| cards::recurrence_line(item, md, texts) == Some(x)
    ||| cards::next_line(item, md, options, texts) == Some(x)
    ||| cards::detail_line(item, md, texts) == Some(x)
    ||| cards::end_line(item, "completed"@, "完成时间"@, text::opt_view(item.completed_at), md, texts)
        == Some(x)
    ||| cards::end_line(item, "cancelled"@, "取消时间"@, text::opt_view(item.cancelled_at), md, texts)
        == Some(x)
}

proof fn lemma_line_of(o: Option<Seq<char>>, x: Seq<char>)
    ensures
        o == Some(x) ==> cards::line_of(o).contains(x),
{
    if o == Some(x) {
        assert(cards::line_of(o)[0] == x);
    }
}

proof fn lemma_lines(
    item: TodoRenderItem,
    md: bool,
    index: int,
    numbered: bool,
    options: TodoCardOptions,
    texts: CardTexts,
    x: Seq<char>,
)
    requires
        is_line(item, md, index, numbered, options, texts, x),
    ensures
        cards::card_behind(Seq::empty(), item, md, index, numbered, options, texts).contains(x),
{
    let a = Some(cards::title_line(item, md, index, numbered, texts));
    let b = cards::status_line(item, md);
    let c = cards::reminder_line(item, md, options, texts);
    let d = cards::recurrence_line(item, md, texts);
    let e = cards::next_line(item, md, options, texts);
    let f = cards::detail_line(item, md, texts);
    let g = cards::end_line(item, "completed"@, "完成时间"@, text::opt_view(item.completed_at), md, texts);
    let h = cards::end_line(item, "cancelled"@, "取消时间"@, text::opt_view(item.cancelled_at), md, texts);
    lemma_line_of(a, x);
    lemma_line_of(b, x);
    lemma_line_of(c, x);
    lemma_line_of(d, x);
    lemma_line_of(e, x);
    lemma_line_of(f, x);
    lemma_line_of(g, x);
    lemma_line_of(h, x);
    lemma_in_eight_parts(
        cards::line_of(a),
        cards::line_of(b),
        cards::line_of(c),
        cards::line_of(d),
        cards::line_of(e),
        cards::line_of(f),
        cards::line_of(g),
        cards::line_of(h),
        x,
    );
}

/// In plain text the cards show of every task its title, its status, its times and its
/// details.
pub proof fn cards_show_every_task(
    header: Seq<char>,
    items: Seq<TodoRenderItem>,
    options: TodoCardOptions,
    texts: CardTexts,
    k: int,
)
    requires
        0 <= k < items.len(),
    ensures
        ({
            let m = cards::rendered(header, items, false, options, texts);
            let item = items[k];
            let title = text::trimmed(item.title@);
            &&& title.len() <= 80 ==> text::has_sub(m, title)
            &&& items.len() > 1 && title.len() <= 80 ==> text::has_sub(
                m,
                text::decimal((k + 1) as nat) + ". "@ + title,
            )
            &&& item.status matches Some(s) ==> {
                &&& s@ == "pending"@ ==> text::has_sub(m, "进行中"@)
                &&& s@ == "completed"@ ==> text::has_sub(m, "已完成"@)
                &&& s@ == "cancelled"@ ==> text::has_sub(m, "已取消"@)
                &&& s@ == "completed"@ && item.completed_at is Some ==> text::has_sub(
                    m,
                    texts.times.label(item.completed_at->0@),
                )
                &&& s@ == "cancelled"@ && item.cancelled_at is Some ==> text::has_sub(
                    m,
                    texts.times.label(item.cancelled_at->0@),
                )
            }
            &&& options.reminder_mode == ReminderFieldMode::Current && item.reminder_at is Some
                ==> text::has_sub(m, texts.times.label(item.reminder_at->0@))
            &&& options.reminder_mode == ReminderFieldMode::Next && item.next_reminder_at is Some
                ==> text::has_sub(m, texts.times.label(item.next_reminder_at->0@))
            &&& options.show_next_reminder && item.next_reminder_at is Some && (item.reminder_at is None
                || item.reminder_at->0@ != item.next_reminder_at->0@) ==> text::has_sub(
                m,
                texts.times.label(item.next_reminder_at->0@),
            )
            &&& item.detail matches Some(d) ==> (0 < text::trimmed(d@).len() <= 120 ==> text::has_sub(
                m,
                text::trimmed(d@),
            ))
            &&& item.due_date is Some && item.due_at is Some ==> text::has_sub(
                m,
                texts.times.label(item.due_at->0@),
            )
            &&& item.due_date is Some && item.due_at is None ==> text::has_sub(
                m,
                texts.times.label(item.due_date->0@),
            )
            &&& item.due_at is Some && item.reminder_at is None ==> text::has_sub(
                m,
                texts.times.label(item.due_at->0@),
            )
            &&& cards::words_in(texts.rules@, item.rule()) is Some ==> text::has_sub(
                m,
                cards::words_in(texts.rules@, item.rule())->0,
            )
        }),
{
    let item = items[k];
    let numbered = items.len() > 1;
    lemma_title_is_shown(item, k, numbered, texts);
    let first = header;
    let all = cards::cards(first, items, false, numbered, options, texts);
    let tl = cards::title_line(item, false, k, numbered, texts);
    let title = text::trimmed(item.title@);
    if title.len() <= 80 {
        lemma_line_is_there(first, items, false, numbered, options, texts, k, tl, title);
        if numbered {
            let start = text::decimal((k + 1) as nat) + ". "@ + title;
            lemma_line_is_there(first, items, false, numbered, options, texts, k, tl, start);
        }
    }
    if cards::due_chip(item, texts) is Some {
        let time = cards::due_chip(item, texts)->0;
        lemma_line_is_there(first, items, false, numbered, options, texts, k, tl, time);
    }
    if item.status is Some && cards::status_words(item.status->0@) is Some {
        let w = cards::status_words(item.status->0@)->0;
        lemma_field_shows("状态"@, w);
        lemma_line_is_there(
            first,
            items,
            false,
            numbered,
            options,
            texts,
            k,
            cards::status_line(item, false)->0,
            w,
        );
    }
    if cards::reminder_time(item, options.reminder_mode) is Some {
        let w = texts.times.label(cards::reminder_time(item, options.reminder_mode)->0);
        lemma_field_shows(cards::reminder_label(options.reminder_mode), w);
        lemma_line_is_there(
            first,
            items,
            false,
            numbered,
            options,
            texts,
            k,
            cards::reminder_line(item, false, options, texts)->0,
            w,
        );
    }
    if cards::recurrence_line(item, false, texts) is Some {
        let w = cards::words_in(texts.rules@, item.rule())->0;
        lemma_field_shows("重复"@, w);
        lemma_line_is_there(
            first,
            items,
            false,
            numbered,
            options,
            texts,
            k,
            cards::recurrence_line(item, false, texts)->0,
            w,
        );
    }
    if cards::next_line(item, false, options, texts) is Some {
        let w = texts.times.label(item.next_reminder_at->0@);
        lemma_field_shows("下一次提醒"@, w);
        lemma_line_is_there(
            first,
            items,
            false,
            numbered,
            options,
            texts,
            k,
            cards::next_line(item, false, options, texts)->0,
            w,
        );
    }
    if item.detail is Some && 0 < text::trimmed(item.detail->0@).len() <= 120 {
        let w = text::trimmed(item.detail->0@);
        text::lemma_trimmed_is_clean(item.detail->0@);
        lemma_sub_behind("详情：\n"@, w);
        lemma_line_is_there(
            first,
            items,
            false,
            numbered,
            options,
            texts,
            k,
            cards::detail_line(item, false, texts)->0,
            w,
        );
    }
    if item.status is Some && item.status->0@ == "completed"@ && item.completed_at is Some {
        let w = texts.times.label(item.completed_at->0@);
        lemma_field_shows("完成时间"@, w);
        lemma_line_is_there(
            first,
            items,
            false,
            numbered,
            options,
            texts,
            k,
            cards::field("完成时间"@, w, false),
            w,
        );
    }
    if item.status is Some && item.status->0@ == "cancelled"@ && item.cancelled_at is Some {
        let w = texts.times.label(item.cancelled_at->0@);
        lemma_field_shows("取消时间"@, w);
        lemma_line_is_there(
            first,
            items,
            false,
            numbered,
            options,
            texts,
            k,
            cards::field("取消时间"@, w, false),
            w,
        );
    }
    lemma_status_words();
}

proof fn lemma_status_words()
    ensures
        cards::status_words("pending"@) == Some("进行中"@),
        cards::status_words("completed"@) == Some("已完成"@),
        cards::status_words("cancelled"@) == Some("已取消"@),
{
    reveal_strlit("pending");
    reveal_strlit("completed");
    reveal_strlit("cancelled");
    assert("pending"@.len() != "completed"@.len());
    assert("completed"@[1] == 'o');
    assert("cancelled"@[1] == 'a');
}

proof fn lemma_field_shows(label: Seq<char>, value: Seq<char>)
    ensures
        text::has_sub(cards::field(label, value, false), value),
{
    lemma_sub_behind(Seq::<char>::empty() + label + "："@, value);
}

proof fn lemma_title_is_shown(item: TodoRenderItem, index: int, numbered: bool, texts: CardTexts)
    ensures
        ({
            let line = cards::title_line(item, false, index, numbered, texts);
            let title = text::trimmed(item.title@);
            &&& title.len() <= 80 ==> text::has_sub(line, title)
            &&& title.len() <= 80 && numbered ==> text::has_sub(
                line,
                text::decimal((index + 1) as nat) + ". "@ + title,
            )
            &&& cards::due_chip(item, texts) is Some ==> text::has_sub(
                line,
                cards::due_chip(item, texts)->0,
            )
        }),
{
    let line = cards::title_line(item, false, index, numbered, texts);
    let title = texts.titles.shortened(text::trimmed(item.title@), 80);
    let number = if numbered {
        text::decimal((index + 1) as nat) + ". "@
    } else {
        Seq::<char>::empty()
    };
    let start = number + title;
    let end = match cards::due_chip(item, texts) {
        Some(time) => " · 时间："@ + time,
        None => Seq::<char>::empty(),
    };
    assert(line =~= number + title + end);
    lemma_sub_between(number, title, end);
    assert(line =~= Seq::<char>::empty() + start + end);
    lemma_sub_between(Seq::<char>::empty(), start, end);
    if cards::due_chip(item, texts) is Some {
        let time = cards::due_chip(item, texts)->0;
        assert(line =~= (number + title + " · 时间："@) + time);
        lemma_sub_behind(number + title + " · 时间："@, time);
    }
}

/// A reminder shows the task that it reminds of, as it is stored.
pub proof fn reminders_show_their_task(
    body: TodoPushBody,
    shown: TodoRenderItem,
    item: TodoItem,
    next: Option<String>,
    texts: CardTexts,
)
    requires
        reminder_task::reminds(body, shown, item, Ok(next), texts),
        0 < text::trimmed(item.title@).len() <= 80,
    ensures
        text::has_sub(body.text@, text::trimmed(item.title@)),
        item.reminder_at is Some ==> text::has_sub(
            body.text@,
            texts.times.label(item.reminder_at->0@),
        ),
        next is Some && item.reminder_at is Some && next->0@ != item.reminder_at->0@ ==> text::has_sub(
            body.text@,
            texts.times.label(next->0@),
        ),
        item.detail is Some && 0 < text::trimmed(item.detail->0@).len() <= 120 ==> text::has_sub(
            body.text@,
            text::trimmed(item.detail->0@),
        ),
        item.status == TodoStatus::Pending ==> text::has_sub(body.text@, "进行中"@),
        item.status == TodoStatus::Completed ==> text::has_sub(body.text@, "已完成"@),
        item.status == TodoStatus::Cancelled ==> text::has_sub(body.text@, "已取消"@),
{
    let options = TodoCardOptions {
        reminder_mode: ReminderFieldMode::Current,
        show_next_reminder: true,
    };
    cards_show_every_task("⏰ 待办提醒"@, seq![shown], options, texts, 0);
}

} // verus!
