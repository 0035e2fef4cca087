//! Edits of tasks: each given field replaces the old one.
use vstd::prelude::*;
use vstd::string::*;

use crate::text;
use crate::todo::types::{
    TodoItemDraft, TodoRecurrence, TodoRecurrenceKind, TodoRecurrenceUnit, TodoTimePrecision,
};

verus! {

#[derive(Debug)]
pub struct TodoEditPatch {
    pub title: Option<String>,
    pub detail: Option<String>,
    pub due_date: Option<String>,
    pub due_at: Option<String>,
    pub reminder_at: Option<String>,
    pub time_precision: Option<TodoTimePrecision>,
    pub recurrence_kind: Option<TodoRecurrenceKind>,
    pub recurrence_interval_days: Option<u32>,
    pub recurrence_interval: Option<u32>,
    pub recurrence_unit: Option<TodoRecurrenceUnit>,
}

impl Default for TodoEditPatch {
    fn default() -> (r: Self)
        ensures
            !r.changes(),
    {
        TodoEditPatch {
            title: None,
            detail: None,
            due_date: None,
            due_at: None,
            reminder_at: None,
            time_precision: None,
            recurrence_kind: None,
            recurrence_interval_days: None,
            recurrence_interval: None,
            recurrence_unit: None,
        }
    }
}

impl TodoEditPatch {
    /// Whether any field is given.
    pub open spec fn changes(self) -> bool {
        ||| self.title is Some
        ||| self.detail is Some
        ||| self.due_date is Some
        ||| self.due_at is Some
        ||| self.reminder_at is Some
        ||| self.time_precision is Some
        ||| self.recurrence_kind is Some
        ||| self.recurrence_interval_days is Some
        ||| self.recurrence_interval is Some
        ||| self.recurrence_unit is Some
    }

    pub fn has_changes(&self) -> (r: bool)
        ensures
            r == self.changes(),
    {
        self.title.is_some() || self.detail.is_some() || self.due_date.is_some()
            || self.due_at.is_some() || self.reminder_at.is_some() || self.time_precision.is_some()
            || self.recurrence_kind.is_some() || self.recurrence_interval_days.is_some()
            || self.recurrence_interval.is_some() || self.recurrence_unit.is_some()
    }
}

/// The time fields of a task.
pub struct Times {
    pub due_date: Option<Seq<char>>,
    pub due_at: Option<Seq<char>>,
    pub reminder_at: Option<Seq<char>>,
    pub precision: TodoTimePrecision,
}

pub open spec fn times(draft: TodoItemDraft) -> Times {
    Times {
        due_date: text::opt_view(draft.due_date),
        due_at: text::opt_view(draft.due_at),
        reminder_at: text::opt_view(draft.reminder_at),
        precision: draft.time_precision,
    }
}

pub open spec fn or_else(p: Option<TodoTimePrecision>, q: TodoTimePrecision) -> TodoTimePrecision {
    match p {
        Some(x) => x,
        None => q,
    }
}

/// The times after a change of when the task is due. A new time of day brings its date, or
/// none; a new date drops the old time of day.
pub open spec fn with_due(t: Times, patch: TodoEditPatch) -> Times {
    if patch.due_at is Some {
        Times {
            due_at: text::opt_view(patch.due_at),
            due_date: text::opt_view(patch.due_date),
            precision: or_else(patch.time_precision, TodoTimePrecision::DateTime),
            ..t
        }
    } else if patch.due_date is Some {
        Times {
            due_date: text::opt_view(patch.due_date),
            due_at: None,
            precision: or_else(patch.time_precision, TodoTimePrecision::Date),
            ..t
        }
    } else {
        Times { precision: or_else(patch.time_precision, t.precision), ..t }
    }
}

/// The reminder that a patch asks for: a blank one takes the reminder away.
pub open spec fn asked_reminder(s: Seq<char>) -> Option<Seq<char>> {
    if text::blank(s) {
        None
    } else {
        Some(s)
    }
}

/// The times after a change of the reminder. Where the task was due only because of its
/// reminder, it stays due when it reminds.
pub open spec fn with_reminder(t: Times, patch: TodoEditPatch) -> Times {
    match text::opt_view(patch.reminder_at) {
        None => t,
        Some(s) => {
            let next = asked_reminder(s);
            if patch.due_at is None && patch.due_date is None && t.due_at == t.reminder_at {
                Times {
                    due_at: next,
                    reminder_at: next,
                    precision: if next is None && t.due_date is None {
                        TodoTimePrecision::Unset
                    } else if next is Some {
                        or_else(patch.time_precision, TodoTimePrecision::DateTime)
                    } else {
                        t.precision
                    },
                    ..t
                }
            } else {
                Times { reminder_at: next, ..t }
            }
        },
    }
}

pub open spec fn patched_times(t: Times, patch: TodoEditPatch) -> Times {
    with_reminder(with_due(t, patch), patch)
}

/// The draft after the edit. `recurrence` is the rule that the patch's recurrence fields make
/// of the draft's rule.
pub fn apply_to_draft(
    draft: TodoItemDraft,
    patch: &TodoEditPatch,
    recurrence: TodoRecurrence,
    raw_text: &str,
) -> (r: TodoItemDraft)
    ensures
        times(r) == patched_times(times(draft), *patch),
        r.title@ == (match text::opt_view(patch.title) {
            Some(t) => t,
            None => draft.title@,
        }),
        text::opt_view(r.detail) == (if patch.detail is Some {
            text::opt_view(patch.detail)
        } else {
            text::opt_view(draft.detail)
        }),
        r.recurrence == recurrence,
        text::opt_view(r.raw_text) == Some(raw_text@),
{
    let mut d = draft;
    match &patch.title {
        Some(title) => {
            d.title = title.clone();
        },
        None => {},
    }
    match &patch.detail {
        Some(detail) => {
            d.detail = Some(detail.clone());
        },
        None => {},
    }
    if patch.due_at.is_some() {
        d.due_at = text::copy_option(&patch.due_at);
        d.due_date = text::copy_option(&patch.due_date);
        d.time_precision = match patch.time_precision {
            Some(p) => p,
            None => TodoTimePrecision::DateTime,
        };
    } else if patch.due_date.is_some() {
        d.due_date = text::copy_option(&patch.due_date);
        d.due_at = None;
        d.time_precision = match patch.time_precision {
            Some(p) => p,
            None => TodoTimePrecision::Date,
        };
    } else {
        match patch.time_precision {
            Some(p) => {
                d.time_precision = p;
            },
            None => {},
        }
    }
    match &patch.reminder_at {
        Some(reminder_at) => {
            let follows_reminder = patch.due_at.is_none() && patch.due_date.is_none()
                && text::same_option(&d.due_at, &d.reminder_at);
            let next: Option<String> = if text::is_blank(reminder_at.as_str()) {
                None
            } else {
                Some(reminder_at.clone())
            };
            if follows_reminder {
                d.due_at = text::copy_option(&next);
                if next.is_none() && d.due_date.is_none() {
                    d.time_precision = TodoTimePrecision::Unset;
                } else if next.is_some() {
                    d.time_precision = match patch.time_precision {
                        Some(p) => p,
                        None => TodoTimePrecision::DateTime,
                    };
                }
            }
            d.reminder_at = next;
        },
        None => {},
    }
    d.recurrence = recurrence;
    d.raw_text = Some(raw_text.to_owned());
    d
}

// Laws.

/// A patch that gives nothing leaves the times as they were.
pub proof fn an_empty_patch_changes_no_time(t: Times, patch: TodoEditPatch)
    requires
        !patch.changes(),
    ensures
        patched_times(t, patch) == t,
{
}

/// A patch of the reminder alone keeps the due time of a task that was due at another time.
pub proof fn a_new_reminder_keeps_an_own_due_time(t: Times, patch: TodoEditPatch)
    requires
        patch.due_at is None,
        patch.due_date is None,
        t.due_at != t.reminder_at,
    ensures
        patched_times(t, patch).due_at == t.due_at,
        patched_times(t, patch).due_date == t.due_date,
{
}

} // verus!
