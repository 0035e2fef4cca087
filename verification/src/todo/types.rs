//! Tasks as the other modules see them.
use vstd::prelude::*;
use vstd::string::*;

use crate::text;

verus! {

#[derive(Debug, Clone, Copy, PartialEq, Eq, Structural)]
pub enum TodoStatus {
    Pending,
    Completed,
    Cancelled,
}

#[derive(Debug, Clone, Copy, PartialEq, Eq, Structural)]
pub enum TodoTimePrecision {
    Unset,
    Date,
    DateTime,
}

/// How a task repeats.
#[derive(Debug)]
pub enum TodoRecurrenceKind {
    Once,
    EveryNDays,
    /// A rule of another kind, by its name.
    Named(String),
}

#[derive(Debug)]
pub enum TodoRecurrenceUnit {
    Day,
    /// Another unit, by its name.
    Named(String),
}

impl Clone for TodoRecurrenceKind {
    fn clone(&self) -> (r: Self)
        ensures
            r == *self,
    {
        match self {
            TodoRecurrenceKind::Once => TodoRecurrenceKind::Once,
            TodoRecurrenceKind::EveryNDays => TodoRecurrenceKind::EveryNDays,
            TodoRecurrenceKind::Named(name) => TodoRecurrenceKind::Named(name.clone()),
        }
    }
}

impl Clone for TodoRecurrenceUnit {
    fn clone(&self) -> (r: Self)
        ensures
            r == *self,
    {
        match self {
            TodoRecurrenceUnit::Day => TodoRecurrenceUnit::Day,
            TodoRecurrenceUnit::Named(name) => TodoRecurrenceUnit::Named(name.clone()),
        }
    }
}

/// The rule by which a task repeats.
#[derive(Debug)]
pub struct TodoRecurrence {
    pub kind: TodoRecurrenceKind,
    pub interval_days: u32,
    pub interval: u32,
    pub unit: TodoRecurrenceUnit,
}

impl Clone for TodoRecurrence {
    fn clone(&self) -> (r: Self)
        ensures
            r == *self,
    {
        TodoRecurrence {
            kind: self.kind.clone(),
            interval_days: self.interval_days,
            interval: self.interval,
            unit: self.unit.clone(),
        }
    }
}

pub open spec fn same_kind(a: TodoRecurrenceKind, b: TodoRecurrenceKind) -> bool {
    match (a, b) {
        (TodoRecurrenceKind::Once, TodoRecurrenceKind::Once) => true,
        (TodoRecurrenceKind::EveryNDays, TodoRecurrenceKind::EveryNDays) => true,
        (TodoRecurrenceKind::Named(x), TodoRecurrenceKind::Named(y)) => x@ == y@,
        _ => false,
    }
}

pub open spec fn same_unit(a: TodoRecurrenceUnit, b: TodoRecurrenceUnit) -> bool {
    match (a, b) {
        (TodoRecurrenceUnit::Day, TodoRecurrenceUnit::Day) => true,
        (TodoRecurrenceUnit::Named(x), TodoRecurrenceUnit::Named(y)) => x@ == y@,
        _ => false,
    }
}

/// Whether two rules are the same.
pub open spec fn same_rule(a: TodoRecurrence, b: TodoRecurrence) -> bool {
    same_kind(a.kind, b.kind) && a.interval_days == b.interval_days && a.interval == b.interval
        && same_unit(a.unit, b.unit)
}

pub fn is_same_rule(a: &TodoRecurrence, b: &TodoRecurrence) -> (r: bool)
    ensures
        r == same_rule(*a, *b),
{
    let kinds = match (&a.kind, &b.kind) {
        (TodoRecurrenceKind::Once, TodoRecurrenceKind::Once) => true,
        (TodoRecurrenceKind::EveryNDays, TodoRecurrenceKind::EveryNDays) => true,
        (TodoRecurrenceKind::Named(x), TodoRecurrenceKind::Named(y)) => text::same(
            x.as_str(),
            y.as_str(),
        ),
        _ => false,
    };
    let units = match (&a.unit, &b.unit) {
        (TodoRecurrenceUnit::Day, TodoRecurrenceUnit::Day) => true,
        (TodoRecurrenceUnit::Named(x), TodoRecurrenceUnit::Named(y)) => text::same(
            x.as_str(),
            y.as_str(),
        ),
        _ => false,
    };
    kinds && a.interval_days == b.interval_days && a.interval == b.interval && units
}

#[derive(Debug)]
pub struct TodoItem {
    pub id: String,
    pub user_id: Option<String>,
    pub scope_key: String,
    pub title: String,
    pub detail: Option<String>,
    pub raw_text: Option<String>,
    pub due_date: Option<String>,
    pub due_at: Option<String>,
    pub reminder_at: Option<String>,
    pub time_precision: TodoTimePrecision,
    pub recurrence: TodoRecurrence,
    pub status: TodoStatus,
    pub created_at: String,
    pub updated_at: String,
    pub completed_at: Option<String>,
    pub cancelled_at: Option<String>,
}

impl Clone for TodoItem {
    fn clone(&self) -> (r: Self)
        ensures
            r == *self,
    {
        TodoItem {
            id: self.id.clone(),
            user_id: text::copy_option(&self.user_id),
            scope_key: self.scope_key.clone(),
            title: self.title.clone(),
            detail: text::copy_option(&self.detail),
            raw_text: text::copy_option(&self.raw_text),
            due_date: text::copy_option(&self.due_date),
            due_at: text::copy_option(&self.due_at),
            reminder_at: text::copy_option(&self.reminder_at),
            time_precision: self.time_precision,
            recurrence: self.recurrence.clone(),
            status: self.status,
            created_at: self.created_at.clone(),
            updated_at: self.updated_at.clone(),
            completed_at: text::copy_option(&self.completed_at),
            cancelled_at: text::copy_option(&self.cancelled_at),
        }
    }
}

pub fn copy_items(items: &Vec<TodoItem>) -> (r: Vec<TodoItem>)
    ensures
        r@ == items@,
{
    let mut out: Vec<TodoItem> = Vec::new();
    let mut i: usize = 0;
    while i < items.len()
        invariant
            0 <= i <= items@.len(),
            out@ == items@.take(i as int),
        decreases items@.len() - i,
    {
        out.push(items[i].clone());
        i += 1;
        assert(out@ =~= items@.take(i as int));
    }
    assert(out@ =~= items@);
    out
}

/// A task that is not stored yet.
#[derive(Debug)]
pub struct TodoItemDraft {
    pub title: String,
    pub detail: Option<String>,
    pub raw_text: Option<String>,
    pub due_date: Option<String>,
    pub due_at: Option<String>,
    pub reminder_at: Option<String>,
    pub time_precision: TodoTimePrecision,
    pub recurrence: TodoRecurrence,
}

/// Whose tasks they are.
#[derive(Debug)]
pub struct TodoOwner {
    pub key: String,
    pub scope_key: String,
}

#[derive(Debug)]
pub struct TodoError {
    pub code: String,
    pub message: String,
}

/// What came of completing several tasks.
#[derive(Debug)]
pub struct TodoBulkCompleteOutcome {
    pub completed: Vec<TodoItem>,
    pub skipped: Vec<String>,
}

/// What came of completing several tasks of which some repeat: the finished ones, and those
/// that moved on to their next time.
#[derive(Debug)]
pub struct TodoCompleteProgressOutcome {
    pub completed: Vec<TodoItem>,
    pub advanced: Vec<TodoItem>,
    pub skipped: Vec<String>,
}

#[derive(Debug)]
pub struct TodoBulkRestoreOutcome {
    pub restored: Vec<TodoItem>,
    pub skipped: Vec<String>,
}

#[derive(Debug)]
pub struct TodoBulkCancelOutcome {
    pub cancelled: Vec<TodoItem>,
    pub skipped: Vec<String>,
}

/// The last change of tasks in a conversation.
#[derive(Debug)]
pub struct LastTodoAction {
    pub owner_key: String,
    pub action: String,
    pub items: Vec<TodoItem>,
}

/// What a conversation remembers about tasks.
#[derive(Debug)]
pub struct SessionRecord {
    /// The numbered list that the user saw last, by the tasks' identifiers.
    pub last_todo_query: Option<Vec<String>>,
    pub last_todo_action: Option<LastTodoAction>,
}

impl SessionRecord {
    /// The task that was changed last, if it was changed alone.
    pub open spec fn single(self) -> Option<TodoItem> {
        match self.last_todo_action {
            Some(last) => if last.items@.len() == 1 {
                Some(last.items@[0])
            } else {
                None
            },
            None => None,
        }
    }

    /// The task that "the one just now" means. After a change of several there is none.
    pub fn last_changed(&self) -> (r: Option<&TodoItem>)
        ensures
            r == (match self.single() {
                Some(item) => Some(&item),
                None => None,
            }),
    {
        match &self.last_todo_action {
            Some(last) => if last.items.len() == 1 {
                Some(&last.items[0])
            } else {
                None
            },
            None => None,
        }
    }
}

} // verus!
