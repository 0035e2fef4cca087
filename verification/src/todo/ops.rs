//! What a change of tasks does to the conversation: the numbered list that the user saw is
//! forgotten and the change is remembered. A bulk change of nothing leaves both alone, so
//! that the user can still refer to the list; a failed one changes nothing.
use vstd::prelude::*;
use vstd::string::*;

use crate::todo::types;
use crate::todo::types::{
    LastTodoAction, SessionRecord, TodoBulkCancelOutcome, TodoBulkCompleteOutcome,
    TodoBulkRestoreOutcome, TodoCompleteProgressOutcome, TodoError, TodoItem, TodoOwner,
};

verus! {

/// The conversation remembers exactly this change and no list.
pub open spec fn remembers(
    session: SessionRecord,
    owner_key: Seq<char>,
    action: Seq<char>,
    items: Seq<TodoItem>,
) -> bool {
    &&& session.last_todo_query is None
    &&& session.last_todo_action matches Some(last) && last.owner_key@ == owner_key && last.action@
        == action && last.items@ == items
}

/// How a bulk change of these tasks changes the conversation.
pub open spec fn follows(
    before: SessionRecord,
    after: SessionRecord,
    owner_key: Seq<char>,
    action: Seq<char>,
    items: Seq<TodoItem>,
) -> bool {
    if items.len() == 0 {
        after == before
    } else {
        remembers(after, owner_key, action, items)
    }
}

fn remember(session: &mut SessionRecord, owner: &TodoOwner, action: &str, items: Vec<TodoItem>)
    ensures
        remembers(*final(session), owner.key@, action@, items@),
{
    session.last_todo_query = None;
    session.last_todo_action = Some(
        LastTodoAction { owner_key: owner.key.clone(), action: action.to_owned(), items },
    );
}

fn follow(session: &mut SessionRecord, owner: &TodoOwner, action: &str, items: Vec<TodoItem>)
    ensures
        follows(*old(session), *final(session), owner.key@, action@, items@),
{
    if items.len() > 0 {
        remember(session, owner, action, items);
    }
}

fn only(item: &TodoItem) -> (r: Vec<TodoItem>)
    ensures
        r@ == seq![*item],
{
    let mut v: Vec<TodoItem> = Vec::new();
    v.push(item.clone());
    assert(v@ =~= seq![*item]);
    v
}

/// Follows up on a task that the store created, or failed to.
pub fn create_one(
    stored: Result<TodoItem, TodoError>,
    session: &mut SessionRecord,
    owner: &TodoOwner,
) -> (r: Result<TodoItem, TodoError>)
    ensures
        r == stored,
        stored matches Ok(item) ==> remembers(*final(session), owner.key@, "created"@, seq![item]),
        stored is Err ==> *final(session) == *old(session),
{
    match stored {
        Ok(created) => {
            let items = only(&created);
            remember(session, owner, "created", items);
            Ok(created)
        },
        Err(e) => Err(e),
    }
}

/// Follows up on tasks that the store created, or failed to.
pub fn create_many(
    stored: Result<Vec<TodoItem>, TodoError>,
    session: &mut SessionRecord,
    owner: &TodoOwner,
) -> (r: Result<Vec<TodoItem>, TodoError>)
    ensures
        r == stored,
        stored matches Ok(items) ==> follows(
            *old(session),
            *final(session),
            owner.key@,
            "created"@,
            items@,
        ),
        stored is Err ==> *final(session) == *old(session),
{
    match stored {
        Ok(created) => {
            let items = types::copy_items(&created);
            follow(session, owner, "created", items);
            Ok(created)
        },
        Err(e) => Err(e),
    }
}

/// Follows up on a task that the store completed, or failed to.
pub fn complete_one(
    stored: Result<TodoItem, TodoError>,
    session: &mut SessionRecord,
    owner: &TodoOwner,
) -> (r: Result<TodoItem, TodoError>)
    ensures
        r == stored,
        stored matches Ok(item) ==> remembers(
            *final(session),
            owner.key@,
            "completed"@,
            seq![item],
        ),
        stored is Err ==> *final(session) == *old(session),
{
    match stored {
        Ok(completed) => {
            let items = only(&completed);
            remember(session, owner, "completed", items);
            Ok(completed)
        },
        Err(e) => Err(e),
    }
}

/// Follows up on tasks that the store completed, or failed to.
pub fn complete_many(
    stored: Result<TodoBulkCompleteOutcome, TodoError>,
    session: &mut SessionRecord,
    owner: &TodoOwner,
) -> (r: Result<TodoBulkCompleteOutcome, TodoError>)
    ensures
        r == stored,
        stored matches Ok(outcome) ==> follows(
            *old(session),
            *final(session),
            owner.key@,
            "completed"@,
            outcome.completed@,
        ),
        stored is Err ==> *final(session) == *old(session),
{
    match stored {
        Ok(outcome) => {
            let items = types::copy_items(&outcome.completed);
            follow(session, owner, "completed", items);
            Ok(outcome)
        },
        Err(e) => Err(e),
    }
}

/// The first tasks, then the second ones.
pub fn all_of(first: &Vec<TodoItem>, second: &Vec<TodoItem>) -> (r: Vec<TodoItem>)
    ensures
        r@ == first@ + second@,
{
    let mut out = types::copy_items(first);
    let mut i: usize = 0;
    assert(first@ + second@.take(0) =~= first@);
    while i < second.len()
        invariant
            0 <= i <= second@.len(),
            out@ == first@ + second@.take(i as int),
        decreases second@.len() - i,
    {
        out.push(second[i].clone());
        i += 1;
        assert(out@ =~= first@ + second@.take(i as int));
    }
    assert(second@.take(i as int) =~= second@);
    out
}

/// Follows up on tasks that the store completed or moved on, or failed to.
pub fn complete_many_with_recurrence(
    stored: Result<TodoCompleteProgressOutcome, TodoError>,
    session: &mut SessionRecord,
    owner: &TodoOwner,
) -> (r: Result<TodoCompleteProgressOutcome, TodoError>)
    ensures
        r == stored,
        stored matches Ok(outcome) ==> follows(
            *old(session),
            *final(session),
            owner.key@,
            "completed"@,
            outcome.completed@ + outcome.advanced@,
        ),
        stored is Err ==> *final(session) == *old(session),
{
    match stored {
        Ok(outcome) => {
            let items = all_of(&outcome.completed, &outcome.advanced);
            follow(session, owner, "completed", items);
            Ok(outcome)
        },
        Err(e) => Err(e),
    }
}

/// Follows up on completed tasks that the store restored, or failed to.
pub fn restore_completed_many(
    stored: Result<TodoBulkRestoreOutcome, TodoError>,
    session: &mut SessionRecord,
    owner: &TodoOwner,
) -> (r: Result<TodoBulkRestoreOutcome, TodoError>)
    ensures
        r == stored,
        stored matches Ok(outcome) ==> follows(
            *old(session),
            *final(session),
            owner.key@,
            "restored"@,
            outcome.restored@,
        ),
        stored is Err ==> *final(session) == *old(session),
{
    match stored {
        Ok(outcome) => {
            let items = types::copy_items(&outcome.restored);
            follow(session, owner, "restored", items);
            Ok(outcome)
        },
        Err(e) => Err(e),
    }
}

/// What came of restoring completed and cancelled tasks.
#[derive(Debug)]
pub struct TodoRestoreBothOutcome {
    pub completed: TodoBulkRestoreOutcome,
    pub cancelled: TodoBulkRestoreOutcome,
}

impl TodoRestoreBothOutcome {
    pub fn all_restored(&self) -> (r: Vec<TodoItem>)
        ensures
            r@ == self.completed.restored@ + self.cancelled.restored@,
    {
        all_of(&self.completed.restored, &self.cancelled.restored)
    }
}

/// Follows up on completed and cancelled tasks that the store restored. Cancelled tasks are
/// asked for only once the completed ones were restored.
pub fn restore_both(
    completed: Result<TodoBulkRestoreOutcome, TodoError>,
    cancelled: Result<TodoBulkRestoreOutcome, TodoError>,
    session: &mut SessionRecord,
    owner: &TodoOwner,
) -> (r: Result<TodoRestoreBothOutcome, TodoError>)
    ensures
        match (completed, cancelled) {
            (Ok(a), Ok(b)) => {
                &&& r matches Ok(both) && both.completed == a && both.cancelled == b
                &&& follows(
                    *old(session),
                    *final(session),
                    owner.key@,
                    "restored"@,
                    a.restored@ + b.restored@,
                )
            },
            (Ok(_), Err(e)) => r == Err::<TodoRestoreBothOutcome, TodoError>(e) && *final(session)
                == *old(session),
            (Err(e), _) => r == Err::<TodoRestoreBothOutcome, TodoError>(e) && *final(session)
                == *old(session),
        },
{
    match completed {
        Ok(a) => match cancelled {
            Ok(b) => {
                let both = TodoRestoreBothOutcome { completed: a, cancelled: b };
                let items = both.all_restored();
                follow(session, owner, "restored", items);
                Ok(both)
            },
            Err(e) => Err(e),
        },
        Err(e) => Err(e),
    }
}

/// Follows up on tasks that the store cancelled, or failed to.
pub fn cancel_many(
    stored: Result<TodoBulkCancelOutcome, TodoError>,
    session: &mut SessionRecord,
    owner: &TodoOwner,
) -> (r: Result<TodoBulkCancelOutcome, TodoError>)
    ensures
        r == stored,
        stored matches Ok(outcome) ==> follows(
            *old(session),
            *final(session),
            owner.key@,
            "cancelled"@,
            outcome.cancelled@,
        ),
        stored is Err ==> *final(session) == *old(session),
{
    match stored {
        Ok(outcome) => {
            let items = types::copy_items(&outcome.cancelled);
            follow(session, owner, "cancelled", items);
            Ok(outcome)
        },
        Err(e) => Err(e),
    }
}

// Laws.

/// A list that the user saw is forgotten only where a task was changed.
pub proof fn a_list_survives_what_changes_nothing(
    before: SessionRecord,
    after: SessionRecord,
    owner_key: Seq<char>,
    action: Seq<char>,
    items: Seq<TodoItem>,
)
    requires
        follows(before, after, owner_key, action, items),
    ensures
        after.last_todo_query is None || after == before,
        items.len() == 0 ==> after.last_todo_query == before.last_todo_query,
        items.len() > 0 ==> after.last_todo_query is None,
{
}

/// After a change of several tasks at once, none of them counts as the one that was changed
/// last, and neither does one of an earlier change.
pub proof fn a_bulk_change_singles_out_no_task(
    before: SessionRecord,
    after: SessionRecord,
    owner_key: Seq<char>,
    action: Seq<char>,
    items: Seq<TodoItem>,
)
    requires
        follows(before, after, owner_key, action, items),
        items.len() > 1,
    ensures
        after.single() is None,
{
}

/// A task that was changed alone is the one that was changed last.
pub proof fn a_single_change_is_the_last_one(
    before: SessionRecord,
    after: SessionRecord,
    owner_key: Seq<char>,
    action: Seq<char>,
    item: TodoItem,
)
    requires
        follows(before, after, owner_key, action, seq![item]),
    ensures
        after.single() == Some(item),
        after.last_todo_query is None,
{
}

} // verus!
