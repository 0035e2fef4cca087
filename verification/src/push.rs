//! Messages that are sent on their own: where they go, and what is asked of the outbox that
//! delivers them.
use vstd::prelude::*;

verus! {

#[derive(Debug, Clone, Copy, PartialEq, Eq, Structural)]
pub enum PushTargetType {
    Private,
    Group,
}

/// Who gets a message: a user or a group of the conversation's platform and account.
#[derive(Debug)]
pub struct PushTarget {
    pub scope_key: String,
    pub target_type: PushTargetType,
    pub target_id: String,
}

/// A message for the outbox. One with the same `dedupe_key` takes the place of an earlier
/// one.
#[derive(Debug)]
pub struct NotificationUpsert {
    pub source_type: String,
    pub source_id: String,
    pub dedupe_key: String,
    pub target: PushTarget,
    pub channel: String,
    pub kind: String,
    pub message_type: String,
    pub text: String,
    pub fallback_text: String,
    pub scheduled_at: String,
    pub max_attempts: u32,
    pub reactivate_cancelled: bool,
}

/// What is asked of the outbox.
#[derive(Debug)]
pub enum OutboxAction {
    /// Drops the pending messages of a source.
    CancelBySource { source_type: String, source_id: String },
    Upsert { message: NotificationUpsert },
}

} // verus!
