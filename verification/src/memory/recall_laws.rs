//! What a conversation is shown of the memories: each layer holds the newest of exactly those
//! records that its reader may see there.
use vstd::prelude::*;
use vstd::string::*;

use crate::memory::recall;
use crate::memory::recall::{MemoryRecall, RecallLayer};
use crate::memory::store::{MemoryRow, StoreView};
use crate::memory::types::{
    MemoryError, MemoryKind, MemoryRecord, MemoryScopeType, MemoryStatus, MemoryTarget,
    MemoryVisibility,
};
use crate::text;

verus! {

/// Whether the row is an active note that the group shares, for its members, for
/// conversations, or for all.
pub open spec fn is_group_note(row: MemoryRow, group: Seq<char>) -> bool {
    let record = row.record;
    &&& record.status == MemoryStatus::Active
    &&& record.scope_type == MemoryScopeType::Group
    &&& record.memory_kind == MemoryKind::Group
    &&& text::opt_view(record.scope_id) == Some(group)
    &&& record.subject_id is None
    &&& record.visibility != MemoryVisibility::Private
}

/// Whether the row is an active note on this member of the group.
pub open spec fn is_member_note(row: MemoryRow, group: Seq<char>, member: Seq<char>) -> bool {
    let record = row.record;
    &&& record.status == MemoryStatus::Active
    &&& record.scope_type == MemoryScopeType::Group
    &&& record.memory_kind == MemoryKind::GroupProfile
    &&& text::opt_view(record.scope_id) == Some(group)
    &&& text::opt_view(record.subject_id) == Some(member)
    &&& record.visibility != MemoryVisibility::Private
}

/// Whether the row is an active note of the user that a conversation may draw on: where others
/// read along, not a private one.
pub open spec fn is_own_note(row: MemoryRow, user: Seq<char>, shared: bool) -> bool {
    let record = row.record;
    &&& record.status == MemoryStatus::Active
    &&& record.scope_type == MemoryScopeType::Personal
    &&& record.memory_kind == MemoryKind::Personal
    &&& text::opt_view(record.scope_id) == Some(user)
    &&& record.subject_id is None
    &&& record.visibility != MemoryVisibility::GroupMembers
    &&& shared ==> record.visibility != MemoryVisibility::Private
}

/// Whether the records are the last of the rows, the last one first, and as many as allowed.
pub open spec fn are_the_newest(records: Seq<MemoryRecord>, rows: Seq<MemoryRow>, limit: int) -> bool {
    &&& records.len() == (if rows.len() <= limit {
        rows.len() as int
    } else {
        limit
    })
    &&& forall|i: int| 0 <= i < records.len() ==> #[trigger] records[i] == rows[rows.len() - 1 - i].record
}

proof fn lemma_newest(
    rows: Seq<MemoryRow>,
    target: MemoryTarget,
    layer: RecallLayer,
    n: int,
    limit: int,
    f: spec_fn(MemoryRow) -> bool,
)
    requires
        0 <= n <= rows.len(),
        0 <= limit,
        forall|row: MemoryRow| #[trigger] f(row) == recall::in_layer(row, target, layer),
    ensures
        are_the_newest(recall::newest(rows, target, layer, n, limit), rows.take(n).filter(f), limit),
    decreases n,
{
    reveal(Seq::filter);
    let all = rows.take(n).filter(f);
    let r = recall::newest(rows, target, layer, n, limit);
    if n > 0 {
        assert(rows.take(n).drop_last() =~= rows.take(n - 1));
        assert(rows.take(n).last() == rows[n - 1]);
        let before = rows.take(n - 1).filter(f);
        if limit > 0 {
            if f(rows[n - 1]) {
                lemma_newest(rows, target, layer, n - 1, limit - 1, f);
                let rest = recall::newest(rows, target, layer, n - 1, limit - 1);
                assert(all == before.push(rows[n - 1]));
                assert forall|i: int| 0 <= i < r.len() implies #[trigger] r[i] == all[all.len() - 1 - i].record by {
                    if i > 0 {
                        assert(r[i] == rest[i - 1]);
                    }
                }
            } else {
                lemma_newest(rows, target, layer, n - 1, limit, f);
            }
        }
    }
}

/// A conversation in a group draws on the newest notes of the group, for its members, for
/// conversations and for all, and on nothing else.
pub proof fn group_notes_are_recalled(
    s: StoreView,
    r: Result<MemoryRecall, MemoryError>,
    personal: Option<Seq<char>>,
    group: Seq<char>,
    shared: bool,
    personal_limit: int,
    group_limit: int,
)
    requires
        0 <= group_limit,
        !s.faults.table_dropped,
        recall::is_recall(s, r, personal, Some(group), shared, personal_limit, group_limit),
    ensures
        r matches Ok(found) && are_the_newest(
            found.group@,
            s.rows.filter(|row: MemoryRow| is_group_note(row, group)),
            group_limit,
        ),
{
    let records = r->Ok_0.group@;
    let target = choose|target: MemoryTarget|
        {
            &&& target.scope_type == MemoryScopeType::Group
            &&& target.memory_kind == MemoryKind::Group
            &&& target.scope_id@ == group
            &&& text::opt_view(target.subject_id) == None::<Seq<char>>
            &&& records == #[trigger] recall::newest(
                s.rows,
                target,
                RecallLayer::Group,
                s.rows.len() as int,
                group_limit,
            )
        };
    let f = |row: MemoryRow| is_group_note(row, group);
    assert(s.rows.take(s.rows.len() as int) =~= s.rows);
    lemma_newest(s.rows, target, RecallLayer::Group, s.rows.len() as int, group_limit, f);
}

/// Where the group and the user are known, the newest notes on that user in that group are
/// drawn on; where one of them is not, none.
pub proof fn member_notes_are_recalled(
    s: StoreView,
    r: Result<MemoryRecall, MemoryError>,
    personal: Option<Seq<char>>,
    group: Option<Seq<char>>,
    shared: bool,
    personal_limit: int,
    group_limit: int,
)
    requires
        0 <= group_limit,
        !s.faults.table_dropped,
        recall::is_recall(s, r, personal, group, shared, personal_limit, group_limit),
    ensures
        r matches Ok(found) && if group is Some && personal is Some {
            are_the_newest(
                found.group_profile@,
                s.rows.filter(|row: MemoryRow| is_member_note(row, group->0, personal->0)),
                group_limit,
            )
        } else {
            found.group_profile@.len() == 0
        },
{
    if group is Some && personal is Some {
        let records = r->Ok_0.group_profile@;
        let target = choose|target: MemoryTarget|
            {
                &&& target.scope_type == MemoryScopeType::Group
                &&& target.memory_kind == MemoryKind::GroupProfile
                &&& target.scope_id@ == group->0
                &&& text::opt_view(target.subject_id) == personal
                &&& records == #[trigger] recall::newest(
                    s.rows,
                    target,
                    RecallLayer::Group,
                    s.rows.len() as int,
                    group_limit,
                )
            };
        let f = |row: MemoryRow| is_member_note(row, group->0, personal->0);
        assert(s.rows.take(s.rows.len() as int) =~= s.rows);
        lemma_newest(s.rows, target, RecallLayer::Group, s.rows.len() as int, group_limit, f);
    }
}

/// A conversation draws on the newest notes of its user: with that user alone also on the
/// private ones, with others only on those for conversations and for all.
pub proof fn own_notes_are_recalled(
    s: StoreView,
    r: Result<MemoryRecall, MemoryError>,
    user: Seq<char>,
    group: Option<Seq<char>>,
    shared: bool,
    personal_limit: int,
    group_limit: int,
)
    requires
        0 <= group_limit,
        0 <= personal_limit,
        !s.faults.table_dropped,
        recall::is_recall(s, r, Some(user), group, shared, personal_limit, group_limit),
    ensures
        r matches Ok(found) && are_the_newest(
            found.personal@,
            s.rows.filter(|row: MemoryRow| is_own_note(row, user, shared)),
            if shared {
                group_limit
            } else {
                personal_limit
            },
        ),
{
    let records = r->Ok_0.personal@;
    let layer = if shared {
        RecallLayer::SharedPersonal
    } else {
        RecallLayer::PrivatePersonal
    };
    let limit = if shared {
        group_limit
    } else {
        personal_limit
    };
    let target = choose|target: MemoryTarget|
        {
            &&& target.scope_type == MemoryScopeType::Personal
            &&& target.memory_kind == MemoryKind::Personal
            &&& target.scope_id@ == user
            &&& text::opt_view(target.subject_id) == None::<Seq<char>>
            &&& records == #[trigger] recall::newest(s.rows, target, layer, s.rows.len() as int, limit)
        };
    let f = |row: MemoryRow| is_own_note(row, user, shared);
    assert(s.rows.take(s.rows.len() as int) =~= s.rows);
    lemma_newest(s.rows, target, layer, s.rows.len() as int, limit, f);
}

/// A conversation whose group is not known draws on no group, one whose user is not known on no
/// user; and tables that can be read give an answer.
pub proof fn unknown_readers_are_shown_nothing(
    s: StoreView,
    r: Result<MemoryRecall, MemoryError>,
    personal: Option<Seq<char>>,
    group: Option<Seq<char>>,
    shared: bool,
    personal_limit: int,
    group_limit: int,
)
    requires
        recall::is_recall(s, r, personal, group, shared, personal_limit, group_limit),
    ensures
        !s.faults.table_dropped ==> r is Ok,
        r is Ok && personal is None ==> r->Ok_0.personal@.len() == 0,
        r is Ok && group is None ==> r->Ok_0.group@.len() == 0,
        s.faults.table_dropped && (personal is Some || group is Some) ==> r is Err,
{
}

/// A question starts from at most 36 notes of the user in private and 12 of each kind in a
/// group.
pub proof fn questions_start_from_enough_notes()
    ensures
        recall::PRIVATE_PERSONAL_CANDIDATE_LIMIT == 36,
        recall::GROUP_LAYER_CANDIDATE_LIMIT == 12,
{
}

/// In the order of the answer, the candidate at the first place comes first, and all places
/// that exist are there.
pub proof fn places_decide_the_order(candidates: Seq<MemoryRecord>, order: Seq<usize>)
    requires
        forall|i: int| 0 <= i < order.len() ==> (#[trigger] order[i]) < candidates.len(),
    ensures
        recall::picked(candidates, order).len() == order.len(),
        forall|i: int|
            0 <= i < order.len() ==> #[trigger] recall::picked(candidates, order)[i]
                == candidates[order[i] as int],
    decreases order.len(),
{
    if order.len() > 0 {
        assert(order.last() == order[order.len() - 1]);
        assert forall|i: int| 0 <= i < order.drop_last().len() implies (
        #[trigger] order.drop_last()[i]) < candidates.len() by {
            assert(order.drop_last()[i] == order[i]);
        }
        places_decide_the_order(candidates, order.drop_last());
    }
}

} // verus!
