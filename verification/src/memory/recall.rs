//! Which memories a conversation may draw on: the layers are read separately, each with
//! the visibilities that its setting allows.
use vstd::prelude::*;
use vstd::string::*;

use crate::memory::store;
use crate::memory::store::{MemoryRow, MemoryStore, StoreView};
use crate::memory::types;
use crate::memory::types::{
    MemoryError, MemoryKind, MemoryRecord, MemoryScopeType, MemoryTarget, MemoryVisibility,
};
use crate::text;

verus! {

pub const PRIVATE_PERSONAL_CANDIDATE_LIMIT: usize = 36;

pub const GROUP_LAYER_CANDIDATE_LIMIT: usize = 12;

/// Memories for one conversation, layer by layer, newest first.
#[derive(Debug)]
pub struct MemoryRecall {
    pub group: Vec<MemoryRecord>,
    pub group_profile: Vec<MemoryRecord>,
    pub personal: Vec<MemoryRecord>,
}

/// Where a layer is read.
#[derive(Debug, Clone, Copy, PartialEq, Eq, Structural)]
pub enum RecallLayer {
    /// Notes of a user, in a conversation with that user alone.
    PrivatePersonal,
    /// Notes of a user, in a conversation that others can read.
    SharedPersonal,
    /// Group notes and member profiles.
    Group,
}

/// Whether a layer shows records of this visibility.
pub open spec fn shows(layer: RecallLayer, visibility: MemoryVisibility) -> bool {
    match layer {
        RecallLayer::PrivatePersonal => visibility == MemoryVisibility::Private || visibility
            == MemoryVisibility::ContextOnly || visibility == MemoryVisibility::Public,
        RecallLayer::SharedPersonal => visibility == MemoryVisibility::ContextOnly || visibility
            == MemoryVisibility::Public,
        RecallLayer::Group => visibility == MemoryVisibility::GroupMembers || visibility
            == MemoryVisibility::ContextOnly || visibility == MemoryVisibility::Public,
    }
}

fn is_shown(layer: RecallLayer, visibility: MemoryVisibility) -> (r: bool)
    ensures
        r == shows(layer, visibility),
{
    match layer {
        RecallLayer::PrivatePersonal => visibility == MemoryVisibility::Private || visibility
            == MemoryVisibility::ContextOnly || visibility == MemoryVisibility::Public,
        RecallLayer::SharedPersonal => visibility == MemoryVisibility::ContextOnly || visibility
            == MemoryVisibility::Public,
        RecallLayer::Group => visibility == MemoryVisibility::GroupMembers || visibility
            == MemoryVisibility::ContextOnly || visibility == MemoryVisibility::Public,
    }
}

/// Whether the row belongs to the layer.
pub open spec fn in_layer(row: MemoryRow, target: MemoryTarget, layer: RecallLayer) -> bool {
    store::row_in(row, target) && shows(layer, row.record.visibility)
}

/// The newest records of the layer among the first `n` rows, at most `limit` of them,
/// newest first.
pub open spec fn newest(rows: Seq<MemoryRow>, target: MemoryTarget, layer: RecallLayer, n: int, limit: int) -> Seq<
    MemoryRecord,
>
    decreases n,
{
    if n <= 0 || limit <= 0 {
        Seq::empty()
    } else if in_layer(rows[n - 1], target, layer) {
        seq![rows[n - 1].record] + newest(rows, target, layer, n - 1, limit - 1)
    } else {
        newest(rows, target, layer, n - 1, limit)
    }
}

fn list_recall_layer(rows: &Vec<MemoryRow>, target: &MemoryTarget, layer: RecallLayer, limit: usize) -> (r: Vec<MemoryRecord>)
    ensures
        r@ == newest(rows@, *target, layer, rows@.len() as int, limit as int),
{
    let mut out: Vec<MemoryRecord> = Vec::new();
    let mut i: usize = rows.len();
    assert(out@ + newest(rows@, *target, layer, i as int, limit as int) =~= newest(
        rows@,
        *target,
        layer,
        rows@.len() as int,
        limit as int,
    ));
    while i > 0 && out.len() < limit
        invariant
            i <= rows@.len(),
            out@.len() <= limit,
            out@ + newest(rows@, *target, layer, i as int, limit - out@.len()) == newest(
                rows@,
                *target,
                layer,
                rows@.len() as int,
                limit as int,
            ),
        decreases i,
    {
        let row = &rows[i - 1];
        if store::is_row_in(row, target) && is_shown(layer, row.record.visibility) {
            let ghost before = out@;
            out.push(row.record.clone());
            assert(out@ + newest(rows@, *target, layer, i - 1, limit - out@.len()) =~= before + (seq![
                rows@[i - 1].record,
            ] + newest(rows@, *target, layer, i - 1, limit - before.len() - 1)));
        }
        i -= 1;
    }
    assert(newest(rows@, *target, layer, i as int, limit - out@.len()) =~= Seq::empty());
    assert(out@ =~= out@ + Seq::<MemoryRecord>::empty());
    out
}

/// Whether the records are the layer of the target with this boundary.
pub open spec fn is_layer(
    s: StoreView,
    records: Seq<MemoryRecord>,
    scope_type: MemoryScopeType,
    kind: MemoryKind,
    scope_id: Seq<char>,
    subject_id: Option<Seq<char>>,
    layer: RecallLayer,
    limit: int,
) -> bool {
    exists|target: MemoryTarget|
        {
            &&& target.scope_type == scope_type
            &&& target.memory_kind == kind
            &&& target.scope_id@ == scope_id
            &&& text::opt_view(target.subject_id) == subject_id
            &&& records == #[trigger] newest(s.rows, target, layer, s.rows.len() as int, limit)
        }
}

/// The layers of a conversation: personal notes where the user is known, group notes
/// where the group is known, and the user's profile where both are.
pub open spec fn is_recall(
    s: StoreView,
    r: Result<MemoryRecall, MemoryError>,
    personal: Option<Seq<char>>,
    group: Option<Seq<char>>,
    shared: bool,
    personal_limit: int,
    group_limit: int,
) -> bool {
    if s.faults.table_dropped && (personal is Some || group is Some) {
        types::broken(r)
    } else {
        r matches Ok(recall) && {
            &&& match personal {
                Some(p) => is_layer(
                    s,
                    recall.personal@,
                    MemoryScopeType::Personal,
                    MemoryKind::Personal,
                    p,
                    None,
                    if shared {
                        RecallLayer::SharedPersonal
                    } else {
                        RecallLayer::PrivatePersonal
                    },
                    if shared {
                        group_limit
                    } else {
                        personal_limit
                    },
                ),
                None => recall.personal@.len() == 0,
            }
            &&& match group {
                Some(g) => is_layer(
                    s,
                    recall.group@,
                    MemoryScopeType::Group,
                    MemoryKind::Group,
                    g,
                    None,
                    RecallLayer::Group,
                    group_limit,
                ),
                None => recall.group@.len() == 0,
            }
            &&& match (group, personal) {
                (Some(g), Some(p)) => is_layer(
                    s,
                    recall.group_profile@,
                    MemoryScopeType::Group,
                    MemoryKind::GroupProfile,
                    g,
                    Some(p),
                    RecallLayer::Group,
                    group_limit,
                ),
                _ => recall.group_profile@.len() == 0,
            }
        }
    }
}

pub open spec fn cleaned_str(o: Option<&str>) -> Option<Seq<char>> {
    match o {
        Some(s) => text::cleaned(s@),
        None => None,
    }
}

fn clean_str(o: Option<&str>) -> (r: Option<String>)
    ensures
        text::opt_view(r) == cleaned_str(o),
{
    match o {
        Some(s) => text::clean_text(s),
        None => None,
    }
}

impl MemoryStore {
    /// The layers of a conversation, cut to the given numbers of records.
    pub fn recall_for_context_with_limits(
        &self,
        personal_scope_id: Option<&str>,
        group_scope_id: Option<&str>,
        shared_conversation: bool,
        private_personal_limit: usize,
        group_layer_limit: usize,
    ) -> (r: Result<MemoryRecall, MemoryError>)
        ensures
            is_recall(
                self@,
                r,
                cleaned_str(personal_scope_id),
                cleaned_str(group_scope_id),
                shared_conversation,
                private_personal_limit as int,
                group_layer_limit as int,
            ),
    {
        let personal_id = clean_str(personal_scope_id);
        let group_id = clean_str(group_scope_id);
        if self.faults.table_dropped && (personal_id.is_some() || group_id.is_some()) {
            return Err(MemoryError::io("sqlite failed: no such table: memories"));
        }
        let (layer, limit): (RecallLayer, usize) = if shared_conversation {
            (RecallLayer::SharedPersonal, group_layer_limit)
        } else {
            (RecallLayer::PrivatePersonal, private_personal_limit)
        };
        let personal = match &personal_id {
            Some(p) => {
                let target = MemoryTarget::personal(p.as_str());
                let found = list_recall_layer(&self.rows, &target, layer, limit);
                assert(found@ == newest(
                    self@.rows,
                    target,
                    layer,
                    self@.rows.len() as int,
                    limit as int,
                ));
                found
            },
            None => Vec::new(),
        };
        let group_id = match group_id {
            Some(g) => g,
            None => {
                return Ok(
                    MemoryRecall { personal, group: Vec::new(), group_profile: Vec::new() },
                );
            },
        };
        let group_target = MemoryTarget::group(group_id.as_str());
        let group = list_recall_layer(
            &self.rows,
            &group_target,
            RecallLayer::Group,
            group_layer_limit,
        );
        assert(group@ == newest(
            self@.rows,
            group_target,
            RecallLayer::Group,
            self@.rows.len() as int,
            group_layer_limit as int,
        ));
        let group_profile = match &personal_id {
            Some(p) => {
                let target = MemoryTarget::group_profile(group_id.as_str(), p.as_str());
                let found = list_recall_layer(
                    &self.rows,
                    &target,
                    RecallLayer::Group,
                    group_layer_limit,
                );
                assert(found@ == newest(
                    self@.rows,
                    target,
                    RecallLayer::Group,
                    self@.rows.len() as int,
                    group_layer_limit as int,
                ));
                found
            },
            None => Vec::new(),
        };
        Ok(MemoryRecall { group, group_profile, personal })
    }

    /// The layers of a conversation with the number of records that reordering by the
    /// question at hand starts from.
    pub fn recall_candidates_for_context(
        &self,
        personal_scope_id: Option<&str>,
        group_scope_id: Option<&str>,
        shared_conversation: bool,
    ) -> (r: Result<MemoryRecall, MemoryError>)
        ensures
            is_recall(
                self@,
                r,
                cleaned_str(personal_scope_id),
                cleaned_str(group_scope_id),
                shared_conversation,
                PRIVATE_PERSONAL_CANDIDATE_LIMIT as int,
                GROUP_LAYER_CANDIDATE_LIMIT as int,
            ),
    {
        self.recall_for_context_with_limits(
            personal_scope_id,
            group_scope_id,
            shared_conversation,
            PRIVATE_PERSONAL_CANDIDATE_LIMIT,
            GROUP_LAYER_CANDIDATE_LIMIT,
        )
    }
}

// Order.

/// Which candidates of each layer answer the question at hand, by their places, the best one
/// first.
#[derive(Debug)]
pub struct RecallOrder {
    pub group: Vec<usize>,
    pub group_profile: Vec<usize>,
    pub personal: Vec<usize>,
}

/// The candidates at the places, in the order of the places; a place without a candidate
/// counts for nothing.
pub open spec fn picked(candidates: Seq<MemoryRecord>, order: Seq<usize>) -> Seq<MemoryRecord>
    decreases order.len(),
{
    if order.len() == 0 {
        Seq::empty()
    } else {
        let before = picked(candidates, order.drop_last());
        if order.last() < candidates.len() {
            before.push(candidates[order.last() as int])
        } else {
            before
        }
    }
}

fn pick(candidates: &Vec<MemoryRecord>, order: &Vec<usize>) -> (r: Vec<MemoryRecord>)
    ensures
        r@ == picked(candidates@, order@),
{
    let mut out: Vec<MemoryRecord> = Vec::new();
    let mut i: usize = 0;
    while i < order.len()
        invariant
            0 <= i <= order@.len(),
            out@ == picked(candidates@, order@.take(i as int)),
        decreases order@.len() - i,
    {
        assert(order@.take(i + 1).drop_last() =~= order@.take(i as int));
        let place: usize = order[i];
        if place < candidates.len() {
            out.push(candidates[place].clone());
        }
        i += 1;
    }
    assert(order@.take(i as int) =~= order@);
    out
}

/// Whether the second recall is the first one in this order.
pub open spec fn is_reordered(a: MemoryRecall, b: MemoryRecall, order: RecallOrder) -> bool {
    &&& b.group@ == picked(a.group@, order.group@)
    &&& b.group_profile@ == picked(a.group_profile@, order.group_profile@)
    &&& b.personal@ == picked(a.personal@, order.personal@)
}

/// The recall in this order.
pub fn reorder_recall(recall: &MemoryRecall, order: &RecallOrder) -> (r: MemoryRecall)
    ensures
        is_reordered(*recall, r, *order),
{
    MemoryRecall {
        group: pick(&recall.group, &order.group),
        group_profile: pick(&recall.group_profile, &order.group_profile),
        personal: pick(&recall.personal, &order.personal),
    }
}

/// The layers of a conversation in this order, taken from the candidates.
pub open spec fn is_ordered_recall(
    s: StoreView,
    r: Result<MemoryRecall, MemoryError>,
    personal: Option<Seq<char>>,
    group: Option<Seq<char>>,
    shared: bool,
    order: RecallOrder,
) -> bool {
    exists|candidates: Result<MemoryRecall, MemoryError>| #[trigger]
        is_recall(
            s,
            candidates,
            personal,
            group,
            shared,
            PRIVATE_PERSONAL_CANDIDATE_LIMIT as int,
            GROUP_LAYER_CANDIDATE_LIMIT as int,
        ) && match (candidates, r) {
            (Ok(a), Ok(b)) => is_reordered(a, b, order),
            (Err(a), Err(b)) => a == b,
            _ => false,
        }
}

// Laws.

/// Reordering takes from the candidates and adds nothing.
pub proof fn reordering_adds_nothing(candidates: Seq<MemoryRecord>, order: Seq<usize>, i: int)
    requires
        0 <= i < picked(candidates, order).len(),
    ensures
        candidates.contains(picked(candidates, order)[i]),
    decreases order.len(),
{
    let before = picked(candidates, order.drop_last());
    if i < before.len() {
        reordering_adds_nothing(candidates, order.drop_last(), i);
    }
}

/// In whatever order, a conversation that others can read never sees a private personal note.
pub proof fn ordered_recalls_hide_private_notes(
    s: StoreView,
    r: Result<MemoryRecall, MemoryError>,
    personal: Option<Seq<char>>,
    group: Option<Seq<char>>,
    order: RecallOrder,
    i: int,
)
    requires
        is_ordered_recall(s, r, personal, group, true, order),
        r is Ok,
        0 <= i < r->Ok_0.personal@.len(),
    ensures
        r->Ok_0.personal@[i].visibility != MemoryVisibility::Private,
        r->Ok_0.personal@[i].visibility != MemoryVisibility::GroupMembers,
{
    let candidates = choose|candidates: Result<MemoryRecall, MemoryError>| #[trigger]
        is_recall(
            s,
            candidates,
            personal,
            group,
            true,
            PRIVATE_PERSONAL_CANDIDATE_LIMIT as int,
            GROUP_LAYER_CANDIDATE_LIMIT as int,
        ) && match (candidates, r) {
            (Ok(a), Ok(b)) => is_reordered(a, b, order),
            (Err(a), Err(b)) => a == b,
            _ => false,
        };
    let all = candidates->Ok_0.personal@;
    reordering_adds_nothing(all, order.personal@, i);
    let k = choose|k: int| 0 <= k < all.len() && all[k] == r->Ok_0.personal@[i];
    shared_conversations_hide_private_notes(
        s,
        candidates,
        personal,
        group,
        PRIVATE_PERSONAL_CANDIDATE_LIMIT as int,
        GROUP_LAYER_CANDIDATE_LIMIT as int,
        k,
    );
}

/// A layer holds only active records of its target with a visibility that it shows, and
/// no more of them than its limit.
pub proof fn layers_hold_only_what_they_show(
    rows: Seq<MemoryRow>,
    target: MemoryTarget,
    layer: RecallLayer,
    n: int,
    limit: int,
)
    requires
        0 <= n <= rows.len(),
        0 <= limit,
    ensures
        newest(rows, target, layer, n, limit).len() <= limit,
        forall|i: int|
            0 <= i < newest(rows, target, layer, n, limit).len() ==> {
                let record = #[trigger] newest(rows, target, layer, n, limit)[i];
                &&& record.status == types::MemoryStatus::Active
                &&& store::record_of(record, target)
                &&& shows(layer, record.visibility)
            },
    decreases n,
{
    if n > 0 && limit > 0 {
        if in_layer(rows[n - 1], target, layer) {
            layers_hold_only_what_they_show(rows, target, layer, n - 1, limit - 1);
            let rest = newest(rows, target, layer, n - 1, limit - 1);
            let all = newest(rows, target, layer, n, limit);
            assert forall|i: int| 0 <= i < all.len() implies {
                let record = #[trigger] all[i];
                &&& record.status == types::MemoryStatus::Active
                &&& store::record_of(record, target)
                &&& shows(layer, record.visibility)
            } by {
                if i > 0 {
                    assert(all[i] == rest[i - 1]);
                }
            }
        } else {
            layers_hold_only_what_they_show(rows, target, layer, n - 1, limit);
        }
    }
}

/// A conversation that others can read never sees a private personal note.
pub proof fn shared_conversations_hide_private_notes(
    s: StoreView,
    r: Result<MemoryRecall, MemoryError>,
    personal: Option<Seq<char>>,
    group: Option<Seq<char>>,
    personal_limit: int,
    group_limit: int,
    i: int,
)
    requires
        0 <= group_limit,
        is_recall(s, r, personal, group, true, personal_limit, group_limit),
        r is Ok,
        0 <= i < r->Ok_0.personal@.len(),
    ensures
        r->Ok_0.personal@[i].visibility != MemoryVisibility::Private,
        r->Ok_0.personal@[i].visibility != MemoryVisibility::GroupMembers,
{
    let records = r->Ok_0.personal@;
    let target = choose|target: MemoryTarget|
        {
            &&& target.scope_type == MemoryScopeType::Personal
            &&& target.memory_kind == MemoryKind::Personal
            &&& target.scope_id@ == personal->0
            &&& text::opt_view(target.subject_id) == None::<Seq<char>>
            &&& records == #[trigger] newest(
                s.rows,
                target,
                RecallLayer::SharedPersonal,
                s.rows.len() as int,
                group_limit,
            )
        };
    layers_hold_only_what_they_show(
        s.rows,
        target,
        RecallLayer::SharedPersonal,
        s.rows.len() as int,
        group_limit,
    );
}

} // verus!
