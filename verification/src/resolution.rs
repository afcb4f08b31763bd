//! When a node replaces the loading indicator by its real subtree: only on
//! the result of its own fetch, and only once.

use vstd::prelude::*;
use crate::content_set::ContentSetView;
use crate::context::{token, EventCtxView, Requests};
use crate::event::{Event, LifeCycle, PromiseResult, Slot};
use crate::root_widget::{launches_before, lemma_launches_monotone, RootView};

verus! {

impl ContentSetView {
    /// `after` has the cells of this row: as many, and each at the same
    /// place with the same image. A row without cells has them if `after`
    /// has none either.
    pub open spec fn cells_kept(self, after: ContentSetView) -> bool {
        match (self.children, after.children) {
            (Some(old_cells), Some(new_cells)) => {
                &&& old_cells.len() == new_cells.len()
                &&& forall|j: int|
                    0 <= j < old_cells.len() ==> {
                        &&& (#[trigger] new_cells[j]).row == old_cells[j].row
                        &&& new_cells[j].column == old_cells[j].column
                        &&& new_cells[j].url == old_cells[j].url
                    }
            },
            (None, None) => true,
            _ => false,
        }
    }
}

impl RootView {
    /// `after` has the rows of this tree: as many, and each with the same
    /// number and record. A tree without rows has them if `after` has none
    /// either.
    pub open spec fn rows_kept(self, after: RootView) -> bool {
        match (self.children, after.children) {
            (Some(old_rows), Some(new_rows)) => {
                &&& old_rows.len() == new_rows.len()
                &&& forall|i: int|
                    0 <= i < old_rows.len() ==> {
                        &&& (#[trigger] new_rows[i]).row == old_rows[i].row
                        &&& new_rows[i].data == old_rows[i].data
                    }
            },
            (None, None) => true,
            _ => false,
        }
    }
}

/// How far a slot has come: idle, then pending, then resolved.
pub open spec fn stage(slot: Slot) -> nat {
    match slot {
        Slot::Idle => 0,
        Slot::Pending(_) => 1,
        Slot::Resolved => 2,
    }
}

impl RootView {
    /// Every token that a node of the tree waits for has a number below
    /// `bound`.
    pub open spec fn tokens_below(self, bound: int) -> bool {
        &&& self.slot matches Slot::Pending(promise) ==> promise.id < bound
        &&& self.children matches Some(rows) ==> forall|i: int|
            0 <= i < rows.len() ==> ((#[trigger] rows[i]).slot matches Slot::Pending(promise)
                ==> promise.id < bound)
    }

    /// No two nodes of the tree wait for the same token.
    pub open spec fn tokens_distinct(self) -> bool {
        self.children matches Some(rows) ==> {
            &&& forall|i: int|
                0 <= i < rows.len() && (#[trigger] rows[i]).slot is Pending ==> rows[i].slot
                    != self.slot
            &&& forall|i: int, j: int|
                0 <= i < j < rows.len() && (#[trigger] rows[i]).slot is Pending ==> rows[i].slot
                    != (#[trigger] rows[j]).slot
        }
    }
}

/// A row replaces its cells on the result that carries the token of its
/// pending fetch and holds image sources, and on no other event. It then has
/// one new cell per image and its slot is resolved. Any other event leaves
/// the slot and the cells in place.
pub proof fn lemma_row_replaced_only_by_own_result(row: ContentSetView, event: Event)
    ensures
        row.delivery(event) is Some <==> (event matches Event::PromiseResult(result)
            && result.payload is ContentSet && row.slot == Slot::Pending(result.token)),
        row.delivery(event) matches Some(images) ==> row.on_event(event) == row.resolve(images)
            && row.on_event(event).slot == Slot::Resolved
            && row.on_event(event).children.unwrap().len() == images.len(),
        row.delivery(event) is None ==> row.on_event(event).slot == row.slot && row.cells_kept(
            row.on_event(event),
        ),
{
}

/// The root replaces its rows on the result that carries the token of its
/// pending fetch and holds row records, and on no other event. It then has
/// one new row per record and its slot is resolved. Any other event leaves
/// the slot and the rows in place.
pub proof fn lemma_root_replaced_only_by_own_result(root: RootView, event: Event)
    ensures
        root.delivery(event) is Some <==> (event matches Event::PromiseResult(result)
            && result.payload is Collection && root.slot == Slot::Pending(result.token)),
        root.delivery(event) matches Some(records) ==> root.on_event(event) == root.resolve(
            records,
        ) && root.on_event(event).slot == Slot::Resolved
            && root.on_event(event).children.unwrap().len() == records.len(),
        root.delivery(event) is None ==> root.on_event(event).slot == root.slot && root.rows_kept(
            root.on_event(event),
        ),
{
}

/// A resolved slot stays resolved, and a node whose slot is resolved never
/// replaces its subtree again, whatever event arrives.
pub proof fn lemma_resolved_is_final(root: RootView, row: ContentSetView, event: Event)
    ensures
        row.slot == Slot::Resolved ==> row.on_event(event).slot == Slot::Resolved
            && row.cells_kept(row.on_event(event)),
        root.slot == Slot::Resolved ==> root.on_event(event).slot == Slot::Resolved
            && root.rows_kept(root.on_event(event)),
{
}

/// A lifecycle notification never replaces a subtree, and it launches a
/// fetch only for a node that has launched none before: a pending or
/// resolved slot is left as it is.
pub proof fn lemma_launches_only_when_idle(
    root: RootView,
    row: ContentSetView,
    notice: LifeCycle,
    first: int,
)
    ensures
        row.cells_kept(row.lifecycle(notice, token(first))),
        row.slot != Slot::Idle ==> row.lifecycle(notice, token(first)) == row,
        root.rows_kept(root.lifecycle(notice, first)),
        root.slot != Slot::Idle ==> root.lifecycle(notice, first).slot == root.slot,
{
}

/// After a pass that told every node that it joined the tree, no node is
/// idle, so a second such pass launches nothing.
pub proof fn lemma_launches_once(root: RootView, first: int)
    ensures
        root.lifecycle(LifeCycle::WidgetAdded, first).launch_count(LifeCycle::WidgetAdded) == 0,
{
    let after = root.lifecycle(LifeCycle::WidgetAdded, first);
    if after.children is Some {
        let rows = after.children.unwrap();
        lemma_no_idle_row_launches(rows, rows.len() as int);
    }
}

/// Rows of which none is idle launch nothing.
proof fn lemma_no_idle_row_launches(rows: Seq<ContentSetView>, n: int)
    requires
        n <= rows.len(),
        forall|i: int| 0 <= i < rows.len() ==> (#[trigger] rows[i]).slot != Slot::Idle,
    ensures
        launches_before(rows, LifeCycle::WidgetAdded, n) == 0,
    decreases n,
{
    if n > 0 {
        lemma_no_idle_row_launches(rows, n - 1);
    }
}

/// Delivering the same result to a row twice is the same as delivering it
/// once: the second delivery changes nothing and asks for nothing.
pub proof fn lemma_row_result_applies_once(row: ContentSetView, result: PromiseResult)
    ensures
        ({
            let event = Event::PromiseResult(result);
            &&& row.on_event(event).on_event(event) == row.on_event(event)
            &&& row.on_event(event).requests(event) == Requests::none()
        }),
{
    let event = Event::PromiseResult(result);
    let once = row.on_event(event);
    let twice = once.on_event(event);
    assert(once.delivery(event) is None);
    if once.children is Some {
        assert(twice.children.unwrap() =~= once.children.unwrap());
    }
}

/// Delivering the same result to the tree twice is the same as delivering it
/// once: the second delivery changes nothing, replaces no subtree and asks
/// for nothing.
pub proof fn lemma_result_applies_once(root: RootView, ctx: EventCtxView, result: PromiseResult)
    ensures
        ({
            let event = Event::PromiseResult(result);
            &&& root.on_event(event).on_event(event) == root.on_event(event)
            &&& root.on_event(event).ctx_after(ctx, event) == ctx
        }),
{
    let event = Event::PromiseResult(result);
    let once = root.on_event(event);
    let twice = once.on_event(event);
    assert(once.delivery(event) is None);
    if once.children is Some {
        let rows = once.children.unwrap();
        assert forall|i: int| 0 <= i < rows.len() implies (#[trigger] rows[i]).on_event(event)
            == rows[i] && rows[i].requests(event) == Requests::none() by {
            if root.delivery(event) is None {
                lemma_row_result_applies_once(root.children.unwrap()[i], result);
            } else {
                assert(rows[i].on_event(event).children == rows[i].children);
            }
        }
        assert(twice.children.unwrap() =~= rows);
    }
    assert(once.requests(event) == Requests::none());
}

/// A slot only ever advances, from idle to pending to resolved, and a node
/// builds its subtree in the one step from pending to resolved. So no node
/// builds its subtree twice.
pub proof fn lemma_slot_only_advances(
    root: RootView,
    row: ContentSetView,
    event: Event,
    notice: LifeCycle,
    first: int,
)
    ensures
        stage(row.slot) <= stage(row.on_event(event).slot),
        stage(row.slot) <= stage(row.lifecycle(notice, token(first)).slot),
        stage(root.slot) <= stage(root.on_event(event).slot),
        stage(root.slot) <= stage(root.lifecycle(notice, first).slot),
        row.delivery(event) is Some <==> stage(row.slot) == 1 && stage(row.on_event(event).slot)
            == 2,
        root.delivery(event) is Some <==> stage(root.slot) == 1 && stage(
            root.on_event(event).slot,
        ) == 2,
{
}

/// An event hands out no token: it keeps every token of the tree below the
/// bound it was below, and keeps the tokens distinct.
pub proof fn lemma_event_keeps_tokens_apart(root: RootView, event: Event, bound: int)
    requires
        root.tokens_below(bound),
        root.tokens_distinct(),
    ensures
        root.on_event(event).tokens_below(bound),
        root.on_event(event).tokens_distinct(),
{
    let after = root.on_event(event);
    if root.delivery(event) is None && root.children is Some {
        let rows = root.children.unwrap();
        let new_rows = after.children.unwrap();
        assert forall|i: int|
            0 <= i < rows.len() && (#[trigger] new_rows[i]).slot is Pending implies rows[i].slot
            == new_rows[i].slot by {}
    }
}

/// A lifecycle pass whose tokens are numbered from a bound above every token
/// of the tree hands each launching node a token of its own: afterwards the
/// tokens of the tree are still distinct, and below the next unused number.
pub proof fn lemma_notice_keeps_tokens_apart(root: RootView, notice: LifeCycle, first: int)
    requires
        0 <= first,
        first + root.launch_count(notice) <= u64::MAX,
        root.tokens_below(first),
        root.tokens_distinct(),
    ensures
        root.lifecycle(notice, first).tokens_below(first + root.launch_count(notice)),
        root.lifecycle(notice, first).tokens_distinct(),
{
    let after = root.lifecycle(notice, first);
    let base = if root.launches(notice) {
        first + 1
    } else {
        first
    };
    if root.children is Some {
        let rows = root.children.unwrap();
        let new_rows = after.children.unwrap();
        let n = rows.len() as int;
        lemma_launches_monotone(rows, notice, 0, n);
        // A row that launches gets the number `base` plus the count of the
        // rows before it that launch; that number is below the next unused one.
        assert forall|i: int| 0 <= i < n && rows[i].launches(notice) implies {
            &&& (#[trigger] new_rows[i]).slot == Slot::Pending(
                token(base + launches_before(rows, notice, i)),
            )
            &&& 0 <= launches_before(rows, notice, i) < launches_before(rows, notice, n)
        } by {
            lemma_launches_monotone(rows, notice, i, i + 1);
            lemma_launches_monotone(rows, notice, i + 1, n);
        }
        assert forall|i: int| 0 <= i < n && !rows[i].launches(notice) implies (
        #[trigger] new_rows[i]).slot == rows[i].slot by {}
        // Of two rows that launch, the later one gets the larger number.
        assert forall|i: int, j: int|
            0 <= i < j < n && (#[trigger] new_rows[i]).slot is Pending implies new_rows[i].slot
            != (#[trigger] new_rows[j]).slot by {
            lemma_launches_monotone(rows, notice, i, i + 1);
            lemma_launches_monotone(rows, notice, i + 1, j);
        }
    }
}

/// In a tree whose tokens are distinct, a result reaches at most one node:
/// if one node builds its subtree on an event, no other node does.
pub proof fn lemma_result_reaches_one_node(root: RootView, event: Event)
    requires
        root.tokens_distinct(),
    ensures
        root.children matches Some(rows) ==> {
            &&& forall|i: int|
                0 <= i < rows.len() && root.delivery(event) is Some ==> (#[trigger] rows[i]).delivery(
                    event,
                ) is None
            &&& forall|i: int, j: int|
                0 <= i < j < rows.len() && (#[trigger] rows[i]).delivery(event) is Some
                    ==> (#[trigger] rows[j]).delivery(event) is None
        },
{
}

} // verus!
