//! Which cell is selected: what holds of the tree after a selection command
//! went through it, and after any run of key presses.

use vstd::prelude::*;
use crate::content_set::ContentSetView;
use crate::context::EventCtxView;
use crate::event::{Command, Event, Key, LifeCycle};
use crate::root_widget::{navigate, RootView};
use crate::thumbnail::ThumbnailView;

verus! {

impl ContentSetView {
    /// The cells carry the number of the row and are numbered from zero, and
    /// their counters are in range.
    pub open spec fn wf(self) -> bool {
        match self.children {
            Some(cells) => forall|j: int|
                0 <= j < cells.len() ==> {
                    &&& (#[trigger] cells[j]).row == self.row
                    &&& cells[j].column == j
                    &&& cells[j].wf()
                },
            None => true,
        }
    }
}

impl RootView {
    /// The rows are numbered from zero, and each row is well formed.
    pub open spec fn wf(self) -> bool {
        match self.children {
            Some(rows) => forall|i: int|
                0 <= i < rows.len() ==> (#[trigger] rows[i]).row == i && rows[i].wf(),
            None => true,
        }
    }

    /// The tree has a cell at `(row, column)`.
    pub open spec fn has_cell(self, row: int, column: int) -> bool {
        &&& self.children matches Some(rows)
        &&& 0 <= row < rows.len()
        &&& rows[row].children matches Some(cells)
        &&& 0 <= column < cells.len()
    }

    /// The cell at `(row, column)`.
    pub open spec fn cell(self, row: int, column: int) -> ThumbnailView
        recommends
            self.has_cell(row, column),
    {
        self.children.unwrap()[row].children.unwrap()[column]
    }

    /// No two cells are selected.
    pub open spec fn at_most_one_selected(self) -> bool {
        forall|r1: int, c1: int, r2: int, c2: int|
            #![trigger self.cell(r1, c1), self.cell(r2, c2)]
            self.has_cell(r1, c1) && self.has_cell(r2, c2) && self.cell(r1, c1).selected
                && self.cell(r2, c2).selected ==> r1 == r2 && c1 == c2
    }

    /// Exactly the cell at `(row, column)` is selected, if the tree has one,
    /// and no cell if it has none.
    pub open spec fn selects_exactly(self, row: int, column: int) -> bool {
        forall|r: int, c: int|
            self.has_cell(r, c) ==> (#[trigger] self.cell(r, c).selected <==> r == row && c
                == column)
    }

    /// The tree after the key `key` went down and the selection command that
    /// the root submitted in response was delivered.
    pub open spec fn press(self, key: Key) -> RootView {
        let moved = self.on_event(Event::KeyDown(key));
        moved.on_event(
            Event::Command(Command::ChangeSelectedItem(moved.selected_item.0, moved.selected_item.1)),
        )
    }

    /// The tree after each of `keys` was pressed in turn.
    pub open spec fn press_all(self, keys: Seq<Key>) -> RootView
        decreases keys.len(),
    {
        if keys.len() == 0 {
            self
        } else {
            self.press_all(keys.drop_last()).press(keys.last())
        }
    }
}

/// One thing that happens to the tree: an event goes through it, or a
/// lifecycle notification does, with tokens numbered from `first`.
pub enum Step {
    Event(Event),
    Notice { notice: LifeCycle, first: int },
}

impl RootView {
    /// The tree after `step`.
    pub open spec fn step(self, step: Step) -> RootView {
        match step {
            Step::Event(event) => self.on_event(event),
            Step::Notice { notice, first } => self.lifecycle(notice, first),
        }
    }

    /// The tree after each of `steps` in turn.
    pub open spec fn run(self, steps: Seq<Step>) -> RootView
        decreases steps.len(),
    {
        if steps.len() == 0 {
            self
        } else {
            self.run(steps.drop_last()).step(steps.last())
        }
    }
}

/// The coordinate reached from `at` by each of `keys` in turn.
pub open spec fn navigate_all(at: (usize, usize), keys: Seq<Key>) -> (usize, usize)
    decreases keys.len(),
{
    if keys.len() == 0 {
        at
    } else {
        navigate(navigate_all(at, keys.drop_last()), keys.last())
    }
}

/// A new root is well formed and has no cell.
pub proof fn lemma_fresh_is_well_formed()
    ensures
        RootView::fresh().wf(),
        RootView::fresh().at_most_one_selected(),
        forall|r: int, c: int| !RootView::fresh().has_cell(r, c),
{
}

/// No event takes a well-formed row out of that state.
pub proof fn lemma_row_stays_well_formed(row: ContentSetView, event: Event)
    requires
        row.wf(),
    ensures
        row.on_event(event).wf(),
        row.on_event(event).row == row.row,
{
}

/// No event and no lifecycle notification takes a well-formed tree out of
/// that state.
pub proof fn lemma_stays_well_formed(root: RootView, event: Event, notice: LifeCycle, first: int)
    requires
        root.wf(),
    ensures
        root.on_event(event).wf(),
        root.lifecycle(notice, first).wf(),
{
    let after = root.on_event(event);
    if after.children is Some {
        let rows = after.children.unwrap();
        assert forall|i: int| 0 <= i < rows.len() implies (#[trigger] rows[i]).row == i
            && rows[i].wf() by {
            if root.delivery(event) is None {
                lemma_row_stays_well_formed(root.children.unwrap()[i], event);
            }
        }
    }
}

/// From the origin, neither the key that moves up nor the key that moves
/// left moves the coordinate; on any axis a coordinate at zero stays at zero
/// under the key that would lower it.
pub proof fn lemma_navigate_saturates(at: (usize, usize))
    ensures
        navigate((0, 0), Key::ArrowUp) == (0usize, 0usize),
        navigate((0, 0), Key::ArrowLeft) == (0usize, 0usize),
        at.0 == 0 ==> navigate(at, Key::ArrowUp) == at,
        at.1 == 0 ==> navigate(at, Key::ArrowLeft) == at,
        at.0 == usize::MAX ==> navigate(at, Key::ArrowDown) == at,
        at.1 == usize::MAX ==> navigate(at, Key::ArrowRight) == at,
{
}

/// A key moves the coordinate by one step along one axis at most, and the
/// root submits the selection command for the coordinate it moved to.
pub proof fn lemma_key_moves_one_step(root: RootView, ctx: EventCtxView, key: Key)
    ensures
        ({
            let from = root.selected_item;
            let to = root.on_event(Event::KeyDown(key)).selected_item;
            &&& to == navigate(from, key)
            &&& (to.0 == from.0 && -1 <= to.1 - from.1 <= 1) || (to.1 == from.1 && -1 <= to.0
                - from.0 <= 1)
            &&& root.ctx_after(ctx, Event::KeyDown(key)).commands == ctx.commands.push(
                Command::ChangeSelectedItem(to.0, to.1),
            )
        }),
{
}

/// After a selection command went through a well-formed tree, a cell is
/// selected exactly if it sits at the coordinate that the command names.
/// So at most one cell is selected, and one is selected exactly if the tree
/// has a cell at that coordinate.
pub proof fn lemma_broadcast_selects_exactly(root: RootView, row: usize, column: usize)
    requires
        root.wf(),
    ensures
        ({
            let after = root.on_event(Event::Command(Command::ChangeSelectedItem(row, column)));
            &&& after.selects_exactly(row as int, column as int)
            &&& after.at_most_one_selected()
            &&& after.has_cell(row as int, column as int) <==> exists|r: int, c: int|
                after.has_cell(r, c) && #[trigger] after.cell(r, c).selected
            &&& forall|r: int, c: int| after.has_cell(r, c) <==> root.has_cell(r, c)
        }),
{
    let event = Event::Command(Command::ChangeSelectedItem(row, column));
    let after = root.on_event(event);
    assert forall|r: int, c: int| after.has_cell(r, c) <==> root.has_cell(r, c) by {}
    assert forall|r: int, c: int| after.has_cell(r, c) implies (#[trigger] after.cell(
        r,
        c,
    ).selected <==> r == row && c == column) by {
        let before = root.children.unwrap()[r];
        assert(before.wf());
        assert(before.children.unwrap()[c].row == r);
        assert(after.cell(r, c) == root.cell(r, c).select(row as int, column as int));
    }
    if after.has_cell(row as int, column as int) {
        assert(after.cell(row as int, column as int).selected);
    }
}

/// No event makes a second cell selected: if at most one cell of a
/// well-formed tree is selected before an event, so it is after it.
pub proof fn lemma_single_selection_kept(root: RootView, event: Event)
    requires
        root.wf(),
        root.at_most_one_selected(),
    ensures
        root.on_event(event).at_most_one_selected(),
{
    let after = root.on_event(event);
    match event {
        Event::Command(Command::ChangeSelectedItem(row, column)) => {
            lemma_broadcast_selects_exactly(root, row, column);
        },
        _ => {
            assert forall|r: int, c: int| after.has_cell(r, c) && #[trigger] after.cell(
                r,
                c,
            ).selected implies root.has_cell(r, c) && root.cell(r, c).selected by {
                if root.delivery(event) is None {
                    let before = root.children.unwrap()[r];
                    if before.delivery(event) is None {
                        assert(after.cell(r, c) == root.cell(r, c).on_event(event));
                    }
                }
            }
            assert forall|r1: int, c1: int, r2: int, c2: int|
                #![trigger after.cell(r1, c1), after.cell(r2, c2)]
                after.has_cell(r1, c1) && after.has_cell(r2, c2) && after.cell(r1, c1).selected
                    && after.cell(r2, c2).selected implies r1 == r2 && c1 == c2 by {
                assert(root.cell(r1, c1).selected && root.cell(r2, c2).selected);
            }
        },
    }
}

/// After any run of key presses on a well-formed tree, each followed by the
/// delivery of the selection command it caused, the tree is well formed, its
/// coordinate is the one the keys lead to, and a cell is selected exactly if
/// it sits at that coordinate: at most one cell is selected, and one is
/// selected exactly if the tree has a cell there.
pub proof fn lemma_selection_follows_keys(root: RootView, keys: Seq<Key>)
    requires
        root.wf(),
        keys.len() > 0,
    ensures
        ({
            let after = root.press_all(keys);
            let at = after.selected_item;
            &&& after.wf()
            &&& at == navigate_all(root.selected_item, keys)
            &&& after.selects_exactly(at.0 as int, at.1 as int)
            &&& after.at_most_one_selected()
            &&& after.has_cell(at.0 as int, at.1 as int) <==> exists|r: int, c: int|
                after.has_cell(r, c) && #[trigger] after.cell(r, c).selected
        }),
    decreases keys.len(),
{
    let earlier = root.press_all(keys.drop_last());
    if keys.len() > 1 {
        lemma_selection_follows_keys(root, keys.drop_last());
    } else {
        assert(keys.drop_last().len() == 0);
        assert(earlier == root);
        assert(navigate_all(root.selected_item, keys.drop_last()) == root.selected_item);
    }
    let moved = earlier.on_event(Event::KeyDown(keys.last()));
    lemma_stays_well_formed(earlier, Event::KeyDown(keys.last()), LifeCycle::Other, 0);
    let at = moved.selected_item;
    let command = Event::Command(Command::ChangeSelectedItem(at.0, at.1));
    lemma_stays_well_formed(moved, command, LifeCycle::Other, 0);
    lemma_broadcast_selects_exactly(moved, at.0, at.1);
}

/// A lifecycle notification selects and deselects nothing.
pub proof fn lemma_notice_keeps_selection(root: RootView, notice: LifeCycle, first: int)
    requires
        root.at_most_one_selected(),
    ensures
        root.lifecycle(notice, first).at_most_one_selected(),
        forall|r: int, c: int|
            root.has_cell(r, c) <==> #[trigger] root.lifecycle(notice, first).has_cell(r, c),
        forall|r: int, c: int|
            root.has_cell(r, c) ==> #[trigger] root.lifecycle(notice, first).cell(r, c)
                == root.cell(r, c),
{
    let after = root.lifecycle(notice, first);
    assert forall|r1: int, c1: int, r2: int, c2: int|
        #![trigger after.cell(r1, c1), after.cell(r2, c2)]
        after.has_cell(r1, c1) && after.has_cell(r2, c2) && after.cell(r1, c1).selected
            && after.cell(r2, c2).selected implies r1 == r2 && c1 == c2 by {
        assert(root.has_cell(r1, c1) && root.has_cell(r2, c2));
        assert(root.cell(r1, c1).selected && root.cell(r2, c2).selected);
    }
}

/// Whatever events and notifications go through a new tree, in whatever
/// order, the tree stays well formed and never has two selected cells.
pub proof fn lemma_single_selection_always(steps: Seq<Step>)
    ensures
        RootView::fresh().run(steps).wf(),
        RootView::fresh().run(steps).at_most_one_selected(),
    decreases steps.len(),
{
    if steps.len() > 0 {
        lemma_single_selection_always(steps.drop_last());
        let earlier = RootView::fresh().run(steps.drop_last());
        match steps.last() {
            Step::Event(event) => {
                lemma_stays_well_formed(earlier, event, LifeCycle::Other, 0);
                lemma_single_selection_kept(earlier, event);
            },
            Step::Notice { notice, first } => {
                lemma_stays_well_formed(earlier, Event::Other, notice, first);
                lemma_notice_keeps_selection(earlier, notice, first);
            },
        }
    }
}

} // verus!
