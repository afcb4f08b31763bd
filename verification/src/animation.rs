//! How the counter of a cell moves under frame ticks.

use vstd::prelude::*;
use crate::event::Event;
use crate::thumbnail::{
    image_offset, image_side, ThumbnailView, MAX_PROGRESS, THUMBNAIL_MAX_SIZE,
};

verus! {

/// The cell `cell` after `n` frame ticks.
pub open spec fn ticks(cell: ThumbnailView, n: nat) -> ThumbnailView
    decreases n,
{
    if n == 0 {
        cell
    } else {
        ticks(cell, (n - 1) as nat).tick()
    }
}

/// No event takes the counter out of its range.
pub proof fn lemma_counter_stays_in_range(cell: ThumbnailView, event: Event)
    requires
        cell.wf(),
    ensures
        cell.on_event(event).wf(),
{
}

/// A frame tick never moves the counter away from the bound that goes with
/// the selection flag: the counter of a selected cell does not fall, that of
/// a deselected cell does not rise. A tick changes nothing but the counter,
/// and that by one step at most.
pub proof fn lemma_tick_is_monotonic(cell: ThumbnailView, interval: u64)
    ensures
        cell.on_event(Event::AnimFrame(interval)) == cell.tick(),
        cell.tick() == (ThumbnailView { progress: cell.tick().progress, ..cell }),
        cell.selected ==> cell.progress <= cell.tick().progress <= cell.progress + 1,
        !cell.selected ==> cell.progress - 1 <= cell.tick().progress <= cell.progress,
{
}

/// A cell asks for another frame on a tick exactly when its counter has not
/// yet reached the bound that goes with its selection flag; and exactly then
/// does the tick move the counter.
pub proof fn lemma_asks_for_frames_until_at_rest(cell: ThumbnailView, interval: u64)
    requires
        cell.wf(),
    ensures
        cell.requests(Event::AnimFrame(interval)).anim_frame <==> !cell.at_rest(),
        cell.requests(Event::AnimFrame(interval)).layout <==> !cell.at_rest(),
        cell.at_rest() <==> cell.tick() == cell,
        cell.at_rest() <==> cell.progress == if cell.selected {
            MAX_PROGRESS as nat
        } else {
            0nat
        },
{
}

/// After `n` ticks the counter of a deselected cell has fallen by `n`, but
/// not below zero; that of a selected cell has risen by `n`, but not above
/// its largest value. So a cell whose counter is `k` steps away from its
/// bound is at rest after `k` ticks and not before.
pub proof fn lemma_ticks_count(cell: ThumbnailView, n: nat)
    requires
        cell.wf(),
    ensures
        ticks(cell, n) == (ThumbnailView { progress: ticks(cell, n).progress, ..cell }),
        !cell.selected ==> ticks(cell, n).progress == if n <= cell.progress {
            (cell.progress - n) as nat
        } else {
            0nat
        },
        cell.selected ==> ticks(cell, n).progress == if cell.progress + n <= MAX_PROGRESS {
            cell.progress + n
        } else {
            MAX_PROGRESS as nat
        },
    decreases n,
{
    if n > 0 {
        lemma_ticks_count(cell, (n - 1) as nat);
    }
}

/// The image grows with the counter: its side is nine tenths of the cell
/// when the counter is at zero, never shrinks as the counter rises, and
/// fills the cell when the counter is at its largest value. The image is
/// centred, and while the counter is in range it lies within the cell.
pub proof fn lemma_image_grows_with_counter(lower: nat, higher: nat)
    requires
        lower <= higher,
    ensures
        image_side(lower) <= image_side(higher),
        10 * image_side(0) == 9 * THUMBNAIL_MAX_SIZE,
        image_side(MAX_PROGRESS as nat) == THUMBNAIL_MAX_SIZE,
        image_offset(lower) + image_side(lower) + image_offset(lower) == THUMBNAIL_MAX_SIZE,
        lower <= MAX_PROGRESS ==> 0 <= image_offset(lower),
{
    assert(image_side(lower) == 180 + 4 * lower);
    assert(image_side(higher) == 180 + 4 * higher);
    assert(image_offset(lower) == 10 - 2 * lower);
}

} // verus!
