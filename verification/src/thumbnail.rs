//! The leaf of the tree: one cell of the grid, with its selection flag and
//! the counter that animates the highlight.

use vstd::prelude::*;
use crate::context::{EventCtx, Requests};
use crate::event::{Command, Event};
use crate::geometry::{Color, PaintCtx, PaintOp, Rect, Size};

verus! {

/// Largest value of a thumbnail's animation counter.
pub const MAX_PROGRESS: u32 = 5;

/// The side of the square that a cell takes up.
pub const THUMBNAIL_MAX_SIZE: u64 = 200;

/// The side of the image of a cell whose counter is at zero: nine tenths of
/// the cell.
pub const THUMBNAIL_MIN_SIZE: u64 = 180;

/// By how much the side of the image grows with each step of the counter: a
/// fiftieth of the cell.
pub const THUMBNAIL_STEP: u64 = 4;

/// The width of the outline of the selected cell.
pub const BORDER_WIDTH: u64 = 4;

/// The image inside a cell.
#[derive(Clone, Debug, PartialEq, Eq)]
pub struct WebImage {
    /// Where the image comes from.
    pub url: String,
    /// Where the last layout put the image, relative to the cell.
    pub layout_rect: Rect,
}

/// One cell of the grid.
#[derive(Clone, Debug, PartialEq, Eq)]
pub struct Thumbnail {
    pub row: usize,
    pub column: usize,
    pub inner: WebImage,
    pub selected: bool,
    pub selected_progress: u32,
}

/// The mathematical value of a [`Thumbnail`].
pub struct ThumbnailView {
    pub row: nat,
    pub column: nat,
    pub url: Seq<char>,
    pub image_rect: Rect,
    pub selected: bool,
    pub progress: nat,
}

/// The side of the image of a cell whose counter is at `progress`.
pub open spec fn image_side(progress: nat) -> int {
    THUMBNAIL_MIN_SIZE + THUMBNAIL_STEP * progress
}

/// The distance of the image from the left and from the top of its cell when
/// the counter is at `progress`: the image is centred.
pub open spec fn image_offset(progress: nat) -> int {
    (THUMBNAIL_MAX_SIZE - image_side(progress)) / 2
}

/// The rectangle of the image of a cell whose counter is at `progress`.
pub open spec fn image_rect(progress: nat) -> Rect {
    Rect {
        x: image_offset(progress) as i64,
        y: image_offset(progress) as i64,
        width: image_side(progress) as u64,
        height: image_side(progress) as u64,
    }
}

impl ThumbnailView {
    /// A thumbnail as it is when created: not selected, counter at zero.
    pub open spec fn fresh(row: nat, column: nat, url: Seq<char>) -> ThumbnailView {
        ThumbnailView {
            row,
            column,
            url,
            image_rect: Rect { x: 0, y: 0, width: 0, height: 0 },
            selected: false,
            progress: 0,
        }
    }

    /// The counter is within its range.
    pub open spec fn wf(self) -> bool {
        self.progress <= MAX_PROGRESS
    }

    /// This cell sits at `(row, column)`.
    pub open spec fn is_at(self, row: int, column: int) -> bool {
        self.row == row && self.column == column
    }

    /// The counter has reached the bound that goes with the selection flag.
    pub open spec fn at_rest(self) -> bool {
        if self.selected {
            self.progress >= MAX_PROGRESS
        } else {
            self.progress == 0
        }
    }

    /// The cell after the selection moved to `(row, column)`.
    pub open spec fn select(self, row: int, column: int) -> ThumbnailView {
        ThumbnailView { selected: self.is_at(row, column), ..self }
    }

    /// The cell after one frame tick.
    pub open spec fn tick(self) -> ThumbnailView {
        if self.at_rest() {
            self
        } else if self.selected {
            ThumbnailView { progress: self.progress + 1, ..self }
        } else {
            ThumbnailView { progress: (self.progress - 1) as nat, ..self }
        }
    }

    /// The cell after `event`.
    pub open spec fn on_event(self, event: Event) -> ThumbnailView {
        match event {
            Event::Command(Command::ChangeSelectedItem(row, column)) => self.select(
                row as int,
                column as int,
            ),
            Event::AnimFrame(_) => self.tick(),
            _ => self,
        }
    }

    /// What the cell asks of its host in response to `event`.
    pub open spec fn requests(self, event: Event) -> Requests {
        match event {
            Event::Command(Command::ChangeSelectedItem(row, column)) => {
                let flips = self.selected != self.is_at(row as int, column as int);
                Requests {
                    anim_frame: flips,
                    layout: flips,
                    pan: flips && !self.selected,
                    skip_children: false,
                }
            },
            Event::AnimFrame(_) => Requests {
                anim_frame: !self.at_rest(),
                layout: !self.at_rest(),
                pan: false,
                skip_children: false,
            },
            _ => Requests::none(),
        }
    }
}

impl ThumbnailView {
    /// The cell after a layout pass: the image is a centred square whose side
    /// grows with the counter.
    pub open spec fn layout(self) -> ThumbnailView {
        ThumbnailView { image_rect: image_rect(self.progress), ..self }
    }

    /// What the cell paints: its image, and on top of it the outline of the
    /// image if the cell is selected.
    pub open spec fn paint(self) -> Seq<PaintOp> {
        let image = PaintOp::Image {
            row: self.row as usize,
            column: self.column as usize,
            rect: self.image_rect,
        };
        if self.selected {
            seq![
                image,
                PaintOp::Stroke { rect: self.image_rect, color: Color::White, width: BORDER_WIDTH },
            ]
        } else {
            seq![image]
        }
    }
}

impl View for Thumbnail {
    type V = ThumbnailView;

    open spec fn view(&self) -> ThumbnailView {
        ThumbnailView {
            row: self.row as nat,
            column: self.column as nat,
            url: self.inner.url@,
            image_rect: self.inner.layout_rect,
            selected: self.selected,
            progress: self.selected_progress as nat,
        }
    }
}

impl Thumbnail {
    /// A cell at `(row, column)` that shows the image at `thumbnail_url`.
    pub fn new(row: usize, column: usize, thumbnail_url: String) -> (thumbnail: Thumbnail)
        ensures
            thumbnail@ == ThumbnailView::fresh(row as nat, column as nat, thumbnail_url@),
    {
        let inner = WebImage {
            url: thumbnail_url,
            layout_rect: Rect { x: 0, y: 0, width: 0, height: 0 },
        };
        Thumbnail { row, column, inner, selected: false, selected_progress: 0 }
    }

    /// Handles one event.
    ///
    /// A selection command selects the cell if it names the cell's own
    /// coordinate and deselects it otherwise; a frame tick moves the counter
    /// one step towards the bound that goes with the selection flag. Whenever
    /// the cell changes it asks for another frame and a new layout, and when it
    /// becomes selected also to be scrolled into view.
    pub fn on_event(&mut self, ctx: &mut EventCtx, event: &Event)
        ensures
            final(self)@ == old(self)@.on_event(*event),
            final(ctx)@ == old(ctx)@.merge(old(self)@.requests(*event)),
    {
        match event {
            Event::Command(Command::ChangeSelectedItem(row, column)) => {
                if *row == self.row && *column == self.column {
                    if !self.selected {
                        self.selected = true;
                        ctx.request_anim_frame();
                        ctx.request_layout();
                        ctx.request_pan_to_this();
                    }
                } else if self.selected {
                    self.selected = false;
                    ctx.request_anim_frame();
                    ctx.request_layout();
                }
            },
            Event::AnimFrame(_) => {
                if self.selected {
                    if self.selected_progress < MAX_PROGRESS {
                        self.selected_progress += 1;
                        ctx.request_anim_frame();
                        ctx.request_layout();
                    }
                } else {
                    if self.selected_progress > 0 {
                        self.selected_progress -= 1;
                        ctx.request_anim_frame();
                        ctx.request_layout();
                    }
                }
            },
            _ => {},
        }
    }

    /// Lays out the cell and returns the size it takes up.
    ///
    /// The cell is always a square of the full size. The image in it is a
    /// centred square whose side is nine tenths of the full size when the
    /// counter is at zero and grows by a fiftieth of it with each step.
    pub fn layout(&mut self) -> (size: Size)
        ensures
            final(self)@ == old(self)@.layout(),
            size == (Size { width: THUMBNAIL_MAX_SIZE, height: THUMBNAIL_MAX_SIZE }),
    {
        let steps: u64 = self.selected_progress as u64;
        let side: u64 = THUMBNAIL_MIN_SIZE + THUMBNAIL_STEP * steps;
        let offset: i64 = if side <= THUMBNAIL_MAX_SIZE {
            ((THUMBNAIL_MAX_SIZE - side) / 2) as i64
        } else {
            -(((side - THUMBNAIL_MAX_SIZE) / 2) as i64)
        };
        self.inner.layout_rect = Rect { x: offset, y: offset, width: side, height: side };
        Size { width: THUMBNAIL_MAX_SIZE, height: THUMBNAIL_MAX_SIZE }
    }

    /// Paints the cell: its image where the last layout put it, and the
    /// outline of the image if the cell is selected.
    pub fn paint(&self, ctx: &mut PaintCtx)
        ensures
            final(ctx)@ == old(ctx)@ + self@.paint(),
    {
        ctx.image(self.row, self.column, self.inner.layout_rect);
        if self.selected {
            ctx.stroke(self.inner.layout_rect, Color::White, BORDER_WIDTH);
        }
    }
}

} // verus!
