//! Sizes and rectangles in whole pixels, and what a node paints.

use vstd::prelude::*;

verus! {

/// A width and a height.
#[derive(Clone, Copy, Debug, PartialEq, Eq, Structural)]
pub struct Size {
    pub width: u64,
    pub height: u64,
}

/// A rectangle, given by its top left corner and its size.
#[derive(Clone, Copy, Debug, PartialEq, Eq, Structural)]
pub struct Rect {
    pub x: i64,
    pub y: i64,
    pub width: u64,
    pub height: u64,
}

/// The colours the screen paints with.
#[derive(Clone, Copy, Debug, PartialEq, Eq, Structural)]
pub enum Color {
    White,
}

/// One thing to paint.
#[derive(Clone, Copy, Debug, PartialEq, Eq, Structural)]
pub enum PaintOp {
    /// The image of the cell at `(row, column)`, within `rect`.
    Image { row: usize, column: usize, rect: Rect },
    /// The outline of `rect`, `width` pixels wide.
    Stroke { rect: Rect, color: Color, width: u64 },
}

/// What the nodes painted during one pass, oldest first.
#[derive(Debug, PartialEq, Eq)]
pub struct PaintCtx {
    pub ops: Vec<PaintOp>,
}

impl View for PaintCtx {
    type V = Seq<PaintOp>;

    open spec fn view(&self) -> Seq<PaintOp> {
        self.ops@
    }
}

impl PaintCtx {
    /// A context in which nothing was painted.
    pub fn new() -> (ctx: PaintCtx)
        ensures
            ctx@ == Seq::<PaintOp>::empty(),
    {
        PaintCtx { ops: Vec::new() }
    }

    /// Paints the image of the cell at `(row, column)` within `rect`.
    pub fn image(&mut self, row: usize, column: usize, rect: Rect)
        ensures
            final(self)@ == old(self)@.push(PaintOp::Image { row, column, rect }),
    {
        self.ops.push(PaintOp::Image { row, column, rect });
    }

    /// Paints the outline of `rect`.
    pub fn stroke(&mut self, rect: Rect, color: Color, width: u64)
        ensures
            final(self)@ == old(self)@.push(PaintOp::Stroke { rect, color, width }),
    {
        self.ops.push(PaintOp::Stroke { rect, color, width });
    }
}

} // verus!
