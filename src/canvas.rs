use crate::color::{Alpha, Color};
use vstd::prelude::*;

verus! {

/// One drawing instruction. Coordinates are in pixels, stroke widths in
/// tenths of a pixel.
#[derive(Debug, Clone, Copy, PartialEq, Eq, Structural)]
pub enum DrawOp {
    /// Paints the whole canvas.
    Fill { color: Color },
    /// A straight stroke from `(x1, y1)` to `(x2, y2)`.
    Line { x1: i64, y1: i64, x2: i64, y2: i64, color: Color, width: u32 },
    /// The outline of a circle.
    Circle { cx: i64, cy: i64, radius: i64, color: Color, width: u32, alpha: Alpha },
    /// A quadratic Bézier curve with one control point.
    Quad {
        x1: i64,
        y1: i64,
        cx: i64,
        cy: i64,
        x2: i64,
        y2: i64,
        color: Color,
        width: u32,
        alpha: Alpha,
    },
    /// A cubic Bézier curve with two control points.
    Cubic {
        x1: i64,
        y1: i64,
        cx1: i64,
        cy1: i64,
        cx2: i64,
        cy2: i64,
        x2: i64,
        y2: i64,
        color: Color,
        width: u32,
        alpha: Alpha,
    },
    /// Character `ch` with its baseline origin at `(x, y)`.
    Glyph { ch: char, x: i64, y: i64, color: Color, alpha: Alpha },
}

/// A display list for a `width` × `height` raster; later instructions paint
/// over earlier ones.
pub struct Canvas {
    pub width: i32,
    pub height: i32,
    pub ops: Vec<DrawOp>,
}

impl Canvas {
    /// An empty display list.
    pub fn new(width: i32, height: i32) -> (c: Canvas)
        ensures
            c.width == width,
            c.height == height,
            c.ops@ == Seq::<DrawOp>::empty(),
    {
        Canvas { width, height, ops: Vec::new() }
    }

    /// Appends one instruction.
    pub fn push(&mut self, op: DrawOp)
        ensures
            final(self).width == old(self).width,
            final(self).height == old(self).height,
            final(self).ops@ == old(self).ops@.push(op),
    {
        self.ops.push(op);
    }

    /// Number of instructions.
    pub fn len(&self) -> (n: usize)
        ensures
            n == self.ops@.len(),
    {
        self.ops.len()
    }
}

} // verus!
