//! The canvas: a renderer of the host's together with the record of what
//! it was asked to draw. The record can be written by the three drawing
//! methods of this module and by nothing else.

use vstd::prelude::*;
use crate::registers::Value;
use crate::turtle::{DrawCall, ShapeRotation, TurtleDrawing};

verus! {

/// A renderer together with the record of the calls made on it through
/// the canvas, oldest first. The record is kept for the proofs only and
/// costs nothing when the program runs.
pub struct Canvas<T: TurtleDrawing> {
    renderer: T,
    record: Ghost<Seq<DrawCall>>,
}

impl<T: TurtleDrawing> Canvas<T> {
    /// The calls made on the renderer through this canvas so far.
    pub closed spec fn calls(&self) -> Seq<DrawCall> {
        self.record@
    }

    /// The renderer behind the canvas.
    pub closed spec fn renderer(&self) -> T {
        self.renderer
    }

    /// A canvas on `renderer`, with no call made yet.
    pub fn new(renderer: T) -> (canvas: Self)
        ensures
            canvas.calls() == Seq::<DrawCall>::empty(),
            canvas.renderer() == renderer,
    {
        Canvas { renderer, record: Ghost(Seq::empty()) }
    }

    /// Hands the renderer back.
    pub fn into_renderer(self) -> (renderer: T)
        ensures
            renderer == self.renderer(),
    {
        self.renderer
    }

    /// Draws a line from `from` to `to`: makes this call on the renderer
    /// and notes it in the record.
    pub fn draw_line(
        &mut self,
        color: [Value; 4],
        rot: ShapeRotation,
        from: [Value; 2],
        to: [Value; 2],
        thickness: Value,
    )
        ensures
            final(self).calls() == old(self).calls().push(
                DrawCall::Line { color, rot, from, to, thickness },
            ),
            exists|r: &mut T|
                *r == old(self).renderer() && *final(r) == final(self).renderer()
                    && #[trigger] call_ensures(
                    T::draw_line,
                    (r, color, rot, from, to, thickness),
                    (),
                ),
    {
        self.renderer.draw_line(color, rot, from, to, thickness);
        proof {
            self.record@ = self.record@.push(DrawCall::Line { color, rot, from, to, thickness });
        }
    }

    /// Draws a filled rectangle of extent `size` centred at `pos`: makes
    /// this call on the renderer and notes it in the record.
    pub fn draw_rect_fill(&mut self, color: [Value; 4], rot: ShapeRotation, pos: [Value; 2], size: [Value; 2])
        ensures
            final(self).calls() == old(self).calls().push(
                DrawCall::RectFill { color, rot, pos, size },
            ),
            exists|r: &mut T|
                *r == old(self).renderer() && *final(r) == final(self).renderer()
                    && #[trigger] call_ensures(T::draw_rect_fill, (r, color, rot, pos, size), ()),
    {
        self.renderer.draw_rect_fill(color, rot, pos, size);
        proof {
            self.record@ = self.record@.push(DrawCall::RectFill { color, rot, pos, size });
        }
    }

    /// Draws the outline of a rectangle of extent `size` centred at
    /// `pos`: makes this call on the renderer and notes it in the record.
    pub fn draw_rect_outline(
        &mut self,
        color: [Value; 4],
        rot: ShapeRotation,
        pos: [Value; 2],
        size: [Value; 2],
        thickness: Value,
    )
        ensures
            final(self).calls() == old(self).calls().push(
                DrawCall::RectOutline { color, rot, pos, size, thickness },
            ),
            exists|r: &mut T|
                *r == old(self).renderer() && *final(r) == final(self).renderer()
                    && #[trigger] call_ensures(
                    T::draw_rect_outline,
                    (r, color, rot, pos, size, thickness),
                    (),
                ),
    {
        self.renderer.draw_rect_outline(color, rot, pos, size, thickness);
        proof {
            self.record@ = self.record@.push(
                DrawCall::RectOutline { color, rot, pos, size, thickness },
            );
        }
    }
}

} // verus!
