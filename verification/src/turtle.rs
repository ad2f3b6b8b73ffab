//! The turtle: a tree of drawing commands, the cursor that a traversal
//! threads through it, and the interpreter that turns the tree into
//! primitive draw calls.

use vstd::prelude::*;
use crate::canvas::Canvas;
use crate::registers::{RegisterFile, Value, ONE, ZERO};
use crate::signals::{
    atan2_gives, minus_gives, normalize_gives, plus_gives, scale_gives, times_gives, Arith,
    ColorIn, OpIn,
};

verus! {

/// The bit pattern of a full turn, 2π.
pub const FULL_TURN: Value = 0x40c9_0fdb;

/// A tree of drawing commands.
#[derive(Debug, PartialEq)]
pub enum Turtle {
    /// The commands of the list, one after the other, on one cursor.
    Commands(Vec<Turtle>),
    /// Turns the cursor to face along `(x, y)`.
    LookDir(OpIn, OpIn),
    /// The command on a copy of the cursor, which is dropped afterwards.
    WithState(Box<Turtle>),
    /// A filled rectangle of the given width and height at the cursor.
    Rect(OpIn, OpIn, ColorIn),
    /// An outlined rectangle of the given width, height and line thickness
    /// at the cursor.
    RectLine(OpIn, OpIn, OpIn, ColorIn),
    /// A line of the given length and thickness from the cursor along its
    /// direction; the cursor moves to the line's end.
    Line(OpIn, OpIn, ColorIn),
}

impl Turtle {
    /// Whether two trees have the same shape and the same commands, child
    /// by child.
    pub open spec fn alike(&self, other: &Turtle) -> bool
        decreases self,
    {
        match self {
            Turtle::Commands(a) => other matches Turtle::Commands(b) && a@.len() == b@.len()
                && forall|i: int| 0 <= i < a@.len() ==> (#[trigger] a@[i]).alike(&b@[i]),
            Turtle::WithState(a) => other matches Turtle::WithState(b) && a.alike(b),
            _ => *self == *other,
        }
    }
}

impl Clone for Turtle {
    /// A copy of the whole tree.
    fn clone(&self) -> (copy: Self)
        ensures
            self.alike(&copy),
        decreases self,
    {
        match self {
            Turtle::Commands(v) => {
                let mut list: Vec<Turtle> = Vec::new();
                let mut i: usize = 0;

                while i < v.len()
                    invariant
                        i <= v@.len(),
                        decreases_to!(self => v),
                        list@.len() == i,
                        forall|j: int| 0 <= j < i ==> (#[trigger] v@[j]).alike(&list@[j]),
                    decreases v@.len() - i,
                {
                    assert(decreases_to!(v => v[i as int]));
                    let child = v[i].clone();
                    list.push(child);
                    i += 1;
                }
                Turtle::Commands(list)
            },
            Turtle::LookDir(x, y) => Turtle::LookDir(*x, *y),
            Turtle::WithState(inner) => Turtle::WithState(Box::new((&**inner).clone())),
            Turtle::Rect(w, h, c) => Turtle::Rect(*w, *h, *c),
            Turtle::RectLine(w, h, t, c) => Turtle::RectLine(*w, *h, *t, *c),
            Turtle::Line(n, t, c) => Turtle::Line(*n, *t, *c),
        }
    }
}

/// The pivot a shape is rotated about, with the angle.
#[derive(Debug, PartialEq, Clone, Copy)]
pub enum ShapeRotation {
    LeftBottom(Value),
    Center(Value),
}

/// The cursor: the scale of the two axes, the position, and the direction
/// the turtle faces.
#[derive(Debug, PartialEq, Clone, Copy)]
pub struct TurtleState {
    pub w: Value,
    pub h: Value,
    pub pos: [Value; 2],
    pub dir: [Value; 2],
}

/// `angle` is `2π − (atan2(1, 0) − atan2(dir.y, dir.x))`, each step as
/// the host computed it.
pub open spec fn angle_gives<A: Arith>(m: &A, dir: [Value; 2], angle: Value) -> bool {
    exists|up: Value, facing: Value, turn: Value|
        #![trigger atan2_gives(m, ONE, ZERO, up), atan2_gives(m, dir[1], dir[0], facing), minus_gives(m, up, facing, turn)]
        atan2_gives(m, ONE, ZERO, up) && atan2_gives(m, dir[1], dir[0], facing) && minus_gives(
            m,
            up,
            facing,
            turn,
        ) && minus_gives(m, FULL_TURN, turn, angle)
}

/// `end` is the point a line of length `n` reaches from `s.pos` along
/// `s.dir`: on each axis the position plus `n` times the direction times
/// the axis' scale, each step as the host computed it.
pub open spec fn line_end_gives<A: Arith>(m: &A, s: TurtleState, n: Value, end: [Value; 2]) -> bool {
    exists|step: [Value; 2], dx: Value, dy: Value|
        #![trigger scale_gives(m, s.dir, n, step), times_gives(m, step[0], s.w, dx), times_gives(m, step[1], s.h, dy)]
        scale_gives(m, s.dir, n, step) && times_gives(m, step[0], s.w, dx) && times_gives(
            m,
            step[1],
            s.h,
            dy,
        ) && plus_gives(m, s.pos[0], dx, end[0]) && plus_gives(m, s.pos[1], dy, end[1])
}

/// `size` is the extent `(w, h)` scaled on each axis by the cursor's scale.
pub open spec fn size_gives<A: Arith>(m: &A, s: TurtleState, w: Value, h: Value, size: [Value; 2]) -> bool {
    times_gives(m, w, s.w, size[0]) && times_gives(m, h, s.h, size[1])
}

impl TurtleState {
    /// The cursor at the start of a frame: at the origin, facing up, with
    /// the given scale.
    pub fn new(w: Value, h: Value) -> (ts: Self)
        ensures
            ts == (TurtleState { w, h, pos: [ZERO, ZERO], dir: [ZERO, ONE] }),
    {
        TurtleState { w, h, pos: [ZERO, ZERO], dir: [ZERO, ONE] }
    }

    /// The angle by which a shape is turned so that its upward axis
    /// follows the direction the turtle faces.
    pub fn get_direction_angle<A: Arith>(&self, m: &A) -> (angle: Value)
        ensures
            angle_gives(m, self.dir, angle),
    {
        let up = m.atan2(ONE, ZERO);
        let facing = m.atan2(self.dir[1], self.dir[0]);
        let turn = m.minus(up, facing);
        let angle = m.minus(FULL_TURN, turn);
        assert(atan2_gives(m, ONE, ZERO, up) && atan2_gives(m, self.dir[1], self.dir[0], facing)
            && minus_gives(m, up, facing, turn));
        angle
    }
}

/// One call on the renderer, with its arguments.
#[derive(Debug, PartialEq, Clone, Copy)]
pub enum DrawCall {
    Line { color: [Value; 4], rot: ShapeRotation, from: [Value; 2], to: [Value; 2], thickness: Value },
    RectFill { color: [Value; 4], rot: ShapeRotation, pos: [Value; 2], size: [Value; 2] },
    RectOutline {
        color: [Value; 4],
        rot: ShapeRotation,
        pos: [Value; 2],
        size: [Value; 2],
        thickness: Value,
    },
}

/// The renderer that consumes the resolved primitives. It belongs to the
/// host, and nothing is asked of what it does with them.
pub trait TurtleDrawing {
    /// Draws a line from `from` to `to`.
    fn draw_line(
        &mut self,
        color: [Value; 4],
        rot: ShapeRotation,
        from: [Value; 2],
        to: [Value; 2],
        thickness: Value,
    );

    /// Draws a filled rectangle of extent `size` centred at `pos`.
    fn draw_rect_fill(&mut self, color: [Value; 4], rot: ShapeRotation, pos: [Value; 2], size: [Value; 2]);

    /// Draws the outline of a rectangle of extent `size` centred at `pos`.
    fn draw_rect_outline(
        &mut self,
        color: [Value; 4],
        rot: ShapeRotation,
        pos: [Value; 2],
        size: [Value; 2],
        thickness: Value,
    );
}

/// A renderer that draws nothing and keeps the calls, oldest first.
pub struct DrawList {
    pub list: Vec<DrawCall>,
}

impl DrawList {
    /// A list with no call in it.
    pub fn new() -> (d: Self)
        ensures
            d.list@ == Seq::<DrawCall>::empty(),
    {
        DrawList { list: Vec::new() }
    }
}

impl TurtleDrawing for DrawList {
    fn draw_line(
        &mut self,
        color: [Value; 4],
        rot: ShapeRotation,
        from: [Value; 2],
        to: [Value; 2],
        thickness: Value,
    )
        ensures
            final(self).list@ == old(self).list@.push(
                DrawCall::Line { color, rot, from, to, thickness },
            ),
    {
        self.list.push(DrawCall::Line { color, rot, from, to, thickness });
    }

    fn draw_rect_fill(&mut self, color: [Value; 4], rot: ShapeRotation, pos: [Value; 2], size: [Value; 2])
        ensures
            final(self).list@ == old(self).list@.push(DrawCall::RectFill { color, rot, pos, size }),
    {
        self.list.push(DrawCall::RectFill { color, rot, pos, size });
    }

    fn draw_rect_outline(
        &mut self,
        color: [Value; 4],
        rot: ShapeRotation,
        pos: [Value; 2],
        size: [Value; 2],
        thickness: Value,
    )
        ensures
            final(self).list@ == old(self).list@.push(
                DrawCall::RectOutline { color, rot, pos, size, thickness },
            ),
    {
        self.list.push(DrawCall::RectOutline { color, rot, pos, size, thickness });
    }
}

/// What holds between an earlier and a later point of one traversal: the
/// scale is the same, and the later record of calls begins with the
/// earlier.
pub open spec fn later(s0: TurtleState, c0: Seq<DrawCall>, s1: TurtleState, c1: Seq<DrawCall>) -> bool {
    s1.w == s0.w && s1.h == s0.h && c0.is_prefix_of(c1)
}

/// `later` holds of a point and itself, and carries over a point between.
pub proof fn lemma_later_chain(
    s0: TurtleState,
    c0: Seq<DrawCall>,
    s1: TurtleState,
    c1: Seq<DrawCall>,
    s2: TurtleState,
    c2: Seq<DrawCall>,
)
    ensures
        later(s0, c0, s0, c0),
        later(s0, c0, s1, c1) && later(s1, c1, s2, c2) ==> later(s0, c0, s2, c2),
{
    assert(c0.subrange(0, c0.len() as int) =~= c0);
    if later(s0, c0, s1, c1) && later(s1, c1, s2, c2) {
        assert(c0 =~= c2.subrange(0, c0.len() as int)) by {
            assert forall|i: int| 0 <= i < c0.len() implies c0[i] == c2[i] by {
                assert(c0[i] == c1.subrange(0, c0.len() as int)[i]);
                assert(c1[i] == c2.subrange(0, c1.len() as int)[i]);
            }
        }
    }
}

/// A record begins with itself less its newest call.
pub proof fn lemma_later_push(s0: TurtleState, c0: Seq<DrawCall>, call: DrawCall)
    ensures
        later(s0, c0, s0, c0.push(call)),
{
    assert(c0.push(call).subrange(0, c0.len() as int) =~= c0);
}

impl Turtle {
    /// Executing this command takes the cursor from `s0` to `s1` and the
    /// renderer's record from `c0` to `c1`, with the inputs resolved
    /// against `regs`.
    pub open spec fn runs<A: Arith>(
        &self,
        m: &A,
        regs: Seq<Value>,
        s0: TurtleState,
        s1: TurtleState,
        c0: Seq<DrawCall>,
        c1: Seq<DrawCall>,
    ) -> bool
        decreases self,
    {
        match self {
            Turtle::Commands(v) => Self::runs_first(v@, v@.len() as int, m, regs, s0, s1, c0, c1),
            Turtle::WithState(inner) => s1 == s0 && exists|scratch: TurtleState|
                #![trigger later(s0, c0, scratch, c1)]
                later(s0, c0, scratch, c1) && inner.runs(m, regs, s0, scratch, c0, c1),
            Turtle::LookDir(x, y) => c1 == c0 && s1 == (TurtleState { dir: s1.dir, ..s0 })
                && normalize_gives(m, [x.value(regs), y.value(regs)], s1.dir),
            Turtle::Line(n, thick, color) => s1 == (TurtleState { pos: s1.pos, ..s0 })
                && line_end_gives(m, s0, n.value(regs), s1.pos) && c1 == c0.push(
                DrawCall::Line {
                    color: color.value(regs),
                    rot: ShapeRotation::LeftBottom(ZERO),
                    from: s0.pos,
                    to: s1.pos,
                    thickness: thick.value(regs),
                },
            ),
            Turtle::RectLine(w, h, thick, color) => s1 == s0 && exists|size: [Value; 2], angle: Value|
                #![trigger size_gives(m, s0, w.value(regs), h.value(regs), size), angle_gives(m, s0.dir, angle)]
                size_gives(m, s0, w.value(regs), h.value(regs), size) && angle_gives(
                    m,
                    s0.dir,
                    angle,
                ) && c1 == c0.push(
                    DrawCall::RectOutline {
                        color: color.value(regs),
                        rot: ShapeRotation::Center(angle),
                        pos: s0.pos,
                        size,
                        thickness: thick.value(regs),
                    },
                ),
            Turtle::Rect(w, h, color) => s1 == s0 && exists|size: [Value; 2], angle: Value|
                #![trigger size_gives(m, s0, w.value(regs), h.value(regs), size), angle_gives(m, s0.dir, angle)]
                size_gives(m, s0, w.value(regs), h.value(regs), size) && angle_gives(
                    m,
                    s0.dir,
                    angle,
                ) && c1 == c0.push(
                    DrawCall::RectFill {
                        color: color.value(regs),
                        rot: ShapeRotation::Center(angle),
                        pos: s0.pos,
                        size,
                    },
                ),
        }
    }

    /// Executing the first `n` commands of `list` in order takes the cursor
    /// from `s0` to `s1` and the record from `c0` to `c1`.
    pub open spec fn runs_first<A: Arith>(
        list: Seq<Turtle>,
        n: int,
        m: &A,
        regs: Seq<Value>,
        s0: TurtleState,
        s1: TurtleState,
        c0: Seq<DrawCall>,
        c1: Seq<DrawCall>,
    ) -> bool
        decreases list, n,
    {
        if n <= 0 {
            s1 == s0 && c1 == c0
        } else if n > list.len() {
            false
        } else {
            exists|sm: TurtleState, cm: Seq<DrawCall>|
                #![trigger later(s0, c0, sm, cm)]
                later(s0, c0, sm, cm) && Self::runs_first(list, n - 1, m, regs, s0, sm, c0, cm)
                    && list[n - 1].runs(m, regs, sm, s1, cm, c1)
        }
    }

    /// Executes the command: walks the tree depth first, resolves each
    /// command's inputs against `regs`, moves the cursor and hands the
    /// resolved primitives to the renderer behind `ctx`.
    pub fn exec<A: Arith, T: TurtleDrawing>(
        &self,
        ts: &mut TurtleState,
        regs: &RegisterFile,
        ctx: &mut Canvas<T>,
        m: &A,
    )
        ensures
            self.runs(m, regs@, *old(ts), *final(ts), old(ctx).calls(), final(ctx).calls()),
            later(*old(ts), old(ctx).calls(), *final(ts), final(ctx).calls()),
        decreases self,
    {
        proof {
            lemma_later_chain(*ts, ctx.calls(), *ts, ctx.calls(), *ts, ctx.calls());
        }
        match self {
            Turtle::Commands(v) => {
                let mut i: usize = 0;
                while i < v.len()
                    invariant
                        i <= v@.len(),
                        decreases_to!(self => v),
                        Self::runs_first(
                            v@,
                            i as int,
                            m,
                            regs@,
                            *old(ts),
                            *ts,
                            old(ctx).calls(),
                            ctx.calls(),
                        ),
                        later(*old(ts), old(ctx).calls(), *ts, ctx.calls()),
                    decreases v@.len() - i,
                {
                    let ghost sm = *ts;
                    let ghost cm = ctx.calls();
                    assert(decreases_to!(v => v[i as int]));
                    v[i].exec(ts, regs, ctx, m);
                    proof {
                        lemma_later_chain(*old(ts), old(ctx).calls(), sm, cm, *ts, ctx.calls());
                    }
                    i += 1;
                }
            },
            Turtle::WithState(inner) => {
                let mut sub_ts = ts.clone();
                inner.exec(&mut sub_ts, regs, ctx, m);
                assert(later(*ts, old(ctx).calls(), sub_ts, ctx.calls()));
            },
            Turtle::LookDir(x, y) => {
                let x = x.resolve(regs);
                let y = y.resolve(regs);
                ts.dir = m.normalize([x, y]);
            },
            Turtle::Line(n, thick, color) => {
                let n = n.resolve(regs);
                let t = thick.resolve(regs);
                let color = color.resolve(regs);
                let step = m.scale(ts.dir, n);
                let dx = m.times(step[0], ts.w);
                let dy = m.times(step[1], ts.h);
                let new_pos = [m.plus(ts.pos[0], dx), m.plus(ts.pos[1], dy)];
                assert(scale_gives(m, ts.dir, n, step) && times_gives(m, step[0], ts.w, dx)
                    && times_gives(m, step[1], ts.h, dy));
                ctx.draw_line(color, ShapeRotation::LeftBottom(ZERO), ts.pos, new_pos, t);
                ts.pos = new_pos;
                proof {
                    lemma_later_push(*old(ts), old(ctx).calls(), ctx.calls().last());
                }
            },
            Turtle::RectLine(rw, rh, thick, clr) => {
                let w = m.times(rw.resolve(regs), ts.w);
                let h = m.times(rh.resolve(regs), ts.h);
                let t = thick.resolve(regs);
                let c = clr.resolve(regs);
                let angle = ts.get_direction_angle(m);
                let size = [w, h];
                assert(size_gives(m, *ts, rw.value(regs@), rh.value(regs@), size));
                ctx.draw_rect_outline(c, ShapeRotation::Center(angle), ts.pos, size, t);
                proof {
                    lemma_later_push(*old(ts), old(ctx).calls(), ctx.calls().last());
                }
            },
            Turtle::Rect(rw, rh, clr) => {
                let w = m.times(rw.resolve(regs), ts.w);
                let h = m.times(rh.resolve(regs), ts.h);
                let c = clr.resolve(regs);
                let angle = ts.get_direction_angle(m);
                let size = [w, h];
                assert(size_gives(m, *ts, rw.value(regs@), rh.value(regs@), size));
                ctx.draw_rect_fill(c, ShapeRotation::Center(angle), ts.pos, size);
                proof {
                    lemma_later_push(*old(ts), old(ctx).calls(), ctx.calls().last());
                }
            },
        }
    }
}

/// Whatever a command does, the scale stays as it was and the calls made
/// before it stay at the head of the record.
pub proof fn lemma_runs_later<A: Arith>(
    t: Turtle,
    m: &A,
    regs: Seq<Value>,
    s0: TurtleState,
    s1: TurtleState,
    c0: Seq<DrawCall>,
    c1: Seq<DrawCall>,
)
    requires
        t.runs(m, regs, s0, s1, c0, c1),
    ensures
        later(s0, c0, s1, c1),
    decreases t, 0int,
{
    lemma_later_chain(s0, c0, s0, c0, s0, c0);
    match t {
        Turtle::Commands(v) => {
            lemma_runs_first_later(v@, v@.len() as int, m, regs, s0, s1, c0, c1);
        },
        Turtle::WithState(_) => {},
        Turtle::LookDir(_, _) => {},
        _ => {
            lemma_later_push(s0, c0, c1.last());
        },
    }
}

/// The same of the first `n` commands of a list.
pub proof fn lemma_runs_first_later<A: Arith>(
    list: Seq<Turtle>,
    n: int,
    m: &A,
    regs: Seq<Value>,
    s0: TurtleState,
    s1: TurtleState,
    c0: Seq<DrawCall>,
    c1: Seq<DrawCall>,
)
    requires
        Turtle::runs_first(list, n, m, regs, s0, s1, c0, c1),
    ensures
        later(s0, c0, s1, c1),
    decreases list, n,
{
    lemma_later_chain(s0, c0, s0, c0, s0, c0);
    if n > 0 {
        let (sm, cm) = choose|sm: TurtleState, cm: Seq<DrawCall>|
            #![trigger later(s0, c0, sm, cm)]
            later(s0, c0, sm, cm) && Turtle::runs_first(list, n - 1, m, regs, s0, sm, c0, cm)
                && list[n - 1].runs(m, regs, sm, s1, cm, c1);
        lemma_runs_later(list[n - 1], m, regs, sm, s1, cm, c1);
        lemma_later_chain(s0, c0, sm, cm, s1, c1);
    }
}

/// Trees that are alike run alike: what one can do from a cursor and a
/// record, the other can.
pub proof fn lemma_alike_runs<A: Arith>(
    a: Turtle,
    b: Turtle,
    m: &A,
    regs: Seq<Value>,
    s0: TurtleState,
    s1: TurtleState,
    c0: Seq<DrawCall>,
    c1: Seq<DrawCall>,
)
    requires
        a.alike(&b),
        a.runs(m, regs, s0, s1, c0, c1),
    ensures
        b.runs(m, regs, s0, s1, c0, c1),
    decreases a, 0int,
{
    match a {
        Turtle::Commands(v) => {
            let w = b->Commands_0;
            lemma_alike_runs_first(v@, w@, v@.len() as int, m, regs, s0, s1, c0, c1);
        },
        Turtle::WithState(inner) => {
            let other = b->WithState_0;
            let scratch = choose|scratch: TurtleState|
                #![trigger later(s0, c0, scratch, c1)]
                later(s0, c0, scratch, c1) && inner.runs(m, regs, s0, scratch, c0, c1);
            lemma_alike_runs(*inner, *other, m, regs, s0, scratch, c0, c1);
        },
        _ => {},
    }
}

/// The same of the first `n` commands of two lists that are alike.
pub proof fn lemma_alike_runs_first<A: Arith>(
    v: Seq<Turtle>,
    w: Seq<Turtle>,
    n: int,
    m: &A,
    regs: Seq<Value>,
    s0: TurtleState,
    s1: TurtleState,
    c0: Seq<DrawCall>,
    c1: Seq<DrawCall>,
)
    requires
        v.len() == w.len(),
        forall|i: int| 0 <= i < v.len() ==> (#[trigger] v[i]).alike(&w[i]),
        Turtle::runs_first(v, n, m, regs, s0, s1, c0, c1),
    ensures
        Turtle::runs_first(w, n, m, regs, s0, s1, c0, c1),
    decreases v, n,
{
    if n > 0 {
        let (sm, cm) = choose|sm: TurtleState, cm: Seq<DrawCall>|
            #![trigger later(s0, c0, sm, cm)]
            later(s0, c0, sm, cm) && Turtle::runs_first(v, n - 1, m, regs, s0, sm, c0, cm) && v[n
                - 1].runs(m, regs, sm, s1, cm, c1);
        lemma_alike_runs_first(v, w, n - 1, m, regs, s0, sm, c0, cm);
        lemma_alike_runs(v[n - 1], w[n - 1], m, regs, sm, s1, cm, c1);
    }
}

/// A scope does not leak: whatever the command inside `WithState` does to
/// its cursor, the cursor after the scope is the cursor before it.
pub proof fn lemma_scope_restores_state<A: Arith>(
    inner: Turtle,
    m: &A,
    regs: Seq<Value>,
    s0: TurtleState,
    s1: TurtleState,
    c0: Seq<DrawCall>,
    c1: Seq<DrawCall>,
)
    requires
        Turtle::WithState(Box::new(inner)).runs(m, regs, s0, s1, c0, c1),
    ensures
        s1 == s0,
{
}

/// The command that follows a scope starts from the cursor with which
/// the scope was entered.
pub proof fn lemma_sibling_starts_from_entry<A: Arith>(
    inner: Turtle,
    sibling: Turtle,
    m: &A,
    regs: Seq<Value>,
    s0: TurtleState,
    s1: TurtleState,
    c0: Seq<DrawCall>,
    c1: Seq<DrawCall>,
)
    requires
        Turtle::runs_first(
            seq![Turtle::WithState(Box::new(inner)), sibling],
            2,
            m,
            regs,
            s0,
            s1,
            c0,
            c1,
        ),
    ensures
        exists|cm: Seq<DrawCall>| #[trigger] sibling.runs(m, regs, s0, s1, cm, c1),
{
    reveal_with_fuel(Turtle::runs_first, 3);
    let list = seq![Turtle::WithState(Box::new(inner)), sibling];
    let (sm, cm) = choose|sm: TurtleState, cm: Seq<DrawCall>|
        #![trigger later(s0, c0, sm, cm)]
        later(s0, c0, sm, cm) && Turtle::runs_first(list, 1, m, regs, s0, sm, c0, cm) && list[1].runs(
            m,
            regs,
            sm,
            s1,
            cm,
            c1,
        );
    let (sa, ca) = choose|sa: TurtleState, ca: Seq<DrawCall>|
        #![trigger later(s0, c0, sa, ca)]
        later(s0, c0, sa, ca) && Turtle::runs_first(list, 0, m, regs, s0, sa, c0, ca) && list[0].runs(
            m,
            regs,
            sa,
            sm,
            ca,
            cm,
        );
    assert(sm == s0);
    assert(sibling.runs(m, regs, s0, s1, cm, c1));
}

/// A line moves the cursor to its end and draws from the old position
/// to the new; the direction and the scale stay.
pub proof fn lemma_line_advances<A: Arith>(
    n: OpIn,
    thick: OpIn,
    color: ColorIn,
    m: &A,
    regs: Seq<Value>,
    s0: TurtleState,
    s1: TurtleState,
    c0: Seq<DrawCall>,
    c1: Seq<DrawCall>,
)
    requires
        Turtle::Line(n, thick, color).runs(m, regs, s0, s1, c0, c1),
    ensures
        line_end_gives(m, s0, n.value(regs), s1.pos),
        s1.dir == s0.dir,
        s1.w == s0.w,
        s1.h == s0.h,
        c1.len() == c0.len() + 1,
        c1.last() matches DrawCall::Line { from, to, .. } && from == s0.pos && to == s1.pos,
{
}

/// A rectangle, filled or outlined, is stamped at the cursor and leaves
/// the cursor where it was.
pub proof fn lemma_rect_keeps_state<A: Arith>(
    t: Turtle,
    m: &A,
    regs: Seq<Value>,
    s0: TurtleState,
    s1: TurtleState,
    c0: Seq<DrawCall>,
    c1: Seq<DrawCall>,
)
    requires
        t is Rect || t is RectLine,
        t.runs(m, regs, s0, s1, c0, c1),
    ensures
        s1 == s0,
        c1.len() == c0.len() + 1,
        t is Rect ==> (c1.last() matches DrawCall::RectFill { pos, .. } && pos == s0.pos),
        t is RectLine ==> (c1.last() matches DrawCall::RectOutline { pos, .. } && pos == s0.pos),
{
}

} // verus!
