use wctr_dem_engine::clcontext::ClContext;
use wctr_dem_engine::registers::RegisterFile;
use wctr_dem_engine::signals::{Arith, ColorIn, OpIn};
use wctr_dem_engine::canvas::Canvas;
use wctr_dem_engine::turtle::{
    DrawCall, DrawList, ShapeRotation, Turtle, TurtleDrawing, TurtleState, FULL_TURN,
};

struct Ieee;

fn num(v: u32) -> f32 {
    f32::from_bits(v)
}

fn bits(v: f32) -> u32 {
    v.to_bits()
}

fn pair(v: [u32; 2]) -> [f32; 2] {
    [num(v[0]), num(v[1])]
}

impl Arith for Ieee {
    fn plus(&self, a: u32, b: u32) -> u32 {
        (num(a) + num(b)).to_bits()
    }

    fn minus(&self, a: u32, b: u32) -> u32 {
        (num(a) - num(b)).to_bits()
    }

    fn times(&self, a: u32, b: u32) -> u32 {
        (num(a) * num(b)).to_bits()
    }

    fn sin(&self, a: u32) -> u32 {
        num(a).sin().to_bits()
    }

    fn atan2(&self, y: u32, x: u32) -> u32 {
        num(y).atan2(num(x)).to_bits()
    }

    fn scale(&self, v: [u32; 2], s: u32) -> [u32; 2] {
        let r = vecmath::vec2_scale([num(v[0]), num(v[1])], num(s));
        [r[0].to_bits(), r[1].to_bits()]
    }

    fn normalize(&self, v: [u32; 2]) -> [u32; 2] {
        let r = vecmath::vec2_normalized([num(v[0]), num(v[1])]);
        [r[0].to_bits(), r[1].to_bits()]
    }
}

/// A renderer of the host's own, which only counts.
struct Counter {
    lines: usize,
    fills: usize,
    outlines: usize,
}

impl TurtleDrawing for Counter {
    fn draw_line(&mut self, _c: [u32; 4], _r: ShapeRotation, _f: [u32; 2], _t: [u32; 2], _w: u32) {
        self.lines += 1;
    }

    fn draw_rect_fill(&mut self, _c: [u32; 4], _r: ShapeRotation, _p: [u32; 2], _s: [u32; 2]) {
        self.fills += 1;
    }

    fn draw_rect_outline(
        &mut self,
        _c: [u32; 4],
        _r: ShapeRotation,
        _p: [u32; 2],
        _s: [u32; 2],
        _w: u32,
    ) {
        self.outlines += 1;
    }
}

fn k(v: f32) -> OpIn {
    OpIn::Constant(bits(v))
}

fn color() -> ColorIn {
    ColorIn { h: k(0.5), s: k(0.6), v: k(0.7), a: k(1.0) }
}

fn color_bits() -> [u32; 4] {
    [bits(0.5), bits(0.6), bits(0.7), bits(1.0)]
}

fn run(t: &Turtle, ts: &mut TurtleState, regs: &RegisterFile) -> Vec<DrawCall> {
    let mut canvas = Canvas::new(DrawList::new());
    t.exec(ts, regs, &mut canvas, &Ieee);
    canvas.into_renderer().list
}

#[test]
fn new_state_is_at_origin_facing_up() {
    let ts = TurtleState::new(bits(2.0), bits(3.0));
    assert_eq!(num(ts.w), 2.0);
    assert_eq!(num(ts.h), 3.0);
    assert_eq!(pair(ts.pos), [0.0, 0.0]);
    assert_eq!(pair(ts.dir), [0.0, 1.0]);
}

#[test]
fn full_turn_is_two_pi() {
    assert_eq!(num(FULL_TURN), 2.0 * std::f32::consts::PI);
}

#[test]
fn direction_angle_follows_the_formula() {
    let mut ts = TurtleState::new(bits(1.0), bits(1.0));
    let up = 2.0 * std::f32::consts::PI - (1.0f32.atan2(0.0) - 1.0f32.atan2(0.0));
    assert_eq!(num(ts.get_direction_angle(&Ieee)), up);
    assert_eq!(up, 2.0 * std::f32::consts::PI);
    ts.dir = [bits(1.0), bits(0.0)];
    let right = 2.0 * std::f32::consts::PI - (1.0f32.atan2(0.0) - 0.0f32.atan2(1.0));
    assert_eq!(num(ts.get_direction_angle(&Ieee)), right);
    assert!((right - 1.5 * std::f32::consts::PI).abs() < 1e-6);
}

#[test]
fn look_dir_gives_unit_direction() {
    let regs = RegisterFile::new();
    let mut ts = TurtleState::new(bits(1.0), bits(1.0));
    let calls = run(&Turtle::LookDir(k(1.0), k(0.0)), &mut ts, &regs);
    assert!(calls.is_empty());
    let d = pair(ts.dir);
    assert!(((d[0] * d[0] + d[1] * d[1]).sqrt() - 1.0).abs() < 1e-6);
    assert_eq!(d, [1.0, 0.0]);
    run(&Turtle::LookDir(k(0.0), k(1.0)), &mut ts, &regs);
    let d = pair(ts.dir);
    assert!(((d[0] * d[0] + d[1] * d[1]).sqrt() - 1.0).abs() < 1e-6);
    assert_eq!(d, [0.0, 1.0]);
    run(&Turtle::LookDir(k(3.0), k(4.0)), &mut ts, &regs);
    let d = pair(ts.dir);
    assert!(((d[0] * d[0] + d[1] * d[1]).sqrt() - 1.0).abs() < 1e-6);
    assert!((d[0] - 0.6).abs() < 1e-6 && (d[1] - 0.8).abs() < 1e-6);
    assert_eq!(pair(ts.pos), [0.0, 0.0]);
}

#[test]
fn look_dir_reads_registers() {
    let mut regs = RegisterFile::new();
    regs.allocate(2);
    regs.set(0, bits(0.0));
    regs.set(1, bits(-2.0));
    let mut ts = TurtleState::new(bits(1.0), bits(1.0));
    run(&Turtle::LookDir(OpIn::Reg(0), OpIn::Reg(1)), &mut ts, &regs);
    assert_eq!(pair(ts.dir), [0.0, -1.0]);
}

#[test]
fn line_advances_by_length_times_direction_times_scale() {
    let regs = RegisterFile::new();
    let mut ts = TurtleState::new(bits(2.0), bits(3.0));
    ts.pos = [bits(1.0), bits(-1.0)];
    ts.dir = [bits(0.6), bits(0.8)];
    let calls = run(&Turtle::Line(k(10.0), k(1.5), color()), &mut ts, &regs);
    let end = [1.0f32 + (0.6f32 * 10.0) * 2.0, -1.0f32 + (0.8f32 * 10.0) * 3.0];
    assert_eq!(pair(ts.pos), end);
    assert_eq!(pair(ts.dir), [0.6, 0.8]);
    assert_eq!(num(ts.w), 2.0);
    assert_eq!(num(ts.h), 3.0);
    assert_eq!(
        calls,
        vec![DrawCall::Line {
            color: color_bits(),
            rot: ShapeRotation::LeftBottom(bits(0.0)),
            from: [bits(1.0), bits(-1.0)],
            to: [bits(end[0]), bits(end[1])],
            thickness: bits(1.5),
        }]
    );
}

#[test]
fn rect_and_rect_line_leave_the_state() {
    let regs = RegisterFile::new();
    let mut ts = TurtleState::new(bits(2.0), bits(3.0));
    ts.pos = [bits(4.0), bits(5.0)];
    let before = ts;
    let angle = bits(2.0 * std::f32::consts::PI);
    let calls = run(&Turtle::Rect(k(5.0), k(6.0), color()), &mut ts, &regs);
    assert_eq!(ts, before);
    assert_eq!(
        calls,
        vec![DrawCall::RectFill {
            color: color_bits(),
            rot: ShapeRotation::Center(angle),
            pos: [bits(4.0), bits(5.0)],
            size: [bits(10.0), bits(18.0)],
        }]
    );
    let calls = run(&Turtle::RectLine(k(5.0), k(6.0), k(0.5), color()), &mut ts, &regs);
    assert_eq!(ts, before);
    assert_eq!(
        calls,
        vec![DrawCall::RectOutline {
            color: color_bits(),
            rot: ShapeRotation::Center(angle),
            pos: [bits(4.0), bits(5.0)],
            size: [bits(10.0), bits(18.0)],
            thickness: bits(0.5),
        }]
    );
}

#[test]
fn with_state_does_not_leak_to_sibling() {
    let regs = RegisterFile::new();
    let mut ts = TurtleState::new(bits(1.0), bits(1.0));
    ts.pos = [bits(2.0), bits(3.0)];
    let entering = ts;
    let tree = Turtle::Commands(vec![
        Turtle::WithState(Box::new(Turtle::Commands(vec![
            Turtle::LookDir(k(1.0), k(0.0)),
            Turtle::Line(k(7.0), k(1.0), color()),
        ]))),
        Turtle::Rect(k(1.0), k(1.0), color()),
    ]);
    let calls = run(&tree, &mut ts, &regs);
    assert_eq!(ts, entering);
    assert_eq!(calls.len(), 2);
    match calls[0] {
        DrawCall::Line { from, to, .. } => {
            assert_eq!(pair(from), [2.0, 3.0]);
            assert_eq!(pair(to), [9.0, 3.0]);
        }
        _ => panic!("expected a line"),
    }
    match calls[1] {
        DrawCall::RectFill { pos, rot, .. } => {
            assert_eq!(pair(pos), [2.0, 3.0]);
            assert_eq!(rot, ShapeRotation::Center(bits(2.0 * std::f32::consts::PI)));
        }
        _ => panic!("expected a filled rectangle"),
    }
}

#[test]
fn commands_share_one_state() {
    let regs = RegisterFile::new();
    let mut ts = TurtleState::new(bits(1.0), bits(1.0));
    let tree = Turtle::Commands(vec![
        Turtle::Line(k(1.0), k(1.0), color()),
        Turtle::Commands(vec![Turtle::Line(k(2.0), k(1.0), color())]),
        Turtle::Line(k(3.0), k(1.0), color()),
    ]);
    let calls = run(&tree, &mut ts, &regs);
    assert_eq!(pair(ts.pos), [0.0, 6.0]);
    let ends: Vec<[f32; 2]> = calls
        .iter()
        .map(|c| match c {
            DrawCall::Line { to, .. } => pair(*to),
            _ => panic!("expected a line"),
        })
        .collect();
    assert_eq!(ends, vec![[0.0, 1.0], [0.0, 3.0], [0.0, 6.0]]);
}

#[test]
fn empty_commands_do_nothing() {
    let regs = RegisterFile::new();
    let mut ts = TurtleState::new(bits(1.0), bits(1.0));
    let before = ts;
    assert!(run(&Turtle::Commands(vec![]), &mut ts, &regs).is_empty());
    assert_eq!(ts, before);
}

#[test]
fn end_to_end_line_then_rect() {
    let regs = RegisterFile::new();
    let mut ts = TurtleState::new(bits(1.0), bits(1.0));
    let tree = Turtle::Commands(vec![
        Turtle::LookDir(k(0.0), k(1.0)),
        Turtle::Line(k(10.0), k(1.0), color()),
        Turtle::Rect(k(5.0), k(5.0), color()),
    ]);
    let calls = run(&tree, &mut ts, &regs);
    assert_eq!(
        calls,
        vec![
            DrawCall::Line {
                color: color_bits(),
                rot: ShapeRotation::LeftBottom(bits(0.0)),
                from: [bits(0.0), bits(0.0)],
                to: [bits(0.0), bits(10.0)],
                thickness: bits(1.0),
            },
            DrawCall::RectFill {
                color: color_bits(),
                rot: ShapeRotation::Center(bits(2.0 * std::f32::consts::PI)),
                pos: [bits(0.0), bits(10.0)],
                size: [bits(5.0), bits(5.0)],
            },
        ]
    );
    assert_eq!(pair(ts.pos), [0.0, 10.0]);
}

#[test]
fn unresolvable_register_draws_with_zero() {
    let regs = RegisterFile::new();
    let mut ts = TurtleState::new(bits(1.0), bits(1.0));
    let calls = run(&Turtle::Line(OpIn::Reg(5), OpIn::Reg(6), color()), &mut ts, &regs);
    assert_eq!(pair(ts.pos), [0.0, 0.0]);
    assert_eq!(calls.len(), 1);
    match calls[0] {
        DrawCall::Line { thickness, .. } => assert_eq!(num(thickness), 0.0),
        _ => panic!("expected a line"),
    }
}

#[test]
fn host_renderer_receives_the_calls() {
    let regs = RegisterFile::new();
    let mut ts = TurtleState::new(bits(1.0), bits(1.0));
    let tree = Turtle::Commands(vec![
        Turtle::Line(k(1.0), k(1.0), color()),
        Turtle::WithState(Box::new(Turtle::RectLine(k(1.0), k(1.0), k(1.0), color()))),
        Turtle::Rect(k(1.0), k(1.0), color()),
        Turtle::Line(k(1.0), k(1.0), color()),
    ]);
    let mut canvas = Canvas::new(Counter { lines: 0, fills: 0, outlines: 0 });
    tree.exec(&mut ts, &regs, &mut canvas, &Ieee);
    let counter = canvas.into_renderer();
    assert_eq!((counter.lines, counter.fills, counter.outlines), (2, 1, 1));
}

#[test]
fn draw_list_keeps_calls_in_order() {
    let mut list = DrawList::new();
    list.draw_rect_fill(color_bits(), ShapeRotation::Center(bits(1.0)), [1, 2], [3, 4]);
    list.draw_line(color_bits(), ShapeRotation::LeftBottom(0), [5, 6], [7, 8], 9);
    list.draw_rect_outline(color_bits(), ShapeRotation::Center(bits(2.0)), [1, 2], [3, 4], 5);
    assert_eq!(
        list.list,
        vec![
            DrawCall::RectFill {
                color: color_bits(),
                rot: ShapeRotation::Center(bits(1.0)),
                pos: [1, 2],
                size: [3, 4],
            },
            DrawCall::Line {
                color: color_bits(),
                rot: ShapeRotation::LeftBottom(0),
                from: [5, 6],
                to: [7, 8],
                thickness: 9,
            },
            DrawCall::RectOutline {
                color: color_bits(),
                rot: ShapeRotation::Center(bits(2.0)),
                pos: [1, 2],
                size: [3, 4],
                thickness: 5,
            },
        ]
    );
}

#[test]
fn clone_copies_the_tree() {
    let tree = Turtle::Commands(vec![
        Turtle::LookDir(k(0.0), OpIn::Reg(3)),
        Turtle::WithState(Box::new(Turtle::Commands(vec![Turtle::Line(k(1.0), k(2.0), color())]))),
        Turtle::RectLine(k(1.0), k(2.0), k(3.0), color()),
        Turtle::Rect(k(1.0), k(2.0), color()),
    ]);
    assert_eq!(tree.clone(), tree);
}

#[test]
fn context_collects_commands_and_scopes() {
    let mut ctx = ClContext::new();
    ctx.add_turtle(Turtle::LookDir(k(1.0), k(0.0)));
    ctx.push_turtle();
    assert!(ctx.cur_turtle_cmds.is_empty());
    assert_eq!(ctx.turtle_stack.len(), 1);
    ctx.add_turtle(Turtle::Line(k(1.0), k(1.0), color()));
    ctx.add_turtle(Turtle::Rect(k(1.0), k(1.0), color()));
    let scope = ctx.pop_turtle();
    assert_eq!(
        scope,
        Turtle::Commands(vec![
            Turtle::Line(k(1.0), k(1.0), color()),
            Turtle::Rect(k(1.0), k(1.0), color()),
        ])
    );
    assert!(ctx.turtle_stack.is_empty());
    assert_eq!(ctx.cur_turtle_cmds, vec![Turtle::LookDir(k(1.0), k(0.0))]);
    ctx.add_turtle(Turtle::WithState(Box::new(scope)));
    ctx.pack_turtle();
    assert_eq!(ctx.cur_turtle_cmds.len(), 1);
    match &ctx.cur_turtle_cmds[0] {
        Turtle::Commands(v) => {
            assert_eq!(v.len(), 2);
            assert_eq!(v[0], Turtle::LookDir(k(1.0), k(0.0)));
            assert!(matches!(v[1], Turtle::WithState(_)));
        }
        _ => panic!("expected a command list"),
    }
}

#[test]
fn nested_scopes_close_innermost_first() {
    let mut ctx = ClContext::new();
    ctx.add_turtle(Turtle::LookDir(k(1.0), k(0.0)));
    ctx.push_turtle();
    ctx.add_turtle(Turtle::LookDir(k(2.0), k(0.0)));
    ctx.push_turtle();
    ctx.add_turtle(Turtle::LookDir(k(3.0), k(0.0)));
    assert_eq!(ctx.pop_turtle(), Turtle::Commands(vec![Turtle::LookDir(k(3.0), k(0.0))]));
    assert_eq!(ctx.pop_turtle(), Turtle::Commands(vec![Turtle::LookDir(k(2.0), k(0.0))]));
    assert_eq!(ctx.cur_turtle_cmds, vec![Turtle::LookDir(k(1.0), k(0.0))]);
}
