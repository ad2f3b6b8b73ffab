//! The context the script layer works on: the simulation, and the turtle
//! program under construction.

use vstd::prelude::*;
use crate::registers::{read, Value};
use crate::signals::{ops_run, sin_at, sin_defaults, Arith, Operator, Simulator};
use crate::turtle::Turtle;

verus! {

/// The simulation together with the turtle commands collected so far and
/// the command lists of the scopes that are still open, innermost last.
pub struct ClContext {
    pub sim: Simulator,
    pub cur_turtle_cmds: Vec<Turtle>,
    pub turtle_stack: Vec<Vec<Turtle>>,
}

impl ClContext {
    /// A context with no operator, no register, no command and no open scope.
    pub fn new() -> (ctx: Self)
        ensures
            ctx.sim.ops@.len() == 0,
            ctx.sim.regs@.len() == 0,
            ctx.cur_turtle_cmds@.len() == 0,
            ctx.turtle_stack@.len() == 0,
    {
        ClContext { sim: Simulator::new(), cur_turtle_cmds: Vec::new(), turtle_stack: Vec::new() }
    }

    /// Registers an operator of the kind `kind` at position `idx` of the
    /// stepping order and returns the register of its `out` port, or
    /// `None`, with nothing changed, where the simulation refuses it.
    pub fn new_op(&mut self, idx: usize, kind: &str) -> (out: Option<usize>)
        ensures
            final(self).cur_turtle_cmds == old(self).cur_turtle_cmds,
            final(self).turtle_stack == old(self).turtle_stack,
            old(self).sim.refusal(idx, kind@).is_some() ==> out.is_none() && final(self).sim.ops@
                == old(self).sim.ops@ && final(self).sim.regs@ == old(self).sim.regs@,
            old(self).sim.refusal(idx, kind@).is_none() ==> {
                let start = old(self).sim.regs@.len() as int;
                &&& out == Some(sin_at(start).out)
                &&& final(self).sim.regs@ == old(self).sim.regs@ + sin_defaults()
                &&& final(self).sim.ops@ == old(self).sim.ops@.insert(
                    idx as int,
                    Operator::Sin(sin_at(start)),
                )
            },
    {
        match self.sim.new_op(idx, kind) {
            Ok(out) => Some(out),
            Err(_) => None,
        }
    }

    /// Writes `v` to register `idx` and says whether it did: outside the
    /// file nothing is written.
    pub fn set_reg(&mut self, idx: usize, v: Value) -> (written: bool)
        ensures
            written == (idx < old(self).sim.regs@.len()),
            written ==> final(self).sim.regs@ == old(self).sim.regs@.update(idx as int, v),
            !written ==> final(self).sim.regs@ == old(self).sim.regs@,
            final(self).sim.ops == old(self).sim.ops,
            final(self).cur_turtle_cmds == old(self).cur_turtle_cmds,
            final(self).turtle_stack == old(self).turtle_stack,
    {
        self.sim.regs.set(idx, v)
    }

    /// Reads register `idx`; a register outside the file reads as zero.
    pub fn get_reg(&self, idx: usize) -> (v: Value)
        ensures
            v == read(self.sim.regs@, idx as int),
    {
        self.sim.regs.get(idx)
    }

    /// Steps every operator once, in the order of the list, at time `t`.
    pub fn exec<A: Arith>(&mut self, t: Value, m: &A)
        ensures
            final(self).sim.ops@ == old(self).sim.ops@,
            ops_run(m, old(self).sim.ops@, t, old(self).sim.regs@, final(self).sim.regs@),
            final(self).cur_turtle_cmds == old(self).cur_turtle_cmds,
            final(self).turtle_stack == old(self).turtle_stack,
    {
        self.sim.step(t, m)
    }

    /// Folds the commands collected so far into one `Commands` node, which
    /// becomes the only command of the current list.
    pub fn pack_turtle(&mut self)
        ensures
            final(self).cur_turtle_cmds@ == seq![Turtle::Commands(old(self).cur_turtle_cmds)],
            final(self).turtle_stack == old(self).turtle_stack,
            final(self).sim == old(self).sim,
    {
        let mut cmds: Vec<Turtle> = Vec::new();
        std::mem::swap(&mut self.cur_turtle_cmds, &mut cmds);
        self.cur_turtle_cmds.push(Turtle::Commands(cmds));
        assert(self.cur_turtle_cmds@ =~= seq![Turtle::Commands(old(self).cur_turtle_cmds)]);
    }

    /// Appends a command to the current list.
    pub fn add_turtle(&mut self, t: Turtle)
        ensures
            final(self).cur_turtle_cmds@ == old(self).cur_turtle_cmds@.push(t),
            final(self).turtle_stack == old(self).turtle_stack,
            final(self).sim == old(self).sim,
    {
        self.cur_turtle_cmds.push(t);
    }

    /// Opens a scope: the current list is set aside and an empty one
    /// takes its place.
    pub fn push_turtle(&mut self)
        ensures
            final(self).turtle_stack@ == old(self).turtle_stack@.push(old(self).cur_turtle_cmds),
            final(self).cur_turtle_cmds@.len() == 0,
            final(self).sim == old(self).sim,
    {
        let mut cmds: Vec<Turtle> = Vec::new();
        std::mem::swap(&mut self.cur_turtle_cmds, &mut cmds);
        self.turtle_stack.push(cmds);
    }

    /// Closes the innermost scope: returns the commands collected inside
    /// it as one `Commands` node and takes up the list that was set aside
    /// when the scope was opened.
    pub fn pop_turtle(&mut self) -> (scope: Turtle)
        requires
            old(self).turtle_stack@.len() > 0,
        ensures
            scope == Turtle::Commands(old(self).cur_turtle_cmds),
            final(self).cur_turtle_cmds == old(self).turtle_stack@.last(),
            final(self).turtle_stack@ == old(self).turtle_stack@.drop_last(),
            final(self).sim == old(self).sim,
    {
        let mut cmds = self.turtle_stack.pop().unwrap();
        std::mem::swap(&mut self.cur_turtle_cmds, &mut cmds);
        Turtle::Commands(cmds)
    }
}

} // verus!
