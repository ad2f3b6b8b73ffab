//! Inputs that read registers, the arithmetic the host supplies, and the
//! operators that recompute registers from the time.

use vstd::prelude::*;
use crate::registers::{read, RegisterFile, Value, ONE, ZERO};

verus! {

/// Whether two strings hold the same characters.
pub fn same_text(a: &str, b: &str) -> (same: bool)
    ensures
        same == (a@ == b@),
{
    a.to_owned() == b.to_owned()
}

/// Where a parameter takes its number from: a constant, or a register
/// that is read anew at every use.
#[derive(Clone, Copy, Debug, PartialEq)]
pub enum OpIn {
    Constant(Value),
    Reg(usize),
}

impl OpIn {
    /// The number this input stands for against `regs`.
    pub open spec fn value(&self, regs: Seq<Value>) -> Value {
        match self {
            OpIn::Constant(v) => *v,
            OpIn::Reg(idx) => read(regs, *idx as int),
        }
    }

    /// Resolves the input: the constant itself, or what the register
    /// reads as now.
    pub fn resolve(&self, regs: &RegisterFile) -> (v: Value)
        ensures
            v == self.value(regs@),
    {
        match self {
            OpIn::Constant(v) => *v,
            OpIn::Reg(idx) => regs.get(*idx),
        }
    }
}

/// A colour given by four inputs: hue, saturation, value and alpha.
#[derive(Clone, Copy, Debug, PartialEq)]
pub struct ColorIn {
    pub h: OpIn,
    pub s: OpIn,
    pub v: OpIn,
    pub a: OpIn,
}

impl ColorIn {
    /// The four components against `regs`, in the order h, s, v, a.
    pub open spec fn value(&self, regs: Seq<Value>) -> [Value; 4] {
        [self.h.value(regs), self.s.value(regs), self.v.value(regs), self.a.value(regs)]
    }

    /// Resolves the four components, in the order h, s, v, a.
    pub fn resolve(&self, regs: &RegisterFile) -> (c: [Value; 4])
        ensures
            c == self.value(regs@),
    {
        let h = self.h.resolve(regs);
        let s = self.s.resolve(regs);
        let v = self.v.resolve(regs);
        let a = self.a.resolve(regs);
        [h, s, v, a]
    }
}

/// The arithmetic on numbers, which the host supplies. The library hands
/// it bit patterns and takes bit patterns back; it promises nothing of
/// the results, and every contract that speaks of one says only that it
/// is what the host gave for those arguments.
pub trait Arith {
    /// `a + b`.
    fn plus(&self, a: Value, b: Value) -> Value;

    /// `a - b`.
    fn minus(&self, a: Value, b: Value) -> Value;

    /// `a * b`.
    fn times(&self, a: Value, b: Value) -> Value;

    /// The sine of `a`.
    fn sin(&self, a: Value) -> Value;

    /// The angle of the point `(x, y)`, as the four-quadrant arctangent gives it.
    fn atan2(&self, y: Value, x: Value) -> Value;

    /// The vector `v` with each component multiplied by `s`.
    fn scale(&self, v: [Value; 2], s: Value) -> [Value; 2];

    /// The vector of length one along `v`.
    fn normalize(&self, v: [Value; 2]) -> [Value; 2];
}

/// `r` is what the host gave for `a + b`.
pub open spec fn plus_gives<A: Arith>(m: &A, a: Value, b: Value, r: Value) -> bool {
    call_ensures(A::plus, (m, a, b), r)
}

/// `r` is what the host gave for `a - b`.
pub open spec fn minus_gives<A: Arith>(m: &A, a: Value, b: Value, r: Value) -> bool {
    call_ensures(A::minus, (m, a, b), r)
}

/// `r` is what the host gave for `a * b`.
pub open spec fn times_gives<A: Arith>(m: &A, a: Value, b: Value, r: Value) -> bool {
    call_ensures(A::times, (m, a, b), r)
}

/// `r` is what the host gave for the sine of `a`.
pub open spec fn sin_gives<A: Arith>(m: &A, a: Value, r: Value) -> bool {
    call_ensures(A::sin, (m, a), r)
}

/// `r` is what the host gave for the arctangent of `y` over `x`.
pub open spec fn atan2_gives<A: Arith>(m: &A, y: Value, x: Value, r: Value) -> bool {
    call_ensures(A::atan2, (m, y, x), r)
}

/// `r` is what the host gave for `v` scaled by `s`.
pub open spec fn scale_gives<A: Arith>(m: &A, v: [Value; 2], s: Value, r: [Value; 2]) -> bool {
    call_ensures(A::scale, (m, v, s), r)
}

/// `r` is what the host gave for `v` normalized.
pub open spec fn normalize_gives<A: Arith>(m: &A, v: [Value; 2], r: [Value; 2]) -> bool {
    call_ensures(A::normalize, (m, v), r)
}

/// `out` is `amp * (sin(freq * t + phase) + vert)`, each step as the
/// host computed it.
pub open spec fn sine_gives<A: Arith>(
    m: &A,
    amp: Value,
    phase: Value,
    vert: Value,
    freq: Value,
    t: Value,
    out: Value,
) -> bool {
    exists|ft: Value, angle: Value, wave: Value, lifted: Value|
        #![trigger times_gives(m, freq, t, ft), plus_gives(m, ft, phase, angle), sin_gives(m, angle, wave), plus_gives(m, wave, vert, lifted)]
        times_gives(m, freq, t, ft) && plus_gives(m, ft, phase, angle) && sin_gives(
            m,
            angle,
            wave,
        ) && plus_gives(m, wave, vert, lifted) && times_gives(m, amp, lifted, out)
}

/// `regs` with `v` written to register `idx`; unchanged where `idx` lies
/// outside the file.
pub open spec fn write(regs: Seq<Value>, idx: int, v: Value) -> Seq<Value> {
    if 0 <= idx < regs.len() {
        regs.update(idx, v)
    } else {
        regs
    }
}

/// The default frequency of an oscillator, 0.001.
pub const DEFAULT_FREQ: Value = 0x3a83_126f;

/// The number of registers an oscillator owns.
pub const SIN_REGS: usize = 5;

/// A sine oscillator. Each port names the register it is bound to; at
/// first these are the five registers of the oscillator's own block, in
/// the order amp, phase, vert, freq, out.
#[derive(Clone, Copy, Debug, PartialEq)]
pub struct DoSin {
    pub amp: usize,
    pub phase: usize,
    pub vert: usize,
    pub freq: usize,
    pub out: usize,
}

/// The oscillator whose block starts at register `start`.
pub open spec fn sin_at(start: int) -> DoSin {
    DoSin {
        amp: start as usize,
        phase: (start + 1) as usize,
        vert: (start + 2) as usize,
        freq: (start + 3) as usize,
        out: (start + 4) as usize,
    }
}

/// The content of an oscillator's block before its first step: amp 1,
/// phase 0, vert 0, freq 0.001, out 0.
pub open spec fn sin_defaults() -> Seq<Value> {
    seq![ONE, ZERO, ZERO, DEFAULT_FREQ, ZERO]
}

impl DoSin {
    /// An oscillator that is bound to no block yet.
    pub fn new() -> (op: Self)
        ensures
            op == sin_at(0),
    {
        DoSin { amp: 0, phase: 1, vert: 2, freq: 3, out: 4 }
    }

    /// The number of registers the oscillator owns.
    pub fn output_count(&self) -> (n: usize)
        ensures
            n == SIN_REGS,
    {
        SIN_REGS
    }

    /// Binds the ports to the block that starts at `start_reg` and fills
    /// the block with the defaults.
    pub fn init_regs(&mut self, start_reg: usize, regs: &mut RegisterFile)
        requires
            start_reg + SIN_REGS <= old(regs)@.len(),
        ensures
            *final(self) == sin_at(start_reg as int),
            final(regs)@.len() == old(regs)@.len(),
            final(regs)@.subrange(start_reg as int, start_reg + SIN_REGS) == sin_defaults(),
            forall|i: int|
                0 <= i < old(regs)@.len() && !(start_reg <= i < start_reg + SIN_REGS)
                    ==> final(regs)@[i] == old(regs)@[i],
    {
        proof {
            regs.lemma_len_fits();
        }
        self.amp = start_reg;
        self.phase = start_reg + 1;
        self.vert = start_reg + 2;
        self.freq = start_reg + 3;
        self.out = start_reg + 4;
        regs.set(self.amp, ONE);
        regs.set(self.phase, ZERO);
        regs.set(self.vert, ZERO);
        regs.set(self.freq, DEFAULT_FREQ);
        regs.set(self.out, ZERO);
        assert(regs@.subrange(start_reg as int, start_reg + SIN_REGS) =~= sin_defaults());
    }

    /// The register a port is bound to, by the port's name.
    pub open spec fn port(&self, name: Seq<char>) -> Option<usize> {
        if name == "amp"@ {
            Some(self.amp)
        } else if name == "phase"@ {
            Some(self.phase)
        } else if name == "vert"@ {
            Some(self.vert)
        } else if name == "freq"@ {
            Some(self.freq)
        } else if name == "out"@ {
            Some(self.out)
        } else {
            None
        }
    }

    /// The register a port is bound to, or `None` for a name that is no port.
    pub fn get_port(&self, name: &str) -> (reg: Option<usize>)
        ensures
            reg == self.port(name@),
    {
        if same_text(name, "amp") {
            Some(self.amp)
        } else if same_text(name, "phase") {
            Some(self.phase)
        } else if same_text(name, "vert") {
            Some(self.vert)
        } else if same_text(name, "freq") {
            Some(self.freq)
        } else if same_text(name, "out") {
            Some(self.out)
        } else {
            None
        }
    }

    /// The register an output port is bound to; the oscillator's one
    /// output is `out`.
    pub fn get_output_reg(&self, name: &str) -> (reg: Option<usize>)
        ensures
            name@ == "out"@ ==> reg == Some(self.out),
            name@ != "out"@ ==> reg.is_none(),
    {
        if same_text(name, "out") {
            Some(self.out)
        } else {
            None
        }
    }

    /// The oscillator with the port `name` bound to `reg`; unchanged for
    /// a name that is no port.
    pub open spec fn rebound(&self, name: Seq<char>, reg: usize) -> DoSin {
        if name == "amp"@ {
            DoSin { amp: reg, ..*self }
        } else if name == "phase"@ {
            DoSin { phase: reg, ..*self }
        } else if name == "vert"@ {
            DoSin { vert: reg, ..*self }
        } else if name == "freq"@ {
            DoSin { freq: reg, ..*self }
        } else if name == "out"@ {
            DoSin { out: reg, ..*self }
        } else {
            *self
        }
    }

    /// Binds the port `name` to register `reg`, which may lie outside the
    /// oscillator's block, and says whether there is such a port. The
    /// other ports and the block stay as they are.
    pub fn bind(&mut self, name: &str, reg: usize) -> (bound: bool)
        ensures
            bound == old(self).port(name@).is_some(),
            *final(self) == old(self).rebound(name@, reg),
    {
        if same_text(name, "amp") {
            self.amp = reg;
            true
        } else if same_text(name, "phase") {
            self.phase = reg;
            true
        } else if same_text(name, "vert") {
            self.vert = reg;
            true
        } else if same_text(name, "freq") {
            self.freq = reg;
            true
        } else if same_text(name, "out") {
            self.out = reg;
            true
        } else {
            false
        }
    }

    /// One step at time `t` takes the registers from `before` to `after`:
    /// the four inputs are read through their ports, and the sine they
    /// give is written through `out`.
    pub open spec fn steps<A: Arith>(&self, m: &A, t: Value, before: Seq<Value>, after: Seq<Value>) -> bool {
        exists|out: Value|
            #![trigger write(before, self.out as int, out)]
            sine_gives(
                m,
                read(before, self.amp as int),
                read(before, self.phase as int),
                read(before, self.vert as int),
                read(before, self.freq as int),
                t,
                out,
            ) && after == write(before, self.out as int, out)
    }

    /// Recomputes the output for time `t`:
    /// `out := amp * (sin(freq * t + phase) + vert)`.
    pub fn exec<A: Arith>(&self, t: Value, regs: &mut RegisterFile, m: &A)
        ensures
            self.steps(m, t, old(regs)@, final(regs)@),
    {
        let amp = regs.get(self.amp);
        let phase = regs.get(self.phase);
        let vert = regs.get(self.vert);
        let freq = regs.get(self.freq);
        let ft = m.times(freq, t);
        let angle = m.plus(ft, phase);
        let wave = m.sin(angle);
        let lifted = m.plus(wave, vert);
        let out = m.times(amp, lifted);
        assert(times_gives(m, freq, t, ft) && plus_gives(m, ft, phase, angle) && sin_gives(
            m,
            angle,
            wave,
        ) && plus_gives(m, wave, vert, lifted));
        assert(sine_gives(m, amp, phase, vert, freq, t, out));
        regs.set(self.out, out);
        assert(regs@ == write(old(regs)@, self.out as int, out));
    }
}

/// The family of operators. An operator owns a block of registers, binds
/// named ports to registers, and recomputes its output from the time and
/// its inputs.
#[derive(Clone, Copy, Debug, PartialEq)]
pub enum Operator {
    Sin(DoSin),
}

impl Operator {
    /// Whether `kind` names a kind of operator.
    pub open spec fn known(kind: Seq<char>) -> bool {
        kind == "sin"@
    }

    /// The operator of the kind that `kind` names, bound to no block
    /// yet, or `None` for a name that names no kind.
    pub fn by_name(kind: &str) -> (op: Option<Operator>)
        ensures
            Self::known(kind@) ==> op == Some(Operator::Sin(sin_at(0))),
            !Self::known(kind@) ==> op.is_none(),
    {
        if same_text(kind, "sin") {
            Some(Operator::Sin(DoSin::new()))
        } else {
            None
        }
    }

    /// The operator as it is once bound to the block that starts at `start`.
    pub open spec fn placed(&self, start: int) -> Operator {
        match self {
            Operator::Sin(_) => Operator::Sin(sin_at(start)),
        }
    }

    /// The content of the operator's block before its first step.
    pub open spec fn defaults(&self) -> Seq<Value> {
        match self {
            Operator::Sin(_) => sin_defaults(),
        }
    }

    /// The register that the output port `out` is bound to.
    pub open spec fn out_reg(&self) -> usize {
        match self {
            Operator::Sin(op) => op.out,
        }
    }

    /// The number of registers the operator owns.
    pub fn output_count(&self) -> (n: usize)
        ensures
            n == self.defaults().len(),
    {
        match self {
            Operator::Sin(op) => op.output_count(),
        }
    }

    /// Binds the ports to the block that starts at `start_reg` and fills
    /// the block with the defaults.
    pub fn init_regs(&mut self, start_reg: usize, regs: &mut RegisterFile)
        requires
            start_reg + old(self).defaults().len() <= old(regs)@.len(),
        ensures
            *final(self) == old(self).placed(start_reg as int),
            final(regs)@.len() == old(regs)@.len(),
            final(regs)@.subrange(start_reg as int, start_reg + old(self).defaults().len())
                == old(self).defaults(),
            forall|i: int|
                0 <= i < old(regs)@.len() && !(start_reg <= i < start_reg + old(self).defaults().len())
                    ==> final(regs)@[i] == old(regs)@[i],
    {
        match self {
            Operator::Sin(op) => op.init_regs(start_reg, regs),
        }
    }

    /// The register an output port is bound to, by the port's name.
    pub fn get_output_reg(&self, name: &str) -> (reg: Option<usize>)
        ensures
            name@ == "out"@ ==> reg == Some(self.out_reg()),
            name@ != "out"@ ==> reg.is_none(),
    {
        match self {
            Operator::Sin(op) => op.get_output_reg(name),
        }
    }

    /// One step of the operator at time `t` takes the registers from
    /// `before` to `after`.
    pub open spec fn steps<A: Arith>(&self, m: &A, t: Value, before: Seq<Value>, after: Seq<Value>) -> bool {
        match self {
            Operator::Sin(op) => op.steps(m, t, before, after),
        }
    }

    /// Recomputes the operator's output for time `t`.
    pub fn exec<A: Arith>(&self, t: Value, regs: &mut RegisterFile, m: &A)
        ensures
            self.steps(m, t, old(regs)@, final(regs)@),
    {
        match self {
            Operator::Sin(op) => op.exec(t, regs, m),
        }
    }
}

/// Stepping the operators `ops` once each, first to last, at time `t`
/// takes the registers from `before` to `after`.
pub open spec fn ops_run<A: Arith>(
    m: &A,
    ops: Seq<Operator>,
    t: Value,
    before: Seq<Value>,
    after: Seq<Value>,
) -> bool
    decreases ops.len(),
{
    if ops.len() == 0 {
        after == before
    } else {
        exists|mid: Seq<Value>|
            #![trigger ops.last().steps(m, t, mid, after)]
            ops_run(m, ops.drop_last(), t, before, mid) && ops.last().steps(m, t, mid, after)
    }
}

/// A step of the operators neither adds nor removes a register.
pub proof fn lemma_run_keeps_len<A: Arith>(
    m: &A,
    ops: Seq<Operator>,
    t: Value,
    before: Seq<Value>,
    after: Seq<Value>,
)
    requires
        ops_run(m, ops, t, before, after),
    ensures
        after.len() == before.len(),
    decreases ops.len(),
{
    if ops.len() > 0 {
        let mid = choose|mid: Seq<Value>|
            #![trigger ops.last().steps(m, t, mid, after)]
            ops_run(m, ops.drop_last(), t, before, mid) && ops.last().steps(m, t, mid, after);
        lemma_run_keeps_len(m, ops.drop_last(), t, before, mid);
    }
}

/// The block of a new oscillator lies behind the registers that were
/// there, which keep their content; it is five registers long, and it
/// reads amp 1, phase 0, vert 0, freq 0.001, out 0.
pub proof fn lemma_sin_block_reads(regs: Seq<Value>)
    ensures
        (regs + sin_defaults()).len() == regs.len() + SIN_REGS,
        forall|i: int| 0 <= i < regs.len() ==> read(regs + sin_defaults(), i) == regs[i],
        read(regs + sin_defaults(), regs.len() as int) == ONE,
        read(regs + sin_defaults(), (regs.len() + 1) as int) == ZERO,
        read(regs + sin_defaults(), (regs.len() + 2) as int) == ZERO,
        read(regs + sin_defaults(), (regs.len() + 3) as int) == DEFAULT_FREQ,
        read(regs + sin_defaults(), (regs.len() + 4) as int) == ZERO,
{
}

/// What can go wrong while the simulation is built.
#[derive(Clone, Copy, Debug, PartialEq, Eq)]
pub enum SimError {
    /// An operator was asked for by a name that names no kind of operator.
    UnknownOperatorType,
    /// The position asked for lies past the end of the stepping order.
    PositionPastEnd,
    /// The register file cannot name the registers of one more block.
    RegisterFileFull,
}

/// The simulation: the register file and the operators that drive it, in
/// the order in which they are stepped.
pub struct Simulator {
    pub ops: Vec<Operator>,
    pub regs: RegisterFile,
}

impl Simulator {
    /// A simulation with no operator and no register.
    pub fn new() -> (sim: Self)
        ensures
            sim.ops@ == Seq::<Operator>::empty(),
            sim.regs@ == Seq::<Value>::empty(),
    {
        Simulator { ops: Vec::new(), regs: RegisterFile::new() }
    }

    /// Why an operator of the kind `kind` cannot be put at position
    /// `idx`, or `None` if it can: the name names no kind, or the position
    /// lies past the end of the list, or the indices of the block would
    /// leave the machine's integers.
    pub open spec fn refusal(&self, idx: usize, kind: Seq<char>) -> Option<SimError> {
        if !Operator::known(kind) {
            Some(SimError::UnknownOperatorType)
        } else if idx > self.ops@.len() {
            Some(SimError::PositionPastEnd)
        } else if self.regs@.len() + SIN_REGS > usize::MAX {
            Some(SimError::RegisterFileFull)
        } else {
            None
        }
    }

    /// Registers an operator of the kind `kind`: appends its block
    /// to the register file, filled with the defaults, puts the operator
    /// at position `idx` of the stepping order, and returns the register
    /// of its `out` port. Where that cannot be done the reason is handed
    /// back and nothing changes.
    pub fn new_op(&mut self, idx: usize, kind: &str) -> (out: Result<usize, SimError>)
        ensures
            old(self).refusal(idx, kind@) matches Some(e) ==> out == Err::<usize, SimError>(e)
                && final(self).ops@ == old(self).ops@ && final(self).regs@ == old(self).regs@,
            old(self).refusal(idx, kind@).is_none() ==> {
                let start = old(self).regs@.len() as int;
                &&& out == Ok::<usize, SimError>(sin_at(start).out)
                &&& final(self).regs@ == old(self).regs@ + sin_defaults()
                &&& final(self).ops@ == old(self).ops@.insert(
                    idx as int,
                    Operator::Sin(sin_at(start)),
                )
            },
    {
        let mut op = match Operator::by_name(kind) {
            Some(op) => op,
            None => {
                return Err(SimError::UnknownOperatorType);
            },
        };
        if idx > self.ops.len() {
            return Err(SimError::PositionPastEnd);
        }
        if self.regs.len() > usize::MAX - SIN_REGS {
            return Err(SimError::RegisterFileFull);
        }
        let start = self.regs.allocate(op.output_count());
        op.init_regs(start, &mut self.regs);
        assert(self.regs@ =~= old(self).regs@ + sin_defaults()) by {
            assert forall|i: int| 0 <= i < self.regs@.len() implies self.regs@[i] == (old(
                self,
            ).regs@ + sin_defaults())[i] by {
                if i >= start {
                    assert(self.regs@[i] == self.regs@.subrange(start as int, start + SIN_REGS)[i
                        - start]);
                }
            }
        }
        let out = match op {
            Operator::Sin(sin) => sin.out,
        };
        self.ops.insert(idx, op);
        Ok(out)
    }

    /// Steps every operator once, in the order of the list, at time `t`.
    /// An operator that reads what another wrote sees this step's value
    /// only if it stands after the other.
    pub fn step<A: Arith>(&mut self, t: Value, m: &A)
        ensures
            final(self).ops@ == old(self).ops@,
            ops_run(m, old(self).ops@, t, old(self).regs@, final(self).regs@),
    {
        let mut i: usize = 0;
        assert(old(self).ops@.take(0) =~= Seq::<Operator>::empty());
        while i < self.ops.len()
            invariant
                i <= self.ops@.len(),
                self.ops@ == old(self).ops@,
                ops_run(m, self.ops@.take(i as int), t, old(self).regs@, self.regs@),
            decreases self.ops@.len() - i,
        {
            let op = self.ops[i];
            let ghost mid = self.regs@;
            op.exec(t, &mut self.regs, m);
            proof {
                let done = self.ops@.take(i + 1);
                assert(done.drop_last() =~= self.ops@.take(i as int));
                assert(done.last() == op);
                assert(ops_run(m, done.drop_last(), t, old(self).regs@, mid));
            }
            i += 1;
        }
        assert(self.ops@.take(i as int) =~= self.ops@);
    }
}

} // verus!
