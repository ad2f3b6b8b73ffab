//! The register file: a flat, growable array of numbers, the only channel
//! between operators and the turtle interpreter.

use vstd::prelude::*;

verus! {

/// A number, held as the bit pattern of an IEEE 754 single-precision value.
pub type Value = u32;

/// The bit pattern of zero, which is what a fresh or a missing register reads as.
pub const ZERO: Value = 0;

/// The bit pattern of one.
pub const ONE: Value = 0x3f80_0000;

/// What register `idx` of `regs` reads as: its content, or zero where
/// `idx` lies outside the file.
pub open spec fn read(regs: Seq<Value>, idx: int) -> Value {
    if 0 <= idx < regs.len() {
        regs[idx]
    } else {
        ZERO
    }
}

/// `count` registers that all hold zero.
pub open spec fn zeros(count: nat) -> Seq<Value> {
    Seq::new(count, |i: int| ZERO)
}

/// A growable file of registers. Indices are handed out in rising order and
/// stay valid for as long as the file lives.
pub struct RegisterFile {
    regs: Vec<Value>,
}

impl View for RegisterFile {
    type V = Seq<Value>;

    closed spec fn view(&self) -> Seq<Value> {
        self.regs@
    }
}

impl RegisterFile {
    /// An empty file.
    pub fn new() -> (file: Self)
        ensures
            file@ == Seq::<Value>::empty(),
    {
        RegisterFile { regs: Vec::new() }
    }

    /// A file never holds more registers than an index can name.
    pub proof fn lemma_len_fits(&self)
        ensures
            self@.len() <= usize::MAX,
    {
        assert(self.regs.len() == self.regs@.len());
    }

    /// The number of registers.
    pub fn len(&self) -> (n: usize)
        ensures
            n == self@.len(),
    {
        self.regs.len()
    }

    /// Appends `count` zeroed registers and returns the index of the first.
    pub fn allocate(&mut self, count: usize) -> (start: usize)
        requires
            old(self)@.len() + count <= usize::MAX,
        ensures
            start == old(self)@.len(),
            final(self)@ == old(self)@ + zeros(count as nat),
    {
        let start = self.regs.len();
        self.regs.resize(start + count, ZERO);
        assert(self.regs@ =~= old(self)@ + zeros(count as nat));
        start
    }

    /// Reads register `idx`; a register outside the file reads as zero.
    pub fn get(&self, idx: usize) -> (v: Value)
        ensures
            v == read(self@, idx as int),
    {
        if idx < self.regs.len() {
            self.regs[idx]
        } else {
            ZERO
        }
    }

    /// Writes `v` to register `idx` and says whether it did: outside the
    /// file nothing is written.
    pub fn set(&mut self, idx: usize, v: Value) -> (written: bool)
        ensures
            written == (idx < old(self)@.len()),
            written ==> final(self)@ == old(self)@.update(idx as int, v),
            !written ==> final(self)@ == old(self)@,
    {
        if idx < self.regs.len() {
            self.regs[idx] = v;
            true
        } else {
            false
        }
    }
}

/// A register outside the file reads as zero and cannot be written.
pub proof fn lemma_out_of_range(regs: Seq<Value>, idx: int)
    requires
        idx >= regs.len(),
    ensures
        read(regs, idx) == ZERO,
{
}

/// Freshly allocated registers read as zero, and the ones that were there
/// before keep their content.
pub proof fn lemma_allocated_read_zero(regs: Seq<Value>, count: nat, idx: int)
    ensures
        (regs + zeros(count)).len() == regs.len() + count,
        regs.len() <= idx < regs.len() + count ==> read(regs + zeros(count), idx) == ZERO,
        0 <= idx < regs.len() ==> read(regs + zeros(count), idx) == regs[idx],
{
}

} // verus!
