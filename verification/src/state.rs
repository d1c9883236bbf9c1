use crate::operand::{Constant, Register};
use vstd::prelude::*;

verus! {

/// The processor's own state: program counter, index register, the sixteen
/// general registers, the return stack and the halt flag.
#[derive(Clone, Debug, PartialEq, Eq)]
pub struct State {
    /// Address of the next instruction.
    pub pc: u16,
    /// Set once a fatal condition has stopped the machine.
    pub finished: bool,
    /// The index register, the base address of memory and sprite operations.
    pub index: u16,
    /// Return addresses, innermost call last.
    pub stack: Vec<u16>,
    /// The general registers; `v[15]` doubles as the flag register.
    pub v: [u8; 16],
}

impl State {
    /// The state is one a running machine can be in: an instruction word fits
    /// at the program counter, the index register is a 12-bit address and the
    /// stack holds at most sixteen frames.
    pub open spec fn wf(self) -> bool {
        &&& self.pc <= 4094
        &&& self.index <= 4095
        &&& self.stack@.len() <= 16
    }

    /// The state at power-on: program counter at 0x200, everything else zero or empty.
    pub open spec fn initial(self) -> bool {
        &&& self.pc == 0x200
        &&& !self.finished
        &&& self.index == 0
        &&& self.stack@ == Seq::<u16>::empty()
        &&& self.v@ == Seq::new(16, |i: int| 0u8)
    }

    /// The power-on state.
    pub fn new() -> (s: State)
        ensures
            s.initial(),
            s.wf(),
    {
        let s = State { pc: 0x200, finished: false, index: 0, stack: Vec::new(), v: [0u8; 16] };
        assert(s.v@ =~= Seq::new(16, |i: int| 0u8));
        s
    }

    /// The value of register `r`.
    pub fn get(&self, r: Register) -> (c: Constant)
        requires
            r.wf(),
        ensures
            c.0 == self.v@[r.0 as int],
    {
        Constant(self.v[r.0 as usize])
    }

    /// Sets register `r` to `c` and leaves everything else alone.
    pub fn set(&mut self, r: Register, c: Constant)
        requires
            r.wf(),
        ensures
            final(self).v@ == old(self).v@.update(r.0 as int, c.0),
            final(self).pc == old(self).pc,
            final(self).finished == old(self).finished,
            final(self).index == old(self).index,
            final(self).stack == old(self).stack,
    {
        self.v[r.0 as usize] = c.0;
    }

    /// The number of frames on the return stack.
    pub fn depth(&self) -> (n: usize)
        ensures
            n == self.stack@.len(),
    {
        self.stack.len()
    }
}

impl Default for State {
    fn default() -> (s: State)
        ensures
            s.initial(),
            s.wf(),
    {
        State::new()
    }
}

} // verus!
