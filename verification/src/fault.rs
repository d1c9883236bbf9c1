use vstd::prelude::*;

verus! {

/// What a memory access was for.
#[derive(Clone, Copy, Debug, PartialEq, Eq, Structural)]
pub enum Access {
    /// Reading an instruction word at the program counter.
    Fetch,
    /// Reading data.
    Read,
    /// Writing data.
    Write,
}

/// A fatal condition. Each one stops the machine; none is retried.
#[derive(Clone, Copy, Debug, PartialEq, Eq, Structural)]
pub enum Fault {
    /// The word `opcode`, fetched at `at`, matches no instruction.
    Decode { at: u16, opcode: u16 },
    /// The word `opcode`, fetched at `at`, is a machine-code call, which is
    /// recognised but never carried out.
    Unsupported { at: u16, opcode: u16 },
    /// The instruction at `at` called with a full stack or returned with an
    /// empty one; `depth` is the number of frames at that moment.
    Stack { at: u16, depth: usize },
    /// An access would have touched `address`, which lies outside memory.
    Bounds { address: usize, access: Access },
}

/// The first address at or after `base` that lies outside memory.
pub open spec fn beyond(base: int) -> int {
    if base >= 4096 {
        base
    } else {
        4096
    }
}

/// The fault raised when a block starting at `base` runs past the end of memory.
pub open spec fn overrun(base: int, access: Access) -> Fault {
    Fault::Bounds { address: beyond(base) as usize, access }
}

/// Exec counterpart of [`overrun`].
pub fn overrun_at(base: usize, access: Access) -> (f: Fault)
    ensures
        f == overrun(base as int, access),
{
    if base >= 4096 {
        Fault::Bounds { address: base, access }
    } else {
        Fault::Bounds { address: 4096, access }
    }
}

} // verus!
