use vstd::prelude::*;

verus! {

/// Number of addressable bytes.
pub const MEMORY_SIZE: usize = 4096;

/// Where a loaded program starts, and where execution begins.
pub const PROGRAM_START: u16 = 0x200;

/// The largest program that fits between `PROGRAM_START` and the end of memory.
pub const MAX_PROGRAM: usize = 3584;

/// The highest address at which a two-byte instruction word still lies inside memory.
pub const LAST_FETCH: u16 = 4094;

/// Display width in pixels.
pub const WIDTH: usize = 64;

/// Display height in pixels.
pub const HEIGHT: usize = 32;

/// Number of display cells, `WIDTH * HEIGHT`.
pub const PIXELS: usize = 2048;

/// Number of return addresses the stack can hold.
pub const STACK_LIMIT: usize = 16;

/// Index of the register that receives carry, borrow, shifted-out bits and collisions.
pub const VF: u8 = 0xf;

/// Bytes per built-in glyph.
pub const GLYPH_BYTES: u16 = 5;

/// Microseconds between two timer decrements (60 Hz).
pub const TICK_MICROS: u64 = 16600;

/// A 12-bit memory address or jump target.
#[derive(Clone, Copy, Debug, Default, PartialEq, Eq, Structural)]
pub struct Address(pub u16);

/// The number of a general register, `0..=15`.
#[derive(Clone, Copy, Debug, Default, PartialEq, Eq, Structural)]
pub struct Register(pub u8);

/// An 8-bit immediate or register value.
#[derive(Clone, Copy, Debug, Default, PartialEq, Eq, Structural)]
pub struct Constant(pub u8);

impl Address {
    /// The address fits in twelve bits.
    pub open spec fn wf(self) -> bool {
        self.0 < 4096
    }
}

impl Register {
    /// The number names one of the sixteen registers.
    pub open spec fn wf(self) -> bool {
        self.0 < 16
    }
}

} // verus!
