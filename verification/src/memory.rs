use crate::fault::{overrun, overrun_at, Access, Fault};
use vstd::prelude::*;
use vstd::slice::slice_subrange;

verus! {

/// The sixteen built-in glyphs for the hexadecimal digits, five bytes each.
pub const FONT: [u8; 80] = [
    0xf0, 0x90, 0x90, 0x90, 0xf0,
    0x20, 0x60, 0x20, 0x20, 0x70,
    0xf0, 0x10, 0xf0, 0x80, 0xf0,
    0xf0, 0x10, 0xf0, 0x10, 0xf0,
    0x90, 0x90, 0xf0, 0x10, 0x10,
    0xf0, 0x80, 0xf0, 0x10, 0xf0,
    0xf0, 0x80, 0xf0, 0x90, 0xf0,
    0xf0, 0x10, 0x20, 0x40, 0x40,
    0xf0, 0x90, 0xf0, 0x90, 0xf0,
    0xf0, 0x90, 0xf0, 0x10, 0xf0,
    0xf0, 0x90, 0xf0, 0x90, 0x90,
    0xe0, 0x90, 0xe0, 0x90, 0xe0,
    0xf0, 0x80, 0x80, 0x80, 0xf0,
    0xe0, 0x90, 0x90, 0x90, 0xe0,
    0xf0, 0x80, 0xf0, 0x80, 0xf0,
    0xf0, 0x80, 0xf0, 0x80, 0x80,
];

/// `mem` with `bytes` laid over it from index `at` on.
pub open spec fn splice(mem: Seq<u8>, at: int, bytes: Seq<u8>) -> Seq<u8> {
    Seq::new(
        mem.len(),
        |i: int|
            if at <= i < at + bytes.len() {
                bytes[i - at]
            } else {
                mem[i]
            },
    )
}

/// What reading the byte at `addr` gives.
pub open spec fn read_at(mem: Seq<u8>, addr: int) -> Result<u8, Fault> {
    if 0 <= addr < 4096 {
        Ok(mem[addr])
    } else {
        Err(Fault::Bounds { address: addr as usize, access: Access::Read })
    }
}

/// 4096 bytes of flat memory. The view is the sequence of its bytes.
#[derive(Clone, Debug, PartialEq, Eq)]
pub struct Memory {
    pub mem: [u8; 4096],
}

impl View for Memory {
    type V = Seq<u8>;

    open spec fn view(&self) -> Seq<u8> {
        self.mem@
    }
}

impl Memory {
    /// Memory filled with zeros.
    pub fn new() -> (m: Memory)
        ensures
            m@ == Seq::new(4096, |i: int| 0u8),
    {
        let m = Memory { mem: [0u8; 4096] };
        assert(m@ =~= Seq::new(4096, |i: int| 0u8));
        m
    }

    /// Reads one byte; fails outside `0..4096`.
    pub fn read(&self, addr: usize) -> (r: Result<u8, Fault>)
        ensures
            r == read_at(self@, addr as int),
    {
        if addr < 4096 {
            Ok(self.mem[addr])
        } else {
            Err(Fault::Bounds { address: addr, access: Access::Read })
        }
    }

    /// The `len` bytes from `addr` on; fails when they do not all lie inside memory.
    pub fn block(&self, addr: usize, len: usize) -> (r: Result<&[u8], Fault>)
        ensures
            addr + len <= 4096 ==> (r matches Ok(s) && s@ == self@.subrange(
                addr as int,
                addr + len,
            )),
            addr + len > 4096 ==> r == Err::<&[u8], Fault>(overrun(addr as int, Access::Read)),
    {
        if len > 4096 || addr > 4096 - len {
            Err(overrun_at(addr, Access::Read))
        } else {
            Ok(slice_subrange(self.mem.as_slice(), addr, addr + len))
        }
    }

    /// Writes one byte; fails outside `0..4096` and then changes nothing.
    pub fn write(&mut self, addr: usize, value: u8) -> (r: Result<(), Fault>)
        ensures
            addr < 4096 ==> r is Ok && final(self)@ == old(self)@.update(addr as int, value),
            addr >= 4096 ==> r == Err::<(), Fault>(
                Fault::Bounds { address: addr, access: Access::Write },
            ) && final(self)@ == old(self)@,
    {
        if addr < 4096 {
            self.mem[addr] = value;
            Ok(())
        } else {
            Err(Fault::Bounds { address: addr, access: Access::Write })
        }
    }

    /// Copies `bytes` to `addr..addr + bytes.len()`. Fails, changing nothing,
    /// when that range does not lie inside memory.
    pub fn load(&mut self, addr: usize, bytes: &[u8]) -> (r: Result<(), Fault>)
        ensures
            addr + bytes@.len() <= 4096 ==> r is Ok && final(self)@ == splice(
                old(self)@,
                addr as int,
                bytes@,
            ),
            addr + bytes@.len() > 4096 ==> r == Err::<(), Fault>(
                overrun(addr as int, Access::Write),
            ) && final(self)@ == old(self)@,
    {
        let n = bytes.len();
        if n > 4096 || addr > 4096 - n {
            return Err(overrun_at(addr, Access::Write));
        }
        let mut i: usize = 0;
        while i < n
            invariant
                i <= n,
                n == bytes@.len(),
                addr + n <= 4096,
                self@ == splice(old(self)@, addr as int, bytes@.take(i as int)),
            decreases n - i,
        {
            self.mem[addr + i] = bytes[i];
            i += 1;
        }
        assert(bytes@.take(n as int) =~= bytes@);
        Ok(())
    }

    /// Puts the built-in glyphs at `0..80`; glyph `g` then starts at `5 * g`.
    pub fn install_font(&mut self)
        ensures
            final(self)@ == splice(old(self)@, 0, FONT@),
    {
        let mut i: usize = 0;
        while i < 80
            invariant
                i <= 80,
                self@ == splice(old(self)@, 0, FONT@.take(i as int)),
            decreases 80 - i,
        {
            self.mem[i] = FONT[i];
            i += 1;
        }
        assert(FONT@.take(80) =~= FONT@);
    }
}

impl Default for Memory {
    fn default() -> (m: Memory)
        ensures
            m@ == Seq::new(4096, |i: int| 0u8),
    {
        Memory::new()
    }
}

} // verus!
