use crate::fault::{overrun, overrun_at, Access, Fault};
use crate::memory::Memory;
use crate::operand::{Address, Constant, Register};
use crate::state::State;
use vstd::prelude::*;

verus! {

/// One decoded instruction with the operands it needs.
#[derive(Clone, Copy, Debug, PartialEq, Eq, Structural)]
pub enum Instruction {
    /// `0nnn`: call machine code at `nnn`. Recognised, never carried out.
    SysCall(Address),
    /// `00E0`: darken the whole display.
    ClearScreen,
    /// `00EE`: return from a subroutine.
    Return,
    /// `1nnn`: continue at `nnn`.
    Jump(Address),
    /// `2nnn`: call the subroutine at `nnn`.
    Call(Address),
    /// `3xkk`: skip the next instruction if `Vx == kk`.
    SkipIfEqual(Register, Constant),
    /// `4xkk`: skip the next instruction if `Vx != kk`.
    SkipIfNotEqual(Register, Constant),
    /// `5xy0`: skip the next instruction if `Vx == Vy`.
    SkipIfRegistersEqual(Register, Register),
    /// `6xkk`: `Vx = kk`.
    SetImmediate(Register, Constant),
    /// `7xkk`: `Vx = Vx + kk` modulo 256; the flag register is untouched.
    AddImmediate(Register, Constant),
    /// `8xy0`: `Vx = Vy`.
    SetRegister(Register, Register),
    /// `8xy1`: `Vx = Vx | Vy`.
    OrRegister(Register, Register),
    /// `8xy2`: `Vx = Vx & Vy`.
    AndRegister(Register, Register),
    /// `8xy3`: `Vx = Vx ^ Vy`.
    XorRegister(Register, Register),
    /// `8xy4`: `Vx = Vx + Vy` modulo 256; flag 1 on carry.
    AdcRegister(Register, Register),
    /// `8xy5`: `Vx = Vx - Vy` modulo 256; flag 1 when nothing was borrowed.
    SwbRegister(Register, Register),
    /// `8xy6`: `Vx` shifted right by one; flag gets the bit shifted out.
    ShrRegister(Register, Register),
    /// `8xy7`: `Vx = Vy - Vx` modulo 256; flag 1 when nothing was borrowed.
    ReverseSwbRegister(Register, Register),
    /// `8xyE`: `Vx` shifted left by one; flag gets the bit shifted out.
    ShlRegister(Register, Register),
    /// `9xy0`: skip the next instruction if `Vx != Vy`.
    SkipIfRegistersNotEqual(Register, Register),
    /// `Annn`: index register `= nnn`.
    StoreAddress(Address),
    /// `Bnnn`: continue at `nnn + V0`.
    JumpOffset(Address),
    /// `Cxkk`: `Vx =` a random byte `& kk`.
    StoreRandom(Register, Constant),
    /// `Dxyn`: draw the `n`-row sprite at the index register at `(Vx, Vy)`.
    DrawSprite(Register, Register, Constant),
    /// `Ex9E`: skip the next instruction if key `Vx` is held.
    SkipIfPressed(Register),
    /// `ExA1`: skip the next instruction if key `Vx` is not held.
    SkipIfNotPressed(Register),
    /// `Fx07`: `Vx =` delay timer.
    SetFromDelay(Register),
    /// `Fx0A`: wait until a key goes down, then `Vx =` its number.
    WaitKeyPress(Register),
    /// `Fx15`: delay timer `= Vx`.
    SetToDelay(Register),
    /// `Fx18`: sound timer `= Vx`.
    SetToSound(Register),
    /// `Fx1E`: index register `+= Vx`.
    AddAddress(Register),
    /// `Fx29`: index register `=` address of the glyph for digit `Vx`.
    SetAddressToSprite(Register),
    /// `Fx33`: store the three decimal digits of `Vx` at the index register.
    StoreBCD(Register),
    /// `Fx55`: store `V0..=Vx` at the index register.
    StoreRegisters(Register),
    /// `Fx65`: load `V0..=Vx` from the index register.
    LoadRegisters(Register),
}

impl Instruction {
    /// Every operand lies in its domain: register numbers below 16, addresses
    /// below 4096, sprite heights below 16.
    pub open spec fn wf(self) -> bool {
        match self {
            Instruction::SysCall(a) => a.wf(),
            Instruction::ClearScreen => true,
            Instruction::Return => true,
            Instruction::Jump(a) => a.wf(),
            Instruction::Call(a) => a.wf(),
            Instruction::SkipIfEqual(x, _) => x.wf(),
            Instruction::SkipIfNotEqual(x, _) => x.wf(),
            Instruction::SkipIfRegistersEqual(x, y) => x.wf() && y.wf(),
            Instruction::SetImmediate(x, _) => x.wf(),
            Instruction::AddImmediate(x, _) => x.wf(),
            Instruction::SetRegister(x, y) => x.wf() && y.wf(),
            Instruction::OrRegister(x, y) => x.wf() && y.wf(),
            Instruction::AndRegister(x, y) => x.wf() && y.wf(),
            Instruction::XorRegister(x, y) => x.wf() && y.wf(),
            Instruction::AdcRegister(x, y) => x.wf() && y.wf(),
            Instruction::SwbRegister(x, y) => x.wf() && y.wf(),
            Instruction::ShrRegister(x, y) => x.wf() && y.wf(),
            Instruction::ReverseSwbRegister(x, y) => x.wf() && y.wf(),
            Instruction::ShlRegister(x, y) => x.wf() && y.wf(),
            Instruction::SkipIfRegistersNotEqual(x, y) => x.wf() && y.wf(),
            Instruction::StoreAddress(a) => a.wf(),
            Instruction::JumpOffset(a) => a.wf(),
            Instruction::StoreRandom(x, _) => x.wf(),
            Instruction::DrawSprite(x, y, n) => x.wf() && y.wf() && n.0 < 16,
            Instruction::SkipIfPressed(x) => x.wf(),
            Instruction::SkipIfNotPressed(x) => x.wf(),
            Instruction::SetFromDelay(x) => x.wf(),
            Instruction::WaitKeyPress(x) => x.wf(),
            Instruction::SetToDelay(x) => x.wf(),
            Instruction::SetToSound(x) => x.wf(),
            Instruction::AddAddress(x) => x.wf(),
            Instruction::SetAddressToSprite(x) => x.wf(),
            Instruction::StoreBCD(x) => x.wf(),
            Instruction::StoreRegisters(x) => x.wf(),
            Instruction::LoadRegisters(x) => x.wf(),
        }
    }
}

/// The instruction word made of the bytes `hi` and `lo`, high byte first.
pub open spec fn word(hi: u8, lo: u8) -> u16 {
    (hi * 256 + lo) as u16
}

/// The instruction that the word `hi lo` encodes, if it encodes one.
///
/// With the word written as four hexadecimal digits `a b c d`: `x` is
/// register `b`, `y` is register `c`, `nnn` is the address `b c d`, and `kk`
/// is the byte `c d`.
pub open spec fn decode_word(hi: u8, lo: u8) -> Option<Instruction> {
    let a = hi / 16;
    let x = Register(hi % 16);
    let y = Register(lo / 16);
    let d = lo % 16;
    let nnn = Address(((hi % 16) * 256 + lo) as u16);
    let kk = Constant(lo);
    if a == 0 {
        if hi == 0 && lo == 0xe0 {
            Some(Instruction::ClearScreen)
        } else if hi == 0 && lo == 0xee {
            Some(Instruction::Return)
        } else {
            Some(Instruction::SysCall(nnn))
        }
    } else if a == 1 {
        Some(Instruction::Jump(nnn))
    } else if a == 2 {
        Some(Instruction::Call(nnn))
    } else if a == 3 {
        Some(Instruction::SkipIfEqual(x, kk))
    } else if a == 4 {
        Some(Instruction::SkipIfNotEqual(x, kk))
    } else if a == 5 {
        if d == 0 {
            Some(Instruction::SkipIfRegistersEqual(x, y))
        } else {
            None
        }
    } else if a == 6 {
        Some(Instruction::SetImmediate(x, kk))
    } else if a == 7 {
        Some(Instruction::AddImmediate(x, kk))
    } else if a == 8 {
        if d == 0 {
            Some(Instruction::SetRegister(x, y))
        } else if d == 1 {
            Some(Instruction::OrRegister(x, y))
        } else if d == 2 {
            Some(Instruction::AndRegister(x, y))
        } else if d == 3 {
            Some(Instruction::XorRegister(x, y))
        } else if d == 4 {
            Some(Instruction::AdcRegister(x, y))
        } else if d == 5 {
            Some(Instruction::SwbRegister(x, y))
        } else if d == 6 {
            Some(Instruction::ShrRegister(x, y))
        } else if d == 7 {
            Some(Instruction::ReverseSwbRegister(x, y))
        } else if d == 0xe {
            Some(Instruction::ShlRegister(x, y))
        } else {
            None
        }
    } else if a == 9 {
        if d == 0 {
            Some(Instruction::SkipIfRegistersNotEqual(x, y))
        } else {
            None
        }
    } else if a == 0xa {
        Some(Instruction::StoreAddress(nnn))
    } else if a == 0xb {
        Some(Instruction::JumpOffset(nnn))
    } else if a == 0xc {
        Some(Instruction::StoreRandom(x, kk))
    } else if a == 0xd {
        Some(Instruction::DrawSprite(x, y, Constant(d)))
    } else if a == 0xe {
        if lo == 0x9e {
            Some(Instruction::SkipIfPressed(x))
        } else if lo == 0xa1 {
            Some(Instruction::SkipIfNotPressed(x))
        } else {
            None
        }
    } else {
        if lo == 0x07 {
            Some(Instruction::SetFromDelay(x))
        } else if lo == 0x0a {
            Some(Instruction::WaitKeyPress(x))
        } else if lo == 0x15 {
            Some(Instruction::SetToDelay(x))
        } else if lo == 0x18 {
            Some(Instruction::SetToSound(x))
        } else if lo == 0x1e {
            Some(Instruction::AddAddress(x))
        } else if lo == 0x29 {
            Some(Instruction::SetAddressToSprite(x))
        } else if lo == 0x33 {
            Some(Instruction::StoreBCD(x))
        } else if lo == 0x55 {
            Some(Instruction::StoreRegisters(x))
        } else if lo == 0x65 {
            Some(Instruction::LoadRegisters(x))
        } else {
            None
        }
    }
}

/// What decoding at program counter `pc` gives: the instruction encoded by
/// the two bytes there; a bounds fault when they do not both lie inside
/// memory; a decode fault, with the word and its address, when the word
/// encodes nothing.
pub open spec fn decode_at(pc: u16, mem: Seq<u8>) -> Result<Instruction, Fault> {
    if pc > 4094 {
        Err(overrun(pc as int, Access::Fetch))
    } else {
        match decode_word(mem[pc as int], mem[pc + 1]) {
            Some(i) => Ok(i),
            None => Err(Fault::Decode { at: pc, opcode: word(mem[pc as int], mem[pc + 1]) }),
        }
    }
}

/// Whatever a word decodes to has its operands in their domains.
pub proof fn lemma_decoded_wf(hi: u8, lo: u8)
    ensures
        decode_word(hi, lo) matches Some(i) ==> i.wf(),
{
}

impl Instruction {
    /// Decodes the word made of `hi` and `lo`, high byte first. `None` when
    /// the word encodes no instruction.
    pub fn from_word(hi: u8, lo: u8) -> (r: Option<Instruction>)
        ensures
            r == decode_word(hi, lo),
            r matches Some(i) ==> i.wf(),
    {
        let a: u8 = (hi & 0xf0) >> 4;
        let b: u8 = hi & 0x0f;
        let c: u8 = (lo & 0xf0) >> 4;
        let d: u8 = lo & 0x0f;
        let target: u16 = ((b as u16) << 8) | (lo as u16);
        assert(a == hi / 16 && b == hi % 16) by (bit_vector)
            requires
                a == (hi & 0xf0) >> 4,
                b == hi & 0x0f,
        ;
        assert(c == lo / 16 && d == lo % 16) by (bit_vector)
            requires
                c == (lo & 0xf0) >> 4,
                d == lo & 0x0f,
        ;
        assert(target == b * 256 + lo) by (bit_vector)
            requires
                b < 16,
                target == ((b as u16) << 8) | (lo as u16),
        ;
        proof {
            lemma_decoded_wf(hi, lo);
        }
        let x = Register(b);
        let y = Register(c);
        let nnn = Address(target);
        let kk = Constant(lo);
        match a {
            0 => {
                if hi == 0 && lo == 0xe0 {
                    Some(Instruction::ClearScreen)
                } else if hi == 0 && lo == 0xee {
                    Some(Instruction::Return)
                } else {
                    Some(Instruction::SysCall(nnn))
                }
            },
            1 => Some(Instruction::Jump(nnn)),
            2 => Some(Instruction::Call(nnn)),
            3 => Some(Instruction::SkipIfEqual(x, kk)),
            4 => Some(Instruction::SkipIfNotEqual(x, kk)),
            5 => {
                if d == 0 {
                    Some(Instruction::SkipIfRegistersEqual(x, y))
                } else {
                    None
                }
            },
            6 => Some(Instruction::SetImmediate(x, kk)),
            7 => Some(Instruction::AddImmediate(x, kk)),
            8 => {
                match d {
                    0 => Some(Instruction::SetRegister(x, y)),
                    1 => Some(Instruction::OrRegister(x, y)),
                    2 => Some(Instruction::AndRegister(x, y)),
                    3 => Some(Instruction::XorRegister(x, y)),
                    4 => Some(Instruction::AdcRegister(x, y)),
                    5 => Some(Instruction::SwbRegister(x, y)),
                    6 => Some(Instruction::ShrRegister(x, y)),
                    7 => Some(Instruction::ReverseSwbRegister(x, y)),
                    0xe => Some(Instruction::ShlRegister(x, y)),
                    _ => None,
                }
            },
            9 => {
                if d == 0 {
                    Some(Instruction::SkipIfRegistersNotEqual(x, y))
                } else {
                    None
                }
            },
            0xa => Some(Instruction::StoreAddress(nnn)),
            0xb => Some(Instruction::JumpOffset(nnn)),
            0xc => Some(Instruction::StoreRandom(x, kk)),
            0xd => Some(Instruction::DrawSprite(x, y, Constant(d))),
            0xe => {
                match lo {
                    0x9e => Some(Instruction::SkipIfPressed(x)),
                    0xa1 => Some(Instruction::SkipIfNotPressed(x)),
                    _ => None,
                }
            },
            _ => {
                match lo {
                    0x07 => Some(Instruction::SetFromDelay(x)),
                    0x0a => Some(Instruction::WaitKeyPress(x)),
                    0x15 => Some(Instruction::SetToDelay(x)),
                    0x18 => Some(Instruction::SetToSound(x)),
                    0x1e => Some(Instruction::AddAddress(x)),
                    0x29 => Some(Instruction::SetAddressToSprite(x)),
                    0x33 => Some(Instruction::StoreBCD(x)),
                    0x55 => Some(Instruction::StoreRegisters(x)),
                    0x65 => Some(Instruction::LoadRegisters(x)),
                    _ => None,
                }
            },
        }
    }

    /// Decodes the instruction at the program counter.
    ///
    /// Fails with a bounds fault when the two bytes at the program counter do
    /// not both lie inside memory, and with a decode fault, naming the word
    /// and its address, when the word encodes no instruction.
    pub fn decode(state: &State, mem: &Memory) -> (r: Result<Instruction, Fault>)
        ensures
            r == decode_at(state.pc, mem@),
            r matches Ok(i) ==> i.wf(),
    {
        if state.pc > 4094 {
            return Err(overrun_at(state.pc as usize, Access::Fetch));
        }
        let hi = mem.mem[state.pc as usize];
        let lo = mem.mem[state.pc as usize + 1];
        match Instruction::from_word(hi, lo) {
            Some(i) => Ok(i),
            None => Err(Fault::Decode { at: state.pc, opcode: hi as u16 * 256 + lo as u16 }),
        }
    }
}

} // verus!
