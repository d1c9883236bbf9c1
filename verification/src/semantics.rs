use crate::fault::{overrun, Access, Fault};
use crate::instruction::{decode_at, Instruction};
use crate::keypad::Keypad;
use crate::memory::{splice, Memory};
use crate::operand::Register;
use crate::screen::{blank, collides, drawn, Framebuffer};
use crate::state::State;
use crate::timer::Timer;
use vstd::prelude::*;

verus! {

/// The whole machine as mathematics: what an instruction reads and what it
/// may change.
#[verifier::ext_equal]
pub struct Model {
    /// Program counter.
    pub pc: u16,
    /// Index register.
    pub index: u16,
    /// The sixteen general registers.
    pub v: Seq<u8>,
    /// Return addresses, innermost call last.
    pub stack: Seq<u16>,
    /// The halt flag.
    pub finished: bool,
    /// The 4096 bytes of memory.
    pub mem: Seq<u8>,
    /// The 2048 display cells, row by row.
    pub screen: Seq<bool>,
    /// The two counters and the time of their last decrement.
    pub timer: Timer,
}

/// Where execution continues when it is sent to `target`: there, if an
/// instruction word fits there; otherwise nowhere, and the fetch is a fault.
pub open spec fn landing(target: int) -> Result<u16, Fault> {
    if 0 <= target <= 4094 {
        Ok(target as u16)
    } else {
        Err(overrun(target, Access::Fetch))
    }
}

/// The three decimal digits of `value`, hundreds first.
pub open spec fn digits(value: u8) -> Seq<u8> {
    seq![value / 100, (value / 10) % 10, value % 10]
}

impl Model {
    /// The model of the four parts of a machine.
    pub open spec fn of(s: State, mem: Memory, screen: Framebuffer, timer: Timer) -> Model {
        Model {
            pc: s.pc,
            index: s.index,
            v: s.v@,
            stack: s.stack@,
            finished: s.finished,
            mem: mem@,
            screen: screen@,
            timer,
        }
    }

    /// The invariant of a running machine: an instruction word fits at the
    /// program counter, the index register is a 12-bit address, the stack
    /// holds at most sixteen frames, and registers, memory and display have
    /// their fixed sizes.
    pub open spec fn wf(self) -> bool {
        &&& self.pc <= 4094
        &&& self.index <= 4095
        &&& self.v.len() == 16
        &&& self.stack.len() <= 16
        &&& self.mem.len() == 4096
        &&& self.screen.len() == 2048
    }

    /// The value of register `r`.
    pub open spec fn reg(self, r: Register) -> u8 {
        self.v[r.0 as int]
    }

    /// Register `r` set to `value`.
    pub open spec fn with_reg(self, r: Register, value: u8) -> Model {
        Model { v: self.v.update(r.0 as int, value), ..self }
    }

    /// The flag register set to 1 or 0.
    pub open spec fn with_flag(self, flag: bool) -> Model {
        Model {
            v: self.v.update(
                15,
                if flag {
                    1u8
                } else {
                    0u8
                },
            ),
            ..self
        }
    }

    /// Execution continues at `target`.
    pub open spec fn goto(self, target: int) -> Result<Model, Fault> {
        match landing(target) {
            Ok(pc) => Ok(Model { pc, ..self }),
            Err(f) => Err(f),
        }
    }

    /// Execution continues with the instruction that follows.
    pub open spec fn next(self) -> Result<Model, Fault> {
        self.goto(self.pc + 2)
    }

    /// Execution skips the instruction that follows if `jump_over` holds.
    pub open spec fn skip_if(self, jump_over: bool) -> Result<Model, Fault> {
        self.goto(
            if jump_over {
                self.pc + 4
            } else {
                self.pc + 2
            },
        )
    }
}

/// The effect of one instruction.
///
/// `Ok` holds the machine afterwards; `Err` means the instruction faulted,
/// and a faulting instruction changes nothing. `keys` is the keypad as last
/// polled and `random` the byte that the random-byte instruction uses.
///
/// Choices made where the instruction set leaves room:
/// - an instruction only runs where it could have been fetched, and it may
///   only send execution to where an instruction word fits;
/// - the shifts shift `Vx` in place and ignore `Vy`;
/// - when the destination of an arithmetic instruction is the flag register,
///   the flag is what stays;
/// - adding to the index register wraps at 4096;
/// - asking for the glyph of a value above 15 leaves the index register as it is;
/// - sprites wrap around the edges of the display;
/// - waiting for a key repeats the instruction until a key goes down;
/// - the register block instructions leave the index register as it is.
pub open spec fn step(m: Model, i: Instruction, keys: Keypad, random: u8) -> Result<Model, Fault> {
    if m.pc > 4094 {
        Err(overrun(m.pc as int, Access::Fetch))
    } else {
        match i {
            Instruction::SysCall(a) => Err(Fault::Unsupported { at: m.pc, opcode: a.0 }),
            Instruction::ClearScreen => Model { screen: blank(), ..m }.next(),
            Instruction::Return => if m.stack.len() == 0 {
                Err(Fault::Stack { at: m.pc, depth: 0 })
            } else {
                Model { stack: m.stack.drop_last(), ..m }.goto(m.stack.last() as int)
            },
            Instruction::Jump(a) => m.goto(a.0 as int),
            Instruction::Call(a) => if m.stack.len() >= 16 {
                Err(Fault::Stack { at: m.pc, depth: m.stack.len() as usize })
            } else {
                Model { stack: m.stack.push((m.pc + 2) as u16), ..m }.goto(a.0 as int)
            },
            Instruction::SkipIfEqual(x, c) => m.skip_if(m.reg(x) == c.0),
            Instruction::SkipIfNotEqual(x, c) => m.skip_if(m.reg(x) != c.0),
            Instruction::SkipIfRegistersEqual(x, y) => m.skip_if(m.reg(x) == m.reg(y)),
            Instruction::SetImmediate(x, c) => m.with_reg(x, c.0).next(),
            Instruction::AddImmediate(x, c) => m.with_reg(x, ((m.reg(x) + c.0) % 256) as u8).next(),
            Instruction::SetRegister(x, y) => m.with_reg(x, m.reg(y)).next(),
            Instruction::OrRegister(x, y) => m.with_reg(x, m.reg(x) | m.reg(y)).next(),
            Instruction::AndRegister(x, y) => m.with_reg(x, m.reg(x) & m.reg(y)).next(),
            Instruction::XorRegister(x, y) => m.with_reg(x, m.reg(x) ^ m.reg(y)).next(),
            Instruction::AdcRegister(x, y) => m.with_reg(
                x,
                ((m.reg(x) + m.reg(y)) % 256) as u8,
            ).with_flag(m.reg(x) + m.reg(y) > 255).next(),
            Instruction::SwbRegister(x, y) => m.with_reg(
                x,
                ((m.reg(x) - m.reg(y)) % 256) as u8,
            ).with_flag(m.reg(x) >= m.reg(y)).next(),
            Instruction::ShrRegister(x, _) => m.with_reg(x, m.reg(x) / 2).with_flag(
                m.reg(x) % 2 == 1,
            ).next(),
            Instruction::ReverseSwbRegister(x, y) => m.with_reg(
                x,
                ((m.reg(y) - m.reg(x)) % 256) as u8,
            ).with_flag(m.reg(y) >= m.reg(x)).next(),
            Instruction::ShlRegister(x, _) => m.with_reg(
                x,
                ((m.reg(x) * 2) % 256) as u8,
            ).with_flag(m.reg(x) >= 128).next(),
            Instruction::SkipIfRegistersNotEqual(x, y) => m.skip_if(m.reg(x) != m.reg(y)),
            Instruction::StoreAddress(a) => Model { index: a.0, ..m }.next(),
            Instruction::JumpOffset(a) => m.goto(a.0 + m.v[0]),
            Instruction::StoreRandom(x, c) => m.with_reg(x, random & c.0).next(),
            Instruction::DrawSprite(x, y, n) => if m.index + n.0 > 4096 {
                Err(overrun(m.index as int, Access::Read))
            } else {
                let rows = m.mem.subrange(m.index as int, m.index + n.0);
                Model { screen: drawn(m.screen, rows, m.reg(x), m.reg(y)), ..m }.with_flag(
                    collides(m.screen, rows, m.reg(x), m.reg(y)),
                ).next()
            },
            Instruction::SkipIfPressed(x) => m.skip_if(keys.pressed(m.reg(x))),
            Instruction::SkipIfNotPressed(x) => m.skip_if(!keys.pressed(m.reg(x))),
            Instruction::SetFromDelay(x) => m.with_reg(x, m.timer.delay_value).next(),
            Instruction::WaitKeyPress(x) => match keys.struck() {
                Some(k) => m.with_reg(x, k).next(),
                None => Ok(m),
            },
            Instruction::SetToDelay(x) => Model {
                timer: Timer { delay_value: m.reg(x), ..m.timer },
                ..m
            }.next(),
            Instruction::SetToSound(x) => Model {
                timer: Timer { sound_value: m.reg(x), ..m.timer },
                ..m
            }.next(),
            Instruction::AddAddress(x) => Model {
                index: ((m.index + m.reg(x)) % 4096) as u16,
                ..m
            }.next(),
            Instruction::SetAddressToSprite(x) => if m.reg(x) <= 15 {
                Model { index: (5 * m.reg(x)) as u16, ..m }.next()
            } else {
                m.next()
            },
            Instruction::StoreBCD(x) => if m.index + 3 > 4096 {
                Err(overrun(m.index as int, Access::Write))
            } else {
                Model { mem: splice(m.mem, m.index as int, digits(m.reg(x))), ..m }.next()
            },
            Instruction::StoreRegisters(x) => if m.index + x.0 + 1 > 4096 {
                Err(overrun(m.index as int, Access::Write))
            } else {
                Model { mem: splice(m.mem, m.index as int, m.v.take(x.0 + 1)), ..m }.next()
            },
            Instruction::LoadRegisters(x) => if m.index + x.0 + 1 > 4096 {
                Err(overrun(m.index as int, Access::Read))
            } else {
                Model {
                    v: splice(m.v, 0, m.mem.subrange(m.index as int, m.index + x.0 + 1)),
                    ..m
                }.next()
            },
        }
    }
}

/// An execution that found the machine as `pre`, left it as `post` and
/// returned `r` did what `outcome` says: on `Ok` it left the machine as told;
/// on `Err` it returned that fault and changed nothing.
pub open spec fn realised(
    outcome: Result<Model, Fault>,
    pre: Model,
    post: Model,
    r: Result<(), Fault>,
) -> bool {
    match outcome {
        Ok(m) => r is Ok && post == m,
        Err(f) => r == Err::<(), Fault>(f) && post == pre,
    }
}

/// One turn of the engine at clock reading `now`: the machine afterwards, and
/// what the engine reports.
///
/// A finished machine stays as it is. Otherwise the timers are polled, the
/// instruction at the program counter is decoded and carried out. `Ok(true)`
/// asks for the display to be refreshed, which happens exactly when the
/// timers were decremented. A fault sets the halt flag and is reported; the
/// faulting instruction itself changes nothing.
pub open spec fn cycle(m: Model, now: u64, keys: Keypad, random: u8) -> (Model, Result<bool, Fault>) {
    if m.finished {
        (m, Ok(false))
    } else {
        let polled = Model { timer: m.timer.ticked(now), ..m };
        match decode_at(polled.pc, polled.mem) {
            Err(f) => (Model { finished: true, ..polled }, Err(f)),
            Ok(i) => match step(polled, i, keys, random) {
                Err(f) => (Model { finished: true, ..polled }, Err(f)),
                Ok(after) => (after, Ok(m.timer.due(now))),
            },
        }
    }
}

} // verus!
