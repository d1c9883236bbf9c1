use crate::entropy::random_byte;
use crate::fault::{overrun_at, Access, Fault};
use crate::instruction::Instruction;
use crate::keypad::Keypad;
use crate::laws::{lemma_random_byte_matters_once, lemma_step_keeps_invariant};
use crate::memory::{splice, Memory};
use crate::operand::Register;
use crate::screen::Framebuffer;
use crate::semantics::{digits, landing, realised, step, Model};
use crate::state::State;
use crate::timer::Timer;
use vstd::prelude::*;

verus! {

/// Checks that an instruction word fits at `target`.
fn land(target: u32) -> (r: Result<u16, Fault>)
    ensures
        r == landing(target as int),
{
    if target <= 4094 {
        Ok(target as u16)
    } else {
        Err(overrun_at(target as usize, Access::Fetch))
    }
}

/// The state with only the program counter changed.
spec fn moved(s: State, pc: u16) -> State {
    State { pc, ..s }
}

/// Sends execution to `target`, or faults and changes nothing.
fn jump(s: &mut State, target: u32) -> (r: Result<(), Fault>)
    ensures
        match landing(target as int) {
            Ok(pc) => r is Ok && *final(s) == moved(*old(s), pc),
            Err(f) => r == Err::<(), Fault>(f) && *final(s) == *old(s),
        },
{
    match land(target) {
        Ok(pc) => {
            s.pc = pc;
            Ok(())
        },
        Err(f) => Err(f),
    }
}

/// Goes on with the next instruction, or with the one after it.
fn skip(s: &mut State, jump_over: bool) -> (r: Result<(), Fault>)
    requires
        old(s).pc <= 4094,
    ensures
        match landing(
            if jump_over {
                old(s).pc + 4
            } else {
                old(s).pc + 2
            },
        ) {
            Ok(pc) => r is Ok && *final(s) == moved(*old(s), pc),
            Err(f) => r == Err::<(), Fault>(f) && *final(s) == *old(s),
        },
{
    let target: u32 = if jump_over {
        s.pc as u32 + 4
    } else {
        s.pc as u32 + 2
    };
    jump(s, target)
}

/// The registers after `value` went to register `x` and then, if there is
/// one, the flag to the flag register.
spec fn written(v: Seq<u8>, x: Register, value: u8, flag: Option<bool>) -> Seq<u8> {
    match flag {
        Some(f) => v.update(x.0 as int, value).update(
            15,
            if f {
                1u8
            } else {
                0u8
            },
        ),
        None => v.update(x.0 as int, value),
    }
}

/// Stores a result and goes on with the next instruction, or faults and
/// changes nothing.
fn write_back(s: &mut State, x: Register, value: u8, flag: Option<bool>) -> (r: Result<(), Fault>)
    requires
        x.wf(),
        old(s).pc <= 4094,
    ensures
        match landing(old(s).pc + 2) {
            Ok(pc) => {
                &&& r is Ok
                &&& final(s).pc == pc
                &&& final(s).v@ == written(old(s).v@, x, value, flag)
                &&& final(s).index == old(s).index
                &&& final(s).stack == old(s).stack
                &&& final(s).finished == old(s).finished
            },
            Err(f) => r == Err::<(), Fault>(f) && *final(s) == *old(s),
        },
{
    match land(s.pc as u32 + 2) {
        Ok(pc) => {
            s.v[x.0 as usize] = value;
            match flag {
                Some(f) => {
                    s.v[15] = if f {
                        1
                    } else {
                        0
                    };
                },
                None => {},
            }
            s.pc = pc;
            Ok(())
        },
        Err(f) => Err(f),
    }
}

/// Copies the first `count` registers to memory from `base` on.
fn store_block(mem: &mut Memory, base: usize, v: &[u8; 16], count: usize)
    requires
        count <= 16,
        base + count <= 4096,
    ensures
        final(mem)@ == splice(old(mem)@, base as int, v@.take(count as int)),
{
    let mut i: usize = 0;
    while i < count
        invariant
            i <= count,
            count <= 16,
            base + count <= 4096,
            mem@ == splice(old(mem)@, base as int, v@.take(i as int)),
        decreases count - i,
    {
        mem.mem[base + i] = v[i];
        i += 1;
    }
}

/// Copies `count` bytes of memory from `base` on to the first registers.
fn load_block(v: &mut [u8; 16], mem: &Memory, base: usize, count: usize)
    requires
        count <= 16,
        base + count <= 4096,
    ensures
        final(v)@ == splice(old(v)@, 0, mem@.subrange(base as int, base + count)),
{
    let mut i: usize = 0;
    while i < count
        invariant
            i <= count,
            count <= 16,
            base + count <= 4096,
            v@ == splice(old(v)@, 0, mem@.subrange(base as int, base + i)),
        decreases count - i,
    {
        v[i] = mem.mem[base + i];
        i += 1;
    }
}

/// `a + b` modulo 256, and whether the sum left the byte.
fn sum(a: u8, b: u8) -> (r: (u8, bool))
    ensures
        r.0 == ((a + b) % 256) as u8,
        r.1 == (a + b > 255),
{
    (a.wrapping_add(b), a.checked_add(b).is_none())
}

/// `a - b` modulo 256, and whether nothing had to be borrowed.
fn difference(a: u8, b: u8) -> (r: (u8, bool))
    ensures
        r.0 == ((a - b) % 256) as u8,
        r.1 == (a >= b),
{
    (a.wrapping_sub(b), a >= b)
}

/// `a` shifted right by one, and the bit that fell out.
fn halved(a: u8) -> (r: (u8, bool))
    ensures
        r.0 == a / 2,
        r.1 == (a % 2 == 1),
{
    assert(a >> 1u8 == a / 2 && ((a & 1) == 1) == (a % 2 == 1)) by (bit_vector);
    (a >> 1u8, (a & 1) == 1)
}

/// `a` shifted left by one, and the bit that fell out.
fn doubled(a: u8) -> (r: (u8, bool))
    ensures
        r.0 == ((a * 2) % 256) as u8,
        r.1 == (a >= 128),
{
    assert(a << 1u8 == (a * 2) % 256 && ((a & 0x80) != 0) == (a >= 128)) by (bit_vector);
    (a << 1u8, (a & 0x80) != 0)
}

/// The instructions that only read and write registers.
spec fn computes(i: Instruction) -> bool {
    i is SetImmediate
    || i is AddImmediate
    || i is SetRegister
    || i is OrRegister
    || i is AndRegister
    || i is XorRegister
    || i is AdcRegister
    || i is SwbRegister
    || i is ShrRegister
    || i is ReverseSwbRegister
    || i is ShlRegister
    || i is StoreRandom
    || i is SetFromDelay
}

/// The instructions that reach memory, the display, the timers or the index register.
spec fn transfers(i: Instruction) -> bool {
    i is ClearScreen
    || i is StoreAddress
    || i is DrawSprite
    || i is SetToDelay
    || i is SetToSound
    || i is AddAddress
    || i is SetAddressToSprite
    || i is StoreBCD
    || i is StoreRegisters
    || i is LoadRegisters
}

impl Instruction {
    /// Carries out the instruction with `random` as the byte that the
    /// random-byte instruction uses, exactly as [`step`] says: on `Ok` the
    /// machine is what `step` gives; on `Err` the fault is the one `step`
    /// gives and nothing has changed. A state that satisfies its invariant
    /// still does afterwards.
    pub fn execute_with(
        &self,
        s: &mut State,
        mem: &mut Memory,
        screen: &mut Framebuffer,
        timer: &mut Timer,
        keys: &Keypad,
        random: u8,
    ) -> (r: Result<(), Fault>)
        requires
            self.wf(),
        ensures
            realised(
                step(Model::of(*old(s), *old(mem), *old(screen), *old(timer)), *self, *keys, random),
                Model::of(*old(s), *old(mem), *old(screen), *old(timer)),
                Model::of(*final(s), *final(mem), *final(screen), *final(timer)),
                r,
            ),
            old(s).wf() ==> final(s).wf(),
    {
        if s.pc > 4094 {
            return Err(overrun_at(s.pc as usize, Access::Fetch));
        }
        let r = self.branch(s, mem, screen, timer, keys, random);
        proof {
            if old(s).wf() {
                lemma_step_keeps_invariant(
                    Model::of(*old(s), *old(mem), *old(screen), *old(timer)),
                    *self,
                    *keys,
                    random,
                );
            }
        }
        r
    }

    /// The instructions that decide where execution goes on; hands on what
    /// is left.
    #[verifier::rlimit(50)]
    fn branch(
        &self,
        s: &mut State,
        mem: &mut Memory,
        screen: &mut Framebuffer,
        timer: &mut Timer,
        keys: &Keypad,
        random: u8,
    ) -> (r: Result<(), Fault>)
        requires
            self.wf(),
            old(s).pc <= 4094,
        ensures
            realised(
                step(Model::of(*old(s), *old(mem), *old(screen), *old(timer)), *self, *keys, random),
                Model::of(*old(s), *old(mem), *old(screen), *old(timer)),
                Model::of(*final(s), *final(mem), *final(screen), *final(timer)),
                r,
            ),
    {
        match *self {
            Instruction::SysCall(a) => Err(Fault::Unsupported { at: s.pc, opcode: a.0 }),
            Instruction::Return => {
                let depth = s.stack.len();
                if depth == 0 {
                    Err(Fault::Stack { at: s.pc, depth: 0 })
                } else {
                    match land(s.stack[depth - 1] as u32) {
                        Ok(pc) => {
                            s.stack.pop();
                            s.pc = pc;
                            Ok(())
                        },
                        Err(f) => Err(f),
                    }
                }
            },
            Instruction::Jump(a) => jump(s, a.0 as u32),
            Instruction::Call(a) => {
                let depth = s.stack.len();
                if depth >= 16 {
                    Err(Fault::Stack { at: s.pc, depth })
                } else {
                    match land(a.0 as u32) {
                        Ok(pc) => {
                            s.stack.push(s.pc + 2);
                            s.pc = pc;
                            Ok(())
                        },
                        Err(f) => Err(f),
                    }
                }
            },
            Instruction::JumpOffset(a) => jump(s, a.0 as u32 + s.v[0] as u32),
            Instruction::SkipIfEqual(x, c) => skip(s, s.v[x.0 as usize] == c.0),
            Instruction::SkipIfNotEqual(x, c) => skip(s, s.v[x.0 as usize] != c.0),
            Instruction::SkipIfRegistersEqual(x, y) => skip(
                s,
                s.v[x.0 as usize] == s.v[y.0 as usize],
            ),
            Instruction::SkipIfRegistersNotEqual(x, y) => skip(
                s,
                s.v[x.0 as usize] != s.v[y.0 as usize],
            ),
            Instruction::SkipIfPressed(x) => skip(s, keys.is_pressed(s.v[x.0 as usize])),
            Instruction::SkipIfNotPressed(x) => skip(s, !keys.is_pressed(s.v[x.0 as usize])),
            Instruction::WaitKeyPress(x) => {
                match keys.newly_pressed() {
                    Some(k) => write_back(s, x, k, None),
                    None => Ok(()),
                }
            },
            _ => self.compute(s, mem, screen, timer, keys, random),
        }
    }

    /// The arithmetic and register instructions; hands on what is left.
    #[verifier::rlimit(50)]
    fn compute(
        &self,
        s: &mut State,
        mem: &mut Memory,
        screen: &mut Framebuffer,
        timer: &mut Timer,
        keys: &Keypad,
        random: u8,
    ) -> (r: Result<(), Fault>)
        requires
            self.wf(),
            old(s).pc <= 4094,
            computes(*self) || transfers(*self),
        ensures
            realised(
                step(Model::of(*old(s), *old(mem), *old(screen), *old(timer)), *self, *keys, random),
                Model::of(*old(s), *old(mem), *old(screen), *old(timer)),
                Model::of(*final(s), *final(mem), *final(screen), *final(timer)),
                r,
            ),
    {
        match *self {
            Instruction::SetImmediate(x, c) => write_back(s, x, c.0, None),
            Instruction::AddImmediate(x, c) => {
                let (value, _) = sum(s.v[x.0 as usize], c.0);
                write_back(s, x, value, None)
            },
            Instruction::SetRegister(x, y) => write_back(s, x, s.v[y.0 as usize], None),
            Instruction::OrRegister(x, y) => write_back(
                s,
                x,
                s.v[x.0 as usize] | s.v[y.0 as usize],
                None,
            ),
            Instruction::AndRegister(x, y) => write_back(
                s,
                x,
                s.v[x.0 as usize] & s.v[y.0 as usize],
                None,
            ),
            Instruction::XorRegister(x, y) => write_back(
                s,
                x,
                s.v[x.0 as usize] ^ s.v[y.0 as usize],
                None,
            ),
            Instruction::AdcRegister(x, y) => {
                let (value, carry) = sum(s.v[x.0 as usize], s.v[y.0 as usize]);
                write_back(s, x, value, Some(carry))
            },
            Instruction::SwbRegister(x, y) => {
                let (value, kept) = difference(s.v[x.0 as usize], s.v[y.0 as usize]);
                write_back(s, x, value, Some(kept))
            },
            Instruction::ShrRegister(x, _) => {
                let (value, out) = halved(s.v[x.0 as usize]);
                write_back(s, x, value, Some(out))
            },
            Instruction::ReverseSwbRegister(x, y) => {
                let (value, kept) = difference(s.v[y.0 as usize], s.v[x.0 as usize]);
                write_back(s, x, value, Some(kept))
            },
            Instruction::ShlRegister(x, _) => {
                let (value, out) = doubled(s.v[x.0 as usize]);
                write_back(s, x, value, Some(out))
            },
            Instruction::StoreRandom(x, c) => write_back(s, x, random & c.0, None),
            Instruction::SetFromDelay(x) => write_back(s, x, timer.read_delay(), None),
            _ => self.transfer(s, mem, screen, timer, keys, random),
        }
    }

    /// The instructions that reach memory, the display, the timers or the
    /// index register.
    #[verifier::rlimit(50)]
    fn transfer(
        &self,
        s: &mut State,
        mem: &mut Memory,
        screen: &mut Framebuffer,
        timer: &mut Timer,
        keys: &Keypad,
        random: u8,
    ) -> (r: Result<(), Fault>)
        requires
            self.wf(),
            old(s).pc <= 4094,
            transfers(*self),
        ensures
            realised(
                step(Model::of(*old(s), *old(mem), *old(screen), *old(timer)), *self, *keys, random),
                Model::of(*old(s), *old(mem), *old(screen), *old(timer)),
                Model::of(*final(s), *final(mem), *final(screen), *final(timer)),
                r,
            ),
    {
        match *self {
            Instruction::ClearScreen => {
                match jump(s, s.pc as u32 + 2) {
                    Ok(()) => {
                        screen.clear();
                        Ok(())
                    },
                    Err(f) => Err(f),
                }
            },
            Instruction::StoreAddress(a) => {
                match jump(s, s.pc as u32 + 2) {
                    Ok(()) => {
                        s.index = a.0;
                        Ok(())
                    },
                    Err(f) => Err(f),
                }
            },
            Instruction::DrawSprite(x, y, n) => {
                match mem.block(s.index as usize, n.0 as usize) {
                    Err(f) => Err(f),
                    Ok(rows) => {
                        let x0 = s.v[x.0 as usize];
                        let y0 = s.v[y.0 as usize];
                        match land(s.pc as u32 + 2) {
                            Err(f) => Err(f),
                            Ok(pc) => {
                                let hit = screen.draw(rows, x0, y0);
                                s.v[15] = if hit {
                                    1
                                } else {
                                    0
                                };
                                s.pc = pc;
                                Ok(())
                            },
                        }
                    },
                }
            },
            Instruction::SetToDelay(x) => {
                match jump(s, s.pc as u32 + 2) {
                    Ok(()) => {
                        timer.write_delay(s.v[x.0 as usize]);
                        Ok(())
                    },
                    Err(f) => Err(f),
                }
            },
            Instruction::SetToSound(x) => {
                match jump(s, s.pc as u32 + 2) {
                    Ok(()) => {
                        timer.write_sound(s.v[x.0 as usize]);
                        Ok(())
                    },
                    Err(f) => Err(f),
                }
            },
            Instruction::AddAddress(x) => {
                let sum = (s.index as u32 + s.v[x.0 as usize] as u32) % 4096;
                match jump(s, s.pc as u32 + 2) {
                    Ok(()) => {
                        s.index = sum as u16;
                        Ok(())
                    },
                    Err(f) => Err(f),
                }
            },
            Instruction::SetAddressToSprite(x) => {
                let digit = s.v[x.0 as usize];
                match jump(s, s.pc as u32 + 2) {
                    Ok(()) => {
                        if digit <= 15 {
                            s.index = 5 * digit as u16;
                        }
                        Ok(())
                    },
                    Err(f) => Err(f),
                }
            },
            Instruction::StoreBCD(x) => {
                let base = s.index as usize;
                let value = s.v[x.0 as usize];
                if base + 3 > 4096 {
                    Err(overrun_at(base, Access::Write))
                } else {
                    match jump(s, s.pc as u32 + 2) {
                        Ok(()) => {
                            mem.mem[base] = value / 100;
                            mem.mem[base + 1] = (value / 10) % 10;
                            mem.mem[base + 2] = value % 10;
                            assert(mem@ =~= splice(old(mem)@, base as int, digits(value)));
                            Ok(())
                        },
                        Err(f) => Err(f),
                    }
                }
            },
            Instruction::StoreRegisters(x) => {
                let base = s.index as usize;
                let count = x.0 as usize + 1;
                if base + count > 4096 {
                    Err(overrun_at(base, Access::Write))
                } else {
                    match jump(s, s.pc as u32 + 2) {
                        Ok(()) => {
                            store_block(mem, base, &s.v, count);
                            Ok(())
                        },
                        Err(f) => Err(f),
                    }
                }
            },
            Instruction::LoadRegisters(x) => {
                let base = s.index as usize;
                let count = x.0 as usize + 1;
                if base + count > 4096 {
                    Err(overrun_at(base, Access::Read))
                } else {
                    match jump(s, s.pc as u32 + 2) {
                        Ok(()) => {
                            load_block(&mut s.v, mem, base, count);
                            Ok(())
                        },
                        Err(f) => Err(f),
                    }
                }
            },
            _ => unreached(),
        }
    }

    /// Carries out the instruction. The random-byte instruction draws its
    /// byte from the `rand` crate's thread-local generator; whatever byte
    /// comes back, the machine ends up as [`step`] says for that byte. For
    /// every other instruction the outcome is what `step` says for any byte.
    pub fn execute(
        &self,
        s: &mut State,
        mem: &mut Memory,
        screen: &mut Framebuffer,
        timer: &mut Timer,
        keys: &Keypad,
    ) -> (r: Result<(), Fault>)
        requires
            self.wf(),
        ensures
            exists|random: u8|
                realised(
                    #[trigger] step(
                        Model::of(*old(s), *old(mem), *old(screen), *old(timer)),
                        *self,
                        *keys,
                        random,
                    ),
                    Model::of(*old(s), *old(mem), *old(screen), *old(timer)),
                    Model::of(*final(s), *final(mem), *final(screen), *final(timer)),
                    r,
                ),
            !(*self is StoreRandom) ==> forall|random: u8|
                realised(
                    #[trigger] step(
                        Model::of(*old(s), *old(mem), *old(screen), *old(timer)),
                        *self,
                        *keys,
                        random,
                    ),
                    Model::of(*old(s), *old(mem), *old(screen), *old(timer)),
                    Model::of(*final(s), *final(mem), *final(screen), *final(timer)),
                    r,
                ),
            old(s).wf() ==> final(s).wf(),
    {
        let random = match *self {
            Instruction::StoreRandom(_, _) => random_byte(),
            _ => 0,
        };
        let r = self.execute_with(s, mem, screen, timer, keys, random);
        proof {
            if !(*self is StoreRandom) {
                assert forall|other: u8|
                    realised(
                        #[trigger] step(
                            Model::of(*old(s), *old(mem), *old(screen), *old(timer)),
                            *self,
                            *keys,
                            other,
                        ),
                        Model::of(*old(s), *old(mem), *old(screen), *old(timer)),
                        Model::of(*s, *mem, *screen, *timer),
                        r,
                    ) by {
                    lemma_random_byte_matters_once(
                        Model::of(*old(s), *old(mem), *old(screen), *old(timer)),
                        *self,
                        *keys,
                        random,
                        other,
                    );
                }
            }
        }
        r
    }
}

} // verus!
