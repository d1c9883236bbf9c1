use crate::fault::{overrun, Access, Fault};
use crate::instruction::Instruction;
use crate::keypad::Keypad;
use crate::laws::lemma_cycle_keeps_invariant;
use crate::memory::{splice, Memory, FONT};
use crate::screen::{blank, Framebuffer};
use crate::semantics::{cycle, realised, step, Model};
use crate::state::State;
use crate::timer::Timer;
use vstd::prelude::*;

verus! {

/// The machine right after `rom` has been loaded at clock reading `now`:
/// the glyphs at `0..80`, the program from 0x200 on, everything else zero,
/// the display dark and the program counter at 0x200.
pub open spec fn booted(rom: Seq<u8>, now: u64) -> Model {
    Model {
        pc: 0x200,
        index: 0,
        v: Seq::new(16, |i: int| 0u8),
        stack: Seq::empty(),
        finished: false,
        mem: splice(splice(Seq::new(4096, |i: int| 0u8), 0, FONT@), 0x200, rom),
        screen: blank(),
        timer: Timer { delay_value: 0, sound_value: 0, last_update: now },
    }
}

/// A whole machine: processor state, memory, display and timers. Its view
/// is the [`Model`] of the four.
#[derive(Clone, Debug, PartialEq, Eq)]
pub struct Machine {
    pub state: State,
    pub memory: Memory,
    pub screen: Framebuffer,
    pub timer: Timer,
}

impl View for Machine {
    type V = Model;

    open spec fn view(&self) -> Model {
        Model::of(self.state, self.memory, self.screen, self.timer)
    }
}

impl Machine {
    /// Builds a machine with the glyph table installed and `rom` loaded at
    /// 0x200, with the timers counting from `now`. Fails when the program
    /// is longer than the 3584 bytes between 0x200 and the end of memory.
    pub fn boot(rom: &[u8], now: u64) -> (r: Result<Machine, Fault>)
        ensures
            rom@.len() <= 3584 ==> (r matches Ok(m) && m@ == booted(rom@, now) && m@.wf()),
            rom@.len() > 3584 ==> (r matches Err(f) && f == overrun(0x200, Access::Write)),
    {
        let mut memory = Memory::new();
        memory.install_font();
        match memory.load(0x200, rom) {
            Err(f) => Err(f),
            Ok(()) => {
                let m = Machine {
                    state: State::new(),
                    memory,
                    screen: Framebuffer::new(),
                    timer: Timer::new(now),
                };
                assert(m@ =~= booted(rom@, now));
                Ok(m)
            },
        }
    }

    /// One turn of the engine; with `random` given, that byte is the one the
    /// random-byte instruction uses, otherwise one is drawn.
    fn turn(&mut self, now: u64, keys: &Keypad, random: Option<u8>) -> (r: Result<bool, Fault>)
        ensures
            exists|byte: u8|
                (random matches Some(given) ==> given == byte) && #[trigger] cycle(
                    old(self)@,
                    now,
                    *keys,
                    byte,
                ) == (final(self)@, r),
    {
        let ghost chosen: u8 = match random {
            Some(given) => given,
            None => 0,
        };
        if self.state.finished {
            assert(cycle(old(self)@, now, *keys, chosen) == (self@, Ok::<bool, Fault>(false)));
            return Ok(false);
        }
        let redraw = self.timer.tick(now);
        let ghost polled = self@;
        match Instruction::decode(&self.state, &self.memory) {
            Err(f) => {
                self.state.finished = true;
                assert(cycle(old(self)@, now, *keys, chosen) == (self@, Err::<bool, Fault>(f)));
                Err(f)
            },
            Ok(i) => {
                let done = match random {
                    Some(given) => i.execute_with(
                        &mut self.state,
                        &mut self.memory,
                        &mut self.screen,
                        &mut self.timer,
                        keys,
                        given,
                    ),
                    None => i.execute(
                        &mut self.state,
                        &mut self.memory,
                        &mut self.screen,
                        &mut self.timer,
                        keys,
                    ),
                };
                let ghost byte: u8 = choose|byte: u8|
                    (random matches Some(given) ==> given == byte) && realised(
                        #[trigger] step(polled, i, *keys, byte),
                        polled,
                        self@,
                        done,
                    );
                match done {
                    Ok(()) => {
                        assert(cycle(old(self)@, now, *keys, byte) == (self@, Ok::<bool, Fault>(redraw)));
                        Ok(redraw)
                    },
                    Err(f) => {
                        self.state.finished = true;
                        assert(cycle(old(self)@, now, *keys, byte) == (self@, Err::<bool, Fault>(f)));
                        Err(f)
                    },
                }
            },
        }
    }

    /// One turn of the engine at clock reading `now`, in microseconds, with
    /// `random` as the byte that the random-byte instruction uses: exactly
    /// what [`cycle`] says. `Ok(true)` asks the caller to refresh the display.
    /// Any fault sets the halt flag; a halted machine no longer changes.
    pub fn cycle_with(&mut self, now: u64, keys: &Keypad, random: u8) -> (r: Result<bool, Fault>)
        ensures
            cycle(old(self)@, now, *keys, random) == (final(self)@, r),
            old(self)@.wf() ==> final(self)@.wf(),
    {
        let r = self.turn(now, keys, Some(random));
        proof {
            if old(self)@.wf() {
                lemma_cycle_keeps_invariant(old(self)@, now, *keys, random);
            }
        }
        r
    }

    /// One turn of the engine at clock reading `now`, in microseconds. The
    /// random-byte instruction draws its byte from the `rand` crate's
    /// thread-local generator; whatever byte comes back, the turn is what
    /// [`cycle`] says for that byte.
    pub fn cycle(&mut self, now: u64, keys: &Keypad) -> (r: Result<bool, Fault>)
        ensures
            exists|random: u8| #[trigger] cycle(old(self)@, now, *keys, random) == (final(self)@, r),
            old(self)@.wf() ==> final(self)@.wf(),
    {
        let r = self.turn(now, keys, None);
        proof {
            if old(self)@.wf() {
                let random = choose|random: u8| #[trigger]
                    cycle(old(self)@, now, *keys, random) == (self@, r);
                lemma_cycle_keeps_invariant(old(self)@, now, *keys, random);
            }
        }
        r
    }
}

} // verus!
