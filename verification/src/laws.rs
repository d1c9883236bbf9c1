use crate::fault::Fault;
use crate::instruction::{decode_at, lemma_decoded_wf, Instruction};
use crate::keypad::Keypad;
use crate::operand::{Address, Constant, Register};
use crate::screen::{blank, collides, drawn, sprite_covers};
use crate::semantics::{cycle, digits, step, Model};
use crate::timer::Timer;
use vstd::prelude::*;

verus! {

/// Adding modulo 256 in two steps is adding the sum modulo 256.
proof fn lemma_wrap_twice(r: u8, a: u8, b: u8)
    ensures
        ((r + a) % 256 + b) % 256 == (r + a + b) % 256,
        (r + (a + b) % 256) % 256 == (r + a + b) % 256,
{
}

/// Adding two immediates one after the other leaves every register as
/// adding their sum modulo 256 once does: register arithmetic wraps.
pub proof fn lemma_add_immediate_wraps(
    m: Model,
    x: Register,
    a: u8,
    b: u8,
    keys: Keypad,
    random: u8,
)
    requires
        m.wf(),
        x.wf(),
        m.pc + 4 <= 4094,
    ensures
        ({
            &&& step(m, Instruction::AddImmediate(x, Constant(a)), keys, random) matches Ok(first)
            &&& step(first, Instruction::AddImmediate(x, Constant(b)), keys, random) matches Ok(
                second,
            )
            &&& step(
                m,
                Instruction::AddImmediate(x, Constant(((a + b) % 256) as u8)),
                keys,
                random,
            ) matches Ok(once)
            &&& second == (Model { pc: (m.pc + 4) as u16, ..once })
            &&& second.reg(x) == (m.reg(x) + a + b) % 256
        }),
{
    let first = step(m, Instruction::AddImmediate(x, Constant(a)), keys, random)->Ok_0;
    let second = step(first, Instruction::AddImmediate(x, Constant(b)), keys, random)->Ok_0;
    let once = step(
        m,
        Instruction::AddImmediate(x, Constant(((a + b) % 256) as u8)),
        keys,
        random,
    )->Ok_0;
    lemma_wrap_twice(m.reg(x), a, b);
    assert(first.reg(x) == (m.reg(x) + a) % 256);
    assert(second.reg(x) == (m.reg(x) + a + b) % 256);
    assert(once.reg(x) == (m.reg(x) + a + b) % 256);
    assert(second.v =~= once.v);
}

/// A call followed at once by a return continues right after the call and
/// leaves the machine otherwise as it was.
///
/// The call must itself succeed and leave a usable return address: the
/// stack is not full, the target holds an instruction word, and so does the
/// address after the call.
pub proof fn lemma_call_then_return(m: Model, target: Address, keys: Keypad, random: u8)
    requires
        m.wf(),
        m.stack.len() < 16,
        target.0 <= 4094,
        m.pc + 2 <= 4094,
    ensures
        ({
            &&& step(m, Instruction::Call(target), keys, random) matches Ok(called)
            &&& called.pc == target.0
            &&& called.stack == m.stack.push((m.pc + 2) as u16)
            &&& step(called, Instruction::Return, keys, random) matches Ok(back)
            &&& back == (Model { pc: (m.pc + 2) as u16, ..m })
        }),
{
    let called = step(m, Instruction::Call(target), keys, random)->Ok_0;
    let back = step(called, Instruction::Return, keys, random)->Ok_0;
    assert(back.stack =~= m.stack);
}

/// A call succeeds exactly while fewer than sixteen frames are on the stack,
/// and then adds one frame; with sixteen it is a stack fault that reports
/// the depth.
pub proof fn lemma_call_needs_room(m: Model, target: Address, keys: Keypad, random: u8)
    requires
        m.pc <= 4094,
        target.0 <= 4094,
    ensures
        m.stack.len() < 16 ==> ({
            &&& step(m, Instruction::Call(target), keys, random) matches Ok(called)
            &&& called.stack.len() == m.stack.len() + 1
            &&& called.pc == target.0
        }),
        m.stack.len() >= 16 ==> step(m, Instruction::Call(target), keys, random) == Err::<
            Model,
            Fault,
        >(Fault::Stack { at: m.pc, depth: m.stack.len() as usize }),
{
}

/// A return with nothing on the stack is a stack fault of depth zero.
pub proof fn lemma_return_needs_frame(m: Model, keys: Keypad, random: u8)
    requires
        m.pc <= 4094,
        m.stack.len() == 0,
    ensures
        step(m, Instruction::Return, keys, random) == Err::<Model, Fault>(
            Fault::Stack { at: m.pc, depth: 0 },
        ),
{
}

/// The machine after calling each of `targets` in turn, each call made from
/// where the one before it led.
pub open spec fn nested(m: Model, targets: Seq<Address>, keys: Keypad, random: u8) -> Result<
    Model,
    Fault,
>
    decreases targets.len(),
{
    if targets.len() == 0 {
        Ok(m)
    } else {
        match nested(m, targets.drop_last(), keys, random) {
            Ok(inner) => step(inner, Instruction::Call(targets.last()), keys, random),
            Err(f) => Err(f),
        }
    }
}

/// Calls nest as deep as the stack has room: as many calls as there are free
/// frames all succeed, each adding one frame.
pub proof fn lemma_nested_calls(m: Model, targets: Seq<Address>, keys: Keypad, random: u8)
    requires
        m.pc <= 4094,
        m.stack.len() + targets.len() <= 16,
        forall|k: int| 0 <= k < targets.len() ==> (#[trigger] targets[k]).0 <= 4094,
    ensures
        ({
            &&& nested(m, targets, keys, random) matches Ok(deep)
            &&& deep.stack.len() == m.stack.len() + targets.len()
            &&& deep.pc <= 4094
        }),
    decreases targets.len(),
{
    if targets.len() > 0 {
        lemma_nested_calls(m, targets.drop_last(), keys, random);
        let inner = nested(m, targets.drop_last(), keys, random)->Ok_0;
        lemma_call_needs_room(inner, targets.last(), keys, random);
    }
}

/// Sixteen nested calls from an empty stack succeed; a seventeenth is a
/// stack fault.
pub proof fn lemma_seventeenth_call_fails(
    m: Model,
    targets: Seq<Address>,
    extra: Address,
    keys: Keypad,
    random: u8,
)
    requires
        m.pc <= 4094,
        m.stack.len() == 0,
        targets.len() == 16,
        forall|k: int| 0 <= k < targets.len() ==> (#[trigger] targets[k]).0 <= 4094,
        extra.0 <= 4094,
    ensures
        ({
            &&& nested(m, targets, keys, random) matches Ok(deep)
            &&& deep.stack.len() == 16
            &&& step(deep, Instruction::Call(extra), keys, random) == Err::<Model, Fault>(
                Fault::Stack { at: deep.pc, depth: 16 },
            )
        }),
{
    lemma_nested_calls(m, targets, keys, random);
    let deep = nested(m, targets, keys, random)->Ok_0;
    lemma_call_needs_room(deep, extra, keys, random);
}

/// Drawing the same sprite twice at the same place restores the display. The
/// second drawing reports a collision exactly when the sprite has a set bit
/// on a pixel that was dark before the first.
pub proof fn lemma_draw_twice(screen: Seq<bool>, rows: Seq<u8>, x0: u8, y0: u8)
    requires
        screen.len() == 2048,
    ensures
        drawn(drawn(screen, rows, x0, y0), rows, x0, y0) == screen,
        collides(drawn(screen, rows, x0, y0), rows, x0, y0) <==> exists|i: int|
            0 <= i < 2048 && !#[trigger] screen[i] && sprite_covers(rows, x0, y0, i % 64, i / 64),
{
    let once = drawn(screen, rows, x0, y0);
    assert(drawn(once, rows, x0, y0) =~= screen);
    if collides(once, rows, x0, y0) {
        let i = choose|i: int|
            0 <= i < 2048 && #[trigger] once[i] && sprite_covers(rows, x0, y0, i % 64, i / 64);
        assert(!screen[i]);
    }
    if exists|i: int|
        0 <= i < 2048 && !#[trigger] screen[i] && sprite_covers(rows, x0, y0, i % 64, i / 64) {
        let i = choose|i: int|
            0 <= i < 2048 && !#[trigger] screen[i] && sprite_covers(rows, x0, y0, i % 64, i / 64);
        assert(once[i]);
    }
}

/// On a dark display the first drawing of a sprite never collides.
pub proof fn lemma_draw_on_blank(rows: Seq<u8>, x0: u8, y0: u8)
    ensures
        !collides(blank(), rows, x0, y0),
{
}

/// The draw instruction, given twice with coordinates that do not come from
/// the flag register, restores the display, and the second time leaves 1 in
/// the flag register exactly when the first drawing lit a pixel.
pub proof fn lemma_draw_instruction_twice(
    m: Model,
    x: Register,
    y: Register,
    n: Constant,
    keys: Keypad,
    random: u8,
)
    requires
        m.wf(),
        x.0 < 15,
        y.0 < 15,
        m.pc + 4 <= 4094,
        m.index + n.0 <= 4096,
    ensures
        ({
            &&& step(m, Instruction::DrawSprite(x, y, n), keys, random) matches Ok(first)
            &&& step(first, Instruction::DrawSprite(x, y, n), keys, random) matches Ok(second)
            &&& second.screen == m.screen
            &&& second.v[15] == 1 <==> exists|i: int|
                0 <= i < 2048 && !#[trigger] m.screen[i] && first.screen[i]
        }),
{
    let rows = m.mem.subrange(m.index as int, m.index + n.0);
    let first = step(m, Instruction::DrawSprite(x, y, n), keys, random)->Ok_0;
    lemma_draw_twice(m.screen, rows, m.reg(x), m.reg(y));
    assert(first.reg(x) == m.reg(x) && first.reg(y) == m.reg(y));
    assert(first.mem.subrange(first.index as int, first.index + n.0) == rows);
    if exists|i: int|
        0 <= i < 2048 && !#[trigger] m.screen[i] && sprite_covers(
            rows,
            m.reg(x),
            m.reg(y),
            i % 64,
            i / 64,
        ) {
        let i = choose|i: int|
            0 <= i < 2048 && !#[trigger] m.screen[i] && sprite_covers(
                rows,
                m.reg(x),
                m.reg(y),
                i % 64,
                i / 64,
            );
        assert(first.screen[i]);
    }
    if exists|i: int| 0 <= i < 2048 && !#[trigger] m.screen[i] && first.screen[i] {
        let i = choose|i: int| 0 <= i < 2048 && !#[trigger] m.screen[i] && first.screen[i];
        assert(sprite_covers(rows, m.reg(x), m.reg(y), i % 64, i / 64));
    }
}

/// Once the timers have been decremented at `first`, no poll decrements
/// them again before 16600 microseconds have passed since `first`, and the
/// first poll from then on does. A poll that is not due changes nothing.
pub proof fn lemma_one_decrement_per_interval(t: Timer, first: u64, later: u64)
    requires
        first <= later,
    ensures
        t.due(first) ==> (t.ticked(first).due(later) <==> later - first >= 16600),
        !t.due(first) ==> t.ticked(first) == t,
{
}

/// A decrement takes exactly one from each counter that is above zero and
/// leaves a counter at zero where it is.
pub proof fn lemma_decrement_stops_at_zero(t: Timer, now: u64)
    requires
        t.due(now),
    ensures
        t.delay_value > 0 ==> t.ticked(now).delay_value == t.delay_value - 1,
        t.delay_value == 0 ==> t.ticked(now).delay_value == 0,
        t.sound_value > 0 ==> t.ticked(now).sound_value == t.sound_value - 1,
        t.sound_value == 0 ==> t.ticked(now).sound_value == 0,
{
}

/// Carrying out instructions never decrements the timers: an instruction
/// leaves both counters alone unless it is the one that writes that counter,
/// and none moves the time of the last decrement.
pub proof fn lemma_instructions_leave_timers(m: Model, i: Instruction, keys: Keypad, random: u8)
    ensures
        step(m, i, keys, random) matches Ok(after) ==> ({
            &&& after.timer.last_update == m.timer.last_update
            &&& !(i is SetToDelay) ==> after.timer.delay_value == m.timer.delay_value
            &&& !(i is SetToSound) ==> after.timer.sound_value == m.timer.sound_value
        }),
{
}

/// In one turn of the engine the timers are decremented exactly when a
/// decrement is due at that clock reading, whatever instruction runs, and
/// that is when the turn asks for a refresh.
pub proof fn lemma_cycle_polls_timers(m: Model, now: u64, keys: Keypad, random: u8)
    requires
        !m.finished,
    ensures
        cycle(m, now, keys, random).0.timer.last_update == m.timer.ticked(now).last_update,
        cycle(m, now, keys, random).1 matches Ok(refresh) ==> refresh == m.timer.due(now),
{
    let polled = Model { timer: m.timer.ticked(now), ..m };
    match decode_at(polled.pc, polled.mem) {
        Ok(i) => {
            lemma_instructions_leave_timers(polled, i, keys, random);
        },
        Err(_) => {},
    }
}

/// Memory changes only through the two store instructions, and then only in
/// the bytes they name: three from the index register on for the decimal
/// digits, `x + 1` for the register block. So with the index register at 80
/// or above no instruction touches the glyph table.
pub proof fn lemma_memory_changes_only_by_stores(
    m: Model,
    i: Instruction,
    keys: Keypad,
    random: u8,
)
    requires
        m.wf(),
        i.wf(),
    ensures
        step(m, i, keys, random) matches Ok(after) ==> ({
            &&& after.mem.len() == 4096
            &&& !(i is StoreBCD) && !(i is StoreRegisters) ==> after.mem == m.mem
            &&& i is StoreBCD ==> forall|a: int|
                0 <= a < 4096 && !(m.index <= a < m.index + 3) ==> after.mem[a] == m.mem[a]
            &&& i matches Instruction::StoreRegisters(x) ==> forall|a: int|
                0 <= a < 4096 && !(m.index <= a <= m.index + x.0) ==> after.mem[a] == m.mem[a]
            &&& m.index >= 80 ==> after.mem.subrange(0, 80) == m.mem.subrange(0, 80)
        }),
{
    match step(m, i, keys, random) {
        Ok(after) => {
            match i {
                Instruction::StoreBCD(x) => {
                    assert(digits(m.reg(x)).len() == 3);
                },
                Instruction::StoreRegisters(x) => {
                    assert(m.v.take(x.0 + 1).len() == x.0 + 1);
                },
                _ => {},
            }
            if m.index >= 80 {
                assert(after.mem.subrange(0, 80) =~= m.mem.subrange(0, 80));
            }
        },
        Err(_) => {},
    }
}

/// Only clearing the screen and drawing a sprite change the display.
pub proof fn lemma_display_changes_only_by_drawing(
    m: Model,
    i: Instruction,
    keys: Keypad,
    random: u8,
)
    requires
        !(i is ClearScreen),
        !(i is DrawSprite),
    ensures
        step(m, i, keys, random) matches Ok(after) ==> after.screen == m.screen,
{
}

/// The random byte matters to the random-byte instruction alone.
pub proof fn lemma_random_byte_matters_once(
    m: Model,
    i: Instruction,
    keys: Keypad,
    one: u8,
    other: u8,
)
    requires
        !(i is StoreRandom),
    ensures
        step(m, i, keys, one) == step(m, i, keys, other),
{
}

/// Every instruction with operands in their domains keeps a running
/// machine's invariant: afterwards an instruction word still fits at the
/// program counter, the index register is still a 12-bit address and the
/// stack still holds at most sixteen frames.
pub proof fn lemma_step_keeps_invariant(m: Model, i: Instruction, keys: Keypad, random: u8)
    requires
        m.wf(),
        i.wf(),
    ensures
        step(m, i, keys, random) matches Ok(after) ==> after.wf(),
{
}

/// A turn of the engine keeps a running machine's invariant, whether it
/// ends in a fault or not.
pub proof fn lemma_cycle_keeps_invariant(m: Model, now: u64, keys: Keypad, random: u8)
    requires
        m.wf(),
    ensures
        cycle(m, now, keys, random).0.wf(),
{
    let polled = Model { timer: m.timer.ticked(now), ..m };
    match decode_at(polled.pc, polled.mem) {
        Ok(i) => {
            lemma_decoded_wf(polled.mem[polled.pc as int], polled.mem[polled.pc + 1]);
            lemma_step_keeps_invariant(polled, i, keys, random);
        },
        Err(_) => {},
    }
}

/// A halted machine stays as it is.
pub proof fn lemma_halted_stays(m: Model, now: u64, keys: Keypad, random: u8)
    requires
        m.finished,
    ensures
        cycle(m, now, keys, random) == (m, Ok::<bool, Fault>(false)),
{
}

/// A turn that ends in a fault halts the machine.
pub proof fn lemma_fault_halts(m: Model, now: u64, keys: Keypad, random: u8)
    ensures
        cycle(m, now, keys, random).1 is Err ==> cycle(m, now, keys, random).0.finished,
{
}

} // verus!
