use chip8::fault::{Access, Fault};
use chip8::instruction::Instruction;
use chip8::keypad::Keypad;
use chip8::memory::Memory;
use chip8::operand::{Address, Constant, Register};
use chip8::screen::Framebuffer;
use chip8::state::State;
use chip8::timer::Timer;

fn run_flow(s: &mut State, i: Instruction) -> Result<(), Fault> {
    let mut mem = Memory::new();
    let mut screen = Framebuffer::new();
    let mut timer = Timer::new(0);
    let keys = Keypad::new();
    i.execute_with(s, &mut mem, &mut screen, &mut timer, &keys, 0)
}

#[test]
fn call_then_return_resumes_after_the_call() {
    let mut s = State::new();
    s.pc = 0x234;
    s.v[3] = 9;
    assert_eq!(run_flow(&mut s, Instruction::Call(Address(0x400))), Ok(()));
    assert_eq!(s.pc, 0x400);
    assert_eq!(s.stack, vec![0x236]);
    assert_eq!(s.depth(), 1);
    assert_eq!(run_flow(&mut s, Instruction::Return), Ok(()));
    assert_eq!(s.pc, 0x236);
    assert_eq!(s.depth(), 0);
    let mut expected = State::new();
    expected.pc = 0x236;
    expected.v[3] = 9;
    assert_eq!(s, expected);
}

#[test]
fn sixteen_nested_calls_succeed_and_the_next_fails() {
    let mut s = State::new();
    for depth in 0..16u16 {
        let target = 0x300 + 4 * depth;
        assert_eq!(run_flow(&mut s, Instruction::Call(Address(target))), Ok(()));
        assert_eq!(s.pc, target);
        assert_eq!(s.depth(), depth as usize + 1);
    }
    let before = s.clone();
    assert_eq!(
        run_flow(&mut s, Instruction::Call(Address(0x500))),
        Err(Fault::Stack { at: 0x300 + 4 * 15, depth: 16 })
    );
    assert_eq!(s, before);
    for depth in (0..16u16).rev() {
        assert_eq!(run_flow(&mut s, Instruction::Return), Ok(()));
        let resumed = if depth == 0 { 0x202 } else { 0x300 + 4 * (depth - 1) + 2 };
        assert_eq!(s.pc, resumed);
        assert_eq!(s.depth(), depth as usize);
    }
}

#[test]
fn return_with_empty_stack_is_a_stack_fault() {
    let mut s = State::new();
    s.pc = 0x20a;
    let before = s.clone();
    assert_eq!(run_flow(&mut s, Instruction::Return), Err(Fault::Stack { at: 0x20a, depth: 0 }));
    assert_eq!(s, before);
}

#[test]
fn jump_sets_the_program_counter() {
    let mut s = State::new();
    assert_eq!(run_flow(&mut s, Instruction::Jump(Address(0xabc))), Ok(()));
    assert_eq!(s.pc, 0xabc);
    assert_eq!(run_flow(&mut s, Instruction::Jump(Address(4094))), Ok(()));
    assert_eq!(s.pc, 4094);
}

#[test]
fn jump_to_where_no_word_fits_is_a_bounds_fault() {
    let mut s = State::new();
    assert_eq!(
        run_flow(&mut s, Instruction::Jump(Address(4095))),
        Err(Fault::Bounds { address: 4096, access: Access::Fetch })
    );
    assert_eq!(s.pc, 0x200);
}

#[test]
fn jump_with_offset_adds_register_zero() {
    let mut s = State::new();
    s.v[0] = 0x12;
    assert_eq!(run_flow(&mut s, Instruction::JumpOffset(Address(0x300))), Ok(()));
    assert_eq!(s.pc, 0x312);
    s.v[0] = 0xff;
    assert_eq!(
        run_flow(&mut s, Instruction::JumpOffset(Address(0xfff))),
        Err(Fault::Bounds { address: 0xfff + 0xff, access: Access::Fetch })
    );
    assert_eq!(s.pc, 0x312);
}

#[test]
fn skips_add_two_more_when_the_condition_holds() {
    let mut s = State::new();
    s.v[1] = 7;
    s.v[2] = 7;
    s.v[3] = 8;
    run_flow(&mut s, Instruction::SkipIfEqual(Register(1), Constant(7))).unwrap();
    assert_eq!(s.pc, 0x204);
    run_flow(&mut s, Instruction::SkipIfEqual(Register(1), Constant(8))).unwrap();
    assert_eq!(s.pc, 0x206);
    run_flow(&mut s, Instruction::SkipIfNotEqual(Register(1), Constant(8))).unwrap();
    assert_eq!(s.pc, 0x20a);
    run_flow(&mut s, Instruction::SkipIfNotEqual(Register(1), Constant(7))).unwrap();
    assert_eq!(s.pc, 0x20c);
    run_flow(&mut s, Instruction::SkipIfRegistersEqual(Register(1), Register(2))).unwrap();
    assert_eq!(s.pc, 0x210);
    run_flow(&mut s, Instruction::SkipIfRegistersEqual(Register(1), Register(3))).unwrap();
    assert_eq!(s.pc, 0x212);
    run_flow(&mut s, Instruction::SkipIfRegistersNotEqual(Register(1), Register(3))).unwrap();
    assert_eq!(s.pc, 0x216);
    run_flow(&mut s, Instruction::SkipIfRegistersNotEqual(Register(1), Register(2))).unwrap();
    assert_eq!(s.pc, 0x218);
}

#[test]
fn machine_code_call_is_reported_as_unsupported() {
    let mut s = State::new();
    s.pc = 0x2f0;
    let before = s.clone();
    assert_eq!(
        run_flow(&mut s, Instruction::SysCall(Address(0x123))),
        Err(Fault::Unsupported { at: 0x2f0, opcode: 0x123 })
    );
    assert_eq!(s, before);
}

#[test]
fn running_off_the_end_of_memory_is_a_bounds_fault() {
    let mut s = State::new();
    s.pc = 4094;
    let before = s.clone();
    assert_eq!(
        run_flow(&mut s, Instruction::SetImmediate(Register(1), Constant(5))),
        Err(Fault::Bounds { address: 4096, access: Access::Fetch })
    );
    assert_eq!(s, before);
    s.pc = 4092;
    assert_eq!(run_flow(&mut s, Instruction::SetImmediate(Register(1), Constant(5))), Ok(()));
    assert_eq!(s.pc, 4094);
    assert_eq!(
        run_flow(&mut s, Instruction::SkipIfEqual(Register(1), Constant(5))),
        Err(Fault::Bounds { address: 4098, access: Access::Fetch })
    );
    assert_eq!(s.pc, 4094);
}

#[test]
fn nothing_runs_from_an_address_where_no_word_fits() {
    let mut s = State::new();
    s.pc = 4095;
    assert_eq!(
        run_flow(&mut s, Instruction::Jump(Address(0x200))),
        Err(Fault::Bounds { address: 4096, access: Access::Fetch })
    );
    s.pc = 5000;
    assert_eq!(
        run_flow(&mut s, Instruction::Jump(Address(0x200))),
        Err(Fault::Bounds { address: 5000, access: Access::Fetch })
    );
    assert_eq!(s.pc, 5000);
}

#[test]
fn return_to_a_bad_address_changes_nothing() {
    let mut s = State::new();
    s.stack.push(4095);
    let before = s.clone();
    assert_eq!(
        run_flow(&mut s, Instruction::Return),
        Err(Fault::Bounds { address: 4096, access: Access::Fetch })
    );
    assert_eq!(s, before);
}
