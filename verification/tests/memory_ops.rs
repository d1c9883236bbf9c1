use chip8::fault::{Access, Fault};
use chip8::instruction::Instruction;
use chip8::keypad::Keypad;
use chip8::memory::{Memory, FONT};
use chip8::operand::{Address, Constant, Register};
use chip8::screen::Framebuffer;
use chip8::state::State;
use chip8::timer::Timer;

fn run_mem(s: &mut State, mem: &mut Memory, i: Instruction) -> Result<(), Fault> {
    let mut screen = Framebuffer::new();
    let mut timer = Timer::new(0);
    let keys = Keypad::new();
    i.execute_with(s, mem, &mut screen, &mut timer, &keys, 0)
}

#[test]
fn bcd_of_234_is_2_3_4() {
    let mut s = State::new();
    let mut mem = Memory::new();
    s.v[6] = 234;
    s.index = 0x300;
    assert_eq!(run_mem(&mut s, &mut mem, Instruction::StoreBCD(Register(6))), Ok(()));
    assert_eq!(&mem.mem[0x300..0x303], &[2, 3, 4]);
    assert_eq!(mem.mem[0x2ff], 0);
    assert_eq!(mem.mem[0x303], 0);
    assert_eq!(s.index, 0x300);
    assert_eq!(s.pc, 0x202);
}

#[test]
fn bcd_of_edge_values() {
    for (value, digits) in [(0u8, [0u8, 0, 0]), (7, [0, 0, 7]), (40, [0, 4, 0]), (109, [1, 0, 9]), (255, [2, 5, 5])] {
        let mut s = State::new();
        let mut mem = Memory::new();
        s.v[0] = value;
        s.index = 4093;
        assert_eq!(run_mem(&mut s, &mut mem, Instruction::StoreBCD(Register(0))), Ok(()));
        assert_eq!(&mem.mem[4093..4096], &digits);
    }
}

#[test]
fn bcd_past_the_end_of_memory_changes_nothing() {
    let mut s = State::new();
    let mut mem = Memory::new();
    s.v[0] = 234;
    s.index = 4094;
    let before = s.clone();
    assert_eq!(
        run_mem(&mut s, &mut mem, Instruction::StoreBCD(Register(0))),
        Err(Fault::Bounds { address: 4096, access: Access::Write })
    );
    assert_eq!(mem, Memory::new());
    assert_eq!(s, before);
}

#[test]
fn store_registers_copies_zero_through_x() {
    let mut s = State::new();
    let mut mem = Memory::new();
    for k in 0..16 {
        s.v[k] = 10 + k as u8;
    }
    s.index = 0x400;
    assert_eq!(run_mem(&mut s, &mut mem, Instruction::StoreRegisters(Register(3))), Ok(()));
    assert_eq!(&mem.mem[0x400..0x405], &[10, 11, 12, 13, 0]);
    assert_eq!(s.index, 0x400);
    assert_eq!(run_mem(&mut s, &mut mem, Instruction::StoreRegisters(Register(0))), Ok(()));
    s.index = 0x500;
    assert_eq!(run_mem(&mut s, &mut mem, Instruction::StoreRegisters(Register(15))), Ok(()));
    assert_eq!(&mem.mem[0x500..0x510], &s.v);
    assert_eq!(mem.mem[0x510], 0);
}

#[test]
fn load_registers_copies_zero_through_x() {
    let mut s = State::new();
    let mut mem = Memory::new();
    mem.load(0x400, &[1, 2, 3, 4, 5, 6, 7, 8, 9, 10, 11, 12, 13, 14, 15, 16, 17]).unwrap();
    s.index = 0x400;
    s.v[4] = 99;
    assert_eq!(run_mem(&mut s, &mut mem, Instruction::LoadRegisters(Register(3))), Ok(()));
    assert_eq!(&s.v[0..5], &[1, 2, 3, 4, 99]);
    assert_eq!(s.index, 0x400);
    assert_eq!(run_mem(&mut s, &mut mem, Instruction::LoadRegisters(Register(15))), Ok(()));
    assert_eq!(s.v, [1, 2, 3, 4, 5, 6, 7, 8, 9, 10, 11, 12, 13, 14, 15, 16]);
    assert_eq!(s.pc, 0x204);
}

#[test]
fn register_blocks_past_the_end_of_memory_are_bounds_faults() {
    let mut s = State::new();
    let mut mem = Memory::new();
    s.v[0] = 1;
    s.v[1] = 2;
    s.index = 4095;
    assert_eq!(run_mem(&mut s, &mut mem, Instruction::StoreRegisters(Register(0))), Ok(()));
    assert_eq!(mem.mem[4095], 1);
    let before = (s.clone(), mem.clone());
    assert_eq!(
        run_mem(&mut s, &mut mem, Instruction::StoreRegisters(Register(1))),
        Err(Fault::Bounds { address: 4096, access: Access::Write })
    );
    assert_eq!(
        run_mem(&mut s, &mut mem, Instruction::LoadRegisters(Register(1))),
        Err(Fault::Bounds { address: 4096, access: Access::Read })
    );
    assert_eq!((s, mem), before);
}

#[test]
fn index_register_instructions() {
    let mut s = State::new();
    let mut mem = Memory::new();
    assert_eq!(run_mem(&mut s, &mut mem, Instruction::StoreAddress(Address(0xffe))), Ok(()));
    assert_eq!(s.index, 0xffe);
    s.v[2] = 1;
    assert_eq!(run_mem(&mut s, &mut mem, Instruction::AddAddress(Register(2))), Ok(()));
    assert_eq!(s.index, 0xfff);
    assert_eq!(run_mem(&mut s, &mut mem, Instruction::AddAddress(Register(2))), Ok(()));
    assert_eq!(s.index, 0);
    s.v[2] = 255;
    s.index = 0xf80;
    assert_eq!(run_mem(&mut s, &mut mem, Instruction::AddAddress(Register(2))), Ok(()));
    assert_eq!(s.index, 0x07f);
    assert_eq!(s.v[15], 0);
}

#[test]
fn glyph_address_is_five_times_the_digit() {
    let mut mem = Memory::new();
    for digit in 0..16u8 {
        let mut s = State::new();
        s.v[4] = digit;
        s.index = 0x123;
        assert_eq!(run_mem(&mut s, &mut mem, Instruction::SetAddressToSprite(Register(4))), Ok(()));
        assert_eq!(s.index, 5 * digit as u16);
    }
}

#[test]
fn glyph_address_of_a_value_above_15_keeps_the_index() {
    let mut mem = Memory::new();
    for value in [16u8, 17, 100, 255] {
        let mut s = State::new();
        s.v[4] = value;
        s.index = 0x123;
        assert_eq!(run_mem(&mut s, &mut mem, Instruction::SetAddressToSprite(Register(4))), Ok(()));
        assert_eq!(s.index, 0x123);
        assert_eq!(s.pc, 0x202);
    }
}

#[test]
fn memory_read_and_write_check_bounds() {
    let mut mem = Memory::default();
    assert_eq!(mem, Memory::new());
    assert_eq!(mem.read(0), Ok(0));
    assert_eq!(mem.write(4095, 0xab), Ok(()));
    assert_eq!(mem.read(4095), Ok(0xab));
    assert_eq!(mem.read(4096), Err(Fault::Bounds { address: 4096, access: Access::Read }));
    assert_eq!(
        mem.write(70000, 1),
        Err(Fault::Bounds { address: 70000, access: Access::Write })
    );
    let mut expected = Memory::new();
    expected.mem[4095] = 0xab;
    assert_eq!(mem, expected);
}

#[test]
fn memory_load_copies_or_refuses_whole() {
    let mut mem = Memory::new();
    assert_eq!(mem.load(4093, &[1, 2, 3]), Ok(()));
    assert_eq!(&mem.mem[4092..], &[0, 1, 2, 3]);
    let before = mem.clone();
    assert_eq!(
        mem.load(4094, &[9, 9, 9]),
        Err(Fault::Bounds { address: 4096, access: Access::Write })
    );
    assert_eq!(
        mem.load(5000, &[9]),
        Err(Fault::Bounds { address: 5000, access: Access::Write })
    );
    assert_eq!(mem.load(usize::MAX, &[9, 9]), Err(Fault::Bounds { address: usize::MAX, access: Access::Write }));
    assert_eq!(mem, before);
    assert_eq!(mem.load(4096, &[]), Ok(()));
    assert_eq!(mem, before);
}

#[test]
fn memory_block_borrows_a_range() {
    let mut mem = Memory::new();
    mem.load(100, &[5, 6, 7, 8]).unwrap();
    assert_eq!(mem.block(101, 2), Ok(&[6u8, 7][..]));
    assert_eq!(mem.block(4096, 0), Ok(&[][..]));
    assert_eq!(mem.block(4090, 7), Err(Fault::Bounds { address: 4096, access: Access::Read }));
    assert_eq!(mem.block(9000, 1), Err(Fault::Bounds { address: 9000, access: Access::Read }));
}

#[test]
fn font_is_installed_at_the_bottom_of_memory() {
    let mut mem = Memory::new();
    mem.load(80, &[0xaa, 0xbb]).unwrap();
    mem.install_font();
    assert_eq!(&mem.mem[0..80], &FONT);
    assert_eq!(&mem.mem[0..5], &[0xf0, 0x90, 0x90, 0x90, 0xf0]);
    assert_eq!(&mem.mem[5..10], &[0x20, 0x60, 0x20, 0x20, 0x70]);
    assert_eq!(&mem.mem[75..80], &[0xf0, 0x80, 0xf0, 0x80, 0x80]);
    assert_eq!(&mem.mem[80..83], &[0xaa, 0xbb, 0x00]);
}
