use chip8::fault::{Access, Fault};
use chip8::instruction::Instruction;
use chip8::keypad::Keypad;
use chip8::memory::Memory;
use chip8::operand::{Constant, Register};
use chip8::screen::{Framebuffer, DARK, LIT};
use chip8::state::State;
use chip8::timer::Timer;

fn lit_pixels(screen: &Framebuffer) -> Vec<(usize, usize)> {
    let mut lit = Vec::new();
    for y in 0..32 {
        for x in 0..64 {
            if screen.get(x, y) {
                lit.push((x, y));
            }
        }
    }
    lit
}

fn draw_with(
    s: &mut State,
    mem: &mut Memory,
    screen: &mut Framebuffer,
    i: Instruction,
) -> Result<(), Fault> {
    let mut timer = Timer::new(0);
    let keys = Keypad::new();
    i.execute_with(s, mem, screen, &mut timer, &keys, 0)
}

#[test]
fn drawing_glyph_zero_twice_restores_the_display() {
    let mut s = State::new();
    let mut mem = Memory::new();
    mem.install_font();
    let mut screen = Framebuffer::new();
    s.index = 0;
    let draw = Instruction::DrawSprite(Register(0), Register(1), Constant(5));

    assert_eq!(draw_with(&mut s, &mut mem, &mut screen, draw), Ok(()));
    assert_eq!(s.v[15], 0);
    let expected = vec![
        (0, 0), (1, 0), (2, 0), (3, 0),
        (0, 1), (3, 1),
        (0, 2), (3, 2),
        (0, 3), (3, 3),
        (0, 4), (1, 4), (2, 4), (3, 4),
    ];
    assert_eq!(lit_pixels(&screen), expected);

    assert_eq!(draw_with(&mut s, &mut mem, &mut screen, draw), Ok(()));
    assert_eq!(s.v[15], 1);
    assert_eq!(lit_pixels(&screen), vec![]);
    assert_eq!(screen, Framebuffer::new());
    assert_eq!(s.pc, 0x204);
}

#[test]
fn drawing_twice_restores_any_display() {
    let mut screen = Framebuffer::new();
    for k in 0..2048usize {
        if (k * 7 + k / 64) % 3 == 0 {
            screen.set(k % 64, k / 64, true);
        }
    }
    let before = screen.clone();
    let rows = [0xff, 0x81, 0x00, 0x18, 0xa5, 0x3c];
    for (x0, y0) in [(0u8, 0u8), (60, 29), (63, 31), (200, 100), (255, 255)] {
        let first = screen.draw(&rows, x0, y0);
        assert_ne!(screen, before);
        let second = screen.draw(&rows, x0, y0);
        assert_eq!(screen, before);
        assert!(first || second);
    }
}

#[test]
fn draw_reports_a_collision_only_when_a_lit_pixel_goes_dark() {
    let mut screen = Framebuffer::new();
    assert_eq!(screen.draw(&[0b1100_0000], 0, 0), false);
    assert_eq!(screen.draw(&[0b0011_0000], 0, 0), false);
    assert_eq!(lit_pixels(&screen), vec![(0, 0), (1, 0), (2, 0), (3, 0)]);
    assert_eq!(screen.draw(&[0b0001_1000], 0, 0), true);
    assert_eq!(lit_pixels(&screen), vec![(0, 0), (1, 0), (2, 0), (4, 0)]);
    assert_eq!(screen.draw(&[0x00], 0, 0), false);
    assert_eq!(screen.draw(&[], 0, 0), false);
}

#[test]
fn draw_wraps_around_both_edges() {
    let mut screen = Framebuffer::new();
    assert_eq!(screen.draw(&[0xff, 0x81], 60, 31), false);
    let expected = vec![
        (3, 0), (60, 0),
        (0, 31), (1, 31), (2, 31), (3, 31), (60, 31), (61, 31), (62, 31), (63, 31),
    ];
    assert_eq!(lit_pixels(&screen), expected);
}

#[test]
fn draw_takes_coordinates_modulo_the_display_size() {
    let mut a = Framebuffer::new();
    let mut b = Framebuffer::new();
    a.draw(&[0xf0, 0x0f], 64 + 5, 32 * 3 + 7);
    b.draw(&[0xf0, 0x0f], 5, 7);
    assert_eq!(a, b);
    assert_eq!(
        lit_pixels(&b),
        vec![(5, 7), (6, 7), (7, 7), (8, 7), (9, 8), (10, 8), (11, 8), (12, 8)]
    );
}

#[test]
fn draw_instruction_uses_registers_and_index() {
    let mut s = State::new();
    let mut mem = Memory::new();
    mem.load(0x300, &[0x80, 0x40, 0x20]).unwrap();
    let mut screen = Framebuffer::new();
    s.index = 0x300;
    s.v[2] = 10;
    s.v[3] = 20;
    let draw = Instruction::DrawSprite(Register(2), Register(3), Constant(3));
    assert_eq!(draw_with(&mut s, &mut mem, &mut screen, draw), Ok(()));
    assert_eq!(lit_pixels(&screen), vec![(10, 20), (11, 21), (12, 22)]);
    assert_eq!(s.v[15], 0);
    assert_eq!(s.index, 0x300);
    assert_eq!(s.pc, 0x202);
}

#[test]
fn draw_instruction_with_height_zero_draws_nothing() {
    let mut s = State::new();
    let mut mem = Memory::new();
    mem.install_font();
    let mut screen = Framebuffer::new();
    s.v[15] = 1;
    let draw = Instruction::DrawSprite(Register(0), Register(0), Constant(0));
    assert_eq!(draw_with(&mut s, &mut mem, &mut screen, draw), Ok(()));
    assert_eq!(screen, Framebuffer::new());
    assert_eq!(s.v[15], 0);
}

#[test]
fn draw_instruction_past_the_end_of_memory_is_a_bounds_fault() {
    let mut s = State::new();
    let mut mem = Memory::new();
    let mut screen = Framebuffer::new();
    s.index = 4090;
    let ok = Instruction::DrawSprite(Register(0), Register(0), Constant(6));
    assert_eq!(draw_with(&mut s, &mut mem, &mut screen, ok), Ok(()));
    let bad = Instruction::DrawSprite(Register(0), Register(0), Constant(7));
    let before = s.clone();
    assert_eq!(
        draw_with(&mut s, &mut mem, &mut screen, bad),
        Err(Fault::Bounds { address: 4096, access: Access::Read })
    );
    assert_eq!(s, before);
    assert_eq!(screen, Framebuffer::new());
}

#[test]
fn clear_screen_darkens_every_pixel() {
    let mut s = State::new();
    let mut mem = Memory::new();
    let mut screen = Framebuffer::new();
    screen.set(0, 0, true);
    screen.set(63, 31, true);
    screen.set(17, 9, true);
    assert_eq!(draw_with(&mut s, &mut mem, &mut screen, Instruction::ClearScreen), Ok(()));
    assert_eq!(screen, Framebuffer::new());
    assert_eq!(s.pc, 0x202);
}

#[test]
fn framebuffer_get_set_and_clear() {
    let mut screen = Framebuffer::default();
    assert_eq!(screen.get(5, 6), false);
    screen.set(5, 6, true);
    assert_eq!(screen.get(5, 6), true);
    assert_eq!(screen.get(6, 5), false);
    assert_eq!(screen.cells[6 * 64 + 5], true);
    assert_eq!(lit_pixels(&screen), vec![(5, 6)]);
    screen.set(5, 6, false);
    assert_eq!(lit_pixels(&screen), vec![]);
    screen.set(63, 31, true);
    screen.clear();
    assert_eq!(screen, Framebuffer::new());
}

#[test]
fn render_gives_one_colour_word_per_pixel() {
    let mut screen = Framebuffer::new();
    screen.set(1, 0, true);
    screen.set(63, 31, true);
    let words = screen.render();
    assert_eq!(words.len(), 2048);
    assert_eq!(LIT, 0xffff_ffff);
    assert_eq!(DARK, 0xff00_0000);
    for (k, word) in words.iter().enumerate() {
        let expected = if k == 1 || k == 2047 { 0xffff_ffff } else { 0xff00_0000 };
        assert_eq!(*word, expected);
    }
}

#[test]
fn other_instructions_leave_the_display_alone() {
    let mut s = State::new();
    let mut mem = Memory::new();
    let mut screen = Framebuffer::new();
    screen.set(3, 3, true);
    let before = screen.clone();
    for i in [
        Instruction::SetImmediate(Register(1), Constant(200)),
        Instruction::AdcRegister(Register(1), Register(1)),
        Instruction::StoreBCD(Register(1)),
        Instruction::StoreRegisters(Register(15)),
        Instruction::SetAddressToSprite(Register(2)),
    ] {
        assert_eq!(draw_with(&mut s, &mut mem, &mut screen, i), Ok(()));
        assert_eq!(screen, before);
    }
}
