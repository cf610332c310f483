use chip8::audio::Audio;
use chip8::display::Display;
use chip8::input::Input;
use chip8::instruction::{decode, Instruction};
use chip8::memory::{Fault, Memory, MAX_ROM_SIZE, PROGRAM_START};

#[test]
fn memory_starts_with_font_and_zeros() {
    let m = Memory::new();
    assert_eq!(&m.ram[0..5], &[0xF0, 0x90, 0x90, 0x90, 0xF0]);
    assert_eq!(&m.ram[75..80], &[0xF0, 0x80, 0xF0, 0x80, 0x80]);
    assert!(m.ram[80..].iter().all(|&b| b == 0));
    assert!(m.stack.is_empty());
}

#[test]
fn fetch16_is_big_endian_and_bounds_checked() {
    let mut m = Memory::new();
    m.ram[0x300] = 0xAB;
    m.ram[0x301] = 0xCD;
    assert_eq!(m.fetch16(0x300), Ok(0xABCD));
    assert_eq!(m.fetch16(0xFFE), Ok(0x0000));
    assert_eq!(m.fetch16(0xFFF), Err(Fault::OutOfBoundsAccess));
}

#[test]
fn read_write_reject_out_of_range() {
    let mut m = Memory::new();
    assert_eq!(m.write(0xFFF, 7), Ok(()));
    assert_eq!(m.read(0xFFF), Ok(7));
    assert_eq!(m.write(0x1000, 7), Err(Fault::OutOfBoundsAccess));
    assert_eq!(m.read(0x1000), Err(Fault::OutOfBoundsAccess));
}

#[test]
fn stack_overflows_at_sixteen_and_underflows_when_empty() {
    let mut m = Memory::new();
    assert_eq!(m.pop(), Err(Fault::StackUnderflow));
    for k in 0..16u16 {
        assert_eq!(m.push(k), Ok(()));
    }
    assert_eq!(m.push(99), Err(Fault::StackOverflow));
    assert_eq!(m.stack.len(), 16);
    assert_eq!(m.pop(), Ok(15));
}

#[test]
fn rom_loads_at_program_start() {
    let mut m = Memory::new();
    assert_eq!(m.load_rom(&vec![1, 2, 3]), Ok(()));
    assert_eq!(&m.ram[PROGRAM_START..PROGRAM_START + 3], &[1, 2, 3]);
    assert_eq!(m.ram[PROGRAM_START + 3], 0);
    let full = vec![0xAA; MAX_ROM_SIZE];
    assert_eq!(m.load_rom(&full), Ok(()));
    assert_eq!(m.ram[0xFFF], 0xAA);
}

#[test]
fn rom_too_large_is_rejected() {
    let mut m = Memory::new();
    let big = vec![1u8; MAX_ROM_SIZE + 1];
    assert_eq!(m.load_rom(&big), Err(Fault::OutOfBoundsAccess));
    assert_eq!(m.ram[PROGRAM_START], 0);
}

#[test]
fn timers_tick_down_and_stop_at_zero() {
    let mut a = Audio::new();
    a.delay_timer = 2;
    a.sound_timer = 1;
    assert!(a.is_sounding());
    a.tick();
    assert_eq!((a.delay_timer, a.sound_timer), (1, 0));
    assert!(!a.is_sounding());
    a.tick();
    a.tick();
    assert_eq!((a.delay_timer, a.sound_timer), (0, 0));
    a.delay_timer = 9;
    a.reset();
    assert_eq!((a.delay_timer, a.sound_timer), (0, 0));
}

#[test]
fn sixty_ticks_empty_a_delay_of_sixty() {
    let mut a = Audio::new();
    a.delay_timer = 60;
    for _ in 0..59 {
        a.tick();
    }
    assert_eq!(a.delay_timer, 1);
    a.tick();
    assert_eq!(a.delay_timer, 0);
}

#[test]
fn keypad_lookup_and_lowest_pressed() {
    let mut inp = Input::new();
    assert!(!inp.any_pressed());
    assert_eq!(inp.first_pressed(), None);
    inp.set_key(0xC, true);
    inp.set_key(0x5, true);
    assert!(inp.is_pressed(0x5));
    assert!(!inp.is_pressed(0x4));
    assert!(!inp.is_pressed(16));
    assert_eq!(inp.first_pressed(), Some(5));
    assert!(inp.any_pressed());
    let mut all = [false; 16];
    all[15] = true;
    inp.set_state(all);
    assert_eq!(inp.first_pressed(), Some(15));
}

#[test]
fn display_starts_blank_and_dirty() {
    let mut d = Display::new();
    assert!(d.vram.iter().all(|&b| b == 0));
    assert!(d.take_dirty());
    assert!(!d.take_dirty());
    assert_eq!(d.update(), None);
}

#[test]
fn drawing_a_full_row_twice_restores_and_collides() {
    let mut d = Display::new();
    let sprite = [0xFFu8];
    let before = d.vram;
    assert!(!d.draw(3, 4, &sprite));
    for x in 3..11 {
        assert!(d.get_pixel(x, 4));
    }
    assert!(!d.get_pixel(2, 4));
    assert!(!d.get_pixel(11, 4));
    assert!(d.draw(3, 4, &sprite));
    assert_eq!(d.vram, before);
}

#[test]
fn drawing_wraps_at_both_edges() {
    let mut d = Display::new();
    d.take_dirty();
    // Origin (60 + 64, 31 + 32) wraps to (60, 31).
    assert!(!d.draw(124, 63, &[0b1000_0001, 0b0100_0000]));
    assert!(d.get_pixel(60, 31));
    assert!(d.get_pixel(3, 31));
    assert!(d.get_pixel(61, 0));
    assert!(!d.get_pixel(60, 0));
    assert_eq!(d.vram.iter().map(|b| b.count_ones()).sum::<u32>(), 3);
    assert_eq!(d.update(), Some(d.vram));
    assert_eq!(d.update(), None);
}

#[test]
fn partial_overlap_reports_collision() {
    let mut d = Display::new();
    assert!(!d.draw(0, 0, &[0b1100_0000]));
    assert!(d.draw(1, 0, &[0b1000_0000]));
    assert!(d.get_pixel(0, 0));
    assert!(!d.get_pixel(1, 0));
    d.reset();
    assert!(d.vram.iter().all(|&b| b == 0));
}

#[test]
fn decode_covers_the_table() {
    assert_eq!(decode(0x00E0), Some(Instruction::ClearScreen));
    assert_eq!(decode(0x00EE), Some(Instruction::Return));
    assert_eq!(decode(0x1ABC), Some(Instruction::Jump { nnn: 0xABC }));
    assert_eq!(decode(0x2ABC), Some(Instruction::Call { nnn: 0xABC }));
    assert_eq!(decode(0x3A42), Some(Instruction::SkipEqImm { x: 0xA, nn: 0x42 }));
    assert_eq!(decode(0x8AB4), Some(Instruction::AddReg { x: 0xA, y: 0xB }));
    assert_eq!(decode(0x8ABE), Some(Instruction::ShiftLeft { x: 0xA, y: 0xB }));
    assert_eq!(decode(0xD125), Some(Instruction::Draw { x: 1, y: 2, n: 5 }));
    assert_eq!(decode(0xE39E), Some(Instruction::SkipKeyDown { x: 3 }));
    assert_eq!(decode(0xF40A), Some(Instruction::WaitKey { x: 4 }));
    assert_eq!(decode(0xF565), Some(Instruction::LoadRegs { x: 5 }));
}

#[test]
fn decode_rejects_unknown_words() {
    for op in [0x0000u16, 0x0123, 0x5121, 0x8008, 0x900F, 0xE000, 0xF0FF, 0xF001] {
        assert_eq!(decode(op), None, "{:04X}", op);
    }
}
