use chip8::chip8::Chip8;
use chip8::cpu::{Cpu, StepError, VF};
use chip8::input::Input;
use chip8::memory::Fault;

fn machine(program: &[u16]) -> Chip8 {
    let mut m = Chip8::new();
    let mut rom = Vec::new();
    for w in program {
        rom.push((w >> 8) as u8);
        rom.push((w & 0xFF) as u8);
    }
    m.memory.load_rom(&rom).unwrap();
    m
}

fn step(m: &mut Chip8) -> Result<(), StepError> {
    m.cpu.step_with(&mut m.memory, &mut m.display, &m.input, &mut m.audio, 0)
}

fn step_rnd(m: &mut Chip8, rnd: u8) -> Result<(), StepError> {
    m.cpu.step_with(&mut m.memory, &mut m.display, &m.input, &mut m.audio, rnd)
}

#[test]
fn new_cpu_starts_at_program_start() {
    let mut c = Cpu::new();
    assert_eq!((c.pc, c.i, c.v), (0x200, 0, [0; 16]));
    c.pc = 0x300;
    c.i = 5;
    c.v[3] = 9;
    c.reset();
    assert_eq!((c.pc, c.i, c.v), (0x200, 0, [0; 16]));
}

#[test]
fn load_immediate_then_read_back() {
    for nn in [0x00u8, 0x01, 0x7F, 0xFF] {
        let mut m = machine(&[0x6500 | nn as u16, 0xF507]);
        m.cpu.v[VF] = 0x33;
        step(&mut m).unwrap();
        assert_eq!(m.cpu.v[5], nn);
        assert_eq!(m.cpu.v[VF], 0x33);
        assert!(m.cpu.v.iter().enumerate().all(|(k, &r)| k == 5 || k == VF || r == 0));
        assert_eq!(m.cpu.pc, 0x202);
    }
}

#[test]
fn get_delay_reads_the_timer() {
    let mut m = machine(&[0xF507]);
    m.audio.delay_timer = 42;
    step(&mut m).unwrap();
    assert_eq!(m.cpu.v[5], 42);
}

#[test]
fn add_immediate_wraps_without_flag() {
    let mut m = machine(&[0x7001]);
    m.cpu.v[0] = 0xFF;
    m.cpu.v[VF] = 0x5A;
    step(&mut m).unwrap();
    assert_eq!(m.cpu.v[0], 0x00);
    assert_eq!(m.cpu.v[VF], 0x5A);
}

#[test]
fn add_registers_sets_carry() {
    let mut m = machine(&[0x8014, 0x8234]);
    m.cpu.v[0] = 0xFF;
    m.cpu.v[1] = 0x01;
    m.cpu.v[2] = 0x01;
    m.cpu.v[3] = 0x01;
    step(&mut m).unwrap();
    assert_eq!((m.cpu.v[0], m.cpu.v[VF]), (0x00, 1));
    step(&mut m).unwrap();
    assert_eq!((m.cpu.v[2], m.cpu.v[VF]), (0x02, 0));
}

#[test]
fn subtract_registers_sets_no_borrow() {
    let mut m = machine(&[0x8015, 0x8235]);
    m.cpu.v[0] = 0x05;
    m.cpu.v[1] = 0x03;
    m.cpu.v[2] = 0x03;
    m.cpu.v[3] = 0x05;
    step(&mut m).unwrap();
    assert_eq!((m.cpu.v[0], m.cpu.v[VF]), (0x02, 1));
    step(&mut m).unwrap();
    assert_eq!((m.cpu.v[2], m.cpu.v[VF]), (0xFE, 0));
}

#[test]
fn reverse_subtract_and_logic_ops() {
    let mut m = machine(&[0x8017, 0x8231, 0x8452, 0x8673]);
    m.cpu.v[0] = 0x03;
    m.cpu.v[1] = 0x05;
    m.cpu.v[2] = 0b1010;
    m.cpu.v[3] = 0b0101;
    m.cpu.v[4] = 0b1100;
    m.cpu.v[5] = 0b1010;
    m.cpu.v[6] = 0b1100;
    m.cpu.v[7] = 0b1010;
    step(&mut m).unwrap();
    assert_eq!((m.cpu.v[0], m.cpu.v[VF]), (0x02, 1));
    step(&mut m).unwrap();
    assert_eq!(m.cpu.v[2], 0b1111);
    step(&mut m).unwrap();
    assert_eq!(m.cpu.v[4], 0b1000);
    step(&mut m).unwrap();
    assert_eq!(m.cpu.v[6], 0b0110);
}

#[test]
fn shifts_take_the_source_register() {
    let mut m = machine(&[0x8016, 0x823E, 0x8450]);
    m.cpu.v[0] = 0xAA;
    m.cpu.v[1] = 0x03;
    m.cpu.v[2] = 0x00;
    m.cpu.v[3] = 0x81;
    m.cpu.v[5] = 0x77;
    step(&mut m).unwrap();
    assert_eq!((m.cpu.v[0], m.cpu.v[VF]), (0x01, 1));
    step(&mut m).unwrap();
    assert_eq!((m.cpu.v[2], m.cpu.v[VF]), (0x02, 1));
    step(&mut m).unwrap();
    assert_eq!(m.cpu.v[4], 0x77);
}

#[test]
fn flag_write_wins_when_target_is_vf() {
    let mut m = machine(&[0x8F14]);
    m.cpu.v[VF] = 0x10;
    m.cpu.v[1] = 0x20;
    step(&mut m).unwrap();
    assert_eq!(m.cpu.v[VF], 0);
}

#[test]
fn bcd_of_157() {
    let mut m = machine(&[0xF333]);
    m.cpu.v[3] = 157;
    m.cpu.i = 0x300;
    step(&mut m).unwrap();
    assert_eq!(&m.memory.ram[0x300..0x303], &[1, 5, 7]);
}

#[test]
fn bcd_past_the_end_faults_without_writing() {
    let mut m = machine(&[0xF333]);
    m.cpu.v[3] = 157;
    m.cpu.i = 0xFFE;
    let e = step(&mut m).unwrap_err();
    assert_eq!(e, StepError { fault: Fault::OutOfBoundsAccess, pc: 0x200, opcode: 0xF333 });
    assert_eq!(m.memory.ram[0xFFE], 0);
    assert_eq!(m.cpu.pc, 0x200);
}

#[test]
fn skips_compare_registers_and_immediates() {
    let mut m = machine(&[0x3007, 0x0000, 0x4107, 0x5010, 0x0000, 0x9020, 0x0000, 0x3008]);
    m.cpu.v[0] = 7;
    m.cpu.v[1] = 7;
    m.cpu.v[2] = 8;
    step(&mut m).unwrap();
    assert_eq!(m.cpu.pc, 0x204);
    step(&mut m).unwrap();
    assert_eq!(m.cpu.pc, 0x206);
    step(&mut m).unwrap();
    assert_eq!(m.cpu.pc, 0x20A);
    step(&mut m).unwrap();
    assert_eq!(m.cpu.pc, 0x20E);
    step(&mut m).unwrap();
    assert_eq!(m.cpu.pc, 0x210);
}

#[test]
fn jumps_and_index_ops() {
    let mut m = machine(&[0xB300]);
    m.cpu.v[0] = 0x10;
    step(&mut m).unwrap();
    assert_eq!(m.cpu.pc, 0x310);
    let mut m = machine(&[0x1456]);
    step(&mut m).unwrap();
    assert_eq!(m.cpu.pc, 0x456);
    let mut m = machine(&[0xAFFF, 0xF01E, 0xF129]);
    m.cpu.v[0] = 0x02;
    m.cpu.v[1] = 0x0A;
    step(&mut m).unwrap();
    assert_eq!(m.cpu.i, 0xFFF);
    step(&mut m).unwrap();
    assert_eq!(m.cpu.i, 0x1001);
    assert_eq!(m.cpu.v[VF], 0);
    step(&mut m).unwrap();
    assert_eq!(m.cpu.i, 50);
}

#[test]
fn index_add_wraps_at_sixteen_bits() {
    let mut m = machine(&[0xF01E]);
    m.cpu.i = 0xFFFF;
    m.cpu.v[0] = 2;
    step(&mut m).unwrap();
    assert_eq!(m.cpu.i, 1);
}

#[test]
fn call_then_return_resumes_after_call() {
    let mut m = machine(&[0x2300]);
    m.memory.ram[0x300] = 0x00;
    m.memory.ram[0x301] = 0xEE;
    step(&mut m).unwrap();
    assert_eq!(m.cpu.pc, 0x300);
    assert_eq!(m.memory.stack, vec![0x202]);
    step(&mut m).unwrap();
    assert_eq!(m.cpu.pc, 0x202);
    assert!(m.memory.stack.is_empty());
}

#[test]
fn seventeenth_nested_call_overflows() {
    // Each of 0x200, 0x202, ... calls the next word.
    let program: Vec<u16> = (0..17u16).map(|k| 0x2202 + 2 * k).collect();
    let mut m = machine(&program);
    for _ in 0..16 {
        step(&mut m).unwrap();
    }
    assert_eq!(m.memory.stack.len(), 16);
    let e = step(&mut m).unwrap_err();
    assert_eq!(e, StepError { fault: Fault::StackOverflow, pc: 0x220, opcode: 0x2222 });
    assert_eq!(m.cpu.pc, 0x220);
    assert_eq!(m.memory.stack.len(), 16);
}

#[test]
fn sixteen_calls_and_returns_each_resume() {
    let mut m = machine(&[0x2300, 0x2300, 0x2300, 0x2300]);
    m.memory.ram[0x300] = 0x00;
    m.memory.ram[0x301] = 0xEE;
    for k in 0..16u16 {
        m.cpu.pc = 0x200;
        step(&mut m).unwrap();
        step(&mut m).unwrap();
        assert_eq!(m.cpu.pc, 0x202, "round {}", k);
        assert!(m.memory.stack.is_empty());
    }
}

#[test]
fn return_on_empty_stack_underflows() {
    let mut m = machine(&[0x00EE]);
    let e = step(&mut m).unwrap_err();
    assert_eq!(e, StepError { fault: Fault::StackUnderflow, pc: 0x200, opcode: 0x00EE });
}

#[test]
fn unknown_word_faults_with_pc_and_opcode() {
    let mut m = machine(&[0x6001, 0xF0FF]);
    step(&mut m).unwrap();
    let e = step(&mut m).unwrap_err();
    assert_eq!(e, StepError { fault: Fault::UnimplementedOpcode, pc: 0x202, opcode: 0xF0FF });
    assert_eq!(m.cpu.pc, 0x202);
}

#[test]
fn fetch_past_the_end_faults() {
    let mut m = machine(&[]);
    m.cpu.pc = 0xFFF;
    let e = step(&mut m).unwrap_err();
    assert_eq!(e, StepError { fault: Fault::OutOfBoundsAccess, pc: 0xFFF, opcode: 0 });
}

#[test]
fn key_skips_follow_the_snapshot_of_each_step() {
    let mut m = machine(&[0xE09E, 0x0000, 0xE0A1, 0xE09E]);
    m.cpu.v[0] = 0xA;
    m.input.set_key(0xA, true);
    step(&mut m).unwrap();
    assert_eq!(m.cpu.pc, 0x204);
    step(&mut m).unwrap();
    assert_eq!(m.cpu.pc, 0x206);
    m.input.set_key(0xA, false);
    step(&mut m).unwrap();
    assert_eq!(m.cpu.pc, 0x208);
}

#[test]
fn key_beyond_keypad_is_never_held() {
    let mut m = machine(&[0xE0A1]);
    m.cpu.v[0] = 0x20;
    m.input.set_state([true; 16]);
    step(&mut m).unwrap();
    assert_eq!(m.cpu.pc, 0x204);
}

#[test]
fn wait_key_repeats_until_a_key_is_held() {
    let mut m = machine(&[0xF30A]);
    step(&mut m).unwrap();
    assert_eq!(m.cpu.pc, 0x200);
    step(&mut m).unwrap();
    assert_eq!(m.cpu.pc, 0x200);
    let mut keys = Input::new();
    keys.set_key(9, true);
    keys.set_key(4, true);
    m.input = keys;
    step(&mut m).unwrap();
    assert_eq!(m.cpu.pc, 0x202);
    assert_eq!(m.cpu.v[3], 4);
}

#[test]
fn timers_set_from_registers() {
    let mut m = machine(&[0xF115, 0xF218]);
    m.cpu.v[1] = 30;
    m.cpu.v[2] = 7;
    step(&mut m).unwrap();
    step(&mut m).unwrap();
    assert_eq!((m.audio.delay_timer, m.audio.sound_timer), (30, 7));
}

#[test]
fn store_and_load_registers() {
    let mut m = machine(&[0xF255, 0x6000, 0x6100, 0x6200, 0x6309, 0xF265]);
    m.cpu.i = 0x400;
    m.cpu.v[0] = 1;
    m.cpu.v[1] = 2;
    m.cpu.v[2] = 3;
    m.cpu.v[3] = 4;
    step(&mut m).unwrap();
    assert_eq!(&m.memory.ram[0x400..0x404], &[1, 2, 3, 0]);
    for _ in 0..5 {
        step(&mut m).unwrap();
    }
    assert_eq!(&m.cpu.v[0..4], &[1, 2, 3, 9]);
    assert_eq!(m.cpu.i, 0x400);
}

#[test]
fn store_registers_past_the_end_faults() {
    let mut m = machine(&[0xF355, 0xF365]);
    m.cpu.i = 0xFFD;
    m.cpu.v[3] = 0x44;
    assert_eq!(step(&mut m).unwrap_err().fault, Fault::OutOfBoundsAccess);
    assert_eq!(m.memory.ram[0xFFD], 0);
    m.cpu.pc = 0x202;
    assert_eq!(step(&mut m).unwrap_err().fault, Fault::OutOfBoundsAccess);
    assert_eq!(m.cpu.v[3], 0x44);
}

#[test]
fn random_byte_is_masked() {
    let mut m = machine(&[0xC50F, 0xC6F0]);
    step_rnd(&mut m, 0xAB).unwrap();
    assert_eq!(m.cpu.v[5], 0x0B);
    step_rnd(&mut m, 0xAB).unwrap();
    assert_eq!(m.cpu.v[6], 0xA0);
}

#[test]
fn random_with_zero_mask_is_zero() {
    let mut m = machine(&[0xC500]);
    m.cpu.v[5] = 0x77;
    let (mem, disp, inp, aud) = (&mut m.memory, &mut m.display, &m.input, &mut m.audio);
    m.cpu.step(mem, disp, inp, aud).unwrap();
    assert_eq!(m.cpu.v[5], 0);
}

#[test]
fn draw_font_glyph_then_redraw_collides() {
    // V0 = 0, I = glyph 0, draw 5 rows at (V1, V2) twice.
    let mut m = machine(&[0xF029, 0xD125, 0xD125]);
    m.cpu.v[1] = 10;
    m.cpu.v[2] = 3;
    step(&mut m).unwrap();
    step(&mut m).unwrap();
    assert_eq!(m.cpu.v[VF], 0);
    assert!(m.display.get_pixel(10, 3));
    assert!(m.display.get_pixel(13, 3));
    assert!(!m.display.get_pixel(11, 4));
    assert!(m.display.is_dirty);
    step(&mut m).unwrap();
    assert_eq!(m.cpu.v[VF], 1);
    assert!(m.display.vram.iter().all(|&b| b == 0));
}

#[test]
fn draw_full_row_twice_sets_flag_second_time() {
    let mut m = machine(&[0xA300, 0xD011, 0xD011]);
    m.memory.ram[0x300] = 0xFF;
    m.cpu.v[0] = 60;
    m.cpu.v[1] = 31;
    step(&mut m).unwrap();
    step(&mut m).unwrap();
    assert_eq!(m.cpu.v[VF], 0);
    assert!(m.display.get_pixel(63, 31));
    assert!(m.display.get_pixel(0, 31));
    assert!(m.display.get_pixel(3, 31));
    step(&mut m).unwrap();
    assert_eq!(m.cpu.v[VF], 1);
    assert!(m.display.vram.iter().all(|&b| b == 0));
}

#[test]
fn draw_reading_past_memory_faults() {
    let mut m = machine(&[0xAFFE, 0xD013]);
    step(&mut m).unwrap();
    let before = m.display.vram;
    m.display.take_dirty();
    let e = step(&mut m).unwrap_err();
    assert_eq!(e, StepError { fault: Fault::OutOfBoundsAccess, pc: 0x202, opcode: 0xD013 });
    assert_eq!(m.display.vram, before);
    assert!(!m.display.is_dirty);
}

#[test]
fn clear_screen_blanks_and_marks_dirty() {
    let mut m = machine(&[0xA000, 0xD005, 0x00E0]);
    step(&mut m).unwrap();
    step(&mut m).unwrap();
    m.display.take_dirty();
    step(&mut m).unwrap();
    assert!(m.display.vram.iter().all(|&b| b == 0));
    assert!(m.display.is_dirty);
}
