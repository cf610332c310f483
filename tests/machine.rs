use chip8::chip8::Chip8;
use chip8::cpu::StepError;
use chip8::memory::Fault;

fn load(m: &mut Chip8, program: &[u16]) {
    let mut rom = Vec::new();
    for w in program {
        rom.push((w >> 8) as u8);
        rom.push((w & 0xFF) as u8);
    }
    m.memory.load_rom(&rom).unwrap();
}

#[test]
fn new_machine_is_running_and_blank() {
    let m = Chip8::new();
    assert!(m.running);
    assert_eq!(m.cpu.pc, 0x200);
    assert!(m.display.is_dirty);
    assert_eq!((m.audio.delay_timer, m.audio.sound_timer), (0, 0));
}

#[test]
fn run_ticks_timers_independently_of_steps() {
    // Delay = 60, then spin on a jump to self.
    let mut m = Chip8::new();
    load(&mut m, &[0x603C, 0xF015, 0x1204]);
    assert!(m.run([false; 16], 2, 0).is_ok());
    assert_eq!(m.audio.delay_timer, 60);
    for _ in 0..60 {
        m.run([false; 16], 17, 1).unwrap();
    }
    assert_eq!(m.audio.delay_timer, 0);
    assert_eq!(m.cpu.pc, 0x204);
}

#[test]
fn run_ticks_without_steps() {
    let mut m = Chip8::new();
    m.audio.delay_timer = 60;
    m.audio.sound_timer = 3;
    m.run([false; 16], 0, 60).unwrap();
    assert_eq!((m.audio.delay_timer, m.audio.sound_timer), (0, 0));
}

#[test]
fn run_returns_frame_only_when_dirty() {
    let mut m = Chip8::new();
    load(&mut m, &[0xA000, 0xD005, 0x1204]);
    let first = m.run([false; 16], 0, 0).unwrap();
    assert_eq!(first, Some([0u8; 256]));
    assert_eq!(m.run([false; 16], 1, 0).unwrap(), None);
    let frame = m.run([false; 16], 1, 0).unwrap().expect("a frame after drawing");
    assert_eq!(frame[0], 0xF0);
    assert_eq!(frame[8], 0x90);
    assert_eq!(m.run([false; 16], 5, 0).unwrap(), None);
}

#[test]
fn run_passes_the_keypad_snapshot() {
    let mut m = Chip8::new();
    load(&mut m, &[0xF20A, 0x1202]);
    m.run([false; 16], 3, 0).unwrap();
    assert_eq!(m.cpu.pc, 0x200);
    let mut keys = [false; 16];
    keys[7] = true;
    m.run(keys, 1, 0).unwrap();
    assert_eq!(m.cpu.v[2], 7);
    assert!(m.input.is_pressed(7));
}

#[test]
fn run_stops_at_first_fault() {
    let mut m = Chip8::new();
    load(&mut m, &[0x6001, 0x6102, 0xFFFF, 0x6203]);
    m.audio.delay_timer = 5;
    let e = m.run([false; 16], 10, 3).unwrap_err();
    assert_eq!(e, StepError { fault: Fault::UnimplementedOpcode, pc: 0x204, opcode: 0xFFFF });
    assert!(!m.running);
    assert_eq!((m.cpu.v[0], m.cpu.v[1], m.cpu.v[2]), (1, 2, 0));
    assert_eq!(m.audio.delay_timer, 5);
    assert_eq!(m.run([false; 16], 10, 3), Ok(None));
    assert_eq!(m.cpu.pc, 0x204);
}
