//! The interpreter: registers, the effect of each instruction, and the
//! fetch-decode-execute step.

use vstd::prelude::*;
use crate::audio::Audio;
use crate::display::{Display, blank, collides, drawn};
use crate::input::{Input, KEY_COUNT, lowest_pressed, any_pressed};
use crate::instruction::{Instruction, decode, decode_spec};
use crate::memory::{
    Memory,
    Fault,
    word_at,
    MEMORY_SIZE,
    MAX_ADDRESS,
    PROGRAM_START,
    FONT_BASE,
    GLYPH_BYTES,
    STACK_SIZE,
};

verus! {

/// The flags register, VF.
pub const VF: usize = 15;

/// Number of general registers.
pub const REGISTER_COUNT: usize = 16;

/// A fatal fault, with the address and the word of the instruction that
/// raised it. When the word itself could not be fetched, `opcode` is 0.
#[derive(Clone, Copy, Debug, PartialEq, Eq, Structural)]
pub struct StepError {
    pub fault: Fault,
    pub pc: u16,
    pub opcode: u16,
}

/// The processor: index register `i`, program counter `pc` and the general
/// registers V0..VF. The stack depth is the length of the memory's stack.
pub struct Cpu {
    pub i: u16,
    pub pc: u16,
    pub v: [u8; 16],
}

/// Registers, index and program counter all equal.
pub open spec fn regs_same(c0: Cpu, c1: Cpu) -> bool {
    c1.v@ == c0.v@ && c1.i == c0.i && c1.pc == c0.pc
}

/// Register `x` set to `val`; nothing else in the processor changed.
pub open spec fn sets_reg(c0: Cpu, c1: Cpu, x: int, val: u8) -> bool {
    c1.v@ == c0.v@.update(x, val) && c1.i == c0.i && c1.pc == c0.pc
}

/// Register `x` set to `val`, then VF set to `flag`.
pub open spec fn sets_reg_flag(c0: Cpu, c1: Cpu, x: int, val: u8, flag: u8) -> bool {
    c1.v@ == c0.v@.update(x, val).update(VF as int, flag) && c1.i == c0.i && c1.pc == c0.pc
}

/// The index register set to `val`.
pub open spec fn sets_index(c0: Cpu, c1: Cpu, val: u16) -> bool {
    c1.v@ == c0.v@ && c1.i == val && c1.pc == c0.pc
}

/// Control passes to `target`.
pub open spec fn jumps(c0: Cpu, c1: Cpu, target: int) -> bool {
    c1.v@ == c0.v@ && c1.i == c0.i && c1.pc == target
}

/// The next instruction is skipped when `cond` holds.
pub open spec fn skips_if(c0: Cpu, c1: Cpu, cond: bool) -> bool {
    c1.v@ == c0.v@ && c1.i == c0.i && c1.pc == if cond {
        c0.pc + 2
    } else {
        c0.pc as int
    }
}

/// Memory, stack included, unchanged.
pub open spec fn mem_same(m0: Memory, m1: Memory) -> bool {
    m1.ram@ == m0.ram@ && m1.stack@ == m0.stack@
}

/// Screen and dirty flag unchanged.
pub open spec fn screen_same(d0: Display, d1: Display) -> bool {
    d1.vram@ == d0.vram@ && d1.is_dirty == d0.is_dirty
}

/// Both timers unchanged.
pub open spec fn timers_same(a0: Audio, a1: Audio) -> bool {
    a1.delay_timer == a0.delay_timer && a1.sound_timer == a0.sound_timer
}

/// Only the processor may have changed.
pub open spec fn cpu_only(
    m0: Memory,
    m1: Memory,
    d0: Display,
    d1: Display,
    a0: Audio,
    a1: Audio,
) -> bool {
    mem_same(m0, m1) && screen_same(d0, d1) && timers_same(a0, a1)
}

/// Whether key `k` is held in the snapshot; keys past the keypad never are.
pub open spec fn key_down(inp: Input, k: u8) -> bool {
    k < KEY_COUNT && inp.state@[k as int]
}

/// `a + b` wrapped to eight bits.
pub open spec fn add_wrap(a: u8, b: u8) -> u8 {
    ((a + b) % 256) as u8
}

/// `a - b` wrapped to eight bits.
pub open spec fn sub_wrap(a: u8, b: u8) -> u8 {
    ((a - b + 256) % 256) as u8
}

/// Memory after storing `v[0..=x]` at `i..=i+x`.
pub open spec fn stored(ram: Seq<u8>, i: int, v: Seq<u8>, x: int) -> Seq<u8> {
    Seq::new(ram.len(), |a: int| if i <= a <= i + x { v[a - i] } else { ram[a] })
}

/// Registers after loading `v[0..=x]` from `i..=i+x`.
pub open spec fn loaded(v: Seq<u8>, ram: Seq<u8>, i: int, x: int) -> Seq<u8> {
    Seq::new(v.len(), |k: int| if k <= x { ram[i + k] } else { v[k] })
}

/// Memory after storing the hundreds, tens and ones of `b` at `i`, `i+1`, `i+2`.
pub open spec fn bcd_stored(ram: Seq<u8>, i: int, b: u8) -> Seq<u8> {
    ram.update(i, b / 100).update(i + 1, (b % 100) / 10).update(i + 2, b % 10)
}

/// The fault that `ins` raises from the given state, if any. All other
/// instructions are defined on every state.
pub open spec fn fault_of(ins: Instruction, c0: Cpu, m0: Memory) -> Option<Fault> {
    match ins {
        Instruction::Return => if m0.stack@.len() == 0 {
            Some(Fault::StackUnderflow)
        } else {
            None
        },
        Instruction::Call { nnn } => if m0.stack@.len() >= STACK_SIZE {
            Some(Fault::StackOverflow)
        } else {
            None
        },
        Instruction::Draw { x, y, n } => if c0.i + n > MEMORY_SIZE {
            Some(Fault::OutOfBoundsAccess)
        } else {
            None
        },
        Instruction::StoreBcd { x } => if c0.i + 2 > MAX_ADDRESS {
            Some(Fault::OutOfBoundsAccess)
        } else {
            None
        },
        Instruction::StoreRegs { x } => if c0.i + x > MAX_ADDRESS {
            Some(Fault::OutOfBoundsAccess)
        } else {
            None
        },
        Instruction::LoadRegs { x } => if c0.i + x > MAX_ADDRESS {
            Some(Fault::OutOfBoundsAccess)
        } else {
            None
        },
        _ => None,
    }
}

/// The effect of `ins` when it raises no fault: from processor `c0`, memory
/// `m0`, screen `d0` and timers `a0`, with keypad snapshot `inp` and `rnd`
/// as the random byte, to `c1`, `m1`, `d1` and `a1`. The program counter in
/// `c0` already points past the instruction.
pub open spec fn effect(
    ins: Instruction,
    c0: Cpu,
    m0: Memory,
    d0: Display,
    a0: Audio,
    inp: Input,
    rnd: u8,
    c1: Cpu,
    m1: Memory,
    d1: Display,
    a1: Audio,
) -> bool {
    match ins {
        Instruction::ClearScreen => regs_same(c0, c1) && mem_same(m0, m1) && timers_same(a0, a1)
            && blank(d1.vram@) && d1.is_dirty,
        Instruction::Return => jumps(c0, c1, m0.stack@.last() as int) && m1.stack@
            == m0.stack@.drop_last() && m1.ram@ == m0.ram@ && screen_same(d0, d1) && timers_same(
            a0,
            a1,
        ),
        Instruction::Jump { nnn } => jumps(c0, c1, nnn as int) && cpu_only(m0, m1, d0, d1, a0, a1),
        Instruction::Call { nnn } => jumps(c0, c1, nnn as int) && m1.stack@ == m0.stack@.push(c0.pc)
            && m1.ram@ == m0.ram@ && screen_same(d0, d1) && timers_same(a0, a1),
        Instruction::SkipEqImm { x, nn } => skips_if(c0, c1, c0.v@[x as int] == nn) && cpu_only(
            m0,
            m1,
            d0,
            d1,
            a0,
            a1,
        ),
        Instruction::SkipNeImm { x, nn } => skips_if(c0, c1, c0.v@[x as int] != nn) && cpu_only(
            m0,
            m1,
            d0,
            d1,
            a0,
            a1,
        ),
        Instruction::SkipEqReg { x, y } => skips_if(c0, c1, c0.v@[x as int] == c0.v@[y as int])
            && cpu_only(m0, m1, d0, d1, a0, a1),
        Instruction::LoadImm { x, nn } => sets_reg(c0, c1, x as int, nn) && cpu_only(
            m0,
            m1,
            d0,
            d1,
            a0,
            a1,
        ),
        Instruction::AddImm { x, nn } => sets_reg(c0, c1, x as int, add_wrap(c0.v@[x as int], nn))
            && cpu_only(m0, m1, d0, d1, a0, a1),
        Instruction::Move { x, y } => sets_reg(c0, c1, x as int, c0.v@[y as int]) && cpu_only(
            m0,
            m1,
            d0,
            d1,
            a0,
            a1,
        ),
        Instruction::Or { x, y } => sets_reg(c0, c1, x as int, c0.v@[x as int] | c0.v@[y as int])
            && cpu_only(m0, m1, d0, d1, a0, a1),
        Instruction::And { x, y } => sets_reg(c0, c1, x as int, c0.v@[x as int] & c0.v@[y as int])
            && cpu_only(m0, m1, d0, d1, a0, a1),
        Instruction::Xor { x, y } => sets_reg(c0, c1, x as int, c0.v@[x as int] ^ c0.v@[y as int])
            && cpu_only(m0, m1, d0, d1, a0, a1),
        Instruction::AddReg { x, y } => sets_reg_flag(
            c0,
            c1,
            x as int,
            add_wrap(c0.v@[x as int], c0.v@[y as int]),
            if c0.v@[x as int] + c0.v@[y as int] > 255 {
                1
            } else {
                0
            },
        ) && cpu_only(m0, m1, d0, d1, a0, a1),
        Instruction::SubReg { x, y } => sets_reg_flag(
            c0,
            c1,
            x as int,
            sub_wrap(c0.v@[x as int], c0.v@[y as int]),
            if c0.v@[x as int] >= c0.v@[y as int] {
                1
            } else {
                0
            },
        ) && cpu_only(m0, m1, d0, d1, a0, a1),
        Instruction::ShiftRight { x, y } => sets_reg_flag(
            c0,
            c1,
            x as int,
            c0.v@[y as int] >> 1u8,
            c0.v@[y as int] & 1u8,
        ) && cpu_only(m0, m1, d0, d1, a0, a1),
        Instruction::SubRev { x, y } => sets_reg_flag(
            c0,
            c1,
            x as int,
            sub_wrap(c0.v@[y as int], c0.v@[x as int]),
            if c0.v@[y as int] >= c0.v@[x as int] {
                1
            } else {
                0
            },
        ) && cpu_only(m0, m1, d0, d1, a0, a1),
        Instruction::ShiftLeft { x, y } => sets_reg_flag(
            c0,
            c1,
            x as int,
            c0.v@[y as int] << 1u8,
            c0.v@[y as int] >> 7u8,
        ) && cpu_only(m0, m1, d0, d1, a0, a1),
        Instruction::SkipNeReg { x, y } => skips_if(c0, c1, c0.v@[x as int] != c0.v@[y as int])
            && cpu_only(m0, m1, d0, d1, a0, a1),
        Instruction::LoadIndex { nnn } => sets_index(c0, c1, nnn) && cpu_only(
            m0,
            m1,
            d0,
            d1,
            a0,
            a1,
        ),
        Instruction::JumpOffset { nnn } => jumps(c0, c1, nnn + c0.v@[0]) && cpu_only(
            m0,
            m1,
            d0,
            d1,
            a0,
            a1,
        ),
        Instruction::Random { x, nn } => sets_reg(c0, c1, x as int, rnd & nn) && cpu_only(
            m0,
            m1,
            d0,
            d1,
            a0,
            a1,
        ),
        Instruction::Draw { x, y, n } => {
            let sprite = m0.ram@.subrange(c0.i as int, c0.i + n);
            let vx = c0.v@[x as int] as int;
            let vy = c0.v@[y as int] as int;
            &&& drawn(d0.vram@, d1.vram@, sprite, vx, vy)
            &&& d1.is_dirty
            &&& sets_reg(
                c0,
                c1,
                VF as int,
                if collides(d0.vram@, sprite, vx, vy) {
                    1
                } else {
                    0
                },
            )
            &&& mem_same(m0, m1)
            &&& timers_same(a0, a1)
        },
        Instruction::SkipKeyDown { x } => skips_if(c0, c1, key_down(inp, c0.v@[x as int]))
            && cpu_only(m0, m1, d0, d1, a0, a1),
        Instruction::SkipKeyUp { x } => skips_if(c0, c1, !key_down(inp, c0.v@[x as int]))
            && cpu_only(m0, m1, d0, d1, a0, a1),
        Instruction::GetDelay { x } => sets_reg(c0, c1, x as int, a0.delay_timer) && cpu_only(
            m0,
            m1,
            d0,
            d1,
            a0,
            a1,
        ),
        Instruction::SetDelay { x } => regs_same(c0, c1) && mem_same(m0, m1) && screen_same(d0, d1)
            && a1.delay_timer == c0.v@[x as int] && a1.sound_timer == a0.sound_timer,
        Instruction::SetSound { x } => regs_same(c0, c1) && mem_same(m0, m1) && screen_same(d0, d1)
            && a1.sound_timer == c0.v@[x as int] && a1.delay_timer == a0.delay_timer,
        Instruction::AddIndex { x } => sets_index(
            c0,
            c1,
            ((c0.i + c0.v@[x as int]) % 0x10000) as u16,
        )
            && cpu_only(m0, m1, d0, d1, a0, a1),
        Instruction::WaitKey { x } => cpu_only(m0, m1, d0, d1, a0, a1) && if any_pressed(
            inp.state@,
        ) {
            exists|k: int| lowest_pressed(inp.state@, k) && sets_reg(c0, c1, x as int, k as u8)
        } else {
            jumps(c0, c1, c0.pc - 2)
        },
        Instruction::FontChar { x } => sets_index(
            c0,
            c1,
            (FONT_BASE + GLYPH_BYTES * c0.v@[x as int]) as u16,
        ) && cpu_only(m0, m1, d0, d1, a0, a1),
        Instruction::StoreBcd { x } => regs_same(c0, c1) && m1.ram@ == bcd_stored(
            m0.ram@,
            c0.i as int,
            c0.v@[x as int],
        ) && m1.stack@ == m0.stack@ && screen_same(d0, d1) && timers_same(a0, a1),
        Instruction::StoreRegs { x } => regs_same(c0, c1) && m1.ram@ == stored(
            m0.ram@,
            c0.i as int,
            c0.v@,
            x as int,
        ) && m1.stack@ == m0.stack@ && screen_same(d0, d1) && timers_same(a0, a1),
        Instruction::LoadRegs { x } => c1.v@ == loaded(c0.v@, m0.ram@, c0.i as int, x as int)
            && c1.i == c0.i && c1.pc == c0.pc && cpu_only(m0, m1, d0, d1, a0, a1),
    }
}

/// The processor with the program counter moved past one instruction.
pub open spec fn advanced(c: Cpu) -> Cpu {
    Cpu { i: c.i, pc: (c.pc + 2) as u16, v: c.v }
}

/// Nothing in the machine changed.
pub open spec fn all_same(
    c0: Cpu,
    m0: Memory,
    d0: Display,
    a0: Audio,
    c1: Cpu,
    m1: Memory,
    d1: Display,
    a1: Audio,
) -> bool {
    regs_same(c0, c1) && cpu_only(m0, m1, d0, d1, a0, a1)
}

/// The fault that one fetch-decode-execute cycle raises from processor
/// `c0` and memory `m0`, if any: the word at PC cannot be fetched (reported
/// with opcode 0), matches no instruction, or its instruction faults.
pub open spec fn step_fault(c0: Cpu, m0: Memory) -> Option<StepError> {
    if c0.pc + 1 > MAX_ADDRESS {
        Some(StepError { fault: Fault::OutOfBoundsAccess, pc: c0.pc, opcode: 0 })
    } else {
        let op = word_at(m0.ram@, c0.pc as int);
        match decode_spec(op) {
            None => Some(StepError { fault: Fault::UnimplementedOpcode, pc: c0.pc, opcode: op }),
            Some(ins) => match fault_of(ins, advanced(c0), m0) {
                Some(f) => Some(StepError { fault: f, pc: c0.pc, opcode: op }),
                None => None,
            },
        }
    }
}

/// One fetch-decode-execute cycle from (`c0`, `m0`, `d0`, `a0`) to
/// (`c1`, `m1`, `d1`, `a1`), given keypad snapshot `inp` and random byte
/// `rnd`: on a fault nothing changes; otherwise PC moves past the word and
/// its instruction takes effect.
pub open spec fn step_spec(
    c0: Cpu,
    m0: Memory,
    d0: Display,
    a0: Audio,
    inp: Input,
    rnd: u8,
    c1: Cpu,
    m1: Memory,
    d1: Display,
    a1: Audio,
) -> bool {
    match step_fault(c0, m0) {
        Some(e) => all_same(c0, m0, d0, a0, c1, m1, d1, a1),
        None => decode_spec(word_at(m0.ram@, c0.pc as int)) matches Some(ins) && effect(
            ins,
            advanced(c0),
            m0,
            d0,
            a0,
            inp,
            rnd,
            c1,
            m1,
            d1,
            a1,
        ),
    }
}

/// A step on 6xnn puts `nn` in Vx and changes nothing else but PC, which
/// moves to the next instruction.
pub proof fn lemma_load_immediate(
    c0: Cpu,
    m0: Memory,
    d0: Display,
    a0: Audio,
    inp: Input,
    rnd: u8,
    c1: Cpu,
    m1: Memory,
    d1: Display,
    a1: Audio,
    x: u8,
    nn: u8,
)
    requires
        x < 16,
        c0.pc + 1 <= MAX_ADDRESS,
        word_at(m0.ram@, c0.pc as int) == 0x6000 + 0x100 * x + nn,
        step_spec(c0, m0, d0, a0, inp, rnd, c1, m1, d1, a1),
    ensures
        step_fault(c0, m0) is None,
        c1.v@[x as int] == nn,
        forall|k: int| 0 <= k < REGISTER_COUNT && k != x ==> #[trigger] c1.v@[k] == c0.v@[k],
        c1.i == c0.i,
        c1.pc == c0.pc + 2,
        cpu_only(m0, m1, d0, d1, a0, a1),
{
    let op = word_at(m0.ram@, c0.pc as int);
    assert(decode_spec(op) == Some(Instruction::LoadImm { x, nn }));
}

/// A step on 7xnn adds `nn` to Vx, wrapping, and leaves VF alone whenever
/// Vx is not VF itself.
pub proof fn lemma_add_immediate_keeps_flag(
    c0: Cpu,
    m0: Memory,
    d0: Display,
    a0: Audio,
    inp: Input,
    rnd: u8,
    c1: Cpu,
    m1: Memory,
    d1: Display,
    a1: Audio,
    x: u8,
    nn: u8,
)
    requires
        x < 15,
        c0.pc + 1 <= MAX_ADDRESS,
        word_at(m0.ram@, c0.pc as int) == 0x7000 + 0x100 * x + nn,
        step_spec(c0, m0, d0, a0, inp, rnd, c1, m1, d1, a1),
    ensures
        step_fault(c0, m0) is None,
        c1.v@[x as int] == add_wrap(c0.v@[x as int], nn),
        c1.v@[VF as int] == c0.v@[VF as int],
{
    let op = word_at(m0.ram@, c0.pc as int);
    assert(decode_spec(op) == Some(Instruction::AddImm { x, nn }));
}

/// A call from address `A` followed by a return lands on `A + 2`, with the
/// stack as it was before the call.
pub proof fn lemma_call_then_return(
    c0: Cpu,
    m0: Memory,
    d0: Display,
    a0: Audio,
    inp: Input,
    rnd0: u8,
    c1: Cpu,
    m1: Memory,
    d1: Display,
    a1: Audio,
    rnd1: u8,
    c2: Cpu,
    m2: Memory,
    d2: Display,
    a2: Audio,
    nnn: u16,
)
    requires
        nnn + 1 <= MAX_ADDRESS,
        c0.pc + 1 <= MAX_ADDRESS,
        m0.stack@.len() < STACK_SIZE,
        word_at(m0.ram@, c0.pc as int) == 0x2000 + nnn,
        word_at(m0.ram@, nnn as int) == 0x00EE,
        step_spec(c0, m0, d0, a0, inp, rnd0, c1, m1, d1, a1),
        step_spec(c1, m1, d1, a1, inp, rnd1, c2, m2, d2, a2),
    ensures
        step_fault(c0, m0) is None,
        step_fault(c1, m1) is None,
        c2.pc == c0.pc + 2,
        m2.stack@ == m0.stack@,
{
    assert(decode_spec(word_at(m0.ram@, c0.pc as int)) == Some(Instruction::Call { nnn }));
    assert(c1.pc == nnn);
    assert(m1.ram@ == m0.ram@);
    assert(decode_spec(word_at(m1.ram@, c1.pc as int)) == Some(Instruction::Return));
    assert(m1.stack@.last() == c0.pc + 2);
    assert(m2.stack@ =~= m0.stack@);
}

/// A call with `STACK_SIZE` return addresses already on the stack fails
/// with a stack overflow and changes nothing.
pub proof fn lemma_call_overflows(
    c0: Cpu,
    m0: Memory,
    d0: Display,
    a0: Audio,
    inp: Input,
    rnd: u8,
    c1: Cpu,
    m1: Memory,
    d1: Display,
    a1: Audio,
    nnn: u16,
)
    requires
        nnn <= MAX_ADDRESS,
        c0.pc + 1 <= MAX_ADDRESS,
        m0.stack@.len() == STACK_SIZE,
        word_at(m0.ram@, c0.pc as int) == 0x2000 + nnn,
        step_spec(c0, m0, d0, a0, inp, rnd, c1, m1, d1, a1),
    ensures
        step_fault(c0, m0) == Some(
            StepError { fault: Fault::StackOverflow, pc: c0.pc, opcode: (0x2000 + nnn) as u16 },
        ),
        all_same(c0, m0, d0, a0, c1, m1, d1, a1),
{
    assert(decode_spec(word_at(m0.ram@, c0.pc as int)) == Some(Instruction::Call { nnn }));
}

/// Ex9E and ExA1 decide on the keypad snapshot handed to that very step:
/// the next instruction is skipped exactly when key Vx is held (Ex9E) or
/// not held (ExA1) in it.
pub proof fn lemma_key_skip_reads_snapshot(
    c0: Cpu,
    m0: Memory,
    d0: Display,
    a0: Audio,
    inp: Input,
    rnd: u8,
    c1: Cpu,
    m1: Memory,
    d1: Display,
    a1: Audio,
    x: u8,
    down: bool,
)
    requires
        x < 16,
        c0.pc + 1 <= MAX_ADDRESS,
        word_at(m0.ram@, c0.pc as int) == (if down {
            0xE09E + 0x100 * x
        } else {
            0xE0A1 + 0x100 * x
        }),
        step_spec(c0, m0, d0, a0, inp, rnd, c1, m1, d1, a1),
    ensures
        step_fault(c0, m0) is None,
        c1.pc == if key_down(inp, c0.v@[x as int]) == down {
            c0.pc + 4
        } else {
            c0.pc + 2
        },
        c1.v@ == c0.v@,
        cpu_only(m0, m1, d0, d1, a0, a1),
{
    let op = word_at(m0.ram@, c0.pc as int);
    if down {
        assert(decode_spec(op) == Some(Instruction::SkipKeyDown { x }));
    } else {
        assert(decode_spec(op) == Some(Instruction::SkipKeyUp { x }));
    }
}

/// Only Fx15 and Fx18 write the timers: every other step leaves them as
/// they were, so that they change only at the driver's ticks.
pub proof fn lemma_step_keeps_timers(
    c0: Cpu,
    m0: Memory,
    d0: Display,
    a0: Audio,
    inp: Input,
    rnd: u8,
    c1: Cpu,
    m1: Memory,
    d1: Display,
    a1: Audio,
)
    requires
        step_spec(c0, m0, d0, a0, inp, rnd, c1, m1, d1, a1),
        !(decode_spec(word_at(m0.ram@, c0.pc as int)) matches Some(Instruction::SetDelay { .. })),
        !(decode_spec(word_at(m0.ram@, c0.pc as int)) matches Some(Instruction::SetSound { .. })),
    ensures
        timers_same(a0, a1),
{
}

/// Relies on `rand::random::<u8>`: a byte from the thread-local generator.
/// Any byte may come back.
#[verifier::external_body]
fn random_byte() -> (r: u8) {
    rand::random::<u8>()
}

impl Cpu {
    /// The power-on state: execution starts at `PROGRAM_START`, everything
    /// else is zero.
    pub fn new() -> (c: Cpu)
        ensures
            c.pc == PROGRAM_START,
            c.i == 0,
            forall|k: int| 0 <= k < REGISTER_COUNT ==> #[trigger] c.v@[k] == 0,
    {
        Cpu { i: 0, pc: PROGRAM_START as u16, v: [0u8; 16] }
    }

    /// Back to the power-on state.
    pub fn reset(&mut self)
        ensures
            final(self).pc == PROGRAM_START,
            final(self).i == 0,
            forall|k: int| 0 <= k < REGISTER_COUNT ==> #[trigger] final(self).v@[k] == 0,
    {
        self.i = 0;
        self.pc = PROGRAM_START as u16;
        self.v = [0u8; 16];
    }

    /// 00E0: clears the screen.
    pub fn op_00e0(&self, display: &mut Display)
        ensures
            blank(final(display).vram@),
            final(display).is_dirty,
    {
        display.reset();
    }

    /// 00EE: returns to the address on top of the stack; fails, changing
    /// nothing, when the stack is empty.
    pub fn op_00ee(&mut self, memory: &mut Memory) -> (r: Result<(), Fault>)
        ensures
            fault_of(Instruction::Return, *old(self), *old(memory)) matches Some(f) ==> r == Err::<
                (),
                Fault,
            >(f) && regs_same(*old(self), *final(self)) && mem_same(*old(memory), *final(memory)),
            fault_of(Instruction::Return, *old(self), *old(memory)) is None ==> r is Ok && jumps(
                *old(self),
                *final(self),
                old(memory).stack@.last() as int,
            ) && final(memory).stack@ == old(memory).stack@.drop_last() && final(memory).ram@
                == old(memory).ram@,
    {
        match memory.pop() {
            Ok(addr) => {
                self.pc = addr;
                Ok(())
            },
            Err(f) => Err(f),
        }
    }

    /// 1nnn: jumps to `nnn`.
    pub fn op_1nnn(&mut self, nnn: u16)
        ensures
            jumps(*old(self), *final(self), nnn as int),
    {
        self.pc = nnn;
    }

    /// 2nnn: pushes the program counter and jumps to `nnn`; fails, changing
    /// nothing, when the stack is full.
    pub fn op_2nnn(&mut self, memory: &mut Memory, nnn: u16) -> (r: Result<(), Fault>)
        ensures
            fault_of(Instruction::Call { nnn }, *old(self), *old(memory)) matches Some(f) ==> r
                == Err::<(), Fault>(f) && regs_same(*old(self), *final(self)) && mem_same(
                *old(memory),
                *final(memory),
            ),
            fault_of(Instruction::Call { nnn }, *old(self), *old(memory)) is None ==> r is Ok
                && jumps(*old(self), *final(self), nnn as int) && final(memory).stack@ == old(
                memory,
            ).stack@.push(old(self).pc) && final(memory).ram@ == old(memory).ram@,
    {
        match memory.push(self.pc) {
            Ok(()) => {
                self.pc = nnn;
                Ok(())
            },
            Err(f) => Err(f),
        }
    }

    /// 3xnn: skips the next instruction if Vx == nn.
    pub fn op_3xnn(&mut self, x: usize, nn: u8)
        requires
            x < REGISTER_COUNT,
            old(self).pc + 2 <= u16::MAX,
        ensures
            skips_if(*old(self), *final(self), old(self).v@[x as int] == nn),
    {
        if self.v[x] == nn {
            self.pc = self.pc + 2;
        }
    }

    /// 4xnn: skips the next instruction if Vx != nn.
    pub fn op_4xnn(&mut self, x: usize, nn: u8)
        requires
            x < REGISTER_COUNT,
            old(self).pc + 2 <= u16::MAX,
        ensures
            skips_if(*old(self), *final(self), old(self).v@[x as int] != nn),
    {
        if self.v[x] != nn {
            self.pc = self.pc + 2;
        }
    }

    /// 5xy0: skips the next instruction if Vx == Vy.
    pub fn op_5xy0(&mut self, x: usize, y: usize)
        requires
            x < REGISTER_COUNT,
            y < REGISTER_COUNT,
            old(self).pc + 2 <= u16::MAX,
        ensures
            skips_if(*old(self), *final(self), old(self).v@[x as int] == old(self).v@[y as int]),
    {
        if self.v[x] == self.v[y] {
            self.pc = self.pc + 2;
        }
    }

    /// 6xnn: Vx = nn.
    pub fn op_6xnn(&mut self, x: usize, nn: u8)
        requires
            x < REGISTER_COUNT,
        ensures
            sets_reg(*old(self), *final(self), x as int, nn),
    {
        self.v[x] = nn;
    }

    /// 7xnn: Vx = Vx + nn, wrapping; VF is not touched.
    pub fn op_7xnn(&mut self, x: usize, nn: u8)
        requires
            x < REGISTER_COUNT,
        ensures
            sets_reg(*old(self), *final(self), x as int, add_wrap(old(self).v@[x as int], nn)),
    {
        self.v[x] = ((self.v[x] as u16 + nn as u16) % 256) as u8;
    }

    /// 8xy0: Vx = Vy.
    pub fn op_8xy0(&mut self, x: usize, y: usize)
        requires
            x < REGISTER_COUNT,
            y < REGISTER_COUNT,
        ensures
            sets_reg(*old(self), *final(self), x as int, old(self).v@[y as int]),
    {
        self.v[x] = self.v[y];
    }

    /// 8xy1: Vx = Vx | Vy.
    pub fn op_8xy1(&mut self, x: usize, y: usize)
        requires
            x < REGISTER_COUNT,
            y < REGISTER_COUNT,
        ensures
            sets_reg(
                *old(self),
                *final(self),
                x as int,
                old(self).v@[x as int] | old(self).v@[y as int],
            ),
    {
        self.v[x] = self.v[x] | self.v[y];
    }

    /// 8xy2: Vx = Vx & Vy.
    pub fn op_8xy2(&mut self, x: usize, y: usize)
        requires
            x < REGISTER_COUNT,
            y < REGISTER_COUNT,
        ensures
            sets_reg(
                *old(self),
                *final(self),
                x as int,
                old(self).v@[x as int] & old(self).v@[y as int],
            ),
    {
        self.v[x] = self.v[x] & self.v[y];
    }

    /// 8xy3: Vx = Vx ^ Vy.
    pub fn op_8xy3(&mut self, x: usize, y: usize)
        requires
            x < REGISTER_COUNT,
            y < REGISTER_COUNT,
        ensures
            sets_reg(
                *old(self),
                *final(self),
                x as int,
                old(self).v@[x as int] ^ old(self).v@[y as int],
            ),
    {
        self.v[x] = self.v[x] ^ self.v[y];
    }

    /// 8xy4: Vx = Vx + Vy, wrapping; then VF = 1 if the sum overflowed,
    /// else 0.
    pub fn op_8xy4(&mut self, x: usize, y: usize)
        requires
            x < REGISTER_COUNT,
            y < REGISTER_COUNT,
        ensures
            sets_reg_flag(
                *old(self),
                *final(self),
                x as int,
                add_wrap(old(self).v@[x as int], old(self).v@[y as int]),
                if old(self).v@[x as int] + old(self).v@[y as int] > 255 {
                    1
                } else {
                    0
                },
            ),
    {
        let sum: u16 = self.v[x] as u16 + self.v[y] as u16;
        self.v[x] = (sum % 256) as u8;
        self.v[VF] = if sum > 255 {
            1
        } else {
            0
        };
    }

    /// 8xy5: Vx = Vx - Vy, wrapping; then VF = 1 if no borrow occurred
    /// (Vx >= Vy), else 0.
    pub fn op_8xy5(&mut self, x: usize, y: usize)
        requires
            x < REGISTER_COUNT,
            y < REGISTER_COUNT,
        ensures
            sets_reg_flag(
                *old(self),
                *final(self),
                x as int,
                sub_wrap(old(self).v@[x as int], old(self).v@[y as int]),
                if old(self).v@[x as int] >= old(self).v@[y as int] {
                    1
                } else {
                    0
                },
            ),
    {
        let a = self.v[x];
        let b = self.v[y];
        self.v[x] = ((a as u16 + 256 - b as u16) % 256) as u8;
        self.v[VF] = if a >= b {
            1
        } else {
            0
        };
    }

    /// 8xy6: Vx = Vy >> 1; then VF = the bit shifted out of Vy.
    pub fn op_8xy6(&mut self, x: usize, y: usize)
        requires
            x < REGISTER_COUNT,
            y < REGISTER_COUNT,
        ensures
            sets_reg_flag(
                *old(self),
                *final(self),
                x as int,
                old(self).v@[y as int] >> 1u8,
                old(self).v@[y as int] & 1u8,
            ),
    {
        let source = self.v[y];
        self.v[x] = source >> 1u8;
        self.v[VF] = source & 1u8;
    }

    /// 8xy7: Vx = Vy - Vx, wrapping; then VF = 1 if no borrow occurred
    /// (Vy >= Vx), else 0.
    pub fn op_8xy7(&mut self, x: usize, y: usize)
        requires
            x < REGISTER_COUNT,
            y < REGISTER_COUNT,
        ensures
            sets_reg_flag(
                *old(self),
                *final(self),
                x as int,
                sub_wrap(old(self).v@[y as int], old(self).v@[x as int]),
                if old(self).v@[y as int] >= old(self).v@[x as int] {
                    1
                } else {
                    0
                },
            ),
    {
        let a = self.v[x];
        let b = self.v[y];
        self.v[x] = ((b as u16 + 256 - a as u16) % 256) as u8;
        self.v[VF] = if b >= a {
            1
        } else {
            0
        };
    }

    /// 8xyE: Vx = Vy << 1; then VF = the bit shifted out of Vy.
    pub fn op_8xye(&mut self, x: usize, y: usize)
        requires
            x < REGISTER_COUNT,
            y < REGISTER_COUNT,
        ensures
            sets_reg_flag(
                *old(self),
                *final(self),
                x as int,
                old(self).v@[y as int] << 1u8,
                old(self).v@[y as int] >> 7u8,
            ),
    {
        let source = self.v[y];
        self.v[x] = source << 1u8;
        self.v[VF] = source >> 7u8;
    }

    /// 9xy0: skips the next instruction if Vx != Vy.
    pub fn op_9xy0(&mut self, x: usize, y: usize)
        requires
            x < REGISTER_COUNT,
            y < REGISTER_COUNT,
            old(self).pc + 2 <= u16::MAX,
        ensures
            skips_if(*old(self), *final(self), old(self).v@[x as int] != old(self).v@[y as int]),
    {
        if self.v[x] != self.v[y] {
            self.pc = self.pc + 2;
        }
    }

    /// Annn: I = nnn.
    pub fn op_annn(&mut self, nnn: u16)
        ensures
            sets_index(*old(self), *final(self), nnn),
    {
        self.i = nnn;
    }

    /// Bnnn: jumps to nnn + V0.
    pub fn op_bnnn(&mut self, nnn: u16)
        requires
            nnn < 4096,
        ensures
            jumps(*old(self), *final(self), nnn + old(self).v@[0]),
    {
        self.pc = nnn + self.v[0] as u16;
    }

    /// Cxnn: Vx = `rnd` & nn, where `rnd` is the random byte drawn for this
    /// instruction.
    pub fn op_cxnn(&mut self, x: usize, nn: u8, rnd: u8)
        requires
            x < REGISTER_COUNT,
        ensures
            sets_reg(*old(self), *final(self), x as int, rnd & nn),
    {
        self.v[x] = rnd & nn;
    }

    /// Ex9E: skips the next instruction if key Vx is held.
    pub fn op_ex9e(&mut self, input: &Input, x: usize)
        requires
            x < REGISTER_COUNT,
            old(self).pc + 2 <= u16::MAX,
        ensures
            skips_if(*old(self), *final(self), key_down(*input, old(self).v@[x as int])),
    {
        if input.is_pressed(self.v[x] as usize) {
            self.pc = self.pc + 2;
        }
    }

    /// ExA1: skips the next instruction if key Vx is not held.
    pub fn op_exa1(&mut self, input: &Input, x: usize)
        requires
            x < REGISTER_COUNT,
            old(self).pc + 2 <= u16::MAX,
        ensures
            skips_if(*old(self), *final(self), !key_down(*input, old(self).v@[x as int])),
    {
        if !input.is_pressed(self.v[x] as usize) {
            self.pc = self.pc + 2;
        }
    }

    /// Fx07: Vx = the delay timer.
    pub fn op_fx07(&mut self, audio: &Audio, x: usize)
        requires
            x < REGISTER_COUNT,
        ensures
            sets_reg(*old(self), *final(self), x as int, audio.delay_timer),
    {
        self.v[x] = audio.delay_timer;
    }

    /// Fx15: the delay timer = Vx.
    pub fn op_fx15(&self, audio: &mut Audio, x: usize)
        requires
            x < REGISTER_COUNT,
        ensures
            final(audio).delay_timer == self.v@[x as int],
            final(audio).sound_timer == old(audio).sound_timer,
    {
        audio.delay_timer = self.v[x];
    }

    /// Fx18: the sound timer = Vx.
    pub fn op_fx18(&self, audio: &mut Audio, x: usize)
        requires
            x < REGISTER_COUNT,
        ensures
            final(audio).sound_timer == self.v@[x as int],
            final(audio).delay_timer == old(audio).delay_timer,
    {
        audio.sound_timer = self.v[x];
    }

    /// Fx1E: I = I + Vx, wrapping at 16 bits; VF is not touched.
    pub fn op_fx1e(&mut self, x: usize)
        requires
            x < REGISTER_COUNT,
        ensures
            sets_index(
                *old(self),
                *final(self),
                ((old(self).i + old(self).v@[x as int]) % 0x10000) as u16,
            ),
    {
        self.i = ((self.i as u32 + self.v[x] as u32) % 0x10000) as u16;
    }

    /// Fx0A: when a key is held, Vx = the lowest such key; otherwise the
    /// program counter steps back onto this instruction, so that it runs
    /// again on the next step.
    pub fn op_fx0a(&mut self, input: &Input, x: usize)
        requires
            x < REGISTER_COUNT,
            old(self).pc >= 2,
        ensures
            any_pressed(input.state@) ==> exists|k: int|
                lowest_pressed(input.state@, k) && sets_reg(
                    *old(self),
                    *final(self),
                    x as int,
                    k as u8,
                ),
            !any_pressed(input.state@) ==> jumps(*old(self), *final(self), old(self).pc - 2),
    {
        match input.first_pressed() {
            Some(k) => {
                self.v[x] = k;
            },
            None => {
                self.pc = self.pc - 2;
            },
        }
    }

    /// Fx29: I = the address of the font glyph for digit Vx.
    pub fn op_fx29(&mut self, x: usize)
        requires
            x < REGISTER_COUNT,
        ensures
            sets_index(
                *old(self),
                *final(self),
                (FONT_BASE + GLYPH_BYTES * old(self).v@[x as int]) as u16,
            ),
    {
        self.i = (FONT_BASE + GLYPH_BYTES * self.v[x] as usize) as u16;
    }

    /// Fx33: stores the hundreds, tens and ones of Vx at I, I+1 and I+2;
    /// fails, changing nothing, when I+2 is past the end of memory.
    pub fn op_fx33(&self, memory: &mut Memory, x: usize) -> (r: Result<(), Fault>)
        requires
            x < REGISTER_COUNT,
        ensures
            final(memory).stack@ == old(memory).stack@,
            fault_of(Instruction::StoreBcd { x: x as u8 }, *self, *old(memory)) matches Some(f)
                ==> r == Err::<(), Fault>(f) && final(memory).ram@ == old(memory).ram@,
            fault_of(Instruction::StoreBcd { x: x as u8 }, *self, *old(memory)) is None ==> r is Ok
                && final(memory).ram@ == bcd_stored(
                old(memory).ram@,
                self.i as int,
                self.v@[x as int],
            ),
    {
        let base = self.i as usize;
        if base + 2 > MAX_ADDRESS {
            return Err(Fault::OutOfBoundsAccess);
        }
        let value = self.v[x];
        let _ = memory.write(base, value / 100);
        let _ = memory.write(base + 1, (value % 100) / 10);
        let _ = memory.write(base + 2, value % 10);
        Ok(())
    }

    /// Fx55: stores V0..=Vx at I..=I+x; fails, changing nothing, when I+x is
    /// past the end of memory.
    pub fn op_fx55(&self, memory: &mut Memory, x: usize) -> (r: Result<(), Fault>)
        requires
            x < REGISTER_COUNT,
        ensures
            final(memory).stack@ == old(memory).stack@,
            fault_of(Instruction::StoreRegs { x: x as u8 }, *self, *old(memory)) matches Some(f)
                ==> r == Err::<(), Fault>(f) && final(memory).ram@ == old(memory).ram@,
            fault_of(Instruction::StoreRegs { x: x as u8 }, *self, *old(memory)) is None ==> r is Ok
                && final(memory).ram@ == stored(old(memory).ram@, self.i as int, self.v@, x as int),
    {
        let base = self.i as usize;
        if base + x > MAX_ADDRESS {
            return Err(Fault::OutOfBoundsAccess);
        }
        let mut k: usize = 0;
        while k <= x
            invariant
                x < REGISTER_COUNT,
                base == self.i,
                base + x <= MAX_ADDRESS,
                k <= x + 1,
                memory.stack@ == old(memory).stack@,
                memory.ram@ == stored(old(memory).ram@, base as int, self.v@, k - 1),
            decreases x + 1 - k,
        {
            let _ = memory.write(base + k, self.v[k]);
            proof {
                assert(memory.ram@ =~= stored(old(memory).ram@, base as int, self.v@, k as int));
            }
            k = k + 1;
        }
        Ok(())
    }

    /// Fx65: loads V0..=Vx from I..=I+x; fails, changing nothing, when I+x
    /// is past the end of memory.
    pub fn op_fx65(&mut self, memory: &Memory, x: usize) -> (r: Result<(), Fault>)
        requires
            x < REGISTER_COUNT,
        ensures
            fault_of(Instruction::LoadRegs { x: x as u8 }, *old(self), *memory) matches Some(f)
                ==> r == Err::<(), Fault>(f) && regs_same(*old(self), *final(self)),
            fault_of(Instruction::LoadRegs { x: x as u8 }, *old(self), *memory) is None ==> r is Ok
                && final(self).v@ == loaded(old(self).v@, memory.ram@, old(self).i as int, x as int)
                && final(self).i == old(self).i && final(self).pc == old(self).pc,
    {
        let base = self.i as usize;
        if base + x > MAX_ADDRESS {
            return Err(Fault::OutOfBoundsAccess);
        }
        let mut k: usize = 0;
        while k <= x
            invariant
                x < REGISTER_COUNT,
                base == self.i,
                base == old(self).i,
                self.pc == old(self).pc,
                base + x <= MAX_ADDRESS,
                k <= x + 1,
                self.v@ == loaded(old(self).v@, memory.ram@, base as int, k - 1),
            decreases x + 1 - k,
        {
            self.v[k] = memory.ram[base + k];
            proof {
                assert(self.v@ =~= loaded(old(self).v@, memory.ram@, base as int, k as int));
            }
            k = k + 1;
        }
        Ok(())
    }

    /// Dxyn: draws the n-byte sprite at I..I+n at (Vx, Vy); VF = 1 if a
    /// pixel that was on was turned off, else 0. Fails, changing nothing,
    /// when I+n-1 is past the end of memory.
    pub fn op_dxyn(
        &mut self,
        memory: &Memory,
        display: &mut Display,
        x: usize,
        y: usize,
        n: u8,
    ) -> (r: Result<(), Fault>)
        requires
            x < REGISTER_COUNT,
            y < REGISTER_COUNT,
            n < 16,
        ensures
            fault_of(Instruction::Draw { x: x as u8, y: y as u8, n }, *old(self), *memory) matches Some(
                f,
            ) ==> r == Err::<(), Fault>(f) && regs_same(*old(self), *final(self)) && screen_same(
                *old(display),
                *final(display),
            ),
            fault_of(Instruction::Draw { x: x as u8, y: y as u8, n }, *old(self), *memory) is None
                ==> r is Ok && ({
                let sprite = memory.ram@.subrange(old(self).i as int, old(self).i + n);
                let vx = old(self).v@[x as int] as int;
                let vy = old(self).v@[y as int] as int;
                &&& drawn(old(display).vram@, final(display).vram@, sprite, vx, vy)
                &&& final(display).is_dirty
                &&& sets_reg(
                    *old(self),
                    *final(self),
                    VF as int,
                    if collides(old(display).vram@, sprite, vx, vy) {
                        1
                    } else {
                        0
                    },
                )
            }),
    {
        let base = self.i as usize;
        let rows = n as usize;
        if base + rows > MEMORY_SIZE {
            return Err(Fault::OutOfBoundsAccess);
        }
        let mut sprite: Vec<u8> = Vec::new();
        let mut k: usize = 0;
        while k < rows
            invariant
                base == self.i,
                rows == n,
                base + rows <= MEMORY_SIZE,
                k <= rows,
                sprite@ == memory.ram@.subrange(base as int, base + k),
            decreases rows - k,
        {
            let byte = self.read_byte(memory, base + k);
            sprite.push(byte);
            proof {
                assert(sprite@ =~= memory.ram@.subrange(base as int, base + k + 1));
            }
            k = k + 1;
        }
        let collision = display.draw(self.v[x], self.v[y], sprite.as_slice());
        self.v[VF] = if collision {
            1
        } else {
            0
        };
        Ok(())
    }

    fn read_byte(&self, memory: &Memory, addr: usize) -> (r: u8)
        requires
            addr < MEMORY_SIZE,
        ensures
            r == memory.ram@[addr as int],
    {
        match memory.read(addr) {
            Ok(b) => b,
            Err(_) => 0,
        }
    }

    /// Runs one decoded instruction, with `rnd` as the random byte for Cxnn.
    /// The program counter already points past the instruction. When the
    /// instruction faults nothing changes.
    pub fn execute(
        &mut self,
        ins: Instruction,
        memory: &mut Memory,
        display: &mut Display,
        input: &Input,
        audio: &mut Audio,
        rnd: u8,
    ) -> (r: Result<(), Fault>)
        requires
            ins.wf(),
            old(self).pc >= 2,
            old(self).pc + 2 <= u16::MAX,
        ensures
            fault_of(ins, *old(self), *old(memory)) matches Some(f) ==> r == Err::<(), Fault>(f)
                && regs_same(*old(self), *final(self)) && cpu_only(
                *old(memory),
                *final(memory),
                *old(display),
                *final(display),
                *old(audio),
                *final(audio),
            ),
            fault_of(ins, *old(self), *old(memory)) is None ==> r is Ok && effect(
                ins,
                *old(self),
                *old(memory),
                *old(display),
                *old(audio),
                *input,
                rnd,
                *final(self),
                *final(memory),
                *final(display),
                *final(audio),
            ),
    {
        match ins {
            Instruction::ClearScreen => {
                self.op_00e0(display);
                Ok(())
            },
            Instruction::Return => self.op_00ee(memory),
            Instruction::Jump { nnn } => {
                self.op_1nnn(nnn);
                Ok(())
            },
            Instruction::Call { nnn } => self.op_2nnn(memory, nnn),
            Instruction::SkipEqImm { x, nn } => {
                self.op_3xnn(x as usize, nn);
                Ok(())
            },
            Instruction::SkipNeImm { x, nn } => {
                self.op_4xnn(x as usize, nn);
                Ok(())
            },
            Instruction::SkipEqReg { x, y } => {
                self.op_5xy0(x as usize, y as usize);
                Ok(())
            },
            Instruction::LoadImm { x, nn } => {
                self.op_6xnn(x as usize, nn);
                Ok(())
            },
            Instruction::AddImm { x, nn } => {
                self.op_7xnn(x as usize, nn);
                Ok(())
            },
            Instruction::Move { x, y } => {
                self.op_8xy0(x as usize, y as usize);
                Ok(())
            },
            Instruction::Or { x, y } => {
                self.op_8xy1(x as usize, y as usize);
                Ok(())
            },
            Instruction::And { x, y } => {
                self.op_8xy2(x as usize, y as usize);
                Ok(())
            },
            Instruction::Xor { x, y } => {
                self.op_8xy3(x as usize, y as usize);
                Ok(())
            },
            Instruction::AddReg { x, y } => {
                self.op_8xy4(x as usize, y as usize);
                Ok(())
            },
            Instruction::SubReg { x, y } => {
                self.op_8xy5(x as usize, y as usize);
                Ok(())
            },
            Instruction::ShiftRight { x, y } => {
                self.op_8xy6(x as usize, y as usize);
                Ok(())
            },
            Instruction::SubRev { x, y } => {
                self.op_8xy7(x as usize, y as usize);
                Ok(())
            },
            Instruction::ShiftLeft { x, y } => {
                self.op_8xye(x as usize, y as usize);
                Ok(())
            },
            Instruction::SkipNeReg { x, y } => {
                self.op_9xy0(x as usize, y as usize);
                Ok(())
            },
            Instruction::LoadIndex { nnn } => {
                self.op_annn(nnn);
                Ok(())
            },
            Instruction::JumpOffset { nnn } => {
                self.op_bnnn(nnn);
                Ok(())
            },
            Instruction::Random { x, nn } => {
                self.op_cxnn(x as usize, nn, rnd);
                Ok(())
            },
            Instruction::Draw { x, y, n } => {
                self.op_dxyn(memory, display, x as usize, y as usize, n)
            },
            Instruction::SkipKeyDown { x } => {
                self.op_ex9e(input, x as usize);
                Ok(())
            },
            Instruction::SkipKeyUp { x } => {
                self.op_exa1(input, x as usize);
                Ok(())
            },
            Instruction::GetDelay { x } => {
                self.op_fx07(audio, x as usize);
                Ok(())
            },
            Instruction::SetDelay { x } => {
                self.op_fx15(audio, x as usize);
                Ok(())
            },
            Instruction::SetSound { x } => {
                self.op_fx18(audio, x as usize);
                Ok(())
            },
            Instruction::AddIndex { x } => {
                self.op_fx1e(x as usize);
                Ok(())
            },
            Instruction::WaitKey { x } => {
                self.op_fx0a(input, x as usize);
                Ok(())
            },
            Instruction::FontChar { x } => {
                self.op_fx29(x as usize);
                Ok(())
            },
            Instruction::StoreBcd { x } => self.op_fx33(memory, x as usize),
            Instruction::StoreRegs { x } => self.op_fx55(memory, x as usize),
            Instruction::LoadRegs { x } => self.op_fx65(memory, x as usize),
        }
    }

    /// One fetch-decode-execute cycle, with `rnd` as the random byte that
    /// Cxnn uses. Fetches the word at PC, moves PC past it, and runs it. A
    /// word that cannot be fetched or decoded, or an instruction that
    /// faults, leaves the whole machine as it was and reports the fault with
    /// the PC and the word.
    pub fn step_with(
        &mut self,
        memory: &mut Memory,
        display: &mut Display,
        input: &Input,
        audio: &mut Audio,
        rnd: u8,
    ) -> (r: Result<(), StepError>)
        ensures
            r is Ok <==> step_fault(*old(self), *old(memory)) is None,
            r matches Err(e) ==> step_fault(*old(self), *old(memory)) == Some(e),
            step_spec(
                *old(self),
                *old(memory),
                *old(display),
                *old(audio),
                *input,
                rnd,
                *final(self),
                *final(memory),
                *final(display),
                *final(audio),
            ),
    {
        let pc = self.pc;
        let opcode = match memory.fetch16(pc) {
            Ok(word) => word,
            Err(fault) => {
                return Err(StepError { fault, pc, opcode: 0 });
            },
        };
        let ins = match decode(opcode) {
            Some(ins) => ins,
            None => {
                return Err(StepError { fault: Fault::UnimplementedOpcode, pc, opcode });
            },
        };
        self.pc = pc + 2;
        match self.execute(ins, memory, display, input, audio, rnd) {
            Ok(()) => Ok(()),
            Err(fault) => {
                self.pc = pc;
                Err(StepError { fault, pc, opcode })
            },
        }
    }

    /// One fetch-decode-execute cycle, drawing a fresh random byte for Cxnn.
    pub fn step(
        &mut self,
        memory: &mut Memory,
        display: &mut Display,
        input: &Input,
        audio: &mut Audio,
    ) -> (r: Result<(), StepError>)
        ensures
            r is Ok <==> step_fault(*old(self), *old(memory)) is None,
            r matches Err(e) ==> step_fault(*old(self), *old(memory)) == Some(e),
            exists|rnd: u8|
                step_spec(
                    *old(self),
                    *old(memory),
                    *old(display),
                    *old(audio),
                    *input,
                    rnd,
                    *final(self),
                    *final(memory),
                    *final(display),
                    *final(audio),
                ),
    {
        let rnd = random_byte();
        self.step_with(memory, display, input, audio, rnd)
    }

}

} // verus!
