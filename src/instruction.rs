//! Decoding a 16-bit word into one of the CHIP-8 instructions.

use vstd::prelude::*;

verus! {

/// One decoded instruction. `x` and `y` name registers, `n` is a nibble,
/// `nn` a byte and `nnn` a 12-bit address.
#[derive(Clone, Copy, Debug, PartialEq, Eq, Structural)]
pub enum Instruction {
    /// 00E0: clear the screen.
    ClearScreen,
    /// 00EE: return from a subroutine.
    Return,
    /// 1nnn: jump to `nnn`.
    Jump { nnn: u16 },
    /// 2nnn: call the subroutine at `nnn`.
    Call { nnn: u16 },
    /// 3xnn: skip the next instruction if Vx == nn.
    SkipEqImm { x: u8, nn: u8 },
    /// 4xnn: skip if Vx != nn.
    SkipNeImm { x: u8, nn: u8 },
    /// 5xy0: skip if Vx == Vy.
    SkipEqReg { x: u8, y: u8 },
    /// 6xnn: Vx = nn.
    LoadImm { x: u8, nn: u8 },
    /// 7xnn: Vx = Vx + nn, wrapping, flags untouched.
    AddImm { x: u8, nn: u8 },
    /// 8xy0: Vx = Vy.
    Move { x: u8, y: u8 },
    /// 8xy1: Vx = Vx | Vy.
    Or { x: u8, y: u8 },
    /// 8xy2: Vx = Vx & Vy.
    And { x: u8, y: u8 },
    /// 8xy3: Vx = Vx ^ Vy.
    Xor { x: u8, y: u8 },
    /// 8xy4: Vx = Vx + Vy, VF = carry.
    AddReg { x: u8, y: u8 },
    /// 8xy5: Vx = Vx - Vy, VF = no borrow.
    SubReg { x: u8, y: u8 },
    /// 8xy6: Vx = Vy >> 1, VF = the bit shifted out.
    ShiftRight { x: u8, y: u8 },
    /// 8xy7: Vx = Vy - Vx, VF = no borrow.
    SubRev { x: u8, y: u8 },
    /// 8xyE: Vx = Vy << 1, VF = the bit shifted out.
    ShiftLeft { x: u8, y: u8 },
    /// 9xy0: skip if Vx != Vy.
    SkipNeReg { x: u8, y: u8 },
    /// Annn: I = nnn.
    LoadIndex { nnn: u16 },
    /// Bnnn: jump to nnn + V0.
    JumpOffset { nnn: u16 },
    /// Cxnn: Vx = a random byte & nn.
    Random { x: u8, nn: u8 },
    /// Dxyn: draw the n-byte sprite at I at (Vx, Vy).
    Draw { x: u8, y: u8, n: u8 },
    /// Ex9E: skip if key Vx is held.
    SkipKeyDown { x: u8 },
    /// ExA1: skip if key Vx is not held.
    SkipKeyUp { x: u8 },
    /// Fx07: Vx = delay timer.
    GetDelay { x: u8 },
    /// Fx15: delay timer = Vx.
    SetDelay { x: u8 },
    /// Fx18: sound timer = Vx.
    SetSound { x: u8 },
    /// Fx1E: I = I + Vx, wrapping at 16 bits, flags untouched.
    AddIndex { x: u8 },
    /// Fx0A: wait until a key is held and put its number in Vx.
    WaitKey { x: u8 },
    /// Fx29: I = address of the font glyph for Vx.
    FontChar { x: u8 },
    /// Fx33: store the decimal digits of Vx at I, I+1, I+2.
    StoreBcd { x: u8 },
    /// Fx55: store V0..=Vx at I..=I+x.
    StoreRegs { x: u8 },
    /// Fx65: load V0..=Vx from I..=I+x.
    LoadRegs { x: u8 },
}

/// The instruction that `op` encodes, if any. The word is read as four
/// nibbles `a x y n`, most significant first.
pub open spec fn decode_spec(op: u16) -> Option<Instruction> {
    let a = op / 4096;
    let x = ((op / 256) % 16) as u8;
    let y = ((op / 16) % 16) as u8;
    let n = (op % 16) as u8;
    let nn = (op % 256) as u8;
    let nnn = (op % 4096) as u16;
    if op == 0x00E0 {
        Some(Instruction::ClearScreen)
    } else if op == 0x00EE {
        Some(Instruction::Return)
    } else if a == 0x1 {
        Some(Instruction::Jump { nnn })
    } else if a == 0x2 {
        Some(Instruction::Call { nnn })
    } else if a == 0x3 {
        Some(Instruction::SkipEqImm { x, nn })
    } else if a == 0x4 {
        Some(Instruction::SkipNeImm { x, nn })
    } else if a == 0x5 && n == 0x0 {
        Some(Instruction::SkipEqReg { x, y })
    } else if a == 0x6 {
        Some(Instruction::LoadImm { x, nn })
    } else if a == 0x7 {
        Some(Instruction::AddImm { x, nn })
    } else if a == 0x8 && n == 0x0 {
        Some(Instruction::Move { x, y })
    } else if a == 0x8 && n == 0x1 {
        Some(Instruction::Or { x, y })
    } else if a == 0x8 && n == 0x2 {
        Some(Instruction::And { x, y })
    } else if a == 0x8 && n == 0x3 {
        Some(Instruction::Xor { x, y })
    } else if a == 0x8 && n == 0x4 {
        Some(Instruction::AddReg { x, y })
    } else if a == 0x8 && n == 0x5 {
        Some(Instruction::SubReg { x, y })
    } else if a == 0x8 && n == 0x6 {
        Some(Instruction::ShiftRight { x, y })
    } else if a == 0x8 && n == 0x7 {
        Some(Instruction::SubRev { x, y })
    } else if a == 0x8 && n == 0xE {
        Some(Instruction::ShiftLeft { x, y })
    } else if a == 0x9 && n == 0x0 {
        Some(Instruction::SkipNeReg { x, y })
    } else if a == 0xA {
        Some(Instruction::LoadIndex { nnn })
    } else if a == 0xB {
        Some(Instruction::JumpOffset { nnn })
    } else if a == 0xC {
        Some(Instruction::Random { x, nn })
    } else if a == 0xD {
        Some(Instruction::Draw { x, y, n })
    } else if a == 0xE && nn == 0x9E {
        Some(Instruction::SkipKeyDown { x })
    } else if a == 0xE && nn == 0xA1 {
        Some(Instruction::SkipKeyUp { x })
    } else if a == 0xF && nn == 0x07 {
        Some(Instruction::GetDelay { x })
    } else if a == 0xF && nn == 0x15 {
        Some(Instruction::SetDelay { x })
    } else if a == 0xF && nn == 0x18 {
        Some(Instruction::SetSound { x })
    } else if a == 0xF && nn == 0x1E {
        Some(Instruction::AddIndex { x })
    } else if a == 0xF && nn == 0x0A {
        Some(Instruction::WaitKey { x })
    } else if a == 0xF && nn == 0x29 {
        Some(Instruction::FontChar { x })
    } else if a == 0xF && nn == 0x33 {
        Some(Instruction::StoreBcd { x })
    } else if a == 0xF && nn == 0x55 {
        Some(Instruction::StoreRegs { x })
    } else if a == 0xF && nn == 0x65 {
        Some(Instruction::LoadRegs { x })
    } else {
        None
    }
}

impl Instruction {
    /// Register numbers are below 16, `n` is a nibble and `nnn` fits in
    /// 12 bits, as in every decoded instruction.
    pub open spec fn wf(self) -> bool {
        match self {
            Instruction::Jump { nnn } => nnn < 4096,
            Instruction::Call { nnn } => nnn < 4096,
            Instruction::LoadIndex { nnn } => nnn < 4096,
            Instruction::JumpOffset { nnn } => nnn < 4096,
            Instruction::SkipEqImm { x, nn } => x < 16,
            Instruction::SkipNeImm { x, nn } => x < 16,
            Instruction::LoadImm { x, nn } => x < 16,
            Instruction::AddImm { x, nn } => x < 16,
            Instruction::Random { x, nn } => x < 16,
            Instruction::SkipEqReg { x, y } => x < 16 && y < 16,
            Instruction::Move { x, y } => x < 16 && y < 16,
            Instruction::Or { x, y } => x < 16 && y < 16,
            Instruction::And { x, y } => x < 16 && y < 16,
            Instruction::Xor { x, y } => x < 16 && y < 16,
            Instruction::AddReg { x, y } => x < 16 && y < 16,
            Instruction::SubReg { x, y } => x < 16 && y < 16,
            Instruction::ShiftRight { x, y } => x < 16 && y < 16,
            Instruction::SubRev { x, y } => x < 16 && y < 16,
            Instruction::ShiftLeft { x, y } => x < 16 && y < 16,
            Instruction::SkipNeReg { x, y } => x < 16 && y < 16,
            Instruction::Draw { x, y, n } => x < 16 && y < 16 && n < 16,
            Instruction::SkipKeyDown { x } => x < 16,
            Instruction::SkipKeyUp { x } => x < 16,
            Instruction::GetDelay { x } => x < 16,
            Instruction::SetDelay { x } => x < 16,
            Instruction::SetSound { x } => x < 16,
            Instruction::AddIndex { x } => x < 16,
            Instruction::WaitKey { x } => x < 16,
            Instruction::FontChar { x } => x < 16,
            Instruction::StoreBcd { x } => x < 16,
            Instruction::StoreRegs { x } => x < 16,
            Instruction::LoadRegs { x } => x < 16,
            _ => true,
        }
    }
}

/// Decodes `op`; `None` when it matches no instruction.
pub fn decode(op: u16) -> (r: Option<Instruction>)
    ensures
        r == decode_spec(op),
        r matches Some(ins) ==> ins.wf(),
{
    let a = op / 4096;
    let x = ((op / 256) % 16) as u8;
    let y = ((op / 16) % 16) as u8;
    let n = (op % 16) as u8;
    let nn = (op % 256) as u8;
    let nnn = op % 4096;
    if op == 0x00E0 {
        Some(Instruction::ClearScreen)
    } else if op == 0x00EE {
        Some(Instruction::Return)
    } else if a == 0x1 {
        Some(Instruction::Jump { nnn })
    } else if a == 0x2 {
        Some(Instruction::Call { nnn })
    } else if a == 0x3 {
        Some(Instruction::SkipEqImm { x, nn })
    } else if a == 0x4 {
        Some(Instruction::SkipNeImm { x, nn })
    } else if a == 0x5 && n == 0x0 {
        Some(Instruction::SkipEqReg { x, y })
    } else if a == 0x6 {
        Some(Instruction::LoadImm { x, nn })
    } else if a == 0x7 {
        Some(Instruction::AddImm { x, nn })
    } else if a == 0x8 {
        match n {
            0x0 => Some(Instruction::Move { x, y }),
            0x1 => Some(Instruction::Or { x, y }),
            0x2 => Some(Instruction::And { x, y }),
            0x3 => Some(Instruction::Xor { x, y }),
            0x4 => Some(Instruction::AddReg { x, y }),
            0x5 => Some(Instruction::SubReg { x, y }),
            0x6 => Some(Instruction::ShiftRight { x, y }),
            0x7 => Some(Instruction::SubRev { x, y }),
            0xE => Some(Instruction::ShiftLeft { x, y }),
            _ => None,
        }
    } else if a == 0x9 && n == 0x0 {
        Some(Instruction::SkipNeReg { x, y })
    } else if a == 0xA {
        Some(Instruction::LoadIndex { nnn })
    } else if a == 0xB {
        Some(Instruction::JumpOffset { nnn })
    } else if a == 0xC {
        Some(Instruction::Random { x, nn })
    } else if a == 0xD {
        Some(Instruction::Draw { x, y, n })
    } else if a == 0xE {
        match nn {
            0x9E => Some(Instruction::SkipKeyDown { x }),
            0xA1 => Some(Instruction::SkipKeyUp { x }),
            _ => None,
        }
    } else if a == 0xF {
        match nn {
            0x07 => Some(Instruction::GetDelay { x }),
            0x15 => Some(Instruction::SetDelay { x }),
            0x18 => Some(Instruction::SetSound { x }),
            0x1E => Some(Instruction::AddIndex { x }),
            0x0A => Some(Instruction::WaitKey { x }),
            0x29 => Some(Instruction::FontChar { x }),
            0x33 => Some(Instruction::StoreBcd { x }),
            0x55 => Some(Instruction::StoreRegs { x }),
            0x65 => Some(Instruction::LoadRegs { x }),
            _ => None,
        }
    } else {
        None
    }
}

} // verus!
