//! The 4 KiB address space and the return-address stack.

use vstd::prelude::*;

verus! {

/// Number of addressable bytes.
pub const MEMORY_SIZE: usize = 4096;

/// Highest valid address.
pub const MAX_ADDRESS: usize = 0xFFF;

/// Where programs are loaded and where execution starts.
pub const PROGRAM_START: usize = 0x200;

/// Where the built-in hexadecimal font starts.
pub const FONT_BASE: usize = 0;

/// Bytes per font glyph.
pub const GLYPH_BYTES: usize = 5;

/// Capacity of the return-address stack.
pub const STACK_SIZE: usize = 16;

/// The largest program that fits between `PROGRAM_START` and the end of memory.
pub const MAX_ROM_SIZE: usize = 0xE00;

/// The ways in which the machine can fail. Every fault is fatal.
#[derive(Clone, Copy, Debug, PartialEq, Eq, Structural)]
pub enum Fault {
    /// The fetched word matches no instruction.
    UnimplementedOpcode,
    /// A call was made with the stack already full.
    StackOverflow,
    /// A return was made with the stack empty.
    StackUnderflow,
    /// An address fell outside the 4 KiB window.
    OutOfBoundsAccess,
}

/// The built-in 4x5 glyphs for the hexadecimal digits, five bytes each.
pub open spec fn font_spec() -> Seq<u8> {
    seq![
        0xF0, 0x90, 0x90, 0x90, 0xF0, // 0
        0x20, 0x60, 0x20, 0x20, 0x70, // 1
        0xF0, 0x10, 0xF0, 0x80, 0xF0, // 2
        0xF0, 0x10, 0xF0, 0x10, 0xF0, // 3
        0x90, 0x90, 0xF0, 0x10, 0x10, // 4
        0xF0, 0x80, 0xF0, 0x10, 0xF0, // 5
        0xF0, 0x80, 0xF0, 0x90, 0xF0, // 6
        0xF0, 0x10, 0x20, 0x40, 0x40, // 7
        0xF0, 0x90, 0xF0, 0x90, 0xF0, // 8
        0xF0, 0x90, 0xF0, 0x10, 0xF0, // 9
        0xF0, 0x90, 0xF0, 0x90, 0x90, // A
        0xE0, 0x90, 0xE0, 0x90, 0xE0, // B
        0xF0, 0x80, 0x80, 0x80, 0xF0, // C
        0xE0, 0x90, 0x90, 0x90, 0xE0, // D
        0xF0, 0x80, 0xF0, 0x80, 0xF0, // E
        0xF0, 0x80, 0xF0, 0x80, 0x80, // F
    ]
}

fn font_bytes() -> (r: Vec<u8>)
    ensures
        r@ == font_spec(),
{
    let r: Vec<u8> = vec![
        0xF0, 0x90, 0x90, 0x90, 0xF0,
        0x20, 0x60, 0x20, 0x20, 0x70,
        0xF0, 0x10, 0xF0, 0x80, 0xF0,
        0xF0, 0x10, 0xF0, 0x10, 0xF0,
        0x90, 0x90, 0xF0, 0x10, 0x10,
        0xF0, 0x80, 0xF0, 0x10, 0xF0,
        0xF0, 0x80, 0xF0, 0x90, 0xF0,
        0xF0, 0x10, 0x20, 0x40, 0x40,
        0xF0, 0x90, 0xF0, 0x90, 0xF0,
        0xF0, 0x90, 0xF0, 0x10, 0xF0,
        0xF0, 0x90, 0xF0, 0x90, 0x90,
        0xE0, 0x90, 0xE0, 0x90, 0xE0,
        0xF0, 0x80, 0x80, 0x80, 0xF0,
        0xE0, 0x90, 0x90, 0x90, 0xE0,
        0xF0, 0x80, 0xF0, 0x80, 0xF0,
        0xF0, 0x80, 0xF0, 0x80, 0x80,
    ];
    proof {
        assert(r@ =~= font_spec());
    }
    r
}

/// The big-endian word formed by the bytes at `addr` and `addr + 1`.
pub open spec fn word_at(ram: Seq<u8>, addr: int) -> u16 {
    (ram[addr] * 256 + ram[addr + 1]) as u16
}

/// The contents of freshly initialised memory: the font, then zeros.
pub open spec fn initial_ram(a: int) -> u8 {
    if FONT_BASE <= a < FONT_BASE + font_spec().len() {
        font_spec()[a - FONT_BASE]
    } else {
        0
    }
}

/// The emulated address space. The stack holds the live return addresses,
/// innermost last; its length is the stack depth.
pub struct Memory {
    pub ram: [u8; 4096],
    pub stack: Vec<u16>,
}

impl Memory {
    /// Zero-filled memory with the font loaded and an empty stack.
    pub fn new() -> (m: Memory)
        ensures
            forall|a: int| 0 <= a < MEMORY_SIZE ==> #[trigger] m.ram@[a] == initial_ram(a),
            m.stack@ == Seq::<u16>::empty(),
    {
        let mut ram: [u8; 4096] = [0u8; 4096];
        let font = font_bytes();
        let mut k: usize = 0;
        while k < font.len()
            invariant
                font@ == font_spec(),
                k <= font@.len(),
                ram@.len() == MEMORY_SIZE,
                forall|a: int|
                    0 <= a < MEMORY_SIZE ==> #[trigger] ram@[a] == if a < k {
                        font_spec()[a]
                    } else {
                        0u8
                    },
            decreases font@.len() - k,
        {
            ram[FONT_BASE + k] = font[k];
            k = k + 1;
        }
        Memory { ram, stack: Vec::new() }
    }

    /// Reads the big-endian word at `addr`; fails unless `addr + 1` is a
    /// valid address.
    pub fn fetch16(&self, addr: u16) -> (r: Result<u16, Fault>)
        ensures
            addr + 1 <= MAX_ADDRESS ==> r == Ok::<u16, Fault>(word_at(self.ram@, addr as int)),
            addr + 1 > MAX_ADDRESS ==> r == Err::<u16, Fault>(Fault::OutOfBoundsAccess),
    {
        if addr as usize + 1 > MAX_ADDRESS {
            return Err(Fault::OutOfBoundsAccess);
        }
        let hi = self.ram[addr as usize] as u16;
        let lo = self.ram[addr as usize + 1] as u16;
        Ok(hi * 256 + lo)
    }

    /// Reads one byte; fails on an address past the end of memory.
    pub fn read(&self, addr: usize) -> (r: Result<u8, Fault>)
        ensures
            addr < MEMORY_SIZE ==> r == Ok::<u8, Fault>(self.ram@[addr as int]),
            addr >= MEMORY_SIZE ==> r == Err::<u8, Fault>(Fault::OutOfBoundsAccess),
    {
        if addr >= MEMORY_SIZE {
            return Err(Fault::OutOfBoundsAccess);
        }
        Ok(self.ram[addr])
    }

    /// Writes one byte; fails, changing nothing, on an address past the end
    /// of memory.
    pub fn write(&mut self, addr: usize, value: u8) -> (r: Result<(), Fault>)
        ensures
            addr < MEMORY_SIZE ==> r is Ok && final(self).ram@ == old(self).ram@.update(
                addr as int,
                value,
            ),
            addr >= MEMORY_SIZE ==> r == Err::<(), Fault>(Fault::OutOfBoundsAccess)
                && final(self).ram@ == old(self).ram@,
            final(self).stack@ == old(self).stack@,
    {
        if addr >= MEMORY_SIZE {
            return Err(Fault::OutOfBoundsAccess);
        }
        self.ram[addr] = value;
        Ok(())
    }

    /// Pushes a return address; fails, changing nothing, when the stack
    /// already holds `STACK_SIZE` entries.
    pub fn push(&mut self, pc: u16) -> (r: Result<(), Fault>)
        ensures
            final(self).ram@ == old(self).ram@,
            old(self).stack@.len() < STACK_SIZE ==> r is Ok && final(self).stack@ == old(
                self,
            ).stack@.push(pc),
            old(self).stack@.len() >= STACK_SIZE ==> r == Err::<(), Fault>(Fault::StackOverflow)
                && final(self).stack@ == old(self).stack@,
    {
        if self.stack.len() >= STACK_SIZE {
            return Err(Fault::StackOverflow);
        }
        self.stack.push(pc);
        Ok(())
    }

    /// Pops the innermost return address; fails, changing nothing, when the
    /// stack is empty.
    pub fn pop(&mut self) -> (r: Result<u16, Fault>)
        ensures
            final(self).ram@ == old(self).ram@,
            old(self).stack@.len() > 0 ==> r == Ok::<u16, Fault>(old(self).stack@.last())
                && final(self).stack@ == old(self).stack@.drop_last(),
            old(self).stack@.len() == 0 ==> r == Err::<u16, Fault>(Fault::StackUnderflow)
                && final(self).stack@ == old(self).stack@,
    {
        match self.stack.pop() {
            Some(pc) => Ok(pc),
            None => Err(Fault::StackUnderflow),
        }
    }

    /// Copies a program verbatim to `PROGRAM_START`; fails, changing nothing,
    /// when it does not fit in the rest of memory.
    pub fn load_rom(&mut self, rom: &Vec<u8>) -> (r: Result<(), Fault>)
        ensures
            final(self).stack@ == old(self).stack@,
            rom@.len() <= MAX_ROM_SIZE ==> r is Ok && forall|a: int|
                0 <= a < MEMORY_SIZE ==> #[trigger] final(self).ram@[a] == if PROGRAM_START <= a
                    < PROGRAM_START + rom@.len() {
                    rom@[a - PROGRAM_START]
                } else {
                    old(self).ram@[a]
                },
            rom@.len() > MAX_ROM_SIZE ==> r == Err::<(), Fault>(Fault::OutOfBoundsAccess)
                && final(self).ram@ == old(self).ram@,
    {
        if rom.len() > MAX_ROM_SIZE {
            return Err(Fault::OutOfBoundsAccess);
        }
        let mut k: usize = 0;
        while k < rom.len()
            invariant
                rom@.len() <= MAX_ROM_SIZE,
                k <= rom@.len(),
                self.ram@.len() == MEMORY_SIZE,
                self.stack@ == old(self).stack@,
                forall|a: int|
                    0 <= a < MEMORY_SIZE ==> #[trigger] self.ram@[a] == if PROGRAM_START <= a
                        < PROGRAM_START + k {
                        rom@[a - PROGRAM_START]
                    } else {
                        old(self).ram@[a]
                    },
            decreases rom@.len() - k,
        {
            self.ram[PROGRAM_START + k] = rom[k];
            k = k + 1;
        }
        Ok(())
    }
}

} // verus!
