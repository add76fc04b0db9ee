//! The machine: registers, memory, call stack, program counter and timers.

use crate::fault::Fault;
use crate::registers::Registers;
use crate::stack::Stack;
use vstd::prelude::*;

verus! {

/// Number of bytes of memory.
pub const MEMORY_SIZE: usize = 4096;

/// Address of the first glyph of the built-in font.
pub const FONT_START: u16 = 0x50;

/// Number of bytes of one glyph.
pub const GLYPH_LEN: u16 = 5;

/// Address at which a program is loaded and starts to run.
pub const PROGRAM_START: u16 = 0x200;

/// Number of bytes of the built-in font: sixteen glyphs.
pub const FONT_LEN: usize = 80;

/// The built-in font: for each hexadecimal digit a sprite of five rows, of
/// which the high four bits are drawn.
pub const FONT: [u8; 80] = [
    0xF0, 0x90, 0x90, 0x90, 0xF0,
    0x20, 0x60, 0x20, 0x20, 0x70,
    0xF0, 0x10, 0xF0, 0x80, 0xF0,
    0xF0, 0x10, 0xF0, 0x10, 0xF0,
    0x90, 0x90, 0xF0, 0x10, 0x10,
    0xF0, 0x80, 0xF0, 0x10, 0xF0,
    0xF0, 0x80, 0xF0, 0x90, 0xF0,
    0xF0, 0x10, 0x20, 0x40, 0x40,
    0xF0, 0x90, 0xF0, 0x90, 0xF0,
    0xF0, 0x90, 0xF0, 0x10, 0xF0,
    0xF0, 0x90, 0xF0, 0x90, 0x90,
    0xE0, 0x90, 0xE0, 0x90, 0xE0,
    0xF0, 0x80, 0x80, 0x80, 0xF0,
    0xE0, 0x90, 0x90, 0x90, 0xE0,
    0xF0, 0x80, 0xF0, 0x80, 0xF0,
    0xF0, 0x80, 0xF0, 0x80, 0x80,
];

/// The state of the machine as plain mathematical values.
pub struct MachineState {
    /// The values of `V0`..`VF`, by ordinal: sixteen of them.
    pub v: Seq<u8>,
    /// The index register.
    pub index: u16,
    /// The memory: `MEMORY_SIZE` bytes.
    pub mem: Seq<u8>,
    /// The return addresses on the call stack, oldest first.
    pub stack: Seq<u16>,
    /// The program counter.
    pub pc: u16,
    /// The delay timer.
    pub delay_timer: u8,
    /// The sound timer.
    pub sound_timer: u8,
}

/// The machine.
pub struct Chip8 {
    /// `V0`..`VF` and the index register.
    pub registers: Registers,
    /// The memory: the font from `FONT_START`, the program from
    /// `PROGRAM_START`.
    pub mem: [u8; MEMORY_SIZE],
    /// The return addresses of the calls that have not returned.
    pub stack: Stack,
    /// Address of the instruction to fetch next.
    pub pc: u16,
    /// Counts down to zero, one step at each timer tick.
    pub delay_timer: u8,
    /// Counts down to zero, one step at each timer tick; the bell sounds
    /// while it runs.
    pub sound_timer: u8,
}

impl View for Chip8 {
    type V = MachineState;

    open spec fn view(&self) -> MachineState {
        MachineState {
            v: self.registers.values(),
            index: self.registers.index,
            mem: self.mem@,
            stack: self.stack@,
            pc: self.pc,
            delay_timer: self.delay_timer,
            sound_timer: self.sound_timer,
        }
    }
}

/// The memory of a machine into which `program` was loaded: the font from
/// `FONT_START`, the program from `PROGRAM_START`, zero elsewhere.
pub open spec fn initial_memory(program: Seq<u8>) -> Seq<u8> {
    Seq::new(
        MEMORY_SIZE as nat,
        |addr: int|
            if FONT_START <= addr < FONT_START + FONT_LEN {
                FONT@[addr - FONT_START]
            } else if PROGRAM_START <= addr < PROGRAM_START + program.len() {
                program[addr - PROGRAM_START]
            } else {
                0u8
            },
    )
}

/// The state of a machine into which `program` was loaded and which has not
/// run yet.
pub open spec fn initial_state(program: Seq<u8>) -> MachineState {
    MachineState {
        v: Seq::new(16, |i: int| 0u8),
        index: 0,
        mem: initial_memory(program),
        stack: Seq::empty(),
        pc: PROGRAM_START,
        delay_timer: 0,
        sound_timer: 0,
    }
}

/// The word that the two bytes at `pc` and `pc + 1` form, the first byte
/// being the high one; `MemoryOutOfBounds` when they are not both in memory.
pub open spec fn word_at(mem: Seq<u8>, pc: u16) -> Result<u16, Fault> {
    if pc + 1 < mem.len() {
        Ok((mem[pc as int] * 0x100 + mem[pc + 1]) as u16)
    } else {
        Err(Fault::MemoryOutOfBounds)
    }
}

impl Chip8 {
    /// A machine with `prg` loaded at `PROGRAM_START`, ready to run it.
    ///
    /// A program that does not fit in memory is refused with
    /// `ProgramTooLarge`.
    pub fn load_prg(prg: &[u8]) -> (r: Result<Chip8, Fault>)
        ensures
            prg@.len() <= MEMORY_SIZE - PROGRAM_START ==> (r matches Ok(chip8) && chip8@
                == initial_state(prg@)),
            prg@.len() > MEMORY_SIZE - PROGRAM_START ==> (r matches Err(fault) && fault
                == Fault::ProgramTooLarge),
    {
        if prg.len() > MEMORY_SIZE - PROGRAM_START as usize {
            return Err(Fault::ProgramTooLarge);
        }
        let mut mem = [0u8; MEMORY_SIZE];
        let mut i: usize = 0;
        while i < FONT_LEN
            invariant
                i <= FONT_LEN,
                forall|a: int|
                    0 <= a < MEMORY_SIZE ==> mem@[a] == if FONT_START <= a < FONT_START + i {
                        FONT@[a - FONT_START]
                    } else {
                        0u8
                    },
            decreases FONT_LEN - i,
        {
            mem[FONT_START as usize + i] = FONT[i];
            i += 1;
        }
        let mut j: usize = 0;
        while j < prg.len()
            invariant
                j <= prg@.len() <= MEMORY_SIZE - PROGRAM_START,
                forall|a: int|
                    0 <= a < MEMORY_SIZE ==> mem@[a] == if FONT_START <= a < FONT_START
                        + FONT_LEN {
                        FONT@[a - FONT_START]
                    } else if PROGRAM_START <= a < PROGRAM_START + j {
                        prg@[a - PROGRAM_START]
                    } else {
                        0u8
                    },
            decreases prg@.len() - j,
        {
            mem[PROGRAM_START as usize + j] = prg[j];
            j += 1;
        }
        let chip8 = Chip8 {
            registers: Registers::new(),
            mem,
            stack: Stack::new(),
            pc: PROGRAM_START,
            delay_timer: 0,
            sound_timer: 0,
        };
        assert(chip8@.mem =~= initial_memory(prg@));
        Ok(chip8)
    }

    /// The instruction word at the program counter.
    pub fn fetch(&self) -> (r: Result<u16, Fault>)
        ensures
            r == word_at(self@.mem, self@.pc),
    {
        let pc = self.pc as usize;
        if pc + 1 >= MEMORY_SIZE {
            return Err(Fault::MemoryOutOfBounds);
        }
        let high = self.mem[pc] as u16;
        let low = self.mem[pc + 1] as u16;
        Ok(high * 0x100 + low)
    }
}

} // verus!
