//! The decoder: from a 16-bit word to an instruction, or to nothing.

use crate::instructions::definition::{
    decode, lemma_decode_miss, lemma_decode_sound, Instruction, Nibbles,
};
use crate::registers::Register;
use vstd::prelude::*;

verus! {

/// An instruction word taken apart.
struct InstructionParts {
    /// The whole word.
    full: u16,
    /// First digit: the category.
    cat: u8,
    /// Second digit, as a register.
    x: Register,
    /// Third digit, as a register.
    y: Register,
    /// Fourth digit.
    n: u8,
    /// Low byte: third and fourth digit.
    nn: u8,
    /// Low twelve bits: the last three digits.
    nnn: u16,
}

impl InstructionParts {
    /// Every part is what its name says of `full`.
    spec fn consistent(self) -> bool {
        let d = Nibbles::of(self.full);
        &&& self.cat == d.cat
        &&& self.x == d.reg_x()
        &&& self.y == d.reg_y()
        &&& self.n == d.n
        &&& self.nn == d.byte()
        &&& self.nnn == d.address()
    }

    /// Takes `instruction` apart. This succeeds for every word.
    fn split(instruction: u16) -> (r: Option<InstructionParts>)
        ensures
            r matches Some(parts) && parts.full == instruction && parts.consistent(),
    {
        proof {
            lemma_digits_by_mask(instruction);
        }
        let x = Register::from_u16((instruction >> 8) & 0x0F)?;
        let y = Register::from_u16((instruction >> 4) & 0x00F)?;
        Some(
            InstructionParts {
                full: instruction,
                cat: (instruction >> 12) as u8,
                x,
                y,
                n: (instruction & 0x000F) as u8,
                nn: (instruction & 0x00FF) as u8,
                nnn: instruction & 0x0FFF,
            },
        )
    }
}

/// Shifting and masking a word gives its hexadecimal digits.
proof fn lemma_digits_by_mask(w: u16)
    by (bit_vector)
    ensures
        w >> 12 == w / 0x1000,
        (w >> 8) & 0x0F == (w / 0x100) % 16,
        (w >> 4) & 0x00F == (w / 0x10) % 16,
        w & 0x000F == w % 16,
        w & 0x00FF == ((w / 0x10) % 16) * 16 + w % 16,
        w & 0x0FFF == (((w / 0x100) % 16) * 16 + (w / 0x10) % 16) * 16 + w % 16,
{
}

impl Instruction {
    /// Decodes one instruction word.
    ///
    /// Returns the instruction that the opcode table gives for
    /// `instruction`, and `None` for a word that encodes no instruction.
    pub fn parse(instruction: u16) -> (r: Option<Instruction>)
        ensures
            r == decode(instruction),
            r matches Some(i) ==> i.well_formed() && i.opcode() == instruction,
            r is None ==> forall|i: Instruction|
                i.well_formed() ==> #[trigger] i.opcode() != instruction,
    {
        proof {
            lemma_decode_sound(instruction);
            if decode(instruction) is None {
                lemma_decode_miss(instruction);
            }
        }
        match InstructionParts::split(instruction) {
            Some(parts) => Self::parse_instruction(&parts),
            None => None,
        }
    }

    /// Decodes a word by its category, with the two literal words first.
    fn parse_instruction(parts: &InstructionParts) -> (r: Option<Instruction>)
        requires
            parts.consistent(),
        ensures
            r == decode(parts.full),
    {
        Some(
            match *parts {
                InstructionParts { full: 0x00E0, .. } => Instruction::ClearDisplay,
                InstructionParts { full: 0x00EE, .. } => Instruction::ReturnSubroutine,
                InstructionParts { cat: 0x1, nnn, .. } => Instruction::Jump { addr: nnn },
                InstructionParts { cat: 0x2, nnn, .. } => Instruction::CallSubroutine { addr: nnn },
                InstructionParts { cat: 0x3, x, nn, .. } => Instruction::SkipEq { reg: x, num: nn },
                InstructionParts { cat: 0x4, x, nn, .. } => Instruction::SkipNe { reg: x, num: nn },
                InstructionParts { cat: 0x5, x, y, n: 0x0, .. } => Instruction::SkipEqReg {
                    reg1: x,
                    reg2: y,
                },
                InstructionParts { cat: 0x9, x, y, n: 0x0, .. } => Instruction::SkipNeReg {
                    reg1: x,
                    reg2: y,
                },
                InstructionParts { cat: 0x6, x, nn, .. } => Instruction::SetVal { reg: x, val: nn },
                InstructionParts { cat: 0x7, x, nn, .. } => Instruction::Add { reg: x, val: nn },
                InstructionParts { cat: 0x8, .. } => {
                    return Self::parse_logic_instruction(parts);
                },
                InstructionParts { cat: 0xA, nnn, .. } => Instruction::SetIndex { val: nnn },
                InstructionParts { cat: 0xB, nnn, .. } => Instruction::JumpOffset { addr: nnn },
                InstructionParts { cat: 0xC, x, nn, .. } => Instruction::Rand {
                    outreg: x,
                    val: nn,
                },
                InstructionParts { cat: 0xD, x, y, n, .. } => Instruction::Display {
                    xreg: x,
                    yreg: y,
                    height: n,
                },
                InstructionParts { cat: 0xE, x, nn: 0x9E, .. } => Instruction::SkipIfKey {
                    keyreg: x,
                },
                InstructionParts { cat: 0xE, x, nn: 0xA1, .. } => Instruction::SkipIfNotKey {
                    keyreg: x,
                },
                InstructionParts { cat: 0xF, .. } => {
                    return Self::parse_category_f_instruction(parts);
                },
                _ => {
                    return None;
                },
            },
        )
    }

    /// Decodes a word of category `8`: the operations on two registers.
    fn parse_logic_instruction(parts: &InstructionParts) -> (r: Option<Instruction>)
        requires
            parts.consistent(),
            parts.cat == 0x8,
        ensures
            r == decode(parts.full),
    {
        Some(
            match *parts {
                InstructionParts { x, y, n: 0x0, .. } => Instruction::SetReg { reg1: x, reg2: y },
                InstructionParts { x, y, n: 0x1, .. } => Instruction::Or { reg1: x, reg2: y },
                InstructionParts { x, y, n: 0x2, .. } => Instruction::And { reg1: x, reg2: y },
                InstructionParts { x, y, n: 0x3, .. } => Instruction::Xor { reg1: x, reg2: y },
                InstructionParts { x, y, n: 0x4, .. } => Instruction::AddReg { reg1: x, reg2: y },
                InstructionParts { x, y, n: 0x5, .. } => Instruction::Sub1 { reg1: x, reg2: y },
                InstructionParts { x, y, n: 0x7, .. } => Instruction::Sub2 { reg1: x, reg2: y },
                InstructionParts { x, y, n: 0x6, .. } => Instruction::Shr { reg1: x, reg2: y },
                InstructionParts { x, y, n: 0xE, .. } => Instruction::Shl { reg1: x, reg2: y },
                _ => {
                    return None;
                },
            },
        )
    }

    /// Decodes a word of category `F`: timers, memory and the rest.
    fn parse_category_f_instruction(parts: &InstructionParts) -> (r: Option<Instruction>)
        requires
            parts.consistent(),
            parts.cat == 0xF,
        ensures
            r == decode(parts.full),
    {
        Some(
            match *parts {
                InstructionParts { x, nn: 0x07, .. } => Instruction::GetDelayTimer { outreg: x },
                InstructionParts { x, nn: 0x15, .. } => Instruction::SetDelayTimer { inreg: x },
                InstructionParts { x, nn: 0x18, .. } => Instruction::SetSoundTimer { inreg: x },
                InstructionParts { x, nn: 0x1E, .. } => Instruction::AddToIndex { inreg: x },
                InstructionParts { x, nn: 0x0A, .. } => Instruction::WaitForKey { keyreg: x },
                InstructionParts { x, nn: 0x29, .. } => Instruction::GetFontChar { inreg: x },
                InstructionParts { x, nn: 0x33, .. } => Instruction::BinToDec { inreg: x },
                InstructionParts { x, nn: 0x55, .. } => Instruction::StoreMem { inreg_max: x },
                InstructionParts { x, nn: 0x65, .. } => Instruction::LoadMem { outreg_max: x },
                _ => {
                    return None;
                },
            },
        )
    }
}

} // verus!
