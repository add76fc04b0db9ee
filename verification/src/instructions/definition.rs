//! The thirty-four instructions and the opcode table.

use crate::registers::Register;
use vstd::prelude::*;

verus! {

/// One decoded instruction, carrying only the operands that it uses.
#[allow(inconsistent_fields)]
#[derive(Debug, Clone, Copy, PartialEq, Eq, Structural)]
pub enum Instruction {
    /// `00E0`: set every pixel to the background colour.
    ClearDisplay,
    /// `00EE`: return from a subroutine.
    ReturnSubroutine,
    /// `1NNN`: continue at `addr`.
    Jump { addr: u16 },
    /// `2NNN`: call the subroutine at `addr`.
    CallSubroutine { addr: u16 },
    /// `3XNN`: skip the next instruction if `reg` holds `num`.
    SkipEq { reg: Register, num: u8 },
    /// `4XNN`: skip the next instruction if `reg` does not hold `num`.
    SkipNe { reg: Register, num: u8 },
    /// `5XY0`: skip the next instruction if the two registers are equal.
    SkipEqReg { reg1: Register, reg2: Register },
    /// `9XY0`: skip the next instruction if the two registers differ.
    SkipNeReg { reg1: Register, reg2: Register },
    /// `6XNN`: store `val` in `reg`.
    SetVal { reg: Register, val: u8 },
    /// `7XNN`: add `val` to `reg`, modulo 256, without touching `VF`.
    Add { reg: Register, val: u8 },
    /// `8XY0`: copy `reg2` into `reg1`.
    SetReg { reg1: Register, reg2: Register },
    /// `8XY1`: bitwise or of `reg2` into `reg1`.
    Or { reg1: Register, reg2: Register },
    /// `8XY2`: bitwise and of `reg2` into `reg1`.
    And { reg1: Register, reg2: Register },
    /// `8XY3`: bitwise exclusive or of `reg2` into `reg1`.
    Xor { reg1: Register, reg2: Register },
    /// `8XY4`: add `reg2` to `reg1`, modulo 256; `VF` receives the carry.
    AddReg { reg1: Register, reg2: Register },
    /// `8XY5`: `reg1 = reg1 - reg2`, modulo 256; `VF` is 1 unless a borrow
    /// occurred.
    Sub1 { reg1: Register, reg2: Register },
    /// `8XY7`: `reg1 = reg2 - reg1`, modulo 256; `VF` is 1 unless a borrow
    /// occurred.
    Sub2 { reg1: Register, reg2: Register },
    /// `8XY6`: `reg1 = reg2 >> 1`; `VF` receives the lowest bit of `reg2`.
    Shr { reg1: Register, reg2: Register },
    /// `8XYE`: `reg1 = reg2 << 1`; `VF` receives the highest bit of `reg2`.
    Shl { reg1: Register, reg2: Register },
    /// `ANNN`: store `val` in the index register.
    SetIndex { val: u16 },
    /// `BNNN`: continue at `addr` plus the value of `V0`.
    JumpOffset { addr: u16 },
    /// `CXNN`: store a random byte, masked by `val`, in `outreg`.
    Rand { outreg: Register, val: u8 },
    /// `DXYN`: draw the sprite of `height` rows found at the index register,
    /// at the position held by `xreg` and `yreg`.
    Display { xreg: Register, yreg: Register, height: u8 },
    /// `EX9E`: skip the next instruction if the key named by `keyreg` is down.
    SkipIfKey { keyreg: Register },
    /// `EXA1`: skip the next instruction unless the key named by `keyreg` is
    /// down.
    SkipIfNotKey { keyreg: Register },
    /// `FX07`: copy the delay timer into `outreg`.
    GetDelayTimer { outreg: Register },
    /// `FX15`: copy `inreg` into the delay timer.
    SetDelayTimer { inreg: Register },
    /// `FX18`: copy `inreg` into the sound timer.
    SetSoundTimer { inreg: Register },
    /// `FX1E`: add `inreg` to the index register.
    AddToIndex { inreg: Register },
    /// `FX0A`: wait until a key is down and store its value in `keyreg`.
    WaitForKey { keyreg: Register },
    /// `FX29`: point the index register at the glyph of the digit in `inreg`.
    GetFontChar { inreg: Register },
    /// `FX33`: store the three decimal digits of `inreg` at the index
    /// register.
    BinToDec { inreg: Register },
    /// `FX55`: store `V0`..=`inreg_max` at the index register.
    StoreMem { inreg_max: Register },
    /// `FX65`: load `V0`..=`outreg_max` from the index register.
    LoadMem { outreg_max: Register },
}

/// The four hexadecimal digits of an instruction word, highest first.
pub struct Nibbles {
    pub cat: int,
    pub x: int,
    pub y: int,
    pub n: int,
}

impl Nibbles {
    /// Every digit lies in `0..16`.
    pub open spec fn in_range(self) -> bool {
        &&& 0 <= self.cat < 16
        &&& 0 <= self.x < 16
        &&& 0 <= self.y < 16
        &&& 0 <= self.n < 16
    }

    /// The number written by the four digits.
    pub open spec fn value(self) -> int {
        ((self.cat * 16 + self.x) * 16 + self.y) * 16 + self.n
    }

    /// The four digits of `word`.
    pub open spec fn of(word: u16) -> Nibbles {
        Nibbles {
            cat: word as int / 0x1000,
            x: (word as int / 0x100) % 16,
            y: (word as int / 0x10) % 16,
            n: word as int % 16,
        }
    }

    /// The 12-bit address written by the last three digits.
    pub open spec fn address(self) -> u16 {
        ((self.x * 16 + self.y) * 16 + self.n) as u16
    }

    /// The byte written by the last two digits.
    pub open spec fn byte(self) -> u8 {
        (self.y * 16 + self.n) as u8
    }

    /// The register named by the second digit.
    pub open spec fn reg_x(self) -> Register {
        Register::at(self.x)
    }

    /// The register named by the third digit.
    pub open spec fn reg_y(self) -> Register {
        Register::at(self.y)
    }

    /// The digits `cat`, then the three digits of `addr`.
    pub open spec fn with_address(cat: int, addr: u16) -> Nibbles {
        Nibbles { cat, x: addr as int / 0x100, y: (addr as int / 0x10) % 16, n: addr as int % 16 }
    }

    /// The digits `cat`, the ordinal of `reg`, then the two digits of `byte`.
    pub open spec fn with_byte(cat: int, reg: Register, byte: u8) -> Nibbles {
        Nibbles { cat, x: reg.ordinal(), y: byte as int / 0x10, n: byte as int % 16 }
    }

    /// The digits `cat`, the ordinals of `reg1` and `reg2`, then `n`.
    pub open spec fn with_registers(cat: int, reg1: Register, reg2: Register, n: int) -> Nibbles {
        Nibbles { cat, x: reg1.ordinal(), y: reg2.ordinal(), n }
    }

    /// The digits `cat`, the ordinal of `reg`, then the digits `y` and `n`.
    pub open spec fn with_register(cat: int, reg: Register, y: int, n: int) -> Nibbles {
        Nibbles { cat, x: reg.ordinal(), y, n }
    }
}

impl Instruction {
    /// Addresses fit in twelve bits and a sprite height in four.
    pub open spec fn well_formed(self) -> bool {
        match self {
            Instruction::Jump { addr } => addr < 0x1000,
            Instruction::CallSubroutine { addr } => addr < 0x1000,
            Instruction::JumpOffset { addr } => addr < 0x1000,
            Instruction::SetIndex { val } => val < 0x1000,
            Instruction::Display { height, .. } => height < 16,
            _ => true,
        }
    }

    /// The opcode table: the four hexadecimal digits that encode the
    /// instruction.
    pub open spec fn nibbles(self) -> Nibbles {
        match self {
            Instruction::ClearDisplay => Nibbles { cat: 0x0, x: 0x0, y: 0xE, n: 0x0 },
            Instruction::ReturnSubroutine => Nibbles { cat: 0x0, x: 0x0, y: 0xE, n: 0xE },
            Instruction::Jump { addr } => Nibbles::with_address(0x1, addr),
            Instruction::CallSubroutine { addr } => Nibbles::with_address(0x2, addr),
            Instruction::SkipEq { reg, num } => Nibbles::with_byte(0x3, reg, num),
            Instruction::SkipNe { reg, num } => Nibbles::with_byte(0x4, reg, num),
            Instruction::SkipEqReg { reg1, reg2 } => Nibbles::with_registers(0x5, reg1, reg2, 0x0),
            Instruction::SetVal { reg, val } => Nibbles::with_byte(0x6, reg, val),
            Instruction::Add { reg, val } => Nibbles::with_byte(0x7, reg, val),
            Instruction::SetReg { reg1, reg2 } => Nibbles::with_registers(0x8, reg1, reg2, 0x0),
            Instruction::Or { reg1, reg2 } => Nibbles::with_registers(0x8, reg1, reg2, 0x1),
            Instruction::And { reg1, reg2 } => Nibbles::with_registers(0x8, reg1, reg2, 0x2),
            Instruction::Xor { reg1, reg2 } => Nibbles::with_registers(0x8, reg1, reg2, 0x3),
            Instruction::AddReg { reg1, reg2 } => Nibbles::with_registers(0x8, reg1, reg2, 0x4),
            Instruction::Sub1 { reg1, reg2 } => Nibbles::with_registers(0x8, reg1, reg2, 0x5),
            Instruction::Shr { reg1, reg2 } => Nibbles::with_registers(0x8, reg1, reg2, 0x6),
            Instruction::Sub2 { reg1, reg2 } => Nibbles::with_registers(0x8, reg1, reg2, 0x7),
            Instruction::Shl { reg1, reg2 } => Nibbles::with_registers(0x8, reg1, reg2, 0xE),
            Instruction::SkipNeReg { reg1, reg2 } => Nibbles::with_registers(0x9, reg1, reg2, 0x0),
            Instruction::SetIndex { val } => Nibbles::with_address(0xA, val),
            Instruction::JumpOffset { addr } => Nibbles::with_address(0xB, addr),
            Instruction::Rand { outreg, val } => Nibbles::with_byte(0xC, outreg, val),
            Instruction::Display { xreg, yreg, height } => Nibbles::with_registers(
                0xD,
                xreg,
                yreg,
                height as int,
            ),
            Instruction::SkipIfKey { keyreg } => Nibbles::with_register(0xE, keyreg, 0x9, 0xE),
            Instruction::SkipIfNotKey { keyreg } => Nibbles::with_register(0xE, keyreg, 0xA, 0x1),
            Instruction::GetDelayTimer { outreg } => Nibbles::with_register(0xF, outreg, 0x0, 0x7),
            Instruction::WaitForKey { keyreg } => Nibbles::with_register(0xF, keyreg, 0x0, 0xA),
            Instruction::SetDelayTimer { inreg } => Nibbles::with_register(0xF, inreg, 0x1, 0x5),
            Instruction::SetSoundTimer { inreg } => Nibbles::with_register(0xF, inreg, 0x1, 0x8),
            Instruction::AddToIndex { inreg } => Nibbles::with_register(0xF, inreg, 0x1, 0xE),
            Instruction::GetFontChar { inreg } => Nibbles::with_register(0xF, inreg, 0x2, 0x9),
            Instruction::BinToDec { inreg } => Nibbles::with_register(0xF, inreg, 0x3, 0x3),
            Instruction::StoreMem { inreg_max } => Nibbles::with_register(0xF, inreg_max, 0x5, 0x5),
            Instruction::LoadMem { outreg_max } => Nibbles::with_register(0xF, outreg_max, 0x6, 0x5),
        }
    }

    /// An instruction is of one of the thirty-four kinds.
    pub proof fn lemma_kinds(self)
        ensures
            ({
                ||| self is ClearDisplay
                ||| self is ReturnSubroutine
                ||| self is Jump
                ||| self is CallSubroutine
                ||| self is SkipEq
                ||| self is SkipNe
                ||| self is SkipEqReg
                ||| self is SkipNeReg
                ||| self is SetVal
                ||| self is Add
                ||| self is SetReg
                ||| self is Or
                ||| self is And
                ||| self is Xor
                ||| self is AddReg
                ||| self is Sub1
                ||| self is Sub2
                ||| self is Shr
                ||| self is Shl
                ||| self is SetIndex
                ||| self is JumpOffset
                ||| self is Rand
                ||| self is Display
                ||| self is SkipIfKey
                ||| self is SkipIfNotKey
                ||| self is GetDelayTimer
                ||| self is SetDelayTimer
                ||| self is SetSoundTimer
                ||| self is AddToIndex
                ||| self is WaitForKey
                ||| self is GetFontChar
                ||| self is BinToDec
                ||| self is StoreMem
                ||| self is LoadMem
            }),
    {
    }

    /// The 16-bit word that encodes the instruction.
    pub open spec fn opcode(self) -> int {
        self.nibbles().value()
    }
}

impl Instruction {
    /// The opcode table read from digits to instruction: the instruction
    /// that the four digits `d` encode, if they encode one.
    pub open spec fn from_nibbles(d: Nibbles) -> Option<Instruction> {
        let reg1 = d.reg_x();
        let reg2 = d.reg_y();
        if d.cat == 0x0 {
            if d.x == 0x0 && d.y == 0xE && d.n == 0x0 {
                Some(Instruction::ClearDisplay)
            } else if d.x == 0x0 && d.y == 0xE && d.n == 0xE {
                Some(Instruction::ReturnSubroutine)
            } else {
                None
            }
        } else if d.cat == 0x1 {
            Some(Instruction::Jump { addr: d.address() })
        } else if d.cat == 0x2 {
            Some(Instruction::CallSubroutine { addr: d.address() })
        } else if d.cat == 0x3 {
            Some(Instruction::SkipEq { reg: reg1, num: d.byte() })
        } else if d.cat == 0x4 {
            Some(Instruction::SkipNe { reg: reg1, num: d.byte() })
        } else if d.cat == 0x5 {
            if d.n == 0x0 {
                Some(Instruction::SkipEqReg { reg1, reg2 })
            } else {
                None
            }
        } else if d.cat == 0x6 {
            Some(Instruction::SetVal { reg: reg1, val: d.byte() })
        } else if d.cat == 0x7 {
            Some(Instruction::Add { reg: reg1, val: d.byte() })
        } else if d.cat == 0x8 {
            if d.n == 0x0 {
                Some(Instruction::SetReg { reg1, reg2 })
            } else if d.n == 0x1 {
                Some(Instruction::Or { reg1, reg2 })
            } else if d.n == 0x2 {
                Some(Instruction::And { reg1, reg2 })
            } else if d.n == 0x3 {
                Some(Instruction::Xor { reg1, reg2 })
            } else if d.n == 0x4 {
                Some(Instruction::AddReg { reg1, reg2 })
            } else if d.n == 0x5 {
                Some(Instruction::Sub1 { reg1, reg2 })
            } else if d.n == 0x6 {
                Some(Instruction::Shr { reg1, reg2 })
            } else if d.n == 0x7 {
                Some(Instruction::Sub2 { reg1, reg2 })
            } else if d.n == 0xE {
                Some(Instruction::Shl { reg1, reg2 })
            } else {
                None
            }
        } else if d.cat == 0x9 {
            if d.n == 0x0 {
                Some(Instruction::SkipNeReg { reg1, reg2 })
            } else {
                None
            }
        } else if d.cat == 0xA {
            Some(Instruction::SetIndex { val: d.address() })
        } else if d.cat == 0xB {
            Some(Instruction::JumpOffset { addr: d.address() })
        } else if d.cat == 0xC {
            Some(Instruction::Rand { outreg: reg1, val: d.byte() })
        } else if d.cat == 0xD {
            Some(Instruction::Display { xreg: reg1, yreg: reg2, height: d.n as u8 })
        } else if d.cat == 0xE {
            if d.y == 0x9 && d.n == 0xE {
                Some(Instruction::SkipIfKey { keyreg: reg1 })
            } else if d.y == 0xA && d.n == 0x1 {
                Some(Instruction::SkipIfNotKey { keyreg: reg1 })
            } else {
                None
            }
        } else if d.cat == 0xF {
            if d.y == 0x0 && d.n == 0x7 {
                Some(Instruction::GetDelayTimer { outreg: reg1 })
            } else if d.y == 0x0 && d.n == 0xA {
                Some(Instruction::WaitForKey { keyreg: reg1 })
            } else if d.y == 0x1 && d.n == 0x5 {
                Some(Instruction::SetDelayTimer { inreg: reg1 })
            } else if d.y == 0x1 && d.n == 0x8 {
                Some(Instruction::SetSoundTimer { inreg: reg1 })
            } else if d.y == 0x1 && d.n == 0xE {
                Some(Instruction::AddToIndex { inreg: reg1 })
            } else if d.y == 0x2 && d.n == 0x9 {
                Some(Instruction::GetFontChar { inreg: reg1 })
            } else if d.y == 0x3 && d.n == 0x3 {
                Some(Instruction::BinToDec { inreg: reg1 })
            } else if d.y == 0x5 && d.n == 0x5 {
                Some(Instruction::StoreMem { inreg_max: reg1 })
            } else if d.y == 0x6 && d.n == 0x5 {
                Some(Instruction::LoadMem { outreg_max: reg1 })
            } else {
                None
            }
        } else {
            None
        }
    }
}

/// The instruction that `word` encodes, if it encodes one.
pub open spec fn decode(word: u16) -> Option<Instruction> {
    Instruction::from_nibbles(Nibbles::of(word))
}

/// A number below `0x10000` has exactly one way to be written with four
/// hexadecimal digits.
pub proof fn lemma_nibbles_unique(digits: Nibbles, word: u16)
    requires
        digits.in_range(),
        digits.value() == word,
    ensures
        digits == Nibbles::of(word),
{
}

/// The four digits of a word write that word.
pub proof fn lemma_nibbles_of(word: u16)
    ensures
        Nibbles::of(word).in_range(),
        Nibbles::of(word).value() == word,
{
}

/// The digits of a well-formed instruction are hexadecimal digits, so its
/// opcode is a 16-bit word.
pub proof fn lemma_opcode_range(i: Instruction)
    requires
        i.well_formed(),
    ensures
        i.nibbles().in_range(),
        0 <= i.opcode() < 0x10000,
{
    i.lemma_kinds();
    Register::lemma_ordinals();
}

/// The instruction takes an address, or nothing at all.
spec fn takes_address(i: Instruction) -> bool {
    ||| i is ClearDisplay
    ||| i is ReturnSubroutine
    ||| i is Jump
    ||| i is CallSubroutine
    ||| i is SetIndex
    ||| i is JumpOffset
}

/// The instruction takes a register and a byte.
spec fn takes_byte(i: Instruction) -> bool {
    ||| i is SkipEq
    ||| i is SkipNe
    ||| i is SetVal
    ||| i is Add
    ||| i is Rand
}

/// The instruction takes two registers.
spec fn takes_registers(i: Instruction) -> bool {
    ||| i is SkipEqReg
    ||| i is SkipNeReg
    ||| i is SetReg
    ||| i is Or
    ||| i is And
    ||| i is Xor
    ||| i is AddReg
    ||| i is Sub1
    ||| i is Sub2
    ||| i is Shr
    ||| i is Shl
    ||| i is Display
}

/// The instruction takes one register.
spec fn takes_register(i: Instruction) -> bool {
    ||| i is SkipIfKey
    ||| i is SkipIfNotKey
    ||| i is GetDelayTimer
    ||| i is SetDelayTimer
    ||| i is SetSoundTimer
    ||| i is AddToIndex
    ||| i is WaitForKey
    ||| i is GetFontChar
    ||| i is BinToDec
    ||| i is StoreMem
    ||| i is LoadMem
}

/// Reading back the digits of an instruction without a register.
proof fn lemma_read_back_address(i: Instruction)
    requires
        i.well_formed(),
        takes_address(i),
    ensures
        Instruction::from_nibbles(i.nibbles()) == Some(i),
{
}

/// Reading back the digits of an instruction with a register and a byte.
proof fn lemma_read_back_byte(i: Instruction)
    requires
        takes_byte(i),
    ensures
        Instruction::from_nibbles(i.nibbles()) == Some(i),
{
    Register::lemma_ordinals();
}

/// Reading back the digits of an instruction with two registers.
proof fn lemma_read_back_registers(i: Instruction)
    requires
        i.well_formed(),
        takes_registers(i),
    ensures
        Instruction::from_nibbles(i.nibbles()) == Some(i),
{
    match i {
        Instruction::SkipEqReg { reg1, reg2 }
        | Instruction::SkipNeReg { reg1, reg2 }
        | Instruction::SetReg { reg1, reg2 }
        | Instruction::Or { reg1, reg2 }
        | Instruction::And { reg1, reg2 }
        | Instruction::Xor { reg1, reg2 }
        | Instruction::AddReg { reg1, reg2 }
        | Instruction::Sub1 { reg1, reg2 }
        | Instruction::Sub2 { reg1, reg2 }
        | Instruction::Shr { reg1, reg2 }
        | Instruction::Shl { reg1, reg2 } => {
            reg1.lemma_ordinal();
            reg2.lemma_ordinal();
        },
        Instruction::Display { xreg, yreg, height } => {
            xreg.lemma_ordinal();
            yreg.lemma_ordinal();
        },
        _ => {},
    }
}

/// Reading back the digits of an instruction with one register.
proof fn lemma_read_back_register(i: Instruction)
    requires
        takes_register(i),
    ensures
        Instruction::from_nibbles(i.nibbles()) == Some(i),
{
    Register::lemma_ordinals();
}

/// Reading the digits of a well-formed instruction gives that instruction
/// back.
pub proof fn lemma_from_nibbles_of_instruction(i: Instruction)
    requires
        i.well_formed(),
    ensures
        Instruction::from_nibbles(i.nibbles()) == Some(i),
{
    i.lemma_kinds();
    if takes_address(i) {
        lemma_read_back_address(i);
    } else if takes_byte(i) {
        lemma_read_back_byte(i);
    } else if takes_registers(i) {
        lemma_read_back_registers(i);
    } else {
        lemma_read_back_register(i);
    }
}

/// What four hexadecimal digits decode to is well formed and is encoded by
/// those digits.
pub proof fn lemma_nibbles_of_decoded(d: Nibbles)
    requires
        d.in_range(),
    ensures
        Instruction::from_nibbles(d) matches Some(i) ==> i.well_formed() && i.nibbles() == d,
{
    Register::lemma_at(d.x);
    Register::lemma_at(d.y);
    assert(Nibbles::with_address(d.cat, d.address()) == d);
    assert(Nibbles::with_byte(d.cat, d.reg_x(), d.byte()) == d);
    assert(Nibbles::with_registers(d.cat, d.reg_x(), d.reg_y(), d.n) == d);
    assert(Nibbles::with_register(d.cat, d.reg_x(), d.y, d.n) == d);
}

/// Decoding is sound: what a word decodes to is a well-formed instruction
/// whose opcode is that word.
pub proof fn lemma_decode_sound(word: u16)
    ensures
        decode(word) matches Some(i) ==> i.well_formed() && i.opcode() == word,
{
    lemma_nibbles_of(word);
    lemma_nibbles_of_decoded(Nibbles::of(word));
}

/// Decoding is complete: the opcode of a well-formed instruction is a 16-bit
/// word, and it decodes to that instruction.
pub proof fn lemma_decode_complete(i: Instruction)
    requires
        i.well_formed(),
    ensures
        0 <= i.opcode() < 0x10000,
        decode(i.opcode() as u16) == Some(i),
{
    lemma_opcode_range(i);
    lemma_nibbles_unique(i.nibbles(), i.opcode() as u16);
    lemma_from_nibbles_of_instruction(i);
}

/// A word that does not decode is the opcode of no well-formed instruction.
pub proof fn lemma_decode_miss(word: u16)
    requires
        decode(word) is None,
    ensures
        forall|i: Instruction| i.well_formed() ==> #[trigger] i.opcode() != word,
{
    assert forall|i: Instruction| i.well_formed() implies #[trigger] i.opcode() != word by {
        lemma_decode_complete(i);
    }
}

/// No two well-formed instructions share an opcode.
pub proof fn lemma_opcode_injective(a: Instruction, b: Instruction)
    requires
        a.well_formed(),
        b.well_formed(),
        a.opcode() == b.opcode(),
    ensures
        a == b,
{
    lemma_decode_complete(a);
    lemma_decode_complete(b);
}

} // verus!
