use chip8_vm::instructions::Instruction;
use chip8_vm::registers::Register;

const REGISTERS: [Register; 16] = [
    Register::V0,
    Register::V1,
    Register::V2,
    Register::V3,
    Register::V4,
    Register::V5,
    Register::V6,
    Register::V7,
    Register::V8,
    Register::V9,
    Register::VA,
    Register::VB,
    Register::VC,
    Register::VD,
    Register::VE,
    Register::VF,
];

/// The word that the opcode table gives for an instruction.
fn encode(instruction: Instruction) -> u16 {
    let x = |reg: Register| (reg.index() as u16) << 8;
    let y = |reg: Register| (reg.index() as u16) << 4;
    match instruction {
        Instruction::ClearDisplay => 0x00E0,
        Instruction::ReturnSubroutine => 0x00EE,
        Instruction::Jump { addr } => 0x1000 | addr,
        Instruction::CallSubroutine { addr } => 0x2000 | addr,
        Instruction::SkipEq { reg, num } => 0x3000 | x(reg) | num as u16,
        Instruction::SkipNe { reg, num } => 0x4000 | x(reg) | num as u16,
        Instruction::SkipEqReg { reg1, reg2 } => 0x5000 | x(reg1) | y(reg2),
        Instruction::SetVal { reg, val } => 0x6000 | x(reg) | val as u16,
        Instruction::Add { reg, val } => 0x7000 | x(reg) | val as u16,
        Instruction::SetReg { reg1, reg2 } => 0x8000 | x(reg1) | y(reg2),
        Instruction::Or { reg1, reg2 } => 0x8001 | x(reg1) | y(reg2),
        Instruction::And { reg1, reg2 } => 0x8002 | x(reg1) | y(reg2),
        Instruction::Xor { reg1, reg2 } => 0x8003 | x(reg1) | y(reg2),
        Instruction::AddReg { reg1, reg2 } => 0x8004 | x(reg1) | y(reg2),
        Instruction::Sub1 { reg1, reg2 } => 0x8005 | x(reg1) | y(reg2),
        Instruction::Shr { reg1, reg2 } => 0x8006 | x(reg1) | y(reg2),
        Instruction::Sub2 { reg1, reg2 } => 0x8007 | x(reg1) | y(reg2),
        Instruction::Shl { reg1, reg2 } => 0x800E | x(reg1) | y(reg2),
        Instruction::SkipNeReg { reg1, reg2 } => 0x9000 | x(reg1) | y(reg2),
        Instruction::SetIndex { val } => 0xA000 | val,
        Instruction::JumpOffset { addr } => 0xB000 | addr,
        Instruction::Rand { outreg, val } => 0xC000 | x(outreg) | val as u16,
        Instruction::Display { xreg, yreg, height } => 0xD000 | x(xreg) | y(yreg) | height as u16,
        Instruction::SkipIfKey { keyreg } => 0xE09E | x(keyreg),
        Instruction::SkipIfNotKey { keyreg } => 0xE0A1 | x(keyreg),
        Instruction::GetDelayTimer { outreg } => 0xF007 | x(outreg),
        Instruction::WaitForKey { keyreg } => 0xF00A | x(keyreg),
        Instruction::SetDelayTimer { inreg } => 0xF015 | x(inreg),
        Instruction::SetSoundTimer { inreg } => 0xF018 | x(inreg),
        Instruction::AddToIndex { inreg } => 0xF01E | x(inreg),
        Instruction::GetFontChar { inreg } => 0xF029 | x(inreg),
        Instruction::BinToDec { inreg } => 0xF033 | x(inreg),
        Instruction::StoreMem { inreg_max } => 0xF055 | x(inreg_max),
        Instruction::LoadMem { outreg_max } => 0xF065 | x(outreg_max),
    }
}

#[test]
fn decode_literal_words() {
    assert_eq!(Instruction::parse(0x00E0), Some(Instruction::ClearDisplay));
    assert_eq!(Instruction::parse(0x00EE), Some(Instruction::ReturnSubroutine));
}

#[test]
fn decode_rejects_other_words_of_category_zero() {
    assert_eq!(Instruction::parse(0x0000), None);
    assert_eq!(Instruction::parse(0x00E1), None);
    assert_eq!(Instruction::parse(0x00EF), None);
    assert_eq!(Instruction::parse(0x01E0), None);
    assert_eq!(Instruction::parse(0x0123), None);
    assert_eq!(Instruction::parse(0x0FFF), None);
}

#[test]
fn decode_addresses() {
    assert_eq!(Instruction::parse(0x1234), Some(Instruction::Jump { addr: 0x234 }));
    assert_eq!(Instruction::parse(0x1000), Some(Instruction::Jump { addr: 0x000 }));
    assert_eq!(Instruction::parse(0x2FFF), Some(Instruction::CallSubroutine { addr: 0xFFF }));
    assert_eq!(Instruction::parse(0xA2F0), Some(Instruction::SetIndex { val: 0x2F0 }));
    assert_eq!(Instruction::parse(0xB00A), Some(Instruction::JumpOffset { addr: 0x00A }));
}

#[test]
fn decode_register_and_byte() {
    assert_eq!(
        Instruction::parse(0x3A42),
        Some(Instruction::SkipEq { reg: Register::VA, num: 0x42 })
    );
    assert_eq!(
        Instruction::parse(0x4000),
        Some(Instruction::SkipNe { reg: Register::V0, num: 0x00 })
    );
    assert_eq!(
        Instruction::parse(0x6FFF),
        Some(Instruction::SetVal { reg: Register::VF, val: 0xFF })
    );
    assert_eq!(Instruction::parse(0x7301), Some(Instruction::Add { reg: Register::V3, val: 0x01 }));
    assert_eq!(
        Instruction::parse(0xC70F),
        Some(Instruction::Rand { outreg: Register::V7, val: 0x0F })
    );
}

#[test]
fn decode_two_registers() {
    let reg1 = Register::V1;
    let reg2 = Register::VE;
    assert_eq!(Instruction::parse(0x51E0), Some(Instruction::SkipEqReg { reg1, reg2 }));
    assert_eq!(Instruction::parse(0x91E0), Some(Instruction::SkipNeReg { reg1, reg2 }));
    assert_eq!(Instruction::parse(0x81E0), Some(Instruction::SetReg { reg1, reg2 }));
    assert_eq!(Instruction::parse(0x81E1), Some(Instruction::Or { reg1, reg2 }));
    assert_eq!(Instruction::parse(0x81E2), Some(Instruction::And { reg1, reg2 }));
    assert_eq!(Instruction::parse(0x81E3), Some(Instruction::Xor { reg1, reg2 }));
    assert_eq!(Instruction::parse(0x81E4), Some(Instruction::AddReg { reg1, reg2 }));
    assert_eq!(Instruction::parse(0x81E5), Some(Instruction::Sub1 { reg1, reg2 }));
    assert_eq!(Instruction::parse(0x81E6), Some(Instruction::Shr { reg1, reg2 }));
    assert_eq!(Instruction::parse(0x81E7), Some(Instruction::Sub2 { reg1, reg2 }));
    assert_eq!(Instruction::parse(0x81EE), Some(Instruction::Shl { reg1, reg2 }));
}

#[test]
fn decode_rejects_undefined_register_operations() {
    for n in [0x8u16, 0x9, 0xA, 0xB, 0xC, 0xD, 0xF] {
        assert_eq!(Instruction::parse(0x8120 | n), None);
    }
    for n in 1..16u16 {
        assert_eq!(Instruction::parse(0x5120 | n), None);
        assert_eq!(Instruction::parse(0x9120 | n), None);
    }
}

#[test]
fn decode_display() {
    assert_eq!(
        Instruction::parse(0xD125),
        Some(Instruction::Display { xreg: Register::V1, yreg: Register::V2, height: 5 })
    );
    assert_eq!(
        Instruction::parse(0xDAB0),
        Some(Instruction::Display { xreg: Register::VA, yreg: Register::VB, height: 0 })
    );
    assert_eq!(
        Instruction::parse(0xDFFF),
        Some(Instruction::Display { xreg: Register::VF, yreg: Register::VF, height: 15 })
    );
}

#[test]
fn decode_key_skips() {
    assert_eq!(Instruction::parse(0xE49E), Some(Instruction::SkipIfKey { keyreg: Register::V4 }));
    assert_eq!(
        Instruction::parse(0xE4A1),
        Some(Instruction::SkipIfNotKey { keyreg: Register::V4 })
    );
    assert_eq!(Instruction::parse(0xE49F), None);
    assert_eq!(Instruction::parse(0xE4A0), None);
    assert_eq!(Instruction::parse(0xE400), None);
}

#[test]
fn decode_category_f() {
    let reg = Register::V9;
    assert_eq!(Instruction::parse(0xF907), Some(Instruction::GetDelayTimer { outreg: reg }));
    assert_eq!(Instruction::parse(0xF90A), Some(Instruction::WaitForKey { keyreg: reg }));
    assert_eq!(Instruction::parse(0xF915), Some(Instruction::SetDelayTimer { inreg: reg }));
    assert_eq!(Instruction::parse(0xF918), Some(Instruction::SetSoundTimer { inreg: reg }));
    assert_eq!(Instruction::parse(0xF91E), Some(Instruction::AddToIndex { inreg: reg }));
    assert_eq!(Instruction::parse(0xF929), Some(Instruction::GetFontChar { inreg: reg }));
    assert_eq!(Instruction::parse(0xF933), Some(Instruction::BinToDec { inreg: reg }));
    assert_eq!(Instruction::parse(0xF955), Some(Instruction::StoreMem { inreg_max: reg }));
    assert_eq!(Instruction::parse(0xF965), Some(Instruction::LoadMem { outreg_max: reg }));
    assert_eq!(Instruction::parse(0xF900), None);
    assert_eq!(Instruction::parse(0xF956), None);
    assert_eq!(Instruction::parse(0xF9FF), None);
}

#[test]
fn decode_every_word_is_an_instruction_or_a_miss() {
    let mut decoded = 0u32;
    for word in 0..=u16::MAX {
        if let Some(instruction) = Instruction::parse(word) {
            assert_eq!(encode(instruction), word);
            decoded += 1;
        }
    }
    // 2 literal words, 10 categories that take every operand, 11 operations
    // on two registers, 2 key skips and 9 operations of category F.
    assert_eq!(decoded, 2 + 10 * 4096 + 11 * 256 + 2 * 16 + 9 * 16);
}

#[test]
fn decode_inverts_the_opcode_table() {
    for &reg1 in REGISTERS.iter() {
        for &reg2 in REGISTERS.iter() {
            for instruction in [
                Instruction::SkipEqReg { reg1, reg2 },
                Instruction::SkipNeReg { reg1, reg2 },
                Instruction::SetReg { reg1, reg2 },
                Instruction::Or { reg1, reg2 },
                Instruction::And { reg1, reg2 },
                Instruction::Xor { reg1, reg2 },
                Instruction::AddReg { reg1, reg2 },
                Instruction::Sub1 { reg1, reg2 },
                Instruction::Sub2 { reg1, reg2 },
                Instruction::Shr { reg1, reg2 },
                Instruction::Shl { reg1, reg2 },
                Instruction::Display { xreg: reg1, yreg: reg2, height: 7 },
            ] {
                assert_eq!(Instruction::parse(encode(instruction)), Some(instruction));
            }
        }
        for byte in 0..=u8::MAX {
            for instruction in [
                Instruction::SkipEq { reg: reg1, num: byte },
                Instruction::SkipNe { reg: reg1, num: byte },
                Instruction::SetVal { reg: reg1, val: byte },
                Instruction::Add { reg: reg1, val: byte },
                Instruction::Rand { outreg: reg1, val: byte },
            ] {
                assert_eq!(Instruction::parse(encode(instruction)), Some(instruction));
            }
        }
    }
    for addr in 0..0x1000u16 {
        for instruction in [
            Instruction::Jump { addr },
            Instruction::CallSubroutine { addr },
            Instruction::SetIndex { val: addr },
            Instruction::JumpOffset { addr },
        ] {
            assert_eq!(Instruction::parse(encode(instruction)), Some(instruction));
        }
    }
}
