use chip8_vm::chip8::{Chip8, FONT, MEMORY_SIZE, PROGRAM_START};
use chip8_vm::cli::Colors;
use chip8_vm::fault::Fault;
use chip8_vm::instructions::DisplayModified;
use chip8_vm::keypad::Key;
use chip8_vm::machine::{
    sleep_nanos, timer_due, Cycle, Machine, TimerTick, INSTRUCTION_PERIOD_NANOS,
    TIMER_PERIOD_NANOS,
};
use chip8_vm::registers::Register;
use chip8_vm::PIXELS;

const COLORS: Colors = Colors { foreground: 0x00_FF_00, background: 0x10_10_10 };

#[test]
fn load_places_the_program_at_0x200() {
    let program = [0x12, 0x34, 0x56];
    let chip8 = Chip8::load_prg(&program).unwrap();
    assert_eq!(PROGRAM_START, 0x200);
    assert_eq!(chip8.pc, 0x200);
    assert_eq!(&chip8.mem[0x200..0x203], &program);
    assert_eq!(&chip8.mem[0x50..0xA0], &FONT[..]);
    assert!(chip8.mem[0x203..].iter().all(|&b| b == 0));
    assert!(chip8.mem[0xA0..0x200].iter().all(|&b| b == 0));
    assert_eq!(chip8.registers.get_index(), 0);
    assert_eq!(chip8.stack.depth(), 0);
    assert_eq!(chip8.delay_timer, 0);
    assert_eq!(chip8.sound_timer, 0);
    for reg in Register::iter_until(Register::VF) {
        assert_eq!(chip8.registers.get(reg), 0);
    }
}

#[test]
fn load_takes_a_program_that_fills_memory() {
    let program = vec![0xAB; MEMORY_SIZE - 0x200];
    let chip8 = Chip8::load_prg(&program).unwrap();
    assert_eq!(&chip8.mem[0x200..], &program[..]);
}

#[test]
fn load_refuses_a_program_that_is_too_large() {
    let program = vec![0xAB; MEMORY_SIZE - 0x200 + 1];
    assert!(matches!(Chip8::load_prg(&program), Err(Fault::ProgramTooLarge)));
    assert!(matches!(Machine::new(&program, COLORS), Err(Fault::ProgramTooLarge)));
}

#[test]
fn fetch_reads_big_endian() {
    let mut chip8 = Chip8::load_prg(&[0xA2, 0xF0]).unwrap();
    assert_eq!(chip8.fetch(), Ok(0xA2F0));
    chip8.pc = (MEMORY_SIZE - 2) as u16;
    chip8.mem[MEMORY_SIZE - 2] = 0x01;
    chip8.mem[MEMORY_SIZE - 1] = 0x02;
    assert_eq!(chip8.fetch(), Ok(0x0102));
    chip8.pc = (MEMORY_SIZE - 1) as u16;
    assert_eq!(chip8.fetch(), Err(Fault::MemoryOutOfBounds));
    chip8.pc = 0xFFFF;
    assert_eq!(chip8.fetch(), Err(Fault::MemoryOutOfBounds));
}

#[test]
fn new_machine_has_a_blank_screen() {
    let machine = Machine::new(&[0x00, 0xE0], COLORS).ok().unwrap();
    assert_eq!(machine.display_buf, [COLORS.background; PIXELS]);
    assert_eq!(machine.display_modified, DisplayModified::Unchanged);
    assert_eq!(machine.colors, COLORS);
    assert_eq!(machine.chip8.pc, 0x200);
}

#[test]
fn cycle_runs_a_small_program() {
    // V0 = 0xFF; V1 = 1; V0 += V1; I = glyph of V1; draw it at (0, 0).
    let program = [0x60, 0xFF, 0x61, 0x01, 0x80, 0x14, 0xF1, 0x29, 0xD2, 0x25];
    let mut machine = Machine::new(&program, COLORS).ok().unwrap();
    for _ in 0..4 {
        assert_eq!(machine.cycle(&[]), Ok(Cycle::Executed(DisplayModified::Unchanged)));
    }
    assert_eq!(machine.chip8.pc, 0x208);
    assert_eq!(machine.chip8.registers.get(Register::V0), 0x00);
    assert_eq!(machine.chip8.registers.get(Register::VF), 1);
    assert_eq!(machine.chip8.registers.get_index(), 0x55);
    assert_eq!(machine.display_modified, DisplayModified::Unchanged);
    assert_eq!(machine.cycle(&[]), Ok(Cycle::Executed(DisplayModified::Changed)));
    assert_eq!(machine.display_modified, DisplayModified::Changed);
    assert_eq!(machine.chip8.pc, 0x20A);
    // The glyph of 1 is 20 60 20 20 70.
    let rows: [u8; 5] = [0x20, 0x60, 0x20, 0x20, 0x70];
    for (i, &cell) in machine.display_buf.iter().enumerate() {
        let (x, y) = (i % 64, i / 64);
        let lit = y < 5 && x < 8 && rows[y] & (0x80 >> x) != 0;
        assert_eq!(cell, if lit { COLORS.foreground } else { COLORS.background });
    }
    assert_eq!(machine.chip8.registers.get(Register::VF), 0);
}

#[test]
fn cycle_keeps_the_report_of_the_last_instruction() {
    // Clear the screen, then V0 = 1.
    let mut machine = Machine::new(&[0x00, 0xE0, 0x60, 0x01], COLORS).ok().unwrap();
    assert_eq!(machine.cycle(&[]), Ok(Cycle::Executed(DisplayModified::Changed)));
    assert_eq!(machine.display_modified, DisplayModified::Changed);
    assert_eq!(machine.cycle(&[]), Ok(Cycle::Executed(DisplayModified::Unchanged)));
    assert_eq!(machine.display_modified, DisplayModified::Unchanged);
}

#[test]
fn cycle_skips_a_word_that_is_no_instruction() {
    let mut machine = Machine::new(&[0x00, 0xE0, 0xFF, 0xFF, 0x60, 0x07], COLORS).ok().unwrap();
    assert_eq!(machine.cycle(&[]), Ok(Cycle::Executed(DisplayModified::Changed)));
    assert_eq!(machine.cycle(&[]), Ok(Cycle::DecodeMiss(0xFFFF)));
    assert_eq!(machine.chip8.pc, 0x204);
    assert_eq!(machine.display_modified, DisplayModified::Changed);
    assert_eq!(machine.cycle(&[]), Ok(Cycle::Executed(DisplayModified::Unchanged)));
    assert_eq!(machine.chip8.registers.get(Register::V0), 7);
    // Memory after the program is zero, and 0000 is no instruction.
    assert_eq!(machine.cycle(&[]), Ok(Cycle::DecodeMiss(0x0000)));
    assert_eq!(machine.chip8.pc, 0x208);
}

#[test]
fn cycle_waits_for_a_key_in_place() {
    // Wait for a key into V2, then V0 = 1.
    let mut machine = Machine::new(&[0xF2, 0x0A, 0x60, 0x01], COLORS).ok().unwrap();
    for _ in 0..5 {
        assert_eq!(machine.cycle(&[Key::Other]), Ok(Cycle::Executed(DisplayModified::Unchanged)));
        assert_eq!(machine.chip8.pc, 0x200);
        assert_eq!(machine.chip8.registers.get(Register::V2), 0);
    }
    assert_eq!(machine.cycle(&[Key::F]), Ok(Cycle::Executed(DisplayModified::Unchanged)));
    assert_eq!(machine.chip8.pc, 0x202);
    assert_eq!(machine.chip8.registers.get(Register::V2), 0xE);
}

#[test]
fn cycle_reports_a_fault_of_the_instruction() {
    // Return with nothing to return to.
    let mut machine = Machine::new(&[0x00, 0xEE], COLORS).ok().unwrap();
    assert_eq!(machine.cycle(&[]), Err(Fault::StackUnderflow));
    assert_eq!(machine.chip8.pc, 0x202);
    assert_eq!(machine.chip8.stack.depth(), 0);
}

#[test]
fn cycle_overflows_the_stack_on_the_seventeenth_call() {
    // Each word calls the next one.
    let mut program = Vec::new();
    for i in 0..17u16 {
        let target = 0x202 + 2 * i;
        program.push(0x20 | (target >> 8) as u8);
        program.push(target as u8);
    }
    let mut machine = Machine::new(&program, COLORS).ok().unwrap();
    for _ in 0..16 {
        assert_eq!(machine.cycle(&[]), Ok(Cycle::Executed(DisplayModified::Unchanged)));
    }
    assert_eq!(machine.chip8.stack.depth(), 16);
    assert_eq!(machine.cycle(&[]), Err(Fault::StackOverflow));
    assert_eq!(machine.chip8.stack.depth(), 16);
}

#[test]
fn cycle_beyond_memory_is_a_fault() {
    let mut machine = Machine::new(&[], COLORS).ok().unwrap();
    machine.chip8.pc = (MEMORY_SIZE - 1) as u16;
    assert_eq!(machine.cycle(&[]), Err(Fault::MemoryOutOfBounds));
    assert_eq!(machine.chip8.pc, (MEMORY_SIZE - 1) as u16);
}

#[test]
fn timer_tick_counts_down_to_zero() {
    let mut machine = Machine::new(&[], COLORS).ok().unwrap();
    machine.chip8.delay_timer = 2;
    machine.chip8.sound_timer = 1;
    assert_eq!(machine.timer_tick(), TimerTick { bell: true, present: false });
    assert_eq!((machine.chip8.delay_timer, machine.chip8.sound_timer), (1, 0));
    assert_eq!(machine.timer_tick(), TimerTick { bell: false, present: false });
    assert_eq!((machine.chip8.delay_timer, machine.chip8.sound_timer), (0, 0));
    assert_eq!(machine.timer_tick(), TimerTick { bell: false, present: false });
    assert_eq!((machine.chip8.delay_timer, machine.chip8.sound_timer), (0, 0));
    machine.chip8.sound_timer = 255;
    assert_eq!(machine.timer_tick(), TimerTick { bell: true, present: false });
    assert_eq!(machine.chip8.sound_timer, 254);
}

#[test]
fn timer_tick_presents_after_a_change() {
    let mut machine = Machine::new(&[0x00, 0xE0, 0x60, 0x01], COLORS).ok().unwrap();
    assert_eq!(machine.timer_tick(), TimerTick { bell: false, present: false });
    machine.cycle(&[]).unwrap();
    assert_eq!(machine.timer_tick(), TimerTick { bell: false, present: true });
    machine.cycle(&[]).unwrap();
    assert_eq!(machine.timer_tick(), TimerTick { bell: false, present: false });
}

#[test]
fn timer_is_due_after_its_period() {
    assert_eq!(TIMER_PERIOD_NANOS, 16_600_000);
    assert!(!timer_due(0));
    assert!(!timer_due(16_599_999));
    assert!(timer_due(16_600_000));
    assert!(timer_due(16_600_001));
    assert!(timer_due(u64::MAX));
}

#[test]
fn sleep_fills_the_instruction_period() {
    assert_eq!(INSTRUCTION_PERIOD_NANOS, 1_430_000);
    assert_eq!(sleep_nanos(0), 1_430_000);
    assert_eq!(sleep_nanos(1), 1_429_999);
    assert_eq!(sleep_nanos(1_000_000), 430_000);
    assert_eq!(sleep_nanos(1_429_999), 1);
    assert_eq!(sleep_nanos(1_430_000), 0);
    assert_eq!(sleep_nanos(u64::MAX), 0);
}
