//! The machine loop, one decision at a time: what a cycle and a timer tick
//! do to the machine, and when each is due.
//!
//! The loop itself waits, polls the keyboard and shows the screen, none of
//! which is done here. It hands in what it measured and polled, and carries
//! out what comes back.

use crate::chip8::{initial_state, word_at, Chip8, MachineState, MEMORY_SIZE, PROGRAM_START};
use crate::cli::Colors;
use crate::display::{blank, two_tone};
use crate::fault::Fault;
use crate::instructions::definition::{decode, Instruction};
use crate::instructions::execute::DisplayModified;
use crate::instructions::semantics::{
    lemma_effect_keeps_two_tone, lemma_rewind_undoes_fetch, reached, wrap16,
};
use crate::keypad::{first_mapped, Key};
use crate::registers::Register;
use crate::PIXELS;
use vstd::prelude::*;

verus! {

/// Nanoseconds from one timer tick to the next: 16.6 ms, about 60 Hz.
pub const TIMER_PERIOD_NANOS: u64 = 16_600_000;

/// Nanoseconds that one instruction is given: 1.43 ms, about 700 Hz.
pub const INSTRUCTION_PERIOD_NANOS: u64 = 1_430_000;

/// Whether a timer tick is due, `elapsed_nanos` after the last one.
pub fn timer_due(elapsed_nanos: u64) -> (due: bool)
    ensures
        due == (elapsed_nanos >= TIMER_PERIOD_NANOS),
{
    elapsed_nanos >= TIMER_PERIOD_NANOS
}

/// How long to sleep after an instruction that took `elapsed_nanos`: what
/// is left of its period, and nothing if it took longer.
pub fn sleep_nanos(elapsed_nanos: u64) -> (nanos: u64)
    ensures
        nanos == if elapsed_nanos < INSTRUCTION_PERIOD_NANOS {
            INSTRUCTION_PERIOD_NANOS - elapsed_nanos
        } else {
            0
        },
{
    if elapsed_nanos < INSTRUCTION_PERIOD_NANOS {
        INSTRUCTION_PERIOD_NANOS - elapsed_nanos
    } else {
        0
    }
}

/// How a cycle ended that met no fault.
#[derive(Debug, Clone, Copy, PartialEq, Eq, Structural)]
pub enum Cycle {
    /// The instruction was executed, with this report of the screen.
    Executed(DisplayModified),
    /// The word fetched encodes no instruction. It was skipped.
    DecodeMiss(u16),
}

/// What the loop is to do at a timer tick.
#[derive(Debug, Clone, Copy, PartialEq, Eq, Structural)]
pub struct TimerTick {
    /// The sound timer was running: the bell is to be shown.
    pub bell: bool,
    /// The screen is to be presented.
    pub present: bool,
}

/// A value of a timer one tick later: one less, and zero if it was zero.
pub open spec fn ticked(timer: u8) -> u8 {
    if timer > 0 {
        (timer - 1) as u8
    } else {
        0
    }
}

/// All that one run owns: the machine, the screen, the palette, and what
/// the instruction executed last reported of the screen.
pub struct Machine {
    pub chip8: Chip8,
    /// The cells of the screen, row by row.
    pub display_buf: [u32; PIXELS],
    /// The palette of the screen.
    pub colors: Colors,
    /// What the instruction executed last reported of the screen.
    pub display_modified: DisplayModified,
}

/// A `Machine` as plain mathematical values.
pub struct MachineModel {
    pub state: MachineState,
    /// The `PIXELS` cells of the screen, row by row.
    pub screen: Seq<u32>,
    pub colors: Colors,
    pub display_modified: DisplayModified,
}

impl View for Machine {
    type V = MachineModel;

    open spec fn view(&self) -> MachineModel {
        MachineModel {
            state: self.chip8@,
            screen: self.display_buf@,
            colors: self.colors,
            display_modified: self.display_modified,
        }
    }
}

impl MachineModel {
    /// A machine into which `program` was loaded, with a blank screen.
    pub open spec fn initial(program: Seq<u8>, colors: Colors) -> MachineModel {
        MachineModel {
            state: initial_state(program),
            screen: Seq::new(PIXELS as nat, |i: int| colors.background),
            colors,
            display_modified: DisplayModified::Unchanged,
        }
    }

    /// The machine with the program counter moved past the word that it
    /// points at.
    pub open spec fn fetched(self) -> MachineModel {
        MachineModel { state: self.state.with_pc(wrap16(self.state.pc + 2)), ..self }
    }

    /// The machine after `instruction` was executed on it, and how that
    /// ended. What the instruction reports of the screen is kept; an
    /// instruction that faults changes nothing.
    pub open spec fn execute(self, instruction: Instruction, pressed: Seq<Key>, random: u8) -> (
        MachineModel,
        Result<Cycle, Fault>,
    ) {
        match instruction.effect(self.state, self.screen, pressed, self.colors, random) {
            Ok(outcome) => (
                MachineModel {
                    state: outcome.state,
                    screen: outcome.screen,
                    display_modified: outcome.modified,
                    ..self
                },
                Ok(Cycle::Executed(outcome.modified)),
            ),
            Err(fault) => (self, Err(fault)),
        }
    }

    /// One cycle: the machine after it and how it ended, the keys `pressed`
    /// being down and `random` being the byte that a `Rand` draws.
    ///
    /// The word at the program counter is fetched and the program counter
    /// moves past it. A word that encodes no instruction changes nothing
    /// else. An instruction is executed, and what it reports of the screen
    /// is kept. A word that is not all in memory is `MemoryOutOfBounds` and
    /// changes nothing; an instruction that faults leaves the machine as it
    /// was when the word had been fetched.
    pub open spec fn cycle(self, pressed: Seq<Key>, random: u8) -> (MachineModel, Result<
        Cycle,
        Fault,
    >) {
        match word_at(self.state.mem, self.state.pc) {
            Err(fault) => (self, Err(fault)),
            Ok(word) => match decode(word) {
                None => (self.fetched(), Ok(Cycle::DecodeMiss(word))),
                Some(instruction) => self.fetched().execute(instruction, pressed, random),
            },
        }
    }

    /// Whether the cycle that starts here draws a random byte: whether the
    /// word at the program counter decodes to a `Rand`.
    pub open spec fn draws_random(self) -> bool {
        word_at(self.state.mem, self.state.pc) matches Ok(word) && decode(word) matches Some(
            instruction,
        ) && instruction is Rand
    }

    /// The machine after a timer tick: both timers are one less, unless they
    /// were at zero.
    pub open spec fn timer_tick(self) -> MachineModel {
        MachineModel {
            state: MachineState {
                delay_timer: ticked(self.state.delay_timer),
                sound_timer: ticked(self.state.sound_timer),
                ..self.state
            },
            ..self
        }
    }

    /// What the loop is to do at a timer tick: show the bell while the sound
    /// timer runs, and present the screen if the instruction executed last
    /// reported that it changed.
    pub open spec fn tick_actions(self) -> TimerTick {
        TimerTick {
            bell: self.state.sound_timer > 0,
            present: self.display_modified == DisplayModified::Changed,
        }
    }
}

impl Machine {
    /// A machine with `prg` loaded, a blank screen in the colours `colors`,
    /// and nothing to present.
    ///
    /// A program that does not fit in memory is refused with
    /// `ProgramTooLarge`.
    pub fn new(prg: &[u8], colors: Colors) -> (r: Result<Machine, Fault>)
        ensures
            prg@.len() <= MEMORY_SIZE - PROGRAM_START ==> (r matches Ok(machine) && machine@
                == MachineModel::initial(prg@, colors)),
            prg@.len() > MEMORY_SIZE - PROGRAM_START ==> (r matches Err(fault) && fault
                == Fault::ProgramTooLarge),
    {
        let chip8 = match Chip8::load_prg(prg) {
            Ok(chip8) => chip8,
            Err(fault) => {
                return Err(fault);
            },
        };
        let machine = Machine {
            chip8,
            display_buf: [colors.background; PIXELS],
            colors,
            display_modified: DisplayModified::Unchanged,
        };
        assert(machine@.screen =~= MachineModel::initial(prg@, colors).screen);
        Ok(machine)
    }

    /// Runs one cycle: fetches the word at the program counter, decodes it
    /// and executes the instruction.
    ///
    /// The machine ends as `MachineModel::cycle` says. Only a `Rand`
    /// depends on a byte that is drawn here: for it the machine ends as
    /// `cycle` says of some byte.
    pub fn cycle(&mut self, pressed: &[Key]) -> (r: Result<Cycle, Fault>)
        ensures
            exists|random: u8|
                (final(self)@, r) == #[trigger] old(self)@.cycle(pressed@, random),
            !old(self)@.draws_random() ==> forall|random: u8|
                (final(self)@, r) == #[trigger] old(self)@.cycle(pressed@, random),
            two_tone(old(self)@.screen, old(self)@.colors) ==> two_tone(
                final(self)@.screen,
                final(self)@.colors,
            ),
    {
        let ghost before = self@;
        let word = match self.chip8.fetch() {
            Ok(word) => word,
            Err(fault) => {
                assert((self@, Err::<Cycle, Fault>(fault)) == before.cycle(pressed@, 0));
                return Err(fault);
            },
        };
        self.chip8.pc = self.chip8.pc.wrapping_add(2);
        let instruction = match Instruction::parse(word) {
            Some(instruction) => instruction,
            None => {
                assert((self@, Ok::<Cycle, Fault>(Cycle::DecodeMiss(word))) == before.cycle(
                    pressed@,
                    0,
                ));
                return Ok(Cycle::DecodeMiss(word));
            },
        };
        let ghost fetched = self@;
        assert(fetched == before.fetched());
        let report = instruction.execute(
            &mut self.chip8,
            &mut self.display_buf,
            pressed,
            &self.colors,
        );
        let r = match report {
            Ok(modified) => {
                self.display_modified = modified;
                Ok(Cycle::Executed(modified))
            },
            Err(fault) => Err(fault),
        };
        proof {
            let random = choose|random: u8|
                reached(
                    #[trigger] instruction.effect(
                        fetched.state,
                        fetched.screen,
                        pressed@,
                        fetched.colors,
                        random,
                    ),
                    fetched.state,
                    fetched.screen,
                    self@.state,
                    self@.screen,
                    report,
                );
            lemma_cycle_executes(before, pressed@, random, word, instruction, self@, report);
            if two_tone(before.screen, before.colors) {
                lemma_cycle_keeps_screen(before, pressed@, random);
            }
            if !before.draws_random() {
                assert forall|random: u8|
                    (self@, r) == #[trigger] before.cycle(pressed@, random) by {
                    lemma_cycle_executes(
                        before,
                        pressed@,
                        random,
                        word,
                        instruction,
                        self@,
                        report,
                    );
                }
            }
        }
        r
    }

    /// Runs one timer tick: counts both timers down, and tells the loop
    /// whether to show the bell and whether to present the screen.
    pub fn timer_tick(&mut self) -> (tick: TimerTick)
        ensures
            final(self)@ == old(self)@.timer_tick(),
            tick == old(self)@.tick_actions(),
    {
        if self.chip8.delay_timer > 0 {
            self.chip8.delay_timer -= 1;
        }
        let bell = self.chip8.sound_timer > 0;
        if bell {
            self.chip8.sound_timer -= 1;
        }
        let present = match self.display_modified {
            DisplayModified::Changed => true,
            DisplayModified::Unchanged => false,
        };
        TimerTick { bell, present }
    }
}

/// A cycle that fetches a word which decodes to `instruction` ends as the
/// execution of `instruction` ends.
proof fn lemma_cycle_executes(
    before: MachineModel,
    pressed: Seq<Key>,
    random: u8,
    word: u16,
    instruction: Instruction,
    after: MachineModel,
    report: Result<DisplayModified, Fault>,
)
    requires
        word_at(before.state.mem, before.state.pc) == Ok::<u16, Fault>(word),
        decode(word) == Some(instruction),
        reached(
            instruction.effect(
                before.fetched().state,
                before.screen,
                pressed,
                before.colors,
                random,
            ),
            before.fetched().state,
            before.screen,
            after.state,
            after.screen,
            report,
        ),
        after.colors == before.colors,
        after.display_modified == match report {
            Ok(modified) => modified,
            Err(_) => before.display_modified,
        },
    ensures
        before.cycle(pressed, random) == (
            after,
            match report {
                Ok(modified) => Ok::<Cycle, Fault>(Cycle::Executed(modified)),
                Err(fault) => Err::<Cycle, Fault>(fault),
            },
        ),
{
}

/// A wait for a key with no key down undoes the fetch: after the cycle the
/// machine is as it was before it, so the same instruction is met again.
pub proof fn lemma_wait_for_key_repeats(
    machine: MachineModel,
    pressed: Seq<Key>,
    random: u8,
    word: u16,
    keyreg: Register,
)
    requires
        word_at(machine.state.mem, machine.state.pc) == Ok::<u16, Fault>(word),
        decode(word) == Some(Instruction::WaitForKey { keyreg }),
        first_mapped(pressed) is None,
    ensures
        machine.cycle(pressed, random).0.state == machine.state,
        machine.cycle(pressed, random).0.screen == machine.screen,
        machine.cycle(pressed, random).1 == Ok::<Cycle, Fault>(
            Cycle::Executed(DisplayModified::Unchanged),
        ),
{
    lemma_rewind_undoes_fetch(machine.state.pc);
}

/// A cycle keeps the screen at full size with every cell in one of the two
/// colours of the palette, and keeps the palette.
pub proof fn lemma_cycle_keeps_screen(machine: MachineModel, pressed: Seq<Key>, random: u8)
    requires
        machine.screen.len() == PIXELS,
        two_tone(machine.screen, machine.colors),
    ensures
        machine.cycle(pressed, random).0.screen.len() == PIXELS,
        two_tone(machine.cycle(pressed, random).0.screen, machine.colors),
        machine.cycle(pressed, random).0.colors == machine.colors,
{
    if let Ok(word) = word_at(machine.state.mem, machine.state.pc) {
        if let Some(instruction) = decode(word) {
            lemma_effect_keeps_two_tone(
                instruction,
                machine.fetched().state,
                machine.screen,
                pressed,
                machine.colors,
                random,
            );
        }
    }
}

/// A fresh machine has a blank screen, which holds only colours of the
/// palette.
pub proof fn lemma_initial_screen(program: Seq<u8>, colors: Colors)
    ensures
        MachineModel::initial(program, colors).screen.len() == PIXELS,
        blank(MachineModel::initial(program, colors).screen, colors),
        two_tone(MachineModel::initial(program, colors).screen, colors),
{
}

} // verus!
