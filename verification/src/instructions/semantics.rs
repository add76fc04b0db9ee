//! What each instruction does, stated on the mathematical state of the
//! machine.

use crate::chip8::{MachineState, FONT_START, GLYPH_LEN, MEMORY_SIZE};
use crate::cli::Colors;
use crate::display::{cleared, drawn, last_collision, two_tone};
use crate::fault::Fault;
use crate::instructions::definition::Instruction;
use crate::instructions::execute::DisplayModified;
use crate::keypad::{first_mapped, key_down, Key};
use crate::registers::Register;
use crate::stack::{popped, pushed, STACK_LEN};
use crate::{HEIGHT, WIDTH};
use vstd::prelude::*;

verus! {

/// The low sixteen bits of a number.
pub open spec fn wrap16(n: int) -> u16 {
    (n % 0x10000) as u16
}

/// The low eight bits of a number.
pub open spec fn wrap8(n: int) -> u8 {
    (n % 0x100) as u8
}

impl MachineState {
    /// The state has sixteen registers, `MEMORY_SIZE` bytes of memory and a
    /// stack within its capacity.
    pub open spec fn well_formed(self) -> bool {
        &&& self.v.len() == 16
        &&& self.mem.len() == MEMORY_SIZE
        &&& self.stack.len() <= STACK_LEN
    }

    /// The value of the register `reg`.
    pub open spec fn reg(self, reg: Register) -> u8 {
        self.v[reg.ordinal()]
    }

    /// The state with `val` in the register `reg`.
    pub open spec fn with_reg(self, reg: Register, val: u8) -> MachineState {
        MachineState { v: self.v.update(reg.ordinal(), val), ..self }
    }

    /// The state with `VF` at 1 if `flag` holds and at 0 if not.
    pub open spec fn with_flag(self, flag: bool) -> MachineState {
        self.with_reg(
            Register::VF,
            if flag {
                1u8
            } else {
                0u8
            },
        )
    }

    /// The state with the program counter at `pc`.
    pub open spec fn with_pc(self, pc: u16) -> MachineState {
        MachineState { pc, ..self }
    }

    /// The state with the program counter moved past one instruction if
    /// `cond` holds, and the state itself if not.
    pub open spec fn skip_if(self, cond: bool) -> MachineState {
        if cond {
            self.with_pc(wrap16(self.pc + 2))
        } else {
            self
        }
    }

    /// `1NNN`.
    pub open spec fn jump(self, addr: u16) -> MachineState {
        self.with_pc(addr)
    }

    /// `2NNN`: the program counter goes onto the stack.
    pub open spec fn call_subroutine(self, addr: u16) -> Result<MachineState, Fault> {
        match pushed(self.stack, self.pc) {
            Ok(stack) => Ok(MachineState { stack, pc: addr, ..self }),
            Err(fault) => Err(fault),
        }
    }

    /// `00EE`: the program counter comes off the stack.
    pub open spec fn return_subroutine(self) -> Result<MachineState, Fault> {
        match popped(self.stack) {
            Ok((addr, stack)) => Ok(MachineState { stack, pc: addr, ..self }),
            Err(fault) => Err(fault),
        }
    }

    /// `3XNN`.
    pub open spec fn skip_eq(self, reg: Register, num: u8) -> MachineState {
        self.skip_if(self.reg(reg) == num)
    }

    /// `4XNN`.
    pub open spec fn skip_ne(self, reg: Register, num: u8) -> MachineState {
        self.skip_if(self.reg(reg) != num)
    }

    /// `5XY0`.
    pub open spec fn skip_eq_reg(self, reg1: Register, reg2: Register) -> MachineState {
        self.skip_if(self.reg(reg1) == self.reg(reg2))
    }

    /// `9XY0`.
    pub open spec fn skip_ne_reg(self, reg1: Register, reg2: Register) -> MachineState {
        self.skip_if(self.reg(reg1) != self.reg(reg2))
    }

    /// `6XNN`.
    pub open spec fn set_val(self, reg: Register, val: u8) -> MachineState {
        self.with_reg(reg, val)
    }

    /// `7XNN`: the sum modulo 256; `VF` is not touched.
    pub open spec fn add_val(self, reg: Register, val: u8) -> MachineState {
        self.with_reg(reg, wrap8(self.reg(reg) + val))
    }

    /// `8XY0`.
    pub open spec fn set_reg(self, reg1: Register, reg2: Register) -> MachineState {
        self.with_reg(reg1, self.reg(reg2))
    }

    /// `8XY1`.
    pub open spec fn or_reg(self, reg1: Register, reg2: Register) -> MachineState {
        self.with_reg(reg1, self.reg(reg1) | self.reg(reg2))
    }

    /// `8XY2`.
    pub open spec fn and_reg(self, reg1: Register, reg2: Register) -> MachineState {
        self.with_reg(reg1, self.reg(reg1) & self.reg(reg2))
    }

    /// `8XY3`.
    pub open spec fn xor_reg(self, reg1: Register, reg2: Register) -> MachineState {
        self.with_reg(reg1, self.reg(reg1) ^ self.reg(reg2))
    }

    /// `8XY4`: the sum modulo 256 goes to `reg1`, then the carry to `VF`.
    pub open spec fn add_reg(self, reg1: Register, reg2: Register) -> MachineState {
        let sum = self.reg(reg1) + self.reg(reg2);
        self.with_reg(reg1, wrap8(sum)).with_flag(sum > 0xFF)
    }

    /// `8XY5`: `reg1 - reg2` modulo 256 goes to `reg1`, then `VF` is set to
    /// 1 if no borrow occurred and to 0 if one did.
    pub open spec fn sub1(self, reg1: Register, reg2: Register) -> MachineState {
        let minuend = self.reg(reg1);
        let subtrahend = self.reg(reg2);
        self.with_reg(reg1, wrap8(minuend - subtrahend)).with_flag(minuend >= subtrahend)
    }

    /// `8XY7`: `reg2 - reg1` modulo 256 goes to `reg1`, then `VF` is set to
    /// 1 if no borrow occurred and to 0 if one did.
    pub open spec fn sub2(self, reg1: Register, reg2: Register) -> MachineState {
        let minuend = self.reg(reg2);
        let subtrahend = self.reg(reg1);
        self.with_reg(reg1, wrap8(minuend - subtrahend)).with_flag(minuend >= subtrahend)
    }

    /// `8XY6`: half of `reg2`, rounded down, goes to `reg1`, then the lowest
    /// bit of what `reg2` held goes to `VF`.
    pub open spec fn shr(self, reg1: Register, reg2: Register) -> MachineState {
        let num = self.reg(reg2);
        self.with_reg(reg1, num / 2).with_flag(num % 2 == 1)
    }

    /// `8XYE`: twice `reg2`, modulo 256, goes to `reg1`, then the highest
    /// bit of what `reg2` held goes to `VF`.
    pub open spec fn shl(self, reg1: Register, reg2: Register) -> MachineState {
        let num = self.reg(reg2);
        self.with_reg(reg1, wrap8(num * 2)).with_flag(num >= 0x80)
    }

    /// `ANNN`.
    pub open spec fn set_index(self, val: u16) -> MachineState {
        MachineState { index: val, ..self }
    }

    /// `BNNN`: the offset is always the value of `V0`.
    pub open spec fn jump_offset(self, addr: u16) -> MachineState {
        self.with_pc(wrap16(addr + self.reg(Register::V0)))
    }

    /// `CXNN`, `random` being the byte that was drawn.
    pub open spec fn rand(self, outreg: Register, val: u8, random: u8) -> MachineState {
        self.with_reg(outreg, random & val)
    }

    /// The sprite of `height` rows at the index register.
    pub open spec fn sprite(self, height: u8) -> Seq<u8> {
        self.mem.subrange(self.index as int, self.index + height)
    }

    /// `DXYN`: the state and the screen after the sprite of `height` rows at
    /// the index register was drawn.
    ///
    /// The corner of the sprite is the position held by `xreg` and `yreg`,
    /// taken modulo the width and the height of the screen. `VF` tells
    /// whether the last pixel drawn turned a lit pixel off, and is left as it
    /// was if no pixel was drawn. A sprite that is not all in memory is
    /// `MemoryOutOfBounds`.
    pub open spec fn display(
        self,
        screen: Seq<u32>,
        xreg: Register,
        yreg: Register,
        height: u8,
        colors: Colors,
    ) -> Result<(MachineState, Seq<u32>), Fault> {
        let sx = self.reg(xreg) as int % (WIDTH as int);
        let sy = self.reg(yreg) as int % (HEIGHT as int);
        if self.index + height > self.mem.len() {
            Err(Fault::MemoryOutOfBounds)
        } else {
            Ok(
                (
                    match last_collision(screen, self.sprite(height), sx, sy, colors) {
                        Some(collision) => self.with_flag(collision),
                        None => self,
                    },
                    drawn(screen, self.sprite(height), sx, sy, colors),
                ),
            )
        }
    }

    /// `EX9E`: a value in the register that names no key counts as a key
    /// that is not down.
    pub open spec fn skip_if_key(self, pressed: Seq<Key>, keyreg: Register) -> MachineState {
        self.skip_if(key_down(pressed, self.reg(keyreg)) == Some(true))
    }

    /// `EXA1`: a value in the register that names no key counts as a key
    /// that is not down.
    pub open spec fn skip_if_not_key(self, pressed: Seq<Key>, keyreg: Register) -> MachineState {
        self.skip_if(key_down(pressed, self.reg(keyreg)) != Some(true))
    }

    /// `FX07`.
    pub open spec fn get_delay_timer(self, outreg: Register) -> MachineState {
        self.with_reg(outreg, self.delay_timer)
    }

    /// `FX15`.
    pub open spec fn set_delay_timer(self, inreg: Register) -> MachineState {
        MachineState { delay_timer: self.reg(inreg), ..self }
    }

    /// `FX18`.
    pub open spec fn set_sound_timer(self, inreg: Register) -> MachineState {
        MachineState { sound_timer: self.reg(inreg), ..self }
    }

    /// `FX1E`: the sum modulo `0x10000`.
    pub open spec fn add_to_index(self, inreg: Register) -> MachineState {
        MachineState { index: wrap16(self.index + self.reg(inreg)), ..self }
    }

    /// `FX0A`: with a key down its digit goes to `keyreg`; with none the
    /// program counter goes back by one instruction, so that this
    /// instruction is met again.
    pub open spec fn wait_for_key(self, pressed: Seq<Key>, keyreg: Register) -> MachineState {
        match first_mapped(pressed) {
            Some(key) => self.with_reg(keyreg, key),
            None => self.with_pc(wrap16(self.pc - 2)),
        }
    }

    /// `FX29`: glyphs are `GLYPH_LEN` bytes each, from `FONT_START`.
    pub open spec fn get_font_char(self, inreg: Register) -> MachineState {
        MachineState { index: (FONT_START + self.reg(inreg) * GLYPH_LEN) as u16, ..self }
    }

    /// `FX33`: hundreds, tens and units of `inreg` go to the three bytes at
    /// the index register.
    pub open spec fn bin_to_dec(self, inreg: Register) -> Result<MachineState, Fault> {
        let num = self.reg(inreg);
        let index = self.index as int;
        if index + 2 >= self.mem.len() {
            Err(Fault::MemoryOutOfBounds)
        } else {
            Ok(
                MachineState {
                    mem: self.mem.update(index, num / 100).update(index + 1, (num / 10) % 10).update(
                        index + 2,
                        num % 10,
                    ),
                    ..self
                },
            )
        }
    }

    /// `FX55`: `V0`..=`inreg_max` go to the bytes from the index register
    /// on, in ascending order. The index register stays.
    pub open spec fn store_mem(self, inreg_max: Register) -> Result<MachineState, Fault> {
        let count = inreg_max.ordinal() + 1;
        let index = self.index as int;
        if index + count > self.mem.len() {
            Err(Fault::MemoryOutOfBounds)
        } else {
            Ok(
                MachineState {
                    mem: Seq::new(
                        self.mem.len(),
                        |addr: int|
                            if index <= addr < index + count {
                                self.v[addr - index]
                            } else {
                                self.mem[addr]
                            },
                    ),
                    ..self
                },
            )
        }
    }

    /// `FX65`: `V0`..=`outreg_max` come from the bytes from the index
    /// register on, in ascending order. The index register stays.
    pub open spec fn load_mem(self, outreg_max: Register) -> Result<MachineState, Fault> {
        let count = outreg_max.ordinal() + 1;
        let index = self.index as int;
        if index + count > self.mem.len() {
            Err(Fault::MemoryOutOfBounds)
        } else {
            Ok(
                MachineState {
                    v: Seq::new(
                        self.v.len(),
                        |i: int|
                            if i < count {
                                self.mem[index + i]
                            } else {
                                self.v[i]
                            },
                    ),
                    ..self
                },
            )
        }
    }
}

/// The machine and the screen after one instruction, with what the
/// instruction reports of the screen.
pub struct Outcome {
    pub state: MachineState,
    pub screen: Seq<u32>,
    pub modified: DisplayModified,
}

impl Outcome {
    /// The outcome of an instruction that leaves the screen alone.
    pub open spec fn of_state(state: MachineState, screen: Seq<u32>) -> Result<Outcome, Fault> {
        Ok(Outcome { state, screen, modified: DisplayModified::Unchanged })
    }

    /// The outcome of an instruction that leaves the screen alone and may
    /// fault.
    pub open spec fn of_result(state: Result<MachineState, Fault>, screen: Seq<u32>) -> Result<
        Outcome,
        Fault,
    > {
        match state {
            Ok(state) => Outcome::of_state(state, screen),
            Err(fault) => Err(fault),
        }
    }
}

/// Whether a run of one instruction ended as `expected` says: on success
/// with the machine, the screen and the report that it gives, on a fault
/// with that fault and with the machine and the screen as they were.
pub open spec fn reached(
    expected: Result<Outcome, Fault>,
    state_before: MachineState,
    screen_before: Seq<u32>,
    state_after: MachineState,
    screen_after: Seq<u32>,
    report: Result<DisplayModified, Fault>,
) -> bool {
    match expected {
        Ok(outcome) => {
            &&& report == Ok::<DisplayModified, Fault>(outcome.modified)
            &&& state_after == outcome.state
            &&& screen_after == outcome.screen
        },
        Err(fault) => {
            &&& report == Err::<DisplayModified, Fault>(fault)
            &&& state_after == state_before
            &&& screen_after == screen_before
        },
    }
}

impl Instruction {
    /// What the instruction makes of the machine `s` and the screen
    /// `screen`, the keys `pressed` being down and `random` being the byte
    /// that a `Rand` draws.
    pub open spec fn effect(
        self,
        s: MachineState,
        screen: Seq<u32>,
        pressed: Seq<Key>,
        colors: Colors,
        random: u8,
    ) -> Result<Outcome, Fault> {
        match self {
            Instruction::ClearDisplay => Ok(
                Outcome {
                    state: s,
                    screen: cleared(screen, colors),
                    modified: DisplayModified::Changed,
                },
            ),
            Instruction::Display { xreg, yreg, height } => match s.display(
                screen,
                xreg,
                yreg,
                height,
                colors,
            ) {
                Ok((state, screen)) => Ok(
                    Outcome { state, screen, modified: DisplayModified::Changed },
                ),
                Err(fault) => Err(fault),
            },
            Instruction::ReturnSubroutine => Outcome::of_result(s.return_subroutine(), screen),
            Instruction::Jump { addr } => Outcome::of_state(s.jump(addr), screen),
            Instruction::CallSubroutine { addr } => Outcome::of_result(
                s.call_subroutine(addr),
                screen,
            ),
            Instruction::SkipEq { reg, num } => Outcome::of_state(s.skip_eq(reg, num), screen),
            Instruction::SkipNe { reg, num } => Outcome::of_state(s.skip_ne(reg, num), screen),
            Instruction::SkipEqReg { reg1, reg2 } => Outcome::of_state(
                s.skip_eq_reg(reg1, reg2),
                screen,
            ),
            Instruction::SkipNeReg { reg1, reg2 } => Outcome::of_state(
                s.skip_ne_reg(reg1, reg2),
                screen,
            ),
            Instruction::SetVal { reg, val } => Outcome::of_state(s.set_val(reg, val), screen),
            Instruction::Add { reg, val } => Outcome::of_state(s.add_val(reg, val), screen),
            Instruction::SetReg { reg1, reg2 } => Outcome::of_state(s.set_reg(reg1, reg2), screen),
            Instruction::Or { reg1, reg2 } => Outcome::of_state(s.or_reg(reg1, reg2), screen),
            Instruction::And { reg1, reg2 } => Outcome::of_state(s.and_reg(reg1, reg2), screen),
            Instruction::Xor { reg1, reg2 } => Outcome::of_state(s.xor_reg(reg1, reg2), screen),
            Instruction::AddReg { reg1, reg2 } => Outcome::of_state(s.add_reg(reg1, reg2), screen),
            Instruction::Sub1 { reg1, reg2 } => Outcome::of_state(s.sub1(reg1, reg2), screen),
            Instruction::Sub2 { reg1, reg2 } => Outcome::of_state(s.sub2(reg1, reg2), screen),
            Instruction::Shr { reg1, reg2 } => Outcome::of_state(s.shr(reg1, reg2), screen),
            Instruction::Shl { reg1, reg2 } => Outcome::of_state(s.shl(reg1, reg2), screen),
            Instruction::SetIndex { val } => Outcome::of_state(s.set_index(val), screen),
            Instruction::JumpOffset { addr } => Outcome::of_state(s.jump_offset(addr), screen),
            Instruction::Rand { outreg, val } => Outcome::of_state(
                s.rand(outreg, val, random),
                screen,
            ),
            Instruction::SkipIfKey { keyreg } => Outcome::of_state(
                s.skip_if_key(pressed, keyreg),
                screen,
            ),
            Instruction::SkipIfNotKey { keyreg } => Outcome::of_state(
                s.skip_if_not_key(pressed, keyreg),
                screen,
            ),
            Instruction::GetDelayTimer { outreg } => Outcome::of_state(
                s.get_delay_timer(outreg),
                screen,
            ),
            Instruction::SetDelayTimer { inreg } => Outcome::of_state(
                s.set_delay_timer(inreg),
                screen,
            ),
            Instruction::SetSoundTimer { inreg } => Outcome::of_state(
                s.set_sound_timer(inreg),
                screen,
            ),
            Instruction::AddToIndex { inreg } => Outcome::of_state(s.add_to_index(inreg), screen),
            Instruction::WaitForKey { keyreg } => Outcome::of_state(
                s.wait_for_key(pressed, keyreg),
                screen,
            ),
            Instruction::GetFontChar { inreg } => Outcome::of_state(s.get_font_char(inreg), screen),
            Instruction::BinToDec { inreg } => Outcome::of_result(s.bin_to_dec(inreg), screen),
            Instruction::StoreMem { inreg_max } => Outcome::of_result(
                s.store_mem(inreg_max),
                screen,
            ),
            Instruction::LoadMem { outreg_max } => Outcome::of_result(
                s.load_mem(outreg_max),
                screen,
            ),
        }
    }
}

/// Moving the program counter back by one instruction undoes moving it past
/// one instruction, wherever it stands.
pub proof fn lemma_rewind_undoes_fetch(pc: u16)
    ensures
        wrap16(wrap16(pc + 2) - 2) == pc,
{
}

/// Only `Rand` looks at the random byte: every other instruction has the
/// same effect whatever byte is drawn.
pub proof fn lemma_only_rand_is_random(
    instruction: Instruction,
    s: MachineState,
    screen: Seq<u32>,
    pressed: Seq<Key>,
    colors: Colors,
    random1: u8,
    random2: u8,
)
    requires
        !(instruction is Rand),
    ensures
        instruction.effect(s, screen, pressed, colors, random1) == instruction.effect(
            s,
            screen,
            pressed,
            colors,
            random2,
        ),
{
    instruction.lemma_kinds();
}

/// An instruction takes a well-formed machine and a screen of full size to
/// a well-formed machine and a screen of full size.
pub proof fn lemma_effect_well_formed(
    instruction: Instruction,
    s: MachineState,
    screen: Seq<u32>,
    pressed: Seq<Key>,
    colors: Colors,
    random: u8,
)
    requires
        s.well_formed(),
    ensures
        instruction.effect(s, screen, pressed, colors, random) matches Ok(outcome)
            ==> outcome.state.well_formed() && outcome.screen.len() == screen.len(),
{
    instruction.lemma_kinds();
}

/// A screen on which every cell holds one of the two colours of the palette
/// stays such a screen under every instruction.
pub proof fn lemma_effect_keeps_two_tone(
    instruction: Instruction,
    s: MachineState,
    screen: Seq<u32>,
    pressed: Seq<Key>,
    colors: Colors,
    random: u8,
)
    requires
        two_tone(screen, colors),
    ensures
        instruction.effect(s, screen, pressed, colors, random) matches Ok(outcome) ==> two_tone(
            outcome.screen,
            colors,
        ),
{
    instruction.lemma_kinds();
}

/// The instructions that write the screen are `ClearDisplay` and `Display`,
/// and they are the ones that report it as changed.
pub proof fn lemma_screen_report(
    instruction: Instruction,
    s: MachineState,
    screen: Seq<u32>,
    pressed: Seq<Key>,
    colors: Colors,
    random: u8,
)
    ensures
        instruction.effect(s, screen, pressed, colors, random) matches Ok(outcome) ==> {
            &&& outcome.modified == DisplayModified::Changed <==> instruction is ClearDisplay
                || instruction is Display
            &&& outcome.modified == DisplayModified::Unchanged ==> outcome.screen == screen
        },
{
    instruction.lemma_kinds();
}

} // verus!
