//! The execution engine: one function for each instruction, and `execute`,
//! which applies a decoded instruction to the machine and the screen.

use crate::chip8::{Chip8, MachineState, FONT_START, GLYPH_LEN, MEMORY_SIZE};
use crate::cli::Colors;
use crate::display::{
    blank, cell, cleared, collides, drawn, last_lit, lemma_draw_twice, lit, sprite_bit, toggled,
    two_tone, write_to_buffer, written, Mode,
};
use crate::fault::Fault;
use crate::instructions::definition::Instruction;
use crate::instructions::semantics::reached;
use crate::keypad::{get_pressed_key, is_key_pressed, Key};
use crate::registers::Register;
use crate::{HEIGHT, PIXELS, WIDTH};
use vstd::prelude::*;

verus! {

/// Whether an instruction changed the screen.
#[derive(Debug, Clone, Copy, PartialEq, Eq, Structural)]
pub enum DisplayModified {
    Unchanged,
    Changed,
}

/// `00E0`: sets every pixel to the background colour.
pub fn clear_display(display_buf: &mut [u32; PIXELS], colors: &Colors)
    ensures
        final(display_buf)@ == cleared(old(display_buf)@, *colors),
        blank(final(display_buf)@, *colors),
        two_tone(final(display_buf)@, *colors),
{
    let mut y: usize = 0;
    while y < HEIGHT
        invariant
            y <= HEIGHT,
            forall|i: int| 0 <= i < y * WIDTH ==> display_buf@[i] == colors.background,
        decreases HEIGHT - y,
    {
        let mut x: usize = 0;
        while x < WIDTH
            invariant
                y < HEIGHT,
                x <= WIDTH,
                forall|i: int| 0 <= i < y * WIDTH + x ==> display_buf@[i] == colors.background,
            decreases WIDTH - x,
        {
            write_to_buffer(display_buf, x, y, Mode::SetFalse, colors);
            x += 1;
        }
        y += 1;
    }
    assert(display_buf@ =~= cleared(old(display_buf)@, *colors));
}

/// Whether the sprite has a pixel on the cell `(x, y)` and that pixel has a
/// number below `k`.
spec fn lit_below(sprite: Seq<u8>, sx: int, sy: int, x: int, y: int, k: int) -> bool {
    lit(sprite, sx, sy, x, y) && (y - sy) * 8 + (x - sx) < k
}

/// Whether the sprite has a pixel with a number below `k` on the cell at
/// position `i` of the screen.
spec fn cell_lit_below(sprite: Seq<u8>, sx: int, sy: int, i: int, k: int) -> bool {
    lit_below(sprite, sx, sy, i % (WIDTH as int), i / (WIDTH as int), k)
}

/// The screen after the pixels of the sprite with a number below `k` were
/// drawn.
spec fn drawn_below(
    screen: Seq<u32>,
    sprite: Seq<u8>,
    sx: int,
    sy: int,
    colors: Colors,
    k: int,
) -> Seq<u32> {
    Seq::new(
        screen.len(),
        |i: int|
            if cell_lit_below(sprite, sx, sy, i, k) {
                toggled(screen[i], colors)
            } else {
                screen[i]
            },
    )
}

/// The machine after the pixels of the sprite with a number below `k` were
/// drawn.
spec fn flagged_below(
    s: MachineState,
    screen: Seq<u32>,
    sprite: Seq<u8>,
    sx: int,
    sy: int,
    colors: Colors,
    k: int,
) -> MachineState {
    match last_lit(sprite, sx, sy, k as nat) {
        Some(j) => s.with_flag(collides(screen, sx + j % 8, sy + j / 8, Mode::Toggle, colors)),
        None => s,
    }
}

/// What drawing the pixel with the number `k` adds to what was drawn below
/// `k`.
proof fn lemma_draw_pixel(
    screen: Seq<u32>,
    sprite: Seq<u8>,
    sx: int,
    sy: int,
    colors: Colors,
    k: int,
)
    requires
        screen.len() == PIXELS,
        0 <= sx < WIDTH,
        0 <= sy < HEIGHT,
        0 <= k,
    ensures
        ({
            let x = sx + k % 8;
            let y = sy + k / 8;
            let before = drawn_below(screen, sprite, sx, sy, colors, k);
            let after = drawn_below(screen, sprite, sx, sy, colors, k + 1);
            if lit(sprite, sx, sy, x, y) {
                &&& after == written(before, x, y, Mode::Toggle, colors)
                &&& collides(before, x, y, Mode::Toggle, colors) == collides(
                    screen,
                    x,
                    y,
                    Mode::Toggle,
                    colors,
                )
                &&& last_lit(sprite, sx, sy, (k + 1) as nat) == Some(k)
            } else {
                &&& after == before
                &&& last_lit(sprite, sx, sy, (k + 1) as nat) == last_lit(sprite, sx, sy, k as nat)
            }
        }),
{
    let x = sx + k % 8;
    let y = sy + k / 8;
    let p = cell(x, y);
    let before = drawn_below(screen, sprite, sx, sy, colors, k);
    let after = drawn_below(screen, sprite, sx, sy, colors, k + 1);
    assert forall|i: int| 0 <= i < PIXELS && i != p implies #[trigger] cell_lit_below(
        sprite,
        sx,
        sy,
        i,
        k + 1,
    ) == cell_lit_below(sprite, sx, sy, i, k) by {
        let xi = i % (WIDTH as int);
        let yi = i / (WIDTH as int);
        if lit(sprite, sx, sy, xi, yi) && (yi - sy) * 8 + (xi - sx) == k {
            assert(xi - sx == k % 8);
            assert(yi - sy == k / 8);
            assert(i == yi * 64 + xi);
            assert(false);
        }
    }
    if lit(sprite, sx, sy, x, y) {
        assert(0 <= p < PIXELS);
        assert(p % 64 == x && p / 64 == y);
        assert(after =~= written(before, x, y, Mode::Toggle, colors));
    } else {
        assert(x < WIDTH && y < HEIGHT ==> p % 64 == x && p / 64 == y);
        assert(after =~= before);
    }
}

/// A row of the sprite that lies below the screen adds nothing.
proof fn lemma_skip_pixels(
    screen: Seq<u32>,
    sprite: Seq<u8>,
    sx: int,
    sy: int,
    colors: Colors,
    k: int,
    n: nat,
)
    requires
        screen.len() == PIXELS,
        0 <= sx < WIDTH,
        0 <= sy < HEIGHT,
        0 <= k,
        sy + k / 8 >= HEIGHT,
    ensures
        drawn_below(screen, sprite, sx, sy, colors, k + n) == drawn_below(
            screen,
            sprite,
            sx,
            sy,
            colors,
            k,
        ),
        last_lit(sprite, sx, sy, (k + n) as nat) == last_lit(sprite, sx, sy, k as nat),
    decreases n,
{
    if n > 0 {
        lemma_skip_pixels(screen, sprite, sx, sy, colors, k, (n - 1) as nat);
        lemma_draw_pixel(screen, sprite, sx, sy, colors, k + n - 1);
    }
}

/// `DXYN`: draws the sprite of `height` rows found at the index register.
///
/// The corner of the sprite is the position held by `xreg` and `yreg`, taken
/// modulo the width and the height of the screen; what would fall beyond
/// the right or the lower edge is cut off. Each pixel of the sprite flips
/// the pixel of the screen under it, and each pixel drawn sets `VF` to 1 if
/// it turned a lit pixel off and to 0 if not, so `VF` ends as the last one
/// left it.
///
/// If the sprite is not all in memory the machine and the screen are left as
/// they are and the fault is `MemoryOutOfBounds`.
pub fn display(
    chip8: &mut Chip8,
    display_buf: &mut [u32; PIXELS],
    xreg: Register,
    yreg: Register,
    height: u8,
    colors: &Colors,
) -> (r: Result<(), Fault>)
    ensures
        match old(chip8)@.display(old(display_buf)@, xreg, yreg, height, *colors) {
            Ok((state, screen)) => r is Ok && final(chip8)@ == state && final(display_buf)@
                == screen,
            Err(fault) => r == Err::<(), Fault>(fault) && final(chip8)@ == old(chip8)@
                && final(display_buf)@ == old(display_buf)@,
        },
        two_tone(old(display_buf)@, *colors) ==> two_tone(final(display_buf)@, *colors),
{
    let index = chip8.registers.index as usize;
    if index + height as usize > MEMORY_SIZE {
        return Err(Fault::MemoryOutOfBounds);
    }
    // Modulo width and height, so that the corner wraps.
    let start_x = chip8.registers.get(xreg) as usize % WIDTH;
    let start_y = chip8.registers.get(yreg) as usize % HEIGHT;

    let ghost s0 = chip8@;
    let ghost screen0 = display_buf@;
    let ghost sprite = s0.sprite(height);
    let ghost sx = start_x as int;
    let ghost sy = start_y as int;
    assert(display_buf@ =~= drawn_below(screen0, sprite, sx, sy, *colors, 0));

    let mut y_offset: usize = 0;
    while y_offset < height as usize
        invariant
            y_offset <= height,
            index + height <= MEMORY_SIZE,
            index == s0.index,
            sx == start_x < WIDTH,
            sy == start_y < HEIGHT,
            screen0.len() == PIXELS,
            sprite == s0.sprite(height),
            s0.mem == chip8@.mem,
            s0.v.len() == 16,
            display_buf@ == drawn_below(screen0, sprite, sx, sy, *colors, 8 * y_offset),
            chip8@ == flagged_below(s0, screen0, sprite, sx, sy, *colors, 8 * y_offset),
        decreases height - y_offset,
    {
        if start_y + y_offset < HEIGHT {
            let line = chip8.mem[index + y_offset];
            let mut x_offset: u8 = 0;
            while x_offset < 8
                invariant
                    x_offset <= 8,
                    y_offset < height,
                    index + height <= MEMORY_SIZE,
                    index == s0.index,
                    sx == start_x < WIDTH,
                    sy == start_y < HEIGHT,
                    start_y + y_offset < HEIGHT,
                    screen0.len() == PIXELS,
                    sprite == s0.sprite(height),
                    line == sprite[y_offset as int],
                    s0.mem == chip8@.mem,
                    s0.v.len() == 16,
                    display_buf@ == drawn_below(
                        screen0,
                        sprite,
                        sx,
                        sy,
                        *colors,
                        8 * y_offset + x_offset,
                    ),
                    chip8@ == flagged_below(
                        s0,
                        screen0,
                        sprite,
                        sx,
                        sy,
                        *colors,
                        8 * y_offset + x_offset,
                    ),
                decreases 8 - x_offset,
            {
                let ghost k = 8 * y_offset + x_offset;
                proof {
                    lemma_draw_pixel(screen0, sprite, sx, sy, *colors, k);
                    assert(k % 8 == x_offset && k / 8 == y_offset);
                }
                let should_toggle = line & (0x80u8 >> x_offset) != 0;
                assert(should_toggle == sprite_bit(line, x_offset as int));
                if should_toggle && start_x + (x_offset as usize) < WIDTH {
                    let collision = write_to_buffer(
                        display_buf,
                        start_x + x_offset as usize,
                        start_y + y_offset,
                        Mode::Toggle,
                        colors,
                    );
                    // VF tells whether this pixel turned a lit pixel off.
                    chip8.registers.set(Register::VF, flag(collision));
                    assert(chip8@.v =~= s0.with_flag(collision).v);
                }
                x_offset += 1;
            }
        } else {
            proof {
                lemma_skip_pixels(screen0, sprite, sx, sy, *colors, 8 * y_offset, 8);
            }
        }
        y_offset += 1;
    }
    assert(display_buf@ =~= drawn(screen0, sprite, sx, sy, *colors));
    proof {
        if two_tone(screen0, *colors) {
            lemma_draw_twice(screen0, sprite, sx, sy, *colors);
        }
    }
    Ok(())
}

/// Moves the program counter past the next instruction.
fn skip_next(chip8: &mut Chip8)
    ensures
        final(chip8)@ == old(chip8)@.skip_if(true),
{
    chip8.pc = chip8.pc.wrapping_add(2);
}

/// `6XNN`: stores `val` in `reg`.
pub fn set(chip8: &mut Chip8, reg: Register, val: u8)
    ensures
        final(chip8)@ == old(chip8)@.set_val(reg, val),
{
    chip8.registers.set(reg, val);
}

/// `ANNN`: stores `val` in the index register.
pub fn set_index(chip8: &mut Chip8, val: u16)
    ensures
        final(chip8)@ == old(chip8)@.set_index(val),
{
    chip8.registers.index = val;
}

/// `1NNN`: continues at `addr`.
pub fn jump(chip8: &mut Chip8, addr: u16)
    ensures
        final(chip8)@ == old(chip8)@.jump(addr),
{
    chip8.pc = addr;
}

/// `7XNN`: adds `val` to `reg`, modulo 256.
pub fn add(chip8: &mut Chip8, reg: Register, val: u8)
    ensures
        final(chip8)@ == old(chip8)@.add_val(reg, val),
{
    let sum = chip8.registers.get(reg).wrapping_add(val);
    chip8.registers.set(reg, sum);
}

/// `2NNN`: pushes the program counter and continues at `addr`.
///
/// With a full stack the machine is left as it is and the fault is
/// `StackOverflow`.
pub fn call_subroutine(chip8: &mut Chip8, addr: u16) -> (r: Result<(), Fault>)
    ensures
        match old(chip8)@.call_subroutine(addr) {
            Ok(state) => r is Ok && final(chip8)@ == state,
            Err(fault) => r == Err::<(), Fault>(fault) && final(chip8)@ == old(chip8)@,
        },
{
    match chip8.stack.push(chip8.pc) {
        Ok(()) => {
            chip8.pc = addr;
            Ok(())
        },
        Err(fault) => Err(fault),
    }
}

/// `00EE`: pops the address to continue at.
///
/// With an empty stack the machine is left as it is and the fault is
/// `StackUnderflow`.
pub fn return_subroutine(chip8: &mut Chip8) -> (r: Result<(), Fault>)
    ensures
        match old(chip8)@.return_subroutine() {
            Ok(state) => r is Ok && final(chip8)@ == state,
            Err(fault) => r == Err::<(), Fault>(fault) && final(chip8)@ == old(chip8)@,
        },
{
    match chip8.stack.pop() {
        Ok(addr) => {
            chip8.pc = addr;
            Ok(())
        },
        Err(fault) => Err(fault),
    }
}

/// `3XNN`: skips the next instruction if `reg` holds `num`.
pub fn skip_eq(chip8: &mut Chip8, reg: Register, num: u8)
    ensures
        final(chip8)@ == old(chip8)@.skip_eq(reg, num),
{
    if chip8.registers.get(reg) == num {
        skip_next(chip8);
    }
}

/// `4XNN`: skips the next instruction if `reg` does not hold `num`.
pub fn skip_ne(chip8: &mut Chip8, reg: Register, num: u8)
    ensures
        final(chip8)@ == old(chip8)@.skip_ne(reg, num),
{
    if chip8.registers.get(reg) != num {
        skip_next(chip8);
    }
}

/// `5XY0`: skips the next instruction if the two registers are equal.
pub fn skip_eq_reg(chip8: &mut Chip8, reg1: Register, reg2: Register)
    ensures
        final(chip8)@ == old(chip8)@.skip_eq_reg(reg1, reg2),
{
    if chip8.registers.get(reg1) == chip8.registers.get(reg2) {
        skip_next(chip8);
    }
}

/// `9XY0`: skips the next instruction if the two registers differ.
pub fn skip_ne_reg(chip8: &mut Chip8, reg1: Register, reg2: Register)
    ensures
        final(chip8)@ == old(chip8)@.skip_ne_reg(reg1, reg2),
{
    if chip8.registers.get(reg1) != chip8.registers.get(reg2) {
        skip_next(chip8);
    }
}

/// `8XY0`: copies `reg2` into `reg1`.
pub fn set_reg(chip8: &mut Chip8, reg1: Register, reg2: Register)
    ensures
        final(chip8)@ == old(chip8)@.set_reg(reg1, reg2),
{
    let val = chip8.registers.get(reg2);
    chip8.registers.set(reg1, val);
}

/// `8XY1`: bitwise or of `reg2` into `reg1`.
pub fn or(chip8: &mut Chip8, reg1: Register, reg2: Register)
    ensures
        final(chip8)@ == old(chip8)@.or_reg(reg1, reg2),
{
    let val = chip8.registers.get(reg1) | chip8.registers.get(reg2);
    chip8.registers.set(reg1, val);
}

/// `8XY2`: bitwise and of `reg2` into `reg1`.
pub fn and(chip8: &mut Chip8, reg1: Register, reg2: Register)
    ensures
        final(chip8)@ == old(chip8)@.and_reg(reg1, reg2),
{
    let val = chip8.registers.get(reg1) & chip8.registers.get(reg2);
    chip8.registers.set(reg1, val);
}

/// `8XY3`: bitwise exclusive or of `reg2` into `reg1`.
pub fn xor(chip8: &mut Chip8, reg1: Register, reg2: Register)
    ensures
        final(chip8)@ == old(chip8)@.xor_reg(reg1, reg2),
{
    let val = chip8.registers.get(reg1) ^ chip8.registers.get(reg2);
    chip8.registers.set(reg1, val);
}

/// `8XY4`: adds `reg2` to `reg1`, modulo 256, then sets `VF` to the carry.
pub fn add_reg(chip8: &mut Chip8, reg1: Register, reg2: Register)
    ensures
        final(chip8)@ == old(chip8)@.add_reg(reg1, reg2),
{
    let a = chip8.registers.get(reg1);
    let b = chip8.registers.get(reg2);
    let overflow = a > u8::MAX - b;
    chip8.registers.set(reg1, a.wrapping_add(b));
    chip8.registers.set(Register::VF, flag(overflow));
}

/// `8XY5`: `reg1 = reg1 - reg2`, modulo 256, then sets `VF` to 1 if no
/// borrow occurred and to 0 if one did.
pub fn sub1(chip8: &mut Chip8, reg1: Register, reg2: Register)
    ensures
        final(chip8)@ == old(chip8)@.sub1(reg1, reg2),
{
    let a = chip8.registers.get(reg1);
    let b = chip8.registers.get(reg2);
    let overflow = a < b;
    chip8.registers.set(reg1, a.wrapping_sub(b));
    // Subtraction affects the flag the other way round.
    chip8.registers.set(Register::VF, flag(!overflow));
}

/// `8XY7`: `reg1 = reg2 - reg1`, modulo 256, then sets `VF` to 1 if no
/// borrow occurred and to 0 if one did.
pub fn sub2(chip8: &mut Chip8, reg1: Register, reg2: Register)
    ensures
        final(chip8)@ == old(chip8)@.sub2(reg1, reg2),
{
    let a = chip8.registers.get(reg2);
    let b = chip8.registers.get(reg1);
    let overflow = a < b;
    chip8.registers.set(reg1, a.wrapping_sub(b));
    // Subtraction affects the flag the other way round.
    chip8.registers.set(Register::VF, flag(!overflow));
}

/// `8XY6`: `reg1 = reg2 >> 1`, then sets `VF` to the bit shifted out.
pub fn shr(chip8: &mut Chip8, reg1: Register, reg2: Register)
    ensures
        final(chip8)@ == old(chip8)@.shr(reg1, reg2),
{
    let num = chip8.registers.get(reg2);
    assert(num >> 1 == num / 2 && (num & 0b0000_0001 != 0 <==> num % 2 == 1)) by (bit_vector);
    chip8.registers.set(reg1, num >> 1);
    let shifted = flag(num & 0b0000_0001 != 0);
    chip8.registers.set(Register::VF, shifted);
}

/// `8XYE`: `reg1 = reg2 << 1`, then sets `VF` to the bit shifted out.
pub fn shl(chip8: &mut Chip8, reg1: Register, reg2: Register)
    ensures
        final(chip8)@ == old(chip8)@.shl(reg1, reg2),
{
    let num = chip8.registers.get(reg2);
    assert(num << 1 == (num * 2) % 0x100 && (num & 0b1000_0000 != 0 <==> num >= 0x80))
        by (bit_vector);
    chip8.registers.set(reg1, num << 1);
    let shifted = flag(num & 0b1000_0000 != 0);
    chip8.registers.set(Register::VF, shifted);
}

/// `FX65`: loads `V0`..=`outreg_max` from the bytes at the index register.
///
/// If those bytes are not all in memory the machine is left as it is and the
/// fault is `MemoryOutOfBounds`.
pub fn load_mem(chip8: &mut Chip8, outreg_max: Register) -> (r: Result<(), Fault>)
    ensures
        match old(chip8)@.load_mem(outreg_max) {
            Ok(state) => r is Ok && final(chip8)@ == state,
            Err(fault) => r == Err::<(), Fault>(fault) && final(chip8)@ == old(chip8)@,
        },
{
    let index = chip8.registers.index as usize;
    let count = outreg_max.index() + 1;
    if index + count > MEMORY_SIZE {
        return Err(Fault::MemoryOutOfBounds);
    }
    let regs = Register::iter_until(outreg_max);
    let mut idx: usize = 0;
    while idx < regs.len()
        invariant
            idx <= regs@.len() == count <= 16,
            index + count <= MEMORY_SIZE,
            index == old(chip8)@.index,
            forall|i: int| 0 <= i < regs@.len() ==> regs@[i] == Register::at(i),
            chip8@.v.len() == 16,
            forall|i: int|
                0 <= i < 16 ==> chip8@.v[i] == if i < idx {
                    old(chip8)@.mem[index + i]
                } else {
                    old(chip8)@.v[i]
                },
            chip8@.index == old(chip8)@.index,
            chip8@.mem == old(chip8)@.mem,
            chip8@.stack == old(chip8)@.stack,
            chip8@.pc == old(chip8)@.pc,
            chip8@.delay_timer == old(chip8)@.delay_timer,
            chip8@.sound_timer == old(chip8)@.sound_timer,
        decreases regs@.len() - idx,
    {
        let reg = regs[idx];
        proof {
            Register::lemma_at(idx as int);
        }
        let byte = chip8.mem[index + idx];
        chip8.registers.set(reg, byte);
        idx += 1;
    }
    assert(chip8@.v =~= old(chip8)@.load_mem(outreg_max)->Ok_0.v);
    Ok(())
}

/// `FX55`: stores `V0`..=`inreg_max` in the bytes at the index register.
///
/// If those bytes are not all in memory the machine is left as it is and the
/// fault is `MemoryOutOfBounds`.
pub fn store_mem(chip8: &mut Chip8, inreg_max: Register) -> (r: Result<(), Fault>)
    ensures
        match old(chip8)@.store_mem(inreg_max) {
            Ok(state) => r is Ok && final(chip8)@ == state,
            Err(fault) => r == Err::<(), Fault>(fault) && final(chip8)@ == old(chip8)@,
        },
{
    let index = chip8.registers.index as usize;
    let count = inreg_max.index() + 1;
    if index + count > MEMORY_SIZE {
        return Err(Fault::MemoryOutOfBounds);
    }
    let regs = Register::iter_until(inreg_max);
    let mut idx: usize = 0;
    while idx < regs.len()
        invariant
            idx <= regs@.len() == count <= 16,
            index + count <= MEMORY_SIZE,
            index == old(chip8)@.index,
            forall|i: int| 0 <= i < regs@.len() ==> regs@[i] == Register::at(i),
            chip8@.mem.len() == MEMORY_SIZE,
            forall|addr: int|
                0 <= addr < MEMORY_SIZE ==> chip8@.mem[addr] == if index <= addr < index + idx {
                    old(chip8)@.v[addr - index]
                } else {
                    old(chip8)@.mem[addr]
                },
            chip8@.v == old(chip8)@.v,
            chip8@.index == old(chip8)@.index,
            chip8@.stack == old(chip8)@.stack,
            chip8@.pc == old(chip8)@.pc,
            chip8@.delay_timer == old(chip8)@.delay_timer,
            chip8@.sound_timer == old(chip8)@.sound_timer,
        decreases regs@.len() - idx,
    {
        let reg = regs[idx];
        proof {
            Register::lemma_at(idx as int);
        }
        let byte = chip8.registers.get(reg);
        chip8.mem[index + idx] = byte;
        idx += 1;
    }
    assert(chip8@.mem =~= old(chip8)@.store_mem(inreg_max)->Ok_0.mem);
    Ok(())
}

/// `FX33`: stores the hundreds, tens and units of `inreg` in the three bytes
/// at the index register.
///
/// If those bytes are not all in memory the machine is left as it is and the
/// fault is `MemoryOutOfBounds`.
pub fn bin_to_dec(chip8: &mut Chip8, inreg: Register) -> (r: Result<(), Fault>)
    ensures
        match old(chip8)@.bin_to_dec(inreg) {
            Ok(state) => r is Ok && final(chip8)@ == state,
            Err(fault) => r == Err::<(), Fault>(fault) && final(chip8)@ == old(chip8)@,
        },
{
    let num = chip8.registers.get(inreg);
    let digit1 = num / 100;
    let digit2 = num / 10 % 10;
    let digit3 = num % 10;

    let index = chip8.registers.index as usize;
    if index + 2 >= MEMORY_SIZE {
        return Err(Fault::MemoryOutOfBounds);
    }
    chip8.mem[index] = digit1;
    chip8.mem[index + 1] = digit2;
    chip8.mem[index + 2] = digit3;
    Ok(())
}

/// `FX1E`: adds `inreg` to the index register, modulo `0x10000`.
pub fn add_to_index(chip8: &mut Chip8, inreg: Register)
    ensures
        final(chip8)@ == old(chip8)@.add_to_index(inreg),
{
    let val = chip8.registers.get(inreg) as u16;
    chip8.registers.index = chip8.registers.index.wrapping_add(val);
}

/// Draws one byte from the thread's generator with `fastrand::u8` over the
/// whole range of `u8`. Nothing is claimed of the byte: every value can come
/// back.
#[verifier::external_body]
fn random_byte() -> (byte: u8) {
    fastrand::u8(..)
}

/// `CXNN` with the byte `random` for the one that is drawn: stores
/// `random & val` in `outreg`.
pub fn rand_with(chip8: &mut Chip8, outreg: Register, val: u8, random: u8)
    ensures
        final(chip8)@ == old(chip8)@.rand(outreg, val, random),
{
    chip8.registers.set(outreg, random & val);
}

/// `CXNN`: draws a random byte and stores it, masked by `val`, in `outreg`.
pub fn rand(chip8: &mut Chip8, outreg: Register, val: u8)
    ensures
        exists|random: u8| final(chip8)@ == old(chip8)@.rand(outreg, val, random),
{
    let random = random_byte();
    rand_with(chip8, outreg, val, random);
}

/// `FX07`: copies the delay timer into `outreg`.
pub fn get_delay_timer(chip8: &mut Chip8, outreg: Register)
    ensures
        final(chip8)@ == old(chip8)@.get_delay_timer(outreg),
{
    chip8.registers.set(outreg, chip8.delay_timer);
}

/// `FX15`: copies `inreg` into the delay timer.
pub fn set_delay_timer(chip8: &mut Chip8, inreg: Register)
    ensures
        final(chip8)@ == old(chip8)@.set_delay_timer(inreg),
{
    chip8.delay_timer = chip8.registers.get(inreg);
}

/// `FX0A`: stores the digit of the first key that is down in `keyreg`; with
/// no key down, moves the program counter back by one instruction.
pub fn wait_for_key(chip8: &mut Chip8, pressed: &[Key], keyreg: Register)
    ensures
        final(chip8)@ == old(chip8)@.wait_for_key(pressed@, keyreg),
{
    match get_pressed_key(pressed) {
        Some(key) => chip8.registers.set(keyreg, key),
        None => chip8.pc = chip8.pc.wrapping_sub(2),
    }
}

/// `FX29`: points the index register at the glyph of the digit in `inreg`.
pub fn get_font_char(chip8: &mut Chip8, inreg: Register)
    ensures
        final(chip8)@ == old(chip8)@.get_font_char(inreg),
{
    let key_offset = chip8.registers.get(inreg) as u16;
    // Glyphs start at 0x50 and take up 5 bytes each.
    let addr = FONT_START + key_offset * GLYPH_LEN;
    chip8.registers.index = addr;
}

/// `BNNN`: continues at `addr` plus the value of `V0`, modulo `0x10000`.
pub fn jump_offset(chip8: &mut Chip8, addr: u16)
    ensures
        final(chip8)@ == old(chip8)@.jump_offset(addr),
{
    let offset = chip8.registers.get(Register::V0) as u16;
    chip8.pc = addr.wrapping_add(offset);
}

/// `FX18`: copies `inreg` into the sound timer.
pub fn set_sound_timer(chip8: &mut Chip8, inreg: Register)
    ensures
        final(chip8)@ == old(chip8)@.set_sound_timer(inreg),
{
    chip8.sound_timer = chip8.registers.get(inreg);
}

/// `EX9E`: skips the next instruction if the key named by `keyreg` is down.
pub fn skip_if_key(chip8: &mut Chip8, pressed: &[Key], keyreg: Register)
    ensures
        final(chip8)@ == old(chip8)@.skip_if_key(pressed@, keyreg),
{
    // A value that names no key counts as a key that is not down.
    let down = match is_key_pressed(pressed, chip8.registers.get(keyreg)) {
        Some(down) => down,
        None => false,
    };
    if down {
        skip_next(chip8);
    }
}

/// `EXA1`: skips the next instruction unless the key named by `keyreg` is
/// down.
pub fn skip_if_not_key(chip8: &mut Chip8, pressed: &[Key], keyreg: Register)
    ensures
        final(chip8)@ == old(chip8)@.skip_if_not_key(pressed@, keyreg),
{
    // A value that names no key counts as a key that is not down.
    let down = match is_key_pressed(pressed, chip8.registers.get(keyreg)) {
        Some(down) => down,
        None => false,
    };
    if !down {
        skip_next(chip8);
    }
}

/// 1 for `true` and 0 for `false`.
fn flag(b: bool) -> (n: u8)
    ensures
        n == if b {
            1u8
        } else {
            0u8
        },
{
    if b {
        1
    } else {
        0
    }
}

impl Instruction {
    /// Applies the instruction to the machine and the screen, the keys
    /// `pressed` being down, and reports whether the screen was written.
    ///
    /// The machine and the screen end as `effect` says. Only `Rand` depends
    /// on a byte that is drawn here: for it they end as `effect` says of some
    /// byte. An instruction that faults leaves both as they were.
    pub fn execute(
        &self,
        chip8: &mut Chip8,
        display_buf: &mut [u32; PIXELS],
        pressed: &[Key],
        colors: &Colors,
    ) -> (r: Result<DisplayModified, Fault>)
        ensures
            exists|random: u8|
                reached(
                    #[trigger] self.effect(
                        old(chip8)@,
                        old(display_buf)@,
                        pressed@,
                        *colors,
                        random,
                    ),
                    old(chip8)@,
                    old(display_buf)@,
                    final(chip8)@,
                    final(display_buf)@,
                    r,
                ),
            !(self is Rand) ==> forall|random: u8|
                reached(
                    #[trigger] self.effect(
                        old(chip8)@,
                        old(display_buf)@,
                        pressed@,
                        *colors,
                        random,
                    ),
                    old(chip8)@,
                    old(display_buf)@,
                    final(chip8)@,
                    final(display_buf)@,
                    r,
                ),
            two_tone(old(display_buf)@, *colors) ==> two_tone(final(display_buf)@, *colors),
    {
        let mut modified = DisplayModified::Unchanged;
        let ghost s0 = chip8@;
        let ghost screen0 = display_buf@;

        match *self {
            Instruction::ClearDisplay => {
                clear_display(display_buf, colors);
                modified = DisplayModified::Changed;
            },
            Instruction::SetVal { reg, val } => set(chip8, reg, val),
            Instruction::SetIndex { val } => set_index(chip8, val),
            Instruction::Display { xreg, yreg, height } => {
                display(chip8, display_buf, xreg, yreg, height, colors)?;
                modified = DisplayModified::Changed;
            },
            Instruction::Jump { addr } => jump(chip8, addr),
            Instruction::Add { reg, val } => self::add(chip8, reg, val),
            Instruction::CallSubroutine { addr } => call_subroutine(chip8, addr)?,
            Instruction::ReturnSubroutine => return_subroutine(chip8)?,
            Instruction::SkipEq { reg, num } => skip_eq(chip8, reg, num),
            Instruction::SkipNe { reg, num } => skip_ne(chip8, reg, num),
            Instruction::SkipEqReg { reg1, reg2 } => skip_eq_reg(chip8, reg1, reg2),
            Instruction::SkipNeReg { reg1, reg2 } => skip_ne_reg(chip8, reg1, reg2),
            Instruction::SetReg { reg1, reg2 } => set_reg(chip8, reg1, reg2),
            Instruction::Or { reg1, reg2 } => or(chip8, reg1, reg2),
            Instruction::And { reg1, reg2 } => and(chip8, reg1, reg2),
            Instruction::Xor { reg1, reg2 } => xor(chip8, reg1, reg2),
            Instruction::AddReg { reg1, reg2 } => add_reg(chip8, reg1, reg2),
            Instruction::Sub1 { reg1, reg2 } => sub1(chip8, reg1, reg2),
            Instruction::Sub2 { reg1, reg2 } => sub2(chip8, reg1, reg2),
            Instruction::Shr { reg1, reg2 } => shr(chip8, reg1, reg2),
            Instruction::Shl { reg1, reg2 } => shl(chip8, reg1, reg2),
            Instruction::LoadMem { outreg_max } => load_mem(chip8, outreg_max)?,
            Instruction::StoreMem { inreg_max } => store_mem(chip8, inreg_max)?,
            Instruction::BinToDec { inreg } => bin_to_dec(chip8, inreg)?,
            Instruction::AddToIndex { inreg } => add_to_index(chip8, inreg),
            Instruction::Rand { outreg, val } => {
                rand(chip8, outreg, val);
                proof {
                    let random = choose|random: u8| chip8@ == s0.rand(outreg, val, random);
                    assert(reached(
                        self.effect(s0, screen0, pressed@, *colors, random),
                        s0,
                        screen0,
                        chip8@,
                        display_buf@,
                        Ok(modified),
                    ));
                }
            },
            Instruction::GetDelayTimer { outreg } => get_delay_timer(chip8, outreg),
            Instruction::SetDelayTimer { inreg } => set_delay_timer(chip8, inreg),
            Instruction::WaitForKey { keyreg } => wait_for_key(chip8, pressed, keyreg),
            Instruction::GetFontChar { inreg } => get_font_char(chip8, inreg),
            Instruction::JumpOffset { addr } => jump_offset(chip8, addr),
            Instruction::SetSoundTimer { inreg } => set_sound_timer(chip8, inreg),
            Instruction::SkipIfKey { keyreg } => skip_if_key(chip8, pressed, keyreg),
            Instruction::SkipIfNotKey { keyreg } => skip_if_not_key(chip8, pressed, keyreg),
        }

        proof {
            if !(self is Rand) {
                assert(reached(
                    self.effect(s0, screen0, pressed@, *colors, 0),
                    s0,
                    screen0,
                    chip8@,
                    display_buf@,
                    Ok(modified),
                ));
            }
        }
        Ok(modified)
    }
}

} // verus!
