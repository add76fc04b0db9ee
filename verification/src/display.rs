//! The screen: 64 by 32 cells, each holding one of the two colours of the
//! palette, stored row by row.

use crate::cli::Colors;
use crate::{HEIGHT, PIXELS, WIDTH};
use vstd::prelude::*;

verus! {

/// How a pixel is written.
#[derive(Debug, Clone, Copy, PartialEq, Eq, Structural)]
pub enum Mode {
    /// Turn the pixel off.
    SetFalse,
    /// Flip the pixel.
    Toggle,
}

/// Position of the cell `(x, y)` in the screen.
pub open spec fn cell(x: int, y: int) -> int {
    y * WIDTH + x
}

/// The colour that a cell of colour `color` takes when it is flipped: the
/// foreground if it was unlit, the background otherwise.
pub open spec fn toggled(color: u32, colors: Colors) -> u32 {
    if color == colors.background {
        colors.foreground
    } else {
        colors.background
    }
}

/// The screen after the cell `(x, y)` was written in mode `mode`.
pub open spec fn written(screen: Seq<u32>, x: int, y: int, mode: Mode, colors: Colors) -> Seq<u32> {
    screen.update(
        cell(x, y),
        match mode {
            Mode::SetFalse => colors.background,
            Mode::Toggle => toggled(screen[cell(x, y)], colors),
        },
    )
}

/// Whether writing the cell `(x, y)` in mode `mode` turns off a lit pixel.
pub open spec fn collides(screen: Seq<u32>, x: int, y: int, mode: Mode, colors: Colors) -> bool {
    mode == Mode::Toggle && screen[cell(x, y)] != colors.background
}

/// Every cell of the screen holds one of the two colours of the palette.
pub open spec fn two_tone(screen: Seq<u32>, colors: Colors) -> bool {
    forall|i: int|
        0 <= i < screen.len() ==> screen[i] == colors.foreground || screen[i] == colors.background
}

/// Every cell of the screen holds the background colour.
pub open spec fn blank(screen: Seq<u32>, colors: Colors) -> bool {
    forall|i: int| 0 <= i < screen.len() ==> screen[i] == colors.background
}

/// The screen with every cell at the background colour.
pub open spec fn cleared(screen: Seq<u32>, colors: Colors) -> Seq<u32> {
    Seq::new(screen.len(), |i: int| colors.background)
}

/// Whether the sprite row `row` has a pixel in column `col`, the highest bit
/// being column 0.
pub open spec fn sprite_bit(row: u8, col: int) -> bool {
    row & (0x80u8 >> (col as u8)) != 0
}

/// Whether the sprite `sprite`, drawn with its top left corner at
/// `(sx, sy)`, has a pixel on the cell `(x, y)` of the screen.
///
/// A sprite is eight columns wide and has one row for each of its bytes.
/// What would fall beyond the right or the lower edge of the screen is cut
/// off.
pub open spec fn lit(sprite: Seq<u8>, sx: int, sy: int, x: int, y: int) -> bool {
    &&& sx <= x < sx + 8
    &&& x < WIDTH
    &&& sy <= y < sy + sprite.len()
    &&& y < HEIGHT
    &&& sprite_bit(sprite[y - sy], x - sx)
}

/// The screen after the sprite was drawn at `(sx, sy)`: every cell on which
/// the sprite has a pixel is flipped, every other cell is as before.
pub open spec fn drawn(screen: Seq<u32>, sprite: Seq<u8>, sx: int, sy: int, colors: Colors) -> Seq<
    u32,
> {
    Seq::new(
        screen.len(),
        |i: int|
            if lit(sprite, sx, sy, i % (WIDTH as int), i / (WIDTH as int)) {
                toggled(screen[i], colors)
            } else {
                screen[i]
            },
    )
}

/// The pixels of a sprite are numbered row by row, eight to a row. This is
/// the number of the last pixel below `k` that the sprite drawn at
/// `(sx, sy)` puts on the screen, if there is one.
pub open spec fn last_lit(sprite: Seq<u8>, sx: int, sy: int, k: nat) -> Option<int>
    decreases k,
{
    if k == 0 {
        None
    } else if lit(sprite, sx, sy, sx + (k - 1) % 8, sy + (k - 1) / 8) {
        Some(k - 1)
    } else {
        last_lit(sprite, sx, sy, (k - 1) as nat)
    }
}

/// Whether the last pixel that the sprite puts on the screen turns a lit
/// pixel off; `None` when the sprite puts no pixel on the screen.
pub open spec fn last_collision(
    screen: Seq<u32>,
    sprite: Seq<u8>,
    sx: int,
    sy: int,
    colors: Colors,
) -> Option<bool> {
    match last_lit(sprite, sx, sy, 8 * sprite.len()) {
        Some(k) => Some(collides(screen, sx + k % 8, sy + k / 8, Mode::Toggle, colors)),
        None => None,
    }
}

/// Writes the pixel at column `x` and row `y`.
///
/// In mode `SetFalse` the pixel takes the background colour. In mode
/// `Toggle` an unlit pixel takes the foreground colour and any other pixel
/// the background colour. Returns whether a lit pixel was turned off, which
/// only `Toggle` can do.
pub fn write_to_buffer(
    buf: &mut [u32; PIXELS],
    x: usize,
    y: usize,
    mode: Mode,
    colors: &Colors,
) -> (collision: bool)
    requires
        x < WIDTH,
        y < HEIGHT,
    ensures
        final(buf)@ == written(old(buf)@, x as int, y as int, mode, *colors),
        collision == collides(old(buf)@, x as int, y as int, mode, *colors),
        two_tone(old(buf)@, *colors) ==> two_tone(final(buf)@, *colors),
{
    let mut collision = false;

    let offset = (y * WIDTH) + x;
    let color = match mode {
        Mode::SetFalse => colors.background,
        Mode::Toggle => {
            let current_state = buf[offset];
            if current_state == colors.background {
                colors.foreground
            } else {
                collision = true;
                colors.background
            }
        },
    };

    buf[offset] = color;

    collision
}

/// Flipping a cell that holds a colour of the palette twice restores the
/// screen. If the two colours of the palette differ, exactly one of the two
/// flips collides: the second if the cell was unlit, the first if it was
/// lit.
pub proof fn lemma_toggle_twice(screen: Seq<u32>, x: int, y: int, colors: Colors)
    requires
        screen.len() == PIXELS,
        0 <= x < WIDTH,
        0 <= y < HEIGHT,
        screen[cell(x, y)] == colors.foreground || screen[cell(x, y)] == colors.background,
    ensures
        written(written(screen, x, y, Mode::Toggle, colors), x, y, Mode::Toggle, colors) == screen,
        colors.foreground != colors.background && screen[cell(x, y)] == colors.background ==> {
            &&& !collides(screen, x, y, Mode::Toggle, colors)
            &&& collides(written(screen, x, y, Mode::Toggle, colors), x, y, Mode::Toggle, colors)
        },
        colors.foreground != colors.background && screen[cell(x, y)] == colors.foreground ==> {
            &&& collides(screen, x, y, Mode::Toggle, colors)
            &&& !collides(written(screen, x, y, Mode::Toggle, colors), x, y, Mode::Toggle, colors)
        },
{
    assert(0 <= cell(x, y) < PIXELS);
    assert(written(written(screen, x, y, Mode::Toggle, colors), x, y, Mode::Toggle, colors)
        =~= screen);
}

/// Drawing a sprite twice at the same place restores a screen on which every
/// cell holds a colour of the palette.
pub proof fn lemma_draw_twice(screen: Seq<u32>, sprite: Seq<u8>, sx: int, sy: int, colors: Colors)
    requires
        two_tone(screen, colors),
    ensures
        drawn(drawn(screen, sprite, sx, sy, colors), sprite, sx, sy, colors) == screen,
        two_tone(drawn(screen, sprite, sx, sy, colors), colors),
{
    assert(drawn(drawn(screen, sprite, sx, sy, colors), sprite, sx, sy, colors) =~= screen);
}

/// Clearing gives a blank screen, whatever was on it.
pub proof fn lemma_cleared_is_blank(screen: Seq<u32>, colors: Colors)
    ensures
        cleared(screen, colors).len() == screen.len(),
        blank(cleared(screen, colors), colors),
        two_tone(cleared(screen, colors), colors),
{
}

} // verus!
