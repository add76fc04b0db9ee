use chip8_vm::cli::Colors;
use chip8_vm::display::{write_to_buffer, Mode};
use chip8_vm::instructions::execute::clear_display;
use chip8_vm::{HEIGHT, PIXELS, WIDTH};

const COLORS: Colors = Colors { foreground: 0xFF_FF_FF, background: 0x00_00_00 };

#[test]
fn screen_dimensions() {
    assert_eq!(WIDTH, 64);
    assert_eq!(HEIGHT, 32);
    assert_eq!(PIXELS, WIDTH * HEIGHT);
}

#[test]
fn toggle_twice_restores_an_unlit_pixel() {
    let mut buf = [COLORS.background; PIXELS];
    assert!(!write_to_buffer(&mut buf, 3, 4, Mode::Toggle, &COLORS));
    assert_eq!(buf[4 * WIDTH + 3], COLORS.foreground);
    assert!(write_to_buffer(&mut buf, 3, 4, Mode::Toggle, &COLORS));
    assert_eq!(buf, [COLORS.background; PIXELS]);
}

#[test]
fn toggle_twice_restores_a_lit_pixel() {
    let mut buf = [COLORS.background; PIXELS];
    buf[0] = COLORS.foreground;
    let before = buf;
    assert!(write_to_buffer(&mut buf, 0, 0, Mode::Toggle, &COLORS));
    assert_eq!(buf[0], COLORS.background);
    assert!(!write_to_buffer(&mut buf, 0, 0, Mode::Toggle, &COLORS));
    assert_eq!(buf, before);
}

#[test]
fn toggle_twice_restores_every_cell() {
    let colors = Colors { foreground: 0x12_34_56, background: 0x65_43_21 };
    for y in 0..HEIGHT {
        for x in 0..WIDTH {
            let mut buf = [colors.background; PIXELS];
            assert!(!write_to_buffer(&mut buf, x, y, Mode::Toggle, &colors));
            for (i, cell) in buf.iter().enumerate() {
                let expected = if i == y * WIDTH + x { colors.foreground } else { colors.background };
                assert_eq!(*cell, expected);
            }
            assert!(write_to_buffer(&mut buf, x, y, Mode::Toggle, &colors));
            assert_eq!(buf, [colors.background; PIXELS]);
        }
    }
}

#[test]
fn toggle_treats_a_foreign_colour_as_lit() {
    let mut buf = [COLORS.background; PIXELS];
    buf[5] = 0x12_34_56;
    assert!(write_to_buffer(&mut buf, 5, 0, Mode::Toggle, &COLORS));
    assert_eq!(buf[5], COLORS.background);
}

#[test]
fn set_false_turns_a_pixel_off_without_collision() {
    let mut buf = [COLORS.foreground; PIXELS];
    assert!(!write_to_buffer(&mut buf, 63, 31, Mode::SetFalse, &COLORS));
    assert_eq!(buf[PIXELS - 1], COLORS.background);
    assert_eq!(buf[PIXELS - 2], COLORS.foreground);
    assert!(!write_to_buffer(&mut buf, 63, 31, Mode::SetFalse, &COLORS));
    assert_eq!(buf[PIXELS - 1], COLORS.background);
}

#[test]
fn write_addresses_cells_row_by_row() {
    let mut buf = [COLORS.background; PIXELS];
    write_to_buffer(&mut buf, 1, 0, Mode::Toggle, &COLORS);
    write_to_buffer(&mut buf, 0, 1, Mode::Toggle, &COLORS);
    assert_eq!(buf[1], COLORS.foreground);
    assert_eq!(buf[64], COLORS.foreground);
    assert_eq!(buf.iter().filter(|&&c| c == COLORS.foreground).count(), 2);
}

#[test]
fn clear_display_sets_every_cell_to_the_background() {
    let colors = Colors { foreground: 0x00_FF_00, background: 0x00_00_FF };
    let mut buf = [0u32; PIXELS];
    for (i, cell) in buf.iter_mut().enumerate() {
        *cell = if i % 3 == 0 { colors.foreground } else { i as u32 };
    }
    clear_display(&mut buf, &colors);
    assert_eq!(buf, [colors.background; PIXELS]);
}
