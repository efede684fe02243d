use chip8_core::lcd::{draw_lcd, COLOR_OFF, COLOR_OFF_GRID, COLOR_ON, COLOR_ON_GRID};
use chip8_core::padded::{pad, Padded, PaddedStep};

#[test]
fn lcd_scales_one_cell_into_a_grid_framed_block() {
    let mut framebuf = [0u64; 32];
    framebuf[0] = 1; // leftmost top pixel lit
    let stride = 64 * 3;
    let mut pixbuf = vec![0u32; 32 * 3 * stride];
    draw_lcd(&framebuf, &mut pixbuf, (0, 0), (3, 3));
    // center of the lit cell
    assert_eq!(pixbuf[1 * stride + 1], COLOR_ON);
    // rim of the lit cell
    assert_eq!(pixbuf[0], COLOR_ON_GRID);
    assert_eq!(pixbuf[1 * stride + 0], COLOR_ON_GRID);
    assert_eq!(pixbuf[2 * stride + 2], COLOR_ON_GRID);
    // center and rim of a dark cell
    assert_eq!(pixbuf[1 * stride + 4], COLOR_OFF);
    assert_eq!(pixbuf[0 * stride + 3], COLOR_OFF_GRID);
}

#[test]
fn lcd_padding_adds_dark_border_cells() {
    let mut framebuf = [0u64; 32];
    framebuf[0] = 1;
    let stride = 66; // one border cell each side at scale 1
    let mut pixbuf = vec![0u32; 34 * stride];
    draw_lcd(&framebuf, &mut pixbuf, (1, 1), (1, 1));
    // at scale 1 every pixel is on its cell's rim
    assert_eq!(pixbuf[0], COLOR_OFF_GRID); // border cell
    assert_eq!(pixbuf[1 * stride + 1], COLOR_ON_GRID); // screen (0,0)
    assert_eq!(pixbuf[1 * stride + 2], COLOR_OFF_GRID); // screen (1,0), dark
}

#[test]
fn lcd_leaves_pixels_beyond_the_region_untouched() {
    let framebuf = [0u64; 32];
    let mut pixbuf = vec![0xdead_beefu32; 32 * 64 + 10];
    draw_lcd(&framebuf, &mut pixbuf, (0, 0), (1, 1));
    for k in 0..10 {
        assert_eq!(pixbuf[32 * 64 + k], 0xdead_beef);
    }
    assert_eq!(pixbuf[0], COLOR_OFF_GRID);
}

#[test]
fn padded_walk_yields_blanks_indices_blanks() {
    let mut p = pad(2, 3);
    let mut got = Vec::new();
    while let Some(slot) = p.next() {
        got.push(slot);
    }
    assert_eq!(
        got,
        vec![None, None, Some(0), Some(1), Some(2), None, None]
    );
    assert_eq!(p.next(), None);
}

#[test]
fn padded_walk_without_padding_or_indices() {
    let mut p = pad(0, 2);
    assert_eq!(p.next(), Some(Some(0)));
    assert_eq!(p.next(), Some(Some(1)));
    assert_eq!(p.next(), None);

    let mut q = pad(1, 0);
    assert_eq!(q.next(), Some(None));
    assert_eq!(q.next(), Some(None));
    assert_eq!(q.next(), None);
}

#[test]
fn padded_walk_state_is_inspectable() {
    let p: Padded = pad(4, 7);
    assert_eq!(p.padding, 4);
    assert_eq!(p.len, 7);
    assert!(matches!(p.step, PaddedStep::Before(4)));
}
