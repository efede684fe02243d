//! Display compositing: turns the monochrome framebuffer into colored
//! pixels with an optional border and per-pixel grid effect. Pure
//! presentation — it reads screen rows and writes a pixel buffer, and owns
//! no state of its own.

use vstd::prelude::*;
use vstd::pervasive::VecAdditionalExecFns;

verus! {

/// The screen rows as a host hands them over: 32 bit-packed rows.
pub type FrameBuf = [u64; 32];

pub const COLOR_ON: u32 = 0xff_00_00_00;

pub const COLOR_ON_GRID: u32 = 0xff_20_38_20;

pub const COLOR_OFF: u32 = 0xff_73_bd_71;

pub const COLOR_OFF_GRID: u32 = 0xff_63_ad_61;

/// Width of one output pixel row: the 64 screen columns plus the border,
/// each cell `scale_x` pixels wide.
pub open spec fn lcd_stride(pad_x: int, scale_x: int) -> int {
    (64 + 2 * pad_x) * scale_x
}

/// Number of output pixel rows: the 32 screen rows plus the border, each
/// cell `scale_y` pixels tall.
pub open spec fn lcd_height(pad_y: int, scale_y: int) -> int {
    (32 + 2 * pad_y) * scale_y
}

/// Color of the output pixel at column `px` of pixel row `py`: the cell it
/// falls in is lit when it lies inside the screen area and its framebuffer
/// bit is set (bit 0 of a row is the leftmost pixel); pixels on the rim of
/// their cell take the grid shade of that state.
pub open spec fn lcd_pixel(
    fb: Seq<u64>,
    pad_x: int,
    pad_y: int,
    scale_x: int,
    scale_y: int,
    py: int,
    px: int,
) -> u32 {
    let cy = py / scale_y;
    let i = py % scale_y;
    let cx = px / scale_x;
    let j = px % scale_x;
    let grid = i == 0 || i == scale_y - 1 || j == 0 || j == scale_x - 1;
    let on = pad_y <= cy < pad_y + 32 && pad_x <= cx < pad_x + 64 && ((fb[cy - pad_y] >> ((cx
        - pad_x) as u64)) & 1) == 1;
    if grid {
        if on {
            COLOR_ON_GRID
        } else {
            COLOR_OFF_GRID
        }
    } else {
        if on {
            COLOR_ON
        } else {
            COLOR_OFF
        }
    }
}

/// Color of one output pixel.
fn pixel_color(
    framebuf: &FrameBuf,
    pad_x: usize,
    pad_y: usize,
    scale_x: usize,
    scale_y: usize,
    py: usize,
    px: usize,
) -> (c: u32)
    requires
        scale_x >= 1,
        scale_y >= 1,
    ensures
        c == lcd_pixel(
            framebuf@,
            pad_x as int,
            pad_y as int,
            scale_x as int,
            scale_y as int,
            py as int,
            px as int,
        ),
{
    let cy = py / scale_y;
    let i = py % scale_y;
    let cx = px / scale_x;
    let j = px % scale_x;
    let grid = i == 0 || i + 1 == scale_y || j == 0 || j + 1 == scale_x;
    let on = if cy >= pad_y && cy - pad_y < 32 && cx >= pad_x && cx - pad_x < 64 {
        (framebuf[cy - pad_y] >> ((cx - pad_x) as u64)) & 1 == 1
    } else {
        false
    };
    if grid {
        if on {
            COLOR_ON_GRID
        } else {
            COLOR_OFF_GRID
        }
    } else {
        if on {
            COLOR_ON
        } else {
            COLOR_OFF
        }
    }
}

/// Renders the framebuffer into `pixbuf`, one colored pixel per entry, row
/// major with `lcd_stride` pixels per row and `lcd_height` rows: every
/// pixel of that region receives exactly the color `lcd_pixel` gives it,
/// and everything beyond the region is left untouched. With a zero scale
/// the region is empty and nothing is written.
pub fn draw_lcd(
    framebuf: &FrameBuf,
    pixbuf: &mut Vec<u32>,
    padding: (usize, usize),
    scaling: (usize, usize),
)
    requires
        lcd_height(padding.1 as int, scaling.1 as int) * lcd_stride(
            padding.0 as int,
            scaling.0 as int,
        ) <= old(pixbuf)@.len(),
    ensures
        final(pixbuf)@.len() == old(pixbuf)@.len(),
        forall|py: int, px: int|
            0 <= py < lcd_height(padding.1 as int, scaling.1 as int) && 0 <= px < lcd_stride(
                padding.0 as int,
                scaling.0 as int,
            ) ==> final(pixbuf)@[py * lcd_stride(padding.0 as int, scaling.0 as int) + px]
                == lcd_pixel(
                framebuf@,
                padding.0 as int,
                padding.1 as int,
                scaling.0 as int,
                scaling.1 as int,
                py,
                px,
            ),
        forall|idx: int|
            lcd_height(padding.1 as int, scaling.1 as int) * lcd_stride(
                padding.0 as int,
                scaling.0 as int,
            ) <= idx < old(pixbuf)@.len() ==> final(pixbuf)@[idx] == old(pixbuf)@[idx],
{
    let (pad_x, pad_y) = padding;
    let (scale_x, scale_y) = scaling;
    if scale_x == 0 || scale_y == 0 {
        proof {
            let pxi = pad_x as int;
            let pyi = pad_y as int;
            let sxi = scale_x as int;
            let syi = scale_y as int;
            assert(((32 + 2 * pyi) * syi) * ((64 + 2 * pxi) * sxi) == 0) by (nonlinear_arith)
                requires
                    sxi == 0 || syi == 0,
            ;
            assert(lcd_height(pyi, syi) * lcd_stride(pxi, sxi) == 0);
            if syi == 0 {
                assert((32 + 2 * pyi) * syi == 0) by (nonlinear_arith)
                    requires
                        syi == 0,
                ;
            } else {
                assert((64 + 2 * pxi) * sxi == 0) by (nonlinear_arith)
                    requires
                        sxi == 0,
                ;
            }
            assert(lcd_height(pyi, syi) == 0 || lcd_stride(pxi, sxi) == 0);
        }
        return ;
    }
    let ghost strideg = lcd_stride(pad_x as int, scale_x as int);
    let ghost heightg = lcd_height(pad_y as int, scale_y as int);
    let buf_len = pixbuf.len();
    proof {
        assert((64 + 2 * (pad_x as int)) <= (64 + 2 * (pad_x as int)) * (scale_x as int)
            && (32 + 2 * (pad_y as int)) <= (32 + 2 * (pad_y as int)) * (scale_y as int))
            by (nonlinear_arith)
            requires
                scale_x >= 1,
                scale_y >= 1,
        ;
        assert(strideg <= heightg * strideg && heightg <= heightg * strideg) by (nonlinear_arith)
            requires
                strideg >= 64,
                heightg >= 32,
        ;
        assert(64 + 2 * (pad_x as int) <= buf_len && 32 + 2 * (pad_y as int) <= buf_len
            && strideg <= buf_len && heightg <= buf_len);
    }
    let cols = 64 + 2 * pad_x;
    let rowstride = scale_x * cols;
    let rows_px = (32 + 2 * pad_y) * scale_y;
    proof {
        assert(rowstride as int == strideg) by (nonlinear_arith)
            requires
                rowstride as int == (scale_x as int) * (64 + 2 * (pad_x as int)),
                strideg == (64 + 2 * (pad_x as int)) * (scale_x as int),
        ;
    }
    let mut py: usize = 0;
    while py < rows_px
        invariant
            scale_x >= 1,
            scale_y >= 1,
            rowstride as int == strideg,
            rows_px as int == heightg,
            strideg == lcd_stride(pad_x as int, scale_x as int),
            heightg == lcd_height(pad_y as int, scale_y as int),
            py <= rows_px,
            buf_len == old(pixbuf)@.len(),
            pixbuf@.len() == old(pixbuf)@.len(),
            heightg * strideg <= pixbuf@.len(),
            forall|a: int, b: int|
                0 <= a < py && 0 <= b < strideg ==> pixbuf@[a * strideg + b] == lcd_pixel(
                    framebuf@,
                    pad_x as int,
                    pad_y as int,
                    scale_x as int,
                    scale_y as int,
                    a,
                    b,
                ),
            forall|idx: int|
                (py as int) * strideg <= idx < pixbuf@.len() ==> pixbuf@[idx] == old(
                    pixbuf,
                )@[idx],
        decreases rows_px - py,
    {
        proof {
            assert((py as int + 1) * strideg <= heightg * strideg && (py as int) * strideg
                + strideg == (py as int + 1) * strideg) by (nonlinear_arith)
                requires
                    0 <= py < rows_px,
                    rows_px as int == heightg,
                    strideg >= 0,
            ;
        }
        let mut px: usize = 0;
        while px < rowstride
            invariant
                scale_x >= 1,
                scale_y >= 1,
                rowstride as int == strideg,
                rows_px as int == heightg,
                strideg == lcd_stride(pad_x as int, scale_x as int),
                heightg == lcd_height(pad_y as int, scale_y as int),
                py < rows_px,
                px <= rowstride,
                buf_len == old(pixbuf)@.len(),
                pixbuf@.len() == old(pixbuf)@.len(),
                heightg * strideg <= pixbuf@.len(),
                (py as int + 1) * strideg <= heightg * strideg,
                (py as int) * strideg + strideg == (py as int + 1) * strideg,
                forall|a: int, b: int|
                    0 <= a < py && 0 <= b < strideg ==> pixbuf@[a * strideg + b] == lcd_pixel(
                        framebuf@,
                        pad_x as int,
                        pad_y as int,
                        scale_x as int,
                        scale_y as int,
                        a,
                        b,
                    ),
                forall|b: int|
                    0 <= b < px ==> pixbuf@[(py as int) * strideg + b] == lcd_pixel(
                        framebuf@,
                        pad_x as int,
                        pad_y as int,
                        scale_x as int,
                        scale_y as int,
                        py as int,
                        b,
                    ),
                forall|idx: int|
                    (py as int) * strideg + px <= idx < pixbuf@.len() ==> pixbuf@[idx] == old(
                        pixbuf,
                    )@[idx],
            decreases rowstride - px,
        {
            let c = pixel_color(framebuf, pad_x, pad_y, scale_x, scale_y, py, px);
            proof {
                assert(forall|a: int, b: int|
                    0 <= a < py && 0 <= b < strideg ==> #[trigger] (a * strideg + b) < (
                    py as int) * strideg) by {
                    assert forall|a: int, b: int|
                        0 <= a < py && 0 <= b < strideg implies #[trigger] (a * strideg + b) < (
                    py as int) * strideg by {
                        assert((a + 1) * strideg <= (py as int) * strideg && a * strideg + strideg
                            == (a + 1) * strideg) by (nonlinear_arith)
                            requires
                                0 <= a < py,
                                strideg >= 0,
                        ;
                    }
                }
            }
            proof {
                assert((py as int) * strideg + px < heightg * strideg);
            }
            let idx = py * rowstride + px;
            pixbuf.set(idx, c);
            px += 1;
        }
        py += 1;
    }
}

} // verus!
