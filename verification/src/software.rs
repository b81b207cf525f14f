//! # Software drawing
//!
//! Drawing into a `width × height` framebuffer of `0x00RRGGBB` pixels stored row-major
//! (`index = y * width + x`): filled rectangles clipped to the buffer, and text in a 5×7 bitmap
//! font. Screen coordinates are signed; whatever falls outside the buffer is dropped.

use vstd::prelude::*;
use vstd::string::StringSliceAdditionalSpecFns;

use crate::assets::LoadedSheet;
use crate::map::{cell_index, lemma_cell_index_bounds, lemma_cell_index_injective};

verus! {

/// The buffer describes a `width × height` image whose row-major indices fit in `u32`, and
/// whose sides fit in `i32` (screen coordinates are signed).
pub open spec fn frame_ok(buffer_len: int, width: u32, height: u32) -> bool {
    &&& width * height <= buffer_len
    &&& width * height <= u32::MAX + 1
    &&& width <= i32::MAX
    &&& height <= i32::MAX
}

/// Whether `(x, y)` is a pixel of a `width × height` image.
pub open spec fn on_screen(width: u32, height: u32, x: int, y: int) -> bool {
    0 <= x < width && 0 <= y < height
}

/// `after` is `before` with each pixel `(x, y)` of the image replaced by `f(x, y)` where
/// `paint(x, y)` holds; the rest of the buffer is unchanged.
pub open spec fn painted(
    before: Seq<u32>,
    after: Seq<u32>,
    width: u32,
    height: u32,
    paint: spec_fn(int, int) -> bool,
    f: spec_fn(int, int) -> u32,
) -> bool {
    &&& after.len() == before.len()
    &&& forall|x: int, y: int|
        #![trigger after[cell_index(width as int, x, y)]]
        on_screen(width, height, x, y) ==> after[cell_index(width as int, x, y)] == if paint(x, y) {
            f(x, y)
        } else {
            before[cell_index(width as int, x, y)]
        }
    &&& forall|i: int| width * height <= i < before.len() ==> after[i] == before[i]
}

/// Set pixel `(x, y)` to `v`.
fn set_pixel(buffer: &mut [u32], width: u32, height: u32, x: u32, y: u32, v: u32)
    requires
        frame_ok(old(buffer)@.len() as int, width, height),
        x < width,
        y < height,
    ensures
        painted(
            old(buffer)@,
            final(buffer)@,
            width,
            height,
            |cx: int, cy: int| cx == x && cy == y,
            |cx: int, cy: int| v,
        ),
{
    proof {
        lemma_cell_index_bounds(width as int, height as int, x as int, y as int);
    }
    let i = (y * width + x) as usize;
    buffer[i] = v;
    proof {
        assert forall|cx: int, cy: int|
            #![trigger buffer@[cell_index(width as int, cx, cy)]]
            on_screen(width, height, cx, cy) implies buffer@[cell_index(width as int, cx, cy)] == if cx
            == x && cy == y {
            v
        } else {
            old(buffer)@[cell_index(width as int, cx, cy)]
        } by {
            lemma_cell_index_bounds(width as int, height as int, cx, cy);
            if cell_index(width as int, cx, cy) == i {
                lemma_cell_index_injective(width as int, cx, cy, x as int, y as int);
            }
        }
    }
}

fn clamp_i32(v: i32, lo: i32, hi: i32) -> (r: i32)
    requires
        lo <= hi,
    ensures
        r == if v < lo {
            lo
        } else if v > hi {
            hi
        } else {
            v
        },
{
    if v < lo {
        lo
    } else if v > hi {
        hi
    } else {
        v
    }
}

/// Fill the rectangle `[left, right) × [top, bottom)` (screen coordinates) with `color`,
/// clipped to the buffer.
pub fn fill_rect(
    buffer: &mut [u32],
    width: u32,
    height: u32,
    left: i32,
    top: i32,
    right: i32,
    bottom: i32,
    color: u32,
)
    requires
        frame_ok(old(buffer)@.len() as int, width, height),
    ensures
        painted(
            old(buffer)@,
            final(buffer)@,
            width,
            height,
            |x: int, y: int| left <= x < right && top <= y < bottom,
            |x: int, y: int| color,
        ),
{
    let ghost b0 = buffer@;
    let l = clamp_i32(left, 0, width as i32);
    let r = clamp_i32(right, 0, width as i32);
    let t = clamp_i32(top, 0, height as i32);
    let b = clamp_i32(bottom, 0, height as i32);
    let mut y = t;
    while y < b
        invariant
            frame_ok(buffer@.len() as int, width, height),
            0 <= t <= y,
            b <= height,
            0 <= l,
            r <= width,
            l == (if left < 0 { 0 } else if left > width { width as int } else { left as int }),
            r == (if right < 0 { 0 } else if right > width { width as int } else { right as int }),
            t == (if top < 0 { 0 } else if top > height { height as int } else { top as int }),
            b == (if bottom < 0 { 0 } else if bottom > height { height as int } else { bottom as int }),
            painted(
                b0,
                buffer@,
                width,
                height,
                |cx: int, cy: int| left <= cx < right && top <= cy < bottom && cy < y,
                |cx: int, cy: int| color,
            ),
        decreases b - y,
    {
        let mut x = l;
        while x < r
            invariant
                frame_ok(buffer@.len() as int, width, height),
                0 <= l <= x,
                r <= width,
                0 <= t <= y < b,
                b <= height,
                l == (if left < 0 { 0 } else if left > width { width as int } else { left as int }),
                r == (if right < 0 { 0 } else if right > width { width as int } else { right as int }),
                t == (if top < 0 { 0 } else if top > height { height as int } else { top as int }),
                b == (if bottom < 0 { 0 } else if bottom > height { height as int } else { bottom as int }),
                painted(
                    b0,
                    buffer@,
                    width,
                    height,
                    |cx: int, cy: int|
                        left <= cx < right && top <= cy < bottom && (cy < y || (cy == y && cx < x)),
                    |cx: int, cy: int| color,
                ),
            decreases r - x,
        {
            let ghost before = buffer@;
            set_pixel(buffer, width, height, x as u32, y as u32, color);
            x = x + 1;
        }
        y = y + 1;
    }
}

/// The 5×7 bitmap of byte `c`: one row per entry, top to bottom, the low 5 bits used (bit 4 is
/// the left column). Basic ASCII for dialogue; any other byte is blank.
pub open spec fn glyph_rows(c: u8) -> Seq<u8> {
    match c {
        32u8 => seq![0u8, 0, 0, 0, 0, 0, 0],  // space
        33u8 => seq![0b00100u8, 0b00100, 0b00100, 0b00100, 0b00000, 0b00100, 0b00100],  // !
        39u8 => seq![0b00100u8, 0b00100, 0b00000, 0b00000, 0b00000, 0b00000, 0b00000],  // quote
        46u8 => seq![0b00000u8, 0b00000, 0b00000, 0b00000, 0b00000, 0b00100, 0b00100],  // .
        65u8 => seq![0b01110u8, 0b10001, 0b10001, 0b11111, 0b10001, 0b10001, 0b10001],  // A
        66u8 => seq![0b11110u8, 0b10001, 0b11110, 0b10001, 0b10001, 0b10001, 0b11110],  // B
        68u8 => seq![0b11110u8, 0b10001, 0b10001, 0b10001, 0b10001, 0b10001, 0b11110],  // D
        69u8 => seq![0b11111u8, 0b10000, 0b11110, 0b10000, 0b10000, 0b10000, 0b11111],  // E
        70u8 => seq![0b11111u8, 0b10000, 0b11110, 0b10000, 0b10000, 0b10000, 0b10000],  // F
        71u8 => seq![0b01110u8, 0b10001, 0b10000, 0b10111, 0b10001, 0b10001, 0b01111],  // G
        72u8 => seq![0b10001u8, 0b10001, 0b11111, 0b10001, 0b10001, 0b10001, 0b10001],  // H
        73u8 => seq![0b01110u8, 0b00100, 0b00100, 0b00100, 0b00100, 0b00100, 0b01110],  // I
        78u8 => seq![0b10001u8, 0b11001, 0b10101, 0b10011, 0b10001, 0b10001, 0b10001],  // N
        79u8 => seq![0b01110u8, 0b10001, 0b10001, 0b10001, 0b10001, 0b10001, 0b01110],  // O
        84u8 => seq![0b11111u8, 0b00100, 0b00100, 0b00100, 0b00100, 0b00100, 0b00100],  // T
        85u8 => seq![0b10001u8, 0b10001, 0b10001, 0b10001, 0b10001, 0b10001, 0b01110],  // U
        97u8 => seq![0b00000u8, 0b01110, 0b00001, 0b01111, 0b10001, 0b10001, 0b01111],  // a
        98u8 => seq![0b10000u8, 0b10000, 0b11110, 0b10001, 0b10001, 0b10001, 0b11110],  // b
        100u8 => seq![0b00001u8, 0b00001, 0b01111, 0b10001, 0b10001, 0b10001, 0b01111],  // d
        101u8 => seq![0b00000u8, 0b00000, 0b01110, 0b10001, 0b11111, 0b10000, 0b01110],  // e
        102u8 => seq![0b00110u8, 0b01001, 0b01000, 0b11100, 0b01000, 0b01000, 0b01000],  // f
        103u8 => seq![0b00000u8, 0b01111, 0b10001, 0b01111, 0b00001, 0b10001, 0b01110],  // g
        104u8 => seq![0b10000u8, 0b10000, 0b10110, 0b11001, 0b10001, 0b10001, 0b10001],  // h
        105u8 => seq![0b00100u8, 0b00000, 0b01100, 0b00100, 0b00100, 0b00100, 0b01110],  // i
        108u8 => seq![0b01100u8, 0b00100, 0b00100, 0b00100, 0b00100, 0b00100, 0b01110],  // l
        110u8 => seq![0b00000u8, 0b00000, 0b10110, 0b11001, 0b10001, 0b10001, 0b10001],  // n
        111u8 => seq![0b00000u8, 0b00000, 0b01110, 0b10001, 0b10001, 0b10001, 0b01110],  // o
        114u8 => seq![0b00000u8, 0b00000, 0b10110, 0b11001, 0b10000, 0b10000, 0b10000],  // r
        115u8 => seq![0b00000u8, 0b00000, 0b01111, 0b10000, 0b01110, 0b00001, 0b11110],  // s
        116u8 => seq![0b01000u8, 0b01000, 0b11100, 0b01000, 0b01000, 0b01001, 0b00110],  // t
        117u8 => seq![0b00000u8, 0b00000, 0b10001, 0b10001, 0b10001, 0b10011, 0b01101],  // u
        118u8 => seq![0b00000u8, 0b00000, 0b10001, 0b10001, 0b10001, 0b01010, 0b00100],  // v
        119u8 => seq![0b00000u8, 0b00000, 0b10001, 0b10001, 0b10101, 0b10101, 0b01010],  // w
        _ => seq![0u8, 0, 0, 0, 0, 0, 0],
    }
}

/// The 5×7 bitmap of byte `c`.
pub fn glyph(c: u8) -> (r: [u8; 7])
    ensures
        r@ == glyph_rows(c),
{
    let g: [u8; 7] = match c {
        32u8 => [0, 0, 0, 0, 0, 0, 0],  // space
        33u8 => [0b00100, 0b00100, 0b00100, 0b00100, 0b00000, 0b00100, 0b00100],  // !
        39u8 => [0b00100, 0b00100, 0b00000, 0b00000, 0b00000, 0b00000, 0b00000],  // quote
        46u8 => [0b00000, 0b00000, 0b00000, 0b00000, 0b00000, 0b00100, 0b00100],  // .
        65u8 => [0b01110, 0b10001, 0b10001, 0b11111, 0b10001, 0b10001, 0b10001],  // A
        66u8 => [0b11110, 0b10001, 0b11110, 0b10001, 0b10001, 0b10001, 0b11110],  // B
        68u8 => [0b11110, 0b10001, 0b10001, 0b10001, 0b10001, 0b10001, 0b11110],  // D
        69u8 => [0b11111, 0b10000, 0b11110, 0b10000, 0b10000, 0b10000, 0b11111],  // E
        70u8 => [0b11111, 0b10000, 0b11110, 0b10000, 0b10000, 0b10000, 0b10000],  // F
        71u8 => [0b01110, 0b10001, 0b10000, 0b10111, 0b10001, 0b10001, 0b01111],  // G
        72u8 => [0b10001, 0b10001, 0b11111, 0b10001, 0b10001, 0b10001, 0b10001],  // H
        73u8 => [0b01110, 0b00100, 0b00100, 0b00100, 0b00100, 0b00100, 0b01110],  // I
        78u8 => [0b10001, 0b11001, 0b10101, 0b10011, 0b10001, 0b10001, 0b10001],  // N
        79u8 => [0b01110, 0b10001, 0b10001, 0b10001, 0b10001, 0b10001, 0b01110],  // O
        84u8 => [0b11111, 0b00100, 0b00100, 0b00100, 0b00100, 0b00100, 0b00100],  // T
        85u8 => [0b10001, 0b10001, 0b10001, 0b10001, 0b10001, 0b10001, 0b01110],  // U
        97u8 => [0b00000, 0b01110, 0b00001, 0b01111, 0b10001, 0b10001, 0b01111],  // a
        98u8 => [0b10000, 0b10000, 0b11110, 0b10001, 0b10001, 0b10001, 0b11110],  // b
        100u8 => [0b00001, 0b00001, 0b01111, 0b10001, 0b10001, 0b10001, 0b01111],  // d
        101u8 => [0b00000, 0b00000, 0b01110, 0b10001, 0b11111, 0b10000, 0b01110],  // e
        102u8 => [0b00110, 0b01001, 0b01000, 0b11100, 0b01000, 0b01000, 0b01000],  // f
        103u8 => [0b00000, 0b01111, 0b10001, 0b01111, 0b00001, 0b10001, 0b01110],  // g
        104u8 => [0b10000, 0b10000, 0b10110, 0b11001, 0b10001, 0b10001, 0b10001],  // h
        105u8 => [0b00100, 0b00000, 0b01100, 0b00100, 0b00100, 0b00100, 0b01110],  // i
        108u8 => [0b01100, 0b00100, 0b00100, 0b00100, 0b00100, 0b00100, 0b01110],  // l
        110u8 => [0b00000, 0b00000, 0b10110, 0b11001, 0b10001, 0b10001, 0b10001],  // n
        111u8 => [0b00000, 0b00000, 0b01110, 0b10001, 0b10001, 0b10001, 0b01110],  // o
        114u8 => [0b00000, 0b00000, 0b10110, 0b11001, 0b10000, 0b10000, 0b10000],  // r
        115u8 => [0b00000, 0b00000, 0b01111, 0b10000, 0b01110, 0b00001, 0b11110],  // s
        116u8 => [0b01000, 0b01000, 0b11100, 0b01000, 0b01000, 0b01001, 0b00110],  // t
        117u8 => [0b00000, 0b00000, 0b10001, 0b10001, 0b10001, 0b10011, 0b01101],  // u
        118u8 => [0b00000, 0b00000, 0b10001, 0b10001, 0b10001, 0b01010, 0b00100],  // v
        119u8 => [0b00000, 0b00000, 0b10001, 0b10001, 0b10101, 0b10101, 0b01010],  // w
        _ => [0, 0, 0, 0, 0, 0, 0],
    };
    assert(g@ =~= glyph_rows(c));
    g
}

/// Whether the glyph of `c` has its pixel at `row`, `col` set.
pub open spec fn glyph_on(c: u8, row: int, col: int) -> bool {
    0 <= row < 7 && 0 <= col < 5 && (glyph_rows(c)[row] >> ((4 - col) as u8)) & 1u8 != 0
}

/// Whether text `bytes` drawn from `(x0, y0)` sets pixel `(px, py)`: glyphs are 6 pixels apart.
pub open spec fn text_covers(bytes: Seq<u8>, x0: int, y0: int, px: int, py: int) -> bool {
    let dx = px - x0;
    dx >= 0 && dx / 6 < bytes.len() && glyph_on(bytes[dx / 6], py - y0, dx % 6)
}

/// Whether glyph `i` of `bytes`, drawn from `(x0, y0)`, sets pixel `(px, py)` within its first
/// `rows` rows and the first `cols` columns of row `rows`.
pub open spec fn glyph_part_covers(
    bytes: Seq<u8>,
    i: int,
    x0: int,
    y0: int,
    px: int,
    py: int,
    rows: int,
    cols: int,
) -> bool {
    let col = px - x0 - 6 * i;
    let row = py - y0;
    glyph_on(bytes[i], row, col) && (row < rows || (row == rows && col < cols))
}

proof fn lemma_text_covers_step(bytes: Seq<u8>, x0: int, y0: int, px: int, py: int, i: int)
    requires
        0 <= i < bytes.len(),
    ensures
        text_covers(bytes.take(i + 1), x0, y0, px, py) == (text_covers(bytes.take(i), x0, y0, px, py)
            || glyph_part_covers(bytes, i, x0, y0, px, py, 7, 0)),
{
    let dx = px - x0;
    if dx >= 0 {
        vstd::arithmetic::div_mod::lemma_fundamental_div_mod(dx, 6);
        if 0 <= dx - 6 * i < 6 {
            vstd::arithmetic::div_mod::lemma_fundamental_div_mod_converse(dx, 6, i, dx - 6 * i);
        }
        if dx / 6 == i {
            assert(dx - 6 * i == dx % 6);
        }
    }
}

/// Draw `text` in the 5×7 font with its top-left at `(x, y)`, one glyph every 6 pixels;
/// glyph pixels outside the buffer are dropped.
pub fn draw_text(buffer: &mut [u32], width: u32, height: u32, x: i32, y: i32, text: &str, color: u32)
    requires
        frame_ok(old(buffer)@.len() as int, width, height),
        x + 6 * text.spec_bytes().len() <= i32::MAX,
        y + 7 <= i32::MAX,
    ensures
        painted(
            old(buffer)@,
            final(buffer)@,
            width,
            height,
            |px: int, py: int| text_covers(text.spec_bytes(), x as int, y as int, px, py),
            |px: int, py: int| color,
        ),
{
    let ghost b0 = buffer@;
    let bytes = text.as_bytes();
    let ghost bs = bytes@;
    let mut gx = x;
    let mut i: usize = 0;
    assert(bs.take(0).len() == 0);
    while i < bytes.len()
        invariant
            bs == bytes@,
            bs == text.spec_bytes(),
            i <= bs.len(),
            gx == x + 6 * i,
            x + 6 * bs.len() <= i32::MAX,
            y + 7 <= i32::MAX,
            frame_ok(buffer@.len() as int, width, height),
            painted(
                b0,
                buffer@,
                width,
                height,
                |px: int, py: int| text_covers(bs.take(i as int), x as int, y as int, px, py),
                |px: int, py: int| color,
            ),
        decreases bs.len() - i,
    {
        let g = glyph(bytes[i]);
        let ghost before = buffer@;
        let mut row: i32 = 0;
        while row < 7
            invariant
                bs == bytes@,
                i < bs.len(),
                g@ == glyph_rows(bs[i as int]),
                0 <= row <= 7,
                gx == x + 6 * i,
                x + 6 * bs.len() <= i32::MAX,
                y + 7 <= i32::MAX,
                frame_ok(buffer@.len() as int, width, height),
                painted(
                    before,
                    buffer@,
                    width,
                    height,
                    |px: int, py: int| glyph_part_covers(bs, i as int, x as int, y as int, px, py, row as int, 0),
                    |px: int, py: int| color,
                ),
            decreases 7 - row,
        {
            let sy = y + row;
            let bits = g[row as usize];
            let mut col: i32 = 0;
            while col < 5
                invariant
                    bs == bytes@,
                    i < bs.len(),
                    g@ == glyph_rows(bs[i as int]),
                    bits == glyph_rows(bs[i as int])[row as int],
                    0 <= row < 7,
                    sy == y + row,
                    0 <= col <= 5,
                    gx == x + 6 * i,
                    x + 6 * bs.len() <= i32::MAX,
                    y + 7 <= i32::MAX,
                    frame_ok(buffer@.len() as int, width, height),
                    painted(
                        before,
                        buffer@,
                        width,
                        height,
                        |px: int, py: int|
                            glyph_part_covers(bs, i as int, x as int, y as int, px, py, row as int, col as int),
                        |px: int, py: int| color,
                    ),
                decreases 5 - col,
            {
                if (bits >> ((4 - col) as u8)) & 1u8 != 0 {
                    let sx = gx + col;
                    if sx >= 0 && sy >= 0 && sx < width as i32 && sy < height as i32 {
                        set_pixel(buffer, width, height, sx as u32, sy as u32, color);
                    }
                }
                col = col + 1;
            }
            row = row + 1;
        }
        proof {
            assert forall|px: int, py: int| true implies text_covers(bs.take(i + 1), x as int, y as int, px, py)
                == (text_covers(bs.take(i as int), x as int, y as int, px, py)
                || glyph_part_covers(bs, i as int, x as int, y as int, px, py, 7, 0)) by {
                lemma_text_covers_step(bs, x as int, y as int, px, py, i as int);
                assert(bs.take(i + 1)[i as int] == bs[i as int]);
            }
        }
        gx = gx + 6;
        i = i + 1;
    }
    assert(bs.take(bs.len() as int) =~= bs);
}

/// Draw a single line of text at `(x, y)`.
pub fn draw_label(buffer: &mut [u32], width: u32, height: u32, x: i32, y: i32, text: &str, color: u32)
    requires
        frame_ok(old(buffer)@.len() as int, width, height),
        x + 6 * text.spec_bytes().len() <= i32::MAX,
        y + 7 <= i32::MAX,
    ensures
        painted(
            old(buffer)@,
            final(buffer)@,
            width,
            height,
            |px: int, py: int| text_covers(text.spec_bytes(), x as int, y as int, px, py),
            |px: int, py: int| color,
        ),
{
    draw_text(buffer, width, height, x, y, text, color);
}

/// Draw a panel: the filled rectangle, then a `border_top_px` strip of `border_color` along its
/// top when that is positive.
pub fn draw_panel(
    buffer: &mut [u32],
    width: u32,
    height: u32,
    left: i32,
    top: i32,
    right: i32,
    bottom: i32,
    fill_color: u32,
    border_color: u32,
    border_top_px: i32,
)
    requires
        frame_ok(old(buffer)@.len() as int, width, height),
        border_top_px > 0 ==> top + border_top_px <= i32::MAX,
    ensures
        painted(
            old(buffer)@,
            final(buffer)@,
            width,
            height,
            |x: int, y: int| left <= x < right && top <= y < bottom || (border_top_px > 0 && left <= x < right && top <= y < top + border_top_px),
            |x: int, y: int| if border_top_px > 0 && top <= y < top + border_top_px { border_color } else { fill_color },
        ),
{
    fill_rect(buffer, width, height, left, top, right, bottom, fill_color);
    if border_top_px > 0 {
        fill_rect(buffer, width, height, left, top, right, top + border_top_px, border_color);
    }
}

/// The source offset for destination offset `d` when `src` source pixels are stretched over
/// `dest` destination pixels: `d * src / dest`, at most `src - 1` (0 for an empty source).
pub open spec fn src_offset(src: u32, dest: i32, d: int) -> int {
    let o = (d * src) / (dest as int);
    let last = if src >= 1 { src - 1 } else { 0 };
    if o < last {
        o
    } else {
        last
    }
}

/// The sheet pixel index that destination offset `(dx, dy)` samples.
pub open spec fn blit_index(
    sheet: LoadedSheet,
    src_x: u32,
    src_y: u32,
    src_w: u32,
    src_h: u32,
    dest_w: i32,
    dest_h: i32,
    dx: int,
    dy: int,
) -> int {
    (src_y + src_offset(src_h, dest_h, dy)) * sheet.width + (src_x + src_offset(src_w, dest_w, dx))
}

/// The source pixel for destination offset `(dx, dy)`.
pub open spec fn blit_pixel(
    sheet: LoadedSheet,
    src_x: u32,
    src_y: u32,
    src_w: u32,
    src_h: u32,
    dest_w: i32,
    dest_h: i32,
    dx: int,
    dy: int,
) -> u32 {
    sheet.pixels@[blit_index(sheet, src_x, src_y, src_w, src_h, dest_w, dest_h, dx, dy)]
}

proof fn lemma_src_offset_monotone(src: u32, dest: i32, d1: int, d2: int)
    requires
        dest > 0,
        0 <= d1 <= d2,
    ensures
        0 <= src_offset(src, dest, d1) <= src_offset(src, dest, d2),
{
    assert(d1 * src <= d2 * src) by (nonlinear_arith)
        requires
            0 <= d1 <= d2,
            src >= 0,
    ;
    assert(0 <= d1 * src) by (nonlinear_arith)
        requires
            0 <= d1,
            src >= 0,
    ;
    vstd::arithmetic::div_mod::lemma_div_is_ordered(d1 * src, d2 * src, dest as int);
    vstd::arithmetic::div_mod::lemma_div_is_ordered(0, d1 * src, dest as int);
}

/// Copy a `src_w × src_h` region of `sheet` at `(src_x, src_y)`, stretched to `dest_w ×
/// dest_h` with its top-left at `(dest_left, dest_top)` on screen. Transparent (0) pixels are
/// skipped; pixels outside the buffer are dropped. Nothing happens for an empty destination.
///
/// The largest sheet index sampled (at the bottom-right of the destination) must be a pixel of
/// the sheet, and the stretching arithmetic stays in `u32` / `i32`.
pub fn blit_sheet(
    buffer: &mut [u32],
    buf_w: u32,
    buf_h: u32,
    sheet: &LoadedSheet,
    src_x: u32,
    src_y: u32,
    src_w: u32,
    src_h: u32,
    dest_left: i32,
    dest_top: i32,
    dest_w: i32,
    dest_h: i32,
)
    requires
        frame_ok(old(buffer)@.len() as int, buf_w, buf_h),
        dest_w > 0 && dest_h > 0 ==> {
            &&& (dest_w - 1) * src_w <= u32::MAX
            &&& (dest_h - 1) * src_h <= u32::MAX
            &&& src_x + src_offset(src_w, dest_w, dest_w - 1) <= u32::MAX
            &&& src_y + src_offset(src_h, dest_h, dest_h - 1) <= u32::MAX
            &&& (src_y + src_offset(src_h, dest_h, dest_h - 1)) * sheet.width <= u32::MAX
            &&& blit_index(*sheet, src_x, src_y, src_w, src_h, dest_w, dest_h, dest_w - 1, dest_h - 1)
                <= u32::MAX
            &&& blit_index(*sheet, src_x, src_y, src_w, src_h, dest_w, dest_h, dest_w - 1, dest_h - 1)
                < sheet.pixels@.len()
            &&& dest_left + dest_w <= i32::MAX
            &&& dest_top + dest_h <= i32::MAX
        },
    ensures
        dest_w <= 0 || dest_h <= 0 ==> final(buffer)@ == old(buffer)@,
        painted(
            old(buffer)@,
            final(buffer)@,
            buf_w,
            buf_h,
            |bx: int, by: int|
                0 <= bx - dest_left < dest_w && 0 <= by - dest_top < dest_h && blit_pixel(
                    *sheet,
                    src_x,
                    src_y,
                    src_w,
                    src_h,
                    dest_w,
                    dest_h,
                    bx - dest_left,
                    by - dest_top,
                ) != 0,
            |bx: int, by: int|
                blit_pixel(*sheet, src_x, src_y, src_w, src_h, dest_w, dest_h, bx - dest_left, by - dest_top),
        ),
{
    let ghost b0 = buffer@;
    if dest_w <= 0 || dest_h <= 0 {
        return;
    }
    let last_col = if src_w >= 1 { src_w - 1 } else { 0 };
    let last_row = if src_h >= 1 { src_h - 1 } else { 0 };
    let mut dy: i32 = 0;
    while dy < dest_h
        invariant
            frame_ok(buffer@.len() as int, buf_w, buf_h),
            0 <= dy <= dest_h,
            dest_w > 0 && dest_h > 0,
            (dest_w - 1) * src_w <= u32::MAX,
            (dest_h - 1) * src_h <= u32::MAX,
            src_x + src_offset(src_w, dest_w, dest_w - 1) <= u32::MAX,
            src_y + src_offset(src_h, dest_h, dest_h - 1) <= u32::MAX,
            (src_y + src_offset(src_h, dest_h, dest_h - 1)) * sheet.width <= u32::MAX,
            blit_index(*sheet, src_x, src_y, src_w, src_h, dest_w, dest_h, dest_w - 1, dest_h - 1)
                <= u32::MAX,
            blit_index(*sheet, src_x, src_y, src_w, src_h, dest_w, dest_h, dest_w - 1, dest_h - 1)
                < sheet.pixels@.len(),
            dest_left + dest_w <= i32::MAX,
            dest_top + dest_h <= i32::MAX,
            last_col == (if src_w >= 1 { src_w - 1 } else { 0 }),
            last_row == (if src_h >= 1 { src_h - 1 } else { 0 }),
            painted(
                b0,
                buffer@,
                buf_w,
                buf_h,
                |bx: int, by: int| 0 <= bx - dest_left < dest_w && 0 <= by - dest_top < dest_h && blit_pixel(*sheet, src_x, src_y, src_w, src_h, dest_w, dest_h, bx - dest_left, by - dest_top) != 0 && by - dest_top < dy,
                |bx: int, by: int| blit_pixel(*sheet, src_x, src_y, src_w, src_h, dest_w, dest_h, bx - dest_left, by - dest_top),
            ),
        decreases dest_h - dy,
    {
        let mut dx: i32 = 0;
        while dx < dest_w
            invariant
                frame_ok(buffer@.len() as int, buf_w, buf_h),
                0 <= dy < dest_h,
                0 <= dx <= dest_w,
                dest_w > 0 && dest_h > 0,
                (dest_w - 1) * src_w <= u32::MAX,
                (dest_h - 1) * src_h <= u32::MAX,
                src_x + src_offset(src_w, dest_w, dest_w - 1) <= u32::MAX,
                src_y + src_offset(src_h, dest_h, dest_h - 1) <= u32::MAX,
                (src_y + src_offset(src_h, dest_h, dest_h - 1)) * sheet.width <= u32::MAX,
                blit_index(*sheet, src_x, src_y, src_w, src_h, dest_w, dest_h, dest_w - 1, dest_h - 1)
                    <= u32::MAX,
                blit_index(*sheet, src_x, src_y, src_w, src_h, dest_w, dest_h, dest_w - 1, dest_h - 1)
                    < sheet.pixels@.len(),
                dest_left + dest_w <= i32::MAX,
                dest_top + dest_h <= i32::MAX,
                last_col == (if src_w >= 1 { src_w - 1 } else { 0 }),
                last_row == (if src_h >= 1 { src_h - 1 } else { 0 }),
                painted(
                    b0,
                    buffer@,
                    buf_w,
                    buf_h,
                    |bx: int, by: int|
                        0 <= bx - dest_left < dest_w && 0 <= by - dest_top < dest_h && blit_pixel(*sheet, src_x, src_y, src_w, src_h, dest_w, dest_h, bx - dest_left, by - dest_top) != 0 && (by - dest_top < dy || (by - dest_top == dy && bx - dest_left < dx)),
                    |bx: int, by: int| blit_pixel(*sheet, src_x, src_y, src_w, src_h, dest_w, dest_h, bx - dest_left, by - dest_top),
                ),
            decreases dest_w - dx,
        {
            proof {
                lemma_src_offset_monotone(src_w, dest_w, dx as int, (dest_w - 1) as int);
                lemma_src_offset_monotone(src_h, dest_h, dy as int, (dest_h - 1) as int);
                assert((dx as int) * src_w <= (dest_w - 1) * src_w) by (nonlinear_arith)
                    requires
                        0 <= dx < dest_w,
                ;
                assert((dy as int) * src_h <= (dest_h - 1) * src_h) by (nonlinear_arith)
                    requires
                        0 <= dy < dest_h,
                ;
                let sy = src_y + src_offset(src_h, dest_h, dy as int);
                let sy_max = src_y + src_offset(src_h, dest_h, dest_h - 1);
                assert(sy * sheet.width <= sy_max * sheet.width) by (nonlinear_arith)
                    requires
                        0 <= sy <= sy_max,
                ;
            }
            let col = (dx as u32) * src_w / (dest_w as u32);
            let col = if col < last_col { col } else { last_col };
            let row = (dy as u32) * src_h / (dest_h as u32);
            let row = if row < last_row { row } else { last_row };
            let sx = src_x + col;
            let sy = src_y + row;
            let pixel = sheet.pixels[(sy * sheet.width + sx) as usize];
            assert(pixel == blit_pixel(*sheet, src_x, src_y, src_w, src_h, dest_w, dest_h, dx as int, dy as int));
            if pixel != 0 {
                let bx = dest_left + dx;
                let by = dest_top + dy;
                if bx >= 0 && bx < buf_w as i32 && by >= 0 && by < buf_h as i32 {
                    set_pixel(buffer, buf_w, buf_h, bx as u32, by as u32, pixel);
                }
            }
            dx = dx + 1;
        }
        dy = dy + 1;
    }
}

} // verus!
