//! # Glyph atlas packing
//!
//! Glyph bitmaps are packed into a square RGBA atlas texture on shelves: left to right along
//! the current row, a new row below the tallest glyph of the row when one does not fit, and
//! "full" when it does not fit below either. Each glyph keeps a 1 px gutter to its right and
//! below. Rasterising glyphs (the font crate) and uploading to the GPU are the binary's part.

use vstd::prelude::*;

verus! {

/// Side of the square atlas, in pixels.
pub const UI_FONT_ATLAS_DIM: u32 = 1024;

/// Where the next glyph goes: the pen on the current row, and the row's height so far.
#[derive(Clone, Copy, Debug)]
pub struct GlyphShelf {
    pub pen_x: u32,
    pub pen_y: u32,
    pub row_h: u32,
}

/// The pen stays on the atlas's width and the row is no taller than the atlas; a row started
/// below a full atlas is empty, so the pen ends at most one atlas height further down.
pub open spec fn shelf_wf(s: GlyphShelf) -> bool {
    &&& s.pen_x <= UI_FONT_ATLAS_DIM
    &&& s.row_h <= UI_FONT_ATLAS_DIM
    &&& s.pen_y + s.row_h <= 2 * UI_FONT_ATLAS_DIM
}

/// The shelf after asking for a `w × h` glyph, and the glyph's top-left corner, if it fits.
pub open spec fn alloc_view(s: GlyphShelf, w: u32, h: u32) -> (GlyphShelf, Option<(u32, u32)>) {
    let dim = UI_FONT_ATLAS_DIM;
    if w == 0 || h == 0 {
        (s, Some((0u32, 0u32)))
    } else if w + 1 > dim || h + 1 > dim {
        (s, None)
    } else {
        let s1 = if s.pen_x + w + 1 > dim {
            GlyphShelf { pen_x: 0, pen_y: (s.pen_y + s.row_h) as u32, row_h: 0 }
        } else {
            s
        };
        if s1.pen_y + h + 1 > dim {
            (s1, None)
        } else {
            (
                GlyphShelf {
                    pen_x: (s1.pen_x + w + 1) as u32,
                    pen_y: s1.pen_y,
                    row_h: if s1.row_h < h + 1 {
                        (h + 1) as u32
                    } else {
                        s1.row_h
                    },
                },
                Some((s1.pen_x, s1.pen_y)),
            )
        }
    }
}

impl GlyphShelf {
    /// The shelf of an empty atlas.
    pub open spec fn empty() -> GlyphShelf {
        GlyphShelf { pen_x: 0, pen_y: 0, row_h: 0 }
    }

    /// An empty atlas.
    pub fn new() -> (r: Self)
        ensures
            r == GlyphShelf::empty(),
    {
        GlyphShelf { pen_x: 0, pen_y: 0, row_h: 0 }
    }

    /// Allocate `w × h` pixels plus a 1 px gutter: the top-left corner in the atlas, or `None`
    /// when the atlas is full (a new row may have been started). An empty glyph takes no
    /// space and sits at `(0, 0)`.
    pub fn place(&mut self, w: u32, h: u32) -> (r: Option<(u32, u32)>)
        requires
            shelf_wf(*old(self)),
            w < u32::MAX,
            h < u32::MAX,
        ensures
            (*final(self), r) == alloc_view(*old(self), w, h),
            shelf_wf(*final(self)),
            w > 0 && h > 0 ==> (r matches Some((ox, oy)) ==> ox + w + 1 <= UI_FONT_ATLAS_DIM && oy + h + 1
                <= UI_FONT_ATLAS_DIM),
    {
        if w == 0 || h == 0 {
            return Some((0, 0));
        }
        let gw = w + 1;
        let gh = h + 1;
        if gw > UI_FONT_ATLAS_DIM || gh > UI_FONT_ATLAS_DIM {
            return None;
        }
        if self.pen_x + gw > UI_FONT_ATLAS_DIM {
            self.pen_x = 0;
            self.pen_y = self.pen_y + self.row_h;
            self.row_h = 0;
        }
        if self.pen_y + gh > UI_FONT_ATLAS_DIM {
            return None;
        }
        let ox = self.pen_x;
        let oy = self.pen_y;
        self.pen_x = self.pen_x + gw;
        if self.row_h < gh {
            self.row_h = gh;
        }
        Some((ox, oy))
    }

    /// Place a glyph; when the atlas is full, start over from an empty atlas and try once
    /// more. The flag says whether the atlas was emptied, so that the caller clears its pixels
    /// and its glyph cache.
    pub fn place_or_reset(&mut self, w: u32, h: u32) -> (r: (Option<(u32, u32)>, bool))
        requires
            shelf_wf(*old(self)),
            w < u32::MAX,
            h < u32::MAX,
        ensures
            shelf_wf(*final(self)),
            alloc_view(*old(self), w, h).1 is Some ==> r == (alloc_view(*old(self), w, h).1, false)
                && *final(self) == alloc_view(*old(self), w, h).0,
            alloc_view(*old(self), w, h).1 is None ==> r == (alloc_view(GlyphShelf::empty(), w, h).1, true)
                && *final(self) == alloc_view(GlyphShelf::empty(), w, h).0,
    {
        match self.place(w, h) {
            Some(p) => (Some(p), false),
            None => {
                *self = GlyphShelf::new();
                let p = self.place(w, h);
                (p, true)
            },
        }
    }
}

/// A placed glyph with its gutter: left, top, width, height in atlas pixels.
pub struct GlyphRect {
    pub x: int,
    pub y: int,
    pub w: int,
    pub h: int,
}

/// Two rectangles share no pixel.
pub open spec fn disjoint(a: GlyphRect, b: GlyphRect) -> bool {
    a.x + a.w <= b.x || b.x + b.w <= a.x || a.y + a.h <= b.y || b.y + b.h <= a.y
}

/// Where everything placed so far lies relative to the shelf: above the current row, or on
/// it to the left of the pen, and never below the row.
pub open spec fn behind_pen(s: GlyphShelf, r: GlyphRect) -> bool {
    &&& r.y + r.h <= s.pen_y + s.row_h
    &&& (r.y + r.h <= s.pen_y || r.x + r.w <= s.pen_x)
}

/// Glyphs never overlap in the atlas: a glyph placed on a shelf behind whose pen every earlier
/// glyph lies (an empty atlas has none) shares no pixel with any of them, and afterwards all of
/// them and the new one lie behind the new pen. By induction every glyph placed since the
/// atlas was last emptied is disjoint from every other.
pub proof fn law_placements_disjoint(s: GlyphShelf, w: u32, h: u32, placed: Seq<GlyphRect>)
    requires
        shelf_wf(s),
        w > 0,
        h > 0,
        forall|i: int| 0 <= i < placed.len() ==> behind_pen(s, #[trigger] placed[i]),
    ensures
        alloc_view(s, w, h).1 matches Some((ox, oy)) ==> {
            let g = GlyphRect { x: ox as int, y: oy as int, w: w + 1, h: h + 1 };
            &&& forall|i: int| 0 <= i < placed.len() ==> disjoint(g, #[trigger] placed[i])
            &&& behind_pen(alloc_view(s, w, h).0, g)
            &&& forall|i: int| 0 <= i < placed.len() ==> behind_pen(alloc_view(s, w, h).0, #[trigger] placed[i])
        },
{
}

/// Copy an 8-bit coverage bitmap `bmp` of `gw × gh` pixels into the RGBA atlas `data` at
/// `(ox, oy)`, each coverage value into all four channels.
pub fn blit_coverage(data: &mut Vec<u8>, ox: u32, oy: u32, gw: u32, gh: u32, bmp: &[u8])
    requires
        old(data)@.len() == 4 * UI_FONT_ATLAS_DIM * UI_FONT_ATLAS_DIM,
        ox + gw <= UI_FONT_ATLAS_DIM,
        oy + gh <= UI_FONT_ATLAS_DIM,
        gw * gh <= bmp@.len(),
    ensures
        final(data)@.len() == old(data)@.len(),
        forall|i: int|
            0 <= i < old(data)@.len() ==> #[trigger] final(data)@[i] == {
                let p = i / 4;
                let px = p % (UI_FONT_ATLAS_DIM as int);
                let py = p / (UI_FONT_ATLAS_DIM as int);
                if ox <= px < ox + gw && oy <= py < oy + gh {
                    bmp@[(py - oy) * gw + (px - ox)]
                } else {
                    old(data)@[i]
                }
            },
{
    let ghost d0 = data@;
    let dim = UI_FONT_ATLAS_DIM;
    let mut row: u32 = 0;
    while row < gh
        invariant
            data@.len() == d0.len(),
            d0.len() == 4 * dim * dim,
            dim == UI_FONT_ATLAS_DIM,
            ox + gw <= dim,
            oy + gh <= dim,
            gw * gh <= bmp@.len(),
            row <= gh,
            forall|i: int|
                0 <= i < d0.len() ==> #[trigger] data@[i] == {
                    let p = i / 4;
                    let px = p % (dim as int);
                    let py = p / (dim as int);
                    if ox <= px < ox + gw && oy <= py < oy + row {
                        bmp@[(py - oy) * gw + (px - ox)]
                    } else {
                        d0[i]
                    }
                },
        decreases gh - row,
    {
        let mut col: u32 = 0;
        while col < gw
            invariant
                data@.len() == d0.len(),
                d0.len() == 4 * dim * dim,
                dim == UI_FONT_ATLAS_DIM,
                ox + gw <= dim,
                oy + gh <= dim,
                gw * gh <= bmp@.len(),
                row < gh,
                col <= gw,
                forall|i: int|
                    0 <= i < d0.len() ==> #[trigger] data@[i] == {
                        let p = i / 4;
                        let px = p % (dim as int);
                        let py = p / (dim as int);
                        if ox <= px < ox + gw && ((oy <= py < oy + row) || (py == oy + row && px < ox + col)) {
                            bmp@[(py - oy) * gw + (px - ox)]
                        } else {
                            d0[i]
                        }
                    },
            decreases gw - col,
        {
            proof {
                assert(row * gw + col < gw * gh) by (nonlinear_arith)
                    requires
                        row < gh,
                        col < gw,
                ;
                assert(gw * gh <= 1024 * 1024) by (nonlinear_arith)
                    requires
                        gw <= 1024,
                        gh <= 1024,
                ;
            }
            let v = bmp[(row * gw + col) as usize];
            let px = ox + col;
            let py = oy + row;
            proof {
                assert(py * dim + px < dim * dim) by (nonlinear_arith)
                    requires
                        px < dim,
                        py < dim,
                ;
            }
            let base = ((py * dim + px) * 4) as usize;
            let ghost before = data@;
            data.set(base, v);
            data.set(base + 1, v);
            data.set(base + 2, v);
            data.set(base + 3, v);
            proof {
                assert forall|i: int| 0 <= i < d0.len() implies #[trigger] data@[i] == {
                    let p = i / 4;
                    let qx = p % (dim as int);
                    let qy = p / (dim as int);
                    if ox <= qx < ox + gw && ((oy <= qy < oy + row) || (qy == oy + row && qx < ox
                        + col + 1)) {
                        bmp@[(qy - oy) * gw + (qx - ox)]
                    } else {
                        d0[i]
                    }
                } by {
                    let p = i / 4;
                    let qx = p % (dim as int);
                    let qy = p / (dim as int);
                    vstd::arithmetic::div_mod::lemma_fundamental_div_mod(i, 4);
                    vstd::arithmetic::div_mod::lemma_fundamental_div_mod(p, dim as int);
                    if base <= i < base + 4 {
                        vstd::arithmetic::div_mod::lemma_fundamental_div_mod_converse(
                            i,
                            4,
                            py * dim + px,
                            i - base,
                        );
                        vstd::arithmetic::div_mod::lemma_fundamental_div_mod_converse(
                            py * dim + px,
                            dim as int,
                            py as int,
                            px as int,
                        );
                    } else {
                        assert(data@[i] == before[i]);
                        if qx == px && qy == py {
                            assert(p == py * dim + px) by (nonlinear_arith)
                                requires
                                    p == (dim as int) * (p / (dim as int)) + p % (dim as int),
                                    qx == p % (dim as int),
                                    qy == p / (dim as int),
                                    qx == px,
                                    qy == py,
                            ;
                            assert(false);
                        }
                    }
                }
            }
            col = col + 1;
        }
        row = row + 1;
    }
}

} // verus!
