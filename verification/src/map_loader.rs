//! # Map tiles
//!
//! `map.json` writes its `tiles` as a flat row-major array, a matrix of rows, or a sparse
//! object (a fill id, an optional perimeter id, and rectangles painted in order). Each form is
//! turned into the row-major grid that [`crate::map::Tilemap`] stores. Reading the files and
//! parsing the JSON is the binary's part; it hands the parsed value here.

use vstd::prelude::*;

use crate::map::{cell_index, lemma_cell_index_bounds, lemma_cell_index_injective};

verus! {

/// A rectangle of tile `id` with its top-left cell at `(x, y)`, `w` cells wide, `h` high.
#[derive(Clone, Copy, Debug)]
pub struct SparseRect {
    pub id: u32,
    pub x: u32,
    pub y: u32,
    pub w: u32,
    pub h: u32,
}

/// Sparse tiles: every cell is `fill`, the border ring is `perimeter` when given, and each
/// rectangle in turn paints its cells (later rectangles win).
#[derive(Clone, Debug)]
pub struct SparseTilesJson {
    pub fill: u32,
    pub perimeter: Option<u32>,
    pub rects: Vec<SparseRect>,
}

/// The three ways `map.json` writes its tiles.
#[derive(Clone, Debug)]
pub enum TilesJson {
    Flat(Vec<u32>),
    Matrix(Vec<Vec<u32>>),
    Sparse(SparseTilesJson),
}

/// Whether rectangle `r` covers cell `(x, y)`.
pub open spec fn rect_covers(r: SparseRect, x: int, y: int) -> bool {
    r.x <= x < r.x + r.w && r.y <= y < r.y + r.h
}

/// The id of the last rectangle of `rects` that covers `(x, y)`, if any.
pub open spec fn last_covering(rects: Seq<SparseRect>, x: int, y: int) -> Option<u32>
    decreases rects.len(),
{
    if rects.len() == 0 {
        None
    } else if rect_covers(rects.last(), x, y) {
        Some(rects.last().id)
    } else {
        last_covering(rects.drop_last(), x, y)
    }
}

/// Whether `(x, y)` lies on the border ring of a `width × height` grid.
pub open spec fn on_perimeter(width: int, height: int, x: int, y: int) -> bool {
    x == 0 || y == 0 || x == width - 1 || y == height - 1
}

/// Cell `(x, y)` before any rectangle: the perimeter id on the border ring, else the fill.
pub open spec fn base_cell(s: SparseTilesJson, width: int, height: int, x: int, y: int) -> u32 {
    match s.perimeter {
        Some(p) => if on_perimeter(width, height, x, y) {
            p
        } else {
            s.fill
        },
        None => s.fill,
    }
}

/// Cell `(x, y)` after painting the rectangles `rects` over the base.
pub open spec fn painted_cell(
    s: SparseTilesJson,
    rects: Seq<SparseRect>,
    width: int,
    height: int,
    x: int,
    y: int,
) -> u32 {
    match last_covering(rects, x, y) {
        Some(id) => id,
        None => base_cell(s, width, height, x, y),
    }
}

/// Sparse tiles expanded to a row-major grid.
pub open spec fn sparse_grid(s: SparseTilesJson, width: int, height: int) -> Seq<u32> {
    Seq::new(
        (width * height) as nat,
        |i: int| painted_cell(s, s.rects@, width, height, i % width, i / width),
    )
}

/// The rows of a matrix, concatenated.
pub open spec fn matrix_rows(rows: Seq<Vec<u32>>) -> Seq<Seq<u32>> {
    rows.map_values(|r: Vec<u32>| r@)
}

/// The row-major grid that `tiles` describes for a `width × height` map: `None` when a flat
/// array does not hold `width * height` ids, or a matrix does not have `height` rows of
/// `width` ids each.
pub open spec fn tiles_grid(width: int, height: int, tiles: TilesJson) -> Option<Seq<u32>> {
    match tiles {
        TilesJson::Flat(v) => if v@.len() == width * height {
            Some(v@)
        } else {
            None
        },
        TilesJson::Matrix(rows) => if rows@.len() == height && forall|i: int|
            0 <= i < rows@.len() ==> (#[trigger] rows@[i])@.len() == width {
            Some(matrix_rows(rows@).flatten())
        } else {
            None
        },
        TilesJson::Sparse(s) => Some(sparse_grid(s, width, height)),
    }
}

/// Painting `rects` stays within `u32` arithmetic: a rectangle's rows end within `u32`, and
/// its columns too when one of its rows lies in the grid.
pub open spec fn sparse_rects_in_range(rects: Seq<SparseRect>, height: int) -> bool {
    forall|k: int|
        0 <= k < rects.len() ==> {
            let r = #[trigger] rects[k];
            &&& r.y + r.h <= u32::MAX
            &&& (r.h > 0 && r.y < height) ==> r.x + r.w <= u32::MAX
        }
}

/// Convert `tiles` to a row-major grid for a `width × height` map.
///
/// A perimeter needs a grid with at least one cell, or none at all, in both directions.
pub fn tiles_row_major(width: u32, height: u32, tiles: TilesJson) -> (r: Option<Vec<u32>>)
    requires
        width * height <= u32::MAX,
        tiles matches TilesJson::Sparse(s) ==> {
            &&& sparse_rects_in_range(s.rects@, height as int)
            &&& s.perimeter is Some ==> (width == 0 <==> height == 0)
        },
    ensures
        match r {
            Some(v) => tiles_grid(width as int, height as int, tiles) == Some(v@),
            None => tiles_grid(width as int, height as int, tiles) is None,
        },
{
    let expected = (width * height) as usize;
    let ghost given = tiles;
    match tiles {
        TilesJson::Flat(v) => {
            if v.len() == expected {
                Some(v)
            } else {
                None
            }
        },
        TilesJson::Matrix(rows) => {
            if rows.len() != height as usize {
                return None;
            }
            let mut out: Vec<u32> = Vec::new();
            let mut i: usize = 0;
            while i < rows.len()
                invariant
                    i <= rows@.len(),
                    given == TilesJson::Matrix(rows),
                    given == tiles,
                    rows@.len() == height,
                    width * height <= u32::MAX,
                    forall|j: int| 0 <= j < i ==> (#[trigger] rows@[j])@.len() == width,
                    out@ == matrix_rows(rows@.take(i as int)).flatten(),
                    out@.len() == i * width,
                decreases rows@.len() - i,
            {
                if rows[i].len() != width as usize {
                    assert((rows@[i as int])@.len() != width);
                    assert(tiles_grid(width as int, height as int, given) is None);
                    return None;
                }
                let ghost before = out@;
                out.extend_from_slice(rows[i].as_slice());
                proof {
                    assert(out@ =~= before + rows@[i as int]@);
                    assert(matrix_rows(rows@.take(i + 1)) =~= matrix_rows(rows@.take(i as int)).push(
                        rows@[i as int]@,
                    ));
                    matrix_rows(rows@.take(i as int)).lemma_flatten_push(rows@[i as int]@);
                    assert(i * width + width == (i + 1) * width) by (nonlinear_arith);
                }
                i = i + 1;
            }
            assert(rows@.take(rows@.len() as int) =~= rows@);
            Some(out)
        },
        TilesJson::Sparse(s) => Some(sparse_row_major(width, height, s)),
    }
}

/// Row and column of each index of a `width × height` grid.
proof fn lemma_grid_coords(width: int, height: int)
    requires
        width > 0,
    ensures
        forall|i: int|
            0 <= i < width * height ==> {
                &&& 0 <= #[trigger] (i % width) < width
                &&& 0 <= i / width < height
                &&& cell_index(width, i % width, i / width) == i
            },
{
    assert forall|i: int| 0 <= i < width * height implies {
        &&& 0 <= #[trigger] (i % width) < width
        &&& 0 <= i / width < height
        &&& cell_index(width, i % width, i / width) == i
    } by {
        vstd::arithmetic::div_mod::lemma_fundamental_div_mod(i, width);
        assert(0 <= i % width < width) by {
            vstd::arithmetic::div_mod::lemma_mod_bound(i, width);
        }
        assert(0 <= i / width < height) by (nonlinear_arith)
            requires
                0 <= i < width * height,
                width > 0,
                i == width * (i / width) + (i % width),
                0 <= i % width < width,
        ;
        assert(cell_index(width, i % width, i / width) == i) by (nonlinear_arith)
            requires
                i == width * (i / width) + (i % width),
        ;
    }
}

/// Set cell `(x, y)` of a row-major grid to `v`: that cell changes, every other keeps its id.
fn set_cell(out: &mut Vec<u32>, width: u32, height: u32, x: u32, y: u32, v: u32)
    requires
        old(out)@.len() == width * height,
        width * height <= u32::MAX,
        x < width,
        y < height,
    ensures
        final(out)@.len() == old(out)@.len(),
        forall|cx: int, cy: int|
            0 <= cx < width && 0 <= cy < height ==> #[trigger] final(out)@[cell_index(
                width as int,
                cx,
                cy,
            )] == if cx == x && cy == y {
                v
            } else {
                old(out)@[cell_index(width as int, cx, cy)]
            },
{
    proof {
        lemma_cell_index_bounds(width as int, height as int, x as int, y as int);
    }
    let i = (y * width + x) as usize;
    out.set(i, v);
    proof {
        assert forall|cx: int, cy: int| 0 <= cx < width && 0 <= cy < height implies #[trigger] out@[cell_index(
            width as int,
            cx,
            cy,
        )] == if cx == x && cy == y {
            v
        } else {
            old(out)@[cell_index(width as int, cx, cy)]
        } by {
            lemma_cell_index_bounds(width as int, height as int, cx, cy);
            if cell_index(width as int, cx, cy) == i {
                lemma_cell_index_injective(width as int, cx, cy, x as int, y as int);
            }
        }
    }
}

/// Expand sparse tiles to a row-major grid.
fn sparse_row_major(width: u32, height: u32, s: SparseTilesJson) -> (r: Vec<u32>)
    requires
        width * height <= u32::MAX,
        sparse_rects_in_range(s.rects@, height as int),
        s.perimeter is Some ==> (width == 0 <==> height == 0),
    ensures
        r@ == sparse_grid(s, width as int, height as int),
{
    let ghost w = width as int;
    let ghost h = height as int;
    let expected = (width * height) as usize;
    let mut out = vec![s.fill; expected];
    assert(forall|i: int| 0 <= i < out@.len() ==> out@[i] == s.fill);
    proof {
        assert forall|x: int, y: int| 0 <= x < w && 0 <= y < h implies #[trigger] out@[cell_index(
            w,
            x,
            y,
        )] == s.fill by {
            lemma_cell_index_bounds(w, h, x, y);
        }
    }
    if let Some(pid) = s.perimeter {
        let mut x: u32 = 0;
        while x < width
            invariant
                x <= width,
                out@.len() == w * h,
                width * height <= u32::MAX,
                w == width,
                h == height,
                width > 0 ==> height > 0,
                forall|cx: int, cy: int|
                    0 <= cx < w && 0 <= cy < h ==> #[trigger] out@[cell_index(w, cx, cy)] == if (cy
                        == 0 || cy == h - 1) && cx < x {
                        pid
                    } else {
                        s.fill
                    },
            decreases width - x,
        {
            set_cell(&mut out, width, height, x, 0, pid);
            set_cell(&mut out, width, height, x, height - 1, pid);
            x = x + 1;
        }
        let mut y: u32 = 0;
        while y < height
            invariant
                y <= height,
                out@.len() == w * h,
                width * height <= u32::MAX,
                w == width,
                h == height,
                height > 0 ==> width > 0,
                forall|cx: int, cy: int|
                    0 <= cx < w && 0 <= cy < h ==> #[trigger] out@[cell_index(w, cx, cy)] == if (cy
                        == 0 || cy == h - 1) || ((cx == 0 || cx == w - 1) && cy < y) {
                        pid
                    } else {
                        s.fill
                    },
            decreases height - y,
        {
            set_cell(&mut out, width, height, 0, y, pid);
            set_cell(&mut out, width, height, width - 1, y, pid);
            y = y + 1;
        }
    }
    assert(forall|cx: int, cy: int|
        0 <= cx < w && 0 <= cy < h ==> #[trigger] out@[cell_index(w, cx, cy)] == painted_cell(
            s,
            s.rects@.take(0),
            w,
            h,
            cx,
            cy,
        ));
    let mut k: usize = 0;
    while k < s.rects.len()
        invariant
            k <= s.rects@.len(),
            out@.len() == w * h,
            width * height <= u32::MAX,
            w == width,
            h == height,
            sparse_rects_in_range(s.rects@, h),
            forall|cx: int, cy: int|
                0 <= cx < w && 0 <= cy < h ==> #[trigger] out@[cell_index(w, cx, cy)] == painted_cell(
                    s,
                    s.rects@.take(k as int),
                    w,
                    h,
                    cx,
                    cy,
                ),
        decreases s.rects@.len() - k,
    {
        let r = s.rects[k];
        assert(s.rects@[k as int] == r);
        let ghost prev = s.rects@.take(k as int);
        let end_y = r.y + r.h;
        let mut ry = r.y;
        while ry < end_y
            invariant
                r.y <= ry <= end_y,
                end_y == r.y + r.h,
                r == s.rects@[k as int],
                sparse_rects_in_range(s.rects@, h),
                0 <= k < s.rects@.len(),
                out@.len() == w * h,
                width * height <= u32::MAX,
                w == width,
                h == height,
                forall|cx: int, cy: int|
                    0 <= cx < w && 0 <= cy < h ==> #[trigger] out@[cell_index(w, cx, cy)] == if r.y
                        <= cy < ry && r.x <= cx < r.x + r.w {
                        r.id
                    } else {
                        painted_cell(s, prev, w, h, cx, cy)
                    },
            decreases end_y - ry,
        {
            if ry < height {
                let end_x = r.x + r.w;
                let mut rx = r.x;
                while rx < end_x
                    invariant
                        r.x <= rx <= end_x,
                        end_x == r.x + r.w,
                        r.y <= ry < end_y,
                        ry < height,
                        out@.len() == w * h,
                        width * height <= u32::MAX,
                        w == width,
                        h == height,
                        forall|cx: int, cy: int|
                            0 <= cx < w && 0 <= cy < h ==> #[trigger] out@[cell_index(w, cx, cy)]
                                == if (r.y <= cy < ry && r.x <= cx < r.x + r.w) || (cy == ry && r.x
                                <= cx < rx) {
                                r.id
                            } else {
                                painted_cell(s, prev, w, h, cx, cy)
                            },
                    decreases end_x - rx,
                {
                    if rx < width {
                        set_cell(&mut out, width, height, rx, ry, r.id);
                    }
                    rx = rx + 1;
                }
            }
            ry = ry + 1;
        }
        proof {
            let next = s.rects@.take(k + 1);
            assert(next.drop_last() =~= prev);
            assert(next.last() == r);
        }
        k = k + 1;
    }
    proof {
        assert(s.rects@.take(s.rects@.len() as int) =~= s.rects@);
        if w > 0 {
            lemma_grid_coords(w, h);
            assert forall|i: int| 0 <= i < out@.len() implies out@[i] == sparse_grid(s, w, h)[i] by {
                let x = i % w;
                let y = i / w;
                assert(out@[cell_index(w, x, y)] == painted_cell(s, s.rects@, w, h, x, y));
            }
        } else {
            assert(w * h == 0);
        }
        assert(out@ =~= sparse_grid(s, w, h));
    }
    out
}

} // verus!
