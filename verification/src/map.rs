//! # Tilemap
//!
//! A 2D grid of logical tile ids, stored row-major (`index = y * width + x`). Collision comes
//! only from the tile palette: an id is walkable exactly when the palette lists it as
//! walkable; ids the palette does not know block movement, and so does everything outside the
//! grid. `tileset_draw` maps logical cells to sheet indices when a tileset is drawn (art only).
//! Tile size and fill colours (floating point) are kept by the binary beside the map.

use vstd::prelude::*;
use vstd::string::StrSliceExecFns;

use std::collections::HashMap;

verus! {

broadcast use vstd::std_specs::hash::group_hash_axioms;

/// Whether a logical tile id can be walked on.
#[derive(Clone, Copy, Debug)]
pub struct TilePaletteEntry {
    pub walkable: bool,
}

/// Walkability per tile id (from `assets/tile_palettes/{id}.json`).
#[derive(Clone, Debug)]
pub struct TilePalette {
    pub tiles: HashMap<u32, TilePaletteEntry>,
}

impl TilePalette {
    /// An empty palette: every id blocks.
    pub fn new() -> (r: Self)
        ensures
            r.tiles@ == Map::<u32, TilePaletteEntry>::empty(),
    {
        TilePalette { tiles: HashMap::new() }
    }

    /// Record the walkability of `id`, replacing an earlier entry for it.
    pub fn insert(&mut self, id: u32, walkable: bool)
        ensures
            final(self).tiles@ == old(self).tiles@.insert(id, TilePaletteEntry { walkable }),
    {
        self.tiles.insert(id, TilePaletteEntry { walkable });
    }

    /// The palette of the bordered fallback map: id 0 is floor (walkable), id 1 is wall.
    pub fn loader_fallback() -> (r: Self)
        ensures
            r.tiles@ == map![
                0u32 => TilePaletteEntry { walkable: true },
                1u32 => TilePaletteEntry { walkable: false },
            ],
    {
        let mut p = TilePalette::new();
        p.insert(0, true);
        p.insert(1, false);
        p
    }
}

/// Whether every character of `s` is an ASCII digit.
pub open spec fn all_digits(s: Seq<char>) -> bool {
    forall|i: int| 0 <= i < s.len() ==> '0' <= #[trigger] s[i] <= '9'
}

/// The number the decimal digits `s` write.
pub open spec fn digits_value(s: Seq<char>) -> int
    decreases s.len(),
{
    if s.len() == 0 {
        0
    } else {
        digits_value(s.drop_last()) * 10 + (s.last() as int - '0' as int)
    }
}

/// What `str::parse::<u32>` reads from a palette key: an optional `+`, then one or more ASCII
/// digits whose value fits in `u32`; anything else is not a tile id.
pub open spec fn tile_id_of(key: Seq<char>) -> Option<u32> {
    let d = if key.len() > 0 && key[0] == '+' {
        key.drop_first()
    } else {
        key
    };
    if d.len() > 0 && all_digits(d) && digits_value(d) <= u32::MAX {
        Some(digits_value(d) as u32)
    } else {
        None
    }
}

proof fn lemma_digits_prefix(s: Seq<char>, i: int)
    requires
        all_digits(s),
        0 <= i <= s.len(),
    ensures
        0 <= digits_value(s.take(i)) <= digits_value(s),
    decreases s.len(),
{
    if s.len() > 0 {
        assert(all_digits(s.drop_last())) by {
            assert forall|k: int| 0 <= k < s.drop_last().len() implies '0' <= #[trigger] s.drop_last()[k] <= '9' by {
                assert(s.drop_last()[k] == s[k]);
            }
        }
        if i == s.len() {
            assert(s.take(i) =~= s);
            lemma_digits_prefix(s.drop_last(), 0);
        } else {
            assert(s.take(i) =~= s.drop_last().take(i));
            lemma_digits_prefix(s.drop_last(), i);
            assert(s[s.len() - 1] == s.last());
        }
    } else {
        assert(s.take(i) =~= s);
    }
}

/// Read a tile palette key as a tile id (see [`tile_id_of`]); keys that are not ids give `None`.
pub fn parse_tile_id(key: &str) -> (r: Option<u32>)
    ensures
        r == tile_id_of(key@),
{
    let n = key.unicode_len();
    let mut start: usize = 0;
    if n > 0 && key.get_char(0) == '+' {
        start = 1;
    }
    let ghost d = if start == 1 {
        key@.drop_first()
    } else {
        key@
    };
    assert(d =~= key@.skip(start as int));
    if start >= n {
        return None;
    }
    let mut acc: u64 = 0;
    let mut i: usize = start;
    while i < n
        invariant
            n == key@.len(),
            start <= i <= n,
            start < n,
            d == key@.skip(start as int),
            d == (if key@.len() > 0 && key@[0] == '+' {
                key@.drop_first()
            } else {
                key@
            }),
            all_digits(d.take(i - start)),
            acc == digits_value(d.take(i - start)),
            acc <= u32::MAX,
        decreases n - i,
    {
        let c = key.get_char(i);
        assert(c == d[i - start]);
        if c < '0' || c > '9' {
            assert(!all_digits(d));
            return None;
        }
        let ghost k = i - start;
        assert(d.take(k + 1).drop_last() =~= d.take(k));
        assert(d.take(k + 1).last() == c);
        acc = acc * 10 + ((c as u32) - ('0' as u32)) as u64;
        i = i + 1;
        assert(all_digits(d.take(i - start))) by {
            assert forall|j: int| 0 <= j < d.take(k + 1).len() implies '0' <= #[trigger] d.take(k + 1)[j] <= '9' by {
                if j < k {
                    assert(d.take(k + 1)[j] == d.take(k)[j]);
                }
            }
        }
        if acc > 0xffff_ffff {
            proof {
                if all_digits(d) {
                    lemma_digits_prefix(d, i - start);
                }
            }
            return None;
        }
    }
    assert(d.take(n - start) =~= d);
    Some(acc as u32)
}

/// When set, rendering maps each cell's logical tile id to sheet indices.
#[derive(Clone, Copy, Debug)]
pub struct TilesetDraw {
    pub floor: u32,
    pub wall: u32,
    /// Each blocking cell picks a Wang-style tile of the 4×4 sheet from its neighbours; `wall`
    /// is then not used for drawing.
    pub wang_autotile: bool,
}

/// Tile grid, row-major, with its tileset mapping and palette.
#[derive(Clone, Debug)]
pub struct Tilemap {
    pub width: u32,
    pub height: u32,
    pub tiles: Vec<u32>,
    pub tileset_draw: Option<TilesetDraw>,
    pub tile_palette: TilePalette,
}

/// The row-major index of cell `(x, y)` in a grid `width` wide.
pub open spec fn cell_index(width: int, x: int, y: int) -> int {
    y * width + x
}

impl Tilemap {
    /// The grid holds exactly `width * height` tiles, and every row-major index fits in `u32`.
    pub open spec fn wf(&self) -> bool {
        &&& self.tiles@.len() == self.width * self.height
        &&& self.width * self.height <= u32::MAX + 1
    }

    /// The tile id at `(x, y)` inside the grid.
    pub open spec fn tile_view(&self, x: int, y: int) -> u32 {
        self.tiles@[cell_index(self.width as int, x, y)]
    }

    /// Whether `(x, y)` is a cell of the grid.
    pub open spec fn in_bounds(&self, x: int, y: int) -> bool {
        0 <= x < self.width && 0 <= y < self.height
    }

    /// Whether the player is blocked at `(x, y)`: outside the grid, an id missing from the
    /// palette, or an id the palette marks as not walkable.
    pub open spec fn blocking_view(&self, x: int, y: int) -> bool {
        if !self.in_bounds(x, y) {
            true
        } else {
            let id = self.tile_view(x, y);
            !self.tile_palette.tiles@.contains_key(id) || !self.tile_palette.tiles@[id].walkable
        }
    }

    /// Linear index into `tiles` for `(x, y)`, or `None` outside the grid.
    pub fn index(&self, x: u32, y: u32) -> (r: Option<usize>)
        requires
            self.wf(),
        ensures
            match r {
                Some(i) => self.in_bounds(x as int, y as int) && i == cell_index(
                    self.width as int,
                    x as int,
                    y as int,
                ) && i < self.tiles@.len(),
                None => !self.in_bounds(x as int, y as int),
            },
    {
        if x < self.width && y < self.height {
            proof {
                lemma_cell_index_bounds(self.width as int, self.height as int, x as int, y as int);
            }
            Some((y * self.width + x) as usize)
        } else {
            None
        }
    }

    /// Tile id at `(x, y)`, or `None` outside the grid.
    pub fn tile_at(&self, x: u32, y: u32) -> (r: Option<u32>)
        requires
            self.wf(),
        ensures
            match r {
                Some(id) => self.in_bounds(x as int, y as int) && id == self.tile_view(
                    x as int,
                    y as int,
                ),
                None => !self.in_bounds(x as int, y as int),
            },
    {
        match self.index(x, y) {
            Some(i) => Some(self.tiles[i]),
            None => None,
        }
    }

    /// Blocking outside the grid, for an id missing from the palette, or when the palette
    /// marks the id as not walkable.
    pub fn is_blocking(&self, x: u32, y: u32) -> (r: bool)
        requires
            self.wf(),
        ensures
            r == self.blocking_view(x as int, y as int),
    {
        let id = match self.tile_at(x, y) {
            Some(id) => id,
            None => return true,
        };
        match self.tile_palette.tiles.get(&id) {
            Some(e) => !e.walkable,
            None => true,
        }
    }
}

/// A cell inside a `width × height` grid has a row-major index below `width * height`.
pub proof fn lemma_cell_index_bounds(width: int, height: int, x: int, y: int)
    requires
        0 <= x < width,
        0 <= y < height,
    ensures
        0 <= cell_index(width, x, y) < width * height,
{
    assert(0 <= y * width) by (nonlinear_arith)
        requires
            0 <= y,
            0 <= width,
    ;
    assert(y * width + x < width * height) by (nonlinear_arith)
        requires
            0 <= x < width,
            0 <= y < height,
    ;
}

/// Distinct cells of a grid have distinct row-major indices.
pub proof fn lemma_cell_index_injective(width: int, x1: int, y1: int, x2: int, y2: int)
    requires
        0 <= x1 < width,
        0 <= x2 < width,
        0 <= y1,
        0 <= y2,
        cell_index(width, x1, y1) == cell_index(width, x2, y2),
    ensures
        x1 == x2,
        y1 == y2,
{
    assert(y1 == y2) by (nonlinear_arith)
        requires
            0 <= x1 < width,
            0 <= x2 < width,
            0 <= y1,
            0 <= y2,
            y1 * width + x1 == y2 * width + x2,
    ;
}

} // verus!
