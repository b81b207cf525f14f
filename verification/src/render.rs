//! # Render rules
//!
//! The integer decisions of drawing: which sprite-sheet row a facing uses, whether a map uses
//! only the collision ids 0 and 1, and the Wang autotile choice for a blocking cell. A Wang
//! tile is picked from a 4×4 sheet by a 4-bit corner signature `NW*8 + NE*4 + SW*2 + SE`
//! (a corner is 1 when it is "upper", i.e. wall).

use vstd::prelude::*;

use crate::ecs::components::{AnimationKind, Direction, Health};
use crate::map::Tilemap;

verus! {

/// UI layout multiplier.
#[derive(PartialEq, Eq, Structural, PartialOrd, Ord, Clone, Copy, Debug)]
pub struct UiScale(pub u32);

/// Sheet row for a facing.
pub open spec fn facing_row(d: Direction) -> u32 {
    match d {
        Direction::Down => 0,
        Direction::Up => 1,
        Direction::Left => 2,
        Direction::Right => 3,
    }
}

/// Sprite-sheet row for a facing: Down 0, Up 1, Left 2, Right 3.
pub fn facing_sprite_row(d: Direction) -> (r: u32)
    ensures
        r == facing_row(d),
{
    match d {
        Direction::Down => 0,
        Direction::Up => 1,
        Direction::Left => 2,
        Direction::Right => 3,
    }
}

/// Whether every tile id of the map is 0 or 1 (a bare collision grid).
pub fn tilemap_is_binary_collision_only(tilemap: &Tilemap) -> (r: bool)
    ensures
        r == forall|i: int| 0 <= i < tilemap.tiles@.len() ==> tilemap.tiles@[i] <= 1,
{
    let mut i: usize = 0;
    while i < tilemap.tiles.len()
        invariant
            i <= tilemap.tiles@.len(),
            forall|j: int| 0 <= j < i ==> tilemap.tiles@[j] <= 1,
        decreases tilemap.tiles@.len() - i,
    {
        if tilemap.tiles[i] > 1 {
            return false;
        }
        i = i + 1;
    }
    true
}

/// Sheet index (`row * 4 + col`) for each corner signature; the same grid layout serves the
/// interior and ground tilesets.
pub open spec fn wang_lut(sig: int) -> u32 {
    seq![6u32, 7, 10, 9, 2, 11, 4, 15, 5, 14, 1, 8, 3, 0, 13, 12][sig]
}

/// 1 when `b` holds, else 0.
pub open spec fn bit(b: bool) -> int {
    if b {
        1
    } else {
        0
    }
}

/// Corner signature from the four edge neighbours: a corner is upper when both of its edges
/// block (outside the map counts as wall).
pub open spec fn and_signature(t: Tilemap, x: int, y: int) -> int {
    let n = t.blocking_view(x, y - 1);
    let e = t.blocking_view(x + 1, y);
    let s = t.blocking_view(x, y + 1);
    let w = t.blocking_view(x - 1, y);
    bit(n && w) * 8 + bit(n && e) * 4 + bit(s && w) * 2 + bit(s && e)
}

/// Corner signature from the eight neighbours: a corner is upper when any of its three
/// neighbours blocks.
pub open spec fn three_signature(t: Tilemap, x: int, y: int) -> int {
    let nw = t.blocking_view(x - 1, y - 1) || t.blocking_view(x, y - 1) || t.blocking_view(x - 1, y);
    let ne = t.blocking_view(x, y - 1) || t.blocking_view(x + 1, y - 1) || t.blocking_view(x + 1, y);
    let sw = t.blocking_view(x - 1, y) || t.blocking_view(x - 1, y + 1) || t.blocking_view(x, y + 1);
    let se = t.blocking_view(x + 1, y) || t.blocking_view(x, y + 1) || t.blocking_view(x + 1, y + 1);
    bit(nw) * 8 + bit(ne) * 4 + bit(sw) * 2 + bit(se)
}

/// The sheet index for the blocking cell `(x, y)`: the edge signature, or the eight-neighbour
/// signature when no corner of the edge signature is upper.
pub open spec fn wang_index(t: Tilemap, x: int, y: int) -> u32 {
    let a = and_signature(t, x, y);
    wang_lut(
        if a == 0 {
            three_signature(t, x, y)
        } else {
            a
        },
    )
}

/// Whether the neighbour at signed `(xi, yi)` blocks; anything outside the map is wall.
fn tile_blocking_oob_wall(tilemap: &Tilemap, xi: i32, yi: i32) -> (r: bool)
    requires
        tilemap.wf(),
    ensures
        r == tilemap.blocking_view(xi as int, yi as int),
{
    if xi < 0 || yi < 0 {
        return true;
    }
    let x = xi as u32;
    let y = yi as u32;
    if x >= tilemap.width || y >= tilemap.height {
        return true;
    }
    tilemap.is_blocking(x, y)
}

fn from_bool(b: bool) -> (r: usize)
    ensures
        r == bit(b),
{
    if b {
        1
    } else {
        0
    }
}

fn wang_corner_signature_and(tilemap: &Tilemap, x: u32, y: u32) -> (r: usize)
    requires
        tilemap.wf(),
        x < i32::MAX,
        y < i32::MAX,
    ensures
        r == and_signature(*tilemap, x as int, y as int),
        r < 16,
{
    let xi = x as i32;
    let yi = y as i32;
    let n = tile_blocking_oob_wall(tilemap, xi, yi - 1);
    let e = tile_blocking_oob_wall(tilemap, xi + 1, yi);
    let s = tile_blocking_oob_wall(tilemap, xi, yi + 1);
    let w = tile_blocking_oob_wall(tilemap, xi - 1, yi);
    let nw = from_bool(n && w);
    let ne = from_bool(n && e);
    let sw = from_bool(s && w);
    let se = from_bool(s && e);
    nw * 8 + ne * 4 + sw * 2 + se
}

fn wang_corner_signature_three(tilemap: &Tilemap, x: u32, y: u32) -> (r: usize)
    requires
        tilemap.wf(),
        x < i32::MAX,
        y < i32::MAX,
    ensures
        r == three_signature(*tilemap, x as int, y as int),
        r < 16,
{
    let xi = x as i32;
    let yi = y as i32;
    let nw = tile_blocking_oob_wall(tilemap, xi - 1, yi - 1) || tile_blocking_oob_wall(
        tilemap,
        xi,
        yi - 1,
    ) || tile_blocking_oob_wall(tilemap, xi - 1, yi);
    let ne = tile_blocking_oob_wall(tilemap, xi, yi - 1) || tile_blocking_oob_wall(
        tilemap,
        xi + 1,
        yi - 1,
    ) || tile_blocking_oob_wall(tilemap, xi + 1, yi);
    let sw = tile_blocking_oob_wall(tilemap, xi - 1, yi) || tile_blocking_oob_wall(
        tilemap,
        xi - 1,
        yi + 1,
    ) || tile_blocking_oob_wall(tilemap, xi, yi + 1);
    let se = tile_blocking_oob_wall(tilemap, xi + 1, yi) || tile_blocking_oob_wall(
        tilemap,
        xi,
        yi + 1,
    ) || tile_blocking_oob_wall(tilemap, xi + 1, yi + 1);
    let nw = from_bool(nw);
    let ne = from_bool(ne);
    let sw = from_bool(sw);
    let se = from_bool(se);
    nw * 8 + ne * 4 + sw * 2 + se
}

/// Wang sheet index for the blocking cell `(x, y)` from its neighbours' walkability.
///
/// The neighbour probes use signed 32-bit coordinates, so `x` and `y` stay below `i32::MAX`.
pub fn wang_wall_sheet_index(tilemap: &Tilemap, x: u32, y: u32) -> (r: u32)
    requires
        tilemap.wf(),
        x < i32::MAX,
        y < i32::MAX,
    ensures
        r == wang_index(*tilemap, x as int, y as int),
        r < 16,
{
    let and_sig = wang_corner_signature_and(tilemap, x, y);
    let sig = if and_sig == 0 {
        wang_corner_signature_three(tilemap, x, y)
    } else {
        and_sig
    };
    let lut: [u32; 16] = [6, 7, 10, 9, 2, 11, 4, 15, 5, 14, 1, 8, 3, 0, 13, 12];
    assert(lut@ =~= seq![6u32, 7, 10, 9, 2, 11, 4, 15, 5, 14, 1, 8, 3, 0, 13, 12]);
    lut[sig]
}

/// Which corners of tile `tile` (index `row * 4 + col`) of the PixelLab 4×4 Wang sheet are
/// upper (wall), as (north-west, north-east, south-west, south-east).
pub open spec fn sheet_tile_corners(tile: u32) -> (bool, bool, bool, bool) {
    seq![
        (true, true, false, true),
        (true, false, true, false),
        (false, true, false, false),
        (true, true, false, false),
        (false, true, true, false),
        (true, false, false, false),
        (false, false, false, false),
        (false, false, false, true),
        (true, false, true, true),
        (false, false, true, true),
        (false, false, true, false),
        (false, true, false, true),
        (true, true, true, true),
        (true, true, true, false),
        (true, false, false, true),
        (false, true, true, true),
    ][tile as int]
}

/// The sheet tile picked for a blocking cell shows that cell's corners. A corner whose two
/// edge neighbours (north or south, and west or east) both block is upper; when no corner is
/// upper that way, a corner is upper when any of its three neighbours (its two edge
/// neighbours and the diagonal one) blocks. Outside the map counts as wall.
pub proof fn law_wang_tile_shows_cell_corners(t: Tilemap, x: int, y: int)
    ensures
        ({
            let n = t.blocking_view(x, y - 1);
            let e = t.blocking_view(x + 1, y);
            let s = t.blocking_view(x, y + 1);
            let w = t.blocking_view(x - 1, y);
            let edge = (n && w, n && e, s && w, s && e);
            let any = (
                n || w || t.blocking_view(x - 1, y - 1),
                n || e || t.blocking_view(x + 1, y - 1),
                s || w || t.blocking_view(x - 1, y + 1),
                s || e || t.blocking_view(x + 1, y + 1),
            );
            &&& wang_index(t, x, y) < 16
            &&& sheet_tile_corners(wang_index(t, x, y)) == if edge.0 || edge.1 || edge.2 || edge.3 {
                edge
            } else {
                any
            }
        }),
{
    let a = and_signature(t, x, y);
    let sig = if a == 0 { three_signature(t, x, y) } else { a };
    assert(0 <= sig < 16);
    assert(sheet_tile_corners(wang_lut(0)) == (false, false, false, false));
    assert(sheet_tile_corners(wang_lut(1)) == (false, false, false, true));
    assert(sheet_tile_corners(wang_lut(2)) == (false, false, true, false));
    assert(sheet_tile_corners(wang_lut(3)) == (false, false, true, true));
    assert(sheet_tile_corners(wang_lut(4)) == (false, true, false, false));
    assert(sheet_tile_corners(wang_lut(5)) == (false, true, false, true));
    assert(sheet_tile_corners(wang_lut(6)) == (false, true, true, false));
    assert(sheet_tile_corners(wang_lut(7)) == (false, true, true, true));
    assert(sheet_tile_corners(wang_lut(8)) == (true, false, false, false));
    assert(sheet_tile_corners(wang_lut(9)) == (true, false, false, true));
    assert(sheet_tile_corners(wang_lut(10)) == (true, false, true, false));
    assert(sheet_tile_corners(wang_lut(11)) == (true, false, true, true));
    assert(sheet_tile_corners(wang_lut(12)) == (true, true, false, false));
    assert(sheet_tile_corners(wang_lut(13)) == (true, true, false, true));
    assert(sheet_tile_corners(wang_lut(14)) == (true, true, true, false));
    assert(sheet_tile_corners(wang_lut(15)) == (true, true, true, true));
}

/// Whether every tile id of the map is 0 or 1.
pub open spec fn binary_grid(t: Tilemap) -> bool {
    forall|i: int| 0 <= i < t.tiles@.len() ==> t.tiles@[i] <= 1
}

/// `id`, capped at the last tile of a sheet of `sheet_tiles` tiles (0 for an empty sheet).
pub open spec fn capped_tile(id: u32, sheet_tiles: u32) -> u32 {
    let last: u32 = if sheet_tiles == 0 { 0 } else { (sheet_tiles - 1) as u32 };
    if id < last {
        id
    } else {
        last
    }
}

/// The tileset tile drawn for cell `(x, y)` (a cell outside the grid reads as id 0): with a
/// `tileset_draw` mapping, the floor tile for id 0, else the Wang tile or the wall tile; without
/// one, a bare collision grid is drawn in solid colours (`None`) and other ids index the sheet
/// directly. The tile is capped at the sheet's last tile.
pub open spec fn cell_sheet_tile(t: Tilemap, x: int, y: int, sheet_tiles: u32) -> Option<u32> {
    let logical = if t.in_bounds(x, y) {
        t.tile_view(x, y)
    } else {
        0u32
    };
    match t.tileset_draw {
        Some(td) => Some(
            capped_tile(
                if logical == 0 {
                    td.floor
                } else if td.wang_autotile {
                    wang_index(t, x, y)
                } else {
                    td.wall
                },
                sheet_tiles,
            ),
        ),
        None => if binary_grid(t) {
            None
        } else {
            Some(capped_tile(logical, sheet_tiles))
        },
    }
}

/// Which tile of a tileset of `sheet_tiles` tiles cell `(x, y)` shows, or `None` for a solid
/// palette colour (see [`cell_sheet_tile`]). `binary` is whether the grid holds only ids 0
/// and 1 ([`tilemap_is_binary_collision_only`], computed once per frame by the caller).
pub fn cell_sheet_tile_index(tilemap: &Tilemap, x: u32, y: u32, sheet_tiles: u32, binary: bool) -> (r: Option<u32>)
    requires
        tilemap.wf(),
        binary == binary_grid(*tilemap),
        x < i32::MAX,
        y < i32::MAX,
    ensures
        r == cell_sheet_tile(*tilemap, x as int, y as int, sheet_tiles),
{
    let logical = match tilemap.tile_at(x, y) {
        Some(id) => id,
        None => 0,
    };
    let last: u32 = if sheet_tiles == 0 { 0 } else { sheet_tiles - 1 };
    let id = match &tilemap.tileset_draw {
        Some(td) => if logical == 0 {
            td.floor
        } else if td.wang_autotile {
            wang_wall_sheet_index(tilemap, x, y)
        } else {
            td.wall
        },
        None => {
            if binary {
                return None;
            }
            logical
        },
    };
    Some(if id < last { id } else { last })
}

/// The walk column for frame `frame` of a sheet `cols` wide: the columns after the idle
/// column 0, in turn (column 1 when the sheet has at most two columns), capped at the last.
pub open spec fn walk_col(cols: u32, frame: u32) -> u32 {
    let walk_cols: int = if cols - 1 > 1 { cols - 1 } else { 1 };
    let c: int = 1 + (frame as int) % walk_cols;
    if c < cols - 1 {
        c as u32
    } else {
        (cols - 1) as u32
    }
}

/// The sheet frame `(column, row)` of a sprite: the row of its facing (Down without one),
/// capped at the last row; column 0 when idle, the walk column when walking.
pub open spec fn sprite_frame_view(cols: u32, rows: u32, facing: Option<Direction>, kind: AnimationKind, frame: u32) -> (u32, u32) {
    let row = match facing {
        Some(d) => facing_row(d),
        None => 0u32,
    };
    let last_row: u32 = if rows == 0 { 0 } else { (rows - 1) as u32 };
    (
        match kind {
            AnimationKind::Idle => 0u32,
            AnimationKind::Walk => walk_col(cols, frame),
        },
        if row < last_row { row } else { last_row },
    )
}

/// Which frame of a `cols × rows` sheet a sprite shows (see [`sprite_frame_view`]). A sheet
/// has at least one column.
pub fn sprite_frame(cols: u32, rows: u32, facing: Option<Direction>, kind: AnimationKind, frame: u32) -> (r: (u32, u32))
    requires
        cols > 0,
    ensures
        r == sprite_frame_view(cols, rows, facing, kind, frame),
{
    let row = match facing {
        Some(d) => facing_sprite_row(d),
        None => 0,
    };
    let last_row: u32 = if rows == 0 { 0 } else { rows - 1 };
    let col = match kind {
        AnimationKind::Idle => 0,
        AnimationKind::Walk => {
            let walk_cols: u32 = if cols - 1 > 1 { cols - 1 } else { 1 };
            let c = 1 + frame % walk_cols;
            if c < cols - 1 { c } else { cols - 1 }
        },
    };
    (col, if row < last_row { row } else { last_row })
}

/// The hit points the HP bar shows: `current` clamped to `0..=max`, out of `max`; no bar when
/// `max` is not positive.
pub fn hp_bar_values(h: Health) -> (r: Option<(i32, i32)>)
    ensures
        h.max > 0 ==> r == Some((
            if h.current < 0 {
                0i32
            } else if h.current > h.max {
                h.max
            } else {
                h.current
            },
            h.max,
        )),
        h.max <= 0 ==> r is None,
{
    if h.max > 0 {
        let c = if h.current < 0 {
            0
        } else if h.current > h.max {
            h.max
        } else {
            h.current
        };
        Some((c, h.max))
    } else {
        None
    }
}

} // verus!
