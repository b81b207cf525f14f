//! # Assets
//!
//! Sprite sheets and tilesets as the game uses them: the frame grid of a sheet, the tile size of
//! a tileset (square 4×4 Wang sheets infer 32 or 16 px when no size is given), the folder that
//! a map prop or door prop id resolves to (camelCase, snake_case and legacy spellings), the
//! decoding of image bytes into `0x00RRGGBB` pixels, and the cache that loads each sheet once.
//! Which files exist and what they hold is read by the binary and handed in.

use vstd::prelude::*;
use vstd::string::StrSliceExecFns;
use vstd::string::StringExecFns;

use crate::cache::KeyedCache;
use crate::text::{
    char_is_upper, char_lower_view, char_to_lower, char_to_upper, char_upper_view, concat,
    lemma_names_push, list_contains, names, owned, push_char, trim, trim_view, unicode_uppercase,
    NameSet,
};

verus! {

/// Loaded sprite sheet: pixels `0x00RRGGBB` row-major (0 is transparent); grid of `rows ×
/// cols` frames of `frame_width × frame_height` pixels.
#[derive(Clone, Debug)]
pub struct LoadedSheet {
    pub pixels: Vec<u32>,
    pub width: u32,
    pub height: u32,
    pub frame_width: u32,
    pub frame_height: u32,
    pub rows: u32,
    pub cols: u32,
}

// ---------------------------------------------------------------------------------------------
// Tile size of a tileset
// ---------------------------------------------------------------------------------------------

/// The tile size inferred for a sheet: 32 px for a 128² sheet (4×4 at 32), else 16.
pub open spec fn inferred_tile_size(width: u32, height: u32) -> u32 {
    if width == 128 && height == 128 {
        32
    } else {
        16
    }
}

/// Tile size for a square sheet without a usable size: the size (32 or 16) that makes it a
/// 4×4 grid, else 16.
pub fn infer_tile_size_for_square_sheet(width: u32, height: u32) -> (r: u32)
    ensures
        r == inferred_tile_size(width, height),
{
    if width == 0 || height == 0 || width != height {
        return 16;
    }
    if width % 32 == 0 && width / 32 == 4 {
        return 32;
    }
    if width % 16 == 0 && width / 16 == 4 {
        return 16;
    }
    16
}

/// The frame size of a map tileset: the size from `map.json`, else from the tileset's JSON,
/// when it is positive and divides both sides; inferred otherwise, and also when it makes the
/// whole of a square sheet of at least 48 px one cell.
pub open spec fn map_tile_size(width: u32, height: u32, map_ts: Option<u32>, json_ts: Option<u32>) -> u32 {
    let merged = match map_ts {
        Some(t) => Some(t),
        None => json_ts,
    };
    match merged {
        Some(ts) => if ts > 0 && width % ts == 0 && height % ts == 0 {
            if width / ts == 1 && height / ts == 1 && width >= 48 && height >= 48 && width
                == height {
                inferred_tile_size(width, height)
            } else {
                ts
            }
        } else {
            inferred_tile_size(width, height)
        },
        None => inferred_tile_size(width, height),
    }
}

/// Pick the frame size for a map tileset image of `width × height` pixels. `map_tile_size`
/// (from `map.json`) wins over `json_tile_size` (from the tileset's JSON).
pub fn resolve_map_tile_size(
    width: u32,
    height: u32,
    map_tile_size: Option<u32>,
    json_tile_size: Option<u32>,
) -> (r: u32)
    ensures
        r == self::map_tile_size(width, height, map_tile_size, json_tile_size),
        r > 0,
{
    let merged = match map_tile_size {
        Some(t) => Some(t),
        None => json_tile_size,
    };
    let candidate = match merged {
        Some(ts) => {
            if ts > 0 && width % ts == 0 && height % ts == 0 {
                ts
            } else {
                return infer_tile_size_for_square_sheet(width, height);
            }
        },
        None => return infer_tile_size_for_square_sheet(width, height),
    };
    let cols = width / candidate;
    let rows = height / candidate;
    if cols == 1 && rows == 1 && width >= 48 && height >= 48 && width == height {
        infer_tile_size_for_square_sheet(width, height)
    } else {
        candidate
    }
}

// ---------------------------------------------------------------------------------------------
// Sheets from decoded pixels
// ---------------------------------------------------------------------------------------------

/// A sheet of `rows × cols` frames over a `width × height` image.
pub fn sheet_from_grid(pixels: Vec<u32>, width: u32, height: u32, rows: u32, cols: u32) -> (r:
    LoadedSheet)
    requires
        rows > 0,
        cols > 0,
    ensures
        r.pixels@ == pixels@,
        r.width == width,
        r.height == height,
        r.frame_width == width / cols,
        r.frame_height == height / rows,
        r.rows == rows,
        r.cols == cols,
{
    let frame_width = width / cols;
    let frame_height = height / rows;
    LoadedSheet { pixels, width, height, frame_width, frame_height, rows, cols }
}

/// A sheet whose whole image is one frame; `None` for an empty image.
pub fn single_frame_sheet(pixels: Vec<u32>, width: u32, height: u32) -> (r: Option<LoadedSheet>)
    ensures
        match r {
            Some(s) => width > 0 && height > 0 && s.pixels@ == pixels@ && s.width == width
                && s.height == height && s.frame_width == width && s.frame_height == height
                && s.rows == 1 && s.cols == 1,
            None => width == 0 || height == 0,
        },
{
    if width == 0 || height == 0 {
        return None;
    }
    Some(
        LoadedSheet {
            pixels,
            width,
            height,
            frame_width: width,
            frame_height: height,
            rows: 1,
            cols: 1,
        },
    )
}

/// A map tileset: square frames of the resolved tile size; `None` when the image is smaller
/// than one frame in either direction.
pub fn tileset_sheet(
    pixels: Vec<u32>,
    width: u32,
    height: u32,
    map_tile_size: Option<u32>,
    json_tile_size: Option<u32>,
) -> (r: Option<LoadedSheet>)
    ensures
        ({
            let ts = self::map_tile_size(width, height, map_tile_size, json_tile_size);
            match r {
                Some(s) => width / ts > 0 && height / ts > 0 && s.pixels@ == pixels@ && s.width
                    == width && s.height == height && s.frame_width == ts && s.frame_height == ts
                    && s.cols == width / ts && s.rows == height / ts,
                None => width / ts == 0 || height / ts == 0,
            }
        }),
{
    let tile_size = resolve_map_tile_size(width, height, map_tile_size, json_tile_size);
    let cols = width / tile_size;
    let rows = height / tile_size;
    if cols == 0 || rows == 0 {
        return None;
    }
    Some(
        LoadedSheet {
            pixels,
            width,
            height,
            frame_width: tile_size,
            frame_height: tile_size,
            rows,
            cols,
        },
    )
}

/// What the `image` crate decodes from `bytes`: the RGBA bytes of the image, its width and
/// its height.
pub uninterp spec fn decoded_rgba(bytes: Seq<u8>) -> Option<(Seq<u8>, u32, u32)>;

/// `image::load_from_memory` then `into_rgba8`: the image in `bytes` (format guessed from its
/// contents) as 8-bit RGBA. An `ImageBuffer` holds at least `4 * width * height` bytes.
#[verifier::external_body]
fn decode_rgba(bytes: &[u8]) -> (r: Option<(Vec<u8>, u32, u32)>)
    ensures
        match r {
            Some((rgba, w, h)) => decoded_rgba(bytes@) == Some((rgba@, w, h)) && rgba@.len() >= 4
                * w * h,
            None => decoded_rgba(bytes@) is None,
        },
{
    let img = image::load_from_memory(bytes).ok()?.into_rgba8();
    let (w, h) = (img.width(), img.height());
    Some((img.into_raw(), w, h))
}

/// A pixel `0x00RRGGBB`; fully transparent pixels become 0.
pub open spec fn pixel_of(r: u8, g: u8, b: u8, a: u8) -> u32 {
    if a == 0 {
        0
    } else {
        (r * 65536 + g * 256 + b) as u32
    }
}

/// The first `n` pixels of RGBA bytes.
pub open spec fn pixels_view(rgba: Seq<u8>, n: nat) -> Seq<u32> {
    Seq::new(n, |i: int| pixel_of(rgba[4 * i], rgba[4 * i + 1], rgba[4 * i + 2], rgba[4 * i + 3]))
}

/// The pixels, width and height of the image in `bytes`, if it decodes.
pub open spec fn image_pixels(bytes: Seq<u8>) -> Option<(Seq<u32>, u32, u32)> {
    match decoded_rgba(bytes) {
        Some((rgba, w, h)) => Some((pixels_view(rgba, (w * h) as nat), w, h)),
        None => None,
    }
}

fn pack_pixel(r: u8, g: u8, b: u8, a: u8) -> (p: u32)
    ensures
        p == pixel_of(r, g, b, a),
{
    if a == 0 {
        return 0;
    }
    let r = r as u32;
    let g = g as u32;
    let b = b as u32;
    assert((r << 16u32) | (g << 8u32) | b == r * 65536 + g * 256 + b) by (bit_vector)
        requires
            r < 256,
            g < 256,
            b < 256,
    ;
    (r << 16) | (g << 8) | b
}

/// The first `n` pixels of RGBA bytes as `0x00RRGGBB`.
pub fn rgba_to_pixels(rgba: &[u8], n: usize) -> (r: Vec<u32>)
    requires
        4 * n <= rgba@.len(),
    ensures
        r@ == pixels_view(rgba@, n as nat),
{
    let mut out: Vec<u32> = Vec::new();
    let len = rgba.len();
    let mut i: usize = 0;
    while i < n
        invariant
            i <= n,
            len == rgba@.len(),
            4 * n <= rgba@.len(),
            out@ == pixels_view(rgba@, i as nat),
        decreases n - i,
    {
        assert(4 * i + 3 < 4 * n);
        let p = pack_pixel(rgba[4 * i], rgba[4 * i + 1], rgba[4 * i + 2], rgba[4 * i + 3]);
        out.push(p);
        assert(out@ =~= pixels_view(rgba@, (i + 1) as nat));
        i = i + 1;
    }
    out
}

/// Decode an image file's bytes to `0x00RRGGBB` pixels (row-major) with its width and height.
pub fn load_png_bytes(bytes: &[u8]) -> (r: Option<(Vec<u32>, u32, u32)>)
    ensures
        match r {
            Some((p, w, h)) => image_pixels(bytes@) == Some((p@, w, h)),
            None => image_pixels(bytes@) is None,
        },
{
    let (rgba, w, h) = match decode_rgba(bytes) {
        Some(d) => d,
        None => return None,
    };
    assert(w * h <= rgba@.len() && 4 * (w * h) <= rgba@.len()) by (nonlinear_arith)
        requires
            rgba@.len() >= 4 * w * h,
    ;
    assert(rgba@.len() == rgba.len());
    let n = (w as usize) * (h as usize);
    let pixels = rgba_to_pixels(rgba.as_slice(), n);
    Some((pixels, w, h))
}

/// The four RGBA bytes of pixel `p` (`0x00RRGGBB`): 0 is transparent, any other pixel opaque.
pub open spec fn rgba_of(p: u32) -> Seq<u8> {
    seq![
        ((p / 65536) % 256) as u8,
        ((p / 256) % 256) as u8,
        (p % 256) as u8,
        if p == 0 { 0u8 } else { 255u8 },
    ]
}

/// `4 * total` RGBA bytes: those of `pixels` in order, zero past the last pixel.
pub open spec fn rgba_bytes(pixels: Seq<u32>, total: nat) -> Seq<u8> {
    Seq::new(
        4 * total,
        |j: int|
            if j / 4 < pixels.len() {
                rgba_of(pixels[j / 4])[j % 4]
            } else {
                0u8
            },
    )
}

/// The RGBA bytes of a sheet for a texture upload: `4 * width * height` bytes, each pixel's
/// colour with alpha 255, or all zero for a transparent (0) pixel.
///
/// The byte count is computed in `u32`, and the sheet holds at most `width * height` pixels.
pub fn sheet_to_rgba(sheet: &LoadedSheet) -> (r: Vec<u8>)
    requires
        4 * sheet.width * sheet.height <= u32::MAX,
        sheet.pixels@.len() <= sheet.width * sheet.height,
    ensures
        r@ == rgba_bytes(sheet.pixels@, (sheet.width * sheet.height) as nat),
{
    assert(sheet.width * sheet.height <= 4 * sheet.width * sheet.height && 4 * (sheet.width
        * sheet.height) == 4 * sheet.width * sheet.height) by (nonlinear_arith);
    let total: u32 = sheet.width * sheet.height;
    let mut out: Vec<u8> = Vec::new();
    let mut i: u32 = 0;
    while i < total
        invariant
            i <= total,
            total == sheet.width * sheet.height,
            4 * total <= u32::MAX,
            sheet.pixels@.len() <= total,
            out@ =~= rgba_bytes(sheet.pixels@, i as nat),
        decreases total - i,
    {
        let (r, g, b, a): (u8, u8, u8, u8) = if (i as usize) < sheet.pixels.len() {
            let p = sheet.pixels[i as usize];
            (((p / 65536) % 256) as u8, ((p / 256) % 256) as u8, (p % 256) as u8, if p == 0 { 0u8 } else { 255u8 })
        } else {
            (0u8, 0u8, 0u8, 0u8)
        };
        let ghost before = out@;
        out.push(r);
        out.push(g);
        out.push(b);
        out.push(a);
        proof {
            let n = (i + 1) as nat;
            assert forall|j: int| 0 <= j < 4 * n implies #[trigger] out@[j] == rgba_bytes(sheet.pixels@, n)[j] by {
                if j < 4 * i {
                    assert(out@[j] == before[j]);
                } else {
                    let k = j - 4 * i;
                    vstd::arithmetic::div_mod::lemma_fundamental_div_mod_converse(j, 4, i as int, k);
                }
            }
        }
        i = i + 1;
    }
    out
}

/// Unpacking a sheet to RGBA bytes and packing them again gives the sheet's pixels back, for
/// pixels of the form a decoded image has (`0x00RRGGBB`, below 2^24).
pub proof fn law_rgba_round_trip(pixels: Seq<u32>)
    requires
        forall|i: int| 0 <= i < pixels.len() ==> #[trigger] pixels[i] < 0x100_0000,
    ensures
        pixels_view(rgba_bytes(pixels, pixels.len()), pixels.len()) == pixels,
{
    let bytes = rgba_bytes(pixels, pixels.len());
    assert forall|i: int| 0 <= i < pixels.len() implies #[trigger] pixels_view(bytes, pixels.len())[i] == pixels[i] by {
        let p = pixels[i];
        assert(p < 0x100_0000);
        vstd::arithmetic::div_mod::lemma_fundamental_div_mod_converse(4 * i, 4, i, 0);
        vstd::arithmetic::div_mod::lemma_fundamental_div_mod_converse(4 * i + 1, 4, i, 1);
        vstd::arithmetic::div_mod::lemma_fundamental_div_mod_converse(4 * i + 2, 4, i, 2);
        vstd::arithmetic::div_mod::lemma_fundamental_div_mod_converse(4 * i + 3, 4, i, 3);
        assert(((p / 65536) % 256) * 65536 + ((p / 256) % 256) * 256 + p % 256 == p) by (bit_vector)
            requires
                p < 0x100_0000,
        ;
    }
    assert(pixels_view(bytes, pixels.len()) =~= pixels);
}

/// FNV-1a offset basis and prime (64-bit).
pub const FNV_OFFSET: u64 = 14695981039346656037;

pub const FNV_PRIME: u64 = 1099511628211;

/// One FNV-1a step: xor in `x`, multiply by the prime modulo 2^64.
pub open spec fn fnv_mix(h: u64, x: u64) -> u64 {
    (((h ^ x) as nat * FNV_PRIME as nat) % 0x1_0000_0000_0000_0000nat) as u64
}

/// FNV-1a of `xs` (each value one step) from `h`.
pub open spec fn fnv_fold(h: u64, xs: Seq<u64>) -> u64
    decreases xs.len(),
{
    if xs.len() == 0 {
        h
    } else {
        fnv_mix(fnv_fold(h, xs.drop_last()), xs.last())
    }
}

/// The values a sheet tag hashes: the six grid numbers, then every pixel.
pub open spec fn sheet_tag_values(s: LoadedSheet) -> Seq<u64> {
    seq![
        s.width as u64,
        s.height as u64,
        s.frame_width as u64,
        s.frame_height as u64,
        s.cols as u64,
        s.rows as u64,
    ] + s.pixels@.map_values(|p: u32| p as u64)
}

/// A content tag of a sheet (FNV-1a over its grid numbers and pixels), to tell whether a
/// texture must be uploaded again.
pub fn loaded_sheet_tag(sheet: &LoadedSheet) -> (r: u64)
    ensures
        r == fnv_fold(FNV_OFFSET, sheet_tag_values(*sheet)),
{
    let ghost vals = sheet_tag_values(*sheet);
    let header: [u64; 6] = [
        sheet.width as u64,
        sheet.height as u64,
        sheet.frame_width as u64,
        sheet.frame_height as u64,
        sheet.cols as u64,
        sheet.rows as u64,
    ];
    let mut h: u64 = FNV_OFFSET;
    let mut i: usize = 0;
    while i < 6
        invariant
            i <= 6,
            header@ == vals.take(6),
            vals.len() == 6 + sheet.pixels@.len(),
            vals == sheet_tag_values(*sheet),
            h == fnv_fold(FNV_OFFSET, vals.take(i as int)),
        decreases 6 - i,
    {
        proof {
            assert(vals.take(i + 1).drop_last() =~= vals.take(i as int));
            assert(vals.take(i + 1).last() == header@[i as int]);
        }
        h = (h ^ header[i]).wrapping_mul(FNV_PRIME);
        i = i + 1;
    }
    let mut k: usize = 0;
    while k < sheet.pixels.len()
        invariant
            k <= sheet.pixels@.len(),
            vals.len() == 6 + sheet.pixels@.len(),
            vals == sheet_tag_values(*sheet),
            h == fnv_fold(FNV_OFFSET, vals.take(6 + k)),
        decreases sheet.pixels@.len() - k,
    {
        proof {
            assert(vals.take(6 + k + 1).drop_last() =~= vals.take(6 + k));
            assert(vals.take(6 + k + 1).last() == sheet.pixels@[k as int] as u64);
        }
        h = (h ^ (sheet.pixels[k] as u64)).wrapping_mul(FNV_PRIME);
        k = k + 1;
    }
    assert(vals.take(6 + k) =~= vals);
    h
}

// ---------------------------------------------------------------------------------------------
// Asset ids and folders
// ---------------------------------------------------------------------------------------------

/// Characters that separate the words of a snake_case or kebab id.
pub open spec fn is_id_separator(c: char) -> bool {
    c == '_' || c == '-' || c == ' '
}

/// What character `i` of `s` becomes in camelCase: separators vanish, and a character after a
/// separator is upper-cased.
pub open spec fn camel_piece(s: Seq<char>, i: int) -> Seq<char> {
    if is_id_separator(s[i]) {
        seq![]
    } else if i > 0 && is_id_separator(s[i - 1]) {
        char_upper_view(s[i])
    } else {
        seq![s[i]]
    }
}

/// `s` in camelCase.
pub open spec fn camel_view(s: Seq<char>) -> Seq<char> {
    Seq::new(s.len(), |i: int| camel_piece(s, i)).flatten()
}

/// What character `i` of `s` becomes in snake_case: an upper-case character is lower-cased,
/// with `_` before it unless it comes first.
pub open spec fn snake_piece(s: Seq<char>, i: int) -> Seq<char> {
    if unicode_uppercase(s[i]) {
        if i > 0 {
            seq!['_'] + char_lower_view(s[i])
        } else {
            char_lower_view(s[i])
        }
    } else {
        seq![s[i]]
    }
}

/// `s` in snake_case.
pub open spec fn snake_view(s: Seq<char>) -> Seq<char> {
    Seq::new(s.len(), |i: int| snake_piece(s, i)).flatten()
}

proof fn lemma_pieces_push(n: int, f: spec_fn(int) -> Seq<char>)
    requires
        n >= 0,
    ensures
        Seq::new((n + 1) as nat, f).flatten() == Seq::new(n as nat, f).flatten() + f(n),
{
    assert(Seq::new((n + 1) as nat, f) =~= Seq::new(n as nat, f).push(f(n)));
    Seq::new(n as nat, f).lemma_flatten_push(f(n));
}

/// `snake_case` / `kebab-case` / `space separated` to camelCase (`south_heavy` → `southHeavy`).
pub fn snake_to_camel_id(id: &str) -> (r: String)
    ensures
        r@ == camel_view(id@),
{
    let n = id.unicode_len();
    let mut out = String::new();
    let mut uppercase_next = false;
    let mut i: usize = 0;
    while i < n
        invariant
            i <= n,
            n == id@.len(),
            uppercase_next == (i > 0 && is_id_separator(id@[i - 1])),
            out@ == Seq::new(i as nat, |j: int| camel_piece(id@, j)).flatten(),
        decreases n - i,
    {
        let ch = id.get_char(i);
        proof {
            lemma_pieces_push(i as int, |j: int| camel_piece(id@, j));
        }
        if ch == '_' || ch == '-' || ch == ' ' {
            uppercase_next = true;
            assert(out@ =~= out@ + camel_piece(id@, i as int));
        } else if uppercase_next {
            let u = char_to_upper(ch);
            out.append(u.as_str());
            uppercase_next = false;
        } else {
            push_char(&mut out, ch);
            uppercase_next = false;
        }
        i = i + 1;
    }
    out
}

/// camelCase to snake_case (`southHeavy` → `south_heavy`).
pub fn camel_to_snake_id(id: &str) -> (r: String)
    ensures
        r@ == snake_view(id@),
{
    let n = id.unicode_len();
    let mut out = String::new();
    let mut i: usize = 0;
    while i < n
        invariant
            i <= n,
            n == id@.len(),
            out@ == Seq::new(i as nat, |j: int| snake_piece(id@, j)).flatten(),
        decreases n - i,
    {
        let ch = id.get_char(i);
        proof {
            lemma_pieces_push(i as int, |j: int| snake_piece(id@, j));
        }
        if char_is_upper(ch) {
            if i > 0 {
                push_char(&mut out, '_');
            }
            let l = char_to_lower(ch);
            out.append(l.as_str());
        } else {
            push_char(&mut out, ch);
        }
        i = i + 1;
    }
    out
}

/// `v` with `x` appended unless it already holds it.
pub open spec fn with_unique(v: Seq<Seq<char>>, x: Seq<char>) -> Seq<Seq<char>> {
    if v.contains(x) {
        v
    } else {
        v.push(x)
    }
}

/// Append `value` unless an equal string is already there.
pub fn push_unique(vec: &mut Vec<String>, value: String)
    ensures
        names(final(vec)@) == with_unique(names(old(vec)@), value@),
{
    if !list_contains(vec, value.as_str()) {
        let ghost before = vec@;
        proof {
            lemma_names_push(before, value);
        }
        vec.push(value);
    }
}

/// The spellings an asset id is looked up under, in order and without repeats: the trimmed
/// id, its camelCase and its snake_case. None for a blank id.
pub open spec fn id_variants(id: Seq<char>) -> Seq<Seq<char>> {
    let t = trim_view(id);
    if t.len() == 0 {
        seq![]
    } else {
        with_unique(with_unique(seq![t], camel_view(t)), snake_view(t))
    }
}

/// The spellings an asset id is looked up under.
pub fn asset_id_variants(id: &str) -> (r: Vec<String>)
    ensures
        names(r@) == id_variants(id@),
{
    let mut variants: Vec<String> = Vec::new();
    let trimmed = trim(id);
    if trimmed.unicode_len() == 0 {
        assert(names(variants@) =~= seq![]);
        return variants;
    }
    assert(names(variants@) =~= Seq::<Seq<char>>::empty());
    push_unique(&mut variants, owned(trimmed));
    assert(with_unique(Seq::<Seq<char>>::empty(), trimmed@) =~= seq![trimmed@]);
    push_unique(&mut variants, snake_to_camel_id(trimmed));
    push_unique(&mut variants, camel_to_snake_id(trimmed));
    variants
}

/// The first `prefix + v + suffix`, for `v` in `vs` in order, that is one of `folders`.
pub open spec fn first_folder(
    vs: Seq<Seq<char>>,
    prefix: Seq<char>,
    suffix: Seq<char>,
    folders: Seq<Seq<char>>,
) -> Option<Seq<char>>
    decreases vs.len(),
{
    if vs.len() == 0 {
        None
    } else if folders.contains(prefix + vs[0] + suffix) {
        Some(prefix + vs[0] + suffix)
    } else {
        first_folder(vs.drop_first(), prefix, suffix, folders)
    }
}

/// The first of `prefix + v + suffix`, for `v` in `variants`, that `folders` holds.
fn find_folder(variants: &Vec<String>, prefix: &str, suffix: &str, folders: &Vec<String>) -> (r:
    Option<String>)
    ensures
        match r {
            Some(f) => first_folder(names(variants@), prefix@, suffix@, names(folders@)) == Some(
                f@,
            ),
            None => first_folder(names(variants@), prefix@, suffix@, names(folders@)) is None,
        },
{
    let mut i: usize = 0;
    assert(names(variants@).skip(0) =~= names(variants@));
    while i < variants.len()
        invariant
            i <= variants@.len(),
            first_folder(names(variants@), prefix@, suffix@, names(folders@)) == first_folder(
                names(variants@).skip(i as int),
                prefix@,
                suffix@,
                names(folders@),
            ),
        decreases variants@.len() - i,
    {
        let a = concat(prefix, variants[i].as_str());
        let candidate = concat(a.as_str(), suffix);
        let ghost rest = names(variants@).skip(i as int);
        assert(rest[0] == variants@[i as int]@);
        assert(rest.drop_first() =~= names(variants@).skip(i + 1));
        if list_contains(folders, candidate.as_str()) {
            return Some(candidate);
        }
        i = i + 1;
    }
    assert(names(variants@).skip(i as int).len() == 0);
    assert(names(variants@).skip(0) =~= names(variants@));
    None
}

/// The folder a map prop id resolves to: the first spelling `v` with a folder `{v}.prop`,
/// else the first spelling that is itself a folder (legacy layout).
pub open spec fn map_prop_folder(id: Seq<char>, folders: Seq<Seq<char>>) -> Option<Seq<char>> {
    match first_folder(id_variants(id), ""@, ".prop"@, folders) {
        Some(f) => Some(f),
        None => first_folder(id_variants(id), ""@, ""@, folders),
    }
}

/// The folder a door prop id resolves to: the first spelling `v` with a folder `{v}.door`,
/// else the first with a legacy folder `door_{v}`.
pub open spec fn door_prop_folder(id: Seq<char>, folders: Seq<Seq<char>>) -> Option<Seq<char>> {
    match first_folder(id_variants(id), ""@, ".door"@, folders) {
        Some(f) => Some(f),
        None => first_folder(id_variants(id), "door_"@, ""@, folders),
    }
}

/// Resolve a map `props.json` id to a folder under `assets/props/`, given the folders there
/// that hold a `sheet.png`. The preferred layout is `{id}.prop/` with camelCase ids
/// (`billyHouse`); plain folders and snake_case ids are accepted too.
pub fn resolve_map_prop_sheet_id(id: &str, prop_folders: &Vec<String>) -> (r: Option<String>)
    ensures
        match r {
            Some(f) => map_prop_folder(id@, names(prop_folders@)) == Some(f@),
            None => map_prop_folder(id@, names(prop_folders@)) is None,
        },
{
    let variants = asset_id_variants(id);
    match find_folder(&variants, "", ".prop", prop_folders) {
        Some(f) => Some(f),
        None => find_folder(&variants, "", "", prop_folders),
    }
}

/// Resolve a door `prop` id from `doors.json` to a folder under `assets/props/`, given the
/// folders there that hold a `sheet.png`. The preferred layout is `{id}.door/` with camelCase
/// ids (`southHeavy`); legacy `door_{id}` folders are accepted too.
pub fn resolve_door_prop_sheet_id(id: &str, prop_folders: &Vec<String>) -> (r: Option<String>)
    ensures
        match r {
            Some(f) => door_prop_folder(id@, names(prop_folders@)) == Some(f@),
            None => door_prop_folder(id@, names(prop_folders@)) is None,
        },
{
    let variants = asset_id_variants(id);
    match find_folder(&variants, "", ".door", prop_folders) {
        Some(f) => Some(f),
        None => find_folder(&variants, "door_", "", prop_folders),
    }
}

// ---------------------------------------------------------------------------------------------
// The sheet cache
// ---------------------------------------------------------------------------------------------

/// Cache key of a dedicated dialogue portrait: `{npc_id}__dialogue_portrait`.
pub fn dialogue_portrait_asset_key(npc_id: &str) -> (r: String)
    ensures
        r@ == npc_id@ + "__dialogue_portrait"@,
{
    concat(npc_id, "__dialogue_portrait")
}

/// Cache key of a skill icon image: `skill_icon:{skill_id}`.
pub fn skill_image_key(skill_id: &str) -> (r: String)
    ensures
        r@ == "skill_icon:"@ + skill_id@,
{
    concat("skill_icon:", skill_id)
}

/// Sprite sheets by key, each loaded on first request; and the NPC ids whose dialogue
/// portrait was looked for and is missing (not looked for again).
pub struct AssetStore {
    sheets: KeyedCache<LoadedSheet>,
    dialogue_portrait_misses: NameSet,
}

impl AssetStore {
    /// The sheet cached under `key`, if any.
    pub closed spec fn sheet(&self, key: Seq<char>) -> Option<LoadedSheet> {
        self.sheets.lookup(key)
    }

    /// Whether the portrait of `npc_id` is known to be missing.
    pub closed spec fn portrait_missing(&self, npc_id: Seq<char>) -> bool {
        self.dialogue_portrait_misses@.contains(npc_id)
    }

    /// An empty store.
    pub fn new() -> (r: Self)
        ensures
            forall|k: Seq<char>| r.sheet(k) is None,
            forall|id: Seq<char>| !r.portrait_missing(id),
    {
        AssetStore { sheets: KeyedCache::new(), dialogue_portrait_misses: NameSet::new() }
    }

    /// The sheet of character `id`, loading it with `load(id)` on the first request. A failed
    /// load caches nothing, so the next request tries again.
    pub fn get_sheet<F: FnOnce(&str) -> Option<LoadedSheet>>(&mut self, id: &str, load: F) -> (r:
        Option<&LoadedSheet>)
        requires
            call_requires(load, (id,)),
        ensures
            forall|n: Seq<char>| final(self).portrait_missing(n) == old(self).portrait_missing(n),
            match old(self).sheet(id@) {
                Some(s) => r == Some(&s) && forall|k: Seq<char>|
                    final(self).sheet(k) == old(self).sheet(k),
                None => exists|loaded: Option<LoadedSheet>|
                    {
                        &&& call_ensures(load, (id,), loaded)
                        &&& r == match loaded {
                            Some(s) => Some(&s),
                            None => None,
                        }
                        &&& final(self).sheet(id@) == loaded
                        &&& forall|k: Seq<char>| k != id@ ==> final(self).sheet(k) == old(self).sheet(k)
                    },
            },
    {
        self.sheets.get_or_load(id, load)
    }

    /// The icon of skill `skill_id`, cached under [`skill_image_key`]; on a miss `load(skill_id)`
    /// is called once and a loaded image is cached.
    pub fn get_skill_image<F: FnOnce(&str) -> Option<LoadedSheet>>(&mut self, skill_id: &str, load: F) -> (r:
        Option<&LoadedSheet>)
        requires
            call_requires(load, (skill_id,)),
        ensures
            forall|n: Seq<char>| final(self).portrait_missing(n) == old(self).portrait_missing(n),
            ({
                let key = "skill_icon:"@ + skill_id@;
                match old(self).sheet(key) {
                    Some(s) => r == Some(&s) && forall|k: Seq<char>|
                        final(self).sheet(k) == old(self).sheet(k),
                    None => exists|loaded: Option<LoadedSheet>|
                        {
                            &&& call_ensures(load, (skill_id,), loaded)
                            &&& r == match loaded {
                                Some(s) => Some(&s),
                                None => None,
                            }
                            &&& final(self).sheet(key) == loaded
                            &&& forall|k: Seq<char>| k != key ==> final(self).sheet(k) == old(self).sheet(k)
                        },
                }
            }),
    {
        let key = skill_image_key(skill_id);
        if !self.sheets.contains(key.as_str()) {
            if let Some(sheet) = load(skill_id) {
                self.sheets.insert_new(key.as_str(), sheet);
            }
        }
        self.sheets.get(key.as_str())
    }

    /// The dedicated dialogue portrait of `npc_id`, cached under
    /// [`dialogue_portrait_asset_key`]. On a miss `load(npc_id)` is called once: a loaded
    /// portrait is cached, a missing one is remembered and never looked for again.
    pub fn get_dialogue_portrait_sheet<F: FnOnce(&str) -> Option<LoadedSheet>>(&mut self, npc_id: &str, load: F) -> (r:
        Option<&LoadedSheet>)
        requires
            call_requires(load, (npc_id,)),
        ensures
            ({
                let key = npc_id@ + "__dialogue_portrait"@;
                if old(self).portrait_missing(npc_id@) {
                    r is None && forall|k: Seq<char>| final(self).sheet(k) == old(self).sheet(k)
                        && forall|n: Seq<char>|
                        final(self).portrait_missing(n) == old(self).portrait_missing(n)
                } else {
                    match old(self).sheet(key) {
                        Some(s) => r == Some(&s) && forall|k: Seq<char>|
                            final(self).sheet(k) == old(self).sheet(k) && forall|n: Seq<char>|
                            final(self).portrait_missing(n) == old(self).portrait_missing(n),
                        None => exists|loaded: Option<LoadedSheet>|
                            {
                                &&& call_ensures(load, (npc_id,), loaded)
                                &&& r == match loaded {
                                    Some(s) => Some(&s),
                                    None => None,
                                }
                                &&& final(self).sheet(key) == loaded
                                &&& forall|k: Seq<char>| k != key ==> final(self).sheet(k) == old(self).sheet(k)
                                &&& forall|n: Seq<char>|
                                    final(self).portrait_missing(n) == (old(self).portrait_missing(n)
                                        || (loaded is None && n == npc_id@))
                            },
                    }
                }
            }),
    {
        let key = dialogue_portrait_asset_key(npc_id);
        if self.dialogue_portrait_misses.contains(npc_id) {
            return None;
        }
        if !self.sheets.contains(key.as_str()) {
            match load(npc_id) {
                Some(sheet) => {
                    self.sheets.insert_new(key.as_str(), sheet);
                },
                None => {
                    self.dialogue_portrait_misses.insert(npc_id);
                },
            }
        }
        self.sheets.get(key.as_str())
    }
}

impl Default for AssetStore {
    fn default() -> (r: Self)
        ensures
            forall|k: Seq<char>| r.sheet(k) is None,
            forall|id: Seq<char>| !r.portrait_missing(id),
    {
        AssetStore::new()
    }
}

} // verus!
