//! # UI layout
//!
//! Screen-space rectangles and positions, in pixels, from the theme sizes and the screen size.
//! Theme sizes are 1×; every size is multiplied by the UI scale (at least 1). Rectangles are
//! `(left, top, right, bottom)`. All arithmetic is `i32`; each function states the range its
//! sums and products must stay in.

use vstd::prelude::*;

use crate::ui::theme::UiTheme;

verus! {

/// Whether `x` is an `i32`.
pub open spec fn fits(x: int) -> bool {
    i32::MIN <= x <= i32::MAX
}

/// The UI scale used: `ui_scale`, at least 1.
pub open spec fn sc(ui_scale: i32) -> int {
    if ui_scale < 1 {
        1
    } else {
        ui_scale as int
    }
}

/// Integer division by 2, rounding toward zero (Rust's `/`).
pub open spec fn half(x: int) -> int {
    if x >= 0 {
        x / 2
    } else {
        -((-x) / 2)
    }
}

/// The UI scale used: `ui_scale`, at least 1.
pub fn s(ui_scale: i32) -> (r: i32)
    ensures
        r == sc(ui_scale),
{
    if ui_scale < 1 {
        1
    } else {
        ui_scale
    }
}

/// Max rows per backpack section (fixed layout reservation).
pub const BACKPACK_MAX_USABLE_SLOTS: usize = 8;

pub const BACKPACK_MAX_WEAPON_SLOTS: usize = 4;

pub const BACKPACK_MAX_PASSIVE_SLOTS: usize = 4;

/// Dialogue box along the bottom of the screen, `dialogue_box_height` tall.
pub fn dialogue_box_rect(screen_w: u32, screen_h: u32, theme: &UiTheme, ui_scale: i32) -> (r: (
    i32,
    i32,
    i32,
    i32,
))
    requires
        fits(theme.dialogue_box_height * sc(ui_scale)),
        fits((screen_h as i32) - theme.dialogue_box_height * sc(ui_scale)),
    ensures
        r == (0i32, ((screen_h as i32) - theme.dialogue_box_height * sc(ui_scale)) as i32, screen_w as i32, screen_h as i32),
{
    let sc = s(ui_scale);
    let h = screen_h as i32;
    let box_h = theme.dialogue_box_height * sc;
    let top = h - box_h;
    (0, top, screen_w as i32, h)
}

/// Extra left offset of the dialogue text when a portrait is shown: portrait width plus gap.
pub fn dialogue_portrait_text_extra_left(theme: &UiTheme, ui_scale: i32) -> (r: i32)
    requires
        fits(theme.dialogue_portrait_width * sc(ui_scale)),
        fits(theme.dialogue_portrait_gap * sc(ui_scale)),
        fits(theme.dialogue_portrait_width * sc(ui_scale) + theme.dialogue_portrait_gap * sc(ui_scale)),
    ensures
        r == theme.dialogue_portrait_width * sc(ui_scale) + theme.dialogue_portrait_gap * sc(ui_scale),
{
    let sc = s(ui_scale);
    theme.dialogue_portrait_width * sc + theme.dialogue_portrait_gap * sc
}

/// Portrait inside the dialogue box, at the text's top-left padding.
pub fn dialogue_portrait_rect(screen_w: u32, screen_h: u32, theme: &UiTheme, ui_scale: i32) -> (r: (
    i32,
    i32,
    i32,
    i32,
))
    requires
        fits(theme.dialogue_box_height * sc(ui_scale)),
        fits((screen_h as i32) - theme.dialogue_box_height * sc(ui_scale)),
        fits(theme.dialogue_padding_x * sc(ui_scale)),
        fits(theme.dialogue_padding_y * sc(ui_scale)),
        fits(theme.dialogue_portrait_width * sc(ui_scale)),
        fits(theme.dialogue_portrait_height * sc(ui_scale)),
        fits((screen_h as i32) - theme.dialogue_box_height * sc(ui_scale) + theme.dialogue_padding_y * sc(ui_scale)),
        fits(theme.dialogue_padding_x * sc(ui_scale) + theme.dialogue_portrait_width * sc(ui_scale)),
        fits((screen_h as i32) - theme.dialogue_box_height * sc(ui_scale) + theme.dialogue_padding_y * sc(ui_scale)
            + theme.dialogue_portrait_height * sc(ui_scale)),
    ensures
        ({
            let left = theme.dialogue_padding_x * sc(ui_scale);
            let top = (screen_h as i32) - theme.dialogue_box_height * sc(ui_scale) + theme.dialogue_padding_y * sc(ui_scale);
            r == (left as i32, top as i32, (left + theme.dialogue_portrait_width * sc(ui_scale)) as i32, (top
                + theme.dialogue_portrait_height * sc(ui_scale)) as i32)
        }),
{
    let (_, dtop, _, _) = dialogue_box_rect(screen_w, screen_h, theme, ui_scale);
    let sc = s(ui_scale);
    let left = theme.dialogue_padding_x * sc;
    let top = dtop + theme.dialogue_padding_y * sc;
    let pw = theme.dialogue_portrait_width * sc;
    let ph = theme.dialogue_portrait_height * sc;
    (left, top, left + pw, top + ph)
}

/// Dialogue text origin inside the box (padding), `extra_left` further right.
pub fn dialogue_text_pos(
    screen_w: u32,
    screen_h: u32,
    dialogue_top: i32,
    theme: &UiTheme,
    ui_scale: i32,
    extra_left: i32,
) -> (r: (i32, i32))
    requires
        fits(theme.dialogue_padding_x * sc(ui_scale)),
        fits(theme.dialogue_padding_y * sc(ui_scale)),
        fits(theme.dialogue_padding_x * sc(ui_scale) + extra_left),
        fits(dialogue_top + theme.dialogue_padding_y * sc(ui_scale)),
    ensures
        r == ((theme.dialogue_padding_x * sc(ui_scale) + extra_left) as i32, (dialogue_top
            + theme.dialogue_padding_y * sc(ui_scale)) as i32),
{
    let sc = s(ui_scale);
    let x = theme.dialogue_padding_x * sc + extra_left;
    let y = dialogue_top + theme.dialogue_padding_y * sc;
    (x, y)
}

/// Band along the bottom of the screen for transient overworld messages: two paddings plus
/// 22 px tall, 8 px above the bottom edge, full width.
pub fn overworld_toast_band_rect(screen_w: u32, screen_h: u32, theme: &UiTheme, ui_scale: i32) -> (r: (
    i32,
    i32,
    i32,
    i32,
))
    requires
        fits(theme.dialogue_padding_y * sc(ui_scale)),
        fits(theme.dialogue_padding_y * sc(ui_scale) * 2),
        fits(22 * sc(ui_scale)),
        fits(theme.dialogue_padding_y * sc(ui_scale) * 2 + 22 * sc(ui_scale)),
        fits(8 * sc(ui_scale)),
        fits((screen_h as i32) - 8 * sc(ui_scale)),
        fits((screen_h as i32) - 8 * sc(ui_scale) - (theme.dialogue_padding_y * sc(ui_scale) * 2 + 22 * sc(ui_scale))),
    ensures
        ({
            let bottom = (screen_h as i32) - 8 * sc(ui_scale);
            let band_h = theme.dialogue_padding_y * sc(ui_scale) * 2 + 22 * sc(ui_scale);
            r == (0i32, (bottom - band_h) as i32, screen_w as i32, bottom as i32)
        }),
{
    let sc = s(ui_scale);
    let h = screen_h as i32;
    let pad_y = theme.dialogue_padding_y * sc;
    let band_h = pad_y * 2 + 22 * sc;
    let margin_bot = 8 * sc;
    let bottom = h - margin_bot;
    let top = bottom - band_h;
    (0, top, screen_w as i32, bottom)
}

/// Text origin inside the toast band (top-left of the first line).
pub fn overworld_toast_text_pos(band_top: i32, theme: &UiTheme, ui_scale: i32) -> (r: (i32, i32))
    requires
        fits(theme.dialogue_padding_x * sc(ui_scale)),
        fits(theme.dialogue_padding_y * sc(ui_scale)),
        fits(band_top + theme.dialogue_padding_y * sc(ui_scale)),
    ensures
        r == ((theme.dialogue_padding_x * sc(ui_scale)) as i32, (band_top + theme.dialogue_padding_y
            * sc(ui_scale)) as i32),
{
    let sc = s(ui_scale);
    (theme.dialogue_padding_x * sc, band_top + theme.dialogue_padding_y * sc)
}

/// Backpack panel centred on the screen.
pub fn backpack_panel_rect(screen_w: u32, screen_h: u32, theme: &UiTheme, ui_scale: i32) -> (r: (
    i32,
    i32,
    i32,
    i32,
))
    requires
        fits(theme.backpack_panel_width * sc(ui_scale)),
        fits(theme.backpack_panel_height * sc(ui_scale)),
        fits((screen_w as i32) - theme.backpack_panel_width * sc(ui_scale)),
        fits((screen_h as i32) - theme.backpack_panel_height * sc(ui_scale)),
        fits(half((screen_w as i32) - theme.backpack_panel_width * sc(ui_scale)) + theme.backpack_panel_width
            * sc(ui_scale)),
        fits(half((screen_h as i32) - theme.backpack_panel_height * sc(ui_scale)) + theme.backpack_panel_height
            * sc(ui_scale)),
    ensures
        ({
            let pw = theme.backpack_panel_width * sc(ui_scale);
            let ph = theme.backpack_panel_height * sc(ui_scale);
            let left = half((screen_w as i32) - pw);
            let top = half((screen_h as i32) - ph);
            r == (left as i32, top as i32, (left + pw) as i32, (top + ph) as i32)
        }),
{
    let sc = s(ui_scale);
    let w = screen_w as i32;
    let h = screen_h as i32;
    let pw = theme.backpack_panel_width * sc;
    let ph = theme.backpack_panel_height * sc;
    let left = (w - pw) / 2;
    let top = (h - ph) / 2;
    (left, top, left + pw, top + ph)
}

/// Y of the panel title, at the top of the panel content.
pub fn backpack_panel_title_y(panel_top: i32, theme: &UiTheme, ui_scale: i32) -> (r: i32)
    requires
        fits(theme.backpack_padding * sc(ui_scale)),
        fits(panel_top + theme.backpack_padding * sc(ui_scale)),
    ensures
        r == panel_top + theme.backpack_padding * sc(ui_scale),
{
    let sc = s(ui_scale);
    panel_top + theme.backpack_padding * sc
}

/// Y of the hotkey hint line at the bottom of the panel.
pub fn backpack_hotkey_hint_y(panel_bottom: i32, theme: &UiTheme, ui_scale: i32) -> (r: i32)
    requires
        fits(theme.backpack_padding * sc(ui_scale)),
        fits(14 * sc(ui_scale)),
        fits(panel_bottom - theme.backpack_padding * sc(ui_scale)),
        fits(panel_bottom - theme.backpack_padding * sc(ui_scale) - 14 * sc(ui_scale)),
    ensures
        r == panel_bottom - theme.backpack_padding * sc(ui_scale) - 14 * sc(ui_scale),
{
    let sc = s(ui_scale);
    panel_bottom - theme.backpack_padding * sc - 14 * sc
}

/// Y of the "Usable" section title: below the panel title (20 px) and an 8 px gap.
pub open spec fn usable_title_y(panel_top: i32, theme: UiTheme, ui_scale: i32) -> int {
    panel_top + theme.backpack_padding * sc(ui_scale) + 20 * sc(ui_scale) + 8 * sc(ui_scale)
}

/// The usable title position stays in `i32`.
pub open spec fn usable_title_fits(panel_top: i32, theme: UiTheme, ui_scale: i32) -> bool {
    &&& fits(theme.backpack_padding * sc(ui_scale))
    &&& fits(panel_top + theme.backpack_padding * sc(ui_scale))
    &&& fits(20 * sc(ui_scale))
    &&& fits(8 * sc(ui_scale))
    &&& fits(panel_top + theme.backpack_padding * sc(ui_scale) + 20 * sc(ui_scale))
    &&& fits(usable_title_y(panel_top, theme, ui_scale))
}

/// Y of the "Usable" section title.
pub fn backpack_usable_title_y(panel_top: i32, theme: &UiTheme, ui_scale: i32) -> (r: i32)
    requires
        usable_title_fits(panel_top, *theme, ui_scale),
    ensures
        r == usable_title_y(panel_top, *theme, ui_scale),
{
    let sc = s(ui_scale);
    backpack_panel_title_y(panel_top, theme, ui_scale) + 20 * sc + 8 * sc
}

/// One slot row: the slot height plus a 4 px gap.
pub open spec fn stride(theme: UiTheme, ui_scale: i32) -> int {
    theme.backpack_slot_height * sc(ui_scale) + 4 * sc(ui_scale)
}

/// The stride stays in `i32`.
pub open spec fn stride_fits(theme: UiTheme, ui_scale: i32) -> bool {
    &&& fits(theme.backpack_slot_height * sc(ui_scale))
    &&& fits(4 * sc(ui_scale))
    &&& fits(stride(theme, ui_scale))
}

/// Y of usable slot `i`: 20 px below the "Usable" title, then one stride per slot.
pub open spec fn usable_slot_y(panel_top: i32, theme: UiTheme, ui_scale: i32, i: int) -> int {
    usable_title_y(panel_top, theme, ui_scale) + 20 * sc(ui_scale) + stride(theme, ui_scale) * i
}

/// Every usable slot, however far down the list, lies below the "Usable" title, slot 0 right
/// under it, and consecutive slots are one stride (slot height plus 4 px, scaled) apart (for
/// a non-negative slot height).
pub proof fn law_usable_slots_below_title(panel_top: i32, theme: UiTheme, ui_scale: i32, i: int)
    requires
        theme.backpack_slot_height >= 0,
        0 <= i,
    ensures
        usable_slot_y(panel_top, theme, ui_scale, 0) == usable_title_y(panel_top, theme, ui_scale) + 20
            * sc(ui_scale),
        usable_slot_y(panel_top, theme, ui_scale, i) >= usable_title_y(panel_top, theme, ui_scale) + 20
            * sc(ui_scale),
        usable_slot_y(panel_top, theme, ui_scale, i + 1) == usable_slot_y(panel_top, theme, ui_scale, i)
            + theme.backpack_slot_height * sc(ui_scale) + 4 * sc(ui_scale),
{
    let st = stride(theme, ui_scale);
    assert(theme.backpack_slot_height * sc(ui_scale) >= 0) by (nonlinear_arith)
        requires
            theme.backpack_slot_height >= 0,
            sc(ui_scale) >= 1,
    ;
    assert(st * i >= 0) by (nonlinear_arith)
        requires
            st >= 0,
            i >= 0,
    ;
    assert(st * (i + 1) == st * i + st) by (nonlinear_arith);
    assert(st * 0 == 0);
}

/// Y of usable slot `index`: the first slot just below the "Usable" title (20 px tall), each
/// further slot one stride lower.
pub fn backpack_usable_slot_y(panel_top: i32, theme: &UiTheme, index: usize, ui_scale: i32) -> (r: i32)
    requires
        usable_title_fits(panel_top, *theme, ui_scale),
        stride_fits(*theme, ui_scale),
        fits(stride(*theme, ui_scale) * (index as i32)),
        fits(usable_title_y(panel_top, *theme, ui_scale) + 20 * sc(ui_scale)),
        fits(usable_title_y(panel_top, *theme, ui_scale) + 20 * sc(ui_scale) + stride(*theme, ui_scale)
            * (index as i32)),
    ensures
        r == usable_slot_y(panel_top, *theme, ui_scale, (index as i32) as int),
{
    let sc = s(ui_scale);
    let title_h = 20 * sc;
    let gap = 4 * sc;
    let slot_h = theme.backpack_slot_height * sc;
    backpack_usable_title_y(panel_top, theme, ui_scale) + title_h + (slot_h + gap)
        * #[verifier::truncate] (index as i32)
}

/// Y of the "Weapons" title: below the usable block (the usable title and the reserved usable
/// rows) and a 12 px section gap.
pub open spec fn weapon_title_y(panel_top: i32, theme: UiTheme, ui_scale: i32) -> int {
    usable_title_y(panel_top, theme, ui_scale) + (20 * sc(ui_scale) + stride(theme, ui_scale) * 8) + 12
        * sc(ui_scale)
}

/// The weapon title position stays in `i32`.
pub open spec fn weapon_title_fits(panel_top: i32, theme: UiTheme, ui_scale: i32) -> bool {
    &&& usable_title_fits(panel_top, theme, ui_scale)
    &&& fits(12 * sc(ui_scale))
    &&& stride_fits(theme, ui_scale)
    &&& fits(stride(theme, ui_scale) * 8)
    &&& fits(20 * sc(ui_scale) + stride(theme, ui_scale) * 8)
    &&& fits(usable_title_y(panel_top, theme, ui_scale) + (20 * sc(ui_scale) + stride(theme, ui_scale) * 8))
    &&& fits(weapon_title_y(panel_top, theme, ui_scale))
}

/// Y of the "Weapons" section title.
pub fn backpack_weapon_title_y(panel_top: i32, theme: &UiTheme, ui_scale: i32) -> (r: i32)
    requires
        weapon_title_fits(panel_top, *theme, ui_scale),
    ensures
        r == weapon_title_y(panel_top, *theme, ui_scale),
{
    let sc = s(ui_scale);
    let th = 20 * sc;
    let stride = theme.backpack_slot_height * sc + 4 * sc;
    let usable_block = th + stride * 8;
    backpack_usable_title_y(panel_top, theme, ui_scale) + usable_block + 12 * sc
}

/// Y of weapon slot `index`.
pub fn backpack_weapon_slot_y(panel_top: i32, theme: &UiTheme, index: usize, ui_scale: i32) -> (r: i32)
    requires
        weapon_title_fits(panel_top, *theme, ui_scale),
        fits(stride(*theme, ui_scale) * (index as i32)),
        fits(weapon_title_y(panel_top, *theme, ui_scale) + 20 * sc(ui_scale)),
        fits(weapon_title_y(panel_top, *theme, ui_scale) + 20 * sc(ui_scale) + stride(*theme, ui_scale)
            * (index as i32)),
    ensures
        r == weapon_title_y(panel_top, *theme, ui_scale) + 20 * sc(ui_scale) + stride(*theme, ui_scale)
            * (index as i32),
{
    let sc = s(ui_scale);
    let wy = backpack_weapon_title_y(panel_top, theme, ui_scale);
    let stride = theme.backpack_slot_height * sc + 4 * sc;
    wy + 20 * sc + stride * #[verifier::truncate] (index as i32)
}

/// Y of the "Passives" title: below the weapons block (a title and the reserved weapon rows)
/// and a 12 px section gap.
pub open spec fn passive_title_y(panel_top: i32, theme: UiTheme, ui_scale: i32) -> int {
    weapon_title_y(panel_top, theme, ui_scale) + (20 * sc(ui_scale) + stride(theme, ui_scale) * 4) + 12
        * sc(ui_scale)
}

/// The passive title position stays in `i32`.
pub open spec fn passive_title_fits(panel_top: i32, theme: UiTheme, ui_scale: i32) -> bool {
    &&& weapon_title_fits(panel_top, theme, ui_scale)
    &&& fits(stride(theme, ui_scale) * 4)
    &&& fits(20 * sc(ui_scale) + stride(theme, ui_scale) * 4)
    &&& fits(weapon_title_y(panel_top, theme, ui_scale) + (20 * sc(ui_scale) + stride(theme, ui_scale) * 4))
    &&& fits(passive_title_y(panel_top, theme, ui_scale))
}

/// Y of the "Passives" section title.
pub fn backpack_passive_title_y(panel_top: i32, theme: &UiTheme, ui_scale: i32) -> (r: i32)
    requires
        passive_title_fits(panel_top, *theme, ui_scale),
    ensures
        r == passive_title_y(panel_top, *theme, ui_scale),
{
    let sc = s(ui_scale);
    let th = 20 * sc;
    let stride = theme.backpack_slot_height * sc + 4 * sc;
    let weapon_block = th + stride * 4;
    backpack_weapon_title_y(panel_top, theme, ui_scale) + weapon_block + 12 * sc
}

/// Y of passive slot `index`.
pub fn backpack_passive_slot_y(panel_top: i32, theme: &UiTheme, index: usize, ui_scale: i32) -> (r: i32)
    requires
        passive_title_fits(panel_top, *theme, ui_scale),
        fits(stride(*theme, ui_scale) * (index as i32)),
        fits(passive_title_y(panel_top, *theme, ui_scale) + 20 * sc(ui_scale)),
        fits(passive_title_y(panel_top, *theme, ui_scale) + 20 * sc(ui_scale) + stride(*theme, ui_scale)
            * (index as i32)),
    ensures
        r == passive_title_y(panel_top, *theme, ui_scale) + 20 * sc(ui_scale) + stride(*theme, ui_scale)
            * (index as i32),
{
    let sc = s(ui_scale);
    let py = backpack_passive_title_y(panel_top, theme, ui_scale);
    let stride = theme.backpack_slot_height * sc + 4 * sc;
    py + 20 * sc + stride * #[verifier::truncate] (index as i32)
}

/// The backpack sections stack without overlap (for a non-negative slot height): every usable
/// slot lies below the "Usable" title (20 px) and ends above the "Weapons" title, and every
/// weapon slot lies below the "Weapons" title and ends above the "Passives" title.
pub proof fn law_backpack_sections_stack(panel_top: i32, theme: UiTheme, ui_scale: i32, i: int)
    requires
        theme.backpack_slot_height >= 0,
        0 <= i,
    ensures
        i < 8 ==> {
            let y = usable_title_y(panel_top, theme, ui_scale) + 20 * sc(ui_scale) + stride(theme, ui_scale) * i;
            &&& usable_title_y(panel_top, theme, ui_scale) + 20 * sc(ui_scale) <= y
            &&& y + theme.backpack_slot_height * sc(ui_scale) <= weapon_title_y(panel_top, theme, ui_scale)
        },
        i < 4 ==> {
            let y = weapon_title_y(panel_top, theme, ui_scale) + 20 * sc(ui_scale) + stride(theme, ui_scale) * i;
            &&& weapon_title_y(panel_top, theme, ui_scale) + 20 * sc(ui_scale) <= y
            &&& y + theme.backpack_slot_height * sc(ui_scale) <= passive_title_y(panel_top, theme, ui_scale)
        },
{
    let st = stride(theme, ui_scale);
    let h = theme.backpack_slot_height * sc(ui_scale);
    assert(theme.backpack_slot_height * sc(ui_scale) >= 0) by (nonlinear_arith)
        requires
            theme.backpack_slot_height >= 0,
            sc(ui_scale) >= 1,
    ;
    assert(st == h + 4 * sc(ui_scale));
    if i < 8 {
        assert(st * i <= st * 7 && st * i >= 0) by (nonlinear_arith)
            requires
                st >= 0,
                0 <= i < 8,
        ;
    }
    if i < 4 {
        assert(st * i <= st * 3 && st * i >= 0) by (nonlinear_arith)
            requires
                st >= 0,
                0 <= i < 4,
        ;
    }
}

/// X of the backpack content (titles and slot labels).
pub fn backpack_content_x(panel_left: i32, theme: &UiTheme, ui_scale: i32) -> (r: i32)
    requires
        fits(theme.backpack_padding * sc(ui_scale)),
        fits(panel_left + theme.backpack_padding * sc(ui_scale)),
    ensures
        r == panel_left + theme.backpack_padding * sc(ui_scale),
{
    let sc = s(ui_scale);
    panel_left + theme.backpack_padding * sc
}

/// Horizontal indent of slot lines (after section titles): 8 px.
pub fn backpack_slot_indent(ui_scale: i32) -> (r: i32)
    requires
        fits(8 * sc(ui_scale)),
    ensures
        r == 8 * sc(ui_scale),
{
    8 * s(ui_scale)
}

/// Sizes of the HP bar in the corner of the screen (1× pixels).
#[derive(Clone, Copy, Debug)]
pub struct HpBarTheme {
    pub margin_x: i32,
    pub margin_y: i32,
    pub bar_width: i32,
    pub bar_height: i32,
    /// Border drawn inside the bar; none when `None`.
    pub border_px: Option<i32>,
}

/// HP bar outer rectangle: at the margins, `bar_width × bar_height`.
pub fn hp_bar_outer_rect(theme: &HpBarTheme, ui_scale: i32) -> (r: (i32, i32, i32, i32))
    requires
        fits(theme.margin_x * sc(ui_scale)),
        fits(theme.margin_y * sc(ui_scale)),
        fits(theme.bar_width * sc(ui_scale)),
        fits(theme.bar_height * sc(ui_scale)),
        fits(theme.margin_x * sc(ui_scale) + theme.bar_width * sc(ui_scale)),
        fits(theme.margin_y * sc(ui_scale) + theme.bar_height * sc(ui_scale)),
    ensures
        ({
            let l = theme.margin_x * sc(ui_scale);
            let t = theme.margin_y * sc(ui_scale);
            r == (l as i32, t as i32, (l + theme.bar_width * sc(ui_scale)) as i32, (t + theme.bar_height
                * sc(ui_scale)) as i32)
        }),
{
    let sc = s(ui_scale);
    let l = theme.margin_x * sc;
    let t = theme.margin_y * sc;
    let r = l + theme.bar_width * sc;
    let b = t + theme.bar_height * sc;
    (l, t, r, b)
}

/// `x` clamped to `i32`.
pub open spec fn saturate(x: int) -> i32 {
    if x > i32::MAX {
        i32::MAX
    } else if x < i32::MIN {
        i32::MIN
    } else {
        x as i32
    }
}

fn sat_mul(a: i32, b: i32) -> (r: i32)
    ensures
        r == saturate(a * b),
{
    match a.checked_mul(b) {
        Some(v) => v,
        None => {
            if (a < 0) == (b < 0) {
                assert(a * b > i32::MAX) by (nonlinear_arith)
                    requires
                        (a < 0) == (b < 0),
                        !(i32::MIN <= a * b <= i32::MAX),
                ;
                i32::MAX
            } else {
                assert(a * b < i32::MIN) by (nonlinear_arith)
                    requires
                        (a < 0) != (b < 0),
                        !(i32::MIN <= a * b <= i32::MAX),
                ;
                i32::MIN
            }
        },
    }
}

fn sat_add(a: i32, b: i32) -> (r: i32)
    ensures
        r == saturate(a + b),
{
    match a.checked_add(b) {
        Some(v) => v,
        None => if b > 0 {
            i32::MAX
        } else {
            i32::MIN
        },
    }
}

fn sat_sub(a: i32, b: i32) -> (r: i32)
    ensures
        r == saturate(a - b),
{
    match a.checked_sub(b) {
        Some(v) => v,
        None => if b < 0 {
            i32::MAX
        } else {
            i32::MIN
        },
    }
}

/// The track of the HP bar: `outer` inset by the border (saturating arithmetic), or `outer`
/// itself without a positive border or when the inset leaves nothing.
pub open spec fn hp_inner(theme: HpBarTheme, ui_scale: i32, outer: (i32, i32, i32, i32)) -> (i32, i32, i32, i32) {
    let (l, t, r, b) = outer;
    let bpx = saturate(or_zero(theme.border_px) * sc(ui_scale));
    if bpx <= 0 {
        outer
    } else {
        let il = saturate(l + bpx);
        let it = saturate(t + bpx);
        let ir = saturate(r - bpx);
        let ib = saturate(b - bpx);
        if ir <= il || ib <= it {
            outer
        } else {
            (il, it, ir, ib)
        }
    }
}

/// The border, 0 when there is none.
pub open spec fn or_zero(o: Option<i32>) -> i32 {
    match o {
        Some(v) => v,
        None => 0,
    }
}

/// Inner rectangle (track and fill) of the HP bar.
pub fn hp_bar_inner_rect(theme: &HpBarTheme, ui_scale: i32, outer: (i32, i32, i32, i32)) -> (r: (
    i32,
    i32,
    i32,
    i32,
))
    ensures
        r == hp_inner(*theme, ui_scale, outer),
{
    let (l, t, r, b) = outer;
    let border = match theme.border_px {
        Some(v) => v,
        None => 0,
    };
    let bpx = sat_mul(border, s(ui_scale));
    if bpx <= 0 {
        return outer;
    }
    let il = sat_add(l, bpx);
    let it = sat_add(t, bpx);
    let ir = sat_sub(r, bpx);
    let ib = sat_sub(b, bpx);
    if ir <= il || ib <= it {
        return outer;
    }
    (il, it, ir, ib)
}

/// Anchor of the HP label: 6 px right of the bar, 2 px below its top.
pub fn hp_bar_label_pos(outer: (i32, i32, i32, i32), ui_scale: i32) -> (r: (i32, i32))
    requires
        fits(6 * sc(ui_scale)),
        fits(2 * sc(ui_scale)),
        fits(outer.2 + 6 * sc(ui_scale)),
        fits(outer.1 + 2 * sc(ui_scale)),
    ensures
        r == ((outer.2 + 6 * sc(ui_scale)) as i32, (outer.1 + 2 * sc(ui_scale)) as i32),
{
    let (_, t, r, _) = outer;
    let gap = 6 * s(ui_scale);
    let pad = 2 * s(ui_scale);
    (r + gap, t + pad)
}

} // verus!
