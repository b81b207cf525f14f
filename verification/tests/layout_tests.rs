use bangbang::assets::LoadedSheet;
use bangbang::atlas::{blit_coverage, GlyphShelf, UI_FONT_ATLAS_DIM};
use bangbang::software::blit_sheet;
use bangbang::ui::layout::{
    backpack_content_x, backpack_hotkey_hint_y, backpack_panel_rect, backpack_panel_title_y,
    backpack_passive_slot_y, backpack_passive_title_y, backpack_usable_slot_y,
    backpack_usable_title_y, backpack_weapon_slot_y, backpack_weapon_title_y,
    dialogue_box_rect, dialogue_portrait_rect, dialogue_portrait_text_extra_left,
    dialogue_text_pos, hp_bar_inner_rect, hp_bar_outer_rect, overworld_toast_band_rect,
    overworld_toast_text_pos, s,
};
use bangbang::ui::{
    backpack_slot_indent, hp_bar_label_pos, BackpackThemeOverrides, DialogueThemeOverrides,
    HpBarTheme, UiTheme,
};

#[test]
fn ui_scale_is_at_least_one() {
    assert_eq!(s(-3), 1);
    assert_eq!(s(0), 1);
    assert_eq!(s(3), 3);
    assert_eq!(backpack_slot_indent(0), 8);
    assert_eq!(backpack_slot_indent(2), 16);
}

#[test]
fn dialogue_layout_at_double_scale() {
    let t = UiTheme::default();
    assert_eq!(dialogue_box_rect(800, 600, &t, 2), (0, 400, 800, 600));
    assert_eq!(dialogue_portrait_text_extra_left(&t, 2), 152);
    assert_eq!(dialogue_portrait_rect(800, 600, &t, 2), (48, 440, 176, 568));
    assert_eq!(dialogue_text_pos(800, 600, 400, &t, 2, 152), (200, 440));
    assert_eq!(dialogue_text_pos(800, 600, 400, &t, 2, 0), (48, 440));
}

#[test]
fn toast_band_sits_above_the_bottom_edge() {
    let t = UiTheme::default();
    assert_eq!(overworld_toast_band_rect(800, 600, &t, 2), (0, 460, 800, 584));
    assert_eq!(overworld_toast_text_pos(460, &t, 2), (48, 500));
    assert_eq!(overworld_toast_band_rect(640, 480, &t, 1), (0, 410, 640, 472));
}

#[test]
fn backpack_panel_sections_stack_down_the_panel() {
    let t = UiTheme::default();
    assert_eq!(backpack_panel_rect(800, 600, &t, 1), (240, 20, 560, 580));
    assert_eq!(backpack_panel_title_y(20, &t, 1), 36);
    assert_eq!(backpack_hotkey_hint_y(580, &t, 1), 550);
    assert_eq!(backpack_usable_title_y(20, &t, 1), 64);
    assert_eq!(backpack_usable_slot_y(20, &t, 0, 1), 84);
    assert_eq!(backpack_usable_slot_y(20, &t, 2, 1), 140);
    assert_eq!(backpack_weapon_title_y(20, &t, 1), 320);
    assert_eq!(backpack_weapon_slot_y(20, &t, 1, 1), 368);
    assert_eq!(backpack_passive_title_y(20, &t, 1), 464);
    assert_eq!(backpack_passive_slot_y(20, &t, 0, 1), 484);
    assert_eq!(backpack_content_x(240, &t, 1), 256);
    // The first usable slot is below the usable title; the last usable slot ends above the
    // weapons title.
    assert!(backpack_usable_slot_y(20, &t, 0, 1) >= backpack_usable_title_y(20, &t, 1) + 20);
    assert!(backpack_usable_slot_y(20, &t, 7, 1) + t.backpack_slot_height <= backpack_weapon_title_y(20, &t, 1));
    assert!(backpack_weapon_slot_y(20, &t, 3, 1) + t.backpack_slot_height <= backpack_passive_title_y(20, &t, 1));
    // A panel wider than the screen hangs over both edges equally.
    assert_eq!(backpack_panel_rect(300, 600, &t, 1), (-10, 20, 310, 580));
}

#[test]
fn hp_bar_rects() {
    let theme = HpBarTheme { margin_x: 12, margin_y: 12, bar_width: 160, bar_height: 14, border_px: Some(2) };
    let outer = hp_bar_outer_rect(&theme, 2);
    assert_eq!(outer, (24, 24, 344, 52));
    assert_eq!(hp_bar_inner_rect(&theme, 2, outer), (28, 28, 340, 48));
    assert_eq!(hp_bar_label_pos(outer, 2), (356, 28));
    let no_border = HpBarTheme { border_px: None, ..theme };
    assert_eq!(hp_bar_inner_rect(&no_border, 2, outer), outer);
    let too_thick = HpBarTheme { border_px: Some(20), ..theme };
    assert_eq!(hp_bar_inner_rect(&too_thick, 2, outer), outer);
}

#[test]
fn theme_overrides_replace_only_what_they_give() {
    let f = DialogueThemeOverrides {
        box_height: Some(120),
        padding_x: None,
        padding_y: None,
        border_top_px: None,
        portrait_width: Some(80),
        portrait_height: None,
        portrait_gap: None,
    };
    let mut t = UiTheme::from_dialogue(f);
    assert_eq!(t.dialogue_box_height, 120);
    assert_eq!(t.dialogue_portrait_width, 80);
    assert_eq!(t.dialogue_padding_x, 24);
    assert_eq!(t.backpack_panel_width, 320);
    t.merge_backpack(BackpackThemeOverrides {
        panel_width: Some(400),
        panel_height: None,
        padding: None,
        slot_height: Some(30),
        border_top_px: None,
    });
    assert_eq!(t.backpack_panel_width, 400);
    assert_eq!(t.backpack_slot_height, 30);
    assert_eq!(t.backpack_panel_height, 560);
    assert_eq!(t.dialogue_box_height, 120);
}

#[test]
fn glyph_shelf_packs_rows_with_a_gutter() {
    let mut shelf = GlyphShelf::new();
    assert_eq!(shelf.place(1000, 10), Some((0, 0)));
    assert_eq!((shelf.pen_x, shelf.pen_y, shelf.row_h), (1001, 0, 11));
    // An empty glyph takes no space.
    assert_eq!(shelf.place(0, 5), Some((0, 0)));
    assert_eq!(shelf.pen_x, 1001);
    // Does not fit on the row: a new row starts below the tallest glyph.
    assert_eq!(shelf.place(30, 5), Some((0, 11)));
    assert_eq!((shelf.pen_x, shelf.pen_y, shelf.row_h), (31, 11, 6));
    // Wider than the atlas with its gutter.
    assert_eq!(shelf.place(UI_FONT_ATLAS_DIM, 1), None);
}

#[test]
fn full_atlas_is_reset_once() {
    let mut shelf = GlyphShelf { pen_x: 0, pen_y: 1020, row_h: 0 };
    assert_eq!(shelf.place(10, 10), None);
    let mut shelf = GlyphShelf { pen_x: 0, pen_y: 1020, row_h: 0 };
    assert_eq!(shelf.place_or_reset(10, 10), (Some((0, 0)), true));
    assert_eq!((shelf.pen_x, shelf.pen_y, shelf.row_h), (11, 0, 11));
    let mut shelf = GlyphShelf::new();
    assert_eq!(shelf.place_or_reset(10, 10), (Some((0, 0)), false));
    assert_eq!(shelf.place_or_reset(2000, 10), (None, true));
}

#[test]
fn coverage_goes_into_all_four_channels() {
    let dim = UI_FONT_ATLAS_DIM as usize;
    let mut data = vec![0u8; 4 * dim * dim];
    blit_coverage(&mut data, 3, 5, 2, 2, &[1, 2, 3, 4]);
    let at = |x: usize, y: usize| ((y * dim + x) * 4) as usize;
    assert_eq!(&data[at(3, 5)..at(3, 5) + 4], &[1, 1, 1, 1]);
    assert_eq!(&data[at(4, 5)..at(4, 5) + 4], &[2, 2, 2, 2]);
    assert_eq!(&data[at(3, 6)..at(3, 6) + 4], &[3, 3, 3, 3]);
    assert_eq!(&data[at(4, 6)..at(4, 6) + 4], &[4, 4, 4, 4]);
    assert_eq!(data[at(5, 5)], 0);
    assert_eq!(data[at(3, 7)], 0);
    assert_eq!(data.iter().filter(|&&b| b != 0).count(), 16);
}

fn sheet_2x2(pixels: Vec<u32>) -> LoadedSheet {
    LoadedSheet { pixels, width: 2, height: 2, frame_width: 2, frame_height: 2, rows: 1, cols: 1 }
}

#[test]
fn blit_copies_and_clips() {
    let sheet = sheet_2x2(vec![1, 2, 3, 4]);
    let mut buf = vec![0u32; 16];
    blit_sheet(&mut buf, 4, 4, &sheet, 0, 0, 2, 2, 1, 1, 2, 2);
    assert_eq!(buf, vec![0, 0, 0, 0, 0, 1, 2, 0, 0, 3, 4, 0, 0, 0, 0, 0]);
    // Half off the top-left corner: only the bottom-right pixel lands.
    let mut buf = vec![0u32; 16];
    blit_sheet(&mut buf, 4, 4, &sheet, 0, 0, 2, 2, -1, -1, 2, 2);
    assert_eq!(buf[0], 4);
    assert_eq!(buf.iter().filter(|&&p| p != 0).count(), 1);
    // Empty destination: nothing drawn.
    let mut buf = vec![7u32; 16];
    blit_sheet(&mut buf, 4, 4, &sheet, 0, 0, 2, 2, 0, 0, 0, 2);
    assert_eq!(buf, vec![7u32; 16]);
}

#[test]
fn blit_stretches_and_skips_transparent_pixels() {
    let sheet = sheet_2x2(vec![1, 0, 3, 4]);
    let mut buf = vec![9u32; 16];
    blit_sheet(&mut buf, 4, 4, &sheet, 0, 0, 2, 2, 0, 0, 4, 4);
    assert_eq!(buf, vec![1, 1, 9, 9, 1, 1, 9, 9, 3, 3, 4, 4, 3, 3, 4, 4]);
}

#[test]
fn placed_glyphs_never_overlap() {
    let mut shelf = GlyphShelf::new();
    let sizes = [(300u32, 20u32), (500, 40), (400, 10), (200, 60), (900, 5), (30, 30), (1000, 1)];
    let mut rects: Vec<(u32, u32, u32, u32)> = Vec::new();
    for (w, h) in sizes {
        if let Some((x, y)) = shelf.place(w, h) {
            rects.push((x, y, w + 1, h + 1));
        }
    }
    assert_eq!(rects.len(), sizes.len());
    for (i, a) in rects.iter().enumerate() {
        assert!(a.0 + a.2 <= UI_FONT_ATLAS_DIM && a.1 + a.3 <= UI_FONT_ATLAS_DIM);
        for b in rects.iter().skip(i + 1) {
            let apart = a.0 + a.2 <= b.0 || b.0 + b.2 <= a.0 || a.1 + a.3 <= b.1 || b.1 + b.3 <= a.1;
            assert!(apart, "{a:?} overlaps {b:?}");
        }
    }
}
