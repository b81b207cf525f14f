//! # UI theme sizes
//!
//! The sizes of the UI (in 1× pixels; layout multiplies them by the UI scale), with their
//! defaults and the overrides `assets/ui/theme.json` may give. Colours (floating point) are
//! kept by the binary beside these.

use vstd::prelude::*;

verus! {

/// Sizes of the dialogue box and the backpack panel.
#[derive(Clone, Copy, Debug)]
pub struct UiTheme {
    pub dialogue_box_height: i32,
    pub dialogue_padding_x: i32,
    pub dialogue_padding_y: i32,
    pub dialogue_border_top_px: i32,
    pub dialogue_portrait_width: i32,
    pub dialogue_portrait_height: i32,
    pub dialogue_portrait_gap: i32,
    pub backpack_panel_width: i32,
    pub backpack_panel_height: i32,
    pub backpack_padding: i32,
    pub backpack_slot_height: i32,
    pub backpack_border_top_px: i32,
}

/// The built-in sizes.
pub open spec fn default_theme() -> UiTheme {
    UiTheme {
        dialogue_box_height: 100,
        dialogue_padding_x: 24,
        dialogue_padding_y: 20,
        dialogue_border_top_px: 2,
        dialogue_portrait_width: 64,
        dialogue_portrait_height: 64,
        dialogue_portrait_gap: 12,
        backpack_panel_width: 320,
        backpack_panel_height: 560,
        backpack_padding: 16,
        backpack_slot_height: 24,
        backpack_border_top_px: 2,
    }
}

impl Default for UiTheme {
    fn default() -> (r: Self)
        ensures
            r == default_theme(),
    {
        UiTheme {
            dialogue_box_height: 100,
            dialogue_padding_x: 24,
            dialogue_padding_y: 20,
            dialogue_border_top_px: 2,
            dialogue_portrait_width: 64,
            dialogue_portrait_height: 64,
            dialogue_portrait_gap: 12,
            backpack_panel_width: 320,
            backpack_panel_height: 560,
            backpack_padding: 16,
            backpack_slot_height: 24,
            backpack_border_top_px: 2,
        }
    }
}

/// The dialogue sizes a theme file may set.
#[derive(Clone, Copy, Debug)]
pub struct DialogueThemeOverrides {
    pub box_height: Option<i32>,
    pub padding_x: Option<i32>,
    pub padding_y: Option<i32>,
    pub border_top_px: Option<i32>,
    pub portrait_width: Option<i32>,
    pub portrait_height: Option<i32>,
    pub portrait_gap: Option<i32>,
}

/// The backpack sizes a theme file may set.
#[derive(Clone, Copy, Debug)]
pub struct BackpackThemeOverrides {
    pub panel_width: Option<i32>,
    pub panel_height: Option<i32>,
    pub padding: Option<i32>,
    pub slot_height: Option<i32>,
    pub border_top_px: Option<i32>,
}

/// `o` when given, else `d`.
pub open spec fn or_default(o: Option<i32>, d: i32) -> i32 {
    match o {
        Some(v) => v,
        None => d,
    }
}

fn pick(o: Option<i32>, d: i32) -> (r: i32)
    ensures
        r == or_default(o, d),
{
    match o {
        Some(v) => v,
        None => d,
    }
}

impl UiTheme {
    /// The built-in theme with the dialogue sizes of `f` where it gives them.
    pub fn from_dialogue(f: DialogueThemeOverrides) -> (r: Self)
        ensures
            r == (UiTheme {
                dialogue_box_height: or_default(f.box_height, 100),
                dialogue_padding_x: or_default(f.padding_x, 24),
                dialogue_padding_y: or_default(f.padding_y, 20),
                dialogue_border_top_px: or_default(f.border_top_px, 2),
                dialogue_portrait_width: or_default(f.portrait_width, 64),
                dialogue_portrait_height: or_default(f.portrait_height, 64),
                dialogue_portrait_gap: or_default(f.portrait_gap, 12),
                ..default_theme()
            }),
    {
        let d = UiTheme::default();
        UiTheme {
            dialogue_box_height: pick(f.box_height, d.dialogue_box_height),
            dialogue_padding_x: pick(f.padding_x, d.dialogue_padding_x),
            dialogue_padding_y: pick(f.padding_y, d.dialogue_padding_y),
            dialogue_border_top_px: pick(f.border_top_px, d.dialogue_border_top_px),
            dialogue_portrait_width: pick(f.portrait_width, d.dialogue_portrait_width),
            dialogue_portrait_height: pick(f.portrait_height, d.dialogue_portrait_height),
            dialogue_portrait_gap: pick(f.portrait_gap, d.dialogue_portrait_gap),
            ..d
        }
    }

    /// Take the backpack sizes that `f` gives.
    pub fn merge_backpack(&mut self, f: BackpackThemeOverrides)
        ensures
            *final(self) == (UiTheme {
                backpack_panel_width: or_default(f.panel_width, old(self).backpack_panel_width),
                backpack_panel_height: or_default(f.panel_height, old(self).backpack_panel_height),
                backpack_padding: or_default(f.padding, old(self).backpack_padding),
                backpack_slot_height: or_default(f.slot_height, old(self).backpack_slot_height),
                backpack_border_top_px: or_default(f.border_top_px, old(self).backpack_border_top_px),
                ..*old(self)
            }),
    {
        if let Some(v) = f.panel_width {
            self.backpack_panel_width = v;
        }
        if let Some(v) = f.panel_height {
            self.backpack_panel_height = v;
        }
        if let Some(v) = f.padding {
            self.backpack_padding = v;
        }
        if let Some(v) = f.slot_height {
            self.backpack_slot_height = v;
        }
        if let Some(v) = f.border_top_px {
            self.backpack_border_top_px = v;
        }
    }
}

} // verus!
