//! # UI
//!
//! The data the UI draws and where it goes: the backpack panel model, the theme sizes, and
//! the layout of the dialogue box, the toast band, the backpack panel and the HP bar.

pub mod backpack;
pub mod layout;
pub mod theme;

pub use backpack::{backpack_panel_lines, BackpackPanelLines, BackpackSlot, BackpackWeaponSlot};
pub use layout::{backpack_slot_indent, hp_bar_label_pos, HpBarTheme};
pub use theme::{BackpackThemeOverrides, DialogueThemeOverrides, UiTheme};
