//! The colour palette of the bar (Nightfox-inspired) and its semantic roles.

use vstd::prelude::*;

verus! {

// Nightfox-Inspired Color Palette
// Base colors
pub const BG: &'static str = "#192330";
pub const FG: &'static str = "#cdcecf";
pub const BLACK: &'static str = "#131a24";
pub const WHITE: &'static str = "#cdcecf";
pub const RED: &'static str = "#c94f6d";
pub const ORANGE: &'static str = "#f4a261";
pub const YELLOW: &'static str = "#dbc074";
pub const GREEN: &'static str = "#81b29a";
pub const CYAN: &'static str = "#63cdcf";
pub const BLUE: &'static str = "#719cd6";
pub const MAGENTA: &'static str = "#9d79d6";
pub const PINK: &'static str = "#d67ad2";

// Extended palette
pub const GREEN_BRIGHT: &'static str = "#a3be8c";
pub const SURFACE: &'static str = "#1e2a3e";

// Carbonfox accents
pub const CARBON_BG: &'static str = "#16161e";
pub const CARBON_SEL_BG: &'static str = "#2d2d3d";

// Duskfox accents
pub const DUSK_BG: &'static str = "#232136";
pub const DUSK_MUTED: &'static str = "#2a273f";

// Semantic aliases - Bar
pub const BAR_BG: &'static str = "#192330";
pub const BAR_FONT: &'static str = "'JetBrains Mono Nerd Font', 'monospace'";
pub const BAR_FONT_SIZE: &'static str = "14px";

// Semantic aliases - Workspace
pub const WORKSPACE_BG: &'static str = BLACK;
pub const WORKSPACE_EMPTY_FG: &'static str = FG;
pub const WORKSPACE_EMPTY_BG: &'static str = DUSK_MUTED;
pub const WORKSPACE_OCCUPIED_BG: &'static str = YELLOW;
pub const WORKSPACE_OCCUPIED_FG: &'static str = BLACK;
pub const WORKSPACE_ACTIVE_BG: &'static str = GREEN;
pub const WORKSPACE_ACTIVE_FG: &'static str = BLACK;

// Semantic aliases - Widget colors
pub const CLOCK_COLOR: &'static str = FG;
pub const NET_COLOR: &'static str = MAGENTA;
pub const BT_COLOR: &'static str = CYAN;
pub const VOL_COLOR: &'static str = GREEN;
pub const BRI_COLOR: &'static str = CYAN;

// Semantic aliases - Icon buttons (wifi, bt)
pub const ICON_COLOR: &'static str = FG;
pub const ICON_HOVER_COLOR: &'static str = BLUE;

// Semantic aliases - Battery pill
pub const BATTERY_PILL_BG: &'static str = CARBON_SEL_BG;
pub const BATTERY_PILL_BORDER: &'static str = GREEN;
pub const BATTERY_PILL_FG: &'static str = GREEN;
pub const BATTERY_CHARGING_COLOR: &'static str = GREEN_BRIGHT;
pub const BATTERY_LOW_COLOR: &'static str = RED;

// Semantic aliases - Popover
pub const POPOVER_BG: &'static str = SURFACE;
pub const POPOVER_BORDER: &'static str = "#3c4a5e";
pub const POPOVER_FG: &'static str = FG;
pub const POPOVER_HOVER_BG: &'static str = DUSK_MUTED;
pub const POPOVER_HEADER_FG: &'static str = FG;
pub const POPOVER_ACTION_BG: &'static str = CARBON_SEL_BG;
pub const POPOVER_ACTION_FG: &'static str = GREEN;
pub const DANGER_COLOR: &'static str = RED;

// Semantic aliases - Sliders
pub const SLIDER_TROUGH_BG: &'static str = CARBON_SEL_BG;
pub const SLIDER_HIGHLIGHT_BG: &'static str = GREEN_BRIGHT;
pub const SLIDER_SLIDER_BG: &'static str = FG;
pub const SLIDER_GLOW_COLOR: &'static str = GREEN_BRIGHT;
pub const VOL_SLIDER_FILL: &'static str = GREEN_BRIGHT;
pub const VOL_SLIDER_THUMB: &'static str = FG;
pub const BRI_SLIDER_FILL: &'static str = CYAN;
pub const BRI_SLIDER_THUMB: &'static str = FG;

} // verus!
