//! The stylesheet of the bar.

use vstd::prelude::*;
use crate::colors;
use crate::sizes;
use crate::numbers::{decimal, decimal_chars};
use crate::text::string_from;
use crate::template::{render, binding_views, render_template};

verus! {

/// The stylesheet with a placeholder for each themed colour and each size
/// of the size table.
pub const CSS_TEMPLATE: &'static str = r#"
        window {{ background-color: {bar_bg}; }}

        label, button {{
            font-family: {font};
            font-size: {font_size};
            font-weight: bold;
        }}

        /* ---- WORKSPACES ---- */
        .workspaces {{
            margin-top: {ws_margin_top}px; margin-bottom: {ws_margin_bottom}px;
            background-color: {ws_bg};
            border-radius: {ws_radius}px;
            padding: {ws_padding}px;
        }}

        .workspace-btn {{
            color: {ws_empty_fg};
            background-color: {ws_empty_bg};
            min-width: {ws_btn_size}px; min-height: {ws_btn_size}px; padding: 0;
            border-radius: {ws_btn_radius}px; border: none; box-shadow: none;
            transition: all 0.15s cubic-bezier(0.25, 0.46, 0.45, 0.94);
        }}

        .workspace-occupied {{
            background-color: {ws_occ_bg};
            color: {ws_occ_fg};
        }}

        .workspace-active {{
            background-color: {ws_act_bg};
            color: {ws_act_fg};
            min-width: {ws_active_width}px;
            border-radius: {ws_btn_radius}px;
        }}

        /* ---- CLOCK ---- */
        .clock-text {{
            color: {clock_color};
            background: transparent;
            border: none;
            box-shadow: none;
            padding: 0 8px;
        }}

        /* ---- ICON BUTTONS (wifi, bt) ---- */
        .icon-btn {{
            color: {icon_color};
            background: transparent;
            border: none;
            box-shadow: none;
            padding: 0 6px;
            font-size: {icon_font_size};
            transition: color 0.15s ease;
        }}

        .icon-btn:hover {{
            color: {icon_hover};
        }}

        /* ---- BATTERY PILL ---- */
        .battery-pill {{
            background-color: {bat_bg};
            border: 1px solid {bat_border};
            border-radius: {bat_radius}px;
            padding: 0 {bat_padding_x}px;
            min-height: {bat_min_height}px;
            color: {bat_fg};
            font-size: {bat_font_size};
        }}

        .battery-charging {{
            border-color: {bat_charge};
            color: {bat_charge};
        }}

        /* ---- POPOVER ---- */
        popover > contents {{
            background-color: {popover_bg}; border: 1px solid {popover_border};
            border-radius: 14px; padding: 14px;
            box-shadow: 0 4px 16px rgba(0,0,0,0.4);
        }}
        calendar {{ color: {popover_fg}; }}

        .popup-header {{ color: {popover_header_fg}; font-size: 16px; margin-bottom: 4px; }}
        .row-item {{ padding: 6px; border-radius: 8px; }}
        .row-item:hover {{ background-color: {popover_hover_bg}; }}
        .row-name {{ color: {popover_fg}; }}

        .popup-action-btn {{
            background-color: {action_bg}; color: {action_fg};
            border-radius: 6px; padding: 4px 12px; border: none; box-shadow: none;
        }}
        .popup-action-btn-danger {{ color: {danger_color}; }}

        .power-btn {{
            background-color: {action_bg}; color: {popover_fg};
            border-radius: 8px; padding: 8px 12px; border: none; box-shadow: none;
        }}
        .power-btn-active {{ background-color: {popover_border}; color: {popover_bg}; }}

        /* ================================================
           MEDIA POPUP — MODERN CAPSULE SLIDERS
           ================================================ */

        .media-popup-box {{ padding: 2px 0; }}
        .media-row {{ padding: 6px 0; }}
        .media-icon {{ font-size: {media_icon_font_size}; min-width: {media_icon_width}px; min-height: 32px; }}
        .media-pct {{ font-size: {media_pct_font_size}; min-width: {media_pct_width}px; text-align: end; }}
        .vol-media-pct {{ color: {vol_color}; }}
        .bri-media-pct {{ color: {bri_color}; }}

        .media-slider {{ -GtkScale-slider-length: 0; min-height: 32px; padding: 0 2px; }}
        .media-slider scale {{ min-height: {slider_min_height}px; padding: 0; }}
        .media-slider scale contents {{ min-height: {slider_min_height}px; }}

        .media-slider scale contents trough {{
            min-height: {trough_height}px; border-radius: {trough_radius}px;
            background-color: {slider_trough};
            border: none; box-shadow: inset 0 1px 3px rgba(0,0,0,0.35);
        }}
        .media-slider scale trough {{
            background-color: {slider_trough}; border: none;
            border-radius: {trough_radius}px; min-height: {trough_height}px;
            box-shadow: inset 0 1px 3px rgba(0,0,0,0.35);
        }}
        .media-slider scale contents highlight {{
            min-height: {trough_height}px; border-radius: {trough_radius}px;
            background-color: {slider_fill}; border: none;
            box-shadow: none;
            transition: background-color 0.2s ease, box-shadow 0.2s ease;
        }}
        .media-slider scale:hover contents highlight {{
            box-shadow: 0 0 10px {slider_glow};
        }}
        .media-slider scale contents slider {{
            min-width: {thumb_size}px; min-height: {thumb_size}px; margin: -4px;
            border-radius: 50%; background-color: {slider_thumb};
            border: {thumb_border}px solid {slider_fill};
            box-shadow: 0 1px 4px rgba(0,0,0,0.4);
            transition: background-color 0.15s ease, border-color 0.15s ease, box-shadow 0.15s ease;
        }}
        .media-slider scale:hover contents slider {{
            background-color: {slider_fill}; border-color: {slider_glow};
            box-shadow: 0 0 12px {slider_glow};
        }}
        .media-slider scale slider {{
            min-width: {thumb_size}px; min-height: {thumb_size}px; border-radius: 50%;
            background-color: {slider_thumb};
            border: {thumb_border}px solid {slider_fill};
            box-shadow: 0 1px 4px rgba(0,0,0,0.4);
        }}
        .media-slider scale:hover slider {{
            background-color: {slider_fill}; border-color: {slider_glow};
            box-shadow: 0 0 12px {slider_glow};
        }}

        .vol-slider scale contents highlight {{ background-color: {vol_fill}; }}
        .vol-slider scale:hover contents highlight {{ box-shadow: 0 0 12px {vol_fill}; }}
        .vol-slider scale contents slider {{ border-color: {vol_fill}; }}
        .vol-slider scale:hover contents slider {{ background-color: {vol_fill}; border-color: {vol_fill}; box-shadow: 0 0 14px {vol_fill}; }}
        .vol-slider scale slider {{ border-color: {vol_fill}; }}
        .vol-slider scale:hover slider {{ background-color: {vol_fill}; border-color: {vol_fill}; box-shadow: 0 0 14px {vol_fill}; }}

        .bri-slider scale contents highlight {{ background-color: {bri_fill}; }}
        .bri-slider scale:hover contents highlight {{ box-shadow: 0 0 12px {bri_fill}; }}
        .bri-slider scale contents slider {{ border-color: {bri_fill}; }}
        .bri-slider scale:hover contents slider {{ background-color: {bri_fill}; border-color: {bri_fill}; box-shadow: 0 0 14px {bri_fill}; }}
        .bri-slider scale slider {{ border-color: {bri_fill}; }}
        .bri-slider scale:hover slider {{ background-color: {bri_fill}; border-color: {bri_fill}; box-shadow: 0 0 14px {bri_fill}; }}
        "#;

/// The colour that fills each colour placeholder of the stylesheet.
pub open spec fn color_bindings() -> Seq<(Seq<char>, Seq<char>)> {
    seq![
        ("bar_bg"@, colors::BAR_BG@),
        ("font"@, colors::BAR_FONT@),
        ("font_size"@, colors::BAR_FONT_SIZE@),
        ("ws_bg"@, colors::WORKSPACE_BG@),
        ("ws_empty_fg"@, colors::WORKSPACE_EMPTY_FG@),
        ("ws_empty_bg"@, colors::WORKSPACE_EMPTY_BG@),
        ("ws_occ_bg"@, colors::WORKSPACE_OCCUPIED_BG@),
        ("ws_occ_fg"@, colors::WORKSPACE_OCCUPIED_FG@),
        ("ws_act_bg"@, colors::WORKSPACE_ACTIVE_BG@),
        ("ws_act_fg"@, colors::WORKSPACE_ACTIVE_FG@),
        ("clock_color"@, colors::CLOCK_COLOR@),
        ("icon_color"@, colors::ICON_COLOR@),
        ("icon_hover"@, colors::ICON_HOVER_COLOR@),
        ("bat_bg"@, colors::BATTERY_PILL_BG@),
        ("bat_border"@, colors::BATTERY_PILL_BORDER@),
        ("bat_fg"@, colors::BATTERY_PILL_FG@),
        ("bat_charge"@, colors::BATTERY_CHARGING_COLOR@),
        ("popover_bg"@, colors::POPOVER_BG@),
        ("popover_border"@, colors::POPOVER_BORDER@),
        ("popover_fg"@, colors::POPOVER_FG@),
        ("popover_header_fg"@, colors::POPOVER_HEADER_FG@),
        ("popover_hover_bg"@, colors::POPOVER_HOVER_BG@),
        ("action_bg"@, colors::POPOVER_ACTION_BG@),
        ("action_fg"@, colors::POPOVER_ACTION_FG@),
        ("danger_color"@, colors::DANGER_COLOR@),
        ("vol_color"@, colors::VOL_COLOR@),
        ("bri_color"@, colors::BRI_COLOR@),
        ("slider_trough"@, colors::SLIDER_TROUGH_BG@),
        ("slider_fill"@, colors::SLIDER_HIGHLIGHT_BG@),
        ("slider_glow"@, colors::SLIDER_GLOW_COLOR@),
        ("slider_thumb"@, colors::SLIDER_SLIDER_BG@),
        ("vol_fill"@, colors::VOL_SLIDER_FILL@),
        ("bri_fill"@, colors::BRI_SLIDER_FILL@),
    ]
}

/// The colour bindings as string slices.
pub fn color_binding_list() -> (b: Vec<(&'static str, &'static str)>)
    ensures
        binding_views(b@) == color_bindings(),
{
    let b = vec![
        ("bar_bg", colors::BAR_BG),
        ("font", colors::BAR_FONT),
        ("font_size", colors::BAR_FONT_SIZE),
        ("ws_bg", colors::WORKSPACE_BG),
        ("ws_empty_fg", colors::WORKSPACE_EMPTY_FG),
        ("ws_empty_bg", colors::WORKSPACE_EMPTY_BG),
        ("ws_occ_bg", colors::WORKSPACE_OCCUPIED_BG),
        ("ws_occ_fg", colors::WORKSPACE_OCCUPIED_FG),
        ("ws_act_bg", colors::WORKSPACE_ACTIVE_BG),
        ("ws_act_fg", colors::WORKSPACE_ACTIVE_FG),
        ("clock_color", colors::CLOCK_COLOR),
        ("icon_color", colors::ICON_COLOR),
        ("icon_hover", colors::ICON_HOVER_COLOR),
        ("bat_bg", colors::BATTERY_PILL_BG),
        ("bat_border", colors::BATTERY_PILL_BORDER),
        ("bat_fg", colors::BATTERY_PILL_FG),
        ("bat_charge", colors::BATTERY_CHARGING_COLOR),
        ("popover_bg", colors::POPOVER_BG),
        ("popover_border", colors::POPOVER_BORDER),
        ("popover_fg", colors::POPOVER_FG),
        ("popover_header_fg", colors::POPOVER_HEADER_FG),
        ("popover_hover_bg", colors::POPOVER_HOVER_BG),
        ("action_bg", colors::POPOVER_ACTION_BG),
        ("action_fg", colors::POPOVER_ACTION_FG),
        ("danger_color", colors::DANGER_COLOR),
        ("vol_color", colors::VOL_COLOR),
        ("bri_color", colors::BRI_COLOR),
        ("slider_trough", colors::SLIDER_TROUGH_BG),
        ("slider_fill", colors::SLIDER_HIGHLIGHT_BG),
        ("slider_glow", colors::SLIDER_GLOW_COLOR),
        ("slider_thumb", colors::SLIDER_SLIDER_BG),
        ("vol_fill", colors::VOL_SLIDER_FILL),
        ("bri_fill", colors::BRI_SLIDER_FILL),
    ];
    assert(binding_views(b@) =~= color_bindings());
    b
}

/// The size that fills each size placeholder of the stylesheet, taken from
/// the size table: a number of pixels as its decimal numeral (the template
/// writes the unit), a font size as the table spells it.
pub open spec fn size_bindings() -> Seq<(Seq<char>, Seq<char>)> {
    seq![
        ("ws_margin_top"@, decimal(sizes::WORKSPACE_MARGIN_TOP as nat)),
        ("ws_margin_bottom"@, decimal(sizes::WORKSPACE_MARGIN_BOTTOM as nat)),
        ("ws_radius"@, decimal(sizes::WORKSPACE_CONTAINER_RADIUS as nat)),
        ("ws_padding"@, decimal(sizes::WORKSPACE_CONTAINER_PADDING as nat)),
        ("ws_btn_size"@, decimal(sizes::WORKSPACE_BUTTON_SIZE as nat)),
        ("ws_btn_radius"@, decimal(sizes::WORKSPACE_BUTTON_RADIUS as nat)),
        ("ws_active_width"@, decimal(sizes::WORKSPACE_ACTIVE_MIN_WIDTH as nat)),
        ("icon_font_size"@, sizes::ICON_FONT_SIZE@),
        ("bat_radius"@, decimal(sizes::BATTERY_PILL_RADIUS as nat)),
        ("bat_padding_x"@, decimal(sizes::BATTERY_PILL_PADDING_X as nat)),
        ("bat_min_height"@, decimal(sizes::BATTERY_PILL_MIN_HEIGHT as nat)),
        ("bat_font_size"@, sizes::BATTERY_PILL_FONT_SIZE@),
        ("media_icon_font_size"@, sizes::MEDIA_ICON_FONT_SIZE@),
        ("media_icon_width"@, decimal(sizes::MEDIA_ICON_MIN_WIDTH as nat)),
        ("media_pct_font_size"@, sizes::MEDIA_PCT_FONT_SIZE@),
        ("media_pct_width"@, decimal(sizes::MEDIA_PCT_MIN_WIDTH as nat)),
        ("slider_min_height"@, decimal(sizes::SLIDER_MIN_HEIGHT as nat)),
        ("trough_height"@, decimal(sizes::SLIDER_TROUGH_HEIGHT as nat)),
        ("trough_radius"@, decimal(sizes::SLIDER_TROUGH_RADIUS as nat)),
        ("thumb_size"@, decimal(sizes::SLIDER_THUMB_SIZE as nat)),
        ("thumb_border"@, decimal(sizes::SLIDER_THUMB_BORDER as nat)),
    ]
}

/// Every placeholder binding of the stylesheet: the colours, then the sizes.
pub open spec fn css_bindings() -> Seq<(Seq<char>, Seq<char>)> {
    color_bindings() + size_bindings()
}

/// The plain values of bindings whose values are owned strings.
pub open spec fn owned_binding_views(b: Seq<(&str, String)>) -> Seq<(Seq<char>, Seq<char>)> {
    b.map_values(|p: (&str, String)| (p.0@, p.1@))
}

/// The decimal numeral of a non-negative size.
fn size_numeral(n: i32) -> (s: String)
    requires
        n >= 0,
    ensures
        s@ == decimal(n as nat),
{
    string_from(&decimal_chars(n as u64))
}

/// The size bindings, with their values written out.
pub fn size_binding_list() -> (b: Vec<(&'static str, String)>)
    ensures
        owned_binding_views(b@) == size_bindings(),
{
    let b = vec![
        ("ws_margin_top", size_numeral(sizes::WORKSPACE_MARGIN_TOP)),
        ("ws_margin_bottom", size_numeral(sizes::WORKSPACE_MARGIN_BOTTOM)),
        ("ws_radius", size_numeral(sizes::WORKSPACE_CONTAINER_RADIUS)),
        ("ws_padding", size_numeral(sizes::WORKSPACE_CONTAINER_PADDING)),
        ("ws_btn_size", size_numeral(sizes::WORKSPACE_BUTTON_SIZE)),
        ("ws_btn_radius", size_numeral(sizes::WORKSPACE_BUTTON_RADIUS)),
        ("ws_active_width", size_numeral(sizes::WORKSPACE_ACTIVE_MIN_WIDTH)),
        ("icon_font_size", String::from_str(sizes::ICON_FONT_SIZE)),
        ("bat_radius", size_numeral(sizes::BATTERY_PILL_RADIUS)),
        ("bat_padding_x", size_numeral(sizes::BATTERY_PILL_PADDING_X)),
        ("bat_min_height", size_numeral(sizes::BATTERY_PILL_MIN_HEIGHT)),
        ("bat_font_size", String::from_str(sizes::BATTERY_PILL_FONT_SIZE)),
        ("media_icon_font_size", String::from_str(sizes::MEDIA_ICON_FONT_SIZE)),
        ("media_icon_width", size_numeral(sizes::MEDIA_ICON_MIN_WIDTH)),
        ("media_pct_font_size", String::from_str(sizes::MEDIA_PCT_FONT_SIZE)),
        ("media_pct_width", size_numeral(sizes::MEDIA_PCT_MIN_WIDTH)),
        ("slider_min_height", size_numeral(sizes::SLIDER_MIN_HEIGHT)),
        ("trough_height", size_numeral(sizes::SLIDER_TROUGH_HEIGHT)),
        ("trough_radius", size_numeral(sizes::SLIDER_TROUGH_RADIUS)),
        ("thumb_size", size_numeral(sizes::SLIDER_THUMB_SIZE)),
        ("thumb_border", size_numeral(sizes::SLIDER_THUMB_BORDER)),
    ];
    assert(owned_binding_views(b@) =~= size_bindings());
    b
}

/// The stylesheet of the bar: the template with every themed colour and
/// every size of the size table filled in.
pub fn generate_css() -> (css: String)
    ensures
        css@ == render(CSS_TEMPLATE@, css_bindings()),
{
    let size_values = size_binding_list();
    let mut bindings: Vec<(&str, &str)> = color_binding_list();
    let n = size_values.len();
    assert(color_bindings() + size_bindings().take(0) =~= color_bindings());
    for i in 0..n
        invariant
            n == size_values@.len(),
            owned_binding_views(size_values@) == size_bindings(),
            binding_views(bindings@) == color_bindings() + size_bindings().take(i as int),
    {
        let entry = &size_values[i];
        let ghost before = bindings@;
        bindings.push((entry.0, entry.1.as_str()));
        assert(owned_binding_views(size_values@)[i as int] == (entry.0@, entry.1@));
        assert(binding_views(bindings@) =~= binding_views(before).push((entry.0@, entry.1@)));
        assert(size_bindings().take(i + 1) =~= size_bindings().take(i as int).push(
            size_bindings()[i as int],
        ));
        assert(color_bindings() + size_bindings().take(i + 1) =~= (color_bindings()
            + size_bindings().take(i as int)).push(size_bindings()[i as int]));
    }
    assert(size_bindings().take(n as int) =~= size_bindings());
    render_template(CSS_TEMPLATE, &bindings)
}

} // verus!
