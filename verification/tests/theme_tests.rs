use nightbar::colors;
use nightbar::template::render_template;
use nightbar::sizes;
use nightbar::theme::{color_binding_list, generate_css, size_binding_list, CSS_TEMPLATE};

#[test]
fn placeholders_are_filled() {
    let b = vec![("a", "1"), ("bb", "22")];
    assert_eq!(render_template("x{a}y{bb}z", &b), "x1y22z");
    assert_eq!(render_template("{{a}} {a}", &b), "{a} 1");
    assert_eq!(render_template("{missing}", &b), "{missing}");
    assert_eq!(render_template("open { only", &b), "open { only");
    assert_eq!(render_template("close } only", &b), "close } only");
    assert_eq!(render_template("", &b), "");
    assert_eq!(render_template("plain text", &b), "plain text");
}

#[test]
fn first_binding_wins() {
    let b = vec![("a", "first"), ("a", "second")];
    assert_eq!(render_template("{a}", &b), "first");
}

#[test]
fn every_placeholder_has_a_binding() {
    let css = generate_css();
    assert!(!css.contains("{bar_bg}"));
    assert!(!css.contains("{ws_btn_size}"));
    assert_eq!(color_binding_list().len(), 33);
    assert_eq!(size_binding_list().len(), 21);
    assert!(CSS_TEMPLATE.contains("{slider_glow}"));
}

#[test]
fn stylesheet_matches_format() {
    let expected = format!(
        r#"
        window {{ background-color: {bar_bg}; }}
"#,
        bar_bg = colors::BAR_BG
    );
    let css = generate_css();
    assert!(css.starts_with(&expected));
    assert!(css.contains("window { background-color: #192330; }"));
    assert!(css.contains("font-family: 'JetBrains Mono Nerd Font', 'monospace';"));
    assert!(css.contains(".workspace-active {\n            background-color: #81b29a;"));
    assert!(css.contains(".bri-slider scale contents highlight { background-color: #63cdcf; }"));
    assert!(css.contains("box-shadow: 0 0 10px #a3be8c;"));
    assert!(css.contains("popover > contents {\n            background-color: #1e2a3e; border: 1px solid #3c4a5e;"));
    assert!(!css.contains("{{"));
}

#[test]
fn stylesheet_equals_the_formatted_template() {
    let expected =
        format!(
        r#"
        window {{ background-color: {bar_bg}; }}

        label, button {{
            font-family: {font};
            font-size: {font_size};
            font-weight: bold;
        }}

        /* ---- WORKSPACES ---- */
        .workspaces {{
            margin-top: 4px; margin-bottom: 4px;
            background-color: {ws_bg};
            border-radius: 18px;
            padding: 4px;
        }}

        .workspace-btn {{
            color: {ws_empty_fg};
            background-color: {ws_empty_bg};
            min-width: 28px; min-height: 28px; padding: 0;
            border-radius: 14px; border: none; box-shadow: none;
            transition: all 0.15s cubic-bezier(0.25, 0.46, 0.45, 0.94);
        }}

        .workspace-occupied {{
            background-color: {ws_occ_bg};
            color: {ws_occ_fg};
        }}

        .workspace-active {{
            background-color: {ws_act_bg};
            color: {ws_act_fg};
            min-width: 68px;
            border-radius: 14px;
        }}

        /* ---- CLOCK ---- */
        .clock-text {{
            color: {clock_color};
            background: transparent;
            border: none;
            box-shadow: none;
            padding: 0 8px;
        }}

        /* ---- ICON BUTTONS (wifi, bt) ---- */
        .icon-btn {{
            color: {icon_color};
            background: transparent;
            border: none;
            box-shadow: none;
            padding: 0 6px;
            font-size: 16px;
            transition: color 0.15s ease;
        }}

        .icon-btn:hover {{
            color: {icon_hover};
        }}

        /* ---- BATTERY PILL ---- */
        .battery-pill {{
            background-color: {bat_bg};
            border: 1px solid {bat_border};
            border-radius: 10px;
            padding: 0 10px;
            min-height: 22px;
            color: {bat_fg};
            font-size: 13px;
        }}

        .battery-charging {{
            border-color: {bat_charge};
            color: {bat_charge};
        }}

        /* ---- POPOVER ---- */
        popover > contents {{
            background-color: {popover_bg}; border: 1px solid {popover_border};
            border-radius: 14px; padding: 14px;
            box-shadow: 0 4px 16px rgba(0,0,0,0.4);
        }}
        calendar {{ color: {popover_fg}; }}

        .popup-header {{ color: {popover_header_fg}; font-size: 16px; margin-bottom: 4px; }}
        .row-item {{ padding: 6px; border-radius: 8px; }}
        .row-item:hover {{ background-color: {popover_hover_bg}; }}
        .row-name {{ color: {popover_fg}; }}

        .popup-action-btn {{
            background-color: {action_bg}; color: {action_fg};
            border-radius: 6px; padding: 4px 12px; border: none; box-shadow: none;
        }}
        .popup-action-btn-danger {{ color: {danger_color}; }}

        .power-btn {{
            background-color: {action_bg}; color: {popover_fg};
            border-radius: 8px; padding: 8px 12px; border: none; box-shadow: none;
        }}
        .power-btn-active {{ background-color: {popover_border}; color: {popover_bg}; }}

        /* ================================================
           MEDIA POPUP — MODERN CAPSULE SLIDERS
           ================================================ */

        .media-popup-box {{ padding: 2px 0; }}
        .media-row {{ padding: 6px 0; }}
        .media-icon {{ font-size: 18px; min-width: 26px; min-height: 32px; }}
        .media-pct {{ font-size: 13px; min-width: 40px; text-align: end; }}
        .vol-media-pct {{ color: {vol_color}; }}
        .bri-media-pct {{ color: {bri_color}; }}

        .media-slider {{ -GtkScale-slider-length: 0; min-height: 32px; padding: 0 2px; }}
        .media-slider scale {{ min-height: 20px; padding: 0; }}
        .media-slider scale contents {{ min-height: 20px; }}

        .media-slider scale contents trough {{
            min-height: 12px; border-radius: 6px;
            background-color: {slider_trough};
            border: none; box-shadow: inset 0 1px 3px rgba(0,0,0,0.35);
        }}
        .media-slider scale trough {{
            background-color: {slider_trough}; border: none;
            border-radius: 6px; min-height: 12px;
            box-shadow: inset 0 1px 3px rgba(0,0,0,0.35);
        }}
        .media-slider scale contents highlight {{
            min-height: 12px; border-radius: 6px;
            background-color: {slider_fill}; border: none;
            box-shadow: none;
            transition: background-color 0.2s ease, box-shadow 0.2s ease;
        }}
        .media-slider scale:hover contents highlight {{
            box-shadow: 0 0 10px {slider_glow};
        }}
        .media-slider scale contents slider {{
            min-width: 16px; min-height: 16px; margin: -4px;
            border-radius: 50%; background-color: {slider_thumb};
            border: 2px solid {slider_fill};
            box-shadow: 0 1px 4px rgba(0,0,0,0.4);
            transition: background-color 0.15s ease, border-color 0.15s ease, box-shadow 0.15s ease;
        }}
        .media-slider scale:hover contents slider {{
            background-color: {slider_fill}; border-color: {slider_glow};
            box-shadow: 0 0 12px {slider_glow};
        }}
        .media-slider scale slider {{
            min-width: 16px; min-height: 16px; border-radius: 50%;
            background-color: {slider_thumb};
            border: 2px solid {slider_fill};
            box-shadow: 0 1px 4px rgba(0,0,0,0.4);
        }}
        .media-slider scale:hover slider {{
            background-color: {slider_fill}; border-color: {slider_glow};
            box-shadow: 0 0 12px {slider_glow};
        }}

        .vol-slider scale contents highlight {{ background-color: {vol_fill}; }}
        .vol-slider scale:hover contents highlight {{ box-shadow: 0 0 12px {vol_fill}; }}
        .vol-slider scale contents slider {{ border-color: {vol_fill}; }}
        .vol-slider scale:hover contents slider {{ background-color: {vol_fill}; border-color: {vol_fill}; box-shadow: 0 0 14px {vol_fill}; }}
        .vol-slider scale slider {{ border-color: {vol_fill}; }}
        .vol-slider scale:hover slider {{ background-color: {vol_fill}; border-color: {vol_fill}; box-shadow: 0 0 14px {vol_fill}; }}

        .bri-slider scale contents highlight {{ background-color: {bri_fill}; }}
        .bri-slider scale:hover contents highlight {{ box-shadow: 0 0 12px {bri_fill}; }}
        .bri-slider scale contents slider {{ border-color: {bri_fill}; }}
        .bri-slider scale:hover contents slider {{ background-color: {bri_fill}; border-color: {bri_fill}; box-shadow: 0 0 14px {bri_fill}; }}
        .bri-slider scale slider {{ border-color: {bri_fill}; }}
        .bri-slider scale:hover slider {{ background-color: {bri_fill}; border-color: {bri_fill}; box-shadow: 0 0 14px {bri_fill}; }}
        "#,
        bar_bg = colors::BAR_BG,
        font = colors::BAR_FONT,
        font_size = colors::BAR_FONT_SIZE,
        ws_bg = colors::WORKSPACE_BG,
        ws_empty_fg = colors::WORKSPACE_EMPTY_FG,
        ws_empty_bg = colors::WORKSPACE_EMPTY_BG,
        ws_occ_bg = colors::WORKSPACE_OCCUPIED_BG,
        ws_occ_fg = colors::WORKSPACE_OCCUPIED_FG,
        ws_act_bg = colors::WORKSPACE_ACTIVE_BG,
        ws_act_fg = colors::WORKSPACE_ACTIVE_FG,
        clock_color = colors::CLOCK_COLOR,
        icon_color = colors::ICON_COLOR,
        icon_hover = colors::ICON_HOVER_COLOR,
        bat_bg = colors::BATTERY_PILL_BG,
        bat_border = colors::BATTERY_PILL_BORDER,
        bat_fg = colors::BATTERY_PILL_FG,
        bat_charge = colors::BATTERY_CHARGING_COLOR,
        popover_bg = colors::POPOVER_BG,
        popover_border = colors::POPOVER_BORDER,
        popover_fg = colors::POPOVER_FG,
        popover_header_fg = colors::POPOVER_HEADER_FG,
        popover_hover_bg = colors::POPOVER_HOVER_BG,
        action_bg = colors::POPOVER_ACTION_BG,
        action_fg = colors::POPOVER_ACTION_FG,
        danger_color = colors::DANGER_COLOR,
        vol_color = colors::VOL_COLOR,
        bri_color = colors::BRI_COLOR,
        slider_trough = colors::SLIDER_TROUGH_BG,
        slider_fill = colors::SLIDER_HIGHLIGHT_BG,
        slider_glow = colors::SLIDER_GLOW_COLOR,
        slider_thumb = colors::SLIDER_SLIDER_BG,
        vol_fill = colors::VOL_SLIDER_FILL,
        bri_fill = colors::BRI_SLIDER_FILL,
    )
;
    assert_eq!(generate_css(), expected);
}

#[test]
fn stylesheet_sizes_follow_the_size_table() {
    let css = generate_css();
    assert!(css.contains(&format!(
        "min-width: {0}px; min-height: {0}px",
        sizes::WORKSPACE_BUTTON_SIZE
    )));
    assert!(css.contains(&format!("min-width: {}px;", sizes::WORKSPACE_ACTIVE_MIN_WIDTH)));
    assert!(css.contains(&format!("border-radius: {}px;", sizes::WORKSPACE_CONTAINER_RADIUS)));
    assert!(css.contains(&format!("font-size: {};", sizes::BATTERY_PILL_FONT_SIZE)));
    assert!(css.contains(&format!(
        ".media-icon {{ font-size: {}; min-width: {}px;",
        sizes::MEDIA_ICON_FONT_SIZE,
        sizes::MEDIA_ICON_MIN_WIDTH
    )));
    assert!(css.contains(&format!("border: {}px solid #", sizes::SLIDER_THUMB_BORDER)));
}

#[test]
fn size_values_are_decimal_numerals() {
    let values = size_binding_list();
    assert_eq!(values[0].0, "ws_margin_top");
    assert_eq!(values[0].1, "4");
    assert_eq!(values[4].0, "ws_btn_size");
    assert_eq!(values[4].1, "28");
    assert_eq!(values[6].1, "68");
    assert_eq!(values[7].1, "16px");
    assert_eq!(values[11].1, "13px");
}
