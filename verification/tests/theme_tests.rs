use redumper_gui::theme::{ColorTheme, Rgb, ThemePreset};

fn rgb(r: u8, g: u8, b: u8) -> Rgb {
    Rgb { r, g, b }
}

// The custom theme derived from a theme color, computed in floating point the way the
// theme editor does, to hold the stored custom presets against.
fn custom_from_rgb(c: [u8; 3], light: bool) -> ColorTheme {
    let [r, g, b] = c;
    let lum = (0.2126 * r as f32 + 0.7152 * g as f32 + 0.0722 * b as f32) / 255.0;
    let tint = |base: u8, t: f32| {
        let m = |x: u8| (base as f32 * (1.0 - t) + x as f32 * t) as u8;
        rgb(m(r), m(g), m(b))
    };
    let stop = |br: u8, bg: u8, bb: u8| {
        rgb(
            br.saturating_add(r / 14).min(235),
            (bg as u16 + g as u16 / 20).min(110) as u8,
            (bb as u16 + b as u16 / 20).min(110) as u8,
        )
    };
    let action = |br: u8, bg: u8, bb: u8| {
        rgb(
            (br as u16 + r as u16 / 20).min(90) as u8,
            bg.saturating_add(g / 14).min(220),
            (bb as u16 + b as u16 / 20).min(140) as u8,
        )
    };
    if light {
        let shift = ((0.5 - lum) * 35.0) as i16;
        let bg_base = (222i16 + shift).clamp(195, 238) as u8;
        let panel_base = (236i16 + shift).clamp(210, 248) as u8;
        let darken = ((lum - 0.7) / 0.7).clamp(0.0, 1.0);
        let blend = |a: f32, b: f32| (a + (b - a) * darken) as u8;
        ColorTheme {
            bg_dark: tint(bg_base, 0.18),
            bg_panel: tint(panel_base, 0.14),
            accent: rgb(
                (r as f32 + (80.0 - r as f32) * darken) as u8,
                (g as f32 + (80.0 - g as f32) * darken) as u8,
                (b as f32 + (80.0 - b as f32) * darken) as u8,
            ),
            accent_stop: stop(180, 50, 50),
            accent_action: action(50, 160, 80),
            highlight: tint(blend(60.0, 20.0), 0.65),
            text_dim: tint(blend(115.0, 80.0), 0.14),
            text_bright: tint(blend(18.0, 10.0), 0.05),
            border: tint(175, 0.22),
            log_text: tint(blend(25.0, 15.0), 0.06),
            log_bg: tint(panel_base.saturating_sub(8), 0.15),
            log_border: tint(178, 0.18),
            widget_bg: tint(198, 0.20),
            widget_inactive: tint(215, 0.15),
            widget_hovered: tint(182, 0.28),
            widget_active: tint(140, 0.52),
            monochrome: false,
        }
    } else {
        let shift = ((lum - 0.5) * 18.0) as i16;
        let bg_base = (18i16 + shift).clamp(10, 30) as u8;
        let panel_base = (28i16 + shift).clamp(18, 42) as u8;
        let brighten = ((0.3 - lum) / 0.3).clamp(0.0, 1.0);
        let blend = |a: f32, b: f32| (a + (b - a) * brighten) as u8;
        ColorTheme {
            bg_dark: tint(bg_base, 0.10),
            bg_panel: tint(panel_base, 0.12),
            accent: rgb(
                (r as f32 + (160.0 - r as f32) * brighten) as u8,
                (g as f32 + (160.0 - g as f32) * brighten) as u8,
                (b as f32 + (160.0 - b as f32) * brighten) as u8,
            ),
            accent_stop: stop(210, 80, 80),
            accent_action: action(60, 190, 100),
            highlight: tint(blend(220.0, 240.0), 0.55),
            text_dim: tint(blend(120.0, 180.0), 0.14),
            text_bright: tint(blend(218.0, 200.0), 0.06),
            border: tint(52, 0.20),
            log_text: tint(blend(195.0, 210.0), 0.08),
            log_bg: tint(bg_base.saturating_sub(4), 0.08),
            log_border: tint(44, 0.18),
            widget_bg: tint(44, 0.20),
            widget_inactive: tint(32, 0.12),
            widget_hovered: tint(54, 0.28),
            widget_active: tint(42, 0.55),
            monochrome: false,
        }
    }
}

#[test]
fn custom_presets_follow_the_default_theme_color() {
    assert_eq!(ThemePreset::Custom.colors(), custom_from_rgb([100, 149, 237], true));
    assert_eq!(ThemePreset::CustomDark.colors(), custom_from_rgb([100, 149, 237], false));
}

#[test]
fn preset_list_and_names() {
    let all = ThemePreset::all();
    assert_eq!(all.len(), 14);
    assert_eq!(all[0], ThemePreset::Light);
    assert_eq!(all[13], ThemePreset::CustomDark);
    assert_eq!(ThemePreset::Purple.name(), "Purple Nova");
    assert_eq!(ThemePreset::HighContrastDark.name(), "High Contrast");
    assert_eq!(ThemePreset::MonochromeDark.name(), "Monochrome");
    assert_eq!(ThemePreset::CustomDark.name(), "Custom");
}

#[test]
fn toggling_pairs_light_and_dark() {
    for p in ThemePreset::all() {
        let q = p.toggle_mode();
        assert_ne!(p, q);
        assert_eq!(q.toggle_mode(), p);
        assert_ne!(p.is_light(), q.is_light());
        assert_eq!(p.is_custom(), q.is_custom());
    }
    assert_eq!(ThemePreset::Solarized.toggle_mode(), ThemePreset::Monokai);
    assert_eq!(ThemePreset::Catalyst.toggle_mode(), ThemePreset::Cyberpunk);
    assert!(ThemePreset::Catalyst.is_light());
    assert!(!ThemePreset::Purple.is_light());
}

#[test]
fn preset_colors() {
    let light = ThemePreset::Light.colors();
    assert_eq!(light.bg_dark, rgb(210, 212, 216));
    assert_eq!(light.accent_stop, rgb(160, 40, 40));
    assert!(!light.monochrome);
    let mono = ThemePreset::MonochromeDark.colors();
    assert!(mono.monochrome);
    assert_eq!(mono.widget_inactive, rgb(32, 32, 32));
    assert!(ThemePreset::Monochrome.colors().monochrome);
}

#[test]
fn color_helpers() {
    assert_eq!(rgb(100, 255, 9).pressed(), rgb(70, 178, 6));
    assert_eq!(rgb(0, 100, 255).blend_quarter(rgb(200, 0, 255)), rgb(50, 75, 255));
    assert!(rgb(99, 0, 50).is_dark());
    assert!(!rgb(99, 100, 50).is_dark());
}

#[test]
fn custom_accents() {
    let cornflower = rgb(100, 149, 237);
    assert_eq!(cornflower.stop_accent(rgb(180, 50, 50)), rgb(187, 57, 61));
    assert_eq!(cornflower.action_accent(rgb(50, 160, 80)), rgb(55, 170, 91));
    let white = rgb(255, 255, 255);
    assert_eq!(white.stop_accent(rgb(230, 100, 100)), rgb(235, 110, 110));
    assert_eq!(white.action_accent(rgb(80, 210, 130)), rgb(90, 220, 140));
}
