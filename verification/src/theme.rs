//! Color themes: the presets, their names, light/dark pairs and colors.
use vstd::prelude::*;

verus! {

/// An sRGB color.
#[derive(Clone, Copy, PartialEq, Eq, Debug, Structural)]
pub struct Rgb {
    pub r: u8,
    pub g: u8,
    pub b: u8,
}

impl Rgb {
    /// The fill of a pressed button: seven tenths of each channel.
    pub fn pressed(self) -> (r: Rgb)
        ensures
            r.r == self.r * 7 / 10,
            r.g == self.g * 7 / 10,
            r.b == self.b * 7 / 10,
    {
        Rgb {
            r: (self.r as u16 * 7 / 10) as u8,
            g: (self.g as u16 * 7 / 10) as u8,
            b: (self.b as u16 * 7 / 10) as u8,
        }
    }

    /// Three parts of this color to one part of `other`, channel by channel
    /// (the warning tint of an empty required field).
    pub fn blend_quarter(self, other: Rgb) -> (r: Rgb)
        ensures
            r.r == (3 * self.r + other.r) / 4,
            r.g == (3 * self.g + other.g) / 4,
            r.b == (3 * self.b + other.b) / 4,
    {
        Rgb {
            r: ((self.r as u16 * 3 + other.r as u16) / 4) as u8,
            g: ((self.g as u16 * 3 + other.g as u16) / 4) as u8,
            b: ((self.b as u16 * 3 + other.b as u16) / 4) as u8,
        }
    }

    /// The stop (red) accent of a custom theme on this theme color, from a base color:
    /// the base red plus a fourteenth of the theme's red (at most 235), the base green
    /// and blue plus a twentieth of the theme's (at most 110).
    pub fn stop_accent(self, base: Rgb) -> (r: Rgb)
        ensures
            r.r == if base.r + self.r / 14 > 235 {
                235
            } else {
                base.r + self.r / 14
            },
            r.g == if base.g + self.g / 20 > 110 {
                110
            } else {
                base.g + self.g / 20
            },
            r.b == if base.b + self.b / 20 > 110 {
                110
            } else {
                base.b + self.b / 20
            },
    {
        let red: u16 = base.r as u16 + (self.r / 14) as u16;
        let green: u16 = base.g as u16 + (self.g / 20) as u16;
        let blue: u16 = base.b as u16 + (self.b / 20) as u16;
        Rgb {
            r: if red > 235 { 235 } else { red as u8 },
            g: if green > 110 { 110 } else { green as u8 },
            b: if blue > 110 { 110 } else { blue as u8 },
        }
    }

    /// The action (green) accent of a custom theme on this theme color, from a base
    /// color: the base red plus a twentieth of the theme's red (at most 90), the base
    /// green plus a fourteenth of the theme's (at most 220), the base blue plus a
    /// twentieth of the theme's (at most 140).
    pub fn action_accent(self, base: Rgb) -> (r: Rgb)
        ensures
            r.r == if base.r + self.r / 20 > 90 {
                90
            } else {
                base.r + self.r / 20
            },
            r.g == if base.g + self.g / 14 > 220 {
                220
            } else {
                base.g + self.g / 14
            },
            r.b == if base.b + self.b / 20 > 140 {
                140
            } else {
                base.b + self.b / 20
            },
    {
        let red: u16 = base.r as u16 + (self.r / 20) as u16;
        let green: u16 = base.g as u16 + (self.g / 14) as u16;
        let blue: u16 = base.b as u16 + (self.b / 20) as u16;
        Rgb {
            r: if red > 90 { 90 } else { red as u8 },
            g: if green > 220 { 220 } else { green as u8 },
            b: if blue > 140 { 140 } else { blue as u8 },
        }
    }

    /// Whether text on this color reads best in white: every channel is below 100.
    pub fn is_dark(self) -> (b: bool)
        ensures
            b == (self.r < 100 && self.g < 100 && self.b < 100),
    {
        self.r < 100 && self.g < 100 && self.b < 100
    }
}

/// The colors of a theme.
#[derive(Clone, Copy, PartialEq, Eq, Debug, Structural)]
pub struct ColorTheme {
    /// Darkest background, for the title bar and the display panel.
    pub bg_dark: Rgb,
    /// Slightly brighter background, for the control and log panels.
    pub bg_panel: Rgb,
    /// Important labels.
    pub accent: Rgb,
    /// Stop and bad states, usually red.
    pub accent_stop: Rgb,
    /// Start and good states, usually green.
    pub accent_action: Rgb,
    /// Action text and buttons.
    pub highlight: Rgb,
    pub text_dim: Rgb,
    pub text_bright: Rgb,
    pub border: Rgb,
    pub log_text: Rgb,
    pub log_bg: Rgb,
    pub log_border: Rgb,
    pub widget_bg: Rgb,
    pub widget_inactive: Rgb,
    pub widget_hovered: Rgb,
    pub widget_active: Rgb,
    pub monochrome: bool,
}

/// The theme presets.
#[derive(Clone, Copy, PartialEq, Eq, Debug, Structural)]
pub enum ThemePreset {
    Light,
    Dark,
    Solarized,
    Monokai,
    Catalyst,
    Cyberpunk,
    Pastel,
    Purple,
    HighContrast,
    HighContrastDark,
    Monochrome,
    MonochromeDark,
    Custom,
    CustomDark,
}

/// The name under which a preset is listed (both modes of a pair may share it).
pub open spec fn preset_name(p: ThemePreset) -> Seq<char> {
    match p {
        ThemePreset::Light => "Light"@,
        ThemePreset::Dark => "Dark"@,
        ThemePreset::Solarized => "Solarized"@,
        ThemePreset::Monokai => "Monokai"@,
        ThemePreset::Catalyst => "Catalyst"@,
        ThemePreset::Cyberpunk => "Cyberpunk"@,
        ThemePreset::Pastel => "Pastel"@,
        ThemePreset::Purple => "Purple Nova"@,
        ThemePreset::HighContrast => "High Contrast"@,
        ThemePreset::HighContrastDark => "High Contrast"@,
        ThemePreset::Monochrome => "Monochrome"@,
        ThemePreset::MonochromeDark => "Monochrome"@,
        ThemePreset::Custom => "Custom"@,
        ThemePreset::CustomDark => "Custom"@,
    }
}

pub open spec fn preset_is_custom(p: ThemePreset) -> bool {
    p == ThemePreset::Custom || p == ThemePreset::CustomDark
}

/// The presets with a light background.
pub open spec fn preset_is_light(p: ThemePreset) -> bool {
    p == ThemePreset::Light || p == ThemePreset::Solarized || p == ThemePreset::Pastel || p == ThemePreset::HighContrast || p == ThemePreset::Catalyst || p == ThemePreset::Monochrome || p == ThemePreset::Custom
}

/// The other mode (light or dark) of the same theme.
pub open spec fn preset_toggle(p: ThemePreset) -> ThemePreset {
    match p {
        ThemePreset::Light => ThemePreset::Dark,
        ThemePreset::Dark => ThemePreset::Light,
        ThemePreset::Solarized => ThemePreset::Monokai,
        ThemePreset::Monokai => ThemePreset::Solarized,
        ThemePreset::Catalyst => ThemePreset::Cyberpunk,
        ThemePreset::Cyberpunk => ThemePreset::Catalyst,
        ThemePreset::Pastel => ThemePreset::Purple,
        ThemePreset::Purple => ThemePreset::Pastel,
        ThemePreset::HighContrast => ThemePreset::HighContrastDark,
        ThemePreset::HighContrastDark => ThemePreset::HighContrast,
        ThemePreset::Monochrome => ThemePreset::MonochromeDark,
        ThemePreset::MonochromeDark => ThemePreset::Monochrome,
        ThemePreset::Custom => ThemePreset::CustomDark,
        ThemePreset::CustomDark => ThemePreset::Custom,
    }
}

/// Every preset once, in the order the theme picker lists them.
pub open spec fn all_presets() -> Seq<ThemePreset> {
    seq![
        ThemePreset::Light,
        ThemePreset::Dark,
        ThemePreset::Solarized,
        ThemePreset::Monokai,
        ThemePreset::Catalyst,
        ThemePreset::Cyberpunk,
        ThemePreset::Pastel,
        ThemePreset::Purple,
        ThemePreset::HighContrast,
        ThemePreset::HighContrastDark,
        ThemePreset::Monochrome,
        ThemePreset::MonochromeDark,
        ThemePreset::Custom,
        ThemePreset::CustomDark,
    ]
}

/// The colors of each preset. The custom presets hold the colors that the custom
/// theme computes from its default base color, cornflower blue `(100, 149, 237)`.
pub open spec fn preset_colors(p: ThemePreset) -> ColorTheme {
    match p {
        ThemePreset::Light => ColorTheme {
            bg_dark: Rgb { r: 210, g: 212, b: 216 },
            bg_panel: Rgb { r: 226, g: 228, b: 232 },
            accent: Rgb { r: 60, g: 68, b: 82 },
            accent_stop: Rgb { r: 160, g: 40, b: 40 },
            accent_action: Rgb { r: 70, g: 160, b: 80 },
            highlight: Rgb { r: 25, g: 60, b: 100 },
            text_dim: Rgb { r: 108, g: 114, b: 124 },
            text_bright: Rgb { r: 18, g: 22, b: 28 },
            border: Rgb { r: 172, g: 176, b: 184 },
            log_text: Rgb { r: 22, g: 28, b: 38 },
            log_bg: Rgb { r: 220, g: 222, b: 226 },
            log_border: Rgb { r: 175, g: 179, b: 187 },
            widget_bg: Rgb { r: 196, g: 200, b: 206 },
            widget_inactive: Rgb { r: 214, g: 217, b: 222 },
            widget_hovered: Rgb { r: 184, g: 188, b: 196 },
            widget_active: Rgb { r: 164, g: 170, b: 180 },
            monochrome: false,
        },
        ThemePreset::Dark => ColorTheme {
            bg_dark: Rgb { r: 22, g: 22, b: 26 },
            bg_panel: Rgb { r: 30, g: 30, b: 35 },
            accent: Rgb { r: 180, g: 190, b: 210 },
            accent_stop: Rgb { r: 200, g: 100, b: 100 },
            accent_action: Rgb { r: 60, g: 180, b: 100 },
            highlight: Rgb { r: 130, g: 155, b: 215 },
            text_dim: Rgb { r: 120, g: 125, b: 135 },
            text_bright: Rgb { r: 210, g: 212, b: 218 },
            border: Rgb { r: 50, g: 52, b: 58 },
            log_text: Rgb { r: 185, g: 188, b: 195 },
            log_bg: Rgb { r: 18, g: 18, b: 22 },
            log_border: Rgb { r: 42, g: 44, b: 50 },
            widget_bg: Rgb { r: 42, g: 44, b: 50 },
            widget_inactive: Rgb { r: 32, g: 33, b: 38 },
            widget_hovered: Rgb { r: 48, g: 50, b: 58 },
            widget_active: Rgb { r: 55, g: 58, b: 68 },
            monochrome: false,
        },
        ThemePreset::Solarized => ColorTheme {
            bg_dark: Rgb { r: 238, g: 232, b: 213 },
            bg_panel: Rgb { r: 253, g: 246, b: 227 },
            accent: Rgb { r: 42, g: 161, b: 152 },
            accent_stop: Rgb { r: 220, g: 50, b: 47 },
            accent_action: Rgb { r: 133, g: 153, b: 0 },
            highlight: Rgb { r: 203, g: 75, b: 22 },
            text_dim: Rgb { r: 101, g: 123, b: 131 },
            text_bright: Rgb { r: 7, g: 54, b: 66 },
            border: Rgb { r: 147, g: 161, b: 161 },
            log_text: Rgb { r: 7, g: 54, b: 66 },
            log_bg: Rgb { r: 238, g: 232, b: 213 },
            log_border: Rgb { r: 147, g: 161, b: 161 },
            widget_bg: Rgb { r: 238, g: 232, b: 213 },
            widget_inactive: Rgb { r: 253, g: 246, b: 227 },
            widget_hovered: Rgb { r: 238, g: 232, b: 213 },
            widget_active: Rgb { r: 147, g: 161, b: 161 },
            monochrome: false,
        },
        ThemePreset::Monokai => ColorTheme {
            bg_dark: Rgb { r: 39, g: 40, b: 34 },
            bg_panel: Rgb { r: 49, g: 50, b: 44 },
            accent: Rgb { r: 102, g: 217, b: 239 },
            accent_stop: Rgb { r: 249, g: 38, b: 114 },
            accent_action: Rgb { r: 166, g: 226, b: 46 },
            highlight: Rgb { r: 253, g: 151, b: 31 },
            text_dim: Rgb { r: 117, g: 113, b: 94 },
            text_bright: Rgb { r: 248, g: 248, b: 242 },
            border: Rgb { r: 69, g: 70, b: 64 },
            log_text: Rgb { r: 248, g: 248, b: 242 },
            log_bg: Rgb { r: 39, g: 40, b: 34 },
            log_border: Rgb { r: 69, g: 70, b: 64 },
            widget_bg: Rgb { r: 59, g: 60, b: 54 },
            widget_inactive: Rgb { r: 44, g: 45, b: 39 },
            widget_hovered: Rgb { r: 69, g: 70, b: 64 },
            widget_active: Rgb { r: 174, g: 129, b: 255 },
            monochrome: false,
        },
        ThemePreset::Catalyst => ColorTheme {
            bg_dark: Rgb { r: 255, g: 255, b: 255 },
            bg_panel: Rgb { r: 242, g: 244, b: 248 },
            accent: Rgb { r: 30, g: 80, b: 140 },
            accent_stop: Rgb { r: 220, g: 30, b: 30 },
            accent_action: Rgb { r: 0, g: 160, b: 220 },
            highlight: Rgb { r: 220, g: 30, b: 30 },
            text_dim: Rgb { r: 150, g: 150, b: 155 },
            text_bright: Rgb { r: 10, g: 10, b: 12 },
            border: Rgb { r: 190, g: 192, b: 200 },
            log_text: Rgb { r: 10, g: 10, b: 12 },
            log_bg: Rgb { r: 252, g: 252, b: 254 },
            log_border: Rgb { r: 215, g: 215, b: 220 },
            widget_bg: Rgb { r: 230, g: 232, b: 238 },
            widget_inactive: Rgb { r: 238, g: 240, b: 244 },
            widget_hovered: Rgb { r: 220, g: 222, b: 230 },
            widget_active: Rgb { r: 220, g: 30, b: 30 },
            monochrome: false,
        },
        ThemePreset::Cyberpunk => ColorTheme {
            bg_dark: Rgb { r: 10, g: 10, b: 18 },
            bg_panel: Rgb { r: 16, g: 16, b: 28 },
            accent: Rgb { r: 0, g: 255, b: 242 },
            accent_stop: Rgb { r: 255, g: 0, b: 230 },
            accent_action: Rgb { r: 180, g: 255, b: 0 },
            highlight: Rgb { r: 255, g: 240, b: 0 },
            text_dim: Rgb { r: 140, g: 160, b: 180 },
            text_bright: Rgb { r: 220, g: 240, b: 255 },
            border: Rgb { r: 0, g: 180, b: 170 },
            log_text: Rgb { r: 0, g: 220, b: 200 },
            log_bg: Rgb { r: 5, g: 5, b: 12 },
            log_border: Rgb { r: 30, g: 60, b: 60 },
            widget_bg: Rgb { r: 50, g: 55, b: 85 },
            widget_inactive: Rgb { r: 20, g: 22, b: 35 },
            widget_hovered: Rgb { r: 30, g: 35, b: 55 },
            widget_active: Rgb { r: 40, g: 20, b: 60 },
            monochrome: false,
        },
        ThemePreset::Pastel => ColorTheme {
            bg_dark: Rgb { r: 235, g: 230, b: 255 },
            bg_panel: Rgb { r: 245, g: 240, b: 255 },
            accent: Rgb { r: 130, g: 70, b: 170 },
            accent_stop: Rgb { r: 240, g: 100, b: 140 },
            accent_action: Rgb { r: 60, g: 200, b: 160 },
            highlight: Rgb { r: 200, g: 120, b: 50 },
            text_dim: Rgb { r: 130, g: 115, b: 150 },
            text_bright: Rgb { r: 40, g: 30, b: 60 },
            border: Rgb { r: 200, g: 185, b: 220 },
            log_text: Rgb { r: 45, g: 35, b: 65 },
            log_bg: Rgb { r: 240, g: 235, b: 255 },
            log_border: Rgb { r: 205, g: 190, b: 225 },
            widget_bg: Rgb { r: 220, g: 210, b: 240 },
            widget_inactive: Rgb { r: 230, g: 225, b: 248 },
            widget_hovered: Rgb { r: 210, g: 200, b: 235 },
            widget_active: Rgb { r: 190, g: 175, b: 220 },
            monochrome: false,
        },
        ThemePreset::Purple => ColorTheme {
            bg_dark: Rgb { r: 12, g: 8, b: 20 },
            bg_panel: Rgb { r: 20, g: 14, b: 35 },
            accent: Rgb { r: 180, g: 130, b: 255 },
            accent_stop: Rgb { r: 245, g: 200, b: 255 },
            accent_action: Rgb { r: 100, g: 60, b: 190 },
            highlight: Rgb { r: 230, g: 200, b: 255 },
            text_dim: Rgb { r: 130, g: 110, b: 160 },
            text_bright: Rgb { r: 220, g: 210, b: 240 },
            border: Rgb { r: 80, g: 50, b: 130 },
            log_text: Rgb { r: 190, g: 170, b: 230 },
            log_bg: Rgb { r: 8, g: 5, b: 15 },
            log_border: Rgb { r: 60, g: 40, b: 100 },
            widget_bg: Rgb { r: 45, g: 30, b: 75 },
            widget_inactive: Rgb { r: 25, g: 18, b: 45 },
            widget_hovered: Rgb { r: 55, g: 38, b: 90 },
            widget_active: Rgb { r: 70, g: 45, b: 110 },
            monochrome: false,
        },
        ThemePreset::HighContrast => ColorTheme {
            bg_dark: Rgb { r: 255, g: 255, b: 255 },
            bg_panel: Rgb { r: 245, g: 245, b: 245 },
            accent: Rgb { r: 0, g: 80, b: 180 },
            accent_stop: Rgb { r: 200, g: 0, b: 0 },
            accent_action: Rgb { r: 0, g: 140, b: 60 },
            highlight: Rgb { r: 0, g: 0, b: 0 },
            text_dim: Rgb { r: 80, g: 80, b: 80 },
            text_bright: Rgb { r: 0, g: 0, b: 0 },
            border: Rgb { r: 0, g: 0, b: 0 },
            log_text: Rgb { r: 0, g: 0, b: 0 },
            log_bg: Rgb { r: 255, g: 255, b: 255 },
            log_border: Rgb { r: 0, g: 0, b: 0 },
            widget_bg: Rgb { r: 230, g: 230, b: 230 },
            widget_inactive: Rgb { r: 240, g: 240, b: 240 },
            widget_hovered: Rgb { r: 210, g: 210, b: 210 },
            widget_active: Rgb { r: 0, g: 80, b: 180 },
            monochrome: false,
        },
        ThemePreset::HighContrastDark => ColorTheme {
            bg_dark: Rgb { r: 0, g: 0, b: 0 },
            bg_panel: Rgb { r: 15, g: 15, b: 15 },
            accent: Rgb { r: 80, g: 180, b: 255 },
            accent_stop: Rgb { r: 255, g: 80, b: 80 },
            accent_action: Rgb { r: 50, g: 220, b: 100 },
            highlight: Rgb { r: 255, g: 220, b: 50 },
            text_dim: Rgb { r: 180, g: 180, b: 180 },
            text_bright: Rgb { r: 255, g: 255, b: 255 },
            border: Rgb { r: 120, g: 120, b: 120 },
            log_text: Rgb { r: 240, g: 240, b: 240 },
            log_bg: Rgb { r: 5, g: 5, b: 5 },
            log_border: Rgb { r: 100, g: 100, b: 100 },
            widget_bg: Rgb { r: 35, g: 35, b: 35 },
            widget_inactive: Rgb { r: 20, g: 20, b: 20 },
            widget_hovered: Rgb { r: 55, g: 55, b: 55 },
            widget_active: Rgb { r: 80, g: 180, b: 255 },
            monochrome: false,
        },
        ThemePreset::Monochrome => ColorTheme {
            bg_dark: Rgb { r: 220, g: 220, b: 220 },
            bg_panel: Rgb { r: 235, g: 235, b: 235 },
            accent: Rgb { r: 60, g: 60, b: 60 },
            accent_stop: Rgb { r: 40, g: 40, b: 40 },
            accent_action: Rgb { r: 160, g: 160, b: 160 },
            highlight: Rgb { r: 0, g: 0, b: 0 },
            text_dim: Rgb { r: 130, g: 130, b: 130 },
            text_bright: Rgb { r: 10, g: 10, b: 10 },
            border: Rgb { r: 180, g: 180, b: 180 },
            log_text: Rgb { r: 20, g: 20, b: 20 },
            log_bg: Rgb { r: 225, g: 225, b: 225 },
            log_border: Rgb { r: 185, g: 185, b: 185 },
            widget_bg: Rgb { r: 200, g: 200, b: 200 },
            widget_inactive: Rgb { r: 215, g: 215, b: 215 },
            widget_hovered: Rgb { r: 190, g: 190, b: 190 },
            widget_active: Rgb { r: 170, g: 170, b: 170 },
            monochrome: true,
        },
        ThemePreset::MonochromeDark => ColorTheme {
            bg_dark: Rgb { r: 18, g: 18, b: 18 },
            bg_panel: Rgb { r: 28, g: 28, b: 28 },
            accent: Rgb { r: 180, g: 180, b: 180 },
            accent_stop: Rgb { r: 220, g: 220, b: 220 },
            accent_action: Rgb { r: 100, g: 100, b: 100 },
            highlight: Rgb { r: 240, g: 240, b: 240 },
            text_dim: Rgb { r: 110, g: 110, b: 110 },
            text_bright: Rgb { r: 230, g: 230, b: 230 },
            border: Rgb { r: 55, g: 55, b: 55 },
            log_text: Rgb { r: 200, g: 200, b: 200 },
            log_bg: Rgb { r: 14, g: 14, b: 14 },
            log_border: Rgb { r: 50, g: 50, b: 50 },
            widget_bg: Rgb { r: 45, g: 45, b: 45 },
            widget_inactive: Rgb { r: 32, g: 32, b: 32 },
            widget_hovered: Rgb { r: 55, g: 55, b: 55 },
            widget_active: Rgb { r: 70, g: 70, b: 70 },
            monochrome: true,
        },
        ThemePreset::Custom => ColorTheme {
            bg_dark: Rgb { r: 198, g: 207, b: 223 },
            bg_panel: Rgb { r: 215, g: 222, b: 234 },
            accent: Rgb { r: 100, g: 149, b: 237 },
            accent_stop: Rgb { r: 187, g: 57, b: 61 },
            accent_action: Rgb { r: 55, g: 170, b: 91 },
            highlight: Rgb { r: 86, g: 117, b: 175 },
            text_dim: Rgb { r: 112, g: 119, b: 132 },
            text_bright: Rgb { r: 22, g: 24, b: 28 },
            border: Rgb { r: 158, g: 169, b: 188 },
            log_text: Rgb { r: 29, g: 32, b: 37 },
            log_bg: Rgb { r: 207, g: 214, b: 227 },
            log_border: Rgb { r: 163, g: 172, b: 188 },
            widget_bg: Rgb { r: 178, g: 188, b: 205 },
            widget_inactive: Rgb { r: 197, g: 205, b: 218 },
            widget_hovered: Rgb { r: 159, g: 172, b: 197 },
            widget_active: Rgb { r: 119, g: 144, b: 190 },
            monochrome: false,
        },
        ThemePreset::CustomDark => ColorTheme {
            bg_dark: Rgb { r: 27, g: 32, b: 40 },
            bg_panel: Rgb { r: 37, g: 43, b: 53 },
            accent: Rgb { r: 100, g: 149, b: 237 },
            accent_stop: Rgb { r: 217, g: 87, b: 91 },
            accent_action: Rgb { r: 65, g: 200, b: 111 },
            highlight: Rgb { r: 154, g: 180, b: 229 },
            text_dim: Rgb { r: 117, g: 124, b: 136 },
            text_bright: Rgb { r: 210, g: 213, b: 219 },
            border: Rgb { r: 61, g: 71, b: 89 },
            log_text: Rgb { r: 187, g: 191, b: 198 },
            log_bg: Rgb { r: 21, g: 25, b: 32 },
            log_border: Rgb { r: 54, g: 62, b: 78 },
            widget_bg: Rgb { r: 55, g: 65, b: 82 },
            widget_inactive: Rgb { r: 40, g: 46, b: 56 },
            widget_hovered: Rgb { r: 66, g: 80, b: 105 },
            widget_active: Rgb { r: 73, g: 100, b: 149 },
            monochrome: false,
        },
    }
}

impl ThemePreset {
    /// Every preset once, in the order the theme picker lists them.
    pub fn all() -> (r: Vec<ThemePreset>)
        ensures
            r@ == all_presets(),
    {
        let r = vec![
            ThemePreset::Light,
            ThemePreset::Dark,
            ThemePreset::Solarized,
            ThemePreset::Monokai,
            ThemePreset::Catalyst,
            ThemePreset::Cyberpunk,
            ThemePreset::Pastel,
            ThemePreset::Purple,
            ThemePreset::HighContrast,
            ThemePreset::HighContrastDark,
            ThemePreset::Monochrome,
            ThemePreset::MonochromeDark,
            ThemePreset::Custom,
            ThemePreset::CustomDark,
        ];
        assert(r@ == all_presets());
        r
    }

    pub fn name(&self) -> (r: &'static str)
        ensures
            r@ == preset_name(*self),
    {
        match self {
            ThemePreset::Light => "Light",
            ThemePreset::Dark => "Dark",
            ThemePreset::Solarized => "Solarized",
            ThemePreset::Monokai => "Monokai",
            ThemePreset::Catalyst => "Catalyst",
            ThemePreset::Cyberpunk => "Cyberpunk",
            ThemePreset::Pastel => "Pastel",
            ThemePreset::Purple => "Purple Nova",
            ThemePreset::HighContrast => "High Contrast",
            ThemePreset::HighContrastDark => "High Contrast",
            ThemePreset::Monochrome => "Monochrome",
            ThemePreset::MonochromeDark => "Monochrome",
            ThemePreset::Custom => "Custom",
            ThemePreset::CustomDark => "Custom",
        }
    }

    pub fn is_custom(&self) -> (b: bool)
        ensures
            b == preset_is_custom(*self),
    {
        match self {
            ThemePreset::Custom | ThemePreset::CustomDark => true,
            _ => false,
        }
    }

    pub fn is_light(&self) -> (b: bool)
        ensures
            b == preset_is_light(*self),
    {
        match self {
            ThemePreset::Light | ThemePreset::Solarized | ThemePreset::Pastel | ThemePreset::HighContrast | ThemePreset::Catalyst | ThemePreset::Monochrome | ThemePreset::Custom => true,
            _ => false,
        }
    }

    /// The other mode (light or dark) of the same theme.
    pub fn toggle_mode(&self) -> (r: ThemePreset)
        ensures
            r == preset_toggle(*self),
    {
        match self {
            ThemePreset::Light => ThemePreset::Dark,
            ThemePreset::Dark => ThemePreset::Light,
            ThemePreset::Solarized => ThemePreset::Monokai,
            ThemePreset::Monokai => ThemePreset::Solarized,
            ThemePreset::Catalyst => ThemePreset::Cyberpunk,
            ThemePreset::Cyberpunk => ThemePreset::Catalyst,
            ThemePreset::Pastel => ThemePreset::Purple,
            ThemePreset::Purple => ThemePreset::Pastel,
            ThemePreset::HighContrast => ThemePreset::HighContrastDark,
            ThemePreset::HighContrastDark => ThemePreset::HighContrast,
            ThemePreset::Monochrome => ThemePreset::MonochromeDark,
            ThemePreset::MonochromeDark => ThemePreset::Monochrome,
            ThemePreset::Custom => ThemePreset::CustomDark,
            ThemePreset::CustomDark => ThemePreset::Custom,
        }
    }

    /// The colors of the preset.
    pub fn colors(&self) -> (r: ColorTheme)
        ensures
            r == preset_colors(*self),
    {
        match self {
            ThemePreset::Light => ColorTheme {
                bg_dark: Rgb { r: 210, g: 212, b: 216 },
                bg_panel: Rgb { r: 226, g: 228, b: 232 },
                accent: Rgb { r: 60, g: 68, b: 82 },
                accent_stop: Rgb { r: 160, g: 40, b: 40 },
                accent_action: Rgb { r: 70, g: 160, b: 80 },
                highlight: Rgb { r: 25, g: 60, b: 100 },
                text_dim: Rgb { r: 108, g: 114, b: 124 },
                text_bright: Rgb { r: 18, g: 22, b: 28 },
                border: Rgb { r: 172, g: 176, b: 184 },
                log_text: Rgb { r: 22, g: 28, b: 38 },
                log_bg: Rgb { r: 220, g: 222, b: 226 },
                log_border: Rgb { r: 175, g: 179, b: 187 },
                widget_bg: Rgb { r: 196, g: 200, b: 206 },
                widget_inactive: Rgb { r: 214, g: 217, b: 222 },
                widget_hovered: Rgb { r: 184, g: 188, b: 196 },
                widget_active: Rgb { r: 164, g: 170, b: 180 },
                monochrome: false,
            },
            ThemePreset::Dark => ColorTheme {
                bg_dark: Rgb { r: 22, g: 22, b: 26 },
                bg_panel: Rgb { r: 30, g: 30, b: 35 },
                accent: Rgb { r: 180, g: 190, b: 210 },
                accent_stop: Rgb { r: 200, g: 100, b: 100 },
                accent_action: Rgb { r: 60, g: 180, b: 100 },
                highlight: Rgb { r: 130, g: 155, b: 215 },
                text_dim: Rgb { r: 120, g: 125, b: 135 },
                text_bright: Rgb { r: 210, g: 212, b: 218 },
                border: Rgb { r: 50, g: 52, b: 58 },
                log_text: Rgb { r: 185, g: 188, b: 195 },
                log_bg: Rgb { r: 18, g: 18, b: 22 },
                log_border: Rgb { r: 42, g: 44, b: 50 },
                widget_bg: Rgb { r: 42, g: 44, b: 50 },
                widget_inactive: Rgb { r: 32, g: 33, b: 38 },
                widget_hovered: Rgb { r: 48, g: 50, b: 58 },
                widget_active: Rgb { r: 55, g: 58, b: 68 },
                monochrome: false,
            },
            ThemePreset::Solarized => ColorTheme {
                bg_dark: Rgb { r: 238, g: 232, b: 213 },
                bg_panel: Rgb { r: 253, g: 246, b: 227 },
                accent: Rgb { r: 42, g: 161, b: 152 },
                accent_stop: Rgb { r: 220, g: 50, b: 47 },
                accent_action: Rgb { r: 133, g: 153, b: 0 },
                highlight: Rgb { r: 203, g: 75, b: 22 },
                text_dim: Rgb { r: 101, g: 123, b: 131 },
                text_bright: Rgb { r: 7, g: 54, b: 66 },
                border: Rgb { r: 147, g: 161, b: 161 },
                log_text: Rgb { r: 7, g: 54, b: 66 },
                log_bg: Rgb { r: 238, g: 232, b: 213 },
                log_border: Rgb { r: 147, g: 161, b: 161 },
                widget_bg: Rgb { r: 238, g: 232, b: 213 },
                widget_inactive: Rgb { r: 253, g: 246, b: 227 },
                widget_hovered: Rgb { r: 238, g: 232, b: 213 },
                widget_active: Rgb { r: 147, g: 161, b: 161 },
                monochrome: false,
            },
            ThemePreset::Monokai => ColorTheme {
                bg_dark: Rgb { r: 39, g: 40, b: 34 },
                bg_panel: Rgb { r: 49, g: 50, b: 44 },
                accent: Rgb { r: 102, g: 217, b: 239 },
                accent_stop: Rgb { r: 249, g: 38, b: 114 },
                accent_action: Rgb { r: 166, g: 226, b: 46 },
                highlight: Rgb { r: 253, g: 151, b: 31 },
                text_dim: Rgb { r: 117, g: 113, b: 94 },
                text_bright: Rgb { r: 248, g: 248, b: 242 },
                border: Rgb { r: 69, g: 70, b: 64 },
                log_text: Rgb { r: 248, g: 248, b: 242 },
                log_bg: Rgb { r: 39, g: 40, b: 34 },
                log_border: Rgb { r: 69, g: 70, b: 64 },
                widget_bg: Rgb { r: 59, g: 60, b: 54 },
                widget_inactive: Rgb { r: 44, g: 45, b: 39 },
                widget_hovered: Rgb { r: 69, g: 70, b: 64 },
                widget_active: Rgb { r: 174, g: 129, b: 255 },
                monochrome: false,
            },
            ThemePreset::Catalyst => ColorTheme {
                bg_dark: Rgb { r: 255, g: 255, b: 255 },
                bg_panel: Rgb { r: 242, g: 244, b: 248 },
                accent: Rgb { r: 30, g: 80, b: 140 },
                accent_stop: Rgb { r: 220, g: 30, b: 30 },
                accent_action: Rgb { r: 0, g: 160, b: 220 },
                highlight: Rgb { r: 220, g: 30, b: 30 },
                text_dim: Rgb { r: 150, g: 150, b: 155 },
                text_bright: Rgb { r: 10, g: 10, b: 12 },
                border: Rgb { r: 190, g: 192, b: 200 },
                log_text: Rgb { r: 10, g: 10, b: 12 },
                log_bg: Rgb { r: 252, g: 252, b: 254 },
                log_border: Rgb { r: 215, g: 215, b: 220 },
                widget_bg: Rgb { r: 230, g: 232, b: 238 },
                widget_inactive: Rgb { r: 238, g: 240, b: 244 },
                widget_hovered: Rgb { r: 220, g: 222, b: 230 },
                widget_active: Rgb { r: 220, g: 30, b: 30 },
                monochrome: false,
            },
            ThemePreset::Cyberpunk => ColorTheme {
                bg_dark: Rgb { r: 10, g: 10, b: 18 },
                bg_panel: Rgb { r: 16, g: 16, b: 28 },
                accent: Rgb { r: 0, g: 255, b: 242 },
                accent_stop: Rgb { r: 255, g: 0, b: 230 },
                accent_action: Rgb { r: 180, g: 255, b: 0 },
                highlight: Rgb { r: 255, g: 240, b: 0 },
                text_dim: Rgb { r: 140, g: 160, b: 180 },
                text_bright: Rgb { r: 220, g: 240, b: 255 },
                border: Rgb { r: 0, g: 180, b: 170 },
                log_text: Rgb { r: 0, g: 220, b: 200 },
                log_bg: Rgb { r: 5, g: 5, b: 12 },
                log_border: Rgb { r: 30, g: 60, b: 60 },
                widget_bg: Rgb { r: 50, g: 55, b: 85 },
                widget_inactive: Rgb { r: 20, g: 22, b: 35 },
                widget_hovered: Rgb { r: 30, g: 35, b: 55 },
                widget_active: Rgb { r: 40, g: 20, b: 60 },
                monochrome: false,
            },
            ThemePreset::Pastel => ColorTheme {
                bg_dark: Rgb { r: 235, g: 230, b: 255 },
                bg_panel: Rgb { r: 245, g: 240, b: 255 },
                accent: Rgb { r: 130, g: 70, b: 170 },
                accent_stop: Rgb { r: 240, g: 100, b: 140 },
                accent_action: Rgb { r: 60, g: 200, b: 160 },
                highlight: Rgb { r: 200, g: 120, b: 50 },
                text_dim: Rgb { r: 130, g: 115, b: 150 },
                text_bright: Rgb { r: 40, g: 30, b: 60 },
                border: Rgb { r: 200, g: 185, b: 220 },
                log_text: Rgb { r: 45, g: 35, b: 65 },
                log_bg: Rgb { r: 240, g: 235, b: 255 },
                log_border: Rgb { r: 205, g: 190, b: 225 },
                widget_bg: Rgb { r: 220, g: 210, b: 240 },
                widget_inactive: Rgb { r: 230, g: 225, b: 248 },
                widget_hovered: Rgb { r: 210, g: 200, b: 235 },
                widget_active: Rgb { r: 190, g: 175, b: 220 },
                monochrome: false,
            },
            ThemePreset::Purple => ColorTheme {
                bg_dark: Rgb { r: 12, g: 8, b: 20 },
                bg_panel: Rgb { r: 20, g: 14, b: 35 },
                accent: Rgb { r: 180, g: 130, b: 255 },
                accent_stop: Rgb { r: 245, g: 200, b: 255 },
                accent_action: Rgb { r: 100, g: 60, b: 190 },
                highlight: Rgb { r: 230, g: 200, b: 255 },
                text_dim: Rgb { r: 130, g: 110, b: 160 },
                text_bright: Rgb { r: 220, g: 210, b: 240 },
                border: Rgb { r: 80, g: 50, b: 130 },
                log_text: Rgb { r: 190, g: 170, b: 230 },
                log_bg: Rgb { r: 8, g: 5, b: 15 },
                log_border: Rgb { r: 60, g: 40, b: 100 },
                widget_bg: Rgb { r: 45, g: 30, b: 75 },
                widget_inactive: Rgb { r: 25, g: 18, b: 45 },
                widget_hovered: Rgb { r: 55, g: 38, b: 90 },
                widget_active: Rgb { r: 70, g: 45, b: 110 },
                monochrome: false,
            },
            ThemePreset::HighContrast => ColorTheme {
                bg_dark: Rgb { r: 255, g: 255, b: 255 },
                bg_panel: Rgb { r: 245, g: 245, b: 245 },
                accent: Rgb { r: 0, g: 80, b: 180 },
                accent_stop: Rgb { r: 200, g: 0, b: 0 },
                accent_action: Rgb { r: 0, g: 140, b: 60 },
                highlight: Rgb { r: 0, g: 0, b: 0 },
                text_dim: Rgb { r: 80, g: 80, b: 80 },
                text_bright: Rgb { r: 0, g: 0, b: 0 },
                border: Rgb { r: 0, g: 0, b: 0 },
                log_text: Rgb { r: 0, g: 0, b: 0 },
                log_bg: Rgb { r: 255, g: 255, b: 255 },
                log_border: Rgb { r: 0, g: 0, b: 0 },
                widget_bg: Rgb { r: 230, g: 230, b: 230 },
                widget_inactive: Rgb { r: 240, g: 240, b: 240 },
                widget_hovered: Rgb { r: 210, g: 210, b: 210 },
                widget_active: Rgb { r: 0, g: 80, b: 180 },
                monochrome: false,
            },
            ThemePreset::HighContrastDark => ColorTheme {
                bg_dark: Rgb { r: 0, g: 0, b: 0 },
                bg_panel: Rgb { r: 15, g: 15, b: 15 },
                accent: Rgb { r: 80, g: 180, b: 255 },
                accent_stop: Rgb { r: 255, g: 80, b: 80 },
                accent_action: Rgb { r: 50, g: 220, b: 100 },
                highlight: Rgb { r: 255, g: 220, b: 50 },
                text_dim: Rgb { r: 180, g: 180, b: 180 },
                text_bright: Rgb { r: 255, g: 255, b: 255 },
                border: Rgb { r: 120, g: 120, b: 120 },
                log_text: Rgb { r: 240, g: 240, b: 240 },
                log_bg: Rgb { r: 5, g: 5, b: 5 },
                log_border: Rgb { r: 100, g: 100, b: 100 },
                widget_bg: Rgb { r: 35, g: 35, b: 35 },
                widget_inactive: Rgb { r: 20, g: 20, b: 20 },
                widget_hovered: Rgb { r: 55, g: 55, b: 55 },
                widget_active: Rgb { r: 80, g: 180, b: 255 },
                monochrome: false,
            },
            ThemePreset::Monochrome => ColorTheme {
                bg_dark: Rgb { r: 220, g: 220, b: 220 },
                bg_panel: Rgb { r: 235, g: 235, b: 235 },
                accent: Rgb { r: 60, g: 60, b: 60 },
                accent_stop: Rgb { r: 40, g: 40, b: 40 },
                accent_action: Rgb { r: 160, g: 160, b: 160 },
                highlight: Rgb { r: 0, g: 0, b: 0 },
                text_dim: Rgb { r: 130, g: 130, b: 130 },
                text_bright: Rgb { r: 10, g: 10, b: 10 },
                border: Rgb { r: 180, g: 180, b: 180 },
                log_text: Rgb { r: 20, g: 20, b: 20 },
                log_bg: Rgb { r: 225, g: 225, b: 225 },
                log_border: Rgb { r: 185, g: 185, b: 185 },
                widget_bg: Rgb { r: 200, g: 200, b: 200 },
                widget_inactive: Rgb { r: 215, g: 215, b: 215 },
                widget_hovered: Rgb { r: 190, g: 190, b: 190 },
                widget_active: Rgb { r: 170, g: 170, b: 170 },
                monochrome: true,
            },
            ThemePreset::MonochromeDark => ColorTheme {
                bg_dark: Rgb { r: 18, g: 18, b: 18 },
                bg_panel: Rgb { r: 28, g: 28, b: 28 },
                accent: Rgb { r: 180, g: 180, b: 180 },
                accent_stop: Rgb { r: 220, g: 220, b: 220 },
                accent_action: Rgb { r: 100, g: 100, b: 100 },
                highlight: Rgb { r: 240, g: 240, b: 240 },
                text_dim: Rgb { r: 110, g: 110, b: 110 },
                text_bright: Rgb { r: 230, g: 230, b: 230 },
                border: Rgb { r: 55, g: 55, b: 55 },
                log_text: Rgb { r: 200, g: 200, b: 200 },
                log_bg: Rgb { r: 14, g: 14, b: 14 },
                log_border: Rgb { r: 50, g: 50, b: 50 },
                widget_bg: Rgb { r: 45, g: 45, b: 45 },
                widget_inactive: Rgb { r: 32, g: 32, b: 32 },
                widget_hovered: Rgb { r: 55, g: 55, b: 55 },
                widget_active: Rgb { r: 70, g: 70, b: 70 },
                monochrome: true,
            },
            ThemePreset::Custom => ColorTheme {
                bg_dark: Rgb { r: 198, g: 207, b: 223 },
                bg_panel: Rgb { r: 215, g: 222, b: 234 },
                accent: Rgb { r: 100, g: 149, b: 237 },
                accent_stop: Rgb { r: 187, g: 57, b: 61 },
                accent_action: Rgb { r: 55, g: 170, b: 91 },
                highlight: Rgb { r: 86, g: 117, b: 175 },
                text_dim: Rgb { r: 112, g: 119, b: 132 },
                text_bright: Rgb { r: 22, g: 24, b: 28 },
                border: Rgb { r: 158, g: 169, b: 188 },
                log_text: Rgb { r: 29, g: 32, b: 37 },
                log_bg: Rgb { r: 207, g: 214, b: 227 },
                log_border: Rgb { r: 163, g: 172, b: 188 },
                widget_bg: Rgb { r: 178, g: 188, b: 205 },
                widget_inactive: Rgb { r: 197, g: 205, b: 218 },
                widget_hovered: Rgb { r: 159, g: 172, b: 197 },
                widget_active: Rgb { r: 119, g: 144, b: 190 },
                monochrome: false,
            },
            ThemePreset::CustomDark => ColorTheme {
                bg_dark: Rgb { r: 27, g: 32, b: 40 },
                bg_panel: Rgb { r: 37, g: 43, b: 53 },
                accent: Rgb { r: 100, g: 149, b: 237 },
                accent_stop: Rgb { r: 217, g: 87, b: 91 },
                accent_action: Rgb { r: 65, g: 200, b: 111 },
                highlight: Rgb { r: 154, g: 180, b: 229 },
                text_dim: Rgb { r: 117, g: 124, b: 136 },
                text_bright: Rgb { r: 210, g: 213, b: 219 },
                border: Rgb { r: 61, g: 71, b: 89 },
                log_text: Rgb { r: 187, g: 191, b: 198 },
                log_bg: Rgb { r: 21, g: 25, b: 32 },
                log_border: Rgb { r: 54, g: 62, b: 78 },
                widget_bg: Rgb { r: 55, g: 65, b: 82 },
                widget_inactive: Rgb { r: 40, g: 46, b: 56 },
                widget_hovered: Rgb { r: 66, g: 80, b: 105 },
                widget_active: Rgb { r: 73, g: 100, b: 149 },
                monochrome: false,
            },
        }
    }
}

/// Switching mode twice gives the preset back.
pub proof fn lemma_toggle_involution(p: ThemePreset)
    ensures
        preset_toggle(preset_toggle(p)) == p,
{
}

/// Switching mode turns a light preset dark and a dark one light.
pub proof fn lemma_toggle_flips_light(p: ThemePreset)
    ensures
        preset_is_light(preset_toggle(p)) == !preset_is_light(p),
{
}

/// Switching mode keeps a custom preset custom, and a built-in one built in.
pub proof fn lemma_toggle_keeps_custom(p: ThemePreset)
    ensures
        preset_is_custom(preset_toggle(p)) == preset_is_custom(p),
{
}

/// The theme list holds every preset exactly once.
pub proof fn lemma_all_presets_complete(p: ThemePreset)
    ensures
        all_presets().contains(p),
        all_presets().no_duplicates(),
{
    let s = all_presets();
    assert(s.no_duplicates());
    let i: int = match p {
        ThemePreset::Light => 0,
        ThemePreset::Dark => 1,
        ThemePreset::Solarized => 2,
        ThemePreset::Monokai => 3,
        ThemePreset::Catalyst => 4,
        ThemePreset::Cyberpunk => 5,
        ThemePreset::Pastel => 6,
        ThemePreset::Purple => 7,
        ThemePreset::HighContrast => 8,
        ThemePreset::HighContrastDark => 9,
        ThemePreset::Monochrome => 10,
        ThemePreset::MonochromeDark => 11,
        ThemePreset::Custom => 12,
        ThemePreset::CustomDark => 13,
    };
    assert(s[i] == p);
}

} // verus!
