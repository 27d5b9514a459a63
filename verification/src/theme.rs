//! The editor's colour palette and corner radii, and the colour choices that
//! widgets, tiles, output lines and viewport nodes make from it.
//!
//! Colours are stored unmultiplied, as the components passed to
//! `Color32::from_rgb` / `Color32::from_rgba_unmultiplied` when painting.
use vstd::prelude::*;
use crate::StatusTone;

verus! {

/// An unmultiplied 8-bit RGBA colour.
#[derive(Debug, Clone, Copy, PartialEq, Eq, Structural)]
pub struct Rgba {
    pub r: u8,
    pub g: u8,
    pub b: u8,
    pub a: u8,
}

pub open spec fn rgb(r: u8, g: u8, b: u8) -> Rgba {
    Rgba { r, g, b, a: 255 }
}

pub open spec fn rgba(r: u8, g: u8, b: u8, a: u8) -> Rgba {
    Rgba { r, g, b, a }
}

/// An opaque colour.
pub fn opaque(r: u8, g: u8, b: u8) -> (c: Rgba)
    ensures
        c == rgb(r, g, b),
{
    Rgba { r, g, b, a: 255 }
}

/// The named colours of the editor theme.
#[derive(Debug, Clone, Copy, PartialEq, Eq, Structural)]
pub struct EditorColors {
    pub app_bg: Rgba,
    pub panel_bg: Rgba,
    pub panel_bg_alt: Rgba,
    pub panel_header_bg: Rgba,
    pub viewport_bg: Rgba,
    pub viewport_overlay: Rgba,
    pub control_bg: Rgba,
    pub control_hover: Rgba,
    pub control_active: Rgba,
    pub border: Rgba,
    pub border_strong: Rgba,
    pub text: Rgba,
    pub text_secondary: Rgba,
    pub text_muted: Rgba,
    pub accent: Rgba,
    pub accent_soft: Rgba,
    pub success: Rgba,
    pub warning: Rgba,
    pub error: Rgba,
    pub error_bg: Rgba,
    pub grid_minor: Rgba,
    pub grid_major: Rgba,
    pub axis_x: Rgba,
    pub axis_y: Rgba,
    pub camera: Rgba,
}

/// Corner radii of the editor theme, in points.
#[derive(Debug, Clone, Copy, PartialEq, Eq, Structural)]
pub struct EditorRadius {
    pub xs: u8,
    pub sm: u8,
    pub md: u8,
}

/// The editor palette.
pub open spec fn palette() -> EditorColors {
    EditorColors {
        app_bg: rgb(12, 16, 19),
        panel_bg: rgb(22, 28, 32),
        panel_bg_alt: rgb(27, 34, 39),
        panel_header_bg: rgb(31, 39, 45),
        viewport_bg: rgb(15, 19, 22),
        viewport_overlay: rgba(18, 24, 28, 226),
        control_bg: rgb(33, 42, 48),
        control_hover: rgb(43, 55, 62),
        control_active: rgb(26, 82, 86),
        border: rgb(52, 66, 74),
        border_strong: rgb(75, 94, 104),
        text: rgb(230, 237, 240),
        text_secondary: rgb(176, 190, 196),
        text_muted: rgb(119, 137, 145),
        accent: rgb(42, 206, 199),
        accent_soft: rgb(95, 231, 224),
        success: rgb(116, 211, 133),
        warning: rgb(231, 178, 87),
        error: rgb(245, 112, 112),
        error_bg: rgb(78, 42, 46),
        grid_minor: rgba(91, 115, 122, 42),
        grid_major: rgba(105, 163, 166, 78),
        axis_x: rgba(238, 101, 101, 120),
        axis_y: rgba(105, 211, 125, 120),
        camera: rgb(135, 157, 255),
    }
}

/// The colours of the editor theme.
pub fn theme_colors() -> (c: EditorColors)
    ensures
        c == palette(),
{
    EditorColors {
        app_bg: opaque(12, 16, 19),
        panel_bg: opaque(22, 28, 32),
        panel_bg_alt: opaque(27, 34, 39),
        panel_header_bg: opaque(31, 39, 45),
        viewport_bg: opaque(15, 19, 22),
        viewport_overlay: Rgba { r: 18, g: 24, b: 28, a: 226 },
        control_bg: opaque(33, 42, 48),
        control_hover: opaque(43, 55, 62),
        control_active: opaque(26, 82, 86),
        border: opaque(52, 66, 74),
        border_strong: opaque(75, 94, 104),
        text: opaque(230, 237, 240),
        text_secondary: opaque(176, 190, 196),
        text_muted: opaque(119, 137, 145),
        accent: opaque(42, 206, 199),
        accent_soft: opaque(95, 231, 224),
        success: opaque(116, 211, 133),
        warning: opaque(231, 178, 87),
        error: opaque(245, 112, 112),
        error_bg: opaque(78, 42, 46),
        grid_minor: Rgba { r: 91, g: 115, b: 122, a: 42 },
        grid_major: Rgba { r: 105, g: 163, b: 166, a: 78 },
        axis_x: Rgba { r: 238, g: 101, b: 101, a: 120 },
        axis_y: Rgba { r: 105, g: 211, b: 125, a: 120 },
        camera: opaque(135, 157, 255),
    }
}

/// The corner radii of the editor theme.
pub fn theme_radius() -> (r: EditorRadius)
    ensures
        r == (EditorRadius { xs: 3, sm: 5, md: 7 }),
{
    EditorRadius { xs: 3, sm: 5, md: 7 }
}

/// The palette colour of a tile index; the palette repeats every 8 tiles.
pub open spec fn tile_palette(tile_index: u32) -> Rgba {
    let k = tile_index % 8;
    if k == 0 {
        rgb(82, 148, 74)
    } else if k == 1 {
        rgb(116, 174, 79)
    } else if k == 2 {
        rgb(169, 142, 88)
    } else if k == 3 {
        rgb(91, 105, 86)
    } else if k == 4 {
        rgb(57, 119, 169)
    } else if k == 5 {
        rgb(142, 97, 174)
    } else if k == 6 {
        rgb(201, 126, 62)
    } else {
        rgb(169, 194, 204)
    }
}

/// The tile palette repeats every eight tile indices.
pub proof fn law_tile_palette_repeats_every_eight(tile_index: u32)
    requires
        tile_index as int + 8 <= u32::MAX,
    ensures
        tile_palette((tile_index + 8) as u32) == tile_palette(tile_index),
{
    assert(((tile_index + 8) as u32) % 8 == tile_index % 8);
}

/// The colour that paints a tile when no tileset image is shown.
pub fn tile_color(tile_index: u32) -> (c: Rgba)
    ensures
        c == tile_palette(tile_index),
{
    let k = tile_index % 8;
    if k == 0 {
        opaque(82, 148, 74)
    } else if k == 1 {
        opaque(116, 174, 79)
    } else if k == 2 {
        opaque(169, 142, 88)
    } else if k == 3 {
        opaque(91, 105, 86)
    } else if k == 4 {
        opaque(57, 119, 169)
    } else if k == 5 {
        opaque(142, 97, 174)
    } else if k == 6 {
        opaque(201, 126, 62)
    } else {
        opaque(169, 194, 204)
    }
}

/// The colour the runtime paints a tile with when its tileset is missing:
/// the same palette as the editor.
pub fn fallback_tile_color(tile_index: u32) -> (c: Rgba)
    ensures
        c == tile_palette(tile_index),
{
    tile_color(tile_index)
}

/// The palette colour that stands for a tone.
pub open spec fn tone_palette(colors: EditorColors, tone: StatusTone) -> Rgba {
    match tone {
        StatusTone::Info => colors.accent,
        StatusTone::Success => colors.success,
        StatusTone::Warning => colors.warning,
        StatusTone::Error => colors.error,
    }
}

/// The colour of a tone in the given palette.
pub fn tone_color(colors: &EditorColors, tone: StatusTone) -> (c: Rgba)
    ensures
        c == tone_palette(*colors, tone),
{
    match tone {
        StatusTone::Info => colors.accent,
        StatusTone::Success => colors.success,
        StatusTone::Warning => colors.warning,
        StatusTone::Error => colors.error,
    }
}

/// `color` with its alpha replaced.
pub fn tint(color: Rgba, alpha: u8) -> (c: Rgba)
    ensures
        c == (Rgba { a: alpha, ..color }),
{
    Rgba { r: color.r, g: color.g, b: color.b, a: alpha }
}

/// Fill and stroke of a toolbar button.
pub fn toolbar_button_colors(active: bool) -> (c: (Rgba, Rgba))
    ensures
        c == (if active {
            (palette().control_active, palette().accent)
        } else {
            (palette().control_bg, palette().border)
        }),
{
    let colors = theme_colors();
    if active {
        (colors.control_active, colors.accent)
    } else {
        (colors.control_bg, colors.border)
    }
}

/// Fill and stroke of a segment button.
pub fn segment_button_colors(selected: bool) -> (c: (Rgba, Rgba))
    ensures
        c == (if selected {
            (palette().control_active, palette().accent)
        } else {
            (palette().panel_bg_alt, palette().border)
        }),
{
    let colors = theme_colors();
    if selected {
        (colors.control_active, colors.accent)
    } else {
        (colors.panel_bg_alt, colors.border)
    }
}

/// Fill, stroke and text colour of a chip.
pub fn chip_colors(tone: StatusTone) -> (c: (Rgba, Rgba, Rgba))
    ensures
        c == ({
            let t = tone_palette(palette(), tone);
            (Rgba { a: 32, ..t }, Rgba { a: 150, ..t }, t)
        }),
{
    let colors = theme_colors();
    let color = tone_color(&colors, tone);
    (tint(color, 32), tint(color, 150), color)
}

/// Fill and stroke of a status badge.
pub fn status_badge_colors(tone: StatusTone) -> (c: (Rgba, Rgba))
    ensures
        c == ({
            let t = tone_palette(palette(), tone);
            (Rgba { a: 24, ..t }, Rgba { a: 140, ..t })
        }),
{
    let colors = theme_colors();
    let color = tone_color(&colors, tone);
    (tint(color, 24), tint(color, 140))
}

} // verus!
