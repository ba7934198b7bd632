//! The Material 3 theme: colours, type scale, shapes and elevation.

use vstd::prelude::*;
use crate::text::owned;

verus! {

/// A Material 3 colour scheme; each colour is a CSS colour.
#[derive(Clone, Debug, PartialEq)]
pub struct ColorScheme {
    pub primary: String,
    pub on_primary: String,
    pub primary_container: String,
    pub on_primary_container: String,
    pub secondary: String,
    pub on_secondary: String,
    pub secondary_container: String,
    pub on_secondary_container: String,
    pub tertiary: String,
    pub on_tertiary: String,
    pub tertiary_container: String,
    pub on_tertiary_container: String,
    pub error: String,
    pub on_error: String,
    pub error_container: String,
    pub on_error_container: String,
    pub background: String,
    pub on_background: String,
    pub surface: String,
    pub on_surface: String,
    pub surface_variant: String,
    pub on_surface_variant: String,
    pub outline: String,
    pub outline_variant: String,
    pub shadow: String,
    pub scrim: String,
    pub inverse_surface: String,
    pub inverse_on_surface: String,
    pub inverse_primary: String,
}

/// The colours of the Catppuccin Mocha scheme (dark).
pub open spec fn is_catppuccin_mocha(c: ColorScheme) -> bool {
    &&& c.primary@ == "#cba6f7"@
    &&& c.on_primary@ == "#11111b"@
    &&& c.primary_container@ == "#56526e"@
    &&& c.on_primary_container@ == "#e6e0f9"@
    &&& c.secondary@ == "#f2cdcd"@
    &&& c.on_secondary@ == "#11111b"@
    &&& c.secondary_container@ == "#56526e"@
    &&& c.on_secondary_container@ == "#ffe4e1"@
    &&& c.tertiary@ == "#eba0ac"@
    &&& c.on_tertiary@ == "#11111b"@
    &&& c.tertiary_container@ == "#6e5058"@
    &&& c.on_tertiary_container@ == "#ffd9dc"@
    &&& c.error@ == "#f38ba8"@
    &&& c.on_error@ == "#11111b"@
    &&& c.error_container@ == "#6e5058"@
    &&& c.on_error_container@ == "#ffd9dc"@
    &&& c.background@ == "#1e1e2e"@
    &&& c.on_background@ == "#cdd6f4"@
    &&& c.surface@ == "#1e1e2e"@
    &&& c.on_surface@ == "#cdd6f4"@
    &&& c.surface_variant@ == "#313244"@
    &&& c.on_surface_variant@ == "#a6adc8"@
    &&& c.outline@ == "#6c7086"@
    &&& c.outline_variant@ == "#45475a"@
    &&& c.shadow@ == "#000000"@
    &&& c.scrim@ == "#000000"@
    &&& c.inverse_surface@ == "#e6e0f9"@
    &&& c.inverse_on_surface@ == "#31303d"@
    &&& c.inverse_primary@ == "#6750a4"@
}

/// The colours of the Catppuccin Latte scheme (light).
pub open spec fn is_catppuccin_latte(c: ColorScheme) -> bool {
    &&& c.primary@ == "#8839ef"@
    &&& c.on_primary@ == "#ffffff"@
    &&& c.primary_container@ == "#eaddff"@
    &&& c.on_primary_container@ == "#21005d"@
    &&& c.secondary@ == "#625b71"@
    &&& c.on_secondary@ == "#ffffff"@
    &&& c.secondary_container@ == "#e8def8"@
    &&& c.on_secondary_container@ == "#1d192b"@
    &&& c.tertiary@ == "#7d5260"@
    &&& c.on_tertiary@ == "#ffffff"@
    &&& c.tertiary_container@ == "#ffd8e4"@
    &&& c.on_tertiary_container@ == "#31111d"@
    &&& c.error@ == "#ba1a1a"@
    &&& c.on_error@ == "#ffffff"@
    &&& c.error_container@ == "#ffdad6"@
    &&& c.on_error_container@ == "#410002"@
    &&& c.background@ == "#fffbfe"@
    &&& c.on_background@ == "#1c1b1f"@
    &&& c.surface@ == "#fffbfe"@
    &&& c.on_surface@ == "#1c1b1f"@
    &&& c.surface_variant@ == "#e7e0ec"@
    &&& c.on_surface_variant@ == "#49454f"@
    &&& c.outline@ == "#79747e"@
    &&& c.outline_variant@ == "#cab6d0"@
    &&& c.shadow@ == "#000000"@
    &&& c.scrim@ == "#000000"@
    &&& c.inverse_surface@ == "#313033"@
    &&& c.inverse_on_surface@ == "#f4eff4"@
    &&& c.inverse_primary@ == "#d0bcff"@
}

impl ColorScheme {
    /// Catppuccin Mocha (dark).
    pub fn catppuccin_mocha() -> (r: Self)
        ensures
            is_catppuccin_mocha(r),
    {
        let r = ColorScheme {
            primary: owned("#cba6f7"),
            on_primary: owned("#11111b"),
            primary_container: owned("#56526e"),
            on_primary_container: owned("#e6e0f9"),
            secondary: owned("#f2cdcd"),
            on_secondary: owned("#11111b"),
            secondary_container: owned("#56526e"),
            on_secondary_container: owned("#ffe4e1"),
            tertiary: owned("#eba0ac"),
            on_tertiary: owned("#11111b"),
            tertiary_container: owned("#6e5058"),
            on_tertiary_container: owned("#ffd9dc"),
            error: owned("#f38ba8"),
            on_error: owned("#11111b"),
            error_container: owned("#6e5058"),
            on_error_container: owned("#ffd9dc"),
            background: owned("#1e1e2e"),
            on_background: owned("#cdd6f4"),
            surface: owned("#1e1e2e"),
            on_surface: owned("#cdd6f4"),
            surface_variant: owned("#313244"),
            on_surface_variant: owned("#a6adc8"),
            outline: owned("#6c7086"),
            outline_variant: owned("#45475a"),
            shadow: owned("#000000"),
            scrim: owned("#000000"),
            inverse_surface: owned("#e6e0f9"),
            inverse_on_surface: owned("#31303d"),
            inverse_primary: owned("#6750a4"),
        };
        r
    }

    /// Catppuccin Latte (light).
    pub fn catppuccin_latte() -> (r: Self)
        ensures
            is_catppuccin_latte(r),
    {
        let r = ColorScheme {
            primary: owned("#8839ef"),
            on_primary: owned("#ffffff"),
            primary_container: owned("#eaddff"),
            on_primary_container: owned("#21005d"),
            secondary: owned("#625b71"),
            on_secondary: owned("#ffffff"),
            secondary_container: owned("#e8def8"),
            on_secondary_container: owned("#1d192b"),
            tertiary: owned("#7d5260"),
            on_tertiary: owned("#ffffff"),
            tertiary_container: owned("#ffd8e4"),
            on_tertiary_container: owned("#31111d"),
            error: owned("#ba1a1a"),
            on_error: owned("#ffffff"),
            error_container: owned("#ffdad6"),
            on_error_container: owned("#410002"),
            background: owned("#fffbfe"),
            on_background: owned("#1c1b1f"),
            surface: owned("#fffbfe"),
            on_surface: owned("#1c1b1f"),
            surface_variant: owned("#e7e0ec"),
            on_surface_variant: owned("#49454f"),
            outline: owned("#79747e"),
            outline_variant: owned("#cab6d0"),
            shadow: owned("#000000"),
            scrim: owned("#000000"),
            inverse_surface: owned("#313033"),
            inverse_on_surface: owned("#f4eff4"),
            inverse_primary: owned("#d0bcff"),
        };
        r
    }
}

impl Default for ColorScheme {
    /// The default scheme is Catppuccin Mocha.
    fn default() -> (r: Self)
        ensures
            is_catppuccin_mocha(r),
    {
        Self::catppuccin_mocha()
    }
}

/// The Material 3 type scale.
#[derive(Clone, Debug, PartialEq)]
pub struct Typography {
    pub display_large: TextStyle,
    pub display_medium: TextStyle,
    pub display_small: TextStyle,
    pub headline_large: TextStyle,
    pub headline_medium: TextStyle,
    pub headline_small: TextStyle,
    pub title_large: TextStyle,
    pub title_medium: TextStyle,
    pub title_small: TextStyle,
    pub body_large: TextStyle,
    pub body_medium: TextStyle,
    pub body_small: TextStyle,
    pub label_large: TextStyle,
    pub label_medium: TextStyle,
    pub label_small: TextStyle,
}

/// One style of text; each measure is a CSS value.
#[derive(Clone, Debug, PartialEq)]
pub struct TextStyle {
    pub font_size: String,
    pub font_weight: String,
    pub line_height: String,
    pub letter_spacing: String,
}

/// A text style with the given measures.
pub open spec fn text_style_is(t: TextStyle, size: Seq<char>, weight: Seq<char>, line: Seq<char>, spacing: Seq<char>) -> bool {
    &&& t.font_size@ == size
    &&& t.font_weight@ == weight
    &&& t.line_height@ == line
    &&& t.letter_spacing@ == spacing
}

fn text_style(size: &str, weight: &str, line: &str, spacing: &str) -> (t: TextStyle)
    ensures
        text_style_is(t, size@, weight@, line@, spacing@),
{
    TextStyle {
        font_size: owned(size),
        font_weight: owned(weight),
        line_height: owned(line),
        letter_spacing: owned(spacing),
    }
}

/// The Material 3 type scale, style by style.
pub open spec fn is_default_typography(t: Typography) -> bool {
    &&& text_style_is(t.display_large, "57px"@, "400"@, "64px"@, "-0.25px"@)
    &&& text_style_is(t.display_medium, "45px"@, "400"@, "52px"@, "0px"@)
    &&& text_style_is(t.display_small, "36px"@, "400"@, "44px"@, "0px"@)
    &&& text_style_is(t.headline_large, "32px"@, "400"@, "40px"@, "0px"@)
    &&& text_style_is(t.headline_medium, "28px"@, "400"@, "36px"@, "0px"@)
    &&& text_style_is(t.headline_small, "24px"@, "400"@, "32px"@, "0px"@)
    &&& text_style_is(t.title_large, "22px"@, "500"@, "28px"@, "0px"@)
    &&& text_style_is(t.title_medium, "16px"@, "500"@, "24px"@, "0.15px"@)
    &&& text_style_is(t.title_small, "14px"@, "500"@, "20px"@, "0.1px"@)
    &&& text_style_is(t.body_large, "16px"@, "400"@, "24px"@, "0.5px"@)
    &&& text_style_is(t.body_medium, "14px"@, "400"@, "20px"@, "0.25px"@)
    &&& text_style_is(t.body_small, "12px"@, "400"@, "16px"@, "0.4px"@)
    &&& text_style_is(t.label_large, "14px"@, "500"@, "20px"@, "0.1px"@)
    &&& text_style_is(t.label_medium, "12px"@, "500"@, "16px"@, "0.5px"@)
    &&& text_style_is(t.label_small, "11px"@, "500"@, "16px"@, "0.5px"@)
}

impl Default for Typography {
    fn default() -> (r: Self)
        ensures
            is_default_typography(r),
    {
        Typography {
            display_large: text_style("57px", "400", "64px", "-0.25px"),
            display_medium: text_style("45px", "400", "52px", "0px"),
            display_small: text_style("36px", "400", "44px", "0px"),
            headline_large: text_style("32px", "400", "40px", "0px"),
            headline_medium: text_style("28px", "400", "36px", "0px"),
            headline_small: text_style("24px", "400", "32px", "0px"),
            title_large: text_style("22px", "500", "28px", "0px"),
            title_medium: text_style("16px", "500", "24px", "0.15px"),
            title_small: text_style("14px", "500", "20px", "0.1px"),
            body_large: text_style("16px", "400", "24px", "0.5px"),
            body_medium: text_style("14px", "400", "20px", "0.25px"),
            body_small: text_style("12px", "400", "16px", "0.4px"),
            label_large: text_style("14px", "500", "20px", "0.1px"),
            label_medium: text_style("12px", "500", "16px", "0.5px"),
            label_small: text_style("11px", "500", "16px", "0.5px"),
        }
    }
}

/// A Material 3 shape: the radius of its corners, as a CSS length.
#[derive(Clone, Debug, PartialEq)]
pub struct Shape {
    pub corner_radius: String,
}

impl Shape {
    pub fn none() -> (r: Self)
        ensures
            r.corner_radius@ == "0px"@,
    {
        Shape { corner_radius: owned("0px") }
    }

    pub fn extra_small() -> (r: Self)
        ensures
            r.corner_radius@ == "4px"@,
    {
        Shape { corner_radius: owned("4px") }
    }

    pub fn small() -> (r: Self)
        ensures
            r.corner_radius@ == "8px"@,
    {
        Shape { corner_radius: owned("8px") }
    }

    pub fn medium() -> (r: Self)
        ensures
            r.corner_radius@ == "12px"@,
    {
        Shape { corner_radius: owned("12px") }
    }

    pub fn large() -> (r: Self)
        ensures
            r.corner_radius@ == "16px"@,
    {
        Shape { corner_radius: owned("16px") }
    }

    pub fn extra_large() -> (r: Self)
        ensures
            r.corner_radius@ == "28px"@,
    {
        Shape { corner_radius: owned("28px") }
    }
}

/// A Material 3 elevation level; levels 0 to 5 have shadows.
#[derive(Clone, Debug, PartialEq, Eq, Structural)]
pub struct Elevation {
    pub level: u8,
}

/// The CSS shadow of an elevation level; a level above 5 has none.
pub open spec fn shadow_of(level: u8) -> Seq<char> {
    if level == 1 {
        "0px 1px 2px 0px rgba(0, 0, 0, 0.3), 0px 1px 3px 1px rgba(0, 0, 0, 0.15)"@
    } else if level == 2 {
        "0px 1px 2px 0px rgba(0, 0, 0, 0.3), 0px 2px 6px 2px rgba(0, 0, 0, 0.15)"@
    } else if level == 3 {
        "0px 1px 3px 0px rgba(0, 0, 0, 0.3), 0px 4px 8px 3px rgba(0, 0, 0, 0.15)"@
    } else if level == 4 {
        "0px 2px 3px 0px rgba(0, 0, 0, 0.3), 0px 6px 10px 4px rgba(0, 0, 0, 0.15)"@
    } else if level == 5 {
        "0px 4px 4px 0px rgba(0, 0, 0, 0.3), 0px 8px 12px 6px rgba(0, 0, 0, 0.15)"@
    } else {
        "none"@
    }
}

impl Elevation {
    pub fn level0() -> (r: Self)
        ensures
            r.level == 0,
    {
        Elevation { level: 0 }
    }

    pub fn level1() -> (r: Self)
        ensures
            r.level == 1,
    {
        Elevation { level: 1 }
    }

    pub fn level2() -> (r: Self)
        ensures
            r.level == 2,
    {
        Elevation { level: 2 }
    }

    pub fn level3() -> (r: Self)
        ensures
            r.level == 3,
    {
        Elevation { level: 3 }
    }

    pub fn level4() -> (r: Self)
        ensures
            r.level == 4,
    {
        Elevation { level: 4 }
    }

    pub fn level5() -> (r: Self)
        ensures
            r.level == 5,
    {
        Elevation { level: 5 }
    }

    /// The CSS box shadow of this level.
    pub fn box_shadow(&self) -> (r: String)
        ensures
            r@ == shadow_of(self.level),
    {
        match self.level {
            1 => owned("0px 1px 2px 0px rgba(0, 0, 0, 0.3), 0px 1px 3px 1px rgba(0, 0, 0, 0.15)"),
            2 => owned("0px 1px 2px 0px rgba(0, 0, 0, 0.3), 0px 2px 6px 2px rgba(0, 0, 0, 0.15)"),
            3 => owned("0px 1px 3px 0px rgba(0, 0, 0, 0.3), 0px 4px 8px 3px rgba(0, 0, 0, 0.15)"),
            4 => owned("0px 2px 3px 0px rgba(0, 0, 0, 0.3), 0px 6px 10px 4px rgba(0, 0, 0, 0.15)"),
            5 => owned("0px 4px 4px 0px rgba(0, 0, 0, 0.3), 0px 8px 12px 6px rgba(0, 0, 0, 0.15)"),
            _ => owned("none"),
        }
    }
}

/// A complete Material 3 theme.
#[derive(Clone, Debug, PartialEq)]
pub struct Theme {
    pub colors: ColorScheme,
    pub typography: Typography,
    pub shape: Shape,
    pub elevation: Elevation,
}

/// The parts of a theme other than its colours, as a new theme has them.
pub open spec fn has_default_parts(t: Theme) -> bool {
    &&& is_default_typography(t.typography)
    &&& t.shape.corner_radius@ == "12px"@
    &&& t.elevation.level == 0
}

impl Theme {
    /// The default theme over the colours of the system, which the caller detects.
    pub fn new(system_colors: ColorScheme) -> (r: Self)
        ensures
            r.colors == system_colors,
            has_default_parts(r),
    {
        Theme {
            colors: system_colors,
            typography: Typography::default(),
            shape: Shape::medium(),
            elevation: Elevation::level0(),
        }
    }

    /// The theme with its colours replaced.
    pub fn with_colors(self, colors: ColorScheme) -> (r: Self)
        ensures
            r.colors == colors,
            r.typography == self.typography,
            r.shape == self.shape,
            r.elevation == self.elevation,
    {
        let mut t = self;
        t.colors = colors;
        t
    }

    /// The theme with its shape replaced.
    pub fn with_shape(self, shape: Shape) -> (r: Self)
        ensures
            r.shape == shape,
            r.colors == self.colors,
            r.typography == self.typography,
            r.elevation == self.elevation,
    {
        let mut t = self;
        t.shape = shape;
        t
    }

    /// The Catppuccin Mocha theme (dark).
    pub fn catppuccin_mocha() -> (r: Self)
        ensures
            is_catppuccin_mocha(r.colors),
            has_default_parts(r),
    {
        Theme {
            colors: ColorScheme::catppuccin_mocha(),
            typography: Typography::default(),
            shape: Shape::medium(),
            elevation: Elevation::level0(),
        }
    }

    /// The Catppuccin Latte theme (light).
    pub fn catppuccin_latte() -> (r: Self)
        ensures
            is_catppuccin_latte(r.colors),
            has_default_parts(r),
    {
        Theme {
            colors: ColorScheme::catppuccin_latte(),
            typography: Typography::default(),
            shape: Shape::medium(),
            elevation: Elevation::level0(),
        }
    }
}

} // verus!
