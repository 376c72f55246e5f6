use vstd::prelude::*;
use crate::color::{Color, rgba};

verus! {

/// Theme color set.
#[derive(Debug, Clone, Copy, PartialEq, Eq, Structural)]
pub struct Theme {
    pub background: Color,
    pub primary: Color,
    pub surface: Color,
    pub surface_hover: Color,
    pub surface_active: Color,
    pub text: Color,
    pub border: Color,
}

/// Extended theme color tokens: the theme's colors and whether it is dark.
#[derive(Debug, Clone, Copy, PartialEq, Eq, Structural)]
pub struct ThemeColorTokens {
    pub background: Color,
    pub primary: Color,
    pub surface: Color,
    pub surface_hover: Color,
    pub surface_active: Color,
    pub text: Color,
    pub border: Color,
    pub dark: bool,
}

/// The tokens that carry `theme`'s colors and the given darkness flag.
pub open spec fn tokens_of(theme: Theme, dark: bool) -> ThemeColorTokens {
    ThemeColorTokens {
        background: theme.background,
        primary: theme.primary,
        surface: theme.surface,
        surface_hover: theme.surface_hover,
        surface_active: theme.surface_active,
        text: theme.text,
        border: theme.border,
        dark,
    }
}

/// The light palette: background (0.95, 0.95, 0.97), primary (0.20, 0.50, 0.90),
/// surface white, hover 0.90 grey, active 0.80 grey, black text, 0.80 grey border;
/// every alpha 1.0.
pub open spec fn light_palette() -> Theme {
    Theme {
        background: rgba(0x3F73_3333, 0x3F73_3333, 0x3F78_51EC, 0x3F80_0000),
        primary: rgba(0x3E4C_CCCD, 0x3F00_0000, 0x3F66_6666, 0x3F80_0000),
        surface: rgba(0x3F80_0000, 0x3F80_0000, 0x3F80_0000, 0x3F80_0000),
        surface_hover: rgba(0x3F66_6666, 0x3F66_6666, 0x3F66_6666, 0x3F80_0000),
        surface_active: rgba(0x3F4C_CCCD, 0x3F4C_CCCD, 0x3F4C_CCCD, 0x3F80_0000),
        text: rgba(0x0000_0000, 0x0000_0000, 0x0000_0000, 0x3F80_0000),
        border: rgba(0x3F4C_CCCD, 0x3F4C_CCCD, 0x3F4C_CCCD, 0x3F80_0000),
    }
}

/// The dark palette: background (0.10, 0.10, 0.12), primary (0.30, 0.60, 1.00),
/// surface (0.15, 0.15, 0.18), hover (0.25, 0.25, 0.28), active (0.35, 0.35, 0.38),
/// white text, 0.30 grey border; every alpha 1.0.
pub open spec fn dark_palette() -> Theme {
    Theme {
        background: rgba(0x3DCC_CCCD, 0x3DCC_CCCD, 0x3DF5_C28F, 0x3F80_0000),
        primary: rgba(0x3E99_999A, 0x3F19_999A, 0x3F80_0000, 0x3F80_0000),
        surface: rgba(0x3E19_999A, 0x3E19_999A, 0x3E38_51EC, 0x3F80_0000),
        surface_hover: rgba(0x3E80_0000, 0x3E80_0000, 0x3E8F_5C29, 0x3F80_0000),
        surface_active: rgba(0x3EB3_3333, 0x3EB3_3333, 0x3EC2_8F5C, 0x3F80_0000),
        text: rgba(0x3F80_0000, 0x3F80_0000, 0x3F80_0000, 0x3F80_0000),
        border: rgba(0x3E99_999A, 0x3E99_999A, 0x3E99_999A, 0x3F80_0000),
    }
}

/// The built-in light theme.
pub fn light_theme() -> (t: Theme)
    ensures
        t == light_palette(),
{
    Theme {
        background: Color::new(0x3F73_3333, 0x3F73_3333, 0x3F78_51EC, 0x3F80_0000),
        primary: Color::new(0x3E4C_CCCD, 0x3F00_0000, 0x3F66_6666, 0x3F80_0000),
        surface: Color::new(0x3F80_0000, 0x3F80_0000, 0x3F80_0000, 0x3F80_0000),
        surface_hover: Color::new(0x3F66_6666, 0x3F66_6666, 0x3F66_6666, 0x3F80_0000),
        surface_active: Color::new(0x3F4C_CCCD, 0x3F4C_CCCD, 0x3F4C_CCCD, 0x3F80_0000),
        text: Color::new(0x0000_0000, 0x0000_0000, 0x0000_0000, 0x3F80_0000),
        border: Color::new(0x3F4C_CCCD, 0x3F4C_CCCD, 0x3F4C_CCCD, 0x3F80_0000),
    }
}

/// The built-in dark theme.
pub fn dark_theme() -> (t: Theme)
    ensures
        t == dark_palette(),
{
    Theme {
        background: Color::new(0x3DCC_CCCD, 0x3DCC_CCCD, 0x3DF5_C28F, 0x3F80_0000),
        primary: Color::new(0x3E99_999A, 0x3F19_999A, 0x3F80_0000, 0x3F80_0000),
        surface: Color::new(0x3E19_999A, 0x3E19_999A, 0x3E38_51EC, 0x3F80_0000),
        surface_hover: Color::new(0x3E80_0000, 0x3E80_0000, 0x3E8F_5C29, 0x3F80_0000),
        surface_active: Color::new(0x3EB3_3333, 0x3EB3_3333, 0x3EC2_8F5C, 0x3F80_0000),
        text: Color::new(0x3F80_0000, 0x3F80_0000, 0x3F80_0000, 0x3F80_0000),
        border: Color::new(0x3E99_999A, 0x3E99_999A, 0x3E99_999A, 0x3F80_0000),
    }
}

/// The color tokens of `theme`, marked dark or light by `is_dark`.
pub fn current_theme_colors(theme: &Theme, is_dark: bool) -> (t: ThemeColorTokens)
    ensures
        t == tokens_of(*theme, is_dark),
{
    ThemeColorTokens {
        background: theme.background,
        primary: theme.primary,
        surface: theme.surface,
        surface_hover: theme.surface_hover,
        surface_active: theme.surface_active,
        text: theme.text,
        border: theme.border,
        dark: is_dark,
    }
}

} // verus!
