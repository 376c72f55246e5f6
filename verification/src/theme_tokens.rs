use vstd::prelude::*;
use crate::color::Color;
use crate::theme::{Theme, ThemeColorTokens, tokens_of, light_palette, dark_palette};

verus! {

/// The theme that carries the colors of `tokens` (the darkness flag is dropped).
pub open spec fn theme_of(tokens: ThemeColorTokens) -> Theme {
    Theme {
        background: tokens.background,
        primary: tokens.primary,
        surface: tokens.surface,
        surface_hover: tokens.surface_hover,
        surface_active: tokens.surface_active,
        text: tokens.text,
        border: tokens.border,
    }
}

/// The light palette's tokens, not dark.
pub fn light_theme_colors() -> (t: ThemeColorTokens)
    ensures
        t == tokens_of(light_palette(), false),
{
    ThemeColorTokens {
        background: Color::new(0x3F73_3333, 0x3F73_3333, 0x3F78_51EC, 0x3F80_0000),
        primary: Color::new(0x3E4C_CCCD, 0x3F00_0000, 0x3F66_6666, 0x3F80_0000),
        surface: Color::new(0x3F80_0000, 0x3F80_0000, 0x3F80_0000, 0x3F80_0000),
        surface_hover: Color::new(0x3F66_6666, 0x3F66_6666, 0x3F66_6666, 0x3F80_0000),
        surface_active: Color::new(0x3F4C_CCCD, 0x3F4C_CCCD, 0x3F4C_CCCD, 0x3F80_0000),
        text: Color::new(0x0000_0000, 0x0000_0000, 0x0000_0000, 0x3F80_0000),
        border: Color::new(0x3F4C_CCCD, 0x3F4C_CCCD, 0x3F4C_CCCD, 0x3F80_0000),
        dark: false,
    }
}

/// The dark palette's tokens, dark.
pub fn dark_theme_colors() -> (t: ThemeColorTokens)
    ensures
        t == tokens_of(dark_palette(), true),
{
    ThemeColorTokens {
        background: Color::new(0x3DCC_CCCD, 0x3DCC_CCCD, 0x3DF5_C28F, 0x3F80_0000),
        primary: Color::new(0x3E99_999A, 0x3F19_999A, 0x3F80_0000, 0x3F80_0000),
        surface: Color::new(0x3E19_999A, 0x3E19_999A, 0x3E38_51EC, 0x3F80_0000),
        surface_hover: Color::new(0x3E80_0000, 0x3E80_0000, 0x3E8F_5C29, 0x3F80_0000),
        surface_active: Color::new(0x3EB3_3333, 0x3EB3_3333, 0x3EC2_8F5C, 0x3F80_0000),
        text: Color::new(0x3F80_0000, 0x3F80_0000, 0x3F80_0000, 0x3F80_0000),
        border: Color::new(0x3E99_999A, 0x3E99_999A, 0x3E99_999A, 0x3F80_0000),
        dark: true,
    }
}

/// Builds a `Theme` from the colors of `tokens`.
pub fn make_theme(tokens: &ThemeColorTokens) -> (t: Theme)
    ensures
        t == theme_of(*tokens),
{
    Theme {
        background: tokens.background,
        primary: tokens.primary,
        surface: tokens.surface,
        surface_hover: tokens.surface_hover,
        surface_active: tokens.surface_active,
        text: tokens.text,
        border: tokens.border,
    }
}

/// Taking a theme's tokens and building a theme from them gives the theme back,
/// whatever the darkness flag.
pub proof fn lemma_theme_tokens_round_trip(theme: Theme, dark: bool)
    ensures
        theme_of(tokens_of(theme, dark)) == theme,
{
}

/// Building a theme from tokens and taking its tokens with the same darkness flag
/// gives the tokens back.
pub proof fn lemma_tokens_theme_round_trip(tokens: ThemeColorTokens)
    ensures
        tokens_of(theme_of(tokens), tokens.dark) == tokens,
{
}

/// The standalone light and dark tokens are the tokens of the built-in light and
/// dark themes, and building themes from them gives the built-in themes back.
pub proof fn lemma_standalone_palettes_match_themes()
    ensures
        theme_of(tokens_of(light_palette(), false)) == light_palette(),
        theme_of(tokens_of(dark_palette(), true)) == dark_palette(),
        !tokens_of(light_palette(), false).dark,
        tokens_of(dark_palette(), true).dark,
{
}

} // verus!
