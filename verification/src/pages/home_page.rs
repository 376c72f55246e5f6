use vstd::prelude::*;
use crate::theme::{ThemeColorTokens, tokens_of, light_palette};
use crate::theme_tokens::light_theme_colors;

verus! {

/// The page with the basic controls.
pub struct HomePage;

/// The palette the home page composes with: the light theme's tokens.
pub fn current_theme_colors_standalone() -> (t: ThemeColorTokens)
    ensures
        t == tokens_of(light_palette(), false),
{
    light_theme_colors()
}

} // verus!
