use vstd::prelude::*;
use crate::color::{Color, rgba, ONE};
use crate::theme::{dark_theme, dark_palette};
use crate::ui::node::{NodeBase, is_fresh};

verus! {

/// A text label's configuration: its text, its font size (the binary32 encoding of
/// the size in pixels), its own color, and whether the theme's text color is used
/// instead of that color.
pub struct LabelNode {
    pub base: NodeBase,
    pub text: String,
    pub font_size: u32,
    pub color: Color,
    pub use_theme_color: bool,
}

/// A label's default font size: the encoding of 24.0.
pub const LABEL_FONT_SIZE: u32 = 0x41C0_0000;

/// The configuration a label has before a compose pass sets anything.
pub open spec fn label_defaults(n: LabelNode) -> bool {
    &&& n.text@ == Seq::<char>::empty()
    &&& n.font_size == LABEL_FONT_SIZE
    &&& n.color == rgba(ONE, ONE, ONE, ONE)
    &&& n.use_theme_color
}

impl LabelNode {
    /// A fresh label: empty text, font size 24, white, theme color in use.
    pub fn new(key: String) -> (n: Self)
        ensures
            n.base.key@ == key@,
            is_fresh(n.base),
            label_defaults(n),
    {
        LabelNode {
            base: NodeBase::new(key),
            text: String::new(),
            font_size: LABEL_FONT_SIZE,
            color: Color::white(),
            use_theme_color: true,
        }
    }

    /// Restores the default configuration; the compose-tracking state is kept.
    pub fn reset_defaults(&mut self)
        ensures
            final(self).base == old(self).base,
            label_defaults(*final(self)),
    {
        self.text = String::new();
        self.font_size = LABEL_FONT_SIZE;
        self.color = Color::white();
        self.use_theme_color = true;
    }
}

impl LabelNode {
    /// The text color before the node's opacity is applied: the dark theme's text
    /// color when the label uses the theme color, else its own color.
    pub fn base_color(&self) -> (c: Color)
        ensures
            c == if self.use_theme_color { dark_palette().text } else { self.color },
    {
        if self.use_theme_color {
            dark_theme().text
        } else {
            self.color
        }
    }
}

} // verus!
