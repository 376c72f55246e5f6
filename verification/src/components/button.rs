use vstd::prelude::*;
use crate::color::{Color, rgba, ONE, ZERO};
use crate::theme::{dark_theme, dark_palette};
use crate::ui::node::{NodeBase, is_fresh};

verus! {

/// Visual style of the button.
#[derive(Debug, Clone, Copy, PartialEq, Eq, Structural)]
pub enum ButtonStyle {
    Default,
    Primary,
    Outline,
}

impl std::default::Default for ButtonStyle {
    fn default() -> (s: Self)
        ensures
            s == ButtonStyle::Default,
    {
        ButtonStyle::Default
    }
}

/// The style's number (Default 0, Primary 1, Outline 2).
pub open spec fn style_code(s: ButtonStyle) -> u32 {
    match s {
        ButtonStyle::Default => 0,
        ButtonStyle::Primary => 1,
        ButtonStyle::Outline => 2,
    }
}

impl ButtonStyle {
    /// The style's number (Default 0, Primary 1, Outline 2).
    pub fn code(self) -> (c: u32)
        ensures
            c == style_code(self),
    {
        match self {
            ButtonStyle::Default => 0,
            ButtonStyle::Primary => 1,
            ButtonStyle::Outline => 2,
        }
    }
}

/// Placement of an optional icon relative to the label text.
#[derive(Debug, Clone, Copy, PartialEq, Eq, Structural)]
pub enum ButtonIconPlacement {
    Leading,
    Trailing,
}

impl std::default::Default for ButtonIconPlacement {
    fn default() -> (p: Self)
        ensures
            p == ButtonIconPlacement::Leading,
    {
        ButtonIconPlacement::Leading
    }
}

/// The placement's number (Leading 0, Trailing 1).
pub open spec fn placement_code(p: ButtonIconPlacement) -> u32 {
    match p {
        ButtonIconPlacement::Leading => 0,
        ButtonIconPlacement::Trailing => 1,
    }
}

impl ButtonIconPlacement {
    /// The placement's number (Leading 0, Trailing 1).
    pub fn code(self) -> (c: u32)
        ensures
            c == placement_code(self),
    {
        match self {
            ButtonIconPlacement::Leading => 0,
            ButtonIconPlacement::Trailing => 1,
        }
    }
}

/// A clickable button's configuration: label text, optional icon and its placement,
/// style, optional text color override, font size, hover scales (idle and hovered)
/// and the hover-scale duration (each the binary32 encoding of its value), and the
/// click callback.
pub struct ButtonNode<Cb> {
    pub base: NodeBase,
    pub text: String,
    pub icon: String,
    pub style: ButtonStyle,
    pub icon_placement: ButtonIconPlacement,
    pub text_color_override: Option<Color>,
    pub font_size: u32,
    pub hover_scale_idle: u32,
    pub hover_scale_hover: u32,
    pub hover_scale_duration: u32,
    pub on_click: Option<Cb>,
}

/// A button's default font size: the encoding of 20.0.
pub const BUTTON_FONT_SIZE: u32 = 0x41A0_0000;

/// A button's default hover-scale duration: the encoding of 0.16 (seconds).
pub const HOVER_SCALE_DURATION: u32 = 0x3E23_D70A;

/// The configuration a button has before a compose pass sets anything.
pub open spec fn button_defaults<Cb>(n: ButtonNode<Cb>) -> bool {
    &&& n.text@ == Seq::<char>::empty()
    &&& n.icon@ == Seq::<char>::empty()
    &&& n.style == ButtonStyle::Default
    &&& n.icon_placement == ButtonIconPlacement::Leading
    &&& n.text_color_override is None
    &&& n.font_size == BUTTON_FONT_SIZE
    &&& n.hover_scale_idle == ONE
    &&& n.hover_scale_hover == ONE
    &&& n.hover_scale_duration == HOVER_SCALE_DURATION
    &&& n.on_click is None
}

impl<Cb> ButtonNode<Cb> {
    /// A fresh button with the default configuration.
    pub fn new(key: String) -> (n: Self)
        ensures
            n.base.key@ == key@,
            is_fresh(n.base),
            button_defaults(n),
    {
        ButtonNode {
            base: NodeBase::new(key),
            text: String::new(),
            icon: String::new(),
            style: ButtonStyle::Default,
            icon_placement: ButtonIconPlacement::Leading,
            text_color_override: None,
            font_size: BUTTON_FONT_SIZE,
            hover_scale_idle: ONE,
            hover_scale_hover: ONE,
            hover_scale_duration: HOVER_SCALE_DURATION,
            on_click: None,
        }
    }

    /// Restores the default configuration; the compose-tracking state is kept.
    pub fn reset_defaults(&mut self)
        ensures
            final(self).base == old(self).base,
            button_defaults(*final(self)),
    {
        self.text = String::new();
        self.icon = String::new();
        self.style = ButtonStyle::Default;
        self.icon_placement = ButtonIconPlacement::Leading;
        self.text_color_override = None;
        self.font_size = BUTTON_FONT_SIZE;
        self.hover_scale_idle = ONE;
        self.hover_scale_hover = ONE;
        self.hover_scale_duration = HOVER_SCALE_DURATION;
        self.on_click = None;
    }
}

impl<Cb> ButtonNode<Cb> {
    /// The label color before the node's opacity is applied: the override when
    /// there is one, else white on a primary button and the dark theme's text
    /// color on the others.
    pub fn base_text_color(&self) -> (c: Color)
        ensures
            c == match self.text_color_override {
                Some(o) => o,
                None => if self.style == ButtonStyle::Primary {
                    rgba(ONE, ONE, ONE, ONE)
                } else {
                    dark_palette().text
                },
            },
    {
        match self.text_color_override {
            Some(o) => o,
            None => match self.style {
                ButtonStyle::Primary => Color::white(),
                _ => dark_theme().text,
            },
        }
    }

    /// The border color before the node's opacity is applied: the dark theme's
    /// border color on an outline button, transparent on the others.
    pub fn base_border_color(&self) -> (c: Color)
        ensures
            c == if self.style == ButtonStyle::Outline { dark_palette().border } else { rgba(ZERO, ZERO, ZERO, ZERO) },
    {
        match self.style {
            ButtonStyle::Outline => dark_theme().border,
            _ => Color::transparent(),
        }
    }
}

} // verus!
