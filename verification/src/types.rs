use vstd::prelude::*;
use crate::color::{Color, rgba, ONE};

verus! {

/// Four-corner gradient.
#[derive(Debug, Clone, Copy, PartialEq, Eq, Structural)]
pub struct RectGradient {
    pub enabled: bool,
    pub top_left: Color,
    pub top_right: Color,
    pub bottom_left: Color,
    pub bottom_right: Color,
}

/// The gradient whose four corners are given, enabled.
pub open spec fn corner_gradient(tl: Color, tr: Color, bl: Color, br: Color) -> RectGradient {
    RectGradient { enabled: true, top_left: tl, top_right: tr, bottom_left: bl, bottom_right: br }
}

impl Default for RectGradient {
    /// A disabled gradient with white corners.
    fn default() -> (g: Self)
        ensures
            !g.enabled,
            g.top_left == rgba(ONE, ONE, ONE, ONE),
            g.top_right == rgba(ONE, ONE, ONE, ONE),
            g.bottom_left == rgba(ONE, ONE, ONE, ONE),
            g.bottom_right == rgba(ONE, ONE, ONE, ONE),
    {
        let w = Color::white();
        RectGradient { enabled: false, top_left: w, top_right: w, bottom_left: w, bottom_right: w }
    }
}

impl RectGradient {
    /// One color on all four corners.
    pub fn solid(color: Color) -> (g: Self)
        ensures
            g == corner_gradient(color, color, color, color),
    {
        RectGradient {
            enabled: true,
            top_left: color,
            top_right: color,
            bottom_left: color,
            bottom_right: color,
        }
    }

    /// `left` on the left corners, `right` on the right corners.
    pub fn horizontal(left: Color, right: Color) -> (g: Self)
        ensures
            g == corner_gradient(left, right, left, right),
    {
        RectGradient {
            enabled: true,
            top_left: left,
            top_right: right,
            bottom_left: left,
            bottom_right: right,
        }
    }

    /// `top` on the top corners, `bottom` on the bottom corners.
    pub fn vertical(top: Color, bottom: Color) -> (g: Self)
        ensures
            g == corner_gradient(top, top, bottom, bottom),
    {
        RectGradient {
            enabled: true,
            top_left: top,
            top_right: top,
            bottom_left: bottom,
            bottom_right: bottom,
        }
    }

    /// Each corner given separately.
    pub fn corners(top_left: Color, top_right: Color, bottom_left: Color, bottom_right: Color) -> (g: Self)
        ensures
            g == corner_gradient(top_left, top_right, bottom_left, bottom_right),
    {
        RectGradient { enabled: true, top_left, top_right, bottom_left, bottom_right }
    }
}

/// Render layer ordering: layers are drawn from `Backdrop` up to `Popup`.
#[derive(Debug, Clone, Copy, PartialEq, Eq, Structural, Hash)]
pub enum RenderLayer {
    Backdrop,
    Content,
    Chrome,
    Popup,
}

/// The position of a layer in drawing order.
pub open spec fn layer_rank(layer: RenderLayer) -> int {
    match layer {
        RenderLayer::Backdrop => 0,
        RenderLayer::Content => 1,
        RenderLayer::Chrome => 2,
        RenderLayer::Popup => 3,
    }
}

impl RenderLayer {
    /// The layer's position in drawing order (`Backdrop` is 0, `Popup` is 3).
    pub fn index(self) -> (i: u8)
        ensures
            i == layer_rank(self),
    {
        match self {
            RenderLayer::Backdrop => 0,
            RenderLayer::Content => 1,
            RenderLayer::Chrome => 2,
            RenderLayer::Popup => 3,
        }
    }
}

impl Default for RenderLayer {
    fn default() -> (l: Self)
        ensures
            l == RenderLayer::Content,
    {
        RenderLayer::Content
    }
}

/// Anchor position.
#[derive(Debug, Clone, Copy, PartialEq, Eq, Structural, Hash)]
pub enum Anchor {
    TopLeft,
    TopCenter,
    TopRight,
    CenterLeft,
    Center,
    CenterRight,
    BottomLeft,
    BottomCenter,
    BottomRight,
}

impl Default for Anchor {
    fn default() -> (a: Self)
        ensures
            a == Anchor::TopLeft,
    {
        Anchor::TopLeft
    }
}

} // verus!
