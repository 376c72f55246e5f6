use vstd::prelude::*;
use crate::color::Color;
use crate::components::button::{ButtonNode, ButtonStyle, ButtonIconPlacement};
use crate::components::combo_box::ComboBoxNode;
use crate::components::input_box::InputBoxNode;
use crate::components::label::LabelNode;
use crate::components::segmented_control::SegmentedControlNode;
use crate::components::sidebar::{SidebarNode, ItemSpec};
use crate::ui::node::UINode;
use crate::ui::context::{UIContext, returned};

verus! {

/// A copy of `items`, element by element.
pub fn clone_strings(items: &[String]) -> (r: Vec<String>)
    ensures
        r@ == items@,
{
    let mut out: Vec<String> = Vec::new();
    let n = items.len();
    let mut i: usize = 0;
    while i < n
        invariant
            n == items@.len(),
            i <= n,
            out@ == items@.take(i as int),
        decreases n - i,
    {
        out.push(items[i].clone());
        i = i + 1;
        assert(out@ =~= items@.take(i as int));
    }
    assert(items@.take(n as int) =~= items@);
    out
}

/// A builder's node after a setter for one node kind: when the node before is of
/// that kind, the node after is of that kind too and `change` relates the two;
/// otherwise the node is left as it was.
pub open spec fn label_set<Cb>(before: UINode<Cb>, after: UINode<Cb>, change: spec_fn(LabelNode, LabelNode) -> bool) -> bool {
    match before {
        UINode::Label(a) => match after {
            UINode::Label(b) => change(a, b),
            _ => false,
        },
        _ => after == before,
    }
}

/// Like `label_set`, for buttons.
pub open spec fn button_set<Cb>(before: UINode<Cb>, after: UINode<Cb>, change: spec_fn(ButtonNode<Cb>, ButtonNode<Cb>) -> bool) -> bool {
    match before {
        UINode::Button(a) => match after {
            UINode::Button(b) => change(a, b),
            _ => false,
        },
        _ => after == before,
    }
}

/// Like `label_set`, for segmented controls.
pub open spec fn segmented_set<Cb>(
    before: UINode<Cb>,
    after: UINode<Cb>,
    change: spec_fn(SegmentedControlNode<Cb>, SegmentedControlNode<Cb>) -> bool,
) -> bool {
    match before {
        UINode::SegmentedControl(a) => match after {
            UINode::SegmentedControl(b) => change(a, b),
            _ => false,
        },
        _ => after == before,
    }
}

/// Like `label_set`, for text fields.
pub open spec fn input_set<Cb>(before: UINode<Cb>, after: UINode<Cb>, change: spec_fn(InputBoxNode<Cb>, InputBoxNode<Cb>) -> bool) -> bool {
    match before {
        UINode::InputBox(a) => match after {
            UINode::InputBox(b) => change(a, b),
            _ => false,
        },
        _ => after == before,
    }
}

/// Like `label_set`, for dropdowns.
pub open spec fn combo_set<Cb>(before: UINode<Cb>, after: UINode<Cb>, change: spec_fn(ComboBoxNode<Cb>, ComboBoxNode<Cb>) -> bool) -> bool {
    match before {
        UINode::ComboBox(a) => match after {
            UINode::ComboBox(b) => change(a, b),
            _ => false,
        },
        _ => after == before,
    }
}

/// Like `label_set`, for sidebars.
pub open spec fn sidebar_set<Cb>(before: UINode<Cb>, after: UINode<Cb>, change: spec_fn(SidebarNode<Cb>, SidebarNode<Cb>) -> bool) -> bool {
    match before {
        UINode::Sidebar(a) => match after {
            UINode::Sidebar(b) => change(a, b),
            _ => false,
        },
        _ => after == before,
    }
}

/// Configures a label node taken from a context under `key`.
pub struct LabelBuilder<Cb> {
    pub node: UINode<Cb>,
    pub key: String,
}

impl<Cb> LabelBuilder<Cb> {
    /// Sets the label's text.
    pub fn text(self, value: &str) -> (r: Self)
        ensures
            r.key == self.key,
            label_set(self.node, r.node, |a: LabelNode, b: LabelNode| b == (LabelNode { text: b.text, ..a }) && b.text@ == value@),
    {
        let LabelBuilder { node, key } = self;
        let node = match node {
            UINode::Label(mut label) => {
                label.text = value.to_string();
                UINode::Label(label)
            },
            other => other,
        };
        LabelBuilder { node, key }
    }

    /// Sets the label's font size (the binary32 encoding of the size in pixels).
    pub fn font_size(self, value: u32) -> (r: Self)
        ensures
            r.key == self.key,
            label_set(self.node, r.node, |a: LabelNode, b: LabelNode| b == (LabelNode { font_size: value, ..a })),
    {
        let LabelBuilder { node, key } = self;
        let node = match node {
            UINode::Label(mut label) => {
                label.font_size = value;
                UINode::Label(label)
            },
            other => other,
        };
        LabelBuilder { node, key }
    }

    /// Sets the label's own color and stops it using the theme's text color.
    pub fn color(self, value: Color) -> (r: Self)
        ensures
            r.key == self.key,
            label_set(self.node, r.node, |a: LabelNode, b: LabelNode| b == (LabelNode { color: value, use_theme_color: false, ..a })),
    {
        let LabelBuilder { node, key } = self;
        let node = match node {
            UINode::Label(mut label) => {
                label.color = value;
                label.use_theme_color = false;
                UINode::Label(label)
            },
            other => other,
        };
        LabelBuilder { node, key }
    }

    /// Sets whether the label uses the theme's text color.
    pub fn use_theme_color(self, value: bool) -> (r: Self)
        ensures
            r.key == self.key,
            label_set(self.node, r.node, |a: LabelNode, b: LabelNode| b == (LabelNode { use_theme_color: value, ..a })),
    {
        let LabelBuilder { node, key } = self;
        let node = match node {
            UINode::Label(mut label) => {
                label.use_theme_color = value;
                UINode::Label(label)
            },
            other => other,
        };
        LabelBuilder { node, key }
    }
}

/// Configures a button node taken from a context under `key`.
pub struct ButtonBuilder<Cb> {
    pub node: UINode<Cb>,
    pub key: String,
}

impl<Cb> ButtonBuilder<Cb> {
    /// Sets the button's label text.
    pub fn text(self, value: &str) -> (r: Self)
        ensures
            r.key == self.key,
            button_set(self.node, r.node, |a: ButtonNode<Cb>, b: ButtonNode<Cb>| b == (ButtonNode { text: b.text, ..a }) && b.text@ == value@),
    {
        let ButtonBuilder { node, key } = self;
        let node = match node {
            UINode::Button(mut btn) => {
                btn.text = value.to_string();
                UINode::Button(btn)
            },
            other => other,
        };
        ButtonBuilder { node, key }
    }

    /// Sets the button's icon text.
    pub fn icon(self, value: &str) -> (r: Self)
        ensures
            r.key == self.key,
            button_set(self.node, r.node, |a: ButtonNode<Cb>, b: ButtonNode<Cb>| b == (ButtonNode { icon: b.icon, ..a }) && b.icon@ == value@),
    {
        let ButtonBuilder { node, key } = self;
        let node = match node {
            UINode::Button(mut btn) => {
                btn.icon = value.to_string();
                UINode::Button(btn)
            },
            other => other,
        };
        ButtonBuilder { node, key }
    }

    /// Sets where the icon stands relative to the text.
    pub fn icon_placement(self, value: ButtonIconPlacement) -> (r: Self)
        ensures
            r.key == self.key,
            button_set(self.node, r.node, |a: ButtonNode<Cb>, b: ButtonNode<Cb>| b == (ButtonNode { icon_placement: value, ..a })),
    {
        let ButtonBuilder { node, key } = self;
        let node = match node {
            UINode::Button(mut btn) => {
                btn.icon_placement = value;
                UINode::Button(btn)
            },
            other => other,
        };
        ButtonBuilder { node, key }
    }

    /// Sets the button's style.
    pub fn style(self, value: ButtonStyle) -> (r: Self)
        ensures
            r.key == self.key,
            button_set(self.node, r.node, |a: ButtonNode<Cb>, b: ButtonNode<Cb>| b == (ButtonNode { style: value, ..a })),
    {
        let ButtonBuilder { node, key } = self;
        let node = match node {
            UINode::Button(mut btn) => {
                btn.style = value;
                UINode::Button(btn)
            },
            other => other,
        };
        ButtonBuilder { node, key }
    }

    /// Sets the button's font size (the binary32 encoding of the size in pixels).
    pub fn font_size(self, value: u32) -> (r: Self)
        ensures
            r.key == self.key,
            button_set(self.node, r.node, |a: ButtonNode<Cb>, b: ButtonNode<Cb>| b == (ButtonNode { font_size: value, ..a })),
    {
        let ButtonBuilder { node, key } = self;
        let node = match node {
            UINode::Button(mut btn) => {
                btn.font_size = value;
                UINode::Button(btn)
            },
            other => other,
        };
        ButtonBuilder { node, key }
    }

    /// Sets the scale when idle and when hovered and the time the change takes
    /// (each the binary32 encoding of its value).
    pub fn hover_scale(self, idle: u32, hover: u32, duration: u32) -> (r: Self)
        ensures
            r.key == self.key,
            button_set(self.node, r.node, |a: ButtonNode<Cb>, b: ButtonNode<Cb>| b == (ButtonNode {
                hover_scale_idle: idle,
                hover_scale_hover: hover,
                hover_scale_duration: duration,
                ..a
            })),
    {
        let ButtonBuilder { node, key } = self;
        let node = match node {
            UINode::Button(mut btn) => {
                btn.hover_scale_idle = idle;
                btn.hover_scale_hover = hover;
                btn.hover_scale_duration = duration;
                UINode::Button(btn)
            },
            other => other,
        };
        ButtonBuilder { node, key }
    }

    /// Overrides the text color the style would give.
    pub fn text_color(self, value: Color) -> (r: Self)
        ensures
            r.key == self.key,
            button_set(self.node, r.node, |a: ButtonNode<Cb>, b: ButtonNode<Cb>| b == (ButtonNode { text_color_override: Some(value), ..a })),
    {
        let ButtonBuilder { node, key } = self;
        let node = match node {
            UINode::Button(mut btn) => {
                btn.text_color_override = Some(value);
                UINode::Button(btn)
            },
            other => other,
        };
        ButtonBuilder { node, key }
    }

    /// Sets the click callback.
    pub fn on_click(self, callback: Cb) -> (r: Self)
        ensures
            r.key == self.key,
            button_set(self.node, r.node, |a: ButtonNode<Cb>, b: ButtonNode<Cb>| b == (ButtonNode { on_click: Some(callback), ..a })),
    {
        let ButtonBuilder { node, key } = self;
        let node = match node {
            UINode::Button(mut btn) => {
                btn.on_click = Some(callback);
                UINode::Button(btn)
            },
            other => other,
        };
        ButtonBuilder { node, key }
    }
}

/// Configures a segmented control taken from a context under `key`.
pub struct SegmentedControlBuilder<Cb> {
    pub node: UINode<Cb>,
    pub key: String,
}

impl<Cb> SegmentedControlBuilder<Cb> {
    /// Replaces the items with a copy of `items`.
    pub fn items(self, items: &[String]) -> (r: Self)
        ensures
            r.key == self.key,
            segmented_set(self.node, r.node, |a: SegmentedControlNode<Cb>, b: SegmentedControlNode<Cb>| b == (SegmentedControlNode { items: b.items, ..a }) && b.items@ == items@),
    {
        let SegmentedControlBuilder { node, key } = self;
        let node = match node {
            UINode::SegmentedControl(mut sc) => {
                sc.items = clone_strings(items);
                UINode::SegmentedControl(sc)
            },
            other => other,
        };
        SegmentedControlBuilder { node, key }
    }

    /// Sets the selected index.
    pub fn selected(self, index: i32) -> (r: Self)
        ensures
            r.key == self.key,
            segmented_set(self.node, r.node, |a: SegmentedControlNode<Cb>, b: SegmentedControlNode<Cb>| b == (SegmentedControlNode { selected_index: index, ..a })),
    {
        let SegmentedControlBuilder { node, key } = self;
        let node = match node {
            UINode::SegmentedControl(mut sc) => {
                sc.selected_index = index;
                UINode::SegmentedControl(sc)
            },
            other => other,
        };
        SegmentedControlBuilder { node, key }
    }

    /// Sets the change callback.
    pub fn on_change(self, callback: Cb) -> (r: Self)
        ensures
            r.key == self.key,
            segmented_set(self.node, r.node, |a: SegmentedControlNode<Cb>, b: SegmentedControlNode<Cb>| b == (SegmentedControlNode { on_change: Some(callback), ..a })),
    {
        let SegmentedControlBuilder { node, key } = self;
        let node = match node {
            UINode::SegmentedControl(mut sc) => {
                sc.on_change = Some(callback);
                UINode::SegmentedControl(sc)
            },
            other => other,
        };
        SegmentedControlBuilder { node, key }
    }
}

/// Configures a text field taken from a context under `key`.
pub struct InputBoxBuilder<Cb> {
    pub node: UINode<Cb>,
    pub key: String,
}

impl<Cb> InputBoxBuilder<Cb> {
    /// Sets the placeholder shown while the text is empty.
    pub fn placeholder(self, value: &str) -> (r: Self)
        ensures
            r.key == self.key,
            input_set(self.node, r.node, |a: InputBoxNode<Cb>, b: InputBoxNode<Cb>| b == (InputBoxNode { placeholder: b.placeholder, ..a }) && b.placeholder@ == value@),
    {
        let InputBoxBuilder { node, key } = self;
        let node = match node {
            UINode::InputBox(mut ib) => {
                ib.placeholder = value.to_string();
                UINode::InputBox(ib)
            },
            other => other,
        };
        InputBoxBuilder { node, key }
    }

    /// Sets the field's text (the cursor is left where it was).
    pub fn text(self, value: &str) -> (r: Self)
        ensures
            r.key == self.key,
            input_set(self.node, r.node, |a: InputBoxNode<Cb>, b: InputBoxNode<Cb>| b == (InputBoxNode { text: b.text, ..a }) && b.text@ == value@),
    {
        let InputBoxBuilder { node, key } = self;
        let node = match node {
            UINode::InputBox(mut ib) => {
                ib.text = value.to_string();
                UINode::InputBox(ib)
            },
            other => other,
        };
        InputBoxBuilder { node, key }
    }

    /// Sets the callback run when the text changes.
    pub fn on_change(self, callback: Cb) -> (r: Self)
        ensures
            r.key == self.key,
            input_set(self.node, r.node, |a: InputBoxNode<Cb>, b: InputBoxNode<Cb>| b == (InputBoxNode { on_change: Some(callback), ..a })),
    {
        let InputBoxBuilder { node, key } = self;
        let node = match node {
            UINode::InputBox(mut ib) => {
                ib.on_change = Some(callback);
                UINode::InputBox(ib)
            },
            other => other,
        };
        InputBoxBuilder { node, key }
    }

    /// Sets the callback run when Enter is pressed.
    pub fn on_enter(self, callback: Cb) -> (r: Self)
        ensures
            r.key == self.key,
            input_set(self.node, r.node, |a: InputBoxNode<Cb>, b: InputBoxNode<Cb>| b == (InputBoxNode { on_enter: Some(callback), ..a })),
    {
        let InputBoxBuilder { node, key } = self;
        let node = match node {
            UINode::InputBox(mut ib) => {
                ib.on_enter = Some(callback);
                UINode::InputBox(ib)
            },
            other => other,
        };
        InputBoxBuilder { node, key }
    }
}

/// Configures a dropdown taken from a context under `key`.
pub struct ComboBoxBuilder<Cb> {
    pub node: UINode<Cb>,
    pub key: String,
}

impl<Cb> ComboBoxBuilder<Cb> {
    /// Replaces the items with a copy of `items`.
    pub fn items(self, items: &[String]) -> (r: Self)
        ensures
            r.key == self.key,
            combo_set(self.node, r.node, |a: ComboBoxNode<Cb>, b: ComboBoxNode<Cb>| b == (ComboBoxNode { items: b.items, ..a }) && b.items@ == items@),
    {
        let ComboBoxBuilder { node, key } = self;
        let node = match node {
            UINode::ComboBox(mut cb) => {
                cb.items = clone_strings(items);
                UINode::ComboBox(cb)
            },
            other => other,
        };
        ComboBoxBuilder { node, key }
    }

    /// Sets the placeholder shown while nothing is selected.
    pub fn placeholder(self, value: &str) -> (r: Self)
        ensures
            r.key == self.key,
            combo_set(self.node, r.node, |a: ComboBoxNode<Cb>, b: ComboBoxNode<Cb>| b == (ComboBoxNode { placeholder: b.placeholder, ..a }) && b.placeholder@ == value@),
    {
        let ComboBoxBuilder { node, key } = self;
        let node = match node {
            UINode::ComboBox(mut cb) => {
                cb.placeholder = value.to_string();
                UINode::ComboBox(cb)
            },
            other => other,
        };
        ComboBoxBuilder { node, key }
    }

    /// Sets the selected index.
    pub fn selected(self, index: i32) -> (r: Self)
        ensures
            r.key == self.key,
            combo_set(self.node, r.node, |a: ComboBoxNode<Cb>, b: ComboBoxNode<Cb>| b == (ComboBoxNode { selected_index: index, ..a })),
    {
        let ComboBoxBuilder { node, key } = self;
        let node = match node {
            UINode::ComboBox(mut cb) => {
                cb.selected_index = index;
                UINode::ComboBox(cb)
            },
            other => other,
        };
        ComboBoxBuilder { node, key }
    }

    /// Opens or closes the list, but only the first time the open state is set:
    /// afterwards the user's own opening and closing is kept.
    pub fn start_open(self, value: bool) -> (r: Self)
        ensures
            r.key == self.key,
            combo_set(self.node, r.node, |a: ComboBoxNode<Cb>, b: ComboBoxNode<Cb>|
                if a.open_state_initialized {
                    b == a
                } else {
                    b == (ComboBoxNode { is_open: value, open_state_initialized: true, ..a })
                }),
    {
        let ComboBoxBuilder { node, key } = self;
        let node = match node {
            UINode::ComboBox(mut cb) => {
                if !cb.open_state_initialized {
                    cb.is_open = value;
                    cb.open_state_initialized = true;
                }
                UINode::ComboBox(cb)
            },
            other => other,
        };
        ComboBoxBuilder { node, key }
    }

    /// Sets the change callback.
    pub fn on_change(self, callback: Cb) -> (r: Self)
        ensures
            r.key == self.key,
            combo_set(self.node, r.node, |a: ComboBoxNode<Cb>, b: ComboBoxNode<Cb>| b == (ComboBoxNode { on_change: Some(callback), ..a })),
    {
        let ComboBoxBuilder { node, key } = self;
        let node = match node {
            UINode::ComboBox(mut cb) => {
                cb.on_change = Some(callback);
                UINode::ComboBox(cb)
            },
            other => other,
        };
        ComboBoxBuilder { node, key }
    }
}

/// Configures a sidebar taken from a context under `key`.
pub struct SidebarBuilder<Cb> {
    pub node: UINode<Cb>,
    pub key: String,
}

impl<Cb> SidebarBuilder<Cb> {
    /// Sets the two brand lines.
    pub fn brand(self, primary: &str, secondary: &str) -> (r: Self)
        ensures
            r.key == self.key,
            sidebar_set(self.node, r.node, |a: SidebarNode<Cb>, b: SidebarNode<Cb>|
                b == (SidebarNode { brand_primary: b.brand_primary, brand_secondary: b.brand_secondary, ..a })
                && b.brand_primary@ == primary@ && b.brand_secondary@ == secondary@),
    {
        let SidebarBuilder { node, key } = self;
        let node = match node {
            UINode::Sidebar(mut sb) => {
                sb.brand_primary = primary.to_string();
                sb.brand_secondary = secondary.to_string();
                UINode::Sidebar(sb)
            },
            other => other,
        };
        SidebarBuilder { node, key }
    }

    /// Appends an entry with the given icon, label and click callback.
    pub fn item(self, icon: &str, label: &str, on_click: Cb) -> (r: Self)
        ensures
            r.key == self.key,
            sidebar_set(self.node, r.node, |a: SidebarNode<Cb>, b: SidebarNode<Cb>|
                b == (SidebarNode { items: b.items, ..a })
                && b.items@.len() == a.items@.len() + 1
                && b.items@.take(a.items@.len() as int) == a.items@
                && b.items@.last().icon@ == icon@
                && b.items@.last().label@ == label@
                && b.items@.last().on_click == Some(on_click)),
    {
        let SidebarBuilder { node, key } = self;
        let node = match node {
            UINode::Sidebar(mut sb) => {
                let ghost before = sb.items@;
                sb.items.push(ItemSpec { icon: icon.to_string(), label: label.to_string(), on_click: Some(on_click) });
                assert(sb.items@.take(before.len() as int) =~= before);
                UINode::Sidebar(sb)
            },
            other => other,
        };
        SidebarBuilder { node, key }
    }

    /// Sets the selected entry's index.
    pub fn selected_index(self, index: i32) -> (r: Self)
        ensures
            r.key == self.key,
            sidebar_set(self.node, r.node, |a: SidebarNode<Cb>, b: SidebarNode<Cb>| b == (SidebarNode { selected_index: index, ..a })),
    {
        let SidebarBuilder { node, key } = self;
        let node = match node {
            UINode::Sidebar(mut sb) => {
                sb.selected_index = index;
                UINode::Sidebar(sb)
            },
            other => other,
        };
        SidebarBuilder { node, key }
    }

    /// Sets the theme-toggle callback.
    pub fn on_theme_toggle(self, callback: Cb) -> (r: Self)
        ensures
            r.key == self.key,
            sidebar_set(self.node, r.node, |a: SidebarNode<Cb>, b: SidebarNode<Cb>| b == (SidebarNode { on_theme_toggle: Some(callback), ..a })),
    {
        let SidebarBuilder { node, key } = self;
        let node = match node {
            UINode::Sidebar(mut sb) => {
                sb.on_theme_toggle = Some(callback);
                UINode::Sidebar(sb)
            },
            other => other,
        };
        SidebarBuilder { node, key }
    }
}

/// Configures a panel node taken from a context under `key`.
pub struct PanelBuilder<Cb> {
    pub node: UINode<Cb>,
    pub key: String,
}

/// Configures a glass panel node taken from a context under `key`.
pub struct GlassPanelBuilder<Cb> {
    pub node: UINode<Cb>,
    pub key: String,
}

/// Configures a progress bar node taken from a context under `key`.
pub struct ProgressBarBuilder<Cb> {
    pub node: UINode<Cb>,
    pub key: String,
}

/// Configures a slider node taken from a context under `key`.
pub struct SliderBuilder<Cb> {
    pub node: UINode<Cb>,
    pub key: String,
}

impl<Cb> LabelBuilder<Cb> {
    /// Puts the configured node back into `ctx` under the builder's key and finishes
    /// its compose pass; `primitive_changed` says whether its primitive differs from
    /// the one recorded at its last finished pass.
    pub fn build(self, ctx: &mut UIContext<Cb>, primitive_changed: bool)
        requires
            old(ctx).wf(),
            old(ctx).open_layout_ok(),
        ensures
            returned(*old(ctx), *final(ctx), self.key@, self.node, primitive_changed),
    {
        ctx.return_and_finalize(self.key, self.node, primitive_changed);
    }
}

impl<Cb> ButtonBuilder<Cb> {
    /// Puts the configured node back into `ctx` under the builder's key and finishes
    /// its compose pass; `primitive_changed` says whether its primitive differs from
    /// the one recorded at its last finished pass.
    pub fn build(self, ctx: &mut UIContext<Cb>, primitive_changed: bool)
        requires
            old(ctx).wf(),
            old(ctx).open_layout_ok(),
        ensures
            returned(*old(ctx), *final(ctx), self.key@, self.node, primitive_changed),
    {
        ctx.return_and_finalize(self.key, self.node, primitive_changed);
    }
}

impl<Cb> SegmentedControlBuilder<Cb> {
    /// Puts the configured node back into `ctx` under the builder's key and finishes
    /// its compose pass; `primitive_changed` says whether its primitive differs from
    /// the one recorded at its last finished pass.
    pub fn build(self, ctx: &mut UIContext<Cb>, primitive_changed: bool)
        requires
            old(ctx).wf(),
            old(ctx).open_layout_ok(),
        ensures
            returned(*old(ctx), *final(ctx), self.key@, self.node, primitive_changed),
    {
        ctx.return_and_finalize(self.key, self.node, primitive_changed);
    }
}

impl<Cb> InputBoxBuilder<Cb> {
    /// Puts the configured node back into `ctx` under the builder's key and finishes
    /// its compose pass; `primitive_changed` says whether its primitive differs from
    /// the one recorded at its last finished pass.
    pub fn build(self, ctx: &mut UIContext<Cb>, primitive_changed: bool)
        requires
            old(ctx).wf(),
            old(ctx).open_layout_ok(),
        ensures
            returned(*old(ctx), *final(ctx), self.key@, self.node, primitive_changed),
    {
        ctx.return_and_finalize(self.key, self.node, primitive_changed);
    }
}

impl<Cb> ComboBoxBuilder<Cb> {
    /// Puts the configured node back into `ctx` under the builder's key and finishes
    /// its compose pass; `primitive_changed` says whether its primitive differs from
    /// the one recorded at its last finished pass.
    pub fn build(self, ctx: &mut UIContext<Cb>, primitive_changed: bool)
        requires
            old(ctx).wf(),
            old(ctx).open_layout_ok(),
        ensures
            returned(*old(ctx), *final(ctx), self.key@, self.node, primitive_changed),
    {
        ctx.return_and_finalize(self.key, self.node, primitive_changed);
    }
}

impl<Cb> SidebarBuilder<Cb> {
    /// Puts the configured node back into `ctx` under the builder's key and finishes
    /// its compose pass; `primitive_changed` says whether its primitive differs from
    /// the one recorded at its last finished pass.
    pub fn build(self, ctx: &mut UIContext<Cb>, primitive_changed: bool)
        requires
            old(ctx).wf(),
            old(ctx).open_layout_ok(),
        ensures
            returned(*old(ctx), *final(ctx), self.key@, self.node, primitive_changed),
    {
        ctx.return_and_finalize(self.key, self.node, primitive_changed);
    }
}

impl<Cb> PanelBuilder<Cb> {
    /// Puts the configured node back into `ctx` under the builder's key and finishes
    /// its compose pass; `primitive_changed` says whether its primitive differs from
    /// the one recorded at its last finished pass.
    pub fn build(self, ctx: &mut UIContext<Cb>, primitive_changed: bool)
        requires
            old(ctx).wf(),
            old(ctx).open_layout_ok(),
        ensures
            returned(*old(ctx), *final(ctx), self.key@, self.node, primitive_changed),
    {
        ctx.return_and_finalize(self.key, self.node, primitive_changed);
    }
}

impl<Cb> GlassPanelBuilder<Cb> {
    /// Puts the configured node back into `ctx` under the builder's key and finishes
    /// its compose pass; `primitive_changed` says whether its primitive differs from
    /// the one recorded at its last finished pass.
    pub fn build(self, ctx: &mut UIContext<Cb>, primitive_changed: bool)
        requires
            old(ctx).wf(),
            old(ctx).open_layout_ok(),
        ensures
            returned(*old(ctx), *final(ctx), self.key@, self.node, primitive_changed),
    {
        ctx.return_and_finalize(self.key, self.node, primitive_changed);
    }
}

impl<Cb> ProgressBarBuilder<Cb> {
    /// Puts the configured node back into `ctx` under the builder's key and finishes
    /// its compose pass; `primitive_changed` says whether its primitive differs from
    /// the one recorded at its last finished pass.
    pub fn build(self, ctx: &mut UIContext<Cb>, primitive_changed: bool)
        requires
            old(ctx).wf(),
            old(ctx).open_layout_ok(),
        ensures
            returned(*old(ctx), *final(ctx), self.key@, self.node, primitive_changed),
    {
        ctx.return_and_finalize(self.key, self.node, primitive_changed);
    }
}

impl<Cb> SliderBuilder<Cb> {
    /// Puts the configured node back into `ctx` under the builder's key and finishes
    /// its compose pass; `primitive_changed` says whether its primitive differs from
    /// the one recorded at its last finished pass.
    pub fn build(self, ctx: &mut UIContext<Cb>, primitive_changed: bool)
        requires
            old(ctx).wf(),
            old(ctx).open_layout_ok(),
        ensures
            returned(*old(ctx), *final(ctx), self.key@, self.node, primitive_changed),
    {
        ctx.return_and_finalize(self.key, self.node, primitive_changed);
    }
}

} // verus!
