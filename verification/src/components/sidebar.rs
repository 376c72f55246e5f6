use vstd::prelude::*;
use crate::ui::node::{NodeBase, is_fresh};

verus! {

/// A sidebar entry: icon text, label and click callback.
pub struct ItemSpec<Cb> {
    pub icon: String,
    pub label: String,
    pub on_click: Option<Cb>,
}

/// A navigation sidebar's configuration: brand lines, selected index, entries and
/// theme-toggle callback.
pub struct SidebarNode<Cb> {
    pub base: NodeBase,
    pub brand_primary: String,
    pub brand_secondary: String,
    pub selected_index: i32,
    pub items: Vec<ItemSpec<Cb>>,
    pub on_theme_toggle: Option<Cb>,
}

impl<Cb> SidebarNode<Cb> {
    /// A fresh sidebar: empty brand lines, index 0, no entries, no callback.
    pub fn new(key: String) -> (n: Self)
        ensures
            n.base.key@ == key@,
            is_fresh(n.base),
            n.brand_primary@ == Seq::<char>::empty(),
            n.brand_secondary@ == Seq::<char>::empty(),
            n.selected_index == 0,
            n.items@.len() == 0,
            n.on_theme_toggle is None,
    {
        SidebarNode {
            base: NodeBase::new(key),
            brand_primary: String::new(),
            brand_secondary: String::new(),
            selected_index: 0,
            items: Vec::new(),
            on_theme_toggle: None,
        }
    }
}

/// What a click on the sidebar asks of its caller: calling the click callback of
/// the entry at `item`, and playing the theme toggle (its animations and callback).
pub struct SidebarClick {
    pub item: Option<usize>,
    pub theme_toggled: bool,
}

impl<Cb> SidebarNode<Cb> {
    /// Handles a click. `item_row` is the entry whose row the click landed on, if
    /// any, and `toggle_hit` says whether it landed on the theme toggle. An entry
    /// that exists becomes the selection and is reported for its callback; a hit
    /// on the toggle is reported.
    pub fn handle_click(&mut self, item_row: Option<usize>, toggle_hit: bool) -> (r: SidebarClick)
        ensures
            final(self).base == old(self).base,
            final(self).brand_primary == old(self).brand_primary,
            final(self).brand_secondary == old(self).brand_secondary,
            final(self).items == old(self).items,
            final(self).on_theme_toggle == old(self).on_theme_toggle,
            match item_row {
                Some(i) if i < old(self).items@.len() => {
                    &&& final(self).selected_index == i as i32
                    &&& r.item == Some(i)
                },
                _ => final(self).selected_index == old(self).selected_index && r.item is None,
            },
            r.theme_toggled == toggle_hit,
    {
        let mut item: Option<usize> = None;
        match item_row {
            Some(i) => {
                if i < self.items.len() {
                    #[verifier::truncate]
                    let index = i as i32;
                    self.selected_index = index;
                    item = Some(i);
                }
            },
            None => {},
        }
        SidebarClick { item, theme_toggled: toggle_hit }
    }
}

} // verus!
