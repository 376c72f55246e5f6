use vstd::prelude::*;
use crate::ui::node::{NodeBase, is_fresh};

verus! {

/// A dropdown field's configuration and open state: its items, placeholder, selected
/// index (-1 for none), change callback, whether the list is open and whether the
/// open state was set once already.
pub struct ComboBoxNode<Cb> {
    pub base: NodeBase,
    pub items: Vec<String>,
    pub placeholder: String,
    pub selected_index: i32,
    pub on_change: Option<Cb>,
    pub is_open: bool,
    pub open_state_initialized: bool,
}

impl<Cb> ComboBoxNode<Cb> {
    /// A fresh dropdown: no items, no placeholder, nothing selected, closed.
    pub fn new(key: String) -> (n: Self)
        ensures
            n.base.key@ == key@,
            is_fresh(n.base),
            n.items@.len() == 0,
            n.placeholder@ == Seq::<char>::empty(),
            n.selected_index == -1,
            n.on_change is None,
            !n.is_open,
            !n.open_state_initialized,
    {
        ComboBoxNode {
            base: NodeBase::new(key),
            items: Vec::new(),
            placeholder: String::new(),
            selected_index: -1,
            on_change: None,
            is_open: false,
            open_state_initialized: false,
        }
    }
}

impl<Cb> ComboBoxNode<Cb> {
    /// Handles a click. `hovered` says whether it landed on the field, `popup_row`
    /// is the row of the open list it landed on (`None` outside the list). An open
    /// list closes, and a row that names an item selects that item and returns its
    /// index and text for the change callback; a closed list opens when the field
    /// was clicked.
    pub fn handle_click(&mut self, hovered: bool, popup_row: Option<i32>) -> (r: Option<(i32, String)>)
        ensures
            final(self).items == old(self).items,
            final(self).placeholder == old(self).placeholder,
            final(self).base == old(self).base,
            final(self).on_change == old(self).on_change,
            if old(self).is_open {
                &&& !final(self).is_open
                &&& final(self).open_state_initialized == old(self).open_state_initialized
                &&& match popup_row {
                    Some(k) if 0 <= k < old(self).items@.len() => {
                        &&& final(self).selected_index == k
                        &&& r matches Some(ev) && ev.0 == k && ev.1@ == old(self).items@[k as int]@
                    },
                    _ => final(self).selected_index == old(self).selected_index && r is None,
                }
            } else if hovered {
                &&& final(self).is_open
                &&& final(self).open_state_initialized
                &&& final(self).selected_index == old(self).selected_index
                &&& r is None
            } else {
                &&& final(self).is_open == old(self).is_open
                &&& final(self).open_state_initialized == old(self).open_state_initialized
                &&& final(self).selected_index == old(self).selected_index
                &&& r is None
            },
    {
        if self.is_open {
            self.is_open = false;
            match popup_row {
                Some(k) => {
                    if k >= 0 && (k as usize) < self.items.len() {
                        self.selected_index = k;
                        let text = self.items[k as usize].clone();
                        return Some((k, text));
                    }
                    None
                },
                None => None,
            }
        } else {
            if hovered {
                self.is_open = true;
                self.open_state_initialized = true;
            }
            None
        }
    }
}

} // verus!
