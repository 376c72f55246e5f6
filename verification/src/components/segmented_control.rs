use vstd::prelude::*;
use crate::ui::node::{NodeBase, is_fresh};

verus! {

/// A segmented selector's configuration: its items, the selected index and the
/// change callback.
pub struct SegmentedControlNode<Cb> {
    pub base: NodeBase,
    pub items: Vec<String>,
    pub selected_index: i32,
    pub on_change: Option<Cb>,
}

impl<Cb> SegmentedControlNode<Cb> {
    /// A fresh selector: no items, index 0, no callback.
    pub fn new(key: String) -> (n: Self)
        ensures
            n.base.key@ == key@,
            is_fresh(n.base),
            n.items@.len() == 0,
            n.selected_index == 0,
            n.on_change is None,
    {
        SegmentedControlNode { base: NodeBase::new(key), items: Vec::new(), selected_index: 0, on_change: None }
    }
}

/// `x` clamped to `[lo, hi]`.
pub open spec fn clamp_int(x: int, lo: int, hi: int) -> int {
    if x < lo { lo } else if x > hi { hi } else { x }
}

impl<Cb> SegmentedControlNode<Cb> {
    /// Handles a click on the control that landed on segment `raw_index` (as
    /// measured, so possibly outside the items). The index is clamped to the
    /// items; when it differs from the selection it becomes the selection and its
    /// index and text are returned for the change callback. Without items nothing
    /// happens.
    pub fn handle_click(&mut self, raw_index: i32) -> (r: Option<(i32, String)>)
        requires
            old(self).items@.len() <= i32::MAX,
        ensures
            final(self).items == old(self).items,
            final(self).base == old(self).base,
            final(self).on_change == old(self).on_change,
            ({
                let n = old(self).items@.len() as int;
                let k = clamp_int(raw_index as int, 0, n - 1);
                if n > 0 && k != old(self).selected_index {
                    &&& final(self).selected_index == k
                    &&& r matches Some(ev) && ev.0 == k && ev.1@ == old(self).items@[k]@
                } else {
                    &&& final(self).selected_index == old(self).selected_index
                    &&& r is None
                }
            }),
    {
        let n = self.items.len();
        if n == 0 {
            return None;
        }
        let hi: i32 = (n - 1) as i32;
        let k: i32 = if raw_index < 0 { 0 } else if raw_index > hi { hi } else { raw_index };
        if k != self.selected_index {
            self.selected_index = k;
            let text = self.items[k as usize].clone();
            return Some((k, text));
        }
        None
    }
}

} // verus!
