use vstd::prelude::*;

verus! {

/// Easing curve applied to an animation's progress.
#[derive(Debug, Clone, Copy, PartialEq, Eq, Structural)]
pub enum Easing {
    Linear,
    EaseIn,
    EaseOut,
    EaseInOut,
}

impl Default for Easing {
    fn default() -> (e: Self)
        ensures
            e == Easing::EaseInOut,
    {
        Easing::EaseInOut
    }
}

} // verus!
