use vstd::prelude::*;

verus! {

/// The page that demonstrates row, column and flex layout.
pub struct LayoutPage;

} // verus!
