//! The floating Theme window's state: whether it is open.

use vstd::prelude::*;

verus! {

pub struct ThemeWindow {
    pub open: bool,
}

impl ThemeWindow {
    pub fn new() -> (r: Self)
        ensures
            !r.open,
    {
        ThemeWindow { open: false }
    }
}

} // verus!
