//! The header deck's events. The deck is stateless: what the user asked
//! for leaves it as a `HeaderOutput`, which the settings state applies.

use vstd::prelude::*;

verus! {

#[must_use]
pub struct HeaderOutput {
    /// The app pushes a blank snippet. Deliberately not committed: a blank
    /// row is only persisted on its first edit or toggle.
    pub add_snippet: bool,
    /// The app flips the theme drawer open or closed.
    pub toggle_theme: bool,
}

impl HeaderOutput {
    /// Nothing was clicked.
    pub fn none() -> (r: HeaderOutput)
        ensures
            !r.add_snippet,
            !r.toggle_theme,
    {
        HeaderOutput { add_snippet: false, toggle_theme: false }
    }
}

} // verus!
