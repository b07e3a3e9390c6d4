//! Borderless-window chrome: which caption buttons the custom title bar
//! shows. The painting itself lives in the binary.

use vstd::prelude::*;

verus! {

#[derive(Debug, Clone, Copy, PartialEq, Eq, Structural)]
pub enum CaptionIcon {
    Minimize,
    Maximize,
    Restore,
    Close,
}

impl CaptionIcon {
    /// The middle caption button: "restore" while maximized, otherwise
    /// "maximize".
    pub fn for_maximize_button(maximized: bool) -> (r: CaptionIcon)
        ensures
            r == (if maximized {
                CaptionIcon::Restore
            } else {
                CaptionIcon::Maximize
            }),
    {
        if maximized {
            CaptionIcon::Restore
        } else {
            CaptionIcon::Maximize
        }
    }
}

} // verus!
