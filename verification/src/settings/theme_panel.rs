//! The theme drawer's state and its opacity rule: opacity is edited in
//! whole percent, floored at 30 so the window cannot vanish. Its preset
//! cards are the gallery of `theme::presets()`, applied with
//! `Theme::apply_palette`, so a preset never touches window behavior.

use vstd::prelude::*;

verus! {

pub struct ThemePanel {
    pub open: bool,
}

/// The opacity slider's percent for a stored opacity:
/// round(opacity / 2.55), clamped to 30..=100.
pub open spec fn percent_of(opacity: int) -> int {
    let p = (opacity * 200 + 255) / 510;
    if p < 30 {
        30
    } else if p > 100 {
        100
    } else {
        p
    }
}

/// The stored opacity for a slider percent: round(percent * 2.55), at most 255.
pub open spec fn opacity_of(percent: int) -> int {
    let o = (percent * 510 + 100) / 200;
    if o > 255 {
        255
    } else {
        o
    }
}

impl ThemePanel {
    pub fn new() -> (r: Self)
        ensures
            !r.open,
    {
        ThemePanel { open: false }
    }

    /// The header's theme button: open a closed drawer, close an open one.
    pub fn toggle(&mut self)
        ensures
            final(self).open == !old(self).open,
    {
        self.open = !self.open;
    }
}

/// The slider position for a stored opacity.
pub fn opacity_percent(window_opacity: u8) -> (r: u8)
    ensures
        r as int == percent_of(window_opacity as int),
        30 <= r <= 100,
{
    let p: u32 = ((window_opacity as u32) * 200 + 255) / 510;
    if p < 30 {
        30
    } else if p > 100 {
        100
    } else {
        p as u8
    }
}

/// The stored opacity for a slider position.
pub fn opacity_from_percent(percent: u8) -> (r: u8)
    ensures
        r as int == opacity_of(percent as int),
{
    let o: u32 = ((percent as u32) * 510 + 100) / 200;
    if o > 255 {
        255
    } else {
        o as u8
    }
}

/// Moving the slider to a percent and reading it back gives that percent:
/// the stored opacity never drifts the slider.
pub proof fn law_opacity_percent_round_trip(percent: int)
    requires
        30 <= percent <= 100,
    ensures
        percent_of(opacity_of(percent)) == percent,
{
    let o = (percent * 510 + 100) / 200;
    assert(o <= 255);
    assert(percent_of(o) == percent) by (nonlinear_arith)
        requires
            o == (percent * 510 + 100) / 200,
            30 <= percent <= 100,
    ;
}

} // verus!
