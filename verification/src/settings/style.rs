//! Theme-derived shades that are exact in integers: brightening a color by a
//! fixed step, telling light backgrounds from dark ones, and stepping a
//! background toward a raised surface. The binary turns
//! these into toolkit colors and derives the float-based shades itself.

use vstd::prelude::*;

use crate::theme::luma_milli;

verus! {

/// One channel moved by `add`, clamped to 0..=255.
pub open spec fn lift_channel(v: u8, add: i16) -> u8 {
    let x = v as int + add as int;
    if x < 0 {
        0
    } else if x > 255 {
        255
    } else {
        x as u8
    }
}

fn lift_one(v: u8, add: i16) -> (r: u8)
    ensures
        r == lift_channel(v, add),
{
    let x: i32 = (v as i32) + (add as i32);
    if x < 0 {
        0
    } else if x > 255 {
        255
    } else {
        x as u8
    }
}

/// Lighten (or darken with a negative `add`) a theme color by a fixed amount.
pub fn lift(c: [u8; 3], add: i16) -> (r: [u8; 3])
    ensures
        r[0] == lift_channel(c[0], add),
        r[1] == lift_channel(c[1], add),
        r[2] == lift_channel(c[2], add),
{
    [lift_one(c[0], add), lift_one(c[1], add), lift_one(c[2], add)]
}

/// A background counts as light when its luma exceeds 128 (of 255): raised
/// surfaces then get darker instead of lighter, and the mascot wears dark ink.
pub fn is_light(c: [u8; 3]) -> (r: bool)
    ensures
        r == (luma_milli(c) > 128_000),
{
    let l: u32 = 299 * (c[0] as u32) + 587 * (c[1] as u32) + 114 * (c[2] as u32);
    l > 128_000
}

/// The signed step that raises a surface above background `bg`: toward
/// black on a light background, toward white on a dark one.
pub open spec fn raise_step(bg: [u8; 3], amount: u8) -> int {
    if luma_milli(bg) > 128_000 {
        -(amount as int)
    } else {
        amount as int
    }
}

/// A raised surface `amount` steps away from the background: on dark themes
/// raised surfaces get lighter, on light themes darker.
pub fn raised(bg: [u8; 3], amount: u8) -> (r: [u8; 3])
    ensures
        r[0] == lift_channel(bg[0], raise_step(bg, amount) as i16),
        r[1] == lift_channel(bg[1], raise_step(bg, amount) as i16),
        r[2] == lift_channel(bg[2], raise_step(bg, amount) as i16),
{
    let a: i16 = amount as i16;
    if is_light(bg) {
        lift(bg, -a)
    } else {
        lift(bg, a)
    }
}

} // verus!
