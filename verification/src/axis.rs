//! The frequency axis: where a channel stands on it.
//!
//! Channel `i` stands at `F_MAX - i * (F_SPAN / CHANNELS)`. The library keeps
//! that position exact, as a whole number of ticks, a tick being one
//! `CHANNELS`-th of the frequency unit: the position in ticks, divided by
//! `CHANNELS`, is the frequency.

use crate::frame::CHANNELS;
use vstd::prelude::*;

verus! {

/// The upper edge of the band, where channel 0 stands, in frequency units.
pub const F_MAX: u32 = 1530;

/// The width of the band, in frequency units.
pub const F_SPAN: u32 = 250;

/// Ticks in one frequency unit.
pub const TICKS_PER_UNIT: u32 = 2048;

/// The lower end of the power range that a plot shows at first, in decibels.
pub const Y_LOW: u32 = 45;

/// The upper end of the power range that a plot shows at first, in decibels.
pub const Y_HIGH: u32 = 55;

/// The position of channel `i` on the frequency axis, in ticks.
pub open spec fn x_ticks(i: int) -> int {
    F_MAX * TICKS_PER_UNIT - i * F_SPAN
}

/// The position of channel `i` on the frequency axis, in ticks.
pub fn channel_ticks(i: usize) -> (t: u32)
    requires
        i < CHANNELS,
    ensures
        t == x_ticks(i as int),
{
    F_MAX * TICKS_PER_UNIT - (i as u32) * F_SPAN
}

/// The axis starts at the band's upper edge and ends one step above its
/// lower edge: channel 0 stands at `F_MAX`, and the last channel at
/// `F_MAX - (CHANNELS - 1) * (F_SPAN / CHANNELS)`.
pub proof fn law_axis_ends()
    ensures
        TICKS_PER_UNIT == CHANNELS,
        x_ticks(0) == F_MAX * TICKS_PER_UNIT,
        x_ticks(CHANNELS - 1) == F_MAX * TICKS_PER_UNIT - (CHANNELS - 1) * F_SPAN,
        x_ticks(CHANNELS - 1) > (F_MAX - F_SPAN) * TICKS_PER_UNIT,
{
}

/// Neighbouring channels are `F_SPAN / CHANNELS` apart, which is `F_SPAN`
/// ticks: the steps are all equal.
pub proof fn law_axis_equal_steps(i: int)
    ensures
        x_ticks(i) - x_ticks(i + 1) == F_SPAN,
{
}

/// The position falls strictly as the channel's index rises.
pub proof fn law_axis_strictly_decreasing(i: int, j: int)
    requires
        i < j,
    ensures
        x_ticks(i) > x_ticks(j),
{
    assert(i * F_SPAN < j * F_SPAN) by (nonlinear_arith)
        requires
            i < j,
            F_SPAN > 0,
    ;
}

/// Every channel's position lies within the band and fits the type that
/// carries it.
pub proof fn law_axis_within_band(i: int)
    requires
        0 <= i < CHANNELS,
    ensures
        (F_MAX - F_SPAN) * TICKS_PER_UNIT < x_ticks(i) <= F_MAX * TICKS_PER_UNIT,
        x_ticks(i) <= u32::MAX,
{
}

} // verus!
