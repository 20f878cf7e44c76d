//! Reduction of raw control samples to the per-frame input: each analog
//! axis reading collapses through a dead zone to -1, 0 or 1, and the fire
//! button's level is compared against its previous-frame state to yield a
//! change edge. The surrounding program samples the hardware and hands the
//! raw values in.

use vstd::prelude::*;

verus! {

/// The vertical axis from a raw analog reading: readings inside the dead
/// zone `400..=2500` give 0; below it the stick is pushed one way, above
/// it the other.
pub open spec fn y_axis_of(raw: u16) -> i16 {
    if raw < 400 || raw > 2500 {
        if raw > 2000 {
            -1i16
        } else {
            1i16
        }
    } else {
        0i16
    }
}

/// The horizontal axis from a raw analog reading: the same dead zone, with
/// the signs mirrored.
pub open spec fn x_axis_of(raw: u16) -> i16 {
    if raw < 400 || raw > 2500 {
        if raw > 2000 {
            1i16
        } else {
            -1i16
        }
    } else {
        0i16
    }
}

pub fn y_axis_from_adc(raw: u16) -> (r: i16)
    ensures
        r == y_axis_of(raw),
        -1 <= r <= 1,
{
    if raw < 400 || raw > 2500 {
        if raw > 2000 {
            -1
        } else {
            1
        }
    } else {
        0
    }
}

pub fn x_axis_from_adc(raw: u16) -> (r: i16)
    ensures
        r == x_axis_of(raw),
        -1 <= r <= 1,
{
    if raw < 400 || raw > 2500 {
        if raw > 2000 {
            1
        } else {
            -1
        }
    } else {
        0
    }
}

/// The fire button's new state: its level now, and whether that level
/// changed since the previous frame — the edge a shot triggers on.
pub fn fire_state(prev_on: bool, now_high: bool) -> (r: (bool, bool))
    ensures
        r.0 == now_high,
        r.1 == (now_high != prev_on),
{
    (now_high, now_high != prev_on)
}

} // verus!
