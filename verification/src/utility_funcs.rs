//! Small numeric helpers.
use crate::fixed::Fixed;
use vstd::prelude::*;

verus! {

/// Raw value of the number nearest to pi.
pub const PI_RAW: i64 = 52707179;

/// `x` limited to the interval from `min` to `max`: `min` where `x` is below
/// it, else `max` where `x` is above it, else `x`.
pub open spec fn clamp_spec(x: Fixed, min: Fixed, max: Fixed) -> Fixed {
    if x@ < min@ {
        min
    } else if x@ > max@ {
        max
    } else {
        x
    }
}

/// The angle of `degrees` degrees in radians: `degrees * pi / 180`.
pub open spec fn degrees_to_radians_spec(degrees: Fixed) -> Fixed {
    degrees.times(Fixed { raw: PI_RAW }).over(Fixed::int_spec(180))
}

pub fn clamp(x: Fixed, min: Fixed, max: Fixed) -> (r: Fixed)
    ensures
        r == clamp_spec(x, min, max),
{
    if x.raw < min.raw {
        min
    } else if x.raw > max.raw {
        max
    } else {
        x
    }
}

pub fn degrees_to_radians(degrees: Fixed) -> (r: Fixed)
    ensures
        r == degrees_to_radians_spec(degrees),
{
    degrees * Fixed::from_raw(PI_RAW) / Fixed::from_int(180)
}

} // verus!
