//! From accumulated light to the bytes of a pixel.
use crate::fixed::{Fixed, SCALE};
use crate::utility_funcs::{clamp, clamp_spec};
use crate::vec3::Color;
use vstd::prelude::*;

verus! {

/// The byte of one colour channel: the sum `channel` of
/// `samples_per_pixel` samples is averaged, gamma-corrected by a square
/// root, limited to `[0, 0.999]`, multiplied by 256 and rounded down.
pub open spec fn channel_byte(channel: Fixed, samples_per_pixel: Fixed) -> u32 {
    let scale = Fixed::int_spec(1).over(samples_per_pixel);
    let corrected = scale.times(channel).sqrt_spec();
    let limited = clamp_spec(corrected, Fixed::int_spec(0), Fixed::ratio_spec(999, 1000));
    (Fixed::int_spec(256).times(limited)@ / (SCALE as int)) as u32
}

/// The byte of one channel for the given reciprocal of the sample count.
fn byte_of(channel: Fixed, scale: Fixed) -> (byte: u32)
    ensures
        byte == (Fixed::int_spec(256).times(
            clamp_spec(
                scale.times(channel).sqrt_spec(),
                Fixed::int_spec(0),
                Fixed::ratio_spec(999, 1000),
            ),
        )@ / (SCALE as int)) as u32,
        byte <= 255,
{
    let corrected = (scale * channel).sqrt();
    let limited = clamp(corrected, Fixed::zero(), Fixed::ratio(999, 1000));
    let scaled = Fixed::from_int(256) * limited;
    proof {
        lemma_byte_range(limited);
    }
    (scaled.raw / SCALE) as u32
}

/// The red, green and blue bytes of a pixel whose channels hold the sums
/// of `samples_per_pixel` samples.
pub fn write_color(pixel_color: Color, samples_per_pixel: Fixed) -> (rgb: (u32, u32, u32))
    ensures
        rgb.0 == channel_byte(pixel_color.0, samples_per_pixel),
        rgb.1 == channel_byte(pixel_color.1, samples_per_pixel),
        rgb.2 == channel_byte(pixel_color.2, samples_per_pixel),
        rgb.0 <= 255 && rgb.1 <= 255 && rgb.2 <= 255,
{
    let scale = Fixed::one() / samples_per_pixel;
    (
        byte_of(pixel_color.x(), scale),
        byte_of(pixel_color.y(), scale),
        byte_of(pixel_color.z(), scale),
    )
}

/// 256 times a number of `[0, 0.999]` lies in `[0, 256)`.
proof fn lemma_byte_range(limited: Fixed)
    requires
        0 <= limited@ <= Fixed::ratio_spec(999, 1000)@,
    ensures
        0 <= Fixed::int_spec(256).times(limited)@ < 256 * SCALE,
{
    assert(Fixed::ratio_spec(999, 1000)@ < SCALE) by {
        lemma_ratio_999();
    }
    let k = 256 * limited@;
    assert(Fixed::int_spec(256)@ * limited@ == SCALE * k) by (nonlinear_arith)
        requires
            Fixed::int_spec(256)@ == 256 * SCALE,
            k == 256 * limited@,
    ;
    vstd::arithmetic::div_mod::lemma_div_multiples_vanish(k, SCALE as int);
}

/// The raw value of 0.999.
proof fn lemma_ratio_999()
    ensures
        Fixed::ratio_spec(999, 1000)@ == 16760438,
{
    assert(281193501733945344int / 16777216000int == 16760438);
}

} // verus!
