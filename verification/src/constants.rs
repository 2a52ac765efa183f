//! The documented range of each colour component.

use vstd::prelude::*;

verus! {

/// The largest hue, in degrees.
pub const MAX_H: u32 = 360;

/// The largest saturation, value or lightness, in percent.
pub const MAX_SVL: u32 = 100;

/// The smallest hue, saturation, value or lightness.
pub const MIN_HSV: u32 = 0;

/// The smallest red, green or blue channel.
pub const MIN_RGB: u32 = 0;

/// The largest red, green or blue channel.
pub const MAX_RGB: u32 = 255;

/// The smallest share of an ink, in percent.
pub const MIN_CMYK: u32 = 0;

/// The largest share of an ink, in percent.
pub const MAX_CMYK: u32 = 100;

/// The largest number that the text formats can hold: three digits.
pub const MAX_TEXT: u32 = 999;

/// The degree sign that follows a hue.
pub const DEGREE: char = '\u{b0}';

} // verus!
