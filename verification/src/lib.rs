//! Colours in five representations (hexadecimal, RGB, CMYK, HSV and HSL):
//! exact conversions between them, the text format of each, and what a
//! pointer on a widget picks of a component's range.

pub mod constants;
pub mod libs;
pub mod texts;
