//! Exact HSL to RGB color conversion.
//!
//! Color coordinates are exact rational numbers, so the canonical
//! HSL-to-RGB formula is evaluated without any rounding until the final
//! scaling of each channel to an 8-bit integer.

pub mod hsl;
pub mod ratio;
pub mod rgb;

pub use crate::hsl::Hsl;
pub use crate::ratio::Ratio;
pub use crate::rgb::Rgb;
