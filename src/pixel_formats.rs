//! Pixel-format constants and conversions between byte layouts.
pub mod rgb_888;
