//! Side-by-side composition of two photographs: orientation correction from
//! the EXIF orientation tag, proportional resizing to a common edge, placement
//! on one canvas with a margin, and a final scale to a requested width.

pub mod bitmap;
pub mod codec;
pub mod layout;
pub mod orientation;
pub mod transform;
