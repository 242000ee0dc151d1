//! A Monte Carlo ray tracer's integer core: 8-bit colours, the gamma curve,
//! sample averaging and attenuation, nearest-hit selection, the depth-bounded
//! path colour and the portable pixmap encoding of an image.

pub use color::Color;
pub use image::Image;

pub mod color;
pub mod hittable;
pub mod image;
pub mod material;
pub mod trace;
