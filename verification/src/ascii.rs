//! The rasterizer: reading ASCII art into rows of characters, fitting its
//! size into given bounds, and shrinking it with a box filter over the
//! density ramp.

pub mod parse;
pub mod ramp;
pub mod sample;
pub mod size;

pub use parse::parse_ascii_art;
pub use ramp::{density_char, density_index};
pub use sample::downsample;
pub use size::{dimensions, fit_dimensions};
