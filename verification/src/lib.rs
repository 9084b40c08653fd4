//! A small ASCII sprite animated inside a fixed-size character grid.
//!
//! The rasterizer in [`ascii`] reads a block of ASCII art and shrinks it with
//! a box filter over a fixed density ramp. [`frame`] is the grid of cells that
//! everything is drawn on, and [`stamp`] writes rows of characters on it.
//! [`motion`] keeps a position in nanocells, so that many small steps add up
//! without drift, and [`rabbit`] is the sprite that moves and cycles through
//! its frames. [`renderer`] turns a frame into the bytes that paint it on a
//! terminal, [`time`] is the frame clock, and [`app`] puts the parts together
//! into one step of the animation.
//!
//! Each type has a mathematical view, each function says in its contract what
//! it does to that view, and the laws that hold between the functions are
//! proved beside them.

pub mod actor;
pub mod app;
pub mod ascii;
pub mod error;
pub mod frame;
pub mod motion;
pub mod rabbit;
pub mod renderer;
pub mod stamp;
pub mod text;
pub mod time;

pub use app::{AnimalKind, App, AppConfig};
