//! What the animation loop asks of anything that it animates.

use crate::frame::Frame;
use vstd::prelude::*;

verus! {

/// Something that changes as time passes and draws itself on a frame.
pub trait Actor {
    /// Lets `nanos` nanoseconds pass.
    fn update(&mut self, nanos: u128);

    /// Draws on `frame`, which keeps its size.
    fn render(&self, frame: &mut Frame)
        ensures
            final(frame)@.width == old(frame)@.width,
            final(frame)@.height == old(frame)@.height,
    ;
}

} // verus!
