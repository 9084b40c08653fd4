//! The frame clock: how long a frame lasts at a given rate, and how much
//! time has passed since the last tick.

use crate::text::{decimal, decimal_string};
use std::time::{Duration, Instant};
use vstd::prelude::*;

verus! {

/// A moment on the monotonic clock of the standard library. Nothing is known
/// of what such a value holds.
#[verifier::external_type_specification]
#[verifier::external_body]
pub struct ExInstant(std::time::Instant);

/// `Instant::now` of the standard library, which reads the monotonic clock.
/// Nothing is claimed of the moment that it gives.
pub assume_specification[ std::time::Instant::now ]() -> (now: Instant);

/// `Instant::duration_since` of the standard library, which gives the time
/// from `earlier` to this moment, and no time at all where `earlier` is the
/// later of the two. Nothing is claimed of the time that it gives.
pub assume_specification[ std::time::Instant::duration_since ](
    later: &Instant,
    earlier: Instant,
) -> (elapsed: Duration);

/// `Duration::as_nanos` of the standard library, which gives a span of time
/// in nanoseconds. Nothing is claimed of the number that it gives.
pub assume_specification[ std::time::Duration::as_nanos ](span: &Duration) -> (nanos: u128);

/// The nanoseconds of one second.
pub const NANOS_PER_SECOND: u64 = 1_000_000_000;

/// Why a clock could not be made.
#[derive(Debug, Clone, PartialEq, Eq)]
pub enum ClockError {
    InvalidFps { fps: u32 },
}

impl ClockError {
    /// What the error says.
    pub open spec fn text(self) -> Seq<char> {
        match self {
            ClockError::InvalidFps { fps } => "invalid fps: "@ + decimal(fps as nat),
        }
    }

    /// What the error says.
    pub fn message(&self) -> (text: String)
        ensures
            text@ == self.text(),
    {
        match self {
            ClockError::InvalidFps { fps } => {
                let mut text = "invalid fps: ".to_owned();
                text.append(decimal_string(*fps as u64).as_str());
                text
            },
        }
    }
}

/// A clock that knows how long a frame lasts and when it last ticked.
#[derive(Debug)]
pub struct Clock {
    frame_nanos: u64,
    last_tick: Instant,
}

impl Clone for Clock {
    fn clone(&self) -> (clock: Clock)
        ensures
            clock == *self,
    {
        Clock { frame_nanos: self.frame_nanos, last_tick: self.last_tick }
    }
}

impl Clock {
    /// The nanoseconds that a frame lasts.
    pub closed spec fn frame_nanos(&self) -> nat {
        self.frame_nanos as nat
    }

    /// A clock for `fps` frames each second, which last ticked now. A rate of
    /// no frames at all is refused.
    pub fn from_fps(fps: u32) -> (r: Result<Clock, ClockError>)
        ensures
            fps == 0 ==> r == Err::<Clock, ClockError>(ClockError::InvalidFps { fps }),
            fps > 0 ==> r is Ok && r->Ok_0.frame_nanos() == NANOS_PER_SECOND as nat / fps as nat,
    {
        if fps == 0 {
            return Err(ClockError::InvalidFps { fps });
        }
        let frame_nanos: u64 = NANOS_PER_SECOND / (fps as u64);
        Ok(Clock { frame_nanos, last_tick: Instant::now() })
    }

    /// The nanoseconds that a frame lasts.
    pub fn frame_duration(&self) -> (nanos: u64)
        ensures
            nanos == self.frame_nanos(),
    {
        self.frame_nanos
    }

    /// The nanoseconds since the last tick, or since the clock was made.
    /// The clock ticks now.
    pub fn tick(&mut self) -> (nanos: u128)
        ensures
            final(self).frame_nanos() == old(self).frame_nanos(),
    {
        let now = Instant::now();
        let elapsed = now.duration_since(self.last_tick);
        self.last_tick = now;
        elapsed.as_nanos()
    }
}

} // verus!
