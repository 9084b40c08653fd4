//! The errors of the crate under one type.

use crate::frame::FrameError;
use crate::rabbit::SpriteError;
use crate::time::ClockError;
use vstd::prelude::*;
use vstd::std_specs::convert::FromSpecImpl;

verus! {

/// Anything that can go wrong in this crate.
#[derive(Debug)]
pub enum Error {
    Frame(FrameError),
    Sprite(SpriteError),
    Clock(ClockError),
}

impl Error {
    /// What the error says: what the error inside it says.
    pub open spec fn text(self) -> Seq<char> {
        match self {
            Error::Frame(err) => err.text(),
            Error::Sprite(err) => err.text(),
            Error::Clock(err) => err.text(),
        }
    }

    /// What the error says.
    pub fn message(&self) -> (text: String)
        ensures
            text@ == self.text(),
    {
        match self {
            Error::Frame(err) => err.message(),
            Error::Sprite(err) => err.message(),
            Error::Clock(err) => err.message(),
        }
    }
}

impl From<FrameError> for Error {
    fn from(value: FrameError) -> (error: Error) {
        Error::Frame(value)
    }
}

impl FromSpecImpl<FrameError> for Error {
    open spec fn obeys_from_spec() -> bool {
        true
    }

    open spec fn from_spec(value: FrameError) -> Error {
        Error::Frame(value)
    }
}

impl From<SpriteError> for Error {
    fn from(value: SpriteError) -> (error: Error) {
        Error::Sprite(value)
    }
}

impl FromSpecImpl<SpriteError> for Error {
    open spec fn obeys_from_spec() -> bool {
        true
    }

    open spec fn from_spec(value: SpriteError) -> Error {
        Error::Sprite(value)
    }
}

impl From<ClockError> for Error {
    fn from(value: ClockError) -> (error: Error) {
        Error::Clock(value)
    }
}

impl FromSpecImpl<ClockError> for Error {
    open spec fn obeys_from_spec() -> bool {
        true
    }

    open spec fn from_spec(value: ClockError) -> Error {
        Error::Clock(value)
    }
}

} // verus!
