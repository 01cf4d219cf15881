//! Keyboard events and request modes, as the dashboard interprets them.

use vstd::prelude::*;

verus! {

/// One keyboard event.  Anything the input protocol does not react to is
/// `Other`.
#[derive(Clone, Copy, PartialEq, Eq, Structural, Debug)]
pub enum Key {
    Char(char),
    Enter,
    Backspace,
    Other,
}

/// What kind of answer an input request collects.
#[derive(Clone, Copy, PartialEq, Eq, Structural, Debug)]
pub enum RequestMode {
    /// Collect a visible line of text.
    Line,
    /// Collect text while echoing only mask characters.
    Secret,
    /// Wait for the acknowledgement key alone.
    Acknowledge,
}

} // verus!
