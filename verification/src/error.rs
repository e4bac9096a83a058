//! The ways in which a stream of frames can break the tracker's input
//! contract.

use vstd::prelude::*;

verus! {

/// A malformed input, told to the caller at the frame where it shows.
#[derive(Clone, Copy, Debug, PartialEq, Eq, Structural)]
pub enum ScanError {
    /// Frame `frame` holds `found` snapshots where the match has `expected`
    /// players.
    FrameSize { frame: usize, expected: usize, found: usize },
    /// `victim` is no slot of the frame.
    VictimOutOfRange { frame: usize, victim: usize },
    /// On frame `frame` a hit on `victim` names `attacker`, which is no slot
    /// of the match.
    AttackerOutOfRange { frame: usize, victim: usize, attacker: usize },
}

} // verus!
