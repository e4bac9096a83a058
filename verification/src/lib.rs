//! Detection of conversions in a fighting-game match: contiguous punish
//! sequences in which one player keeps hitting, grabbing or killing another
//! before the victim recovers.
//!
//! The input is a sequence of frames, each holding one snapshot per player.
//! The output is the list of conversions, in the order in which they close.

pub mod action_state;
pub mod attack;
pub mod conversion;
pub mod error;
pub mod frameinfo;
pub mod laws;
pub mod tracker;
