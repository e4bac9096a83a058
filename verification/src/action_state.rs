//! Action states and the four predicates the tracker reads from them.
//!
//! An action state is a 16-bit id together with the space it is numbered in.
//! Ids of the common space mean the same for every character; ids of a
//! character's own space, and ids that no space claims, satisfy none of the
//! predicates.

use vstd::prelude::*;

verus! {

/// First id of the hitstun states.
pub const DAMAGE_HI_1: u16 = 75;

/// Last id of the hitstun states.
pub const DAMAGE_FLY_ROLL: u16 = 91;

/// Tumbling after a hit.
pub const DAMAGE_FALL: u16 = 38;

/// First id of the states of a player held in a grab.
pub const CAPTURE_PULLED_HI: u16 = 223;

/// Last id of the states of a player held in a grab.
pub const CAPTURE_FOOT: u16 = 232;

/// First id of the states of a player held by a character's special move.
pub const SHOULDERED_WAIT: u16 = 266;

/// Last id of the states of a player held by a character's special move.
pub const THROWN_MEWTWO_AIR: u16 = 304;

/// First id of the states of a player held by a boss hand.
pub const CAPTURE_MASTER_HAND: u16 = 327;

/// Last id of the states of a player held by a boss hand.
pub const CAPTURE_WAIT_CRAZY_HAND: u16 = 338;

/// Held in a barrel.
pub const BARREL_WAIT: u16 = 293;

/// First id of standing, walking, turning, dashing, running and jump squat.
pub const WAIT: u16 = 14;

/// Last id of standing, walking, turning, dashing, running and jump squat.
pub const KNEE_BEND: u16 = 24;

/// First id of crouching.
pub const SQUAT: u16 = 39;

/// Last id of crouching.
pub const SQUAT_RV: u16 = 41;

/// First id of the grounded attacks.
pub const ATTACK_11: u16 = 44;

/// Last id of the grounded attacks.
pub const ATTACK_LW_4: u16 = 64;

/// Start of a grab.
pub const CATCH: u16 = 212;

/// The space an action-state id is numbered in.
#[derive(Clone, Copy, Debug, PartialEq, Eq, Structural)]
pub enum StateSpace {
    /// Shared by all characters.
    Common,
    /// Owned by one character.
    Character,
    /// Claimed by no known space.
    Unknown,
}

/// An action state: a raw id and the space that gives it its meaning.
#[derive(Clone, Copy, Debug, PartialEq, Eq, Structural)]
pub struct ActionState {
    pub space: StateSpace,
    pub raw_id: u16,
}

/// The player is in hitstun or tumbling.
pub open spec fn damaged(state: ActionState) -> bool {
    state.space == StateSpace::Common && (DAMAGE_HI_1 <= state.raw_id <= DAMAGE_FLY_ROLL
        || state.raw_id == DAMAGE_FALL)
}

/// The player is held in a grab.
pub open spec fn grabbed(state: ActionState) -> bool {
    state.space == StateSpace::Common && CAPTURE_PULLED_HI <= state.raw_id <= CAPTURE_FOOT
}

/// The player is held by a special move, a boss hand or a barrel.
pub open spec fn command_grabbed(state: ActionState) -> bool {
    state.space == StateSpace::Common && (SHOULDERED_WAIT <= state.raw_id <= THROWN_MEWTWO_AIR
        || CAPTURE_MASTER_HAND <= state.raw_id <= CAPTURE_WAIT_CRAZY_HAND
        || state.raw_id == BARREL_WAIT)
}

/// The player stands on the ground and is free to act.
pub open spec fn grounded_actionable(state: ActionState) -> bool {
    state.space == StateSpace::Common && (WAIT <= state.raw_id <= KNEE_BEND
        || SQUAT <= state.raw_id <= SQUAT_RV
        || ATTACK_11 <= state.raw_id <= ATTACK_LW_4
        || state.raw_id == CATCH)
}

/// The state by which a hit shows: damaged, grabbed or command-grabbed.
pub open spec fn hit_state(state: ActionState) -> bool {
    damaged(state) || grabbed(state) || command_grabbed(state)
}

impl ActionState {
    /// A state of the common space.
    pub fn common(raw_id: u16) -> (state: ActionState)
        ensures
            state == (ActionState { space: StateSpace::Common, raw_id }),
    {
        ActionState { space: StateSpace::Common, raw_id }
    }

    /// Whether the id is one of the common space.
    pub fn is_common(&self) -> (b: bool)
        ensures
            b == (self.space == StateSpace::Common),
    {
        match self.space {
            StateSpace::Common => true,
            _ => false,
        }
    }

    /// Whether the player is in hitstun or tumbling.
    pub fn is_damaged(&self) -> (b: bool)
        ensures
            b == damaged(*self),
    {
        let id: u16 = self.raw_id;
        self.is_common() && (DAMAGE_HI_1 <= id && id <= DAMAGE_FLY_ROLL || id == DAMAGE_FALL)
    }

    /// Whether the player is held in a grab.
    pub fn is_grabbed(&self) -> (b: bool)
        ensures
            b == grabbed(*self),
    {
        let id: u16 = self.raw_id;
        self.is_common() && CAPTURE_PULLED_HI <= id && id <= CAPTURE_FOOT
    }

    /// Whether the player is held by a special move, a boss hand or a
    /// barrel.
    pub fn is_command_grabbed(&self) -> (b: bool)
        ensures
            b == command_grabbed(*self),
    {
        let id: u16 = self.raw_id;
        self.is_common() && (SHOULDERED_WAIT <= id && id <= THROWN_MEWTWO_AIR
            || CAPTURE_MASTER_HAND <= id && id <= CAPTURE_WAIT_CRAZY_HAND
            || id == BARREL_WAIT)
    }

    /// Whether the player stands on the ground and is free to act.
    pub fn is_grounded_actionable(&self) -> (b: bool)
        ensures
            b == grounded_actionable(*self),
    {
        let id: u16 = self.raw_id;
        self.is_common() && (WAIT <= id && id <= KNEE_BEND
            || SQUAT <= id && id <= SQUAT_RV
            || ATTACK_11 <= id && id <= ATTACK_LW_4
            || id == CATCH)
    }

    /// Whether a hit shows in this state.
    pub fn is_hit_state(&self) -> (b: bool)
        ensures
            b == hit_state(*self),
    {
        self.is_damaged() || self.is_grabbed() || self.is_command_grabbed()
    }
}

} // verus!
