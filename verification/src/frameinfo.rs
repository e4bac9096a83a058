//! What the tracker reads of one player on one frame, and the two measures
//! taken between consecutive frames.

use vstd::prelude::*;
use vstd::string::StringExecFns;
use crate::attack::{append_decimal, attack_name, known_name};
use crate::action_state::{
    damaged, grabbed, command_grabbed, grounded_actionable, ActionState,
};

verus! {

/// One player on one frame.
///
/// `percent` is the damage accumulator in a fixed unit that the producer of
/// the snapshots chooses; the tracker compares and subtracts percents and
/// never reads the unit. `last_hit_by` is the slot of the player who last
/// damaged this one; `last_attack_landed` is the code of the move this
/// player last landed.
#[derive(Clone, Copy, Debug, PartialEq, Eq)]
pub struct PlayerFrameSnapshot {
    pub state: ActionState,
    pub percent: u32,
    pub stocks: u8,
    pub last_hit_by: Option<usize>,
    pub last_attack_landed: Option<u8>,
}

/// Damage gained from `previous` to `current`: their difference, and zero
/// where the percent fell.
pub open spec fn damage_between(current: int, previous: int) -> int {
    if current > previous {
        current - previous
    } else {
        0
    }
}

/// A stock was lost from `previous` to `current`.
pub open spec fn stock_lost(current: int, previous: int) -> bool {
    current < previous
}

/// A player's frame as the tracker questions it.
///
/// The three spec functions say what a value stands for; every method is
/// bound to them.
pub trait PlayerFrame {
    spec fn frame_state(&self) -> ActionState;

    spec fn frame_percent(&self) -> u32;

    spec fn frame_stocks(&self) -> u8;

    fn is_damaged(&self) -> (b: bool)
        ensures
            b == damaged(self.frame_state()),
    ;

    fn is_grabbed(&self) -> (b: bool)
        ensures
            b == grabbed(self.frame_state()),
    ;

    fn is_command_grabbed(&self) -> (b: bool)
        ensures
            b == command_grabbed(self.frame_state()),
    ;

    fn is_grounded_actionable(&self) -> (b: bool)
        ensures
            b == grounded_actionable(self.frame_state()),
    ;

    fn percent(&self) -> (p: u32)
        ensures
            p == self.frame_percent(),
    ;

    fn stocks(&self) -> (s: u8)
        ensures
            s == self.frame_stocks(),
    ;

    fn damage_taken(&self, prev_frame: &Self) -> (d: u32)
        ensures
            d == damage_between(self.frame_percent() as int, prev_frame.frame_percent() as int),
    ;

    fn action_state_id(&self) -> (id: u16)
        ensures
            id == self.frame_state().raw_id,
    ;

    fn did_lose_stock(&self, prev_frame: &Self) -> (b: bool)
        ensures
            b == stock_lost(self.frame_stocks() as int, prev_frame.frame_stocks() as int),
    ;
}

impl PlayerFrame for PlayerFrameSnapshot {
    open spec fn frame_state(&self) -> ActionState {
        self.state
    }

    open spec fn frame_percent(&self) -> u32 {
        self.percent
    }

    open spec fn frame_stocks(&self) -> u8 {
        self.stocks
    }

    fn is_damaged(&self) -> (b: bool) {
        self.state.is_damaged()
    }

    fn is_grabbed(&self) -> (b: bool) {
        self.state.is_grabbed()
    }

    fn is_command_grabbed(&self) -> (b: bool) {
        self.state.is_command_grabbed()
    }

    fn is_grounded_actionable(&self) -> (b: bool) {
        self.state.is_grounded_actionable()
    }

    fn percent(&self) -> (p: u32) {
        self.percent
    }

    fn stocks(&self) -> (s: u8) {
        self.stocks
    }

    fn damage_taken(&self, prev_frame: &Self) -> (d: u32) {
        let frame_damage: u32 = self.percent;
        let prev_frame_damage: u32 = prev_frame.percent();
        if frame_damage > prev_frame_damage {
            frame_damage - prev_frame_damage
        } else {
            0
        }
    }

    fn action_state_id(&self) -> (id: u16) {
        self.state.raw_id
    }

    fn did_lose_stock(&self, prev_frame: &Self) -> (b: bool) {
        let frame_stocks: u8 = self.stocks();
        let prev_frame_stocks: u8 = prev_frame.stocks();
        frame_stocks < prev_frame_stocks
    }
}

/// What the move with code `attack` is called: its name where it has
/// one, and `UNNAMED(<code>)` where it has none.
pub fn get_attack_string(attack: u8) -> (name: String)
    ensures
        name@ == attack_name(attack),
{
    match known_name(attack) {
        Some(known) => String::from_str(known),
        None => {
            let text = append_decimal(String::from_str("UNNAMED("), attack);
            let name = text.concat(")");
            assert(name@ =~= "UNNAMED("@ + crate::attack::decimal(attack as nat) + ")"@);
            name
        },
    }
}

} // verus!
