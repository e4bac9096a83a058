use conversion_tracker::action_state::{
    ActionState, StateSpace, ATTACK_11, ATTACK_LW_4, BARREL_WAIT, CAPTURE_FOOT,
    CAPTURE_MASTER_HAND, CAPTURE_PULLED_HI, CAPTURE_WAIT_CRAZY_HAND, CATCH, DAMAGE_FALL,
    DAMAGE_FLY_ROLL, DAMAGE_HI_1, KNEE_BEND, SHOULDERED_WAIT, SQUAT, SQUAT_RV, THROWN_MEWTWO_AIR,
    WAIT,
};
use peppi::model::enums::action_state::Common;

fn common(raw_id: u16) -> ActionState {
    ActionState { space: StateSpace::Common, raw_id }
}

#[test]
fn state_ids_are_those_of_the_replay_format() {
    assert_eq!(DAMAGE_HI_1, Common::DAMAGE_HI_1.0);
    assert_eq!(DAMAGE_FLY_ROLL, Common::DAMAGE_FLY_ROLL.0);
    assert_eq!(DAMAGE_FALL, Common::DAMAGE_FALL.0);
    assert_eq!(CAPTURE_PULLED_HI, Common::CAPTURE_PULLED_HI.0);
    assert_eq!(CAPTURE_FOOT, Common::CAPTURE_FOOT.0);
    assert_eq!(SHOULDERED_WAIT, Common::SHOULDERED_WAIT.0);
    assert_eq!(THROWN_MEWTWO_AIR, Common::THROWN_MEWTWO_AIR.0);
    assert_eq!(CAPTURE_MASTER_HAND, Common::CAPTURE_MASTER_HAND.0);
    assert_eq!(CAPTURE_WAIT_CRAZY_HAND, Common::CAPTURE_WAIT_CRAZY_HAND.0);
    assert_eq!(BARREL_WAIT, Common::BARREL_WAIT.0);
    assert_eq!(WAIT, Common::WAIT.0);
    assert_eq!(KNEE_BEND, Common::KNEE_BEND.0);
    assert_eq!(SQUAT, Common::SQUAT.0);
    assert_eq!(SQUAT_RV, Common::SQUAT_RV.0);
    assert_eq!(ATTACK_11, Common::ATTACK_11.0);
    assert_eq!(ATTACK_LW_4, Common::ATTACK_LW_4.0);
    assert_eq!(CATCH, Common::CATCH.0);
}

#[test]
fn common_constructor_sets_the_space() {
    let state = ActionState::common(75);
    assert_eq!(state, ActionState { space: StateSpace::Common, raw_id: 75 });
    assert!(state.is_common());
    assert!(!ActionState { space: StateSpace::Character, raw_id: 75 }.is_common());
    assert!(!ActionState { space: StateSpace::Unknown, raw_id: 75 }.is_common());
}

#[test]
fn damaged_is_the_hitstun_range_and_damage_fall() {
    assert!(!common(74).is_damaged());
    assert!(common(75).is_damaged());
    assert!(common(83).is_damaged());
    assert!(common(91).is_damaged());
    assert!(!common(92).is_damaged());
    assert!(common(38).is_damaged());
    assert!(!common(37).is_damaged());
    assert!(!common(39).is_damaged());
    assert!(!common(0).is_damaged());
    assert!(!common(u16::MAX).is_damaged());
}

#[test]
fn grabbed_is_the_capture_range() {
    assert!(!common(222).is_grabbed());
    assert!(common(223).is_grabbed());
    assert!(common(228).is_grabbed());
    assert!(common(232).is_grabbed());
    assert!(!common(233).is_grabbed());
    assert!(!common(75).is_grabbed());
}

#[test]
fn command_grabbed_is_two_ranges_and_the_barrel() {
    assert!(!common(265).is_command_grabbed());
    assert!(common(266).is_command_grabbed());
    assert!(common(293).is_command_grabbed());
    assert!(common(304).is_command_grabbed());
    assert!(!common(305).is_command_grabbed());
    assert!(!common(326).is_command_grabbed());
    assert!(common(327).is_command_grabbed());
    assert!(common(338).is_command_grabbed());
    assert!(!common(339).is_command_grabbed());
    assert!(!common(340).is_command_grabbed());
    assert!(!common(223).is_command_grabbed());
}

#[test]
fn grounded_actionable_is_three_ranges_and_catch() {
    assert!(!common(13).is_grounded_actionable());
    assert!(common(14).is_grounded_actionable());
    assert!(common(24).is_grounded_actionable());
    assert!(!common(25).is_grounded_actionable());
    assert!(!common(38).is_grounded_actionable());
    assert!(common(39).is_grounded_actionable());
    assert!(common(41).is_grounded_actionable());
    assert!(!common(42).is_grounded_actionable());
    assert!(!common(43).is_grounded_actionable());
    assert!(common(44).is_grounded_actionable());
    assert!(common(64).is_grounded_actionable());
    assert!(!common(65).is_grounded_actionable());
    assert!(!common(211).is_grounded_actionable());
    assert!(common(212).is_grounded_actionable());
    assert!(!common(213).is_grounded_actionable());
}

#[test]
fn hit_state_is_any_of_the_three() {
    assert!(common(75).is_hit_state());
    assert!(common(38).is_hit_state());
    assert!(common(223).is_hit_state());
    assert!(common(266).is_hit_state());
    assert!(common(327).is_hit_state());
    assert!(!common(14).is_hit_state());
    assert!(!common(212).is_hit_state());
    assert!(!common(0).is_hit_state());
}

#[test]
fn ids_outside_the_common_space_satisfy_no_predicate() {
    for space in [StateSpace::Character, StateSpace::Unknown] {
        for raw_id in [14u16, 38, 75, 91, 212, 223, 266, 293, 327, 341, 400] {
            let state = ActionState { space, raw_id };
            assert!(!state.is_damaged());
            assert!(!state.is_grabbed());
            assert!(!state.is_command_grabbed());
            assert!(!state.is_grounded_actionable());
            assert!(!state.is_hit_state());
        }
    }
}

#[test]
fn predicates_partition_every_common_id_as_the_ranges_say() {
    for raw_id in 0u16..=1000 {
        let state = common(raw_id);
        let damaged = (75..=91).contains(&raw_id) || raw_id == 38;
        let grabbed = (223..=232).contains(&raw_id);
        let command = (266..=304).contains(&raw_id) || (327..=338).contains(&raw_id);
        let grounded = (14..=24).contains(&raw_id)
            || (39..=41).contains(&raw_id)
            || (44..=64).contains(&raw_id)
            || raw_id == 212;
        assert_eq!(state.is_damaged(), damaged);
        assert_eq!(state.is_grabbed(), grabbed);
        assert_eq!(state.is_command_grabbed(), command);
        assert_eq!(state.is_grounded_actionable(), grounded);
        assert_eq!(state.is_hit_state(), damaged || grabbed || command);
    }
}
