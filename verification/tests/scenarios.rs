use conversion_tracker::action_state::{ActionState, StateSpace};
use conversion_tracker::conversion::{AttackEvent, ConversionRecord, Frame};
use conversion_tracker::error::ScanError;
use conversion_tracker::frameinfo::PlayerFrameSnapshot;
use conversion_tracker::tracker::{find_conversions, ConversionTracker, RECOVERY_WINDOW};

const STANDING: u16 = 14;
const AIRBORNE: u16 = 25;
const HITSTUN: u16 = 75;
const HELD: u16 = 223;

fn player(raw_id: u16, percent: u32, stocks: u8) -> PlayerFrameSnapshot {
    PlayerFrameSnapshot {
        state: ActionState { space: StateSpace::Common, raw_id },
        percent,
        stocks,
        last_hit_by: None,
        last_attack_landed: None,
    }
}

fn hit_by(mut victim: PlayerFrameSnapshot, attacker: usize) -> PlayerFrameSnapshot {
    victim.last_hit_by = Some(attacker);
    victim
}

fn landed(mut attacker: PlayerFrameSnapshot, move_code: u8) -> PlayerFrameSnapshot {
    attacker.last_attack_landed = Some(move_code);
    attacker
}

fn frame(ports: Vec<PlayerFrameSnapshot>) -> Frame {
    Frame { ports }
}

/// Player 1 is hit by player 0 on frame 5 from 0 to 10 percent, stands on
/// frame 10, and is otherwise in the air up to frame `last`.
fn one_hit_then_quiet(last: usize) -> Vec<Frame> {
    let mut frames = Vec::new();
    for i in 0..=last {
        let attacker = landed(player(STANDING, 0, 4), 13);
        let victim = if i < 5 {
            player(AIRBORNE, 0, 4)
        } else if i == 5 {
            hit_by(player(HITSTUN, 10, 4), 0)
        } else if i == 10 {
            hit_by(player(STANDING, 10, 4), 0)
        } else {
            hit_by(player(AIRBORNE, 10, 4), 0)
        };
        frames.push(frame(vec![attacker, victim]));
    }
    frames
}

#[test]
fn ten_quiet_frames_give_no_conversion() {
    let mut frames = Vec::new();
    for i in 0..10u32 {
        frames.push(frame(vec![
            player(STANDING, 0, 4),
            player(AIRBORNE, i, 4),
            player(0, 40, 3),
            player(212, 7, 1),
        ]));
    }
    assert_eq!(find_conversions(&frames, 4), Ok(vec![]));
}

#[test]
fn no_frame_gives_no_conversion() {
    assert_eq!(find_conversions(&vec![], 2), Ok(vec![]));
    assert_eq!(find_conversions(&vec![], 0), Ok(vec![]));
}

#[test]
fn a_match_without_players_gives_no_conversion() {
    let frames = vec![frame(vec![]), frame(vec![]), frame(vec![])];
    assert_eq!(find_conversions(&frames, 0), Ok(vec![]));
}

#[test]
fn one_hit_closes_after_the_recovery_window() {
    let records = find_conversions(&one_hit_then_quiet(51), 2).unwrap();
    assert_eq!(records.len(), 1);
    let record = &records[0];
    assert_eq!(record.disadvantage_player(), 1);
    assert_eq!(record.advantage_player(), Some(0));
    assert_eq!(record.start_frame(), 5);
    assert_eq!(record.end_frame(), 51);
    assert_eq!(record.context.start_percent, 0);
    assert_eq!(record.end_percent, 10);
    assert_eq!(record.damage_dealt(), 10);
    assert_eq!(record.context.frames_since_last_hit, 46);
    assert!(record.context.has_recovered);
    assert_eq!(
        record.attacks(),
        &vec![AttackEvent { attacking_player: Some(0), move_code: Some(13), frame_index: 5 }]
    );
}

#[test]
fn the_recovery_window_is_forty_five_frames() {
    assert_eq!(RECOVERY_WINDOW, 45);
    // On frame 50 the timer stands at 45, which is not more than the window.
    assert_eq!(find_conversions(&one_hit_then_quiet(50), 2), Ok(vec![]));
    assert_eq!(find_conversions(&one_hit_then_quiet(51), 2).unwrap().len(), 1);
    // Later frames add nothing.
    let later = find_conversions(&one_hit_then_quiet(200), 2).unwrap();
    assert_eq!(later.len(), 1);
    assert_eq!(later[0].end_frame(), 51);
}

#[test]
fn a_victim_who_never_recovers_keeps_the_conversion_open() {
    let mut frames = Vec::new();
    for i in 0..300usize {
        let victim = if i == 0 { player(AIRBORNE, 0, 4) } else { player(HITSTUN, 10, 4) };
        frames.push(frame(vec![player(STANDING, 0, 4), victim]));
    }
    let mut tracker = ConversionTracker::new(2);
    for f in &frames {
        assert_eq!(tracker.observe(f), Ok(()));
    }
    assert_eq!(tracker.records().len(), 0);
    let context = tracker.active_context(1).unwrap();
    assert_eq!(context.start_frame, 1);
    assert_eq!(context.frames_since_last_hit, 298);
    assert!(!context.has_recovered);
    assert_eq!(find_conversions(&frames, 2), Ok(vec![]));
}

#[test]
fn recovery_late_closes_on_the_frame_it_shows() {
    // Hit on frame 1, in the air until frame 99, standing on frame 100.
    let mut frames = Vec::new();
    for i in 0..=100usize {
        let victim = if i == 0 {
            player(AIRBORNE, 0, 4)
        } else if i == 1 {
            player(HITSTUN, 10, 4)
        } else if i == 100 {
            player(STANDING, 10, 4)
        } else {
            player(AIRBORNE, 10, 4)
        };
        frames.push(frame(vec![player(STANDING, 0, 4), victim]));
    }
    let records = find_conversions(&frames, 2).unwrap();
    assert_eq!(records.len(), 1);
    assert_eq!(records[0].start_frame(), 1);
    assert_eq!(records[0].end_frame(), 100);
    assert_eq!(records[0].context.frames_since_last_hit, 99);
    assert_eq!(records[0].advantage_player(), None);
}

#[test]
fn a_lost_stock_closes_the_conversion_on_that_frame() {
    let frames = vec![
        frame(vec![player(STANDING, 0, 4), player(AIRBORNE, 80, 2)]),
        frame(vec![landed(player(STANDING, 0, 4), 10), hit_by(player(HITSTUN, 95, 2), 0)]),
        frame(vec![player(STANDING, 0, 4), hit_by(player(HITSTUN, 95, 2), 0)]),
        frame(vec![player(STANDING, 0, 4), hit_by(player(0, 0, 1), 0)]),
        frame(vec![player(STANDING, 0, 4), player(0, 0, 1)]),
    ];
    let records = find_conversions(&frames, 2).unwrap();
    assert_eq!(records.len(), 1);
    let record = &records[0];
    assert_eq!(record.disadvantage_player(), 1);
    assert_eq!(record.start_frame(), 1);
    assert_eq!(record.end_frame(), 3);
    assert_eq!(record.context.start_percent, 80);
    assert_eq!(record.end_percent, 0);
    assert_eq!(record.damage_dealt(), -80);
    assert_eq!(record.context.frames_since_last_hit, 2);
    assert!(!record.context.has_recovered);
    assert_eq!(record.attacks().len(), 1);
}

#[test]
fn a_lost_stock_closes_even_on_a_frame_with_a_new_hit() {
    let frames = vec![
        frame(vec![player(STANDING, 0, 4), player(AIRBORNE, 10, 2)]),
        frame(vec![landed(player(STANDING, 0, 4), 10), hit_by(player(HITSTUN, 20, 2), 0)]),
        frame(vec![landed(player(STANDING, 0, 4), 11), hit_by(player(HITSTUN, 30, 1), 0)]),
    ];
    let records = find_conversions(&frames, 2).unwrap();
    assert_eq!(records.len(), 1);
    assert_eq!(records[0].end_frame(), 2);
    assert_eq!(records[0].end_percent, 30);
    assert_eq!(records[0].attacks().len(), 1);
}

#[test]
fn the_first_attacker_stays_the_advantage_player() {
    let frames = vec![
        frame(vec![
            player(AIRBORNE, 0, 4),
            player(STANDING, 0, 4),
            player(STANDING, 0, 4),
            player(STANDING, 0, 4),
        ]),
        frame(vec![
            hit_by(player(HITSTUN, 10, 4), 1),
            landed(player(STANDING, 0, 4), 7),
            player(STANDING, 0, 4),
            player(STANDING, 0, 4),
        ]),
        frame(vec![
            hit_by(player(HITSTUN, 10, 4), 1),
            player(STANDING, 0, 4),
            player(STANDING, 0, 4),
            player(STANDING, 0, 4),
        ]),
        frame(vec![
            hit_by(player(HITSTUN, 25, 4), 3),
            player(STANDING, 0, 4),
            player(STANDING, 0, 4),
            landed(player(STANDING, 0, 4), 17),
        ]),
        frame(vec![
            hit_by(player(0, 0, 3), 3),
            player(STANDING, 0, 4),
            player(STANDING, 0, 4),
            player(STANDING, 0, 4),
        ]),
    ];
    let records = find_conversions(&frames, 4).unwrap();
    assert_eq!(records.len(), 1);
    let record = &records[0];
    assert_eq!(record.advantage_player(), Some(1));
    assert_eq!(record.disadvantage_player(), 0);
    assert_eq!(
        record.attacks(),
        &vec![
            AttackEvent { attacking_player: Some(1), move_code: Some(7), frame_index: 1 },
            AttackEvent { attacking_player: Some(3), move_code: Some(17), frame_index: 3 },
        ]
    );
    assert_eq!(record.start_frame(), 1);
    assert_eq!(record.end_frame(), 4);
}

#[test]
fn an_unknown_first_attacker_is_replaced_by_the_first_known_one() {
    let frames = vec![
        frame(vec![player(AIRBORNE, 0, 4), player(STANDING, 0, 4), player(STANDING, 0, 4)]),
        frame(vec![player(HITSTUN, 5, 4), player(STANDING, 0, 4), player(STANDING, 0, 4)]),
        frame(vec![
            hit_by(player(HITSTUN, 9, 4), 2),
            player(STANDING, 0, 4),
            landed(player(STANDING, 0, 4), 52),
        ]),
        frame(vec![
            hit_by(player(HITSTUN, 14, 4), 1),
            landed(player(STANDING, 0, 4), 53),
            player(STANDING, 0, 4),
        ]),
    ];
    let mut tracker = ConversionTracker::new(3);
    assert_eq!(tracker.observe(&frames[0]), Ok(()));
    assert_eq!(tracker.observe(&frames[1]), Ok(()));
    assert_eq!(tracker.active_context(0).unwrap().advantage_player, None);
    assert_eq!(tracker.observe(&frames[2]), Ok(()));
    assert_eq!(tracker.active_context(0).unwrap().advantage_player, Some(2));
    assert_eq!(tracker.observe(&frames[3]), Ok(()));
    let context = tracker.active_context(0).unwrap();
    assert_eq!(context.advantage_player, Some(2));
    assert_eq!(
        context.attacks,
        vec![
            AttackEvent { attacking_player: None, move_code: None, frame_index: 1 },
            AttackEvent { attacking_player: Some(2), move_code: Some(52), frame_index: 2 },
            AttackEvent { attacking_player: Some(1), move_code: Some(53), frame_index: 3 },
        ]
    );
}

#[test]
fn a_grab_without_damage_does_not_extend_the_conversion() {
    let frames = vec![
        frame(vec![player(STANDING, 0, 4), player(AIRBORNE, 0, 4)]),
        frame(vec![landed(player(STANDING, 0, 4), 13), hit_by(player(HITSTUN, 10, 4), 0)]),
        frame(vec![player(STANDING, 0, 4), hit_by(player(AIRBORNE, 10, 4), 0)]),
        frame(vec![landed(player(212, 0, 4), 52), hit_by(player(HELD, 10, 4), 0)]),
        frame(vec![landed(player(212, 0, 4), 52), hit_by(player(266, 10, 4), 0)]),
    ];
    let mut tracker = ConversionTracker::new(2);
    for f in &frames[..3] {
        assert_eq!(tracker.observe(f), Ok(()));
    }
    let before = tracker.active_context(1).unwrap().clone();
    assert_eq!(before.frames_since_last_hit, 1);
    assert_eq!(before.attacks.len(), 1);
    assert_eq!(tracker.observe(&frames[3]), Ok(()));
    let held = tracker.active_context(1).unwrap().clone();
    assert_eq!(held.frames_since_last_hit, 2);
    assert_eq!(held.attacks, before.attacks);
    assert!(!held.has_recovered);
    assert_eq!(tracker.observe(&frames[4]), Ok(()));
    let still = tracker.active_context(1).unwrap();
    assert_eq!(still.frames_since_last_hit, 3);
    assert_eq!(still.attacks, before.attacks);
    assert_eq!(tracker.records().len(), 0);
}

#[test]
fn a_grab_with_damage_extends_the_conversion() {
    let frames = vec![
        frame(vec![player(STANDING, 0, 4), player(AIRBORNE, 0, 4)]),
        frame(vec![landed(player(STANDING, 0, 4), 13), hit_by(player(HITSTUN, 10, 4), 0)]),
        frame(vec![player(STANDING, 0, 4), hit_by(player(STANDING, 10, 4), 0)]),
        frame(vec![landed(player(212, 0, 4), 52), hit_by(player(HELD, 13, 4), 0)]),
    ];
    let mut tracker = ConversionTracker::new(2);
    for f in &frames {
        assert_eq!(tracker.observe(f), Ok(()));
    }
    let context = tracker.active_context(1).unwrap();
    assert_eq!(context.frames_since_last_hit, 0);
    assert!(!context.has_recovered);
    assert_eq!(
        context.attacks,
        vec![
            AttackEvent { attacking_player: Some(0), move_code: Some(13), frame_index: 1 },
            AttackEvent { attacking_player: Some(0), move_code: Some(52), frame_index: 3 },
        ]
    );
}

#[test]
fn damage_outside_a_hit_state_does_not_extend_the_conversion() {
    let frames = vec![
        frame(vec![player(STANDING, 0, 4), player(AIRBORNE, 0, 4)]),
        frame(vec![landed(player(STANDING, 0, 4), 13), hit_by(player(HITSTUN, 10, 4), 0)]),
        frame(vec![player(STANDING, 0, 4), hit_by(player(AIRBORNE, 11, 4), 0)]),
    ];
    let mut tracker = ConversionTracker::new(2);
    for f in &frames {
        assert_eq!(tracker.observe(f), Ok(()));
    }
    let context = tracker.active_context(1).unwrap();
    assert_eq!(context.frames_since_last_hit, 1);
    assert_eq!(context.attacks.len(), 1);
}

#[test]
fn the_first_frame_is_measured_against_itself() {
    let frames = vec![
        frame(vec![landed(player(STANDING, 0, 4), 15), hit_by(player(HITSTUN, 33, 2), 0)]),
        frame(vec![player(STANDING, 0, 4), hit_by(player(0, 0, 1), 0)]),
    ];
    let mut tracker = ConversionTracker::new(2);
    assert_eq!(tracker.frames_seen(), 0);
    assert_eq!(tracker.observe(&frames[0]), Ok(()));
    assert_eq!(tracker.frames_seen(), 1);
    let context = tracker.active_context(1).unwrap();
    assert_eq!(context.start_frame, 0);
    assert_eq!(context.start_percent, 33);
    assert_eq!(
        context.attacks,
        vec![AttackEvent { attacking_player: Some(0), move_code: Some(15), frame_index: 0 }]
    );
    let records = find_conversions(&frames, 2).unwrap();
    assert_eq!(records.len(), 1);
    assert_eq!(records[0].start_frame(), 0);
    assert_eq!(records[0].end_frame(), 1);
    assert_eq!(records[0].damage_dealt(), -33);
}

#[test]
fn a_hit_on_the_closing_frame_opens_nothing_until_the_next() {
    let frames = vec![
        frame(vec![player(STANDING, 0, 4), player(AIRBORNE, 0, 2)]),
        frame(vec![landed(player(STANDING, 0, 4), 10), hit_by(player(HITSTUN, 20, 2), 0)]),
        frame(vec![landed(player(STANDING, 0, 4), 11), hit_by(player(HITSTUN, 30, 1), 0)]),
        frame(vec![landed(player(STANDING, 0, 4), 11), hit_by(player(HITSTUN, 30, 1), 0)]),
    ];
    let mut tracker = ConversionTracker::new(2);
    for f in &frames[..3] {
        assert_eq!(tracker.observe(f), Ok(()));
    }
    assert_eq!(tracker.records().len(), 1);
    assert!(tracker.active_context(1).is_none());
    assert_eq!(tracker.observe(&frames[3]), Ok(()));
    let context = tracker.active_context(1).unwrap();
    assert_eq!(context.start_frame, 3);
    assert_eq!(context.start_percent, 30);
    assert_eq!(
        context.attacks,
        vec![AttackEvent { attacking_player: Some(0), move_code: Some(11), frame_index: 3 }]
    );
}

#[test]
fn records_come_by_frame_and_then_by_slot() {
    // Players 0 and 2 lose a stock on frame 3, player 1 on frame 2.
    let frames = vec![
        frame(vec![player(AIRBORNE, 0, 4), player(AIRBORNE, 0, 4), player(AIRBORNE, 0, 4)]),
        frame(vec![player(HITSTUN, 5, 4), player(HITSTUN, 6, 4), player(HITSTUN, 7, 4)]),
        frame(vec![player(HITSTUN, 5, 4), player(0, 0, 3), player(HITSTUN, 7, 4)]),
        frame(vec![player(0, 0, 3), player(AIRBORNE, 0, 3), player(0, 0, 3)]),
    ];
    let records = find_conversions(&frames, 3).unwrap();
    let order: Vec<(usize, usize)> =
        records.iter().map(|r| (r.end_frame(), r.disadvantage_player())).collect();
    assert_eq!(order, vec![(2, 1), (3, 0), (3, 2)]);
}

#[test]
fn each_player_has_at_most_one_conversion_under_way() {
    let frames = one_hit_then_quiet(120);
    let mut tracker = ConversionTracker::new(2);
    assert_eq!(tracker.player_count(), 2);
    for f in &frames {
        assert_eq!(tracker.observe(f), Ok(()));
        for p in 0..tracker.player_count() {
            if let Some(context) = tracker.active_context(p) {
                assert_eq!(context.disadvantage_player, p);
            }
        }
        assert!(tracker.active_context(2).is_none());
        assert!(tracker.active_context(0).is_none());
    }
    assert_eq!(tracker.frames_seen(), 121);
}

#[test]
fn scanning_twice_gives_the_same_records() {
    let frames = one_hit_then_quiet(120);
    let first = find_conversions(&frames, 2);
    let second = find_conversions(&frames, 2);
    assert_eq!(first, second);
    assert_eq!(first.unwrap().len(), 1);
    let mut tracker = ConversionTracker::new(2);
    for f in &frames {
        assert_eq!(tracker.observe(f), Ok(()));
    }
    assert_eq!(Ok(tracker.records().clone()), second);
    assert_eq!(Ok(tracker.into_records()), find_conversions(&frames, 2));
}

#[test]
fn a_frame_of_the_wrong_size_is_an_error() {
    let frames = vec![
        frame(vec![player(STANDING, 0, 4), player(STANDING, 0, 4)]),
        frame(vec![player(STANDING, 0, 4)]),
        frame(vec![player(STANDING, 0, 4), player(STANDING, 0, 4)]),
    ];
    assert_eq!(
        find_conversions(&frames, 2),
        Err(ScanError::FrameSize { frame: 1, expected: 2, found: 1 })
    );
    assert_eq!(
        find_conversions(&frames, 3),
        Err(ScanError::FrameSize { frame: 0, expected: 3, found: 2 })
    );
    assert_eq!(
        find_conversions(&frames, 0),
        Err(ScanError::FrameSize { frame: 0, expected: 0, found: 2 })
    );
}

#[test]
fn an_attacker_out_of_range_is_an_error_when_a_hit_is_registered() {
    let frames = vec![
        frame(vec![player(STANDING, 0, 4), hit_by(player(AIRBORNE, 0, 4), 2)]),
        frame(vec![player(STANDING, 0, 4), hit_by(player(HITSTUN, 10, 4), 2)]),
    ];
    // On frame 0 no hit is registered, so the attacker is not read.
    assert_eq!(find_conversions(&frames[..1].to_vec(), 2), Ok(vec![]));
    assert_eq!(
        find_conversions(&frames, 2),
        Err(ScanError::AttackerOutOfRange { frame: 1, victim: 1, attacker: 2 })
    );
    // The same frames are fine in a match of three.
    let wider: Vec<Frame> = frames
        .iter()
        .map(|f| {
            let mut ports = f.ports.clone();
            ports.push(player(STANDING, 0, 4));
            Frame { ports }
        })
        .collect();
    assert_eq!(find_conversions(&wider, 3), Ok(vec![]));
}

#[test]
fn the_lowest_faulting_slot_is_reported() {
    let frames = vec![frame(vec![
        hit_by(player(HITSTUN, 10, 4), 7),
        hit_by(player(HITSTUN, 10, 4), 9),
    ])];
    assert_eq!(
        find_conversions(&frames, 2),
        Err(ScanError::AttackerOutOfRange { frame: 0, victim: 0, attacker: 7 })
    );
}

#[test]
fn an_attacker_out_of_range_on_an_extending_hit_is_an_error() {
    let frames = vec![
        frame(vec![player(STANDING, 0, 4), player(AIRBORNE, 0, 4)]),
        frame(vec![player(STANDING, 0, 4), hit_by(player(HITSTUN, 10, 4), 0)]),
        frame(vec![player(STANDING, 0, 4), hit_by(player(HITSTUN, 20, 4), 4)]),
    ];
    assert_eq!(
        find_conversions(&frames, 2),
        Err(ScanError::AttackerOutOfRange { frame: 2, victim: 1, attacker: 4 })
    );
}

#[test]
fn an_error_leaves_the_tracker_as_it_was() {
    let good = frame(vec![player(HITSTUN, 10, 4), player(STANDING, 0, 4)]);
    let short = frame(vec![player(HITSTUN, 10, 4)]);
    let faulty = frame(vec![hit_by(player(HITSTUN, 30, 4), 1), hit_by(player(HITSTUN, 10, 4), 5)]);
    let next = frame(vec![hit_by(player(HITSTUN, 30, 4), 1), landed(player(STANDING, 0, 4), 9)]);
    let mut tracker = ConversionTracker::new(2);
    assert_eq!(tracker.observe(&good), Ok(()));
    let before = tracker.clone();
    assert_eq!(
        tracker.observe(&short),
        Err(ScanError::FrameSize { frame: 1, expected: 2, found: 1 })
    );
    assert_eq!(tracker, before);
    assert_eq!(
        tracker.observe(&faulty),
        Err(ScanError::AttackerOutOfRange { frame: 1, victim: 1, attacker: 5 })
    );
    assert_eq!(tracker, before);
    assert_eq!(tracker.frames_seen(), 1);
    assert_eq!(tracker.observe(&next), Ok(()));
    assert_eq!(tracker.frames_seen(), 2);
    let context = tracker.active_context(0).unwrap();
    assert_eq!(context.start_percent, 10);
    assert_eq!(
        context.attacks,
        vec![
            AttackEvent { attacking_player: None, move_code: None, frame_index: 0 },
            AttackEvent { attacking_player: Some(1), move_code: Some(9), frame_index: 1 },
        ]
    );
}

#[test]
fn a_new_tracker_is_idle_and_empty() {
    let tracker = ConversionTracker::new(4);
    assert_eq!(tracker.player_count(), 4);
    assert_eq!(tracker.frames_seen(), 0);
    assert_eq!(tracker.records(), &Vec::<ConversionRecord>::new());
    for p in 0..6 {
        assert!(tracker.active_context(p).is_none());
    }
    assert_eq!(tracker.into_records(), vec![]);
}

#[test]
fn a_player_in_a_character_state_is_not_hit() {
    let own = PlayerFrameSnapshot {
        state: ActionState { space: StateSpace::Character, raw_id: HITSTUN },
        percent: 50,
        stocks: 4,
        last_hit_by: Some(0),
        last_attack_landed: None,
    };
    let frames = vec![
        frame(vec![player(STANDING, 0, 4), player(STANDING, 0, 4)]),
        frame(vec![player(STANDING, 0, 4), own]),
    ];
    let mut tracker = ConversionTracker::new(2);
    for f in &frames {
        assert_eq!(tracker.observe(f), Ok(()));
    }
    assert!(tracker.active_context(1).is_none());
}
