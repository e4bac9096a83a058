//! The names of the moves, by move code.

use vstd::prelude::*;
use vstd::string::StringExecFns;

verus! {

/// The name of the move with this code, where the code has one.
pub open spec fn move_name(code: u8) -> Option<&'static str> {
    match code {
        1 => Some("NON_STALING"),
        2 => Some("JAB_1"),
        3 => Some("JAB_2"),
        4 => Some("JAB_3"),
        5 => Some("RAPID_JABS"),
        6 => Some("DASH_ATTACK"),
        7 => Some("SIDE_TILT"),
        8 => Some("UP_TILT"),
        9 => Some("DOWN_TILT"),
        10 => Some("SIDE_SMASH"),
        11 => Some("UP_SMASH"),
        12 => Some("DOWN_SMASH"),
        13 => Some("NAIR"),
        14 => Some("FAIR"),
        15 => Some("BAIR"),
        16 => Some("UAIR"),
        17 => Some("DAIR"),
        18 => Some("NEUTRAL_SPECIAL"),
        19 => Some("SIDE_SPECIAL"),
        20 => Some("UP_SPECIAL"),
        21 => Some("DOWN_SPECIAL"),
        22 => Some("KIRBY_HAT_MARIO_NEUTRAL_SPECIAL"),
        23 => Some("KIRBY_HAT_FOX_NEUTRAL_SPECIAL"),
        24 => Some("KIRBY_HAT_CFALCON_NEUTRAL_SPECIAL"),
        25 => Some("KIRBY_HAT_DKNEUTRAL_SPECIAL"),
        26 => Some("KIRBY_HAT_BOWSER_NEUTRAL_SPECIAL"),
        27 => Some("KIRBY_HAT_LINK_NEUTRAL_SPECIAL"),
        28 => Some("KIRBY_HAT_SHEIK_NEUTRAL_SPECIAL"),
        29 => Some("KIRBY_HAT_NESS_NEUTRAL_SPECIAL"),
        30 => Some("KIRBY_HAT_PEACH_NEUTRAL_SPECIAL"),
        31 => Some("KIRBY_HAT_ICE_CLIMBER_NEUTRAL_SPECIAL"),
        32 => Some("KIRBY_HAT_PIKACHU_NEUTRAL_SPECIAL"),
        33 => Some("KIRBY_HAT_SAMUS_NEUTRAL_SPECIAL"),
        34 => Some("KIRBY_HAT_YOSHI_NEUTRAL_SPECIAL"),
        35 => Some("KIRBY_HAT_JIGGLYPUFF_NEUTRAL_SPECIAL"),
        36 => Some("KIRBY_HAT_MEWTWO_NEUTRAL_SPECIAL"),
        37 => Some("KIRBY_HAT_LUIGI_NEUTRAL_SPECIAL"),
        38 => Some("KIRBY_HAT_MARTH_NEUTRAL_SPECIAL"),
        39 => Some("KIRBY_HAT_ZELDA_NEUTRAL_SPECIAL"),
        40 => Some("KIRBY_HAT_YOUNG_LINK_NEUTRAL_SPECIAL"),
        41 => Some("KIRBY_HAT_DOC_NEUTRAL_SPECIAL"),
        42 => Some("KIRBY_HAT_FALCO_NEUTRAL_SPECIAL"),
        43 => Some("KIRBY_HAT_PICHU_NEUTRAL_SPECIAL"),
        44 => Some("KIRBY_HAT_GAME_AND_WATCH_NEUTRAL_SPECIAL"),
        45 => Some("KIRBY_HAT_GANON_NEUTRAL_SPECIAL"),
        46 => Some("KIRBY_HAT_ROY_NEUTRAL_SPECIAL"),
        50 => Some("GET_UP_ATTACK_FROM_BACK"),
        51 => Some("GET_UP_ATTACK_FROM_FRONT"),
        52 => Some("PUMMEL"),
        53 => Some("FORWARD_THROW"),
        54 => Some("BACK_THROW"),
        55 => Some("UP_THROW"),
        56 => Some("DOWN_THROW"),
        57 => Some("CARGO_FORWARD_THROW"),
        58 => Some("CARGO_BACK_THROW"),
        59 => Some("CARGO_UP_THROW"),
        60 => Some("CARGO_DOWN_THROW"),
        61 => Some("LEDGE_GET_UP_ATTACK_100"),
        62 => Some("LEDGE_GET_UP_ATTACK_101"),
        63 => Some("BEAM_SWORD_JAB"),
        64 => Some("BEAM_SWORD_TILT_SWING"),
        65 => Some("BEAM_SWORD_SMASH_SWING"),
        66 => Some("BEAM_SWORD_DASH_SWING"),
        67 => Some("HOME_RUN_BAT_JAB"),
        68 => Some("HOME_RUN_BAT_TILT_SWING"),
        69 => Some("HOME_RUN_BAT_SMASH_SWING"),
        70 => Some("HOME_RUN_BAT_DASH_SWING"),
        71 => Some("PARASOL_JAB"),
        72 => Some("PARASOL_TILT_SWING"),
        73 => Some("PARASOL_SMASH_SWING"),
        74 => Some("PARASOL_DASH_SWING"),
        75 => Some("FAN_JAB"),
        76 => Some("FAN_TILT_SWING"),
        77 => Some("FAN_SMASH_SWING"),
        78 => Some("FAN_DASH_SWING"),
        79 => Some("STAR_ROD_JAB"),
        80 => Some("STAR_ROD_TILT_SWING"),
        81 => Some("STAR_ROD_SMASH_SWING"),
        82 => Some("STAR_ROD_DASH_SWING"),
        83 => Some("LIPS_STICK_JAB"),
        84 => Some("LIPS_STICK_TILT_SWING"),
        85 => Some("LIPS_STICK_SMASH_SWING"),
        86 => Some("LIPS_STICK_DASH_SWING"),
        87 => Some("OPEN_PARASOL"),
        88 => Some("RAY_GUN_SHOOT"),
        89 => Some("FIRE_FLOWER_SHOOT"),
        90 => Some("SCREW_ATTACK"),
        91 => Some("SUPER_SCOPE_RAPID"),
        92 => Some("SUPER_SCOPE_CHARGED"),
        93 => Some("HAMMER"),
        _ => None,
    }
}

/// The decimal digit `d`, for `d` below ten.
pub open spec fn digit_char(d: nat) -> char {
    if d == 0 {
        '0'
    } else if d == 1 {
        '1'
    } else if d == 2 {
        '2'
    } else if d == 3 {
        '3'
    } else if d == 4 {
        '4'
    } else if d == 5 {
        '5'
    } else if d == 6 {
        '6'
    } else if d == 7 {
        '7'
    } else if d == 8 {
        '8'
    } else {
        '9'
    }
}

/// The decimal numeral of `n`, without leading zeros.
pub open spec fn decimal(n: nat) -> Seq<char>
    decreases n,
{
    if n < 10 {
        seq![digit_char(n)]
    } else {
        decimal(n / 10).push(digit_char(n % 10))
    }
}

/// What a move is called: its name where its code has one, and
/// `UNNAMED(<code>)`, with the code in decimal, where it has none.
pub open spec fn attack_name(code: u8) -> Seq<char> {
    match move_name(code) {
        Some(name) => name@,
        None => "UNNAMED("@ + decimal(code as nat) + ")"@,
    }
}

/// The name of the move with this code, where the code has one.
pub fn known_name(code: u8) -> (name: Option<&'static str>)
    ensures
        name == move_name(code),
{
    match code {
        1 => Some("NON_STALING"),
        2 => Some("JAB_1"),
        3 => Some("JAB_2"),
        4 => Some("JAB_3"),
        5 => Some("RAPID_JABS"),
        6 => Some("DASH_ATTACK"),
        7 => Some("SIDE_TILT"),
        8 => Some("UP_TILT"),
        9 => Some("DOWN_TILT"),
        10 => Some("SIDE_SMASH"),
        11 => Some("UP_SMASH"),
        12 => Some("DOWN_SMASH"),
        13 => Some("NAIR"),
        14 => Some("FAIR"),
        15 => Some("BAIR"),
        16 => Some("UAIR"),
        17 => Some("DAIR"),
        18 => Some("NEUTRAL_SPECIAL"),
        19 => Some("SIDE_SPECIAL"),
        20 => Some("UP_SPECIAL"),
        21 => Some("DOWN_SPECIAL"),
        22 => Some("KIRBY_HAT_MARIO_NEUTRAL_SPECIAL"),
        23 => Some("KIRBY_HAT_FOX_NEUTRAL_SPECIAL"),
        24 => Some("KIRBY_HAT_CFALCON_NEUTRAL_SPECIAL"),
        25 => Some("KIRBY_HAT_DKNEUTRAL_SPECIAL"),
        26 => Some("KIRBY_HAT_BOWSER_NEUTRAL_SPECIAL"),
        27 => Some("KIRBY_HAT_LINK_NEUTRAL_SPECIAL"),
        28 => Some("KIRBY_HAT_SHEIK_NEUTRAL_SPECIAL"),
        29 => Some("KIRBY_HAT_NESS_NEUTRAL_SPECIAL"),
        30 => Some("KIRBY_HAT_PEACH_NEUTRAL_SPECIAL"),
        31 => Some("KIRBY_HAT_ICE_CLIMBER_NEUTRAL_SPECIAL"),
        32 => Some("KIRBY_HAT_PIKACHU_NEUTRAL_SPECIAL"),
        33 => Some("KIRBY_HAT_SAMUS_NEUTRAL_SPECIAL"),
        34 => Some("KIRBY_HAT_YOSHI_NEUTRAL_SPECIAL"),
        35 => Some("KIRBY_HAT_JIGGLYPUFF_NEUTRAL_SPECIAL"),
        36 => Some("KIRBY_HAT_MEWTWO_NEUTRAL_SPECIAL"),
        37 => Some("KIRBY_HAT_LUIGI_NEUTRAL_SPECIAL"),
        38 => Some("KIRBY_HAT_MARTH_NEUTRAL_SPECIAL"),
        39 => Some("KIRBY_HAT_ZELDA_NEUTRAL_SPECIAL"),
        40 => Some("KIRBY_HAT_YOUNG_LINK_NEUTRAL_SPECIAL"),
        41 => Some("KIRBY_HAT_DOC_NEUTRAL_SPECIAL"),
        42 => Some("KIRBY_HAT_FALCO_NEUTRAL_SPECIAL"),
        43 => Some("KIRBY_HAT_PICHU_NEUTRAL_SPECIAL"),
        44 => Some("KIRBY_HAT_GAME_AND_WATCH_NEUTRAL_SPECIAL"),
        45 => Some("KIRBY_HAT_GANON_NEUTRAL_SPECIAL"),
        46 => Some("KIRBY_HAT_ROY_NEUTRAL_SPECIAL"),
        50 => Some("GET_UP_ATTACK_FROM_BACK"),
        51 => Some("GET_UP_ATTACK_FROM_FRONT"),
        52 => Some("PUMMEL"),
        53 => Some("FORWARD_THROW"),
        54 => Some("BACK_THROW"),
        55 => Some("UP_THROW"),
        56 => Some("DOWN_THROW"),
        57 => Some("CARGO_FORWARD_THROW"),
        58 => Some("CARGO_BACK_THROW"),
        59 => Some("CARGO_UP_THROW"),
        60 => Some("CARGO_DOWN_THROW"),
        61 => Some("LEDGE_GET_UP_ATTACK_100"),
        62 => Some("LEDGE_GET_UP_ATTACK_101"),
        63 => Some("BEAM_SWORD_JAB"),
        64 => Some("BEAM_SWORD_TILT_SWING"),
        65 => Some("BEAM_SWORD_SMASH_SWING"),
        66 => Some("BEAM_SWORD_DASH_SWING"),
        67 => Some("HOME_RUN_BAT_JAB"),
        68 => Some("HOME_RUN_BAT_TILT_SWING"),
        69 => Some("HOME_RUN_BAT_SMASH_SWING"),
        70 => Some("HOME_RUN_BAT_DASH_SWING"),
        71 => Some("PARASOL_JAB"),
        72 => Some("PARASOL_TILT_SWING"),
        73 => Some("PARASOL_SMASH_SWING"),
        74 => Some("PARASOL_DASH_SWING"),
        75 => Some("FAN_JAB"),
        76 => Some("FAN_TILT_SWING"),
        77 => Some("FAN_SMASH_SWING"),
        78 => Some("FAN_DASH_SWING"),
        79 => Some("STAR_ROD_JAB"),
        80 => Some("STAR_ROD_TILT_SWING"),
        81 => Some("STAR_ROD_SMASH_SWING"),
        82 => Some("STAR_ROD_DASH_SWING"),
        83 => Some("LIPS_STICK_JAB"),
        84 => Some("LIPS_STICK_TILT_SWING"),
        85 => Some("LIPS_STICK_SMASH_SWING"),
        86 => Some("LIPS_STICK_DASH_SWING"),
        87 => Some("OPEN_PARASOL"),
        88 => Some("RAY_GUN_SHOOT"),
        89 => Some("FIRE_FLOWER_SHOOT"),
        90 => Some("SCREW_ATTACK"),
        91 => Some("SUPER_SCOPE_RAPID"),
        92 => Some("SUPER_SCOPE_CHARGED"),
        93 => Some("HAMMER"),
        _ => None,
    }
}

/// The one-character text of a decimal digit.
fn digit_text(d: u8) -> (text: &'static str)
    requires
        d < 10,
    ensures
        text@ == seq![digit_char(d as nat)],
{
    proof {
        reveal_strlit("0");
        reveal_strlit("1");
        reveal_strlit("2");
        reveal_strlit("3");
        reveal_strlit("4");
        reveal_strlit("5");
        reveal_strlit("6");
        reveal_strlit("7");
        reveal_strlit("8");
        reveal_strlit("9");
    }
    let text = match d {
        0 => "0",
        1 => "1",
        2 => "2",
        3 => "3",
        4 => "4",
        5 => "5",
        6 => "6",
        7 => "7",
        8 => "8",
        _ => "9",
    };
    assert(text@ =~= seq![digit_char(d as nat)]);
    text
}

/// `text` followed by the decimal numeral of `n`.
pub fn append_decimal(text: String, n: u8) -> (out: String)
    ensures
        out@ == text@ + decimal(n as nat),
{
    proof {
        reveal_with_fuel(decimal, 3);
    }
    let mut out = text;
    if n >= 100 {
        out = out.concat(digit_text(n / 100));
    }
    if n >= 10 {
        out = out.concat(digit_text((n / 10) % 10));
    }
    out = out.concat(digit_text(n % 10));
    assert(out@ =~= text@ + decimal(n as nat));
    out
}

} // verus!
