//! Attack events, the context of a conversion under way, and the record of a
//! finished one.

use vstd::prelude::*;
use crate::error::ScanError;
use crate::frameinfo::PlayerFrameSnapshot;

verus! {

/// One registered hit: who landed it, with which move, on which frame.
/// The attacker, and with it the move, may be unknown.
#[derive(Clone, Copy, Debug, PartialEq, Eq)]
pub struct AttackEvent {
    pub attacking_player: Option<usize>,
    pub move_code: Option<u8>,
    pub frame_index: usize,
}

/// The snapshots of one frame, one per player, by slot.
#[derive(Clone, Debug, PartialEq, Eq)]
pub struct Frame {
    pub ports: Vec<PlayerFrameSnapshot>,
}

impl View for Frame {
    type V = Seq<PlayerFrameSnapshot>;

    open spec fn view(&self) -> Seq<PlayerFrameSnapshot> {
        self.ports@
    }
}

/// The attacker that the victim's snapshot names is a slot of the frame, or
/// it names none.
pub open spec fn attributable(frame: Seq<PlayerFrameSnapshot>, victim: usize) -> bool {
    frame[victim as int].last_hit_by matches Some(attacker) ==> attacker < frame.len()
}

/// The hit on `victim` that `frame` shows: the attacker is the one the
/// victim's snapshot names, the move is the one that attacker's snapshot of
/// the same frame names.
pub open spec fn attribution(
    frame: Seq<PlayerFrameSnapshot>,
    victim: usize,
    frame_index: usize,
) -> AttackEvent {
    let attacker = frame[victim as int].last_hit_by;
    AttackEvent {
        attacking_player: attacker,
        move_code: match attacker {
            Some(a) => frame[a as int].last_attack_landed,
            None => None,
        },
        frame_index,
    }
}

/// What `attribute` returns on a frame and a victim.
pub open spec fn attribute_result(
    frame: Seq<PlayerFrameSnapshot>,
    victim: usize,
    frame_index: usize,
) -> Result<AttackEvent, ScanError> {
    if victim >= frame.len() {
        Err(ScanError::VictimOutOfRange { frame: frame_index, victim })
    } else if !attributable(frame, victim) {
        Err(
            ScanError::AttackerOutOfRange {
                frame: frame_index,
                victim,
                attacker: frame[victim as int].last_hit_by->0,
            },
        )
    } else {
        Ok(attribution(frame, victim, frame_index))
    }
}

/// Resolves the hit on `victim` that `frame` shows. An unknown attacker is
/// an event like any other; a victim or an attacker that is no slot of the
/// frame is an error.
pub fn attribute(frame: &Frame, victim: usize, frame_index: usize) -> (r: Result<
    AttackEvent,
    ScanError,
>)
    ensures
        r == attribute_result(frame@, victim, frame_index),
{
    if victim >= frame.ports.len() {
        return Err(ScanError::VictimOutOfRange { frame: frame_index, victim });
    }
    let attacker: Option<usize> = frame.ports[victim].last_hit_by;
    match attacker {
        Some(a) => {
            if a >= frame.ports.len() {
                return Err(
                    ScanError::AttackerOutOfRange { frame: frame_index, victim, attacker: a },
                );
            }
            Ok(
                AttackEvent {
                    attacking_player: attacker,
                    move_code: frame.ports[a].last_attack_landed,
                    frame_index,
                },
            )
        },
        None => Ok(AttackEvent { attacking_player: None, move_code: None, frame_index }),
    }
}

/// A conversion under way, as a mathematical value.
pub struct ContextView {
    pub advantage_player: Option<usize>,
    pub disadvantage_player: usize,
    pub start_frame: usize,
    pub start_percent: u32,
    pub frames_since_last_hit: nat,
    pub has_recovered: bool,
    pub attacks: Seq<AttackEvent>,
}

impl ContextView {
    /// The context that `ConversionContext::new` makes.
    pub open spec fn fresh(
        advantage_player: Option<usize>,
        disadvantage_player: usize,
        start_frame: usize,
        start_percent: u32,
    ) -> ContextView {
        ContextView {
            advantage_player,
            disadvantage_player,
            start_frame,
            start_percent,
            frames_since_last_hit: 0,
            has_recovered: false,
            attacks: Seq::empty(),
        }
    }

    /// The context after one more attack: the attack is last in the list,
    /// the timer and the recovery flag are back at their zero values.
    pub open spec fn with_attack(self, attack: AttackEvent) -> ContextView {
        ContextView {
            frames_since_last_hit: 0,
            has_recovered: false,
            attacks: self.attacks.push(attack),
            ..self
        }
    }

    /// The context with its advantage player latched: once known it stays,
    /// and while unknown it takes the attacker of `attack`.
    pub open spec fn latched(self, attack: AttackEvent) -> ContextView {
        ContextView {
            advantage_player: match self.advantage_player {
                Some(p) => Some(p),
                None => attack.attacking_player,
            },
            ..self
        }
    }
}

/// A conversion under way: the player hit, the player credited, where it
/// began, how long since the last hit, and the hits so far.
#[derive(Clone, Debug, PartialEq, Eq)]
pub struct ConversionContext {
    pub advantage_player: Option<usize>,
    pub disadvantage_player: usize,
    pub start_frame: usize,
    pub start_percent: u32,
    pub frames_since_last_hit: usize,
    pub has_recovered: bool,
    pub attacks: Vec<AttackEvent>,
}

impl View for ConversionContext {
    type V = ContextView;

    open spec fn view(&self) -> ContextView {
        ContextView {
            advantage_player: self.advantage_player,
            disadvantage_player: self.disadvantage_player,
            start_frame: self.start_frame,
            start_percent: self.start_percent,
            frames_since_last_hit: self.frames_since_last_hit as nat,
            has_recovered: self.has_recovered,
            attacks: self.attacks@,
        }
    }
}

impl ConversionContext {
    /// A context with no attack yet.
    pub fn new(
        advantage_player: Option<usize>,
        disadvantage_player: usize,
        start_frame: usize,
        start_percent: u32,
    ) -> (context: ConversionContext)
        ensures
            context@ == ContextView::fresh(
                advantage_player,
                disadvantage_player,
                start_frame,
                start_percent,
            ),
    {
        ConversionContext {
            advantage_player,
            disadvantage_player,
            start_frame,
            start_percent,
            frames_since_last_hit: 0,
            has_recovered: false,
            attacks: Vec::new(),
        }
    }

    /// Appends an attack and resets the timer and the recovery flag.
    pub fn add_attack(&mut self, attack: AttackEvent)
        ensures
            final(self)@ == old(self)@.with_attack(attack),
    {
        self.attacks.push(attack);
        self.frames_since_last_hit = 0;
        self.has_recovered = false;
    }
}

/// A finished conversion, as a mathematical value.
pub struct RecordView {
    pub context: ContextView,
    pub end_frame: usize,
    pub end_percent: u32,
}

impl RecordView {
    /// Percent at the end less percent at the start.
    pub open spec fn damage_dealt(self) -> int {
        self.end_percent - self.context.start_percent
    }
}

/// A finished conversion: its context as it stood when it closed, the frame
/// on which it closed and the victim's percent on that frame.
#[derive(Clone, Debug, PartialEq, Eq)]
pub struct ConversionRecord {
    pub context: ConversionContext,
    pub end_frame: usize,
    pub end_percent: u32,
}

impl View for ConversionRecord {
    type V = RecordView;

    open spec fn view(&self) -> RecordView {
        RecordView {
            context: self.context@,
            end_frame: self.end_frame,
            end_percent: self.end_percent,
        }
    }
}

impl ConversionRecord {
    /// The player credited with the conversion, if any hit resolved one.
    pub fn advantage_player(&self) -> (p: Option<usize>)
        ensures
            p == self@.context.advantage_player,
    {
        self.context.advantage_player
    }

    /// The player who was hit.
    pub fn disadvantage_player(&self) -> (p: usize)
        ensures
            p == self@.context.disadvantage_player,
    {
        self.context.disadvantage_player
    }

    pub fn start_frame(&self) -> (i: usize)
        ensures
            i == self@.context.start_frame,
    {
        self.context.start_frame
    }

    pub fn end_frame(&self) -> (i: usize)
        ensures
            i == self@.end_frame,
    {
        self.end_frame
    }

    /// Percent at the end less percent at the start, in the unit of the
    /// snapshots. It is negative where the victim ended lower than it began.
    pub fn damage_dealt(&self) -> (d: i64)
        ensures
            d == self@.damage_dealt(),
    {
        let end: i64 = self.end_percent as i64;
        let start: i64 = self.context.start_percent as i64;
        end - start
    }

    /// The hits, in the order in which they were registered.
    pub fn attacks(&self) -> (attacks: &Vec<AttackEvent>)
        ensures
            attacks@ == self@.context.attacks,
    {
        &self.context.attacks
    }
}

/// The attacker of the first attack in the list that has one.
pub open spec fn first_known_attacker(attacks: Seq<AttackEvent>) -> Option<usize>
    decreases attacks.len(),
{
    if attacks.len() == 0 {
        None
    } else {
        match first_known_attacker(attacks.drop_last()) {
            Some(attacker) => Some(attacker),
            None => attacks.last().attacking_player,
        }
    }
}

/// The attacks of a conversion that began on frame `start` and has been
/// followed up to, and not including, frame `end`, in a match of `n`
/// players: there is at least one, the first fell on `start`, each fell on
/// a later frame than the one before and before `end`, and each attacker
/// that is known is a player of the match.
pub open spec fn attacks_sound(attacks: Seq<AttackEvent>, start: usize, end: int, n: nat) -> bool {
    &&& attacks.len() > 0
    &&& attacks[0].frame_index == start
    &&& forall|k: int| 0 <= k < attacks.len() ==> (#[trigger] attacks[k]).frame_index < end
    &&& forall|j: int, k: int|
        0 <= j < k < attacks.len() ==> (#[trigger] attacks[j]).frame_index
            < (#[trigger] attacks[k]).frame_index
    &&& forall|k: int|
        0 <= k < attacks.len() ==> ((#[trigger] attacks[k]).attacking_player matches Some(a)
            ==> a < n)
}

/// What holds of a record of a match of `n` players: its victim is a
/// player of the match, it closed after it began and after its last
/// attack, its attacks are sound, its advantage player is the first
/// attacker known, and its timer counts the frames from the last attack to
/// the closing frame.
pub open spec fn record_sound(record: RecordView, n: nat) -> bool {
    &&& record.context.disadvantage_player < n
    &&& record.context.start_frame < record.end_frame
    &&& attacks_sound(
        record.context.attacks,
        record.context.start_frame,
        record.end_frame as int,
        n,
    )
    &&& record.context.advantage_player == first_known_attacker(record.context.attacks)
    &&& record.context.frames_since_last_hit == record.end_frame
        - record.context.attacks.last().frame_index
}

/// `a` closed before `b`: on an earlier frame, or on the same frame in a
/// lower slot.
pub open spec fn closes_before(a: RecordView, b: RecordView) -> bool {
    a.end_frame < b.end_frame || (a.end_frame == b.end_frame && a.context.disadvantage_player
        < b.context.disadvantage_player)
}

} // verus!
