//! The conversion tracker: one slot per player, each idle or holding the
//! context of a conversion under way, stepped once per frame.

use vstd::prelude::*;
use crate::action_state::{grounded_actionable, hit_state};
use crate::conversion::{
    attributable, attribution, closes_before, record_sound, AttackEvent, ContextView,
    ConversionContext, ConversionRecord, Frame, RecordView,
};
use crate::error::ScanError;
use crate::frameinfo::{damage_between, stock_lost, PlayerFrame, PlayerFrameSnapshot};

verus! {

/// A conversion whose victim has gone more than this many frames without a
/// hit, and has stood free to act since the last one, is over.
pub const RECOVERY_WINDOW: usize = 45;

/// A slot as a mathematical value.
pub enum SlotView {
    Idle,
    Active(ContextView),
}

/// A slot of the tracker: idle, or holding the one conversion under way
/// against its player.
#[derive(Clone, Debug, PartialEq, Eq)]
pub enum Slot {
    Idle,
    Active(ConversionContext),
}

impl View for Slot {
    type V = SlotView;

    open spec fn view(&self) -> SlotView {
        match self {
            Slot::Idle => SlotView::Idle,
            Slot::Active(context) => SlotView::Active(context@),
        }
    }
}

impl ContextView {
    /// The context one frame on: the timer counts the frame, and the
    /// recovery flag rises if the victim stands free to act on it.
    pub open spec fn aged(self, now: PlayerFrameSnapshot) -> ContextView {
        ContextView {
            frames_since_last_hit: self.frames_since_last_hit + 1,
            has_recovered: self.has_recovered || grounded_actionable(now.state),
            ..self
        }
    }

    /// The victim has outlasted the recovery window and has recovered.
    pub open spec fn timed_out(self) -> bool {
        self.frames_since_last_hit > RECOVERY_WINDOW && self.has_recovered
    }
}

/// The context that the first hit on player `p` opens on frame `i`: it
/// starts on that frame at the percent of the frame before, credits the
/// attacker that the hit resolves, and holds that hit alone.
pub open spec fn opened(
    cur: Seq<PlayerFrameSnapshot>,
    prev: Seq<PlayerFrameSnapshot>,
    i: usize,
    p: usize,
) -> ContextView {
    let hit = attribution(cur, p, i);
    ContextView::fresh(hit.attacking_player, p, i, prev[p as int].percent).with_attack(hit)
}

/// A hit that extends a conversion: the victim is in a hit state and its
/// percent rose.
pub open spec fn extending_hit(now: PlayerFrameSnapshot, before: PlayerFrameSnapshot) -> bool {
    hit_state(now.state) && damage_between(now.percent as int, before.percent as int) > 0
}

/// What one frame does to one slot.
pub enum Transition {
    /// The slot goes on in this state.
    Continue(SlotView),
    /// The conversion closes with this record, and the slot is idle again.
    Complete(RecordView),
    /// A hit was to be registered whose attacker is no slot of the frame.
    Fault(usize),
}

/// The transition of slot `p` on frame `i`, whose snapshots are `cur`,
/// measured against the snapshots `prev`.
///
/// An idle slot opens a conversion when its player is in a hit state. An
/// active slot first ages; it then closes if it timed out or its player
/// lost a stock, else registers an extending hit if there is one, else
/// goes on aged.
pub open spec fn transition(
    slot: SlotView,
    cur: Seq<PlayerFrameSnapshot>,
    prev: Seq<PlayerFrameSnapshot>,
    i: usize,
    p: usize,
) -> Transition {
    let now = cur[p as int];
    let before = prev[p as int];
    match slot {
        SlotView::Idle => {
            if !hit_state(now.state) {
                Transition::Continue(SlotView::Idle)
            } else if !attributable(cur, p) {
                Transition::Fault(now.last_hit_by->0)
            } else {
                Transition::Continue(SlotView::Active(opened(cur, prev, i, p)))
            }
        },
        SlotView::Active(context) => {
            let aged = context.aged(now);
            if aged.timed_out() || stock_lost(now.stocks as int, before.stocks as int) {
                Transition::Complete(
                    RecordView { context: aged, end_frame: i, end_percent: now.percent },
                )
            } else if !extending_hit(now, before) {
                Transition::Continue(SlotView::Active(aged))
            } else if !attributable(cur, p) {
                Transition::Fault(now.last_hit_by->0)
            } else {
                let hit = attribution(cur, p, i);
                Transition::Continue(SlotView::Active(aged.with_attack(hit).latched(hit)))
            }
        },
    }
}

/// The slot after a transition that is no fault.
pub open spec fn slot_after(t: Transition) -> SlotView {
    match t {
        Transition::Continue(slot) => slot,
        _ => SlotView::Idle,
    }
}

/// The context of slot `p` is one that the tracker can hold before frame
/// `i`: it is about player `p`, began on an earlier frame, and its timer
/// has counted no more frames than have gone by since.
pub open spec fn slot_wf(slot: SlotView, p: int, i: usize) -> bool {
    slot matches SlotView::Active(context) ==> {
        &&& context.disadvantage_player == p
        &&& context.start_frame < i
        &&& context.frames_since_last_hit < i - context.start_frame
    }
}

/// The attacker out of range that stops the transition of `slot`, if one
/// does.
fn fault_of(slot: &Slot, cur: &Frame, prev: &Frame, i: usize, p: usize) -> (fault: Option<usize>)
    requires
        p < cur@.len(),
        p < prev@.len(),
    ensures
        fault == match transition(slot@, cur@, prev@, i, p) {
            Transition::Fault(attacker) => Some(attacker),
            _ => None::<usize>,
        },
{
    let now = &cur.ports[p];
    let before = &prev.ports[p];
    let hit: bool = now.is_damaged() || now.is_grabbed() || now.is_command_grabbed();
    let registers: bool = match slot {
        Slot::Idle => hit,
        Slot::Active(context) => {
            let recovered: bool = context.has_recovered || now.is_grounded_actionable();
            let timed_out: bool = context.frames_since_last_hit >= RECOVERY_WINDOW && recovered;
            !timed_out && !now.did_lose_stock(before) && hit && now.damage_taken(before) > 0
        },
    };
    if !registers {
        return None;
    }
    match now.last_hit_by {
        Some(attacker) => if attacker >= cur.ports.len() {
            Some(attacker)
        } else {
            None
        },
        None => None,
    }
}

/// The hit on player `p` that `cur` shows, where its attacker is in range.
fn resolve(cur: &Frame, p: usize, i: usize) -> (hit: AttackEvent)
    requires
        p < cur@.len(),
        attributable(cur@, p),
    ensures
        hit == attribution(cur@, p, i),
{
    let attacker: Option<usize> = cur.ports[p].last_hit_by;
    let move_code: Option<u8> = match attacker {
        Some(a) => cur.ports[a].last_attack_landed,
        None => None,
    };
    AttackEvent { attacking_player: attacker, move_code, frame_index: i }
}

/// Steps one slot over one frame. It returns the slot as it goes on and,
/// where the conversion closed, its record.
fn step_slot(slot: Slot, cur: &Frame, prev: &Frame, i: usize, p: usize) -> (out: (
    Slot,
    Option<ConversionRecord>,
))
    requires
        p < cur@.len(),
        p < prev@.len(),
        slot_wf(slot@, p as int, i),
        !(transition(slot@, cur@, prev@, i, p) is Fault),
    ensures
        out.0@ == slot_after(transition(slot@, cur@, prev@, i, p)),
        match transition(slot@, cur@, prev@, i, p) {
            Transition::Complete(record) => out.1 matches Some(r) && r@ == record,
            _ => out.1 is None,
        },
{
    let now = &cur.ports[p];
    let before = &prev.ports[p];
    let hit: bool = now.is_damaged() || now.is_grabbed() || now.is_command_grabbed();
    match slot {
        Slot::Idle => {
            if hit {
                let first = resolve(cur, p, i);
                let mut context = ConversionContext::new(
                    first.attacking_player,
                    p,
                    i,
                    before.percent(),
                );
                context.add_attack(first);
                (Slot::Active(context), None)
            } else {
                (Slot::Idle, None)
            }
        },
        Slot::Active(context) => {
            let mut context = context;
            context.frames_since_last_hit = context.frames_since_last_hit + 1;
            context.has_recovered = context.has_recovered || now.is_grounded_actionable();
            if context.frames_since_last_hit > RECOVERY_WINDOW && context.has_recovered
                || now.did_lose_stock(before) {
                let record = ConversionRecord {
                    context,
                    end_frame: i,
                    end_percent: now.percent(),
                };
                (Slot::Idle, Some(record))
            } else if hit && now.damage_taken(before) > 0 {
                let next = resolve(cur, p, i);
                context.add_attack(next);
                if context.advantage_player.is_none() {
                    context.advantage_player = next.attacking_player;
                }
                (Slot::Active(context), None)
            } else {
                (Slot::Active(context), None)
            }
        },
    }
}

/// The first slot below `upto` whose transition is a fault, with the
/// attacker that is out of range.
pub open spec fn first_fault(
    slots: Seq<SlotView>,
    cur: Seq<PlayerFrameSnapshot>,
    prev: Seq<PlayerFrameSnapshot>,
    i: usize,
    upto: nat,
) -> Option<(usize, usize)>
    decreases upto,
{
    if upto == 0 {
        None
    } else {
        let p = (upto - 1) as usize;
        match first_fault(slots, cur, prev, i, (upto - 1) as nat) {
            Some(fault) => Some(fault),
            None => match transition(slots[p as int], cur, prev, i, p) {
                Transition::Fault(attacker) => Some((p, attacker)),
                _ => None,
            },
        }
    }
}

/// The records of the conversions that close on frame `i` in the slots
/// below `upto`, by ascending slot.
pub open spec fn completions(
    slots: Seq<SlotView>,
    cur: Seq<PlayerFrameSnapshot>,
    prev: Seq<PlayerFrameSnapshot>,
    i: usize,
    upto: nat,
) -> Seq<RecordView>
    decreases upto,
{
    if upto == 0 {
        Seq::empty()
    } else {
        let p = (upto - 1) as usize;
        let before = completions(slots, cur, prev, i, (upto - 1) as nat);
        match transition(slots[p as int], cur, prev, i, p) {
            Transition::Complete(record) => before.push(record),
            _ => before,
        }
    }
}

/// The tracker as a mathematical value: its slots, the frame it saw last,
/// the number of frames it has seen, and the records of the conversions
/// that have closed, in the order in which they closed.
pub struct TrackerView {
    pub slots: Seq<SlotView>,
    pub previous: Seq<PlayerFrameSnapshot>,
    pub frames_seen: usize,
    pub records: Seq<RecordView>,
}

impl TrackerView {
    /// The tracker of a match of `n` players before its first frame.
    pub open spec fn initial(n: usize) -> TrackerView {
        TrackerView {
            slots: Seq::new(n as nat, |p: int| SlotView::Idle),
            previous: Seq::empty(),
            frames_seen: 0,
            records: Seq::empty(),
        }
    }

    /// The frame against which `cur` is measured: the one seen last, and
    /// `cur` itself where it is the first.
    pub open spec fn reference(self, cur: Seq<PlayerFrameSnapshot>) -> Seq<PlayerFrameSnapshot> {
        if self.frames_seen == 0 {
            cur
        } else {
            self.previous
        }
    }

    /// Every slot holds what the tracker can hold after `frames_seen`
    /// frames, and the frame seen last has one snapshot per slot.
    pub open spec fn wf(self) -> bool {
        &&& self.frames_seen > 0 ==> self.previous.len() == self.slots.len()
        &&& forall|p: int|
            0 <= p < self.slots.len() ==> slot_wf(#[trigger] self.slots[p], p, self.frames_seen)
    }

    /// The tracker after the frame `cur`, or the error that `cur` shows.
    ///
    /// A frame that does not hold one snapshot per slot is an error. So is
    /// a fault in a slot; the lowest such slot is the one reported. Else
    /// every slot makes its transition against the same two frames, and
    /// the conversions that close are recorded by ascending slot.
    pub open spec fn observed(self, cur: Seq<PlayerFrameSnapshot>) -> Result<
        TrackerView,
        ScanError,
    > {
        let n = self.slots.len();
        let i = self.frames_seen;
        let prev = self.reference(cur);
        if cur.len() != n {
            Err(ScanError::FrameSize { frame: i, expected: n as usize, found: cur.len() as usize })
        } else {
            match first_fault(self.slots, cur, prev, i, n) {
                Some((victim, attacker)) => Err(
                    ScanError::AttackerOutOfRange { frame: i, victim, attacker },
                ),
                None => Ok(
                    TrackerView {
                        slots: Seq::new(
                            n,
                            |p: int| slot_after(transition(self.slots[p], cur, prev, i, p as usize)),
                        ),
                        previous: cur,
                        frames_seen: (i + 1) as usize,
                        records: self.records + completions(self.slots, cur, prev, i, n),
                    },
                ),
            }
        }
    }
}

/// The tracker of a match of `n` players after the frames `frames`, taken
/// in order from its initial state, or the first error on the way.
pub open spec fn scan(frames: Seq<Seq<PlayerFrameSnapshot>>, n: usize) -> Result<
    TrackerView,
    ScanError,
>
    decreases frames.len(),
{
    if frames.len() == 0 {
        Ok(TrackerView::initial(n))
    } else {
        match scan(frames.drop_last(), n) {
            Ok(tracker) => tracker.observed(frames.last()),
            Err(e) => Err(e),
        }
    }
}

/// The slots of a tracker as mathematical values.
pub open spec fn slots_view(slots: Seq<Slot>) -> Seq<SlotView> {
    Seq::new(slots.len(), |p: int| slots[p]@)
}

/// A list of records as mathematical values.
pub open spec fn records_view(records: Seq<ConversionRecord>) -> Seq<RecordView> {
    Seq::new(records.len(), |k: int| records[k]@)
}

/// A list of frames as mathematical values.
pub open spec fn frames_view(frames: Seq<Frame>) -> Seq<Seq<PlayerFrameSnapshot>> {
    Seq::new(frames.len(), |k: int| frames[k]@)
}

/// No slot below `upto` faults where `first_fault` finds none.
pub proof fn lemma_no_fault(
    slots: Seq<SlotView>,
    cur: Seq<PlayerFrameSnapshot>,
    prev: Seq<PlayerFrameSnapshot>,
    i: usize,
    upto: nat,
    p: int,
)
    requires
        first_fault(slots, cur, prev, i, upto) is None,
        0 <= p < upto <= usize::MAX,
    ensures
        !(transition(slots[p], cur, prev, i, p as usize) is Fault),
    decreases upto,
{
    if p < upto - 1 {
        lemma_no_fault(slots, cur, prev, i, (upto - 1) as nat, p);
    }
}

/// A fault found at slot `p`, with none below it, is the first up to any
/// later bound.
pub proof fn lemma_fault_stays(
    slots: Seq<SlotView>,
    cur: Seq<PlayerFrameSnapshot>,
    prev: Seq<PlayerFrameSnapshot>,
    i: usize,
    p: usize,
    upto: nat,
)
    requires
        first_fault(slots, cur, prev, i, p as nat) is None,
        transition(slots[p as int], cur, prev, i, p) is Fault,
        p < upto,
    ensures
        first_fault(slots, cur, prev, i, upto) == Some(
            (p, transition(slots[p as int], cur, prev, i, p)->Fault_0),
        ),
    decreases upto,
{
    if upto > p + 1 {
        lemma_fault_stays(slots, cur, prev, i, p, (upto - 1) as nat);
    }
}

/// A copy of a frame.
fn copy_frame(frame: &Frame) -> (copy: Frame)
    ensures
        copy@ == frame@,
{
    let mut ports: Vec<PlayerFrameSnapshot> = Vec::new();
    let mut k: usize = 0;
    while k < frame.ports.len()
        invariant
            k <= frame.ports.len(),
            ports@ == frame.ports@.take(k as int),
        decreases frame.ports.len() - k,
    {
        ports.push(frame.ports[k]);
        k = k + 1;
    }
    Frame { ports }
}

/// The tracker: one slot per player of the match, and the store of the
/// conversions that have closed.
#[derive(Clone, Debug, PartialEq, Eq)]
pub struct ConversionTracker {
    slots: Vec<Slot>,
    previous: Frame,
    frames_seen: usize,
    records: Vec<ConversionRecord>,
}

impl View for ConversionTracker {
    type V = TrackerView;

    closed spec fn view(&self) -> TrackerView {
        TrackerView {
            slots: slots_view(self.slots@),
            previous: self.previous@,
            frames_seen: self.frames_seen,
            records: records_view(self.records@),
        }
    }
}

impl ConversionTracker {
    /// A tracker for a match of `player_count` players: every slot idle, no
    /// frame seen, no record.
    pub fn new(player_count: usize) -> (tracker: ConversionTracker)
        ensures
            tracker@ == TrackerView::initial(player_count),
            tracker@.wf(),
    {
        let mut slots: Vec<Slot> = Vec::new();
        let mut p: usize = 0;
        while p < player_count
            invariant
                p <= player_count,
                slots@.len() == p,
                forall|q: int| 0 <= q < p ==> slots@[q] == Slot::Idle,
            decreases player_count - p,
        {
            slots.push(Slot::Idle);
            p = p + 1;
        }
        let tracker = ConversionTracker {
            slots,
            previous: Frame { ports: Vec::new() },
            frames_seen: 0,
            records: Vec::new(),
        };
        assert(tracker@.slots =~= TrackerView::initial(player_count).slots);
        assert(tracker@.records =~= TrackerView::initial(player_count).records);
        assert(tracker@.previous =~= TrackerView::initial(player_count).previous);
        tracker
    }

    /// The number of players of the match.
    pub fn player_count(&self) -> (n: usize)
        ensures
            n == self@.slots.len(),
    {
        self.slots.len()
    }

    /// The number of frames seen so far, which is the index of the next.
    pub fn frames_seen(&self) -> (i: usize)
        ensures
            i == self@.frames_seen,
    {
        self.frames_seen
    }

    /// The context of the conversion under way against player `p`, if
    /// there is one.
    pub fn active_context(&self, p: usize) -> (context: Option<&ConversionContext>)
        ensures
            match context {
                Some(c) => p < self@.slots.len() && self@.slots[p as int] == SlotView::Active(c@),
                None => p < self@.slots.len() ==> self@.slots[p as int] is Idle,
            },
    {
        if p >= self.slots.len() {
            return None;
        }
        match &self.slots[p] {
            Slot::Idle => None,
            Slot::Active(context) => Some(context),
        }
    }

    /// The records of the conversions that have closed, in the order in
    /// which they closed.
    pub fn records(&self) -> (records: &Vec<ConversionRecord>)
        ensures
            records_view(records@) == self@.records,
    {
        &self.records
    }

    /// Gives up the tracker for its records.
    pub fn into_records(self) -> (records: Vec<ConversionRecord>)
        ensures
            records_view(records@) == self@.records,
    {
        self.records
    }

    /// Steps the tracker over the next frame.
    ///
    /// On success the tracker is the one that `observed` describes. On an
    /// error the tracker is as it was.
    pub fn observe(&mut self, frame: &Frame) -> (r: Result<(), ScanError>)
        requires
            old(self)@.wf(),
            old(self)@.frames_seen < usize::MAX,
        ensures
            final(self)@.wf(),
            match old(self)@.observed(frame@) {
                Ok(next) => r is Ok && final(self)@ == next,
                Err(e) => r == Err::<(), ScanError>(e) && final(self)@ == old(self)@,
            },
    {
        let n: usize = self.slots.len();
        let i: usize = self.frames_seen;
        if frame.ports.len() != n {
            return Err(ScanError::FrameSize { frame: i, expected: n, found: frame.ports.len() });
        }
        let ghost before = self@;
        let ghost cur = frame@;
        let ghost prev = before.reference(cur);
        let mut p: usize = 0;
        while p < n
            invariant
                p <= n,
                n == self.slots@.len(),
                n == cur.len(),
                n == prev.len(),
                cur == frame@,
                i == self.frames_seen,
                self@ == before,
                before.wf(),
                prev == before.reference(cur),
                before.slots == slots_view(self.slots@),
                first_fault(before.slots, cur, prev, i, p as nat) is None,
            decreases n - p,
        {
            let fault = if i == 0 {
                fault_of(&self.slots[p], frame, frame, i, p)
            } else {
                fault_of(&self.slots[p], frame, &self.previous, i, p)
            };
            match fault {
                Some(attacker) => {
                    proof {
                        lemma_fault_stays(before.slots, cur, prev, i, p, n as nat);
                    }
                    return Err(ScanError::AttackerOutOfRange { frame: i, victim: p, attacker });
                },
                None => {},
            }
            p = p + 1;
        }
        let mut p: usize = 0;
        while p < n
            invariant
                p <= n,
                n == self.slots@.len(),
                n == cur.len(),
                n == prev.len(),
                n == before.slots.len(),
                cur == frame@,
                i == self.frames_seen,
                i == before.frames_seen,
                i < usize::MAX,
                self.previous@ == before.previous,
                prev == before.reference(cur),
                before.wf(),
                first_fault(before.slots, cur, prev, i, n as nat) is None,
                forall|q: int|
                    0 <= q < p ==> (#[trigger] self.slots@[q])@ == slot_after(
                        transition(before.slots[q], cur, prev, i, q as usize),
                    ),
                forall|q: int|
                    0 <= q < p ==> slot_wf((#[trigger] self.slots@[q])@, q, (i + 1) as usize),
                forall|q: int| p <= q < n ==> (#[trigger] self.slots@[q])@ == before.slots[q],
                records_view(self.records@) == before.records + completions(
                    before.slots,
                    cur,
                    prev,
                    i,
                    p as nat,
                ),
            decreases n - p,
        {
            proof {
                lemma_no_fault(before.slots, cur, prev, i, n as nat, p as int);
            }
            let ghost slots_before = self.slots@;
            let ghost records_before = self.records@;
            self.slots.push(Slot::Idle);
            let slot = self.slots.swap_remove(p);
            assert(slot@ == before.slots[p as int]);
            let (next, closed) = if i == 0 {
                step_slot(slot, frame, frame, i, p)
            } else {
                step_slot(slot, frame, &self.previous, i, p)
            };
            self.slots[p] = next;
            match closed {
                Some(record) => {
                    self.records.push(record);
                    assert(records_view(self.records@) =~= records_view(records_before).push(
                        record@,
                    ));
                },
                None => {},
            }
            assert(forall|q: int|
                0 <= q < n && q != p ==> (#[trigger] self.slots@[q]) == slots_before[q]);
            assert(records_view(self.records@) =~= before.records + completions(
                before.slots,
                cur,
                prev,
                i,
                (p + 1) as nat,
            ));
            p = p + 1;
        }
        self.previous = copy_frame(frame);
        self.frames_seen = i + 1;
        proof {
            let next = before.observed(cur)->Ok_0;
            assert(self@.slots =~= next.slots);
            assert(self@.records =~= next.records);
            assert(self@.previous =~= next.previous);
        }
        Ok(())
    }
}

/// The conversions of a match of `n` players whose frames are `frames`, in
/// the order in which they close, or the first error that the frames show.
pub open spec fn conversions(frames: Seq<Seq<PlayerFrameSnapshot>>, n: usize) -> Result<
    Seq<RecordView>,
    ScanError,
> {
    match scan(frames, n) {
        Ok(tracker) => Ok(tracker.records),
        Err(e) => Err(e),
    }
}

/// The outcome of a scan as a mathematical value.
pub open spec fn outcome_view(r: Result<Vec<ConversionRecord>, ScanError>) -> Result<
    Seq<RecordView>,
    ScanError,
> {
    match r {
        Ok(records) => Ok(records_view(records@)),
        Err(e) => Err(e),
    }
}

/// An error on the way stops the scan: the frames after it change nothing.
pub proof fn lemma_scan_error_stays(frames: Seq<Seq<PlayerFrameSnapshot>>, n: usize, k: int)
    requires
        0 <= k <= frames.len(),
        scan(frames.take(k), n) is Err,
    ensures
        scan(frames, n) == scan(frames.take(k), n),
    decreases frames.len(),
{
    if k < frames.len() {
        assert(frames.drop_last().take(k) =~= frames.take(k));
        lemma_scan_error_stays(frames.drop_last(), n, k);
    } else {
        assert(frames.take(k) =~= frames);
    }
}

/// Scans a match of `player_count` players from its first frame to its
/// last and returns the conversions in the order in which they closed:
/// by ascending frame, and by ascending slot within a frame. A conversion
/// still under way after the last frame is not among them. Every record is
/// sound: it names players of the match, closed after it began, and lists
/// its attacks in the order of their frames.
///
/// The first frame that breaks the input contract stops the scan with its
/// error.
pub fn find_conversions(frames: &Vec<Frame>, player_count: usize) -> (r: Result<
    Vec<ConversionRecord>,
    ScanError,
>)
    ensures
        outcome_view(r) == conversions(frames_view(frames@), player_count),
        r matches Ok(records) ==> forall|j: int, k: int|
            0 <= j < k < records@.len() ==> closes_before(
                (#[trigger] records@[j])@,
                (#[trigger] records@[k])@,
            ),
        r matches Ok(records) ==> forall|k: int|
            0 <= k < records@.len() ==> record_sound(
                (#[trigger] records@[k])@,
                player_count as nat,
            ) && records@[k].end_frame < frames@.len(),
{
    let ghost all = frames_view(frames@);
    let mut tracker = ConversionTracker::new(player_count);
    let mut k: usize = 0;
    assert(all.take(0) =~= Seq::empty());
    while k < frames.len()
        invariant
            k <= frames.len(),
            all == frames_view(frames@),
            tracker@.wf(),
            tracker@.frames_seen == k,
            scan(all.take(k as int), player_count) == Ok::<TrackerView, ScanError>(tracker@),
        decreases frames.len() - k,
    {
        proof {
            assert(all.take(k + 1).drop_last() =~= all.take(k as int));
            assert(all.take(k + 1).last() == frames@[k as int]@);
        }
        match tracker.observe(&frames[k]) {
            Ok(()) => {},
            Err(e) => {
                proof {
                    lemma_scan_error_stays(all, player_count, k + 1);
                }
                return Err(e);
            },
        }
        k = k + 1;
    }
    assert(all.take(k as int) =~= all);
    let records = tracker.into_records();
    proof {
        crate::laws::lemma_scan_sound(all, player_count);
        let listed = records_view(records@);
        assert forall|j: int, k: int| 0 <= j < k < records@.len() implies closes_before(
            (#[trigger] records@[j])@,
            (#[trigger] records@[k])@,
        ) by {
            assert(listed[j] == records@[j]@ && listed[k] == records@[k]@);
        }
        assert forall|k: int| 0 <= k < records@.len() implies record_sound(
            (#[trigger] records@[k])@,
            player_count as nat,
        ) && records@[k].end_frame < frames@.len() by {
            assert(listed[k] == records@[k]@);
        }
    }
    Ok(records)
}

} // verus!
