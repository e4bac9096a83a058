//! What holds of the tracker on every input.

use vstd::prelude::*;
use crate::action_state::hit_state;
use crate::conversion::{
    attacks_sound, attribution, closes_before, first_known_attacker, record_sound, AttackEvent,
    ContextView, ConversionRecord, RecordView,
};
use crate::error::ScanError;
use crate::frameinfo::{damage_between, stock_lost, PlayerFrameSnapshot};
use crate::tracker::{
    completions, conversions, first_fault, outcome_view, scan, slot_after, slot_wf, transition,
    SlotView, TrackerView, Transition,
};

verus! {

/// Damage taken is never negative, whatever the two percents.
pub proof fn lemma_damage_never_negative(current: int, previous: int)
    ensures
        damage_between(current, previous) >= 0,
        damage_between(current, previous) == 0 <==> current <= previous,
{
}

/// A transition that is no fault leaves the slot in a state that the
/// tracker can hold before the next frame.
pub proof fn lemma_transition_keeps_wf(
    slot: SlotView,
    cur: Seq<PlayerFrameSnapshot>,
    prev: Seq<PlayerFrameSnapshot>,
    i: usize,
    p: usize,
)
    requires
        slot_wf(slot, p as int, i),
        i < usize::MAX,
        !(transition(slot, cur, prev, i, p) is Fault),
    ensures
        slot_wf(slot_after(transition(slot, cur, prev, i, p)), p as int, (i + 1) as usize),
{
}

/// A well-formed tracker is well-formed after every frame it accepts, has
/// the slots it had, and has seen one frame more.
pub proof fn lemma_observed_wf(tracker: TrackerView, cur: Seq<PlayerFrameSnapshot>)
    requires
        tracker.wf(),
        tracker.frames_seen < usize::MAX,
        tracker.slots.len() <= usize::MAX,
        tracker.observed(cur) is Ok,
    ensures
        tracker.observed(cur)->Ok_0.wf(),
        tracker.observed(cur)->Ok_0.slots.len() == tracker.slots.len(),
        tracker.observed(cur)->Ok_0.frames_seen == tracker.frames_seen + 1,
{
    let next = tracker.observed(cur)->Ok_0;
    let prev = tracker.reference(cur);
    let i = tracker.frames_seen;
    let n = tracker.slots.len();
    assert forall|p: int| 0 <= p < next.slots.len() implies slot_wf(
        #[trigger] next.slots[p],
        p,
        next.frames_seen,
    ) by {
        crate::tracker::lemma_no_fault(tracker.slots, cur, prev, i, n, p);
        lemma_transition_keeps_wf(tracker.slots[p], cur, prev, i, p as usize);
    }
}

/// After a scan that met no error the tracker is well-formed, has one slot
/// per player and has seen every frame.
pub proof fn lemma_scan_wf(frames: Seq<Seq<PlayerFrameSnapshot>>, n: usize)
    requires
        frames.len() <= usize::MAX,
    ensures
        scan(frames, n) matches Ok(tracker) ==> tracker.wf() && tracker.slots.len() == n
            && tracker.frames_seen == frames.len(),
    decreases frames.len(),
{
    if frames.len() > 0 {
        lemma_scan_wf(frames.drop_last(), n);
        if let Ok(before) = scan(frames.drop_last(), n) {
            if before.observed(frames.last()) is Ok {
                lemma_observed_wf(before, frames.last());
            }
        }
    }
}

/// At most one conversion is under way against a player: after any number
/// of frames, two slots that hold a context about the same player are one
/// slot.
pub proof fn lemma_one_context_per_player(
    frames: Seq<Seq<PlayerFrameSnapshot>>,
    n: usize,
    p: int,
    q: int,
)
    requires
        frames.len() <= usize::MAX,
        scan(frames, n) is Ok,
        0 <= p < n,
        0 <= q < n,
        scan(frames, n)->Ok_0.slots[p] is Active,
        scan(frames, n)->Ok_0.slots[q] is Active,
        scan(frames, n)->Ok_0.slots[p]->Active_0.disadvantage_player == scan(
            frames,
            n,
        )->Ok_0.slots[q]->Active_0.disadvantage_player,
    ensures
        p == q,
{
    lemma_scan_wf(frames, n);
}

/// Scanning is a function of the frames and the player count: two scans of
/// the same match end in the same outcome, with the same records in the
/// same order or with the same error.
pub proof fn lemma_scan_deterministic(
    frames: Seq<Seq<PlayerFrameSnapshot>>,
    n: usize,
    first: Result<Vec<ConversionRecord>, ScanError>,
    second: Result<Vec<ConversionRecord>, ScanError>,
)
    requires
        outcome_view(first) == conversions(frames, n),
        outcome_view(second) == conversions(frames, n),
    ensures
        outcome_view(first) == outcome_view(second),
        first is Ok <==> second is Ok,
        first is Ok ==> first->Ok_0@.len() == second->Ok_0@.len(),
        first is Ok ==> forall|k: int|
            0 <= k < first->Ok_0@.len() ==> (#[trigger] first->Ok_0@[k])@ == second->Ok_0@[k]@,
        first is Err ==> first->Err_0 == second->Err_0,
{
    if first is Ok {
        let a = crate::tracker::records_view(first->Ok_0@);
        let b = crate::tracker::records_view(second->Ok_0@);
        assert(a == b);
        assert(a.len() == first->Ok_0@.len());
        assert forall|k: int| 0 <= k < first->Ok_0@.len() implies (#[trigger] first->Ok_0@[k])@
            == second->Ok_0@[k]@ by {
            assert(a[k] == b[k]);
        }
    }
}

/// While a conversion goes on, what identifies it stays: its victim, its
/// start, and its advantage player once one is known. Its attack list only
/// grows at the end.
pub proof fn lemma_context_is_latched(
    context: ContextView,
    cur: Seq<PlayerFrameSnapshot>,
    prev: Seq<PlayerFrameSnapshot>,
    i: usize,
    p: usize,
)
    requires
        transition(SlotView::Active(context), cur, prev, i, p) is Continue,
    ensures
        ({
            let next = transition(SlotView::Active(context), cur, prev, i, p)->Continue_0;
            &&& next matches SlotView::Active(later)
            &&& later.disadvantage_player == context.disadvantage_player
            &&& later.start_frame == context.start_frame
            &&& later.start_percent == context.start_percent
            &&& context.advantage_player is Some ==> later.advantage_player
                == context.advantage_player
            &&& context.attacks.len() <= later.attacks.len() <= context.attacks.len() + 1
            &&& later.attacks.take(context.attacks.len() as int) == context.attacks
        }),
{
    let next = transition(SlotView::Active(context), cur, prev, i, p)->Continue_0;
    let later = next->Active_0;
    assert(later.attacks.take(context.attacks.len() as int) =~= context.attacks);
}

/// A conversion closes as it stood: the record holds the context, aged by
/// the closing frame, that frame's index and the victim's percent on it.
pub proof fn lemma_record_holds_context(
    context: ContextView,
    cur: Seq<PlayerFrameSnapshot>,
    prev: Seq<PlayerFrameSnapshot>,
    i: usize,
    p: usize,
)
    requires
        transition(SlotView::Active(context), cur, prev, i, p) is Complete,
    ensures
        ({
            let record = transition(SlotView::Active(context), cur, prev, i, p)->Complete_0;
            &&& record.context == context.aged(cur[p as int])
            &&& record.context.advantage_player == context.advantage_player
            &&& record.context.attacks == context.attacks
            &&& record.end_frame == i
            &&& record.end_percent == cur[p as int].percent
        }),
{
}

/// A registered hit resets the timer and the recovery flag: wherever the
/// attack list grew, both are at their zero values, and the new attack is
/// the one that the frame shows.
pub proof fn lemma_hit_resets_timer(
    slot: SlotView,
    cur: Seq<PlayerFrameSnapshot>,
    prev: Seq<PlayerFrameSnapshot>,
    i: usize,
    p: usize,
)
    requires
        transition(slot, cur, prev, i, p) matches Transition::Continue(SlotView::Active(later))
            && (slot matches SlotView::Active(context) ==> later.attacks.len()
            > context.attacks.len()),
    ensures
        ({
            let later = transition(slot, cur, prev, i, p)->Continue_0->Active_0;
            &&& later.frames_since_last_hit == 0
            &&& !later.has_recovered
            &&& later.attacks.last() == crate::conversion::attribution(cur, p, i)
        }),
{
}

/// A conversion closes on a frame exactly when, counting that frame, its
/// victim has outlasted the recovery window and recovered, or has lost a stock.
pub proof fn lemma_closes_exactly_when(
    context: ContextView,
    cur: Seq<PlayerFrameSnapshot>,
    prev: Seq<PlayerFrameSnapshot>,
    i: usize,
    p: usize,
)
    ensures
        transition(SlotView::Active(context), cur, prev, i, p) is Complete <==> (context.aged(
            cur[p as int],
        ).timed_out() || stock_lost(cur[p as int].stocks as int, prev[p as int].stocks as int)),
        context.aged(cur[p as int]).timed_out() <==> (context.frames_since_last_hit
            >= crate::tracker::RECOVERY_WINDOW && (context.has_recovered
            || crate::action_state::grounded_actionable(cur[p as int].state))),
{
}

/// An idle slot never closes a conversion. It opens one exactly when its
/// player is in a hit state, whether or not the percent rose, and faults
/// where the attacker that the hit names is no slot of the frame.
pub proof fn lemma_idle_opens_exactly_on_hit(
    cur: Seq<PlayerFrameSnapshot>,
    prev: Seq<PlayerFrameSnapshot>,
    i: usize,
    p: usize,
)
    ensures
        !(transition(SlotView::Idle, cur, prev, i, p) is Complete),
        !hit_state(cur[p as int].state) ==> transition(SlotView::Idle, cur, prev, i, p)
            == Transition::Continue(SlotView::Idle),
        hit_state(cur[p as int].state) && crate::conversion::attributable(cur, p) ==> transition(
            SlotView::Idle,
            cur,
            prev,
            i,
            p,
        ) == Transition::Continue(SlotView::Active(crate::tracker::opened(cur, prev, i, p))),
        transition(SlotView::Idle, cur, prev, i, p) is Fault <==> (hit_state(cur[p as int].state)
            && !crate::conversion::attributable(cur, p)),
        ({
            let first = crate::tracker::opened(cur, prev, i, p);
            &&& first.disadvantage_player == p
            &&& first.start_frame == i
            &&& first.start_percent == prev[p as int].percent
            &&& first.advantage_player == attribution(cur, p, i).attacking_player
            &&& first.frames_since_last_hit == 0
            &&& !first.has_recovered
            &&& first.attacks == seq![attribution(cur, p, i)]
        }),
{
    let first = crate::tracker::opened(cur, prev, i, p);
    assert(first.attacks =~= seq![attribution(cur, p, i)]);
}

/// A lost stock closes the conversion on that very frame, whatever the
/// timer and the recovery flag say.
pub proof fn lemma_stock_loss_closes(
    context: ContextView,
    cur: Seq<PlayerFrameSnapshot>,
    prev: Seq<PlayerFrameSnapshot>,
    i: usize,
    p: usize,
)
    requires
        stock_lost(cur[p as int].stocks as int, prev[p as int].stocks as int),
    ensures
        transition(SlotView::Active(context), cur, prev, i, p) == Transition::Complete(
            RecordView {
                context: context.aged(cur[p as int]),
                end_frame: i,
                end_percent: cur[p as int].percent,
            },
        ),
{
}

/// A frame on which the victim took no damage does not extend the
/// conversion, in whatever state the victim is: if the conversion goes on,
/// no attack is appended and the timer has counted the frame.
pub proof fn lemma_no_damage_is_inert(
    context: ContextView,
    cur: Seq<PlayerFrameSnapshot>,
    prev: Seq<PlayerFrameSnapshot>,
    i: usize,
    p: usize,
)
    requires
        damage_between(cur[p as int].percent as int, prev[p as int].percent as int) == 0,
    ensures
        !(transition(SlotView::Active(context), cur, prev, i, p) is Fault),
        transition(SlotView::Active(context), cur, prev, i, p) is Continue ==> transition(
            SlotView::Active(context),
            cur,
            prev,
            i,
            p,
        ) == Transition::Continue(SlotView::Active(context.aged(cur[p as int]))),
        context.aged(cur[p as int]).attacks == context.attacks,
        context.aged(cur[p as int]).frames_since_last_hit == context.frames_since_last_hit + 1,
{
}

/// What holds of the context in slot `p` of a match of `n` players after
/// `seen` frames: it is about player `p`, its attacks are sound, its
/// advantage player is the first attacker known, and its timer counts the
/// frames seen since the last attack.
pub open spec fn context_sound(context: ContextView, p: int, n: nat, seen: int) -> bool {
    &&& context.disadvantage_player == p
    &&& p < n
    &&& attacks_sound(context.attacks, context.start_frame, seen, n)
    &&& context.advantage_player == first_known_attacker(context.attacks)
    &&& context.frames_since_last_hit == seen - 1 - context.attacks.last().frame_index
}

/// What holds of a tracker after any number of frames.
pub open spec fn tracker_sound(tracker: TrackerView) -> bool {
    &&& forall|p: int|
        0 <= p < tracker.slots.len() ==> ((#[trigger] tracker.slots[p]) matches SlotView::Active(
            context,
        ) ==> context_sound(context, p, tracker.slots.len(), tracker.frames_seen as int))
    &&& forall|k: int|
        0 <= k < tracker.records.len() ==> record_sound(
            #[trigger] tracker.records[k],
            tracker.slots.len(),
        ) && tracker.records[k].end_frame < tracker.frames_seen
    &&& forall|j: int, k: int|
        0 <= j < k < tracker.records.len() ==> closes_before(
            #[trigger] tracker.records[j],
            #[trigger] tracker.records[k],
        )
}

/// One more attack at the end of a list: the first known attacker is the
/// one known before, and else the attacker of the new attack.
proof fn lemma_first_known_attacker_push(attacks: Seq<AttackEvent>, hit: AttackEvent)
    ensures
        first_known_attacker(attacks.push(hit)) == match first_known_attacker(attacks) {
            Some(attacker) => Some(attacker),
            None => hit.attacking_player,
        },
{
    assert(attacks.push(hit).drop_last() =~= attacks);
}

/// A transition keeps a sound context sound and closes it into a sound
/// record.
proof fn lemma_transition_sound(
    slot: SlotView,
    cur: Seq<PlayerFrameSnapshot>,
    prev: Seq<PlayerFrameSnapshot>,
    i: usize,
    p: usize,
)
    requires
        p < cur.len(),
        i < usize::MAX,
        slot matches SlotView::Active(context) ==> context_sound(
            context,
            p as int,
            cur.len(),
            i as int,
        ),
        !(transition(slot, cur, prev, i, p) is Fault),
    ensures
        match transition(slot, cur, prev, i, p) {
            Transition::Continue(SlotView::Active(later)) => context_sound(
                later,
                p as int,
                cur.len(),
                i + 1,
            ),
            Transition::Complete(record) => record_sound(record, cur.len()) && record.end_frame
                == i && record.context.disadvantage_player == p,
            _ => true,
        },
{
    let hit = attribution(cur, p, i);
    match slot {
        SlotView::Idle => {
            if hit_state(cur[p as int].state) {
                let later = transition(slot, cur, prev, i, p)->Continue_0->Active_0;
                lemma_first_known_attacker_push(Seq::empty(), hit);
                assert(later.attacks =~= seq![hit]);
            }
        },
        SlotView::Active(context) => {
            match transition(slot, cur, prev, i, p) {
                Transition::Continue(SlotView::Active(later)) => {
                    if later.attacks.len() > context.attacks.len() {
                        lemma_first_known_attacker_push(context.attacks, hit);
                        assert(later.attacks == context.attacks.push(hit));
                        assert forall|j: int, k: int|
                            0 <= j < k < later.attacks.len() implies (
                        #[trigger] later.attacks[j]).frame_index
                            < (#[trigger] later.attacks[k]).frame_index by {
                            if k < context.attacks.len() {
                                assert(later.attacks[j] == context.attacks[j]);
                                assert(later.attacks[k] == context.attacks[k]);
                            } else {
                                assert(later.attacks[j] == context.attacks[j]);
                            }
                        }
                    }
                },
                _ => {},
            }
        },
    }
}

/// The conversions that close on one frame are sound, closed on that
/// frame, and stand by ascending slot.
proof fn lemma_completions_sound(
    tracker: TrackerView,
    cur: Seq<PlayerFrameSnapshot>,
    upto: nat,
)
    requires
        tracker_sound(tracker),
        tracker.frames_seen < usize::MAX,
        cur.len() == tracker.slots.len(),
        upto <= tracker.slots.len() <= usize::MAX,
        first_fault(
            tracker.slots,
            cur,
            tracker.reference(cur),
            tracker.frames_seen,
            tracker.slots.len(),
        ) is None,
    ensures
        ({
            let batch = completions(
                tracker.slots,
                cur,
                tracker.reference(cur),
                tracker.frames_seen,
                upto,
            );
            &&& forall|k: int|
                0 <= k < batch.len() ==> record_sound(#[trigger] batch[k], tracker.slots.len())
                    && batch[k].end_frame == tracker.frames_seen
                    && batch[k].context.disadvantage_player < upto
            &&& forall|j: int, k: int|
                0 <= j < k < batch.len() ==> closes_before(#[trigger] batch[j], #[trigger] batch[k])
        }),
    decreases upto,
{
    if upto > 0 {
        let prev = tracker.reference(cur);
        let i = tracker.frames_seen;
        let p = (upto - 1) as usize;
        lemma_completions_sound(tracker, cur, (upto - 1) as nat);
        crate::tracker::lemma_no_fault(tracker.slots, cur, prev, i, tracker.slots.len(), p as int);
        lemma_transition_sound(tracker.slots[p as int], cur, prev, i, p);
    }
}

/// A sound tracker is sound after every frame it accepts.
pub proof fn lemma_observed_sound(tracker: TrackerView, cur: Seq<PlayerFrameSnapshot>)
    requires
        tracker_sound(tracker),
        tracker.frames_seen < usize::MAX,
        tracker.slots.len() <= usize::MAX,
        tracker.observed(cur) is Ok,
    ensures
        tracker_sound(tracker.observed(cur)->Ok_0),
{
    let next = tracker.observed(cur)->Ok_0;
    let prev = tracker.reference(cur);
    let i = tracker.frames_seen;
    let n = tracker.slots.len();
    let batch = completions(tracker.slots, cur, prev, i, n);
    lemma_completions_sound(tracker, cur, n);
    assert forall|p: int| 0 <= p < next.slots.len() implies ((
    #[trigger] next.slots[p]) matches SlotView::Active(context) ==> context_sound(
        context,
        p,
        next.slots.len(),
        next.frames_seen as int,
    )) by {
        crate::tracker::lemma_no_fault(tracker.slots, cur, prev, i, n, p);
        lemma_transition_sound(tracker.slots[p], cur, prev, i, p as usize);
    }
    assert forall|k: int| 0 <= k < next.records.len() implies record_sound(
        #[trigger] next.records[k],
        next.slots.len(),
    ) && next.records[k].end_frame < next.frames_seen by {
        if k < tracker.records.len() {
            assert(next.records[k] == tracker.records[k]);
        } else {
            assert(next.records[k] == batch[k - tracker.records.len()]);
        }
    }
    assert forall|j: int, k: int| 0 <= j < k < next.records.len() implies closes_before(
        #[trigger] next.records[j],
        #[trigger] next.records[k],
    ) by {
        let m = tracker.records.len() as int;
        if k < m {
            assert(next.records[j] == tracker.records[j]);
            assert(next.records[k] == tracker.records[k]);
        } else if j < m {
            assert(next.records[j] == tracker.records[j]);
            assert(next.records[k] == batch[k - m]);
        } else {
            assert(next.records[j] == batch[j - m]);
            assert(next.records[k] == batch[k - m]);
        }
    }
}

/// After a scan that met no error the tracker is sound.
pub proof fn lemma_scan_sound(frames: Seq<Seq<PlayerFrameSnapshot>>, n: usize)
    requires
        frames.len() <= usize::MAX,
    ensures
        scan(frames, n) matches Ok(tracker) ==> tracker_sound(tracker) && tracker.slots.len() == n
            && tracker.frames_seen == frames.len(),
    decreases frames.len(),
{
    lemma_scan_wf(frames, n);
    if frames.len() > 0 {
        lemma_scan_sound(frames.drop_last(), n);
        if let Ok(before) = scan(frames.drop_last(), n) {
            if before.observed(frames.last()) is Ok {
                lemma_observed_sound(before, frames.last());
            }
        }
    }
}

/// The records of a match stand in the order in which the conversions
/// closed: by ascending frame, and by ascending slot within a frame.
pub proof fn lemma_records_in_closing_order(
    frames: Seq<Seq<PlayerFrameSnapshot>>,
    n: usize,
    j: int,
    k: int,
)
    requires
        frames.len() <= usize::MAX,
        conversions(frames, n) is Ok,
        0 <= j < k < conversions(frames, n)->Ok_0.len(),
    ensures
        closes_before(conversions(frames, n)->Ok_0[j], conversions(frames, n)->Ok_0[k]),
{
    lemma_scan_sound(frames, n);
}

/// Every record of a match is sound, and closed on a frame of the match.
pub proof fn lemma_records_are_sound(frames: Seq<Seq<PlayerFrameSnapshot>>, n: usize, k: int)
    requires
        frames.len() <= usize::MAX,
        conversions(frames, n) is Ok,
        0 <= k < conversions(frames, n)->Ok_0.len(),
    ensures
        record_sound(conversions(frames, n)->Ok_0[k], n as nat),
        conversions(frames, n)->Ok_0[k].end_frame < frames.len(),
{
    lemma_scan_sound(frames, n);
}

/// No player is ever in a hit state.
pub open spec fn quiet(frames: Seq<Seq<PlayerFrameSnapshot>>) -> bool {
    forall|k: int, p: int|
        0 <= k < frames.len() && 0 <= p < frames[k].len() ==> !hit_state(
            (#[trigger] frames[k][p]).state,
        )
}

/// On a frame where no player is in a hit state, idle slots stay idle:
/// none faults and none closes a conversion.
proof fn lemma_quiet_frame(
    slots: Seq<SlotView>,
    cur: Seq<PlayerFrameSnapshot>,
    prev: Seq<PlayerFrameSnapshot>,
    i: usize,
    upto: nat,
)
    requires
        upto <= slots.len() == cur.len(),
        slots.len() <= usize::MAX,
        forall|p: int| 0 <= p < slots.len() ==> #[trigger] slots[p] is Idle,
        forall|p: int| 0 <= p < cur.len() ==> !hit_state((#[trigger] cur[p]).state),
    ensures
        first_fault(slots, cur, prev, i, upto) is None,
        completions(slots, cur, prev, i, upto) == Seq::<RecordView>::empty(),
    decreases upto,
{
    if upto > 0 {
        lemma_quiet_frame(slots, cur, prev, i, (upto - 1) as nat);
        let p = (upto - 1) as int;
        assert(slots[p] is Idle);
        assert(!hit_state(cur[p].state));
    }
}

/// A match in which no player is ever in a hit state leaves every slot
/// idle.
proof fn lemma_quiet_scan(frames: Seq<Seq<PlayerFrameSnapshot>>, n: usize)
    requires
        quiet(frames),
        forall|k: int| 0 <= k < frames.len() ==> (#[trigger] frames[k]).len() == n,
    ensures
        scan(frames, n) matches Ok(tracker) && tracker.slots.len() == n
            && tracker.records.len() == 0 && forall|p: int|
            0 <= p < n ==> #[trigger] tracker.slots[p] is Idle,
    decreases frames.len(),
{
    if frames.len() > 0 {
        let earlier = frames.drop_last();
        assert forall|k: int, p: int|
            0 <= k < earlier.len() && 0 <= p < earlier[k].len() implies !hit_state(
            (#[trigger] earlier[k][p]).state,
        ) by {
            assert(earlier[k] == frames[k]);
            assert(!hit_state(frames[k][p].state));
        }
        assert forall|k: int| 0 <= k < earlier.len() implies (#[trigger] earlier[k]).len()
            == n by {
            assert(earlier[k] == frames[k]);
        }
        lemma_quiet_scan(earlier, n);
        let before = scan(earlier, n)->Ok_0;
        let cur = frames.last();
        assert(cur == frames[frames.len() - 1]);
        assert forall|p: int| 0 <= p < cur.len() implies !hit_state((#[trigger] cur[p]).state) by {
            assert(!hit_state(frames[frames.len() - 1][p].state));
        }
        lemma_quiet_frame(before.slots, cur, before.reference(cur), before.frames_seen, n as nat);
        let after = before.observed(cur)->Ok_0;
        assert(after.records =~= Seq::<RecordView>::empty());
        assert forall|p: int| 0 <= p < n implies #[trigger] after.slots[p] is Idle by {
            assert(before.slots[p] is Idle);
            assert(!hit_state(cur[p].state));
        }
    }
}

/// A match in which every frame holds one snapshot per player and no
/// player is ever damaged, grabbed or command-grabbed has no conversion.
pub proof fn lemma_quiet_match_has_no_conversion(frames: Seq<Seq<PlayerFrameSnapshot>>, n: usize)
    requires
        quiet(frames),
        forall|k: int| 0 <= k < frames.len() ==> (#[trigger] frames[k]).len() == n,
    ensures
        conversions(frames, n) == Ok::<Seq<RecordView>, ScanError>(Seq::empty()),
{
    lemma_quiet_scan(frames, n);
    assert(scan(frames, n)->Ok_0.records =~= Seq::<RecordView>::empty());
}

} // verus!
