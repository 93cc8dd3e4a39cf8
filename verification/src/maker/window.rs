//! Pause windows: what holds over a row of steps.
use crate::maker::cids::{InFlight, Side};
use crate::maker::pause;
use crate::maker::pause::{BboRatio, Signals};
use crate::maker::router::Entry;
use crate::maker::state::State;
use vstd::prelude::*;

verus! {

/// Something that happens to the state.
pub enum Step {
    /// `pause_edge_update`, with these unanswered actions.
    Update { inflight: Map<Seq<u8>, InFlight>, sig: Signals, ratio: BboRatio, now_ms: u64 },
    /// `reconcile_entry`.
    Entry { side: Side, now_ms: u64 },
    /// Anything else: the latch of the pause and the numbers of the pauses are left
    /// alone.
    Other,
}

/// The step leads from `a` to `b`.
#[verifier::opaque]
pub open spec fn leads(a: State, step: Step, b: State) -> bool {
    match step {
        Step::Update { inflight, sig, ratio, now_ms } => b == a.pause_updated(
            inflight,
            sig,
            ratio,
            now_ms,
        ),
        Step::Entry { side, now_ms } => b == a.entered(side, now_ms),
        Step::Other => {
            &&& b.was_paused == a.was_paused
            &&& b.pause_epoch == a.pause_epoch
            &&& b.cancelled_epoch == a.cancelled_epoch
        },
    }
}

/// Each step leads from its state to the next.
pub open spec fn is_row(states: Seq<State>, steps: Seq<Step>) -> bool {
    &&& states.len() == steps.len() + 1
    &&& forall|k: int|
        0 <= k < steps.len() ==> leads(#[trigger] states[k], steps[k], states[k + 1])
}

/// What a step does to the latch of the pause: 1 where a pause begins, -1 where it
/// ends, 0 otherwise.
pub open spec fn edge(a: State, step: Step) -> int {
    match step {
        Step::Update { sig, .. } => pause::latch_edge(a.was_paused, a.paused_by(sig)),
        _ => 0,
    }
}

/// The step asks for the cancels of a pause.
pub open spec fn asks_cancels(a: State, step: Step) -> bool {
    match step {
        Step::Update { inflight, .. } => {
            &&& edge(a, step) == 1
            &&& pause::has_work(a, inflight, Side::Buy) || pause::has_work(a, inflight, Side::Sell)
        },
        Step::Entry { side, now_ms } => a.entry(side, now_ms) is CancelAll,
        Step::Other => false,
    }
}

/// What a step does to the latch and to the numbers of the pauses.
proof fn lemma_step(a: State, step: Step, b: State)
    requires
        leads(a, step, b),
    ensures
        b.was_paused == (a.was_paused && edge(a, step) != -1 || edge(a, step) == 1),
        edge(a, step) == 1 ==> !a.was_paused,
        b.pause_epoch == if edge(a, step) == 1 {
            pause::next_epoch(a)
        } else {
            a.pause_epoch
        },
        b.cancelled_epoch == if asks_cancels(a, step) {
            Some(b.pause_epoch)
        } else {
            a.cancelled_epoch
        },
        asks_cancels(a, step) && edge(a, step) != 1 ==> a.cancelled_epoch != Some(a.pause_epoch),
{
    reveal(leads);
}

/// Between two updates that begin a pause lies one that ends it.
pub proof fn law_pause_begins_once(states: Seq<State>, steps: Seq<Step>, i: int, j: int)
    requires
        is_row(states, steps),
        0 <= i < j < steps.len(),
        edge(states[i], steps[i]) == 1,
        edge(states[j], steps[j]) == 1,
    ensures
        exists|k: int| i < k < j && edge(#[trigger] states[k], steps[k]) == -1,
{
    lemma_step(states[i], steps[i], states[i + 1]);
    lemma_latch_goes_down(states, steps, i + 1, j);
}

proof fn lemma_latch_goes_down(states: Seq<State>, steps: Seq<Step>, i: int, j: int)
    requires
        is_row(states, steps),
        0 <= i <= j < steps.len(),
        states[i].was_paused,
        !states[j].was_paused,
    ensures
        exists|k: int| i <= k < j && edge(#[trigger] states[k], steps[k]) == -1,
    decreases j - i,
{
    lemma_step(states[i], steps[i], states[i + 1]);
    if edge(states[i], steps[i]) != -1 {
        lemma_latch_goes_down(states, steps, i + 1, j);
    }
}

/// Counting on by less than a full turn does not lead back.
proof fn lemma_wraps(e: int, n: int)
    requires
        0 <= e < 0x1_0000_0000_0000_0000,
        0 <= n < u64::MAX,
    ensures
        ((e + n) % 0x1_0000_0000_0000_0000 + 1) % 0x1_0000_0000_0000_0000 == (e + n + 1)
            % 0x1_0000_0000_0000_0000,
        n > 0 ==> (e + n) % 0x1_0000_0000_0000_0000 != e,
        (e + n + 1) % 0x1_0000_0000_0000_0000 != e,
{
}

/// The number of the pause is `n` pauses behind `epoch`.
spec fn pauses_behind(s: State, epoch: u64, n: int) -> bool {
    s.pause_epoch == (epoch + n) % 0x1_0000_0000_0000_0000
}

/// After a step that asked for cancels, either that pause is still the last one
/// and its cancels are noted, or later ones have begun.
proof fn lemma_epochs_move_on(states: Seq<State>, steps: Seq<Step>, i: int, k: int) -> (n: int)
    requires
        is_row(states, steps),
        states.len() <= u64::MAX,
        0 <= i < k < states.len(),
        asks_cancels(states[i], steps[i]),
    ensures
        0 <= n < k - i,
        pauses_behind(states[k], states[i + 1].pause_epoch, n),
        n == 0 ==> states[k].cancelled_epoch == Some(states[k].pause_epoch),
    decreases k,
{
    lemma_step(states[i], steps[i], states[i + 1]);
    if k == i + 1 {
        0
    } else {
        let n = lemma_epochs_move_on(states, steps, i, k - 1);
        lemma_step(states[k - 1], steps[k - 1], states[k]);
        lemma_wraps(states[i + 1].pause_epoch as int, n);
        if edge(states[k - 1], steps[k - 1]) == 1 {
            n + 1
        } else {
            n
        }
    }
}

/// The cancels of a pause go out once: two steps that ask for cancels belong to
/// different pauses. The row is shorter than the numbers of the pauses go.
pub proof fn law_cancels_once_per_pause(states: Seq<State>, steps: Seq<Step>, i: int, j: int)
    requires
        is_row(states, steps),
        states.len() <= u64::MAX,
        0 <= i < j < steps.len(),
        asks_cancels(states[i], steps[i]),
        asks_cancels(states[j], steps[j]),
    ensures
        states[i + 1].pause_epoch != states[j + 1].pause_epoch,
{
    let n = lemma_epochs_move_on(states, steps, i, j);
    lemma_step(states[i], steps[i], states[i + 1]);
    lemma_step(states[j], steps[j], states[j + 1]);
    lemma_wraps(states[i + 1].pause_epoch as int, n);
}

/// Within one pause, once its cancels were asked for, the start of work on a side
/// asks for none, whatever the side.
pub proof fn law_entry_stops_after_cancels(s: State, side: Side, now_ms: u64, again: Side, later_ms: u64)
    requires
        s.entry(side, now_ms) is CancelAll,
    ensures
        s.entered(side, now_ms).entry(again, later_ms) == Entry::Stop,
        s.entered(side, now_ms).bid_id == s.bid_id,
        s.entered(side, now_ms).ask_id == s.ask_id,
        s.entered(side, now_ms).bid_px_x100 == s.bid_px_x100,
        s.entered(side, now_ms).ask_px_x100 == s.ask_px_x100,
        s.entered(side, now_ms).entered(again, later_ms) == s.entered(side, now_ms),
{
}

} // verus!
