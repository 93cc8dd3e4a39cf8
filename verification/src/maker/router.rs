//! Keeping one order of a side at its price: what to place and what to cancel.
use crate::maker::cids;
use crate::maker::cids::{CidMap, InFlight, Side};
use crate::maker::pause;
use crate::maker::pause::BboRatio;
use crate::maker::state;
use crate::maker::state::{State, MAX_INVENTORY_E6, MIN_REQUOTE_MS};
use vstd::prelude::*;

verus! {

/// Hundredths by which a side of the book may move while an order is sent: half
/// of what it takes to quote anew.
pub const STALE_MOVE_X100: i64 = 2;

/// Whether a side may be worked on at all.
#[derive(Debug, Clone, Copy, PartialEq, Eq, Structural)]
pub enum Entry {
    /// It may.
    Go,
    /// Nothing is to be done.
    Stop,
    /// Quoting is paused: the resting orders, 0 for none, are to be cancelled.
    CancelAll { bid_id: i64, ask_id: i64 },
}

/// What to do on a side.
#[derive(Debug, Clone, Copy, PartialEq, Eq, Structural)]
pub enum Gate {
    /// Nothing.
    Idle,
    /// The position is at its limit: cancel the order of this side, 0 for none,
    /// and turn to the other side.
    AtCap { cancel_id: i64 },
    /// There is no order: place one.
    Place,
    /// There is an order: cancel it where its price is off.
    Resting { order_id: i64, px_x100: i64 },
}

/// What an order that is being sent is held against.
#[derive(Debug, Clone, Copy, PartialEq, Eq, Structural)]
pub struct PlaceTicket {
    pub pause_epoch: u64,
    pub bid_x100: i64,
    pub ask_x100: i64,
}

/// What becomes of an order once it was sent, or not.
#[derive(Debug, Clone, Copy, PartialEq, Eq, Structural)]
pub enum PlaceOutcome {
    NotSent,
    /// A pause began meanwhile: cancel it.
    CancelPaused,
    /// The book moved meanwhile: cancel it.
    CancelStale,
    /// It stands at its price.
    Placed,
}

/// The larger minus the smaller.
pub open spec fn distance(a: i64, b: i64) -> int {
    if a >= b {
        a - b
    } else {
        b - a
    }
}

fn moved_beyond(a: i64, b: i64, limit: i64) -> (r: bool)
    ensures
        r == (distance(a, b) > limit),
{
    let d: i128 = if a >= b {
        a as i128 - b as i128
    } else {
        b as i128 - a as i128
    };
    d > limit as i128
}

/// A map as it is where something was sent under `cid`, and without `cid` where not.
pub open spec fn kept_if<V>(sent: bool, m: Map<Seq<u8>, V>, cid: Seq<u8>) -> Map<Seq<u8>, V> {
    if sent {
        m
    } else {
        m.remove(cid)
    }
}

/// The unanswered actions with one more, of a side, under `cid`, sent at `now_ms`.
pub open spec fn noted(
    m: Map<Seq<u8>, InFlight>,
    side: Side,
    cid: Seq<u8>,
    now_ms: u64,
) -> Map<Seq<u8>, InFlight> {
    m.insert(cid, InFlight { side, since_ms: now_ms })
}

impl State {
    /// Whether a side may be worked on at `now_ms`. During a pause, the buy side
    /// alone asks for the cancels, and only where the cancels of this pause have
    /// not gone out yet.
    pub open spec fn entry(self, side: Side, now_ms: u64) -> Entry {
        if self.halted || now_ms < self.rate_limit_until_ms {
            Entry::Stop
        } else if !self.was_paused {
            Entry::Go
        } else if side == Side::Buy && (self.bid_id != 0 || self.ask_id != 0)
            && self.cancelled_epoch != Some(self.pause_epoch) {
            Entry::CancelAll { bid_id: self.bid_id, ask_id: self.ask_id }
        } else {
            Entry::Stop
        }
    }

    /// This state once that was decided: sides whose order is to be cancelled cool
    /// down, and the cancels of the pause count as sent.
    pub open spec fn entered(self, side: Side, now_ms: u64) -> State {
        match self.entry(side, now_ms) {
            Entry::CancelAll { bid_id, ask_id } => {
                let s1 = State { cancelled_epoch: Some(self.pause_epoch), ..self };
                let s2 = if bid_id != 0 {
                    s1.cancel_sent(Side::Buy, now_ms)
                } else {
                    s1
                };
                if ask_id != 0 {
                    s2.cancel_sent(Side::Sell, now_ms)
                } else {
                    s2
                }
            },
            _ => self,
        }
    }

    /// Whether the cancels of the current pause have gone out.
    fn pause_is_cancelled(&self) -> (b: bool)
        ensures
            b == (self.cancelled_epoch == Some(self.pause_epoch)),
    {
        match self.cancelled_epoch {
            Some(epoch) => epoch == self.pause_epoch,
            None => false,
        }
    }

    /// Decides whether a side may be worked on. Sides whose order is to be
    /// cancelled cool down; the orders stay noted until the exchange confirms.
    pub fn reconcile_entry(&mut self, side: Side, now_ms: u64) -> (entry: Entry)
        requires
            state::clock_ok(now_ms),
        ensures
            entry == old(self).entry(side, now_ms),
            *final(self) == old(self).entered(side, now_ms),
    {
        if self.halted || now_ms < self.rate_limit_until_ms {
            return Entry::Stop;
        }
        if !self.pause_edge_check() {
            return Entry::Go;
        }
        let bid_id: i64 = self.bid_id;
        let ask_id: i64 = self.ask_id;
        if side != Side::Buy || (bid_id == 0 && ask_id == 0) || self.pause_is_cancelled() {
            return Entry::Stop;
        }
        self.cancelled_epoch = Some(self.pause_epoch);
        if bid_id != 0 {
            self.note_cancel(Side::Buy, now_ms);
        }
        if ask_id != 0 {
            self.note_cancel(Side::Sell, now_ms);
        }
        Entry::CancelAll { bid_id, ask_id }
    }

    /// The position is at the limit that an order of this side would exceed.
    pub open spec fn at_cap(self, side: Side) -> bool {
        match side {
            Side::Buy => self.inventory_e6 >= MAX_INVENTORY_E6,
            Side::Sell => self.inventory_e6 <= -MAX_INVENTORY_E6,
        }
    }

    /// A one-sided book threatens this side.
    pub open spec fn bbo_blocked(self, side: Side, ratio: BboRatio) -> bool {
        ratio.above_unpause && self.threatened() == Some(side)
    }

    /// What to do on a side, `m` being the unanswered actions.
    pub open spec fn gate(
        self,
        m: Map<Seq<u8>, InFlight>,
        side: Side,
        ratio: BboRatio,
        now_ms: u64,
    ) -> Gate {
        if self.at_cap(side) {
            Gate::AtCap { cancel_id: self.id(side) }
        } else if (if now_ms >= self.last_requote_ms(side) {
            now_ms - self.last_requote_ms(side)
        } else {
            0
        }) < MIN_REQUOTE_MS {
            Gate::Idle
        } else if now_ms < self.post_cancel_ms(side) || self.bbo_blocked(side, ratio)
            || pause::busy(m, side) {
            Gate::Idle
        } else if self.id(side) == 0 {
            Gate::Place
        } else {
            Gate::Resting { order_id: self.id(side), px_x100: self.px_x100(side) }
        }
    }

    /// Decides what to do on a side.
    pub fn reconcile_gate(
        &self,
        inflight: &CidMap<InFlight>,
        side: Side,
        ratio: &BboRatio,
        now_ms: u64,
    ) -> (gate: Gate)
        ensures
            gate == self.gate(inflight@, side, *ratio, now_ms),
    {
        let at_cap = match side {
            Side::Buy => self.inventory_e6 >= MAX_INVENTORY_E6,
            Side::Sell => self.inventory_e6 <= -MAX_INVENTORY_E6,
        };
        if at_cap {
            return Gate::AtCap { cancel_id: self.order_id(side) };
        }
        let (last_requote, cooldown) = match side {
            Side::Buy => (self.last_requote_buy_ms, self.post_cancel_buy_ms),
            Side::Sell => (self.last_requote_sell_ms, self.post_cancel_sell_ms),
        };
        if now_ms.saturating_sub(last_requote) < MIN_REQUOTE_MS {
            return Gate::Idle;
        }
        if now_ms < cooldown {
            return Gate::Idle;
        }
        if ratio.above_unpause {
            if let Some(threatened) = self.threatened_side() {
                if threatened == side {
                    return Gate::Idle;
                }
            }
        }
        let unanswered: usize = inflight.inflight_count(side);
        proof {
            lemma_busy_counts(inflight@, side);
        }
        if unanswered > 0 {
            return Gate::Idle;
        }
        let order_id: i64 = self.order_id(side);
        if order_id == 0 {
            Gate::Place
        } else {
            Gate::Resting { order_id, px_x100: self.order_px_x100(side) }
        }
    }

    /// This state turned to the other side because the position is at its limit.
    pub open spec fn capped(self, side: Side, cancelled: bool, now_ms: u64) -> State {
        let s1 = if cancelled {
            self.cancel_sent(side, now_ms)
        } else {
            self
        };
        s1.quoting(side.other_spec())
    }

    /// Turns to the other side because the position is at its limit, once the
    /// order of this side was cancelled, if there was one. Says whether that is
    /// a change.
    pub fn apply_inventory_cap(&mut self, side: Side, cancelled: bool, now_ms: u64) -> (flipped:
        bool)
        requires
            state::clock_ok(now_ms),
        ensures
            flipped == (old(self).active_side == side),
            *final(self) == old(self).capped(side, cancelled, now_ms),
    {
        if cancelled {
            self.note_cancel(side, now_ms);
        }
        self.flip_to(side.other())
    }

    /// What an order that is about to be sent is held against.
    pub open spec fn ticket(self) -> PlaceTicket {
        PlaceTicket {
            pause_epoch: self.pause_epoch,
            bid_x100: self.spot_bid_x100,
            ask_x100: self.spot_ask_x100,
        }
    }

    /// Notes that an order under `cid` is about to be sent, unless a pause began
    /// in the meantime.
    pub fn begin_place(
        &self,
        inflight: &mut CidMap<InFlight>,
        cid_sides: &mut CidMap<Side>,
        side: Side,
        cid: &[u8],
        now_ms: u64,
    ) -> (res: Option<PlaceTicket>)
        ensures
            match res {
                Some(ticket) => {
                    &&& !self.was_paused
                    &&& ticket == self.ticket()
                    &&& final(inflight)@ == noted(old(inflight)@, side, cid@, now_ms)
                    &&& final(cid_sides)@ == old(cid_sides)@.insert(cid@, side)
                },
                None => {
                    &&& self.was_paused
                    &&& final(inflight)@ == old(inflight)@
                    &&& final(cid_sides)@ == old(cid_sides)@
                },
            },
    {
        if self.was_paused {
            return None;
        }
        inflight.insert(cid, InFlight { side, since_ms: now_ms });
        cid_sides.insert(cid, side);
        Some(
            PlaceTicket {
                pause_epoch: self.pause_epoch,
                bid_x100: self.spot_bid_x100,
                ask_x100: self.spot_ask_x100,
            },
        )
    }

    /// A pause began since an order was about to be sent.
    pub open spec fn superseded(self, ticket: PlaceTicket) -> bool {
        self.pause_epoch != ticket.pause_epoch
    }

    /// This state once the cancel of such an order was noted.
    pub open spec fn supersede_noted(self, ticket: PlaceTicket, side: Side, now_ms: u64) -> State {
        if self.superseded(ticket) {
            self.cancel_sent(side, now_ms)
        } else {
            self
        }
    }

    /// Whether a pause began since an order was about to be sent, so that it is
    /// to be cancelled by its client id; the cancel is noted.
    pub fn place_superseded(&mut self, ticket: &PlaceTicket, side: Side, now_ms: u64) -> (b: bool)
        requires
            state::clock_ok(now_ms),
        ensures
            b == old(self).superseded(*ticket),
            *final(self) == old(self).supersede_noted(*ticket, side, now_ms),
    {
        if self.pause_epoch == ticket.pause_epoch {
            return false;
        }
        self.note_cancel(side, now_ms);
        true
    }

    /// A side of the traded book stands more than the allowance away from where
    /// it stood; an unknown book counts as unmoved.
    pub open spec fn bbo_moved(self, bid_x100: i64, ask_x100: i64) -> bool {
        &&& bid_x100 != 0 && ask_x100 != 0
        &&& self.spot_bid_x100 != 0 && self.spot_ask_x100 != 0
        &&& distance(self.spot_bid_x100, bid_x100) > STALE_MOVE_X100 || distance(
            self.spot_ask_x100,
            ask_x100,
        ) > STALE_MOVE_X100
    }

    /// Whether the traded book moved while an order was sent.
    pub fn bbo_moved_during_send(&self, bid_at_send_x100: i64, ask_at_send_x100: i64) -> (b: bool)
        ensures
            b == self.bbo_moved(bid_at_send_x100, ask_at_send_x100),
    {
        if bid_at_send_x100 == 0 || ask_at_send_x100 == 0 {
            return false;
        }
        if self.spot_bid_x100 == 0 || self.spot_ask_x100 == 0 {
            return false;
        }
        moved_beyond(self.spot_bid_x100, bid_at_send_x100, STALE_MOVE_X100) || moved_beyond(
            self.spot_ask_x100,
            ask_at_send_x100,
            STALE_MOVE_X100,
        )
    }

    /// What becomes of an order that was sent.
    pub open spec fn placed(self, ticket: PlaceTicket, sent: bool) -> PlaceOutcome {
        if !sent {
            PlaceOutcome::NotSent
        } else if self.superseded(ticket) || self.was_paused {
            PlaceOutcome::CancelPaused
        } else if self.bbo_moved(ticket.bid_x100, ticket.ask_x100) {
            PlaceOutcome::CancelStale
        } else {
            PlaceOutcome::Placed
        }
    }

    /// This state once an order was sent at `now_ms`, or could not be.
    pub open spec fn place_noted(
        self,
        ticket: PlaceTicket,
        side: Side,
        sent: bool,
        px_x100: i64,
        gate_ms: u64,
        now_ms: u64,
    ) -> State {
        let s1 = self.with_last_action_ms(side, now_ms);
        let s2 = s1.with_last_requote_ms(side, gate_ms);
        match self.placed(ticket, sent) {
            PlaceOutcome::NotSent => s1,
            PlaceOutcome::CancelPaused => s2.cancel_sent(side, now_ms),
            PlaceOutcome::CancelStale => s2.cancel_sent(side, now_ms),
            PlaceOutcome::Placed => s2.with_px_x100(side, px_x100),
        }
    }

    /// Notes at `now_ms` that an order was sent, or that it could not be. The
    /// decision to send it was made at `gate_ms`; its price counts from now on,
    /// its id once the exchange confirms. A side whose order is to be cancelled at
    /// once cools down.
    pub fn on_place_sent(
        &mut self,
        ticket: &PlaceTicket,
        side: Side,
        sent: bool,
        px_x100: i64,
        gate_ms: u64,
        now_ms: u64,
    ) -> (outcome: PlaceOutcome)
        requires
            state::clock_ok(now_ms),
        ensures
            outcome == old(self).placed(*ticket, sent),
            *final(self) == old(self).place_noted(*ticket, side, sent, px_x100, gate_ms, now_ms),
    {
        self.stamp_action(side, now_ms);
        if !sent {
            return PlaceOutcome::NotSent;
        }
        match side {
            Side::Buy => self.last_requote_buy_ms = gate_ms,
            Side::Sell => self.last_requote_sell_ms = gate_ms,
        }
        if self.pause_epoch != ticket.pause_epoch || self.was_paused {
            self.note_cancel(side, now_ms);
            return PlaceOutcome::CancelPaused;
        }
        if self.bbo_moved_during_send(ticket.bid_x100, ticket.ask_x100) {
            self.note_cancel(side, now_ms);
            return PlaceOutcome::CancelStale;
        }
        self.set_order_px_x100(side, px_x100);
        PlaceOutcome::Placed
    }

    /// This state once a cancel was sent at `now_ms`, or could not be.
    pub open spec fn cancel_noted(self, side: Side, sent: bool, now_ms: u64) -> State {
        if sent {
            self.cancel_sent(side, now_ms)
        } else {
            self
        }
    }

    /// Notes at `now_ms` whether a cancel under `cid` was sent: the side cools
    /// down then, and is free again where it was not.
    pub fn on_cancel_sent(
        &mut self,
        inflight: &mut CidMap<InFlight>,
        cid_sides: &mut CidMap<Side>,
        side: Side,
        cid: &[u8],
        sent: bool,
        now_ms: u64,
    )
        requires
            state::clock_ok(now_ms),
        ensures
            *final(self) == old(self).cancel_noted(side, sent, now_ms),
            final(inflight)@ == kept_if(sent, old(inflight)@, cid@),
            final(cid_sides)@ == kept_if(sent, old(cid_sides)@, cid@),
    {
        if !sent {
            inflight.remove(cid);
            cid_sides.remove(cid);
            return;
        }
        self.note_cancel(side, now_ms);
    }
}

/// A resting order is to be cancelled for a new one.
pub open spec fn replaces(drift_small: bool, adverse: bool, same_price: bool) -> bool {
    (!drift_small || adverse) && !same_price
}

/// Whether a resting order is cancelled for a new one: its price has drifted or
/// stands too near the fair value, and the new price differs by half a tick.
pub fn should_replace(drift_small: bool, adverse: bool, same_price: bool) -> (b: bool)
    ensures
        b == replaces(drift_small, adverse, same_price),
{
    if drift_small && !adverse {
        return false;
    }
    !same_price
}

/// Notes that a cancel under `cid` is about to be sent, so that the side counts
/// as busy until it is answered.
pub fn begin_cancel(
    inflight: &mut CidMap<InFlight>,
    cid_sides: &mut CidMap<Side>,
    side: Side,
    cid: &[u8],
    now_ms: u64,
)
    ensures
        final(inflight)@ == noted(old(inflight)@, side, cid@, now_ms),
        final(cid_sides)@ == old(cid_sides)@.insert(cid@, side),
{
    inflight.insert(cid, InFlight { side, since_ms: now_ms });
    cid_sides.insert(cid, side);
}

proof fn lemma_busy_counts(m: Map<Seq<u8>, InFlight>, side: Side)
    requires
        cids::ids_of_side(m, side).finite(),
    ensures
        (cids::ids_of_side(m, side).len() > 0) == pause::busy(m, side),
{
    let ids = cids::ids_of_side(m, side);
    if pause::busy(m, side) {
        let id = choose|id: Seq<u8>| #[trigger] m.contains_key(id) && m[id].side == side;
        assert(ids.contains(id));
        if ids.len() == 0 {
            vstd::set_lib::lemma_set_empty_equivalency_len(ids);
        }
    } else if ids.len() > 0 {
        let id = ids.choose();
        assert(ids.contains(id)) by {
            if !ids.contains(id) {
                assert(ids =~= Set::empty());
            }
        }
        assert(m.contains_key(id));
    }
}

/// A side with an unanswered action is left alone: nothing is placed and nothing
/// is replaced on it, whatever the state.
pub proof fn law_no_second_action(
    s: State,
    m: Map<Seq<u8>, InFlight>,
    cid: Seq<u8>,
    side: Side,
    since_ms: u64,
    ratio: BboRatio,
    now_ms: u64,
)
    ensures
        ({
            let g = s.gate(m.insert(cid, InFlight { side, since_ms }), side, ratio, now_ms);
            g == Gate::Idle || g is AtCap
        }),
{
    let sent = m.insert(cid, InFlight { side, since_ms });
    assert(sent.contains_key(cid) && sent[cid].side == side);
    assert(pause::busy(sent, side));
}

/// An order is placed only below the position's limit, on a side without an
/// order, out of its cooldown and not threatened by a one-sided book.
pub proof fn law_place_conditions(
    s: State,
    m: Map<Seq<u8>, InFlight>,
    side: Side,
    ratio: BboRatio,
    now_ms: u64,
)
    requires
        s.gate(m, side, ratio, now_ms) == Gate::Place,
    ensures
        -MAX_INVENTORY_E6 < s.inventory_e6 || side == Side::Buy,
        s.inventory_e6 < MAX_INVENTORY_E6 || side == Side::Sell,
        s.id(side) == 0,
        now_ms >= s.post_cancel_ms(side),
        !s.bbo_blocked(side, ratio),
        !pause::busy(m, side),
{
}

/// A side cools down after a cancel: until the cooldown is over, nothing is
/// placed or replaced on it.
pub proof fn law_cooldown_holds(
    s: State,
    m: Map<Seq<u8>, InFlight>,
    side: Side,
    ratio: BboRatio,
    cancel_ms: u64,
    now_ms: u64,
)
    requires
        state::clock_ok(cancel_ms),
        now_ms < cancel_ms + state::POST_CANCEL_COOLDOWN_MS,
    ensures
        ({
            let g = s.cooled(side, cancel_ms).gate(m, side, ratio, now_ms);
            g == Gate::Idle || g is AtCap
        }),
{
}

} // verus!
