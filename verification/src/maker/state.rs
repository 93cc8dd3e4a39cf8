//! The state of the market maker.
use crate::maker::cids::Side;
use vstd::prelude::*;

verus! {

/// Milliseconds for which a side places nothing after a cancel.
pub const POST_CANCEL_COOLDOWN_MS: u64 = 20;

/// Milliseconds without an action or a report after which an order counts as
/// lost, and without an answer after which an action does.
pub const STUCK_ORDER_TIMEOUT_MS: u64 = 45_000;

/// Milliseconds for which placement is halted when the exchange says that there
/// were too many orders.
pub const RATE_LIMIT_HALT_MS: u64 = 1_000;

/// Largest position, in millionths.
pub const MAX_INVENTORY_E6: i64 = 300_000;

/// Least quantity that is hedged, in millionths.
pub const MIN_HEDGE_QTY_E6: i64 = 5_000;

/// Quantity of an order, in millionths, of which what was filled is left out.
pub const ORDER_QTY_E6: i64 = 150_000;

/// Milliseconds between two quotes of a side.
pub const MIN_REQUOTE_MS: u64 = 0;

/// What the market maker knows.
#[derive(Debug, Clone, Copy)]
pub struct State {
    /// Best bid and ask of the anchor book, in hundredths.
    pub usdt_bid_x100: i64,
    pub usdt_ask_x100: i64,
    /// Best bid and ask of the traded book, in hundredths, and their sizes, in millionths.
    pub spot_bid_x100: i64,
    pub spot_ask_x100: i64,
    pub spot_bid_sz_e6: u64,
    pub spot_ask_sz_e6: u64,
    /// Smoothed basis between the two mids, in hundredths.
    pub basis_x100: i64,
    pub basis_n: u64,
    pub last_basis_ts_us: u64,
    /// Smoothed mid of the anchor book, in hundredths.
    pub usdt_mid_ewma_x100: i64,
    pub last_usdt_ewma_ts_us: u64,
    /// Decaying signed trade quantity of the anchor, in millionths; buys count up.
    pub signed_qty_e6: i64,
    pub last_signed_qty_ts_us: u64,
    /// Smoothed rate of the signed quantity, in millionths per second.
    pub qrate_e6: i64,
    /// Sizes at the best bid and ask of the anchor book, in millionths.
    pub usdt_bid_sz_e6: i64,
    pub usdt_ask_sz_e6: i64,
    /// Best bid and ask of the perpetual, in hundredths.
    pub perp_bid_x100: i64,
    pub perp_ask_x100: i64,
    /// Smoothed mid of the perpetual, in hundredths.
    pub perp_mid_ewma_x100: i64,
    pub last_perp_ewma_ts_us: u64,
    /// Position, and what it cost and earned.
    pub inventory_e6: i64,
    pub realized_pnl_x1m: i64,
    pub cash_x1m: i64,
    pub avg_cost_x100: i64,
    pub fills_count: u64,
    /// Ids of the resting orders, 0 for none, and their prices in hundredths.
    pub bid_id: i64,
    pub ask_id: i64,
    pub bid_px_x100: i64,
    pub ask_px_x100: i64,
    /// When a side was last quoted, in milliseconds.
    pub last_requote_buy_ms: u64,
    pub last_requote_sell_ms: u64,
    /// Until when a side places nothing, since the exchange may still hold the funds of
    /// a cancelled order; in milliseconds.
    pub post_cancel_buy_ms: u64,
    pub post_cancel_sell_ms: u64,
    /// When an order action, place or cancel, was last sent on a side, in
    /// milliseconds; 0 for never. Of a cancel that is sent again until it is
    /// answered, the first counts.
    pub last_buy_action_ms: u64,
    pub last_sell_action_ms: u64,
    /// When a side was last reported on, in milliseconds; 0 for never.
    pub last_buy_report_ms: u64,
    pub last_sell_report_ms: u64,
    /// The side that is quoted.
    pub active_side: Side,
    /// Placement is halted, until the time in milliseconds.
    pub halted: bool,
    pub rate_limit_until_ms: u64,
    /// Quoting is paused; how often it has been.
    pub was_paused: bool,
    pub pause_epoch: u64,
    /// The pause, by its number, whose cancels went out last.
    pub cancelled_epoch: Option<u64>,
    /// Position at the hedging venue, and what it cost and earned.
    pub lighter_inv_e6: i64,
    pub lighter_cash_x1m: i64,
    pub lighter_realized_x1m: i64,
    pub lighter_avg_cost_x100: i64,
    pub lighter_hedges: u64,
    /// Fills that wait for a hedge, in millionths.
    pub pending_hedge_buy_e6: i64,
    pub pending_hedge_sell_e6: i64,
    /// Best bid and ask of the hedging venue, in hundredths.
    pub lighter_bid_x100: i64,
    pub lighter_ask_x100: i64,
    /// Filled quantity of the current order of a side, in millionths.
    pub bid_cum_filled_e6: i64,
    pub ask_cum_filled_e6: i64,
}

/// Deadlines can be told from this time on.
pub open spec fn clock_ok(now_ms: u64) -> bool {
    now_ms + RATE_LIMIT_HALT_MS <= u64::MAX
}

impl State {
    /// The state before anything was heard.
    pub open spec fn initial() -> State {
        State {
            usdt_bid_x100: 0,
            usdt_ask_x100: 0,
            spot_bid_x100: 0,
            spot_ask_x100: 0,
            spot_bid_sz_e6: 0,
            spot_ask_sz_e6: 0,
            basis_x100: 0,
            basis_n: 0,
            last_basis_ts_us: 0,
            usdt_mid_ewma_x100: 0,
            last_usdt_ewma_ts_us: 0,
            signed_qty_e6: 0,
            last_signed_qty_ts_us: 0,
            qrate_e6: 0,
            usdt_bid_sz_e6: 0,
            usdt_ask_sz_e6: 0,
            perp_bid_x100: 0,
            perp_ask_x100: 0,
            perp_mid_ewma_x100: 0,
            last_perp_ewma_ts_us: 0,
            inventory_e6: 0,
            realized_pnl_x1m: 0,
            cash_x1m: 0,
            avg_cost_x100: 0,
            fills_count: 0,
            bid_id: 0,
            ask_id: 0,
            bid_px_x100: 0,
            ask_px_x100: 0,
            last_requote_buy_ms: 0,
            last_requote_sell_ms: 0,
            post_cancel_buy_ms: 0,
            post_cancel_sell_ms: 0,
            last_buy_action_ms: 0,
            last_sell_action_ms: 0,
            last_buy_report_ms: 0,
            last_sell_report_ms: 0,
            active_side: Side::Buy,
            halted: false,
            rate_limit_until_ms: 0,
            was_paused: false,
            pause_epoch: 0,
            cancelled_epoch: None,
            lighter_inv_e6: 0,
            lighter_cash_x1m: 0,
            lighter_realized_x1m: 0,
            lighter_avg_cost_x100: 0,
            lighter_hedges: 0,
            pending_hedge_buy_e6: 0,
            pending_hedge_sell_e6: 0,
            lighter_bid_x100: 0,
            lighter_ask_x100: 0,
            bid_cum_filled_e6: 0,
            ask_cum_filled_e6: 0,
        }
    }

    pub fn new() -> (s: State)
        ensures
            s == State::initial(),
    {
        State {
            usdt_bid_x100: 0,
            usdt_ask_x100: 0,
            spot_bid_x100: 0,
            spot_ask_x100: 0,
            spot_bid_sz_e6: 0,
            spot_ask_sz_e6: 0,
            basis_x100: 0,
            basis_n: 0,
            last_basis_ts_us: 0,
            usdt_mid_ewma_x100: 0,
            last_usdt_ewma_ts_us: 0,
            signed_qty_e6: 0,
            last_signed_qty_ts_us: 0,
            qrate_e6: 0,
            usdt_bid_sz_e6: 0,
            usdt_ask_sz_e6: 0,
            perp_bid_x100: 0,
            perp_ask_x100: 0,
            perp_mid_ewma_x100: 0,
            last_perp_ewma_ts_us: 0,
            inventory_e6: 0,
            realized_pnl_x1m: 0,
            cash_x1m: 0,
            avg_cost_x100: 0,
            fills_count: 0,
            bid_id: 0,
            ask_id: 0,
            bid_px_x100: 0,
            ask_px_x100: 0,
            last_requote_buy_ms: 0,
            last_requote_sell_ms: 0,
            post_cancel_buy_ms: 0,
            post_cancel_sell_ms: 0,
            last_buy_action_ms: 0,
            last_sell_action_ms: 0,
            last_buy_report_ms: 0,
            last_sell_report_ms: 0,
            active_side: Side::Buy,
            halted: false,
            rate_limit_until_ms: 0,
            was_paused: false,
            pause_epoch: 0,
            cancelled_epoch: None,
            lighter_inv_e6: 0,
            lighter_cash_x1m: 0,
            lighter_realized_x1m: 0,
            lighter_avg_cost_x100: 0,
            lighter_hedges: 0,
            pending_hedge_buy_e6: 0,
            pending_hedge_sell_e6: 0,
            lighter_bid_x100: 0,
            lighter_ask_x100: 0,
            bid_cum_filled_e6: 0,
            ask_cum_filled_e6: 0,
        }
    }

    /// Id of the resting order of a side, 0 for none.
    pub open spec fn id(self, side: Side) -> i64 {
        match side {
            Side::Buy => self.bid_id,
            Side::Sell => self.ask_id,
        }
    }

    /// This state with another value there.
    pub open spec fn with_id(self, side: Side, v: i64) -> State {
        match side {
            Side::Buy => State { bid_id: v, ..self },
            Side::Sell => State { ask_id: v, ..self },
        }
    }

    /// Price of the order of a side.
    pub open spec fn px_x100(self, side: Side) -> i64 {
        match side {
            Side::Buy => self.bid_px_x100,
            Side::Sell => self.ask_px_x100,
        }
    }

    /// This state with another value there.
    pub open spec fn with_px_x100(self, side: Side, v: i64) -> State {
        match side {
            Side::Buy => State { bid_px_x100: v, ..self },
            Side::Sell => State { ask_px_x100: v, ..self },
        }
    }

    /// Until when a side places nothing.
    pub open spec fn post_cancel_ms(self, side: Side) -> u64 {
        match side {
            Side::Buy => self.post_cancel_buy_ms,
            Side::Sell => self.post_cancel_sell_ms,
        }
    }

    /// This state with another value there.
    pub open spec fn with_post_cancel_ms(self, side: Side, v: u64) -> State {
        match side {
            Side::Buy => State { post_cancel_buy_ms: v, ..self },
            Side::Sell => State { post_cancel_sell_ms: v, ..self },
        }
    }

    /// When an order action was last sent on a side.
    pub open spec fn last_action_ms(self, side: Side) -> u64 {
        match side {
            Side::Buy => self.last_buy_action_ms,
            Side::Sell => self.last_sell_action_ms,
        }
    }

    /// This state with another value there.
    pub open spec fn with_last_action_ms(self, side: Side, v: u64) -> State {
        match side {
            Side::Buy => State { last_buy_action_ms: v, ..self },
            Side::Sell => State { last_sell_action_ms: v, ..self },
        }
    }

    /// When a side was last reported on.
    pub open spec fn last_report_ms(self, side: Side) -> u64 {
        match side {
            Side::Buy => self.last_buy_report_ms,
            Side::Sell => self.last_sell_report_ms,
        }
    }

    /// This state with another value there.
    pub open spec fn with_last_report_ms(self, side: Side, v: u64) -> State {
        match side {
            Side::Buy => State { last_buy_report_ms: v, ..self },
            Side::Sell => State { last_sell_report_ms: v, ..self },
        }
    }

    /// When a side was last quoted.
    pub open spec fn last_requote_ms(self, side: Side) -> u64 {
        match side {
            Side::Buy => self.last_requote_buy_ms,
            Side::Sell => self.last_requote_sell_ms,
        }
    }

    /// This state with another value there.
    pub open spec fn with_last_requote_ms(self, side: Side, v: u64) -> State {
        match side {
            Side::Buy => State { last_requote_buy_ms: v, ..self },
            Side::Sell => State { last_requote_sell_ms: v, ..self },
        }
    }

    /// Filled quantity of the current order of a side.
    pub open spec fn cum_filled_e6(self, side: Side) -> i64 {
        match side {
            Side::Buy => self.bid_cum_filled_e6,
            Side::Sell => self.ask_cum_filled_e6,
        }
    }

    /// This state with another value there.
    pub open spec fn with_cum_filled_e6(self, side: Side, v: i64) -> State {
        match side {
            Side::Buy => State { bid_cum_filled_e6: v, ..self },
            Side::Sell => State { ask_cum_filled_e6: v, ..self },
        }
    }

    /// Fills of a side that wait for a hedge.
    pub open spec fn pending_hedge_e6(self, side: Side) -> i64 {
        match side {
            Side::Buy => self.pending_hedge_buy_e6,
            Side::Sell => self.pending_hedge_sell_e6,
        }
    }

    /// This state with another value there.
    pub open spec fn with_pending_hedge_e6(self, side: Side, v: i64) -> State {
        match side {
            Side::Buy => State { pending_hedge_buy_e6: v, ..self },
            Side::Sell => State { pending_hedge_sell_e6: v, ..self },
        }
    }

    /// This state with the cooldown of a side armed.
    pub open spec fn cooled(self, side: Side, now_ms: u64) -> State {
        self.with_post_cancel_ms(side, (now_ms + POST_CANCEL_COOLDOWN_MS) as u64)
    }

    /// This state once a cancel was sent on a side: the side cools down, and the
    /// cancel is its last action.
    pub open spec fn cancel_sent(self, side: Side, now_ms: u64) -> State {
        self.cooled(side, now_ms).with_last_action_ms(side, now_ms)
    }

    /// An action of the side was sent and the side not reported on since.
    pub open spec fn unanswered(self, side: Side) -> bool {
        self.last_action_ms(side) > self.last_report_ms(side)
    }

    /// This state once a cancel was sent that is sent again until it is answered:
    /// the first one counts as the action, so that an order that is never answered
    /// for still counts as lost in time.
    pub open spec fn cancel_resent(self, side: Side, now_ms: u64) -> State {
        if self.unanswered(side) {
            self.cooled(side, now_ms)
        } else {
            self.cancel_sent(side, now_ms)
        }
    }

    /// This state without an order on a side.
    pub open spec fn emptied(self, side: Side) -> State {
        self.with_id(side, 0).with_px_x100(side, 0)
    }

    /// This state with the filled quantities forgotten.
    pub open spec fn uncounted(self) -> State {
        State { bid_cum_filled_e6: 0, ask_cum_filled_e6: 0, ..self }
    }

    /// This state quoting `side`: a change of side forgets the filled quantities.
    pub open spec fn quoting(self, side: Side) -> State {
        if self.active_side == side {
            self
        } else {
            State { active_side: side, ..self.uncounted() }
        }
    }

    pub fn order_id(&self, side: Side) -> (id: i64)
        ensures
            id == self.id(side),
    {
        match side {
            Side::Buy => self.bid_id,
            Side::Sell => self.ask_id,
        }
    }

    pub fn order_px_x100(&self, side: Side) -> (px: i64)
        ensures
            px == self.px_x100(side),
    {
        match side {
            Side::Buy => self.bid_px_x100,
            Side::Sell => self.ask_px_x100,
        }
    }

    pub fn set_order_id(&mut self, side: Side, id: i64)
        ensures
            *final(self) == old(self).with_id(side, id),
    {
        match side {
            Side::Buy => self.bid_id = id,
            Side::Sell => self.ask_id = id,
        }
    }

    pub fn set_order_px_x100(&mut self, side: Side, px: i64)
        ensures
            *final(self) == old(self).with_px_x100(side, px),
    {
        match side {
            Side::Buy => self.bid_px_x100 = px,
            Side::Sell => self.ask_px_x100 = px,
        }
    }

    /// Forgets the order of a side.
    pub fn clear_slot(&mut self, side: Side)
        ensures
            *final(self) == old(self).emptied(side),
    {
        self.set_order_id(side, 0);
        self.set_order_px_x100(side, 0);
    }

    /// Forgets the orders of both sides: after a Logon, orders from before it
    /// cannot be told.
    pub fn clear_slots(&mut self)
        ensures
            *final(self) == old(self).emptied(Side::Buy).emptied(Side::Sell),
    {
        self.clear_slot(Side::Buy);
        self.clear_slot(Side::Sell);
    }

    /// Arms the cooldown of a side. This is due whenever a cancel is sent, since
    /// the funds stay locked until the cancel is done.
    pub fn arm_post_cancel_cooldown(&mut self, side: Side, now_ms: u64)
        requires
            clock_ok(now_ms),
        ensures
            *final(self) == old(self).cooled(side, now_ms),
    {
        match side {
            Side::Buy => self.post_cancel_buy_ms = now_ms + POST_CANCEL_COOLDOWN_MS,
            Side::Sell => self.post_cancel_sell_ms = now_ms + POST_CANCEL_COOLDOWN_MS,
        }
    }

    /// Notes that an order action was sent on a side.
    pub fn stamp_action(&mut self, side: Side, now_ms: u64)
        ensures
            *final(self) == old(self).with_last_action_ms(side, now_ms),
    {
        match side {
            Side::Buy => self.last_buy_action_ms = now_ms,
            Side::Sell => self.last_sell_action_ms = now_ms,
        }
    }

    /// Notes that a cancel was sent on a side.
    pub fn note_cancel(&mut self, side: Side, now_ms: u64)
        requires
            clock_ok(now_ms),
        ensures
            *final(self) == old(self).cancel_sent(side, now_ms),
    {
        self.arm_post_cancel_cooldown(side, now_ms);
        self.stamp_action(side, now_ms);
    }

    /// Notes that a cancel was sent on a side which is sent again until it is
    /// answered.
    pub fn note_resent_cancel(&mut self, side: Side, now_ms: u64)
        requires
            clock_ok(now_ms),
        ensures
            *final(self) == old(self).cancel_resent(side, now_ms),
    {
        let unanswered = match side {
            Side::Buy => self.last_buy_action_ms > self.last_buy_report_ms,
            Side::Sell => self.last_sell_action_ms > self.last_sell_report_ms,
        };
        self.arm_post_cancel_cooldown(side, now_ms);
        if !unanswered {
            self.stamp_action(side, now_ms);
        }
    }

    /// Notes that a side was reported on.
    pub fn stamp_report(&mut self, side: Side, now_ms: u64)
        ensures
            *final(self) == old(self).with_last_report_ms(side, now_ms),
    {
        match side {
            Side::Buy => self.last_buy_report_ms = now_ms,
            Side::Sell => self.last_sell_report_ms = now_ms,
        }
    }

    /// Quotes `side` from now on, and says whether that is a change.
    pub fn flip_to(&mut self, side: Side) -> (changed: bool)
        ensures
            changed == (old(self).active_side != side),
            *final(self) == old(self).quoting(side),
    {
        if self.active_side == side {
            return false;
        }
        self.active_side = side;
        self.bid_cum_filled_e6 = 0;
        self.ask_cum_filled_e6 = 0;
        true
    }

    /// The ids of the resting orders, the bid's first.
    pub open spec fn resting(self) -> Seq<i64> {
        (if self.bid_id != 0 {
            seq![self.bid_id]
        } else {
            Seq::empty()
        }) + (if self.ask_id != 0 {
            seq![self.ask_id]
        } else {
            Seq::empty()
        })
    }

    /// The ids to cancel in order to have no resting order.
    pub fn cancel_all_ids(&self) -> (ids: Vec<i64>)
        ensures
            ids@ == self.resting(),
    {
        let mut ids: Vec<i64> = Vec::new();
        if self.bid_id != 0 {
            ids.push(self.bid_id);
        }
        if self.ask_id != 0 {
            ids.push(self.ask_id);
        }
        assert(ids@ =~= self.resting());
        ids
    }

    /// Whether quoting is paused.
    pub fn pause_edge_check(&self) -> (b: bool)
        ensures
            b == self.was_paused,
    {
        self.was_paused
    }
}

} // verus!
