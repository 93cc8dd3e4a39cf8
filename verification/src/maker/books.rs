//! What market data changes.
use crate::maker::cids::Side;
use crate::maker::state::{State, ORDER_QTY_E6};
use crate::sbe::consts::{SIDE_BUY, SIDE_SELL};
use crate::sbe::messages::{BookTicker, BookTickerView, IncrementalTrade};
use vstd::prelude::*;

verus! {

/// Prices in hundredths and sizes in millionths of a book ticker of the traded
/// book.
#[derive(Debug, Clone, Copy, PartialEq, Eq, Structural)]
pub struct SpotAmounts {
    pub bid_x100: i64,
    pub ask_x100: i64,
    pub bid_sz_e6: u64,
    pub ask_sz_e6: u64,
}

/// Prices in hundredths and sizes in millionths of a book ticker of the anchor
/// book.
#[derive(Debug, Clone, Copy, PartialEq, Eq, Structural)]
pub struct AnchorAmounts {
    pub bid_x100: i64,
    pub ask_x100: i64,
    pub bid_sz_e6: i64,
    pub ask_sz_e6: i64,
}

/// How an average is carried on.
#[derive(Debug, Clone, Copy, PartialEq, Eq, Structural)]
pub enum EwmaStep {
    /// It is not: something is unknown yet.
    NotReady,
    /// This is its first value.
    First,
    /// The last value, `prev`, is `dt_us` microseconds old.
    Blend { dt_us: u64, prev: i64 },
}

/// What a message of a book changed.
#[derive(Debug, Clone, Copy, PartialEq, Eq, Structural)]
pub struct BookTick {
    /// A price is another than before.
    pub changed: bool,
    /// How the average mid of the book is carried on, where it has one.
    pub ewma: EwmaStep,
    /// How the basis is carried on.
    pub basis: EwmaStep,
}

/// How an average is carried on at `now_us`, if it was last at `last_us`.
pub open spec fn ewma_step(last_us: u64, now_us: u64, prev: i64) -> EwmaStep {
    if last_us == 0 {
        EwmaStep::First
    } else {
        EwmaStep::Blend { dt_us: (now_us - last_us) as u64, prev }
    }
}

fn next_ewma_step(last_us: u64, now_us: u64, prev: i64) -> (step: EwmaStep)
    requires
        last_us <= now_us,
    ensures
        step == ewma_step(last_us, now_us, prev),
{
    if last_us == 0 {
        EwmaStep::First
    } else {
        EwmaStep::Blend { dt_us: now_us - last_us, prev }
    }
}

/// Half of the sum, without its fraction.
pub open spec fn midpoint(a: i64, b: i64) -> int {
    if a + b >= 0 {
        (a + b) / 2
    } else {
        -(-(a + b) / 2)
    }
}

fn mid_of(a: i64, b: i64) -> (m: i64)
    ensures
        m == midpoint(a, b),
{
    let sum: i128 = a as i128 + b as i128;
    if sum >= 0 {
        (sum / 2) as i64
    } else {
        (-((-sum) / 2)) as i64
    }
}

/// Prices after a book ticker, of which either side may be absent.
pub open spec fn merged_px(before: i64, mantissa: i64, px_x100: i64) -> i64 {
    if mantissa > 0 {
        px_x100
    } else {
        before
    }
}

impl State {
    /// The traded book after a book ticker.
    pub open spec fn with_spot_book(self, bt: BookTickerView, a: SpotAmounts) -> State {
        State {
            spot_bid_x100: merged_px(self.spot_bid_x100, bt.bid_px, a.bid_x100),
            spot_ask_x100: merged_px(self.spot_ask_x100, bt.ask_px, a.ask_x100),
            spot_bid_sz_e6: if bt.bid_px > 0 {
                a.bid_sz_e6
            } else {
                self.spot_bid_sz_e6
            },
            spot_ask_sz_e6: if bt.ask_px > 0 {
                a.ask_sz_e6
            } else {
                self.spot_ask_sz_e6
            },
            ..self
        }
    }

    /// Takes in a book ticker of the traded book: the sides that it holds. Their
    /// sizes count even where no price changed. Says whether either price did.
    pub fn on_spot_book(&mut self, bt: &BookTicker, a: &SpotAmounts) -> (changed: bool)
        ensures
            *final(self) == old(self).with_spot_book(bt@, *a),
            changed == (final(self).spot_bid_x100 != old(self).spot_bid_x100
                || final(self).spot_ask_x100 != old(self).spot_ask_x100),
    {
        let (bid_before, ask_before) = (self.spot_bid_x100, self.spot_ask_x100);
        if bt.bid_px > 0 {
            self.spot_bid_x100 = a.bid_x100;
            self.spot_bid_sz_e6 = a.bid_sz_e6;
        }
        if bt.ask_px > 0 {
            self.spot_ask_x100 = a.ask_x100;
            self.spot_ask_sz_e6 = a.ask_sz_e6;
        }
        self.spot_bid_x100 != bid_before || self.spot_ask_x100 != ask_before
    }

    /// The anchor book after a book ticker.
    pub open spec fn with_usdt_book(self, bt: BookTickerView, a: AnchorAmounts) -> State {
        State {
            usdt_bid_x100: merged_px(self.usdt_bid_x100, bt.bid_px, a.bid_x100),
            usdt_ask_x100: merged_px(self.usdt_ask_x100, bt.ask_px, a.ask_x100),
            usdt_bid_sz_e6: if bt.bid_qty > 0 {
                a.bid_sz_e6
            } else {
                self.usdt_bid_sz_e6
            },
            usdt_ask_sz_e6: if bt.ask_qty > 0 {
                a.ask_sz_e6
            } else {
                self.usdt_ask_sz_e6
            },
            ..self
        }
    }

    /// Takes in a book ticker of the anchor book: the sizes that it holds in any
    /// case, since they count even where no price changed. Says whether either
    /// price did.
    pub fn on_usdt_book(&mut self, bt: &BookTicker, a: &AnchorAmounts) -> (changed: bool)
        ensures
            *final(self) == old(self).with_usdt_book(bt@, *a),
            changed == (final(self).usdt_bid_x100 != old(self).usdt_bid_x100
                || final(self).usdt_ask_x100 != old(self).usdt_ask_x100),
    {
        if bt.bid_qty > 0 {
            self.usdt_bid_sz_e6 = a.bid_sz_e6;
        }
        if bt.ask_qty > 0 {
            self.usdt_ask_sz_e6 = a.ask_sz_e6;
        }
        let bid: i64 = if bt.bid_px > 0 {
            a.bid_x100
        } else {
            self.usdt_bid_x100
        };
        let ask: i64 = if bt.ask_px > 0 {
            a.ask_x100
        } else {
            self.usdt_ask_x100
        };
        if bid == self.usdt_bid_x100 && ask == self.usdt_ask_x100 {
            return false;
        }
        self.usdt_bid_x100 = bid;
        self.usdt_ask_x100 = ask;
        true
    }

    /// Both books are known.
    pub open spec fn basis_ready(self) -> bool {
        self.usdt_bid_x100 != 0 && self.usdt_ask_x100 != 0 && self.spot_bid_x100 != 0
            && self.spot_ask_x100 != 0
    }

    /// How the average basis is carried on.
    pub open spec fn basis_step(self, now_us: u64) -> EwmaStep {
        if self.basis_ready() {
            ewma_step(self.last_basis_ts_us, now_us, self.basis_x100)
        } else {
            EwmaStep::NotReady
        }
    }

    /// This state with one more value of the basis counted.
    pub open spec fn with_basis_step(self, now_us: u64) -> State {
        if self.basis_ready() {
            State {
                last_basis_ts_us: now_us,
                basis_n: self.basis_n.wrapping_add(1),
                ..self
            }
        } else {
            self
        }
    }

    /// Says how the average basis is carried on, and counts its values.
    pub fn update_basis(&mut self, now_us: u64) -> (step: EwmaStep)
        requires
            old(self).last_basis_ts_us <= now_us,
        ensures
            step == old(self).basis_step(now_us),
            *final(self) == old(self).with_basis_step(now_us),
    {
        if self.usdt_bid_x100 == 0 || self.usdt_ask_x100 == 0 || self.spot_bid_x100 == 0
            || self.spot_ask_x100 == 0 {
            return EwmaStep::NotReady;
        }
        let step = next_ewma_step(self.last_basis_ts_us, now_us, self.basis_x100);
        self.last_basis_ts_us = now_us;
        self.basis_n = self.basis_n.wrapping_add(1);
        step
    }

    /// How the average mid of the anchor book is carried on.
    pub open spec fn usdt_ewma_step(self, now_us: u64) -> EwmaStep {
        if self.usdt_bid_x100 != 0 && self.usdt_ask_x100 != 0 {
            ewma_step(self.last_usdt_ewma_ts_us, now_us, self.usdt_mid_ewma_x100)
        } else {
            EwmaStep::NotReady
        }
    }

    /// This state with that average stamped, and with its first value.
    pub open spec fn with_usdt_ewma_step(self, now_us: u64) -> State {
        match self.usdt_ewma_step(now_us) {
            EwmaStep::NotReady => self,
            EwmaStep::First => State {
                last_usdt_ewma_ts_us: now_us,
                usdt_mid_ewma_x100: midpoint(self.usdt_bid_x100, self.usdt_ask_x100) as i64,
                ..self
            },
            EwmaStep::Blend { .. } => State { last_usdt_ewma_ts_us: now_us, ..self },
        }
    }

    /// Says how the average mid of the anchor book is carried on; its first value
    /// is noted here.
    pub fn update_usdt_ewma(&mut self, now_us: u64) -> (step: EwmaStep)
        requires
            old(self).last_usdt_ewma_ts_us <= now_us,
        ensures
            step == old(self).usdt_ewma_step(now_us),
            *final(self) == old(self).with_usdt_ewma_step(now_us),
    {
        if self.usdt_bid_x100 == 0 || self.usdt_ask_x100 == 0 {
            return EwmaStep::NotReady;
        }
        let step = next_ewma_step(self.last_usdt_ewma_ts_us, now_us, self.usdt_mid_ewma_x100);
        self.last_usdt_ewma_ts_us = now_us;
        if step == EwmaStep::First {
            self.usdt_mid_ewma_x100 = mid_of(self.usdt_bid_x100, self.usdt_ask_x100);
        }
        step
    }

    /// What a message of the traded book changes, and the state after it.
    pub open spec fn spot_ticked(self, bt: BookTickerView, a: SpotAmounts, now_us: u64) -> (
        BookTick,
        State,
    ) {
        let s1 = self.with_spot_book(bt, a);
        if s1.spot_bid_x100 != self.spot_bid_x100 || s1.spot_ask_x100 != self.spot_ask_x100 {
            (
                BookTick {
                    changed: true,
                    ewma: EwmaStep::NotReady,
                    basis: s1.basis_step(now_us),
                },
                s1.with_basis_step(now_us),
            )
        } else {
            (
                BookTick {
                    changed: false,
                    ewma: EwmaStep::NotReady,
                    basis: EwmaStep::NotReady,
                },
                s1,
            )
        }
    }

    /// A message of the traded book: takes it in and, where a price changed,
    /// carries the basis on.
    pub fn on_spot_ticker(&mut self, bt: &BookTicker, a: &SpotAmounts, now_us: u64) -> (tick:
        BookTick)
        requires
            old(self).last_basis_ts_us <= now_us,
        ensures
            (tick, *final(self)) == old(self).spot_ticked(bt@, *a, now_us),
    {
        if !self.on_spot_book(bt, a) {
            return BookTick {
                changed: false,
                ewma: EwmaStep::NotReady,
                basis: EwmaStep::NotReady,
            };
        }
        let basis = self.update_basis(now_us);
        BookTick { changed: true, ewma: EwmaStep::NotReady, basis }
    }

    /// What a message of the anchor book changes, and the state after it.
    pub open spec fn usdt_ticked(self, bt: BookTickerView, a: AnchorAmounts, now_us: u64) -> (
        BookTick,
        State,
    ) {
        let s1 = self.with_usdt_book(bt, a);
        let s2 = s1.with_usdt_ewma_step(now_us);
        if s1.usdt_bid_x100 != self.usdt_bid_x100 || s1.usdt_ask_x100 != self.usdt_ask_x100 {
            (
                BookTick {
                    changed: true,
                    ewma: s1.usdt_ewma_step(now_us),
                    basis: s2.basis_step(now_us),
                },
                s2.with_basis_step(now_us),
            )
        } else {
            (
                BookTick {
                    changed: false,
                    ewma: EwmaStep::NotReady,
                    basis: EwmaStep::NotReady,
                },
                s1,
            )
        }
    }

    /// A message of the anchor book: takes it in and, where a price changed,
    /// carries its average and the basis on. The pause is to be looked at anew
    /// either way, once the averages are.
    pub fn on_usdt_ticker(&mut self, bt: &BookTicker, a: &AnchorAmounts, now_us: u64) -> (tick:
        BookTick)
        requires
            old(self).last_basis_ts_us <= now_us,
            old(self).last_usdt_ewma_ts_us <= now_us,
        ensures
            (tick, *final(self)) == old(self).usdt_ticked(bt@, *a, now_us),
    {
        if !self.on_usdt_book(bt, a) {
            return BookTick {
                changed: false,
                ewma: EwmaStep::NotReady,
                basis: EwmaStep::NotReady,
            };
        }
        let ewma = self.update_usdt_ewma(now_us);
        let basis = self.update_basis(now_us);
        BookTick { changed: true, ewma, basis }
    }

    /// Middle of the anchor book, in hundredths.
    pub fn usdt_mid_x100(&self) -> (m: i64)
        ensures
            m == midpoint(self.usdt_bid_x100, self.usdt_ask_x100),
    {
        mid_of(self.usdt_bid_x100, self.usdt_ask_x100)
    }

    /// Middle of the perpetual's book, in hundredths.
    pub fn perp_mid_x100(&self) -> (m: i64)
        ensures
            m == midpoint(self.perp_bid_x100, self.perp_ask_x100),
    {
        mid_of(self.perp_bid_x100, self.perp_ask_x100)
    }

    /// How the average mid of the perpetual's book is carried on.
    pub open spec fn perp_ewma_step(self, now_us: u64) -> EwmaStep {
        ewma_step(self.last_perp_ewma_ts_us, now_us, self.perp_mid_ewma_x100)
    }

    /// This state with another best bid and ask of the perpetual.
    pub open spec fn with_perp_book(self, bid_x100: i64, ask_x100: i64, now_us: u64) -> State {
        State {
            perp_bid_x100: bid_x100,
            perp_ask_x100: ask_x100,
            last_perp_ewma_ts_us: now_us,
            perp_mid_ewma_x100: if self.perp_ewma_step(now_us) == EwmaStep::First {
                midpoint(bid_x100, ask_x100) as i64
            } else {
                self.perp_mid_ewma_x100
            },
            ..self
        }
    }

    /// Takes in the best bid and ask of the perpetual, and says how the average
    /// of its mid is carried on; its first value is noted here.
    pub fn perp_update_book(&mut self, bid_x100: i64, ask_x100: i64, now_us: u64) -> (step:
        EwmaStep)
        requires
            old(self).last_perp_ewma_ts_us <= now_us,
        ensures
            step == old(self).perp_ewma_step(now_us),
            *final(self) == old(self).with_perp_book(bid_x100, ask_x100, now_us),
    {
        self.perp_bid_x100 = bid_x100;
        self.perp_ask_x100 = ask_x100;
        let step = next_ewma_step(self.last_perp_ewma_ts_us, now_us, self.perp_mid_ewma_x100);
        self.last_perp_ewma_ts_us = now_us;
        if step == EwmaStep::First {
            self.perp_mid_ewma_x100 = mid_of(bid_x100, ask_x100);
        }
        step
    }

    /// How the decaying trade quantity is carried on, for a trade that counts.
    pub open spec fn signed_qty_step(self, now_us: u64) -> EwmaStep {
        ewma_step(self.last_signed_qty_ts_us, now_us, self.signed_qty_e6)
    }

    /// This state with one more trade that counts.
    pub open spec fn with_signed_qty_step(self, now_us: u64) -> State {
        State { last_signed_qty_ts_us: now_us, ..self }
    }

    /// Microseconds since the last trade that counted.
    pub open spec fn signed_qty_age_spec(self, now_us: u64) -> Option<u64> {
        if self.last_signed_qty_ts_us == 0 {
            None
        } else {
            Some((now_us - self.last_signed_qty_ts_us) as u64)
        }
    }

    /// Says how the decaying trade quantity is carried on, for a trade that
    /// counts.
    pub fn update_signed_qty(&mut self, now_us: u64) -> (step: EwmaStep)
        requires
            old(self).last_signed_qty_ts_us <= now_us,
        ensures
            step == old(self).signed_qty_step(now_us),
            *final(self) == old(self).with_signed_qty_step(now_us),
    {
        let step = next_ewma_step(self.last_signed_qty_ts_us, now_us, self.signed_qty_e6);
        self.last_signed_qty_ts_us = now_us;
        step
    }

    /// Microseconds since the last trade that counted, if there was any.
    pub fn signed_qty_age_us(&self, now_us: u64) -> (age: Option<u64>)
        requires
            self.last_signed_qty_ts_us <= now_us,
        ensures
            age == self.signed_qty_age_spec(now_us),
    {
        if self.last_signed_qty_ts_us == 0 {
            None
        } else {
            Some(now_us - self.last_signed_qty_ts_us)
        }
    }

    /// The sum of the best bid and ask of the traded book as it is shown.
    pub open spec fn spot_mid_spec(self) -> Option<i128> {
        if self.spot_bid_x100 == 0 || self.spot_ask_x100 == 0 {
            None
        } else {
            Some((self.spot_bid_x100 + self.spot_ask_x100) as i128)
        }
    }

    /// Twice the middle of the traded book as it is shown, our own quotes included,
    /// in hundredths; nothing while either side is unknown. Positions are marked
    /// at it.
    pub fn spot_mid_x200(&self) -> (sum: Option<i128>)
        ensures
            sum == self.spot_mid_spec(),
    {
        if self.spot_bid_x100 == 0 || self.spot_ask_x100 == 0 {
            None
        } else {
            Some(self.spot_bid_x100 as i128 + self.spot_ask_x100 as i128)
        }
    }

    /// Best price of a side of the traded book.
    pub open spec fn spot_x100(self, side: Side) -> i64 {
        match side {
            Side::Buy => self.spot_bid_x100,
            Side::Sell => self.spot_ask_x100,
        }
    }

    /// Size at the best price of a side of the traded book.
    pub open spec fn spot_sz_e6(self, side: Side) -> u64 {
        match side {
            Side::Buy => self.spot_bid_sz_e6,
            Side::Sell => self.spot_ask_sz_e6,
        }
    }

    /// The best price of a side of the traded book is our own: our order rests at
    /// it, and the size there is no more than what our order has left.
    pub open spec fn own_best(self, side: Side) -> bool {
        &&& self.id(side) != 0
        &&& self.px_x100(side) == self.spot_x100(side)
        &&& self.spot_sz_e6(side) == 0 || self.spot_sz_e6(side) <= ORDER_QTY_E6
            - self.cum_filled_e6(side)
    }

    /// Best price of a side of the traded book without our own quote; 0 where it is
    /// unknown, since nothing is shown behind our own.
    pub open spec fn non_self_x100(self, side: Side) -> i64 {
        if self.own_best(side) {
            0
        } else {
            self.spot_x100(side)
        }
    }

    fn best_non_self_x100(&self, side: Side) -> (px: i64)
        ensures
            px == self.non_self_x100(side),
    {
        let (best, size, filled) = match side {
            Side::Buy => (self.spot_bid_x100, self.spot_bid_sz_e6, self.bid_cum_filled_e6),
            Side::Sell => (self.spot_ask_x100, self.spot_ask_sz_e6, self.ask_cum_filled_e6),
        };
        let left: i128 = ORDER_QTY_E6 as i128 - filled as i128;
        if self.order_id(side) != 0 && self.order_px_x100(side) == best && (size == 0
            || size as i128 <= left) {
            0
        } else {
            best
        }
    }

    /// Best bid of the traded book without our own, in hundredths; 0 where it is
    /// unknown.
    pub fn best_non_self_bid_x100(&self) -> (px: i64)
        ensures
            px == self.non_self_x100(Side::Buy),
    {
        self.best_non_self_x100(Side::Buy)
    }

    /// Best ask of the traded book without our own, in hundredths; 0 where it is
    /// unknown.
    pub fn best_non_self_ask_x100(&self) -> (px: i64)
        ensures
            px == self.non_self_x100(Side::Sell),
    {
        self.best_non_self_x100(Side::Sell)
    }

    /// Twice the fair value in hundredths, which is the middle of the traded book
    /// without our own quotes; nothing while either side of that is unknown.
    pub open spec fn fair_value_spec(self) -> Option<int> {
        if self.non_self_x100(Side::Buy) == 0 || self.non_self_x100(Side::Sell) == 0 {
            None
        } else {
            Some(self.non_self_x100(Side::Buy) + self.non_self_x100(Side::Sell))
        }
    }

    pub fn fair_value_x200(&self) -> (sum: Option<i128>)
        ensures
            match sum {
                Some(v) => self.fair_value_spec() == Some(v as int),
                None => self.fair_value_spec() is None,
            },
    {
        let bid: i64 = self.best_non_self_bid_x100();
        let ask: i64 = self.best_non_self_ask_x100();
        if bid == 0 || ask == 0 {
            None
        } else {
            Some(bid as i128 + ask as i128)
        }
    }

    /// The traded book can be quoted in: the fair value is known and above zero,
    /// and the book without our own quotes is not crossed.
    pub open spec fn quotable_spec(self) -> bool {
        &&& self.fair_value_spec() matches Some(v) && v > 0
        &&& self.non_self_x100(Side::Buy) < self.non_self_x100(Side::Sell)
    }

    pub fn quotable(&self) -> (b: bool)
        ensures
            b == self.quotable_spec(),
    {
        match self.fair_value_x200() {
            Some(sum) => sum > 0 && self.best_non_self_bid_x100() < self.best_non_self_ask_x100(),
            None => false,
        }
    }

    /// The sum of the best bid and ask of the anchor book.
    pub open spec fn sigma_sample_spec(self) -> Option<i128> {
        if self.usdt_bid_x100 > 0 && self.usdt_ask_x100 > 0 {
            Some((self.usdt_bid_x100 + self.usdt_ask_x100) as i128)
        } else {
            None
        }
    }

    /// Twice the middle of the anchor book, in hundredths, from which the
    /// volatility is sampled; nothing while either side is not above zero.
    pub fn sigma_sample_x200(&self) -> (sum: Option<i128>)
        ensures
            sum == self.sigma_sample_spec(),
    {
        if self.usdt_bid_x100 > 0 && self.usdt_ask_x100 > 0 {
            Some(self.usdt_bid_x100 as i128 + self.usdt_ask_x100 as i128)
        } else {
            None
        }
    }
}

/// The side of the taker of a trade that has a quantity, if it is known.
pub open spec fn taker_side(trade: IncrementalTrade) -> Option<Side> {
    if trade.qty <= 0 {
        None
    } else if trade.aggressor_side == SIDE_BUY {
        Some(Side::Buy)
    } else if trade.aggressor_side == SIDE_SELL {
        Some(Side::Sell)
    } else {
        None
    }
}

/// Whether the taker of a trade that has a price sold.
pub open spec fn taker_sold(trade: IncrementalTrade) -> Option<bool> {
    if trade.px > 0 {
        Some(trade.aggressor_side == SIDE_SELL)
    } else {
        None
    }
}

/// The side that a trade counts for in the signed quantity: that of the taker.
/// A trade without a quantity or without a known side does not count.
pub fn signed_trade(trade: &IncrementalTrade) -> (side: Option<Side>)
    ensures
        side == taker_side(*trade),
{
    if trade.qty <= 0 {
        return None;
    }
    if trade.aggressor_side == SIDE_BUY {
        Some(Side::Buy)
    } else if trade.aggressor_side == SIDE_SELL {
        Some(Side::Sell)
    } else {
        None
    }
}

/// Whether the buyer of a trade was the maker, which is so where the taker sold;
/// nothing for a trade without a price.
pub fn buyer_is_maker(trade: &IncrementalTrade) -> (b: Option<bool>)
    ensures
        b == taker_sold(*trade),
{
    if trade.px > 0 {
        Some(trade.aggressor_side == SIDE_SELL)
    } else {
        None
    }
}

/// The fair value never counts our own quote: where it is known, each side of it
/// is the best price of the book, and either not the price of our order or shared
/// with others.
pub proof fn law_fair_value_excludes_our_quotes(s: State, side: Side)
    requires
        s.fair_value_spec() is Some,
    ensures
        s.non_self_x100(side) == s.spot_x100(side),
        s.non_self_x100(side) != 0,
        s.id(side) != 0 && s.px_x100(side) == s.non_self_x100(side) ==> s.spot_sz_e6(side)
            > ORDER_QTY_E6 - s.cum_filled_e6(side),
{
}

/// The best price without our own quote goes by the last ticker that held the
/// side: its size tells whether others stand with our order, whether or not a
/// price changed.
pub proof fn law_non_self_price_follows_sizes(s: State, bt: BookTickerView, a: SpotAmounts)
    requires
        bt.bid_px > 0,
        bt.ask_px > 0,
    ensures
        s.with_spot_book(bt, a).non_self_x100(Side::Buy) == if s.bid_id != 0 && s.bid_px_x100
            == a.bid_x100 && (a.bid_sz_e6 == 0 || a.bid_sz_e6 <= ORDER_QTY_E6
            - s.bid_cum_filled_e6) {
            0
        } else {
            a.bid_x100
        },
        s.with_spot_book(bt, a).non_self_x100(Side::Sell) == if s.ask_id != 0 && s.ask_px_x100
            == a.ask_x100 && (a.ask_sz_e6 == 0 || a.ask_sz_e6 <= ORDER_QTY_E6
            - s.ask_cum_filled_e6) {
            0
        } else {
            a.ask_x100
        },
{
}

} // verus!
