//! The trading rules.
use mm::fix::session::{FixSession, SessionKind};
use mm::maker::books::{buyer_is_maker, signed_trade, AnchorAmounts, EwmaStep, SpotAmounts};
use mm::maker::cids::{CidMap, InFlight, Side};
use mm::maker::driver::{noquote_log_due, TickStart};
use mm::maker::fills::{reduces_position, ExecStep, FillAmounts};
use mm::maker::hedge::{hedge_next, hedge_to_send, Hedge, HedgeNext};
use mm::maker::orders::{
    cancel, cancel_by_cid, cancel_by_cid_when, cancel_when, next_cid_counter, place_limit,
    place_limit_when, subscribe_book, subscribe_book_when, subscribe_trades,
    subscribe_trades_when,
};
use mm::maker::pause::{PauseEdge, Signals, Trigger};
use mm::maker::router::{begin_cancel, should_replace, Entry, Gate, PlaceOutcome};
use mm::maker::state::State;
use mm::sbe::{
    consts, encode_market_data_request, encode_new_order_limit_postonly, encode_order_cancel,
    parse_frame_header, BookTicker, ExecutionReport, ExecutionReportAck, IncrementalTrade,
};

const LOW: Trigger = Trigger { above_pause: false, above_unpause: false };
const BETWEEN: Trigger = Trigger { above_pause: false, above_unpause: true };
const HIGH: Trigger = Trigger { above_pause: true, above_unpause: true };
const CALM: Signals = Signals { jump: LOW, impulse: LOW, rate: LOW, perp: LOW };

fn inflight(entries: &[(&[u8], Side, u64)]) -> CidMap<InFlight> {
    let mut m = CidMap::new();
    for (cid, side, since_ms) in entries {
        m.insert(cid, InFlight { side: *side, since_ms: *since_ms });
    }
    m
}

#[test]
fn a_new_state_knows_nothing() {
    let s = State::new();
    assert_eq!((s.bid_id, s.ask_id, s.inventory_e6, s.pause_epoch), (0, 0, 0, 0));
    assert_eq!(s.active_side, Side::Buy);
    assert!(!s.halted && !s.was_paused);
}

#[test]
fn cid_map_holds_each_id_once() {
    let mut m: CidMap<Side> = CidMap::new();
    assert_eq!(m.get(b"a"), None);
    m.insert(b"a", Side::Buy);
    m.insert(b"b", Side::Buy);
    m.insert(b"a", Side::Sell);
    assert_eq!(m.get(b"a"), Some(Side::Sell));
    assert_eq!(m.get(b"b"), Some(Side::Buy));
    m.remove(b"a");
    m.remove(b"zzz");
    assert_eq!(m.get(b"a"), None);
    assert_eq!(m.drain(), vec![(b"b".to_vec(), Side::Buy)]);
    assert_eq!(m.get(b"b"), None);
}

#[test]
fn inflight_counts_and_evicts() {
    let mut m = inflight(&[(b"a", Side::Buy, 100), (b"b", Side::Sell, 50), (b"c", Side::Buy, 10)]);
    assert_eq!(m.inflight_count(Side::Buy), 2);
    assert_eq!(m.inflight_count(Side::Sell), 1);
    assert!(m.inflight_evict_stale(60, 50).is_empty());
    let gone = m.inflight_evict_stale(110, 59);
    assert_eq!(gone.len(), 2);
    assert_eq!(gone[0].0, b"b".to_vec());
    assert_eq!(gone[1].0, b"c".to_vec());
    assert_eq!(m.inflight_count(Side::Buy), 1);
    assert_eq!(m.inflight_count(Side::Sell), 0);
}

#[test]
fn cooldown_and_slots() {
    let mut s = State::new();
    s.arm_post_cancel_cooldown(Side::Sell, 1_000);
    assert_eq!((s.post_cancel_buy_ms, s.post_cancel_sell_ms), (0, 1_020));
    s.bid_id = 5;
    s.bid_px_x100 = 6;
    s.ask_id = 7;
    assert_eq!(s.cancel_all_ids(), vec![5, 7]);
    s.clear_slots();
    assert_eq!((s.bid_id, s.bid_px_x100, s.ask_id), (0, 0, 0));
    assert!(s.cancel_all_ids().is_empty());
    s.ask_id = 9;
    assert_eq!(s.cancel_all_ids(), vec![9]);
}

#[test]
fn pause_has_hysteresis() {
    let mut s = State::new();
    let between = Signals { impulse: BETWEEN, ..CALM };
    assert!(!s.is_paused(&between));
    assert!(s.is_paused(&Signals { impulse: HIGH, ..CALM }));
    assert!(s.is_paused(&Signals { rate: HIGH, ..CALM }));
    s.was_paused = true;
    assert!(s.pause_edge_check());
    assert!(s.is_paused(&between));
    assert!(!s.is_paused(&CALM));
}

#[test]
fn jumps_count_once_the_average_is_known() {
    let mut s = State::new();
    let jump = Signals { jump: HIGH, ..CALM };
    let perp = Signals { perp: HIGH, ..CALM };
    s.usdt_bid_x100 = 1;
    s.usdt_ask_x100 = 2;
    s.perp_bid_x100 = 1;
    s.perp_ask_x100 = 2;
    assert!(!s.is_paused(&jump));
    assert!(!s.is_paused(&perp));
    s.usdt_mid_ewma_x100 = 1;
    s.perp_mid_ewma_x100 = 1;
    assert!(s.is_paused(&jump));
    assert!(s.is_paused(&perp));
}

#[test]
fn a_pause_cancels_everything_once() {
    let mut s = State::new();
    s.bid_id = 11;
    let mut m = inflight(&[(b"x", Side::Sell, 1)]);
    let stormy = Signals { impulse: HIGH, ..CALM };
    let step = s.pause_edge_update(&mut m, &stormy, &LOW, 1_000);
    match step.edge {
        PauseEdge::Paused { bid_id, ask_id, inflight } => {
            assert_eq!((bid_id, ask_id), (11, 0));
            assert_eq!(inflight.len(), 1);
        }
        other => panic!("{:?}", other),
    }
    assert!(s.was_paused);
    assert_eq!(s.pause_epoch, 1);
    assert_eq!(s.bid_id, 11);
    assert_eq!((s.post_cancel_buy_ms, s.post_cancel_sell_ms), (1_020, 1_020));
    assert_eq!(m.inflight_count(Side::Sell), 0);
    let step = s.pause_edge_update(&mut m, &stormy, &LOW, 1_001);
    assert!(matches!(step.edge, PauseEdge::Unchanged));
    let step = s.pause_edge_update(&mut m, &CALM, &LOW, 1_002);
    assert!(matches!(step.edge, PauseEdge::Resumed));
    assert!(!s.was_paused);
    assert_eq!(s.pause_epoch, 1);
}

#[test]
fn a_one_sided_book_cancels_the_threatened_side() {
    let mut s = State::new();
    s.bid_id = 1;
    s.ask_id = 2;
    s.usdt_bid_sz_e6 = 1_010_000;
    s.usdt_ask_sz_e6 = 200_000_000;
    assert_eq!(s.threatened_side(), Some(Side::Buy));
    let mut m = inflight(&[]);
    assert_eq!(s.pause_edge_update(&mut m, &CALM, &BETWEEN, 100).bbo_cancel, None);
    assert_eq!(s.pause_edge_update(&mut m, &CALM, &HIGH, 100).bbo_cancel, Some((Side::Buy, 1)));
    // The cooldown keeps the cancel from being sent again.
    assert_eq!(s.pause_edge_update(&mut m, &CALM, &HIGH, 119).bbo_cancel, None);
    assert_eq!(s.pause_edge_update(&mut m, &CALM, &HIGH, 120).bbo_cancel, Some((Side::Buy, 1)));
    s.usdt_bid_sz_e6 = 300_000_000;
    assert_eq!(s.pause_edge_update(&mut m, &CALM, &HIGH, 120).bbo_cancel, Some((Side::Sell, 2)));
    s.usdt_ask_sz_e6 = 1_009_999;
    assert_eq!(s.threatened_side(), None);
}

#[test]
fn entry_to_a_side() {
    let mut s = State::new();
    assert_eq!(s.reconcile_entry(Side::Buy, 10), Entry::Go);
    s.rate_limit_until_ms = 11;
    assert_eq!(s.reconcile_entry(Side::Buy, 10), Entry::Stop);
    s.rate_limit_until_ms = 10;
    s.halted = true;
    assert_eq!(s.reconcile_entry(Side::Buy, 10), Entry::Stop);
    s.halted = false;
    s.was_paused = true;
    assert_eq!(s.reconcile_entry(Side::Buy, 10), Entry::Stop);
    s.ask_id = 4;
    assert_eq!(s.reconcile_entry(Side::Sell, 10), Entry::Stop);
    assert_eq!(s.reconcile_entry(Side::Buy, 10), Entry::CancelAll { bid_id: 0, ask_id: 4 });
    assert_eq!((s.post_cancel_buy_ms, s.post_cancel_sell_ms), (0, 30));
}

#[test]
fn the_cancels_of_a_pause_go_out_once() {
    let mut s = State::new();
    s.was_paused = true;
    s.pause_epoch = 3;
    s.bid_id = 4;
    s.bid_px_x100 = 5;
    assert_eq!(s.reconcile_entry(Side::Buy, 10), Entry::CancelAll { bid_id: 4, ask_id: 0 });
    assert_eq!(s.cancelled_epoch, Some(3));
    assert_eq!(s.reconcile_entry(Side::Buy, 11), Entry::Stop);
    assert_eq!(s.reconcile_entry(Side::Sell, 12), Entry::Stop);
    assert_eq!((s.bid_id, s.bid_px_x100, s.post_cancel_buy_ms), (4, 5, 30));
    s.pause_epoch = 4;
    assert_eq!(s.reconcile_entry(Side::Buy, 13), Entry::CancelAll { bid_id: 4, ask_id: 0 });
}

#[test]
fn a_pause_that_cancelled_asks_for_no_more() {
    let stormy = Signals { impulse: HIGH, ..CALM };
    let mut m = inflight(&[]);
    let mut s = State::new();
    s.bid_id = 4;
    s.pause_edge_update(&mut m, &stormy, &LOW, 10);
    assert_eq!(s.cancelled_epoch, Some(1));
    assert_eq!(s.reconcile_entry(Side::Buy, 11), Entry::Stop);
    // A pause that began with nothing to cancel has its cancels left.
    let mut s = State::new();
    s.pause_edge_update(&mut m, &stormy, &LOW, 10);
    assert_eq!((s.pause_epoch, s.cancelled_epoch), (1, None));
    s.ask_id = 6;
    assert_eq!(s.reconcile_entry(Side::Buy, 11), Entry::CancelAll { bid_id: 0, ask_id: 6 });
    assert_eq!(s.reconcile_entry(Side::Buy, 12), Entry::Stop);
}

#[test]
fn gate_of_a_side() {
    let mut s = State::new();
    let none = inflight(&[]);
    assert_eq!(s.reconcile_gate(&none, Side::Buy, &LOW, 10), Gate::Place);
    s.inventory_e6 = 299_999;
    assert_eq!(s.reconcile_gate(&none, Side::Buy, &LOW, 10), Gate::Place);
    s.inventory_e6 = 300_000;
    s.bid_id = 3;
    assert_eq!(s.reconcile_gate(&none, Side::Buy, &LOW, 10), Gate::AtCap { cancel_id: 3 });
    assert_eq!(s.reconcile_gate(&none, Side::Sell, &LOW, 10), Gate::Place);
    s.inventory_e6 = -300_000;
    assert_eq!(s.reconcile_gate(&none, Side::Sell, &LOW, 10), Gate::AtCap { cancel_id: 0 });
    s.bid_px_x100 = 77;
    assert_eq!(
        s.reconcile_gate(&none, Side::Buy, &LOW, 10),
        Gate::Resting { order_id: 3, px_x100: 77 }
    );
    s.post_cancel_buy_ms = 11;
    assert_eq!(s.reconcile_gate(&none, Side::Buy, &LOW, 10), Gate::Idle);
    assert_eq!(
        s.reconcile_gate(&none, Side::Buy, &LOW, 11),
        Gate::Resting { order_id: 3, px_x100: 77 }
    );
    s.usdt_bid_sz_e6 = 2_000_000;
    s.usdt_ask_sz_e6 = 5_000_000;
    assert_eq!(s.reconcile_gate(&none, Side::Buy, &BETWEEN, 11), Gate::Idle);
}

#[test]
fn a_busy_side_is_left_alone() {
    let s = State::new();
    let m = inflight(&[(b"x", Side::Buy, 1)]);
    assert_eq!(s.reconcile_gate(&m, Side::Buy, &LOW, 10), Gate::Idle);
    assert_eq!(s.reconcile_gate(&m, Side::Sell, &LOW, 10), Gate::Place);
}

#[test]
fn inventory_cap_turns_to_the_other_side() {
    let mut s = State::new();
    s.bid_cum_filled_e6 = 5;
    assert!(s.apply_inventory_cap(Side::Buy, true, 100));
    assert_eq!(s.active_side, Side::Sell);
    assert_eq!((s.bid_cum_filled_e6, s.post_cancel_buy_ms), (0, 120));
    s.ask_cum_filled_e6 = 6;
    assert!(!s.apply_inventory_cap(Side::Buy, false, 200));
    assert_eq!((s.ask_cum_filled_e6, s.post_cancel_buy_ms), (6, 120));
}

#[test]
fn placing_an_order() {
    let mut s = State::new();
    s.spot_bid_x100 = 1000;
    s.spot_ask_x100 = 1010;
    let mut m = inflight(&[]);
    let mut sides: CidMap<Side> = CidMap::new();
    let ticket = s.begin_place(&mut m, &mut sides, Side::Buy, b"m1", 50).unwrap();
    assert_eq!(m.get(b"m1"), Some(InFlight { side: Side::Buy, since_ms: 50 }));
    assert_eq!(sides.get(b"m1"), Some(Side::Buy));
    let mut t = s;
    assert!(!t.place_superseded(&ticket, Side::Buy, 60));
    assert_eq!((t.post_cancel_buy_ms, t.last_buy_action_ms), (0, 0));

    let mut t = s;
    assert_eq!(t.on_place_sent(&ticket, Side::Buy, true, 999, 50, 60), PlaceOutcome::Placed);
    assert_eq!((t.bid_px_x100, t.last_requote_buy_ms, t.last_buy_action_ms), (999, 50, 60));

    let mut t = s;
    assert_eq!(t.on_place_sent(&ticket, Side::Buy, false, 999, 50, 60), PlaceOutcome::NotSent);
    assert_eq!((t.bid_px_x100, t.last_requote_buy_ms, t.last_buy_action_ms), (0, 0, 60));

    let mut t = s;
    t.spot_bid_x100 = 1002;
    assert_eq!(t.on_place_sent(&ticket, Side::Buy, true, 999, 50, 60), PlaceOutcome::Placed);
    let mut t = s;
    t.spot_ask_x100 = 1007;
    assert_eq!(t.on_place_sent(&ticket, Side::Buy, true, 999, 50, 60), PlaceOutcome::CancelStale);
    assert_eq!((t.bid_px_x100, t.last_requote_buy_ms), (0, 50));
    assert_eq!((t.post_cancel_buy_ms, t.last_buy_action_ms), (80, 60));

    let mut t = s;
    t.pause_epoch = 1;
    assert!(t.place_superseded(&ticket, Side::Buy, 55));
    assert_eq!((t.post_cancel_buy_ms, t.last_buy_action_ms), (75, 55));
    assert_eq!(t.on_place_sent(&ticket, Side::Buy, true, 999, 50, 60), PlaceOutcome::CancelPaused);
    assert_eq!((t.post_cancel_buy_ms, t.last_buy_action_ms), (80, 60));

    s.was_paused = true;
    assert!(s.begin_place(&mut m, &mut sides, Side::Sell, b"m2", 50).is_none());
    assert_eq!(m.get(b"m2"), None);
}

#[test]
fn an_unknown_book_has_not_moved() {
    let mut s = State::new();
    assert!(!s.bbo_moved_during_send(100, 200));
    s.spot_bid_x100 = i64::MAX;
    s.spot_ask_x100 = 5;
    assert!(!s.bbo_moved_during_send(0, 200));
    assert!(s.bbo_moved_during_send(i64::MIN, 5));
}

#[test]
fn replacing_an_order() {
    assert!(!should_replace(true, false, false));
    assert!(should_replace(false, false, false));
    assert!(should_replace(true, true, false));
    assert!(!should_replace(false, true, true));
    let mut s = State::new();
    let mut m = inflight(&[]);
    let mut sides: CidMap<Side> = CidMap::new();
    begin_cancel(&mut m, &mut sides, Side::Sell, b"c1", 70);
    assert_eq!(m.inflight_count(Side::Sell), 1);
    s.on_cancel_sent(&mut m, &mut sides, Side::Sell, b"c1", true, 80);
    assert_eq!((s.post_cancel_sell_ms, s.last_sell_action_ms), (100, 80));
    assert_eq!(m.inflight_count(Side::Sell), 1);
    s.on_cancel_sent(&mut m, &mut sides, Side::Sell, b"c1", false, 90);
    assert_eq!((s.post_cancel_sell_ms, s.last_sell_action_ms), (100, 80));
    assert_eq!(m.inflight_count(Side::Sell), 0);
    assert_eq!(sides.get(b"c1"), None);
}

fn report(exec_type: u8, ord_status: u8) -> ExecutionReport {
    ExecutionReport {
        price_exponent: -2,
        qty_exponent: -4,
        exec_id: 0,
        order_id: 77,
        order_qty: 1500,
        ord_type: consts::ORDTYPE_LIMIT,
        side: consts::SIDE_BUY,
        price: 1000,
        transact_time: 0,
        exec_type,
        cum_qty: 0,
        leaves_qty: 0,
        cum_quote_qty: 0,
        trade_id: 0,
        last_px: 1000,
        last_qty: 50,
        ord_status,
        error_code: 0,
        cl_ord_id: b"m1".to_vec(),
        orig_cl_ord_id: Vec::new(),
        symbol: b"ETHU".to_vec(),
        error_text: Vec::new(),
    }
}

struct Desk {
    s: State,
    m: CidMap<InFlight>,
    sides: CidMap<Side>,
}

fn desk() -> Desk {
    let mut sides: CidMap<Side> = CidMap::new();
    sides.insert(b"m1", Side::Sell);
    Desk { s: State::new(), m: inflight(&[(b"m1", Side::Buy, 1)]), sides }
}

impl Desk {
    fn take(&mut self, er: &ExecutionReport) -> ExecStep {
        self.s.handle_exec_report(&mut self.m, &mut self.sides, er, 1_000)
    }
}

#[test]
fn a_new_order_gets_its_id() {
    let mut d = desk();
    let er = report(consts::EXECTYPE_NEW, consts::ORDSTATUS_NEW);
    assert_eq!(d.take(&er), ExecStep::Done);
    assert_eq!((d.s.bid_id, d.s.ask_id), (77, 0));
    assert_eq!(d.m.get(b"m1"), None);
    assert_eq!(d.sides.get(b"m1"), Some(Side::Sell));
}

#[test]
fn the_side_of_a_report_may_come_from_its_id() {
    let mut d = desk();
    let mut er = report(consts::EXECTYPE_NEW, consts::ORDSTATUS_NEW);
    er.side = 0;
    d.take(&er);
    assert_eq!((d.s.bid_id, d.s.ask_id), (0, 77));
    let mut d = desk();
    er.cl_ord_id = b"other".to_vec();
    d.take(&er);
    assert_eq!((d.s.bid_id, d.s.ask_id), (0, 0));
    let mut d = desk();
    er.cl_ord_id = Vec::new();
    er.side = consts::SIDE_BUY;
    d.take(&er);
    assert_eq!(d.s.bid_id, 0);
    assert!(d.m.get(b"m1").is_some());
}

#[test]
fn a_cancelled_order_keeps_its_filled_quantity() {
    let mut d = desk();
    d.s.bid_id = 77;
    d.s.bid_px_x100 = 5;
    d.s.bid_cum_filled_e6 = 9;
    let er = report(consts::EXECTYPE_CANCELED, consts::ORDSTATUS_CANCELED);
    assert_eq!(d.take(&er), ExecStep::Done);
    assert_eq!((d.s.bid_id, d.s.bid_px_x100, d.s.bid_cum_filled_e6), (0, 0, 9));
    assert_eq!(d.s.post_cancel_buy_ms, 1_020);
    assert_eq!(d.sides.get(b"m1"), None);
    assert_eq!(d.m.get(b"m1"), None);
}

#[test]
fn an_expired_order_loses_its_filled_quantity() {
    let mut d = desk();
    d.s.ask_id = 77;
    d.s.ask_cum_filled_e6 = 9;
    let er = report(consts::EXECTYPE_EXPIRED, consts::ORDSTATUS_EXPIRED);
    d.take(&er);
    assert_eq!((d.s.ask_id, d.s.ask_cum_filled_e6, d.s.post_cancel_sell_ms), (0, 0, 0));
    // A report of another order changes no slot.
    let mut d = desk();
    d.s.ask_id = 78;
    d.take(&er);
    assert_eq!(d.s.ask_id, 78);
}

#[test]
fn too_many_orders_halt() {
    let mut d = desk();
    d.s.bid_px_x100 = 5;
    let mut er = report(consts::EXECTYPE_REJECTED, consts::ORDSTATUS_REJECTED);
    er.order_id = 0;
    er.error_code = -1015;
    assert_eq!(
        d.take(&er),
        ExecStep::Rejected { rate_limited: true, insufficient_balance: false }
    );
    assert!(d.s.halted);
    assert_eq!((d.s.rate_limit_until_ms, d.s.bid_px_x100), (2_000, 0));
    assert_eq!(d.sides.get(b"m1"), None);
    assert_eq!(d.m.get(b"m1"), None);
}

#[test]
fn missing_funds_are_told() {
    let mut er = report(consts::EXECTYPE_REJECTED, consts::ORDSTATUS_REJECTED);
    er.error_code = -2010;
    er.error_text = b"Account has insufficient balance for requested action.".to_vec();
    let fatal = ExecStep::Rejected { rate_limited: false, insufficient_balance: true };
    let plain = ExecStep::Rejected { rate_limited: false, insufficient_balance: false };
    assert_eq!(desk().take(&er), fatal);
    er.error_text = b"Insufficient balance".to_vec();
    assert_eq!(desk().take(&er), fatal);
    er.error_text = b"Order would immediately match and take.".to_vec();
    assert_eq!(desk().take(&er), plain);
    er.error_text = b"insufficient balance".to_vec();
    er.error_code = -2011;
    assert_eq!(desk().take(&er), plain);
}

#[test]
fn fills_are_told_apart() {
    let mut er = report(consts::EXECTYPE_TRADE, consts::ORDSTATUS_PARTIALLY_FILLED);
    assert_eq!(desk().take(&er), ExecStep::Fill(Side::Buy));
    er.last_qty = 0;
    assert_eq!(desk().take(&er), ExecStep::Done);
    er.last_qty = 1;
    er.last_px = consts::NULL_I64;
    assert_eq!(desk().take(&er), ExecStep::Done);
    er.last_px = 1;
    er.exec_type = consts::EXECTYPE_REPLACED;
    assert_eq!(desk().take(&er), ExecStep::Done);
    er.exec_type = consts::EXECTYPE_TRADE;
    er.side = 0;
    assert_eq!(desk().take(&er), ExecStep::Fill(Side::Sell));
    er.cl_ord_id = b"unknown".to_vec();
    assert_eq!(desk().take(&er), ExecStep::Done);
    // A filled order leaves its slot.
    let mut d = desk();
    d.s.bid_id = 77;
    let er = report(consts::EXECTYPE_TRADE, consts::ORDSTATUS_FILLED);
    assert_eq!(d.take(&er), ExecStep::Fill(Side::Buy));
    assert_eq!(d.s.bid_id, 0);
}

fn amounts(qty_e6: i64) -> FillAmounts {
    FillAmounts {
        inventory_e6: 11,
        avg_cost_x100: 22,
        realized_x1m: 33,
        cash_x1m: -44,
        qty_e6,
    }
}

#[test]
fn a_full_fill_turns_the_side() {
    let mut s = State::new();
    s.realized_pnl_x1m = 1;
    let er = report(consts::EXECTYPE_TRADE, consts::ORDSTATUS_FILLED);
    let step = s.on_fill(&er, Side::Buy, &amounts(5_000), false, 500);
    assert!(step.flipped);
    assert_eq!(step.cancel_dust, None);
    assert_eq!(step.hedge, Some(Hedge { side: Side::Sell, qty_e6: 5_000 }));
    assert_eq!(step.send, None);
    assert_eq!(hedge_to_send(step.hedge), None);
    assert_eq!(hedge_to_send(None), None);
    assert_eq!(s.active_side, Side::Sell);
    assert_eq!((s.inventory_e6, s.avg_cost_x100), (11, 22));
    assert_eq!((s.realized_pnl_x1m, s.cash_x1m, s.fills_count), (34, -44, 1));
    assert_eq!((s.bid_cum_filled_e6, s.pending_hedge_buy_e6), (0, 0));
    // A second full fill on that side changes nothing of the side.
    let step = s.on_fill(&er, Side::Buy, &amounts(1), false, 500);
    assert!(!step.flipped);
    assert_eq!((s.bid_cum_filled_e6, s.pending_hedge_buy_e6), (1, 1));
}

#[test]
fn a_partial_fill_goes_on_unless_it_leaves_dust() {
    let mut er = report(consts::EXECTYPE_TRADE, consts::ORDSTATUS_PARTIALLY_FILLED);
    er.leaves_qty = 3;
    let mut s = State::new();
    let step = s.on_fill(&er, Side::Buy, &amounts(1_000), false, 500);
    assert!(!step.flipped && step.cancel_dust.is_none() && step.hedge.is_none());
    assert_eq!(s.bid_cum_filled_e6, 1_000);
    let step = s.on_fill(&er, Side::Buy, &amounts(1_000), true, 500);
    assert!(step.flipped);
    assert_eq!(step.cancel_dust, Some(77));
    assert_eq!((s.post_cancel_buy_ms, s.last_buy_action_ms), (520, 500));
    assert_eq!(s.pending_hedge_buy_e6, 2_000);
    er.leaves_qty = 0;
    let mut s = State::new();
    assert!(!s.on_fill(&er, Side::Buy, &amounts(1), true, 500).flipped);
}

#[test]
fn fills_of_both_sides_net_out() {
    let mut s = State::new();
    assert_eq!(s.add_pending_hedge(Side::Buy, 4_999), None);
    assert_eq!(s.add_pending_hedge(Side::Sell, 3_000), None);
    assert_eq!((s.pending_hedge_buy_e6, s.pending_hedge_sell_e6), (1_999, 0));
    assert_eq!(s.add_pending_hedge(Side::Buy, 3_000), None);
    assert_eq!(
        s.add_pending_hedge(Side::Buy, 1),
        Some(Hedge { side: Side::Sell, qty_e6: 5_000 })
    );
    assert_eq!((s.pending_hedge_buy_e6, s.pending_hedge_sell_e6), (0, 0));
    assert_eq!(s.add_pending_hedge(Side::Buy, 100), None);
    assert_eq!(
        s.add_pending_hedge(Side::Sell, 6_000),
        Some(Hedge { side: Side::Buy, qty_e6: 5_900 })
    );
    assert_eq!((s.pending_hedge_buy_e6, s.pending_hedge_sell_e6), (0, 0));
}

#[test]
fn a_hedge_is_retried_once() {
    assert_eq!(hedge_next(true, true, true, false), HedgeNext::Apply);
    assert_eq!(hedge_next(true, true, true, true), HedgeNext::Apply);
    assert_eq!(hedge_next(false, true, true, false), HedgeNext::Retry);
    assert_eq!(hedge_next(true, false, true, false), HedgeNext::Retry);
    assert_eq!(hedge_next(true, true, false, true), HedgeNext::Abort);
}

#[test]
fn a_hedge_is_booked() {
    let mut s = State::new();
    assert!(!s.apply_lighter_fill(false, true, true, &amounts(1)));
    assert_eq!(s.lighter_hedges, 0);
    assert!(s.apply_lighter_fill(true, true, true, &amounts(1)));
    assert_eq!((s.lighter_inv_e6, s.lighter_avg_cost_x100), (11, 22));
    assert_eq!((s.lighter_realized_x1m, s.lighter_cash_x1m, s.lighter_hedges), (33, -44, 1));
    assert_eq!(s.inventory_e6, 0);
}

#[test]
fn which_fills_reduce_a_position() {
    assert!(reduces_position(-1, Side::Buy));
    assert!(!reduces_position(0, Side::Buy));
    assert!(reduces_position(1, Side::Sell));
    assert!(!reduces_position(-1, Side::Sell));
}

#[test]
fn acks_keep_the_slots() {
    let mut ack = ExecutionReportAck {
        order_id: 5,
        transact_time: 0,
        exec_type: consts::EXECTYPE_NEW,
        ord_status: consts::ORDSTATUS_NEW,
        error_code: 0,
        cl_ord_id: b"m1".to_vec(),
        symbol: Vec::new(),
    };
    let mut d = desk();
    assert!(!d.s.handle_exec_report_ack(&mut d.sides, &ack));
    assert_eq!((d.s.bid_id, d.s.ask_id), (0, 5));
    ack.exec_type = consts::EXECTYPE_REJECTED;
    ack.ord_status = consts::ORDSTATUS_REJECTED;
    d.s.ask_px_x100 = 3;
    assert!(d.s.handle_exec_report_ack(&mut d.sides, &ack));
    assert_eq!((d.s.ask_id, d.s.ask_px_x100), (0, 0));
    assert_eq!(d.sides.get(b"m1"), None);
}

fn ticker(bid_px: i64, bid_qty: i64, ask_px: i64, ask_qty: i64) -> BookTicker {
    BookTicker {
        last_book_update_id: 0,
        price_exponent: -2,
        qty_exponent: -4,
        bid_px,
        bid_qty,
        ask_px,
        ask_qty,
        symbol: Vec::new(),
    }
}

#[test]
fn spot_books_merge() {
    let mut s = State::new();
    let a = SpotAmounts { bid_x100: 100, ask_x100: 0, bid_sz_e6: 7, ask_sz_e6: 0 };
    assert!(s.on_spot_book(&ticker(1, 1, 0, 0), &a));
    let b = SpotAmounts { bid_x100: 0, ask_x100: 110, bid_sz_e6: 0, ask_sz_e6: 8 };
    assert!(s.on_spot_book(&ticker(0, 0, 1, 1), &b));
    assert_eq!((s.spot_bid_x100, s.spot_ask_x100), (100, 110));
    assert_eq!((s.spot_bid_sz_e6, s.spot_ask_sz_e6), (7, 8));
    // The same prices again are no change, but their sizes count.
    let c = SpotAmounts { bid_x100: 100, ask_x100: 110, bid_sz_e6: 70, ask_sz_e6: 80 };
    assert!(!s.on_spot_book(&ticker(1, 1, 0, 1), &c));
    assert_eq!((s.spot_bid_sz_e6, s.spot_ask_sz_e6), (70, 8));
    assert!(!s.on_spot_book(&ticker(1, 1, 1, 1), &c));
    assert_eq!((s.spot_bid_sz_e6, s.spot_ask_sz_e6), (70, 80));
    assert_eq!(s.spot_mid_x200(), Some(210));
    assert!(s.quotable());
    s.spot_bid_x100 = 110;
    assert!(!s.quotable());
    s.spot_bid_x100 = 0;
    assert_eq!(s.spot_mid_x200(), None);
    assert!(!s.quotable());
}

#[test]
fn the_fair_value_leaves_our_own_quote_out() {
    let mut s = State::new();
    s.spot_bid_x100 = 100;
    s.spot_ask_x100 = 110;
    s.spot_bid_sz_e6 = 150_000;
    s.spot_ask_sz_e6 = 1;
    assert_eq!(s.fair_value_x200(), Some(210));
    // Our bid is the best, and alone there.
    s.bid_id = 7;
    s.bid_px_x100 = 100;
    assert_eq!(s.best_non_self_bid_x100(), 0);
    assert_eq!(s.best_non_self_ask_x100(), 110);
    assert_eq!(s.fair_value_x200(), None);
    assert!(!s.quotable());
    assert_eq!(s.spot_mid_x200(), Some(210));
    // The size shows others there.
    s.spot_bid_sz_e6 = 150_001;
    assert_eq!(s.best_non_self_bid_x100(), 100);
    assert_eq!(s.fair_value_x200(), Some(210));
    // What was filled of our order is not there any more.
    s.spot_bid_sz_e6 = 100_000;
    assert_eq!(s.best_non_self_bid_x100(), 0);
    s.bid_cum_filled_e6 = 50_001;
    assert_eq!(s.best_non_self_bid_x100(), 100);
    // Our bid is behind the best.
    s.spot_bid_sz_e6 = 1;
    s.bid_px_x100 = 99;
    assert_eq!(s.best_non_self_bid_x100(), 100);
    // Our ask likewise.
    s.ask_id = 8;
    s.ask_px_x100 = 110;
    assert_eq!(s.best_non_self_ask_x100(), 0);
    assert_eq!(s.fair_value_x200(), None);
}

#[test]
fn the_non_self_price_follows_the_sizes() {
    let mut s = State::new();
    s.bid_id = 7;
    s.bid_px_x100 = 100;
    let alone = SpotAmounts { bid_x100: 100, ask_x100: 110, bid_sz_e6: 150_000, ask_sz_e6: 9 };
    let joined = SpotAmounts { bid_sz_e6: 5_000_000, ..alone };
    let bt = ticker(1, 1, 1, 1);
    assert!(s.on_spot_ticker(&bt, &alone, 1).changed);
    assert_eq!((s.best_non_self_bid_x100(), s.fair_value_x200()), (0, None));
    assert!(!s.on_spot_ticker(&bt, &joined, 2).changed);
    assert_eq!((s.best_non_self_bid_x100(), s.fair_value_x200()), (100, Some(210)));
    assert!(!s.on_spot_ticker(&bt, &alone, 3).changed);
    assert_eq!((s.best_non_self_bid_x100(), s.fair_value_x200()), (0, None));
}

#[test]
fn anchor_sizes_count_without_a_price_change() {
    let mut s = State::new();
    let a = AnchorAmounts { bid_x100: 100, ask_x100: 110, bid_sz_e6: 7, ask_sz_e6: 8 };
    assert!(s.on_usdt_book(&ticker(1, 1, 1, 1), &a));
    let b = AnchorAmounts { bid_x100: 100, ask_x100: 110, bid_sz_e6: 70, ask_sz_e6: 80 };
    assert!(!s.on_usdt_book(&ticker(1, 1, 1, 0), &b));
    assert_eq!((s.usdt_bid_sz_e6, s.usdt_ask_sz_e6), (70, 8));
    assert_eq!(s.sigma_sample_x200(), Some(210));
    s.usdt_bid_x100 = -1;
    assert_eq!(s.sigma_sample_x200(), None);
}

#[test]
fn averages_start_and_go_on() {
    let mut s = State::new();
    assert_eq!(s.update_usdt_ewma(10), EwmaStep::NotReady);
    assert_eq!(s.update_basis(10), EwmaStep::NotReady);
    s.usdt_bid_x100 = 101;
    s.usdt_ask_x100 = 104;
    assert_eq!(s.update_usdt_ewma(10), EwmaStep::First);
    assert_eq!(s.usdt_mid_ewma_x100, 102);
    assert_eq!(s.usdt_mid_x100(), 102);
    assert_eq!(s.update_usdt_ewma(35), EwmaStep::Blend { dt_us: 25, prev: 102 });
    s.spot_bid_x100 = 1;
    s.spot_ask_x100 = 2;
    s.basis_x100 = -5;
    assert_eq!(s.update_basis(10), EwmaStep::First);
    assert_eq!(s.update_basis(12), EwmaStep::Blend { dt_us: 2, prev: -5 });
    assert_eq!(s.basis_n, 2);
    assert_eq!(s.perp_update_book(-3, -4, 10), EwmaStep::First);
    assert_eq!((s.perp_mid_ewma_x100, s.perp_mid_x100()), (-3, -3));
    assert_eq!(s.perp_update_book(i64::MAX, i64::MAX, 20), EwmaStep::Blend { dt_us: 10, prev: -3 });
    assert_eq!(s.perp_mid_x100(), i64::MAX);
    assert_eq!(s.signed_qty_age_us(10), None);
    assert_eq!(s.update_signed_qty(10), EwmaStep::First);
    s.signed_qty_e6 = 9;
    assert_eq!(s.update_signed_qty(13), EwmaStep::Blend { dt_us: 3, prev: 9 });
    assert_eq!(s.signed_qty_age_us(20), Some(7));
}

#[test]
fn tickers_carry_the_averages_on() {
    let mut s = State::new();
    let anchor = AnchorAmounts { bid_x100: 100, ask_x100: 104, bid_sz_e6: 7, ask_sz_e6: 8 };
    let tick = s.on_usdt_ticker(&ticker(1, 1, 1, 1), &anchor, 5);
    assert!(tick.changed);
    assert_eq!((tick.ewma, tick.basis), (EwmaStep::First, EwmaStep::NotReady));
    assert_eq!(s.usdt_mid_ewma_x100, 102);
    let spot = SpotAmounts { bid_x100: 90, ask_x100: 92, bid_sz_e6: 1, ask_sz_e6: 1 };
    let tick = s.on_spot_ticker(&ticker(1, 1, 1, 1), &spot, 6);
    assert!(tick.changed);
    assert_eq!((tick.ewma, tick.basis), (EwmaStep::NotReady, EwmaStep::First));
    let tick = s.on_spot_ticker(&ticker(1, 1, 1, 1), &spot, 7);
    assert!(!tick.changed);
    assert_eq!(s.basis_n, 1);
    let moved = AnchorAmounts { bid_x100: 101, ..anchor };
    let tick = s.on_usdt_ticker(&ticker(1, 1, 1, 1), &moved, 9);
    assert_eq!(tick.ewma, EwmaStep::Blend { dt_us: 4, prev: 102 });
    assert_eq!(tick.basis, EwmaStep::Blend { dt_us: 3, prev: 0 });
    let sized = AnchorAmounts { bid_sz_e6: 70, ..moved };
    let tick = s.on_usdt_ticker(&ticker(1, 1, 1, 1), &sized, 10);
    assert!(!tick.changed);
    assert_eq!((s.usdt_bid_sz_e6, s.last_usdt_ewma_ts_us), (70, 9));
}

#[test]
fn trades_count_by_their_taker() {
    let mut t = IncrementalTrade {
        transact_time: 0,
        price_exponent: -2,
        qty_exponent: -4,
        px: 5,
        qty: 6,
        aggressor_side: consts::SIDE_BUY,
    };
    assert_eq!(signed_trade(&t), Some(Side::Buy));
    assert_eq!(buyer_is_maker(&t), Some(false));
    t.aggressor_side = consts::SIDE_SELL;
    assert_eq!(signed_trade(&t), Some(Side::Sell));
    assert_eq!(buyer_is_maker(&t), Some(true));
    t.aggressor_side = 0;
    assert_eq!(signed_trade(&t), None);
    t.aggressor_side = consts::SIDE_SELL;
    t.qty = 0;
    t.px = 0;
    assert_eq!(signed_trade(&t), None);
    assert_eq!(buyer_is_maker(&t), None);
}

#[test]
fn a_halt_ends_in_time() {
    let mut s = State::new();
    s.halted = true;
    s.rate_limit_until_ms = 1_000;
    let mut m = inflight(&[]);
    assert!(matches!(s.tick_start(&mut m, 999), TickStart::Halted));
    match s.tick_start(&mut m, 1_000) {
        TickStart::Run { resumed, .. } => assert!(resumed),
        other => panic!("{:?}", other),
    }
    assert!(!s.halted);
}

#[test]
fn a_tick_clears_what_is_lost() {
    let mut s = State::new();
    s.bid_id = 1;
    s.bid_px_x100 = 2;
    s.last_buy_action_ms = 1_000;
    s.ask_id = 3;
    s.last_sell_action_ms = 2_000;
    let mut m = inflight(&[(b"old", Side::Sell, 500), (b"new", Side::Sell, 30_000)]);
    match s.tick_start(&mut m, 46_001) {
        TickStart::Run { resumed, stuck_buy, evicted, stuck_sell } => {
            assert!(!resumed);
            assert_eq!((stuck_buy, stuck_sell), (Some(1), None));
            assert_eq!(evicted.len(), 1);
            assert_eq!(evicted[0].0, b"old".to_vec());
        }
        other => panic!("{:?}", other),
    }
    assert_eq!((s.bid_id, s.bid_px_x100, s.last_buy_action_ms), (0, 0, 46_001));
    assert_eq!((s.post_cancel_buy_ms, s.post_cancel_sell_ms), (46_021, 46_021));
    assert_eq!(s.ask_id, 3);
    assert_eq!(s.last_sell_action_ms, 46_001);
    match s.tick_start(&mut m, 91_002) {
        TickStart::Run { stuck_sell, .. } => assert_eq!(stuck_sell, Some(3)),
        other => panic!("{:?}", other),
    }
    assert_eq!(s.ask_id, 0);
}

#[test]
fn a_reported_order_is_not_lost() {
    let mut d = desk();
    d.s.bid_id = 77;
    d.s.bid_px_x100 = 5;
    d.s.last_buy_action_ms = 1;
    let er = report(consts::EXECTYPE_TRADE, consts::ORDSTATUS_PARTIALLY_FILLED);
    assert_eq!(d.s.handle_exec_report(&mut d.m, &mut d.sides, &er, 99_000), ExecStep::Fill(Side::Buy));
    assert_eq!((d.s.last_buy_report_ms, d.s.last_sell_report_ms), (99_000, 0));
    let mut m = inflight(&[]);
    for now in [100_000, 144_000] {
        match d.s.tick_start(&mut m, now) {
            TickStart::Run { stuck_buy, .. } => assert_eq!(stuck_buy, None),
            other => panic!("{:?}", other),
        }
        assert_eq!((d.s.bid_id, d.s.bid_px_x100), (77, 5));
    }
    match d.s.tick_start(&mut m, 144_001) {
        TickStart::Run { stuck_buy, .. } => assert_eq!(stuck_buy, Some(77)),
        other => panic!("{:?}", other),
    }
}

#[test]
fn an_order_without_an_action_is_not_lost() {
    let mut s = State::new();
    s.bid_id = 1;
    let mut m = inflight(&[]);
    match s.tick_start(&mut m, 1_000_000) {
        TickStart::Run { stuck_buy, .. } => assert_eq!(stuck_buy, None),
        other => panic!("{:?}", other),
    }
}

#[test]
fn a_tick_quotes_one_side() {
    let mut s = State::new();
    s.bid_id = 4;
    let t = s.tick_side(100);
    assert_eq!((t.side, t.cancel_stale), (Side::Buy, None));
    assert_eq!(s.post_cancel_buy_ms, 0);
    assert!(s.flip_to(Side::Sell));
    assert!(!s.flip_to(Side::Sell));
    let t = s.tick_side(100);
    assert_eq!((t.side, t.cancel_stale), (Side::Sell, Some(4)));
    assert_eq!(s.post_cancel_buy_ms, 120);
}

#[test]
fn cancels_are_actions() {
    let stormy = Signals { impulse: HIGH, ..CALM };
    let mut m = inflight(&[(b"x", Side::Sell, 1)]);
    let mut s = State::new();
    s.bid_id = 4;
    s.pause_edge_update(&mut m, &stormy, &LOW, 10);
    assert_eq!((s.last_buy_action_ms, s.last_sell_action_ms), (10, 10));

    let mut s = State::new();
    s.bid_id = 4;
    s.was_paused = true;
    s.reconcile_entry(Side::Buy, 11);
    assert_eq!((s.last_buy_action_ms, s.last_sell_action_ms), (11, 0));

    let mut s = State::new();
    s.apply_inventory_cap(Side::Sell, true, 12);
    assert_eq!((s.last_buy_action_ms, s.last_sell_action_ms), (0, 12));
    s.apply_inventory_cap(Side::Buy, false, 13);
    assert_eq!(s.last_buy_action_ms, 0);

    let mut s = State::new();
    let mut m = inflight(&[(b"x", Side::Sell, 1)]);
    s.tick_start(&mut m, 50_000);
    assert_eq!((s.last_buy_action_ms, s.last_sell_action_ms), (0, 50_000));
}

#[test]
fn a_cancel_sent_again_hides_no_lost_order() {
    let mut s = State::new();
    s.ask_id = 9;
    s.last_sell_action_ms = 500;
    s.last_sell_report_ms = 800;
    let mut m = inflight(&[]);
    let mut now = 1_000;
    while now <= 46_000 {
        assert!(matches!(
            s.tick_start(&mut m, now),
            TickStart::Run { stuck_sell: None, .. }
        ));
        assert_eq!(s.tick_side(now).cancel_stale, Some(9));
        assert_eq!((s.post_cancel_sell_ms, s.last_sell_action_ms), (now + 20, 1_000));
        now += 500;
    }
    assert!(matches!(
        s.tick_start(&mut m, 46_001),
        TickStart::Run { stuck_sell: Some(9), .. }
    ));
}

#[test]
fn the_no_quote_line_is_rare() {
    let mut last = 0;
    assert!(!noquote_log_due(&mut last, 60_000));
    assert!(noquote_log_due(&mut last, 60_001));
    assert_eq!(last, 60_001);
    assert!(!noquote_log_due(&mut last, 100_000));
    assert!(!noquote_log_due(&mut last, 5));
}

fn sending_time(frame: &[u8]) -> i64 {
    match parse_frame_header(frame) {
        Some(Ok(h)) => h.sending_time,
        _ => panic!("no header"),
    }
}

#[test]
fn order_frames() {
    let mut s = FixSession::new(SessionKind::OrderEntry, "A".to_string(), "B".to_string());
    let (seq, frame) = place_limit(&mut s, "ETHU", Side::Sell, 234_567, 1_500, b"m1").unwrap();
    let ts = sending_time(&frame);
    assert_eq!(seq, 1);
    assert_eq!(
        frame,
        encode_new_order_limit_postonly(
            1,
            ts,
            -2,
            -4,
            1_500,
            234_567,
            consts::SIDE_SELL,
            b"m1",
            b"ETHU"
        )
    );
    let (seq, frame) = cancel(&mut s, "ETHU", 99, b"c1").unwrap();
    let ts = sending_time(&frame);
    assert_eq!(frame, encode_order_cancel(seq, ts, 99, b"c1", b"", b"ETHU"));
    let (seq, frame) = cancel_by_cid(&mut s, "ETHU", b"m1", b"c2").unwrap();
    let ts = sending_time(&frame);
    assert_eq!(seq, 3);
    assert_eq!(frame, encode_order_cancel(3, ts, consts::NULL_I64, b"c2", b"m1", b"ETHU"));
}

#[test]
fn order_frames_of_a_given_instant() {
    let mut s = FixSession::new(SessionKind::OrderEntry, "A".to_string(), "B".to_string());
    assert_eq!(
        place_limit_when(&mut s, Some(7), "ETHU", Side::Buy, 100, 15, b"m1"),
        Some((
            1,
            encode_new_order_limit_postonly(1, 7, -2, -4, 15, 100, consts::SIDE_BUY, b"m1", b"ETHU")
        ))
    );
    assert_eq!(
        cancel_when(&mut s, Some(8), "ETHU", 99, b"c1"),
        Some((2, encode_order_cancel(2, 8, 99, b"c1", b"", b"ETHU")))
    );
    assert_eq!(
        cancel_by_cid_when(&mut s, Some(9), "ETHU", b"m1", b"c2"),
        Some((3, encode_order_cancel(3, 9, consts::NULL_I64, b"c2", b"m1", b"ETHU")))
    );
    let (seq, frame) = subscribe_book_when(&mut s, Some(10), "ETHU", "b").unwrap();
    assert_eq!((seq, sending_time(&frame)), (4, 10));
    let (seq, frame) = subscribe_trades_when(&mut s, Some(11), "ETHU", "t").unwrap();
    assert_eq!((seq, sending_time(&frame)), (5, 11));
}

#[test]
fn order_frames_need_an_instant() {
    let mut s = FixSession::new(SessionKind::OrderEntry, "A".to_string(), "B".to_string());
    assert_eq!(place_limit_when(&mut s, None, "ETHU", Side::Buy, 100, 15, b"m1"), None);
    assert_eq!(cancel_when(&mut s, None, "ETHU", 99, b"c1"), None);
    assert_eq!(cancel_by_cid_when(&mut s, None, "ETHU", b"m1", b"c2"), None);
    assert_eq!(subscribe_book_when(&mut s, None, "ETHU", "b"), None);
    assert_eq!(subscribe_trades_when(&mut s, None, "ETHU", "t"), None);
    assert_eq!(s.next_seq, 1);
}

#[test]
fn subscriptions() {
    let mut s = FixSession::new(SessionKind::MarketData, "A".to_string(), "B".to_string());
    let (seq, frame) = subscribe_book(&mut s, "ETHU", "spot-book").unwrap();
    let ts = sending_time(&frame);
    assert_eq!(
        frame,
        encode_market_data_request(
            seq,
            ts,
            true,
            Some(1),
            Some(true),
            b"ETHU",
            &[consts::MDENTRY_BID, consts::MDENTRY_OFFER],
            b"spot-book"
        )
    );
    let (seq, frame) = subscribe_trades(&mut s, "ETHUSDT", "usdt-trade").unwrap();
    let ts = sending_time(&frame);
    assert_eq!(
        frame,
        encode_market_data_request(
            seq,
            ts,
            true,
            None,
            None,
            b"ETHUSDT",
            &[consts::MDENTRY_TRADE],
            b"usdt-trade"
        )
    );
}

#[test]
fn the_counter_wraps() {
    let mut c = u64::MAX;
    assert_eq!(next_cid_counter(&mut c), u64::MAX);
    assert_eq!(next_cid_counter(&mut c), 0);
    assert_eq!(c, 1);
}
