//! Inbound side of a session: the read loop.
use crate::fix::session::FixSession;
use crate::sbe::consts::{FRAME_PREFIX, SOFH_LEN};
use crate::sbe::decode;
use crate::sbe::decode::{
    decode_execution_report, decode_execution_report_ack, decode_logout, decode_md_request_reject,
    decode_order_cancel_reject, decode_reject, decode_test_request,
};
use crate::sbe::frame;
use crate::sbe::frame::{
    is_malformed_length, next_frame_len, parse_frame_header, FrameHeader,
};
use crate::sbe::market;
use crate::sbe::market::{
    decode_book_ticker, decode_incremental_trade, decode_incremental_trade_all, decode_snapshot,
};
use crate::sbe::messages::{
    BookTicker, BookTickerView, ExecutionReport, ExecutionReportAck, ExecutionReportAckView,
    ExecutionReportView, IncrementalTrade, MarketDataRequestReject, MarketDataRequestRejectView,
    OrderCancelRejectMsg, OrderCancelRejectView, RejectMsg, RejectView,
};
use crate::sbe::tid;
use vstd::prelude::*;
use vstd::slice::{slice_subrange, slice_to_vec};

verus! {

/// An inbound application message.
#[derive(Debug, Clone)]
pub enum InboundMsg {
    ExecutionReport(ExecutionReport),
    ExecutionReportAck(ExecutionReportAck),
    OrderCancelReject(OrderCancelRejectMsg),
    BookTicker(BookTicker),
    IncrementalTrade(IncrementalTrade),
    /// All entries of a MarketDataIncrementalTrade frame.
    IncrementalTradeBatch(Vec<IncrementalTrade>),
    MdRequestReject(MarketDataRequestReject),
    Reject(RejectMsg),
    Logout(Vec<u8>),
}

/// What an inbound message says.
#[verifier::ext_equal]
pub enum InboundView {
    ExecutionReport(ExecutionReportView),
    ExecutionReportAck(ExecutionReportAckView),
    OrderCancelReject(OrderCancelRejectView),
    BookTicker(BookTickerView),
    IncrementalTrade(IncrementalTrade),
    IncrementalTradeBatch(Seq<IncrementalTrade>),
    MdRequestReject(MarketDataRequestRejectView),
    Reject(RejectView),
    Logout(Seq<u8>),
}

impl View for InboundMsg {
    type V = InboundView;

    open spec fn view(&self) -> InboundView {
        match *self {
            InboundMsg::ExecutionReport(m) => InboundView::ExecutionReport(m@),
            InboundMsg::ExecutionReportAck(m) => InboundView::ExecutionReportAck(m@),
            InboundMsg::OrderCancelReject(m) => InboundView::OrderCancelReject(m@),
            InboundMsg::BookTicker(m) => InboundView::BookTicker(m@),
            InboundMsg::IncrementalTrade(m) => InboundView::IncrementalTrade(m),
            InboundMsg::IncrementalTradeBatch(m) => InboundView::IncrementalTradeBatch(m@),
            InboundMsg::MdRequestReject(m) => InboundView::MdRequestReject(m@),
            InboundMsg::Reject(m) => InboundView::Reject(m@),
            InboundMsg::Logout(m) => InboundView::Logout(m@),
        }
    }
}

/// What the read loop asks for, in order.
#[derive(Debug, Clone)]
pub enum ReadAction {
    /// Hand the message to the application.
    Deliver(InboundMsg),
    /// Answer a TestRequest by a Heartbeat with its id.
    ReplyHeartbeat(Vec<u8>),
    /// Nothing handles this template.
    Unhandled { template_id: u16, seq_num: u32 },
}

#[verifier::ext_equal]
pub enum ReadActionView {
    Deliver(InboundView),
    ReplyHeartbeat(Seq<u8>),
    Unhandled { template_id: u16, seq_num: u32 },
}

impl View for ReadAction {
    type V = ReadActionView;

    open spec fn view(&self) -> ReadActionView {
        match *self {
            ReadAction::Deliver(m) => ReadActionView::Deliver(m@),
            ReadAction::ReplyHeartbeat(id) => ReadActionView::ReplyHeartbeat(id@),
            ReadAction::Unhandled { template_id, seq_num } => ReadActionView::Unhandled {
                template_id,
                seq_num,
            },
        }
    }
}

/// Why the read loop ended.
#[derive(Debug, Clone, Copy, PartialEq, Eq, Structural)]
pub enum ReadEnd {
    /// The peer closed the connection.
    Closed,
    /// A frame declared a length that no header fits in: where the next frame
    /// starts cannot be told.
    MalformedLength,
    /// A frame was not SBE.
    BadHeader,
    /// The peer sent a Logout.
    ServerLogout,
}

/// What the actions of a list say.
pub open spec fn action_views(actions: Seq<ReadAction>) -> Seq<ReadActionView> {
    actions.map_values(|a: ReadAction| a@)
}

/// The message of a decoder as the only action, or none.
pub open spec fn deliver(msg: Option<InboundView>) -> Seq<ReadActionView> {
    match msg {
        Some(m) => seq![ReadActionView::Deliver(m)],
        None => Seq::empty(),
    }
}

/// What a trade frame delivers: its last trade, then all of them, each if there
/// is any.
pub open spec fn trade_actions(hdr: FrameHeader, f: Seq<u8>) -> Seq<ReadActionView> {
    let batch = market::all_trades(hdr, f);
    deliver(
        match market::incremental_trade_spec(hdr, f) {
            Some(t) => Some(InboundView::IncrementalTrade(t)),
            None => None,
        },
    ) + deliver(
        if batch.len() > 0 {
            Some(InboundView::IncrementalTradeBatch(batch))
        } else {
            None
        },
    )
}

/// What the frame `f` asks for. A frame that does not decode asks for nothing,
/// but for a Logout, which ends the session with or without a text.
pub open spec fn frame_actions(hdr: FrameHeader, f: Seq<u8>) -> Seq<ReadActionView> {
    if hdr.template_id == tid::HEARTBEAT {
        Seq::empty()
    } else if hdr.template_id == tid::TEST_REQUEST {
        match decode::test_request_spec(hdr, f) {
            Some(id) => seq![ReadActionView::ReplyHeartbeat(id)],
            None => Seq::empty(),
        }
    } else if hdr.template_id == tid::LOGOUT {
        deliver(
            Some(
                InboundView::Logout(
                    match decode::logout_spec(hdr, f) {
                        Some(text) => text,
                        None => Seq::empty(),
                    },
                ),
            ),
        )
    } else if hdr.template_id == tid::REJECT {
        deliver(
            match decode::reject_spec(hdr, f) {
                Some(m) => Some(InboundView::Reject(m)),
                None => None,
            },
        )
    } else if hdr.template_id == tid::EXECUTION_REPORT {
        deliver(
            match decode::execution_report_spec(hdr, f) {
                Some(m) => Some(InboundView::ExecutionReport(m)),
                None => None,
            },
        )
    } else if hdr.template_id == tid::EXECUTION_REPORT_ACK {
        deliver(
            match decode::execution_report_ack_spec(hdr, f) {
                Some(m) => Some(InboundView::ExecutionReportAck(m)),
                None => None,
            },
        )
    } else if hdr.template_id == tid::ORDER_CANCEL_REJECT {
        deliver(
            match decode::order_cancel_reject_spec(hdr, f) {
                Some(m) => Some(InboundView::OrderCancelReject(m)),
                None => None,
            },
        )
    } else if hdr.template_id == tid::MD_INCREMENTAL_BOOK_TICKER || hdr.template_id
        == tid::MARKET_DATA_SNAPSHOT {
        deliver(
            match market::book_spec(hdr, f, hdr.template_id == tid::MARKET_DATA_SNAPSHOT) {
                Some(m) => Some(InboundView::BookTicker(m)),
                None => None,
            },
        )
    } else if hdr.template_id == tid::MD_INCREMENTAL_TRADE {
        trade_actions(hdr, f)
    } else if hdr.template_id == tid::MARKET_DATA_REQUEST_REJECT {
        deliver(
            match decode::md_request_reject_spec(hdr, f) {
                Some(m) => Some(InboundView::MdRequestReject(m)),
                None => None,
            },
        )
    } else {
        seq![
            ReadActionView::Unhandled { template_id: hdr.template_id, seq_num: hdr.seq_num },
        ]
    }
}

/// What becomes of a read buffer once every complete frame in it was handled.
#[verifier::ext_equal]
pub struct Drained {
    /// The bytes that are left.
    pub rest: Seq<u8>,
    /// The number of the last frame.
    pub last_in_seq: u32,
    pub actions: Seq<ReadActionView>,
    pub end: Option<ReadEnd>,
}

/// Handles the complete frames of `s`, front to back: the loop ends at the
/// first declared length that no header fits in, at the first frame that is not
/// SBE and behind the first Logout.
pub open spec fn drained(s: Seq<u8>, last_in_seq: u32) -> Drained
    decreases s.len(),
{
    match frame::next_frame_len_spec(s) {
        None => Drained {
            rest: s,
            last_in_seq,
            actions: Seq::empty(),
            end: if frame::malformed_length(s) {
                Some(ReadEnd::MalformedLength)
            } else {
                None
            },
        },
        Some(n) => {
            let f = s.take(n);
            let hdr = frame::header_of(f);
            if !frame::encoding_ok(f) {
                Drained {
                    rest: s.skip(n),
                    last_in_seq,
                    actions: Seq::empty(),
                    end: Some(ReadEnd::BadHeader),
                }
            } else if hdr.template_id == tid::LOGOUT {
                Drained {
                    rest: s.skip(n),
                    last_in_seq: hdr.seq_num,
                    actions: frame_actions(hdr, f),
                    end: Some(ReadEnd::ServerLogout),
                }
            } else {
                let tail = drained(s.skip(n), hdr.seq_num);
                Drained { actions: frame_actions(hdr, f) + tail.actions, ..tail }
            }
        },
    }
}

/// What becomes of a read buffer once `chunk` was read behind it, of which no bytes mean
/// that the connection is closed.
pub open spec fn read_of(acc: Seq<u8>, chunk: Seq<u8>, last_in_seq: u32) -> Drained {
    if chunk.len() == 0 {
        Drained { rest: acc, last_in_seq, actions: Seq::empty(), end: Some(ReadEnd::Closed) }
    } else {
        drained(acc + chunk, last_in_seq)
    }
}

/// A frame is whole or not whatever bytes come behind it.
pub proof fn lemma_whole_frame_prefix(s: Seq<u8>, more: Seq<u8>)
    requires
        frame::next_frame_len_spec(s) is Some,
    ensures
        frame::next_frame_len_spec(s + more) == frame::next_frame_len_spec(s),
        frame::next_frame_len_spec(s)->0 >= FRAME_PREFIX,
        (s + more).take(frame::next_frame_len_spec(s)->0) == s.take(frame::next_frame_len_spec(s)->0),
        (s + more).skip(frame::next_frame_len_spec(s)->0) == s.skip(frame::next_frame_len_spec(s)->0) + more,
{
    let n = frame::next_frame_len_spec(s)->0;
    assert((s + more).subrange(0, 4) =~= s.subrange(0, 4));
    assert((s + more).take(n) =~= s.take(n));
    assert((s + more).skip(n) =~= s.skip(n) + more);
}

/// How the bytes of a stream are cut into reads makes no difference: to drain a
/// buffer and then what is left of it with more bytes behind gives the actions,
/// the end, the rest and the last number that draining all the bytes at once
/// gives. Where the loop ended before, the later bytes change nothing.
pub proof fn law_reads_can_be_split(s: Seq<u8>, more: Seq<u8>, last_in_seq: u32)
    ensures
        ({
            let first = drained(s, last_in_seq);
            let once = drained(s + more, last_in_seq);
            let then = drained(first.rest + more, first.last_in_seq);
            if first.end is None {
                &&& once.actions == first.actions + then.actions
                &&& once.end == then.end
                &&& once.rest == then.rest
                &&& once.last_in_seq == then.last_in_seq
            } else {
                &&& once.actions == first.actions
                &&& once.end == first.end
                &&& once.last_in_seq == first.last_in_seq
                &&& once.rest == first.rest + more
            }
        }),
    decreases s.len(),
{
    let first = drained(s, last_in_seq);
    let once = drained(s + more, last_in_seq);
    match frame::next_frame_len_spec(s) {
        None => {
            if s.len() >= SOFH_LEN {
                assert((s + more).subrange(0, 4) =~= s.subrange(0, 4));
            }
            assert(once.actions =~= first.actions + once.actions);
        },
        Some(n) => {
            lemma_whole_frame_prefix(s, more);
            let f = s.take(n);
            let hdr = frame::header_of(f);
            if frame::encoding_ok(f) && hdr.template_id != tid::LOGOUT {
                law_reads_can_be_split(s.skip(n), more, hdr.seq_num);
                let tail = drained(s.skip(n), hdr.seq_num);
                let then = drained(tail.rest + more, tail.last_in_seq);
                assert(frame_actions(hdr, f) + (tail.actions + then.actions) =~= (frame_actions(
                    hdr,
                    f,
                ) + tail.actions) + then.actions);
            }
        },
    }
}

/// A declared length that no header fits in ends the read loop: neither it nor
/// anything behind it asks for anything.
pub proof fn law_malformed_length_ends_the_loop(s: Seq<u8>, more: Seq<u8>, last_in_seq: u32)
    requires
        frame::malformed_length(s),
    ensures
        drained(s + more, last_in_seq).end == Some(ReadEnd::MalformedLength),
        drained(s + more, last_in_seq).actions.len() == 0,
        drained(s + more, last_in_seq).last_in_seq == last_in_seq,
{
    law_reads_can_be_split(s, more, last_in_seq);
}

/// Every Heartbeat that the read loop asks for has an id that fits in a frame.
pub proof fn law_replies_can_be_encoded(s: Seq<u8>, last_in_seq: u32, i: int)
    requires
        0 <= i < drained(s, last_in_seq).actions.len(),
    ensures
        drained(s, last_in_seq).actions[i] matches ReadActionView::ReplyHeartbeat(id) ==> id.len()
            <= u8::MAX,
    decreases s.len(),
{
    if let Some(n) = frame::next_frame_len_spec(s) {
        lemma_whole_frame_prefix(s, Seq::empty());
        let f = s.take(n);
        let hdr = frame::header_of(f);
        let own = frame_actions(hdr, f).len();
        if frame::encoding_ok(f) && hdr.template_id != tid::LOGOUT && i >= own {
            law_replies_can_be_encoded(s.skip(n), hdr.seq_num, i - own);
        }
    }
}

fn push_action(actions: &mut Vec<ReadAction>, action: ReadAction)
    ensures
        action_views(final(actions)@) == action_views(old(actions)@) + seq![action@],
{
    actions.push(action);
    assert(action_views(actions@) =~= action_views(old(actions)@) + seq![action@]);
}

/// Handles one frame.
fn on_frame(hdr: &FrameHeader, f: &[u8], actions: &mut Vec<ReadAction>)
    ensures
        action_views(final(actions)@) == action_views(old(actions)@) + frame_actions(*hdr, f@),
{
    let ghost before = action_views(actions@);
    assert(before =~= before + Seq::<ReadActionView>::empty());
    let template_id: u16 = hdr.template_id;
    if template_id == tid::HEARTBEAT {
        // It shows that the peer is alive, and asks for nothing.
    } else if template_id == tid::TEST_REQUEST {
        if let Some(id) = decode_test_request(hdr, f) {
            push_action(actions, ReadAction::ReplyHeartbeat(id));
        }
    } else if template_id == tid::LOGOUT {
        let text = match decode_logout(hdr, f) {
            Some(text) => text,
            None => Vec::new(),
        };
        push_action(actions, ReadAction::Deliver(InboundMsg::Logout(text)));
    } else if template_id == tid::REJECT {
        if let Some(m) = decode_reject(hdr, f) {
            push_action(actions, ReadAction::Deliver(InboundMsg::Reject(m)));
        }
    } else if template_id == tid::EXECUTION_REPORT {
        if let Some(m) = decode_execution_report(hdr, f) {
            push_action(actions, ReadAction::Deliver(InboundMsg::ExecutionReport(m)));
        }
    } else if template_id == tid::EXECUTION_REPORT_ACK {
        if let Some(m) = decode_execution_report_ack(hdr, f) {
            push_action(actions, ReadAction::Deliver(InboundMsg::ExecutionReportAck(m)));
        }
    } else if template_id == tid::ORDER_CANCEL_REJECT {
        if let Some(m) = decode_order_cancel_reject(hdr, f) {
            push_action(actions, ReadAction::Deliver(InboundMsg::OrderCancelReject(m)));
        }
    } else if template_id == tid::MD_INCREMENTAL_BOOK_TICKER {
        if let Some(m) = decode_book_ticker(hdr, f) {
            push_action(actions, ReadAction::Deliver(InboundMsg::BookTicker(m)));
        }
    } else if template_id == tid::MD_INCREMENTAL_TRADE {
        if let Some(m) = decode_incremental_trade(hdr, f) {
            push_action(actions, ReadAction::Deliver(InboundMsg::IncrementalTrade(m)));
        }
        let batch = decode_incremental_trade_all(hdr, f);
        if batch.len() > 0 {
            push_action(actions, ReadAction::Deliver(InboundMsg::IncrementalTradeBatch(batch)));
        }
        assert(action_views(actions@) =~= before + trade_actions(*hdr, f@));
    } else if template_id == tid::MARKET_DATA_SNAPSHOT {
        if let Some(m) = decode_snapshot(hdr, f) {
            push_action(actions, ReadAction::Deliver(InboundMsg::BookTicker(m)));
        }
    } else if template_id == tid::MARKET_DATA_REQUEST_REJECT {
        if let Some(m) = decode_md_request_reject(hdr, f) {
            push_action(actions, ReadAction::Deliver(InboundMsg::MdRequestReject(m)));
        }
    } else {
        push_action(actions, ReadAction::Unhandled { template_id, seq_num: hdr.seq_num });
    }
}

/// The read loop of a session, between two reads.
pub struct ReadLoop {
    /// The bytes of a frame that is not complete yet.
    pub acc: Vec<u8>,
}

/// What one read asks for.
#[derive(Debug, Clone)]
pub struct ReadStep {
    pub actions: Vec<ReadAction>,
    /// Set where the loop is over, once the actions are done.
    pub end: Option<ReadEnd>,
}

impl ReadLoop {
    pub fn new() -> (l: ReadLoop)
        ensures
            l.acc@ == Seq::<u8>::empty(),
    {
        ReadLoop { acc: Vec::new() }
    }

    /// Takes the bytes of one read, of which none means that the connection is
    /// closed, and handles every frame that is complete.
    pub fn on_read(&mut self, session: &mut FixSession, chunk: &[u8]) -> (step: ReadStep)
        ensures
            final(session).kind == old(session).kind,
            final(session).next_seq == old(session).next_seq,
            final(session).heartbeat_secs == old(session).heartbeat_secs,
            final(session).sender_comp_id == old(session).sender_comp_id,
            final(session).target_comp_id == old(session).target_comp_id,
            ({
                let d = read_of(old(self).acc@, chunk@, old(session).last_in_seq);
                &&& step.end == d.end
                &&& action_views(step.actions@) == d.actions
                &&& final(self).acc@ == d.rest
                &&& final(session).last_in_seq == d.last_in_seq
            }),
    {
        let mut actions: Vec<ReadAction> = Vec::new();
        if chunk.len() == 0 {
            assert(action_views(actions@) =~= Seq::<ReadActionView>::empty());
            return ReadStep { actions, end: Some(ReadEnd::Closed) };
        }
        self.acc.extend_from_slice(chunk);
        assert(self.acc@ =~= old(self).acc@ + chunk@);
        let ghost all = drained(self.acc@, session.last_in_seq);
        let ghost bytes = self.acc@;
        let mut pos: usize = 0;
        let mut end: Option<ReadEnd> = None;
        assert(bytes.skip(0) =~= bytes);
        assert(action_views(actions@) + all.actions =~= all.actions);
        let mut more: bool = true;
        while more
            invariant
                pos <= bytes.len(),
                self.acc@ == bytes,
                session.kind == old(session).kind,
                session.next_seq == old(session).next_seq,
                session.heartbeat_secs == old(session).heartbeat_secs,
                session.sender_comp_id == old(session).sender_comp_id,
                session.target_comp_id == old(session).target_comp_id,
                more ==> end is None && ({
                    let d = drained(bytes.skip(pos as int), session.last_in_seq);
                    &&& all.end == d.end
                    &&& all.rest == d.rest
                    &&& all.last_in_seq == d.last_in_seq
                    &&& all.actions == action_views(actions@) + d.actions
                }),
                !more ==> {
                    &&& all.end == end
                    &&& all.rest == bytes.skip(pos as int)
                    &&& all.last_in_seq == session.last_in_seq
                    &&& all.actions == action_views(actions@)
                },
            decreases
                bytes.len() - pos + if more {
                    1int
                } else {
                    0
                },
        {
            let ghost before = action_views(actions@);
            let rest = slice_subrange(self.acc.as_slice(), pos, self.acc.len());
            assert(rest@ =~= bytes.skip(pos as int));
            let n: usize = match next_frame_len(rest) {
                Some(n) => n,
                None => 0,
            };
            if n == 0 {
                assert(before + Seq::<ReadActionView>::empty() =~= before);
                if is_malformed_length(rest) {
                    end = Some(ReadEnd::MalformedLength);
                }
                more = false;
            } else {
                let f = slice_subrange(rest, 0, n);
                assert(f@ =~= rest@.take(n as int));
                assert(bytes.skip(pos + n) =~= rest@.skip(n as int));
                let ghost tail = drained(rest@.skip(n as int), frame::header_of(f@).seq_num);
                pos = pos + n;
                match parse_frame_header(f) {
                    Some(Ok(hdr)) => {
                        session.last_in_seq = hdr.seq_num;
                        on_frame(&hdr, f, &mut actions);
                        assert(before + (frame_actions(hdr, f@) + tail.actions) =~= (before
                            + frame_actions(hdr, f@)) + tail.actions);
                        if hdr.template_id == tid::LOGOUT {
                            end = Some(ReadEnd::ServerLogout);
                            more = false;
                        }
                    },
                    _ => {
                        assert(before + Seq::<ReadActionView>::empty() =~= before);
                        end = Some(ReadEnd::BadHeader);
                        more = false;
                    },
                }
            }
        }
        let rest = slice_subrange(self.acc.as_slice(), pos, self.acc.len());
        assert(rest@ =~= bytes.skip(pos as int));
        self.acc = slice_to_vec(rest);
        ReadStep { actions, end }
    }
}

} // verus!
