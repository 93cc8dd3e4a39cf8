//! What a session sends, and what it makes of what it reads.
use crate::fix::auth;
use crate::fix::inbound;
use crate::fix::inbound::{InboundMsg, InboundView, ReadAction, ReadActionView, ReadEnd};
use crate::fix::logon;
use crate::fix::logon::{LogonError, LogonProgress, LogonProgressView};
use crate::fix::session;
use crate::fix::session::{FixSession, SessionKind};
use crate::fix::time;
use crate::sbe::decode;
use crate::sbe::decode_laws;
use crate::sbe::encode_laws;
use crate::sbe::encoder;
use crate::sbe::frame;
use crate::sbe::frame::FrameHeader;
use crate::sbe::market;
use crate::sbe::wire;
use vstd::prelude::*;
use vstd::utf8;

verus! {

/// To number a frame uses one number up and changes nothing else of the session.
pub proof fn law_numbering_changes_the_number_alone(s: FixSession, t: FixSession)
    ensures
        s.numbered_one(t) <==> {
            &&& t.next_seq == s.next_seq + 1
            &&& t.kind == s.kind && t.last_in_seq == s.last_in_seq
            &&& t.heartbeat_secs == s.heartbeat_secs
            &&& t.sender_comp_id == s.sender_comp_id && t.target_comp_id == s.target_comp_id
        },
        s.valid() <==> utf8::encode_utf8(s.sender_comp_id@).len() <= 255 && utf8::encode_utf8(
            s.target_comp_id@,
        ).len() <= 255,
{
}

/// A frame goes out exactly where there is one to send, byte for byte, and uses one
/// number up; where there is none, the session stays as it is.
pub proof fn law_sending(
    s: FixSession,
    t: FixSession,
    frame: Vec<u8>,
    bytes: Seq<u8>,
)
    ensures
        s.sends(t, Some(frame), Some(bytes)) <==> frame@ == bytes && s.numbered_one(t),
        s.sends(t, None, None) <==> t == s,
        !s.sends(t, None, Some(bytes)),
        !s.sends(t, Some(frame), None),
{
}

/// A frame that is built when the clock shows an instant carries that instant; there
/// is none where the clock shows nothing.
pub proof fn law_frames_carry_their_instant(
    template_id: u16,
    block_length: u16,
    seq_num: u32,
    ts: i64,
    body: Seq<u8>,
)
    requires
        26 + body.len() <= u32::MAX,
    ensures
        encoder::frame_when(template_id, block_length, seq_num, None, body) is None,
        encoder::frame_when(template_id, block_length, seq_num, Some(ts), body) matches Some(f)
            && frame::header_of(f).sending_time == ts && frame::header_of(f).seq_num == seq_num
            && frame::header_of(f).template_id == template_id,
{
    encode_laws::law_header_fields_stand(
        template_id,
        block_length,
        seq_num,
        ts,
        body,
        Seq::empty(),
    );
    let f = encoder::frame_of(template_id, block_length, seq_num, ts, body);
    assert(f + Seq::<u8>::empty() =~= f);
}

/// A Logon frame says what the session asks for, that the numbers start anew, who sends
/// it to whom and for which user; its signature is that of the payload over the same
/// ids, number and instant.
pub proof fn law_logon_frame(
    s: FixSession,
    ts: i64,
    secret: Seq<u8>,
    api_key: Seq<char>,
    heartbeat_secs: u32,
    recv_window_us: u32,
    message_handling: u8,
    response_mode: Option<u8>,
    exec_report_type: Option<u8>,
)
    requires
        s.valid(),
        utf8::encode_utf8(api_key).len() <= 65_535,
        ({
            let text = auth::base64_text(
                auth::ed25519_signature(
                    secret,
                    auth::logon_payload_spec(
                        s.sender_comp_id@,
                        s.target_comp_id@,
                        s.next_seq,
                        time::utc_timestamp(wire::twos64(ts) as nat),
                    ),
                ),
            );
            utf8::encode_utf8(text).len() <= 65_535
        }),
    ensures
        session::logon_frame_when(
            s,
            None,
            secret,
            api_key,
            heartbeat_secs,
            recv_window_us,
            message_handling,
            response_mode,
            exec_report_type,
        ) is None,
        session::logon_frame_when(
            s,
            Some(ts),
            secret,
            api_key,
            heartbeat_secs,
            recv_window_us,
            message_handling,
            response_mode,
            exec_report_type,
        ) matches Some(f) && ({
            let p1 = 41int + utf8::encode_utf8(s.sender_comp_id@).len();
            let p2 = p1 + 1 + utf8::encode_utf8(s.target_comp_id@).len();
            let text = auth::base64_text(
                auth::ed25519_signature(
                    secret,
                    auth::logon_payload_spec(
                        s.sender_comp_id@,
                        s.target_comp_id@,
                        s.next_seq,
                        time::utc_timestamp(wire::twos64(ts) as nat),
                    ),
                ),
            );
            let p3 = p2 + 2 + utf8::encode_utf8(text).len();
            &&& frame::header_of(f).template_id == 20008
            &&& frame::header_of(f).seq_num == s.next_seq
            &&& frame::header_of(f).sending_time == ts
            &&& wire::u32_at(f, 27) == heartbeat_secs
            &&& f[31] == 1
            &&& f[32] == message_handling
            &&& response_mode matches Some(m) ==> f[33] == m
            &&& response_mode is None ==> f[33] == 255
            &&& exec_report_type matches Some(m) ==> f[34] == m
            &&& exec_report_type is None ==> f[34] == 255
            &&& wire::u32_at(f, 36) == recv_window_us
            &&& wire::var8_at(f, 40) == Some((utf8::encode_utf8(s.sender_comp_id@), p1))
            &&& wire::var8_at(f, p1) == Some((utf8::encode_utf8(s.target_comp_id@), p2))
            &&& wire::var16_at(f, p2) == Some((utf8::encode_utf8(text), p3))
            &&& wire::var16_at(f, p3) matches Some((user, _)) && user == utf8::encode_utf8(api_key)
        }),
{
    let text = auth::base64_text(
        auth::ed25519_signature(
            secret,
            auth::logon_payload_spec(
                s.sender_comp_id@,
                s.target_comp_id@,
                s.next_seq,
                time::utc_timestamp(wire::twos64(ts) as nat),
            ),
        ),
    );
    let (a, b, c, d) = (
        utf8::encode_utf8(s.sender_comp_id@),
        utf8::encode_utf8(s.target_comp_id@),
        utf8::encode_utf8(text),
        utf8::encode_utf8(api_key),
    );
    let root = crate::sbe::encode::logon_root(
        heartbeat_secs,
        true,
        message_handling,
        response_mode,
        exec_report_type,
        recv_window_us,
    );
    let strings = wire::var8_bytes(a) + wire::var8_bytes(b) + wire::var16_bytes(c)
        + wire::var16_bytes(d);
    let body = crate::sbe::encode::logon_body(root, a, b, c, d);
    let f = encoder::frame_of(20008, 14, s.next_seq, ts, body);
    let none = Seq::<u8>::empty();
    wire::lemma_le_bytes_len(a.len(), 1);
    wire::lemma_le_bytes_len(b.len(), 1);
    wire::lemma_le_bytes_len(c.len(), 2);
    wire::lemma_le_bytes_len(d.len(), 2);
    assert(body =~= root + strings);
    encode_laws::law_logon_root_reads_back(
        s.next_seq,
        ts,
        heartbeat_secs,
        true,
        message_handling,
        response_mode,
        exec_report_type,
        recv_window_us,
        strings,
    );
    encode_laws::law_logon_strings_read_back(s.next_seq, ts, root, a, b, c, d, none);
    encode_laws::law_header_fields_stand(20008, 14, s.next_seq, ts, body, none);
    assert(f + none =~= f);
}

/// What each message asks for. Every message that decodes is delivered, as what it is;
/// a message that does not decode asks for nothing; a heartbeat asks for nothing either.
pub proof fn law_every_message_is_delivered(hdr: FrameHeader, f: Seq<u8>)
    ensures
        hdr.template_id == 98 ==> inbound::frame_actions(hdr, f)
            == match decode::execution_report_spec(hdr, f) {
            Some(m) => seq![ReadActionView::Deliver(InboundView::ExecutionReport(m))],
            None => Seq::empty(),
        },
        hdr.template_id == 198 ==> inbound::frame_actions(hdr, f)
            == match decode::execution_report_ack_spec(hdr, f) {
            Some(m) => seq![ReadActionView::Deliver(InboundView::ExecutionReportAck(m))],
            None => Seq::empty(),
        },
        hdr.template_id == 96 ==> inbound::frame_actions(hdr, f)
            == match decode::order_cancel_reject_spec(hdr, f) {
            Some(m) => seq![ReadActionView::Deliver(InboundView::OrderCancelReject(m))],
            None => Seq::empty(),
        },
        hdr.template_id == 20003 ==> inbound::frame_actions(hdr, f) == match decode::reject_spec(
            hdr,
            f,
        ) {
            Some(m) => seq![ReadActionView::Deliver(InboundView::Reject(m))],
            None => Seq::empty(),
        },
        hdr.template_id == 203 ==> inbound::frame_actions(hdr, f)
            == match decode::md_request_reject_spec(hdr, f) {
            Some(m) => seq![ReadActionView::Deliver(InboundView::MdRequestReject(m))],
            None => Seq::empty(),
        },
        hdr.template_id == 206 ==> inbound::frame_actions(hdr, f) == match market::book_spec(
            hdr,
            f,
            false,
        ) {
            Some(m) => seq![ReadActionView::Deliver(InboundView::BookTicker(m))],
            None => Seq::empty(),
        },
        hdr.template_id == 204 ==> inbound::frame_actions(hdr, f) == match market::book_spec(
            hdr,
            f,
            true,
        ) {
            Some(m) => seq![ReadActionView::Deliver(InboundView::BookTicker(m))],
            None => Seq::empty(),
        },
        hdr.template_id == 20002 ==> inbound::frame_actions(hdr, f)
            == match decode::test_request_spec(hdr, f) {
            Some(id) => seq![ReadActionView::ReplyHeartbeat(id)],
            None => Seq::empty(),
        },
        hdr.template_id == 20001 ==> inbound::frame_actions(hdr, f).len() == 0,
        hdr.template_id == 20004 ==> inbound::frame_actions(hdr, f) == seq![
            ReadActionView::Deliver(
                InboundView::Logout(
                    match decode::logout_spec(hdr, f) {
                        Some(text) => text,
                        None => Seq::empty(),
                    },
                ),
            ),
        ],
{
}

/// What a trade message asks for: its last trade, if every entry can be read and there
/// is one, then all of its trades, if there are any.
pub proof fn law_trades_are_delivered(hdr: FrameHeader, f: Seq<u8>)
    requires
        hdr.template_id == 205,
    ensures
        ({
            let acts = inbound::frame_actions(hdr, f);
            let all = market::all_trades(hdr, f);
            let batch = ReadActionView::Deliver(InboundView::IncrementalTradeBatch(all));
            &&& market::incremental_trade_spec(hdr, f) is None && all.len() == 0 ==> acts.len()
                == 0
            &&& market::incremental_trade_spec(hdr, f) is None && all.len() > 0 ==> acts == seq![
                batch,
            ]
            &&& market::incremental_trade_spec(hdr, f) matches Some(t) ==> all.len() > 0 ==> acts
                == seq![ReadActionView::Deliver(InboundView::IncrementalTrade(t)), batch]
        }),
{
    let acts = inbound::frame_actions(hdr, f);
    let all = market::all_trades(hdr, f);
    let batch = ReadActionView::Deliver(InboundView::IncrementalTradeBatch(all));
    if let Some(t) = market::incremental_trade_spec(hdr, f) {
        if all.len() > 0 {
            assert(acts =~= seq![ReadActionView::Deliver(InboundView::IncrementalTrade(t)), batch]);
        }
    } else if all.len() > 0 {
        assert(acts =~= seq![batch]);
    }
}

/// A message of any other template is told of, by its template and its number.
pub proof fn law_other_messages_are_told(hdr: FrameHeader, f: Seq<u8>)
    requires
        hdr.template_id != 98 && hdr.template_id != 198 && hdr.template_id != 96,
        hdr.template_id != 20001 && hdr.template_id != 20002 && hdr.template_id != 20003,
        hdr.template_id != 20004 && hdr.template_id != 203 && hdr.template_id != 204,
        hdr.template_id != 205 && hdr.template_id != 206,
    ensures
        inbound::frame_actions(hdr, f) == seq![
            ReadActionView::Unhandled { template_id: hdr.template_id, seq_num: hdr.seq_num },
        ],
{
}

/// One frame in front of a stream.
proof fn lemma_front_frame(
    template_id: u16,
    block_length: u16,
    seq_num: u32,
    ts: i64,
    body: Seq<u8>,
    rest: Seq<u8>,
)
    requires
        26 + body.len() <= u32::MAX,
    ensures
        ({
            let f = encoder::frame_of(template_id, block_length, seq_num, ts, body);
            &&& frame::next_frame_len_spec(f + rest) == Some(f.len() as int)
            &&& (f + rest).take(f.len() as int) == f
            &&& (f + rest).skip(f.len() as int) == rest
            &&& frame::encoding_ok(f)
            &&& frame::header_of(f).template_id == template_id
            &&& frame::header_of(f).seq_num == seq_num
            &&& f.len() >= 26
        }),
{
    let f = encoder::frame_of(template_id, block_length, seq_num, ts, body);
    let none = Seq::<u8>::empty();
    encode_laws::law_header_fields_stand(template_id, block_length, seq_num, ts, body, rest);
    encode_laws::law_header_fields_stand(template_id, block_length, seq_num, ts, body, none);
    assert(f + none =~= f);
    assert((f + rest).take(f.len() as int) =~= f);
    assert((f + rest).skip(f.len() as int) =~= rest);
}

/// The read loop takes a stream frame by frame: what a frame asks for comes first, then
/// what the rest of the stream asks for, under the number of the frame. A Logout ends
/// it there.
pub proof fn law_stream_is_read_frame_by_frame(
    template_id: u16,
    block_length: u16,
    seq_num: u32,
    ts: i64,
    body: Seq<u8>,
    rest: Seq<u8>,
    last_in_seq: u32,
)
    requires
        26 + body.len() <= u32::MAX,
    ensures
        ({
            let f = encoder::frame_of(template_id, block_length, seq_num, ts, body);
            let d = inbound::drained(f + rest, last_in_seq);
            let tail = inbound::drained(rest, seq_num);
            let own = inbound::frame_actions(frame::header_of(f), f);
            &&& template_id != 20004 ==> d.actions == own + tail.actions && d.end == tail.end
                && d.rest == tail.rest && d.last_in_seq == tail.last_in_seq
            &&& template_id == 20004 ==> d.actions == own && d.end == Some(ReadEnd::ServerLogout)
                && d.rest == rest && d.last_in_seq == seq_num
        }),
{
    lemma_front_frame(template_id, block_length, seq_num, ts, body, rest);
}

/// Bytes that are no whole frame ask for nothing and stay; a frame that is not SBE ends
/// the loop.
pub proof fn law_stream_ends(s: Seq<u8>, last_in_seq: u32)
    ensures
        s.len() < 6 ==> {
            let d = inbound::drained(s, last_in_seq);
            d.rest == s && d.actions.len() == 0 && d.end is None && d.last_in_seq == last_in_seq
        },
        s.len() >= 6 && wire::u32_at(s, 0) >= 26 && s.len() < wire::u32_at(s, 0) ==> {
            let d = inbound::drained(s, last_in_seq);
            d.rest == s && d.actions.len() == 0 && d.end is None && d.last_in_seq == last_in_seq
        },
        s.len() >= 6 && wire::u32_at(s, 0) < 26 ==> {
            let d = inbound::drained(s, last_in_seq);
            d.actions.len() == 0 && d.end == Some(ReadEnd::MalformedLength) && d.last_in_seq
                == last_in_seq
        },
        s.len() >= 26 && 26 <= wire::u32_at(s, 0) <= s.len() && wire::u16_at(s, 4) != 0xEB50 ==> {
            let d = inbound::drained(s, last_in_seq);
            d.actions.len() == 0 && d.end == Some(ReadEnd::BadHeader) && d.last_in_seq
                == last_in_seq
        },
{
    if s.len() >= 26 && 26 <= wire::u32_at(s, 0) <= s.len() {
        let n = wire::u32_at(s, 0) as int;
        assert(s.take(n).subrange(4, 6) =~= s.subrange(4, 6));
    }
}

/// The answer to a Logon is the first LogonAck, Reject or Logout in the stream: an ack
/// that decodes logs the session on and settles its interval and number, and frames of
/// other templates are passed over.
pub proof fn law_logon_is_answered(
    template_id: u16,
    block_length: u16,
    seq_num: u32,
    ts: i64,
    body: Seq<u8>,
    rest: Seq<u8>,
)
    requires
        26 + body.len() <= u32::MAX,
    ensures
        ({
            let f = encoder::frame_of(template_id, block_length, seq_num, ts, body);
            let hdr = frame::header_of(f);
            let a = logon::answer(f + rest);
            &&& template_id == 20009 ==> (decode::logon_ack_spec(hdr, f) matches Some(ack) ==> {
                &&& a.progress == LogonProgressView::LoggedOn {
                    schema_deprecated: ack.schema_deprecated,
                }
                &&& a.ack == Some((ack.heart_bt_int, seq_num))
                &&& a.rest == rest
            })
            &&& template_id == 20009 ==> (decode::logon_ack_spec(hdr, f) is None ==> a.progress
                == LogonProgressView::BadAck && a.ack is None)
            &&& template_id == 20003 ==> a.progress == LogonProgressView::Rejected(
                decode::reject_spec(hdr, f),
            ) && a.ack is None
            &&& template_id == 20004 ==> a.progress == LogonProgressView::LoggedOut(
                decode::logout_spec(hdr, f),
            ) && a.ack is None
            &&& template_id != 20009 && template_id != 20003 && template_id != 20004 ==> a
                == logon::answer(rest)
        }),
{
    lemma_front_frame(template_id, block_length, seq_num, ts, body, rest);
}

/// As long as no whole frame is there, a Logon waits; a frame that is not SBE fails it.
pub proof fn law_logon_waits(s: Seq<u8>)
    ensures
        s.len() < 6 ==> logon::answer(s).progress == LogonProgressView::Waiting && logon::answer(
            s,
        ).rest == s && logon::answer(s).ack is None,
        s.len() >= 6 && (wire::u32_at(s, 0) < 26 || s.len() < wire::u32_at(s, 0))
            ==> logon::answer(s).progress == LogonProgressView::Waiting && logon::answer(s).rest
            == s && logon::answer(s).ack is None,
        s.len() >= 26 && 26 <= wire::u32_at(s, 0) <= s.len() && wire::u16_at(s, 4) != 0xEB50
            ==> logon::answer(s).progress == LogonProgressView::BadHeader && logon::answer(
            s,
        ).ack is None,
{
    if s.len() >= 26 && 26 <= wire::u32_at(s, 0) <= s.len() {
        let n = wire::u32_at(s, 0) as int;
        assert(s.take(n).subrange(4, 6) =~= s.subrange(4, 6));
    }
}

/// The frames that a session sends are understood at the other end: a TestRequest asks
/// for a Heartbeat with its id, a Logout is delivered with its text and ends the loop, a
/// Heartbeat asks for nothing. Each carries the session's number.
pub proof fn law_session_frames_are_understood(
    seq_num: u32,
    ts: i64,
    id: Seq<u8>,
    text: Seq<u8>,
    last_in_seq: u32,
)
    requires
        id.len() <= 255,
        text.len() <= 65_535,
    ensures
        session::heartbeat_frame(seq_num, None, id) is None,
        session::test_request_frame(seq_num, None, id) is None,
        session::logout_frame(seq_num, None, text) is None,
        session::heartbeat_frame(seq_num, Some(ts), id) matches Some(f) && {
            let d = inbound::drained(f, last_in_seq);
            d.actions.len() == 0 && d.end is None && d.rest.len() == 0 && d.last_in_seq == seq_num
        },
        session::heartbeat_frame(seq_num, Some(ts), id) matches Some(f) && (wire::var8_at(
            f,
            26,
        ) matches Some((x, _)) && x == id),
        session::test_request_frame(seq_num, Some(ts), id) matches Some(f) && {
            let d = inbound::drained(f, last_in_seq);
            &&& d.actions == seq![ReadActionView::ReplyHeartbeat(id)]
            &&& d.end is None && d.rest.len() == 0 && d.last_in_seq == seq_num
        },
        session::logout_frame(seq_num, Some(ts), text) matches Some(f) && {
            let d = inbound::drained(f, last_in_seq);
            &&& d.actions == seq![ReadActionView::Deliver(InboundView::Logout(text))]
            &&& d.end == Some(ReadEnd::ServerLogout) && d.rest.len() == 0 && d.last_in_seq
                == seq_num
        },
{
    let none = Seq::<u8>::empty();
    let (b8, b16) = (wire::var8_bytes(id), wire::var16_bytes(text));
    wire::lemma_le_bytes_len(id.len(), 1);
    wire::lemma_le_bytes_len(text.len(), 2);
    let hb = encoder::frame_of(20001, 0, seq_num, ts, b8);
    let tr = encoder::frame_of(20002, 0, seq_num, ts, b8);
    let lo = encoder::frame_of(20004, 0, seq_num, ts, b16);
    assert(hb + none =~= hb && tr + none =~= tr && lo + none =~= lo);
    law_stream_is_read_frame_by_frame(20001, 0, seq_num, ts, b8, none, last_in_seq);
    law_stream_is_read_frame_by_frame(20002, 0, seq_num, ts, b8, none, last_in_seq);
    law_stream_is_read_frame_by_frame(20004, 0, seq_num, ts, b16, none, last_in_seq);
    law_stream_ends(none, seq_num);
    lemma_front_frame(20001, 0, seq_num, ts, b8, none);
    lemma_front_frame(20002, 0, seq_num, ts, b8, none);
    lemma_front_frame(20004, 0, seq_num, ts, b16, none);
    encode_laws::law_strings_read_back(20001, seq_num, ts, id, none);
    decode_laws::law_ids_and_texts_read_back(20002, seq_num, ts, none, id, none);
    decode_laws::law_ids_and_texts_read_back(20004, seq_num, ts, none, text, none);
    assert(none + b8 =~= b8 && none + b16 =~= b16);
}

/// The wait between heartbeats is what was settled, and never zero.
pub proof fn law_heartbeat_interval(s: FixSession)
    ensures
        s.interval_spec() > 0,
        s.heartbeat_secs > 0 ==> s.interval_spec() == s.heartbeat_secs,
        s.heartbeat_secs == 0 ==> s.interval_spec() == 1,
{
}

/// A message is seen as what it is: its kind, and what it holds.
pub proof fn law_messages_keep_their_kind(m: InboundMsg, a: ReadAction, p: LogonProgress)
    ensures
        match m {
            InboundMsg::ExecutionReport(x) => m@ == InboundView::ExecutionReport(x@),
            InboundMsg::ExecutionReportAck(x) => m@ == InboundView::ExecutionReportAck(x@),
            InboundMsg::OrderCancelReject(x) => m@ == InboundView::OrderCancelReject(x@),
            InboundMsg::BookTicker(x) => m@ == InboundView::BookTicker(x@),
            InboundMsg::IncrementalTrade(x) => m@ == InboundView::IncrementalTrade(x),
            InboundMsg::IncrementalTradeBatch(x) => m@ == InboundView::IncrementalTradeBatch(x@),
            InboundMsg::MdRequestReject(x) => m@ == InboundView::MdRequestReject(x@),
            InboundMsg::Reject(x) => m@ == InboundView::Reject(x@),
            InboundMsg::Logout(x) => m@ == InboundView::Logout(x@),
        },
        match a {
            ReadAction::Deliver(x) => a@ == ReadActionView::Deliver(x@),
            ReadAction::ReplyHeartbeat(x) => a@ == ReadActionView::ReplyHeartbeat(x@),
            ReadAction::Unhandled { template_id: t, seq_num: n } => a@ == (
            ReadActionView::Unhandled { template_id: t, seq_num: n }),
        },
        p@ is Waiting <==> p is Waiting,
        p@ is LoggedOn <==> p is LoggedOn,
        p is LoggedOn ==> p@ == (
        LogonProgressView::LoggedOn { schema_deprecated: p->schema_deprecated }),
        p matches LogonProgress::Failed(LogonError::Rejected(Some(r))) ==> p@
            == LogonProgressView::Rejected(Some(r@)),
        p matches LogonProgress::Failed(LogonError::Rejected(None)) ==> p@
            == LogonProgressView::Rejected(None),
        p matches LogonProgress::Failed(LogonError::LoggedOut(Some(t))) ==> p@
            == LogonProgressView::LoggedOut(Some(t@)),
        p matches LogonProgress::Failed(LogonError::LoggedOut(None)) ==> p@
            == LogonProgressView::LoggedOut(None),
        p == LogonProgress::Failed(LogonError::BadAck) ==> p@ == LogonProgressView::BadAck,
        p == LogonProgress::Failed(LogonError::BadHeader) ==> p@ == LogonProgressView::BadHeader,
        p == LogonProgress::Failed(LogonError::Closed) ==> p@ == LogonProgressView::Closed,
{
}

/// A list of actions is seen action by action, in its order.
pub proof fn law_actions_keep_their_order(actions: Seq<ReadAction>, i: int)
    ensures
        inbound::action_views(actions).len() == actions.len(),
        0 <= i < actions.len() ==> inbound::action_views(actions)[i] == actions[i]@,
{
}

/// A new session numbers its frames from 1 on, has read nothing and waits half a minute
/// between heartbeats until a Logon settles the interval; it has the ids that it was
/// given, each in its place.
pub proof fn law_new_session(kind: SessionKind, sender: String, target: String, s: FixSession)
    requires
        s == FixSession::fresh(kind, sender, target),
    ensures
        s.next_seq == 1,
        s.last_in_seq == 0,
        s.interval_spec() == 30,
        s.kind == kind,
        s.sender_comp_id@ == sender@,
        s.target_comp_id@ == target@,
{
}

/// A read without bytes closes the loop, and leaves everything else as it is. How the
/// bytes are cut into reads makes no other difference: two reads in a row ask for what
/// one read of all the bytes asks for.
pub proof fn law_reads(acc: Seq<u8>, a: Seq<u8>, b: Seq<u8>, last_in_seq: u32)
    ensures
        inbound::read_of(acc, Seq::empty(), last_in_seq).end == Some(ReadEnd::Closed),
        inbound::read_of(acc, Seq::empty(), last_in_seq).actions.len() == 0,
        inbound::read_of(acc, Seq::empty(), last_in_seq).rest == acc,
        inbound::read_of(acc, Seq::empty(), last_in_seq).last_in_seq == last_in_seq,
        a.len() > 0 && b.len() > 0 ==> ({
            let first = inbound::read_of(acc, a, last_in_seq);
            let second = inbound::read_of(first.rest, b, first.last_in_seq);
            let once = inbound::read_of(acc, a + b, last_in_seq);
            &&& first.end is None ==> once.actions == first.actions + second.actions && once.end
                == second.end && once.rest == second.rest && once.last_in_seq == second.last_in_seq
            &&& first.end is Some ==> once.actions == first.actions && once.end == first.end
        }),
        a.len() > 0 ==> inbound::read_of(acc, a, last_in_seq).end != Some(ReadEnd::Closed),
{
    if a.len() > 0 && b.len() > 0 {
        assert(acc + (a + b) =~= (acc + a) + b);
        inbound::law_reads_can_be_split(acc + a, b, last_in_seq);
    }
    if a.len() > 0 {
        lemma_bytes_do_not_close(acc + a, last_in_seq);
    }
}

proof fn lemma_bytes_do_not_close(s: Seq<u8>, last_in_seq: u32)
    ensures
        inbound::drained(s, last_in_seq).end != Some(ReadEnd::Closed),
    decreases s.len(),
{
    if let Some(n) = frame::next_frame_len_spec(s) {
        inbound::lemma_whole_frame_prefix(s, Seq::empty());
        lemma_bytes_do_not_close(s.skip(n), frame::header_of(s.take(n)).seq_num);
    }
}

/// A read without bytes fails a Logon; two reads in a row say of it what one read of all
/// the bytes says, as long as the first has not answered.
pub proof fn law_logon_reads(acc: Seq<u8>, a: Seq<u8>, b: Seq<u8>)
    ensures
        logon::answer_to(acc, Seq::empty()).progress == LogonProgressView::Closed,
        logon::answer_to(acc, Seq::empty()).ack is None,
        logon::answer_to(acc, Seq::empty()).rest == acc,
        a.len() > 0 && b.len() > 0 ==> ({
            let first = logon::answer_to(acc, a);
            let once = logon::answer_to(acc, a + b);
            &&& first.progress == LogonProgressView::Waiting ==> once == logon::answer_to(
                first.rest,
                b,
            )
            &&& first.progress != LogonProgressView::Waiting ==> once.progress == first.progress
                && once.ack == first.ack
        }),
{
    if a.len() > 0 && b.len() > 0 {
        assert(acc + (a + b) =~= (acc + a) + b);
        logon::law_answer_can_be_split(acc + a, b);
    }
}

/// A LogonAck settles the heartbeat interval and the last inbound number, each from its
/// own field; without one both stay.
pub proof fn law_logon_settles(s: FixSession, heart_bt_int: u32, seq_num: u32)
    ensures
        logon::settled(s, Some((heart_bt_int, seq_num))).0 == heart_bt_int,
        logon::settled(s, Some((heart_bt_int, seq_num))).1 == seq_num,
        logon::settled(s, None).0 == s.heartbeat_secs,
        logon::settled(s, None).1 == s.last_in_seq,
{
}

} // verus!
