//! Outbound side of a session: sequence numbers and the frames that carry them.
use crate::fix::auth;
use crate::fix::auth::{sign_logon, Ed25519Key};
use crate::fix::time;
use crate::fix::time::{fix_utc_timestamp, now_us};
use crate::sbe::consts::{
    HEARTBEAT_BLOCK_LEN, LOGON_BLOCK_LEN, LOGOUT_BLOCK_LEN, TEST_REQUEST_BLOCK_LEN,
};
use crate::sbe::encode;
use crate::sbe::encode::{encode_heartbeat, encode_logon, encode_logout, encode_test_request};
use crate::sbe::encoder;
use crate::sbe::tid;
use crate::sbe::wire;
use vstd::prelude::*;
use vstd::utf8;

verus! {

/// What a session is for.
#[derive(Debug, Clone, Copy, PartialEq, Eq, Structural)]
pub enum SessionKind {
    OrderEntry,
    MarketData,
}

/// Seconds between heartbeats before a Logon has settled them.
pub const DEFAULT_HEARTBEAT_SECS: u64 = 30;

/// One session with the exchange.
pub struct FixSession {
    pub kind: SessionKind,
    /// The MsgSeqNum that the next outbound frame carries.
    pub next_seq: u32,
    /// The MsgSeqNum of the last inbound frame.
    pub last_in_seq: u32,
    /// Seconds between heartbeats, as settled at Logon.
    pub heartbeat_secs: u64,
    pub sender_comp_id: String,
    pub target_comp_id: String,
}

/// The Logon frame of an instant, in microseconds since the Unix epoch: it
/// resets the sequence numbers and is signed over the same instant as text.
pub open spec fn logon_frame(
    sender_comp_id: Seq<char>,
    target_comp_id: Seq<char>,
    seq: u32,
    ts_us: i64,
    secret: Seq<u8>,
    api_key: Seq<char>,
    heartbeat_secs: u32,
    recv_window_us: u32,
    message_handling: u8,
    response_mode: Option<u8>,
    exec_report_type: Option<u8>,
) -> Seq<u8> {
    let signature = auth::ed25519_signature(
        secret,
        auth::logon_payload_spec(
            sender_comp_id,
            target_comp_id,
            seq,
            time::utc_timestamp(wire::twos64(ts_us) as nat),
        ),
    );
    encoder::frame_of(
        tid::LOGON,
        LOGON_BLOCK_LEN,
        seq,
        ts_us,
        encode::logon_body(
            encode::logon_root(
                heartbeat_secs,
                true,
                message_handling,
                response_mode,
                exec_report_type,
                recv_window_us,
            ),
            utf8::encode_utf8(sender_comp_id),
            utf8::encode_utf8(target_comp_id),
            utf8::encode_utf8(auth::base64_text(signature)),
            utf8::encode_utf8(api_key),
        ),
    )
}

/// The Logon frame when the clock shows `now`, in microseconds; none where it
/// shows nothing.
pub open spec fn logon_frame_when(
    session: FixSession,
    now: Option<i64>,
    secret: Seq<u8>,
    api_key: Seq<char>,
    heartbeat_secs: u32,
    recv_window_us: u32,
    message_handling: u8,
    response_mode: Option<u8>,
    exec_report_type: Option<u8>,
) -> Option<Seq<u8>> {
    match now {
        Some(ts_us) => Some(
            logon_frame(
                session.sender_comp_id@,
                session.target_comp_id@,
                session.next_seq,
                ts_us,
                secret,
                api_key,
                heartbeat_secs,
                recv_window_us,
                message_handling,
                response_mode,
                exec_report_type,
            ),
        ),
        None => None,
    }
}

/// The Heartbeat frame under the number `seq`, when the clock shows `now`; none where it
/// shows nothing.
pub open spec fn heartbeat_frame(seq: u32, now: Option<i64>, test_req_id: Seq<u8>) -> Option<Seq<u8>> {
    encoder::frame_when(tid::HEARTBEAT, HEARTBEAT_BLOCK_LEN, seq, now, wire::var8_bytes(test_req_id))
}

/// The TestRequest frame, likewise.
pub open spec fn test_request_frame(seq: u32, now: Option<i64>, test_req_id: Seq<u8>) -> Option<Seq<u8>> {
    encoder::frame_when(tid::TEST_REQUEST, TEST_REQUEST_BLOCK_LEN, seq, now, wire::var8_bytes(test_req_id))
}

/// The Logout frame, likewise.
pub open spec fn logout_frame(seq: u32, now: Option<i64>, text: Seq<u8>) -> Option<Seq<u8>> {
    encoder::frame_when(tid::LOGOUT, LOGOUT_BLOCK_LEN, seq, now, wire::var16_bytes(text))
}

impl FixSession {
    /// The session ids can be written in a frame.
    pub open spec fn valid(self) -> bool {
        &&& utf8::encode_utf8(self.sender_comp_id@).len() <= u8::MAX
        &&& utf8::encode_utf8(self.target_comp_id@).len() <= u8::MAX
    }

    /// `next` is this session after one frame was numbered.
    pub open spec fn numbered_one(self, next: FixSession) -> bool {
        &&& next.next_seq == self.next_seq + 1
        &&& next.kind == self.kind
        &&& next.last_in_seq == self.last_in_seq
        &&& next.heartbeat_secs == self.heartbeat_secs
        &&& next.sender_comp_id == self.sender_comp_id
        &&& next.target_comp_id == self.target_comp_id
    }

    /// What comes of building a frame: `content`, which uses this session's next
    /// number up; or, where there is no content, no frame, and the session as it
    /// was.
    pub open spec fn sends(
        self,
        after: FixSession,
        res: Option<Vec<u8>>,
        content: Option<Seq<u8>>,
    ) -> bool {
        match content {
            Some(bytes) => res matches Some(frame) && frame@ == bytes && self.numbered_one(after),
            None => res is None && after == self,
        }
    }

    /// A session before its first frame.
    pub open spec fn fresh(
        kind: SessionKind,
        sender_comp_id: String,
        target_comp_id: String,
    ) -> FixSession {
        FixSession {
            kind,
            next_seq: 1,
            last_in_seq: 0,
            heartbeat_secs: DEFAULT_HEARTBEAT_SECS,
            sender_comp_id,
            target_comp_id,
        }
    }

    /// A session that is connected and not yet logged on.
    pub fn new(kind: SessionKind, sender_comp_id: String, target_comp_id: String) -> (s: FixSession)
        ensures
            s == FixSession::fresh(kind, sender_comp_id, target_comp_id),
    {
        FixSession {
            kind,
            next_seq: 1,
            last_in_seq: 0,
            heartbeat_secs: DEFAULT_HEARTBEAT_SECS,
            sender_comp_id,
            target_comp_id,
        }
    }

    /// Reserves the next outbound MsgSeqNum.
    pub fn take_seq(&mut self) -> (seq: u32)
        requires
            old(self).next_seq < u32::MAX,
        ensures
            seq == old(self).next_seq,
            old(self).numbered_one(*final(self)),
    {
        let seq: u32 = self.next_seq;
        self.next_seq = seq + 1;
        seq
    }

    /// Reserves the next outbound MsgSeqNum and builds the frame that carries
    /// it and the sending time `ts_us`.
    pub fn send_at<F: FnOnce(u32, i64) -> Vec<u8>>(&mut self, ts_us: i64, build: F) -> (res: (
        u32,
        Vec<u8>,
    ))
        requires
            old(self).next_seq < u32::MAX,
            build.requires((old(self).next_seq, ts_us)),
        ensures
            res.0 == old(self).next_seq,
            build.ensures((old(self).next_seq, ts_us), res.1),
            old(self).numbered_one(*final(self)),
    {
        let seq: u32 = self.take_seq();
        (seq, build(seq, ts_us))
    }

    /// Reserves the next outbound MsgSeqNum and builds the frame that carries
    /// it and what the clock showed, in microseconds; where it showed nothing,
    /// no number is used up.
    pub fn send_when<F: FnOnce(u32, i64) -> Vec<u8>>(&mut self, now: Option<i64>, build: F) -> (res:
        Option<(u32, Vec<u8>)>)
        requires
            old(self).next_seq < u32::MAX,
            now matches Some(ts) ==> build.requires((old(self).next_seq, ts)),
        ensures
            match now {
                Some(ts) => {
                    &&& res matches Some((seq, frame))
                    &&& seq == old(self).next_seq
                    &&& build.ensures((old(self).next_seq, ts), frame)
                    &&& old(self).numbered_one(*final(self))
                },
                None => res is None && *final(self) == *old(self),
            },
    {
        match now {
            Some(ts_us) => Some(self.send_at(ts_us, build)),
            None => None,
        }
    }

    /// Reserves the next outbound MsgSeqNum and builds the frame that carries
    /// it and this instant; nothing while the system clock stands before the
    /// Unix epoch.
    pub fn send_with_seq<F: FnOnce(u32, i64) -> Vec<u8>>(&mut self, build: F) -> (res: Option<
        (u32, Vec<u8>),
    >)
        requires
            old(self).next_seq < u32::MAX,
            forall|ts: i64| build.requires((old(self).next_seq, ts)),
        ensures
            match res {
                Some((seq, frame)) => {
                    &&& seq == old(self).next_seq
                    &&& exists|ts: i64| build.ensures((old(self).next_seq, ts), frame)
                    &&& old(self).numbered_one(*final(self))
                },
                None => *final(self) == *old(self),
            },
    {
        self.send_when(now_us(), build)
    }

    pub fn heartbeat_secs(&self) -> (secs: u64)
        ensures
            secs == self.heartbeat_secs,
    {
        self.heartbeat_secs
    }

    /// Seconds to wait between heartbeats.
    pub open spec fn interval_spec(self) -> u64 {
        if self.heartbeat_secs == 0 {
            1
        } else {
            self.heartbeat_secs
        }
    }

    /// Seconds to wait between heartbeats: what was settled, but at least one.
    pub fn heartbeat_interval_secs(&self) -> (secs: u64)
        ensures
            secs == self.interval_spec(),
    {
        if self.heartbeat_secs == 0 {
            1
        } else {
            self.heartbeat_secs
        }
    }

    pub fn last_inbound_seq(&self) -> (seq: u32)
        ensures
            seq == self.last_in_seq,
    {
        self.last_in_seq
    }

    /// The Logon frame to send at the instant `ts_us`.
    pub fn logon_at(
        &mut self,
        ts_us: i64,
        key: &Ed25519Key,
        api_key: &str,
        heartbeat_secs: u32,
        recv_window_us: u32,
        message_handling: u8,
        response_mode: Option<u8>,
        exec_report_type: Option<u8>,
    ) -> (frame: Vec<u8>)
        requires
            old(self).valid(),
            old(self).next_seq < u32::MAX,
            utf8::encode_utf8(api_key@).len() <= u16::MAX,
        ensures
            old(self).numbered_one(*final(self)),
            frame@ == logon_frame(
                old(self).sender_comp_id@,
                old(self).target_comp_id@,
                old(self).next_seq,
                ts_us,
                key.secret@,
                api_key@,
                heartbeat_secs,
                recv_window_us,
                message_handling,
                response_mode,
                exec_report_type,
            ),
    {
        let seq: u32 = self.take_seq();
        let ts_str = fix_utc_timestamp(ts_us);
        let raw_data = sign_logon(
            key,
            self.sender_comp_id.as_str(),
            self.target_comp_id.as_str(),
            seq,
            ts_str.as_str(),
        );
        encode_logon(
            seq,
            ts_us,
            heartbeat_secs,
            true,
            message_handling,
            response_mode,
            exec_report_type,
            recv_window_us,
            self.sender_comp_id.as_str().as_bytes(),
            self.target_comp_id.as_str().as_bytes(),
            raw_data.as_str().as_bytes(),
            api_key.as_bytes(),
        )
    }

    /// The Logon frame to send when the clock shows `now`, in microseconds; none
    /// where it shows nothing.
    pub fn logon_when(
        &mut self,
        now: Option<i64>,
        key: &Ed25519Key,
        api_key: &str,
        heartbeat_secs: u32,
        recv_window_us: u32,
        message_handling: u8,
        response_mode: Option<u8>,
        exec_report_type: Option<u8>,
    ) -> (res: Option<Vec<u8>>)
        requires
            old(self).valid(),
            old(self).next_seq < u32::MAX,
            utf8::encode_utf8(api_key@).len() <= u16::MAX,
        ensures
            old(self).sends(
                *final(self),
                res,
                logon_frame_when(
                    *old(self),
                    now,
                    key.secret@,
                    api_key@,
                    heartbeat_secs,
                    recv_window_us,
                    message_handling,
                    response_mode,
                    exec_report_type,
                ),
            ),
    {
        match now {
            Some(ts_us) => Some(
                self.logon_at(
                    ts_us,
                    key,
                    api_key,
                    heartbeat_secs,
                    recv_window_us,
                    message_handling,
                    response_mode,
                    exec_report_type,
                ),
            ),
            None => None,
        }
    }

    /// The Logon frame to send now; nothing while the system clock stands
    /// before the Unix epoch.
    pub fn logon(
        &mut self,
        key: &Ed25519Key,
        api_key: &str,
        heartbeat_secs: u32,
        recv_window_us: u32,
        message_handling: u8,
        response_mode: Option<u8>,
        exec_report_type: Option<u8>,
    ) -> (res: Option<Vec<u8>>)
        requires
            old(self).valid(),
            old(self).next_seq < u32::MAX,
            utf8::encode_utf8(api_key@).len() <= u16::MAX,
        ensures
            exists|now: Option<i64>|
                old(self).sends(
                    *final(self),
                    res,
                    #[trigger] logon_frame_when(
                        *old(self),
                        now,
                        key.secret@,
                        api_key@,
                        heartbeat_secs,
                        recv_window_us,
                        message_handling,
                        response_mode,
                        exec_report_type,
                    ),
                ),
    {
        self.logon_when(
            now_us(),
            key,
            api_key,
            heartbeat_secs,
            recv_window_us,
            message_handling,
            response_mode,
            exec_report_type,
        )
    }

    /// The Heartbeat frame to send when the clock shows `now`, with the id of a TestRequest or none;
    /// no frame where it shows nothing.
    pub fn send_heartbeat_when(&mut self, now: Option<i64>, test_req_id: &[u8]) -> (res: Option<Vec<u8>>)
        requires
            old(self).next_seq < u32::MAX,
            test_req_id@.len() <= u8::MAX,
        ensures
            old(self).sends(
                *final(self),
                res,
                heartbeat_frame(old(self).next_seq, now, test_req_id@),
            ),
    {
        let build = |seq: u32, ts: i64| -> (frame: Vec<u8>)
            ensures
                frame@ == encoder::frame_of(
                    tid::HEARTBEAT,
                    HEARTBEAT_BLOCK_LEN,
                    seq,
                    ts,
                    wire::var8_bytes(test_req_id@),
                ),
            { encode_heartbeat(seq, ts, test_req_id) };
        match self.send_when(now, build) {
            Some((_, frame)) => Some(frame),
            None => None,
        }
    }

    /// The Heartbeat frame to send now, with the id of a TestRequest or none;
    /// nothing while the system clock stands before the Unix epoch.
    pub fn send_heartbeat(&mut self, test_req_id: &[u8]) -> (res: Option<Vec<u8>>)
        requires
            old(self).next_seq < u32::MAX,
            test_req_id@.len() <= u8::MAX,
        ensures
            exists|now: Option<i64>|
                old(self).sends(
                    *final(self),
                    res,
                    #[trigger] heartbeat_frame(old(self).next_seq, now, test_req_id@),
                ),
    {
        self.send_heartbeat_when(now_us(), test_req_id)
    }

    /// The TestRequest frame to send when the clock shows `now`;
    /// no frame where it shows nothing.
    pub fn send_test_request_when(&mut self, now: Option<i64>, test_req_id: &[u8]) -> (res: Option<Vec<u8>>)
        requires
            old(self).next_seq < u32::MAX,
            test_req_id@.len() <= u8::MAX,
        ensures
            old(self).sends(
                *final(self),
                res,
                test_request_frame(old(self).next_seq, now, test_req_id@),
            ),
    {
        let build = |seq: u32, ts: i64| -> (frame: Vec<u8>)
            ensures
                frame@ == encoder::frame_of(
                    tid::TEST_REQUEST,
                    TEST_REQUEST_BLOCK_LEN,
                    seq,
                    ts,
                    wire::var8_bytes(test_req_id@),
                ),
            { encode_test_request(seq, ts, test_req_id) };
        match self.send_when(now, build) {
            Some((_, frame)) => Some(frame),
            None => None,
        }
    }

    /// The TestRequest frame to send now;
    /// nothing while the system clock stands before the Unix epoch.
    pub fn send_test_request(&mut self, test_req_id: &[u8]) -> (res: Option<Vec<u8>>)
        requires
            old(self).next_seq < u32::MAX,
            test_req_id@.len() <= u8::MAX,
        ensures
            exists|now: Option<i64>|
                old(self).sends(
                    *final(self),
                    res,
                    #[trigger] test_request_frame(old(self).next_seq, now, test_req_id@),
                ),
    {
        self.send_test_request_when(now_us(), test_req_id)
    }

    /// The Logout frame to send when the clock shows `now`;
    /// no frame where it shows nothing.
    pub fn send_logout_when(&mut self, now: Option<i64>, text: &[u8]) -> (res: Option<Vec<u8>>)
        requires
            old(self).next_seq < u32::MAX,
            text@.len() <= u16::MAX,
        ensures
            old(self).sends(
                *final(self),
                res,
                logout_frame(old(self).next_seq, now, text@),
            ),
    {
        let build = |seq: u32, ts: i64| -> (frame: Vec<u8>)
            ensures
                frame@ == encoder::frame_of(
                    tid::LOGOUT,
                    LOGOUT_BLOCK_LEN,
                    seq,
                    ts,
                    wire::var16_bytes(text@),
                ),
            { encode_logout(seq, ts, text) };
        match self.send_when(now, build) {
            Some((_, frame)) => Some(frame),
            None => None,
        }
    }

    /// The Logout frame to send now;
    /// nothing while the system clock stands before the Unix epoch.
    pub fn send_logout(&mut self, text: &[u8]) -> (res: Option<Vec<u8>>)
        requires
            old(self).next_seq < u32::MAX,
            text@.len() <= u16::MAX,
        ensures
            exists|now: Option<i64>|
                old(self).sends(
                    *final(self),
                    res,
                    #[trigger] logout_frame(old(self).next_seq, now, text@),
                ),
    {
        self.send_logout_when(now_us(), text)
    }
}

/// Sequence numbers go up by one: a session that numbered `n` frames is `n`
/// numbers further on, so that no number goes out twice or is left out.
pub proof fn law_numbers_are_consecutive(states: Seq<FixSession>, i: int, j: int)
    requires
        forall|k: int|
            0 <= k < states.len() - 1 ==> (#[trigger] states[k]).numbered_one(states[k + 1]),
        0 <= i <= j < states.len(),
    ensures
        states[j].next_seq == states[i].next_seq + (j - i),
    decreases j - i,
{
    if i < j {
        law_numbers_are_consecutive(states, i, j - 1);
        assert(states[j - 1].numbered_one(states[j]));
    }
}

/// The frames of a new session carry the numbers 1, 2, 3 and so on, each once and
/// in rising order: `before` and `after` are the session around each frame that was
/// built, whether the frame could be written or not, and nothing else touches the
/// number.
pub proof fn law_frames_are_numbered_from_one(
    before: Seq<FixSession>,
    after: Seq<FixSession>,
    n: int,
    later: int,
)
    requires
        before.len() == after.len(),
        0 <= n < later < before.len(),
        before[0].next_seq == 1,
        forall|k: int| 0 <= k < before.len() ==> (#[trigger] before[k]).numbered_one(after[k]),
        forall|k: int|
            0 <= k < before.len() - 1 ==> (#[trigger] after[k]).next_seq == before[k + 1].next_seq,
    ensures
        before[n].next_seq == n + 1,
        before[n].next_seq < before[later].next_seq,
{
    lemma_number_of_frame(before, after, n);
    lemma_number_of_frame(before, after, later);
}

proof fn lemma_number_of_frame(before: Seq<FixSession>, after: Seq<FixSession>, n: int)
    requires
        before.len() == after.len(),
        0 <= n < before.len(),
        before[0].next_seq == 1,
        forall|k: int| 0 <= k < before.len() ==> (#[trigger] before[k]).numbered_one(after[k]),
        forall|k: int|
            0 <= k < before.len() - 1 ==> (#[trigger] after[k]).next_seq == before[k + 1].next_seq,
    ensures
        before[n].next_seq == n + 1,
    decreases n,
{
    if n > 0 {
        lemma_number_of_frame(before, after, n - 1);
        assert(before[n - 1].numbered_one(after[n - 1]));
        assert(after[n - 1].next_seq == before[n].next_seq);
    }
}

} // verus!
