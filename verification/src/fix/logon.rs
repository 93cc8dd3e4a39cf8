//! The wait for the answer to a Logon.
use crate::fix::inbound;
use crate::fix::session::FixSession;
use crate::sbe::decode;
use crate::sbe::decode::{decode_logon_ack, decode_logout, decode_reject};
use crate::sbe::frame;
use crate::sbe::frame::{next_frame_len, parse_frame_header};
use crate::sbe::messages::{RejectMsg, RejectView};
use crate::sbe::tid;
use vstd::prelude::*;
use vstd::slice::{slice_subrange, slice_to_vec};

verus! {

/// Seconds within which a Logon has to be answered.
pub const LOGON_TIMEOUT_SECS: u64 = 10;

/// Where the wait for the answer to a Logon stands.
#[derive(Debug, Clone)]
pub enum LogonProgress {
    /// Nothing has answered yet.
    Waiting,
    /// The session is logged on.
    LoggedOn {
        /// The peer warns that the schema version is deprecated.
        schema_deprecated: bool,
    },
    Failed(LogonError),
}

/// Why a Logon failed.
#[derive(Debug, Clone)]
pub enum LogonError {
    /// The peer closed the connection.
    Closed,
    /// A frame was not SBE.
    BadHeader,
    /// The LogonAck did not decode.
    BadAck,
    /// The peer sent a Reject, which may not have decoded.
    Rejected(Option<RejectMsg>),
    /// The peer sent a Logout, of which the text may not have decoded.
    LoggedOut(Option<Vec<u8>>),
}

#[verifier::ext_equal]
pub enum LogonProgressView {
    Waiting,
    LoggedOn { schema_deprecated: bool },
    Closed,
    BadHeader,
    BadAck,
    Rejected(Option<RejectView>),
    LoggedOut(Option<Seq<u8>>),
}

impl View for LogonProgress {
    type V = LogonProgressView;

    open spec fn view(&self) -> LogonProgressView {
        match *self {
            LogonProgress::Waiting => LogonProgressView::Waiting,
            LogonProgress::LoggedOn { schema_deprecated } => LogonProgressView::LoggedOn {
                schema_deprecated,
            },
            LogonProgress::Failed(LogonError::Closed) => LogonProgressView::Closed,
            LogonProgress::Failed(LogonError::BadHeader) => LogonProgressView::BadHeader,
            LogonProgress::Failed(LogonError::BadAck) => LogonProgressView::BadAck,
            LogonProgress::Failed(LogonError::Rejected(r)) => LogonProgressView::Rejected(
                match r {
                    Some(m) => Some(m@),
                    None => None,
                },
            ),
            LogonProgress::Failed(LogonError::LoggedOut(t)) => LogonProgressView::LoggedOut(
                match t {
                    Some(text) => Some(text@),
                    None => None,
                },
            ),
        }
    }
}

/// What the bytes read so far say of a Logon.
#[verifier::ext_equal]
pub struct Answer {
    /// The bytes that are left.
    pub rest: Seq<u8>,
    pub progress: LogonProgressView,
    /// HeartBtInt and MsgSeqNum of the LogonAck that logged the session on.
    pub ack: Option<(u32, u32)>,
}

/// The first LogonAck, Reject, Logout or frame that is not SBE in `s` decides;
/// frames of other templates before it are passed over. Behind a declared length
/// that no header fits in, nothing answers any more.
pub open spec fn answer(s: Seq<u8>) -> Answer
    decreases s.len(),
{
    match frame::next_frame_len_spec(s) {
        None => Answer { rest: s, progress: LogonProgressView::Waiting, ack: None },
        Some(n) => {
            let f = s.take(n);
            let hdr = frame::header_of(f);
            let rest = s.skip(n);
            if !frame::encoding_ok(f) {
                Answer { rest, progress: LogonProgressView::BadHeader, ack: None }
            } else if hdr.template_id == tid::LOGON_ACK {
                match decode::logon_ack_spec(hdr, f) {
                    Some(ack) => Answer {
                        rest,
                        progress: LogonProgressView::LoggedOn {
                            schema_deprecated: ack.schema_deprecated,
                        },
                        ack: Some((ack.heart_bt_int, hdr.seq_num)),
                    },
                    None => Answer { rest, progress: LogonProgressView::BadAck, ack: None },
                }
            } else if hdr.template_id == tid::REJECT {
                Answer {
                    rest,
                    progress: LogonProgressView::Rejected(decode::reject_spec(hdr, f)),
                    ack: None,
                }
            } else if hdr.template_id == tid::LOGOUT {
                Answer {
                    rest,
                    progress: LogonProgressView::LoggedOut(decode::logout_spec(hdr, f)),
                    ack: None,
                }
            } else {
                answer(rest)
            }
        },
    }
}

/// What the bytes say of a Logon once `chunk` was read behind those before, of which no
/// bytes mean that the connection is closed.
pub open spec fn answer_to(acc: Seq<u8>, chunk: Seq<u8>) -> Answer {
    if chunk.len() == 0 {
        Answer { rest: acc, progress: LogonProgressView::Closed, ack: None }
    } else {
        answer(acc + chunk)
    }
}

/// The heartbeat interval and the last inbound number of a session, as they are or as a
/// LogonAck settled them.
pub open spec fn settled(session: FixSession, ack: Option<(u32, u32)>) -> (u64, u32) {
    match ack {
        Some((heart_bt_int, seq_num)) => (heart_bt_int as u64, seq_num),
        None => (session.heartbeat_secs, session.last_in_seq),
    }
}

/// How the answer is cut into reads makes no difference: as long as nothing has
/// answered, later bytes go behind those that are left; an answer stays as it
/// is, whatever comes behind it.
pub proof fn law_answer_can_be_split(s: Seq<u8>, more: Seq<u8>)
    ensures
        answer(s).progress == LogonProgressView::Waiting ==> answer(s + more) == answer(
            answer(s).rest + more,
        ),
        answer(s).progress != LogonProgressView::Waiting ==> answer(s + more).progress == answer(
            s,
        ).progress && answer(s + more).ack == answer(s).ack,
    decreases s.len(),
{
    if let Some(n) = frame::next_frame_len_spec(s) {
        inbound::lemma_whole_frame_prefix(s, more);
        law_answer_can_be_split(s.skip(n), more);
    }
}

/// The wait for the answer to a Logon, between two reads.
pub struct LogonWait {
    /// The bytes that nothing was made of yet.
    pub acc: Vec<u8>,
}

impl LogonWait {
    pub fn new() -> (w: LogonWait)
        ensures
            w.acc@ == Seq::<u8>::empty(),
    {
        LogonWait { acc: Vec::new() }
    }

    /// Takes the bytes of one read, of which none means that the connection is
    /// closed. A LogonAck settles the heartbeat interval and the last inbound
    /// number of the session; anything else leaves the session as it was.
    pub fn on_read(&mut self, session: &mut FixSession, chunk: &[u8]) -> (progress: LogonProgress)
        ensures
            final(session).kind == old(session).kind,
            final(session).next_seq == old(session).next_seq,
            final(session).sender_comp_id == old(session).sender_comp_id,
            final(session).target_comp_id == old(session).target_comp_id,
            ({
                let a = answer_to(old(self).acc@, chunk@);
                &&& progress@ == a.progress
                &&& final(self).acc@ == a.rest
                &&& (final(session).heartbeat_secs, final(session).last_in_seq) == settled(
                    *old(session),
                    a.ack,
                )
            }),
    {
        if chunk.len() == 0 {
            return LogonProgress::Failed(LogonError::Closed);
        }
        self.acc.extend_from_slice(chunk);
        assert(self.acc@ =~= old(self).acc@ + chunk@);
        let ghost bytes = self.acc@;
        let ghost all = answer(bytes);
        let mut pos: usize = 0;
        assert(bytes.skip(0) =~= bytes);
        let mut progress = LogonProgress::Waiting;
        let mut more: bool = true;
        while more
            invariant
                pos <= bytes.len(),
                self.acc@ == bytes,
                session.kind == old(session).kind,
                session.next_seq == old(session).next_seq,
                session.sender_comp_id == old(session).sender_comp_id,
                session.target_comp_id == old(session).target_comp_id,
                more ==> {
                    &&& progress == LogonProgress::Waiting
                    &&& *session == *old(session)
                    &&& all == answer(bytes.skip(pos as int))
                },
                !more ==> {
                    &&& all.progress == progress@
                    &&& all.rest == bytes.skip(pos as int)
                    &&& match all.ack {
                        Some((heart_bt_int, seq_num)) => {
                            &&& session.heartbeat_secs == heart_bt_int
                            &&& session.last_in_seq == seq_num
                        },
                        None => {
                            &&& session.heartbeat_secs == old(session).heartbeat_secs
                            &&& session.last_in_seq == old(session).last_in_seq
                        },
                    }
                },
            decreases
                bytes.len() - pos + if more {
                    1int
                } else {
                    0
                },
        {
            let rest = slice_subrange(self.acc.as_slice(), pos, self.acc.len());
            assert(rest@ =~= bytes.skip(pos as int));
            let n: usize = match next_frame_len(rest) {
                Some(n) => n,
                None => 0,
            };
            if n == 0 {
                more = false;
            } else {
                let f = slice_subrange(rest, 0, n);
                assert(f@ =~= rest@.take(n as int));
                assert(bytes.skip(pos + n) =~= rest@.skip(n as int));
                pos = pos + n;
                match parse_frame_header(f) {
                    Some(Ok(hdr)) => {
                        if hdr.template_id == tid::LOGON_ACK {
                            more = false;
                            match decode_logon_ack(&hdr, f) {
                                Some(ack) => {
                                    session.heartbeat_secs = ack.heart_bt_int as u64;
                                    session.last_in_seq = hdr.seq_num;
                                    progress = LogonProgress::LoggedOn {
                                        schema_deprecated: ack.schema_deprecated,
                                    };
                                },
                                None => {
                                    progress = LogonProgress::Failed(LogonError::BadAck);
                                },
                            }
                        } else if hdr.template_id == tid::REJECT {
                            more = false;
                            let reject = decode_reject(&hdr, f);
                            progress = LogonProgress::Failed(LogonError::Rejected(reject));
                        } else if hdr.template_id == tid::LOGOUT {
                            more = false;
                            let text = decode_logout(&hdr, f);
                            progress = LogonProgress::Failed(LogonError::LoggedOut(text));
                        }
                    },
                    _ => {
                        more = false;
                        progress = LogonProgress::Failed(LogonError::BadHeader);
                    },
                }
            }
        }
        let rest = slice_subrange(self.acc.as_slice(), pos, self.acc.len());
        assert(rest@ =~= bytes.skip(pos as int));
        self.acc = slice_to_vec(rest);
        progress
    }
}

} // verus!
