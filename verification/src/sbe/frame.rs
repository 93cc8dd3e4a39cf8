//! Frame headers and the splitting of a byte stream into frames.
use crate::sbe::consts::{ENCODING_TYPE, FRAME_PREFIX, SOFH_LEN};
use crate::sbe::reader::Reader;
use crate::sbe::wire;
use vstd::prelude::*;

verus! {

/// SOFH and messageHeader of a frame.
#[derive(Debug, Clone, Copy, PartialEq, Eq, Structural)]
pub struct FrameHeader {
    /// Length of the whole frame.
    pub message_length: u32,
    pub block_length: u16,
    pub template_id: u16,
    pub schema_id: u16,
    pub version: u16,
    pub seq_num: u32,
    /// Microseconds since the Unix epoch.
    pub sending_time: i64,
}

impl FrameHeader {
    /// Offset of the groups and the variable-length fields.
    pub open spec fn after_root_spec(self) -> int {
        FRAME_PREFIX + self.block_length
    }

    /// Total frame length on the wire.
    pub fn frame_len(&self) -> (n: usize)
        ensures
            n == self.message_length,
    {
        self.message_length as usize
    }

    /// Byte offset where the root block begins.
    pub fn root_offset(&self) -> (n: usize)
        ensures
            n == FRAME_PREFIX,
    {
        FRAME_PREFIX
    }

    /// Byte offset where the root block ends.
    pub fn after_root(&self) -> (n: usize)
        ensures
            n == self.after_root_spec(),
    {
        FRAME_PREFIX + self.block_length as usize
    }
}

/// Whether the SOFH at the front of `s` names the SBE encoding.
pub open spec fn encoding_ok(s: Seq<u8>) -> bool {
    wire::u16_at(s, 4) == ENCODING_TYPE
}

/// The header at the front of `s`.
pub open spec fn header_of(s: Seq<u8>) -> FrameHeader {
    FrameHeader {
        message_length: wire::u32_at(s, 0),
        block_length: wire::u16_at(s, 6),
        template_id: wire::u16_at(s, 8),
        schema_id: wire::u16_at(s, 10),
        version: wire::u16_at(s, 12),
        seq_num: wire::u32_at(s, 14),
        sending_time: wire::i64_at(s, 18),
    }
}

/// Parses the frame header at the front of `buf`: `None` while the header is
/// incomplete, an error where the encoding type is not SBE.
pub fn parse_frame_header(buf: &[u8]) -> (res: Option<Result<FrameHeader, &'static str>>)
    ensures
        match res {
            None => buf@.len() < FRAME_PREFIX,
            Some(Err(e)) => buf@.len() >= FRAME_PREFIX && !encoding_ok(buf@) && e@
                == "bad SOFH encodingType"@,
            Some(Ok(h)) => buf@.len() >= FRAME_PREFIX && encoding_ok(buf@) && h == header_of(buf@),
        },
{
    if buf.len() < FRAME_PREFIX {
        return None;
    }
    let mut r = Reader::new(buf);
    let message_length = r.u32()?;
    let encoding_type = r.u16()?;
    if encoding_type != ENCODING_TYPE {
        return Some(Err("bad SOFH encodingType"));
    }
    let block_length = r.u16()?;
    let template_id = r.u16()?;
    let schema_id = r.u16()?;
    let version = r.u16()?;
    let seq_num = r.u32()?;
    let sending_time = r.i64()?;
    Some(
        Ok(
            FrameHeader {
                message_length,
                block_length,
                template_id,
                schema_id,
                version,
                seq_num,
                sending_time,
            },
        ),
    )
}

/// A read buffer starts with a declared length that no header fits in. No frame
/// can follow from there on.
pub open spec fn malformed_length(s: Seq<u8>) -> bool {
    s.len() >= SOFH_LEN && wire::u32_at(s, 0) < FRAME_PREFIX
}

/// Whether a read buffer starts with a declared length that no header fits in.
pub fn is_malformed_length(buf: &[u8]) -> (b: bool)
    ensures
        b == malformed_length(buf@),
{
    if buf.len() < SOFH_LEN {
        return false;
    }
    let mut r = Reader::new(buf);
    match r.u32() {
        Some(declared) => (declared as usize) < FRAME_PREFIX,
        None => false,
    }
}

/// The length of the frame at the front of a read buffer: the declared length,
/// once that many bytes are there. There is none of a declared length that no
/// header fits in.
pub open spec fn next_frame_len_spec(s: Seq<u8>) -> Option<int> {
    if s.len() < SOFH_LEN {
        None
    } else {
        let declared = wire::u32_at(s, 0) as int;
        if declared < FRAME_PREFIX || s.len() < declared {
            None
        } else {
            Some(declared)
        }
    }
}

/// The length of the next frame in a partially filled read buffer, if all of the
/// frame is there.
pub fn next_frame_len(buf: &[u8]) -> (res: Option<usize>)
    ensures
        match res {
            Some(n) => next_frame_len_spec(buf@) == Some(n as int),
            None => next_frame_len_spec(buf@) is None,
        },
{
    if buf.len() < SOFH_LEN {
        return None;
    }
    let mut r = Reader::new(buf);
    let declared: usize = r.u32()? as usize;
    if declared < FRAME_PREFIX || buf.len() < declared {
        return None;
    }
    Some(declared)
}

} // verus!
