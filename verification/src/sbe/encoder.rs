//! Building frames.
use crate::sbe::consts::{ENCODING_TYPE, FRAME_PREFIX, SCHEMA_ID, SCHEMA_VERSION};
use crate::sbe::frame;
use crate::sbe::wire;
use crate::sbe::wire::{
    put_i32, put_i64, put_i8, put_u16, put_u32, put_u64, put_u8, put_var16, put_var8,
};
use vstd::prelude::*;

verus! {

/// SOFH and messageHeader of a frame of `total` bytes.
pub open spec fn frame_head(
    total: nat,
    template_id: u16,
    block_length: u16,
    seq_num: u32,
    sending_time: i64,
) -> Seq<u8> {
    wire::le_bytes(total, 4) + wire::le_bytes(ENCODING_TYPE as nat, 2) + wire::le_bytes(
        block_length as nat,
        2,
    ) + wire::le_bytes(template_id as nat, 2) + wire::le_bytes(SCHEMA_ID as nat, 2)
        + wire::le_bytes(SCHEMA_VERSION as nat, 2) + wire::le_bytes(seq_num as nat, 4)
        + wire::le_bytes(wire::twos64(sending_time) as nat, 8)
}

/// The frame that carries `body`: root block, groups and variable-length fields.
pub open spec fn frame_of(
    template_id: u16,
    block_length: u16,
    seq_num: u32,
    sending_time: i64,
    body: Seq<u8>,
) -> Seq<u8> {
    frame_head(FRAME_PREFIX as nat + body.len(), template_id, block_length, seq_num, sending_time)
        + body
}

/// The frame that carries `body` when the clock shows `now`, in microseconds;
/// none where it shows nothing.
pub open spec fn frame_when(
    template_id: u16,
    block_length: u16,
    seq_num: u32,
    now: Option<i64>,
    body: Seq<u8>,
) -> Option<Seq<u8>> {
    match now {
        Some(ts) => Some(frame_of(template_id, block_length, seq_num, ts, body)),
        None => None,
    }
}

/// A frame head is as long as every frame's fixed part.
pub proof fn lemma_frame_head_len(
    total: nat,
    template_id: u16,
    block_length: u16,
    seq_num: u32,
    sending_time: i64,
)
    ensures
        frame_head(total, template_id, block_length, seq_num, sending_time).len() == FRAME_PREFIX,
{
    broadcast use wire::lemma_le_bytes_len;

}

/// Builds one frame: `start`, then the root block, the groups and the
/// variable-length fields in schema order, then `finish`.
pub struct Encoder {
    pub buf: Vec<u8>,
}

impl Encoder {
    /// The bytes of the frame header, with the length still open.
    pub open spec fn head(self) -> Seq<u8> {
        self.buf@.take(FRAME_PREFIX as int)
    }

    /// What was written behind the frame header.
    pub open spec fn body(self) -> Seq<u8> {
        self.buf@.skip(FRAME_PREFIX as int)
    }

    /// `next` is this encoder after `bytes` were written.
    pub open spec fn wrote(self, next: Encoder, bytes: Seq<u8>) -> bool {
        &&& next.buf@ == self.buf@ + bytes
        &&& self.buf@.len() >= FRAME_PREFIX ==> next.head() == self.head() && next.body()
            == self.body() + bytes
    }

    /// Begins a frame whose root block has `block_length` bytes. `sending_time`
    /// is in microseconds since the Unix epoch.
    pub fn start(template_id: u16, block_length: u16, seq_num: u32, sending_time: i64) -> (e: Self)
        ensures
            e.buf@ == frame_head(0, template_id, block_length, seq_num, sending_time),
            e.buf@.len() == FRAME_PREFIX,
            e.head() == e.buf@,
            e.body() == Seq::<u8>::empty(),
    {
        let mut buf: Vec<u8> = Vec::new();
        // The length is known in `finish`.
        put_u32(&mut buf, 0);
        assert(buf@ =~= wire::le_bytes(0, 4));
        put_u16(&mut buf, ENCODING_TYPE);
        put_u16(&mut buf, block_length);
        put_u16(&mut buf, template_id);
        put_u16(&mut buf, SCHEMA_ID);
        put_u16(&mut buf, SCHEMA_VERSION);
        put_u32(&mut buf, seq_num);
        put_i64(&mut buf, sending_time);
        proof {
            lemma_frame_head_len(0, template_id, block_length, seq_num, sending_time);
        }
        let e = Self { buf };
        assert(e.head() =~= e.buf@);
        assert(e.body() =~= Seq::<u8>::empty());
        e
    }

    pub fn u8(&mut self, v: u8)
        ensures
            old(self).wrote(*final(self), seq![v]),
    {
        put_u8(&mut self.buf, v);
        proof {
            lemma_wrote(*old(self), *self, seq![v]);
        }
    }

    pub fn i8(&mut self, v: i8)
        ensures
            old(self).wrote(*final(self), seq![wire::twos8(v)]),
    {
        put_i8(&mut self.buf, v);
        proof {
            lemma_wrote(*old(self), *self, seq![wire::twos8(v)]);
        }
    }

    pub fn u16(&mut self, v: u16)
        ensures
            old(self).wrote(*final(self), wire::le_bytes(v as nat, 2)),
    {
        put_u16(&mut self.buf, v);
        proof {
            lemma_wrote(*old(self), *self, wire::le_bytes(v as nat, 2));
        }
    }

    pub fn u32(&mut self, v: u32)
        ensures
            old(self).wrote(*final(self), wire::le_bytes(v as nat, 4)),
    {
        put_u32(&mut self.buf, v);
        proof {
            lemma_wrote(*old(self), *self, wire::le_bytes(v as nat, 4));
        }
    }

    pub fn i32(&mut self, v: i32)
        ensures
            old(self).wrote(*final(self), wire::le_bytes(wire::twos32(v) as nat, 4)),
    {
        put_i32(&mut self.buf, v);
        proof {
            lemma_wrote(*old(self), *self, wire::le_bytes(wire::twos32(v) as nat, 4));
        }
    }

    pub fn i64(&mut self, v: i64)
        ensures
            old(self).wrote(*final(self), wire::le_bytes(wire::twos64(v) as nat, 8)),
    {
        put_i64(&mut self.buf, v);
        proof {
            lemma_wrote(*old(self), *self, wire::le_bytes(wire::twos64(v) as nat, 8));
        }
    }

    pub fn u64(&mut self, v: u64)
        ensures
            old(self).wrote(*final(self), wire::le_bytes(v as nat, 8)),
    {
        put_u64(&mut self.buf, v);
        proof {
            lemma_wrote(*old(self), *self, wire::le_bytes(v as nat, 8));
        }
    }

    /// Writes a byte string behind a one-byte length.
    pub fn var8(&mut self, s: &[u8])
        requires
            s@.len() <= u8::MAX,
        ensures
            old(self).wrote(*final(self), wire::var8_bytes(s@)),
    {
        put_var8(&mut self.buf, s);
        proof {
            lemma_wrote(*old(self), *self, wire::var8_bytes(s@));
        }
    }

    /// Writes a byte string behind a two-byte length.
    pub fn var16(&mut self, s: &[u8])
        requires
            s@.len() <= u16::MAX,
        ensures
            old(self).wrote(*final(self), wire::var16_bytes(s@)),
    {
        put_var16(&mut self.buf, s);
        proof {
            lemma_wrote(*old(self), *self, wire::var16_bytes(s@));
        }
    }

    /// smallGroupSize8Encoding: u8 blockLength, u8 numInGroup.
    pub fn group_dim_small8(&mut self, block_length: u8, num_in_group: u8)
        ensures
            old(self).wrote(*final(self), seq![block_length] + seq![num_in_group]),
    {
        put_u8(&mut self.buf, block_length);
        put_u8(&mut self.buf, num_in_group);
        assert(self.buf@ =~= old(self).buf@ + (seq![block_length] + seq![num_in_group]));
        proof {
            lemma_wrote(*old(self), *self, seq![block_length] + seq![num_in_group]);
        }
    }

    /// groupSize16Encoding: u16 blockLength, u16 numInGroup.
    pub fn group_dim_16(&mut self, block_length: u16, num_in_group: u16)
        ensures
            old(self).wrote(*final(self), wire::le_bytes(block_length as nat, 2) + wire::le_bytes(num_in_group as nat, 2)),
    {
        put_u16(&mut self.buf, block_length);
        put_u16(&mut self.buf, num_in_group);
        assert(self.buf@ =~= old(self).buf@ + (wire::le_bytes(block_length as nat, 2) + wire::le_bytes(num_in_group as nat, 2)));
        proof {
            lemma_wrote(*old(self), *self, wire::le_bytes(block_length as nat, 2) + wire::le_bytes(num_in_group as nat, 2));
        }
    }

    /// smallGroupSize16Encoding: u8 blockLength, u16 numInGroup.
    pub fn group_dim_small16(&mut self, block_length: u8, num_in_group: u16)
        ensures
            old(self).wrote(*final(self), seq![block_length] + wire::le_bytes(num_in_group as nat, 2)),
    {
        put_u8(&mut self.buf, block_length);
        put_u16(&mut self.buf, num_in_group);
        assert(self.buf@ =~= old(self).buf@ + (seq![block_length] + wire::le_bytes(num_in_group as nat, 2)));
        proof {
            lemma_wrote(*old(self), *self, seq![block_length] + wire::le_bytes(num_in_group as nat, 2));
        }
    }

    /// groupSize32Encoding: u16 blockLength, u32 numInGroup.
    pub fn group_dim_32(&mut self, block_length: u16, num_in_group: u32)
        ensures
            old(self).wrote(*final(self), wire::le_bytes(block_length as nat, 2) + wire::le_bytes(num_in_group as nat, 4)),
    {
        put_u16(&mut self.buf, block_length);
        put_u32(&mut self.buf, num_in_group);
        assert(self.buf@ =~= old(self).buf@ + (wire::le_bytes(block_length as nat, 2) + wire::le_bytes(num_in_group as nat, 4)));
        proof {
            lemma_wrote(*old(self), *self, wire::le_bytes(block_length as nat, 2) + wire::le_bytes(num_in_group as nat, 4));
        }
    }

    /// Sets the length in the frame header and returns the frame.
    pub fn finish(self) -> (out: Vec<u8>)
        requires
            self.buf@.len() >= 4,
        ensures
            out@ == wire::le_bytes(self.buf@.len(), 4) + self.buf@.skip(4),
    {
        let mut length: Vec<u8> = Vec::new();
        let mut buf = self.buf;
        let ghost n = buf@.len();
        let total: u64 = buf.len() as u64;
        put_u32(&mut length, (total % 0x1_0000_0000) as u32);
        proof {
            wire::lemma_base256_widths();
            wire::lemma_le_bytes_low(n, (total % 0x1_0000_0000) as nat, 4);
            wire::lemma_le_bytes_len(n, 4);
        }
        assert(length@ =~= wire::le_bytes(n, 4));
        buf[0] = length[0];
        buf[1] = length[1];
        buf[2] = length[2];
        buf[3] = length[3];
        assert(buf@ =~= length@ + self.buf@.skip(4));
        buf
    }
}

proof fn lemma_wrote(before: Encoder, after: Encoder, bytes: Seq<u8>)
    requires
        after.buf@ == before.buf@ + bytes,
    ensures
        before.wrote(after, bytes),
{
    if before.buf@.len() >= FRAME_PREFIX {
        assert(after.head() =~= before.head());
        assert(after.body() =~= before.body() + bytes);
    }
}

/// What `finish` makes of an encoder that was started with these arguments is
/// the frame that carries what was written since.
pub proof fn law_finished_encoder_is_frame(
    e: Encoder,
    template_id: u16,
    block_length: u16,
    seq_num: u32,
    sending_time: i64,
)
    requires
        e.buf@.len() >= FRAME_PREFIX,
        e.head() == frame_head(0, template_id, block_length, seq_num, sending_time),
    ensures
        wire::le_bytes(e.buf@.len(), 4) + e.buf@.skip(4) == frame_of(
            template_id,
            block_length,
            seq_num,
            sending_time,
            e.body(),
        ),
{
    let total = e.buf@.len();
    broadcast use wire::lemma_le_bytes_len;

    lemma_frame_head_len(0, template_id, block_length, seq_num, sending_time);
    lemma_frame_head_len(total, template_id, block_length, seq_num, sending_time);
    let open = frame_head(0, template_id, block_length, seq_num, sending_time);
    let head = frame_head(total, template_id, block_length, seq_num, sending_time);
    assert(e.buf@ =~= open + e.body());
    assert(head =~= wire::le_bytes(total, 4) + open.skip(4));
    assert(wire::le_bytes(total, 4) + e.buf@.skip(4) =~= head + e.body());
}

/// The header of a frame gives back what it was built from, whatever follows
/// the frame, and a read buffer that starts with the frame gives its length.
pub proof fn law_frame_header_round_trip(
    template_id: u16,
    block_length: u16,
    seq_num: u32,
    sending_time: i64,
    body: Seq<u8>,
    rest: Seq<u8>,
)
    requires
        FRAME_PREFIX + body.len() <= u32::MAX,
    ensures
        ({
            let s = frame_of(template_id, block_length, seq_num, sending_time, body) + rest;
            &&& frame::encoding_ok(s)
            &&& frame::header_of(s) == frame::FrameHeader {
                message_length: (FRAME_PREFIX + body.len()) as u32,
                block_length,
                template_id,
                schema_id: SCHEMA_ID,
                version: SCHEMA_VERSION,
                seq_num,
                sending_time,
            }
            &&& frame::next_frame_len_spec(s) == Some(FRAME_PREFIX + body.len())
        }),
{
    broadcast use wire::lemma_le_bytes_len;

    let total = (FRAME_PREFIX + body.len()) as nat;
    let s = frame_of(template_id, block_length, seq_num, sending_time, body) + rest;
    lemma_frame_head_len(total, template_id, block_length, seq_num, sending_time);
    wire::lemma_base256_widths();
    wire::lemma_le_at(s, 0, total, 4);
    wire::lemma_le_at(s, 4, ENCODING_TYPE as nat, 2);
    wire::lemma_le_at(s, 6, block_length as nat, 2);
    wire::lemma_le_at(s, 8, template_id as nat, 2);
    wire::lemma_le_at(s, 10, SCHEMA_ID as nat, 2);
    wire::lemma_le_at(s, 12, SCHEMA_VERSION as nat, 2);
    wire::lemma_le_at(s, 14, seq_num as nat, 4);
    wire::lemma_le_at(s, 18, wire::twos64(sending_time) as nat, 8);
    wire::lemma_twos_round_trip(0, 0, sending_time);
}

} // verus!
