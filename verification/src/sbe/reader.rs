//! Bounds-checked little-endian reading.
use crate::sbe::wire;
use crate::sbe::wire::{bits_i32, bits_i64, bits_i8};
use vstd::prelude::*;
use vstd::slice::slice_subrange;

verus! {

/// A position in a byte string, from which fields are read one after another.
pub struct Reader<'a> {
    pub buf: &'a [u8],
    pub pos: usize,
}

impl<'a> Reader<'a> {
    /// Whether `n` more bytes can be read.
    pub open spec fn has(self, n: int) -> bool {
        self.pos + n <= self.buf@.len()
    }

    /// `next` is this reader, moved on by `n` bytes.
    pub open spec fn advanced(self, next: Reader<'a>, n: int) -> bool {
        next.buf == self.buf && next.pos == self.pos + n
    }

    pub fn new(buf: &'a [u8]) -> (r: Self)
        ensures
            r.buf == buf,
            r.pos == 0,
    {
        Self { buf, pos: 0 }
    }

    pub fn at(buf: &'a [u8], pos: usize) -> (r: Self)
        ensures
            r.buf == buf,
            r.pos == pos,
    {
        Self { buf, pos }
    }

    pub fn remaining(&self) -> (n: usize)
        ensures
            n == if self.pos <= self.buf@.len() {
                self.buf@.len() - self.pos
            } else {
                0
            },
    {
        self.buf.len().saturating_sub(self.pos)
    }

    /// Whether `n` more bytes can be read.
    fn fits(&self, n: usize) -> (b: bool)
        ensures
            b == self.has(n as int),
            b ==> self.pos + n <= usize::MAX,
    {
        self.pos <= self.buf.len() && n <= self.buf.len() - self.pos
    }

    pub fn u8(&mut self) -> (res: Option<u8>)
        ensures
            match res {
                Some(v) => old(self).has(1) && v == old(self).buf@[old(self).pos as int] && old(
                    self,
                ).advanced(*final(self), 1),
                None => !old(self).has(1) && *final(self) == *old(self),
            },
    {
        if !self.fits(1) {
            return None;
        }
        let v: u8 = self.buf[self.pos];
        self.pos = self.pos + 1;
        Some(v)
    }

    pub fn i8(&mut self) -> (res: Option<i8>)
        ensures
            match res {
                Some(v) => old(self).has(1) && v == wire::i8_at(
                    old(self).buf@,
                    old(self).pos as int,
                ) && old(self).advanced(*final(self), 1),
                None => !old(self).has(1) && *final(self) == *old(self),
            },
    {
        let v: u8 = self.u8()?;
        Some(bits_i8(v))
    }

    pub fn u16(&mut self) -> (res: Option<u16>)
        ensures
            match res {
                Some(v) => old(self).has(2) && v == wire::u16_at(
                    old(self).buf@,
                    old(self).pos as int,
                ) && old(self).advanced(*final(self), 2),
                None => !old(self).has(2) && *final(self) == *old(self),
            },
    {
        if !self.fits(2) {
            return None;
        }
        let p: usize = self.pos;
        let v: u16 = self.buf[p] as u16 + 256 * self.buf[p + 1] as u16;
        proof {
            reveal_with_fuel(wire::le_value, 3);
        }
        self.pos = p + 2;
        Some(v)
    }

    pub fn u32(&mut self) -> (res: Option<u32>)
        ensures
            match res {
                Some(v) => old(self).has(4) && v == wire::u32_at(
                    old(self).buf@,
                    old(self).pos as int,
                ) && old(self).advanced(*final(self), 4),
                None => !old(self).has(4) && *final(self) == *old(self),
            },
    {
        if !self.fits(4) {
            return None;
        }
        let p: usize = self.pos;
        let v: u32 = self.buf[p] as u32 + 256 * (self.buf[p + 1] as u32 + 256 * (self.buf[p
            + 2] as u32 + 256 * self.buf[p + 3] as u32));
        proof {
            reveal_with_fuel(wire::le_value, 5);
        }
        self.pos = p + 4;
        Some(v)
    }

    pub fn i32(&mut self) -> (res: Option<i32>)
        ensures
            match res {
                Some(v) => old(self).has(4) && v == wire::i32_at(
                    old(self).buf@,
                    old(self).pos as int,
                ) && old(self).advanced(*final(self), 4),
                None => !old(self).has(4) && *final(self) == *old(self),
            },
    {
        let v: u32 = self.u32()?;
        Some(bits_i32(v))
    }

    pub fn u64(&mut self) -> (res: Option<u64>)
        ensures
            match res {
                Some(v) => old(self).has(8) && v == wire::u64_at(
                    old(self).buf@,
                    old(self).pos as int,
                ) && old(self).advanced(*final(self), 8),
                None => !old(self).has(8) && *final(self) == *old(self),
            },
    {
        if !self.fits(8) {
            return None;
        }
        let p: usize = self.pos;
        let b: &[u8] = self.buf;
        let hi: u64 = b[p + 4] as u64 + 256 * (b[p + 5] as u64 + 256 * (b[p + 6] as u64 + 256
            * b[p + 7] as u64));
        let v: u64 = b[p] as u64 + 256 * (b[p + 1] as u64 + 256 * (b[p + 2] as u64 + 256 * (b[p
            + 3] as u64 + 256 * hi)));
        proof {
            reveal_with_fuel(wire::le_value, 9);
        }
        self.pos = p + 8;
        Some(v)
    }

    pub fn i64(&mut self) -> (res: Option<i64>)
        ensures
            match res {
                Some(v) => old(self).has(8) && v == wire::i64_at(
                    old(self).buf@,
                    old(self).pos as int,
                ) && old(self).advanced(*final(self), 8),
                None => !old(self).has(8) && *final(self) == *old(self),
            },
    {
        let v: u64 = self.u64()?;
        Some(bits_i64(v))
    }

    pub fn skip(&mut self, n: usize) -> (res: Option<()>)
        ensures
            match res {
                Some(_) => old(self).has(n as int) && old(self).advanced(*final(self), n as int),
                None => !old(self).has(n as int) && *final(self) == *old(self),
            },
    {
        if !self.fits(n) {
            return None;
        }
        self.pos = self.pos + n;
        Some(())
    }

    /// The next `n` bytes.
    fn take(&mut self, n: usize) -> (res: Option<&'a [u8]>)
        ensures
            match res {
                Some(s) => old(self).has(n as int) && s@ == old(self).buf@.subrange(
                    old(self).pos as int,
                    old(self).pos + n,
                ) && old(self).advanced(*final(self), n as int),
                None => !old(self).has(n as int) && *final(self) == *old(self),
            },
    {
        if !self.fits(n) {
            return None;
        }
        let s: &'a [u8] = slice_subrange(self.buf, self.pos, self.pos + n);
        self.pos = self.pos + n;
        Some(s)
    }

    /// varString8: u8 length + bytes. Where the length is there and the bytes
    /// are not, the reader has moved past the length.
    pub fn var8(&mut self) -> (res: Option<&'a [u8]>)
        ensures
            final(self).buf == old(self).buf,
            match res {
                Some(s) => wire::var8_at(old(self).buf@, old(self).pos as int) == Some(
                    (s@, final(self).pos as int),
                ),
                None => wire::var8_at(old(self).buf@, old(self).pos as int) is None
                    && final(self).pos == if old(self).has(1) {
                    old(self).pos + 1
                } else {
                    old(self).pos as int
                },
            },
    {
        let len: u8 = self.u8()?;
        self.take(len as usize)
    }

    /// varString: u16 length + bytes. Where the length is there and the bytes
    /// are not, the reader has moved past the length.
    pub fn var16(&mut self) -> (res: Option<&'a [u8]>)
        ensures
            final(self).buf == old(self).buf,
            match res {
                Some(s) => wire::var16_at(old(self).buf@, old(self).pos as int) == Some(
                    (s@, final(self).pos as int),
                ),
                None => wire::var16_at(old(self).buf@, old(self).pos as int) is None
                    && final(self).pos == if old(self).has(2) {
                    old(self).pos + 2
                } else {
                    old(self).pos as int
                },
            },
    {
        let len: u16 = self.u16()?;
        self.take(len as usize)
    }
}

} // verus!
