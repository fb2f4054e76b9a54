//! A little-endian cursor over borrowed, immutable bytes.
use vstd::prelude::*;
use vstd::utf8::{decode_utf8, valid_utf8};

use crate::error::Error;

verus! {

/// The `n` bytes starting at `p` lie inside `b`.
pub open spec fn fits(b: Seq<u8>, p: int, n: int) -> bool {
    0 <= p && 0 <= n && p + n <= b.len()
}

/// A little-endian 16-bit integer.
pub open spec fn u16_at(b: Seq<u8>, p: int) -> u16 {
    (b[p] as int + 256 * b[p + 1] as int) as u16
}

/// A little-endian 24-bit integer.
pub open spec fn u24_at(b: Seq<u8>, p: int) -> int {
    b[p] as int + 256 * b[p + 1] as int + 65536 * b[p + 2] as int
}

/// A 24-bit two's-complement integer, sign-extended.
pub open spec fn i24_at(b: Seq<u8>, p: int) -> i32 {
    if u24_at(b, p) >= 0x80_0000 {
        (u24_at(b, p) - 0x100_0000) as i32
    } else {
        u24_at(b, p) as i32
    }
}

/// A little-endian 32-bit integer.
pub open spec fn u32_at(b: Seq<u8>, p: int) -> u32 {
    (b[p] as int + 256 * b[p + 1] as int + 65536 * b[p + 2] as int + 16777216 * b[p + 3] as int) as u32
}

/// A 32-bit two's-complement integer.
pub open spec fn i32_at(b: Seq<u8>, p: int) -> i32 {
    if u32_at(b, p) >= 0x8000_0000 {
        (u32_at(b, p) - 0x1_0000_0000) as i32
    } else {
        u32_at(b, p) as i32
    }
}

/// A little-endian 64-bit integer.
pub open spec fn u64_at(b: Seq<u8>, p: int) -> u64 {
    (u32_at(b, p) as int + 0x1_0000_0000 * u32_at(b, p + 4) as int) as u64
}

/// `k` is the first zero byte of `b` at or after `p`.
pub open spec fn first_nul(b: Seq<u8>, p: int, k: int) -> bool {
    p <= k < b.len() && b[k] == 0 && forall|j: int| p <= j < k ==> b[j] != 0
}

/// The null-terminated string that starts at `p`.
pub open spec fn cstr_at(b: Seq<u8>, p: int) -> Result<Seq<char>, Error> {
    if exists|k: int| first_nul(b, p, k) {
        let k = choose|k: int| first_nul(b, p, k);
        let raw = b.subrange(p, k);
        if valid_utf8(raw) {
            Ok(decode_utf8(raw))
        } else {
            Err(Error::Encoding)
        }
    } else {
        Err(Error::Truncated)
    }
}

/// The string that an absolute offset designates: offset 0 is the empty string.
pub open spec fn str_at(b: Seq<u8>, p: int) -> Result<Seq<char>, Error> {
    if p == 0 {
        Ok(Seq::empty())
    } else {
        cstr_at(b, p)
    }
}

/// The string that the 4-byte pointer at `p` designates; a negative pointer cannot be used.
pub open spec fn str_ptr_at(b: Seq<u8>, p: int) -> Result<Seq<char>, Error> {
    if i32_at(b, p) < 0 {
        Err(Error::Truncated)
    } else {
        str_at(b, i32_at(b, p) as int)
    }
}

/// `r` holds the string that `s` describes, or the same error.
pub open spec fn string_result(r: Result<String, Error>, s: Result<Seq<char>, Error>) -> bool {
    match r {
        Ok(v) => s == Ok::<Seq<char>, Error>(v@),
        Err(e) => s == Err::<Seq<char>, Error>(e),
    }
}

/// There is at most one first zero byte.
pub proof fn lemma_first_nul_unique(b: Seq<u8>, p: int, k1: int, k2: int)
    requires
        first_nul(b, p, k1),
        first_nul(b, p, k2),
    ensures
        k1 == k2,
{
    if k1 < k2 {
        assert(b[k1] != 0);
    } else if k2 < k1 {
        assert(b[k2] != 0);
    }
}

/// Relies on `String::from_utf8`: it accepts exactly the well-formed UTF-8
/// sequences and keeps the characters they encode.
#[verifier::external_body]
pub(crate) fn utf8_string(v: Vec<u8>) -> (r: Option<String>)
    ensures
        match r {
            Some(s) => valid_utf8(v@) && s@ == decode_utf8(v@),
            None => !valid_utf8(v@),
        },
{
    String::from_utf8(v).ok()
}

/// A position in a borrowed byte buffer. The position may lie past the end;
/// a read there fails with `Truncated` and leaves the cursor as it was.
pub struct ByteCursor<'a> {
    pub bytes: &'a [u8],
    pub pos: u64,
}

impl<'a> ByteCursor<'a> {
    pub fn new(bytes: &'a [u8], pos: u64) -> (r: ByteCursor<'a>)
        ensures
            r.bytes@ == bytes@,
            r.pos == pos,
    {
        ByteCursor { bytes, pos }
    }

    /// `n` bytes can be read at the current position.
    pub open spec fn can_read(&self, n: int) -> bool {
        fits(self.bytes@, self.pos as int, n)
    }

    pub fn position(&self) -> (r: u64)
        ensures
            r == self.pos,
    {
        self.pos
    }

    pub fn set_position(&mut self, pos: u64)
        ensures
            final(self).bytes == old(self).bytes,
            final(self).pos == pos,
    {
        self.pos = pos;
    }

    pub fn len(&self) -> (r: usize)
        ensures
            r == self.bytes@.len(),
    {
        self.bytes.len()
    }

    /// Checks that `n` bytes can be read and returns the index of the first.
    fn take(&mut self, n: u64) -> (r: Result<usize, Error>)
        ensures
            final(self).bytes == old(self).bytes,
            old(self).can_read(n as int) ==> r == Ok::<usize, Error>(old(self).pos as usize)
                && final(self).pos == old(self).pos + n,
            !old(self).can_read(n as int) ==> r == Err::<usize, Error>(Error::Truncated)
                && final(self).pos == old(self).pos,
    {
        let len = self.bytes.len() as u64;
        if self.pos <= len && len - self.pos >= n {
            let start = self.pos as usize;
            self.pos = self.pos + n;
            Ok(start)
        } else {
            Err(Error::Truncated)
        }
    }

    pub fn read_u8(&mut self) -> (r: Result<u8, Error>)
        ensures
            final(self).bytes == old(self).bytes,
            old(self).can_read(1) ==> r == Ok::<u8, Error>(old(self).bytes@[old(self).pos as int])
                && final(self).pos == old(self).pos + 1,
            !old(self).can_read(1) ==> r == Err::<u8, Error>(Error::Truncated)
                && final(self).pos == old(self).pos,
    {
        let i = self.take(1)?;
        Ok(self.bytes[i])
    }

    pub fn read_u16(&mut self) -> (r: Result<u16, Error>)
        ensures
            final(self).bytes == old(self).bytes,
            old(self).can_read(2) ==> r == Ok::<u16, Error>(u16_at(old(self).bytes@, old(self).pos as int))
                && final(self).pos == old(self).pos + 2,
            !old(self).can_read(2) ==> r == Err::<u16, Error>(Error::Truncated)
                && final(self).pos == old(self).pos,
    {
        let at = self.pos;
        self.take(2)?;
        Ok(self.get_u16(at))
    }

    pub fn read_i24(&mut self) -> (r: Result<i32, Error>)
        ensures
            final(self).bytes == old(self).bytes,
            old(self).can_read(3) ==> r == Ok::<i32, Error>(i24_at(old(self).bytes@, old(self).pos as int))
                && final(self).pos == old(self).pos + 3,
            !old(self).can_read(3) ==> r == Err::<i32, Error>(Error::Truncated)
                && final(self).pos == old(self).pos,
    {
        let at = self.pos;
        self.take(3)?;
        Ok(self.get_i24(at))
    }

    pub fn read_u32(&mut self) -> (r: Result<u32, Error>)
        ensures
            final(self).bytes == old(self).bytes,
            old(self).can_read(4) ==> r == Ok::<u32, Error>(u32_at(old(self).bytes@, old(self).pos as int))
                && final(self).pos == old(self).pos + 4,
            !old(self).can_read(4) ==> r == Err::<u32, Error>(Error::Truncated)
                && final(self).pos == old(self).pos,
    {
        let at = self.pos;
        self.take(4)?;
        Ok(self.get_u32(at))
    }

    pub fn read_i32(&mut self) -> (r: Result<i32, Error>)
        ensures
            final(self).bytes == old(self).bytes,
            old(self).can_read(4) ==> r == Ok::<i32, Error>(i32_at(old(self).bytes@, old(self).pos as int))
                && final(self).pos == old(self).pos + 4,
            !old(self).can_read(4) ==> r == Err::<i32, Error>(Error::Truncated)
                && final(self).pos == old(self).pos,
    {
        let at = self.pos;
        self.take(4)?;
        Ok(self.get_i32(at))
    }

    pub fn read_u64(&mut self) -> (r: Result<u64, Error>)
        ensures
            final(self).bytes == old(self).bytes,
            old(self).can_read(8) ==> r == Ok::<u64, Error>(u64_at(old(self).bytes@, old(self).pos as int))
                && final(self).pos == old(self).pos + 8,
            !old(self).can_read(8) ==> r == Err::<u64, Error>(Error::Truncated)
                && final(self).pos == old(self).pos,
    {
        let at = self.pos;
        self.take(8)?;
        Ok(self.get_u64(at))
    }

    /// `n` bytes can be read at absolute offset `at`.
    pub open spec fn can_read_at(&self, at: u64, n: int) -> bool {
        fits(self.bytes@, at as int, n)
    }

    pub fn get_u8(&self, at: u64) -> (r: u8)
        requires
            self.can_read_at(at, 1),
        ensures
            r == self.bytes@[at as int],
    {
        self.bytes[at as usize]
    }

    pub fn get_u16(&self, at: u64) -> (r: u16)
        requires
            self.can_read_at(at, 2),
        ensures
            r == u16_at(self.bytes@, at as int),
    {
        let i = at as usize;
        self.bytes[i] as u16 + 256 * self.bytes[i + 1] as u16
    }

    pub fn get_i24(&self, at: u64) -> (r: i32)
        requires
            self.can_read_at(at, 3),
        ensures
            r == i24_at(self.bytes@, at as int),
    {
        let i = at as usize;
        let u: i32 = self.bytes[i] as i32 + 256 * self.bytes[i + 1] as i32 + 65536 * self.bytes[i + 2] as i32;
        if u >= 0x80_0000 {
            u - 0x100_0000
        } else {
            u
        }
    }

    pub fn get_u32(&self, at: u64) -> (r: u32)
        requires
            self.can_read_at(at, 4),
        ensures
            r == u32_at(self.bytes@, at as int),
    {
        let i = at as usize;
        self.bytes[i] as u32 + 256 * self.bytes[i + 1] as u32 + 65536 * self.bytes[i + 2] as u32
            + 16777216 * self.bytes[i + 3] as u32
    }

    pub fn get_i32(&self, at: u64) -> (r: i32)
        requires
            self.can_read_at(at, 4),
        ensures
            r == i32_at(self.bytes@, at as int),
    {
        let u = self.get_u32(at);
        if u >= 0x8000_0000 {
            (u - 0x8000_0000) as i32 - 0x4000_0000 - 0x4000_0000
        } else {
            u as i32
        }
    }

    pub fn get_u64(&self, at: u64) -> (r: u64)
        requires
            self.can_read_at(at, 8),
        ensures
            r == u64_at(self.bytes@, at as int),
    {
        let len = self.bytes.len();
        assert(at + 8 <= len);
        let lo = self.get_u32(at);
        let hi = self.get_u32(at + 4);
        lo as u64 + 0x1_0000_0000 * hi as u64
    }

    pub fn can_read_exec(&self, n: u64) -> (r: bool)
        ensures
            r == self.can_read(n as int),
            r ==> self.pos + n <= self.bytes@.len(),
            self.bytes@.len() <= usize::MAX,
    {
        let len = self.bytes.len() as u64;
        self.pos <= len && len - self.pos >= n
    }
}

} // verus!
