use vstd::prelude::*;

use super::{get_bytes, parse_table, table_check, table_is, Chunk, Record};
use crate::cursor::{fits, u32_at, ByteCursor};
use crate::error::Error;

verus! {

/// A raw-audio chunk: every blob of one file, in table order.
#[derive(Debug)]
pub struct Audo {
    pub sounds: Vec<Vec<u8>>,
}

/// The bytes of the blob at `p`: a 32-bit length, then that many bytes.
pub open spec fn blob_at(b: Seq<u8>, p: int) -> Seq<u8> {
    b.subrange(p + 4, p + 4 + u32_at(b, p) as int)
}

impl Record for Vec<u8> {
    open spec fn record_check(b: Seq<u8>, p: int) -> Option<Error> {
        if fits(b, p, 4) && fits(b, p + 4, u32_at(b, p) as int) {
            None
        } else {
            Some(Error::Truncated)
        }
    }

    open spec fn record_is(&self, b: Seq<u8>, p: int) -> bool {
        self@ == blob_at(b, p)
    }

    fn parse(buf: &mut ByteCursor) -> (r: Result<Self, Error>) {
        let at = buf.position();
        if !buf.can_read_exec(4) {
            return Err(Error::Truncated);
        }
        let length = buf.get_u32(at) as u64;
        if !buf.can_read_exec(4 + length) {
            return Err(Error::Truncated);
        }
        Ok(get_bytes(buf, at + 4, length))
    }
}

impl Record for Audo {
    open spec fn record_check(b: Seq<u8>, p: int) -> Option<Error> {
        table_check::<Vec<u8>>(b, p)
    }

    open spec fn record_is(&self, b: Seq<u8>, p: int) -> bool {
        table_is(self.sounds@, b, p)
    }

    fn parse(buf: &mut ByteCursor) -> (r: Result<Self, Error>) {
        let sounds = parse_table::<Vec<u8>>(buf)?;
        Ok(Audo { sounds })
    }
}

impl Chunk for Audo {
    open spec fn tag() -> Seq<u8> {
        seq![65u8, 85, 68, 79]
    }

    fn get_id() -> (r: [u8; 4]) {
        let r = [65u8, 85, 68, 79];
        assert(r@ =~= seq![65u8, 85, 68, 79]);
        r
    }
}

} // verus!
