use vstd::prelude::*;

use super::{get_string_ptr, get_u32s, or_else, parse_table, str_err, str_is, table_check, table_is, u32s_at, Chunk, Record};
use crate::cursor::{fits, str_ptr_at, u32_at, ByteCursor};
use crate::error::Error;

verus! {

/// The options chunk.
#[derive(Debug)]
pub struct Optn {
    pub _unknown1: Vec<u32>,
    pub info: u32,
    pub _unknown2: Vec<u32>,
    /// (name, value) pairs, in table order.
    pub constant_map: Vec<(String, String)>,
}

/// The size of the part before the constants' address table.
pub const OPTN_FIXED_SIZE: u64 = 60;

/// A constant: a pointer to its name, then one to its value.
impl Record for (String, String) {
    open spec fn record_check(b: Seq<u8>, p: int) -> Option<Error> {
        if !fits(b, p, 8) {
            Some(Error::Truncated)
        } else {
            or_else(str_err(str_ptr_at(b, p)), str_err(str_ptr_at(b, p + 4)))
        }
    }

    open spec fn record_is(&self, b: Seq<u8>, p: int) -> bool {
        str_is(self.0, b, p) && str_is(self.1, b, p + 4)
    }

    fn parse(buf: &mut ByteCursor) -> (r: Result<Self, Error>) {
        let p = buf.position();
        if !buf.can_read_exec(8) {
            return Err(Error::Truncated);
        }
        let name = get_string_ptr(buf, p)?;
        let value = get_string_ptr(buf, p + 4)?;
        Ok((name, value))
    }
}

impl Record for Optn {
    open spec fn record_check(b: Seq<u8>, p: int) -> Option<Error> {
        if !fits(b, p, 60) {
            Some(Error::Truncated)
        } else {
            table_check::<(String, String)>(b, p + 60)
        }
    }

    open spec fn record_is(&self, b: Seq<u8>, p: int) -> bool {
        &&& self._unknown1@ == u32s_at(b, p, 2)
        &&& self.info == u32_at(b, p + 8)
        &&& self._unknown2@ == u32s_at(b, p + 12, 12)
        &&& table_is(self.constant_map@, b, p + 60)
    }

    fn parse(buf: &mut ByteCursor) -> (r: Result<Self, Error>) {
        let p = buf.position();
        if !buf.can_read_exec(OPTN_FIXED_SIZE) {
            return Err(Error::Truncated);
        }
        let unknown1 = get_u32s(buf, p, 2);
        let info = buf.get_u32(p + 8);
        let unknown2 = get_u32s(buf, p + 12, 12);
        buf.set_position(p + OPTN_FIXED_SIZE);
        let constant_map = parse_table::<(String, String)>(buf)?;
        Ok(Optn { _unknown1: unknown1, info, _unknown2: unknown2, constant_map })
    }
}

impl Chunk for Optn {
    open spec fn tag() -> Seq<u8> {
        seq![79u8, 80, 84, 78]
    }

    fn get_id() -> (r: [u8; 4]) {
        let r = [79u8, 80, 84, 78];
        assert(r@ =~= seq![79u8, 80, 84, 78]);
        r
    }
}

} // verus!
