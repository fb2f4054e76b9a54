use vstd::prelude::*;

use super::{parse_table, table_check, table_is, Chunk, Record};
use crate::cursor::{fits, u32_at, ByteCursor};
use crate::error::Error;
use crate::raster::Raster;

verus! {

/// The atlas-page chunk: every page, in table order.
#[derive(Debug)]
pub struct Txtr {
    pub spritesheets: Vec<SpritesheetEntry>,
}

/// One atlas page.
#[derive(Debug)]
pub struct SpritesheetEntry {
    pub _unknown1: u32,
    pub _unknown2: u32,
    pub png: PNGState,
}

/// A page's pixels: the offset of its embedded image until it is decoded.
#[derive(Debug)]
pub enum PNGState {
    Unloaded { png_addr: u32 },
    Loaded { texture: Raster },
}

impl Record for SpritesheetEntry {
    open spec fn record_check(b: Seq<u8>, p: int) -> Option<Error> {
        if fits(b, p, 12) {
            None
        } else {
            Some(Error::Truncated)
        }
    }

    open spec fn record_is(&self, b: Seq<u8>, p: int) -> bool {
        &&& self._unknown1 == u32_at(b, p)
        &&& self._unknown2 == u32_at(b, p + 4)
        &&& self.png == PNGState::Unloaded { png_addr: u32_at(b, p + 8) }
    }

    fn parse(buf: &mut ByteCursor) -> (r: Result<Self, Error>) {
        if !buf.can_read_exec(12) {
            return Err(Error::Truncated);
        }
        let unknown1 = buf.read_u32()?;
        let unknown2 = buf.read_u32()?;
        let png_addr = buf.read_u32()?;
        Ok(SpritesheetEntry { _unknown1: unknown1, _unknown2: unknown2, png: PNGState::Unloaded { png_addr } })
    }
}

impl Record for Txtr {
    open spec fn record_check(b: Seq<u8>, p: int) -> Option<Error> {
        table_check::<SpritesheetEntry>(b, p)
    }

    open spec fn record_is(&self, b: Seq<u8>, p: int) -> bool {
        table_is(self.spritesheets@, b, p)
    }

    fn parse(buf: &mut ByteCursor) -> (r: Result<Self, Error>) {
        let spritesheets = parse_table::<SpritesheetEntry>(buf)?;
        Ok(Txtr { spritesheets })
    }
}

impl Chunk for Txtr {
    open spec fn tag() -> Seq<u8> {
        seq![84u8, 88, 84, 82]
    }

    fn get_id() -> (r: [u8; 4]) {
        let r = [84u8, 88, 84, 82];
        assert(r@ =~= seq![84u8, 88, 84, 82]);
        r
    }
}

} // verus!
