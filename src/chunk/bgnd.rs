use vstd::prelude::*;

use super::{get_string_ptr, get_u32s, or_else, parse_table, str_err, str_is, table_check, table_is, u32s_at, Chunk, Record};
use crate::cursor::{fits, i32_at, str_ptr_at, u32_at, ByteCursor};
use crate::error::Error;
use crate::raster::Raster;

verus! {

/// The background-index chunk: every background, in table order.
#[derive(Debug)]
pub struct Bgnd {
    pub backgrounds: Vec<BackgroundEntry>,
}

/// One background: tiling metadata, its flat tile-id array, and the
/// geometry pointer of its pixels.
#[derive(Debug)]
pub struct BackgroundEntry {
    pub name: String,
    pub _unknown1: Vec<u32>,
    pub _unknown2: u32,
    pub tile_width: u32,
    pub tile_height: u32,
    pub margin_x: u32,
    pub margin_y: u32,
    /// The packer's column count, which need not be the intended layout.
    pub columns: u32,
    pub _unknown3: u32,
    pub _unknown4: u32,
    pub ids: Vec<u32>,
    pub texture: BackgroundState,
}

/// A background's pixels: a geometry pointer until they are cropped out of their page.
#[derive(Debug)]
pub enum BackgroundState {
    Unloaded { texture_address: i32 },
    Loaded { texture: Raster },
}

/// The size of the part of a background record before its tile ids.
pub const BACKGROUND_FIXED_SIZE: u64 = 60;

/// The number of tile ids of the background record at `p`.
pub open spec fn tile_id_count(b: Seq<u8>, p: int) -> int {
    u32_at(b, p + 48) as int * u32_at(b, p + 44) as int
}

impl Record for BackgroundEntry {
    open spec fn record_check(b: Seq<u8>, p: int) -> Option<Error> {
        if !fits(b, p, 60) {
            Some(Error::Truncated)
        } else {
            or_else(str_err(str_ptr_at(b, p)),
                if fits(b, p + 60, 4 * tile_id_count(b, p)) { None } else { Some(Error::Truncated) })
        }
    }

    open spec fn record_is(&self, b: Seq<u8>, p: int) -> bool {
        &&& str_is(self.name, b, p)
        &&& self._unknown1@ == u32s_at(b, p + 4, 3)
        &&& self.texture == BackgroundState::Unloaded { texture_address: i32_at(b, p + 16) }
        &&& self._unknown2 == u32_at(b, p + 20)
        &&& self.tile_width == u32_at(b, p + 24)
        &&& self.tile_height == u32_at(b, p + 28)
        &&& self.margin_x == u32_at(b, p + 32)
        &&& self.margin_y == u32_at(b, p + 36)
        &&& self.columns == u32_at(b, p + 40)
        &&& self._unknown3 == u32_at(b, p + 52)
        &&& self._unknown4 == u32_at(b, p + 56)
        &&& self.ids@ == u32s_at(b, p + 60, tile_id_count(b, p) as nat)
    }

    fn parse(buf: &mut ByteCursor) -> (r: Result<Self, Error>) {
        let p = buf.position();
        if !buf.can_read_exec(BACKGROUND_FIXED_SIZE) {
            return Err(Error::Truncated);
        }
        let name = get_string_ptr(buf, p)?;
        let count_per = buf.get_u32(p + 44) as u64;
        let count = buf.get_u32(p + 48) as u64;
        assert(count * count_per <= 0xFFFF_FFFF * 0xFFFF_FFFF) by (nonlinear_arith)
            requires
                count <= 0xFFFF_FFFF,
                count_per <= 0xFFFF_FFFF,
        ;
        let n = count * count_per;
        buf.set_position(p + BACKGROUND_FIXED_SIZE);
        if n > 0x3FFF_FFFF_FFFF_FFFF || !buf.can_read_exec(4 * n) {
            return Err(Error::Truncated);
        }
        Ok(BackgroundEntry {
            name,
            _unknown1: get_u32s(buf, p + 4, 3),
            texture: BackgroundState::Unloaded { texture_address: buf.get_i32(p + 16) },
            _unknown2: buf.get_u32(p + 20),
            tile_width: buf.get_u32(p + 24),
            tile_height: buf.get_u32(p + 28),
            margin_x: buf.get_u32(p + 32),
            margin_y: buf.get_u32(p + 36),
            columns: buf.get_u32(p + 40),
            _unknown3: buf.get_u32(p + 52),
            _unknown4: buf.get_u32(p + 56),
            ids: get_u32s(buf, p + BACKGROUND_FIXED_SIZE, n),
        })
    }
}

impl Record for Bgnd {
    open spec fn record_check(b: Seq<u8>, p: int) -> Option<Error> {
        table_check::<BackgroundEntry>(b, p)
    }

    open spec fn record_is(&self, b: Seq<u8>, p: int) -> bool {
        table_is(self.backgrounds@, b, p)
    }

    fn parse(buf: &mut ByteCursor) -> (r: Result<Self, Error>) {
        let backgrounds = parse_table::<BackgroundEntry>(buf)?;
        Ok(Bgnd { backgrounds })
    }
}

impl Chunk for Bgnd {
    open spec fn tag() -> Seq<u8> {
        seq![66u8, 71, 78, 68]
    }

    fn get_id() -> (r: [u8; 4]) {
        let r = [66u8, 71, 78, 68];
        assert(r@ =~= seq![66u8, 71, 78, 68]);
        r
    }
}

} // verus!
