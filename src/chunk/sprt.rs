use vstd::prelude::*;

use super::{get_string_ptr, get_u32s, or_else, parse_table, read_addrs, str_err, str_is, table_addrs, table_check, table_fits, table_is, u32s_at, Chunk, Record};
use crate::cursor::{fits, i32_at, str_ptr_at, u32_at, ByteCursor};
use crate::error::Error;
use crate::raster::Raster;

verus! {

/// The sprite-index chunk: every sprite, in table order.
#[derive(Debug)]
pub struct Sprt {
    pub sprites: Vec<SpriteEntry>,
}

/// One sprite, with the geometry pointers of its frames.
#[derive(Debug)]
pub struct SpriteEntry {
    pub name: String,
    pub width: i32,
    pub height: i32,
    pub margin_left: i32,
    pub margin_right: i32,
    pub margin_bottom: i32,
    pub margin_top: i32,
    pub _unknown1: Vec<u32>,
    pub bbox_mode: u32,
    pub sep_masks: u32,
    pub origin_x: u32,
    pub origin_y: u32,
    pub textures: SpriteState,
}

/// A sprite's frames: geometry pointers until they are cropped out of their pages.
#[derive(Debug)]
pub enum SpriteState {
    Unloaded { texture_count: i32, texture_addresses: Vec<i32> },
    Loaded { textures: Vec<Raster> },
}

/// The size of the part before the frames' pointer table.
pub const SPRITE_FIXED_SIZE: u64 = 84;

impl Record for SpriteEntry {
    open spec fn record_check(b: Seq<u8>, p: int) -> Option<Error> {
        if !fits(b, p, 84) {
            Some(Error::Truncated)
        } else {
            or_else(str_err(str_ptr_at(b, p)), if table_fits(b, p + 84) { None } else { Some(Error::Truncated) })
        }
    }

    open spec fn record_is(&self, b: Seq<u8>, p: int) -> bool {
        &&& str_is(self.name, b, p)
        &&& self.width == i32_at(b, p + 4)
        &&& self.height == i32_at(b, p + 8)
        &&& self.margin_left == i32_at(b, p + 12)
        &&& self.margin_right == i32_at(b, p + 16)
        &&& self.margin_bottom == i32_at(b, p + 20)
        &&& self.margin_top == i32_at(b, p + 24)
        &&& self._unknown1@ == u32s_at(b, p + 28, 3)
        &&& self.bbox_mode == u32_at(b, p + 40)
        &&& self.sep_masks == u32_at(b, p + 44)
        &&& self.origin_x == u32_at(b, p + 48)
        &&& self.origin_y == u32_at(b, p + 52)
        &&& self.textures matches SpriteState::Unloaded { texture_count, texture_addresses }
        &&& texture_count == i32_at(b, p + 84)
        &&& texture_addresses@ == table_addrs(b, p + 84)
    }

    fn parse(buf: &mut ByteCursor) -> (r: Result<Self, Error>) {
        let p = buf.position();
        if !buf.can_read_exec(SPRITE_FIXED_SIZE) {
            return Err(Error::Truncated);
        }
        let name = get_string_ptr(buf, p)?;
        buf.set_position(p + SPRITE_FIXED_SIZE);
        let texture_addresses = read_addrs(buf)?;
        Ok(SpriteEntry {
            name,
            width: buf.get_i32(p + 4),
            height: buf.get_i32(p + 8),
            margin_left: buf.get_i32(p + 12),
            margin_right: buf.get_i32(p + 16),
            margin_bottom: buf.get_i32(p + 20),
            margin_top: buf.get_i32(p + 24),
            _unknown1: get_u32s(buf, p + 28, 3),
            bbox_mode: buf.get_u32(p + 40),
            sep_masks: buf.get_u32(p + 44),
            origin_x: buf.get_u32(p + 48),
            origin_y: buf.get_u32(p + 52),
            textures: SpriteState::Unloaded { texture_count: buf.get_i32(p + SPRITE_FIXED_SIZE), texture_addresses },
        })
    }
}

impl Record for Sprt {
    open spec fn record_check(b: Seq<u8>, p: int) -> Option<Error> {
        table_check::<SpriteEntry>(b, p)
    }

    open spec fn record_is(&self, b: Seq<u8>, p: int) -> bool {
        table_is(self.sprites@, b, p)
    }

    fn parse(buf: &mut ByteCursor) -> (r: Result<Self, Error>) {
        let sprites = parse_table::<SpriteEntry>(buf)?;
        Ok(Sprt { sprites })
    }
}

impl Chunk for Sprt {
    open spec fn tag() -> Seq<u8> {
        seq![83u8, 80, 82, 84]
    }

    fn get_id() -> (r: [u8; 4]) {
        let r = [83u8, 80, 82, 84];
        assert(r@ =~= seq![83u8, 80, 82, 84]);
        r
    }
}

} // verus!
