use vstd::prelude::*;

use super::{parse_table, table_check, table_is, Chunk, Record};
use crate::cursor::{fits, u16_at, ByteCursor};
use crate::error::Error;

verus! {

/// The atlas-geometry chunk: every geometry record, in table order.
#[derive(Debug)]
pub struct Tpag {
    pub textures: Vec<TextureEntry>,
}

/// Where a frame's pixels lie in an atlas page: eleven 16-bit fields.
#[derive(Debug, Clone, Copy, PartialEq, Eq, Structural)]
pub struct TextureEntry {
    pub x: u16,
    pub y: u16,
    pub width: u16,
    pub height: u16,
    pub render_x: u16,
    pub render_y: u16,
    pub bouding_x: u16,
    pub bouding_y: u16,
    pub bouding_width: u16,
    pub bouding_height: u16,
    pub spritesheet_id: u16,
}

/// The size of a geometry record in bytes.
pub const TEXTURE_ENTRY_SIZE: u64 = 22;

impl Record for TextureEntry {
    open spec fn record_check(b: Seq<u8>, p: int) -> Option<Error> {
        if fits(b, p, 22) {
            None
        } else {
            Some(Error::Truncated)
        }
    }

    open spec fn record_is(&self, b: Seq<u8>, p: int) -> bool {
        &&& self.x == u16_at(b, p)
        &&& self.y == u16_at(b, p + 2)
        &&& self.width == u16_at(b, p + 4)
        &&& self.height == u16_at(b, p + 6)
        &&& self.render_x == u16_at(b, p + 8)
        &&& self.render_y == u16_at(b, p + 10)
        &&& self.bouding_x == u16_at(b, p + 12)
        &&& self.bouding_y == u16_at(b, p + 14)
        &&& self.bouding_width == u16_at(b, p + 16)
        &&& self.bouding_height == u16_at(b, p + 18)
        &&& self.spritesheet_id == u16_at(b, p + 20)
    }

    fn parse(buf: &mut ByteCursor) -> (r: Result<Self, Error>) {
        if !buf.can_read_exec(TEXTURE_ENTRY_SIZE) {
            return Err(Error::Truncated);
        }
        let x = buf.read_u16()?;
        let y = buf.read_u16()?;
        let width = buf.read_u16()?;
        let height = buf.read_u16()?;
        let render_x = buf.read_u16()?;
        let render_y = buf.read_u16()?;
        let bouding_x = buf.read_u16()?;
        let bouding_y = buf.read_u16()?;
        let bouding_width = buf.read_u16()?;
        let bouding_height = buf.read_u16()?;
        let spritesheet_id = buf.read_u16()?;
        Ok(TextureEntry {
            x,
            y,
            width,
            height,
            render_x,
            render_y,
            bouding_x,
            bouding_y,
            bouding_width,
            bouding_height,
            spritesheet_id,
        })
    }
}

impl Record for Tpag {
    open spec fn record_check(b: Seq<u8>, p: int) -> Option<Error> {
        table_check::<TextureEntry>(b, p)
    }

    open spec fn record_is(&self, b: Seq<u8>, p: int) -> bool {
        table_is(self.textures@, b, p)
    }

    fn parse(buf: &mut ByteCursor) -> (r: Result<Self, Error>) {
        let textures = parse_table::<TextureEntry>(buf)?;
        Ok(Tpag { textures })
    }
}

impl Chunk for Tpag {
    open spec fn tag() -> Seq<u8> {
        seq![84u8, 80, 65, 71]
    }

    fn get_id() -> (r: [u8; 4]) {
        let r = [84u8, 80, 65, 71];
        assert(r@ =~= seq![84u8, 80, 65, 71]);
        r
    }
}

} // verus!
