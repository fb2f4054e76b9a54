use vstd::prelude::*;

use super::{get_bytes, get_string_ptr, or_else, parse_table, str_err, str_is, table_check, table_is, Chunk, Record};
use crate::cursor::{fits, i32_at, str_ptr_at, u16_at, u32_at, ByteCursor};
use crate::error::Error;
use crate::raster::Raster;

verus! {

/// The font-index chunk: every font, in table order.
#[derive(Debug)]
pub struct Font {
    pub fonts: Vec<FontEntry>,
}

/// One font: metrics, the geometry pointer of its glyph sheet, and its glyphs.
#[derive(Debug)]
pub struct FontEntry {
    pub code_name: String,
    pub system_name: String,
    /// IEEE-754 single-precision bits of the size; the file stores it negated.
    pub em_size: u32,
    pub bold: bool,
    pub italic: bool,
    pub range_start: u16,
    pub charset: u8,
    pub antialiasing: u8,
    pub range_end: u32,
    pub tpag_addr: u32,
    /// IEEE-754 single-precision bits.
    pub scale_x: u32,
    /// IEEE-754 single-precision bits.
    pub scale_y: u32,
    pub _unknown1: i32,
    /// The glyphs, in table order.
    pub glyphs: Vec<Glyph>,
}

/// One glyph: its character and its rectangle inside the font's glyph sheet.
#[derive(Debug)]
pub struct Glyph {
    pub character: u16,
    pub relative_x: u16,
    pub relative_y: u16,
    pub width: u16,
    pub height: u16,
    pub _unknown1: Vec<u8>,
    pub texture: Option<Raster>,
}

/// The size of a glyph record.
pub const GLYPH_SIZE: u64 = 14;

/// The size of the part of a font record before its glyphs' address table.
pub const FONT_FIXED_SIZE: u64 = 44;

/// The sign bit of an IEEE-754 single.
pub const SIGN_BIT: u32 = 0x8000_0000;

impl Record for Glyph {
    open spec fn record_check(b: Seq<u8>, p: int) -> Option<Error> {
        if fits(b, p, 14) {
            None
        } else {
            Some(Error::Truncated)
        }
    }

    open spec fn record_is(&self, b: Seq<u8>, p: int) -> bool {
        &&& self.character == u16_at(b, p)
        &&& self.relative_x == u16_at(b, p + 2)
        &&& self.relative_y == u16_at(b, p + 4)
        &&& self.width == u16_at(b, p + 6)
        &&& self.height == u16_at(b, p + 8)
        &&& self._unknown1@ == b.subrange(p + 10, p + 14)
        &&& self.texture is None
    }

    fn parse(buf: &mut ByteCursor) -> (r: Result<Self, Error>) {
        let p = buf.position();
        if !buf.can_read_exec(GLYPH_SIZE) {
            return Err(Error::Truncated);
        }
        Ok(Glyph {
            character: buf.get_u16(p),
            relative_x: buf.get_u16(p + 2),
            relative_y: buf.get_u16(p + 4),
            width: buf.get_u16(p + 6),
            height: buf.get_u16(p + 8),
            _unknown1: get_bytes(buf, p + 10, 4),
            texture: None,
        })
    }
}

impl Record for FontEntry {
    open spec fn record_check(b: Seq<u8>, p: int) -> Option<Error> {
        if !fits(b, p, 44) {
            Some(Error::Truncated)
        } else {
            or_else(str_err(str_ptr_at(b, p)),
            or_else(str_err(str_ptr_at(b, p + 4)), table_check::<Glyph>(b, p + 44)))
        }
    }

    open spec fn record_is(&self, b: Seq<u8>, p: int) -> bool {
        &&& str_is(self.code_name, b, p)
        &&& str_is(self.system_name, b, p + 4)
        &&& self.em_size == u32_at(b, p + 8) ^ 0x8000_0000
        &&& self.bold == (u32_at(b, p + 12) == 1)
        &&& self.italic == (u32_at(b, p + 16) == 1)
        &&& self.range_start == u16_at(b, p + 20)
        &&& self.charset == b[p + 22]
        &&& self.antialiasing == b[p + 23]
        &&& self.range_end == u32_at(b, p + 24)
        &&& self.tpag_addr == u32_at(b, p + 28)
        &&& self.scale_x == u32_at(b, p + 32)
        &&& self.scale_y == u32_at(b, p + 36)
        &&& self._unknown1 == i32_at(b, p + 40)
        &&& table_is(self.glyphs@, b, p + 44)
    }

    fn parse(buf: &mut ByteCursor) -> (r: Result<Self, Error>) {
        let p = buf.position();
        if !buf.can_read_exec(FONT_FIXED_SIZE) {
            return Err(Error::Truncated);
        }
        let code_name = get_string_ptr(buf, p)?;
        let system_name = get_string_ptr(buf, p + 4)?;
        buf.set_position(p + FONT_FIXED_SIZE);
        let glyphs = parse_table::<Glyph>(buf)?;
        Ok(FontEntry {
            code_name,
            system_name,
            em_size: buf.get_u32(p + 8) ^ SIGN_BIT,
            bold: buf.get_u32(p + 12) == 1,
            italic: buf.get_u32(p + 16) == 1,
            range_start: buf.get_u16(p + 20),
            charset: buf.get_u8(p + 22),
            antialiasing: buf.get_u8(p + 23),
            range_end: buf.get_u32(p + 24),
            tpag_addr: buf.get_u32(p + 28),
            scale_x: buf.get_u32(p + 32),
            scale_y: buf.get_u32(p + 36),
            _unknown1: buf.get_i32(p + 40),
            glyphs,
        })
    }
}

impl Record for Font {
    open spec fn record_check(b: Seq<u8>, p: int) -> Option<Error> {
        table_check::<FontEntry>(b, p)
    }

    open spec fn record_is(&self, b: Seq<u8>, p: int) -> bool {
        table_is(self.fonts@, b, p)
    }

    fn parse(buf: &mut ByteCursor) -> (r: Result<Self, Error>) {
        let fonts = parse_table::<FontEntry>(buf)?;
        Ok(Font { fonts })
    }
}

impl Chunk for Font {
    open spec fn tag() -> Seq<u8> {
        seq![70u8, 79, 78, 84]
    }

    fn get_id() -> (r: [u8; 4]) {
        let r = [70u8, 79, 78, 84];
        assert(r@ =~= seq![70u8, 79, 78, 84]);
        r
    }
}

} // verus!
