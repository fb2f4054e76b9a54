use vstd::prelude::*;

use super::{get_bytes, get_string_ptr, get_u32s, or_else, str_err, str_is, u32s_at, Chunk, Record};
use crate::cursor::{fits, i24_at, i32_at, str_ptr_at, u32_at, u64_at, ByteCursor};
use crate::error::Error;

verus! {

/// The metadata chunk: one record.
#[derive(Debug)]
pub struct Gen8 {
    pub debug: u8,
    pub _unknown1: i32,
    pub filename: String,
    pub config: String,
    pub last_obj: u32,
    pub last_tile: u32,
    pub game_id: u32,
    pub _unknown2: Vec<u32>,
    pub name: String,
    pub major: i32,
    pub minor: i32,
    pub release: i32,
    pub build: i32,
    pub default_window_width: i32,
    pub default_window_height: i32,
    pub info: u32,
    pub license_md5: Vec<u8>,
    pub license_crc32: u32,
    pub timestamp: u64,
    pub display_name: String,
    pub active_targets: u32,
    pub _unknown3: Vec<u32>,
    pub steam_app_id: u32,
    pub number_count: u32,
    pub numbers: Vec<u32>,
}

/// The size of the record's fixed part, up to its trailing number array.
pub const GEN8_FIXED_SIZE: u64 = 132;

impl Record for Gen8 {
    /// The fixed part must fit; then the four strings are read in order, and
    /// last the trailing numbers.
    open spec fn record_check(b: Seq<u8>, p: int) -> Option<Error> {
        if !fits(b, p, 132) {
            Some(Error::Truncated)
        } else {
            or_else(str_err(str_ptr_at(b, p + 4)),
            or_else(str_err(str_ptr_at(b, p + 8)),
            or_else(str_err(str_ptr_at(b, p + 40)),
            or_else(str_err(str_ptr_at(b, p + 100)),
            if fits(b, p + 132, 4 * u32_at(b, p + 128)) { None } else { Some(Error::Truncated) }))))
        }
    }

    open spec fn record_is(&self, b: Seq<u8>, p: int) -> bool {
        &&& self.debug == b[p]
        &&& self._unknown1 == i24_at(b, p + 1)
        &&& str_is(self.filename, b, p + 4)
        &&& str_is(self.config, b, p + 8)
        &&& self.last_obj == u32_at(b, p + 12)
        &&& self.last_tile == u32_at(b, p + 16)
        &&& self.game_id == u32_at(b, p + 20)
        &&& self._unknown2@ == u32s_at(b, p + 24, 4)
        &&& str_is(self.name, b, p + 40)
        &&& self.major == i32_at(b, p + 44)
        &&& self.minor == i32_at(b, p + 48)
        &&& self.release == i32_at(b, p + 52)
        &&& self.build == i32_at(b, p + 56)
        &&& self.default_window_width == i32_at(b, p + 60)
        &&& self.default_window_height == i32_at(b, p + 64)
        &&& self.info == u32_at(b, p + 68)
        &&& self.license_md5@ == b.subrange(p + 72, p + 88)
        &&& self.license_crc32 == u32_at(b, p + 88)
        &&& self.timestamp == u64_at(b, p + 92)
        &&& str_is(self.display_name, b, p + 100)
        &&& self.active_targets == u32_at(b, p + 104)
        &&& self._unknown3@ == u32s_at(b, p + 108, 4)
        &&& self.steam_app_id == u32_at(b, p + 124)
        &&& self.number_count == u32_at(b, p + 128)
        &&& self.numbers@ == u32s_at(b, p + 132, u32_at(b, p + 128) as nat)
    }

    fn parse(buf: &mut ByteCursor) -> (r: Result<Self, Error>) {
        if !buf.can_read_exec(GEN8_FIXED_SIZE) {
            return Err(Error::Truncated);
        }
        let p = buf.position();
        let filename = get_string_ptr(buf, p + 4)?;
        let config = get_string_ptr(buf, p + 8)?;
        let name = get_string_ptr(buf, p + 40)?;
        let display_name = get_string_ptr(buf, p + 100)?;
        let number_count = buf.get_u32(p + 128);
        buf.set_position(p + GEN8_FIXED_SIZE);
        if !buf.can_read_exec(4 * number_count as u64) {
            return Err(Error::Truncated);
        }
        let numbers = get_u32s(buf, p + GEN8_FIXED_SIZE, number_count as u64);
        let debug = buf.get_u8(p);
        let unknown1 = buf.get_i24(p + 1);
        let last_obj = buf.get_u32(p + 12);
        let last_tile = buf.get_u32(p + 16);
        let game_id = buf.get_u32(p + 20);
        let unknown2 = get_u32s(buf, p + 24, 4);
        let major = buf.get_i32(p + 44);
        let minor = buf.get_i32(p + 48);
        let release = buf.get_i32(p + 52);
        let build = buf.get_i32(p + 56);
        let default_window_width = buf.get_i32(p + 60);
        let default_window_height = buf.get_i32(p + 64);
        let info = buf.get_u32(p + 68);
        let license_md5 = get_bytes(buf, p + 72, 16);
        let license_crc32 = buf.get_u32(p + 88);
        let timestamp = buf.get_u64(p + 92);
        let active_targets = buf.get_u32(p + 104);
        let unknown3 = get_u32s(buf, p + 108, 4);
        let steam_app_id = buf.get_u32(p + 124);
        Ok(Gen8 {
            debug,
            _unknown1: unknown1,
            filename,
            config,
            last_obj,
            last_tile,
            game_id,
            _unknown2: unknown2,
            name,
            major,
            minor,
            release,
            build,
            default_window_width,
            default_window_height,
            info,
            license_md5,
            license_crc32,
            timestamp,
            display_name,
            active_targets,
            _unknown3: unknown3,
            steam_app_id,
            number_count,
            numbers,
        })
    }
}

impl Chunk for Gen8 {
    open spec fn tag() -> Seq<u8> {
        seq![71u8, 69, 78, 56]
    }

    fn get_id() -> (r: [u8; 4]) {
        let r = [71u8, 69, 78, 56];
        assert(r@ =~= seq![71u8, 69, 78, 56]);
        r
    }
}

} // verus!
