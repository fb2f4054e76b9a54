use vstd::prelude::*;

use super::{get_string_ptr, or_else, parse_table, str_err, str_is, table_check, table_is, Chunk, Record};
use crate::cursor::{fits, i32_at, str_ptr_at, u32_at, ByteCursor};
use crate::error::Error;

verus! {

/// The sound-index chunk: every sound, in table order.
#[derive(Debug)]
pub struct Sond {
    pub sounds: Vec<SoundEntry>,
}

/// One sound. Its audio bytes are fetched only when it is resolved.
#[derive(Debug)]
pub struct SoundEntry {
    pub name: String,
    pub flags: u32,
    pub type_: String,
    pub file: String,
    pub _unknown1: u32,
    /// IEEE-754 single-precision bits.
    pub volume: u32,
    /// IEEE-754 single-precision bits.
    pub pitch: u32,
    pub group_id: i32,
    pub audio_id: i32,
    pub audio_data: Option<AudioType>,
}

/// Where a resolved sound's bytes are.
#[derive(Debug)]
pub enum AudioType {
    /// A copy of the blob from a raw-audio chunk.
    Internal(Vec<u8>),
    /// The bytes stay in the file that the entry names.
    External,
}

/// The size of a sound record.
pub const SOUND_ENTRY_SIZE: u64 = 36;

impl Record for SoundEntry {
    open spec fn record_check(b: Seq<u8>, p: int) -> Option<Error> {
        if !fits(b, p, 36) {
            Some(Error::Truncated)
        } else {
            or_else(str_err(str_ptr_at(b, p)),
            or_else(str_err(str_ptr_at(b, p + 8)), str_err(str_ptr_at(b, p + 12))))
        }
    }

    open spec fn record_is(&self, b: Seq<u8>, p: int) -> bool {
        &&& str_is(self.name, b, p)
        &&& self.flags == u32_at(b, p + 4)
        &&& str_is(self.type_, b, p + 8)
        &&& str_is(self.file, b, p + 12)
        &&& self._unknown1 == u32_at(b, p + 16)
        &&& self.volume == u32_at(b, p + 20)
        &&& self.pitch == u32_at(b, p + 24)
        &&& self.group_id == i32_at(b, p + 28)
        &&& self.audio_id == i32_at(b, p + 32)
        &&& self.audio_data is None
    }

    fn parse(buf: &mut ByteCursor) -> (r: Result<Self, Error>) {
        let p = buf.position();
        if !buf.can_read_exec(SOUND_ENTRY_SIZE) {
            return Err(Error::Truncated);
        }
        let name = get_string_ptr(buf, p)?;
        let type_ = get_string_ptr(buf, p + 8)?;
        let file = get_string_ptr(buf, p + 12)?;
        Ok(SoundEntry {
            name,
            flags: buf.get_u32(p + 4),
            type_,
            file,
            _unknown1: buf.get_u32(p + 16),
            volume: buf.get_u32(p + 20),
            pitch: buf.get_u32(p + 24),
            group_id: buf.get_i32(p + 28),
            audio_id: buf.get_i32(p + 32),
            audio_data: None,
        })
    }
}

impl Record for Sond {
    open spec fn record_check(b: Seq<u8>, p: int) -> Option<Error> {
        table_check::<SoundEntry>(b, p)
    }

    open spec fn record_is(&self, b: Seq<u8>, p: int) -> bool {
        table_is(self.sounds@, b, p)
    }

    fn parse(buf: &mut ByteCursor) -> (r: Result<Self, Error>) {
        let sounds = parse_table::<SoundEntry>(buf)?;
        Ok(Sond { sounds })
    }
}

impl Chunk for Sond {
    open spec fn tag() -> Seq<u8> {
        seq![83u8, 79, 78, 68]
    }

    fn get_id() -> (r: [u8; 4]) {
        let r = [83u8, 79, 78, 68];
        assert(r@ =~= seq![83u8, 79, 78, 68]);
        r
    }
}

} // verus!
