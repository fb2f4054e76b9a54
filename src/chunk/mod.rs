//! Decoders for the chunk categories, and the string reads they share.
use vstd::prelude::*;

use crate::cursor::{cstr_at, first_nul, fits, i32_at, u32_at, lemma_first_nul_unique, str_at, str_ptr_at, string_result, utf8_string, ByteCursor};
use crate::error::Error;

verus! {

/// A record of the format, decoded at the cursor's position.
pub trait Record: Sized {
    /// `None` when the record at `p` decodes, else the failure it meets first.
    spec fn record_check(b: Seq<u8>, p: int) -> Option<Error>;

    /// `self` holds the values of the record at `p`.
    spec fn record_is(&self, b: Seq<u8>, p: int) -> bool;

    fn parse(buf: &mut ByteCursor) -> (r: Result<Self, Error>)
        ensures
            final(buf).bytes == old(buf).bytes,
            match r {
                Ok(v) => Self::record_check(old(buf).bytes@, old(buf).pos as int) is None
                    && v.record_is(old(buf).bytes@, old(buf).pos as int),
                Err(e) => Self::record_check(old(buf).bytes@, old(buf).pos as int) == Some(e),
            },
    ;
}

/// A chunk category with a directory tag of its own.
pub trait Chunk: Record {
    spec fn tag() -> Seq<u8>;

    /// The chunk's 4-byte tag.
    fn get_id() -> (r: [u8; 4])
        ensures
            r@ == Self::tag(),
    ;
}

/// The first failure of two steps taken in turn.
pub open spec fn or_else(first: Option<Error>, then: Option<Error>) -> Option<Error> {
    if first is Some {
        first
    } else {
        then
    }
}

/// The failure, if any, of a string read.
pub open spec fn str_err(s: Result<Seq<char>, Error>) -> Option<Error> {
    match s {
        Ok(_) => None,
        Err(e) => Some(e),
    }
}

/// `s` holds the string that the pointer at `p` designates.
pub open spec fn str_is(s: String, b: Seq<u8>, p: int) -> bool {
    str_ptr_at(b, p) == Ok::<Seq<char>, Error>(s@)
}

/// `n` consecutive 32-bit words from `p`.
pub open spec fn u32s_at(b: Seq<u8>, p: int, n: nat) -> Seq<u32> {
    Seq::new(n, |i: int| u32_at(b, p + 4 * i))
}

/// The number of entries of the address table at `p`; a negative count is an empty table.
pub open spec fn table_count(b: Seq<u8>, p: int) -> int {
    if i32_at(b, p) < 0 {
        0
    } else {
        i32_at(b, p) as int
    }
}

/// The `i`-th offset of the address table at `p`.
pub open spec fn table_addr(b: Seq<u8>, p: int, i: int) -> i32 {
    i32_at(b, p + 4 + 4 * i)
}

/// All offsets of the address table at `p`.
pub open spec fn table_addrs(b: Seq<u8>, p: int) -> Seq<i32> {
    Seq::new(table_count(b, p) as nat, |i: int| table_addr(b, p, i))
}

/// The count and the offsets of the address table at `p` can be read.
pub open spec fn table_fits(b: Seq<u8>, p: int) -> bool {
    fits(b, p, 4) && fits(b, p + 4, 4 * table_count(b, p))
}

pub open spec fn table_entry_check<T: Record>(b: Seq<u8>, p: int, i: int) -> Option<Error> {
    if table_addr(b, p, i) < 0 {
        Some(Error::Truncated)
    } else {
        T::record_check(b, table_addr(b, p, i) as int)
    }
}

/// The first failure among the entries `i..` of the address table at `p`.
pub open spec fn table_entries_check<T: Record>(b: Seq<u8>, p: int, i: int) -> Option<Error>
    decreases table_count(b, p) - i,
{
    if i < 0 || i >= table_count(b, p) {
        None
    } else {
        or_else(table_entry_check::<T>(b, p, i), table_entries_check::<T>(b, p, i + 1))
    }
}

/// `None` when the count, the offsets and every record of the table at `p`
/// can be read, else the first failure.
pub open spec fn table_check<T: Record>(b: Seq<u8>, p: int) -> Option<Error> {
    if !fits(b, p, 4) || !fits(b, p + 4, 4 * table_count(b, p)) {
        Some(Error::Truncated)
    } else {
        table_entries_check::<T>(b, p, 0)
    }
}

/// `v` holds, in table order, the records of the address table at `p`.
pub open spec fn table_is<T: Record>(v: Seq<T>, b: Seq<u8>, p: int) -> bool {
    &&& v.len() == table_count(b, p)
    &&& forall|i: int| 0 <= i < v.len() ==> (#[trigger] v[i]).record_is(b, table_addr(b, p, i) as int)
}

/// `r` is what decoding the address table of `T` records at `p` gives.
pub open spec fn table_decoded<T: Record>(r: Result<Vec<T>, Error>, b: Seq<u8>, p: int) -> bool {
    match r {
        Ok(v) => table_check::<T>(b, p) is None && table_is(v@, b, p),
        Err(e) => table_check::<T>(b, p) == Some(e),
    }
}

/// The `n` consecutive 32-bit words at absolute offset `at`.
pub fn get_u32s(buf: &ByteCursor, at: u64, n: u64) -> (r: Vec<u32>)
    requires
        buf.can_read_at(at, 4 * n),
    ensures
        r@ == u32s_at(buf.bytes@, at as int, n as nat),
{
    let len = buf.len();
    let mut v: Vec<u32> = Vec::new();
    let mut i: u64 = 0;
    while i < n
        invariant
            i <= n,
            len == buf.bytes@.len(),
            buf.can_read_at(at, 4 * n),
            v@ == u32s_at(buf.bytes@, at as int, i as nat),
        decreases n - i,
    {
        v.push(buf.get_u32(at + 4 * i));
        i = i + 1;
        assert(v@ =~= u32s_at(buf.bytes@, at as int, i as nat));
    }
    v
}

/// The `n` bytes at absolute offset `at`.
pub fn get_bytes(buf: &ByteCursor, at: u64, n: u64) -> (r: Vec<u8>)
    requires
        buf.can_read_at(at, n as int),
    ensures
        r@ == buf.bytes@.subrange(at as int, at + n),
{
    let len = buf.len();
    let mut v: Vec<u8> = Vec::new();
    let mut i: u64 = 0;
    while i < n
        invariant
            i <= n,
            len == buf.bytes@.len(),
            buf.can_read_at(at, n as int),
            v@ == buf.bytes@.subrange(at as int, at + i),
        decreases n - i,
    {
        v.push(buf.get_u8(at + i));
        i = i + 1;
        assert(v@ =~= buf.bytes@.subrange(at as int, at + i));
    }
    v
}

/// The string that the 4-byte pointer at absolute offset `at` designates;
/// the cursor is left as it was.
pub fn get_string_ptr(buf: &mut ByteCursor, at: u64) -> (r: Result<String, Error>)
    requires
        old(buf).can_read_at(at, 4),
    ensures
        *final(buf) == *old(buf),
        string_result(r, str_ptr_at(old(buf).bytes@, at as int)),
{
    let ptr = buf.get_i32(at);
    if ptr < 0 {
        return Err(Error::Truncated);
    }
    read_string_at(ptr as u64, buf)
}

/// Reads the count and the offsets of an address table.
pub fn read_addrs(buf: &mut ByteCursor) -> (r: Result<Vec<i32>, Error>)
    ensures
        final(buf).bytes == old(buf).bytes,
        ({
            let b = old(buf).bytes@;
            let p = old(buf).pos as int;
            if table_fits(b, p) {
                (r matches Ok(v) && v@ == table_addrs(b, p))
            } else {
                r == Err::<Vec<i32>, Error>(Error::Truncated)
            }
        }),
{
    let ghost b = buf.bytes@;
    let ghost p = buf.pos as int;
    let count = buf.read_i32()?;
    let n: u64 = if count < 0 { 0 } else { count as u64 };
    if !buf.can_read_exec(4 * n) {
        return Err(Error::Truncated);
    }
    let mut v: Vec<i32> = Vec::new();
    let mut i: u64 = 0;
    while i < n
        invariant
            i <= n,
            n == table_count(b, p),
            buf.bytes == old(buf).bytes,
            b == old(buf).bytes@,
            p == old(buf).pos as int,
            fits(b, p + 4, 4 * n),
            buf.pos == p + 4 + 4 * i,
            v@.len() == i,
            forall|j: int| 0 <= j < i ==> v@[j] == table_addr(b, p, j),
        decreases n - i,
    {
        let x = buf.read_i32().unwrap();
        v.push(x);
        i = i + 1;
    }
    assert(v@ =~= table_addrs(b, p));
    Ok(v)
}

/// Decodes an address table: a count, that many absolute offsets, and one
/// record at each offset, kept in table order.
pub fn parse_table<T: Record>(buf: &mut ByteCursor) -> (r: Result<Vec<T>, Error>)
    ensures
        final(buf).bytes == old(buf).bytes,
        table_decoded(r, old(buf).bytes@, old(buf).pos as int),
{
    let ghost b = buf.bytes@;
    let ghost p = buf.pos as int;
    let addrs = read_addrs(buf)?;
    let mut items: Vec<T> = Vec::new();
    let mut i: usize = 0;
    while i < addrs.len()
        invariant
            i <= addrs@.len(),
            addrs@ == table_addrs(b, p),
            fits(b, p, 4) && fits(b, p + 4, 4 * table_count(b, p)),
            buf.bytes == old(buf).bytes,
            b == old(buf).bytes@,
            p == old(buf).pos as int,
            items@.len() == i,
            forall|j: int| 0 <= j < i ==> (#[trigger] items@[j]).record_is(b, table_addr(b, p, j) as int),
            table_entries_check::<T>(b, p, 0) == table_entries_check::<T>(b, p, i as int),
        decreases addrs@.len() - i,
    {
        let addr = addrs[i];
        assert(table_entries_check::<T>(b, p, i as int) == or_else(
            table_entry_check::<T>(b, p, i as int),
            table_entries_check::<T>(b, p, i + 1),
        ));
        if addr < 0 {
            return Err(Error::Truncated);
        }
        buf.set_position(addr as u64);
        let item = T::parse(buf)?;
        items.push(item);
        i = i + 1;
    }
    Ok(items)
}

/// Reads the null-terminated string at the cursor's position and moves past
/// its terminator. On failure the cursor stays where it was.
pub fn read_string_raw(buf: &mut ByteCursor) -> (r: Result<String, Error>)
    ensures
        final(buf).bytes == old(buf).bytes,
        string_result(r, cstr_at(old(buf).bytes@, old(buf).pos as int)),
        r is Ok ==> first_nul(old(buf).bytes@, old(buf).pos as int, final(buf).pos - 1),
        r is Err ==> final(buf).pos == old(buf).pos,
{
    let ghost b = buf.bytes@;
    let ghost p = buf.pos as int;
    let len = buf.len();
    if buf.pos >= len as u64 {
        assert(!exists|k: int| first_nul(b, p, k));
        return Err(Error::Truncated);
    }
    let start = buf.pos as usize;
    let mut i: usize = start;
    let mut build: Vec<u8> = Vec::new();
    while i < len && buf.bytes[i] != 0
        invariant
            start <= i <= len,
            len == b.len(),
            buf.bytes == old(buf).bytes,
            b == old(buf).bytes@,
            p == old(buf).pos as int,
            p == start,
            build@ == b.subrange(p, i as int),
            forall|j: int| p <= j < i ==> b[j] != 0,
        decreases len - i,
    {
        build.push(buf.bytes[i]);
        i = i + 1;
        assert(build@ =~= b.subrange(p, i as int));
    }
    if i == len {
        assert(!exists|k: int| first_nul(b, p, k)) by {
            if exists|k: int| first_nul(b, p, k) {
                let k = choose|k: int| first_nul(b, p, k);
                assert(b[k] != 0);
            }
        }
        return Err(Error::Truncated);
    }
    assert(first_nul(b, p, i as int));
    proof {
        let k = choose|k: int| first_nul(b, p, k);
        lemma_first_nul_unique(b, p, k, i as int);
    }
    match utf8_string(build) {
        Some(s) => {
            buf.pos = i as u64 + 1;
            Ok(s)
        },
        None => Err(Error::Encoding),
    }
}

/// Reads the string at absolute offset `pos` and restores the cursor's
/// position, whatever the outcome. Offset 0 is the empty string, read
/// without touching the buffer.
pub fn read_string_at(pos: u64, buf: &mut ByteCursor) -> (r: Result<String, Error>)
    ensures
        *final(buf) == *old(buf),
        string_result(r, str_at(old(buf).bytes@, pos as int)),
        pos == 0 ==> (r matches Ok(s) && s@.len() == 0),
{
    if pos == 0 {
        return Ok(String::new());
    }
    let pos_before = buf.position();
    buf.set_position(pos);
    let s = read_string_raw(buf);
    buf.set_position(pos_before);
    s
}

/// Reads a 4-byte pointer at the cursor and the string it designates; the
/// cursor ends just past the pointer.
pub fn read_string_ptr(buf: &mut ByteCursor) -> (r: Result<String, Error>)
    ensures
        final(buf).bytes == old(buf).bytes,
        old(buf).can_read(4) ==> string_result(r, str_ptr_at(old(buf).bytes@, old(buf).pos as int))
            && final(buf).pos == old(buf).pos + 4,
        !old(buf).can_read(4) ==> r == Err::<String, Error>(Error::Truncated)
            && final(buf).pos == old(buf).pos,
{
    let ptr = buf.read_i32()?;
    if ptr < 0 {
        return Err(Error::Truncated);
    }
    read_string_at(ptr as u64, buf)
}

} // verus!

mod tpag;
pub use tpag::{Tpag, TextureEntry, TEXTURE_ENTRY_SIZE};
mod txtr;
pub use txtr::{PNGState, SpritesheetEntry, Txtr};
mod audo;
pub use audo::{blob_at, Audo};
mod gen8;
pub use gen8::{Gen8, GEN8_FIXED_SIZE};
mod optn;
pub use optn::{Optn, OPTN_FIXED_SIZE};
mod sond;
pub use sond::{AudioType, Sond, SoundEntry, SOUND_ENTRY_SIZE};
mod sprt;
pub use sprt::{SpriteEntry, SpriteState, Sprt, SPRITE_FIXED_SIZE};
mod font;
pub use font::{Font, FontEntry, Glyph, FONT_FIXED_SIZE, GLYPH_SIZE, SIGN_BIT};
mod bgnd;
pub use bgnd::{tile_id_count, BackgroundEntry, BackgroundState, Bgnd, BACKGROUND_FIXED_SIZE};
