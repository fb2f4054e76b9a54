//! The chunk directory: which chunk tags the container holds, and where
//! each one's payload starts.
use vstd::prelude::*;

use crate::cursor::{fits, i32_at, ByteCursor};
use crate::error::Error;

verus! {

/// One directory entry: a chunk's tag and the offset of its payload.
pub type ChunkAddr = ([u8; 4], u64);

/// The directory as tag bytes and offsets.
pub open spec fn dir_view(d: Seq<ChunkAddr>) -> Seq<(Seq<u8>, int)> {
    d.map_values(|e: ChunkAddr| (e.0@, e.1 as int))
}

/// The root tag, ASCII `FORM`.
pub open spec fn root_tag() -> Seq<u8> {
    seq![70u8, 79, 82, 77]
}

/// The chunks from `p` to the end of `b`, appended to `acc`: each is a tag,
/// a signed 32-bit payload length and the payload, which is skipped.
pub open spec fn scan_chunks(b: Seq<u8>, p: int, acc: Seq<(Seq<u8>, int)>) -> Result<Seq<(Seq<u8>, int)>, Error>
    decreases b.len() - p,
{
    if p < 0 || p >= b.len() {
        Ok(acc)
    } else if !fits(b, p, 8) || i32_at(b, p + 4) < 0 {
        Err(Error::Truncated)
    } else if p + 8 + i32_at(b, p + 4) >= b.len() {
        Ok(acc.push((b.subrange(p, p + 4), p + 8)))
    } else {
        scan_chunks(b, p + 8 + i32_at(b, p + 4), acc.push((b.subrange(p, p + 4), p + 8)))
    }
}

/// The directory of a container: the root tag and its length, then the
/// sibling chunks up to the end of the input.
pub open spec fn directory_of(b: Seq<u8>) -> Result<Seq<(Seq<u8>, int)>, Error> {
    if !fits(b, 0, 8) {
        Err(Error::Truncated)
    } else if b.subrange(0, 4) != root_tag() {
        Err(Error::FormatError)
    } else {
        scan_chunks(b, 8, Seq::empty())
    }
}

/// The payload offset recorded for `tag`; a later entry for the same tag
/// replaces an earlier one.
pub open spec fn dir_lookup(d: Seq<(Seq<u8>, int)>, tag: Seq<u8>) -> Option<int>
    decreases d.len(),
{
    if d.len() == 0 {
        None
    } else if d.last().0 == tag {
        Some(d.last().1)
    } else {
        dir_lookup(d.drop_last(), tag)
    }
}

fn tag_eq(a: &[u8; 4], b: &[u8; 4]) -> (r: bool)
    ensures
        r == (a@ == b@),
{
    let r = a[0] == b[0] && a[1] == b[1] && a[2] == b[2] && a[3] == b[3];
    proof {
        if r {
            assert(a@ =~= b@);
        }
    }
    r
}

/// Looks up the payload offset of `tag`.
pub fn find_chunk(d: &Vec<ChunkAddr>, tag: &[u8; 4]) -> (r: Option<u64>)
    ensures
        r matches Some(a) ==> dir_lookup(dir_view(d@), tag@) == Some(a as int),
        r is None ==> dir_lookup(dir_view(d@), tag@) is None,
{
    let mut i: usize = d.len();
    assert(d@.take(i as int) =~= d@);
    while i > 0
        invariant
            i <= d@.len(),
            dir_lookup(dir_view(d@), tag@) == dir_lookup(dir_view(d@.take(i as int)), tag@),
        decreases i,
    {
        assert(dir_view(d@.take(i as int)).drop_last() =~= dir_view(d@.take(i - 1)));
        if tag_eq(&d[i - 1].0, tag) {
            return Some(d[i - 1].1);
        }
        i = i - 1;
    }
    None
}

/// Builds the directory of the container in `bytes`, without decoding any
/// payload.
pub fn build_directory(bytes: &[u8]) -> (r: Result<Vec<ChunkAddr>, Error>)
    ensures
        match r {
            Ok(d) => directory_of(bytes@) == Ok::<Seq<(Seq<u8>, int)>, Error>(dir_view(d@)),
            Err(e) => directory_of(bytes@) == Err::<Seq<(Seq<u8>, int)>, Error>(e),
        },
{
    let ghost b = bytes@;
    let buf = ByteCursor::new(bytes, 0);
    let len = buf.len() as u64;
    if !buf.can_read_exec(8) {
        return Err(Error::Truncated);
    }
    let root = [buf.get_u8(0), buf.get_u8(1), buf.get_u8(2), buf.get_u8(3)];
    let form = [70u8, 79, 82, 77];
    assert(root@ =~= b.subrange(0, 4));
    assert(form@ =~= root_tag());
    if !tag_eq(&root, &form) {
        return Err(Error::FormatError);
    }
    let mut d: Vec<ChunkAddr> = Vec::new();
    let mut p: u64 = 8;
    assert(dir_view(d@) =~= Seq::empty());
    while p < len
        invariant
            bytes@ == b,
            len == b.len(),
            len <= usize::MAX,
            8 <= p,
            directory_of(b) == scan_chunks(b, p as int, dir_view(d@)),
        decreases len - p,
    {
        let cur = ByteCursor::new(bytes, p);
        if !cur.can_read_exec(8) {
            return Err(Error::Truncated);
        }
        let chunk_len = cur.get_i32(p + 4);
        if chunk_len < 0 {
            return Err(Error::Truncated);
        }
        let tag = [cur.get_u8(p), cur.get_u8(p + 1), cur.get_u8(p + 2), cur.get_u8(p + 3)];
        assert(tag@ =~= b.subrange(p as int, p + 4));
        let ghost before = d@;
        d.push((tag, p + 8));
        assert(dir_view(d@) =~= dir_view(before).push((b.subrange(p as int, p + 4), p + 8)));
        if chunk_len as u64 >= len - p - 8 {
            p = len;
        } else {
            p = p + 8 + chunk_len as u64;
        }
    }
    Ok(d)
}

} // verus!
