//! The archive: its bytes, its chunk directory, and one slot per decoded
//! chunk category.
use vstd::prelude::*;

use crate::chunk::{or_else, Audo, Bgnd, Chunk, Font, Gen8, Optn, Record, Sond, Sprt, Tpag, Txtr};
use crate::cursor::ByteCursor;
use crate::directory::{build_directory, dir_lookup, dir_view, directory_of, find_chunk, ChunkAddr};
use crate::error::Error;

verus! {

/// Where the raw-audio table starts in an audio-group file: after the root
/// tag and length and the raw-audio chunk's tag and length.
pub const AUDIOGROUP_TABLE_OFFSET: u64 = 16;

/// Stages the primary archive's bytes and the audio-group files' bytes.
pub fn prepare_bytes(bytes: Vec<u8>, audiogroup_bytes: Vec<Vec<u8>>) -> (r: Result<DataWinReady, Error>)
    ensures
        r matches Ok(d) && d.n_bytes == bytes@.len() && d.buf == bytes && d.audiogroup_bufs == audiogroup_bytes,
{
    let n_bytes = bytes.len();
    Ok(DataWinReady { n_bytes, buf: bytes, audiogroup_bufs: audiogroup_bytes })
}

/// An archive whose bytes are staged but whose directory is not built yet.
pub struct DataWinReady {
    pub n_bytes: usize,
    pub buf: Vec<u8>,
    pub audiogroup_bufs: Vec<Vec<u8>>,
}

impl DataWinReady {
    /// Builds the chunk directory; every chunk slot starts empty.
    pub fn fetch_chunks(self) -> (r: Result<DataWin, Error>)
        ensures
            match r {
                Ok(d) => {
                    &&& directory_of(self.buf@) == Ok::<Seq<(Seq<u8>, int)>, Error>(dir_view(d.chunk_addrs@))
                    &&& d.buf == self.buf
                    &&& d.audiogroup_bufs == self.audiogroup_bufs
                    &&& d.no_chunk_decoded()
                    &&& d.wf()
                },
                Err(e) => directory_of(self.buf@) == Err::<Seq<(Seq<u8>, int)>, Error>(e),
            },
    {
        let chunk_addrs = build_directory(self.buf.as_slice())?;
        Ok(DataWin {
            buf: self.buf,
            audiogroup_bufs: self.audiogroup_bufs,
            chunk_addrs,
            gen8: None,
            optn: None,
            sond: None,
            sprt: None,
            tpag: None,
            txtr: None,
            audo: None,
            font: None,
            bgnd: None,
        })
    }
}

/// An archive with its directory built. Each chunk category is decoded at
/// most once, on request, into its slot.
#[derive(Debug)]
pub struct DataWin {
    pub buf: Vec<u8>,
    pub audiogroup_bufs: Vec<Vec<u8>>,
    pub chunk_addrs: Vec<ChunkAddr>,
    pub gen8: Option<Gen8>,
    pub optn: Option<Optn>,
    pub sond: Option<Sond>,
    pub sprt: Option<Sprt>,
    pub tpag: Option<Tpag>,
    pub txtr: Option<Txtr>,
    /// The primary archive's raw-audio chunk, then one per audio-group file.
    pub audo: Option<Vec<Audo>>,
    pub font: Option<Font>,
    pub bgnd: Option<Bgnd>,
}

/// The first failure among the audio-group files `i..`.
pub open spec fn groups_check(gs: Seq<Vec<u8>>, i: int) -> Option<Error>
    decreases gs.len() - i,
{
    if i < 0 || i >= gs.len() {
        None
    } else {
        or_else(Audo::record_check(gs[i]@, AUDIOGROUP_TABLE_OFFSET as int), groups_check(gs, i + 1))
    }
}

/// `r` and `after` are what decoding the `T` chunk of `d` into an empty slot gives.
pub open spec fn slot_filled<T: Chunk>(d: DataWin, after: Option<T>, r: Result<(), Error>) -> bool {
    match d.chunk_addr(T::tag()) {
        None => r == Err::<(), Error>(Error::MissingChunk) && after is None,
        Some(a) => match r {
            Ok(_) => T::record_check(d.buf@, a) is None && (after matches Some(v) && v.record_is(d.buf@, a)),
            Err(e) => T::record_check(d.buf@, a) == Some(e) && after is None,
        },
    }
}

impl DataWin {
    /// The payload offset that the directory records for `tag`.
    pub open spec fn chunk_addr(&self, tag: Seq<u8>) -> Option<int> {
        dir_lookup(dir_view(self.chunk_addrs@), tag)
    }

    /// No chunk category is decoded yet.
    pub open spec fn no_chunk_decoded(&self) -> bool {
        &&& self.gen8 is None
        &&& self.optn is None
        &&& self.sond is None
        &&& self.sprt is None
        &&& self.tpag is None
        &&& self.txtr is None
        &&& self.audo is None
        &&& self.font is None
        &&& self.bgnd is None
    }

    /// Decodes the `T` chunk at the offset that the directory records for it.
    pub fn parse_chunk<T: Chunk>(&self) -> (r: Result<T, Error>)
        ensures
            match self.chunk_addr(T::tag()) {
                None => r is Err && r->Err_0 == Error::MissingChunk,
                Some(a) => match r {
                    Ok(v) => T::record_check(self.buf@, a) is None && v.record_is(self.buf@, a),
                    Err(e) => T::record_check(self.buf@, a) == Some(e),
                },
            },
    {
        let id = T::get_id();
        match find_chunk(&self.chunk_addrs, &id) {
            Some(addr) => {
                let mut buf = ByteCursor::new(self.buf.as_slice(), addr);
                T::parse(&mut buf)
            },
            None => Err(Error::MissingChunk),
        }
    }

    /// Decodes the Gen8 chunk into its slot, unless it is there already.
    pub fn parse_gen8(&mut self) -> (r: Result<(), Error>)
        ensures
            old(self).gen8 is Some ==> r is Ok && *final(self) == *old(self),
            old(self).gen8 is None ==> slot_filled::<Gen8>(*old(self), final(self).gen8, r),
            old(self).gen8 is None && old(self).chunk_addr(Gen8::tag()) is None ==> r == Err::<(), Error>(Error::MissingChunk)
                && *final(self) == *old(self),
            old(self).wf() ==> final(self).wf(),
            *final(self) == (DataWin { gen8: final(self).gen8, ..*old(self) }),
    {
        if self.gen8.is_none() {
            let c = self.parse_chunk::<Gen8>()?;
            self.gen8 = Some(c);
        }
        Ok(())
    }

    /// Decodes the Optn chunk into its slot, unless it is there already.
    pub fn parse_optn(&mut self) -> (r: Result<(), Error>)
        ensures
            old(self).optn is Some ==> r is Ok && *final(self) == *old(self),
            old(self).optn is None ==> slot_filled::<Optn>(*old(self), final(self).optn, r),
            old(self).optn is None && old(self).chunk_addr(Optn::tag()) is None ==> r == Err::<(), Error>(Error::MissingChunk)
                && *final(self) == *old(self),
            old(self).wf() ==> final(self).wf(),
            *final(self) == (DataWin { optn: final(self).optn, ..*old(self) }),
    {
        if self.optn.is_none() {
            let c = self.parse_chunk::<Optn>()?;
            self.optn = Some(c);
        }
        Ok(())
    }

    /// Decodes the Sond chunk into its slot, unless it is there already.
    pub fn parse_sond(&mut self) -> (r: Result<(), Error>)
        ensures
            old(self).sond is Some ==> r is Ok && *final(self) == *old(self),
            old(self).sond is None ==> slot_filled::<Sond>(*old(self), final(self).sond, r),
            old(self).sond is None && old(self).chunk_addr(Sond::tag()) is None ==> r == Err::<(), Error>(Error::MissingChunk)
                && *final(self) == *old(self),
            old(self).wf() ==> final(self).wf(),
            *final(self) == (DataWin { sond: final(self).sond, ..*old(self) }),
    {
        if self.sond.is_none() {
            let c = self.parse_chunk::<Sond>()?;
            self.sond = Some(c);
        }
        Ok(())
    }

    /// Decodes the Sprt chunk into its slot, unless it is there already.
    pub fn parse_sprt(&mut self) -> (r: Result<(), Error>)
        ensures
            old(self).sprt is Some ==> r is Ok && *final(self) == *old(self),
            old(self).sprt is None ==> slot_filled::<Sprt>(*old(self), final(self).sprt, r),
            old(self).sprt is None && old(self).chunk_addr(Sprt::tag()) is None ==> r == Err::<(), Error>(Error::MissingChunk)
                && *final(self) == *old(self),
            old(self).wf() ==> final(self).wf(),
            *final(self) == (DataWin { sprt: final(self).sprt, ..*old(self) }),
    {
        if self.sprt.is_none() {
            let c = self.parse_chunk::<Sprt>()?;
            self.sprt = Some(c);
        }
        Ok(())
    }

    /// Decodes the Tpag chunk into its slot, unless it is there already.
    pub fn parse_tpag(&mut self) -> (r: Result<(), Error>)
        ensures
            old(self).tpag is Some ==> r is Ok && *final(self) == *old(self),
            old(self).tpag is None ==> slot_filled::<Tpag>(*old(self), final(self).tpag, r),
            old(self).tpag is None && old(self).chunk_addr(Tpag::tag()) is None ==> r == Err::<(), Error>(Error::MissingChunk)
                && *final(self) == *old(self),
            old(self).wf() ==> final(self).wf(),
            *final(self) == (DataWin { tpag: final(self).tpag, ..*old(self) }),
    {
        if self.tpag.is_none() {
            let c = self.parse_chunk::<Tpag>()?;
            self.tpag = Some(c);
        }
        Ok(())
    }

    /// Decodes the Txtr chunk into its slot, unless it is there already.
    pub fn parse_txtr(&mut self) -> (r: Result<(), Error>)
        ensures
            old(self).txtr is Some ==> r is Ok && *final(self) == *old(self),
            old(self).txtr is None ==> slot_filled::<Txtr>(*old(self), final(self).txtr, r),
            old(self).txtr is None && old(self).chunk_addr(Txtr::tag()) is None ==> r == Err::<(), Error>(Error::MissingChunk)
                && *final(self) == *old(self),
            old(self).wf() ==> final(self).wf(),
            *final(self) == (DataWin { txtr: final(self).txtr, ..*old(self) }),
    {
        if self.txtr.is_none() {
            let c = self.parse_chunk::<Txtr>()?;
            self.txtr = Some(c);
        }
        Ok(())
    }

    /// Decodes the Bgnd chunk into its slot, unless it is there already.
    pub fn parse_bgnd(&mut self) -> (r: Result<(), Error>)
        ensures
            old(self).bgnd is Some ==> r is Ok && *final(self) == *old(self),
            old(self).bgnd is None ==> slot_filled::<Bgnd>(*old(self), final(self).bgnd, r),
            old(self).bgnd is None && old(self).chunk_addr(Bgnd::tag()) is None ==> r == Err::<(), Error>(Error::MissingChunk)
                && *final(self) == *old(self),
            old(self).wf() ==> final(self).wf(),
            *final(self) == (DataWin { bgnd: final(self).bgnd, ..*old(self) }),
    {
        if self.bgnd.is_none() {
            let c = self.parse_chunk::<Bgnd>()?;
            self.bgnd = Some(c);
        }
        Ok(())
    }

    /// Decodes the Font chunk into its slot, unless it is there already.
    pub fn parse_font(&mut self) -> (r: Result<(), Error>)
        ensures
            old(self).font is Some ==> r is Ok && *final(self) == *old(self),
            old(self).font is None ==> slot_filled::<Font>(*old(self), final(self).font, r),
            old(self).font is None && old(self).chunk_addr(Font::tag()) is None ==> r == Err::<(), Error>(Error::MissingChunk)
                && *final(self) == *old(self),
            old(self).wf() ==> final(self).wf(),
            *final(self) == (DataWin { font: final(self).font, ..*old(self) }),
    {
        if self.font.is_none() {
            let c = self.parse_chunk::<Font>()?;
            self.font = Some(c);
        }
        Ok(())
    }

    /// Decodes the raw-audio chunk of the primary archive and of every
    /// audio-group file, in that order, unless they are there already.
    pub fn parse_audo(&mut self) -> (r: Result<(), Error>)
        ensures
            old(self).audo is Some ==> r is Ok && *final(self) == *old(self),
            old(self).audo is None ==> match old(self).chunk_addr(Audo::tag()) {
                None => r == Err::<(), Error>(Error::MissingChunk) && final(self).audo is None,
                Some(a) => match r {
                    Ok(_) => {
                        &&& Audo::record_check(old(self).buf@, a) is None
                        &&& groups_check(old(self).audiogroup_bufs@, 0) is None
                        &&& final(self).audo matches Some(v)
                        &&& v@.len() == old(self).audiogroup_bufs@.len() + 1
                        &&& v@[0].record_is(old(self).buf@, a)
                        &&& forall|i: int| 0 <= i < old(self).audiogroup_bufs@.len()
                            ==> #[trigger] v@[i + 1].record_is(old(self).audiogroup_bufs@[i]@, AUDIOGROUP_TABLE_OFFSET as int)
                    },
                    Err(e) => or_else(Audo::record_check(old(self).buf@, a), groups_check(old(self).audiogroup_bufs@, 0))
                        == Some(e) && final(self).audo is None,
                },
            },
            old(self).wf() ==> final(self).wf(),
            *final(self) == (DataWin { audo: final(self).audo, ..*old(self) }),
    {
        if self.audo.is_none() {
            let first = self.parse_chunk::<Audo>()?;
            let mut audo_v: Vec<Audo> = Vec::new();
            audo_v.push(first);
            let mut i: usize = 0;
            while i < self.audiogroup_bufs.len()
                invariant
                    *self == *old(self),
                    self.audo is None,
                    i <= self.audiogroup_bufs@.len(),
                    audo_v@.len() == i + 1,
                    self.chunk_addr(Audo::tag()) matches Some(a) && audo_v@[0].record_is(self.buf@, a)
                        && Audo::record_check(self.buf@, a) is None,
                    forall|j: int| 0 <= j < i
                        ==> #[trigger] audo_v@[j + 1].record_is(self.audiogroup_bufs@[j]@, AUDIOGROUP_TABLE_OFFSET as int),
                    groups_check(self.audiogroup_bufs@, 0) == groups_check(self.audiogroup_bufs@, i as int),
                decreases self.audiogroup_bufs@.len() - i,
            {
                let mut buf = ByteCursor::new(self.audiogroup_bufs[i].as_slice(), AUDIOGROUP_TABLE_OFFSET);
                let a = Audo::parse(&mut buf)?;
                audo_v.push(a);
                i = i + 1;
            }
            self.audo = Some(audo_v);
        }
        Ok(())
    }
}

} // verus!
