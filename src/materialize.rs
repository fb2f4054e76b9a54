//! Materialisation: decoding atlas pages, cropping frames out of them, and
//! resolving sounds to their audio bytes.
use vstd::prelude::*;

use vstd::slice::slice_subrange;

use crate::archive::DataWin;
use crate::chunk::{
    or_else, AudioType, Audo, BackgroundEntry, BackgroundState, FontEntry, Glyph, PNGState, Record, SoundEntry,
    SpriteEntry, SpriteState, SpritesheetEntry, TextureEntry,
};
use crate::cursor::{fits, u16_at, ByteCursor};
use crate::error::Error;
use crate::raster::{decode_image, decoded_rgba, raster_of, Raster};

verus! {

/// Every decoded page holds as many pixels as its size says.
pub open spec fn pages_wf(pages: Seq<SpritesheetEntry>) -> bool {
    forall|i: int| 0 <= i < pages.len() ==> ((#[trigger] pages[i]).png matches PNGState::Loaded { texture } ==> texture.wf())
}

/// The page index of the geometry record at `addr`.
pub open spec fn geometry_page(b: Seq<u8>, addr: int) -> int {
    u16_at(b, addr + 20) as int
}

/// `None` when the geometry record at `addr` can be read and its page is
/// decoded, else the failure.
pub open spec fn geometry_check(b: Seq<u8>, pages: Seq<SpritesheetEntry>, addr: int) -> Option<Error> {
    if !fits(b, addr, 22) {
        Some(Error::Truncated)
    } else if geometry_page(b, addr) >= pages.len() {
        Some(Error::IndexOutOfRange)
    } else if pages[geometry_page(b, addr)].png is Unloaded {
        Some(Error::NotLoaded)
    } else {
        None
    }
}

/// `r` is the rectangle of its page that the geometry record at `addr` selects.
pub open spec fn geometry_frame(b: Seq<u8>, pages: Seq<SpritesheetEntry>, addr: int, r: Raster) -> bool {
    pages[geometry_page(b, addr)].png matches PNGState::Loaded { texture } && texture.is_crop(
        u16_at(b, addr) as u32,
        u16_at(b, addr + 2) as u32,
        u16_at(b, addr + 4) as u32,
        u16_at(b, addr + 6) as u32,
        r,
    )
}

/// Crops the frame that the geometry record at `addr` selects out of its page.
pub fn resolve_geometry(bytes: &[u8], pages: &Vec<SpritesheetEntry>, addr: u64) -> (r: Result<Raster, Error>)
    requires
        pages_wf(pages@),
    ensures
        match r {
            Ok(f) => geometry_check(bytes@, pages@, addr as int) is None && geometry_frame(bytes@, pages@, addr as int, f),
            Err(e) => geometry_check(bytes@, pages@, addr as int) == Some(e),
        },
{
    let mut buf = ByteCursor::new(bytes, addr);
    let tex = TextureEntry::parse(&mut buf)?;
    let id = tex.spritesheet_id as usize;
    if id >= pages.len() {
        return Err(Error::IndexOutOfRange);
    }
    match &pages[id].png {
        PNGState::Loaded { texture } => {
            assert(pages@[id as int].png matches PNGState::Loaded { texture });
            Ok(texture.crop(tex.x as u32, tex.y as u32, tex.width as u32, tex.height as u32))
        },
        PNGState::Unloaded { .. } => Err(Error::NotLoaded),
    }
}

/// The failure, if any, of one frame pointer; 0 means no pixel data and is skipped.
pub open spec fn frame_check(b: Seq<u8>, pages: Seq<SpritesheetEntry>, a: i32) -> Option<Error> {
    if a == 0 {
        None
    } else if a < 0 {
        Some(Error::Truncated)
    } else {
        geometry_check(b, pages, a as int)
    }
}

/// The first failure among the frame pointers `i..` of `s`.
pub open spec fn frames_check(b: Seq<u8>, pages: Seq<SpritesheetEntry>, s: Seq<i32>, i: int) -> Option<Error>
    decreases s.len() - i,
{
    if i < 0 || i >= s.len() {
        None
    } else {
        or_else(frame_check(b, pages, s[i]), frames_check(b, pages, s, i + 1))
    }
}

/// The pointers of `s` that are not 0, in order.
pub open spec fn nonzero(s: Seq<i32>) -> Seq<i32>
    decreases s.len(),
{
    if s.len() == 0 {
        s
    } else if s.last() != 0 {
        nonzero(s.drop_last()).push(s.last())
    } else {
        nonzero(s.drop_last())
    }
}

/// `out` holds one frame for each pointer of `s` that is not 0, in order.
pub open spec fn frames_are(b: Seq<u8>, pages: Seq<SpritesheetEntry>, s: Seq<i32>, out: Seq<Raster>) -> bool {
    &&& out.len() == nonzero(s).len()
    &&& forall|k: int| 0 <= k < out.len() ==> geometry_frame(b, pages, nonzero(s)[k] as int, #[trigger] out[k])
}

/// Crops the frames that the pointers in `addrs` select, in order; a pointer
/// of 0 gives no frame and reads nothing. Stops at the first failure.
pub fn resolve_frames(bytes: &[u8], pages: &Vec<SpritesheetEntry>, addrs: &Vec<i32>) -> (r: Result<Vec<Raster>, Error>)
    requires
        pages_wf(pages@),
    ensures
        match r {
            Ok(v) => frames_check(bytes@, pages@, addrs@, 0) is None && frames_are(bytes@, pages@, addrs@, v@),
            Err(e) => frames_check(bytes@, pages@, addrs@, 0) == Some(e),
        },
{
    let ghost b = bytes@;
    let mut textures: Vec<Raster> = Vec::new();
    let mut i: usize = 0;
    while i < addrs.len()
        invariant
            pages_wf(pages@),
            b == bytes@,
            i <= addrs@.len(),
            frames_check(b, pages@, addrs@, 0) == frames_check(b, pages@, addrs@, i as int),
            frames_are(b, pages@, addrs@.take(i as int), textures@),
        decreases addrs@.len() - i,
    {
        let ghost before = textures@;
        assert(addrs@.take(i + 1).drop_last() =~= addrs@.take(i as int));
        let addr = addrs[i];
        if addr < 0 {
            return Err(Error::Truncated);
        }
        if addr != 0 {
            let tex = resolve_geometry(bytes, pages, addr as u64)?;
            textures.push(tex);
            assert forall|k: int| 0 <= k < textures@.len() implies geometry_frame(
                b,
                pages@,
                nonzero(addrs@.take(i + 1))[k] as int,
                #[trigger] textures@[k],
            ) by {
                if k < before.len() {
                    assert(textures@[k] == before[k]);
                }
            }
        }
        i = i + 1;
    }
    assert(addrs@.take(i as int) =~= addrs@);
    Ok(textures)
}

/// A frame pointer of 0 gives no frame and no failure, wherever it stands.
pub proof fn lemma_zero_pointer_gives_no_frame(b: Seq<u8>, pages: Seq<SpritesheetEntry>, s: Seq<i32>, t: Seq<i32>)
    ensures
        nonzero(s.push(0) + t) == nonzero(s + t),
        frames_check(b, pages, s.push(0) + t, 0) == frames_check(b, pages, s + t, 0),
    decreases t.len(),
{
    if t.len() == 0 {
        assert(s.push(0) + t =~= s.push(0));
        assert(s + t =~= s);
        assert(s.push(0).drop_last() =~= s);
    } else {
        lemma_zero_pointer_gives_no_frame(b, pages, s, t.drop_last());
        assert((s.push(0) + t).drop_last() =~= s.push(0) + t.drop_last());
        assert((s + t).drop_last() =~= s + t.drop_last());
    }
    lemma_frames_check_skip_zero(b, pages, s, t, 0);
}

proof fn lemma_frames_check_skip_zero(b: Seq<u8>, pages: Seq<SpritesheetEntry>, s: Seq<i32>, t: Seq<i32>, i: int)
    requires
        0 <= i <= s.len(),
    ensures
        frames_check(b, pages, s.push(0) + t, i) == frames_check(b, pages, s + t, i),
    decreases s.len() - i,
{
    let u = s.push(0) + t;
    let v = s + t;
    if i < s.len() {
        assert(u[i] == v[i]);
        lemma_frames_check_skip_zero(b, pages, s, t, i + 1);
    } else {
        assert(u[i] == 0);
        lemma_frames_check_shift(b, pages, u, v, i + 1, i);
    }
}

proof fn lemma_frames_check_shift(b: Seq<u8>, pages: Seq<SpritesheetEntry>, u: Seq<i32>, v: Seq<i32>, i: int, j: int)
    requires
        0 <= j,
        i == j + 1,
        u.len() == v.len() + 1,
        forall|k: int| j <= k < v.len() ==> u[k + 1] == v[k],
    ensures
        frames_check(b, pages, u, i) == frames_check(b, pages, v, j),
    decreases v.len() - j,
{
    if j < v.len() {
        lemma_frames_check_shift(b, pages, u, v, i + 1, j + 1);
    }
}

/// The failure, if any, of resolving a sprite's frames.
pub open spec fn sprite_check(b: Seq<u8>, pages: Seq<SpritesheetEntry>, s: SpriteEntry) -> Option<Error> {
    match s.textures {
        SpriteState::Unloaded { texture_addresses, .. } => frames_check(b, pages, texture_addresses@, 0),
        SpriteState::Loaded { .. } => None,
    }
}

/// `after` is `before` with its frames resolved; frames already resolved stay as they were.
pub open spec fn sprite_resolved(b: Seq<u8>, pages: Seq<SpritesheetEntry>, before: SpriteEntry, after: SpriteEntry) -> bool {
    &&& after.name == before.name
    &&& after.width == before.width
    &&& after.height == before.height
    &&& after.margin_left == before.margin_left
    &&& after.margin_right == before.margin_right
    &&& after.margin_bottom == before.margin_bottom
    &&& after.margin_top == before.margin_top
    &&& after._unknown1@ == before._unknown1@
    &&& after.bbox_mode == before.bbox_mode
    &&& after.sep_masks == before.sep_masks
    &&& after.origin_x == before.origin_x
    &&& after.origin_y == before.origin_y
    &&& match before.textures {
        SpriteState::Loaded { .. } => after == before,
        SpriteState::Unloaded { texture_addresses, .. } => after.textures matches SpriteState::Loaded { textures }
            && frames_are(b, pages, texture_addresses@, textures@),
    }
}

/// Resolving a sprite whose frames are resolved already cannot fail, and
/// leaves the sprite as it was.
pub proof fn lemma_resolved_sprite_is_stable(
    b: Seq<u8>,
    pages: Seq<SpritesheetEntry>,
    before: SpriteEntry,
    after: SpriteEntry,
)
    requires
        before.textures is Loaded,
        sprite_resolved(b, pages, before, after),
    ensures
        sprite_check(b, pages, before) is None,
        after == before,
{
}

/// A copy of a vector of plain values.
pub fn copy_vec<T: Copy>(v: &Vec<T>) -> (r: Vec<T>)
    ensures
        r@ == v@,
{
    let mut r: Vec<T> = Vec::new();
    let mut i: usize = 0;
    while i < v.len()
        invariant
            i <= v@.len(),
            r@ == v@.take(i as int),
        decreases v@.len() - i,
    {
        r.push(v[i]);
        i = i + 1;
        assert(r@ =~= v@.take(i as int));
    }
    assert(v@.take(i as int) =~= v@);
    r
}

/// Resolves one sprite's frames: `None` when they are resolved already,
/// else the sprite with its frames cropped out of their pages.
fn load_sprite_raw(bytes: &[u8], pages: &Vec<SpritesheetEntry>, spr: &SpriteEntry) -> (r: Result<Option<SpriteEntry>, Error>)
    requires
        pages_wf(pages@),
    ensures
        match r {
            Ok(None) => spr.textures is Loaded,
            Ok(Some(after)) => spr.textures is Unloaded && sprite_check(bytes@, pages@, *spr) is None
                && sprite_resolved(bytes@, pages@, *spr, after),
            Err(e) => sprite_check(bytes@, pages@, *spr) == Some(e),
        },
{
    match &spr.textures {
        SpriteState::Unloaded { texture_addresses, .. } => {
            let textures = resolve_frames(bytes, pages, texture_addresses)?;
            Ok(Some(SpriteEntry {
                name: spr.name.clone(),
                width: spr.width,
                height: spr.height,
                margin_left: spr.margin_left,
                margin_right: spr.margin_right,
                margin_bottom: spr.margin_bottom,
                margin_top: spr.margin_top,
                _unknown1: copy_vec(&spr._unknown1),
                bbox_mode: spr.bbox_mode,
                sep_masks: spr.sep_masks,
                origin_x: spr.origin_x,
                origin_y: spr.origin_y,
                textures: SpriteState::Loaded { textures },
            }))
        },
        SpriteState::Loaded { .. } => Ok(None),
    }
}

/// The index of the first of `names` from `i` on that equals `name`.
pub open spec fn first_named(names: Seq<Seq<char>>, name: Seq<char>, i: int) -> Option<int>
    decreases names.len() - i,
{
    if i < 0 || i >= names.len() {
        None
    } else if names[i] == name {
        Some(i)
    } else {
        first_named(names, name, i + 1)
    }
}

/// The bytes from offset `a` to the end: where an embedded image is read from.
pub open spec fn page_data(b: Seq<u8>, a: u32) -> Seq<u8> {
    if a <= b.len() {
        b.subrange(a as int, b.len() as int)
    } else {
        Seq::empty()
    }
}

/// The failure, if any, of decoding a page.
pub open spec fn page_check(b: Seq<u8>, e: SpritesheetEntry) -> Option<Error> {
    match e.png {
        PNGState::Unloaded { png_addr } => if decoded_rgba(page_data(b, png_addr)) is None {
            Some(Error::CodecFailure)
        } else {
            None
        },
        PNGState::Loaded { .. } => None,
    }
}

/// `after` is `before` with its image decoded; a page decoded already stays as it was.
pub open spec fn page_resolved(b: Seq<u8>, before: SpritesheetEntry, after: SpritesheetEntry) -> bool {
    match before.png {
        PNGState::Loaded { .. } => after == before,
        PNGState::Unloaded { png_addr } => {
            &&& after._unknown1 == before._unknown1
            &&& after._unknown2 == before._unknown2
            &&& after.png matches PNGState::Loaded { texture }
            &&& raster_of(page_data(b, png_addr), texture)
        },
    }
}

/// Decoding a page that is decoded already cannot fail, and leaves it as it was.
pub proof fn lemma_resolved_page_is_stable(b: Seq<u8>, before: SpritesheetEntry, after: SpritesheetEntry)
    requires
        before.png is Loaded,
        page_resolved(b, before, after),
    ensures
        page_check(b, before) is None,
        after == before,
{
}

/// `after` and `r` are what resolving the entries of `before` one by one, in
/// order, gives when resolving stops at the first failure: the entries before
/// it are resolved, the failing one and those after it are untouched.
pub open spec fn batch_result<T>(
    before: Seq<T>,
    after: Seq<T>,
    check: spec_fn(T) -> Option<Error>,
    resolved: spec_fn(T, T) -> bool,
    r: Result<(), Error>,
) -> bool {
    &&& after.len() == before.len()
    &&& match r {
        Ok(_) => forall|i: int| 0 <= i < before.len() ==> check(#[trigger] before[i]) is None && resolved(before[i], after[i]),
        Err(e) => exists|k: int| {
            &&& 0 <= k < before.len()
            &&& check(#[trigger] before[k]) == Some(e)
            &&& forall|i: int| 0 <= i < k ==> check(#[trigger] before[i]) is None && resolved(before[i], after[i])
            &&& forall|i: int| k <= i < before.len() ==> #[trigger] after[i] == before[i]
        },
    }
}

/// The state of a batch after its first `j` entries are resolved.
pub open spec fn batch_progress<T>(
    before: Seq<T>,
    cur: Seq<T>,
    check: spec_fn(T) -> Option<Error>,
    resolved: spec_fn(T, T) -> bool,
    j: int,
) -> bool {
    &&& cur.len() == before.len()
    &&& 0 <= j <= before.len()
    &&& forall|i: int| 0 <= i < j ==> check(#[trigger] before[i]) is None && resolved(before[i], cur[i])
    &&& forall|i: int| j <= i < before.len() ==> #[trigger] cur[i] == before[i]
}

/// A batch that stops at a failing entry, with the entries before it
/// resolved, has the result that `batch_result` describes.
pub proof fn lemma_batch_stop<T>(
    before: Seq<T>,
    cur: Seq<T>,
    check: spec_fn(T) -> Option<Error>,
    resolved: spec_fn(T, T) -> bool,
    j: int,
    e: Error,
)
    requires
        batch_progress(before, cur, check, resolved, j),
        j < before.len(),
        check(before[j]) == Some(e),
    ensures
        batch_result(before, cur, check, resolved, Err(e)),
{
    assert(0 <= j < before.len() && check(before[j]) == Some(e));
}

/// The bytes a sound stands for: `Ok(None)` for a sound kept in an external
/// file (audio id -1), else the blob at the audio id in the raw-audio chunk
/// of its group.
pub open spec fn sound_audio(audos: Seq<Audo>, s: SoundEntry) -> Result<Option<Seq<u8>>, Error> {
    if s.audio_id == -1 {
        Ok(None)
    } else if s.group_id < 0 || s.group_id >= audos.len() || s.audio_id < 0 || s.audio_id
        >= audos[s.group_id as int].sounds@.len() {
        Err(Error::IndexOutOfRange)
    } else {
        Ok(Some(audos[s.group_id as int].sounds@[s.audio_id as int]@))
    }
}

/// The failure, if any, of resolving a sound.
pub open spec fn sound_check(audos: Seq<Audo>, s: SoundEntry) -> Option<Error> {
    if s.audio_data is Some {
        None
    } else {
        match sound_audio(audos, s) {
            Ok(_) => None,
            Err(e) => Some(e),
        }
    }
}

/// `after` is `before` with its audio resolved; audio resolved already stays as it was.
pub open spec fn sound_resolved(audos: Seq<Audo>, before: SoundEntry, after: SoundEntry) -> bool {
    match before.audio_data {
        Some(_) => after == before,
        None => {
            &&& after.name == before.name
            &&& after.flags == before.flags
            &&& after.type_ == before.type_
            &&& after.file == before.file
            &&& after._unknown1 == before._unknown1
            &&& after.volume == before.volume
            &&& after.pitch == before.pitch
            &&& after.group_id == before.group_id
            &&& after.audio_id == before.audio_id
            &&& match sound_audio(audos, before) {
                Ok(None) => after.audio_data == Some(AudioType::External),
                Ok(Some(bytes)) => after.audio_data matches Some(AudioType::Internal(v)) && v@ == bytes,
                Err(_) => false,
            }
        },
    }
}

/// Resolving a sound whose audio is resolved already cannot fail, and leaves
/// it as it was.
pub proof fn lemma_resolved_sound_is_stable(audos: Seq<Audo>, before: SoundEntry, after: SoundEntry)
    requires
        before.audio_data is Some,
        sound_resolved(audos, before, after),
    ensures
        sound_check(audos, before) is None,
        after == before,
{
}

/// Resolves one sound: `None` when it is resolved already, else the sound
/// with its audio marked external or copied from its raw-audio blob.
pub fn load_sound_raw(sound: &SoundEntry, audos: &Vec<Audo>) -> (r: Result<Option<SoundEntry>, Error>)
    ensures
        match r {
            Ok(None) => sound.audio_data is Some,
            Ok(Some(after)) => sound.audio_data is None && sound_check(audos@, *sound) is None
                && sound_resolved(audos@, *sound, after),
            Err(e) => sound_check(audos@, *sound) == Some(e),
        },
        sound.audio_data is None && sound.audio_id == -1 ==> (r matches Ok(Some(after))
            && after.audio_data == Some(AudioType::External)),
        sound.audio_data is None && sound.audio_id >= 0 && 0 <= sound.group_id < audos@.len()
            && sound.audio_id < audos@[sound.group_id as int].sounds@.len() ==> (r matches Ok(Some(after))
            && after.audio_data matches Some(AudioType::Internal(v))
            && v@ == audos@[sound.group_id as int].sounds@[sound.audio_id as int]@),
{
    if sound.audio_data.is_some() {
        return Ok(None);
    }
    let data = if sound.audio_id == -1 {
        AudioType::External
    } else {
        if sound.group_id < 0 || sound.group_id as usize >= audos.len() || sound.audio_id < 0 {
            return Err(Error::IndexOutOfRange);
        }
        let group = &audos[sound.group_id as usize];
        if sound.audio_id as usize >= group.sounds.len() {
            return Err(Error::IndexOutOfRange);
        }
        AudioType::Internal(copy_vec(&group.sounds[sound.audio_id as usize]))
    };
    Ok(Some(SoundEntry {
        name: sound.name.clone(),
        flags: sound.flags,
        type_: sound.type_.clone(),
        file: sound.file.clone(),
        _unknown1: sound._unknown1,
        volume: sound.volume,
        pitch: sound.pitch,
        group_id: sound.group_id,
        audio_id: sound.audio_id,
        audio_data: Some(data),
    }))
}

/// The failure, if any, of resolving a background.
pub open spec fn background_check(b: Seq<u8>, pages: Seq<SpritesheetEntry>, e: BackgroundEntry) -> Option<Error> {
    match e.texture {
        BackgroundState::Unloaded { texture_address } => frame_check(b, pages, texture_address),
        BackgroundState::Loaded { .. } => None,
    }
}

/// `after` is `before` with its pixels resolved; pixels resolved already,
/// and a geometry pointer of 0, leave it as it was.
pub open spec fn background_resolved(
    b: Seq<u8>,
    pages: Seq<SpritesheetEntry>,
    before: BackgroundEntry,
    after: BackgroundEntry,
) -> bool {
    match before.texture {
        BackgroundState::Unloaded { texture_address } => if texture_address == 0 {
            after == before
        } else {
            &&& after.name == before.name
            &&& after._unknown1@ == before._unknown1@
            &&& after._unknown2 == before._unknown2
            &&& after.tile_width == before.tile_width
            &&& after.tile_height == before.tile_height
            &&& after.margin_x == before.margin_x
            &&& after.margin_y == before.margin_y
            &&& after.columns == before.columns
            &&& after._unknown3 == before._unknown3
            &&& after._unknown4 == before._unknown4
            &&& after.ids@ == before.ids@
            &&& after.texture matches BackgroundState::Loaded { texture }
            &&& geometry_frame(b, pages, texture_address as int, texture)
        },
        BackgroundState::Loaded { .. } => after == before,
    }
}

/// Resolving a background whose pixels are resolved already cannot fail,
/// and leaves it as it was.
pub proof fn lemma_resolved_background_is_stable(
    b: Seq<u8>,
    pages: Seq<SpritesheetEntry>,
    before: BackgroundEntry,
    after: BackgroundEntry,
)
    requires
        before.texture is Loaded,
        background_resolved(b, pages, before, after),
    ensures
        background_check(b, pages, before) is None,
        after == before,
{
}

/// Resolves one background: `None` when there is nothing to do, else the
/// background with its pixels cropped out of their page.
fn load_background_raw(bytes: &[u8], pages: &Vec<SpritesheetEntry>, bg: &BackgroundEntry) -> (r: Result<
    Option<BackgroundEntry>,
    Error,
>)
    requires
        pages_wf(pages@),
    ensures
        match r {
            Ok(None) => background_check(bytes@, pages@, *bg) is None && background_resolved(bytes@, pages@, *bg, *bg),
            Ok(Some(after)) => background_check(bytes@, pages@, *bg) is None && background_resolved(
                bytes@,
                pages@,
                *bg,
                after,
            ),
            Err(e) => background_check(bytes@, pages@, *bg) == Some(e),
        },
{
    match &bg.texture {
        BackgroundState::Unloaded { texture_address } => {
            let a = *texture_address;
            if a == 0 {
                return Ok(None);
            }
            if a < 0 {
                return Err(Error::Truncated);
            }
            let texture = resolve_geometry(bytes, pages, a as u64)?;
            Ok(Some(BackgroundEntry {
                name: bg.name.clone(),
                _unknown1: copy_vec(&bg._unknown1),
                _unknown2: bg._unknown2,
                tile_width: bg.tile_width,
                tile_height: bg.tile_height,
                margin_x: bg.margin_x,
                margin_y: bg.margin_y,
                columns: bg.columns,
                _unknown3: bg._unknown3,
                _unknown4: bg._unknown4,
                ids: copy_vec(&bg.ids),
                texture: BackgroundState::Loaded { texture },
            }))
        },
        BackgroundState::Loaded { .. } => Ok(None),
    }
}

/// A glyph side of 0 is cut as 1.
pub open spec fn at_least_one(v: u16) -> u32 {
    if v == 0 {
        1
    } else {
        v as u32
    }
}

/// Every glyph of `f` has its pixels already.
pub open spec fn glyphs_done(f: FontEntry) -> bool {
    forall|i: int| 0 <= i < f.glyphs@.len() ==> (#[trigger] f.glyphs@[i]).texture is Some
}

/// The failure, if any, of resolving a font's glyphs. A font whose glyphs
/// all have their pixels, or whose sheet pointer is 0, is left alone.
pub open spec fn font_check(b: Seq<u8>, pages: Seq<SpritesheetEntry>, f: FontEntry) -> Option<Error> {
    if f.tpag_addr == 0 || glyphs_done(f) {
        None
    } else {
        geometry_check(b, pages, f.tpag_addr as int)
    }
}

/// `after` is `before` with its pixels cut out of `sheet`.
pub open spec fn glyph_cut(sheet: Raster, before: Glyph, after: Glyph) -> bool {
    &&& after.character == before.character
    &&& after.relative_x == before.relative_x
    &&& after.relative_y == before.relative_y
    &&& after.width == before.width
    &&& after.height == before.height
    &&& after._unknown1@ == before._unknown1@
    &&& after.texture matches Some(t)
    &&& sheet.is_crop(
        before.relative_x as u32,
        before.relative_y as u32,
        at_least_one(before.width),
        at_least_one(before.height),
        t,
    )
}

/// `after` is `before` with every glyph cut out of the font's sheet.
pub open spec fn font_resolved(b: Seq<u8>, pages: Seq<SpritesheetEntry>, before: FontEntry, after: FontEntry) -> bool {
    if before.tpag_addr == 0 || glyphs_done(before) {
        after == before
    } else {
        &&& after.code_name == before.code_name
        &&& after.system_name == before.system_name
        &&& after.em_size == before.em_size
        &&& after.bold == before.bold
        &&& after.italic == before.italic
        &&& after.range_start == before.range_start
        &&& after.charset == before.charset
        &&& after.antialiasing == before.antialiasing
        &&& after.range_end == before.range_end
        &&& after.tpag_addr == before.tpag_addr
        &&& after.scale_x == before.scale_x
        &&& after.scale_y == before.scale_y
        &&& after._unknown1 == before._unknown1
        &&& after.glyphs@.len() == before.glyphs@.len()
        &&& exists|sheet: Raster| #[trigger] geometry_frame(b, pages, before.tpag_addr as int, sheet)
            && forall|i: int| 0 <= i < before.glyphs@.len() ==> glyph_cut(sheet, before.glyphs@[i], #[trigger] after.glyphs@[i])
    }
}

/// Resolves one font: `None` when there is nothing to do, else the font with
/// each glyph cut out of the font's sheet.
fn load_font_raw(bytes: &[u8], pages: &Vec<SpritesheetEntry>, font: &FontEntry) -> (r: Result<Option<FontEntry>, Error>)
    requires
        pages_wf(pages@),
    ensures
        match r {
            Ok(None) => font_check(bytes@, pages@, *font) is None && font_resolved(bytes@, pages@, *font, *font),
            Ok(Some(after)) => font_check(bytes@, pages@, *font) is None && font_resolved(bytes@, pages@, *font, after),
            Err(e) => font_check(bytes@, pages@, *font) == Some(e),
        },
{
    if font.tpag_addr == 0 {
        return Ok(None);
    }
    let mut done = true;
    let mut k: usize = 0;
    while k < font.glyphs.len()
        invariant
            k <= font.glyphs@.len(),
            done == forall|i: int| 0 <= i < k ==> (#[trigger] font.glyphs@[i]).texture is Some,
        decreases font.glyphs@.len() - k,
    {
        if font.glyphs[k].texture.is_none() {
            done = false;
        }
        k = k + 1;
    }
    if done {
        return Ok(None);
    }
    let sheet = resolve_geometry(bytes, pages, font.tpag_addr as u64)?;
    let mut glyphs: Vec<Glyph> = Vec::new();
    let mut i: usize = 0;
    while i < font.glyphs.len()
        invariant
            sheet.wf(),
            i <= font.glyphs@.len(),
            glyphs@.len() == i,
            forall|j: int| 0 <= j < i ==> glyph_cut(sheet, font.glyphs@[j], #[trigger] glyphs@[j]),
        decreases font.glyphs@.len() - i,
    {
        let g = &font.glyphs[i];
        let w: u32 = if g.width == 0 { 1 } else { g.width as u32 };
        let h: u32 = if g.height == 0 { 1 } else { g.height as u32 };
        let texture = sheet.crop(g.relative_x as u32, g.relative_y as u32, w, h);
        glyphs.push(Glyph {
            character: g.character,
            relative_x: g.relative_x,
            relative_y: g.relative_y,
            width: g.width,
            height: g.height,
            _unknown1: copy_vec(&g._unknown1),
            texture: Some(texture),
        });
        i = i + 1;
    }
    let after = FontEntry {
        code_name: font.code_name.clone(),
        system_name: font.system_name.clone(),
        em_size: font.em_size,
        bold: font.bold,
        italic: font.italic,
        range_start: font.range_start,
        charset: font.charset,
        antialiasing: font.antialiasing,
        range_end: font.range_end,
        tpag_addr: font.tpag_addr,
        scale_x: font.scale_x,
        scale_y: font.scale_y,
        _unknown1: font._unknown1,
        glyphs,
    };
    assert(geometry_frame(bytes@, pages@, font.tpag_addr as int, sheet));
    Ok(Some(after))
}

/// The column count that `overrides` gives a background named `name`: the
/// first pair with that name decides; without one, `recorded` stays.
pub open spec fn column_override(overrides: Seq<(String, u32)>, name: Seq<char>, recorded: u32) -> u32 {
    match first_named(overrides.map_values(|p: (String, u32)| p.0@), name, 0) {
        Some(k) => overrides[k].1,
        None => recorded,
    }
}

/// Looks up the column count that `overrides` gives `name`.
fn find_override(overrides: &Vec<(String, u32)>, name: &String, recorded: u32) -> (r: u32)
    ensures
        r == column_override(overrides@, name@, recorded),
{
    let ghost names = overrides@.map_values(|p: (String, u32)| p.0@);
    let mut j: usize = 0;
    while j < overrides.len()
        invariant
            j <= overrides@.len(),
            names == overrides@.map_values(|p: (String, u32)| p.0@),
            first_named(names, name@, 0) == first_named(names, name@, j as int),
        decreases overrides@.len() - j,
    {
        if overrides[j].0 == *name {
            return overrides[j].1;
        }
        j = j + 1;
    }
    recorded
}

impl DataWin {
    /// Replaces the recorded column count of each background that
    /// `overrides` names. The format does not record the intended tile
    /// layout, so it comes from the caller; nothing else changes.
    pub fn override_columns(&mut self, overrides: &Vec<(String, u32)>) -> (r: Result<(), Error>)
        ensures
            old(self).bgnd is None ==> r == Err::<(), Error>(Error::NotLoaded) && *final(self) == *old(self),
            old(self).bgnd is Some ==> r is Ok && final(self).bgnd is Some && ({
                let before = old(self).bgnd->Some_0.backgrounds@;
                let after = final(self).bgnd->Some_0.backgrounds@;
                &&& after.len() == before.len()
                &&& forall|i: int| 0 <= i < before.len() ==> #[trigger] after[i] == (BackgroundEntry {
                    columns: column_override(overrides@, before[i].name@, before[i].columns),
                    ..before[i]
                })
            }),
            *final(self) == (DataWin { bgnd: final(self).bgnd, ..*old(self) }),
    {
        let mut bgnd = match self.bgnd.take() {
            Some(b) => b,
            None => return Err(Error::NotLoaded),
        };
        let ghost before = bgnd.backgrounds@;
        let mut i: usize = 0;
        while i < bgnd.backgrounds.len()
            invariant
                *old(self) == (DataWin { bgnd: old(self).bgnd, ..*self }),
                old(self).bgnd matches Some(b) && b.backgrounds@ == before,
                self.bgnd is None,
                bgnd.backgrounds@.len() == before.len(),
                i <= before.len(),
                forall|k: int| 0 <= k < i ==> #[trigger] bgnd.backgrounds@[k] == (BackgroundEntry {
                    columns: column_override(overrides@, before[k].name@, before[k].columns),
                    ..before[k]
                }),
                forall|k: int| i <= k < before.len() ==> #[trigger] bgnd.backgrounds@[k] == before[k],
            decreases before.len() - i,
        {
            let mut e = bgnd.backgrounds.remove(i);
            e.columns = find_override(overrides, &e.name, e.columns);
            bgnd.backgrounds.insert(i, e);
            i = i + 1;
        }
        self.bgnd = Some(bgnd);
        Ok(())
    }

    /// Every decoded page holds as many pixels as its size says.
    pub open spec fn wf(&self) -> bool {
        self.txtr matches Some(t) ==> pages_wf(t.spritesheets@)
    }

    /// Decodes every page not decoded yet, in order, with the image codec;
    /// stops at the first page that the codec rejects.
    pub fn load_spritesheets(&mut self) -> (r: Result<(), Error>)
        requires
            old(self).wf(),
        ensures
            final(self).wf(),
            old(self).txtr is None ==> r == Err::<(), Error>(Error::NotLoaded) && *final(self) == *old(self),
            old(self).txtr matches Some(t) ==> (final(self).txtr matches Some(t2) && batch_result(
                t.spritesheets@,
                t2.spritesheets@,
                |e: SpritesheetEntry| page_check(old(self).buf@, e),
                |x: SpritesheetEntry, y: SpritesheetEntry| page_resolved(old(self).buf@, x, y),
                r,
            )),
            *final(self) == (DataWin { txtr: final(self).txtr, ..*old(self) }),
    {
        let mut txtr = match self.txtr.take() {
            Some(t) => t,
            None => return Err(Error::NotLoaded),
        };
        let ghost before = txtr.spritesheets@;
        let ghost check = |e: SpritesheetEntry| page_check(self.buf@, e);
        let ghost resolved = |x: SpritesheetEntry, y: SpritesheetEntry| page_resolved(self.buf@, x, y);
        let len = self.buf.len();
        let mut i: usize = 0;
        while i < txtr.spritesheets.len()
            invariant
                self.buf == old(self).buf,
                len == self.buf@.len(),
                *old(self) == (DataWin { txtr: old(self).txtr, ..*self }),
                old(self).txtr matches Some(t) && t.spritesheets@ == before,
                self.txtr is None,
                pages_wf(before),
                pages_wf(txtr.spritesheets@),
                check == |e: SpritesheetEntry| page_check(old(self).buf@, e),
                resolved == |x: SpritesheetEntry, y: SpritesheetEntry| page_resolved(old(self).buf@, x, y),
                batch_progress(before, txtr.spritesheets@, check, resolved, i as int),
            decreases txtr.spritesheets@.len() - i,
        {
            let addr: Option<u32> = match &txtr.spritesheets[i].png {
                PNGState::Unloaded { png_addr } => Some(*png_addr),
                PNGState::Loaded { .. } => None,
            };
            match addr {
                Some(a) => {
                    let start: usize = if (a as usize) <= len { a as usize } else { len };
                    let data = slice_subrange(self.buf.as_slice(), start, len);
                    assert(data@ =~= page_data(self.buf@, a));
                    match decode_image(data) {
                        Some(texture) => {
                            let u1 = txtr.spritesheets[i]._unknown1;
                            let u2 = txtr.spritesheets[i]._unknown2;
                            txtr.spritesheets.set(i, SpritesheetEntry { _unknown1: u1, _unknown2: u2, png: PNGState::Loaded { texture } });
                        },
                        None => {
                            proof {
                                lemma_batch_stop(before, txtr.spritesheets@, check, resolved, i as int, Error::CodecFailure);
                            }
                            self.txtr = Some(txtr);
                            return Err(Error::CodecFailure);
                        },
                    }
                },
                None => {},
            }
            i = i + 1;
        }
        self.txtr = Some(txtr);
        Ok(())
    }

    /// Resolves the frames of every sprite not resolved yet, in order; stops
    /// at the first failure.
    pub fn load_sprites(&mut self) -> (r: Result<(), Error>)
        requires
            old(self).wf(),
        ensures
            old(self).sprt is None || old(self).txtr is None ==> r == Err::<(), Error>(Error::NotLoaded)
                && *final(self) == *old(self),
            old(self).sprt is Some && old(self).txtr is Some ==> final(self).sprt is Some && batch_result(
                old(self).sprt->Some_0.sprites@,
                final(self).sprt->Some_0.sprites@,
                |e: SpriteEntry| sprite_check(old(self).buf@, old(self).txtr->Some_0.spritesheets@, e),
                |x: SpriteEntry, y: SpriteEntry| sprite_resolved(old(self).buf@, old(self).txtr->Some_0.spritesheets@, x, y),
                r,
            ),
            *final(self) == (DataWin { sprt: final(self).sprt, ..*old(self) }),
    {
        if self.txtr.is_none() || self.sprt.is_none() {
            return Err(Error::NotLoaded);
        }
        let mut sprt = self.sprt.take().unwrap();
        let pages = &self.txtr.as_ref().unwrap().spritesheets;
        let ghost before = sprt.sprites@;
        let ghost check = |e: SpriteEntry| sprite_check(self.buf@, pages@, e);
        let ghost resolved = |x: SpriteEntry, y: SpriteEntry| sprite_resolved(self.buf@, pages@, x, y);
        let mut i: usize = 0;
        while i < sprt.sprites.len()
            invariant
                *old(self) == (DataWin { sprt: old(self).sprt, ..*self }),
                old(self).sprt matches Some(s) && s.sprites@ == before,
                old(self).txtr matches Some(t) && t.spritesheets == *pages,
                self.sprt is None,
                pages_wf(pages@),
                check == |e: SpriteEntry| sprite_check(old(self).buf@, pages@, e),
                resolved == |x: SpriteEntry, y: SpriteEntry| sprite_resolved(old(self).buf@, pages@, x, y),
                batch_progress(before, sprt.sprites@, check, resolved, i as int),
            decreases sprt.sprites@.len() - i,
        {
            match load_sprite_raw(self.buf.as_slice(), pages, &sprt.sprites[i]) {
                Ok(Some(after)) => {
                    sprt.sprites.set(i, after);
                },
                Ok(None) => {},
                Err(e) => {
                    proof {
                        lemma_batch_stop(before, sprt.sprites@, check, resolved, i as int, e);
                    }
                    self.sprt = Some(sprt);
                    return Err(e);
                },
            }
            i = i + 1;
        }
        self.sprt = Some(sprt);
        Ok(())
    }

    /// Resolves the frames of the first sprite named `name`. A name that no
    /// sprite has changes nothing.
    pub fn load_sprite(&mut self, name: String) -> (r: Result<(), Error>)
        requires
            old(self).wf(),
        ensures
            old(self).sprt is None || old(self).txtr is None ==> r == Err::<(), Error>(Error::NotLoaded)
                && *final(self) == *old(self),
            old(self).sprt is Some && old(self).txtr is Some ==> ({
                let s = old(self).sprt->Some_0.sprites@;
                let pages = old(self).txtr->Some_0.spritesheets@;
                match first_named(s.map_values(|e: SpriteEntry| e.name@), name@, 0) {
                    None => r is Ok && *final(self) == *old(self),
                    Some(k) => match sprite_check(old(self).buf@, pages, s[k]) {
                        None => r is Ok && final(self).sprt is Some && final(self).sprt->Some_0.sprites@.len() == s.len()
                            && sprite_resolved(old(self).buf@, pages, s[k], final(self).sprt->Some_0.sprites@[k])
                            && forall|i: int| 0 <= i < s.len() && i != k ==> final(self).sprt->Some_0.sprites@[i] == s[i],
                        Some(e) => r == Err::<(), Error>(e) && *final(self) == *old(self),
                    },
                }
            }),
            *final(self) == (DataWin { sprt: final(self).sprt, ..*old(self) }),
    {
        if self.txtr.is_none() || self.sprt.is_none() {
            return Err(Error::NotLoaded);
        }
        let mut sprt = self.sprt.take().unwrap();
        let pages = &self.txtr.as_ref().unwrap().spritesheets;
        let mut i: usize = 0;
        while i < sprt.sprites.len()
            invariant
                *old(self) == (DataWin { sprt: old(self).sprt, ..*self }),
                old(self).sprt == Some(sprt),
                old(self).txtr matches Some(t) && t.spritesheets == *pages,
                self.sprt is None,
                pages_wf(pages@),
                i <= sprt.sprites@.len(),
                first_named(sprt.sprites@.map_values(|e: SpriteEntry| e.name@), name@, 0)
                    == first_named(sprt.sprites@.map_values(|e: SpriteEntry| e.name@), name@, i as int),
            decreases sprt.sprites@.len() - i,
        {
            if sprt.sprites[i].name == name {
                let r = load_sprite_raw(self.buf.as_slice(), pages, &sprt.sprites[i]);
                match r {
                    Ok(Some(after)) => {
                        sprt.sprites.set(i, after);
                        self.sprt = Some(sprt);
                        return Ok(());
                    },
                    Ok(None) => {
                        self.sprt = Some(sprt);
                        return Ok(());
                    },
                    Err(e) => {
                        self.sprt = Some(sprt);
                        return Err(e);
                    },
                }
            }
            i = i + 1;
        }
        self.sprt = Some(sprt);
        Ok(())
    }

    /// Resolves the audio of every sound not resolved yet, in order; stops
    /// at the first failure.
    pub fn load_sounds(&mut self) -> (r: Result<(), Error>)
        ensures
            old(self).sond is None || old(self).audo is None ==> r == Err::<(), Error>(Error::NotLoaded)
                && *final(self) == *old(self),
            old(self).sond is Some && old(self).audo is Some ==> final(self).sond is Some && batch_result(
                old(self).sond->Some_0.sounds@,
                final(self).sond->Some_0.sounds@,
                |e: SoundEntry| sound_check(old(self).audo->Some_0@, e),
                |x: SoundEntry, y: SoundEntry| sound_resolved(old(self).audo->Some_0@, x, y),
                r,
            ),
            *final(self) == (DataWin { sond: final(self).sond, ..*old(self) }),
    {
        if self.sond.is_none() || self.audo.is_none() {
            return Err(Error::NotLoaded);
        }
        let mut sond = self.sond.take().unwrap();
        let audos = self.audo.as_ref().unwrap();
        let ghost before = sond.sounds@;
        let ghost check = |e: SoundEntry| sound_check(audos@, e);
        let ghost resolved = |x: SoundEntry, y: SoundEntry| sound_resolved(audos@, x, y);
        let mut i: usize = 0;
        while i < sond.sounds.len()
            invariant
                *old(self) == (DataWin { sond: old(self).sond, ..*self }),
                old(self).sond matches Some(s) && s.sounds@ == before,
                old(self).audo == Some(*audos),
                self.sond is None,
                check == |e: SoundEntry| sound_check(audos@, e),
                resolved == |x: SoundEntry, y: SoundEntry| sound_resolved(audos@, x, y),
                batch_progress(before, sond.sounds@, check, resolved, i as int),
            decreases sond.sounds@.len() - i,
        {
            match load_sound_raw(&sond.sounds[i], audos) {
                Ok(Some(after)) => {
                    sond.sounds.set(i, after);
                },
                Ok(None) => {},
                Err(e) => {
                    proof {
                        lemma_batch_stop(before, sond.sounds@, check, resolved, i as int, e);
                    }
                    self.sond = Some(sond);
                    return Err(e);
                },
            }
            i = i + 1;
        }
        self.sond = Some(sond);
        Ok(())
    }

    /// Resolves the audio of the first sound named `name`. A name that no
    /// sound has changes nothing.
    pub fn load_sound(&mut self, name: String) -> (r: Result<(), Error>)
        ensures
            old(self).sond is None || old(self).audo is None ==> r == Err::<(), Error>(Error::NotLoaded)
                && *final(self) == *old(self),
            old(self).sond is Some && old(self).audo is Some ==> ({
                let s = old(self).sond->Some_0.sounds@;
                let audos = old(self).audo->Some_0@;
                match first_named(s.map_values(|e: SoundEntry| e.name@), name@, 0) {
                    None => r is Ok && *final(self) == *old(self),
                    Some(k) => match sound_check(audos, s[k]) {
                        None => r is Ok && final(self).sond is Some && final(self).sond->Some_0.sounds@.len() == s.len()
                            && sound_resolved(audos, s[k], final(self).sond->Some_0.sounds@[k])
                            && forall|i: int| 0 <= i < s.len() && i != k ==> final(self).sond->Some_0.sounds@[i] == s[i],
                        Some(e) => r == Err::<(), Error>(e) && *final(self) == *old(self),
                    },
                }
            }),
            *final(self) == (DataWin { sond: final(self).sond, ..*old(self) }),
    {
        if self.sond.is_none() || self.audo.is_none() {
            return Err(Error::NotLoaded);
        }
        let mut sond = self.sond.take().unwrap();
        let audos = self.audo.as_ref().unwrap();
        let mut i: usize = 0;
        while i < sond.sounds.len()
            invariant
                *old(self) == (DataWin { sond: old(self).sond, ..*self }),
                old(self).sond == Some(sond),
                old(self).audo == Some(*audos),
                self.sond is None,
                i <= sond.sounds@.len(),
                first_named(sond.sounds@.map_values(|e: SoundEntry| e.name@), name@, 0)
                    == first_named(sond.sounds@.map_values(|e: SoundEntry| e.name@), name@, i as int),
            decreases sond.sounds@.len() - i,
        {
            if sond.sounds[i].name == name {
                let r = load_sound_raw(&sond.sounds[i], audos);
                match r {
                    Ok(Some(after)) => {
                        sond.sounds.set(i, after);
                        self.sond = Some(sond);
                        return Ok(());
                    },
                    Ok(None) => {
                        self.sond = Some(sond);
                        return Ok(());
                    },
                    Err(e) => {
                        self.sond = Some(sond);
                        return Err(e);
                    },
                }
            }
            i = i + 1;
        }
        self.sond = Some(sond);
        Ok(())
    }

    /// Resolves the pixels of every background not resolved yet, in order;
    /// stops at the first failure.
    pub fn load_backgrounds(&mut self) -> (r: Result<(), Error>)
        requires
            old(self).wf(),
        ensures
            old(self).bgnd is None || old(self).txtr is None ==> r == Err::<(), Error>(Error::NotLoaded)
                && *final(self) == *old(self),
            old(self).bgnd is Some && old(self).txtr is Some ==> final(self).bgnd is Some && batch_result(
                old(self).bgnd->Some_0.backgrounds@,
                final(self).bgnd->Some_0.backgrounds@,
                |e: BackgroundEntry| background_check(old(self).buf@, old(self).txtr->Some_0.spritesheets@, e),
                |x: BackgroundEntry, y: BackgroundEntry| background_resolved(
                    old(self).buf@,
                    old(self).txtr->Some_0.spritesheets@,
                    x,
                    y,
                ),
                r,
            ),
            *final(self) == (DataWin { bgnd: final(self).bgnd, ..*old(self) }),
    {
        if self.txtr.is_none() || self.bgnd.is_none() {
            return Err(Error::NotLoaded);
        }
        let mut bgnd = self.bgnd.take().unwrap();
        let pages = &self.txtr.as_ref().unwrap().spritesheets;
        let ghost before = bgnd.backgrounds@;
        let ghost check = |e: BackgroundEntry| background_check(self.buf@, pages@, e);
        let ghost resolved = |x: BackgroundEntry, y: BackgroundEntry| background_resolved(self.buf@, pages@, x, y);
        let mut i: usize = 0;
        while i < bgnd.backgrounds.len()
            invariant
                *old(self) == (DataWin { bgnd: old(self).bgnd, ..*self }),
                old(self).bgnd matches Some(s) && s.backgrounds@ == before,
                old(self).txtr matches Some(t) && t.spritesheets == *pages,
                self.bgnd is None,
                pages_wf(pages@),
                check == |e: BackgroundEntry| background_check(old(self).buf@, pages@, e),
                resolved == |x: BackgroundEntry, y: BackgroundEntry| background_resolved(old(self).buf@, pages@, x, y),
                batch_progress(before, bgnd.backgrounds@, check, resolved, i as int),
            decreases bgnd.backgrounds@.len() - i,
        {
            match load_background_raw(self.buf.as_slice(), pages, &bgnd.backgrounds[i]) {
                Ok(Some(after)) => {
                    bgnd.backgrounds.set(i, after);
                },
                Ok(None) => {},
                Err(e) => {
                    proof {
                        lemma_batch_stop(before, bgnd.backgrounds@, check, resolved, i as int, e);
                    }
                    self.bgnd = Some(bgnd);
                    return Err(e);
                },
            }
            i = i + 1;
        }
        self.bgnd = Some(bgnd);
        Ok(())
    }

    /// Resolves the pixels of the first background named `name`. A name that
    /// no background has changes nothing.
    pub fn load_background(&mut self, name: String) -> (r: Result<(), Error>)
        requires
            old(self).wf(),
        ensures
            old(self).bgnd is None || old(self).txtr is None ==> r == Err::<(), Error>(Error::NotLoaded)
                && *final(self) == *old(self),
            old(self).bgnd is Some && old(self).txtr is Some ==> ({
                let s = old(self).bgnd->Some_0.backgrounds@;
                let pages = old(self).txtr->Some_0.spritesheets@;
                match first_named(s.map_values(|e: BackgroundEntry| e.name@), name@, 0) {
                    None => r is Ok && *final(self) == *old(self),
                    Some(k) => match background_check(old(self).buf@, pages, s[k]) {
                        None => r is Ok && final(self).bgnd is Some && final(self).bgnd->Some_0.backgrounds@.len() == s.len()
                            && background_resolved(old(self).buf@, pages, s[k], final(self).bgnd->Some_0.backgrounds@[k])
                            && forall|i: int| 0 <= i < s.len() && i != k ==> final(self).bgnd->Some_0.backgrounds@[i] == s[i],
                        Some(e) => r == Err::<(), Error>(e) && *final(self) == *old(self),
                    },
                }
            }),
            *final(self) == (DataWin { bgnd: final(self).bgnd, ..*old(self) }),
    {
        if self.txtr.is_none() || self.bgnd.is_none() {
            return Err(Error::NotLoaded);
        }
        let mut bgnd = self.bgnd.take().unwrap();
        let pages = &self.txtr.as_ref().unwrap().spritesheets;
        let mut i: usize = 0;
        while i < bgnd.backgrounds.len()
            invariant
                *old(self) == (DataWin { bgnd: old(self).bgnd, ..*self }),
                old(self).bgnd == Some(bgnd),
                old(self).txtr matches Some(t) && t.spritesheets == *pages,
                self.bgnd is None,
                pages_wf(pages@),
                i <= bgnd.backgrounds@.len(),
                first_named(bgnd.backgrounds@.map_values(|e: BackgroundEntry| e.name@), name@, 0)
                    == first_named(bgnd.backgrounds@.map_values(|e: BackgroundEntry| e.name@), name@, i as int),
            decreases bgnd.backgrounds@.len() - i,
        {
            if bgnd.backgrounds[i].name == name {
                let r = load_background_raw(self.buf.as_slice(), pages, &bgnd.backgrounds[i]);
                match r {
                    Ok(Some(after)) => {
                        bgnd.backgrounds.set(i, after);
                        self.bgnd = Some(bgnd);
                        return Ok(());
                    },
                    Ok(None) => {
                        self.bgnd = Some(bgnd);
                        return Ok(());
                    },
                    Err(e) => {
                        self.bgnd = Some(bgnd);
                        return Err(e);
                    },
                }
            }
            i = i + 1;
        }
        self.bgnd = Some(bgnd);
        Ok(())
    }

    /// Cuts the glyphs of every font out of its sheet, in order; stops at the
    /// first failure.
    pub fn load_fonts(&mut self) -> (r: Result<(), Error>)
        requires
            old(self).wf(),
        ensures
            old(self).font is None || old(self).txtr is None ==> r == Err::<(), Error>(Error::NotLoaded)
                && *final(self) == *old(self),
            old(self).font is Some && old(self).txtr is Some ==> final(self).font is Some && batch_result(
                old(self).font->Some_0.fonts@,
                final(self).font->Some_0.fonts@,
                |e: FontEntry| font_check(old(self).buf@, old(self).txtr->Some_0.spritesheets@, e),
                |x: FontEntry, y: FontEntry| font_resolved(old(self).buf@, old(self).txtr->Some_0.spritesheets@, x, y),
                r,
            ),
            *final(self) == (DataWin { font: final(self).font, ..*old(self) }),
    {
        if self.txtr.is_none() || self.font.is_none() {
            return Err(Error::NotLoaded);
        }
        let mut font = self.font.take().unwrap();
        let pages = &self.txtr.as_ref().unwrap().spritesheets;
        let ghost before = font.fonts@;
        let ghost check = |e: FontEntry| font_check(self.buf@, pages@, e);
        let ghost resolved = |x: FontEntry, y: FontEntry| font_resolved(self.buf@, pages@, x, y);
        let mut i: usize = 0;
        while i < font.fonts.len()
            invariant
                *old(self) == (DataWin { font: old(self).font, ..*self }),
                old(self).font matches Some(s) && s.fonts@ == before,
                old(self).txtr matches Some(t) && t.spritesheets == *pages,
                self.font is None,
                pages_wf(pages@),
                check == |e: FontEntry| font_check(old(self).buf@, pages@, e),
                resolved == |x: FontEntry, y: FontEntry| font_resolved(old(self).buf@, pages@, x, y),
                batch_progress(before, font.fonts@, check, resolved, i as int),
            decreases font.fonts@.len() - i,
        {
            match load_font_raw(self.buf.as_slice(), pages, &font.fonts[i]) {
                Ok(Some(after)) => {
                    font.fonts.set(i, after);
                },
                Ok(None) => {},
                Err(e) => {
                    proof {
                        lemma_batch_stop(before, font.fonts@, check, resolved, i as int, e);
                    }
                    self.font = Some(font);
                    return Err(e);
                },
            }
            i = i + 1;
        }
        self.font = Some(font);
        Ok(())
    }
}

} // verus!
