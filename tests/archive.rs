use dr_extract::chunk::{
    read_string_at, read_string_ptr, read_string_raw, AudioType, Audo, BackgroundState, Chunk, Gen8, PNGState,
    SoundEntry, SpriteState,
};
use dr_extract::cursor::ByteCursor;
use dr_extract::materialize::load_sound_raw;
use dr_extract::raster::{decode_image, Raster};
use dr_extract::{prepare_bytes, DataWin, Error};

/// Writes little-endian values and remembers nothing but the bytes.
struct W {
    b: Vec<u8>,
}

impl W {
    fn new() -> W {
        W { b: Vec::new() }
    }
    fn pos(&self) -> u32 {
        self.b.len() as u32
    }
    fn bytes(&mut self, v: &[u8]) {
        self.b.extend_from_slice(v);
    }
    fn u8(&mut self, v: u8) {
        self.b.push(v);
    }
    fn u16(&mut self, v: u16) {
        self.bytes(&v.to_le_bytes());
    }
    fn u32(&mut self, v: u32) {
        self.bytes(&v.to_le_bytes());
    }
    fn i32(&mut self, v: i32) {
        self.bytes(&v.to_le_bytes());
    }
    fn zeros(&mut self, n: usize) {
        for _ in 0..n {
            self.b.push(0);
        }
    }
    fn set_u32(&mut self, at: u32, v: u32) {
        let a = at as usize;
        self.b[a..a + 4].copy_from_slice(&v.to_le_bytes());
    }
    fn cstr(&mut self, s: &str) -> u32 {
        let p = self.pos();
        self.bytes(s.as_bytes());
        self.u8(0);
        p
    }
    /// Starts a chunk and returns where its length goes.
    fn chunk(&mut self, tag: &[u8; 4]) -> u32 {
        self.bytes(tag);
        let p = self.pos();
        self.u32(0);
        p
    }
    fn end(&mut self, len_at: u32) {
        let n = self.pos() - len_at - 4;
        self.set_u32(len_at, n);
    }
    /// A geometry record.
    fn tpag(&mut self, x: u16, y: u16, w: u16, h: u16, page: u16) -> u32 {
        let p = self.pos();
        for v in [x, y, w, h, 0, 0, 0, 0, w, h, page] {
            self.u16(v);
        }
        p
    }
}

fn rgba(r: u8, g: u8, b: u8, a: u8) -> u32 {
    u32::from_le_bytes([r, g, b, a])
}

fn png_2x2() -> (Vec<u8>, Vec<u8>) {
    let raw: Vec<u8> = vec![255, 0, 0, 255, 0, 255, 0, 255, 0, 0, 255, 255, 10, 20, 30, 40];
    let img = image::RgbaImage::from_raw(2, 2, raw.clone()).unwrap();
    let mut out = std::io::Cursor::new(Vec::new());
    image::DynamicImage::ImageRgba8(img).write_to(&mut out, image::ImageOutputFormat::Png).unwrap();
    (out.into_inner(), raw)
}

fn grid(width: u32, height: u32) -> Raster {
    let mut pixels = Vec::new();
    for j in 0..height {
        for i in 0..width {
            pixels.push(j * 100 + i);
        }
    }
    Raster { width, height, pixels }
}

/// A GEN8 record with the display name pointer left at `+100`.
fn write_gen8(w: &mut W) -> u32 {
    let p = w.pos();
    w.u8(1);
    w.bytes(&[0xFE, 0xFF, 0xFF]);
    w.u32(0);
    w.u32(0);
    w.u32(100001);
    w.u32(7);
    w.u32(42);
    for k in 0..4 {
        w.u32(k);
    }
    w.u32(0);
    for v in [2i32, 3, 4, 5, 640, 480] {
        w.i32(v);
    }
    w.u32(9);
    for k in 0..16u8 {
        w.u8(k);
    }
    w.u32(0xDEADBEEF);
    w.bytes(&0x0102030405060708u64.to_le_bytes());
    w.u32(0);
    w.u32(3);
    for k in 10..14 {
        w.u32(k);
    }
    w.u32(480);
    w.u32(2);
    w.u32(11);
    w.u32(22);
    p
}

fn metadata_only() -> Vec<u8> {
    let mut w = W::new();
    let root = w.chunk(b"FORM");
    let c = w.chunk(b"GEN8");
    let g = write_gen8(&mut w);
    w.end(c);
    let s = w.chunk(b"STRG");
    let name = w.cstr("Test Game");
    let file = w.cstr("game");
    w.end(s);
    w.set_u32(g + 100, name);
    w.set_u32(g + 4, file);
    w.end(root);
    w.b
}

fn open(bytes: Vec<u8>, groups: Vec<Vec<u8>>) -> DataWin {
    prepare_bytes(bytes, groups).unwrap().fetch_chunks().unwrap()
}

/// A page chunk with one page, a geometry chunk and a sprite chunk whose
/// sprite has the frame pointers `frames` (a pointer of 1 means the geometry
/// record).
fn sprite_archive(png: &[u8], geometry: (u16, u16, u16, u16, u16), frames: &[i32]) -> Vec<u8> {
    let mut w = W::new();
    let root = w.chunk(b"FORM");
    let c = w.chunk(b"GEN8");
    let g = write_gen8(&mut w);
    w.end(c);

    let c = w.chunk(b"TXTR");
    w.i32(1);
    let slot = w.pos();
    w.u32(0);
    let entry = w.pos();
    w.u32(5);
    w.u32(6);
    let png_slot = w.pos();
    w.u32(0);
    let png_at = w.pos();
    w.bytes(png);
    w.set_u32(slot, entry);
    w.set_u32(png_slot, png_at);
    w.end(c);

    let c = w.chunk(b"TPAG");
    w.i32(1);
    let slot = w.pos();
    w.u32(0);
    let t = w.tpag(geometry.0, geometry.1, geometry.2, geometry.3, geometry.4);
    w.set_u32(slot, t);
    w.end(c);

    let c = w.chunk(b"SPRT");
    w.i32(1);
    let slot = w.pos();
    w.u32(0);
    let spr = w.pos();
    w.u32(0);
    for v in [2i32, 2, 0, 1, 1, 0] {
        w.i32(v);
    }
    w.zeros(12);
    w.u32(1);
    w.u32(0);
    w.u32(1);
    w.u32(1);
    w.zeros(28);
    w.i32(frames.len() as i32);
    for f in frames {
        w.i32(if *f == 1 { t as i32 } else { *f });
    }
    w.set_u32(slot, spr);
    w.end(c);

    let s = w.chunk(b"STRG");
    let name = w.cstr("Test Game");
    let spr_name = w.cstr("spr_player");
    w.end(s);
    w.set_u32(g + 100, name);
    w.set_u32(spr, spr_name);
    w.end(root);
    w.b
}

#[test]
fn reads_little_endian_integers() {
    let bytes = vec![0x01, 0x02, 0x03, 0x04, 0xFF, 0xFF, 0xFF, 0xFF, 0x00, 0x00, 0x80];
    let mut c = ByteCursor::new(&bytes, 0);
    assert_eq!(c.read_u32(), Ok(0x04030201));
    assert_eq!(c.read_i32(), Ok(-1));
    assert_eq!(c.position(), 8);
    assert_eq!(c.read_i24(), Ok(-0x80_0000));
    assert_eq!(c.read_u8(), Err(Error::Truncated));
    c.set_position(0);
    assert_eq!(c.read_u16(), Ok(0x0201));
    assert_eq!(c.read_u64(), Ok(0x0000_FFFF_FFFF_0403));
    assert_eq!(c.read_u16(), Err(Error::Truncated));
    assert_eq!(c.position(), 10);
}

#[test]
fn string_pointer_zero_is_empty_on_empty_buffer() {
    let bytes: Vec<u8> = Vec::new();
    let mut c = ByteCursor::new(&bytes, 0);
    assert_eq!(read_string_at(0, &mut c), Ok(String::new()));
    assert_eq!(c.position(), 0);
}

#[test]
fn string_at_offset_restores_position() {
    let bytes = b"xxhello\0tail".to_vec();
    let mut c = ByteCursor::new(&bytes, 9);
    assert_eq!(read_string_at(2, &mut c), Ok("hello".to_string()));
    assert_eq!(c.position(), 9);
    assert_eq!(read_string_at(9, &mut c), Err(Error::Truncated));
    assert_eq!(c.position(), 9);
}

#[test]
fn string_reads_report_encoding_and_truncation() {
    let bytes = vec![0x08, 0, 0, 0, 0xFF, 0xFE, 0, 0, 0x61, 0x62, 0];
    let mut c = ByteCursor::new(&bytes, 4);
    assert_eq!(read_string_raw(&mut c), Err(Error::Encoding));
    assert_eq!(c.position(), 4);
    c.set_position(0);
    assert_eq!(read_string_ptr(&mut c), Ok("ab".to_string()));
    assert_eq!(c.position(), 4);
    c.set_position(8);
    assert_eq!(read_string_raw(&mut c), Ok("ab".to_string()));
    assert_eq!(c.position(), 11);
    let short = vec![1u8, 0];
    let mut c = ByteCursor::new(&short, 0);
    assert_eq!(read_string_ptr(&mut c), Err(Error::Truncated));
}

#[test]
fn directory_requires_root_tag() {
    let mut bytes = metadata_only();
    bytes[3] = b'X';
    assert!(matches!(prepare_bytes(bytes, vec![]).unwrap().fetch_chunks(), Err(Error::FormatError)));
    assert!(matches!(prepare_bytes(b"FOR".to_vec(), vec![]).unwrap().fetch_chunks(), Err(Error::Truncated)));
}

#[test]
fn directory_records_payload_offsets() {
    let bytes = metadata_only();
    let data = open(bytes, vec![]);
    assert_eq!(data.chunk_addrs.len(), 2);
    assert_eq!(data.chunk_addrs[0], (*b"GEN8", 16));
    assert_eq!(&data.chunk_addrs[1].0, b"STRG");
    assert!(data.gen8.is_none());
}

#[test]
fn directory_detects_a_cut_chunk_header() {
    let mut bytes = metadata_only();
    bytes.extend_from_slice(b"AB");
    assert!(matches!(prepare_bytes(bytes, vec![]).unwrap().fetch_chunks(), Err(Error::Truncated)));
}

#[test]
fn chunk_ids_are_their_tags() {
    assert_eq!(Gen8::get_id(), *b"GEN8");
    assert_eq!(dr_extract::chunk::Sprt::get_id(), *b"SPRT");
    assert_eq!(dr_extract::chunk::Audo::get_id(), *b"AUDO");
}

#[test]
fn decodes_metadata() {
    let mut data = open(metadata_only(), vec![]);
    assert_eq!(data.parse_gen8(), Ok(()));
    let g = data.gen8.as_ref().unwrap();
    assert_eq!(g.debug, 1);
    assert_eq!(g._unknown1, -2);
    assert_eq!(g.filename, "game");
    assert_eq!(g.config, "");
    assert_eq!(g.last_obj, 100001);
    assert_eq!(g.game_id, 42);
    assert_eq!(g._unknown2, vec![0, 1, 2, 3]);
    assert_eq!(g.major, 2);
    assert_eq!(g.default_window_height, 480);
    assert_eq!(g.license_md5, (0..16u8).collect::<Vec<u8>>());
    assert_eq!(g.license_crc32, 0xDEADBEEF);
    assert_eq!(g.timestamp, 0x0102030405060708);
    assert_eq!(g.display_name, "Test Game");
    assert_eq!(g._unknown3, vec![10, 11, 12, 13]);
    assert_eq!(g.steam_app_id, 480);
    assert_eq!(g.number_count, 2);
    assert_eq!(g.numbers, vec![11, 22]);
}

#[test]
fn decoding_twice_changes_nothing() {
    let mut data = open(metadata_only(), vec![]);
    data.parse_gen8().unwrap();
    let first = format!("{:?}", data);
    assert_eq!(data.parse_gen8(), Ok(()));
    assert_eq!(format!("{:?}", data), first);
}

#[test]
fn missing_chunk_leaves_state_alone() {
    let mut data = open(metadata_only(), vec![]);
    data.parse_gen8().unwrap();
    let before = format!("{:?}", data);
    assert_eq!(data.parse_optn(), Err(Error::MissingChunk));
    assert_eq!(data.parse_sprt(), Err(Error::MissingChunk));
    assert_eq!(format!("{:?}", data), before);
}

#[test]
fn truncated_record_fails_only_its_chunk() {
    let mut w = W::new();
    let root = w.chunk(b"FORM");
    let c = w.chunk(b"TPAG");
    w.i32(1);
    w.u32(1000);
    w.end(c);
    let c = w.chunk(b"TXTR");
    w.i32(0);
    w.end(c);
    w.end(root);
    let mut data = open(w.b, vec![]);
    assert_eq!(data.parse_tpag(), Err(Error::Truncated));
    assert!(data.tpag.is_none());
    assert_eq!(data.parse_txtr(), Ok(()));
    assert_eq!(data.txtr.as_ref().unwrap().spritesheets.len(), 0);
}

#[test]
fn decodes_options_pairs() {
    let mut w = W::new();
    let root = w.chunk(b"FORM");
    let c = w.chunk(b"OPTN");
    w.u32(1);
    w.u32(2);
    w.u32(0x55);
    w.zeros(48);
    w.i32(2);
    let s0 = w.pos();
    w.u32(0);
    let s1 = w.pos();
    w.u32(0);
    let pair_a = w.pos();
    w.u32(0);
    w.u32(0);
    let pair_b = w.pos();
    w.u32(0);
    w.u32(0);
    w.end(c);
    let s = w.chunk(b"STRG");
    let a = w.cstr("@@SleepMargin");
    let b = w.cstr("1");
    let d = w.cstr("@@DrawColour");
    let e = w.cstr("4294967295");
    w.end(s);
    w.set_u32(s0, pair_a);
    w.set_u32(s1, pair_b);
    w.set_u32(pair_a, a);
    w.set_u32(pair_a + 4, b);
    w.set_u32(pair_b, d);
    w.set_u32(pair_b + 4, e);
    w.end(root);
    let mut data = open(w.b, vec![]);
    assert_eq!(data.parse_optn(), Ok(()));
    let o = data.optn.as_ref().unwrap();
    assert_eq!(o._unknown1, vec![1, 2]);
    assert_eq!(o.info, 0x55);
    assert_eq!(o._unknown2.len(), 12);
    assert_eq!(
        o.constant_map,
        vec![
            ("@@SleepMargin".to_string(), "1".to_string()),
            ("@@DrawColour".to_string(), "4294967295".to_string())
        ]
    );
}

#[test]
fn crop_takes_the_requested_rectangle() {
    let page = grid(10, 10);
    let out = page.crop(2, 3, 4, 5);
    assert_eq!((out.width, out.height), (4, 5));
    assert_eq!(out.pixels.len(), 20);
    for j in 0..5u32 {
        for i in 0..4u32 {
            assert_eq!(out.pixels[(j * 4 + i) as usize], (3 + j) * 100 + (2 + i));
        }
    }
}

#[test]
fn crop_is_cut_at_the_edges() {
    let page = grid(10, 10);
    let out = page.crop(8, 9, 5, 5);
    assert_eq!((out.width, out.height), (2, 1));
    assert_eq!(out.pixels, vec![908, 909]);
    let none = page.crop(12, 0, 3, 3);
    assert_eq!((none.width, none.height), (0, 3));
    assert!(none.pixels.is_empty());
}

#[test]
fn decodes_png_bytes_to_rgba_pixels() {
    let (png, _) = png_2x2();
    let img = decode_image(&png).unwrap();
    assert_eq!((img.width, img.height), (2, 2));
    assert_eq!(
        img.pixels,
        vec![rgba(255, 0, 0, 255), rgba(0, 255, 0, 255), rgba(0, 0, 255, 255), rgba(10, 20, 30, 40)]
    );
    assert!(decode_image(b"not an image").is_none());
}

#[test]
fn end_to_end_sprite_frame_matches_source_image() {
    let (png, raw) = png_2x2();
    let bytes = sprite_archive(&png, (0, 0, 2, 2, 0), &[1]);
    let mut data = open(bytes, vec![]);
    data.parse_gen8().unwrap();
    assert_eq!(data.gen8.as_ref().unwrap().display_name, "Test Game");
    data.parse_txtr().unwrap();
    data.load_spritesheets().unwrap();
    data.parse_sprt().unwrap();
    assert_eq!(data.load_sprite("spr_player".to_string()), Ok(()));
    let sprites = &data.sprt.as_ref().unwrap().sprites;
    assert_eq!(sprites.len(), 1);
    assert_eq!(sprites[0].name, "spr_player");
    match &sprites[0].textures {
        SpriteState::Loaded { textures } => {
            assert_eq!(textures.len(), 1);
            assert_eq!((textures[0].width, textures[0].height), (2, 2));
            let expected: Vec<u32> = raw.chunks(4).map(|p| u32::from_le_bytes([p[0], p[1], p[2], p[3]])).collect();
            assert_eq!(textures[0].pixels, expected);
        }
        SpriteState::Unloaded { .. } => panic!("sprite not resolved"),
    }
}

#[test]
fn sprite_frame_crops_part_of_the_page() {
    let (png, _) = png_2x2();
    let bytes = sprite_archive(&png, (1, 1, 1, 1, 0), &[1]);
    let mut data = open(bytes, vec![]);
    data.parse_txtr().unwrap();
    data.load_spritesheets().unwrap();
    data.parse_sprt().unwrap();
    assert_eq!(data.load_sprites(), Ok(()));
    match &data.sprt.as_ref().unwrap().sprites[0].textures {
        SpriteState::Loaded { textures } => assert_eq!(textures[0].pixels, vec![rgba(10, 20, 30, 40)]),
        SpriteState::Unloaded { .. } => panic!("sprite not resolved"),
    }
}

#[test]
fn zero_frame_pointer_gives_no_frame() {
    let (png, _) = png_2x2();
    let bytes = sprite_archive(&png, (0, 0, 2, 2, 0), &[0, 1, 0]);
    let mut data = open(bytes, vec![]);
    data.parse_txtr().unwrap();
    data.load_spritesheets().unwrap();
    data.parse_sprt().unwrap();
    assert_eq!(data.load_sprites(), Ok(()));
    match &data.sprt.as_ref().unwrap().sprites[0].textures {
        SpriteState::Loaded { textures } => assert_eq!(textures.len(), 1),
        SpriteState::Unloaded { .. } => panic!("sprite not resolved"),
    }
}

#[test]
fn only_zero_pointers_need_no_page() {
    let (png, _) = png_2x2();
    let bytes = sprite_archive(&png, (0, 0, 2, 2, 0), &[0]);
    let mut data = open(bytes, vec![]);
    data.parse_txtr().unwrap();
    data.parse_sprt().unwrap();
    assert_eq!(data.load_sprites(), Ok(()));
    match &data.sprt.as_ref().unwrap().sprites[0].textures {
        SpriteState::Loaded { textures } => assert!(textures.is_empty()),
        SpriteState::Unloaded { .. } => panic!("sprite not resolved"),
    }
}

#[test]
fn sprite_before_pages_is_not_loaded() {
    let (png, _) = png_2x2();
    let bytes = sprite_archive(&png, (0, 0, 2, 2, 0), &[1]);
    let mut data = open(bytes, vec![]);
    data.parse_sprt().unwrap();
    assert_eq!(data.load_sprites(), Err(Error::NotLoaded));
    data.parse_txtr().unwrap();
    assert_eq!(data.load_sprites(), Err(Error::NotLoaded));
    assert!(matches!(data.sprt.as_ref().unwrap().sprites[0].textures, SpriteState::Unloaded { .. }));
    let mut fresh = open(sprite_archive(&png, (0, 0, 2, 2, 0), &[1]), vec![]);
    assert_eq!(fresh.load_spritesheets(), Err(Error::NotLoaded));
}

#[test]
fn sprite_with_missing_page_is_out_of_range() {
    let (png, _) = png_2x2();
    let bytes = sprite_archive(&png, (0, 0, 2, 2, 3), &[1]);
    let mut data = open(bytes, vec![]);
    data.parse_txtr().unwrap();
    data.load_spritesheets().unwrap();
    data.parse_sprt().unwrap();
    assert_eq!(data.load_sprite("spr_player".to_string()), Err(Error::IndexOutOfRange));
    assert_eq!(data.load_sprite("nobody".to_string()), Ok(()));
}

#[test]
fn resolving_twice_keeps_the_frames() {
    let (png, _) = png_2x2();
    let bytes = sprite_archive(&png, (0, 0, 2, 2, 0), &[1]);
    let mut data = open(bytes, vec![]);
    data.parse_txtr().unwrap();
    data.load_spritesheets().unwrap();
    data.parse_sprt().unwrap();
    data.load_sprites().unwrap();
    let first = format!("{:?}", data);
    assert_eq!(data.load_sprites(), Ok(()));
    assert_eq!(data.load_spritesheets(), Ok(()));
    assert_eq!(format!("{:?}", data), first);
}

#[test]
fn rejected_page_bytes_are_a_codec_failure() {
    let bytes = sprite_archive(b"garbage bytes here", (0, 0, 2, 2, 0), &[1]);
    let mut data = open(bytes, vec![]);
    data.parse_txtr().unwrap();
    assert_eq!(data.load_spritesheets(), Err(Error::CodecFailure));
    assert!(matches!(data.txtr.as_ref().unwrap().spritesheets[0].png, PNGState::Unloaded { .. }));
    assert_eq!(data.txtr.as_ref().unwrap().spritesheets[0]._unknown1, 5);
}

fn sound(group_id: i32, audio_id: i32) -> SoundEntry {
    SoundEntry {
        name: "snd".to_string(),
        flags: 0,
        type_: ".ogg".to_string(),
        file: "snd.ogg".to_string(),
        _unknown1: 0,
        volume: 1.0f32.to_bits(),
        pitch: 0,
        group_id,
        audio_id,
        audio_data: None,
    }
}

#[test]
fn sound_with_no_audio_id_is_external() {
    let audos = vec![Audo { sounds: vec![vec![1, 2, 3]] }];
    let r = load_sound_raw(&sound(99, -1), &audos).unwrap().unwrap();
    assert!(matches!(r.audio_data, Some(AudioType::External)));
    assert_eq!(r.file, "snd.ogg");
}

#[test]
fn sound_copies_its_group_blob() {
    let audos = vec![Audo { sounds: vec![vec![1, 2, 3]] }, Audo { sounds: vec![vec![9], vec![4, 5]] }];
    let r = load_sound_raw(&sound(1, 1), &audos).unwrap().unwrap();
    match r.audio_data {
        Some(AudioType::Internal(v)) => assert_eq!(v, vec![4, 5]),
        _ => panic!("not internal"),
    }
    assert!(matches!(load_sound_raw(&sound(2, 0), &audos), Err(Error::IndexOutOfRange)));
    assert!(matches!(load_sound_raw(&sound(0, 1), &audos), Err(Error::IndexOutOfRange)));
    let mut done = sound(0, 0);
    done.audio_data = Some(AudioType::External);
    assert!(matches!(load_sound_raw(&done, &audos), Ok(None)));
}

fn sound_archive() -> (Vec<u8>, Vec<u8>) {
    let mut w = W::new();
    let root = w.chunk(b"FORM");
    let c = w.chunk(b"SOND");
    w.i32(2);
    let s0 = w.pos();
    w.u32(0);
    let s1 = w.pos();
    w.u32(0);
    let e0 = w.pos();
    for v in [0u32, 0x64, 0, 0, 0, 1.0f32.to_bits(), 0] {
        w.u32(v);
    }
    w.i32(0);
    w.i32(0);
    let e1 = w.pos();
    for v in [0u32, 0x64, 0, 0, 0, 0.5f32.to_bits(), 0] {
        w.u32(v);
    }
    w.i32(1);
    w.i32(0);
    w.end(c);
    let c = w.chunk(b"AUDO");
    w.i32(1);
    let slot = w.pos();
    w.u32(0);
    let blob = w.pos();
    w.u32(3);
    w.bytes(&[7, 8, 9]);
    w.set_u32(slot, blob);
    w.end(c);
    let s = w.chunk(b"STRG");
    let n0 = w.cstr("snd_click");
    let n1 = w.cstr("mus_theme");
    w.end(s);
    w.set_u32(s0, e0);
    w.set_u32(s1, e1);
    w.set_u32(e0, n0);
    w.set_u32(e1, n1);
    w.end(root);

    let mut g = W::new();
    let root = g.chunk(b"FORM");
    let c = g.chunk(b"AUDO");
    g.i32(1);
    let slot = g.pos();
    g.u32(0);
    let blob = g.pos();
    g.u32(2);
    g.bytes(&[0xAA, 0xBB]);
    g.set_u32(slot, blob);
    g.end(c);
    g.end(root);
    (w.b, g.b)
}

#[test]
fn sounds_resolve_across_audio_groups() {
    let (main, group) = sound_archive();
    let mut data = open(main, vec![group]);
    data.parse_sond().unwrap();
    assert_eq!(data.load_sounds(), Err(Error::NotLoaded));
    data.parse_audo().unwrap();
    let audo = data.audo.as_ref().unwrap();
    assert_eq!(audo.len(), 2);
    assert_eq!(audo[0].sounds, vec![vec![7, 8, 9]]);
    assert_eq!(audo[1].sounds, vec![vec![0xAA, 0xBB]]);
    assert_eq!(data.load_sound("mus_theme".to_string()), Ok(()));
    let sounds = &data.sond.as_ref().unwrap().sounds;
    assert_eq!(sounds[0].name, "snd_click");
    assert!(sounds[0].audio_data.is_none());
    assert!(matches!(&sounds[1].audio_data, Some(AudioType::Internal(v)) if *v == vec![0xAA, 0xBB]));
    assert_eq!(sounds[1].volume, 0.5f32.to_bits());
    assert_eq!(data.load_sounds(), Ok(()));
    let sounds = &data.sond.as_ref().unwrap().sounds;
    assert!(matches!(&sounds[0].audio_data, Some(AudioType::Internal(v)) if *v == vec![7, 8, 9]));
}

fn background_archive(png: &[u8], address_is_zero: bool) -> Vec<u8> {
    let mut w = W::new();
    let root = w.chunk(b"FORM");
    let c = w.chunk(b"TXTR");
    w.i32(1);
    let slot = w.pos();
    w.u32(0);
    let entry = w.pos();
    w.u32(0);
    w.u32(0);
    let png_slot = w.pos();
    w.u32(0);
    let png_at = w.pos();
    w.bytes(png);
    w.set_u32(slot, entry);
    w.set_u32(png_slot, png_at);
    w.end(c);
    let c = w.chunk(b"BGND");
    w.i32(1);
    let slot = w.pos();
    w.u32(0);
    let bg = w.pos();
    w.u32(0);
    w.u32(1);
    w.u32(2);
    w.u32(3);
    let tex_slot = w.pos();
    w.i32(0);
    w.u32(0);
    for v in [16u32, 8, 1, 2, 5, 3, 2, 0, 0] {
        w.u32(v);
    }
    for id in 0..6u32 {
        w.u32(id * 10);
    }
    let t = w.tpag(0, 1, 2, 1, 0);
    if !address_is_zero {
        w.set_u32(tex_slot, t);
    }
    w.set_u32(slot, bg);
    w.end(c);
    let s = w.chunk(b"STRG");
    let name = w.cstr("bg_tiles");
    w.end(s);
    w.set_u32(bg, name);
    w.end(root);
    w.b
}

#[test]
fn decodes_and_resolves_backgrounds() {
    let (png, _) = png_2x2();
    let mut data = open(background_archive(&png, false), vec![]);
    data.parse_bgnd().unwrap();
    {
        let b = &data.bgnd.as_ref().unwrap().backgrounds[0];
        assert_eq!(b.name, "bg_tiles");
        assert_eq!(b._unknown1, vec![1, 2, 3]);
        assert_eq!((b.tile_width, b.tile_height, b.margin_x, b.margin_y, b.columns), (16, 8, 1, 2, 5));
        assert_eq!(b.ids, vec![0, 10, 20, 30, 40, 50]);
    }
    assert_eq!(data.load_backgrounds(), Err(Error::NotLoaded));
    data.parse_txtr().unwrap();
    assert_eq!(data.load_background("bg_tiles".to_string()), Err(Error::NotLoaded));
    data.load_spritesheets().unwrap();
    assert_eq!(data.load_background("bg_tiles".to_string()), Ok(()));
    match &data.bgnd.as_ref().unwrap().backgrounds[0].texture {
        BackgroundState::Loaded { texture } => {
            assert_eq!((texture.width, texture.height), (2, 1));
            assert_eq!(texture.pixels, vec![rgba(0, 0, 255, 255), rgba(10, 20, 30, 40)]);
        }
        BackgroundState::Unloaded { .. } => panic!("background not resolved"),
    }
    assert_eq!(data.load_backgrounds(), Ok(()));
}

#[test]
fn background_with_zero_pointer_stays_unresolved() {
    let (png, _) = png_2x2();
    let mut data = open(background_archive(&png, true), vec![]);
    data.parse_bgnd().unwrap();
    data.parse_txtr().unwrap();
    assert_eq!(data.load_backgrounds(), Ok(()));
    assert!(matches!(
        data.bgnd.as_ref().unwrap().backgrounds[0].texture,
        BackgroundState::Unloaded { texture_address: 0 }
    ));
}

#[test]
fn column_override_changes_only_named_backgrounds() {
    let (png, _) = png_2x2();
    let mut data = open(background_archive(&png, false), vec![]);
    assert_eq!(data.override_columns(&vec![("bg_tiles".to_string(), 3)]), Err(Error::NotLoaded));
    data.parse_bgnd().unwrap();
    assert_eq!(data.override_columns(&vec![("other".to_string(), 9)]), Ok(()));
    assert_eq!(data.bgnd.as_ref().unwrap().backgrounds[0].columns, 5);
    assert_eq!(
        data.override_columns(&vec![("bg_tiles".to_string(), 3), ("bg_tiles".to_string(), 4)]),
        Ok(())
    );
    let b = &data.bgnd.as_ref().unwrap().backgrounds[0];
    assert_eq!(b.columns, 3);
    assert_eq!(b.ids.len(), 6);
}

#[test]
fn decodes_fonts_and_cuts_glyphs() {
    let (png, _) = png_2x2();
    let mut w = W::new();
    let root = w.chunk(b"FORM");
    let c = w.chunk(b"TXTR");
    w.i32(1);
    let slot = w.pos();
    w.u32(0);
    let entry = w.pos();
    w.u32(0);
    w.u32(0);
    let png_slot = w.pos();
    w.u32(0);
    let png_at = w.pos();
    w.bytes(&png);
    w.set_u32(slot, entry);
    w.set_u32(png_slot, png_at);
    w.end(c);
    let c = w.chunk(b"FONT");
    w.i32(1);
    let slot = w.pos();
    w.u32(0);
    let f = w.pos();
    w.u32(0);
    w.u32(0);
    w.u32((-12.0f32).to_bits());
    w.u32(1);
    w.u32(0);
    w.u16(32);
    w.u8(1);
    w.u8(3);
    w.u32(127);
    let tpag_slot = w.pos();
    w.u32(0);
    w.u32(1.0f32.to_bits());
    w.u32(2.0f32.to_bits());
    w.i32(0);
    w.i32(2);
    let g0 = w.pos();
    w.u32(0);
    let g1 = w.pos();
    w.u32(0);
    let glyph0 = w.pos();
    for v in [65u16, 1, 0, 1, 2] {
        w.u16(v);
    }
    w.bytes(&[1, 2, 3, 4]);
    let glyph1 = w.pos();
    for v in [32u16, 0, 1, 0, 0] {
        w.u16(v);
    }
    w.bytes(&[0, 0, 0, 0]);
    let t = w.tpag(0, 0, 2, 2, 0);
    w.set_u32(tpag_slot, t);
    w.set_u32(g0, glyph0);
    w.set_u32(g1, glyph1);
    w.set_u32(slot, f);
    w.end(c);
    let s = w.chunk(b"STRG");
    let code = w.cstr("fnt_main");
    let sys = w.cstr("Arial");
    w.end(s);
    w.set_u32(f, code);
    w.set_u32(f + 4, sys);
    w.end(root);

    let mut data = open(w.b, vec![]);
    data.parse_font().unwrap();
    {
        let font = &data.font.as_ref().unwrap().fonts[0];
        assert_eq!(font.code_name, "fnt_main");
        assert_eq!(font.system_name, "Arial");
        assert_eq!(font.em_size, 12.0f32.to_bits());
        assert!(font.bold);
        assert!(!font.italic);
        assert_eq!((font.range_start, font.charset, font.antialiasing, font.range_end), (32, 1, 3, 127));
        assert_eq!(font.scale_y, 2.0f32.to_bits());
        assert_eq!(font.glyphs.len(), 2);
        assert_eq!(font.glyphs[0].character, 65);
        assert_eq!(font.glyphs[0]._unknown1, vec![1, 2, 3, 4]);
        assert!(font.glyphs[0].texture.is_none());
    }
    assert_eq!(data.load_fonts(), Err(Error::NotLoaded));
    data.parse_txtr().unwrap();
    data.load_spritesheets().unwrap();
    assert_eq!(data.load_fonts(), Ok(()));
    let font = &data.font.as_ref().unwrap().fonts[0];
    let a = font.glyphs[0].texture.as_ref().unwrap();
    assert_eq!((a.width, a.height), (1, 2));
    assert_eq!(a.pixels, vec![rgba(0, 255, 0, 255), rgba(10, 20, 30, 40)]);
    let space = font.glyphs[1].texture.as_ref().unwrap();
    assert_eq!((space.width, space.height), (1, 1));
    assert_eq!(space.pixels, vec![rgba(0, 0, 255, 255)]);
}
