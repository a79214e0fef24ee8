use engine::aseprite::ase::chunks::{Cel, OldPaletteChunk, Palette, Slice, Tags, Tileset};
use engine::aseprite::ase::{Aseprite, Frame, Header};

fn u16le(v: u16) -> [u8; 2] {
    v.to_le_bytes()
}
fn u32le(v: u32) -> [u8; 4] {
    v.to_le_bytes()
}

fn header(frames: u16, depth: u16) -> Vec<u8> {
    let mut h = vec![0u8; 128];
    h[0..4].copy_from_slice(&u32le(1000));
    h[4..6].copy_from_slice(&u16le(0xA5E0));
    h[6..8].copy_from_slice(&u16le(frames));
    h[8..10].copy_from_slice(&u16le(2));
    h[10..12].copy_from_slice(&u16le(1));
    h[12..14].copy_from_slice(&u16le(depth));
    h[14..18].copy_from_slice(&u32le(1));
    h[18..20].copy_from_slice(&u16le(100));
    h[28] = 3;
    h[32..34].copy_from_slice(&u16le(16));
    h[34] = 1;
    h[35] = 1;
    h[40..42].copy_from_slice(&u16le(16));
    h[42..44].copy_from_slice(&u16le(16));
    h
}

fn chunk(ty: u16, data: &[u8]) -> Vec<u8> {
    let mut c = Vec::new();
    c.extend_from_slice(&u32le(data.len() as u32 + 6));
    c.extend_from_slice(&u16le(ty));
    c.extend_from_slice(data);
    c
}

fn frame(chunks: &[Vec<u8>], duration: u16) -> Vec<u8> {
    let body: Vec<u8> = chunks.concat();
    let mut f = Vec::new();
    f.extend_from_slice(&u32le(body.len() as u32 + 16));
    f.extend_from_slice(&u16le(0xF1FA));
    f.extend_from_slice(&u16le(chunks.len() as u16));
    f.extend_from_slice(&u16le(duration));
    f.extend_from_slice(&[0, 0]);
    f.extend_from_slice(&u32le(0));
    f.extend_from_slice(&body);
    f
}

fn string16(s: &str) -> Vec<u8> {
    let mut v = u16le(s.len() as u16).to_vec();
    v.extend_from_slice(s.as_bytes());
    v
}

fn layer_chunk(name: &str) -> Vec<u8> {
    let mut d = Vec::new();
    d.extend_from_slice(&u16le(3));
    d.extend_from_slice(&u16le(0));
    d.extend_from_slice(&u16le(0));
    d.extend_from_slice(&u16le(16));
    d.extend_from_slice(&u16le(16));
    d.extend_from_slice(&u16le(0));
    d.push(255);
    d.extend_from_slice(&[0, 0, 0]);
    d.extend_from_slice(&string16(name));
    chunk(0x2004, &d)
}

fn raw_cel_chunk(pixels: &[u8]) -> Vec<u8> {
    let mut d = Vec::new();
    d.extend_from_slice(&u16le(0));
    d.extend_from_slice(&(-1i16).to_le_bytes());
    d.extend_from_slice(&2i16.to_le_bytes());
    d.push(200);
    d.extend_from_slice(&u16le(0));
    d.extend_from_slice(&0i16.to_le_bytes());
    d.extend_from_slice(&[9; 5]);
    d.extend_from_slice(&u16le(1));
    d.extend_from_slice(&u16le(1));
    d.extend_from_slice(pixels);
    chunk(0x2005, &d)
}

fn tags_chunk() -> Vec<u8> {
    let mut d = Vec::new();
    d.extend_from_slice(&u16le(1));
    d.extend_from_slice(&[0; 8]);
    d.extend_from_slice(&u16le(0));
    d.extend_from_slice(&u16le(1));
    d.push(0);
    d.extend_from_slice(&u16le(0));
    d.extend_from_slice(&[0; 6]);
    d.extend_from_slice(&[10, 20, 30]);
    d.push(0);
    d.extend_from_slice(&string16("run"));
    chunk(0x2018, &d)
}

fn slice_chunk() -> Vec<u8> {
    let mut d = Vec::new();
    d.extend_from_slice(&u32le(1));
    d.extend_from_slice(&u32le(2));
    d.extend_from_slice(&u32le(0));
    d.extend_from_slice(&string16("hitbox"));
    d.extend_from_slice(&u32le(0));
    d.extend_from_slice(&3i32.to_le_bytes());
    d.extend_from_slice(&4i32.to_le_bytes());
    d.extend_from_slice(&u32le(5));
    d.extend_from_slice(&u32le(6));
    d.extend_from_slice(&7i32.to_le_bytes());
    d.extend_from_slice(&8i32.to_le_bytes());
    chunk(0x2022, &d)
}

fn palette_chunk() -> Vec<u8> {
    let mut d = Vec::new();
    d.extend_from_slice(&u32le(2));
    d.extend_from_slice(&u32le(0));
    d.extend_from_slice(&u32le(1));
    d.extend_from_slice(&[0; 8]);
    d.extend_from_slice(&u16le(0));
    d.extend_from_slice(&[1, 2, 3, 4]);
    d.extend_from_slice(&u16le(1));
    d.extend_from_slice(&[5, 6, 7, 8]);
    d.extend_from_slice(&string16("sky"));
    chunk(0x2019, &d)
}

fn old_palette_chunk() -> Vec<u8> {
    let mut d = Vec::new();
    d.extend_from_slice(&u16le(1));
    d.push(0);
    d.push(2);
    d.extend_from_slice(&[1, 2, 3, 4, 5, 6]);
    chunk(0x0004, &d)
}

fn sample_file() -> Vec<u8> {
    let mut b = header(2, 32);
    b.extend(frame(
        &[old_palette_chunk(), palette_chunk(), layer_chunk("Layer 1"), raw_cel_chunk(&[1, 2, 3, 4]),
            tags_chunk(), slice_chunk(), chunk(0x2020, &[1, 2, 3])],
        100,
    ));
    b.extend(frame(&[raw_cel_chunk(&[5, 6, 7, 8])], 50));
    b
}

#[test]
fn decodes_an_aseprite_file() {
    let b = sample_file();
    let a = Aseprite::new(&b);
    assert_eq!(a.header.magic_number, 0xA5E0);
    assert_eq!((a.header.width, a.header.height, a.header.color_depth), (2, 1, 32));
    assert_eq!((a.header.flags, a.header.speed, a.header.palette_transparent_index), (1, 100, 3));
    assert_eq!((a.header.color_count, a.header.grid_width), (16, 16));
    assert_eq!(a.frame_count, 2);
    let f = &a.frames[0];
    assert_eq!((f.magic_number, f.duration, f.chunk_count_legacy), (0xF1FA, 100, 7));
    assert_eq!(f.layers.len(), 1);
    assert_eq!(f.layers[0].name, "Layer 1");
    assert_eq!((f.layers[0].flags, f.layers[0].opacity), (3, 255));
    assert_eq!(f.cels.len(), 1);
    let cel = &f.cels[0];
    assert_eq!((cel.position_x, cel.position_y, cel.opacity, cel.kind), (-1, 2, 200, 0));
    assert_eq!(cel.reserved, [0; 5]);
    let img = cel.image_data.as_ref().unwrap();
    assert_eq!((img.width, img.height, img.color_depth, img.is_zlib_compressed), (1, 1, 32, false));
    assert_eq!(img.data, vec![1, 2, 3, 4]);
    let tags = f.tags.as_ref().unwrap();
    assert_eq!(tags.count, 1);
    assert_eq!(tags.tags[0].name, "run");
    assert_eq!((tags.tags[0].from, tags.tags[0].to, tags.tags[0].color), (0, 1, [10, 20, 30]));
    assert_eq!(f.slices.len(), 1);
    assert_eq!(f.slices[0].name, "hitbox");
    let key = f.slices[0].keys[0];
    assert_eq!((key.x, key.y, key.width, key.height), (3, 4, 5, 6));
    assert!(key.nine_patch.is_none());
    let pivot = key.pivot.unwrap();
    assert_eq!((pivot.x, pivot.y), (7, 8));
    assert_eq!(f.palettes.len(), 1);
    let pal = &f.palettes[0];
    assert_eq!((pal.size, pal.first_color_index, pal.last_color_index), (2, 0, 1));
    assert_eq!(pal.entries[0].name, None);
    assert_eq!((pal.entries[1].red, pal.entries[1].alpha), (5, 8));
    assert_eq!(pal.entries[1].name.as_deref(), Some("sky"));
    assert!(f.color_profile.is_none());
    assert_eq!(a.frames[1].cels[0].image_data.as_ref().unwrap().data, vec![5, 6, 7, 8]);
    assert_eq!(a.frames[1].duration, 50);
}

#[test]
fn refuses_a_wrong_magic_number() {
    let mut b = sample_file();
    b[4] = 0;
    assert!(Aseprite::parse(&b).is_none());
    assert!(Header::parse(&b).is_none());
    let mut b = sample_file();
    b[132] = 0;
    assert!(Aseprite::parse(&b).is_none());
}

#[test]
fn refuses_truncated_files() {
    let b = sample_file();
    assert!(Aseprite::parse(&b[..100]).is_none());
    assert!(Aseprite::parse(&b[..b.len() - 1]).is_none());
    assert!(Aseprite::parse(&b).is_some());
}

#[test]
fn refuses_unknown_and_undersized_chunks() {
    let mut b = header(1, 32);
    b.extend(frame(&[chunk(0x7777, &[])], 1));
    assert!(Aseprite::parse(&b).is_none());
    let mut b = header(1, 32);
    let mut small = chunk(0x2020, &[]);
    small[0] = 5;
    b.extend(frame(&[small], 1));
    assert!(Aseprite::parse(&b).is_none());
    let mut b = header(1, 32);
    b.extend(frame(&[chunk(0x2005, &[0; 12])], 1));
    assert!(Aseprite::parse(&b).is_none());
}

#[test]
fn chunk_readers() {
    let pal = palette_chunk();
    let (p, end) = Palette::new(&pal, 6).unwrap();
    assert_eq!(end, pal.len());
    assert_eq!(p.entries.len(), 2);
    let old = old_palette_chunk();
    assert_eq!(OldPaletteChunk::read_pass(&old, 6), Some(old.len()));
    let s = slice_chunk();
    assert_eq!(Slice::new(&s, 6).unwrap().1, s.len());
    let t = tags_chunk();
    assert_eq!(Tags::new(&t, 6).unwrap().0.tags.len(), 1);
    let cel = raw_cel_chunk(&[1, 2, 3, 4]);
    let (c, end) = Cel::new(&cel, 6, 32, (cel.len() - 6) as u32).unwrap();
    assert_eq!(end, cel.len());
    assert_eq!(c.image_data.unwrap().data.len(), 4);
    let f = frame(&[], 9);
    let (fr, end) = Frame::parse(&f, 0, 32).unwrap();
    assert_eq!((fr.duration, end), (9, 16));
}

#[test]
fn tileset_image_reads_to_the_end() {
    let mut d = Vec::new();
    d.extend_from_slice(&u32le(1));
    d.extend_from_slice(&u32le(2));
    d.extend_from_slice(&u32le(4));
    d.extend_from_slice(&u16le(8));
    d.extend_from_slice(&u16le(8));
    d.extend_from_slice(&1i16.to_le_bytes());
    d.extend_from_slice(&[0; 14]);
    d.extend_from_slice(&string16("ts"));
    d.extend_from_slice(&u32le(2));
    d.extend_from_slice(&[7, 7, 7]);
    let (t, end) = Tileset::new(&d, 0).unwrap();
    assert_eq!(end, d.len());
    assert_eq!(t.name, "ts");
    assert!(t.external_file.is_none());
    let img = t.tileset_image.unwrap();
    assert_eq!(img.compressed_data_length, 2);
    assert_eq!(img.pixels, vec![0, 0, 7, 7, 7]);
}

#[test]
fn compressed_cel_pixels_inflate() {
    let hello = [0x78u8, 0x9c, 0xcb, 0x48, 0xcd, 0xc9, 0xc9, 0x07, 0x00, 0x06, 0x2c, 0x02, 0x15];
    let mut cel = raw_cel_chunk(&hello);
    cel[6 + 7] = 2;
    let (c, _) = Cel::new(&cel, 6, 32, (cel.len() - 6) as u32).unwrap();
    let img = c.image_data.unwrap();
    assert!(img.is_zlib_compressed);
    assert_eq!(img.uncompress(), b"hello".to_vec());
}
