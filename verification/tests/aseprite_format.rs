use engine::aseprite::atlas::{blit, optimal_rectangle_pack};
use engine::aseprite::le::{read_i16, read_i32, read_u16, read_u32, read_u8, write_i16, write_i32, write_u16, write_u32};
use engine::aseprite::sprite::{
    decode_name, SourceFrame, SourceSlice, SourceSliceKey, Sprite, SpriteSource, Tag,
};
use engine::aseprite::tilemap::TileMap;
use engine::aseprite::ase::chunks::ImageData;
use engine::aseprite::{try_uncompress, uncompress};

fn name_bytes(out: &mut Vec<u8>, s: &str) {
    write_u32(out, s.len() as u32);
    out.extend_from_slice(s.as_bytes());
}

fn sample_sheet() -> Vec<u8> {
    let mut b = Vec::new();
    write_u32(&mut b, 2);
    for (d, x, y, w, h) in [(100u16, 0i16, 0i16, 16u16, 16u16), (150, 16, 0, 16, 16)] {
        write_u16(&mut b, d);
        write_i16(&mut b, x);
        write_i16(&mut b, y);
        write_u16(&mut b, w);
        write_u16(&mut b, h);
    }
    write_u32(&mut b, 1);
    name_bytes(&mut b, "body");
    for v in [1i32, 2] {
        write_i32(&mut b, v);
    }
    write_u32(&mut b, 14);
    write_u32(&mut b, 15);
    write_i32(&mut b, 7);
    write_i32(&mut b, -3);
    write_u32(&mut b, 1);
    name_bytes(&mut b, "walk");
    write_u16(&mut b, 0);
    write_u16(&mut b, 1);
    b
}

#[test]
fn little_endian_reads() {
    let b = [0x34u8, 0x12, 0xff, 0xff, 0x01];
    assert_eq!(read_u8(&b, 4), Some(1));
    assert_eq!(read_u8(&b, 5), None);
    assert_eq!(read_u16(&b, 0), Some(0x1234));
    assert_eq!(read_i16(&b, 2), Some(-1));
    assert_eq!(read_u16(&b, 4), None);
    assert_eq!(read_u32(&b, 0), Some(0xffff1234));
    assert_eq!(read_i32(&b, 1), Some(0x01ffff12));
    assert_eq!(read_u32(&b, 2), None);
}

#[test]
fn little_endian_roundtrip() {
    let mut out = Vec::new();
    write_u16(&mut out, 0xbeef);
    write_u32(&mut out, 0xdeadbeef);
    write_i16(&mut out, -2);
    write_i32(&mut out, -70000);
    assert_eq!(out.len(), 12);
    assert_eq!(&out[0..2], &[0xef, 0xbe]);
    assert_eq!(read_u16(&out, 0), Some(0xbeef));
    assert_eq!(read_u32(&out, 2), Some(0xdeadbeef));
    assert_eq!(read_i16(&out, 6), Some(-2));
    assert_eq!(read_i32(&out, 8), Some(-70000));
}

#[test]
fn names_are_length_prefixed_utf8() {
    let mut b = Vec::new();
    name_bytes(&mut b, "héllo");
    b.push(9);
    let (s, end) = decode_name(&b, 0).unwrap();
    assert_eq!(s, "héllo");
    assert_eq!(end, 4 + "héllo".len());
    let bad = [2u8, 0, 0, 0, 0xff, 0xfe];
    assert!(decode_name(&bad, 0).is_none());
    let short = [5u8, 0, 0, 0, b'a'];
    assert!(decode_name(&short, 0).is_none());
}

#[test]
fn decodes_a_sheet() {
    let b = sample_sheet();
    let s = Sprite::decode(&b);
    assert_eq!(s.frames.len(), 2);
    assert_eq!(s.frames[1].duration, 150);
    assert_eq!(s.frames[1].x, 16);
    assert_eq!(s.frames[0].width, 16);
    assert_eq!(s.slices.len(), 1);
    assert_eq!(s.slices[0].name, "body");
    assert_eq!((s.slices[0].x, s.slices[0].y), (1, 2));
    assert_eq!((s.slices[0].width, s.slices[0].height), (14, 15));
    assert_eq!((s.slices[0].pivot_x, s.slices[0].pivot_y), (7, -3));
    assert_eq!(s.tags.len(), 1);
    assert_eq!(s.tags[0].name, "walk");
    assert_eq!((s.tags[0].from, s.tags[0].to), (0, 1));
}

#[test]
fn tag_frames_and_pivots() {
    let s = Sprite::decode(&sample_sheet());
    let frames = s.tag_frames(&s.tags[0]);
    assert_eq!(frames.len(), 2);
    assert_eq!(frames[1], s.frames[1]);
    let one = Tag { name: "one".to_string(), from: 1, to: 1 };
    assert_eq!(s.tag_frames(&one), vec![s.frames[1]]);
    let none = Tag { name: "none".to_string(), from: 1, to: 0 };
    assert!(s.tag_frames(&none).is_empty());
    assert_eq!(s.slices[0].pivot_point(), (8, u32::MAX));
}

#[test]
fn truncated_sheet_is_refused() {
    let b = sample_sheet();
    for cut in [0, 3, 13, 30, b.len() - 1] {
        assert!(Sprite::try_decode(&b[..cut]).is_none(), "cut at {}", cut);
    }
    assert!(Sprite::try_decode(&b).is_some());
}

fn sample_source() -> SpriteSource {
    SpriteSource {
        width: 16,
        height: 8,
        image_count: 3,
        frames: vec![
            SourceFrame { duration: 100, cel_images: vec![0] },
            SourceFrame { duration: 120, cel_images: vec![1] },
            SourceFrame { duration: 140, cel_images: vec![2] },
        ],
        slices: vec![SourceSlice {
            name: "body".to_string(),
            keys: vec![SourceSliceKey { x: 2, y: 3, width: 10, height: 5, pivot: Some((4, 5)) }],
        }],
        tags: vec![Tag { name: "idle".to_string(), from: 0, to: 2 }],
    }
}

#[test]
fn encode_then_decode_gives_the_packed_sheet() {
    let src = sample_source();
    let (w, h) = optimal_rectangle_pack(src.frames.len());
    assert_eq!((w, h), (3, 1));
    let bytes = Sprite::encode(&src, 2, 2);
    let s = Sprite::decode(&bytes);
    assert_eq!(s.frames.len(), 3);
    let expected = [(0, 0), (16, 0), (0, 8)];
    for (k, f) in s.frames.iter().enumerate() {
        assert_eq!((f.x, f.y), expected[k]);
        assert_eq!((f.width, f.height), (16, 8));
        assert_eq!(f.duration, src.frames[k].duration);
    }
    assert_eq!(s.slices[0].name, "body");
    assert_eq!((s.slices[0].x, s.slices[0].y, s.slices[0].width, s.slices[0].height), (2, 3, 10, 5));
    assert_eq!((s.slices[0].pivot_x, s.slices[0].pivot_y), (4, 5));
    assert_eq!(s.tags[0].name, "idle");
    assert_eq!((s.tags[0].from, s.tags[0].to), (0, 2));
}

#[test]
fn encode_refuses_a_slice_without_pivot() {
    let mut src = sample_source();
    src.slices[0].keys[0].pivot = None;
    assert!(Sprite::try_encode(&src, 3, 1).is_none());
    src.slices[0].keys.clear();
    assert!(Sprite::try_encode(&src, 3, 1).is_none());
}

#[test]
fn a_cel_without_image_writes_only_the_duration() {
    let mut src = sample_source();
    src.frames[1].cel_images = vec![7];
    let with_gap = Sprite::encode(&src, 3, 1);
    let full = Sprite::encode(&sample_source(), 3, 1);
    assert_eq!(with_gap.len() + 8, full.len());
}

#[test]
fn packing_grids() {
    let cases = [(0, (0, 1)), (1, (1, 1)), (2, (2, 1)), (4, (2, 2)), (5, (5, 1)), (6, (2, 3)),
        (9, (3, 3)), (12, (2, 6)), (16, (2, 8))];
    for (n, expected) in cases {
        let r = optimal_rectangle_pack(n);
        assert_eq!(r, expected, "n = {}", n);
        assert_eq!(r.0 * r.1, n);
    }
}

#[test]
fn blit_copies_into_place() {
    let src: Vec<u8> = (1..=8).collect();
    let mut dst = vec![0u8; 3 * 2 * 4];
    blit(&src, 2, 1, &mut dst, 3, 2, 1, 1);
    let mut expected = vec![0u8; 24];
    expected[16..24].copy_from_slice(&src);
    assert_eq!(dst, expected);
}

#[test]
fn blit_clips_at_the_edge() {
    let src: Vec<u8> = (1..=16).collect();
    let mut dst = vec![9u8; 2 * 2 * 4];
    blit(&src, 2, 2, &mut dst, 2, 2, 1, 1);
    let mut expected = vec![9u8; 16];
    expected[12..16].copy_from_slice(&src[0..4]);
    assert_eq!(dst, expected);
}

#[test]
fn uncompress_inflates_zlib() {
    let hello = [0x78u8, 0x9c, 0xcb, 0x48, 0xcd, 0xc9, 0xc9, 0x07, 0x00, 0x06, 0x2c, 0x02, 0x15];
    assert_eq!(uncompress(&hello), b"hello".to_vec());
    assert_eq!(try_uncompress(&hello), Some(b"hello".to_vec()));
}

#[test]
fn corrupt_zlib_is_refused() {
    assert_eq!(try_uncompress(&[0x78, 0x9c, 0xff, 0xff]), None);
    assert_eq!(try_uncompress(&[]), None);
}

#[test]
fn tilemap_is_empty() {
    let _ = TileMap::decode(&[1, 2, 3]);
    TileMap::encode(1, 1);
}

#[test]
fn image_data_inflates_only_compressed_valid_data() {
    let hello = vec![0x78u8, 0x9c, 0xcb, 0x48, 0xcd, 0xc9, 0xc9, 0x07, 0x00, 0x06, 0x2c, 0x02, 0x15];
    let compressed = ImageData { color_depth: 32, width: 1, height: 1, data: hello.clone(), is_zlib_compressed: true };
    assert_eq!(compressed.try_uncompress(), Some(b"hello".to_vec()));
    assert_eq!(compressed.uncompress(), b"hello".to_vec());
    let raw = ImageData { color_depth: 32, width: 1, height: 1, data: hello, is_zlib_compressed: false };
    assert_eq!(raw.try_uncompress(), None);
    let corrupt = ImageData { color_depth: 32, width: 1, height: 1, data: vec![0x78, 0x9c, 0xff], is_zlib_compressed: true };
    assert_eq!(corrupt.try_uncompress(), None);
}
