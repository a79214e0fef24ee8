//! The Aseprite file format (`.ase` / `.aseprite`): a 128-byte header, then
//! frames, each a 16-byte header followed by its chunks.
use vstd::prelude::*;
use crate::aseprite::ase::chunks::{
    Cel, CelView, ColorProfile, ColorProfileView, Layer, LayerView, OldPaletteChunk, Palette,
    PaletteView, Slice, SliceView, Tags, TagsView, Tileset,
};
use crate::aseprite::ase::read::{read_array, skip};
use crate::aseprite::le;
use crate::aseprite::le::{read_i16, read_u16, read_u32};

pub mod chunks;
pub mod read;

verus! {

broadcast use vstd::seq_lib::group_seq_properties;

/// The file header, field by field as the file lays it out.
#[derive(Debug)]
pub struct Header {
    pub file_size: u32,
    pub magic_number: u16,
    pub frames: u16,
    pub width: u16,
    pub height: u16,
    pub color_depth: u16,
    pub flags: u32,
    pub speed: u16,
    pub zero_0: u32,
    pub zero_1: u32,
    pub palette_transparent_index: u8,
    pub ignore: [u8; 3],
    pub color_count: u16,
    pub pixel_width: u8,
    pub pixel_height: u8,
    pub grid_x: i16,
    pub grid_y: i16,
    pub grid_width: u16,
    pub grid_height: u16,
    pub future: [u8; 84],
}

pub struct HeaderView {
    pub file_size: u32,
    pub magic_number: u16,
    pub frames: u16,
    pub width: u16,
    pub height: u16,
    pub color_depth: u16,
    pub flags: u32,
    pub speed: u16,
    pub zero_0: u32,
    pub zero_1: u32,
    pub palette_transparent_index: u8,
    pub ignore: Seq<u8>,
    pub color_count: u16,
    pub pixel_width: u8,
    pub pixel_height: u8,
    pub grid_x: i16,
    pub grid_y: i16,
    pub grid_width: u16,
    pub grid_height: u16,
    pub future: Seq<u8>,
}

impl View for Header {
    type V = HeaderView;

    open spec fn view(&self) -> HeaderView {
        HeaderView {
            file_size: self.file_size,
            magic_number: self.magic_number,
            frames: self.frames,
            width: self.width,
            height: self.height,
            color_depth: self.color_depth,
            flags: self.flags,
            speed: self.speed,
            zero_0: self.zero_0,
            zero_1: self.zero_1,
            palette_transparent_index: self.palette_transparent_index,
            ignore: self.ignore@,
            color_count: self.color_count,
            pixel_width: self.pixel_width,
            pixel_height: self.pixel_height,
            grid_x: self.grid_x,
            grid_y: self.grid_y,
            grid_width: self.grid_width,
            grid_height: self.grid_height,
            future: self.future@,
        }
    }
}

/// The magic number of an Aseprite file.
pub const FILE_MAGIC: u16 = 0xA5E0;
/// The magic number of a frame.
pub const FRAME_MAGIC: u16 = 0xF1FA;
/// The size of the file header.
pub const HEADER_SIZE: usize = 128;

/// The header at the start of `b`, or `None` where `b` is shorter than a
/// header or does not start with the magic number.
///
/// Each field is read at the offset the Aseprite format gives it, packed
/// directly after the one before, within the 128 header bytes.  This is not
/// the layout of a C struct of these fields: alignment padding there would
/// put `flags` and every field after it 2 to 4 bytes later, and the struct
/// would take 132 bytes, 4 more than the header holds.
pub open spec fn parse_header(b: Seq<u8>) -> Option<HeaderView> {
    if b.len() < 128 || le::u16_at(b, 4) != FILE_MAGIC {
        None
    } else {
        Some(
            HeaderView {
                file_size: le::u32_at(b, 0),
                magic_number: le::u16_at(b, 4),
                frames: le::u16_at(b, 6),
                width: le::u16_at(b, 8),
                height: le::u16_at(b, 10),
                color_depth: le::u16_at(b, 12),
                flags: le::u32_at(b, 14),
                speed: le::u16_at(b, 18),
                zero_0: le::u32_at(b, 20),
                zero_1: le::u32_at(b, 24),
                palette_transparent_index: b[28],
                ignore: b.subrange(29, 32),
                color_count: le::u16_at(b, 32),
                pixel_width: b[34],
                pixel_height: b[35],
                grid_x: le::i16_at(b, 36),
                grid_y: le::i16_at(b, 38),
                grid_width: le::u16_at(b, 40),
                grid_height: le::u16_at(b, 42),
                future: b.subrange(44, 128),
            },
        )
    }
}

impl Header {
    /// Reads the file header (see [`parse_header`]).
    pub fn parse(bytes: &[u8]) -> (r: Option<Header>)
        ensures
            match r {
                Some(h) => parse_header(bytes@) == Some(h@),
                None => parse_header(bytes@) is None,
            },
    {
        if bytes.len() < HEADER_SIZE {
            return None;
        }
        let magic_number = read_u16(bytes, 4).unwrap();
        if magic_number != FILE_MAGIC {
            return None;
        }
        Some(
            Header {
                file_size: read_u32(bytes, 0).unwrap(),
                magic_number,
                frames: read_u16(bytes, 6).unwrap(),
                width: read_u16(bytes, 8).unwrap(),
                height: read_u16(bytes, 10).unwrap(),
                color_depth: read_u16(bytes, 12).unwrap(),
                flags: read_u32(bytes, 14).unwrap(),
                speed: read_u16(bytes, 18).unwrap(),
                zero_0: read_u32(bytes, 20).unwrap(),
                zero_1: read_u32(bytes, 24).unwrap(),
                palette_transparent_index: bytes[28],
                ignore: read_array::<3>(bytes, 29).unwrap().0,
                color_count: read_u16(bytes, 32).unwrap(),
                pixel_width: bytes[34],
                pixel_height: bytes[35],
                grid_x: read_i16(bytes, 36).unwrap(),
                grid_y: read_i16(bytes, 38).unwrap(),
                grid_width: read_u16(bytes, 40).unwrap(),
                grid_height: read_u16(bytes, 42).unwrap(),
                future: read_array::<84>(bytes, 44).unwrap().0,
            },
        )
    }
}

/// A frame: its header fields and what its chunks hold.
#[derive(Debug)]
pub struct Frame {
    pub bytes: u32,
    pub magic_number: u16,
    pub chunk_count_legacy: u16,
    pub duration: u16,
    pub zero: [u8; 2],
    pub chunk_count: u32,
    pub cels: Vec<Cel>,
    pub palettes: Vec<Palette>,
    pub layers: Vec<Layer>,
    pub tags: Option<Tags>,
    pub color_profile: Option<ColorProfile>,
    pub slices: Vec<Slice>,
}

pub struct FrameView {
    pub bytes: u32,
    pub magic_number: u16,
    pub chunk_count_legacy: u16,
    pub duration: u16,
    pub zero: Seq<u8>,
    pub chunk_count: u32,
    pub cels: Seq<CelView>,
    pub palettes: Seq<PaletteView>,
    pub layers: Seq<LayerView>,
    pub tags: Option<TagsView>,
    pub color_profile: Option<ColorProfileView>,
    pub slices: Seq<SliceView>,
}

impl View for Frame {
    type V = FrameView;

    open spec fn view(&self) -> FrameView {
        FrameView {
            bytes: self.bytes,
            magic_number: self.magic_number,
            chunk_count_legacy: self.chunk_count_legacy,
            duration: self.duration,
            zero: self.zero@,
            chunk_count: self.chunk_count,
            cels: self.cels@.map_values(|c: Cel| c@),
            palettes: self.palettes@.map_values(|p: Palette| p@),
            layers: self.layers@.map_values(|l: Layer| l@),
            tags: match self.tags {
                Some(t) => Some(t@),
                None => None,
            },
            color_profile: match self.color_profile {
                Some(c) => Some(c@),
                None => None,
            },
            slices: self.slices@.map_values(|s: Slice| s@),
        }
    }
}

/// The number of chunks of a frame: the larger of its two chunk counts.
pub open spec fn chunk_total(f: FrameView) -> u32 {
    if f.chunk_count_legacy as u32 > f.chunk_count {
        f.chunk_count_legacy as u32
    } else {
        f.chunk_count
    }
}

/// A frame header at `p`, with no chunk read yet, and the position after
/// it; `None` where the data ends first or the frame magic number is wrong.
pub open spec fn parse_frame_header(b: Seq<u8>, p: int) -> Option<(FrameView, int)> {
    if 0 <= p && p + 16 <= b.len() && le::u16_at(b, p + 4) == FRAME_MAGIC {
        Some(
            (
                FrameView {
                    bytes: le::u32_at(b, p),
                    magic_number: le::u16_at(b, p + 4),
                    chunk_count_legacy: le::u16_at(b, p + 6),
                    duration: le::u16_at(b, p + 8),
                    zero: b.subrange(p + 10, p + 12),
                    chunk_count: le::u32_at(b, p + 12),
                    cels: Seq::empty(),
                    palettes: Seq::empty(),
                    layers: Seq::empty(),
                    tags: None,
                    color_profile: None,
                    slices: Seq::empty(),
                },
                p + 16,
            ),
        )
    } else {
        None
    }
}

/// Chunk types.
pub const CHUNK_OLD_PALETTE_A: u16 = 0x0004;
pub const CHUNK_OLD_PALETTE_B: u16 = 0x0011;
pub const CHUNK_LAYER: u16 = 0x2004;
pub const CHUNK_CEL: u16 = 0x2005;
pub const CHUNK_COLOR_PROFILE: u16 = 0x2007;
pub const CHUNK_TAGS: u16 = 0x2018;
pub const CHUNK_PALETTE: u16 = 0x2019;
pub const CHUNK_USER_DATA: u16 = 0x2020;
pub const CHUNK_SLICE: u16 = 0x2022;
pub const CHUNK_TILESET: u16 = 0x2023;

/// One chunk at `p` added to frame `f`: its size (which counts its six
/// header bytes) and type, then its data.  A color profile or tags chunk
/// replaces the frame's; palettes, layers, cels and slices are appended;
/// old palettes, user data and tilesets are read past.  A chunk smaller
/// than its header, or of another type, is refused.
pub open spec fn parse_chunk(b: Seq<u8>, p: int, depth: u16, f: FrameView) -> Option<(FrameView, int)> {
    if !(0 <= p && p + 6 <= b.len()) || le::u32_at(b, p) < 6 {
        None
    } else {
        let ty = le::u16_at(b, p + 4);
        let ds = (le::u32_at(b, p) - 6) as u32;
        let q = p + 6;
        if ty == CHUNK_COLOR_PROFILE {
            match chunks::parse_color_profile(b, q) {
                None => None,
                Some((c, e)) => Some((FrameView { color_profile: Some(c), ..f }, e)),
            }
        } else if ty == CHUNK_PALETTE {
            match chunks::parse_palette(b, q) {
                None => None,
                Some((v, e)) => Some((FrameView { palettes: f.palettes.push(v), ..f }, e)),
            }
        } else if ty == CHUNK_OLD_PALETTE_A || ty == CHUNK_OLD_PALETTE_B {
            match chunks::skip_old_palette(b, q) {
                None => None,
                Some(e) => Some((f, e)),
            }
        } else if ty == CHUNK_LAYER {
            match chunks::parse_layer(b, q) {
                None => None,
                Some((v, e)) => Some((FrameView { layers: f.layers.push(v), ..f }, e)),
            }
        } else if ty == CHUNK_CEL {
            match chunks::parse_cel(b, q, depth, ds) {
                None => None,
                Some((v, e)) => Some((FrameView { cels: f.cels.push(v), ..f }, e)),
            }
        } else if ty == CHUNK_TAGS {
            match chunks::parse_tags(b, q) {
                None => None,
                Some((v, e)) => Some((FrameView { tags: Some(v), ..f }, e)),
            }
        } else if ty == CHUNK_SLICE {
            match chunks::parse_slice(b, q) {
                None => None,
                Some((v, e)) => Some((FrameView { slices: f.slices.push(v), ..f }, e)),
            }
        } else if ty == CHUNK_USER_DATA {
            Some((f, read::seek(b, q, ds as int)))
        } else if ty == CHUNK_TILESET {
            match chunks::parse_tileset(b, q) {
                None => None,
                Some((_, e)) => Some((f, e)),
            }
        } else {
            None
        }
    }
}

/// `n` chunks at `p` added to frame `f`.
pub open spec fn parse_chunks(b: Seq<u8>, p: int, depth: u16, f: FrameView, n: nat) -> Option<(FrameView, int)>
    decreases n,
{
    if n == 0 {
        Some((f, p))
    } else {
        match parse_chunk(b, p, depth, f) {
            None => None,
            Some((g, q)) => parse_chunks(b, q, depth, g, (n - 1) as nat),
        }
    }
}

/// A whole frame at `p`: its header and all its chunks.
pub open spec fn parse_frame(b: Seq<u8>, p: int, depth: u16) -> Option<(FrameView, int)> {
    match parse_frame_header(b, p) {
        None => None,
        Some((f, q)) => parse_chunks(b, q, depth, f, chunk_total(f) as nat),
    }
}

/// `n` frames at `p`.
pub open spec fn parse_frames(b: Seq<u8>, p: int, depth: u16, n: nat) -> Option<(Seq<FrameView>, int)>
    decreases n,
{
    if n == 0 {
        Some((Seq::empty(), p))
    } else {
        match parse_frame(b, p, depth) {
            None => None,
            Some((f, q)) => crate::aseprite::sprite::prefixed(seq![f], parse_frames(b, q, depth, (n - 1) as nat)),
        }
    }
}

/// A decoded Aseprite file: its header and its frames.
#[derive(Debug)]
pub struct Aseprite {
    pub header: Header,
    pub frame_count: u32,
    pub frames: Vec<Frame>,
}

pub struct AsepriteView {
    pub header: HeaderView,
    pub frame_count: u32,
    pub frames: Seq<FrameView>,
}

impl View for Aseprite {
    type V = AsepriteView;

    open spec fn view(&self) -> AsepriteView {
        AsepriteView {
            header: self.header@,
            frame_count: self.frame_count,
            frames: self.frames@.map_values(|f: Frame| f@),
        }
    }
}

/// The Aseprite file that `b` holds: the header, then as many frames as it
/// declares, read in the header's color depth; `None` where any part is
/// missing or malformed.  Data after the last frame is ignored.
pub open spec fn parse_aseprite(b: Seq<u8>) -> Option<AsepriteView> {
    match parse_header(b) {
        None => None,
        Some(h) => match parse_frames(b, 128, h.color_depth, h.frames as nat) {
            None => None,
            Some((frames, _)) => Some(AsepriteView { header: h, frame_count: frames.len() as u32, frames }),
        },
    }
}

/// Chunks leave the frame's header fields as they were.
proof fn lemma_chunks_keep_header(b: Seq<u8>, p: int, depth: u16, f: FrameView, n: nat)
    ensures
        parse_chunks(b, p, depth, f, n) matches Some((g, _)) ==> g.magic_number == f.magic_number
            && g.duration == f.duration && g.chunk_count == f.chunk_count,
    decreases n,
{
    if n > 0 {
        if let Some((g, q)) = parse_chunk(b, p, depth, f) {
            lemma_chunks_keep_header(b, q, depth, g, (n - 1) as nat);
        }
    }
}

/// `parse_frames` reads exactly the frames it is asked for, each with the
/// frame magic number.
proof fn lemma_frames_len(b: Seq<u8>, p: int, depth: u16, n: nat)
    ensures
        parse_frames(b, p, depth, n) matches Some((fs, _)) ==> fs.len() == n && forall|i: int|
            0 <= i < fs.len() ==> (#[trigger] fs[i]).magic_number == FRAME_MAGIC,
    decreases n,
{
    if n > 0 {
        if let Some((f, q)) = parse_frame(b, p, depth) {
            let (f0, s0) = parse_frame_header(b, p)->0;
            lemma_chunks_keep_header(b, s0, depth, f0, chunk_total(f0) as nat);
            lemma_frames_len(b, q, depth, (n - 1) as nat);
            if let Some((fs, e)) = parse_frames(b, q, depth, (n - 1) as nat) {
                let all = seq![f] + fs;
                assert forall|i: int| 0 <= i < all.len() implies (#[trigger] all[i]).magic_number == FRAME_MAGIC by {
                    if i > 0 {
                        assert(all[i] == fs[i - 1]);
                    }
                }
            }
        }
    }
}

/// A decoded file has exactly as many frames as its header declares, and
/// its frame count says so; each frame carries the frame magic number.
pub proof fn lemma_frame_count(b: Seq<u8>)
    requires
        parse_aseprite(b) is Some,
    ensures
        parse_aseprite(b)->0.frames.len() == parse_aseprite(b)->0.header.frames,
        parse_aseprite(b)->0.frame_count == parse_aseprite(b)->0.header.frames,
        parse_aseprite(b)->0.header.magic_number == FILE_MAGIC,
        forall|i: int|
            0 <= i < parse_aseprite(b)->0.frames.len() ==> (#[trigger] parse_aseprite(b)->0.frames[i]).magic_number
                == FRAME_MAGIC,
{
    let h = parse_header(b)->0;
    lemma_frames_len(b, 128, h.color_depth, h.frames as nat);
}

impl Frame {
    /// Reads a frame header at `pos` (see [`parse_frame_header`]).
    pub fn new(bytes: &[u8], pos: usize) -> (r: Option<(Frame, usize)>)
        ensures
            match r {
                Some((f, q)) => parse_frame_header(bytes@, pos as int) == Some((f@, q as int)),
                None => parse_frame_header(bytes@, pos as int) is None,
            },
    {
        if pos > bytes.len() || bytes.len() - pos < 16 {
            return None;
        }
        let magic_number = read_u16(bytes, pos + 4).unwrap();
        if magic_number != FRAME_MAGIC {
            return None;
        }
        let f = Frame {
            bytes: read_u32(bytes, pos).unwrap(),
            magic_number,
            chunk_count_legacy: read_u16(bytes, pos + 6).unwrap(),
            duration: read_u16(bytes, pos + 8).unwrap(),
            zero: read_array::<2>(bytes, pos + 10).unwrap().0,
            chunk_count: read_u32(bytes, pos + 12).unwrap(),
            cels: Vec::new(),
            palettes: Vec::new(),
            layers: Vec::new(),
            tags: None,
            color_profile: None,
            slices: Vec::new(),
        };
        assert(f@.cels =~= Seq::<CelView>::empty());
        assert(f@.palettes =~= Seq::<PaletteView>::empty());
        assert(f@.layers =~= Seq::<LayerView>::empty());
        assert(f@.slices =~= Seq::<SliceView>::empty());
        Some((f, pos + 16))
    }

    /// Reads the chunk at `pos` into the frame (see [`parse_chunk`]),
    /// giving the position after it.
    pub fn read_chunk(&mut self, bytes: &[u8], pos: usize, depth: u16) -> (r: Option<usize>)
        requires
            pos <= bytes@.len() + 1,
            bytes@.len() < usize::MAX,
        ensures
            match r {
                Some(q) => parse_chunk(bytes@, pos as int, depth, old(self)@) == Some(
                    (final(self)@, q as int),
                ) && q <= bytes@.len() + 1,
                None => parse_chunk(bytes@, pos as int, depth, old(self)@) is None,
            },
    {
        if pos > bytes.len() || bytes.len() - pos < 6 {
            return None;
        }
        let size = read_u32(bytes, pos).unwrap();
        if size < 6 {
            return None;
        }
        let ty = read_u16(bytes, pos + 4).unwrap();
        let ds = size - 6;
        let q = pos + 6;
        let ghost f0 = self@;
        if ty == CHUNK_COLOR_PROFILE {
            match ColorProfile::new(bytes, q) {
                None => None,
                Some((c, e)) => {
                    self.color_profile = Some(c);
                    Some(e)
                },
            }
        } else if ty == CHUNK_PALETTE {
            match Palette::new(bytes, q) {
                None => None,
                Some((v, e)) => {
                    let ghost old_list = self.palettes@;
                    self.palettes.push(v);
                    assert(self.palettes@.map_values(|p: Palette| p@) =~= old_list.map_values(
                        |p: Palette| p@,
                    ).push(v@));
                    Some(e)
                },
            }
        } else if ty == CHUNK_OLD_PALETTE_A || ty == CHUNK_OLD_PALETTE_B {
            match OldPaletteChunk::read_pass(bytes, q) {
                None => None,
                Some(e) => Some(e),
            }
        } else if ty == CHUNK_LAYER {
            match Layer::new(bytes, q) {
                None => None,
                Some((v, e)) => {
                    let ghost old_list = self.layers@;
                    self.layers.push(v);
                    assert(self.layers@.map_values(|l: Layer| l@) =~= old_list.map_values(
                        |l: Layer| l@,
                    ).push(v@));
                    Some(e)
                },
            }
        } else if ty == CHUNK_CEL {
            match Cel::new(bytes, q, depth, ds) {
                None => None,
                Some((v, e)) => {
                    let ghost old_list = self.cels@;
                    self.cels.push(v);
                    assert(self.cels@.map_values(|c: Cel| c@) =~= old_list.map_values(|c: Cel| c@).push(
                        v@,
                    ));
                    Some(e)
                },
            }
        } else if ty == CHUNK_TAGS {
            match Tags::new(bytes, q) {
                None => None,
                Some((v, e)) => {
                    self.tags = Some(v);
                    Some(e)
                },
            }
        } else if ty == CHUNK_SLICE {
            match Slice::new(bytes, q) {
                None => None,
                Some((v, e)) => {
                    let ghost old_list = self.slices@;
                    self.slices.push(v);
                    assert(self.slices@.map_values(|s: Slice| s@) =~= old_list.map_values(
                        |s: Slice| s@,
                    ).push(v@));
                    Some(e)
                },
            }
        } else if ty == CHUNK_USER_DATA {
            Some(skip(bytes, q, ds as usize))
        } else if ty == CHUNK_TILESET {
            match Tileset::new(bytes, q) {
                None => None,
                Some((_, e)) => Some(e),
            }
        } else {
            None
        }
    }

    /// Reads a whole frame at `pos` (see [`parse_frame`]).
    pub fn parse(bytes: &[u8], pos: usize, depth: u16) -> (r: Option<(Frame, usize)>)
        requires
            bytes@.len() < usize::MAX,
        ensures
            match r {
                Some((f, q)) => parse_frame(bytes@, pos as int, depth) == Some((f@, q as int))
                    && q <= bytes@.len() + 1,
                None => parse_frame(bytes@, pos as int, depth) is None,
            },
    {
        let (mut frame, start) = match Frame::new(bytes, pos) {
            Some(r) => r,
            None => return None,
        };
        let ghost f0 = frame@;
        let total: u32 = if frame.chunk_count_legacy as u32 > frame.chunk_count {
            frame.chunk_count_legacy as u32
        } else {
            frame.chunk_count
        };
        let mut p = start;
        let mut i: u32 = 0;
        while i < total
            invariant
                i <= total,
                p <= bytes@.len() + 1,
                parse_frame_header(bytes@, pos as int) == Some((f0, start as int)),
                total == chunk_total(f0),
                bytes@.len() < usize::MAX,
                parse_chunks(bytes@, start as int, depth, f0, total as nat) == parse_chunks(
                    bytes@,
                    p as int,
                    depth,
                    frame@,
                    (total - i) as nat,
                ),
            decreases total - i,
        {
            let ghost before = frame@;
            let ghost k = (total - i) as nat;
            match frame.read_chunk(bytes, p, depth) {
                None => {
                    assert(parse_chunks(bytes@, p as int, depth, before, k) is None);
                    return None;
                },
                Some(q) => {
                    p = q;
                    i = i + 1;
                },
            }
        }
        Some((frame, p))
    }
}

impl Aseprite {
    /// Decodes an Aseprite file, or `None` exactly where `bytes` is not one
    /// (see [`parse_aseprite`]).
    pub fn parse(bytes: &[u8]) -> (r: Option<Aseprite>)
        requires
            bytes@.len() < usize::MAX,
        ensures
            match r {
                Some(a) => parse_aseprite(bytes@) == Some(a@),
                None => parse_aseprite(bytes@) is None,
            },
    {
        let header = match Header::parse(bytes) {
            Some(h) => h,
            None => return None,
        };
        let count = header.frames;
        let depth = header.color_depth;
        let mut frames: Vec<Frame> = Vec::new();
        let mut p: usize = HEADER_SIZE;
        let mut i: u16 = 0;
        while i < count
            invariant
                i <= count,
                bytes@.len() < usize::MAX,
                parse_header(bytes@) == Some(header@),
                count == header@.frames,
                depth == header@.color_depth,
                frames@.len() == i,
                parse_frames(bytes@, 128, depth, count as nat) == crate::aseprite::sprite::prefixed(
                    frames@.map_values(|f: Frame| f@),
                    parse_frames(bytes@, p as int, depth, (count - i) as nat),
                ),
            decreases count - i,
        {
            let ghost k = (count - i) as nat;
            match Frame::parse(bytes, p, depth) {
                None => {
                    assert(parse_frames(bytes@, p as int, depth, k) is None);
                    return None;
                },
                Some((f, q)) => {
                    let ghost old_frames = frames@;
                    frames.push(f);
                    proof {
                        let views = frames@.map_values(|f: Frame| f@);
                        assert(views =~= old_frames.map_values(|f: Frame| f@).push(f@));
                        if let Some((fs, e)) = parse_frames(bytes@, q as int, depth, (k - 1) as nat) {
                            assert(old_frames.map_values(|f: Frame| f@) + (seq![f@] + fs) =~= views + fs);
                        }
                    }
                    p = q;
                    i = i + 1;
                },
            }
        }
        proof {
            let views = frames@.map_values(|f: Frame| f@);
            assert(views + Seq::<FrameView>::empty() =~= views);
        }
        let frame_count = frames.len() as u32;
        Some(Aseprite { header, frame_count, frames })
    }

    /// Decodes an Aseprite file.  The bytes must hold one: the reader fails
    /// on any other input.
    pub fn new(bytes: &[u8]) -> (r: Aseprite)
        requires
            bytes@.len() < usize::MAX,
            parse_aseprite(bytes@) is Some,
        ensures
            parse_aseprite(bytes@) == Some(r@),
    {
        match Aseprite::parse(bytes) {
            Some(a) => a,
            None => {
                proof {
                    assert(false);
                }
                Aseprite {
                    header: Header::parse(bytes).unwrap(),
                    frame_count: 0,
                    frames: Vec::new(),
                }
            },
        }
    }
}

} // verus!
