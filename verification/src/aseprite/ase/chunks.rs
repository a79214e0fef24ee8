//! The chunks of an Aseprite frame that the decoder reads: color profile,
//! palettes, layers, cels, tags, slices and tilesets.
use vstd::prelude::*;
use crate::aseprite::ase::read;
use crate::aseprite::ase::read::{read_array, read_bytes, read_string16, skip};
use crate::aseprite::le;
use crate::aseprite::le::{read_i16, read_i32, read_u16, read_u32};
use crate::aseprite::sprite;

verus! {

broadcast use vstd::seq_lib::group_seq_properties;

// ---------------------------------------------------------------------------
// Color profile (chunk 0x2007).
// ---------------------------------------------------------------------------

/// The color profile of the sprite; ICC profiles carry their data.
#[derive(Debug)]
pub struct ColorProfile {
    pub kind: u16,
    pub flags: u16,
    pub gamma: i32,
    pub reserved: [u8; 8],
    pub icc_profile_data: Option<Vec<u8>>,
}

pub struct ColorProfileView {
    pub kind: u16,
    pub flags: u16,
    pub gamma: i32,
    pub reserved: Seq<u8>,
    pub icc_profile_data: Option<Seq<u8>>,
}

impl View for ColorProfile {
    type V = ColorProfileView;

    open spec fn view(&self) -> ColorProfileView {
        ColorProfileView {
            kind: self.kind,
            flags: self.flags,
            gamma: self.gamma,
            reserved: self.reserved@,
            icc_profile_data: match self.icc_profile_data {
                Some(d) => Some(d@),
                None => None,
            },
        }
    }
}

/// A color profile chunk at `p`: kind, flags and fixed-point gamma, eight
/// bytes skipped, and for an ICC profile (profile type 2) its length-prefixed data.
/// The reserved bytes are not kept.
pub open spec fn parse_color_profile(b: Seq<u8>, p: int) -> Option<(ColorProfileView, int)> {
    if 0 <= p && p + 8 <= b.len() {
        let kind = le::u16_at(b, p);
        let q = read::seek(b, p + 8, 8);
        let head = ColorProfileView {
            kind,
            flags: le::u16_at(b, p + 2),
            gamma: le::i32_at(b, p + 4),
            reserved: Seq::new(8, |i: int| 0u8),
            icc_profile_data: None,
        };
        if kind == 2 {
            if q + 4 <= b.len() {
                match read::bytes_at(b, q + 4, le::u32_at(b, q) as int) {
                    None => None,
                    Some((data, e)) => Some((ColorProfileView { icc_profile_data: Some(data), ..head }, e)),
                }
            } else {
                None
            }
        } else {
            Some((head, q))
        }
    } else {
        None
    }
}

impl ColorProfile {
    /// Reads a color profile chunk at `pos` (see [`parse_color_profile`]).
    pub fn new(bytes: &[u8], pos: usize) -> (r: Option<(ColorProfile, usize)>)
        requires
            pos <= bytes@.len() + 1,
            bytes@.len() < usize::MAX,
        ensures
            match r {
                Some((c, q)) => parse_color_profile(bytes@, pos as int) == Some((c@, q as int))
                    && q <= bytes@.len() + 1,
                None => parse_color_profile(bytes@, pos as int) is None,
            },
    {
        let kind = match read_u16(bytes, pos) {
            Some(v) => v,
            None => return None,
        };
        let flags = match read_u16(bytes, pos + 2) {
            Some(v) => v,
            None => return None,
        };
        let gamma = match read_i32(bytes, pos + 4) {
            Some(v) => v,
            None => return None,
        };
        let q = skip(bytes, pos + 8, 8);
        let mut icc_profile_data: Option<Vec<u8>> = None;
        let mut end = q;
        if kind == 2 {
            let n = match read_u32(bytes, q) {
                Some(v) => v,
                None => return None,
            };
            match read_bytes(bytes, q + 4, n as usize) {
                Some((data, e)) => {
                    icc_profile_data = Some(data);
                    end = e;
                },
                None => return None,
            }
        }
        let c = ColorProfile { kind, flags, gamma, reserved: [0u8; 8], icc_profile_data };
        assert(c@.reserved =~= Seq::new(8, |i: int| 0u8));
        Some((c, end))
    }
}

// ---------------------------------------------------------------------------
// Palette (chunk 0x2019) and the old palette chunks (0x0004, 0x0011).
// ---------------------------------------------------------------------------

/// A palette color, with its name where the file gives one.
#[derive(Debug, Clone)]
pub struct PaletteEntry {
    pub has_name: u16,
    pub red: u8,
    pub green: u8,
    pub blue: u8,
    pub alpha: u8,
    pub name: Option<String>,
}

pub struct PaletteEntryView {
    pub has_name: u16,
    pub red: u8,
    pub green: u8,
    pub blue: u8,
    pub alpha: u8,
    pub name: Option<Seq<char>>,
}

impl View for PaletteEntry {
    type V = PaletteEntryView;

    open spec fn view(&self) -> PaletteEntryView {
        PaletteEntryView {
            has_name: self.has_name,
            red: self.red,
            green: self.green,
            blue: self.blue,
            alpha: self.alpha,
            name: match self.name {
                Some(n) => Some(n@),
                None => None,
            },
        }
    }
}

/// A palette: its declared size and color range, and its entries.
#[derive(Debug, Clone)]
pub struct Palette {
    pub size: u32,
    pub first_color_index: u32,
    pub last_color_index: u32,
    pub reserved: [u8; 8],
    pub entries: Vec<PaletteEntry>,
}

pub struct PaletteView {
    pub size: u32,
    pub first_color_index: u32,
    pub last_color_index: u32,
    pub reserved: Seq<u8>,
    pub entries: Seq<PaletteEntryView>,
}

pub open spec fn entry_views(s: Seq<PaletteEntry>) -> Seq<PaletteEntryView> {
    s.map_values(|e: PaletteEntry| e@)
}

impl View for Palette {
    type V = PaletteView;

    open spec fn view(&self) -> PaletteView {
        PaletteView {
            size: self.size,
            first_color_index: self.first_color_index,
            last_color_index: self.last_color_index,
            reserved: self.reserved@,
            entries: entry_views(self.entries@),
        }
    }
}

/// A palette entry at `p`: a name flag, RGBA, and a name where the flag is
/// set.
pub open spec fn parse_palette_entry(b: Seq<u8>, p: int) -> Option<(PaletteEntryView, int)> {
    if 0 <= p && p + 6 <= b.len() {
        let has_name = le::u16_at(b, p);
        let e = PaletteEntryView {
            has_name,
            red: b[p + 2],
            green: b[p + 3],
            blue: b[p + 4],
            alpha: b[p + 5],
            name: None,
        };
        if has_name != 0 {
            match read::string16_at(b, p + 6) {
                None => None,
                Some((name, q)) => Some((PaletteEntryView { name: Some(name), ..e }, q)),
            }
        } else {
            Some((e, p + 6))
        }
    } else {
        None
    }
}

/// `n` palette entries at `p`.
pub open spec fn parse_palette_entries(b: Seq<u8>, p: int, n: nat) -> Option<(Seq<PaletteEntryView>, int)>
    decreases n,
{
    if n == 0 {
        Some((Seq::empty(), p))
    } else {
        match parse_palette_entry(b, p) {
            None => None,
            Some((e, q)) => sprite::prefixed(seq![e], parse_palette_entries(b, q, (n - 1) as nat)),
        }
    }
}

/// A palette chunk at `p`: size, first and last index, eight reserved
/// bytes, then `size` entries.
pub open spec fn parse_palette(b: Seq<u8>, p: int) -> Option<(PaletteView, int)> {
    if 0 <= p && p + 20 <= b.len() {
        let size = le::u32_at(b, p);
        match parse_palette_entries(b, p + 20, size as nat) {
            None => None,
            Some((entries, q)) => Some(
                (
                    PaletteView {
                        size,
                        first_color_index: le::u32_at(b, p + 4),
                        last_color_index: le::u32_at(b, p + 8),
                        reserved: b.subrange(p + 12, p + 20),
                        entries,
                    },
                    q,
                ),
            ),
        }
    } else {
        None
    }
}

impl PaletteEntry {
    /// Reads a palette entry at `pos` (see [`parse_palette_entry`]).
    pub fn new(bytes: &[u8], pos: usize) -> (r: Option<(PaletteEntry, usize)>)
        ensures
            match r {
                Some((e, q)) => parse_palette_entry(bytes@, pos as int) == Some((e@, q as int))
                    && q <= bytes@.len(),
                None => parse_palette_entry(bytes@, pos as int) is None,
            },
    {
        if pos > bytes.len() || bytes.len() - pos < 6 {
            return None;
        }
        let has_name = read_u16(bytes, pos).unwrap();
        let red = bytes[pos + 2];
        let green = bytes[pos + 3];
        let blue = bytes[pos + 4];
        let alpha = bytes[pos + 5];
        if has_name != 0 {
            match read_string16(bytes, pos + 6) {
                Some((name, q)) => Some(
                    (PaletteEntry { has_name, red, green, blue, alpha, name: Some(name) }, q),
                ),
                None => None,
            }
        } else {
            Some((PaletteEntry { has_name, red, green, blue, alpha, name: None }, pos + 6))
        }
    }
}

impl Palette {
    /// Reads a palette chunk at `pos` (see [`parse_palette`]).
    pub fn new(bytes: &[u8], pos: usize) -> (r: Option<(Palette, usize)>)
        ensures
            match r {
                Some((pal, q)) => parse_palette(bytes@, pos as int) == Some((pal@, q as int))
                    && q <= bytes@.len(),
                None => parse_palette(bytes@, pos as int) is None,
            },
    {
        if pos > bytes.len() || bytes.len() - pos < 20 {
            return None;
        }
        let size = read_u32(bytes, pos).unwrap();
        let first_color_index = read_u32(bytes, pos + 4).unwrap();
        let last_color_index = read_u32(bytes, pos + 8).unwrap();
        let (reserved, _) = read_array::<8>(bytes, pos + 12).unwrap();
        let mut entries: Vec<PaletteEntry> = Vec::new();
        let mut p = pos + 20;
        let mut i: u32 = 0;
        while i < size
            invariant
                i <= size,
                pos + 20 <= bytes@.len(),
                p <= bytes@.len(),
                size == le::u32_at(bytes@, pos as int),
                parse_palette_entries(bytes@, pos + 20, size as nat) == sprite::prefixed(
                    entry_views(entries@),
                    parse_palette_entries(bytes@, p as int, (size - i) as nat),
                ),
            decreases size - i,
        {
            let ghost k = (size - i) as nat;
            match PaletteEntry::new(bytes, p) {
                None => {
                    assert(parse_palette_entries(bytes@, p as int, k) is None);
                    return None;
                },
                Some((e, q)) => {
                    let ghost old_entries = entries@;
                    entries.push(e);
                    proof {
                        assert(entry_views(entries@) =~= entry_views(old_entries).push(e@));
                        if let Some((es, t)) = parse_palette_entries(bytes@, q as int, (k - 1) as nat) {
                            assert(entry_views(old_entries) + (seq![e@] + es) =~= entry_views(entries@) + es);
                        }
                    }
                    p = q;
                    i = i + 1;
                },
            }
        }
        assert(entry_views(entries@) + Seq::<PaletteEntryView>::empty() =~= entry_views(entries@));
        Some((Palette { size, first_color_index, last_color_index, reserved, entries }, p))
    }
}

/// The packets of an old palette chunk at `p`, `n` of them: each holds a
/// skip count, a color count and three bytes per color.  Nothing is kept.
pub open spec fn skip_old_packets(b: Seq<u8>, p: int, n: nat) -> Option<int>
    decreases n,
{
    if n == 0 {
        Some(p)
    } else if 0 <= p && p + 2 <= b.len() {
        match read::bytes_at(b, p + 2, 3 * b[p + 1]) {
            None => None,
            Some((_, q)) => skip_old_packets(b, q, (n - 1) as nat),
        }
    } else {
        None
    }
}

/// An old palette chunk at `p`: its packet count and packets.
pub open spec fn skip_old_palette(b: Seq<u8>, p: int) -> Option<int> {
    if 0 <= p && p + 2 <= b.len() {
        skip_old_packets(b, p + 2, le::u16_at(b, p) as nat)
    } else {
        None
    }
}

/// The old palette chunks, which the decoder reads past.
#[derive(Debug)]
pub struct OldPaletteChunk {}

impl OldPaletteChunk {
    /// Reads past an old palette chunk at `pos`, giving the position after it.
    pub fn read_pass(bytes: &[u8], pos: usize) -> (r: Option<usize>)
        ensures
            match r {
                Some(q) => skip_old_palette(bytes@, pos as int) == Some(q as int)
                    && q <= bytes@.len(),
                None => skip_old_palette(bytes@, pos as int) is None,
            },
    {
        let packets = match read_u16(bytes, pos) {
            Some(v) => v,
            None => return None,
        };
        let mut p = pos + 2;
        let mut i: u16 = 0;
        while i < packets
            invariant
                i <= packets,
                pos + 2 <= bytes@.len(),
                p <= bytes@.len(),
                skip_old_palette(bytes@, pos as int) == skip_old_packets(bytes@, p as int, (packets - i) as nat),
            decreases packets - i,
        {
            if p > bytes.len() || bytes.len() - p < 2 {
                return None;
            }
            let colors = bytes[p + 1];
            let n: usize = 3 * colors as usize;
            if n > bytes.len() - (p + 2) {
                return None;
            }
            p = p + 2 + n;
            i = i + 1;
        }
        Some(p)
    }
}

// ---------------------------------------------------------------------------
// Layer (chunk 0x2004).
// ---------------------------------------------------------------------------

/// A layer of the sprite.  The tileset index and UUID are not read.
#[derive(Debug)]
pub struct Layer {
    pub flags: u16,
    pub kind: u16,
    pub child_level: u16,
    pub blend_mode: u16,
    pub opacity: u8,
    pub reserved: [u8; 3],
    pub name: String,
    pub tileset_index: Option<u32>,
    pub uuid: Option<[u8; 16]>,
}

pub struct LayerView {
    pub flags: u16,
    pub kind: u16,
    pub child_level: u16,
    pub blend_mode: u16,
    pub opacity: u8,
    pub reserved: Seq<u8>,
    pub name: Seq<char>,
    pub tileset_index: Option<u32>,
    pub uuid: Option<Seq<u8>>,
}

impl View for Layer {
    type V = LayerView;

    open spec fn view(&self) -> LayerView {
        LayerView {
            flags: self.flags,
            kind: self.kind,
            child_level: self.child_level,
            blend_mode: self.blend_mode,
            opacity: self.opacity,
            reserved: self.reserved@,
            name: self.name@,
            tileset_index: self.tileset_index,
            uuid: match self.uuid {
                Some(u) => Some(u@),
                None => None,
            },
        }
    }
}

/// A layer chunk at `p`: flags, kind, child level, two ignored words (the
/// default size), blend mode, opacity, three reserved bytes and the name.
pub open spec fn parse_layer(b: Seq<u8>, p: int) -> Option<(LayerView, int)> {
    if 0 <= p && p + 16 <= b.len() {
        match read::string16_at(b, p + 16) {
            None => None,
            Some((name, q)) => Some(
                (
                    LayerView {
                        flags: le::u16_at(b, p),
                        kind: le::u16_at(b, p + 2),
                        child_level: le::u16_at(b, p + 4),
                        blend_mode: le::u16_at(b, p + 10),
                        opacity: b[p + 12],
                        reserved: b.subrange(p + 13, p + 16),
                        name,
                        tileset_index: None,
                        uuid: None,
                    },
                    q,
                ),
            ),
        }
    } else {
        None
    }
}

impl Layer {
    /// Reads a layer chunk at `pos` (see [`parse_layer`]).
    pub fn new(bytes: &[u8], pos: usize) -> (r: Option<(Layer, usize)>)
        ensures
            match r {
                Some((l, q)) => parse_layer(bytes@, pos as int) == Some((l@, q as int))
                    && q <= bytes@.len(),
                None => parse_layer(bytes@, pos as int) is None,
            },
    {
        if pos > bytes.len() || bytes.len() - pos < 16 {
            return None;
        }
        let flags = read_u16(bytes, pos).unwrap();
        let kind = read_u16(bytes, pos + 2).unwrap();
        let child_level = read_u16(bytes, pos + 4).unwrap();
        let blend_mode = read_u16(bytes, pos + 10).unwrap();
        let opacity = bytes[pos + 12];
        let (reserved, _) = read_array::<3>(bytes, pos + 13).unwrap();
        match read_string16(bytes, pos + 16) {
            Some((name, q)) => Some(
                (
                    Layer {
                        flags,
                        kind,
                        child_level,
                        blend_mode,
                        opacity,
                        reserved,
                        name,
                        tileset_index: None,
                        uuid: None,
                    },
                    q,
                ),
            ),
            None => None,
        }
    }
}


// ---------------------------------------------------------------------------
// Cel (chunk 0x2005).
// ---------------------------------------------------------------------------

/// The pixels of a cel: raw, or zlib-compressed.
#[derive(Debug)]
pub struct ImageData {
    pub color_depth: u16,
    pub width: u16,
    pub height: u16,
    pub data: Vec<u8>,
    pub is_zlib_compressed: bool,
}

pub struct ImageDataView {
    pub color_depth: u16,
    pub width: u16,
    pub height: u16,
    pub data: Seq<u8>,
    pub is_zlib_compressed: bool,
}

impl View for ImageData {
    type V = ImageDataView;

    open spec fn view(&self) -> ImageDataView {
        ImageDataView {
            color_depth: self.color_depth,
            width: self.width,
            height: self.height,
            data: self.data@,
            is_zlib_compressed: self.is_zlib_compressed,
        }
    }
}

impl ImageData {
    /// The pixels, inflated.  The data must be compressed, and a valid zlib
    /// stream.
    pub fn uncompress(&self) -> (r: Vec<u8>)
        requires
            self.is_zlib_compressed,
            crate::aseprite::zlib_inflate(self.data@) is Some,
        ensures
            crate::aseprite::zlib_inflate(self.data@) == Some(r@),
    {
        crate::aseprite::uncompress(self.data.as_slice())
    }

    /// The pixels, inflated; `None` where the data is not compressed or is
    /// not a valid zlib stream (the cases in which `uncompress` cannot run).
    pub fn try_uncompress(&self) -> (r: Option<Vec<u8>>)
        ensures
            match r {
                Some(v) => self.is_zlib_compressed && crate::aseprite::zlib_inflate(self.data@) == Some(v@),
                None => !self.is_zlib_compressed || crate::aseprite::zlib_inflate(self.data@) is None,
            },
    {
        if !self.is_zlib_compressed {
            return None;
        }
        match crate::aseprite::zlib_decode(self.data.as_slice()) {
            Some(_) => Some(self.uncompress()),
            None => None,
        }
    }
}

/// The tiles of a tilemap cel, compressed.
#[derive(Debug)]
pub struct CompressedTileMap {
    pub tiles_width: u16,
    pub tiles_height: u16,
    pub bits_per_tile: u16,
    pub tile_id_bitmask: u32,
    pub flip_x_bitmask: u32,
    pub flip_y_bitmask: u32,
    pub flip_diagonal_bitmask: u32,
    pub compressed_tiles: Vec<u8>,
}

/// A cel: the image of one layer in one frame.  Image cels (cel types 0 and 2)
/// carry their pixels; linked cels and tilemaps are not kept.
#[derive(Debug)]
pub struct Cel {
    pub layer_index: u16,
    pub position_x: i16,
    pub position_y: i16,
    pub opacity: u8,
    pub kind: u16,
    pub z_index: i16,
    pub reserved: [u8; 5],
    pub image_data: Option<ImageData>,
    pub frame_position_link: Option<u16>,
    pub compressed_tilemap: Option<CompressedTileMap>,
}

pub struct CelView {
    pub layer_index: u16,
    pub position_x: i16,
    pub position_y: i16,
    pub opacity: u8,
    pub kind: u16,
    pub z_index: i16,
    pub reserved: Seq<u8>,
    pub image_data: Option<ImageDataView>,
    pub frame_position_link: Option<u16>,
    pub has_tilemap: bool,
}

impl View for Cel {
    type V = CelView;

    open spec fn view(&self) -> CelView {
        CelView {
            layer_index: self.layer_index,
            position_x: self.position_x,
            position_y: self.position_y,
            opacity: self.opacity,
            kind: self.kind,
            z_index: self.z_index,
            reserved: self.reserved@,
            image_data: match self.image_data {
                Some(d) => Some(d@),
                None => None,
            },
            frame_position_link: self.frame_position_link,
            has_tilemap: self.compressed_tilemap is Some,
        }
    }
}

/// Where the five reserved bytes of a cel at `p` end: they are read with a
/// single `read`, which stops at the end of the data.
pub open spec fn after_reserved(b: Seq<u8>, r: int) -> int {
    if r + 5 <= b.len() {
        r + 5
    } else {
        b.len() as int
    }
}

/// Where a compressed tilemap of a cel at `q` ends, with `rem` bytes of the
/// chunk left: seven fields (22 bytes), ten bytes skipped, then `rem` bytes
/// of tiles.  The tilemap itself is not kept.
pub open spec fn skip_tilemap(b: Seq<u8>, q: int, rem: int) -> Option<int> {
    if 0 <= q && q + 22 <= b.len() {
        match read::bytes_at(b, read::seek(b, q + 22, 10), rem) {
            None => None,
            Some((_, e)) => Some(e),
        }
    } else {
        None
    }
}

/// A cel chunk at `p` of `size` data bytes, in a sprite of `color_depth`:
/// layer index, position, opacity, kind, z-index and five reserved bytes
/// (16 bytes, counted against `size`).  Image cels (cel types 0 and 2) follow
/// with width and height and the rest of the chunk as pixels (compressed
/// for cel type 2); tilemap cels (cel type 3) are read past.  A chunk too small for
/// what it holds is refused.
pub open spec fn parse_cel(b: Seq<u8>, p: int, color_depth: u16, size: u32) -> Option<(CelView, int)> {
    if size < 16 || !(0 <= p && p + 11 <= b.len()) {
        None
    } else {
        let kind = le::u16_at(b, p + 7);
        let q = after_reserved(b, p + 11);
        let rem = size - 16;
        let head = CelView {
            layer_index: le::u16_at(b, p),
            position_x: le::i16_at(b, p + 2),
            position_y: le::i16_at(b, p + 4),
            opacity: b[p + 6],
            kind,
            z_index: le::i16_at(b, p + 9),
            reserved: Seq::new(5, |i: int| 0u8),
            image_data: None,
            frame_position_link: None,
            has_tilemap: false,
        };
        if kind == 0 || kind == 2 {
            if rem < 4 || q + 4 > b.len() {
                None
            } else {
                match read::bytes_at(b, q + 4, rem - 4) {
                    None => None,
                    Some((data, e)) => Some(
                        (
                            CelView {
                                image_data: Some(
                                    ImageDataView {
                                        color_depth,
                                        width: le::u16_at(b, q),
                                        height: le::u16_at(b, q + 2),
                                        data,
                                        is_zlib_compressed: kind == 2,
                                    },
                                ),
                                ..head
                            },
                            e,
                        ),
                    ),
                }
            }
        } else if kind == 3 {
            match skip_tilemap(b, q, rem) {
                None => None,
                Some(e) => Some((head, e)),
            }
        } else {
            Some((head, q))
        }
    }
}

/// An image cel (type 0, raw, or 2, compressed) written as its 16 header
/// bytes, then its width and its height as little-endian `u16`s, then its
/// pixel bytes, reads back with that width, that height and those pixels,
/// and ends after the pixels.
pub proof fn lemma_image_cel_reads_back(
    pre: Seq<u8>,
    head: Seq<u8>,
    width: u16,
    height: u16,
    pixels: Seq<u8>,
    post: Seq<u8>,
    color_depth: u16,
)
    requires
        head.len() == 16,
        le::u16_at(head, 7) == 0 || le::u16_at(head, 7) == 2,
        20 + pixels.len() <= u32::MAX,
    ensures
        ({
            let b = pre + head + le::u16_bytes(width) + le::u16_bytes(height) + pixels + post;
            let p = pre.len() as int;
            match parse_cel(b, p, color_depth, (20 + pixels.len()) as u32) {
                Some((c, e)) => {
                    &&& c.kind == le::u16_at(head, 7)
                    &&& c.image_data matches Some(img)
                    &&& img.width == width
                    &&& img.height == height
                    &&& img.data == pixels
                    &&& img.color_depth == color_depth
                    &&& img.is_zlib_compressed == (c.kind == 2)
                    &&& e == p + 20 + pixels.len()
                },
                None => false,
            }
        }),
{
    let wb = le::u16_bytes(width);
    let hb = le::u16_bytes(height);
    let b = pre + head + wb + hb + pixels + post;
    let p = pre.len() as int;
    le::lemma_u16_roundtrip(pre + head, width, hb + pixels + post);
    assert(b =~= (pre + head) + wb + (hb + pixels + post));
    le::lemma_u16_roundtrip(pre + head + wb, height, pixels + post);
    assert(b =~= (pre + head + wb) + hb + (pixels + post));
    assert(b.subrange(p + 7, p + 9) =~= head.subrange(7, 9));
    assert(le::u16_at(b, p + 7) == le::u16_at(head, 7));
    assert(after_reserved(b, p + 11) == p + 16);
    assert(b.subrange(p + 20, p + 20 + pixels.len()) =~= pixels);
}

impl Cel {
    /// Reads a cel chunk of `chunk_size` data bytes at `pos` (see [`parse_cel`]).
    pub fn new(bytes: &[u8], pos: usize, color_depth: u16, chunk_size: u32) -> (r: Option<(Cel, usize)>)
        requires
            bytes@.len() < usize::MAX,
        ensures
            match r {
                Some((c, q)) => parse_cel(bytes@, pos as int, color_depth, chunk_size) == Some(
                    (c@, q as int),
                ) && q <= bytes@.len() + 1,
                None => parse_cel(bytes@, pos as int, color_depth, chunk_size) is None,
            },
    {
        if chunk_size < 16 || pos > bytes.len() || bytes.len() - pos < 11 {
            return None;
        }
        let layer_index = read_u16(bytes, pos).unwrap();
        let position_x = read_i16(bytes, pos + 2).unwrap();
        let position_y = read_i16(bytes, pos + 4).unwrap();
        let opacity = bytes[pos + 6];
        let kind = read_u16(bytes, pos + 7).unwrap();
        let z_index = read_i16(bytes, pos + 9).unwrap();
        let r = pos + 11;
        let q = if bytes.len() - r >= 5 {
            r + 5
        } else {
            bytes.len()
        };
        let rem = chunk_size - 16;
        let mut image_data: Option<ImageData> = None;
        let mut end = q;
        if kind == 0 || kind == 2 {
            if rem < 4 || q > bytes.len() || bytes.len() - q < 4 {
                return None;
            }
            let width = read_u16(bytes, q).unwrap();
            let height = read_u16(bytes, q + 2).unwrap();
            match read_bytes(bytes, q + 4, (rem - 4) as usize) {
                Some((data, e)) => {
                    image_data = Some(
                        ImageData { color_depth, width, height, data, is_zlib_compressed: kind == 2 },
                    );
                    end = e;
                },
                None => return None,
            }
        } else if kind == 3 {
            if bytes.len() - q < 22 {
                return None;
            }
            let t = skip(bytes, q + 22, 10);
            match read_bytes(bytes, t, rem as usize) {
                Some((_, e)) => {
                    end = e;
                },
                None => return None,
            }
        }
        let c = Cel {
            layer_index,
            position_x,
            position_y,
            opacity,
            kind,
            z_index,
            reserved: [0u8; 5],
            image_data,
            frame_position_link: None,
            compressed_tilemap: None,
        };
        assert(c@.reserved =~= Seq::new(5, |i: int| 0u8));
        Some((c, end))
    }
}

// ---------------------------------------------------------------------------
// Tags (chunk 0x2018).
// ---------------------------------------------------------------------------

/// An animation tag: an inclusive frame range, its looping and color, and
/// its name.
#[derive(Debug, Clone)]
pub struct Tag {
    pub from: u16,
    pub to: u16,
    pub loop_animation_direcion: u8,
    pub repeat_count: u16,
    pub reserved: [u8; 6],
    pub color: [u8; 3],
    pub zero: [u8; 1],
    pub name: String,
}

pub struct TagView {
    pub from: u16,
    pub to: u16,
    pub loop_animation_direcion: u8,
    pub repeat_count: u16,
    pub reserved: Seq<u8>,
    pub color: Seq<u8>,
    pub zero: Seq<u8>,
    pub name: Seq<char>,
}

impl View for Tag {
    type V = TagView;

    open spec fn view(&self) -> TagView {
        TagView {
            from: self.from,
            to: self.to,
            loop_animation_direcion: self.loop_animation_direcion,
            repeat_count: self.repeat_count,
            reserved: self.reserved@,
            color: self.color@,
            zero: self.zero@,
            name: self.name@,
        }
    }
}

/// The tags of a sprite.
#[derive(Debug)]
pub struct Tags {
    pub count: u16,
    pub reserved: [u8; 8],
    pub tags: Vec<Tag>,
}

pub struct TagsView {
    pub count: u16,
    pub reserved: Seq<u8>,
    pub tags: Seq<TagView>,
}

pub open spec fn tag_views(s: Seq<Tag>) -> Seq<TagView> {
    s.map_values(|t: Tag| t@)
}

impl View for Tags {
    type V = TagsView;

    open spec fn view(&self) -> TagsView {
        TagsView { count: self.count, reserved: self.reserved@, tags: tag_views(self.tags@) }
    }
}

/// A tag at `p`: from, to, direction, repeat count, six reserved bytes,
/// color, a zero byte (17 bytes), then the name.
pub open spec fn parse_tag(b: Seq<u8>, p: int) -> Option<(TagView, int)> {
    if 0 <= p && p + 17 <= b.len() {
        match read::string16_at(b, p + 17) {
            None => None,
            Some((name, q)) => Some(
                (
                    TagView {
                        from: le::u16_at(b, p),
                        to: le::u16_at(b, p + 2),
                        loop_animation_direcion: b[p + 4],
                        repeat_count: le::u16_at(b, p + 5),
                        reserved: b.subrange(p + 7, p + 13),
                        color: b.subrange(p + 13, p + 16),
                        zero: b.subrange(p + 16, p + 17),
                        name,
                    },
                    q,
                ),
            ),
        }
    } else {
        None
    }
}

/// `n` tags at `p`.
pub open spec fn parse_tag_list(b: Seq<u8>, p: int, n: nat) -> Option<(Seq<TagView>, int)>
    decreases n,
{
    if n == 0 {
        Some((Seq::empty(), p))
    } else {
        match parse_tag(b, p) {
            None => None,
            Some((t, q)) => sprite::prefixed(seq![t], parse_tag_list(b, q, (n - 1) as nat)),
        }
    }
}

/// A tags chunk at `p`: the count, eight reserved bytes and the tags.
pub open spec fn parse_tags(b: Seq<u8>, p: int) -> Option<(TagsView, int)> {
    if 0 <= p && p + 10 <= b.len() {
        let count = le::u16_at(b, p);
        match parse_tag_list(b, p + 10, count as nat) {
            None => None,
            Some((tags, q)) => Some(
                (TagsView { count, reserved: b.subrange(p + 2, p + 10), tags }, q),
            ),
        }
    } else {
        None
    }
}

impl Tag {
    /// Reads a tag at `pos` (see [`parse_tag`]).
    pub fn new(bytes: &[u8], pos: usize) -> (r: Option<(Tag, usize)>)
        ensures
            match r {
                Some((t, q)) => parse_tag(bytes@, pos as int) == Some((t@, q as int))
                    && q <= bytes@.len(),
                None => parse_tag(bytes@, pos as int) is None,
            },
    {
        if pos > bytes.len() || bytes.len() - pos < 17 {
            return None;
        }
        let from = read_u16(bytes, pos).unwrap();
        let to = read_u16(bytes, pos + 2).unwrap();
        let loop_animation_direcion = bytes[pos + 4];
        let repeat_count = read_u16(bytes, pos + 5).unwrap();
        let (reserved, _) = read_array::<6>(bytes, pos + 7).unwrap();
        let (color, _) = read_array::<3>(bytes, pos + 13).unwrap();
        let (zero, _) = read_array::<1>(bytes, pos + 16).unwrap();
        match read_string16(bytes, pos + 17) {
            Some((name, q)) => Some(
                (
                    Tag { from, to, loop_animation_direcion, repeat_count, reserved, color, zero, name },
                    q,
                ),
            ),
            None => None,
        }
    }
}

impl Tags {
    /// Reads a tags chunk at `pos` (see [`parse_tags`]).
    pub fn new(bytes: &[u8], pos: usize) -> (r: Option<(Tags, usize)>)
        ensures
            match r {
                Some((t, q)) => parse_tags(bytes@, pos as int) == Some((t@, q as int))
                    && q <= bytes@.len(),
                None => parse_tags(bytes@, pos as int) is None,
            },
    {
        if pos > bytes.len() || bytes.len() - pos < 10 {
            return None;
        }
        let count = read_u16(bytes, pos).unwrap();
        let (reserved, _) = read_array::<8>(bytes, pos + 2).unwrap();
        let mut tags: Vec<Tag> = Vec::new();
        let mut p = pos + 10;
        let mut i: u16 = 0;
        while i < count
            invariant
                i <= count,
                pos + 10 <= bytes@.len(),
                p <= bytes@.len(),
                count == le::u16_at(bytes@, pos as int),
                parse_tag_list(bytes@, pos + 10, count as nat) == sprite::prefixed(
                    tag_views(tags@),
                    parse_tag_list(bytes@, p as int, (count - i) as nat),
                ),
            decreases count - i,
        {
            let ghost k = (count - i) as nat;
            match Tag::new(bytes, p) {
                None => {
                    assert(parse_tag_list(bytes@, p as int, k) is None);
                    return None;
                },
                Some((t, q)) => {
                    let ghost old_tags = tags@;
                    tags.push(t);
                    proof {
                        assert(tag_views(tags@) =~= tag_views(old_tags).push(t@));
                        if let Some((ts, e)) = parse_tag_list(bytes@, q as int, (k - 1) as nat) {
                            assert(tag_views(old_tags) + (seq![t@] + ts) =~= tag_views(tags@) + ts);
                        }
                    }
                    p = q;
                    i = i + 1;
                },
            }
        }
        assert(tag_views(tags@) + Seq::<TagView>::empty() =~= tag_views(tags@));
        Some((Tags { count, reserved, tags }, p))
    }
}

// ---------------------------------------------------------------------------
// Slice (chunk 0x2022).
// ---------------------------------------------------------------------------

/// The center of a nine-patch slice key.
#[derive(Debug, Clone, Copy, PartialEq, Eq)]
pub struct NinePatch {
    pub center_x: i32,
    pub center_y: i32,
    pub center_width: u32,
    pub center_height: u32,
}

/// The pivot of a slice key.
#[derive(Debug, Clone, Copy, PartialEq, Eq)]
pub struct Pivot {
    pub x: i32,
    pub y: i32,
}

/// A slice key: from which frame on the slice has these bounds, and its
/// nine-patch center and pivot where the slice has them.
#[derive(Debug, Clone, Copy, PartialEq, Eq)]
pub struct Key {
    pub frame: u32,
    pub x: i32,
    pub y: i32,
    pub width: u32,
    pub height: u32,
    pub nine_patch: Option<NinePatch>,
    pub pivot: Option<Pivot>,
}

/// A named region of the sprite, keyed by frame.
#[derive(Debug, Clone)]
pub struct Slice {
    pub key_count: u32,
    pub flags: u32,
    pub reserved: u32,
    pub name: String,
    pub keys: Vec<Key>,
}

pub struct SliceView {
    pub key_count: u32,
    pub flags: u32,
    pub reserved: u32,
    pub name: Seq<char>,
    pub keys: Seq<Key>,
}

impl View for Slice {
    type V = SliceView;

    open spec fn view(&self) -> SliceView {
        SliceView {
            key_count: self.key_count,
            flags: self.flags,
            reserved: self.reserved,
            name: self.name@,
            keys: self.keys@,
        }
    }
}

/// A slice key at `p` of a slice with `flags`: frame and bounds (20 bytes),
/// the nine-patch center where bit 0 is set (16 bytes), the pivot where bit
/// 1 is set (8 bytes).
pub open spec fn parse_key(b: Seq<u8>, p: int, flags: u32) -> Option<(Key, int)> {
    let nine = flags & 1 != 0;
    let piv = flags & 2 != 0;
    let q = p + 20 + (if nine { 16int } else { 0int });
    let e = q + (if piv { 8int } else { 0int });
    if 0 <= p && e <= b.len() {
        Some(
            (
                Key {
                    frame: le::u32_at(b, p),
                    x: le::i32_at(b, p + 4),
                    y: le::i32_at(b, p + 8),
                    width: le::u32_at(b, p + 12),
                    height: le::u32_at(b, p + 16),
                    nine_patch: if nine {
                        Some(
                            NinePatch {
                                center_x: le::i32_at(b, p + 20),
                                center_y: le::i32_at(b, p + 24),
                                center_width: le::u32_at(b, p + 28),
                                center_height: le::u32_at(b, p + 32),
                            },
                        )
                    } else {
                        None
                    },
                    pivot: if piv {
                        Some(Pivot { x: le::i32_at(b, q), y: le::i32_at(b, q + 4) })
                    } else {
                        None
                    },
                },
                e,
            ),
        )
    } else {
        None
    }
}

/// `n` slice keys at `p`.
pub open spec fn parse_keys(b: Seq<u8>, p: int, flags: u32, n: nat) -> Option<(Seq<Key>, int)>
    decreases n,
{
    if n == 0 {
        Some((Seq::empty(), p))
    } else {
        match parse_key(b, p, flags) {
            None => None,
            Some((k, q)) => sprite::prefixed(seq![k], parse_keys(b, q, flags, (n - 1) as nat)),
        }
    }
}

/// A slice chunk at `p`: key count, flags, a reserved word, the name, and
/// the keys.
pub open spec fn parse_slice(b: Seq<u8>, p: int) -> Option<(SliceView, int)> {
    if 0 <= p && p + 12 <= b.len() {
        let key_count = le::u32_at(b, p);
        let flags = le::u32_at(b, p + 4);
        match read::string16_at(b, p + 12) {
            None => None,
            Some((name, q)) => match parse_keys(b, q, flags, key_count as nat) {
                None => None,
                Some((keys, e)) => Some(
                    (
                        SliceView { key_count, flags, reserved: le::u32_at(b, p + 8), name, keys },
                        e,
                    ),
                ),
            },
        }
    } else {
        None
    }
}

impl Key {
    /// Reads a slice key at `pos` of a slice with `flags` (see [`parse_key`]).
    pub fn new(bytes: &[u8], pos: usize, flags: u32) -> (r: Option<(Key, usize)>)
        ensures
            match r {
                Some((k, q)) => parse_key(bytes@, pos as int, flags) == Some((k, q as int))
                    && q <= bytes@.len(),
                None => parse_key(bytes@, pos as int, flags) is None,
            },
    {
        let nine = flags & 1 != 0;
        let piv = flags & 2 != 0;
        let size: usize = 20 + (if nine { 16 } else { 0 }) + (if piv { 8 } else { 0 });
        if pos > bytes.len() || bytes.len() - pos < size {
            return None;
        }
        let q = pos + 20 + (if nine { 16 } else { 0 });
        let nine_patch = if nine {
            Some(
                NinePatch {
                    center_x: read_i32(bytes, pos + 20).unwrap(),
                    center_y: read_i32(bytes, pos + 24).unwrap(),
                    center_width: read_u32(bytes, pos + 28).unwrap(),
                    center_height: read_u32(bytes, pos + 32).unwrap(),
                },
            )
        } else {
            None
        };
        let pivot = if piv {
            Some(Pivot { x: read_i32(bytes, q).unwrap(), y: read_i32(bytes, q + 4).unwrap() })
        } else {
            None
        };
        let k = Key {
            frame: read_u32(bytes, pos).unwrap(),
            x: read_i32(bytes, pos + 4).unwrap(),
            y: read_i32(bytes, pos + 8).unwrap(),
            width: read_u32(bytes, pos + 12).unwrap(),
            height: read_u32(bytes, pos + 16).unwrap(),
            nine_patch,
            pivot,
        };
        Some((k, pos + size))
    }
}

impl Slice {
    /// Reads a slice chunk at `pos` (see [`parse_slice`]).
    pub fn new(bytes: &[u8], pos: usize) -> (r: Option<(Slice, usize)>)
        ensures
            match r {
                Some((s, q)) => parse_slice(bytes@, pos as int) == Some((s@, q as int))
                    && q <= bytes@.len(),
                None => parse_slice(bytes@, pos as int) is None,
            },
    {
        if pos > bytes.len() || bytes.len() - pos < 12 {
            return None;
        }
        let key_count = read_u32(bytes, pos).unwrap();
        let flags = read_u32(bytes, pos + 4).unwrap();
        let reserved = read_u32(bytes, pos + 8).unwrap();
        let (name, start) = match read_string16(bytes, pos + 12) {
            Some(r) => r,
            None => return None,
        };
        let mut keys: Vec<Key> = Vec::new();
        let mut p = start;
        let mut i: u32 = 0;
        while i < key_count
            invariant
                i <= key_count,
                pos + 12 <= bytes@.len(),
                p <= bytes@.len(),
                start <= bytes@.len(),
                key_count == le::u32_at(bytes@, pos as int),
                flags == le::u32_at(bytes@, pos + 4),
                read::string16_at(bytes@, pos + 12) == Some((name@, start as int)),
                parse_keys(bytes@, start as int, flags, key_count as nat) == sprite::prefixed(
                    keys@,
                    parse_keys(bytes@, p as int, flags, (key_count - i) as nat),
                ),
            decreases key_count - i,
        {
            let ghost k = (key_count - i) as nat;
            match Key::new(bytes, p, flags) {
                None => {
                    assert(parse_keys(bytes@, p as int, flags, k) is None);
                    return None;
                },
                Some((key, q)) => {
                    let ghost old_keys = keys@;
                    keys.push(key);
                    proof {
                        if let Some((ks, e)) = parse_keys(bytes@, q as int, flags, (k - 1) as nat) {
                            assert(old_keys + (seq![key] + ks) =~= keys@ + ks);
                        }
                    }
                    p = q;
                    i = i + 1;
                },
            }
        }
        assert(keys@ + Seq::<Key>::empty() =~= keys@);
        Some((Slice { key_count, flags, reserved, name, keys }, p))
    }
}

// ---------------------------------------------------------------------------
// Tileset (chunk 0x2023) and user data.
// ---------------------------------------------------------------------------

/// A tileset kept in another file.
#[derive(Debug, Clone, Copy, PartialEq, Eq)]
pub struct ExternalFile {
    pub id: u32,
    pub tileset_id: u32,
}

/// The image of a tileset kept in the file.
#[derive(Debug)]
pub struct CompressedTilesetImage {
    pub compressed_data_length: u32,
    pub pixels: Vec<u8>,
}

/// A tileset: its id, flags, tile count and size, base index and name, and
/// where its tiles are.
#[derive(Debug)]
pub struct Tileset {
    pub id: u32,
    pub flags: u32,
    pub count: u32,
    pub tile_width: u16,
    pub tile_height: u16,
    pub base_index: i16,
    pub name: String,
    pub external_file: Option<ExternalFile>,
    pub tileset_image: Option<CompressedTilesetImage>,
}

pub struct TilesetView {
    pub id: u32,
    pub flags: u32,
    pub count: u32,
    pub tile_width: u16,
    pub tile_height: u16,
    pub base_index: i16,
    pub name: Seq<char>,
    pub external_file: Option<ExternalFile>,
    pub tileset_image: Option<(u32, Seq<u8>)>,
}

impl View for Tileset {
    type V = TilesetView;

    open spec fn view(&self) -> TilesetView {
        TilesetView {
            id: self.id,
            flags: self.flags,
            count: self.count,
            tile_width: self.tile_width,
            tile_height: self.tile_height,
            base_index: self.base_index,
            name: self.name@,
            external_file: self.external_file,
            tileset_image: match self.tileset_image {
                Some(i) => Some((i.compressed_data_length, i.pixels@)),
                None => None,
            },
        }
    }
}

/// A tileset chunk at `p`: id, flags, count, tile size, base index
/// (18 bytes), fourteen reserved bytes, the name; where flag bit 0 is set
/// the external file (8 bytes); where bit 1 is set the image: its declared
/// length `n`, then the image is `n` zero bytes followed by everything up
/// to the end of the data, which is where reading stops.
pub open spec fn parse_tileset(b: Seq<u8>, p: int) -> Option<(TilesetView, int)> {
    if 0 <= p && p + 32 <= b.len() {
        let flags = le::u32_at(b, p + 4);
        match read::string16_at(b, p + 32) {
            None => None,
            Some((name, q)) => {
                let ext = flags & 1 != 0;
                let img = flags & 2 != 0;
                let r = if ext { q + 8 } else { q };
                if r > b.len() || (img && r + 4 > b.len()) {
                    None
                } else {
                    let head = TilesetView {
                        id: le::u32_at(b, p),
                        flags,
                        count: le::u32_at(b, p + 8),
                        tile_width: le::u16_at(b, p + 12),
                        tile_height: le::u16_at(b, p + 14),
                        base_index: le::i16_at(b, p + 16),
                        name,
                        external_file: if ext {
                            Some(ExternalFile { id: le::u32_at(b, q), tileset_id: le::u32_at(b, q + 4) })
                        } else {
                            None
                        },
                        tileset_image: None,
                    };
                    if img {
                        let n = le::u32_at(b, r);
                        Some(
                            (
                                TilesetView {
                                    tileset_image: Some(
                                        (n, Seq::new(n as nat, |i: int| 0u8) + b.subrange(r + 4, b.len() as int)),
                                    ),
                                    ..head
                                },
                                b.len() as int,
                            ),
                        )
                    } else {
                        Some((head, r))
                    }
                }
            },
        }
    } else {
        None
    }
}

impl ExternalFile {
    /// Reads the external file reference at `pos`.
    pub fn new(bytes: &[u8], pos: usize) -> (r: Option<(ExternalFile, usize)>)
        ensures
            match r {
                Some((e, q)) => pos + 8 <= bytes@.len() && q == pos + 8 && e == (ExternalFile {
                    id: le::u32_at(bytes@, pos as int),
                    tileset_id: le::u32_at(bytes@, pos + 4),
                }),
                None => pos + 8 > bytes@.len(),
            },
    {
        if pos > bytes.len() || bytes.len() - pos < 8 {
            return None;
        }
        Some(
            (
                ExternalFile {
                    id: read_u32(bytes, pos).unwrap(),
                    tileset_id: read_u32(bytes, pos + 4).unwrap(),
                },
                pos + 8,
            ),
        )
    }
}

impl CompressedTilesetImage {
    /// Reads a tileset image at `pos`: its declared length `n`, then `n`
    /// zero bytes followed by the rest of the data.
    pub fn new(bytes: &[u8], pos: usize) -> (r: Option<(CompressedTilesetImage, usize)>)
        ensures
            match r {
                Some((img, q)) => pos + 4 <= bytes@.len() && q == bytes@.len()
                    && img.compressed_data_length == le::u32_at(bytes@, pos as int)
                    && img.pixels@ == Seq::new(img.compressed_data_length as nat, |i: int| 0u8)
                    + bytes@.subrange(pos + 4, bytes@.len() as int),
                None => pos + 4 > bytes@.len(),
            },
    {
        let n = match read_u32(bytes, pos) {
            Some(v) => v,
            None => return None,
        };
        let mut pixels: Vec<u8> = Vec::new();
        let mut i: u32 = 0;
        while i < n
            invariant
                i <= n,
                pixels@ == Seq::new(i as nat, |j: int| 0u8),
            decreases n - i,
        {
            pixels.push(0u8);
            i = i + 1;
            assert(pixels@ =~= Seq::new(i as nat, |j: int| 0u8));
        }
        let ghost zeros = pixels@;
        let mut k = pos + 4;
        while k < bytes.len()
            invariant
                pos + 4 <= k <= bytes@.len(),
                pixels@ == zeros + bytes@.subrange(pos + 4, k as int),
            decreases bytes@.len() - k,
        {
            pixels.push(bytes[k]);
            k = k + 1;
            assert(pixels@ =~= zeros + bytes@.subrange(pos + 4, k as int));
        }
        Some((CompressedTilesetImage { compressed_data_length: n, pixels }, bytes.len()))
    }
}

impl Tileset {
    /// Reads a tileset chunk at `pos` (see [`parse_tileset`]).
    pub fn new(bytes: &[u8], pos: usize) -> (r: Option<(Tileset, usize)>)
        ensures
            match r {
                Some((t, q)) => parse_tileset(bytes@, pos as int) == Some((t@, q as int))
                    && q <= bytes@.len(),
                None => parse_tileset(bytes@, pos as int) is None,
            },
    {
        if pos > bytes.len() || bytes.len() - pos < 32 {
            return None;
        }
        let id = read_u32(bytes, pos).unwrap();
        let flags = read_u32(bytes, pos + 4).unwrap();
        let count = read_u32(bytes, pos + 8).unwrap();
        let tile_width = read_u16(bytes, pos + 12).unwrap();
        let tile_height = read_u16(bytes, pos + 14).unwrap();
        let base_index = read_i16(bytes, pos + 16).unwrap();
        let (name, q) = match read_string16(bytes, pos + 32) {
            Some(r) => r,
            None => return None,
        };
        let mut external_file: Option<ExternalFile> = None;
        let mut r = q;
        if flags & 1 != 0 {
            match ExternalFile::new(bytes, q) {
                Some((e, t)) => {
                    external_file = Some(e);
                    r = t;
                },
                None => return None,
            }
        }
        let mut tileset_image: Option<CompressedTilesetImage> = None;
        let mut end = r;
        if flags & 2 != 0 {
            match CompressedTilesetImage::new(bytes, r) {
                Some((img, t)) => {
                    tileset_image = Some(img);
                    end = t;
                },
                None => return None,
            }
        }
        Some(
            (
                Tileset {
                    id,
                    flags,
                    count,
                    tile_width,
                    tile_height,
                    base_index,
                    name,
                    external_file,
                    tileset_image,
                },
                end,
            ),
        )
    }
}

/// User data attached to a chunk.  The decoder skips user data chunks.
#[derive(Debug)]
pub struct User {
    pub flags: u32,
    pub text: Option<String>,
    pub color: Option<[u8; 4]>,
}

} // verus!
