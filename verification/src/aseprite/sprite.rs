//! The sprite-sheet format baked for the game ("Fer"): a simpler binary
//! companion of an Aseprite file that lists, little-endian,
//!
//! * a `u32` frame count, then per frame `duration: u16`, `x: i16`, `y: i16`,
//!   `width: u16`, `height: u16` (the frame's rectangle in the atlas image);
//! * a `u32` slice count, then per slice a `u32` name length, the UTF-8 name,
//!   and `x, y: i32`, `width, height: u32`, `pivot_x, pivot_y: i32`;
//! * a `u32` tag count, then per tag a `u32` name length, the UTF-8 name,
//!   and the inclusive frame range `from, to: u16`.
use super::le::{
    self, read_i16, read_i32, read_u16, read_u32, write_bytes, write_i32, write_u16, write_u32,
};
use super::text::{string_bytes, string_from_utf8};
use vstd::prelude::*;
use vstd::slice::{slice_subrange, slice_to_vec};
use vstd::utf8::*;

verus! {

broadcast use vstd::seq_lib::group_seq_properties;

/// One animation frame: how long it shows and where it lies in the atlas.
#[derive(Debug, Clone, Copy, PartialEq, Eq)]
pub struct Frame {
    pub duration: u16,
    pub x: i16,
    pub y: i16,
    pub width: u16,
    pub height: u16,
}

/// A named region of the sprite with its pivot.
#[derive(Debug)]
pub struct Slice {
    pub name: String,
    pub x: i32,
    pub y: i32,
    pub width: u32,
    pub height: u32,
    pub pivot_x: i32,
    pub pivot_y: i32,
}

/// A named, inclusive range of frames (an animation).
#[derive(Debug)]
pub struct Tag {
    pub name: String,
    pub from: u16,
    pub to: u16,
}

/// A decoded sprite sheet.
pub struct Sprite {
    pub frames: Vec<Frame>,
    pub slices: Vec<Slice>,
    pub tags: Vec<Tag>,
}

/// The abstract value of a [`Slice`].
pub struct SliceView {
    pub name: Seq<char>,
    pub x: i32,
    pub y: i32,
    pub width: u32,
    pub height: u32,
    pub pivot_x: i32,
    pub pivot_y: i32,
}

/// The abstract value of a [`Tag`].
pub struct TagView {
    pub name: Seq<char>,
    pub from: u16,
    pub to: u16,
}

/// The abstract value of a [`Sprite`].
pub struct SpriteView {
    pub frames: Seq<Frame>,
    pub slices: Seq<SliceView>,
    pub tags: Seq<TagView>,
}

impl View for Slice {
    type V = SliceView;

    open spec fn view(&self) -> SliceView {
        SliceView {
            name: self.name@,
            x: self.x,
            y: self.y,
            width: self.width,
            height: self.height,
            pivot_x: self.pivot_x,
            pivot_y: self.pivot_y,
        }
    }
}

impl View for Tag {
    type V = TagView;

    open spec fn view(&self) -> TagView {
        TagView { name: self.name@, from: self.from, to: self.to }
    }
}

pub open spec fn slice_views(s: Seq<Slice>) -> Seq<SliceView> {
    s.map_values(|x: Slice| x@)
}

pub open spec fn tag_views(s: Seq<Tag>) -> Seq<TagView> {
    s.map_values(|x: Tag| x@)
}

impl View for Sprite {
    type V = SpriteView;

    open spec fn view(&self) -> SpriteView {
        SpriteView {
            frames: self.frames@,
            slices: slice_views(self.slices@),
            tags: tag_views(self.tags@),
        }
    }
}

// ---------------------------------------------------------------------------
// The format, read as a function on bytes.
// ---------------------------------------------------------------------------

/// A frame record at `p`, and the position after it.
pub open spec fn parse_frame(b: Seq<u8>, p: int) -> Option<(Frame, int)> {
    if 0 <= p && p + 10 <= b.len() {
        Some(
            (
                Frame {
                    duration: le::u16_at(b, p),
                    x: le::i16_at(b, p + 2),
                    y: le::i16_at(b, p + 4),
                    width: le::u16_at(b, p + 6),
                    height: le::u16_at(b, p + 8),
                },
                p + 10,
            ),
        )
    } else {
        None
    }
}

/// A length-prefixed UTF-8 name at `p`, and the position after it.
pub open spec fn parse_name(b: Seq<u8>, p: int) -> Option<(Seq<char>, int)> {
    if 0 <= p && p + 4 <= b.len() {
        let s = p + 4;
        let e = s + le::u32_at(b, p) as int;
        if e <= b.len() && valid_utf8(b.subrange(s, e)) {
            Some((decode_utf8(b.subrange(s, e)), e))
        } else {
            None
        }
    } else {
        None
    }
}

/// A slice record at `p`, and the position after it.
pub open spec fn parse_slice(b: Seq<u8>, p: int) -> Option<(SliceView, int)> {
    match parse_name(b, p) {
        None => None,
        Some((name, q)) => if q + 24 <= b.len() {
            Some(
                (
                    SliceView {
                        name,
                        x: le::i32_at(b, q),
                        y: le::i32_at(b, q + 4),
                        width: le::u32_at(b, q + 8),
                        height: le::u32_at(b, q + 12),
                        pivot_x: le::i32_at(b, q + 16),
                        pivot_y: le::i32_at(b, q + 20),
                    },
                    q + 24,
                ),
            )
        } else {
            None
        },
    }
}

/// A tag record at `p`, and the position after it.
pub open spec fn parse_tag(b: Seq<u8>, p: int) -> Option<(TagView, int)> {
    match parse_name(b, p) {
        None => None,
        Some((name, q)) => if q + 4 <= b.len() {
            Some((TagView { name, from: le::u16_at(b, q), to: le::u16_at(b, q + 2) }, q + 4))
        } else {
            None
        },
    }
}

/// `n` frame records starting at `p`.
pub open spec fn parse_frames(b: Seq<u8>, p: int, n: nat) -> Option<(Seq<Frame>, int)>
    decreases n,
{
    if n == 0 {
        Some((Seq::empty(), p))
    } else {
        match parse_frame(b, p) {
            None => None,
            Some((f, q)) => match parse_frames(b, q, (n - 1) as nat) {
                None => None,
                Some((fs, e)) => Some((seq![f] + fs, e)),
            },
        }
    }
}

/// `n` slice records starting at `p`.
pub open spec fn parse_slices(b: Seq<u8>, p: int, n: nat) -> Option<(Seq<SliceView>, int)>
    decreases n,
{
    if n == 0 {
        Some((Seq::empty(), p))
    } else {
        match parse_slice(b, p) {
            None => None,
            Some((f, q)) => match parse_slices(b, q, (n - 1) as nat) {
                None => None,
                Some((fs, e)) => Some((seq![f] + fs, e)),
            },
        }
    }
}

/// `n` tag records starting at `p`.
pub open spec fn parse_tags(b: Seq<u8>, p: int, n: nat) -> Option<(Seq<TagView>, int)>
    decreases n,
{
    if n == 0 {
        Some((Seq::empty(), p))
    } else {
        match parse_tag(b, p) {
            None => None,
            Some((f, q)) => match parse_tags(b, q, (n - 1) as nat) {
                None => None,
                Some((fs, e)) => Some((seq![f] + fs, e)),
            },
        }
    }
}

/// The sprite that `b` encodes, or `None` when `b` is not such an encoding
/// (it ends inside a record, or a name is not UTF-8).  Bytes after the last
/// tag are ignored.
pub open spec fn parse_sprite(b: Seq<u8>) -> Option<SpriteView> {
    if b.len() < 4 {
        None
    } else {
        match parse_frames(b, 4, le::u32_at(b, 0) as nat) {
            None => None,
            Some((frames, p1)) => if p1 + 4 > b.len() {
                None
            } else {
                match parse_slices(b, p1 + 4, le::u32_at(b, p1) as nat) {
                    None => None,
                    Some((slices, p2)) => if p2 + 4 > b.len() {
                        None
                    } else {
                        match parse_tags(b, p2 + 4, le::u32_at(b, p2) as nat) {
                            None => None,
                            Some((tags, _)) => Some(SpriteView { frames, slices, tags }),
                        }
                    },
                }
            },
        }
    }
}

/// `r` extended at the front by `pre`.
pub open spec fn prefixed<T>(pre: Seq<T>, r: Option<(Seq<T>, int)>) -> Option<(Seq<T>, int)> {
    match r {
        None => None,
        Some((rest, e)) => Some((pre + rest, e)),
    }
}

// ---------------------------------------------------------------------------
// Decoding.
// ---------------------------------------------------------------------------

fn decode_frame(bytes: &[u8], pos: usize) -> (r: Option<(Frame, usize)>)
    ensures
        match r {
            Some((f, q)) => parse_frame(bytes@, pos as int) == Some((f, q as int)),
            None => parse_frame(bytes@, pos as int) is None,
        },
{
    if pos > bytes.len() || bytes.len() - pos < 10 {
        return None;
    }
    let duration = read_u16(bytes, pos).unwrap();
    let x = read_i16(bytes, pos + 2).unwrap();
    let y = read_i16(bytes, pos + 4).unwrap();
    let width = read_u16(bytes, pos + 6).unwrap();
    let height = read_u16(bytes, pos + 8).unwrap();
    Some((Frame { duration, x, y, width, height }, pos + 10))
}

/// Reads a length-prefixed UTF-8 name at `pos`.
pub fn decode_name(bytes: &[u8], pos: usize) -> (r: Option<(String, usize)>)
    ensures
        match r {
            Some((s, q)) => parse_name(bytes@, pos as int) == Some((s@, q as int)),
            None => parse_name(bytes@, pos as int) is None,
        },
{
    let n = match read_u32(bytes, pos) {
        Some(n) => n,
        None => return None,
    };
    let start = pos + 4;
    if n as usize > bytes.len() - start {
        return None;
    }
    let end = start + n as usize;
    let raw = slice_to_vec(slice_subrange(bytes, start, end));
    match string_from_utf8(raw) {
        Some(s) => Some((s, end)),
        None => None,
    }
}

fn decode_slice(bytes: &[u8], pos: usize) -> (r: Option<(Slice, usize)>)
    ensures
        match r {
            Some((s, q)) => parse_slice(bytes@, pos as int) == Some((s@, q as int)),
            None => parse_slice(bytes@, pos as int) is None,
        },
{
    let (name, q) = match decode_name(bytes, pos) {
        Some(r) => r,
        None => return None,
    };
    if bytes.len() - q < 24 {
        return None;
    }
    let x = read_i32(bytes, q).unwrap();
    let y = read_i32(bytes, q + 4).unwrap();
    let width = read_u32(bytes, q + 8).unwrap();
    let height = read_u32(bytes, q + 12).unwrap();
    let pivot_x = read_i32(bytes, q + 16).unwrap();
    let pivot_y = read_i32(bytes, q + 20).unwrap();
    Some((Slice { name, x, y, width, height, pivot_x, pivot_y }, q + 24))
}

fn decode_tag(bytes: &[u8], pos: usize) -> (r: Option<(Tag, usize)>)
    ensures
        match r {
            Some((t, q)) => parse_tag(bytes@, pos as int) == Some((t@, q as int)),
            None => parse_tag(bytes@, pos as int) is None,
        },
{
    let (name, q) = match decode_name(bytes, pos) {
        Some(r) => r,
        None => return None,
    };
    if bytes.len() - q < 4 {
        return None;
    }
    let from = read_u16(bytes, q).unwrap();
    let to = read_u16(bytes, q + 2).unwrap();
    Some((Tag { name, from, to }, q + 4))
}

fn decode_frames(bytes: &[u8], pos: usize, count: u32) -> (r: Option<(Vec<Frame>, usize)>)
    ensures
        match r {
            Some((v, q)) => parse_frames(bytes@, pos as int, count as nat) == Some((v@, q as int)),
            None => parse_frames(bytes@, pos as int, count as nat) is None,
        },
{
    let mut frames: Vec<Frame> = Vec::new();
    let mut p = pos;
    let mut i: u32 = 0;
    while i < count
        invariant
            i <= count,
            parse_frames(bytes@, pos as int, count as nat) == prefixed(
                frames@,
                parse_frames(bytes@, p as int, (count - i) as nat),
            ),
        decreases count - i,
    {
        let ghost k = (count - i) as nat;
        match decode_frame(bytes, p) {
            None => {
                return None;
            },
            Some((f, q)) => {
                proof {
                    if let Some((fs, e)) = parse_frames(bytes@, q as int, (k - 1) as nat) {
                        assert(frames@ + (seq![f] + fs) =~= frames@.push(f) + fs);
                    }
                }
                frames.push(f);
                p = q;
                i = i + 1;
            },
        }
    }
    assert(frames@ + Seq::<Frame>::empty() =~= frames@);
    Some((frames, p))
}

fn decode_slices(bytes: &[u8], pos: usize, count: u32) -> (r: Option<(Vec<Slice>, usize)>)
    ensures
        match r {
            Some((v, q)) => parse_slices(bytes@, pos as int, count as nat) == Some(
                (slice_views(v@), q as int),
            ),
            None => parse_slices(bytes@, pos as int, count as nat) is None,
        },
{
    let mut slices: Vec<Slice> = Vec::new();
    let mut p = pos;
    let mut i: u32 = 0;
    while i < count
        invariant
            i <= count,
            parse_slices(bytes@, pos as int, count as nat) == prefixed(
                slice_views(slices@),
                parse_slices(bytes@, p as int, (count - i) as nat),
            ),
        decreases count - i,
    {
        let ghost k = (count - i) as nat;
        match decode_slice(bytes, p) {
            None => {
                return None;
            },
            Some((s, q)) => {
                let ghost old_slices = slices@;
                slices.push(s);
                proof {
                    assert(slice_views(slices@) =~= slice_views(old_slices).push(s@));
                    if let Some((fs, e)) = parse_slices(bytes@, q as int, (k - 1) as nat) {
                        assert(slice_views(old_slices) + (seq![s@] + fs) =~= slice_views(
                            slices@,
                        ) + fs);
                    }
                }
                p = q;
                i = i + 1;
            },
        }
    }
    assert(slice_views(slices@) + Seq::<SliceView>::empty() =~= slice_views(slices@));
    Some((slices, p))
}

fn decode_tags(bytes: &[u8], pos: usize, count: u32) -> (r: Option<(Vec<Tag>, usize)>)
    ensures
        match r {
            Some((v, q)) => parse_tags(bytes@, pos as int, count as nat) == Some(
                (tag_views(v@), q as int),
            ),
            None => parse_tags(bytes@, pos as int, count as nat) is None,
        },
{
    let mut tags: Vec<Tag> = Vec::new();
    let mut p = pos;
    let mut i: u32 = 0;
    while i < count
        invariant
            i <= count,
            parse_tags(bytes@, pos as int, count as nat) == prefixed(
                tag_views(tags@),
                parse_tags(bytes@, p as int, (count - i) as nat),
            ),
        decreases count - i,
    {
        let ghost k = (count - i) as nat;
        match decode_tag(bytes, p) {
            None => {
                return None;
            },
            Some((t, q)) => {
                let ghost old_tags = tags@;
                tags.push(t);
                proof {
                    assert(tag_views(tags@) =~= tag_views(old_tags).push(t@));
                    if let Some((fs, e)) = parse_tags(bytes@, q as int, (k - 1) as nat) {
                        assert(tag_views(old_tags) + (seq![t@] + fs) =~= tag_views(tags@) + fs);
                    }
                }
                p = q;
                i = i + 1;
            },
        }
    }
    assert(tag_views(tags@) + Seq::<TagView>::empty() =~= tag_views(tags@));
    Some((tags, p))
}


// ---------------------------------------------------------------------------
// The Aseprite data the encoder reads.
// ---------------------------------------------------------------------------

/// A frame of the source Aseprite file: its duration and, for each of its
/// cels, the index of the cel's image in the file's image list.
pub struct SourceFrame {
    pub duration: u16,
    pub cel_images: Vec<usize>,
}

/// A key of a source slice: its bounds and its pivot, if it has one.
#[derive(Debug, Clone, Copy, PartialEq, Eq)]
pub struct SourceSliceKey {
    pub x: i32,
    pub y: i32,
    pub width: u32,
    pub height: u32,
    pub pivot: Option<(i32, i32)>,
}

/// A slice of the source file with its keys.
pub struct SourceSlice {
    pub name: String,
    pub keys: Vec<SourceSliceKey>,
}

/// What the encoder reads of a loaded Aseprite file: the canvas size, the
/// number of images, the frames, slices and tags (tag ranges are inclusive).
pub struct SpriteSource {
    pub width: u16,
    pub height: u16,
    pub image_count: usize,
    pub frames: Vec<SourceFrame>,
    pub slices: Vec<SourceSlice>,
    pub tags: Vec<Tag>,
}

pub struct SourceFrameView {
    pub duration: u16,
    pub cel_images: Seq<usize>,
}

pub struct SourceSliceView {
    pub name: Seq<char>,
    pub keys: Seq<SourceSliceKey>,
}

pub struct SpriteSourceView {
    pub width: u16,
    pub height: u16,
    pub image_count: nat,
    pub frames: Seq<SourceFrameView>,
    pub slices: Seq<SourceSliceView>,
    pub tags: Seq<TagView>,
}

impl View for SourceFrame {
    type V = SourceFrameView;

    open spec fn view(&self) -> SourceFrameView {
        SourceFrameView { duration: self.duration, cel_images: self.cel_images@ }
    }
}

impl View for SourceSlice {
    type V = SourceSliceView;

    open spec fn view(&self) -> SourceSliceView {
        SourceSliceView { name: self.name@, keys: self.keys@ }
    }
}

impl View for SpriteSource {
    type V = SpriteSourceView;

    open spec fn view(&self) -> SpriteSourceView {
        SpriteSourceView {
            width: self.width,
            height: self.height,
            image_count: self.image_count as nat,
            frames: self.frames@.map_values(|f: SourceFrame| f@),
            slices: self.slices@.map_values(|s: SourceSlice| s@),
            tags: tag_views(self.tags@),
        }
    }
}

// ---------------------------------------------------------------------------
// The encoding, as a function of the source.  `None` stands for the inputs on
// which encoding cannot proceed: a packing cursor or an atlas coordinate that
// leaves `u16`, a packing width of zero when an image is placed, a slice
// without keys, or a first key without a pivot.
// ---------------------------------------------------------------------------

/// The packing cursor after placing one frame: the next column, or the
/// start of the next row once `pw` columns are used.
pub open spec fn advance(px: int, py: int, pw: int) -> (int, int) {
    if px < pw - 1 {
        (px + 1, py)
    } else {
        (0, py + 1)
    }
}

/// The bytes written for the cels of one frame with the cursor at
/// `(px, py)`, and the cursor after it.  Each cel up to and including the
/// first one whose image exists writes the frame duration; that first one
/// also writes its atlas rectangle and moves the cursor.
pub open spec fn encode_cels(
    cels: Seq<usize>,
    duration: u16,
    images: int,
    w: u16,
    h: u16,
    pw: int,
    px: int,
    py: int,
) -> Option<(Seq<u8>, int, int)>
    decreases cels.len(),
{
    if cels.len() == 0 {
        Some((Seq::empty(), px, py))
    } else if (cels[0] as int) < images {
        let x = px * w;
        let y = py * h;
        let next = advance(px, py, pw);
        if x > u16::MAX || y > u16::MAX || pw < 1 || next.0 > u16::MAX || next.1 > u16::MAX {
            None
        } else {
            Some(
                (
                    le::u16_bytes(duration) + le::u16_bytes(x as u16) + le::u16_bytes(y as u16)
                        + le::u16_bytes(w) + le::u16_bytes(h),
                    next.0,
                    next.1,
                ),
            )
        }
    } else {
        match encode_cels(cels.drop_first(), duration, images, w, h, pw, px, py) {
            None => None,
            Some((rest, a, b)) => Some((le::u16_bytes(duration) + rest, a, b)),
        }
    }
}

/// The frame records of `frames` with the cursor starting at `(px, py)`.
pub open spec fn encode_frames(
    frames: Seq<SourceFrameView>,
    images: int,
    w: u16,
    h: u16,
    pw: int,
    px: int,
    py: int,
) -> Option<Seq<u8>>
    decreases frames.len(),
{
    if frames.len() == 0 {
        Some(Seq::empty())
    } else {
        match encode_cels(frames[0].cel_images, frames[0].duration, images, w, h, pw, px, py) {
            None => None,
            Some((b, a, c)) => match encode_frames(frames.drop_first(), images, w, h, pw, a, c) {
                None => None,
                Some(rest) => Some(b + rest),
            },
        }
    }
}

/// A name as written: its UTF-8 byte length as `u32`, then the bytes.
pub open spec fn name_record(name: Seq<char>) -> Seq<u8> {
    le::u32_bytes(encode_utf8(name).len() as u32) + encode_utf8(name)
}

/// A slice record: the name, then the bounds and pivot of its first key.
pub open spec fn encode_slice(s: SourceSliceView) -> Option<Seq<u8>> {
    if s.keys.len() == 0 {
        None
    } else {
        let k = s.keys[0];
        match k.pivot {
            None => None,
            Some((px, py)) => Some(
                name_record(s.name) + le::i32_bytes(k.x) + le::i32_bytes(k.y) + le::u32_bytes(
                    k.width,
                ) + le::u32_bytes(k.height) + le::i32_bytes(px) + le::i32_bytes(py),
            ),
        }
    }
}

pub open spec fn encode_slices(s: Seq<SourceSliceView>) -> Option<Seq<u8>>
    decreases s.len(),
{
    if s.len() == 0 {
        Some(Seq::empty())
    } else {
        match encode_slice(s[0]) {
            None => None,
            Some(b) => match encode_slices(s.drop_first()) {
                None => None,
                Some(rest) => Some(b + rest),
            },
        }
    }
}

/// A tag record: the name, then the first and last frame.
pub open spec fn encode_tag(t: TagView) -> Seq<u8> {
    name_record(t.name) + le::u16_bytes(t.from) + le::u16_bytes(t.to)
}

pub open spec fn encode_tags(t: Seq<TagView>) -> Seq<u8>
    decreases t.len(),
{
    if t.len() == 0 {
        Seq::empty()
    } else {
        encode_tag(t[0]) + encode_tags(t.drop_first())
    }
}

/// The bytes `Sprite::encode` writes for `src` with `pw` atlas columns.
pub open spec fn spec_encode(src: SpriteSourceView, pw: int) -> Option<Seq<u8>> {
    match encode_frames(src.frames, src.image_count as int, src.width, src.height, pw, 0, 0) {
        None => None,
        Some(fb) => match encode_slices(src.slices) {
            None => None,
            Some(sb) => Some(
                le::u32_bytes(src.frames.len() as u32) + fb + le::u32_bytes(
                    src.slices.len() as u32,
                ) + sb + le::u32_bytes(src.tags.len() as u32) + encode_tags(src.tags),
            ),
        },
    }
}

/// `r` with `pre` put in front of its bytes.
pub open spec fn prefixed_cels(pre: Seq<u8>, r: Option<(Seq<u8>, int, int)>) -> Option<
    (Seq<u8>, int, int),
> {
    match r {
        None => None,
        Some((b, a, c)) => Some((pre + b, a, c)),
    }
}

pub open spec fn prefixed_bytes(pre: Seq<u8>, r: Option<Seq<u8>>) -> Option<Seq<u8>> {
    match r {
        None => None,
        Some(b) => Some(pre + b),
    }
}

fn encode_frame_cels(
    out: &mut Vec<u8>,
    frame: &SourceFrame,
    images: usize,
    w: u16,
    h: u16,
    pw: usize,
    px: u16,
    py: u16,
) -> (r: Option<(u16, u16)>)
    ensures
        ({
            let spec = encode_cels(
                frame.cel_images@,
                frame.duration,
                images as int,
                w,
                h,
                pw as int,
                px as int,
                py as int,
            );
            &&& r is Some <==> spec is Some
            &&& r matches Some((a, b)) ==> {
                &&& final(out)@ == old(out)@ + spec.unwrap().0
                &&& a == spec.unwrap().1
                &&& b == spec.unwrap().2
            }
        }),
{
    let ghost start = out@;
    let ghost all = frame.cel_images@;
    let mut j: usize = 0;
    proof {
        assert(all.subrange(0, all.len() as int) =~= all);
        assert(out@.subrange(start.len() as int, out@.len() as int) =~= Seq::<u8>::empty());
        assert(out@ =~= start + Seq::<u8>::empty());
        if let Some((b, a, c)) = encode_cels(all, frame.duration, images as int, w, h, pw as int, px as int, py as int) {
            assert(Seq::<u8>::empty() + b =~= b);
        }
    }
    while j < frame.cel_images.len()
        invariant
            j <= all.len(),
            all == frame.cel_images@,
            out@.len() >= start.len(),
            start == old(out)@,
            encode_cels(all, frame.duration, images as int, w, h, pw as int, px as int, py as int)
                == prefixed_cels(
                out@.subrange(start.len() as int, out@.len() as int),
                encode_cels(
                    all.subrange(j as int, all.len() as int),
                    frame.duration,
                    images as int,
                    w,
                    h,
                    pw as int,
                    px as int,
                    py as int,
                ),
            ),
            out@ == start + out@.subrange(start.len() as int, out@.len() as int),
        decreases all.len() - j,
    {
        let ghost rest = all.subrange(j as int, all.len() as int);
        let ghost written = out@.subrange(start.len() as int, out@.len() as int);
        assert(rest.drop_first() =~= all.subrange(j + 1, all.len() as int));
        write_u16(out, frame.duration);
        let idx = frame.cel_images[j];
        if idx < images {
            assert((px as u32) * (w as u32) <= 0xffffu32 * 0xffffu32) by (nonlinear_arith)
                requires
                    px <= 0xffff,
                    w <= 0xffff,
            ;
            assert((py as u32) * (h as u32) <= 0xffffu32 * 0xffffu32) by (nonlinear_arith)
                requires
                    py <= 0xffff,
                    h <= 0xffff,
            ;
            let x: u32 = px as u32 * w as u32;
            let y: u32 = py as u32 * h as u32;
            if x > 0xffff || y > 0xffff || pw < 1 {
                return None;
            }
            let (npx, npy): (u16, u16) = if (px as usize) < pw - 1 {
                if px == 0xffff {
                    return None;
                }
                (px + 1, py)
            } else {
                if py == 0xffff {
                    return None;
                }
                (0, py + 1)
            };
            write_u16(out, x as u16);
            write_u16(out, y as u16);
            write_u16(out, w);
            write_u16(out, h);
            proof {
                let rec = le::u16_bytes(frame.duration) + le::u16_bytes(x as u16) + le::u16_bytes(
                    y as u16,
                ) + le::u16_bytes(w) + le::u16_bytes(h);
                assert(out@ =~= start + (written + rec));
                assert(out@.subrange(start.len() as int, out@.len() as int) =~= written + rec);
                assert(rest[0] == idx);
                assert(rest.len() > 0);
                assert(advance(px as int, py as int, pw as int) == (npx as int, npy as int));
                assert(encode_cels(rest, frame.duration, images as int, w, h, pw as int, px as int, py as int) == Some((rec, npx as int, npy as int)));
                assert(encode_cels(all, frame.duration, images as int, w, h, pw as int, px as int, py as int) == Some((written + rec, npx as int, npy as int)));
            }
            return Some((npx, npy));
        }
        j = j + 1;
        proof {
            assert(out@ =~= start + (written + le::u16_bytes(frame.duration)));
            assert(out@.subrange(start.len() as int, out@.len() as int) =~= written
                + le::u16_bytes(frame.duration));
            if let Some((b, a, c)) = encode_cels(
                all.subrange(j as int, all.len() as int),
                frame.duration,
                images as int,
                w,
                h,
                pw as int,
                px as int,
                py as int,
            ) {
                assert(written + (le::u16_bytes(frame.duration) + b) =~= (written
                    + le::u16_bytes(frame.duration)) + b);
            }
        }
    }
    proof {
        assert(all.subrange(j as int, all.len() as int) =~= Seq::<usize>::empty());
        let written = out@.subrange(start.len() as int, out@.len() as int);
        assert(written + Seq::<u8>::empty() =~= written);
    }
    Some((px, py))
}

fn encode_all_frames(out: &mut Vec<u8>, src: &SpriteSource, pw: usize) -> (ok: bool)
    ensures
        ({
            let spec = encode_frames(
                src@.frames,
                src.image_count as int,
                src.width,
                src.height,
                pw as int,
                0,
                0,
            );
            &&& ok <==> spec is Some
            &&& ok ==> final(out)@ == old(out)@ + spec.unwrap()
        }),
{
    let ghost start = out@;
    let ghost all = src@.frames;
    let mut px: u16 = 0;
    let mut py: u16 = 0;
    let mut i: usize = 0;
    proof {
        assert(all.subrange(0, all.len() as int) =~= all);
        assert(out@.subrange(start.len() as int, out@.len() as int) =~= Seq::<u8>::empty());
        assert(out@ =~= start + Seq::<u8>::empty());
        if let Some(b) = encode_frames(all, src.image_count as int, src.width, src.height, pw as int, 0, 0) {
            assert(Seq::<u8>::empty() + b =~= b);
        }
    }
    while i < src.frames.len()
        invariant
            i <= all.len(),
            all == src@.frames,
            all.len() == src.frames@.len(),
            out@.len() >= start.len(),
            start == old(out)@,
            out@ == start + out@.subrange(start.len() as int, out@.len() as int),
            encode_frames(all, src.image_count as int, src.width, src.height, pw as int, 0, 0)
                == prefixed_bytes(
                out@.subrange(start.len() as int, out@.len() as int),
                encode_frames(
                    all.subrange(i as int, all.len() as int),
                    src.image_count as int,
                    src.width,
                    src.height,
                    pw as int,
                    px as int,
                    py as int,
                ),
            ),
        decreases all.len() - i,
    {
        let ghost rest = all.subrange(i as int, all.len() as int);
        let ghost written = out@.subrange(start.len() as int, out@.len() as int);
        assert(rest.drop_first() =~= all.subrange(i + 1, all.len() as int));
        assert(rest[0] == src.frames@[i as int]@);
        let ghost before = out@;
        match encode_frame_cels(
            out,
            &src.frames[i],
            src.image_count,
            src.width,
            src.height,
            pw,
            px,
            py,
        ) {
            None => {
                return false;
            },
            Some((a, b)) => {
                proof {
                    let fb = out@.subrange(before.len() as int, out@.len() as int);
                    assert(out@ =~= start + (written + fb));
                    assert(out@.subrange(start.len() as int, out@.len() as int) =~= written
                        + fb);
                    if let Some(r) = encode_frames(
                        all.subrange(i + 1, all.len() as int),
                        src.image_count as int,
                        src.width,
                        src.height,
                        pw as int,
                        a as int,
                        b as int,
                    ) {
                        assert(written + (fb + r) =~= (written + fb) + r);
                    }
                }
                px = a;
                py = b;
            },
        }
        i = i + 1;
    }
    proof {
        assert(all.subrange(i as int, all.len() as int) =~= Seq::<SourceFrameView>::empty());
        let written = out@.subrange(start.len() as int, out@.len() as int);
        assert(written + Seq::<u8>::empty() =~= written);
    }
    true
}

fn encode_one_slice(out: &mut Vec<u8>, slice: &SourceSlice) -> (ok: bool)
    ensures
        ok <==> encode_slice(slice@) is Some,
        ok ==> final(out)@ == old(out)@ + encode_slice(slice@).unwrap(),
{
    if slice.keys.len() == 0 {
        return false;
    }
    let key = slice.keys[0];
    let (pivot_x, pivot_y) = match key.pivot {
        Some(p) => p,
        None => return false,
    };
    let name = string_bytes(&slice.name);
    let ghost start = out@;
    write_u32(out, name.len() as u32);
    write_bytes(out, name);
    write_i32(out, key.x);
    write_i32(out, key.y);
    write_u32(out, key.width);
    write_u32(out, key.height);
    write_i32(out, pivot_x);
    write_i32(out, pivot_y);
    proof {
        assert(out@ =~= start + encode_slice(slice@).unwrap());
    }
    true
}

fn encode_all_slices(out: &mut Vec<u8>, src: &SpriteSource) -> (ok: bool)
    ensures
        ok <==> encode_slices(src@.slices) is Some,
        ok ==> final(out)@ == old(out)@ + encode_slices(src@.slices).unwrap(),
{
    let ghost start = out@;
    let ghost all = src@.slices;
    let mut i: usize = 0;
    proof {
        assert(all.subrange(0, all.len() as int) =~= all);
        assert(out@.subrange(start.len() as int, out@.len() as int) =~= Seq::<u8>::empty());
        assert(out@ =~= start + Seq::<u8>::empty());
        if let Some(b) = encode_slices(all) {
            assert(Seq::<u8>::empty() + b =~= b);
        }
    }
    while i < src.slices.len()
        invariant
            i <= all.len(),
            all == src@.slices,
            all.len() == src.slices@.len(),
            out@.len() >= start.len(),
            start == old(out)@,
            out@ == start + out@.subrange(start.len() as int, out@.len() as int),
            encode_slices(all) == prefixed_bytes(
                out@.subrange(start.len() as int, out@.len() as int),
                encode_slices(all.subrange(i as int, all.len() as int)),
            ),
        decreases all.len() - i,
    {
        let ghost rest = all.subrange(i as int, all.len() as int);
        let ghost written = out@.subrange(start.len() as int, out@.len() as int);
        assert(rest.drop_first() =~= all.subrange(i + 1, all.len() as int));
        assert(rest[0] == src.slices@[i as int]@);
        let ghost before = out@;
        if !encode_one_slice(out, &src.slices[i]) {
            return false;
        }
        proof {
            let sb = out@.subrange(before.len() as int, out@.len() as int);
            assert(out@ =~= start + (written + sb));
            assert(out@.subrange(start.len() as int, out@.len() as int) =~= written + sb);
            if let Some(r) = encode_slices(all.subrange(i + 1, all.len() as int)) {
                assert(written + (sb + r) =~= (written + sb) + r);
            }
        }
        i = i + 1;
    }
    proof {
        assert(all.subrange(i as int, all.len() as int) =~= Seq::<SourceSliceView>::empty());
        let written = out@.subrange(start.len() as int, out@.len() as int);
        assert(written + Seq::<u8>::empty() =~= written);
    }
    true
}

fn encode_all_tags(out: &mut Vec<u8>, tags: &Vec<Tag>)
    ensures
        final(out)@ == old(out)@ + encode_tags(tag_views(tags@)),
{
    let ghost start = out@;
    let ghost all = tag_views(tags@);
    let mut i: usize = 0;
    proof {
        assert(all.subrange(0, all.len() as int) =~= all);
        assert(out@.subrange(start.len() as int, out@.len() as int) =~= Seq::<u8>::empty());
        assert(out@ =~= start + Seq::<u8>::empty());
        assert(Seq::<u8>::empty() + encode_tags(all) =~= encode_tags(all));
    }
    while i < tags.len()
        invariant
            i <= all.len(),
            all == tag_views(tags@),
            all.len() == tags@.len(),
            out@.len() >= start.len(),
            start == old(out)@,
            out@ == start + out@.subrange(start.len() as int, out@.len() as int),
            encode_tags(all) == out@.subrange(start.len() as int, out@.len() as int)
                + encode_tags(all.subrange(i as int, all.len() as int)),
        decreases all.len() - i,
    {
        let ghost rest = all.subrange(i as int, all.len() as int);
        let ghost written = out@.subrange(start.len() as int, out@.len() as int);
        assert(rest.drop_first() =~= all.subrange(i + 1, all.len() as int));
        assert(rest[0] == tags@[i as int]@);
        let tag = &tags[i];
        let name = string_bytes(&tag.name);
        write_u32(out, name.len() as u32);
        write_bytes(out, name);
        write_u16(out, tag.from);
        write_u16(out, tag.to);
        proof {
            let tb = encode_tag(rest[0]);
            assert(out@ =~= start + (written + tb));
            assert(out@.subrange(start.len() as int, out@.len() as int) =~= written + tb);
            assert(written + (tb + encode_tags(all.subrange(i + 1, all.len() as int))) =~= (
            written + tb) + encode_tags(all.subrange(i + 1, all.len() as int)));
        }
        i = i + 1;
    }
    proof {
        assert(all.subrange(i as int, all.len() as int) =~= Seq::<TagView>::empty());
        let written = out@.subrange(start.len() as int, out@.len() as int);
        assert(written + Seq::<u8>::empty() =~= written);
    }
}

impl Slice {
    /// The pivot in sprite coordinates: the slice origin moved by the
    /// pivot, as unsigned (a negative coordinate wraps).  The sums must not
    /// overflow.
    pub fn pivot_point(&self) -> (r: (u32, u32))
        requires
            i32::MIN <= self.x + self.pivot_x <= i32::MAX,
            i32::MIN <= self.y + self.pivot_y <= i32::MAX,
        ensures
            r == ((self.x + self.pivot_x) as u32, (self.y + self.pivot_y) as u32),
    {
        ((self.x + self.pivot_x) as u32, (self.y + self.pivot_y) as u32)
    }
}

impl Sprite {
    /// Decodes a sprite sheet, or `None` exactly when `bytes` is not an
    /// encoding of one (see [`parse_sprite`]).
    pub fn try_decode(bytes: &[u8]) -> (r: Option<Sprite>)
        ensures
            match r {
                Some(s) => parse_sprite(bytes@) == Some(s@),
                None => parse_sprite(bytes@) is None,
            },
    {
        let frame_count = match read_u32(bytes, 0) {
            Some(n) => n,
            None => return None,
        };
        let (frames, p1) = match decode_frames(bytes, 4, frame_count) {
            Some(r) => r,
            None => return None,
        };
        let slice_count = match read_u32(bytes, p1) {
            Some(n) => n,
            None => return None,
        };
        let (slices, p2) = match decode_slices(bytes, p1 + 4, slice_count) {
            Some(r) => r,
            None => return None,
        };
        let tag_count = match read_u32(bytes, p2) {
            Some(n) => n,
            None => return None,
        };
        let (tags, _p3) = match decode_tags(bytes, p2 + 4, tag_count) {
            Some(r) => r,
            None => return None,
        };
        Some(Sprite { frames, slices, tags })
    }

    /// The frames of the animation `tag`: frames `tag.from` to `tag.to`,
    /// inclusive.  The range must lie within the frames (it may be empty,
    /// with `from` one past `to`).
    pub fn tag_frames(&self, tag: &Tag) -> (r: Vec<Frame>)
        requires
            tag.from <= tag.to + 1,
            tag.to < self.frames@.len(),
        ensures
            r@ == self.frames@.subrange(tag.from as int, tag.to + 1),
    {
        let mut r: Vec<Frame> = Vec::new();
        let mut i: usize = tag.from as usize;
        let end: usize = tag.to as usize + 1;
        while i < end
            invariant
                tag.from <= i <= end,
                end == tag.to + 1,
                end <= self.frames@.len(),
                r@ == self.frames@.subrange(tag.from as int, i as int),
            decreases end - i,
        {
            r.push(self.frames[i]);
            i = i + 1;
            assert(r@ =~= self.frames@.subrange(tag.from as int, i as int));
        }
        r
    }

    /// Decodes a sprite sheet from the bytes of a `.bin` file.  The bytes
    /// must encode one: the file reader fails on any other input.
    pub fn decode(bytes: &[u8]) -> (r: Sprite)
        requires
            parse_sprite(bytes@) is Some,
        ensures
            parse_sprite(bytes@) == Some(r@),
    {
        match Self::try_decode(bytes) {
            Some(s) => s,
            None => {
                proof {
                    assert(false);
                }
                Sprite { frames: Vec::new(), slices: Vec::new(), tags: Vec::new() }
            },
        }
    }

    /// Encodes what the game reads of an Aseprite file, laying the frames
    /// out in an atlas `packing_width` frames wide (see [`spec_encode`]), or
    /// `None` exactly on the inputs the encoding cannot handle.
    pub fn try_encode(aseprite: &SpriteSource, packing_width: usize, packing_height: usize) -> (r:
        Option<Vec<u8>>)
        ensures
            match r {
                Some(b) => spec_encode(aseprite@, packing_width as int) == Some(b@),
                None => spec_encode(aseprite@, packing_width as int) is None,
            },
    {
        let mut out: Vec<u8> = Vec::new();
        write_u32(&mut out, aseprite.frames.len() as u32);
        if !encode_all_frames(&mut out, aseprite, packing_width) {
            return None;
        }
        write_u32(&mut out, aseprite.slices.len() as u32);
        if !encode_all_slices(&mut out, aseprite) {
            return None;
        }
        write_u32(&mut out, aseprite.tags.len() as u32);
        encode_all_tags(&mut out, &aseprite.tags);
        proof {
            assert(aseprite@.frames.len() == aseprite.frames@.len());
            assert(aseprite@.slices.len() == aseprite.slices@.len());
            assert(aseprite@.tags.len() == aseprite.tags@.len());
            let fb = encode_frames(
                aseprite@.frames,
                aseprite.image_count as int,
                aseprite.width,
                aseprite.height,
                packing_width as int,
                0,
                0,
            ).unwrap();
            let sb = encode_slices(aseprite@.slices).unwrap();
            assert(out@ =~= le::u32_bytes(aseprite@.frames.len() as u32) + fb + le::u32_bytes(
                aseprite@.slices.len() as u32,
            ) + sb + le::u32_bytes(aseprite@.tags.len() as u32) + encode_tags(aseprite@.tags));
        }
        Some(out)
    }

    /// Encodes the sprite sheet of an Aseprite file (see [`spec_encode`]).
    /// `packing_height` is not read: the rows follow from the frame count.
    pub fn encode(aseprite: &SpriteSource, packing_width: usize, packing_height: usize) -> (r: Vec<
        u8,
    >)
        requires
            spec_encode(aseprite@, packing_width as int) is Some,
        ensures
            spec_encode(aseprite@, packing_width as int) == Some(r@),
    {
        match Self::try_encode(aseprite, packing_width, packing_height) {
            Some(b) => b,
            None => {
                proof {
                    assert(false);
                }
                Vec::new()
            },
        }
    }
}

// ---------------------------------------------------------------------------
// Reading back what was written.
// ---------------------------------------------------------------------------

/// The frame record for the `k`-th frame of `src` when every frame places
/// one image: column `k % pw`, row `k / pw` of the atlas.
pub open spec fn packed_frame(src: SpriteSourceView, pw: int, k: int) -> Frame {
    Frame {
        duration: src.frames[k].duration,
        x: (((k % pw) * src.width) as u16) as i16,
        y: (((k / pw) * src.height) as u16) as i16,
        width: src.width,
        height: src.height,
    }
}

/// The slice record written for `s`: its name and its first key.
pub open spec fn written_slice(s: SourceSliceView) -> SliceView {
    SliceView {
        name: s.name,
        x: s.keys[0].x,
        y: s.keys[0].y,
        width: s.keys[0].width,
        height: s.keys[0].height,
        pivot_x: s.keys[0].pivot.unwrap().0,
        pivot_y: s.keys[0].pivot.unwrap().1,
    }
}

/// The sprite sheet that encoding `src` with `pw` columns describes.
pub open spec fn packed_sprite(src: SpriteSourceView, pw: int) -> SpriteView {
    SpriteView {
        frames: Seq::new(src.frames.len(), |k: int| packed_frame(src, pw, k)),
        slices: src.slices.map_values(|s: SourceSliceView| written_slice(s)),
        tags: src.tags,
    }
}

/// Every frame's first cel has an image, so each frame writes one record.
pub open spec fn one_image_per_frame(src: SpriteSourceView) -> bool {
    forall|k: int|
        0 <= k < src.frames.len() ==> #[trigger] src.frames[k].cel_images.len() > 0
            && (src.frames[k].cel_images[0] as int) < src.image_count
}

/// Every count and name length fits the `u32` it is written as.
pub open spec fn lengths_fit(src: SpriteSourceView) -> bool {
    &&& src.frames.len() <= u32::MAX
    &&& src.slices.len() <= u32::MAX
    &&& src.tags.len() <= u32::MAX
    &&& forall|k: int|
        0 <= k < src.slices.len() ==> encode_utf8(#[trigger] src.slices[k].name).len()
            <= u32::MAX
    &&& forall|k: int|
        0 <= k < src.tags.len() ==> encode_utf8(#[trigger] src.tags[k].name).len() <= u32::MAX
}

proof fn lemma_advance(j: int, pw: int)
    requires
        j >= 0,
        pw >= 1,
    ensures
        advance(j % pw, j / pw, pw) == ((j + 1) % pw, (j + 1) / pw),
{
    vstd::arithmetic::div_mod::lemma_fundamental_div_mod(j, pw);
    let q = j / pw;
    let r = j % pw;
    assert(0 <= r < pw) by {
        vstd::arithmetic::div_mod::lemma_mod_pos_bound(j, pw);
    }
    assert(pw * q == q * pw) by (nonlinear_arith);
    if r < pw - 1 {
        vstd::arithmetic::div_mod::lemma_fundamental_div_mod_converse(j + 1, pw, q, r + 1);
    } else {
        assert((q + 1) * pw == q * pw + pw) by (nonlinear_arith);
        vstd::arithmetic::div_mod::lemma_fundamental_div_mod_converse(j + 1, pw, q + 1, 0);
    }
}

proof fn lemma_name_roundtrip(pre: Seq<u8>, name: Seq<char>, post: Seq<u8>)
    requires
        encode_utf8(name).len() <= u32::MAX,
    ensures
        parse_name(pre + name_record(name) + post, pre.len() as int) == Some(
            (name, pre.len() + name_record(name).len() as int),
        ),
        name_record(name).len() == 4 + encode_utf8(name).len(),
{
    let nb = encode_utf8(name);
    let b = pre + name_record(name) + post;
    le::lemma_u32_roundtrip(pre, nb.len() as u32, nb + post);
    assert(b =~= pre + le::u32_bytes(nb.len() as u32) + (nb + post));
    let s: int = pre.len() as int + 4;
    assert(b.subrange(s, s + nb.len() as int) =~= nb);
    vstd::utf8::encode_utf8_valid_utf8(name);
    vstd::utf8::encode_utf8_decode_utf8(name);
}

proof fn lemma_frame_record(pre: Seq<u8>, d: u16, xu: u16, yu: u16, w: u16, h: u16, post: Seq<u8>)
    ensures
        ({
            let rec = le::u16_bytes(d) + le::u16_bytes(xu) + le::u16_bytes(yu) + le::u16_bytes(w)
                + le::u16_bytes(h);
            &&& rec.len() == 10
            &&& parse_frame(pre + rec + post, pre.len() as int) == Some(
                (
                    Frame { duration: d, x: xu as i16, y: yu as i16, width: w, height: h },
                    pre.len() + 10int,
                ),
            )
        }),
{
    let d2 = le::u16_bytes(d);
    let x2 = le::u16_bytes(xu);
    let y2 = le::u16_bytes(yu);
    let w2 = le::u16_bytes(w);
    let h2 = le::u16_bytes(h);
    let b = pre + (d2 + x2 + y2 + w2 + h2) + post;
    le::lemma_u16_roundtrip(pre, d, x2 + y2 + w2 + h2 + post);
    le::lemma_u16_roundtrip(pre + d2, xu, y2 + w2 + h2 + post);
    le::lemma_u16_roundtrip(pre + d2 + x2, yu, w2 + h2 + post);
    le::lemma_u16_roundtrip(pre + d2 + x2 + y2, w, h2 + post);
    le::lemma_u16_roundtrip(pre + d2 + x2 + y2 + w2, h, post);
    assert(b =~= pre + d2 + (x2 + y2 + w2 + h2 + post));
    assert(b =~= (pre + d2) + x2 + (y2 + w2 + h2 + post));
    assert(b =~= (pre + d2 + x2) + y2 + (w2 + h2 + post));
    assert(b =~= (pre + d2 + x2 + y2) + w2 + (h2 + post));
    assert(b =~= (pre + d2 + x2 + y2 + w2) + h2 + post);
}

proof fn lemma_frames_roundtrip(src: SpriteSourceView, pw: int, j: int, pre: Seq<u8>, post: Seq<u8>)
    requires
        0 <= j <= src.frames.len(),
        one_image_per_frame(src),
        j < src.frames.len() ==> pw >= 1,
        encode_frames(
            src.frames.subrange(j, src.frames.len() as int),
            src.image_count as int,
            src.width,
            src.height,
            pw,
            if pw >= 1 { j % pw } else { 0 },
            if pw >= 1 { j / pw } else { 0 },
        ) is Some,
    ensures
        ({
            let e = encode_frames(
                src.frames.subrange(j, src.frames.len() as int),
                src.image_count as int,
                src.width,
                src.height,
                pw,
                if pw >= 1 { j % pw } else { 0 },
                if pw >= 1 { j / pw } else { 0 },
            ).unwrap();
            parse_frames(pre + e + post, pre.len() as int, (src.frames.len() - j) as nat) == Some(
                (
                    Seq::new((src.frames.len() - j) as nat, |k: int| packed_frame(src, pw, j + k)),
                    pre.len() + e.len() as int,
                ),
            )
        }),
    decreases src.frames.len() - j,
{
    let n = src.frames.len() as int;
    let sub = src.frames.subrange(j, n);
    let px = if pw >= 1 { j % pw } else { 0 };
    let py = if pw >= 1 { j / pw } else { 0 };
    let e = encode_frames(sub, src.image_count as int, src.width, src.height, pw, px, py).unwrap();
    if j == n {
        assert(e =~= Seq::<u8>::empty());
        assert(Seq::new(0, |k: int| packed_frame(src, pw, j + k)) =~= Seq::<Frame>::empty());
    } else {
        let f = src.frames[j];
        assert(sub[0] == f);
        assert(f.cel_images.len() > 0 && (f.cel_images[0] as int) < src.image_count);
        let w = src.width;
        let h = src.height;
        let x = px * w;
        let y = py * h;
        let xu = x as u16;
        let yu = y as u16;
        let rec = le::u16_bytes(f.duration) + le::u16_bytes(xu) + le::u16_bytes(yu)
            + le::u16_bytes(w) + le::u16_bytes(h);
        let next = advance(px, py, pw);
        assert(encode_cels(f.cel_images, f.duration, src.image_count as int, w, h, pw, px, py)
            == Some((rec, next.0, next.1)));
        lemma_advance(j, pw);
        assert(sub.drop_first() =~= src.frames.subrange(j + 1, n));
        let e2 = encode_frames(
            src.frames.subrange(j + 1, n),
            src.image_count as int,
            w,
            h,
            pw,
            (j + 1) % pw,
            (j + 1) / pw,
        ).unwrap();
        assert(e == rec + e2);
        lemma_frames_roundtrip(src, pw, j + 1, pre + rec, post);
        let b = pre + e + post;
        assert(b =~= pre + rec + (e2 + post));
        lemma_frame_record(pre, f.duration, xu, yu, w, h, e2 + post);
        assert(parse_frame(b, pre.len() as int) == Some((packed_frame(src, pw, j), pre.len() + 10int)));
        assert(b =~= (pre + rec) + e2 + post);
        let rest = Seq::new((n - j - 1) as nat, |k: int| packed_frame(src, pw, j + 1 + k));
        assert(seq![packed_frame(src, pw, j)] + rest =~= Seq::new(
            (n - j) as nat,
            |k: int| packed_frame(src, pw, j + k),
        ));
    }
}

#[verifier::spinoff_prover]
#[verifier::rlimit(50)]
proof fn lemma_slice_record(pre: Seq<u8>, s0: SourceSliceView, post: Seq<u8>)
    requires
        encode_slice(s0) is Some,
        encode_utf8(s0.name).len() <= u32::MAX,
    ensures
        parse_slice(pre + encode_slice(s0).unwrap() + post, pre.len() as int) == Some(
            (written_slice(s0), pre.len() + encode_slice(s0).unwrap().len() as int),
        ),
{
    let k = s0.keys[0];
    let (pvx, pvy) = k.pivot.unwrap();
    let nr = name_record(s0.name);
    let a = le::i32_bytes(k.x);
    let c = le::i32_bytes(k.y);
    let d = le::u32_bytes(k.width);
    let e = le::u32_bytes(k.height);
    let f = le::i32_bytes(pvx);
    let g = le::i32_bytes(pvy);
    let rec = encode_slice(s0).unwrap();
    assert(rec == nr + a + c + d + e + f + g);
    let b = pre + rec + post;
    lemma_name_roundtrip(pre, s0.name, a + c + d + e + f + g + post);
    le::lemma_i32_roundtrip(pre + nr, k.x, c + d + e + f + g + post);
    le::lemma_i32_roundtrip(pre + nr + a, k.y, d + e + f + g + post);
    le::lemma_u32_roundtrip(pre + nr + a + c, k.width, e + f + g + post);
    le::lemma_u32_roundtrip(pre + nr + a + c + d, k.height, f + g + post);
    le::lemma_i32_roundtrip(pre + nr + a + c + d + e, pvx, g + post);
    le::lemma_i32_roundtrip(pre + nr + a + c + d + e + f, pvy, post);
    assert(b =~= pre + nr + (a + c + d + e + f + g + post));
    assert(b =~= (pre + nr) + a + (c + d + e + f + g + post));
    assert(b =~= (pre + nr + a) + c + (d + e + f + g + post));
    assert(b =~= (pre + nr + a + c) + d + (e + f + g + post));
    assert(b =~= (pre + nr + a + c + d) + e + (f + g + post));
    assert(b =~= (pre + nr + a + c + d + e) + f + (g + post));
    assert(b =~= (pre + nr + a + c + d + e + f) + g + post);
}

proof fn lemma_slices_roundtrip(slices: Seq<SourceSliceView>, pre: Seq<u8>, post: Seq<u8>)
    requires
        encode_slices(slices) is Some,
        forall|k: int| 0 <= k < slices.len() ==> encode_utf8(#[trigger] slices[k].name).len() <= u32::MAX,
    ensures
        parse_slices(pre + encode_slices(slices).unwrap() + post, pre.len() as int, slices.len()) == Some(
            (
                slices.map_values(|s: SourceSliceView| written_slice(s)),
                pre.len() + encode_slices(slices).unwrap().len() as int,
            ),
        ),
    decreases slices.len(),
{
    let e = encode_slices(slices).unwrap();
    if slices.len() == 0 {
        assert(e =~= Seq::<u8>::empty());
        assert(slices.map_values(|s: SourceSliceView| written_slice(s)) =~= Seq::<SliceView>::empty());
    } else {
        let s0 = slices[0];
        let rec = encode_slice(s0).unwrap();
        let e2 = encode_slices(slices.drop_first()).unwrap();
        assert(e == rec + e2);
        assert forall|k: int| 0 <= k < slices.drop_first().len() implies encode_utf8(#[trigger] slices.drop_first()[k].name).len() <= u32::MAX by {
            assert(slices.drop_first()[k] == slices[k + 1]);
        }
        lemma_slices_roundtrip(slices.drop_first(), pre + rec, post);
        let b = pre + e + post;
        assert(encode_utf8(slices[0].name).len() <= u32::MAX);
        lemma_slice_record(pre, s0, e2 + post);
        assert(b =~= pre + rec + (e2 + post));
        assert(b =~= (pre + rec) + e2 + post);
        assert(seq![written_slice(s0)] + slices.drop_first().map_values(|s: SourceSliceView| written_slice(s))
            =~= slices.map_values(|s: SourceSliceView| written_slice(s)));
    }
}

proof fn lemma_tag_record(pre: Seq<u8>, t0: TagView, post: Seq<u8>)
    requires
        encode_utf8(t0.name).len() <= u32::MAX,
    ensures
        parse_tag(pre + encode_tag(t0) + post, pre.len() as int) == Some(
            (t0, pre.len() + encode_tag(t0).len() as int),
        ),
{
    let nr = name_record(t0.name);
    let a = le::u16_bytes(t0.from);
    let c = le::u16_bytes(t0.to);
    let b = pre + encode_tag(t0) + post;
    lemma_name_roundtrip(pre, t0.name, a + c + post);
    le::lemma_u16_roundtrip(pre + nr, t0.from, c + post);
    le::lemma_u16_roundtrip(pre + nr + a, t0.to, post);
    assert(b =~= pre + nr + (a + c + post));
    assert(b =~= (pre + nr) + a + (c + post));
    assert(b =~= (pre + nr + a) + c + post);
}

proof fn lemma_tags_roundtrip(tags: Seq<TagView>, pre: Seq<u8>, post: Seq<u8>)
    requires
        forall|k: int| 0 <= k < tags.len() ==> encode_utf8(#[trigger] tags[k].name).len() <= u32::MAX,
    ensures
        parse_tags(pre + encode_tags(tags) + post, pre.len() as int, tags.len()) == Some(
            (tags, pre.len() + encode_tags(tags).len() as int),
        ),
    decreases tags.len(),
{
    let e = encode_tags(tags);
    if tags.len() == 0 {
        assert(e =~= Seq::<u8>::empty());
        assert(tags =~= Seq::<TagView>::empty());
    } else {
        let t0 = tags[0];
        let rec = encode_tag(t0);
        let e2 = encode_tags(tags.drop_first());
        assert forall|k: int| 0 <= k < tags.drop_first().len() implies encode_utf8(#[trigger] tags.drop_first()[k].name).len() <= u32::MAX by {
            assert(tags.drop_first()[k] == tags[k + 1]);
        }
        lemma_tags_roundtrip(tags.drop_first(), pre + rec, post);
        let b = pre + e + post;
        assert(encode_utf8(tags[0].name).len() <= u32::MAX);
        lemma_tag_record(pre, t0, e2 + post);
        assert(b =~= pre + rec + (e2 + post));
        assert(b =~= (pre + rec) + e2 + post);
        assert(seq![t0] + tags.drop_first() =~= tags);
    }
}

/// What `Sprite::encode` writes, `Sprite::decode` reads back: the frames
/// laid out row by row, `pw` per row, each slice with its first key and
/// pivot, and the tags unchanged.  This holds wherever encoding succeeds,
/// every frame's first cel has an image (so each frame writes exactly one
/// record) and every count and name length fits its `u32` field.
pub proof fn lemma_encode_decode_roundtrip(src: SpriteSourceView, pw: int)
    requires
        spec_encode(src, pw) is Some,
        one_image_per_frame(src),
        lengths_fit(src),
    ensures
        parse_sprite(spec_encode(src, pw).unwrap()) == Some(packed_sprite(src, pw)),
{
    let fb = encode_frames(src.frames, src.image_count as int, src.width, src.height, pw, 0, 0).unwrap();
    let sb = encode_slices(src.slices).unwrap();
    let tb = encode_tags(src.tags);
    let nf = src.frames.len() as u32;
    let ns = src.slices.len() as u32;
    let nt = src.tags.len() as u32;
    let b = spec_encode(src, pw).unwrap();
    assert(b == le::u32_bytes(nf) + fb + le::u32_bytes(ns) + sb + le::u32_bytes(nt) + tb);
    if src.frames.len() > 0 {
        let f0 = src.frames[0];
        assert(f0.cel_images.len() > 0 && (f0.cel_images[0] as int) < src.image_count);
        assert(src.frames.drop_first().len() + 1 == src.frames.len());
        assert(pw >= 1);
        assert(0int % pw == 0 && 0int / pw == 0);
    }
    assert(src.frames.subrange(0, src.frames.len() as int) =~= src.frames);
    // counts
    le::lemma_u32_roundtrip(Seq::empty(), nf, fb + le::u32_bytes(ns) + sb + le::u32_bytes(nt) + tb);
    assert(b =~= Seq::<u8>::empty() + le::u32_bytes(nf) + (fb + le::u32_bytes(ns) + sb + le::u32_bytes(nt) + tb));
    lemma_frames_roundtrip(src, pw, 0, le::u32_bytes(nf), le::u32_bytes(ns) + sb + le::u32_bytes(nt) + tb);
    assert(b =~= le::u32_bytes(nf) + fb + (le::u32_bytes(ns) + sb + le::u32_bytes(nt) + tb));
    let p1 = 4 + fb.len();
    le::lemma_u32_roundtrip(le::u32_bytes(nf) + fb, ns, sb + le::u32_bytes(nt) + tb);
    assert(b =~= (le::u32_bytes(nf) + fb) + le::u32_bytes(ns) + (sb + le::u32_bytes(nt) + tb));
    lemma_slices_roundtrip(src.slices, le::u32_bytes(nf) + fb + le::u32_bytes(ns), le::u32_bytes(nt) + tb);
    assert(b =~= (le::u32_bytes(nf) + fb + le::u32_bytes(ns)) + sb + (le::u32_bytes(nt) + tb));
    le::lemma_u32_roundtrip(le::u32_bytes(nf) + fb + le::u32_bytes(ns) + sb, nt, tb);
    assert(b =~= (le::u32_bytes(nf) + fb + le::u32_bytes(ns) + sb) + le::u32_bytes(nt) + tb);
    lemma_tags_roundtrip(src.tags, le::u32_bytes(nf) + fb + le::u32_bytes(ns) + sb + le::u32_bytes(nt), Seq::empty());
    assert(b =~= (le::u32_bytes(nf) + fb + le::u32_bytes(ns) + sb + le::u32_bytes(nt)) + tb + Seq::<u8>::empty());
    assert(Seq::new(src.frames.len(), |k: int| packed_frame(src, pw, 0 + k)) =~= Seq::new(src.frames.len(), |k: int| packed_frame(src, pw, k)));
}


/// Whether the `k`-th frame's atlas cell, at column `k % pw` and row
/// `k / pw`, has its pixel coordinates in `u16`, and so does the cursor
/// after it.
pub open spec fn atlas_cell_fits(width: u16, height: u16, pw: int, k: int) -> bool {
    &&& (k % pw) * width <= u16::MAX
    &&& (k / pw) * height <= u16::MAX
    &&& (k + 1) % pw <= u16::MAX
    &&& (k + 1) / pw <= u16::MAX
}

proof fn lemma_frames_encodable(src: SpriteSourceView, pw: int, j: int)
    requires
        0 <= j <= src.frames.len(),
        pw >= 1,
        one_image_per_frame(src),
        forall|k: int| 0 <= k < src.frames.len() ==> #[trigger] atlas_cell_fits(src.width, src.height, pw, k),
    ensures
        encode_frames(
            src.frames.subrange(j, src.frames.len() as int),
            src.image_count as int,
            src.width,
            src.height,
            pw,
            j % pw,
            j / pw,
        ) is Some,
    decreases src.frames.len() - j,
{
    let n = src.frames.len() as int;
    let sub = src.frames.subrange(j, n);
    if j < n {
        let f = src.frames[j];
        assert(sub[0] == f);
        assert(f.cel_images.len() > 0 && (f.cel_images[0] as int) < src.image_count);
        assert(atlas_cell_fits(src.width, src.height, pw, j));
        lemma_advance(j, pw);
        assert(encode_cels(f.cel_images, f.duration, src.image_count as int, src.width, src.height, pw, j % pw, j / pw) is Some);
        assert(sub.drop_first() =~= src.frames.subrange(j + 1, n));
        lemma_frames_encodable(src, pw, j + 1);
    }
}

proof fn lemma_slices_encodable(slices: Seq<SourceSliceView>)
    requires
        forall|k: int| 0 <= k < slices.len() ==> (#[trigger] slices[k]).keys.len() > 0 && slices[k].keys[0].pivot is Some,
    ensures
        encode_slices(slices) is Some,
    decreases slices.len(),
{
    if slices.len() > 0 {
        assert(slices[0].keys.len() > 0 && slices[0].keys[0].pivot is Some);
        assert forall|k: int| 0 <= k < slices.drop_first().len() implies (#[trigger] slices.drop_first()[k]).keys.len() > 0
            && slices.drop_first()[k].keys[0].pivot is Some by {
            assert(slices.drop_first()[k] == slices[k + 1]);
        }
        lemma_slices_encodable(slices.drop_first());
    }
}

/// Encoding succeeds for every packing width of at least one column (a
/// single column included) whenever each frame places one image, every
/// frame's atlas cell and the cursor after it have `u16` coordinates, and
/// every slice has a first key with a pivot.
pub proof fn lemma_encode_succeeds(src: SpriteSourceView, pw: int)
    requires
        pw >= 1,
        one_image_per_frame(src),
        forall|k: int| 0 <= k < src.frames.len() ==> #[trigger] atlas_cell_fits(src.width, src.height, pw, k),
        forall|k: int| 0 <= k < src.slices.len() ==> (#[trigger] src.slices[k]).keys.len() > 0 && src.slices[k].keys[0].pivot is Some,
    ensures
        spec_encode(src, pw) is Some,
{
    lemma_frames_encodable(src, pw, 0);
    assert(src.frames.subrange(0, src.frames.len() as int) =~= src.frames);
    assert(0int % pw == 0 && 0int / pw == 0);
    lemma_slices_encodable(src.slices);
}

} // verus!
