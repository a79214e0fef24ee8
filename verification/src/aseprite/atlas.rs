use vstd::prelude::*;
use crate::aseprite::ase::chunks::PaletteEntry;

verus! {

/// Width of a candidate rectangle of height `h` that holds `n` cells: `ceil(n / h)`.
pub open spec fn columns_for(n: int, h: int) -> int
    recommends
        h >= 1,
{
    (n + h - 1) / h
}

/// The best `(width, height, area)` after trying every height `h` in `1..k`,
/// starting from the degenerate `(n, 1)` rectangle.  A height replaces the
/// current best when its area is smaller, or equal with a smaller width.
pub open spec fn pack_upto(n: int, k: int) -> (int, int, int)
    decreases k,
{
    if k <= 1 {
        (n, 1, n)
    } else {
        let prev = pack_upto(n, k - 1);
        let h = k - 1;
        let w = columns_for(n, h);
        let area = w * h;
        if area < prev.2 || (area == prev.2 && w < prev.0) {
            (w, h, area)
        } else {
            prev
        }
    }
}

/// The rectangle `optimal_rectangle_pack(n)` chooses.
pub open spec fn spec_optimal_rectangle_pack(n: int) -> (int, int) {
    let r = pack_upto(n, n);
    (r.0, r.1)
}

proof fn lemma_columns_cover(n: int, h: int)
    requires
        n >= 0,
        h >= 1,
    ensures
        columns_for(n, h) * h >= n,
        columns_for(n, h) * h < n + h,
        columns_for(n, h) >= 0,
{
    let w = (n + h - 1) / h;
    let r = (n + h - 1) % h;
    vstd::arithmetic::div_mod::lemma_fundamental_div_mod(n + h - 1, h);
    assert(n + h - 1 == h * w + r);
    assert(0 <= r < h);
    assert(w * h == h * w) by (nonlinear_arith);
    vstd::arithmetic::div_mod::lemma_div_pos_is_pos(n + h - 1, h);
}

proof fn lemma_pack_upto(n: int, k: int)
    requires
        n >= 0,
        1 <= k <= n || k == 1,
    ensures
        pack_upto(n, k).2 == pack_upto(n, k).0 * pack_upto(n, k).1,
        pack_upto(n, k).1 >= 1,
        pack_upto(n, k).0 >= 0,
        pack_upto(n, k).2 >= n,
        pack_upto(n, k).2 <= n,
        forall|h: int| 1 <= h < k ==> pack_upto(n, k).2 <= #[trigger] columns_for(n, h) * h,
        forall|h: int|
            1 <= h < k && #[trigger] columns_for(n, h) * h == n ==> pack_upto(n, k).0
                <= columns_for(n, h),
    decreases k,
{
    if k > 1 {
        lemma_pack_upto(n, k - 1);
        lemma_columns_cover(n, k - 1);
    }
}

/// The pixel `(column, row)` of a `dw`-wide RGBA image that byte `i` belongs
/// to, and the channel `i` holds.
pub open spec fn pixel_of(i: int, dw: int) -> (int, int, int) {
    ((i / 4) % dw, (i / 4) / dw, i % 4)
}

/// Whether `blit` writes byte `i` of the destination: its pixel lies in the
/// destination image and in the source rectangle placed at `(ox, oy)`.
pub open spec fn blit_covers(i: int, sw: int, sh: int, dw: int, dh: int, ox: int, oy: int) -> bool {
    let (dx, dy, c) = pixel_of(i, dw);
    &&& dw > 0
    &&& 0 <= i
    &&& dy < dh
    &&& ox <= dx < ox + sw
    &&& oy <= dy < oy + sh
}

/// The source byte that `blit` copies into destination byte `i`.
pub open spec fn blit_source(i: int, sw: int, dw: int, ox: int, oy: int) -> int {
    let (dx, dy, c) = pixel_of(i, dw);
    ((dy - oy) * sw + (dx - ox)) * 4 + c
}

/// The destination after copying the `sw` x `sh` RGBA image `src` into the
/// `dw` x `dh` image `dst` with its top-left corner at `(ox, oy)`; pixels
/// that fall outside the destination are dropped.
pub open spec fn blitted(
    src: Seq<u8>,
    sw: int,
    sh: int,
    dst: Seq<u8>,
    dw: int,
    dh: int,
    ox: int,
    oy: int,
) -> Seq<u8> {
    Seq::new(
        dst.len(),
        |i: int|
            if blit_covers(i, sw, sh, dw, dh, ox, oy) {
                src[blit_source(i, sw, dw, ox, oy)]
            } else {
                dst[i]
            },
    )
}

/// Whether byte `i` is written before source byte `(y, x, c)` is copied.
pub open spec fn blit_done(
    i: int,
    sw: int,
    sh: int,
    dw: int,
    dh: int,
    ox: int,
    oy: int,
    y: int,
    x: int,
    c: int,
) -> bool {
    let (dx, dy, ch) = pixel_of(i, dw);
    &&& blit_covers(i, sw, sh, dw, dh, ox, oy)
    &&& (dy - oy < y || (dy - oy == y && (dx - ox < x || (dx - ox == x && ch < c))))
}

pub open spec fn blit_partial(
    src: Seq<u8>,
    sw: int,
    sh: int,
    dst: Seq<u8>,
    dw: int,
    dh: int,
    ox: int,
    oy: int,
    y: int,
    x: int,
    c: int,
) -> Seq<u8> {
    Seq::new(
        dst.len(),
        |i: int|
            if blit_done(i, sw, sh, dw, dh, ox, oy, y, x, c) {
                src[blit_source(i, sw, dw, ox, oy)]
            } else {
                dst[i]
            },
    )
}

proof fn lemma_pixel_compose(dx: int, dy: int, c: int, dw: int)
    requires
        0 <= dx < dw,
        0 <= dy,
        0 <= c < 4,
    ensures
        pixel_of((dy * dw + dx) * 4 + c, dw) == (dx, dy, c),
{
    let p = dy * dw + dx;
    vstd::arithmetic::div_mod::lemma_fundamental_div_mod_converse(p * 4 + c, 4, p, c);
    vstd::arithmetic::div_mod::lemma_fundamental_div_mod_converse(p, dw, dy, dx);
}

proof fn lemma_pixel_decompose(i: int, dw: int)
    requires
        0 <= i,
        dw > 0,
    ensures
        ({
            let (dx, dy, c) = pixel_of(i, dw);
            &&& i == (dy * dw + dx) * 4 + c
            &&& 0 <= dx < dw
            &&& 0 <= dy
            &&& 0 <= c < 4
        }),
{
    let p = i / 4;
    vstd::arithmetic::div_mod::lemma_fundamental_div_mod(i, 4);
    vstd::arithmetic::div_mod::lemma_fundamental_div_mod(p, dw);
    vstd::arithmetic::div_mod::lemma_mod_pos_bound(i, 4);
    vstd::arithmetic::div_mod::lemma_mod_pos_bound(p, dw);
    vstd::arithmetic::div_mod::lemma_div_pos_is_pos(i, 4);
    vstd::arithmetic::div_mod::lemma_div_pos_is_pos(p, dw);
    assert(p == (p / dw) * dw + p % dw) by (nonlinear_arith)
        requires
            p == dw * (p / dw) + p % dw,
    ;
}

/// Index of pixel `(x, y)` in a row-major image `w` pixels wide.
pub open spec fn pixel_index(x: int, y: int, w: int) -> int {
    y * w + x
}

/// Every source pixel that lands inside the destination can be read from
/// `src` and written to `dst` (their byte ranges lie within the buffers).
pub open spec fn blit_fits(
    src_len: int,
    dst_len: int,
    sw: int,
    sh: int,
    dw: int,
    dh: int,
    ox: int,
    oy: int,
) -> bool {
    forall|x: int, y: int|
        #![trigger pixel_index(x, y, sw)]
        0 <= x < sw && 0 <= y < sh && ox + x < dw && oy + y < dh ==> {
            &&& pixel_index(x, y, sw) * 4 + 4 <= src_len
            &&& pixel_index(ox + x, oy + y, dw) * 4 + 4 <= dst_len
        }
}

/// Copies the `src_width` x `src_height` RGBA image `src` into the
/// `dst_width` x `dst_height` RGBA image `dst`, with its top-left pixel at
/// `(offset_x, offset_y)`.  Source pixels that fall outside the destination
/// are skipped; every other destination byte is left as it was.
pub fn blit(
    src: &[u8],
    src_width: usize,
    src_height: usize,
    dst: &mut [u8],
    dst_width: usize,
    dst_height: usize,
    offset_x: usize,
    offset_y: usize,
)
    requires
        src_width > 0 && src_height > 0 ==> {
            &&& offset_x + src_width - 1 <= usize::MAX
            &&& offset_y + src_height - 1 <= usize::MAX
            &&& (src_height * src_width - 1) * 4 <= usize::MAX
        },
        blit_fits(
            src@.len() as int,
            old(dst)@.len() as int,
            src_width as int,
            src_height as int,
            dst_width as int,
            dst_height as int,
            offset_x as int,
            offset_y as int,
        ),
    ensures
        final(dst)@ == blitted(
            src@,
            src_width as int,
            src_height as int,
            old(dst)@,
            dst_width as int,
            dst_height as int,
            offset_x as int,
            offset_y as int,
        ),
{
    let pixel_size: usize = 4;
    let dst_len = dst.len();
    let ghost sw = src_width as int;
    let ghost sh = src_height as int;
    let ghost dw = dst_width as int;
    let ghost dh = dst_height as int;
    let ghost ox = offset_x as int;
    let ghost oy = offset_y as int;
    let ghost d0 = dst@;
    proof {
        assert(dst@ =~= blit_partial(src@, sw, sh, d0, dw, dh, ox, oy, 0, 0, 0)) by {
            assert forall|i: int| 0 <= i < d0.len() implies !blit_done(
                i,
                sw,
                sh,
                dw,
                dh,
                ox,
                oy,
                0,
                0,
                0,
            ) by {
                if blit_covers(i, sw, sh, dw, dh, ox, oy) {
                    lemma_pixel_decompose(i, dw);
                }
            }
        }
    }
    let mut y: usize = 0;
    while y < src_height
        invariant
            y <= src_height,
            d0 == old(dst)@,
            dst@.len() == d0.len(),
            d0.len() == dst_len,
            sw == src_width && sh == src_height && dw == dst_width && dh == dst_height,
            ox == offset_x && oy == offset_y,
            src_width > 0 && src_height > 0 ==> {
                &&& offset_x + src_width - 1 <= usize::MAX
                &&& offset_y + src_height - 1 <= usize::MAX
                &&& (src_height * src_width - 1) * 4 <= usize::MAX
            },
            pixel_size == 4,
            blit_fits(src@.len() as int, d0.len() as int, sw, sh, dw, dh, ox, oy),
            dst@ == blit_partial(src@, sw, sh, d0, dw, dh, ox, oy, y as int, 0, 0),
        decreases src_height - y,
    {
        let mut x: usize = 0;
        while x < src_width
            invariant
                y < src_height,
                x <= src_width,
                d0 == old(dst)@,
                dst@.len() == d0.len(),
                d0.len() == dst_len,
                sw == src_width && sh == src_height && dw == dst_width && dh == dst_height,
                ox == offset_x && oy == offset_y,
                src_width > 0 && src_height > 0 ==> {
                    &&& offset_x + src_width - 1 <= usize::MAX
                    &&& offset_y + src_height - 1 <= usize::MAX
                    &&& (src_height * src_width - 1) * 4 <= usize::MAX
                },
                pixel_size == 4,
                blit_fits(src@.len() as int, d0.len() as int, sw, sh, dw, dh, ox, oy),
                dst@ == blit_partial(src@, sw, sh, d0, dw, dh, ox, oy, y as int, x as int, 0),
            decreases src_width - x,
        {
            assert(y * src_width + x <= src_height * src_width - 1) by (nonlinear_arith)
                requires
                    y < src_height,
                    x < src_width,
            ;
            let src_index = (y * src_width + x) * pixel_size;
            let dst_x = offset_x + x;
            let dst_y = offset_y + y;
            if dst_x < dst_width && dst_y < dst_height {
                assert(pixel_index(x as int, y as int, sw) * 4 + 4 <= src@.len());
                assert(pixel_index(ox + x, oy + y, dw) * 4 + 4 <= d0.len());
                assert(ox + x == dst_x && oy + y == dst_y);
                assert(pixel_index(dst_x as int, dst_y as int, dw) * 4 + 4 <= d0.len());
                let dst_index = (dst_y * dst_width + dst_x) * pixel_size;
                let mut c: usize = 0;
                while c < pixel_size
                    invariant
                        pixel_size == 4,
                        c <= 4,
                        y < src_height,
                        x < src_width,
                        dst_x == offset_x + x && dst_y == offset_y + y,
                        dst_x < dst_width && dst_y < dst_height,
                        src_index == (y * src_width + x) * 4,
                        dst_index == (dst_y * dst_width + dst_x) * 4,
                        src_index + 4 <= src@.len(),
                        dst_index + 4 <= d0.len(),
                        dst@.len() == d0.len(),
                        sw == src_width && sh == src_height && dw == dst_width && dh
                            == dst_height,
                        ox == offset_x && oy == offset_y,
                        dst@ == blit_partial(
                            src@,
                            sw,
                            sh,
                            d0,
                            dw,
                            dh,
                            ox,
                            oy,
                            y as int,
                            x as int,
                            c as int,
                        ),
                    decreases 4 - c,
                {
                    let ghost before = dst@;
                    dst[dst_index + c] = src[src_index + c];
                    proof {
                        let j = dst_index + c;
                        lemma_pixel_compose(dst_x as int, dst_y as int, c as int, dw);
                        assert(dst@ =~= blit_partial(
                            src@,
                            sw,
                            sh,
                            d0,
                            dw,
                            dh,
                            ox,
                            oy,
                            y as int,
                            x as int,
                            c + 1,
                        )) by {
                            assert forall|i: int| 0 <= i < d0.len() implies #[trigger] dst@[i]
                                == blit_partial(
                                src@,
                                sw,
                                sh,
                                d0,
                                dw,
                                dh,
                                ox,
                                oy,
                                y as int,
                                x as int,
                                c + 1,
                            )[i] by {
                                if i != j {
                                    if blit_covers(i, sw, sh, dw, dh, ox, oy) {
                                        lemma_pixel_decompose(i, dw);
                                    }
                                }
                            }
                        }
                    }
                    c = c + 1;
                }
                proof {
                    assert(dst@ =~= blit_partial(
                        src@,
                        sw,
                        sh,
                        d0,
                        dw,
                        dh,
                        ox,
                        oy,
                        y as int,
                        x + 1,
                        0,
                    )) by {
                        assert forall|i: int| 0 <= i < d0.len() implies #[trigger] dst@[i]
                            == blit_partial(
                            src@,
                            sw,
                            sh,
                            d0,
                            dw,
                            dh,
                            ox,
                            oy,
                            y as int,
                            x + 1,
                            0,
                        )[i] by {
                            if blit_covers(i, sw, sh, dw, dh, ox, oy) {
                                lemma_pixel_decompose(i, dw);
                            }
                        }
                    }
                }
            } else {
                proof {
                    assert(dst@ =~= blit_partial(
                        src@,
                        sw,
                        sh,
                        d0,
                        dw,
                        dh,
                        ox,
                        oy,
                        y as int,
                        x + 1,
                        0,
                    )) by {
                        assert forall|i: int| 0 <= i < d0.len() implies #[trigger] dst@[i]
                            == blit_partial(
                            src@,
                            sw,
                            sh,
                            d0,
                            dw,
                            dh,
                            ox,
                            oy,
                            y as int,
                            x + 1,
                            0,
                        )[i] by {
                            if blit_covers(i, sw, sh, dw, dh, ox, oy) {
                                lemma_pixel_decompose(i, dw);
                            }
                        }
                    }
                }
            }
            x = x + 1;
        }
        proof {
            assert(dst@ =~= blit_partial(src@, sw, sh, d0, dw, dh, ox, oy, y + 1, 0, 0)) by {
                assert forall|i: int| 0 <= i < d0.len() implies #[trigger] dst@[i] == blit_partial(
                    src@,
                    sw,
                    sh,
                    d0,
                    dw,
                    dh,
                    ox,
                    oy,
                    y + 1,
                    0,
                    0,
                )[i] by {
                    if blit_covers(i, sw, sh, dw, dh, ox, oy) {
                        lemma_pixel_decompose(i, dw);
                    }
                }
            }
        }
        y = y + 1;
    }
    proof {
        assert(dst@ =~= blitted(src@, sw, sh, d0, dw, dh, ox, oy));
    }
}

/// Chooses the grid (columns, rows) in which `n` equally sized frames are
/// laid out in an atlas.  Every height `h` in `1..n` is tried with
/// `ceil(n / h)` columns; a height wins when its area is smaller, or equal
/// with fewer columns, than the best so far, starting from `(n, 1)`.
///
/// Since `ceil(n / h) * h >= n`, the chosen grid always has exactly `n`
/// cells, and among the exact factorizations tried it has the fewest columns.
pub fn optimal_rectangle_pack(n: usize) -> (r: (usize, usize))
    requires
        n < 2 || 2 * n - 2 <= usize::MAX,
    ensures
        r == (spec_optimal_rectangle_pack(n as int).0 as usize, spec_optimal_rectangle_pack(
            n as int,
        ).1 as usize),
        r.0 * r.1 == n,
        r.1 >= 1,
        forall|h: int|
            1 <= h < n && #[trigger] columns_for(n as int, h) * h == n ==> r.0 <= columns_for(
                n as int,
                h,
            ),
{
    let mut best: (usize, usize) = (n, 1);
    let mut min_area: usize = n;
    let mut h: usize = 1;
    proof {
        lemma_pack_upto(n as int, 1);
    }
    while h < n
        invariant
            1 <= h,
            h <= n || h == 1,
            n < 2 || 2 * n - 2 <= usize::MAX,
            pack_upto(n as int, h as int) == (best.0 as int, best.1 as int, min_area as int),
        decreases n - h,
    {
        proof {
            lemma_columns_cover(n as int, h as int);
        }
        let w: usize = (n + h - 1) / h;
        let area: usize = w * h;
        if area < min_area || (area == min_area && w < best.0) {
            best = (w, h);
            min_area = area;
        }
        h = h + 1;
    }
    proof {
        if n >= 1 {
            lemma_pack_upto(n as int, n as int);
            assert(h == n);
        } else {
            assert(h == 1);
        }
    }
    best
}

/// Channel `c` (red, green, blue, alpha) of a palette color.
pub open spec fn channel(e: PaletteEntry, c: int) -> u8 {
    if c == 0 {
        e.red
    } else if c == 1 {
        e.green
    } else if c == 2 {
        e.blue
    } else {
        e.alpha
    }
}

/// The RGBA pixels of an indexed image: each palette index replaced by the
/// red, green, blue and alpha of its palette entry.
pub open spec fn expanded(indices: Seq<u8>, palette: Seq<PaletteEntry>) -> Seq<u8> {
    Seq::new(4 * indices.len(), |i: int| channel(palette[indices[i / 4] as int], i % 4))
}

/// Converts an indexed image to RGBA through its palette.  Every index must
/// name a palette entry.
pub fn expand_indexed(indices: &[u8], palette: &[PaletteEntry]) -> (r: Vec<u8>)
    requires
        forall|i: int| 0 <= i < indices@.len() ==> (#[trigger] indices@[i] as int) < palette@.len(),
        4 * indices@.len() <= usize::MAX,
    ensures
        r@ == expanded(indices@, palette@),
{
    let mut r: Vec<u8> = Vec::new();
    let mut i: usize = 0;
    while i < indices.len()
        invariant
            i <= indices@.len(),
            forall|k: int| 0 <= k < indices@.len() ==> (#[trigger] indices@[k] as int) < palette@.len(),
            r@.len() == 4 * i,
            forall|j: int| 0 <= j < 4 * i ==> #[trigger] r@[j] == channel(palette@[indices@[j / 4] as int], j % 4),
        decreases indices@.len() - i,
    {
        let e = &palette[indices[i] as usize];
        let ghost before = r@;
        r.push(e.red);
        r.push(e.green);
        r.push(e.blue);
        r.push(e.alpha);
        proof {
            assert forall|j: int| 0 <= j < 4 * (i + 1) implies #[trigger] r@[j] == channel(
                palette@[indices@[j / 4] as int],
                j % 4,
            ) by {
                if j >= 4 * i {
                    assert(j / 4 == i) by (nonlinear_arith)
                        requires
                            4 * i <= j < 4 * (i + 1),
                    ;
                    assert(j % 4 == j - 4 * i) by (nonlinear_arith)
                        requires
                            4 * i <= j < 4 * (i + 1),
                    ;
                } else {
                    assert(r@[j] == before[j]);
                }
            }
        }
        i = i + 1;
    }
    assert(r@ =~= expanded(indices@, palette@));
    r
}

/// The expanded image has four bytes per pixel, and pixel `k` is the red,
/// green, blue and alpha of the palette entry its index names, in that
/// order.
pub proof fn lemma_expanded_pixels(indices: Seq<u8>, palette: Seq<PaletteEntry>, k: int)
    requires
        0 <= k < indices.len(),
    ensures
        expanded(indices, palette).len() == 4 * indices.len(),
        expanded(indices, palette)[4 * k] == palette[indices[k] as int].red,
        expanded(indices, palette)[4 * k + 1] == palette[indices[k] as int].green,
        expanded(indices, palette)[4 * k + 2] == palette[indices[k] as int].blue,
        expanded(indices, palette)[4 * k + 3] == palette[indices[k] as int].alpha,
{
    assert((4 * k + 0) / 4 == k && (4 * k + 0) % 4 == 0);
    assert((4 * k + 1) / 4 == k && (4 * k + 1) % 4 == 1);
    assert((4 * k + 2) / 4 == k && (4 * k + 2) % 4 == 2);
    assert((4 * k + 3) / 4 == k && (4 * k + 3) % 4 == 3);
    assert(4 * k + 3 < 4 * indices.len());
}

} // verus!
