//! Pictures as bytes: packing captured rows, scaling, and conversion from BGRA to the formats that
//! encoders take.

use rayon::iter::IndexedParallelIterator;
use rayon::iter::ParallelIterator;
use rayon::slice::ParallelSliceMut;
use vstd::prelude::*;

verus! {

/// One captured picture: BGRA rows without padding, and when it was on the screen.
pub struct CapturedFrame {
    /// Width in pixels.
    pub width: u32,
    /// Height in pixels.
    pub height: u32,
    /// Four bytes per pixel.
    pub bgra: Vec<u8>,
    /// Nanoseconds of the media clock.
    pub captured_ns: i64,
}

/// How many bytes `h` rows of `row` bytes reach when they start `stride` bytes apart.
pub open spec fn rows_reach(row: int, stride: int, h: int) -> int {
    stride * (h - 1) + row
}

/// The byte `i` of `h` rows of `row` bytes, put one right after the other.
pub open spec fn packed_byte(src: Seq<u8>, row: int, stride: int, i: int) -> u8 {
    src[(i / row) * stride + i % row]
}

/// Whether `out` is the picture in `src` without the padding of its rows.
pub open spec fn is_packed(out: Seq<u8>, src: Seq<u8>, row: int, stride: int, h: int) -> bool {
    &&& out.len() == row * h
    &&& forall|i: int| 0 <= i < row * h ==> #[trigger] out[i] == packed_byte(src, row, stride, i)
}

/// Takes `h` rows of `row` bytes out of `src`, where they start `stride` bytes apart, and puts them
/// one right after the other. `None` if `src` is too short.
pub fn pack_rows(src: &[u8], row: usize, stride: usize, h: usize) -> (r: Option<Vec<u8>>)
    requires
        row > 0,
        h > 0,
        row * h <= usize::MAX,
    ensures
        r is Some <==> src@.len() >= rows_reach(row as int, stride as int, h as int),
        r matches Some(out) ==> is_packed(out@, src@, row as int, stride as int, h as int),
{
    proof {
        assert(0 <= stride * (h - 1) <= 0xffff_ffff_ffff_ffff * 0xffff_ffff_ffff_ffff)
            by (nonlinear_arith)
            requires
                0 <= stride <= 0xffff_ffff_ffff_ffff,
                0 <= h - 1 <= 0xffff_ffff_ffff_ffff,
        ;
    }
    let size: usize = src.len();
    let reach: u128 = stride as u128 * (h - 1) as u128;
    if size < row || ((size - row) as u128) < reach {
        return None;
    }
    let mut out: Vec<u8> = Vec::new();
    let mut y: usize = 0;
    assert(row * 0 == 0) by (nonlinear_arith);
    while y < h
        invariant
            row > 0,
            y <= h,
            row * h <= usize::MAX,
            size == src@.len(),
            size >= stride * (h - 1) + row,
            is_packed(out@, src@, row as int, stride as int, y as int),
        decreases h - y,
    {
        assert(stride * y <= stride * (h - 1)) by (nonlinear_arith)
            requires
                0 <= stride,
                y <= h - 1,
        ;
        assert(row * (y + 1) == row * y + row) by (nonlinear_arith);
        assert(y * stride == stride * y) by (nonlinear_arith);
        let start: usize = y * stride;
        let mut x: usize = 0;
        while x < row
            invariant
                row > 0,
                x <= row,
                start == stride * y,
                size == src@.len(),
                start + row <= size,
                out@.len() == row * y + x,
                row * (y + 1) == row * y + row,
                forall|i: int|
                    0 <= i < row * y + x ==> #[trigger] out@[i] == packed_byte(
                        src@,
                        row as int,
                        stride as int,
                        i,
                    ),
            decreases row - x,
        {
            out.push(src[start + x]);
            proof {
                let i = row * y + x;
                assert(i / (row as int) == y && i % (row as int) == x) by (nonlinear_arith)
                    requires
                        i == row * y + x,
                        0 <= x < row,
                ;
                assert(y * stride == stride * y) by (nonlinear_arith);
            }
            x += 1;
        }
        y += 1;
    }
    Some(out)
}

/// The distance between rows that a desktop portal states: none means that there is no padding.
pub open spec fn portal_stride(w: int, stated: int) -> int {
    if stated <= 0 {
        4 * w
    } else {
        stated
    }
}

/// The picture of a buffer of the desktop portal, or `None` if it holds none: the format is not
/// known yet, or the buffer is too short.
pub fn portal_frame(src: &[u8], w: u32, h: u32, stated: i32, captured_ns: i64) -> (r: Option<
    CapturedFrame,
>)
    requires
        4 * w * h <= usize::MAX,
    ensures
        r is Some <==> w > 0 && h > 0 && src@.len() >= rows_reach(
            4 * w,
            portal_stride(w as int, stated as int),
            h as int,
        ),
        r matches Some(f) ==> f.width == w && f.height == h && f.captured_ns == captured_ns
            && is_packed(f.bgra@, src@, 4 * w, portal_stride(w as int, stated as int), h as int),
{
    if w == 0 || h == 0 {
        return None;
    }
    proof {
        assert(4 * w <= 4 * w * h) by (nonlinear_arith)
            requires
                h >= 1,
                w >= 0,
        ;
    }
    let row: usize = w as usize * 4;
    let stride: usize = if stated <= 0 {
        row
    } else {
        stated as usize
    };
    match pack_rows(src, row, stride, h as usize) {
        Some(bgra) => Some(CapturedFrame { width: w, height: h, bgra, captured_ns }),
        None => None,
    }
}

/// The picture of a ScreenCaptureKit buffer, or `None` if it holds none: there are no pixels, its
/// rows are shorter than the picture is wide, or the buffer is too short.
pub fn mac_frame(src: &[u8], w: u32, h: u32, stride: usize, captured_ns: i64) -> (r: Option<
    CapturedFrame,
>)
    requires
        4 * w * h <= usize::MAX,
    ensures
        r is Some <==> w > 0 && h > 0 && stride >= 4 * w && src@.len() >= rows_reach(
            4 * w,
            stride as int,
            h as int,
        ),
        r matches Some(f) ==> f.width == w && f.height == h && f.captured_ns == captured_ns
            && is_packed(f.bgra@, src@, 4 * w, stride as int, h as int),
{
    if w == 0 || h == 0 {
        return None;
    }
    proof {
        assert(4 * w <= 4 * w * h) by (nonlinear_arith)
            requires
                h >= 1,
                w >= 0,
        ;
    }
    let row: usize = w as usize * 4;
    if stride < row {
        return None;
    }
    match pack_rows(src, row, stride, h as usize) {
        Some(bgra) => Some(CapturedFrame { width: w, height: h, bgra, captured_ns }),
        None => None,
    }
}

/// Rows without padding are packed already.
pub proof fn law_unpadded_rows_stay(out: Seq<u8>, src: Seq<u8>, row: int, h: int)
    requires
        row > 0,
        h > 0,
        src.len() == row * h,
        is_packed(out, src, row, row, h),
    ensures
        out == src,
{
    assert forall|i: int| 0 <= i < row * h implies out[i] == src[i] by {
        assert((i / row) * row + i % row == i) by (nonlinear_arith)
            requires
                row > 0,
        ;
    }
    assert(out =~= src);
}

/// The luma of a colour, BT.601 in studio range.
pub open spec fn luma(r: int, g: int, b: int) -> int {
    (66 * r + 129 * g + 25 * b + 128) / 256 + 16
}

/// The blue difference of a colour, BT.601 in studio range.
pub open spec fn chroma_u(r: int, g: int, b: int) -> int {
    (-38 * r - 74 * g + 112 * b + 128) / 256 + 128
}

/// The red difference of a colour, BT.601 in studio range.
pub open spec fn chroma_v(r: int, g: int, b: int) -> int {
    (112 * r - 94 * g - 18 * b + 128) / 256 + 128
}

/// Byte `c` of the pixel at column `x` and row `y` of a picture `w` pixels wide: 0 is blue, 1 green
/// and 2 red.
pub open spec fn px(bgra: Seq<u8>, w: int, x: int, y: int, c: int) -> int {
    bgra[4 * (y * w + x) + c] as int
}

/// The sum over the block of two by two pixels at `(2 * cx, 2 * cy)`, as far as it is inside.
pub open spec fn block_sum(bgra: Seq<u8>, w: int, h: int, cx: int, cy: int, c: int) -> int {
    px(bgra, w, 2 * cx, 2 * cy, c) + (if 2 * cx + 1 < w {
        px(bgra, w, 2 * cx + 1, 2 * cy, c)
    } else {
        0
    }) + (if 2 * cy + 1 < h {
        px(bgra, w, 2 * cx, 2 * cy + 1, c)
    } else {
        0
    }) + (if 2 * cx + 1 < w && 2 * cy + 1 < h {
        px(bgra, w, 2 * cx + 1, 2 * cy + 1, c)
    } else {
        0
    })
}

/// How many pixels of the block are inside.
pub open spec fn block_count(w: int, h: int, cx: int, cy: int) -> int {
    (if 2 * cx + 1 < w {
        2int
    } else {
        1int
    }) * (if 2 * cy + 1 < h {
        2int
    } else {
        1int
    })
}

/// The average over the block, rounded down.
pub open spec fn block_mean(bgra: Seq<u8>, w: int, h: int, cx: int, cy: int, c: int) -> int {
    block_sum(bgra, w, h, cx, cy, c) / block_count(w, h, cx, cy)
}

/// The source position of the target position `d` when `s` positions are spread over `n`.
pub open spec fn nearest(d: int, s: int, n: int) -> int {
    d * s / n
}

/// What a row of a target picture is made from.
pub enum RowJob<'a> {
    /// A row of luma.
    Luma { bgra: &'a [u8], w: usize, h: usize },
    /// A row of blue differences, one per block of two by two pixels.
    ChromaU { bgra: &'a [u8], w: usize, h: usize },
    /// A row of red differences, one per block of two by two pixels.
    ChromaV { bgra: &'a [u8], w: usize, h: usize },
    /// A row of alternating blue and red differences, one pair per block of two by two pixels.
    ChromaPairs { bgra: &'a [u8], w: usize, h: usize },
    /// A row of BGRA pixels, each the nearest of the source.
    Nearest { src: &'a [u8], sw: usize, sh: usize, dw: usize, dh: usize },
    /// One pixel as red, green and blue.
    Rgb { bgra: &'a [u8] },
}

/// How many bytes a row has.
pub open spec fn row_width(job: RowJob) -> int {
    match job {
        RowJob::Luma { bgra, w, h } => w as int,
        RowJob::ChromaU { bgra, w, h } => (w + 1) / 2,
        RowJob::ChromaV { bgra, w, h } => (w + 1) / 2,
        RowJob::ChromaPairs { bgra, w, h } => w as int,
        RowJob::Nearest { src, sw, sh, dw, dh } => 4 * dw,
        RowJob::Rgb { bgra } => 3,
    }
}

/// How many rows can be made.
pub open spec fn row_count(job: RowJob) -> int {
    match job {
        RowJob::Luma { bgra, w, h } => h as int,
        RowJob::ChromaU { bgra, w, h } => (h + 1) / 2,
        RowJob::ChromaV { bgra, w, h } => (h + 1) / 2,
        RowJob::ChromaPairs { bgra, w, h } => (h / 2) as int,
        RowJob::Nearest { src, sw, sh, dw, dh } => dh as int,
        RowJob::Rgb { bgra } => (bgra@.len() / 4) as int,
    }
}

/// Whether the picture holds what the rows are made from.
pub open spec fn job_ok(job: RowJob) -> bool {
    match job {
        RowJob::Luma { bgra, w, h } => w > 0 && 4 * (h * w) <= bgra@.len(),
        RowJob::ChromaU { bgra, w, h } => w > 0 && w < usize::MAX && h < usize::MAX && 4 * (h * w)
            <= bgra@.len(),
        RowJob::ChromaV { bgra, w, h } => w > 0 && w < usize::MAX && h < usize::MAX && 4 * (h * w)
            <= bgra@.len(),
        RowJob::ChromaPairs { bgra, w, h } => w > 0 && w % 2 == 0 && h % 2 == 0 && 4 * (h * w)
            <= bgra@.len(),
        RowJob::Nearest { src, sw, sh, dw, dh } => sw > 0 && sh > 0 && dw > 0 && 4 * dw <= usize::MAX
            && 4 * (sh * sw) <= usize::MAX && dw * sw <= usize::MAX && dh * sh <= usize::MAX,
        RowJob::Rgb { bgra } => true,
    }
}

/// Byte `k` of row `row`. A scaled pixel whose source is missing keeps what was there.
pub open spec fn row_byte(job: RowJob, row: int, k: int, kept: u8) -> u8 {
    match job {
        RowJob::Luma { bgra, w, h } => luma(
            px(bgra@, w as int, k, row, 2),
            px(bgra@, w as int, k, row, 1),
            px(bgra@, w as int, k, row, 0),
        ) as u8,
        RowJob::ChromaU { bgra, w, h } => block_u(bgra@, w as int, h as int, k, row) as u8,
        RowJob::ChromaV { bgra, w, h } => block_v(bgra@, w as int, h as int, k, row) as u8,
        RowJob::ChromaPairs { bgra, w, h } => if k % 2 == 0 {
            block_u(bgra@, w as int, h as int, k / 2, row) as u8
        } else {
            block_v(bgra@, w as int, h as int, k / 2, row) as u8
        },
        RowJob::Nearest { src, sw, sh, dw, dh } => {
            let at = 4 * (nearest(row, sh as int, dh as int) * sw + nearest(
                k / 4,
                sw as int,
                dw as int,
            ));
            if at + 4 <= src@.len() {
                src@[at + k % 4]
            } else {
                kept
            }
        },
        RowJob::Rgb { bgra } => bgra@[4 * row + 2 - k],
    }
}

/// The blue difference of a block's average colour.
pub open spec fn block_u(bgra: Seq<u8>, w: int, h: int, cx: int, cy: int) -> int {
    chroma_u(
        block_mean(bgra, w, h, cx, cy, 2),
        block_mean(bgra, w, h, cx, cy, 1),
        block_mean(bgra, w, h, cx, cy, 0),
    )
}

/// The red difference of a block's average colour.
pub open spec fn block_v(bgra: Seq<u8>, w: int, h: int, cx: int, cy: int) -> int {
    chroma_v(
        block_mean(bgra, w, h, cx, cy, 2),
        block_mean(bgra, w, h, cx, cy, 1),
        block_mean(bgra, w, h, cx, cy, 0),
    )
}

/// A pixel inside the picture has its four bytes inside the buffer.
proof fn lemma_pixel_inside(x: int, y: int, w: int, h: int, len: int)
    requires
        0 <= x < w,
        0 <= y < h,
        4 * (h * w) <= len,
    ensures
        0 <= y * w,
        0 <= 4 * (y * w + x),
        4 * (y * w + x) + 4 <= len,
{
    assert(y * w + x + 1 <= h * w) by (nonlinear_arith)
        requires
            0 <= x < w,
            0 <= y < h,
    ;
    assert(0 <= y * w) by (nonlinear_arith)
        requires
            0 <= y,
            0 <= w,
    ;
}

fn pixel(bgra: &[u8], w: usize, h: usize, x: usize, y: usize) -> (p: (i32, i32, i32))
    requires
        x < w,
        y < h,
        4 * (h * w) <= bgra@.len(),
    ensures
        p.0 == px(bgra@, w as int, x as int, y as int, 2),
        p.1 == px(bgra@, w as int, x as int, y as int, 1),
        p.2 == px(bgra@, w as int, x as int, y as int, 0),
        0 <= p.0 <= 255,
        0 <= p.1 <= 255,
        0 <= p.2 <= 255,
{
    let size: usize = bgra.len();
    proof {
        lemma_pixel_inside(x as int, y as int, w as int, h as int, size as int);
    }
    let at: usize = (y * w + x) * 4;
    (bgra[at + 2] as i32, bgra[at + 1] as i32, bgra[at] as i32)
}

/// The average colour of a block.
fn block_colour(bgra: &[u8], w: usize, h: usize, cx: usize, cy: usize) -> (p: (i32, i32, i32))
    requires
        2 * cx < w,
        2 * cy < h,
        w < usize::MAX,
        h < usize::MAX,
        4 * (h * w) <= bgra@.len(),
    ensures
        p.0 == block_mean(bgra@, w as int, h as int, cx as int, cy as int, 2),
        p.1 == block_mean(bgra@, w as int, h as int, cx as int, cy as int, 1),
        p.2 == block_mean(bgra@, w as int, h as int, cx as int, cy as int, 0),
        0 <= p.0 <= 255,
        0 <= p.1 <= 255,
        0 <= p.2 <= 255,
{
    let x: usize = cx * 2;
    let y: usize = cy * 2;
    let (mut r, mut g, mut b) = pixel(bgra, w, h, x, y);
    let mut n: i32 = 1;
    let wide = x + 1 < w;
    let high = y + 1 < h;
    if wide {
        let q = pixel(bgra, w, h, x + 1, y);
        r = r + q.0;
        g = g + q.1;
        b = b + q.2;
        n = n + 1;
    }
    if high {
        let q = pixel(bgra, w, h, x, y + 1);
        r = r + q.0;
        g = g + q.1;
        b = b + q.2;
        n = n + 1;
    }
    if wide && high {
        let q = pixel(bgra, w, h, x + 1, y + 1);
        r = r + q.0;
        g = g + q.1;
        b = b + q.2;
        n = n + 1;
    }
    assert(n == block_count(w as int, h as int, cx as int, cy as int));
    assert(n == 1 || n == 2 || n == 4);
    (r / n, g / n, b / n)
}

fn to_luma(r: i32, g: i32, b: i32) -> (y: u8)
    requires
        0 <= r <= 255,
        0 <= g <= 255,
        0 <= b <= 255,
    ensures
        y == luma(r as int, g as int, b as int),
{
    ((66 * r + 129 * g + 25 * b + 128) / 256 + 16) as u8
}

fn to_chroma_u(r: i32, g: i32, b: i32) -> (u: u8)
    requires
        0 <= r <= 255,
        0 <= g <= 255,
        0 <= b <= 255,
    ensures
        u == chroma_u(r as int, g as int, b as int),
{
    ((32896 - 38 * r - 74 * g + 112 * b) / 256) as u8
}

fn to_chroma_v(r: i32, g: i32, b: i32) -> (v: u8)
    requires
        0 <= r <= 255,
        0 <= g <= 255,
        0 <= b <= 255,
    ensures
        v == chroma_v(r as int, g as int, b as int),
{
    ((32896 + 112 * r - 94 * g - 18 * b) / 256) as u8
}

proof fn lemma_nearest(d: int, s: int, n: int)
    requires
        0 <= d < n,
        0 < s,
    ensures
        0 <= nearest(d, s, n) < s,
        0 <= d * s <= n * s,
{
    assert(0 <= d * s < n * s) by (nonlinear_arith)
        requires
            0 <= d < n,
            0 < s,
    ;
    assert(n * s == s * n) by (nonlinear_arith);
    assert(0 <= (d * s) / n < s) by (nonlinear_arith)
        requires
            0 <= d * s < s * n,
            0 < n,
    ;
}

impl<'a> RowJob<'a> {
    /// Makes byte `k` of row `row`.
    fn byte(&self, row: usize, k: usize, kept: u8) -> (v: u8)
        requires
            job_ok(*self),
            row < row_count(*self),
            k < row_width(*self),
        ensures
            v == row_byte(*self, row as int, k as int, kept),
    {
        match self {
            RowJob::Luma { bgra, w, h } => {
                let (r, g, b) = pixel(bgra, *w, *h, k, row);
                to_luma(r, g, b)
            },
            RowJob::ChromaU { bgra, w, h } => {
                let (r, g, b) = block_colour(bgra, *w, *h, k, row);
                to_chroma_u(r, g, b)
            },
            RowJob::ChromaV { bgra, w, h } => {
                let (r, g, b) = block_colour(bgra, *w, *h, k, row);
                to_chroma_v(r, g, b)
            },
            RowJob::ChromaPairs { bgra, w, h } => {
                let (r, g, b) = block_colour(bgra, *w, *h, k / 2, row);
                if k % 2 == 0 {
                    to_chroma_u(r, g, b)
                } else {
                    to_chroma_v(r, g, b)
                }
            },
            RowJob::Nearest { src, sw, sh, dw, dh } => {
                proof {
                    lemma_nearest(row as int, *sh as int, *dh as int);
                    lemma_nearest((k / 4) as int, *sw as int, *dw as int);
                }
                let sy: usize = row * *sh / *dh;
                let sx: usize = (k / 4) * *sw / *dw;
                proof {
                    lemma_pixel_inside(
                        sx as int,
                        sy as int,
                        *sw as int,
                        *sh as int,
                        4 * (*sh * *sw),
                    );
                }
                let at: usize = (sy * *sw + sx) * 4;
                if at < src.len() && src.len() - at >= 4 {
                    src[at + k % 4]
                } else {
                    kept
                }
            },
            RowJob::Rgb { bgra } => {
                let size: usize = bgra.len();
                assert(4 * row + 4 <= size);
                bgra[4 * row + 2 - k]
            },
        }
    }

    /// Makes row `row`.
    fn run(&self, row: usize, out: &mut [u8])
        requires
            job_ok(*self),
            row < row_count(*self),
            old(out)@.len() == row_width(*self),
        ensures
            final(out)@.len() == old(out)@.len(),
            forall|k: int|
                0 <= k < old(out)@.len() ==> #[trigger] final(out)@[k] == row_byte(
                    *self,
                    row as int,
                    k,
                    old(out)@[k],
                ),
    {
        let n: usize = out.len();
        let ghost before = out@;
        let mut k: usize = 0;
        while k < n
            invariant
                job_ok(*self),
                row < row_count(*self),
                n == row_width(*self),
                n == before.len(),
                out@.len() == n,
                k <= n,
                forall|j: int|
                    0 <= j < k ==> #[trigger] out@[j] == row_byte(
                        *self,
                        row as int,
                        j,
                        before[j],
                    ),
                forall|j: int| k <= j < n ==> #[trigger] out@[j] == before[j],
            decreases n - k,
        {
            let v: u8 = self.byte(row, k, out[k]);
            out[k] = v;
            k += 1;
        }
    }
}

/// `rayon`'s `par_chunks_mut`, `enumerate` and `for_each`: cuts `out` into rows of `width` bytes and
/// hands each row, with its number, to `RowJob::run` exactly once, on whichever thread. Every byte
/// is then what `run` makes of it in its row.
#[verifier::external_body]
fn par_rows(out: &mut [u8], width: usize, job: &RowJob)
    requires
        width > 0,
        job_ok(*job),
        width == row_width(*job),
        old(out)@.len() <= width * row_count(*job),
        old(out)@.len() % (width as nat) == 0,
    ensures
        final(out)@.len() == old(out)@.len(),
        forall|i: int|
            0 <= i < old(out)@.len() ==> #[trigger] final(out)@[i] == row_byte(
                *job,
                i / (width as int),
                i % (width as int),
                old(out)@[i],
            ),
{
    out.par_chunks_mut(width).enumerate().for_each(|(row, o)| job.run(row, o));
}

/// Whether `plane` holds the luma of every pixel.
pub open spec fn is_luma(plane: Seq<u8>, bgra: Seq<u8>, w: int, h: int) -> bool {
    &&& plane.len() == h * w
    &&& forall|i: int|
        0 <= i < h * w ==> #[trigger] plane[i] == luma(
            px(bgra, w, i % w, i / w, 2),
            px(bgra, w, i % w, i / w, 1),
            px(bgra, w, i % w, i / w, 0),
        )
}

/// Half of `n`, rounded up.
pub open spec fn half_up(n: int) -> int {
    (n + 1) / 2
}

/// Whether `plane` holds the blue difference of every block.
pub open spec fn is_chroma_u(plane: Seq<u8>, bgra: Seq<u8>, w: int, h: int) -> bool {
    &&& plane.len() == half_up(h) * half_up(w)
    &&& forall|i: int|
        0 <= i < plane.len() ==> #[trigger] plane[i] == block_u(
            bgra,
            w,
            h,
            i % half_up(w),
            i / half_up(w),
        )
}

/// Whether `plane` holds the red difference of every block.
pub open spec fn is_chroma_v(plane: Seq<u8>, bgra: Seq<u8>, w: int, h: int) -> bool {
    &&& plane.len() == half_up(h) * half_up(w)
    &&& forall|i: int|
        0 <= i < plane.len() ==> #[trigger] plane[i] == block_v(
            bgra,
            w,
            h,
            i % half_up(w),
            i / half_up(w),
        )
}

/// Whether `plane` holds the differences of every block, blue and red in turn.
pub open spec fn is_chroma_pairs(plane: Seq<u8>, bgra: Seq<u8>, w: int, h: int) -> bool {
    &&& plane.len() == (h / 2) * w
    &&& forall|i: int|
        0 <= i < plane.len() ==> #[trigger] plane[i] == if i % w % 2 == 0 {
            block_u(bgra, w, h, i % w / 2, i / w)
        } else {
            block_v(bgra, w, h, i % w / 2, i / w)
        }
}

proof fn lemma_row_of(i: int, width: int, count: int)
    requires
        0 <= i < count * width,
        0 < width,
    ensures
        0 <= i / width < count,
        0 <= i % width < width,
{
    assert(0 <= i / width < count) by (nonlinear_arith)
        requires
            0 <= i < count * width,
            0 < width,
    ;
    assert(0 <= i % width < width) by (nonlinear_arith)
        requires
            0 < width,
    ;
}

proof fn lemma_whole_rows(width: int, count: int)
    requires
        0 < width,
        0 <= count,
    ensures
        (count * width) % width == 0,
        count * width == width * count,
        0 <= count * width,
{
    vstd::arithmetic::div_mod::lemma_mod_multiples_basic(count, width);
    assert(0 <= count * width) by (nonlinear_arith)
        requires
            0 < width,
            0 <= count,
    ;
    assert(count * width == width * count) by (nonlinear_arith);
}

/// The average over a block that is inside the picture is a byte.
proof fn lemma_mean_is_byte(bgra: Seq<u8>, w: int, h: int, cx: int, cy: int, c: int)
    ensures
        0 <= block_mean(bgra, w, h, cx, cy, c) <= 255,
{
    let n = block_count(w, h, cx, cy);
    assert(n == 1 || n == 2 || n == 4);
}

/// The differences of any colour are bytes.
proof fn lemma_chroma_is_byte(bgra: Seq<u8>, w: int, h: int, cx: int, cy: int)
    ensures
        0 <= block_u(bgra, w, h, cx, cy) <= 255,
        0 <= block_v(bgra, w, h, cx, cy) <= 255,
{
    lemma_mean_is_byte(bgra, w, h, cx, cy, 0);
    lemma_mean_is_byte(bgra, w, h, cx, cy, 1);
    lemma_mean_is_byte(bgra, w, h, cx, cy, 2);
}

/// Fills the three planes of an I420 picture, `w` by `h` pixels, from BGRA.
pub fn bgra_to_i420(
    bgra: &[u8],
    w: usize,
    h: usize,
    y_plane: &mut [u8],
    u_plane: &mut [u8],
    v_plane: &mut [u8],
)
    requires
        0 < w < usize::MAX,
        h < usize::MAX,
        4 * (h * w) <= bgra@.len(),
        old(y_plane)@.len() == h * w,
        old(u_plane)@.len() == half_up(h as int) * half_up(w as int),
        old(v_plane)@.len() == half_up(h as int) * half_up(w as int),
    ensures
        is_luma(final(y_plane)@, bgra@, w as int, h as int),
        is_chroma_u(final(u_plane)@, bgra@, w as int, h as int),
        is_chroma_v(final(v_plane)@, bgra@, w as int, h as int),
{
    let cw: usize = w / 2 + w % 2;
    proof {
        lemma_whole_rows(w as int, h as int);
        lemma_whole_rows(half_up(w as int), half_up(h as int));
        assert(cw == half_up(w as int));
    }
    par_rows(y_plane, w, &RowJob::Luma { bgra, w, h });
    par_rows(u_plane, cw, &RowJob::ChromaU { bgra, w, h });
    par_rows(v_plane, cw, &RowJob::ChromaV { bgra, w, h });
    proof {
        let cw = half_up(w as int);
        assert forall|i: int| 0 <= i < u_plane@.len() implies #[trigger] u_plane@[i] == block_u(
            bgra@,
            w as int,
            h as int,
            i % cw,
            i / cw,
        ) by {
            lemma_chroma_is_byte(bgra@, w as int, h as int, i % cw, i / cw);
        }
        assert forall|i: int| 0 <= i < v_plane@.len() implies #[trigger] v_plane@[i] == block_v(
            bgra@,
            w as int,
            h as int,
            i % cw,
            i / cw,
        ) by {
            lemma_chroma_is_byte(bgra@, w as int, h as int, i % cw, i / cw);
        }
    }
}

/// The NV12 picture, `w` by `h` pixels, of a BGRA one. Both measures are even.
pub fn bgra_to_nv12(bgra: &[u8], w: usize, h: usize) -> (out: Vec<u8>)
    requires
        0 < w,
        w % 2 == 0,
        h % 2 == 0,
        4 * (h * w) <= bgra@.len(),
    ensures
        out@.len() == h * w + (h / 2) * w,
        is_luma(out@.subrange(0, h * w), bgra@, w as int, h as int),
        is_chroma_pairs(out@.subrange(h * w, h * w + (h / 2) * w), bgra@, w as int, h as int),
{
    let size: usize = bgra.len();
    proof {
        lemma_whole_rows(w as int, h as int);
        lemma_whole_rows(w as int, (h / 2) as int);
        assert((h / 2) * w <= h * w) by (nonlinear_arith)
            requires
                h / 2 <= h,
                0 <= w,
        ;
    }
    let pixels: usize = h * w;
    let pairs: usize = (h / 2) * w;
    let mut y: Vec<u8> = vec![0u8; pixels];
    let mut uv: Vec<u8> = vec![0u8; pairs];
    par_rows(y.as_mut_slice(), w, &RowJob::Luma { bgra, w, h });
    par_rows(uv.as_mut_slice(), w, &RowJob::ChromaPairs { bgra, w, h });
    proof {
        assert forall|i: int| 0 <= i < uv@.len() implies #[trigger] uv@[i] == if i % (w as int) % 2
            == 0 {
            block_u(bgra@, w as int, h as int, i % (w as int) / 2, i / (w as int))
        } else {
            block_v(bgra@, w as int, h as int, i % (w as int) / 2, i / (w as int))
        } by {
            lemma_chroma_is_byte(
                bgra@,
                w as int,
                h as int,
                i % (w as int) / 2,
                i / (w as int),
            );
        }
        assert(is_chroma_pairs(uv@, bgra@, w as int, h as int));
        assert(is_luma(y@, bgra@, w as int, h as int));
    }
    let ghost luma_part = y@;
    let ghost pair_part = uv@;
    y.append(&mut uv);
    proof {
        assert(y@.subrange(0, h * w) =~= luma_part);
        assert(y@.subrange(h * w, h * w + (h / 2) * w) =~= pair_part);
    }
    y
}

/// The red, green and blue of every pixel.
pub open spec fn is_rgb(out: Seq<u8>, bgra: Seq<u8>) -> bool {
    &&& out.len() == bgra.len() / 4 * 3
    &&& forall|i: int| 0 <= i < out.len() ==> #[trigger] out[i] == bgra[4 * (i / 3) + 2 - i % 3]
}

/// The red, green and blue of every pixel of a BGRA picture.
pub fn bgra_to_rgb(bgra: &[u8]) -> (out: Vec<u8>)
    ensures
        is_rgb(out@, bgra@),
{
    let n: usize = bgra.len() / 4 * 3;
    let mut out: Vec<u8> = vec![0u8; n];
    par_rows(out.as_mut_slice(), 3, &RowJob::Rgb { bgra });
    out
}

/// Whether `out` is the picture `src` scaled to `dw` by `dh` pixels, taking the nearest source pixel
/// for each; a pixel whose source is missing keeps what was there.
pub open spec fn is_scaled(
    out: Seq<u8>,
    kept: Seq<u8>,
    src: Seq<u8>,
    sw: int,
    sh: int,
    dw: int,
    dh: int,
) -> bool {
    &&& out.len() == kept.len()
    &&& forall|i: int|
        0 <= i < out.len() ==> #[trigger] out[i] == {
            let at = 4 * (nearest(i / (4 * dw), sh, dh) * sw + nearest(i % (4 * dw) / 4, sw, dw));
            if at + 4 <= src.len() {
                src[at + i % (4 * dw) % 4]
            } else {
                kept[i]
            }
        }
}

/// `v` cut or filled with zeros to `n` bytes.
pub open spec fn resized(v: Seq<u8>, n: int) -> Seq<u8> {
    Seq::new(
        n as nat,
        |i: int|
            if i < v.len() {
                v[i]
            } else {
                0u8
            },
    )
}

/// Scales a BGRA picture of `sw` by `sh` pixels to `dw` by `dh` into `out`. A picture that has the
/// size already is copied.
pub fn scale_bgra(src: &[u8], sw: usize, sh: usize, dw: usize, dh: usize, out: &mut Vec<u8>)
    requires
        dw > 0 || sw == 0 || sh == 0,
        4 * (dh * dw) <= usize::MAX,
        4 * dw <= usize::MAX,
        4 * (sh * sw) <= usize::MAX,
        dw * sw <= usize::MAX,
        dh * sh <= usize::MAX,
    ensures
        final(out)@.len() == 4 * (dh * dw),
        sw == dw && sh == dh && src@.len() >= 4 * (dh * dw) ==> final(out)@ == src@.take(
            4 * (dh * dw),
        ),
        !(sw == dw && sh == dh && src@.len() >= 4 * (dh * dw)) ==> if sw == 0 || sh == 0 {
            final(out)@ == resized(old(out)@, 4 * (dh * dw))
        } else {
            is_scaled(
                final(out)@,
                resized(old(out)@, 4 * (dh * dw)),
                src@,
                sw as int,
                sh as int,
                dw as int,
                dh as int,
            )
        },
{
    proof {
        assert(0 <= dh * dw) by (nonlinear_arith)
            requires
                0 <= dh,
                0 <= dw,
        ;
    }
    let pixels: usize = dh * dw;
    let n: usize = pixels * 4;
    out.resize(n, 0);
    assert(out@ =~= resized(old(out)@, n as int));
    if sw == dw && sh == dh && src.len() >= n {
        let mut i: usize = 0;
        while i < n
            invariant
                i <= n,
                out@.len() == n,
                n <= src@.len(),
                forall|k: int| 0 <= k < i ==> out@[k] == src@[k],
            decreases n - i,
        {
            out[i] = src[i];
            i += 1;
        }
        assert(out@ =~= src@.take(n as int));
        return;
    }
    if sw == 0 || sh == 0 {
        return;
    }
    let width: usize = dw * 4;
    proof {
        lemma_whole_rows(width as int, dh as int);
        assert(dh * (4 * dw) == 4 * (dh * dw)) by (nonlinear_arith);
    }
    par_rows(out.as_mut_slice(), width, &RowJob::Nearest { src, sw, sh, dw, dh });
}

/// Scaling to the size that the picture has already changes nothing, by copying and by taking
/// nearest pixels alike.
pub proof fn law_scaling_to_own_size(out: Seq<u8>, kept: Seq<u8>, src: Seq<u8>, w: int, h: int)
    requires
        w > 0,
        h > 0,
        src.len() == 4 * (h * w),
        kept.len() == 4 * (h * w),
        is_scaled(out, kept, src, w, h, w, h),
    ensures
        out == src,
{
    assert forall|i: int| 0 <= i < out.len() implies out[i] == src[i] by {
        let row = i / (4 * w);
        let k = i % (4 * w);
        assert(4 * (h * w) == h * (4 * w)) by (nonlinear_arith);
        lemma_row_of(i, 4 * w, h);
        assert(nearest(row, h, h) == row) by (nonlinear_arith)
            requires
                h > 0,
                nearest(row, h, h) == row * h / h,
        ;
        assert(nearest(k / 4, w, w) == k / 4) by (nonlinear_arith)
            requires
                w > 0,
                nearest(k / 4, w, w) == (k / 4) * w / w,
        ;
        assert(4 * (row * w + k / 4) + k % 4 == row * (4 * w) + k) by (nonlinear_arith);
        assert(i == row * (4 * w) + k) by {
            vstd::arithmetic::div_mod::lemma_fundamental_div_mod(i, 4 * w);
            assert((4 * w) * row == row * (4 * w)) by (nonlinear_arith);
        }
        lemma_pixel_inside(k / 4, row, w, h, src.len() as int);
    }
    assert(out =~= src);
}

/// Every grey pixel has the middle value for both differences, whatever its brightness.
pub proof fn law_grey_has_no_chroma(v: int)
    requires
        0 <= v <= 255,
    ensures
        chroma_u(v, v, v) == 128,
        chroma_v(v, v, v) == 128,
        16 <= luma(v, v, v) <= 235,
{
}

/// Scaling spreads the whole source evenly over the whole target: the position `p` that stands for
/// `d` of `n` is the one whose share of the source holds the start of `d`'s share. That is so for
/// pictures that are made larger and smaller alike.
pub proof fn law_scaling_is_even(d: int, s: int, n: int)
    requires
        0 <= d < n,
        0 < s,
    ensures
        0 <= nearest(d, s, n) < s,
        nearest(d, s, n) * n <= d * s < (nearest(d, s, n) + 1) * n,
{
    lemma_nearest(d, s, n);
    let p = nearest(d, s, n);
    vstd::arithmetic::div_mod::lemma_fundamental_div_mod(d * s, n);
    vstd::arithmetic::div_mod::lemma_mod_bound(d * s, n);
    assert(p * n <= d * s < (p + 1) * n) by (nonlinear_arith)
        requires
            d * s == n * p + (d * s) % n,
            0 <= (d * s) % n < n,
    ;
}

/// Every byte of a scaled picture is that byte of a source pixel in the same part of the picture:
/// column `sx` holds the start of column `x`'s share of the width, and row `sy` that of row `y`.
pub proof fn law_scaled_picture_shows_the_whole(
    out: Seq<u8>,
    kept: Seq<u8>,
    src: Seq<u8>,
    sw: int,
    sh: int,
    dw: int,
    dh: int,
    x: int,
    y: int,
    c: int,
)
    requires
        sw > 0,
        sh > 0,
        0 <= x < dw,
        0 <= y < dh,
        0 <= c < 4,
        src.len() >= 4 * (sh * sw),
        out.len() == 4 * (dh * dw),
        is_scaled(out, kept, src, sw, sh, dw, dh),
    ensures
        exists|sx: int, sy: int|
            {
                &&& 0 <= sx < sw && sx * dw <= x * sw < (sx + 1) * dw
                &&& 0 <= sy < sh && sy * dh <= y * sh < (sy + 1) * dh
                &&& out[4 * (y * dw + x) + c] == #[trigger] src[4 * (sy * sw + sx) + c]
            },
{
    let i = 4 * (y * dw + x) + c;
    lemma_pixel_inside(x, y, dw, dh, out.len() as int);
    assert(i == y * (4 * dw) + (4 * x + c)) by (nonlinear_arith)
        requires
            i == 4 * (y * dw + x) + c,
    ;
    vstd::arithmetic::div_mod::lemma_fundamental_div_mod_converse(i, 4 * dw, y, 4 * x + c);
    let sx = nearest(x, sw, dw);
    let sy = nearest(y, sh, dh);
    law_scaling_is_even(x, sw, dw);
    law_scaling_is_even(y, sh, dh);
    lemma_pixel_inside(sx, sy, sw, sh, src.len() as int);
    assert(i / (4 * dw) == y && i % (4 * dw) == 4 * x + c);
    assert(i % (4 * dw) / 4 == x && i % (4 * dw) % 4 == c);
    assert(out[i] == src[4 * (sy * sw + sx) + c]);
}

/// Making a picture half as wide and half as high keeps every second pixel of every second row.
pub proof fn law_halving_takes_every_second_pixel(d: int, n: int)
    requires
        0 <= d < n,
    ensures
        nearest(d, 2 * n, n) == 2 * d,
{
    assert(d * (2 * n) == n * (2 * d)) by (nonlinear_arith);
    assert(n * (2 * d) / n == 2 * d) by {
        vstd::arithmetic::div_mod::lemma_div_multiples_vanish(2 * d, n);
    }
}

/// Packed rows hold what the rows held: column `x` of row `y` is the byte at `x` behind the start of
/// that row, and padding is in none of them.
pub proof fn law_rows_are_kept(
    out: Seq<u8>,
    src: Seq<u8>,
    row: int,
    stride: int,
    h: int,
    x: int,
    y: int,
)
    requires
        0 <= x < row,
        0 <= y < h,
        is_packed(out, src, row, stride, h),
    ensures
        out.len() == row * h,
        out[y * row + x] == src[y * stride + x],
{
    let i = y * row + x;
    assert(0 <= i < row * h) by (nonlinear_arith)
        requires
            0 <= x < row,
            0 <= y < h,
            i == y * row + x,
    ;
    vstd::arithmetic::div_mod::lemma_fundamental_div_mod_converse(i, row, y, x);
    assert(out[i] == packed_byte(src, row, stride, i));
}

/// Each pixel of an RGB picture has the red, green and blue of the BGRA pixel in the same place.
pub proof fn law_rgb_keeps_the_colour(out: Seq<u8>, bgra: Seq<u8>, p: int)
    requires
        is_rgb(out, bgra),
        0 <= p < bgra.len() / 4,
    ensures
        out.len() == bgra.len() / 4 * 3,
        out[3 * p] == bgra[4 * p + 2],
        out[3 * p + 1] == bgra[4 * p + 1],
        out[3 * p + 2] == bgra[4 * p],
{
    assert(out[3 * p] == bgra[4 * ((3 * p) / 3) + 2 - (3 * p) % 3]);
    assert(out[3 * p + 1] == bgra[4 * ((3 * p + 1) / 3) + 2 - (3 * p + 1) % 3]);
    assert(out[3 * p + 2] == bgra[4 * ((3 * p + 2) / 3) + 2 - (3 * p + 2) % 3]);
}

/// More of any primary colour is never darker. Black is 16 and white 235; of the pure primaries green
/// is the brightest and blue the darkest.
pub proof fn law_luma_is_brightness(r: int, g: int, b: int, more: int)
    requires
        0 <= r <= 255,
        0 <= g <= 255,
        0 <= b <= 255,
        more >= 0,
    ensures
        luma(r, g, b) <= luma(r + more, g, b),
        luma(r, g, b) <= luma(r, g + more, b),
        luma(r, g, b) <= luma(r, g, b + more),
        16 <= luma(r, g, b) <= 235,
        luma(0, 0, 0) == 16,
        luma(255, 255, 255) == 235,
        luma(255, 0, 0) == 82,
        luma(0, 255, 0) == 144,
        luma(0, 0, 255) == 41,
{
}

/// The blue difference grows with blue and falls with red and with green; the red difference grows
/// with red and falls with green and with blue. Pure blue has the largest blue difference there is,
/// and pure red the largest red one.
pub proof fn law_differences_follow_their_colour(r: int, g: int, b: int, more: int)
    requires
        0 <= r <= 255,
        0 <= g <= 255,
        0 <= b <= 255,
        more >= 0,
    ensures
        chroma_u(r, g, b) <= chroma_u(r, g, b + more),
        chroma_u(r + more, g, b) <= chroma_u(r, g, b),
        chroma_u(r, g + more, b) <= chroma_u(r, g, b),
        chroma_v(r, g, b) <= chroma_v(r + more, g, b),
        chroma_v(r, g + more, b) <= chroma_v(r, g, b),
        chroma_v(r, g, b + more) <= chroma_v(r, g, b),
        16 <= chroma_u(r, g, b) <= 240,
        16 <= chroma_v(r, g, b) <= 240,
        chroma_u(0, 0, 255) == 240,
        chroma_u(0, 255, 0) == 54,
        chroma_u(255, 0, 0) == 90,
        chroma_v(255, 0, 0) == 240,
        chroma_v(0, 255, 0) == 34,
        chroma_v(0, 0, 255) == 110,
{
}

/// Each primary counts for itself and in proportion: what a colour comes to is what its primaries
/// come to, rounding apart, and half a primary comes to half as much.
pub proof fn law_primaries_add_up(r: int, g: int, b: int)
    requires
        0 <= r <= 255,
        0 <= g <= 255,
        0 <= b <= 255,
    ensures
        -2 <= luma(r, g, b) - 16 - (luma(r, 0, 0) - 16) - (luma(0, g, 0) - 16) - (luma(0, 0, b) - 16)
            <= 2,
        -2 <= chroma_u(r, g, b) - 128 - (chroma_u(r, 0, 0) - 128) - (chroma_u(0, g, 0) - 128) - (
        chroma_u(0, 0, b) - 128) <= 2,
        -2 <= chroma_v(r, g, b) - 128 - (chroma_v(r, 0, 0) - 128) - (chroma_v(0, g, 0) - 128) - (
        chroma_v(0, 0, b) - 128) <= 2,
        -255 <= 255 * (luma(r, 0, 0) - 16) - 66 * r <= 255,
        -255 <= 255 * (luma(0, g, 0) - 16) - 129 * g <= 255,
        -255 <= 255 * (luma(0, 0, b) - 16) - 25 * b <= 255,
        -255 <= 255 * (chroma_u(0, 0, b) - 128) - 112 * b <= 255,
        -255 <= 255 * (128 - chroma_u(r, 0, 0)) - 38 * r <= 255,
        -255 <= 255 * (128 - chroma_u(0, g, 0)) - 74 * g <= 255,
        -255 <= 255 * (chroma_v(r, 0, 0) - 128) - 112 * r <= 255,
        -255 <= 255 * (128 - chroma_v(0, g, 0)) - 94 * g <= 255,
        -255 <= 255 * (128 - chroma_v(0, 0, b)) - 18 * b <= 255,
{
}

/// The luma plane has the brightness of each pixel in that pixel's place: blue, green and red are the
/// bytes of the pixel in this order.
pub proof fn law_luma_is_in_its_place(plane: Seq<u8>, bgra: Seq<u8>, w: int, h: int, x: int, y: int)
    requires
        0 <= x < w,
        0 <= y < h,
        is_luma(plane, bgra, w, h),
    ensures
        plane[y * w + x] == luma(
            bgra[4 * (y * w + x) + 2] as int,
            bgra[4 * (y * w + x) + 1] as int,
            bgra[4 * (y * w + x)] as int,
        ),
{
    let i = y * w + x;
    assert(0 <= i < h * w) by (nonlinear_arith)
        requires
            0 <= x < w,
            0 <= y < h,
            i == y * w + x,
    ;
    vstd::arithmetic::div_mod::lemma_fundamental_div_mod_converse(i, w, y, x);
    assert(plane[i] == luma(px(bgra, w, x, y, 2), px(bgra, w, x, y, 1), px(bgra, w, x, y, 0)));
}

/// Whether every pixel of the block of two by two at `(2 * cx, 2 * cy)` that is inside the picture
/// has the byte `v` in place `c`.
pub open spec fn block_is(bgra: Seq<u8>, w: int, h: int, cx: int, cy: int, c: int, v: u8) -> bool {
    forall|x: int, y: int|
        2 * cx <= x <= 2 * cx + 1 && x < w && 2 * cy <= y <= 2 * cy + 1 && y < h
            ==> #[trigger] px(bgra, w, x, y, c) == v
}

proof fn lemma_block_of_one(bgra: Seq<u8>, w: int, h: int, cx: int, cy: int, c: int, v: u8)
    requires
        0 <= 2 * cx < w,
        0 <= 2 * cy < h,
        block_is(bgra, w, h, cx, cy, c, v),
    ensures
        block_mean(bgra, w, h, cx, cy, c) == v,
{
    let (x, y) = (2 * cx, 2 * cy);
    let n = block_count(w, h, cx, cy);
    let sum = block_sum(bgra, w, h, cx, cy, c);
    assert(px(bgra, w, x, y, c) == v);
    assert(x + 1 < w ==> px(bgra, w, x + 1, y, c) == v);
    assert(y + 1 < h ==> px(bgra, w, x, y + 1, c) == v);
    assert(x + 1 < w && y + 1 < h ==> px(bgra, w, x + 1, y + 1, c) == v);
    if x + 1 < w && y + 1 < h {
        assert(n == 4 && sum == 4 * v);
    } else if x + 1 < w || y + 1 < h {
        assert(n == 2 && sum == 2 * v);
    } else {
        assert(n == 1 && sum == v);
    }
}

/// The two difference planes have, in the place of each block, the differences of its colour: a block
/// of one colour has that colour's, also at an edge where part of the block is outside.
pub proof fn law_block_of_one_colour(
    u: Seq<u8>,
    v: Seq<u8>,
    bgra: Seq<u8>,
    w: int,
    h: int,
    cx: int,
    cy: int,
    red: u8,
    green: u8,
    blue: u8,
)
    requires
        0 <= 2 * cx < w,
        0 <= 2 * cy < h,
        is_chroma_u(u, bgra, w, h),
        is_chroma_v(v, bgra, w, h),
        block_is(bgra, w, h, cx, cy, 0, blue),
        block_is(bgra, w, h, cx, cy, 1, green),
        block_is(bgra, w, h, cx, cy, 2, red),
    ensures
        u.len() == ((h + 1) / 2) * ((w + 1) / 2),
        v.len() == u.len(),
        u[cy * ((w + 1) / 2) + cx] == chroma_u(red as int, green as int, blue as int),
        v[cy * ((w + 1) / 2) + cx] == chroma_v(red as int, green as int, blue as int),
{
    let cw = (w + 1) / 2;
    let ch = (h + 1) / 2;
    let i = cy * cw + cx;
    assert(0 <= i < ch * cw) by (nonlinear_arith)
        requires
            0 <= cx < cw,
            0 <= cy < ch,
            i == cy * cw + cx,
    ;
    vstd::arithmetic::div_mod::lemma_fundamental_div_mod_converse(i, cw, cy, cx);
    lemma_block_of_one(bgra, w, h, cx, cy, 0, blue);
    lemma_block_of_one(bgra, w, h, cx, cy, 1, green);
    lemma_block_of_one(bgra, w, h, cx, cy, 2, red);
    assert(u[i] == block_u(bgra, w, h, cx, cy));
    assert(v[i] == block_v(bgra, w, h, cx, cy));
}

/// The average of a whole block of four pixels counts each of them once.
pub proof fn law_block_counts_each_pixel(bgra: Seq<u8>, w: int, h: int, cx: int, cy: int, c: int)
    requires
        0 <= 2 * cx,
        2 * cx + 1 < w,
        0 <= 2 * cy,
        2 * cy + 1 < h,
    ensures
        ({
            let top = 4 * ((2 * cy) * w + 2 * cx) + c;
            let low = 4 * ((2 * cy + 1) * w + 2 * cx) + c;
            let sum = bgra[top] + bgra[top + 4] + bgra[low] + bgra[low + 4];
            4 * block_mean(bgra, w, h, cx, cy, c) <= sum < 4 * block_mean(bgra, w, h, cx, cy, c) + 4
        }),
{
    assert(4 * ((2 * cy) * w + (2 * cx + 1)) == 4 * ((2 * cy) * w + 2 * cx) + 4);
    assert(4 * ((2 * cy + 1) * w + (2 * cx + 1)) == 4 * ((2 * cy + 1) * w + 2 * cx) + 4);
    assert(block_count(w, h, cx, cy) == 4);
}

/// Both layouts hold the same numbers: the pairs of NV12 are the two planes of I420, blue difference
/// first.
pub proof fn law_layouts_agree(
    pairs: Seq<u8>,
    u: Seq<u8>,
    v: Seq<u8>,
    bgra: Seq<u8>,
    w: int,
    h: int,
    cx: int,
    cy: int,
)
    requires
        0 <= cx < w / 2,
        0 <= cy < h / 2,
        w % 2 == 0,
        h % 2 == 0,
        is_chroma_pairs(pairs, bgra, w, h),
        is_chroma_u(u, bgra, w, h),
        is_chroma_v(v, bgra, w, h),
    ensures
        pairs.len() == (h / 2) * w,
        pairs[cy * w + 2 * cx] == u[cy * (w / 2) + cx],
        pairs[cy * w + 2 * cx + 1] == v[cy * (w / 2) + cx],
{
    let half = w / 2;
    assert(half_up(w) == half && half_up(h) == h / 2);
    let i = cy * half + cx;
    assert(0 <= i < (h / 2) * half) by (nonlinear_arith)
        requires
            0 <= cx < half,
            0 <= cy < h / 2,
            i == cy * half + cx,
    ;
    vstd::arithmetic::div_mod::lemma_fundamental_div_mod_converse(i, half, cy, cx);
    let k = cy * w + 2 * cx;
    assert(0 <= k && k + 1 < (h / 2) * w) by (nonlinear_arith)
        requires
            0 <= 2 * cx,
            2 * cx + 1 < w,
            0 <= cy < h / 2,
            k == cy * w + 2 * cx,
    ;
    vstd::arithmetic::div_mod::lemma_fundamental_div_mod_converse(k, w, cy, 2 * cx);
    vstd::arithmetic::div_mod::lemma_fundamental_div_mod_converse(k + 1, w, cy, 2 * cx + 1);
    assert(u[i] == block_u(bgra, w, h, cx, cy));
    assert(v[i] == block_v(bgra, w, h, cx, cy));
    assert(pairs[k] == block_u(bgra, w, h, cx, cy));
    assert(pairs[k + 1] == block_v(bgra, w, h, cx, cy));
}

/// A portal that states no distance between rows has none but the row itself.
pub proof fn law_portal_rows(w: int, stated: int)
    requires
        w > 0,
    ensures
        stated <= 0 ==> portal_stride(w, stated) == 4 * w,
        stated > 0 ==> portal_stride(w, stated) == stated,
{
}

/// A buffer of that many bytes holds the whole picture, and with one byte less its last one would be
/// missing.
pub proof fn law_rows_reach_the_last_byte(row: int, stride: int, h: int, x: int, y: int)
    requires
        0 <= x < row,
        0 <= y < h,
        stride >= 0,
    ensures
        0 <= y * stride + x < rows_reach(row, stride, h),
        (h - 1) * stride + (row - 1) == rows_reach(row, stride, h) - 1,
{
    assert(0 <= y * stride <= (h - 1) * stride) by (nonlinear_arith)
        requires
            0 <= y < h,
            stride >= 0,
    ;
    assert((h - 1) * stride == stride * (h - 1)) by (nonlinear_arith);
}

/// Where the source has nothing, what was in the target stays.
pub proof fn law_missing_pixels_stay(
    out: Seq<u8>,
    kept: Seq<u8>,
    sw: int,
    sh: int,
    dw: int,
    dh: int,
)
    requires
        sw > 0,
        sh > 0,
        dw > 0,
        dh > 0,
        kept.len() == 4 * (dh * dw),
        is_scaled(out, kept, Seq::empty(), sw, sh, dw, dh),
    ensures
        out == kept,
{
    assert(4 * (dh * dw) == dh * (4 * dw)) by (nonlinear_arith);
    assert forall|i: int| 0 <= i < out.len() implies out[i] == kept[i] by {
        lemma_row_of(i, 4 * dw, dh);
        let x = i % (4 * dw) / 4;
        let y = i / (4 * dw);
        law_scaling_is_even(x, sw, dw);
        law_scaling_is_even(y, sh, dh);
        let sx = nearest(x, sw, dw);
        let sy = nearest(y, sh, dh);
        assert(sy * sw >= 0) by (nonlinear_arith)
            requires
                sy >= 0,
                sw > 0,
        ;
    }
    assert(out =~= kept);
}

/// A buffer that is made longer is filled with zeros, and one that is made shorter is cut; what
/// stays is what was there.
pub proof fn law_resizing(v: Seq<u8>, n: int)
    requires
        n >= 0,
    ensures
        resized(v, n).len() == n,
        n <= v.len() ==> resized(v, n) == v.subrange(0, n),
        n >= v.len() ==> v.is_prefix_of(resized(v, n)),
        forall|i: int| v.len() <= i < n ==> #[trigger] resized(v, n)[i] == 0,
{
    let r = resized(v, n);
    if n <= v.len() {
        assert(r =~= v.subrange(0, n));
    }
    if n >= v.len() {
        assert(v =~= r.subrange(0, v.len() as int));
    }
}

/// At an odd edge the average counts the pixels that there are.
pub proof fn law_edge_block_counts_what_is_there(bgra: Seq<u8>, w: int, h: int, cx: int, cy: int, c: int)
    requires
        0 <= 2 * cx,
        2 * cx + 1 == w,
        0 <= 2 * cy,
    ensures
        2 * cy + 1 == h ==> block_mean(bgra, w, h, cx, cy, c) == bgra[4 * ((2 * cy) * w + 2 * cx)
            + c],
        2 * cy + 1 < h ==> ({
            let sum = bgra[4 * ((2 * cy) * w + 2 * cx) + c] + bgra[4 * ((2 * cy + 1) * w + 2 * cx)
                + c];
            2 * block_mean(bgra, w, h, cx, cy, c) <= sum < 2 * block_mean(bgra, w, h, cx, cy, c) + 2
        }),
{
    let n = block_count(w, h, cx, cy);
    if 2 * cy + 1 < h {
        assert(n == 2);
    } else {
        assert(n == 1);
    }
}

} // verus!
