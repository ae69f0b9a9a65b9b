//! Transforms over RGBA pixel buffers.
//!
//! A pixel buffer is a flat byte sequence with four bytes per pixel, in the
//! order red, green, blue, alpha. Pixels are stored row by row, so the pixel
//! at column `x` of row `y` in a frame of width `w` starts at byte
//! `4 * (y * w + x)`. All functions here are pure and total: a buffer that
//! does not match the stated dimensions is never read out of bounds.

use vstd::arithmetic::div_mod::{
    lemma_div_is_ordered, lemma_div_multiples_vanish, lemma_fundamental_div_mod_converse,
};
use vstd::prelude::*;

verus! {

/// The averaged channel difference that a pixel must exceed to count as
/// changed.
pub const PIXEL_SENSITIVITY: u32 = 20;

/// The byte at index `i` of the colour-inverted image of `buf`: alpha bytes
/// are kept, colour bytes are mirrored within `0..=255`.
pub open spec fn inverted_byte(buf: Seq<u8>, i: int) -> u8 {
    if i % 4 == 3 {
        buf[i]
    } else {
        (255 - buf[i]) as u8
    }
}

/// The colour-inverted image of `buf`. It covers the whole pixels of `buf`
/// only: up to three trailing bytes that form no pixel are left out.
pub open spec fn inverted(buf: Seq<u8>) -> Seq<u8> {
    Seq::new(4 * (buf.len() / 4), |i: int| inverted_byte(buf, i))
}

/// Inverts the colour channels of every whole pixel of `data` and keeps its
/// alpha channel. Trailing bytes that form no whole pixel are dropped.
pub fn invert(data: &[u8]) -> (out: Vec<u8>)
    ensures
        out@ == inverted(data@),
        out.len() == 4 * (data.len() / 4),
{
    let n = data.len();
    let mut out: Vec<u8> = Vec::with_capacity(n);
    let mut i: usize = 0;
    while n - i >= 4
        invariant
            n == data.len(),
            i <= n,
            i % 4 == 0,
            out.len() == i,
            forall|j: int| 0 <= j < i ==> #[trigger] out[j] == inverted_byte(data@, j),
        decreases n - i,
    {
        out.push(255 - data[i]);
        out.push(255 - data[i + 1]);
        out.push(255 - data[i + 2]);
        out.push(data[i + 3]);
        i = i + 4;
    }
    assert(out@ =~= inverted(data@));
    out
}

/// Inverting twice gives back every whole pixel of the buffer, and so the
/// buffer itself when its length is a multiple of four; inverting once keeps
/// every alpha byte and yields as many bytes as the whole pixels hold.
pub proof fn lemma_invert_involution(buf: Seq<u8>)
    ensures
        inverted(buf).len() == 4 * (buf.len() / 4),
        forall|i: int|
            0 <= i < inverted(buf).len() && i % 4 == 3 ==> #[trigger] inverted(buf)[i] == buf[i],
        inverted(inverted(buf)) == buf.take(4 * (buf.len() / 4) as int),
        buf.len() % 4 == 0 ==> inverted(inverted(buf)) == buf,
{
    let once = inverted(buf);
    assert(inverted(once) =~= buf.take(4 * (buf.len() / 4) as int));
    if buf.len() % 4 == 0 {
        assert(buf.take(buf.len() as int) =~= buf);
    }
}

/// The distance between two channel values.
pub open spec fn channel_gap(a: u8, b: u8) -> int {
    if a >= b {
        a - b
    } else {
        b - a
    }
}

/// The averaged colour difference of pixel `p` between two buffers: the sum
/// of the gaps of red, green and blue, divided by three and rounded down.
/// Alpha takes no part.
pub open spec fn pixel_delta(prev: Seq<u8>, curr: Seq<u8>, p: int) -> int {
    (channel_gap(prev[4 * p], curr[4 * p]) + channel_gap(prev[4 * p + 1], curr[4 * p + 1])
        + channel_gap(prev[4 * p + 2], curr[4 * p + 2])) / 3
}

/// Whether pixel `p` differs by more than the fixed sensitivity.
pub open spec fn pixel_changed(prev: Seq<u8>, curr: Seq<u8>, p: int) -> bool {
    pixel_delta(prev, curr, p) > PIXEL_SENSITIVITY
}

/// How many of the first `n` pixels are changed.
pub open spec fn changed_pixels(prev: Seq<u8>, curr: Seq<u8>, n: nat) -> nat
    decreases n,
{
    if n == 0 {
        0
    } else {
        changed_pixels(prev, curr, (n - 1) as nat) + if pixel_changed(prev, curr, n - 1) {
            1nat
        } else {
            0nat
        }
    }
}

/// Motion between two frames: the buffers are comparable (of equal length)
/// and the changed pixels among their whole pixels make up more than
/// `threshold` percent of `width * height`. The percentage is compared
/// exactly, without rounding: `100 * changed / (width * height) > threshold`
/// is stated as `100 * changed > threshold * (width * height)`.
pub open spec fn motion_detected(
    prev: Seq<u8>,
    curr: Seq<u8>,
    width: nat,
    height: nat,
    threshold: nat,
) -> bool {
    &&& prev.len() == curr.len()
    &&& 100 * changed_pixels(prev, curr, prev.len() / 4) > threshold * (width * height)
}

/// Reports whether more than `threshold` percent of the `width * height`
/// pixels of a frame changed from `prev` to `curr`. Buffers of different
/// lengths are not comparable and give `false`.
pub fn detect_motion(
    prev: &[u8],
    curr: &[u8],
    width: u32,
    height: u32,
    threshold: u32,
) -> (moved: bool)
    ensures
        moved == motion_detected(prev@, curr@, width as nat, height as nat, threshold as nat),
        prev.len() != curr.len() ==> !moved,
{
    if prev.len() != curr.len() {
        return false;
    }
    let pixels: usize = prev.len() / 4;
    let mut changed: usize = 0;
    let mut p: usize = 0;
    while p < pixels
        invariant
            prev.len() == curr.len(),
            pixels == prev.len() / 4,
            p <= pixels,
            changed <= p,
            changed == changed_pixels(prev@, curr@, p as nat),
        decreases pixels - p,
    {
        let base: usize = 4 * p;
        let dr: u32 = gap(prev[base], curr[base]);
        let dg: u32 = gap(prev[base + 1], curr[base + 1]);
        let db: u32 = gap(prev[base + 2], curr[base + 2]);
        if (dr + dg + db) / 3 > PIXEL_SENSITIVITY {
            changed = changed + 1;
        }
        p = p + 1;
    }
    assert(width * height <= 0xffff_ffff * 0xffff_ffff) by (nonlinear_arith)
        requires
            0 <= width <= 0xffff_ffff,
            0 <= height <= 0xffff_ffff,
    ;
    let area: u128 = (width as u128) * (height as u128);
    assert(threshold * area <= 0xffff_ffff * (0xffff_ffff * 0xffff_ffff)) by (nonlinear_arith)
        requires
            0 <= area <= 0xffff_ffff * 0xffff_ffff,
            0 <= threshold <= 0xffff_ffff,
    ;
    100u128 * (changed as u128) > (threshold as u128) * area
}

/// The distance between two channel values.
fn gap(a: u8, b: u8) -> (d: u32)
    ensures
        d == channel_gap(a, b),
{
    if a >= b {
        (a - b) as u32
    } else {
        (b - a) as u32
    }
}

/// Identical frames show no motion, whatever the dimensions and the
/// threshold; and frames of different lengths show none either.
pub proof fn lemma_still_frames(
    prev: Seq<u8>,
    curr: Seq<u8>,
    width: nat,
    height: nat,
    threshold: nat,
)
    ensures
        !motion_detected(prev, prev, width, height, threshold),
        prev.len() != curr.len() ==> !motion_detected(prev, curr, width, height, threshold),
{
    lemma_same_frame_unchanged(prev, prev.len() / 4);
    assert(threshold * (width * height) >= 0) by (nonlinear_arith);
}

/// No pixel of a frame differs from itself.
proof fn lemma_same_frame_unchanged(buf: Seq<u8>, n: nat)
    ensures
        changed_pixels(buf, buf, n) == 0,
    decreases n,
{
    if n > 0 {
        lemma_same_frame_unchanged(buf, (n - 1) as nat);
    }
}

/// Whether a buffer of `len` bytes holds a whole frame of the given size.
pub open spec fn frame_fits(len: nat, width: nat, height: nat) -> bool {
    4 * (width * height) <= len
}

/// Whether column `x` of row `y` lies off the one-pixel border of the frame.
pub open spec fn is_interior(x: int, y: int, width: nat, height: nat) -> bool {
    1 <= x < width - 1 && 1 <= y < height - 1
}

/// The red channel of the pixel at column `x` of row `y`.
pub open spec fn red(buf: Seq<u8>, width: nat, x: int, y: int) -> int {
    buf[4 * (y * width + x)] as int
}

/// The horizontal Sobel gradient of the red channel at `(x, y)`.
pub open spec fn gradient_x(buf: Seq<u8>, width: nat, x: int, y: int) -> int {
    -red(buf, width, x - 1, y - 1) - 2 * red(buf, width, x - 1, y) - red(buf, width, x - 1, y + 1)
        + red(buf, width, x + 1, y - 1) + 2 * red(buf, width, x + 1, y) + red(
        buf,
        width,
        x + 1,
        y + 1,
    )
}

/// The vertical Sobel gradient of the red channel at `(x, y)`.
pub open spec fn gradient_y(buf: Seq<u8>, width: nat, x: int, y: int) -> int {
    -red(buf, width, x - 1, y - 1) - 2 * red(buf, width, x, y - 1) - red(buf, width, x + 1, y - 1)
        + red(buf, width, x - 1, y + 1) + 2 * red(buf, width, x, y + 1) + red(
        buf,
        width,
        x + 1,
        y + 1,
    )
}

/// Whether `g` is the gradient magnitude of `(gx, gy)` as a byte: the square
/// root of `gx * gx + gy * gy`, rounded down and clamped to 255.
pub open spec fn is_magnitude(g: int, gx: int, gy: int) -> bool {
    &&& 0 <= g <= 255
    &&& g * g <= gx * gx + gy * gy
    &&& g < 255 ==> gx * gx + gy * gy < (g + 1) * (g + 1)
}

/// The gradient magnitude of `(gx, gy)` as a byte.
pub open spec fn magnitude(gx: int, gy: int) -> int {
    choose|g: int| is_magnitude(g, gx, gy)
}

/// Only one value is the magnitude of a gradient.
pub proof fn lemma_magnitude_unique(g: int, gx: int, gy: int)
    requires
        is_magnitude(g, gx, gy),
    ensures
        magnitude(gx, gy) == g,
{
    let m = magnitude(gx, gy);
    let n = gx * gx + gy * gy;
    assert(is_magnitude(m, gx, gy));
    if m < g {
        assert((m + 1) * (m + 1) <= g * g) by (nonlinear_arith)
            requires
                0 <= m < g,
        ;
    } else if g < m {
        assert((g + 1) * (g + 1) <= m * m) by (nonlinear_arith)
            requires
                0 <= g < m,
        ;
    }
}

/// The byte at index `i` of the edge image of `buf`. Inside the frame and off
/// its border, the colour bytes hold the gradient magnitude of the red
/// channel and the alpha byte is kept. Everywhere else the byte is zero: on
/// the border, behind the frame, and throughout when the buffer is too short
/// for the frame.
pub open spec fn edge_byte(buf: Seq<u8>, width: nat, height: nat, i: int) -> u8 {
    let p = i / 4;
    let x = p % (width as int);
    let y = p / (width as int);
    if width >= 3 && frame_fits(buf.len(), width, height) && is_interior(x, y, width, height) {
        if i % 4 == 3 {
            buf[i]
        } else {
            magnitude(gradient_x(buf, width, x, y), gradient_y(buf, width, x, y)) as u8
        }
    } else {
        0
    }
}

/// The edge image of `buf`, of the same length as `buf`.
pub open spec fn edge_map(buf: Seq<u8>, width: nat, height: nat) -> Seq<u8> {
    Seq::new(buf.len(), |i: int| edge_byte(buf, width, height, i))
}

/// A pixel of the frame lies inside the frame's bytes, and its index gives
/// back its column and row.
pub proof fn lemma_pixel_position(x: int, y: int, width: nat, height: nat)
    requires
        0 <= x < width,
        0 <= y < height,
    ensures
        0 <= y * width + x < width * height,
        (y * width + x) % (width as int) == x,
        (y * width + x) / (width as int) == y,
{
    assert(y * width + x < width * height && y * width >= 0) by (nonlinear_arith)
        requires
            0 <= x < width,
            0 <= y < height,
    ;
    assert(y * width + x == width * y + x) by (nonlinear_arith);
    lemma_fundamental_div_mod_converse(y * width + x, width as int, y, x);
}

/// What the edge image holds at channel `c` of the pixel at `(x, y)` of a
/// frame that fits in the buffer: zero on the one-pixel border; off the
/// border the alpha byte of the buffer, and in each colour channel the
/// gradient magnitude. The edge image is as long as the buffer.
pub proof fn lemma_edge_map_pixel(buf: Seq<u8>, width: nat, height: nat, x: int, y: int, c: int)
    requires
        frame_fits(buf.len(), width, height),
        0 <= x < width,
        0 <= y < height,
        0 <= c < 4,
    ensures
        edge_map(buf, width, height).len() == buf.len(),
        0 <= 4 * (y * width + x) + c < buf.len(),
        (x == 0 || y == 0 || x == width - 1 || y == height - 1) ==> edge_map(buf, width, height)[4
            * (y * width + x) + c] == 0,
        is_interior(x, y, width, height) && c == 3 ==> edge_map(buf, width, height)[4 * (y * width
            + x) + 3] == buf[4 * (y * width + x) + 3],
        is_interior(x, y, width, height) && c < 3 ==> edge_map(buf, width, height)[4 * (y * width
            + x) + c] == magnitude(gradient_x(buf, width, x, y), gradient_y(buf, width, x, y)),
{
    lemma_pixel_position(x, y, width, height);
    let i = 4 * (y * width + x) + c;
    assert(i / 4 == y * width + x);
    assert(i % 4 == c);
    if is_interior(x, y, width, height) && c < 3 {
        let gx = gradient_x(buf, width, x, y);
        let gy = gradient_y(buf, width, x, y);
        lemma_magnitude_exists(gx, gy);
    }
}

/// A buffer that is too short for the frame has an all-zero edge image.
pub proof fn lemma_edge_map_short_buffer(buf: Seq<u8>, width: nat, height: nat, i: int)
    requires
        !frame_fits(buf.len(), width, height),
        0 <= i < buf.len(),
    ensures
        edge_map(buf, width, height)[i] == 0,
{
}

/// Every gradient has a magnitude.
pub proof fn lemma_magnitude_exists(gx: int, gy: int)
    ensures
        is_magnitude(magnitude(gx, gy), gx, gy),
{
    let n = gx * gx + gy * gy;
    assert(n >= 0) by (nonlinear_arith)
        requires
            n == gx * gx + gy * gy,
    ;
    lemma_root_below(n, 255);
    let g = choose|g: int|
        0 <= g <= 255 && #[trigger] (g * g) <= n && (g < 255 ==> n < (g + 1) * (g + 1));
    assert(is_magnitude(g, gx, gy));
}

/// Among `0..=top` there is a number whose square does not exceed `n` and
/// which is either `top` or has a successor whose square exceeds `n`.
proof fn lemma_root_below(n: int, top: int)
    requires
        n >= 0,
        top >= 0,
    ensures
        exists|g: int|
            0 <= g <= top && #[trigger] (g * g) <= n && (g < top ==> n < (g + 1) * (g + 1)),
    decreases top,
{
    if top * top <= n {
        assert(0 <= top <= top && (top * top) <= n);
    } else {
        assert(top > 0) by (nonlinear_arith)
            requires
                top >= 0,
                top * top > n,
                n >= 0,
        ;
        lemma_root_below(n, top - 1);
        let g = choose|g: int|
            0 <= g <= top - 1 && #[trigger] (g * g) <= n && (g < top - 1 ==> n < (g + 1) * (g
                + 1));
        assert(0 <= g <= top && (g * g) <= n && (g < top ==> n < (g + 1) * (g + 1)));
    }
}

/// A pixel index behind the frame lies in no row of the frame.
proof fn lemma_behind_frame(q: int, width: nat, height: nat)
    requires
        width > 0,
        q >= width * height,
    ensures
        q / (width as int) >= height,
{
    lemma_div_is_ordered((width * height) as int, q, width as int);
    lemma_div_multiples_vanish(height as int, width as int);
}

/// The gradient magnitude of `(gx, gy)` as a byte.
fn gradient_magnitude(gx: i32, gy: i32) -> (g: u8)
    requires
        -1020 <= gx <= 1020,
        -1020 <= gy <= 1020,
    ensures
        g == magnitude(gx as int, gy as int),
{
    assert(0 <= gx * gx <= 1040400) by (nonlinear_arith)
        requires
            -1020 <= gx <= 1020,
    ;
    assert(0 <= gy * gy <= 1040400) by (nonlinear_arith)
        requires
            -1020 <= gy <= 1020,
    ;
    let n: u32 = (gx * gx + gy * gy) as u32;
    let mut lo: u32 = 0;
    let mut hi: u32 = 256;
    while hi - lo > 1
        invariant
            0 <= lo < hi <= 256,
            lo * lo <= n,
            hi <= 255 ==> n < hi * hi,
        decreases hi - lo,
    {
        let mid: u32 = (lo + hi) / 2;
        assert(mid * mid <= 65536) by (nonlinear_arith)
            requires
                0 <= mid <= 256,
        ;
        if mid * mid <= n {
            lo = mid;
        } else {
            hi = mid;
        }
    }
    proof {
        assert(lo * lo >= 0) by (nonlinear_arith);
        lemma_magnitude_unique(lo as int, gx as int, gy as int);
    }
    lo as u8
}

/// The red channel of the pixel at column `x` of row `y`.
fn red_at(data: &[u8], width: usize, height: usize, x: usize, y: usize) -> (r: i32)
    requires
        x < width,
        y < height,
        4 * (width * height) <= data.len(),
    ensures
        r == red(data@, width as nat, x as int, y as int),
{
    proof {
        lemma_pixel_position(x as int, y as int, width as nat, height as nat);
    }
    data[4 * (y * width + x)] as i32
}

/// Finds edges with a 3x3 Sobel operator on the red channel.
///
/// The result has the length of `data`. Where `data` holds a whole frame of
/// `width * height` pixels, each pixel off the one-pixel border gets the
/// gradient magnitude in its three colour channels and keeps its alpha
/// channel; the border and any bytes behind the frame are zero. Where `data`
/// is too short for such a frame, the whole result is zero.
pub fn detect_edges(data: &[u8], width: u32, height: u32) -> (out: Vec<u8>)
    ensures
        out@ == edge_map(data@, width as nat, height as nat),
        out.len() == data.len(),
{
    let n = data.len();
    let mut out: Vec<u8> = vec![0u8; n];
    let ghost wn = width as nat;
    let ghost hn = height as nat;
    if width < 3 || height < 3 {
        proof {
            assert(out@ =~= edge_map(data@, wn, hn));
        }
        return out;
    }
    assert(width * height <= 0xffff_ffff * 0xffff_ffff) by (nonlinear_arith)
        requires
            0 <= width <= 0xffff_ffff,
            0 <= height <= 0xffff_ffff,
    ;
    let area: u128 = (width as u128) * (height as u128);
    if 4 * area > n as u128 {
        assert(out@ =~= edge_map(data@, wn, hn));
        return out;
    }
    let w: usize = width as usize;
    let h: usize = height as usize;
    let total: usize = area as usize;
    let mut p: usize = 0;
    let mut x: usize = 0;
    let mut y: usize = 0;
    while p < total
        invariant
            n == data.len(),
            out.len() == n,
            w == wn,
            h == hn,
            w >= 3,
            h >= 3,
            total == w * h,
            4 * total <= n,
            p <= total,
            p == y * w + x,
            x < w,
            y <= h,
            forall|i: int|
                0 <= i < n ==> #[trigger] out[i] == if i < 4 * p {
                    edge_byte(data@, wn, hn, i)
                } else {
                    0
                },
        decreases total - p,
    {
        proof {
            if y >= h {
                assert(y * w + x >= w * h) by (nonlinear_arith)
                    requires
                        y >= h,
                        x >= 0,
                        w >= 0,
                ;
            }
            lemma_pixel_position(x as int, y as int, wn, hn);
        }
        let base: usize = 4 * p;
        if 1 <= x && x < w - 1 && 1 <= y && y < h - 1 {
            let tl = red_at(data, w, h, x - 1, y - 1);
            let t = red_at(data, w, h, x, y - 1);
            let tr = red_at(data, w, h, x + 1, y - 1);
            let l = red_at(data, w, h, x - 1, y);
            let r = red_at(data, w, h, x + 1, y);
            let bl = red_at(data, w, h, x - 1, y + 1);
            let b = red_at(data, w, h, x, y + 1);
            let br = red_at(data, w, h, x + 1, y + 1);
            let gx: i32 = -tl - 2 * l - bl + tr + 2 * r + br;
            let gy: i32 = -tl - 2 * t - tr + bl + 2 * b + br;
            let g: u8 = gradient_magnitude(gx, gy);
            out.set(base, g);
            out.set(base + 1, g);
            out.set(base + 2, g);
            out.set(base + 3, data[base + 3]);
        }
        proof {
            assert forall|i: int| 0 <= i < n implies #[trigger] out[i] == if i < 4 * (p + 1) {
                edge_byte(data@, wn, hn, i)
            } else {
                0
            } by {
                if 4 * p <= i < 4 * (p + 1) {
                    assert(i / 4 == p);
                }
            }
        }
        p = p + 1;
        if x + 1 == w {
            assert((y + 1) * w == y * w + w) by (nonlinear_arith);
            x = 0;
            y = y + 1;
        } else {
            x = x + 1;
        }
    }
    proof {
        assert forall|i: int| 4 * total <= i < n implies edge_byte(data@, wn, hn, i) == 0 by {
            let q = i / 4;
            lemma_behind_frame(q, wn, hn);
        }
        assert(out@ =~= edge_map(data@, wn, hn));
    }
    out
}

} // verus!
