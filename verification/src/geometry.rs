//! Frame geometry: parity adjustment for chroma-subsampled encoders and
//! nearest-neighbor raster normalization.
//!
//! A raster is an RGBA byte buffer: row-major, 4 bytes per pixel, no stride
//! padding, so a `w`-by-`h` raster holds exactly `w * h * 4` bytes.

use vstd::prelude::*;
use vstd::arithmetic::mul::{lemma_mul_inequality, lemma_mul_nonnegative};
use vstd::arithmetic::div_mod::lemma_div_pos_is_pos;
use vstd::slice::slice_to_vec;

verus! {

/// Smallest even number at or above `n`.
pub open spec fn even_up(n: int) -> int {
    if n % 2 == 0 {
        n
    } else {
        n + 1
    }
}

/// Largest even number at or below `n`.
pub open spec fn even_down(n: int) -> int {
    if n % 2 == 0 {
        n
    } else {
        n - 1
    }
}

/// Round a dimension up to the next even value.
pub fn round_up_even(n: usize) -> (r: usize)
    requires
        n < usize::MAX,
    ensures
        r == even_up(n as int),
        r % 2 == 0,
{
    if n % 2 == 0 {
        n
    } else {
        n + 1
    }
}

/// Round a dimension down to the previous even value.
pub fn round_down_even(n: usize) -> (r: usize)
    ensures
        r == even_down(n as int),
        r % 2 == 0,
{
    if n % 2 == 0 {
        n
    } else {
        n - 1
    }
}

/// Flat index of byte `c` of the pixel at column `x`, row `y` in a raster
/// `w` pixels wide.
pub open spec fn pix(y: int, x: int, c: int, w: int) -> int {
    y * (w * 4) + 4 * x + c
}

/// Nearest-neighbor source coordinate for destination coordinate `d`, scaling
/// a source extent `s_dim` onto a destination extent `d_dim`; the quotient is
/// clamped into the source range.
pub open spec fn nn_index(d: int, s_dim: int, d_dim: int) -> int {
    let q = d * s_dim / d_dim;
    if q <= s_dim - 1 {
        q
    } else {
        s_dim - 1
    }
}

/// `dst` (of dimensions `dw` by `dh`) is the nearest-neighbor resampling of
/// `src` (of dimensions `sw` by `sh`): every destination byte is copied from
/// the source pixel whose coordinates scale down from the destination's.
pub open spec fn nn_resized(src: Seq<u8>, dst: Seq<u8>, sw: int, sh: int, dw: int, dh: int) -> bool {
    forall|y: int, x: int, c: int|
        0 <= y < dh && 0 <= x < dw && 0 <= c < 4 ==> #[trigger] dst[pix(y, x, c, dw)] == src[pix(
            nn_index(y, sh, dh),
            nn_index(x, sw, dw),
            c,
            sw,
        )]
}

/// The nearest-neighbor coordinate always lands inside the source extent.
pub proof fn lemma_nn_index_in_range(d: int, s_dim: int, d_dim: int)
    requires
        0 <= d,
        s_dim >= 1,
        d_dim >= 1,
    ensures
        0 <= nn_index(d, s_dim, d_dim) < s_dim,
{
    lemma_mul_nonnegative(d, s_dim);
    if d * s_dim > 0 {
        lemma_div_pos_is_pos(d * s_dim, d_dim);
    }
}

/// Nearest-neighbor source coordinate, computed without overflow.
fn nn_coord(d: usize, s_dim: usize, d_dim: usize) -> (r: usize)
    requires
        s_dim >= 1,
        d_dim >= 1,
    ensures
        r == nn_index(d as int, s_dim as int, d_dim as int),
        r < s_dim,
{
    let du = d as u128;
    let su = s_dim as u128;
    proof {
        assert(du * su <= 0xffff_ffff_ffff_ffffu128 * 0xffff_ffff_ffff_ffffu128)
            by (nonlinear_arith)
            requires
                du <= 0xffff_ffff_ffff_ffffu128,
                su <= 0xffff_ffff_ffff_ffffu128,
        ;
    }
    let q: u128 = du * su / (d_dim as u128);
    if q <= (s_dim - 1) as u128 {
        q as usize
    } else {
        s_dim - 1
    }
}

/// All-zero raster of the requested dimensions.
fn zero_raster(w: usize, h: usize) -> (r: Vec<u8>)
    requires
        w * h * 4 <= usize::MAX,
    ensures
        r@.len() == w * h * 4,
        forall|i: int| 0 <= i < r@.len() ==> r@[i] == 0u8,
{
    proof {
        assert(w * h <= w * h * 4 <= usize::MAX) by (nonlinear_arith)
            requires
                w * h * 4 <= usize::MAX,
        ;
    }
    let n: usize = w * h * 4;
    let mut r: Vec<u8> = Vec::new();
    let mut i: usize = 0;
    while i < n
        invariant
            i <= n,
            r@.len() == i,
            forall|j: int| 0 <= j < i ==> r@[j] == 0u8,
        decreases n - i,
    {
        r.push(0u8);
        i = i + 1;
    }
    r
}

/// Copy one destination row of nearest-neighbor samples onto the end of `dst`.
fn push_nn_row(dst: &mut Vec<u8>, src: &[u8], sy: usize, sw: usize, sh: usize, dw: usize)
    requires
        sw >= 1,
        sh >= 1,
        dw >= 1,
        sy < sh,
        src@.len() == sw * sh * 4,
        sw * sh * 4 <= usize::MAX,
        old(dst)@.len() + dw * 4 <= usize::MAX,
    ensures
        final(dst)@.len() == old(dst)@.len() + dw * 4,
        final(dst)@.subrange(0, old(dst)@.len() as int) == old(dst)@,
        forall|x: int, c: int|
            0 <= x < dw && 0 <= c < 4 ==> final(dst)@[old(dst)@.len() + 4 * x + c] == src@[pix(
                sy as int,
                nn_index(x, sw as int, dw as int),
                c,
                sw as int,
            )],
{
    let base = dst.len();
    proof {
        lemma_mul_inequality(sy as int, sh as int - 1, sw as int);
        assert((sh - 1) * sw < sw * sh * 4) by (nonlinear_arith)
            requires
                sh >= 1,
                sw >= 1,
        ;
    }
    let src_row = sy * sw;
    let mut x: usize = 0;
    while x < dw
        invariant
            sw >= 1,
            sh >= 1,
            dw >= 1,
            sy < sh,
            x <= dw,
            src_row == sy * sw,
            src_row <= (sh - 1) * sw,
            src@.len() == sw * sh * 4,
            sw * sh * 4 <= usize::MAX,
            base + dw * 4 <= usize::MAX,
            dst@.len() == base + x * 4,
            dst@.subrange(0, base as int) == old(dst)@,
            base == old(dst)@.len(),
            forall|xx: int, c: int|
                0 <= xx < x && 0 <= c < 4 ==> dst@[base + 4 * xx + c] == src@[pix(
                    sy as int,
                    nn_index(xx, sw as int, dw as int),
                    c,
                    sw as int,
                )],
        decreases dw - x,
    {
        let sx = nn_coord(x, sw, dw);
        proof {
            assert(x * 4 + 4 <= dw * 4) by (nonlinear_arith)
                requires
                    x < dw,
            ;
            assert((sh - 1) * sw + sx < sh * sw) by (nonlinear_arith)
                requires
                    sx < sw,
                    sh >= 1,
            ;
            assert((src_row + sx) * 4 + 3 < sw * sh * 4) by (nonlinear_arith)
                requires
                    src_row + sx < sh * sw,
            ;
            assert(pix(sy as int, sx as int, 0, sw as int) == (src_row + sx) * 4) by (nonlinear_arith)
                requires
                    src_row == sy * sw,
            ;
        }
        let sp = (src_row + sx) * 4;
        let ghost pre = dst@;
        dst.push(src[sp]);
        dst.push(src[sp + 1]);
        dst.push(src[sp + 2]);
        dst.push(src[sp + 3]);
        proof {
            assert(dst@.subrange(0, base as int) =~= pre.subrange(0, base as int));
            assert forall|xx: int, c: int| 0 <= xx < x + 1 && 0 <= c < 4 implies dst@[base + 4 * xx
                + c] == src@[pix(sy as int, nn_index(xx, sw as int, dw as int), c, sw as int)] by {
                if xx < x {
                    assert(pre[base + 4 * xx + c] == src@[pix(
                        sy as int,
                        nn_index(xx, sw as int, dw as int),
                        c,
                        sw as int,
                    )]);
                    assert(dst@[base + 4 * xx + c] == pre[base + 4 * xx + c]);
                } else {
                    assert(dst@[base + 4 * x + c] == src@[sp + c]);
                    assert(sp + c == pix(sy as int, sx as int, c, sw as int)) by (nonlinear_arith)
                        requires
                            sp == (src_row + sx) * 4,
                            src_row == sy * sw,
                            0 <= c < 4,
                    ;
                }
            }
        }
        x = x + 1;
    }
}

/// Nearest-neighbor resize of an RGBA raster to a fixed size.
///
/// Destination pixel `(x, y)` copies source pixel
/// `(min(x * sw / dw, sw - 1), min(y * sh / dh, sh - 1))`. A degenerate source
/// (`sw == 0` or `sh == 0`) yields an all-zero buffer of the target size.
pub fn resize_rgba_nn(src: &[u8], sw: usize, sh: usize, dw: usize, dh: usize) -> (dst: Vec<u8>)
    requires
        sw >= 1 && sh >= 1 ==> src@.len() == sw * sh * 4,
        dw * dh * 4 <= usize::MAX,
    ensures
        dst@.len() == dw * dh * 4,
        sw == 0 || sh == 0 ==> forall|i: int| 0 <= i < dst@.len() ==> dst@[i] == 0u8,
        sw >= 1 && sh >= 1 ==> nn_resized(src@, dst@, sw as int, sh as int, dw as int, dh as int),
{
    if sw == 0 || sh == 0 {
        return zero_raster(dw, dh);
    }
    if dw == 0 || dh == 0 {
        let dst = zero_raster(dw, dh);
        proof {
            assert(dw * dh * 4 == 0) by (nonlinear_arith)
                requires
                    dw == 0 || dh == 0,
            ;
        }
        return dst;
    }
    let src_len = src.len();
    assert(src_len == sw * sh * 4);
    let mut dst: Vec<u8> = Vec::new();
    let mut y: usize = 0;
    while y < dh
        invariant
            sw >= 1,
            sh >= 1,
            dw >= 1,
            dh >= 1,
            y <= dh,
            src@.len() == sw * sh * 4,
            sw * sh * 4 <= usize::MAX,
            dw * dh * 4 <= usize::MAX,
            dst@.len() == y * (dw * 4),
            forall|yy: int, xx: int, c: int|
                0 <= yy < y && 0 <= xx < dw && 0 <= c < 4 ==> #[trigger] dst@[pix(yy, xx, c,
                dw as int)] == src@[pix(
                    nn_index(yy, sh as int, dh as int),
                    nn_index(xx, sw as int, dw as int),
                    c,
                    sw as int,
                )],
        decreases dh - y,
    {
        let sy = nn_coord(y, sh, dh);
        proof {
            assert((y + 1) * (dw * 4) <= dh * (dw * 4) && y * (dw * 4) + dw * 4 == (y + 1) * (dw
                * 4) && dh * (dw * 4) == dw * dh * 4) by (nonlinear_arith)
                requires
                    y < dh,
            ;
        }
        let ghost pre = dst@;
        push_nn_row(&mut dst, src, sy, sw, sh, dw);
        proof {
            assert forall|yy: int, xx: int, c: int|
                0 <= yy < y + 1 && 0 <= xx < dw && 0 <= c < 4 implies #[trigger] dst@[pix(yy, xx, c,
                dw as int)] == src@[pix(
                nn_index(yy, sh as int, dh as int),
                nn_index(xx, sw as int, dw as int),
                c,
                sw as int,
            )] by {
                assert(0 <= pix(yy, xx, c, dw as int) && pix(yy, xx, c, dw as int) < pre.len() + dw
                    * 4) by (nonlinear_arith)
                    requires
                        0 <= yy <= y,
                        0 <= xx < dw,
                        0 <= c < 4,
                        pre.len() == y * (dw * 4),
                ;
                if yy < y {
                    assert(pix(yy, xx, c, dw as int) < pre.len()) by (nonlinear_arith)
                        requires
                            0 <= yy < y,
                            0 <= xx < dw,
                            0 <= c < 4,
                            pre.len() == y * (dw * 4),
                    ;
                    assert(dst@[pix(yy, xx, c, dw as int)] == dst@.subrange(0, pre.len() as int)[pix(
                        yy,
                        xx,
                        c,
                        dw as int,
                    )]);
                    assert(pre[pix(yy, xx, c, dw as int)] == src@[pix(
                        nn_index(yy, sh as int, dh as int),
                        nn_index(xx, sw as int, dw as int),
                        c,
                        sw as int,
                    )]);
                } else {
                    assert(pix(y as int, xx, c, dw as int) == pre.len() + 4 * xx + c)
                        by (nonlinear_arith)
                        requires
                            pre.len() == y * (dw * 4),
                    ;
                    assert(dst@[pre.len() + 4 * xx + c] == src@[pix(
                        sy as int,
                        nn_index(xx, sw as int, dw as int),
                        c,
                        sw as int,
                    )]);
                }
            }
        }
        y = y + 1;
    }
    proof {
        assert(dh * (dw * 4) == dw * dh * 4) by (nonlinear_arith);
    }
    dst
}

/// Normalize a raster to the target geometry: a raster already of that
/// geometry is returned unchanged; any other is resampled nearest-neighbor,
/// and a degenerate source yields an all-zero raster of the target size.
pub fn normalize_frame(buffer: Vec<u8>, w: usize, h: usize, tw: usize, th: usize) -> (r: Vec<u8>)
    requires
        buffer@.len() == w * h * 4,
        tw * th * 4 <= usize::MAX,
    ensures
        r@.len() == tw * th * 4,
        w == tw && h == th ==> r@ == buffer@,
        !(w == tw && h == th) && w >= 1 && h >= 1 ==> nn_resized(
            buffer@,
            r@,
            w as int,
            h as int,
            tw as int,
            th as int,
        ),
        !(w == tw && h == th) && (w == 0 || h == 0) ==> forall|i: int|
            0 <= i < r@.len() ==> r@[i] == 0u8,
{
    if w == tw && h == th {
        buffer
    } else {
        resize_rgba_nn(buffer.as_slice(), w, h, tw, th)
    }
}

/// A stated window dimension below 2 is replaced by 2 before parity adjustment.
pub open spec fn hint_base(hint: int) -> int {
    if hint >= 2 {
        hint
    } else {
        2
    }
}

/// Fix the target geometry of a session: the dimensions of the first
/// successful capture, or the stored window dimensions when capture missed,
/// each rounded up to the next even value.
pub fn resolve_target_geometry(capture_dims: Option<(usize, usize)>, hint_w: i32, hint_h: i32) -> (r:
    (usize, usize))
    requires
        capture_dims matches Some(d) ==> d.0 < usize::MAX && d.1 < usize::MAX,
    ensures
        match capture_dims {
            Some(d) => r.0 == even_up(d.0 as int) && r.1 == even_up(d.1 as int),
            None => r.0 == even_up(hint_base(hint_w as int)) && r.1 == even_up(
                hint_base(hint_h as int),
            ),
        },
        r.0 % 2 == 0,
        r.1 % 2 == 0,
{
    match capture_dims {
        Some((w, h)) => (round_up_even(w), round_up_even(h)),
        None => {
            let bw: usize = if hint_w >= 2 {
                hint_w as usize
            } else {
                2
            };
            let bh: usize = if hint_h >= 2 {
                hint_h as usize
            } else {
                2
            };
            (round_up_even(bw), round_up_even(bh))
        },
    }
}

/// Shrink a preview raster so its width does not exceed `max_width`, keeping
/// the aspect ratio; a raster that is already narrow enough is returned
/// unchanged.
pub fn downscale_image(buffer: &[u8], width: usize, height: usize, max_width: usize) -> (r: (
    Vec<u8>,
    usize,
    usize,
))
    requires
        width >= 1 && height >= 1 ==> buffer@.len() == width * height * 4,
    ensures
        width <= max_width ==> r.0@ == buffer@ && r.1 == width && r.2 == height,
        width > max_width ==> {
            &&& r.1 == max_width
            &&& r.2 == height as int * max_width as int / width as int
            &&& r.0@.len() == r.1 * r.2 * 4
            &&& (height >= 1 ==> nn_resized(
                buffer@,
                r.0@,
                width as int,
                height as int,
                r.1 as int,
                r.2 as int,
            ))
        },
{
    if width <= max_width {
        return (slice_to_vec(buffer), width, height);
    }
    let hu = height as u128;
    let mu = max_width as u128;
    proof {
        assert(hu * mu <= 0xffff_ffff_ffff_ffffu128 * 0xffff_ffff_ffff_ffffu128)
            by (nonlinear_arith)
            requires
                hu <= 0xffff_ffff_ffff_ffffu128,
                mu <= 0xffff_ffff_ffff_ffffu128,
        ;
        assert(hu as int * mu as int / (width as int) <= hu as int) by (nonlinear_arith)
            requires
                mu as int <= width as int,
                width >= 1,
                0 <= hu as int * mu as int,
        ;
        lemma_mul_nonnegative(hu as int, mu as int);
    }
    let new_height = (hu * mu / (width as u128)) as usize;
    if height == 0 {
        let dst = resize_rgba_nn(buffer, width, height, max_width, new_height);
        return (dst, max_width, new_height);
    }
    let buf_len = buffer.len();
    assert(buf_len == width * height * 4);
    proof {
        assert(max_width * new_height * 4 <= width * height * 4) by (nonlinear_arith)
            requires
                max_width < width,
                new_height <= height,
        ;
    }
    let dst = resize_rgba_nn(buffer, width, height, max_width, new_height);
    (dst, max_width, new_height)
}

/// Every pixel of the `w`-by-`h` raster `r` carries the 4-byte value `color`.
pub open spec fn is_solid(r: Seq<u8>, w: int, h: int, color: Seq<u8>) -> bool {
    forall|y: int, x: int, c: int|
        0 <= y < h && 0 <= x < w && 0 <= c < 4 ==> #[trigger] r[pix(y, x, c, w)] == color[c]
}

/// Nearest-neighbor resampling of a solid-color raster, to any target size,
/// is solid in the identical color: every sample is copied, never blended.
pub proof fn lemma_nn_resize_preserves_solid(
    src: Seq<u8>,
    dst: Seq<u8>,
    sw: int,
    sh: int,
    dw: int,
    dh: int,
    color: Seq<u8>,
)
    requires
        sw >= 1,
        sh >= 1,
        nn_resized(src, dst, sw, sh, dw, dh),
        is_solid(src, sw, sh, color),
    ensures
        is_solid(dst, dw, dh, color),
{
    assert forall|y: int, x: int, c: int|
        0 <= y < dh && 0 <= x < dw && 0 <= c < 4 implies #[trigger] dst[pix(y, x, c, dw)]
        == color[c] by {
        lemma_nn_index_in_range(y, sh, dh);
        lemma_nn_index_in_range(x, sw, dw);
        assert(dst[pix(y, x, c, dw)] == src[pix(
            nn_index(y, sh, dh),
            nn_index(x, sw, dw),
            c,
            sw,
        )]);
    }
}

} // verus!
