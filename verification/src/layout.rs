//! Integer geometry for fitting a photo onto a canvas.
//!
//! All sizes are pixel counts. The scale factor between a source image and a
//! canvas is a ratio of two integers, so the sizes below are computed exactly
//! with integer arithmetic instead of through a rounded floating scale.
use vstd::prelude::*;

verus! {

/// Smallest integer not below `a / b` (for `a >= 0`, `b > 0`).
pub open spec fn ceil_div(a: int, b: int) -> int {
    (a + b - 1) / b
}

/// `a / b` rounded to the nearest integer, halves away from zero (for `a >= 0`, `b > 0`).
pub open spec fn round_div(a: int, b: int) -> int {
    (2 * a + b) / (2 * b)
}

/// A dimension with zero replaced by one.
pub open spec fn at_least_one(x: int) -> int {
    if x < 1 {
        1
    } else {
        x
    }
}

/// `x` limited to the range `1 ..= max_dim`.
pub open spec fn clamp_dim(x: int, max_dim: int) -> int {
    if x < 1 {
        1
    } else if x > max_dim {
        max_dim
    } else {
        x
    }
}

/// Size of the source scaled by the larger of the two canvas/source ratios,
/// each side rounded up: the smallest scaled copy that covers the canvas.
pub open spec fn cover_size(cw: int, ch: int, iw: int, ih: int) -> (int, int) {
    if cw * ih >= ch * iw {
        (cw, ceil_div(ih * cw, iw))
    } else {
        (ceil_div(iw * ch, ih), ch)
    }
}

/// Size of the source scaled by the smaller of the two canvas/source ratios,
/// each side rounded to nearest: the largest scaled copy that fits in the canvas.
pub open spec fn contain_size(cw: int, ch: int, iw: int, ih: int) -> (int, int) {
    if cw * ih <= ch * iw {
        (cw, round_div(ih * cw, iw))
    } else {
        (round_div(iw * ch, ih), ch)
    }
}

proof fn lemma_ceil_div_bounds(a: int, b: int)
    requires
        a >= 0,
        b > 0,
    ensures
        ceil_div(a, b) * b >= a,
        ceil_div(a, b) >= 0,
{
    assert(((a + b - 1) / b) * b >= a) by (nonlinear_arith)
        requires
            a >= 0,
            b > 0,
    {
        let q = (a + b - 1) / b;
        let r = (a + b - 1) % b;
        assert(q * b + r == a + b - 1);
        assert(r < b);
    }
    assert((a + b - 1) / b >= 0) by (nonlinear_arith)
        requires
            a >= 0,
            b > 0,
    ;
}

/// Scales `src` so that it fully covers `canvas`, keeping its aspect ratio;
/// each side is then limited to `1 ..= max_dim`. Zero sizes count as one.
pub fn resize_to_cover(canvas_w: u32, canvas_h: u32, src_w: u32, src_h: u32, max_dim: u32) -> (r: (
    u32,
    u32,
))
    requires
        max_dim >= 1,
    ensures
        ({
            let s = cover_size(
                at_least_one(canvas_w as int),
                at_least_one(canvas_h as int),
                at_least_one(src_w as int),
                at_least_one(src_h as int),
            );
            &&& r.0 == clamp_dim(s.0, max_dim as int)
            &&& r.1 == clamp_dim(s.1, max_dim as int)
            &&& (s.0 <= max_dim && s.1 <= max_dim) ==> (r.0 >= canvas_w && r.1 >= canvas_h)
        }),
{
    proof {
        lemma_cover_size_covers(
            at_least_one(canvas_w as int),
            at_least_one(canvas_h as int),
            at_least_one(src_w as int),
            at_least_one(src_h as int),
        );
    }
    let iw: u64 = if src_w == 0 {
        1
    } else {
        src_w as u64
    };
    let ih: u64 = if src_h == 0 {
        1
    } else {
        src_h as u64
    };
    let cw: u64 = if canvas_w == 0 {
        1
    } else {
        canvas_w as u64
    };
    let ch: u64 = if canvas_h == 0 {
        1
    } else {
        canvas_h as u64
    };
    assert(cw * ih <= 0xffff_ffff * 0xffff_ffff) by (nonlinear_arith)
        requires
            cw <= 0xffff_ffff,
            ih <= 0xffff_ffff,
    ;
    assert(ch * iw <= 0xffff_ffff * 0xffff_ffff) by (nonlinear_arith)
        requires
            ch <= 0xffff_ffff,
            iw <= 0xffff_ffff,
    ;
    let w: u64;
    let h: u64;
    if cw * ih >= ch * iw {
        w = cw;
        h = (ih * cw + iw - 1) / iw;
    } else {
        w = (iw * ch + ih - 1) / ih;
        h = ch;
    }
    (clamp_to(w, max_dim), clamp_to(h, max_dim))
}

/// Scales `src` so that it fits entirely inside `canvas`, keeping its aspect
/// ratio; each side is then limited to `1 ..= max_dim`. Zero sizes count as one.
pub fn resize_to_contain(canvas_w: u32, canvas_h: u32, src_w: u32, src_h: u32, max_dim: u32) -> (r:
    (u32, u32))
    requires
        max_dim >= 1,
    ensures
        ({
            let s = contain_size(
                at_least_one(canvas_w as int),
                at_least_one(canvas_h as int),
                at_least_one(src_w as int),
                at_least_one(src_h as int),
            );
            r.0 == clamp_dim(s.0, max_dim as int) && r.1 == clamp_dim(s.1, max_dim as int)
        }),
{
    let iw: u128 = if src_w == 0 {
        1
    } else {
        src_w as u128
    };
    let ih: u128 = if src_h == 0 {
        1
    } else {
        src_h as u128
    };
    let cw: u128 = if canvas_w == 0 {
        1
    } else {
        canvas_w as u128
    };
    let ch: u128 = if canvas_h == 0 {
        1
    } else {
        canvas_h as u128
    };
    assert(cw * ih <= 0xffff_ffff * 0xffff_ffff) by (nonlinear_arith)
        requires
            cw <= 0xffff_ffff,
            ih <= 0xffff_ffff,
    ;
    assert(ch * iw <= 0xffff_ffff * 0xffff_ffff) by (nonlinear_arith)
        requires
            ch <= 0xffff_ffff,
            iw <= 0xffff_ffff,
    ;
    let w: u128;
    let h: u128;
    if cw * ih <= ch * iw {
        w = cw;
        h = (2 * (ih * cw) + iw) / (2 * iw);
    } else {
        w = (2 * (iw * ch) + ih) / (2 * ih);
        h = ch;
    }
    (clamp_wide(w, max_dim), clamp_wide(h, max_dim))
}

fn clamp_to(x: u64, max_dim: u32) -> (r: u32)
    requires
        max_dim >= 1,
    ensures
        r == clamp_dim(x as int, max_dim as int),
{
    if x < 1 {
        1
    } else if x > max_dim as u64 {
        max_dim
    } else {
        x as u32
    }
}

fn clamp_wide(x: u128, max_dim: u32) -> (r: u32)
    requires
        max_dim >= 1,
    ensures
        r == clamp_dim(x as int, max_dim as int),
{
    if x < 1 {
        1
    } else if x > max_dim as u128 {
        max_dim
    } else {
        x as u32
    }
}

/// Offset that centers an `inner` rectangle inside an `outer` one; an inner
/// side larger than the outer one gives offset zero on that axis.
pub fn center_offset(inner_w: u32, inner_h: u32, outer_w: u32, outer_h: u32) -> (r: (u32, u32))
    ensures
        r.0 == (if outer_w >= inner_w {
            (outer_w - inner_w) / 2
        } else {
            0
        }),
        r.1 == (if outer_h >= inner_h {
            (outer_h - inner_h) / 2
        } else {
            0
        }),
{
    let ox = outer_w.saturating_sub(inner_w) / 2;
    let oy = outer_h.saturating_sub(inner_h) / 2;
    (ox, oy)
}

/// A cover-scaled size is never smaller than the canvas on either axis.
pub proof fn lemma_cover_size_covers(cw: int, ch: int, iw: int, ih: int)
    requires
        cw >= 1,
        ch >= 1,
        iw >= 1,
        ih >= 1,
    ensures
        cover_size(cw, ch, iw, ih).0 >= cw,
        cover_size(cw, ch, iw, ih).1 >= ch,
{
    if cw * ih >= ch * iw {
        lemma_ceil_div_bounds(ih * cw, iw);
        let q = ceil_div(ih * cw, iw);
        assert(q >= ch) by (nonlinear_arith)
            requires
                q * iw >= ih * cw,
                ih * cw >= ch * iw,
                iw >= 1,
        ;
    } else {
        lemma_ceil_div_bounds(iw * ch, ih);
        let q = ceil_div(iw * ch, ih);
        assert(q >= cw) by (nonlinear_arith)
            requires
                q * ih >= iw * ch,
                iw * ch > cw * ih,
                ih >= 1,
        ;
    }
}

/// Row alignment that GPU texture uploads demand, in bytes.
pub const ROW_ALIGN: u32 = 256;

/// `bytes_per_row` rounded up to a multiple of 256 (0 stays 0).
pub fn compute_padded_stride(bytes_per_row: u32) -> (r: u32)
    requires
        bytes_per_row <= u32::MAX - 255,
    ensures
        r % 256 == 0,
        bytes_per_row <= r < bytes_per_row + 256,
        bytes_per_row == 0 ==> r == 0,
{
    if bytes_per_row == 0 {
        return 0;
    }
    let blocks = (bytes_per_row - 1) / ROW_ALIGN + 1;
    assert(blocks * 256 <= u32::MAX && bytes_per_row <= blocks * 256 < bytes_per_row + 256
        && (blocks * 256) % 256 == 0) by (nonlinear_arith)
        requires
            blocks == (bytes_per_row - 1) / 256 + 1,
            1 <= bytes_per_row <= u32::MAX - 255,
    ;
    blocks * ROW_ALIGN
}

/// `value` clamped to a pixel index below `max` (`max` must be at least 1).
pub fn clamp_i(value: isize, max: isize) -> (r: usize)
    requires
        max >= 1,
    ensures
        r as int == (if value < 0 {
            0
        } else if value > max - 1 {
            max - 1
        } else {
            value as int
        }),
        (r as int) < max,
{
    let hi = max - 1;
    if value < 0 {
        0
    } else if value > hi {
        hi as usize
    } else {
        value as usize
    }
}

proof fn lemma_round_div_at_most(a: int, b: int, c: int)
    requires
        a >= 0,
        b > 0,
        c >= 0,
        a <= c * b,
    ensures
        0 <= round_div(a, b) <= c,
{
    let q = (2 * a + b) / (2 * b);
    assert(q * (2 * b) <= 2 * a + b && q >= 0) by (nonlinear_arith)
        requires
            a >= 0,
            b > 0,
            q == (2 * a + b) / (2 * b),
    ;
    assert(q <= c) by (nonlinear_arith)
        requires
            q * (2 * b) <= 2 * a + b,
            a <= c * b,
            b > 0,
    ;
}

/// A contained size fits in the canvas and touches it on at least one side:
/// once limited to `1 ..= max_dim` (with the canvas no larger than that), its
/// width is at most the canvas width, its height at most the canvas height,
/// and one of them equals the canvas's.
pub proof fn lemma_contain_fits(cw: int, ch: int, iw: int, ih: int, max_dim: int)
    requires
        1 <= cw <= max_dim,
        1 <= ch <= max_dim,
        iw >= 1,
        ih >= 1,
    ensures
        ({
            let s = contain_size(cw, ch, iw, ih);
            let w = clamp_dim(s.0, max_dim);
            let h = clamp_dim(s.1, max_dim);
            1 <= w <= cw && 1 <= h <= ch && (w == cw || h == ch)
        }),
{
    if cw * ih <= ch * iw {
        assert(ih * cw <= ch * iw) by (nonlinear_arith)
            requires
                cw * ih <= ch * iw,
        ;
        assert(ih * cw >= 0) by (nonlinear_arith)
            requires
                ih >= 1,
                cw >= 1,
        ;
        lemma_round_div_at_most(ih * cw, iw, ch);
    } else {
        assert(iw * ch <= cw * ih) by (nonlinear_arith)
            requires
                cw * ih > ch * iw,
        ;
        assert(iw * ch >= 0) by (nonlinear_arith)
            requires
                iw >= 1,
                ch >= 1,
        ;
        lemma_round_div_at_most(iw * ch, ih, cw);
    }
}

} // verus!
