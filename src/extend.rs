//! Padding a raster so that its width and height are multiples of 16.
use vstd::prelude::*;

use crate::pixel::Pixel;

verus! {

/// Number of pixels to add to a side of length `n` to reach a multiple of 16.
pub open spec fn pad16(n: nat) -> nat {
    ((16 - n % 16) % 16) as nat
}

/// `n` rounded up to a multiple of 16.
pub open spec fn extended_len(n: nat) -> nat {
    n + pad16(n)
}

/// Position in the original side of length `n` nearest to `v`, when the original
/// starts at `start` in the padded one.
pub open spec fn nearest(v: int, start: int, n: int) -> int {
    if v < start {
        0
    } else if v - start >= n {
        n - 1
    } else {
        v - start
    }
}

/// Pixel `(x, y)` of the padded raster. The original is centered; a padded pixel
/// takes the color of the nearest original pixel, with zero alpha.
pub open spec fn extended_pixel(t: Seq<Pixel>, w: nat, h: nat, x: int, y: int) -> Pixel {
    let dx = (pad16(w) / 2) as int;
    let dy = (pad16(h) / 2) as int;
    let p = t[nearest(y, dy, h as int) * w + nearest(x, dx, w as int)];
    if dx <= x < dx + w && dy <= y < dy + h {
        p
    } else {
        Pixel { a: 0, ..p }
    }
}

/// The raster `t` of `w` × `h` pixels, padded to multiples of 16: pixels, width, height.
/// A raster whose sides are already multiples of 16 is left as it is.
pub open spec fn extended(t: Seq<Pixel>, w: nat, h: nat) -> (Seq<Pixel>, nat, nat) {
    if w % 16 == 0 && h % 16 == 0 {
        (t, w, h)
    } else {
        let nw = extended_len(w);
        let nh = extended_len(h);
        (Seq::new(nw * nh, |i: int| extended_pixel(t, w, h, i % nw as int, i / nw as int)), nw, nh)
    }
}

proof fn lemma_index_in_grid(x: int, y: int, w: int, h: int)
    requires
        0 <= x < w,
        0 <= y < h,
    ensures
        0 <= y * w + x < w * h,
{
    assert(0 <= y * w + x < w * h) by (nonlinear_arith)
        requires
            0 <= x < w,
            0 <= y < h,
    ;
}

/// Pads `texture` (`width` × `height` pixels) so that both sides are multiples of 16.
/// The original is centered; each added pixel takes the color of the nearest
/// original pixel with zero alpha, so that resampling blends toward the real
/// edge instead of toward an arbitrary background. A raster that needs no
/// padding is returned as it is.
pub fn extend_to_m16(texture: Vec<Pixel>, width: usize, height: usize) -> (r: (Vec<Pixel>, usize, usize))
    requires
        width >= 1,
        height >= 1,
        texture@.len() == width * height,
        extended_len(width as nat) * extended_len(height as nat) <= usize::MAX,
    ensures
        (r.0@, r.1 as nat, r.2 as nat) == extended(texture@, width as nat, height as nat),
{
    let pad_x = (16 - width % 16) % 16;
    let pad_y = (16 - height % 16) % 16;
    if pad_x == 0 && pad_y == 0 {
        return (texture, width, height);
    }
    proof {
        let ew = extended_len(width as nat);
        let eh = extended_len(height as nat);
        assert(ew <= ew * eh && eh <= ew * eh && width * height <= ew * eh) by (nonlinear_arith)
            requires
                1 <= width <= ew,
                1 <= height <= eh,
        ;
    }
    let nw = width + pad_x;
    let nh = height + pad_y;
    let dx = pad_x / 2;
    let dy = pad_y / 2;
    let ghost t = texture@;
    let ghost spec_w = width as nat;
    let ghost spec_h = height as nat;
    let mut out: Vec<Pixel> = Vec::new();
    let mut y: usize = 0;
    while y < nh
        invariant
            width >= 1,
            height >= 1,
            t == texture@,
            t.len() == width * height,
            width * height <= usize::MAX,
            spec_w == width,
            spec_h == height,
            nw == extended_len(spec_w),
            nh == extended_len(spec_h),
            nw * nh <= usize::MAX,
            dx == pad16(spec_w) / 2,
            dy == pad16(spec_h) / 2,
            y <= nh,
            out@.len() == y * nw,
            forall|i: int| 0 <= i < out@.len() ==> #[trigger] out@[i] == extended_pixel(t, spec_w, spec_h, i % nw as int, i / nw as int),
        decreases nh - y,
    {
        let sy = if y < dy {
            0
        } else if y - dy >= height {
            height - 1
        } else {
            y - dy
        };
        let inside_y = dy <= y && y < dy + height;
        let mut x: usize = 0;
        while x < nw
            invariant
                width >= 1,
                height >= 1,
                t == texture@,
                t.len() == width * height,
            width * height <= usize::MAX,
                spec_w == width,
                spec_h == height,
                nw == extended_len(spec_w),
                nh == extended_len(spec_h),
                nw * nh <= usize::MAX,
                dx == pad16(spec_w) / 2,
                dy == pad16(spec_h) / 2,
                y < nh,
                x <= nw,
                sy == nearest(y as int, dy as int, height as int),
                inside_y == (dy <= y < dy + height),
                out@.len() == y * nw + x,
                forall|i: int| 0 <= i < out@.len() ==> #[trigger] out@[i] == extended_pixel(t, spec_w, spec_h, i % nw as int, i / nw as int),
            decreases nw - x,
        {
            let sx = if x < dx {
                0
            } else if x - dx >= width {
                width - 1
            } else {
                x - dx
            };
            proof {
                lemma_index_in_grid(sx as int, sy as int, width as int, height as int);
                lemma_index_in_grid(x as int, y as int, nw as int, nh as int);
                vstd::arithmetic::div_mod::lemma_fundamental_div_mod_converse(
                    (y * nw + x) as int, nw as int, y as int, x as int);
            }
            let p = texture[sy * width + sx];
            if inside_y && dx <= x && x < dx + width {
                out.push(p);
            } else {
                out.push(Pixel { a: 0, ..p });
            }
            x = x + 1;
        }
        proof {
            assert((y + 1) * nw == y * nw + nw) by (nonlinear_arith);
        }
        y = y + 1;
    }
    assert(!(spec_w % 16 == 0 && spec_h % 16 == 0));
    assert(out@.len() == nw * nh) by (nonlinear_arith)
        requires
            out@.len() == y * nw,
            y == nh,
    ;
    assert(out@ =~= extended(t, spec_w, spec_h).0);
    (out, nw, nh)
}

/// Padding a raster a second time changes nothing: its sides are already multiples of 16.
pub proof fn lemma_extend_idempotent(t: Seq<Pixel>, w: nat, h: nat)
    ensures
        extended(extended(t, w, h).0, extended(t, w, h).1, extended(t, w, h).2) == extended(t, w, h),
{
    let e = extended(t, w, h);
    assert(e.1 % 16 == 0 && e.2 % 16 == 0);
}

} // verus!
