//! Choosing the texture size and resampling the raster to it.
use vstd::prelude::*;

use crate::error::ConvertError;
use crate::pixel::{binary_alpha, denoise, denoised, Pixel};

verus! {

#[verifier::external_type_specification]
#[verifier::external_body]
pub struct ExResizeError(resize::Error);

/// The interpolation kernel of the resampler.
#[derive(Clone, Copy, Debug, PartialEq, Eq, Structural)]
pub enum Kernel {
    /// Nearest neighbour: keeps the hard edges of pixel art.
    Point,
    /// Windowed sinc with three lobes: smooth, high quality.
    Lanczos3,
}

/// The kernel that the `use_point_resample` flag selects.
pub open spec fn kernel_for(use_point_resample: bool) -> Kernel {
    if use_point_resample {
        Kernel::Point
    } else {
        Kernel::Lanczos3
    }
}

/// The `dst_w` × `dst_h` raster that the resize crate makes from the
/// `src_w` × `src_h` raster `src` with the given kernel.
pub uninterp spec fn resampled_of(src: Seq<Pixel>, src_w: nat, src_h: nat, dst_w: nat, dst_h: nat, kernel: Kernel) -> Seq<Pixel>;

/// Relies on resize::new and resize::Resizer::resize: prepares a resampler
/// from `src_w` × `src_h` RGBA8 pixels to `dst_w` × `dst_h` ones, which fails
/// on a zero side, then fills `dst` with the resampled raster, which fails
/// unless `dst` holds `dst_w * dst_h` pixels. Every pixel of `dst` is written,
/// so the result depends on the source, the sizes and the kernel alone.
#[verifier::external_body]
fn resample(
    src: &Vec<Pixel>,
    src_w: usize,
    src_h: usize,
    dst: Vec<Pixel>,
    dst_w: usize,
    dst_h: usize,
    kernel: Kernel,
) -> (r: Result<Vec<Pixel>, resize::Error>)
    ensures
        src_w == 0 || src_h == 0 || dst_w == 0 || dst_h == 0 ==> r is Err,
        r matches Ok(v) ==> v@.len() == dst_w * dst_h,
        r matches Ok(v) ==> v@ == resampled_of(src@, src_w as nat, src_h as nat, dst_w as nat, dst_h as nat, kernel),
{
    let rgba = |p: &Pixel| rgb::RGBA8::new(p.r, p.g, p.b, p.a);
    let src: Vec<rgb::RGBA8> = src.iter().map(rgba).collect();
    let mut out: Vec<rgb::RGBA8> = dst.iter().map(rgba).collect();
    let filter = match kernel {
        Kernel::Point => resize::Type::Point,
        Kernel::Lanczos3 => resize::Type::Lanczos3,
    };
    resize::new(src_w, src_h, dst_w, dst_h, resize::Pixel::RGBA8, filter)?.resize(&src, &mut out)?;
    Ok(out.iter().map(|p| Pixel { r: p.r, g: p.g, b: p.b, a: p.a }).collect())
}

/// Area bound of the standard game: a texture must have fewer pixels than this.
pub const SIZE_CAP: usize = 12288;

/// Area bound of the variant that takes larger textures (Sven Co-op).
pub const LARGER_SIZE_CAP: usize = 14337;

/// The area bound for the chosen mode.
pub open spec fn size_cap_spec(larger_size: bool) -> nat {
    if larger_size {
        14337
    } else {
        12288
    }
}

/// The area bound for the chosen mode: textures must have fewer pixels than this.
pub fn size_cap(larger_size: bool) -> (r: usize)
    ensures
        r == size_cap_spec(larger_size),
{
    if larger_size {
        LARGER_SIZE_CAP
    } else {
        SIZE_CAP
    }
}

/// Candidate `i` of the size grid `{16, 32, ..., 256}²`, as (width, height):
/// the width runs through the 16 values for each height in turn.
pub open spec fn candidate(i: int) -> (nat, nat) {
    ((16 * (i % 16 + 1)) as nat, (16 * (i / 16 + 1)) as nat)
}

/// Whether size `c` has fewer pixels than `cap`.
pub open spec fn admissible(c: (nat, nat), cap: nat) -> bool {
    c.0 * c.1 < cap
}

/// `|c.0 / c.1 - w / h|`, multiplied by `c.1 * h`.
pub open spec fn aspect_gap(c: (nat, nat), w: nat, h: nat) -> nat {
    let a = c.0 * h;
    let b = w * c.1;
    if a >= b {
        (a - b) as nat
    } else {
        (b - a) as nat
    }
}

/// Whether the aspect ratio of `c1` is strictly closer to `w / h` than that of `c2`.
pub open spec fn closer(c1: (nat, nat), c2: (nat, nat), w: nat, h: nat) -> bool {
    aspect_gap(c1, w, h) * c2.1 < aspect_gap(c2, w, h) * c1.1
}

/// Whether candidate `i` is the first admissible candidate whose aspect ratio
/// is closest to `w / h`.
pub open spec fn best_candidate(i: int, w: nat, h: nat, cap: nat) -> bool {
    &&& 0 <= i < 256
    &&& admissible(candidate(i), cap)
    &&& forall|j: int| 0 <= j < 256 && admissible(#[trigger] candidate(j), cap)
        ==> !closer(candidate(j), candidate(i), w, h)
    &&& forall|j: int| 0 <= j < i && admissible(#[trigger] candidate(j), cap)
        ==> closer(candidate(i), candidate(j), w, h)
}

/// Whether a `w` × `h` texture can be used as it is.
pub open spec fn fits_unchanged(w: nat, h: nat, cap: nat) -> bool {
    w % 16 == 0 && h % 16 == 0 && w * h < cap
}

/// The size that a `w` × `h` raster is given under area bound `cap`.
pub open spec fn optimal_size(w: nat, h: nat, cap: nat) -> (nat, nat) {
    if fits_unchanged(w, h, cap) {
        (w, h)
    } else {
        candidate(choose|i: int| best_candidate(i, w, h, cap))
    }
}

/// At most one candidate is the first closest one.
pub proof fn lemma_best_candidate_unique(i: int, j: int, w: nat, h: nat, cap: nat)
    requires
        best_candidate(i, w, h, cap),
        best_candidate(j, w, h, cap),
    ensures
        i == j,
{
    if i < j {
        assert(!closer(candidate(j), candidate(i), w, h));
    } else if j < i {
        assert(!closer(candidate(i), candidate(j), w, h));
    }
}

proof fn lemma_closer_step(ga: nat, ca: nat, gb: nat, cb: nat, gc: nat, cc: nat)
    requires
        ca > 0,
        cb > 0,
        cc > 0,
        ga * cb < gb * ca,
        gc * cb >= gb * cc,
    ensures
        ga * cc < gc * ca,
{
    assert(ga * cb * cc < gb * ca * cc) by (nonlinear_arith)
        requires
            ga * cb < gb * ca,
            cc > 0,
    ;
    assert(gb * cc * ca <= gc * cb * ca) by (nonlinear_arith)
        requires
            gc * cb >= gb * cc,
            ca > 0,
    ;
    assert(ga * cc * cb < gc * ca * cb) by (nonlinear_arith)
        requires
            ga * cb * cc < gb * ca * cc,
            gb * cc * ca <= gc * cb * ca,
    ;
    assert(ga * cc < gc * ca) by (nonlinear_arith)
        requires
            ga * cc * cb < gc * ca * cb,
            cb > 0,
    ;
}

proof fn lemma_not_closer_step(ga: nat, ca: nat, gb: nat, cb: nat, gc: nat, cc: nat)
    requires
        ca > 0,
        cb > 0,
        cc > 0,
        !(ga * cb < gb * ca),
        !(gb * cc < gc * cb),
    ensures
        !(ga * cc < gc * ca),
{
    assert(gb * ca * cc <= ga * cb * cc) by (nonlinear_arith)
        requires
            gb * ca <= ga * cb,
            cc > 0,
    ;
    assert(gc * cb * ca <= gb * cc * ca) by (nonlinear_arith)
        requires
            gc * cb <= gb * cc,
            ca > 0,
    ;
    assert(gc * ca * cb <= ga * cc * cb) by (nonlinear_arith)
        requires
            gb * ca * cc <= ga * cb * cc,
            gc * cb * ca <= gb * cc * ca,
    ;
    assert(gc * ca <= ga * cc) by (nonlinear_arith)
        requires
            gc * ca * cb <= ga * cc * cb,
            cb > 0,
    ;
}

/// Index of the first closest admissible candidate among the first `k`.
spec fn first_best(k: int, w: nat, h: nat, cap: nat) -> int
    decreases k,
{
    if k <= 1 {
        0
    } else {
        let b = first_best(k - 1, w, h, cap);
        let i = k - 1;
        if admissible(candidate(i), cap) && closer(candidate(i), candidate(b), w, h) {
            i
        } else {
            b
        }
    }
}

proof fn lemma_first_best(k: int, w: nat, h: nat, cap: nat)
    requires
        1 <= k <= 256,
        cap > 256,
    ensures
        0 <= first_best(k, w, h, cap) < k,
        admissible(candidate(first_best(k, w, h, cap)), cap),
        forall|j: int| 0 <= j < k && admissible(#[trigger] candidate(j), cap)
            ==> !closer(candidate(j), candidate(first_best(k, w, h, cap)), w, h),
        forall|j: int| 0 <= j < first_best(k, w, h, cap) && admissible(#[trigger] candidate(j), cap)
            ==> closer(candidate(first_best(k, w, h, cap)), candidate(j), w, h),
    decreases k,
{
    if k == 1 {
        assert(candidate(0) == (16nat, 16nat));
        assert forall|j: int| 0 <= j < k && admissible(#[trigger] candidate(j), cap)
            implies !closer(candidate(j), candidate(first_best(k, w, h, cap)), w, h) by {
            assert(j == 0);
        }
    } else {
        lemma_first_best(k - 1, w, h, cap);
        let b = first_best(k - 1, w, h, cap);
        let i = k - 1;
        let ci = candidate(i);
        let cb = candidate(b);
        if admissible(ci, cap) && closer(ci, cb, w, h) {
            assert forall|j: int| 0 <= j < k && admissible(#[trigger] candidate(j), cap)
                implies !closer(candidate(j), ci, w, h) by {
                if j < i {
                    let cj = candidate(j);
                    lemma_not_closer_step(
                        aspect_gap(cj, w, h), cj.1, aspect_gap(cb, w, h), cb.1,
                        aspect_gap(ci, w, h), ci.1,
                    );
                }
            }
            assert forall|j: int| 0 <= j < i && admissible(#[trigger] candidate(j), cap)
                implies closer(ci, candidate(j), w, h) by {
                let cj = candidate(j);
                lemma_closer_step(
                    aspect_gap(ci, w, h), ci.1, aspect_gap(cb, w, h), cb.1,
                    aspect_gap(cj, w, h), cj.1,
                );
            }
        }
    }
}

/// The size given to a raster is at least 1 × 1 and has fewer pixels than
/// the area bound, whatever the raster.
pub proof fn lemma_optimal_size_under_cap(w: nat, h: nat, cap: nat)
    requires
        w >= 1,
        h >= 1,
        cap > 256,
    ensures
        optimal_size(w, h, cap).0 >= 1,
        optimal_size(w, h, cap).1 >= 1,
        optimal_size(w, h, cap).0 * optimal_size(w, h, cap).1 < cap,
{
    if !fits_unchanged(w, h, cap) {
        lemma_first_best(256, w, h, cap);
        let b = first_best(256, w, h, cap);
        assert(best_candidate(b, w, h, cap));
        let i = choose|i: int| best_candidate(i, w, h, cap);
        lemma_best_candidate_unique(i, b, w, h, cap);
    }
}

/// `|cw * h - w * ch|`, the aspect gap of candidate `(cw, ch)`.
fn gap(cw: u128, ch: u128, w: u128, h: u128) -> (r: u128)
    requires
        cw <= 256,
        ch <= 256,
        w <= u64::MAX,
        h <= u64::MAX,
    ensures
        r == aspect_gap((cw as nat, ch as nat), w as nat, h as nat),
        r <= 256 * u64::MAX,
{
    assert(cw * h <= 256 * u64::MAX && w * ch <= 256 * u64::MAX) by (nonlinear_arith)
        requires
            cw <= 256,
            ch <= 256,
            w <= u64::MAX,
            h <= u64::MAX,
    ;
    let a = cw * h;
    let b = w * ch;
    if a >= b {
        a - b
    } else {
        b - a
    }
}

/// Finds the size to give a `width` × `height` raster so that it has fewer than
/// `size_sup` pixels. A raster whose sides are multiples of 16 and that already
/// has fewer pixels keeps its size. Otherwise the size is taken from the grid
/// `{16, 32, ..., 256}²`: among the sizes with fewer than `size_sup` pixels, the
/// first (width running fastest) whose aspect ratio is closest to the raster's.
pub fn calc_optimal_size(width: usize, height: usize, size_sup: usize) -> (r: (usize, usize))
    requires
        width >= 1,
        height >= 1,
        size_sup > 256,
    ensures
        fits_unchanged(width as nat, height as nat, size_sup as nat) ==> r == (width, height),
        !fits_unchanged(width as nat, height as nat, size_sup as nat) ==> exists|i: int|
            best_candidate(i, width as nat, height as nat, size_sup as nat) && (r.0 as nat, r.1 as nat)
                == candidate(i),
        (r.0 as nat, r.1 as nat) == optimal_size(width as nat, height as nat, size_sup as nat),
        (r.0 as nat) * (r.1 as nat) < size_sup,
        r.0 >= 1 && r.1 >= 1,
{
    assert((width as u128) * (height as u128) <= u64::MAX * u64::MAX) by (nonlinear_arith)
        requires
            width as nat <= u64::MAX,
            height as nat <= u64::MAX,
    ;
    if width % 16 == 0 && height % 16 == 0 && (width as u128) * (height as u128) < size_sup as u128 {
        assert((width as u128) * (height as u128) == width as nat * height as nat);
        return (width, height);
    }
    let ghost w = width as nat;
    let ghost h = height as nat;
    let ghost cap = size_sup as nat;
    assert(!fits_unchanged(w, h, cap));
    let wl = width as u128;
    let hl = height as u128;
    assert(width as nat <= u64::MAX && height as nat <= u64::MAX);
    let mut best_w: u128 = 16;
    let mut best_h: u128 = 16;
    let mut best_gap: u128 = gap(16, 16, wl, hl);
    let ghost mut best: int = 0;
    assert(candidate(0) == (16nat, 16nat));
    let mut i: u128 = 1;
    while i < 256
        invariant
            wl == w,
            hl == h,
            w >= 1,
            h >= 1,
            wl <= u64::MAX,
            hl <= u64::MAX,
            cap == size_sup,
            cap > 256,
            1 <= i <= 256,
            0 <= best < i,
            candidate(best) == (best_w as nat, best_h as nat),
            best_gap == aspect_gap(candidate(best), w, h),
            best_gap <= 256 * u64::MAX,
            best_w <= 256,
            best_h <= 256,
            admissible(candidate(best), cap),
            forall|j: int| 0 <= j < i && admissible(#[trigger] candidate(j), cap)
                ==> !closer(candidate(j), candidate(best), w, h),
            forall|j: int| 0 <= j < best && admissible(#[trigger] candidate(j), cap)
                ==> closer(candidate(best), candidate(j), w, h),
        decreases 256 - i,
    {
        let cw = 16 * (i % 16 + 1);
        let ch = 16 * (i / 16 + 1);
        assert(candidate(i as int) == (cw as nat, ch as nat));
        let g = gap(cw, ch, wl, hl);
        assert(cw * ch <= 65536 && g * best_h <= 256 * 256 * u64::MAX && best_gap * ch <= 256 * 256
            * u64::MAX) by (nonlinear_arith)
            requires
                cw <= 256,
                ch <= 256,
                best_h <= 256,
                g <= 256 * u64::MAX,
                best_gap <= 256 * u64::MAX,
        ;
        if cw * ch < size_sup as u128 && g * best_h < best_gap * ch {
            proof {
                let ci = candidate(i as int);
                let cb = candidate(best);
                assert forall|j: int| 0 <= j < i + 1 && admissible(#[trigger] candidate(j), cap)
                    implies !closer(candidate(j), ci, w, h) by {
                    if j < i {
                        let cj = candidate(j);
                        lemma_not_closer_step(
                            aspect_gap(cj, w, h), cj.1, aspect_gap(cb, w, h), cb.1,
                            aspect_gap(ci, w, h), ci.1,
                        );
                        assert(!(aspect_gap(ci, w, h) * cb.1 >= aspect_gap(cb, w, h) * ci.1));
                    }
                }
                assert forall|j: int| 0 <= j < i && admissible(#[trigger] candidate(j), cap)
                    implies closer(ci, candidate(j), w, h) by {
                    let cj = candidate(j);
                    lemma_closer_step(
                        aspect_gap(ci, w, h), ci.1, aspect_gap(cb, w, h), cb.1,
                        aspect_gap(cj, w, h), cj.1,
                    );
                }
                best = i as int;
            }
            best_w = cw;
            best_h = ch;
            best_gap = g;
        }
        i = i + 1;
    }
    proof {
        assert(best_candidate(best, w, h, cap));
        let k = choose|k: int| best_candidate(k, w, h, cap);
        lemma_best_candidate_unique(k, best, w, h, cap);
    }
    (best_w as usize, best_h as usize)
}

/// The raster that a `w` × `h` raster `t` becomes at size `size`: itself when
/// the size is kept, else resampled with the chosen kernel and thresholded.
pub open spec fn fitted(t: Seq<Pixel>, w: nat, h: nat, size: (nat, nat), use_point_resample: bool) -> Seq<Pixel> {
    if size == (w, h) {
        t
    } else {
        denoised(resampled_of(t, w, h, size.0, size.1, kernel_for(use_point_resample)))
    }
}

/// Gives the `width` × `height` raster the size that `calc_optimal_size` picks
/// for the chosen mode. A raster that keeps its size is returned as it is.
/// Otherwise it is resampled, with nearest-neighbour or Lanczos3 interpolation,
/// and its alpha is then thresholded to 0 or 255, so that the quantizer does not
/// dither half-transparent edges. Fails only when the resampler does.
pub fn resize_to_fit_into_tempdecal(
    texture: Vec<Pixel>,
    width: usize,
    height: usize,
    larger_size: bool,
    use_point_resample: bool,
) -> (r: Result<(Vec<Pixel>, usize, usize), ConvertError>)
    requires
        width >= 1,
        height >= 1,
        texture@.len() == width * height,
    ensures
        ({
            let size = optimal_size(width as nat, height as nat, size_cap_spec(larger_size));
            &&& size == (width as nat, height as nat) ==> r == Ok::<_, ConvertError>((texture, width, height))
            &&& r matches Ok(v) ==> {
                &&& (v.1 as nat, v.2 as nat) == size
                &&& v.0@ == fitted(texture@, width as nat, height as nat, size, use_point_resample)
                &&& v.0@.len() == v.1 * v.2
                &&& v.1 >= 1 && v.2 >= 1
                &&& v.1 * v.2 < size_cap_spec(larger_size)
                &&& size != (width as nat, height as nat) ==> binary_alpha(v.0@)
            }
            &&& r matches Err(e) ==> e == ConvertError::Resample && size != (width as nat, height as nat)
        }),
{
    let size_sup = size_cap(larger_size);
    let (nw, nh) = calc_optimal_size(width, height, size_sup);
    if nw == width && nh == height {
        return Ok((texture, width, height));
    }
    let kernel = if use_point_resample {
        Kernel::Point
    } else {
        Kernel::Lanczos3
    };
    let background = vec![Pixel::sentinel(); nw * nh];
    let mut ntxt = match resample(&texture, width, height, background, nw, nh, kernel) {
        Ok(v) => v,
        Err(_) => return Err(ConvertError::Resample),
    };
    denoise(&mut ntxt);
    Ok((ntxt, nw, nh))
}

} // verus!
