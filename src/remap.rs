//! Reducing a raster to 256 palette colors, the last of which marks transparency.
use imagequant::Histogram;
use rgb::{ComponentBytes, FromSlice};
use vstd::prelude::*;

use crate::error::ConvertError;
use crate::pixel::{bytes_of, denoise, denoised, pixel_bytes, pixels_of, rgba_pixels, threshold_alpha, Pixel};

verus! {

#[verifier::external_type_specification]
#[verifier::external_body]
pub struct ExQuantError(imagequant::Error);

/// The palette, as RGBA8 bytes, and the per-pixel palette indices that
/// imagequant makes of the `width` × `height` RGBA8 raster `rgba`, at
/// quantization speed `speed` and dithering level `dither`, with the RGBA color
/// `fixed` added to the histogram as a color that the palette must hold and,
/// when `last_transparent`, the transparent color moved to the last entry.
pub uninterp spec fn quantized_of(
    rgba: Seq<u8>,
    width: nat,
    height: nat,
    speed: int,
    dither: nat,
    fixed: Seq<u8>,
    last_transparent: bool,
) -> (Seq<u8>, Seq<u8>);

/// Relies on imagequant's histogram quantization (imagequant::new,
/// Attributes::set_speed and set_last_index_transparent, Histogram::new,
/// add_fixed_color, add_image and quantize, Attributes::new_image,
/// QuantizationResult::set_dithering_level and remapped) and on rgb's casts
/// between bytes and RGBA pixels. Without the `threads` feature and with a
/// fixed-seed hasher, the palette and indices depend on the arguments alone;
/// `remapped` gives one index per pixel, and an image with a zero side is
/// refused. Gamma 0 tells the crate that the colors are sRGB.
#[verifier::external_body]
fn quantize(
    rgba: &[u8],
    width: usize,
    height: usize,
    speed: i32,
    dither: u8,
    fixed: [u8; 4],
    last_transparent: bool,
) -> (r: Result<(Vec<u8>, Vec<u8>), imagequant::Error>)
    ensures
        width == 0 || height == 0 ==> r is Err,
        r matches Ok((p, q)) ==> q@.len() == width * height,
        r matches Ok((p, q)) ==> (p@, q@) == quantized_of(
            rgba@,
            width as nat,
            height as nat,
            speed as int,
            dither as nat,
            fixed@,
            last_transparent,
        ),
{
    let mut attr = imagequant::new();
    attr.set_speed(speed)?;
    attr.set_last_index_transparent(last_transparent);
    let mut hist = Histogram::new(&attr);
    hist.add_fixed_color(fixed.into(), 0u8.into())?;
    let mut img = attr.new_image(rgba.as_rgba(), width, height, 0u8.into())?;
    hist.add_image(&attr, &mut img)?;
    let mut res = hist.quantize(&attr)?;
    res.set_dithering_level(dither.into())?;
    res.remapped(&mut img).map(|(palette, indices)| (palette.as_bytes().to_vec(), indices))
}

/// Speed setting of the quantizer: the slowest, for the best palette.
pub const QUANTIZATION_SPEED: i32 = 1;

/// Dithering level of the remapping: full dithering.
pub const DITHERING_LEVEL: u8 = 1;

/// Index of the palette entry that marks transparent pixels.
pub const MASK_INDEX: u8 = 255;

/// Whether every index of `q` names an entry of the palette `p`.
pub open spec fn indices_in_palette(p: Seq<Pixel>, q: Seq<u8>) -> bool {
    forall|k: int| 0 <= k < q.len() ==> (#[trigger] q[k]) < p.len()
}

/// The index that a pixel keeps: 255 when its palette color is transparent
/// once thresholded, else its own.
pub open spec fn remapped_index(p: Seq<Pixel>, i: u8) -> u8 {
    if threshold_alpha(p[i as int].a) == 0 {
        255
    } else {
        i
    }
}

/// The indices of `q`, each with its transparent entry redirected to 255.
pub open spec fn remapped_indices(p: Seq<Pixel>, q: Seq<u8>) -> Seq<u8> {
    q.map_values(|i: u8| remapped_index(p, i))
}

/// Entry `j` of the final palette: the quantizer's color, or the sentinel for
/// slot 255 and for slots that the quantizer left unused.
pub open spec fn palette_color(p: Seq<Pixel>, j: int) -> Pixel {
    if j == 255 || j >= p.len() {
        Pixel { r: 0, g: 0, b: 0xff, a: 0 }
    } else {
        p[j]
    }
}

/// Channel `c` (0 red, 1 green, 2 blue) of a pixel.
pub open spec fn channel(px: Pixel, c: int) -> u8 {
    if c == 0 {
        px.r
    } else if c == 1 {
        px.g
    } else {
        px.b
    }
}

/// The final palette as 256 RGB triples.
pub open spec fn palette_bytes(p: Seq<Pixel>) -> Seq<u8> {
    Seq::new(768, |k: int| channel(palette_color(p, k / 3), k % 3))
}

/// Applies the palette rules to what the quantizer returned: thresholds the
/// alpha of each palette color, redirects every pixel whose color is then
/// transparent to index 255, and lays out the palette as 256 RGB triples,
/// unused slots and slot 255 holding pure blue (0, 0, 255), the color that
/// marks a masked texture. Fails when an index names no palette entry.
pub fn finish_remap(palette: Vec<Pixel>, indices: Vec<u8>) -> (r: Result<(Vec<u8>, [u8; 768]), ConvertError>)
    ensures
        (r is Ok) <==> indices_in_palette(palette@, indices@),
        r matches Ok(v) ==> v.0@ == remapped_indices(palette@, indices@) && v.1@ == palette_bytes(palette@),
        r matches Err(e) ==> e == ConvertError::Quantize,
{
    let ghost p0 = palette@;
    let ghost q0 = indices@;
    let mut colors = palette;
    let mut idx = indices;
    denoise(&mut colors);
    let np = colors.len();
    let n = idx.len();

    let mut k: usize = 0;
    while k < n
        invariant
            p0 == palette@,
            q0 == indices@,
            n == q0.len(),
            idx@ == q0,
            np == p0.len(),
            k <= n,
            forall|j: int| 0 <= j < k ==> (#[trigger] q0[j]) < np,
        decreases n - k,
    {
        if idx[k] as usize >= np {
            assert(!indices_in_palette(p0, q0));
            return Err(ConvertError::Quantize);
        }
        k = k + 1;
    }

    // A pixel whose color is transparent refers to the mask entry.
    let mut k: usize = 0;
    while k < n
        invariant
            n == q0.len(),
            idx@.len() == n,
            np == p0.len(),
            colors@ == denoised(p0),
            indices_in_palette(p0, q0),
            k <= n,
            forall|j: int| 0 <= j < k ==> #[trigger] idx@[j] == remapped_index(p0, q0[j]),
            forall|j: int| k <= j < n ==> #[trigger] idx@[j] == q0[j],
        decreases n - k,
    {
        let i = idx[k];
        assert(q0[k as int] < np);
        if colors[i as usize].a == 0 {
            idx.set(k, MASK_INDEX);
        }
        k = k + 1;
    }
    assert(idx@ =~= remapped_indices(p0, q0));

    // RGB triples; the unused slots and the last one hold the mask color.
    let mut rgb = [0u8; 768];
    let mut j: usize = 0;
    while j < 256
        invariant
            np == p0.len(),
            colors@ == denoised(p0),
            j <= 256,
            forall|m: int| 0 <= m < 3 * j ==> #[trigger] rgb@[m] == palette_bytes(p0)[m],
        decreases 256 - j,
    {
        let c = if j == 255 || j >= np {
            Pixel::sentinel()
        } else {
            colors[j]
        };
        assert(c.r == palette_color(p0, j as int).r && c.g == palette_color(p0, j as int).g && c.b
            == palette_color(p0, j as int).b);
        rgb[3 * j] = c.r;
        rgb[3 * j + 1] = c.g;
        rgb[3 * j + 2] = c.b;
        proof {
            assert forall|m: int| 0 <= m < 3 * (j + 1) implies #[trigger] rgb@[m] == palette_bytes(p0)[m] by {
                if m >= 3 * j {
                    assert(m / 3 == j as int);
                }
            }
        }
        j = j + 1;
    }
    assert(rgb@ =~= palette_bytes(p0));
    Ok((idx, rgb))
}

/// After remapping, palette slot 255 holds pure blue (0, 0, 255), and every
/// pixel that does not refer to slot 255 refers to a color that is opaque once
/// thresholded.
pub proof fn lemma_palette_invariant(p: Seq<Pixel>, q: Seq<u8>)
    requires
        indices_in_palette(p, q),
    ensures
        palette_bytes(p).subrange(765, 768) == seq![0u8, 0u8, 255u8],
        forall|k: int|
            0 <= k < q.len() && #[trigger] remapped_indices(p, q)[k] != 255 ==> {
                let i = remapped_indices(p, q)[k] as int;
                &&& i < p.len()
                &&& denoised(p)[i].a == 255
            },
{
    assert(palette_bytes(p).subrange(765, 768) =~= seq![0u8, 0u8, 255u8]);
}

/// What the quantizer makes of the `width` × `height` raster `t` with this
/// library's settings.
pub open spec fn quantized(t: Seq<Pixel>, width: nat, height: nat) -> (Seq<Pixel>, Seq<u8>) {
    let (palette, indices) = quantized_of(bytes_of(t), width, height, 1, 1, seq![0u8, 0u8, 255u8, 0u8], true);
    (pixels_of(palette), indices)
}

/// Quantizes the `width` × `height` raster to an indexed raster and a palette
/// of 256 RGB colors. The quantizer runs at its slowest speed with full
/// dithering, keeps the last palette entry for transparency, and is given the
/// fixed transparent color (0, 0, 255, 0) so that a transparent entry is always
/// available; its result then goes through `finish_remap`. Fails on a zero
/// side, when the quantizer fails, or when it returns indices that do not fit
/// the raster or the palette.
pub fn remap_to_wad_texture(texture: &Vec<Pixel>, width: usize, height: usize) -> (r: Result<
    (Vec<u8>, [u8; 768]),
    ConvertError,
>)
    requires
        texture@.len() == width * height,
    ensures
        width == 0 || height == 0 ==> r is Err,
        r matches Ok(v) ==> {
            let (p, q) = quantized(texture@, width as nat, height as nat);
            &&& q.len() == width * height
            &&& indices_in_palette(p, q)
            &&& v.0@ == remapped_indices(p, q)
            &&& v.1@ == palette_bytes(p)
        },
        r matches Err(e) ==> e == ConvertError::Quantize,
{
    if width == 0 || height == 0 {
        return Err(ConvertError::Quantize);
    }
    let rgba = pixel_bytes(texture);
    let s = Pixel::sentinel();
    let fixed = [s.r, s.g, s.b, s.a];
    assert(fixed@ =~= seq![0u8, 0u8, 255u8, 0u8]);
    let (palette, indices) = match quantize(
        rgba.as_slice(),
        width,
        height,
        QUANTIZATION_SPEED,
        DITHERING_LEVEL,
        fixed,
        true,
    ) {
        Ok(pi) => pi,
        Err(_) => return Err(ConvertError::Quantize),
    };
    finish_remap(rgba_pixels(&palette), indices)
}

} // verus!
