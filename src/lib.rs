//! Converts an RGBA raster into a `tempdecal.wad` archive: one indexed-color
//! mip-mapped texture with a 256-entry palette whose last entry marks the
//! transparent pixels.
use vstd::prelude::*;

pub mod encode;
pub mod error;
pub mod extend;
pub mod fit;
pub mod mipmap;
pub mod pixel;
pub mod remap;
pub mod tempdecal;
pub mod texture;
pub mod wad;

pub use error::ConvertError;
pub use extend::extend_to_m16;
pub use fit::{calc_optimal_size, resize_to_fit_into_tempdecal, size_cap};
pub use mipmap::MipMap;
pub use pixel::{denoise, pixel_bytes, rgba_pixels, Pixel};
pub use remap::{finish_remap, remap_to_wad_texture};
pub use tempdecal::{make_tempdecal, texture_name};
pub use texture::WadData;
pub use wad::{DirEntryName, Wad};

use extend::{extended, extended_len};
use pixel::pixels_of;
use fit::{fitted, lemma_optimal_size_under_cap, optimal_size, size_cap_spec};
use remap::{indices_in_palette, palette_bytes, quantized, remapped_indices};
use tempdecal::tempdecal_bytes;

verus! {

/// The width and height of the texture made from a `width` × `height` raster:
/// padded to multiples of 16, then fitted under the area bound of the mode.
pub open spec fn tempdecal_size(width: nat, height: nat, larger_size: bool) -> (nat, nat) {
    optimal_size(extended_len(width), extended_len(height), size_cap_spec(larger_size))
}

/// The archive that the conversion of a `width` × `height` RGBA8 buffer
/// `texture` yields, or `None` when the quantizer's indices do not fit the
/// raster or its palette: the raster is padded, fitted to `tempdecal_size`,
/// quantized, and written out.
pub open spec fn converted(
    texture: Seq<u8>,
    width: nat,
    height: nat,
    larger_size: bool,
    use_point_resample: bool,
) -> Option<Seq<u8>> {
    let e = extended(pixels_of(texture), width, height);
    let size = tempdecal_size(width, height, larger_size);
    let (p, q) = quantized(fitted(e.0, e.1, e.2, size, use_point_resample), size.0, size.1);
    if q.len() == size.0 * size.1 && indices_in_palette(p, q) {
        Some(tempdecal_bytes(remapped_indices(p, q), palette_bytes(p), size.0 as u32, size.1 as u32))
    } else {
        None
    }
}

/// Converting the same buffer twice, with the same settings, gives the same
/// archive whenever both conversions succeed.
pub proof fn lemma_conversion_deterministic(
    texture: Seq<u8>,
    width: nat,
    height: nat,
    larger_size: bool,
    use_point_resample: bool,
    first: Seq<u8>,
    second: Seq<u8>,
)
    requires
        converted(texture, width, height, larger_size, use_point_resample) == Some(first),
        converted(texture, width, height, larger_size, use_point_resample) == Some(second),
    ensures
        first == second,
{
}

/// The texture made from a valid raster is at least 1 × 1 and has fewer pixels
/// than the area bound of the mode.
pub proof fn lemma_tempdecal_size_under_cap(width: nat, height: nat, larger_size: bool)
    requires
        width >= 1,
        height >= 1,
    ensures
        tempdecal_size(width, height, larger_size).0 >= 1,
        tempdecal_size(width, height, larger_size).1 >= 1,
        tempdecal_size(width, height, larger_size).0 * tempdecal_size(width, height, larger_size).1
            < size_cap_spec(larger_size),
{
    lemma_optimal_size_under_cap(extended_len(width), extended_len(height), size_cap_spec(larger_size));
}

proof fn lemma_sides_below_area(w: nat, h: nat, cap: nat)
    requires
        w >= 1,
        h >= 1,
        w * h < cap,
    ensures
        w < cap,
        h < cap,
{
    assert(w <= w * h && h <= w * h) by (nonlinear_arith)
        requires
            w >= 1,
            h >= 1,
    ;
}

/// Which input error, if any, a buffer of `len` bytes for a `width` × `height`
/// raster has.
pub open spec fn input_error(len: nat, width: nat, height: nat) -> Option<ConvertError> {
    if width == 0 || height == 0 {
        Some(ConvertError::ZeroSize)
    } else if len != 4 * (width * height) {
        Some(ConvertError::LengthMismatch)
    } else if extended_len(width) * extended_len(height) > usize::MAX {
        Some(ConvertError::TooLarge)
    } else {
        None
    }
}

/// Checks that a buffer of `len` bytes holds a `width` × `height` RGBA8 raster
/// that can be padded to multiples of 16 in memory.
fn check_input(len: usize, width: usize, height: usize) -> (r: Result<(), ConvertError>)
    ensures
        r == (match input_error(len as nat, width as nat, height as nat) {
            Some(e) => Err(e),
            None => Ok(()),
        }),
{
    if width == 0 || height == 0 {
        return Err(ConvertError::ZeroSize);
    }
    let w = width as u128;
    let h = height as u128;
    assert(w * h <= u64::MAX * u64::MAX && w * h == width as nat * height as nat) by (nonlinear_arith)
        requires
            w == width as nat,
            h == height as nat,
            width as nat <= u64::MAX,
            height as nat <= u64::MAX,
    ;
    let wh = w * h;
    if len % 4 != 0 || wh != (len / 4) as u128 {
        return Err(ConvertError::LengthMismatch);
    }
    assert(w <= u64::MAX / 4 && h <= u64::MAX / 4) by (nonlinear_arith)
        requires
            w * h * 4 <= u64::MAX,
            w >= 1,
            h >= 1,
    ;
    let ext_w = w + ((16 - width % 16) % 16) as u128;
    let ext_h = h + ((16 - height % 16) % 16) as u128;
    assert(ext_w == extended_len(width as nat) && ext_h == extended_len(height as nat));
    assert(ext_w * ext_h <= (u64::MAX / 4 + 16) * (u64::MAX / 4 + 16)) by (nonlinear_arith)
        requires
            ext_w <= u64::MAX / 4 + 16,
            ext_h <= u64::MAX / 4 + 16,
    ;
    if ext_w * ext_h > usize::MAX as u128 {
        return Err(ConvertError::TooLarge);
    }
    Ok(())
}

/// Converts an RGBA8 raster (`width` × `height` pixels, four bytes each, row by
/// row) into a tempdecal archive. The raster is padded to multiples of 16
/// (`extend_to_m16`), fitted under the area bound of the mode
/// (`resize_to_fit_into_tempdecal`, with nearest-neighbour resampling when
/// `use_point_resample`), quantized to 256 colors (`remap_to_wad_texture`) and
/// written out (`make_tempdecal`). `larger_size` selects the larger area bound,
/// which only Sven Co-op accepts.
pub fn convert_texture_to_tempdecal(
    texture: &[u8],
    width: usize,
    height: usize,
    larger_size: bool,
    use_point_resample: bool,
) -> (r: Result<Vec<u8>, ConvertError>)
    ensures
        input_error(texture@.len(), width as nat, height as nat) matches Some(e) ==> r == Err::<Vec<u8>, _>(e),
        r matches Ok(b) ==> converted(texture@, width as nat, height as nat, larger_size, use_point_resample)
            == Some(b@),
        r matches Err(e) ==> {
            ||| input_error(texture@.len(), width as nat, height as nat) == Some(e)
            ||| e == ConvertError::Quantize
            ||| e == ConvertError::Resample && tempdecal_size(width as nat, height as nat, larger_size)
                != (extended_len(width as nat), extended_len(height as nat))
        },
{
    match check_input(texture.len(), width, height) {
        Ok(()) => {},
        Err(e) => return Err(e),
    }
    let pixels = rgba_pixels(texture);
    assert(pixels@.len() == width * height);
    let ghost e = extended(pixels@, width as nat, height as nat);
    let (t, w1, h1) = extend_to_m16(pixels, width, height);
    assert(w1 == extended_len(width as nat) && h1 == extended_len(height as nat));
    let cap = size_cap(larger_size);
    let (t, w2, h2) = match resize_to_fit_into_tempdecal(t, w1, h1, larger_size, use_point_resample) {
        Ok(v) => v,
        Err(e) => return Err(e),
    };
    proof {
        lemma_sides_below_area(w2 as nat, h2 as nat, cap as nat);
    }
    let ghost size = tempdecal_size(width as nat, height as nat, larger_size);
    assert(t@ == fitted(e.0, e.1, e.2, size, use_point_resample));
    quantize_to_tempdecal(&t, w2, h2)
}

/// Quantizes a `width` × `height` raster whose area is under an area bound
/// and writes the tempdecal archive of the result.
fn quantize_to_tempdecal(texture: &Vec<Pixel>, width: usize, height: usize) -> (r: Result<Vec<u8>, ConvertError>)
    requires
        texture@.len() == width * height,
        1 <= width < 14337,
        1 <= height < 14337,
        width * height < 14337,
    ensures
        r matches Ok(b) ==> {
            let (p, q) = quantized(texture@, width as nat, height as nat);
            &&& q.len() == width * height
            &&& indices_in_palette(p, q)
            &&& b@ == tempdecal_bytes(remapped_indices(p, q), palette_bytes(p), width as u32, height as u32)
        },
        r matches Err(e) ==> e == ConvertError::Quantize,
{
    let (index_map, palette) = match remap_to_wad_texture(texture, width, height) {
        Ok(v) => v,
        Err(e) => return Err(e),
    };
    Ok(make_tempdecal(&palette, &index_map, width, height))
}

} // verus!
