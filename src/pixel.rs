//! RGBA pixels and the alpha threshold that makes transparency binary.
use vstd::prelude::*;

verus! {

/// One 8-bit RGBA pixel.
#[derive(Clone, Copy, Debug, PartialEq, Eq, Structural)]
pub struct Pixel {
    pub r: u8,
    pub g: u8,
    pub b: u8,
    pub a: u8,
}

/// Pure blue with zero alpha: the color of padding and of the masked palette slot.
pub open spec fn sentinel_pixel() -> Pixel {
    Pixel { r: 0, g: 0, b: 0xff, a: 0 }
}

/// Alpha after thresholding: at least half opaque becomes opaque, the rest transparent.
pub open spec fn threshold_alpha(a: u8) -> u8 {
    ((a / 128) * 255) as u8
}

/// A pixel with its alpha thresholded.
pub open spec fn denoised_pixel(p: Pixel) -> Pixel {
    Pixel { a: threshold_alpha(p.a), ..p }
}

/// Every pixel of `s` with its alpha thresholded.
pub open spec fn denoised(s: Seq<Pixel>) -> Seq<Pixel> {
    s.map_values(|p: Pixel| denoised_pixel(p))
}

/// Whether every pixel of `s` is fully opaque or fully transparent.
pub open spec fn binary_alpha(s: Seq<Pixel>) -> bool {
    forall|i: int| 0 <= i < s.len() ==> (#[trigger] s[i]).a == 0 || s[i].a == 255
}

impl Pixel {
    /// A pixel from its four channels.
    pub fn new(r: u8, g: u8, b: u8, a: u8) -> (p: Pixel)
        ensures
            p == (Pixel { r, g, b, a }),
    {
        Pixel { r, g, b, a }
    }

    /// The background color that stands for "nothing here": pure blue, fully transparent.
    pub fn sentinel() -> (p: Pixel)
        ensures
            p == sentinel_pixel(),
    {
        Pixel { r: 0, g: 0, b: 0xff, a: 0 }
    }
}

/// Thresholds the alpha of every pixel: `a / 128 * 255`, so that alpha becomes 0 or 255.
pub fn denoise(texture: &mut Vec<Pixel>)
    ensures
        final(texture)@ == denoised(old(texture)@),
        binary_alpha(final(texture)@),
{
    let n = texture.len();
    let mut i: usize = 0;
    while i < n
        invariant
            n == old(texture)@.len(),
            texture@.len() == n,
            i <= n,
            forall|k: int| 0 <= k < i ==> #[trigger] texture@[k] == denoised_pixel(old(texture)@[k]),
            forall|k: int| i <= k < n ==> #[trigger] texture@[k] == old(texture)@[k],
        decreases n - i,
    {
        let p = texture[i];
        texture.set(i, Pixel { a: p.a / 128 * 255, ..p });
        i = i + 1;
    }
    assert(texture@ =~= denoised(old(texture)@));
}

/// Thresholding alpha a second time changes nothing.
pub proof fn lemma_denoise_idempotent(s: Seq<Pixel>)
    ensures
        denoised(denoised(s)) == denoised(s),
        binary_alpha(denoised(s)),
{
    assert(denoised(denoised(s)) =~= denoised(s));
}

/// The pixels of an RGBA8 buffer: four bytes per pixel, red first.
pub open spec fn pixels_of(b: Seq<u8>) -> Seq<Pixel> {
    Seq::new(b.len() / 4, |i: int| Pixel { r: b[4 * i], g: b[4 * i + 1], b: b[4 * i + 2], a: b[4 * i + 3] })
}

/// Reads an RGBA8 buffer as pixels.
pub fn rgba_pixels(bytes: &[u8]) -> (r: Vec<Pixel>)
    ensures
        r@ == pixels_of(bytes@),
{
    let len = bytes.len();
    let n = len / 4;
    let mut out: Vec<Pixel> = Vec::new();
    let mut i: usize = 0;
    while i < n
        invariant
            len == bytes@.len(),
            n == len / 4,
            i <= n,
            out@ == pixels_of(bytes@).take(i as int),
        decreases n - i,
    {
        assert(4 * i + 3 < len);
        let k = 4 * i;
        out.push(Pixel { r: bytes[k], g: bytes[k + 1], b: bytes[k + 2], a: bytes[k + 3] });
        i = i + 1;
        assert(out@ =~= pixels_of(bytes@).take(i as int));
    }
    assert(out@ =~= pixels_of(bytes@));
    out
}

/// Channel `c` (0 red, 1 green, 2 blue, 3 alpha) of a pixel.
pub open spec fn rgba_channel(px: Pixel, c: int) -> u8 {
    if c == 0 {
        px.r
    } else if c == 1 {
        px.g
    } else if c == 2 {
        px.b
    } else {
        px.a
    }
}

/// The RGBA8 buffer of some pixels: four bytes per pixel, red first.
pub open spec fn bytes_of(s: Seq<Pixel>) -> Seq<u8> {
    Seq::new(4 * s.len(), |k: int| rgba_channel(s[k / 4], k % 4))
}

/// Writes pixels as an RGBA8 buffer.
pub fn pixel_bytes(pixels: &Vec<Pixel>) -> (r: Vec<u8>)
    ensures
        r@ == bytes_of(pixels@),
{
    let n = pixels.len();
    let mut out: Vec<u8> = Vec::new();
    let mut i: usize = 0;
    while i < n
        invariant
            n == pixels@.len(),
            i <= n,
            out@ == bytes_of(pixels@).take(4 * i),
        decreases n - i,
    {
        let p = pixels[i];
        out.push(p.r);
        out.push(p.g);
        out.push(p.b);
        out.push(p.a);
        let ghost j = i as int;
        i = i + 1;
        assert forall|k: int| 0 <= k < 4 * i implies #[trigger] out@[k] == bytes_of(pixels@)[k] by {
            if k >= 4 * j {
                assert(k / 4 == j);
            }
        }
        assert(out@ =~= bytes_of(pixels@).take(4 * i));
    }
    assert(out@ =~= bytes_of(pixels@));
    out
}

} // verus!
