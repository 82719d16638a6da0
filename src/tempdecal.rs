//! The tempdecal archive: one texture named "{LOGO" with filler mips.
use vstd::prelude::*;

use crate::encode::push_filled;
use crate::mipmap::{self, record_len, MipMap, MipMapView};
use crate::texture::WadData;
use crate::wad::{
    self, dir_entry_bytes, directory_bytes, header_bytes, records_bytes, records_len, wad_bytes, DirEntryName,
    Wad,
};

verus! {

/// The name of the texture in the archive: "{LOGO", zero-padded to 16 bytes.
pub open spec fn logo_name() -> Seq<u8> {
    seq![0x7bu8, 0x4cu8, 0x4fu8, 0x47u8, 0x4fu8, 0u8, 0u8, 0u8, 0u8, 0u8, 0u8, 0u8, 0u8, 0u8, 0u8, 0u8]
}

/// The name of the texture in the archive: "{LOGO", zero-padded to 16 bytes.
pub fn texture_name() -> (r: [u8; 16])
    ensures
        r@ == logo_name(),
{
    let r = [0x7bu8, 0x4cu8, 0x4fu8, 0x47u8, 0x4fu8, 0u8, 0u8, 0u8, 0u8, 0u8, 0u8, 0u8, 0u8, 0u8, 0u8, 0u8];
    assert(r@ =~= logo_name());
    r
}

/// `n` bytes of 0xff: the filler of the smaller mip levels.
pub open spec fn filler(n: nat) -> Seq<u8> {
    Seq::new(n, |_i: int| 0xffu8)
}

/// The texture record of a `w` × `h` indexed raster `idx` with palette `pal`
/// (256 RGB triples): mip 0 is `idx`, mips 1 to 3 are filled with 0xff.
pub open spec fn tempdecal_texture(idx: Seq<u8>, pal: Seq<u8>, w: u32, h: u32) -> MipMapView {
    let wh = w as nat * h as nat;
    MipMapView { width: w, height: h, data: seq![idx, filler(wh / 4), filler(wh / 16), filler(wh / 64)], palette: pal }
}

/// The tempdecal archive of a `w` × `h` indexed raster `idx` with palette `pal`:
/// the header ("WAD3", one entry, the directory right after the texture
/// record), the texture record named "{LOGO", and its directory entry (record
/// at offset 12).
#[verifier::opaque]
pub open spec fn tempdecal_bytes(idx: Seq<u8>, pal: Seq<u8>, w: u32, h: u32) -> Seq<u8> {
    let size = record_len(w as nat * h as nat);
    header_bytes(1, (12 + size) as u32)
        + tempdecal_texture(idx, pal, w, h).record_bytes(logo_name())
        + dir_entry_bytes(12, size as u32, logo_name())
}

proof fn lemma_single_entry<'a>(s: Seq<(DirEntryName, WadData<'a>)>, m: MipMapView)
    requires
        s.len() == 1,
        s[0].0@ == logo_name(),
        s[0].1 is MipMap,
        s[0].1->MipMap_0@ == m,
        m.palette.len() == 768,
        m.data.len() == 4,
        forall|k: nat| k < 4 ==> #[trigger] m.data[k as int].len() == mipmap::mip_len(m.pixels(), k),
    ensures
        wad::wad_len(s) == 12 + record_len(m.pixels()) + 32,
        wad::names_ascending(s),
{
    let e = Seq::<(DirEntryName, WadData<'a>)>::empty();
    assert(s.drop_last() =~= e);
    assert(s.last() == s[0]);
    assert(records_len(e) == 0);
    mipmap::lemma_record_len(m, logo_name());
}

proof fn lemma_tempdecal_layout<'a>(s: Seq<(DirEntryName, WadData<'a>)>, m: MipMapView)
    requires
        s.len() == 1,
        s[0].0@ == logo_name(),
        s[0].1 is MipMap,
        s[0].1->MipMap_0@ == m,
        m.palette.len() == 768,
        m.data.len() == 4,
        forall|k: nat| k < 4 ==> #[trigger] m.data[k as int].len() == mipmap::mip_len(m.pixels(), k),
        12 + record_len(m.pixels()) + 32 <= u32::MAX,
    ensures
        wad_bytes(s) == header_bytes(1, (12 + record_len(m.pixels())) as u32) + m.record_bytes(logo_name())
            + dir_entry_bytes(12, record_len(m.pixels()) as u32, logo_name()),
{
    let e = Seq::<(DirEntryName, WadData<'a>)>::empty();
    assert(s.drop_last() =~= e);
    assert(s.last() == s[0]);
    assert(records_len(e) == 0);
    assert(records_bytes(e) == Seq::<u8>::empty());
    assert(directory_bytes(e) == Seq::<u8>::empty());
    mipmap::lemma_record_len(m, logo_name());
    assert(records_len(s) == record_len(m.pixels()));
    assert(records_bytes(s) =~= m.record_bytes(logo_name()));
    assert(directory_bytes(s) =~= dir_entry_bytes(12, record_len(m.pixels()) as u32, logo_name()));
}

/// Writes the tempdecal archive of a `width` × `height` indexed raster: the
/// raster is mip 0, mips 1 to 3 are filled with 0xff, and the texture is named
/// "{LOGO".
pub fn make_tempdecal(palette: &[u8; 768], index_map: &Vec<u8>, width: usize, height: usize) -> (r: Vec<u8>)
    requires
        index_map@.len() == width * height,
        width <= u32::MAX,
        height <= u32::MAX,
        12 + record_len(width as nat * height as nat) + 32 <= u32::MAX,
    ensures
        r@ == tempdecal_bytes(index_map@, palette@, width as u32, height as u32),
{
    let wh = index_map.len();
    let mut m1: Vec<u8> = Vec::new();
    push_filled(&mut m1, 0xff, wh / 4);
    let mut m2: Vec<u8> = Vec::new();
    push_filled(&mut m2, 0xff, wh / 16);
    let mut m3: Vec<u8> = Vec::new();
    push_filled(&mut m3, 0xff, wh / 64);
    let data: [&[u8]; 4] = [index_map.as_slice(), m1.as_slice(), m2.as_slice(), m3.as_slice()];
    let ghost whn = width as nat * height as nat;
    assert(data@[0]@ == index_map@ && data@[1]@ == m1@ && data@[2]@ == m2@ && data@[3]@ == m3@);
    let mip = MipMap::new(width as u32, height as u32, data, palette);
    assert(index_map@.subrange(0, whn as int) =~= index_map@);
    assert(m1@.subrange(0, (whn / 4) as int) =~= m1@);
    assert(m2@.subrange(0, (whn / 16) as int) =~= m2@);
    assert(m3@.subrange(0, (whn / 64) as int) =~= m3@);
    let name = texture_name();
    let entries = vec![(name, WadData::MipMap(mip))];
    let ghost s = entries@;
    proof {
        lemma_single_entry(s, mip@);
    }
    let wad = Wad::new(entries);
    let mut out: Vec<u8> = Vec::new();
    wad.save(&mut out);
    proof {
        assert(mip@.data =~= seq![index_map@, filler(whn / 4), filler(whn / 16), filler(whn / 64)]);
        assert(mip@ == tempdecal_texture(index_map@, palette@, width as u32, height as u32));
        lemma_tempdecal_layout(s, mip@);
        assert(out@ =~= wad_bytes(s));
        reveal(tempdecal_bytes);
    }
    out
}

} // verus!
