//! The mip-mapped texture record of a WAD3 archive.
use vstd::prelude::*;

use crate::encode::{le_u16, le_u32, push_bytes, push_u16, push_u32};

verus! {

/// Number of colors in a texture's palette.
pub const PALETTE_COUNT: u16 = 256;

/// Number of bytes of a palette: three per color.
pub const PALETTE_BYTES: usize = 768;

/// Offset of the first mip level from the start of the texture record:
/// name (16), width (4), height (4) and four mip offsets (16).
pub const MIP0_OFFSET: u32 = 40;

/// Number of pixels of mip `level` for a texture of `wh` pixels: a quarter per level.
pub open spec fn mip_len(wh: nat, level: nat) -> nat {
    if level == 0 {
        wh
    } else if level == 1 {
        wh / 4
    } else if level == 2 {
        wh / 16
    } else {
        wh / 64
    }
}

/// Byte length of a texture record of `wh` pixels: fixed fields, four mips,
/// palette count, palette and two bytes of padding.
pub open spec fn record_len(wh: nat) -> nat {
    40 + wh + wh / 4 + wh / 16 + wh / 64 + 2 + 768 + 2
}

/// What a texture record holds.
pub struct MipMapView {
    pub width: u32,
    pub height: u32,
    /// The four mip levels, largest first.
    pub data: Seq<Seq<u8>>,
    /// 256 RGB triples.
    pub palette: Seq<u8>,
}

impl MipMapView {
    pub open spec fn pixels(self) -> nat {
        self.width as nat * self.height as nat
    }

    /// Offset of mip `level` from the start of the record.
    pub open spec fn mip_offset(self, level: nat) -> nat {
        let wh = self.pixels();
        if level == 0 {
            40
        } else if level == 1 {
            40 + wh
        } else if level == 2 {
            40 + wh + wh / 4
        } else {
            40 + wh + wh / 4 + wh / 16
        }
    }

    /// The record as it stands in the archive, under the entry name `name`.
    pub open spec fn record_bytes(self, name: Seq<u8>) -> Seq<u8> {
        name
            + le_u32(self.width)
            + le_u32(self.height)
            + le_u32(self.mip_offset(0) as u32)
            + le_u32(self.mip_offset(1) as u32)
            + le_u32(self.mip_offset(2) as u32)
            + le_u32(self.mip_offset(3) as u32)
            + self.data[0]
            + self.data[1]
            + self.data[2]
            + self.data[3]
            + le_u16(256)
            + self.palette
            + seq![0u8, 0u8]
    }
}

/// Byte length of a record whose mips have the sizes that its width and height give.
pub proof fn lemma_record_len(v: MipMapView, name: Seq<u8>)
    requires
        name.len() == 16,
        v.palette.len() == 768,
        v.data.len() == 4,
        forall|k: nat| k < 4 ==> #[trigger] v.data[k as int].len() == mip_len(v.pixels(), k),
    ensures
        v.record_bytes(name).len() == record_len(v.pixels()),
{
    assert(v.data[0].len() == mip_len(v.pixels(), 0));
    assert(v.data[1].len() == mip_len(v.pixels(), 1));
    assert(v.data[2].len() == mip_len(v.pixels(), 2));
    assert(v.data[3].len() == mip_len(v.pixels(), 3));
}

/// A texture with four mip levels and a 256-color palette, borrowing its data.
pub struct MipMap<'a> {
    width: u32,
    height: u32,
    data: [&'a [u8]; 4],
    palette: &'a [u8; 768],
}

impl<'a> View for MipMap<'a> {
    type V = MipMapView;

    closed spec fn view(&self) -> MipMapView {
        MipMapView {
            width: self.width,
            height: self.height,
            data: seq![self.data[0]@, self.data[1]@, self.data[2]@, self.data[3]@],
            palette: self.palette@,
        }
    }
}

impl<'a> MipMap<'a> {
    #[verifier::type_invariant]
    spec fn well_formed(self) -> bool {
        let wh = self.width as nat * self.height as nat;
        &&& record_len(wh) <= u32::MAX
        &&& self.data[0]@.len() == mip_len(wh, 0)
        &&& self.data[1]@.len() == mip_len(wh, 1)
        &&& self.data[2]@.len() == mip_len(wh, 2)
        &&& self.data[3]@.len() == mip_len(wh, 3)
    }

    /// A texture of `width` × `height` pixels. Each mip level is cut to its size:
    /// `width * height` bytes for the first, a quarter of the one before for the others.
    pub fn new(width: u32, height: u32, data: [&'a [u8]; 4], palette: &'a [u8; 768]) -> (m: Self)
        requires
            record_len(width as nat * height as nat) <= u32::MAX,
            forall|k: nat| k < 4 ==> mip_len(width as nat * height as nat, k) <= #[trigger] data@[k as int]@.len(),
        ensures
            m@.width == width,
            m@.height == height,
            m@.data == seq![
                data@[0]@.subrange(0, mip_len(width as nat * height as nat, 0) as int),
                data@[1]@.subrange(0, mip_len(width as nat * height as nat, 1) as int),
                data@[2]@.subrange(0, mip_len(width as nat * height as nat, 2) as int),
                data@[3]@.subrange(0, mip_len(width as nat * height as nat, 3) as int),
            ],
            m@.palette == palette@,
    {
        assert(mip_len(width as nat * height as nat, 0) <= data@[0]@.len());
        assert(mip_len(width as nat * height as nat, 1) <= data@[1]@.len());
        assert(mip_len(width as nat * height as nat, 2) <= data@[2]@.len());
        assert(mip_len(width as nat * height as nat, 3) <= data@[3]@.len());
        let wh = (width * height) as usize;
        let m = MipMap {
            width,
            height,
            data: [
                &data[0][0..wh],
                &data[1][0..wh / 4],
                &data[2][0..wh / 16],
                &data[3][0..wh / 64],
            ],
            palette,
        };
        assert(m@.data =~= seq![
            data@[0]@.subrange(0, mip_len(width as nat * height as nat, 0) as int),
            data@[1]@.subrange(0, mip_len(width as nat * height as nat, 1) as int),
            data@[2]@.subrange(0, mip_len(width as nat * height as nat, 2) as int),
            data@[3]@.subrange(0, mip_len(width as nat * height as nat, 3) as int),
        ]);
        m
    }

    pub fn width(&self) -> (r: u32)
        ensures
            r == self@.width,
    {
        self.width
    }

    pub fn height(&self) -> (r: u32)
        ensures
            r == self@.height,
    {
        self.height
    }

    /// Offsets of the four mip levels from the start of the record.
    pub fn data_offset(&self) -> (r: (u32, u32, u32, u32))
        ensures
            r.0 == self@.mip_offset(0),
            r.1 == self@.mip_offset(1),
            r.2 == self@.mip_offset(2),
            r.3 == self@.mip_offset(3),
    {
        proof {
            use_type_invariant(self);
        }
        let wh = self.width * self.height;
        let o0 = MIP0_OFFSET;
        let o1 = o0 + wh;
        let o2 = o1 + wh / 4;
        let o3 = o2 + wh / 16;
        (o0, o1, o2, o3)
    }

    /// Byte length of the record.
    pub fn size(&self) -> (r: u32)
        ensures
            r == record_len(self@.pixels()),
            forall|name: Seq<u8>| name.len() == 16 ==> #[trigger] self@.record_bytes(name).len() == r,
            forall|k: nat| k < 4 ==> #[trigger] self@.data[k as int].len() == mip_len(self@.pixels(), k),
    {
        proof {
            use_type_invariant(self);
        }
        let n = 16 + 4 + 4 + 16 + self.data[0].len() + self.data[1].len() + self.data[2].len()
            + self.data[3].len() + 2 + PALETTE_BYTES + 2;
        n as u32
    }

    /// Appends the record, under the entry name `name`.
    pub fn write(&self, out: &mut Vec<u8>, name: &[u8; 16])
        ensures
            final(out)@ == old(out)@ + self@.record_bytes(name@),
    {
        proof {
            use_type_invariant(self);
        }
        let (o0, o1, o2, o3) = self.data_offset();
        push_bytes(out, name);
        push_u32(out, self.width);
        push_u32(out, self.height);
        push_u32(out, o0);
        push_u32(out, o1);
        push_u32(out, o2);
        push_u32(out, o3);
        push_bytes(out, self.data[0]);
        push_bytes(out, self.data[1]);
        push_bytes(out, self.data[2]);
        push_bytes(out, self.data[3]);
        push_u16(out, PALETTE_COUNT);
        push_bytes(out, self.palette);
        push_bytes(out, &[0u8, 0u8]);
        assert(out@ =~= old(out)@ + self@.record_bytes(name@));
    }
}

} // verus!
