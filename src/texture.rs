//! The kinds of data that an archive entry can hold.
use vstd::prelude::*;

use crate::mipmap::MipMap;

verus! {

/// The data of one archive entry.
pub enum WadData<'a> {
    MipMap(MipMap<'a>),
}

impl<'a> WadData<'a> {
    /// The entry's data as it stands in the archive, under the entry name `name`.
    pub open spec fn record_bytes(&self, name: Seq<u8>) -> Seq<u8> {
        match self {
            WadData::MipMap(m) => m@.record_bytes(name),
        }
    }

    /// Appends the entry's data, under the entry name `name`.
    pub fn write(&self, out: &mut Vec<u8>, name: &[u8; 16])
        ensures
            final(out)@ == old(out)@ + self.record_bytes(name@),
    {
        match self {
            WadData::MipMap(m) => m.write(out, name),
        }
    }

    /// Byte length of the entry's data.
    pub fn size(&self) -> (r: u32)
        ensures
            forall|name: Seq<u8>| name.len() == 16 ==> #[trigger] self.record_bytes(name).len() == r,
    {
        match self {
            WadData::MipMap(m) => m.size(),
        }
    }
}

impl<'a> From<MipMap<'a>> for WadData<'a> {
    fn from(t: MipMap<'a>) -> (r: Self)
        ensures
            r == WadData::MipMap(t),
    {
        WadData::MipMap(t)
    }
}

impl<'a> vstd::std_specs::convert::FromSpecImpl<MipMap<'a>> for WadData<'a> {
    open spec fn obeys_from_spec() -> bool {
        true
    }

    open spec fn from_spec(t: MipMap<'a>) -> Self {
        WadData::MipMap(t)
    }
}

} // verus!
