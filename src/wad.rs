//! A WAD3 archive: header, entry data, then the directory.
use vstd::prelude::*;

use crate::encode::{le_u32, push_bytes, push_u32};
use crate::texture::WadData;

verus! {

/// The 16-byte, zero-padded name of an archive entry.
pub type DirEntryName = [u8; 16];

/// Byte length of the archive header: magic, entry count, directory offset.
pub const HEADER_SIZE: u32 = 12;

/// Byte length of one directory entry.
pub const DIR_ENTRY_SIZE: u32 = 32;

/// Whether name `a` comes strictly before name `b` in byte-wise lexicographic order.
pub open spec fn name_lt(a: Seq<u8>, b: Seq<u8>) -> bool {
    exists|k: int|
        0 <= k < a.len() && k < b.len() && a.take(k) == b.take(k) && a[k] < b[k]
}

/// Whether the entry names are strictly increasing, hence distinct.
pub open spec fn names_ascending<'a>(s: Seq<(DirEntryName, WadData<'a>)>) -> bool {
    forall|i: int, j: int| 0 <= i < j < s.len() ==> name_lt(s[i].0@, s[j].0@)
}

/// Byte length of the data of entry `e`.
pub open spec fn entry_len<'a>(e: (DirEntryName, WadData<'a>)) -> nat {
    e.1.record_bytes(e.0@).len()
}

/// Total byte length of the data of the entries of `s`.
pub open spec fn records_len<'a>(s: Seq<(DirEntryName, WadData<'a>)>) -> nat
    decreases s.len(),
{
    if s.len() == 0 {
        0
    } else {
        records_len(s.drop_last()) + entry_len(s.last())
    }
}

/// The data of the entries of `s`, one after the other.
pub open spec fn records_bytes<'a>(s: Seq<(DirEntryName, WadData<'a>)>) -> Seq<u8>
    decreases s.len(),
{
    if s.len() == 0 {
        Seq::empty()
    } else {
        records_bytes(s.drop_last()) + s.last().1.record_bytes(s.last().0@)
    }
}

/// The magic number that opens the archive: "WAD3".
pub open spec fn magic() -> Seq<u8> {
    seq![0x57u8, 0x41u8, 0x44u8, 0x33u8]
}

/// The archive header.
pub open spec fn header_bytes(dir_count: u32, dir_offset: u32) -> Seq<u8> {
    magic() + le_u32(dir_count) + le_u32(dir_offset)
}

/// One directory entry: where the data starts, its size twice (stored and
/// uncompressed), the type tag of a mip-mapped texture, no compression,
/// two bytes of padding and the name.
pub open spec fn dir_entry_bytes(data_offset: u32, size: u32, name: Seq<u8>) -> Seq<u8> {
    le_u32(data_offset) + le_u32(size) + le_u32(size) + seq![0x43u8, 0u8, 0u8, 0u8] + name
}

/// The directory of the entries of `s`, whose data follows the header in order.
pub open spec fn directory_bytes<'a>(s: Seq<(DirEntryName, WadData<'a>)>) -> Seq<u8>
    decreases s.len(),
{
    if s.len() == 0 {
        Seq::empty()
    } else {
        directory_bytes(s.drop_last()) + dir_entry_bytes(
            (12 + records_len(s.drop_last())) as u32,
            entry_len(s.last()) as u32,
            s.last().0@,
        )
    }
}

/// Offset of the directory: right after the data, or 0 for an archive without entries.
pub open spec fn directory_offset<'a>(s: Seq<(DirEntryName, WadData<'a>)>) -> u32 {
    if s.len() == 0 {
        0
    } else {
        (12 + records_len(s)) as u32
    }
}

/// The archive of the entries of `s`.
pub open spec fn wad_bytes<'a>(s: Seq<(DirEntryName, WadData<'a>)>) -> Seq<u8> {
    header_bytes(s.len() as u32, directory_offset(s)) + records_bytes(s) + directory_bytes(s)
}

/// Byte length of the archive of the entries of `s`.
pub open spec fn wad_len<'a>(s: Seq<(DirEntryName, WadData<'a>)>) -> nat {
    12 + records_len(s) + 32 * s.len()
}

proof fn lemma_records_len_prefix<'a>(s: Seq<(DirEntryName, WadData<'a>)>, i: int)
    requires
        0 <= i <= s.len(),
    ensures
        records_len(s.take(i)) <= records_len(s),
    decreases s.len(),
{
    if i < s.len() {
        assert(s.take(i) =~= s.drop_last().take(i));
        lemma_records_len_prefix(s.drop_last(), i);
    } else {
        assert(s.take(i) =~= s);
    }
}

proof fn lemma_wad_len<'a>(s: Seq<(DirEntryName, WadData<'a>)>)
    ensures
        wad_bytes(s).len() == wad_len(s),
{
    lemma_dir_len(s);
    lemma_records_bytes_len(s);
}

proof fn lemma_dir_len<'a>(s: Seq<(DirEntryName, WadData<'a>)>)
    ensures
        directory_bytes(s).len() == 32 * s.len(),
    decreases s.len(),
{
    if s.len() > 0 {
        lemma_dir_len(s.drop_last());
    }
}

proof fn lemma_records_bytes_len<'a>(s: Seq<(DirEntryName, WadData<'a>)>)
    ensures
        records_bytes(s).len() == records_len(s),
    decreases s.len(),
{
    if s.len() > 0 {
        lemma_records_bytes_len(s.drop_last());
    }
}

/// The archive header.
struct WadHeader {
    dir_count: u32,
    dir_offset: u32,
}

impl WadHeader {
    fn new(dir_count: u32, dir_offset: u32) -> (h: Self)
        ensures
            h.dir_count == dir_count,
            h.dir_offset == dir_offset,
    {
        WadHeader { dir_count, dir_offset }
    }

    fn size() -> (r: u32)
        ensures
            r == 12,
    {
        HEADER_SIZE
    }

    fn write(&self, out: &mut Vec<u8>)
        ensures
            final(out)@ == old(out)@ + header_bytes(self.dir_count, self.dir_offset),
    {
        push_bytes(out, &[0x57u8, 0x41u8, 0x44u8, 0x33u8]);
        push_u32(out, self.dir_count);
        push_u32(out, self.dir_offset);
        assert(out@ =~= old(out)@ + header_bytes(self.dir_count, self.dir_offset));
    }
}

/// The type of an entry's data.
#[derive(Clone, Copy)]
enum WadDirEntryType {
    MipMap,
}

impl WadDirEntryType {
    /// The tag that the directory stores for this type.
    fn tag(self) -> (r: u8)
        ensures
            r == 0x43,
    {
        match self {
            WadDirEntryType::MipMap => 0x43,
        }
    }
}

/// One entry of the directory.
struct WadDirEntry<'a> {
    data_offset: u32,
    size: u32,
    entry_type: WadDirEntryType,
    name: &'a DirEntryName,
}

impl<'a> WadDirEntry<'a> {
    fn new(data_offset: u32, size: u32, entry_type: WadDirEntryType, name: &'a DirEntryName) -> (e: Self)
        ensures
            e.data_offset == data_offset,
            e.size == size,
            e.name == name,
    {
        WadDirEntry { data_offset, size, entry_type, name }
    }

    fn entry_info_size() -> (r: u32)
        ensures
            r == 32,
    {
        DIR_ENTRY_SIZE
    }

    fn write(&self, out: &mut Vec<u8>)
        ensures
            final(out)@ == old(out)@ + dir_entry_bytes(self.data_offset, self.size, self.name@),
    {
        push_u32(out, self.data_offset);
        push_u32(out, self.size);
        push_u32(out, self.size);
        let tag = self.entry_type.tag();
        push_bytes(out, &[tag, 0u8, 0u8, 0u8]);
        push_bytes(out, self.name);
        assert(out@ =~= old(out)@ + dir_entry_bytes(self.data_offset, self.size, self.name@));
    }
}

/// An archive: entries in ascending order of their names.
pub struct Wad<'a>(Vec<(DirEntryName, WadData<'a>)>);

impl<'a> View for Wad<'a> {
    type V = Seq<(DirEntryName, WadData<'a>)>;

    closed spec fn view(&self) -> Seq<(DirEntryName, WadData<'a>)> {
        self.0@
    }
}

impl<'a> Wad<'a> {
    #[verifier::type_invariant]
    spec fn well_formed(self) -> bool {
        names_ascending(self.0@) && wad_len(self.0@) <= u32::MAX
    }

    /// An archive of the given entries, which must be in ascending order of
    /// their names and small enough for the format's 32-bit offsets.
    pub fn new(entries: Vec<(DirEntryName, WadData<'a>)>) -> (w: Self)
        requires
            names_ascending(entries@),
            wad_len(entries@) <= u32::MAX,
        ensures
            w@ == entries@,
    {
        Wad(entries)
    }

    /// The entries, in ascending order of their names.
    pub fn into_inner(self) -> (r: Vec<(DirEntryName, WadData<'a>)>)
        ensures
            r@ == self@,
            names_ascending(r@),
    {
        proof {
            use_type_invariant(&self);
        }
        self.0
    }

    /// Appends the archive: the header, the data of each entry, then the directory.
    pub fn save(&self, out: &mut Vec<u8>)
        ensures
            final(out)@ == old(out)@ + wad_bytes(self@),
    {
        proof {
            use_type_invariant(self);
        }
        let entries = &self.0;
        let n = entries.len();
        let mut directory: Vec<WadDirEntry> = Vec::new();
        let mut ofs: u32 = WadHeader::size();
        let mut i: usize = 0;
        while i < n
            invariant
                n == entries@.len(),
                i <= n,
                wad_len(entries@) <= u32::MAX,
                ofs == 12 + records_len(entries@.take(i as int)),
                directory@.len() == i,
                forall|k: int| 0 <= k < i ==> {
                    &&& (#[trigger] directory@[k]).data_offset == 12 + records_len(entries@.take(k))
                    &&& directory@[k].size == entry_len(entries@[k])
                    &&& directory@[k].name == entries@[k].0
                },
            decreases n - i,
        {
            let e = &entries[i];
            let size = e.1.size();
            proof {
                lemma_records_len_prefix(entries@, i + 1);
                assert(entries@.take(i + 1).drop_last() =~= entries@.take(i as int));
            }
            directory.push(WadDirEntry::new(ofs, size, WadDirEntryType::MipMap, &e.0));
            ofs = ofs + size;
            i = i + 1;
        }
        assert(entries@.take(n as int) =~= entries@);
        let dir_offset = if n == 0 { 0 } else { ofs };
        let header = WadHeader::new(n as u32, dir_offset);
        header.write(out);
        let ghost start = out@;

        let mut i: usize = 0;
        while i < n
            invariant
                n == entries@.len(),
                i <= n,
                out@ == start + records_bytes(entries@.take(i as int)),
            decreases n - i,
        {
            let e = &entries[i];
            e.1.write(out, &e.0);
            proof {
                assert(entries@.take(i + 1).drop_last() =~= entries@.take(i as int));
            }
            i = i + 1;
        }
        let ghost middle = out@;

        let mut i: usize = 0;
        while i < n
            invariant
                n == entries@.len(),
                i <= n,
                directory@.len() == n,
                forall|k: int| 0 <= k < n ==> {
                    &&& (#[trigger] directory@[k]).data_offset == 12 + records_len(entries@.take(k))
                    &&& directory@[k].size == entry_len(entries@[k])
                    &&& directory@[k].name == entries@[k].0
                },
                out@ == middle + directory_bytes(entries@.take(i as int)),
            decreases n - i,
        {
            directory[i].write(out);
            proof {
                let t = entries@.take(i + 1);
                assert(t.drop_last() =~= entries@.take(i as int));
                assert(t.last() == entries@[i as int]);
            }
            i = i + 1;
        }
        assert(out@ =~= old(out)@ + wad_bytes(self@));
    }

    /// Byte length of the archive that `save` appends.
    pub fn size(&self) -> (r: usize)
        ensures
            r == wad_len(self@),
            r == wad_bytes(self@).len(),
    {
        proof {
            use_type_invariant(self);
        }
        let entries = &self.0;
        let n = entries.len();
        let mut total: u32 = WadHeader::size();
        let mut i: usize = 0;
        while i < n
            invariant
                n == entries@.len(),
                i <= n,
                wad_len(entries@) <= u32::MAX,
                total == 12 + records_len(entries@.take(i as int)),
            decreases n - i,
        {
            let size = entries[i].1.size();
            proof {
                lemma_records_len_prefix(entries@, i + 1);
                assert(entries@.take(i + 1).drop_last() =~= entries@.take(i as int));
            }
            total = total + size;
            i = i + 1;
        }
        assert(entries@.take(n as int) =~= entries@);
        proof {
            lemma_wad_len(entries@);
        }
        let dir_size = WadDirEntry::entry_info_size() as usize;
        assert(n * dir_size == 32 * n) by (nonlinear_arith)
            requires
                dir_size == 32,
        ;
        total as usize + n * dir_size
    }
}

} // verus!
