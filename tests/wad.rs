use img2tempdecal::{MipMap, Wad, WadData};

fn le32(b: &[u8], at: usize) -> u32 {
    u32::from_le_bytes([b[at], b[at + 1], b[at + 2], b[at + 3]])
}

fn name(s: &[u8]) -> [u8; 16] {
    let mut n = [0u8; 16];
    n[..s.len()].copy_from_slice(s);
    n
}

#[test]
fn mipmap_cuts_levels_and_places_them() {
    let m0 = vec![1u8; 300];
    let m1 = vec![2u8; 100];
    let m2 = vec![3u8; 50];
    let m3 = vec![4u8; 10];
    let pal = [9u8; 768];
    let m = MipMap::new(16, 16, [&m0, &m1, &m2, &m3], &pal);
    assert_eq!(m.width(), 16);
    assert_eq!(m.height(), 16);
    assert_eq!(m.data_offset(), (40, 296, 360, 376));
    assert_eq!(m.size(), 40 + 256 + 64 + 16 + 4 + 2 + 768 + 2);

    let mut out = Vec::new();
    m.write(&mut out, &name(b"ABC"));
    assert_eq!(out.len(), m.size() as usize);
    assert_eq!(&out[..16], &name(b"ABC"));
    assert_eq!(le32(&out, 16), 16);
    assert_eq!(le32(&out, 20), 16);
    assert_eq!(le32(&out, 24), 40);
    assert_eq!(le32(&out, 28), 296);
    assert_eq!(le32(&out, 32), 360);
    assert_eq!(le32(&out, 36), 376);
    assert!(out[40..296].iter().all(|&b| b == 1));
    assert!(out[296..360].iter().all(|&b| b == 2));
    assert!(out[360..376].iter().all(|&b| b == 3));
    assert!(out[376..380].iter().all(|&b| b == 4));
    assert_eq!(&out[380..382], &[0, 1]);
    assert!(out[382..1150].iter().all(|&b| b == 9));
    assert_eq!(&out[1150..], &[0, 0]);
}

#[test]
fn archive_with_one_texture() {
    let m0 = vec![7u8; 256];
    let m1 = vec![0xffu8; 64];
    let m2 = vec![0xffu8; 16];
    let m3 = vec![0xffu8; 4];
    let pal = [5u8; 768];
    let entry = WadData::from(MipMap::new(16, 16, [&m0, &m1, &m2, &m3], &pal));
    let n = name(b"{LOGO");
    let wad = Wad::new(vec![(n, entry)]);
    let mut out = Vec::new();
    wad.save(&mut out);
    assert_eq!(out.len(), wad.size());
    assert_eq!(out.len(), 12 + 1152 + 32);
    assert_eq!(&out[..4], b"WAD3");
    assert_eq!(le32(&out, 4), 1);
    assert_eq!(le32(&out, 8), 12 + 1152);
    assert_eq!(&out[12..28], &n);
    let dir = &out[12 + 1152..];
    assert_eq!(le32(dir, 0), 12);
    assert_eq!(le32(dir, 4), 1152);
    assert_eq!(le32(dir, 8), 1152);
    assert_eq!(&dir[12..16], &[0x43, 0, 0, 0]);
    assert_eq!(&dir[16..], &n);
}

#[test]
fn archive_with_two_textures_lists_both() {
    let a0 = vec![1u8; 256];
    let b0 = vec![2u8; 1024];
    let fill = vec![0xffu8; 256];
    let pal = [0u8; 768];
    let a = MipMap::new(16, 16, [&a0, &fill, &fill, &fill], &pal);
    let b = MipMap::new(32, 32, [&b0, &fill, &fill, &fill], &pal);
    let (sa, sb) = (a.size(), b.size());
    let wad = Wad::new(vec![(name(b"A"), WadData::MipMap(a)), (name(b"B"), WadData::MipMap(b))]);
    let mut out = Vec::new();
    wad.save(&mut out);
    assert_eq!(out.len(), wad.size());
    assert_eq!(out.len(), 12 + (sa + sb) as usize + 64);
    assert_eq!(le32(&out, 4), 2);
    assert_eq!(le32(&out, 8), 12 + sa + sb);
    let dir = &out[(12 + sa + sb) as usize..];
    assert_eq!(le32(dir, 0), 12);
    assert_eq!(le32(dir, 4), sa);
    assert_eq!(&dir[16..32], &name(b"A"));
    assert_eq!(le32(dir, 32), 12 + sa);
    assert_eq!(le32(dir, 36), sb);
    assert_eq!(&dir[48..64], &name(b"B"));
}

#[test]
fn empty_archive_is_a_bare_header() {
    let wad = Wad::new(Vec::new());
    let mut out = Vec::new();
    wad.save(&mut out);
    assert_eq!(out, b"WAD3\0\0\0\0\0\0\0\0".to_vec());
    assert_eq!(wad.size(), 12);
}

#[test]
fn save_appends_to_what_is_there() {
    let wad = Wad::new(Vec::new());
    let mut out = vec![1, 2, 3];
    wad.save(&mut out);
    assert_eq!(&out[..3], &[1, 2, 3]);
    assert_eq!(&out[3..7], b"WAD3");
}

#[test]
fn into_inner_gives_the_entries_back() {
    let m0 = vec![1u8; 256];
    let pal = [0u8; 768];
    let m = MipMap::new(16, 16, [&m0, &m0, &m0, &m0], &pal);
    let entries = Wad::new(vec![(name(b"X"), WadData::from(m))]).into_inner();
    assert_eq!(entries.len(), 1);
    assert_eq!(entries[0].0, name(b"X"));
    match &entries[0].1 {
        WadData::MipMap(m) => assert_eq!((m.width(), m.height()), (16, 16)),
    }
}
