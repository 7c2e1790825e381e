use john_wick_parse::manifest::{Manifest, HEADER_MAGIC};
use std::io::Write;

fn fstring(s: &str) -> Vec<u8> {
    let mut d = Vec::new();
    if s.is_empty() {
        d.extend_from_slice(&0i32.to_le_bytes());
    } else {
        d.extend_from_slice(&((s.len() + 1) as i32).to_le_bytes());
        d.extend_from_slice(s.as_bytes());
        d.push(0);
    }
    d
}

fn guid(x: u8) -> Vec<u8> {
    vec![x; 16]
}

fn body() -> Vec<u8> {
    let mut b = Vec::new();
    // meta
    b.extend_from_slice(&0u32.to_le_bytes());
    b.push(1);
    b.extend_from_slice(&18u32.to_le_bytes());
    b.push(1);
    b.extend_from_slice(&42u32.to_le_bytes());
    b.extend(fstring("Fortnite"));
    b.extend(fstring("++Fortnite+Release-14.40"));
    b.extend(fstring("Game.exe"));
    b.extend(fstring(""));
    b.extend_from_slice(&1u32.to_le_bytes());
    b.extend(fstring("prereq"));
    b.extend(fstring(""));
    b.extend(fstring(""));
    b.extend(fstring(""));
    // chunk list: two chunks, field by field
    b.extend_from_slice(&0u32.to_le_bytes());
    b.push(0);
    b.extend_from_slice(&2u32.to_le_bytes());
    b.extend(guid(1));
    b.extend(guid(2));
    b.extend_from_slice(&11u64.to_le_bytes());
    b.extend_from_slice(&22u64.to_le_bytes());
    b.extend_from_slice(&[0xaa; 20]);
    b.extend_from_slice(&[0xbb; 20]);
    b.push(5);
    b.push(6);
    b.extend_from_slice(&1048576u32.to_le_bytes());
    b.extend_from_slice(&2048u32.to_le_bytes());
    b.extend_from_slice(&1000i64.to_le_bytes());
    b.extend_from_slice(&(-1i64).to_le_bytes());
    // file list: one file
    b.extend_from_slice(&0u32.to_le_bytes());
    b.push(0);
    b.extend_from_slice(&1u32.to_le_bytes());
    b.extend(fstring("Engine/a.pak"));
    b.extend(fstring(""));
    b.extend_from_slice(&[0xcc; 20]);
    b.push(3);
    b.extend_from_slice(&1u32.to_le_bytes());
    b.extend(fstring("tag"));
    b.extend_from_slice(&1u32.to_le_bytes());
    b.extend_from_slice(&28u32.to_le_bytes());
    b.extend(guid(2));
    b.extend_from_slice(&64u32.to_le_bytes());
    b.extend_from_slice(&128u32.to_le_bytes());
    b
}

fn manifest_bytes(magic: u32) -> Vec<u8> {
    let plain = body();
    let mut e = flate2::write::ZlibEncoder::new(Vec::new(), flate2::Compression::default());
    e.write_all(&plain).unwrap();
    let packed = e.finish().unwrap();
    let mut d = Vec::new();
    d.extend_from_slice(&magic.to_le_bytes());
    d.extend_from_slice(&41u32.to_le_bytes());
    d.extend_from_slice(&(plain.len() as u32).to_le_bytes());
    d.extend_from_slice(&(packed.len() as u32).to_le_bytes());
    d.extend_from_slice(&[0u8; 20]);
    d.push(1);
    d.extend_from_slice(&17u32.to_le_bytes());
    d.extend(packed);
    d
}

#[test]
fn manifest_lists_chunks_and_files() {
    let m = Manifest::from_buffer(&manifest_bytes(HEADER_MAGIC)).unwrap();
    assert_eq!(m.meta.app_name, "Fortnite");
    assert_eq!(m.meta.app_id, 42);
    assert_eq!(m.meta.prereq_ids, vec!["prereq".to_string()]);
    let chunks = m.get_chunks();
    assert_eq!(chunks.len(), 2);
    assert_eq!(chunks[0].guid.a, 0x01010101);
    assert_eq!(chunks[1].hash, 22);
    assert_eq!(chunks[1].sha_hash, [0xbb; 20]);
    assert_eq!(chunks[0].group_number, 5);
    assert_eq!(chunks[0].window_size, 1048576);
    assert_eq!(chunks[1].file_size, -1);
    let files = m.get_files();
    assert_eq!(files.len(), 1);
    assert_eq!(files[0].filename, "Engine/a.pak");
    assert_eq!(files[0].symlink_target, "");
    assert_eq!(files[0].meta_flags, 3);
    assert_eq!(files[0].install_tags, vec!["tag".to_string()]);
    assert_eq!(files[0].chunk_parts.len(), 1);
    assert_eq!(files[0].chunk_parts[0].offset, 64);
    assert_eq!(files[0].chunk_parts[0].size, 128);
    assert_eq!(files[0].file_size, 0);
}

#[test]
fn manifest_with_wrong_magic_is_refused() {
    let e = Manifest::from_buffer(&manifest_bytes(0x12345678)).err().unwrap();
    assert_eq!(e.get_properties(), &vec!["Manifest not valid".to_string()]);
}

#[test]
fn manifest_with_broken_stream_is_refused() {
    let mut d = manifest_bytes(HEADER_MAGIC);
    let n = d.len();
    for b in d[41..n].iter_mut() {
        *b = 0x5a;
    }
    assert!(Manifest::from_buffer(&d).is_err());
}

#[test]
fn truncated_manifest_is_refused() {
    let d = manifest_bytes(HEADER_MAGIC);
    assert!(Manifest::from_buffer(&d[..50]).is_err());
}
