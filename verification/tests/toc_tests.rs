use john_wick_parse::dispatch::{parse_toc, EIoChunkType};

fn put_u32(d: &mut Vec<u8>, v: u32) {
    d.extend_from_slice(&v.to_le_bytes());
}

fn fstring(d: &mut Vec<u8>, s: &str) {
    put_u32(d, (s.len() + 1) as u32);
    d.extend_from_slice(s.as_bytes());
    d.push(0);
}

fn directory_index() -> Vec<u8> {
    let mut d = Vec::new();
    fstring(&mut d, "../../../");
    // one unnamed root directory with one file
    put_u32(&mut d, 1);
    for v in [u32::MAX, u32::MAX, u32::MAX, 0] {
        put_u32(&mut d, v);
    }
    put_u32(&mut d, 1);
    for v in [0, u32::MAX, 0] {
        put_u32(&mut d, v);
    }
    put_u32(&mut d, 1);
    fstring(&mut d, "global.utoc");
    d
}

fn toc(flags: u32) -> Vec<u8> {
    let dir = directory_index();
    let mut d = vec![0u8; 16];
    put_u32(&mut d, 2); // version
    put_u32(&mut d, 144); // header size
    put_u32(&mut d, 1); // entries
    put_u32(&mut d, 1); // compressed blocks
    put_u32(&mut d, 12); // block entry size
    put_u32(&mut d, 1); // method names
    put_u32(&mut d, 32); // method name length
    put_u32(&mut d, 65536); // block size
    put_u32(&mut d, dir.len() as u32); // directory index size
    put_u32(&mut d, 0);
    d.extend_from_slice(&0x0102030405060708u64.to_le_bytes());
    d.extend_from_slice(&[0u8; 16]);
    put_u32(&mut d, flags);
    d.resize(144, 0);
    // chunk id: id, index, type
    d.extend_from_slice(&42u64.to_le_bytes());
    d.extend_from_slice(&[0, 0, 0, 6]);
    // offset and length, big-endian 40 bits each
    d.extend_from_slice(&[0, 0, 0, 0, 0, 0, 0, 0, 1, 0]);
    // block: offset 0, compressed size 100, size 256, method 1
    d.extend_from_slice(&0u32.to_le_bytes());
    d.push(0);
    d.extend_from_slice(&[100, 0, 0]);
    d.extend_from_slice(&[0, 1, 0]);
    d.push(1);
    let mut name = [0u8; 32];
    name[..5].copy_from_slice(b"Oodle");
    d.extend_from_slice(&name);
    d.extend(dir);
    d
}

#[test]
fn table_of_contents_is_read() {
    let t = parse_toc(&toc(0), None).unwrap();
    assert_eq!(t.header.entry_count, 1);
    assert_eq!(t.header.container_id, 0x0102030405060708);
    assert_eq!(t.chunk_ids.len(), 1);
    assert_eq!(t.chunk_ids[0].id, 42);
    assert_eq!(t.chunk_ids[0].chunk_type, EIoChunkType::LoaderGlobalMeta);
    assert_eq!(t.offsets[0].offset, 0);
    assert_eq!(t.offsets[0].length, 256);
    assert_eq!(t.compressed_blocks.len(), 1);
    assert_eq!(t.compressed_blocks[0].compressed_size, 100);
    assert_eq!(t.compressed_blocks[0].size, 256);
    assert_eq!(t.compressed_blocks[0].compression_method, 1);
    assert_eq!(t.compression_methods, vec!["Oodle".to_string()]);
    assert!(t.key.is_none());
    assert_eq!(t.directory_index.mount_point, "../../../");
    assert_eq!(t.file_list, vec!["global.utoc".to_string()]);
}

#[test]
fn encrypted_table_of_contents_needs_a_key() {
    assert!(parse_toc(&toc(2), None).is_err());
}

#[test]
fn truncated_table_of_contents_fails() {
    let d = toc(0);
    assert!(parse_toc(&d[..150], None).is_err());
}
