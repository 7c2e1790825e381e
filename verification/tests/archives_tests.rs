use john_wick_parse::archives::{
    decompress_block, decrypt_with_key, ecb_decrypt_in_place, get_file_data, FPakEntry, FPakInfo, FPathHashIndexEntry,
    PAK_MAGIC, PAK_SIZE,
};
use john_wick_parse::reader::ReaderCursor;
use john_wick_parse::rijndael::rijndael_decrypt_buf;
use std::io::Write;

const KEY_HEX: &str = "000102030405060708090a0b0c0d0e0f101112131415161718191a1b1c1d1e1f";
const CIPHER: [u8; 16] = [
    0x8e, 0xa2, 0xb7, 0xca, 0x51, 0x67, 0x45, 0xbf, 0xea, 0xfc, 0x49, 0x90, 0x4b, 0x49, 0x60, 0x89,
];
const PLAIN: [u8; 16] = [
    0x00, 0x11, 0x22, 0x33, 0x44, 0x55, 0x66, 0x77, 0x88, 0x99, 0xaa, 0xbb, 0xcc, 0xdd, 0xee, 0xff,
];

fn key_bytes() -> Vec<u8> {
    (0u8..32).collect()
}

fn no_oodle(_input: &[u8], n: u64) -> Vec<u8> {
    vec![7u8; n as usize]
}

fn zlib(data: &[u8]) -> Vec<u8> {
    let mut e = flate2::write::ZlibEncoder::new(Vec::new(), flate2::Compression::default());
    e.write_all(data).unwrap();
    e.finish().unwrap()
}

#[test]
fn decrypt_with_key_matches_the_aes256_test_vector() {
    let out = decrypt_with_key(CIPHER.to_vec(), KEY_HEX);
    assert_eq!(out, PLAIN.to_vec());
}

#[test]
fn decrypt_with_key_accepts_upper_case_hex() {
    let upper = KEY_HEX.to_uppercase();
    let out = decrypt_with_key(CIPHER.to_vec(), &upper);
    assert_eq!(out, PLAIN.to_vec());
}

#[test]
fn ecb_decrypt_in_place_changes_the_buffer() {
    let mut buf = CIPHER.to_vec();
    ecb_decrypt_in_place(&key_bytes(), &mut buf);
    assert_eq!(buf, PLAIN.to_vec());
}

#[test]
fn rijndael_and_aes_agree() {
    let mut data = CIPHER.to_vec();
    data.extend_from_slice(&[0x55u8; 16]);
    let a = decrypt_with_key(data.clone(), KEY_HEX);
    let b = rijndael_decrypt_buf(&data, &key_bytes());
    assert_eq!(a, b);
    assert_eq!(&b[0..16], &PLAIN[..]);
}

#[test]
fn ecb_decryption_of_a_concatenation_is_the_concatenation() {
    let first = CIPHER.to_vec();
    let second: Vec<u8> = (100u8..132).collect();
    let mut both = first.clone();
    both.extend_from_slice(&second);
    let whole = decrypt_with_key(both, KEY_HEX);
    let mut parts = decrypt_with_key(first, KEY_HEX);
    parts.extend(decrypt_with_key(second, KEY_HEX));
    assert_eq!(whole, parts);
    assert_eq!(whole.len(), 48);
}

#[test]
fn zlib_blocks_inflate() {
    let input = zlib(b"hello, pak");
    let out = decompress_block(&input, 10, "Zlib", &no_oodle).unwrap();
    assert_eq!(out, b"hello, pak".to_vec());
}

#[test]
fn broken_zlib_blocks_fail() {
    let out = decompress_block(&[1, 2, 3, 4], 10, "Zlib", &no_oodle);
    assert!(out.is_err());
}

#[test]
fn oodle_blocks_go_to_the_decompressor() {
    let out = decompress_block(&[1, 2, 3], 4, "Oodle", &no_oodle).unwrap();
    assert_eq!(out, vec![7u8; 4]);
}

#[test]
fn unknown_methods_yield_nothing() {
    let out = decompress_block(&[1, 2, 3], 4, "Gzip", &no_oodle).unwrap();
    assert!(out.is_empty());
}

fn footer(encrypted: bool) -> Vec<u8> {
    let mut d = Vec::new();
    d.extend_from_slice(&[1u8; 16]);
    d.push(if encrypted { 1 } else { 0 });
    d.extend_from_slice(&PAK_MAGIC.to_le_bytes());
    d.extend_from_slice(&8u32.to_le_bytes());
    d.extend_from_slice(&1000u64.to_le_bytes());
    d.extend_from_slice(&64u64.to_le_bytes());
    d.extend_from_slice(&[9u8; 20]);
    for name in ["Zlib", "Oodle", "", "", ""] {
        let mut field = [0u8; 32];
        field[..name.len()].copy_from_slice(name.as_bytes());
        d.extend_from_slice(&field);
    }
    d
}

#[test]
fn pak_footer_is_read() {
    let d = footer(true);
    assert_eq!(d.len(), PAK_SIZE as usize);
    let mut r = ReaderCursor::new(&d);
    let info = FPakInfo::new(&mut r).unwrap();
    assert!(info.is_index_encrypted());
    assert_eq!(info.get_index_sizes(), (1000, 64));
    let methods = info.get_compression_methods();
    assert_eq!(methods.len(), 5);
    assert_eq!(methods[0], "Zlib");
    assert_eq!(methods[1], "Oodle");
    assert_eq!(methods[2], "");
    assert_eq!(info.get_key_guid().a, 0x01010101);
    assert_eq!(r.position(), PAK_SIZE as u64);
}

#[test]
fn short_pak_footer_fails() {
    let d = footer(false);
    let mut r = ReaderCursor::new(&d[..100]);
    assert!(FPakInfo::new(&mut r).is_err());
}

#[test]
fn full_entry_record_is_read() {
    let mut d = Vec::new();
    d.extend_from_slice(&(-5i64).to_le_bytes());
    d.extend_from_slice(&300u64.to_le_bytes());
    d.extend_from_slice(&300u64.to_le_bytes());
    d.extend_from_slice(&0u32.to_le_bytes());
    d.extend_from_slice(&[3u8; 20]);
    d.push(1);
    d.extend_from_slice(&0u32.to_le_bytes());
    let mut r = ReaderCursor::new(&d);
    let e = FPakEntry::new(&mut r, "Game/a.uasset".to_string()).unwrap();
    assert_eq!(e.position, -5);
    assert_eq!(e.size, 300);
    assert!(e.encrypted);
    assert_eq!(e.hash, [3u8; 20]);
    assert_eq!(e.struct_size, 53);
    assert_eq!(e.get_filename(), "Game/a.uasset");
}

#[test]
fn encoded_entry_is_decoded() {
    // Offset fits in 32 bits, uncompressed size fits in 32 bits, not compressed,
    // encrypted.
    let flags: u32 = 0x8000_0000 | 0x4000_0000 | 0x40_0000;
    let mut enc = Vec::new();
    enc.extend_from_slice(&flags.to_le_bytes());
    enc.extend_from_slice(&4096u32.to_le_bytes());
    enc.extend_from_slice(&77u32.to_le_bytes());
    let mut r = ReaderCursor::new(&enc);
    let index = FPathHashIndexEntry { key: "b.uexp".to_string(), location: 0 };
    let e = FPakEntry::from_encoded(&mut r, "Game/", &index).unwrap();
    assert_eq!(e.get_filename(), "Game/b.uexp");
    assert_eq!(e.position, 4096);
    assert_eq!(e.size, 77);
    assert!(e.encrypted);
    assert_eq!(e.struct_size, 53);
}

#[test]
fn encoded_entry_past_the_end_fails() {
    let enc = vec![0u8; 6];
    let mut r = ReaderCursor::new(&enc);
    let index = FPathHashIndexEntry { key: "x".to_string(), location: 4 };
    assert!(FPakEntry::from_encoded(&mut r, "", &index).is_err());
}

fn encoded_entry(flags: u32, fields: &[u32]) -> FPakEntry {
    let mut enc = Vec::new();
    enc.extend_from_slice(&flags.to_le_bytes());
    for f in fields {
        enc.extend_from_slice(&f.to_le_bytes());
    }
    let mut r = ReaderCursor::new(&enc);
    let index = FPathHashIndexEntry { key: "f.bin".to_string(), location: 0 };
    FPakEntry::from_encoded(&mut r, "", &index).unwrap()
}

#[test]
fn compressed_file_data_is_inflated() {
    let plain = b"some file contents, some file contents".to_vec();
    let packed = zlib(&plain);
    // 32-bit offset, size and uncompressed size; Zlib (method 1); one block.
    let flags: u32 = 0x8000_0000 | 0x4000_0000 | 0x2000_0000 | (1 << 23) | (1 << 6);
    let entry = encoded_entry(flags, &[0, plain.len() as u32, packed.len() as u32]);
    assert_eq!(entry.struct_size, 73);
    let methods = vec!["Zlib".to_string()];
    let out = get_file_data(&entry, packed.clone(), &[], &methods, &no_oodle).unwrap();
    assert_eq!(out, plain);
    // Bytes that do not fit the entry are refused.
    let mut longer = packed;
    longer.push(0);
    assert!(get_file_data(&entry, longer, &[], &methods, &no_oodle).is_err());
}

#[test]
fn encrypted_file_data_is_decrypted_and_cut() {
    // 32-bit offset and size, encrypted, not compressed, 17 bytes.
    let flags: u32 = 0x8000_0000 | 0x4000_0000 | 0x40_0000;
    let entry = encoded_entry(flags, &[0, 17]);
    let mut raw = CIPHER.to_vec();
    raw.extend_from_slice(&CIPHER);
    let out = get_file_data(&entry, raw.clone(), &key_bytes(), &vec![], &no_oodle).unwrap();
    assert_eq!(out.len(), 17);
    assert_eq!(&out[..16], &PLAIN[..]);
    assert_eq!(out[16], PLAIN[0]);
    // The encrypted span is the size rounded up to whole blocks.
    assert!(get_file_data(&entry, raw[..17].to_vec(), &key_bytes(), &vec![], &no_oodle).is_err());
}
