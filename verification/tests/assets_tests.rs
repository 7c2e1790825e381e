use john_wick_parse::assets::{
    divide_round_up, read_short_string, read_string, read_tarray, FByteBulkData, FColor, FFragment, FGuid,
    FMappedName, FMappedNameType, FPackageObjectIndex, FPackageObjectIndexType, FStripDataFlags,
    FUnversionedHeader, Newable, ParserError, ParserType,
};
use john_wick_parse::dispatch::FNameMap;
use john_wick_parse::reader::ReaderCursor;

fn fstring(s: &str) -> Vec<u8> {
    let mut d = Vec::new();
    d.extend_from_slice(&((s.len() + 1) as i32).to_le_bytes());
    d.extend_from_slice(s.as_bytes());
    d.push(0);
    d
}

#[test]
fn ascii_strings_drop_their_terminator() {
    let d = fstring("Hello");
    let mut r = ReaderCursor::new(&d);
    assert_eq!(read_string(&mut r).unwrap(), "Hello");
    assert_eq!(r.position(), 10);
}

#[test]
fn utf16_strings_are_read() {
    let mut d = Vec::new();
    d.extend_from_slice(&(-3i32).to_le_bytes());
    for u in ["é".encode_utf16().next().unwrap(), 'x' as u16, 0u16] {
        d.extend_from_slice(&u.to_le_bytes());
    }
    let mut r = ReaderCursor::new(&d);
    assert_eq!(read_string(&mut r).unwrap(), "éx");
    assert_eq!(r.position(), 10);
}

#[test]
fn empty_string_is_four_bytes() {
    let d = 0i32.to_le_bytes();
    let mut r = ReaderCursor::new(&d);
    assert_eq!(read_string(&mut r).unwrap(), "");
    assert_eq!(r.position(), 4);
}

#[test]
fn overlong_string_is_an_error() {
    let d = 70000i32.to_le_bytes();
    let mut r = ReaderCursor::new(&d);
    assert!(read_string(&mut r).is_err());
}

#[test]
fn invalid_utf8_string_is_an_error() {
    let d = [3u8, 0, 0, 0, 0xff, 0xfe, 0];
    let mut r = ReaderCursor::new(&d);
    assert!(read_string(&mut r).is_err());
}

#[test]
fn short_strings_have_a_two_byte_header() {
    let d = [0u8, 3, b'a', b'b', b'c'];
    let mut r = ReaderCursor::new(&d);
    assert_eq!(read_short_string(&mut r).unwrap(), "abc");
    let d = [0x80u8, 1, b'z', 0];
    let mut r = ReaderCursor::new(&d);
    assert_eq!(read_short_string(&mut r).unwrap(), "z");
}

#[test]
fn arrays_are_counted() {
    let mut d = Vec::new();
    d.extend_from_slice(&2u32.to_le_bytes());
    d.extend(fstring("a"));
    d.extend(fstring("bc"));
    let mut r = ReaderCursor::new(&d);
    let v: Vec<String> = read_tarray(&mut r).unwrap();
    assert_eq!(v, vec!["a".to_string(), "bc".to_string()]);
}

#[test]
fn short_array_is_an_error() {
    let mut d = Vec::new();
    d.extend_from_slice(&3u32.to_le_bytes());
    d.extend_from_slice(&7u32.to_le_bytes());
    let mut r = ReaderCursor::new(&d);
    let v: Result<Vec<u32>, ParserError> = read_tarray(&mut r);
    assert!(v.is_err());
}

#[test]
fn guid_is_four_words() {
    let d: Vec<u8> = (1u8..=16).collect();
    let mut r = ReaderCursor::new(&d);
    let g = FGuid::new(&mut r).unwrap();
    assert_eq!(g, FGuid { a: 0x04030201, b: 0x08070605, c: 0x0c0b0a09, d: 0x100f0e0d });
}

#[test]
fn mapped_name_splits_index_and_type() {
    let mut d = Vec::new();
    d.extend_from_slice(&(0x4000_0005u32).to_le_bytes());
    d.extend_from_slice(&9u32.to_le_bytes());
    let mut r = ReaderCursor::new(&d);
    let n = FMappedName::new(&mut r).unwrap();
    assert_eq!(n.index, 5);
    assert_eq!(n.number, 9);
    assert_eq!(n.name_type, FMappedNameType::Container);
    let map = FNameMap::from_strings((0..6).map(|i| format!("n{}", i)).collect());
    assert_eq!(n.get_name(&map).unwrap(), "n5");
}

#[test]
fn mapped_name_of_unknown_type_is_an_error() {
    let mut d = Vec::new();
    d.extend_from_slice(&(0xC000_0000u32).to_le_bytes());
    d.extend_from_slice(&0u32.to_le_bytes());
    let mut r = ReaderCursor::new(&d);
    assert!(FMappedName::new(&mut r).is_err());
}

#[test]
fn object_index_splits_without_loss() {
    let raw: u64 = (2u64 << 62) | 12345;
    let o = FPackageObjectIndex::from_raw(raw);
    assert_eq!(o.get_index(), 12345);
    assert_eq!(o.index_type, FPackageObjectIndexType::PackageImport);
    let back = ((2u64) << 62) | o.get_index();
    assert_eq!(back, raw);
    assert_eq!(FPackageObjectIndex::from_raw(u64::MAX).index_type, FPackageObjectIndexType::Null);
}

#[test]
fn divide_round_up_is_the_least_cover() {
    assert_eq!(divide_round_up(0, 32), 0);
    assert_eq!(divide_round_up(1, 32), 1);
    assert_eq!(divide_round_up(32, 32), 1);
    assert_eq!(divide_round_up(33, 32), 2);
    let r = divide_round_up(100, 7);
    assert!(r * 7 >= 100 && (r - 1) * 7 < 100);
}

#[test]
fn strip_flags() {
    let d = [3u8, 4];
    let mut r = ReaderCursor::new(&d);
    let f = FStripDataFlags::new(&mut r).unwrap();
    assert!(f.is_editor_data_stripped());
    assert!(f.is_data_stripped_for_server());
    assert!(f.is_class_data_stripped(4));
    assert!(!f.is_class_data_stripped(1));
}

#[test]
fn colour_is_stored_blue_first() {
    let d = [1u8, 2, 3, 4];
    let mut r = ReaderCursor::new(&d);
    let c = FColor::new(&mut r).unwrap();
    assert_eq!((c.r, c.g, c.b, c.a), (3, 2, 1, 4));
}

#[test]
fn fragment_word_packs_five_fields() {
    // skip 3, zero flag, last flag, 5 values
    let w: u16 = 3 | 0x80 | 0x100 | (5 << 9);
    let d = w.to_le_bytes();
    let mut r = ReaderCursor::new(&d);
    let f = FFragment::new(&mut r).unwrap();
    assert_eq!(f.skip_num, 3);
    assert!(f.has_zeroes);
    assert!(f.is_last);
    assert_eq!(f.value, 5);
}

#[test]
fn unversioned_header_lists_increasing_indices() {
    let words: [u16; 2] = [2 | (3 << 9), 1 | 0x80 | 0x100 | (2 << 9)];
    let mut d = Vec::new();
    for w in words {
        d.extend_from_slice(&w.to_le_bytes());
    }
    // Two zero bits are used: one mask byte.
    d.push(0b0000_0010);
    let mut r = ReaderCursor::new(&d);
    let h = FUnversionedHeader::new(&mut r).unwrap();
    let idx = h.get_indices();
    let got: Vec<(u32, bool)> = idx.iter().map(|p| (p.index, p.zero)).collect();
    assert_eq!(got, vec![(2, false), (3, false), (4, false), (6, false), (7, true)]);
    for k in 1..idx.len() {
        assert!(idx[k - 1].index < idx[k].index);
    }
    assert_eq!(r.position(), 5);
}

#[test]
fn inline_bulk_data_is_read() {
    let mut d = Vec::new();
    d.extend_from_slice(&0x40i32.to_le_bytes());
    d.extend_from_slice(&3i32.to_le_bytes());
    d.extend_from_slice(&3i32.to_le_bytes());
    d.extend_from_slice(&0i64.to_le_bytes());
    d.extend_from_slice(&[7, 8, 9]);
    let mut r = ReaderCursor::new(&d);
    let mut ubulk = None;
    let b = FByteBulkData::new(&mut r, &mut ubulk).unwrap();
    assert_eq!(b.data, vec![7, 8, 9]);
    assert_eq!(r.position(), 23);
}

#[test]
fn separate_bulk_data_needs_the_bulk_file() {
    let mut d = Vec::new();
    d.extend_from_slice(&0x100i32.to_le_bytes());
    d.extend_from_slice(&2i32.to_le_bytes());
    d.extend_from_slice(&2i32.to_le_bytes());
    d.extend_from_slice(&1i64.to_le_bytes());
    let mut r = ReaderCursor::new(&d);
    let mut none = None;
    assert!(FByteBulkData::new(&mut r, &mut none).is_err());
    let u = [10u8, 11, 12, 13];
    let mut r = ReaderCursor::new(&d);
    let mut ubulk = Some(ReaderCursor::new(&u));
    let b = FByteBulkData::new(&mut r, &mut ubulk).unwrap();
    assert_eq!(b.data, vec![11, 12]);
}

#[test]
fn errors_collect_messages_outward() {
    let e = ParserError::new("inner".to_string());
    let e = ParserError::add(e, "outer".to_string());
    assert_eq!(e.get_properties(), &vec!["inner".to_string(), "outer".to_string()]);
    assert_eq!(*e.get_type(), ParserType::Unknown);
    let t = ParserError::typed("x".to_string(), ParserType::PropertyIndexMissing);
    assert_eq!(*t.get_type(), ParserType::PropertyIndexMissing);
}
