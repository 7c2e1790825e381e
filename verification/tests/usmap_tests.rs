use john_wick_parse::mapping::smrt::{read_usmap, USMAP_MAGIC};
use john_wick_parse::mapping::TagMapping;

fn name(d: &mut Vec<u8>, s: &str) {
    d.push(s.len() as u8);
    d.extend_from_slice(s.as_bytes());
}

fn body() -> Vec<u8> {
    let mut d = Vec::new();
    // names: 0 Actor, 1 Object, 2 Health, 3 Tags, 4 EMode, 5 Fast, 6 Slow
    d.extend_from_slice(&7u32.to_le_bytes());
    for s in ["Actor", "Object", "Health", "Tags", "EMode", "Fast", "Slow"] {
        name(&mut d, s);
    }
    // one enum: EMode { Fast, Slow }
    d.extend_from_slice(&1u32.to_le_bytes());
    d.extend_from_slice(&4u32.to_le_bytes());
    d.push(2);
    d.extend_from_slice(&5u32.to_le_bytes());
    d.extend_from_slice(&6u32.to_le_bytes());
    // two classes
    d.extend_from_slice(&2u32.to_le_bytes());
    // Actor : Object, 3 properties, 2 stored
    d.extend_from_slice(&0u32.to_le_bytes());
    d.extend_from_slice(&1u32.to_le_bytes());
    d.extend_from_slice(&3u16.to_le_bytes());
    d.extend_from_slice(&2u16.to_le_bytes());
    d.extend_from_slice(&0u16.to_le_bytes());
    d.push(1);
    d.extend_from_slice(&2u32.to_le_bytes());
    d.push(3); // FloatProperty
    d.extend_from_slice(&2u16.to_le_bytes());
    d.push(1);
    d.extend_from_slice(&3u32.to_le_bytes());
    d.push(8); // ArrayProperty of
    d.push(5); // NameProperty
    // Object, no super class
    d.extend_from_slice(&1u32.to_le_bytes());
    d.extend_from_slice(&u32::MAX.to_le_bytes());
    d.extend_from_slice(&0u16.to_le_bytes());
    d.extend_from_slice(&0u16.to_le_bytes());
    d
}

fn usmap(method: u8, b: &[u8]) -> Vec<u8> {
    usmap_sized(method, b, b.len() as u32)
}

fn usmap_sized(method: u8, b: &[u8], size: u32) -> Vec<u8> {
    let mut d = Vec::new();
    d.extend_from_slice(&USMAP_MAGIC.to_le_bytes());
    d.push(0);
    d.push(method);
    d.extend_from_slice(&(b.len() as u32).to_le_bytes());
    d.extend_from_slice(&size.to_le_bytes());
    d.extend_from_slice(b);
    d
}

fn no_oodle(_i: &[u8], _n: u64) -> Option<Vec<u8>> {
    None
}

#[test]
fn uncompressed_usmap_is_read() {
    let (classes, enums) = read_usmap(usmap(0, &body()), &no_oodle).unwrap();
    assert_eq!(enums.len(), 1);
    assert_eq!(enums[0].name, "EMode");
    assert_eq!(enums[0].values, vec!["Fast".to_string(), "Slow".to_string()]);
    assert_eq!(classes.len(), 2);
    assert_eq!(classes[0].name, "Actor");
    assert_eq!(classes[0].super_type, Some("Object".to_string()));
    assert_eq!(classes[0].property_count, 3);
    assert_eq!(classes[0].properties.len(), 2);
    assert_eq!(classes[0].properties[0].name, "Health");
    assert!(matches!(classes[0].properties[0].mapping_type, TagMapping::FloatProperty));
    assert_eq!(classes[0].properties[1].index, 2);
    match &classes[0].properties[1].mapping_type {
        TagMapping::ArrayProperty { inner_type } => assert!(matches!(**inner_type, TagMapping::NameProperty)),
        _ => panic!("expected an array"),
    }
    assert_eq!(classes[1].super_type, None);
}

fn some_oodle(_i: &[u8], n: u64) -> Option<Vec<u8>> {
    let b = body();
    if b.len() as u64 == n { Some(b) } else { None }
}

#[test]
fn oodle_usmap_goes_through_the_decompressor() {
    let (classes, _) = read_usmap(usmap_sized(1, &[1, 2, 3], body().len() as u32), &some_oodle).unwrap();
    assert_eq!(classes.len(), 2);
}

#[test]
fn oodle_failure_is_an_error() {
    assert!(read_usmap(usmap(1, &[1, 2, 3]), &no_oodle).is_err());
}

#[test]
fn brotli_usmap_is_refused() {
    assert!(read_usmap(usmap(2, &body()), &no_oodle).is_err());
}

#[test]
fn wrong_usmap_magic_is_refused() {
    let mut d = usmap(0, &body());
    d[0] = 0;
    assert!(read_usmap(d, &no_oodle).is_err());
}

#[test]
fn name_index_out_of_range_is_an_error() {
    let mut b = body();
    // Point the first class's name at a missing name.
    let class_start = class_start_offset();
    b[class_start..class_start + 4].copy_from_slice(&99u32.to_le_bytes());
    assert!(read_usmap(usmap(0, &b), &no_oodle).is_err());
}

fn class_start_offset() -> usize {
    let mut n = 4;
    for s in ["Actor", "Object", "Health", "Tags", "EMode", "Fast", "Slow"] {
        n += 1 + s.len();
    }
    n += 4 + 4 + 1 + 4 + 4;
    n + 4
}

#[test]
fn unknown_property_type_is_an_error() {
    let mut b = body();
    let float_tag = class_start_offset() + 4 + 4 + 2 + 2 + 2 + 1 + 4;
    assert_eq!(b[float_tag], 3);
    b[float_tag] = 200;
    assert!(read_usmap(usmap(0, &b), &no_oodle).is_err());
}
