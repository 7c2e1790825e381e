use john_wick_parse::assets::locale::FTextLocalizationResource;

fn fstring(s: &str) -> Vec<u8> {
    let mut d = Vec::new();
    d.extend_from_slice(&((s.len() + 1) as i32).to_le_bytes());
    d.extend_from_slice(s.as_bytes());
    d.push(0);
    d
}

fn magic() -> Vec<u8> {
    let mut d = Vec::new();
    for w in [0x7574140Eu32, 0xFC034A67, 0x9D90154A, 0x1B7F37C3] {
        d.extend_from_slice(&w.to_le_bytes());
    }
    d
}

fn locres(string_index: i32) -> Vec<u8> {
    let mut d = magic();
    d.push(2);
    let offset_pos = d.len();
    d.extend_from_slice(&0i64.to_le_bytes());
    d.extend_from_slice(&1u32.to_le_bytes());
    d.extend_from_slice(&1u32.to_le_bytes());
    // namespace
    d.extend_from_slice(&0u32.to_le_bytes());
    d.extend(fstring("Menu"));
    d.extend_from_slice(&2u32.to_le_bytes());
    // keys
    d.extend_from_slice(&0u32.to_le_bytes());
    d.extend(fstring("Play"));
    d.extend_from_slice(&0u32.to_le_bytes());
    d.extend_from_slice(&string_index.to_le_bytes());
    d.extend_from_slice(&0u32.to_le_bytes());
    d.extend(fstring("Quit"));
    d.extend_from_slice(&0u32.to_le_bytes());
    d.extend_from_slice(&5i32.to_le_bytes());
    // strings
    let strings_at = d.len() as i64;
    d[offset_pos..offset_pos + 8].copy_from_slice(&strings_at.to_le_bytes());
    d.extend_from_slice(&1u32.to_le_bytes());
    d.extend(fstring("Jouer"));
    d.extend_from_slice(&1i32.to_le_bytes());
    d
}

#[test]
fn keys_point_at_strings() {
    let r = FTextLocalizationResource::from_buffer(&locres(0)).unwrap();
    assert_eq!(r.version, 2);
    assert_eq!(r.string_data.len(), 1);
    let ns = &r.string_data[0];
    assert_eq!(ns.namespace, "Menu");
    // The key whose string index is out of range is left out.
    assert_eq!(ns.data.len(), 1);
    assert_eq!(ns.data[0].key, "Play");
    assert_eq!(ns.data[0].data, "Jouer");
}

#[test]
fn keys_with_negative_index_are_left_out() {
    let r = FTextLocalizationResource::from_buffer(&locres(-1)).unwrap();
    assert_eq!(r.string_data[0].data.len(), 0);
}

#[test]
fn wrong_locres_magic_is_refused() {
    let mut d = locres(0);
    d[0] ^= 1;
    let e = FTextLocalizationResource::from_buffer(&d).err().unwrap();
    assert_eq!(e.get_properties(), &vec!["Wrong magic Guid".to_string()]);
}

#[test]
fn missing_string_offset_is_refused() {
    let mut d = magic();
    d.push(2);
    d.extend_from_slice(&(-1i64).to_le_bytes());
    let e = FTextLocalizationResource::from_buffer(&d).err().unwrap();
    assert_eq!(e.get_properties(), &vec!["No offset found".to_string()]);
}
