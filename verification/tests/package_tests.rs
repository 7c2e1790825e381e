use john_wick_parse::assets::exports::{read_exports, Export, Texture2D};
use john_wick_parse::assets::properties::{FPropertyTagType, UObject};
use john_wick_parse::assets::{
    export_positions, parse_package_header, FByteBulkData, FByteBulkDataHeader, FMappedName, FMappedNameType,
    FPackageObjectIndex, FPackageObjectIndexType, FTexture2DMipMap, FTexturePlatformData, Package,
};
use john_wick_parse::texture::{decode_texture, read_texture};
use john_wick_parse::dispatch::{FNameMap, FScriptObjectEntry, InitialLoadMetaData, LoaderGlobalData};
use john_wick_parse::mapping::{ClassMapping, MappingStore, PropertyMapping, TagMapping};

fn put_i32(d: &mut Vec<u8>, v: i32) {
    d.extend_from_slice(&v.to_le_bytes());
}

fn package() -> Vec<u8> {
    let mut d = Vec::new();
    // summary: two mapped names, flags, header size, then the offsets
    d.extend_from_slice(&[0u8; 16]);
    put_i32(&mut d, 0);
    put_i32(&mut d, 0);
    put_i32(&mut d, 64); // name map offset
    put_i32(&mut d, 6); // name map size
    put_i32(&mut d, 0);
    put_i32(&mut d, 0);
    put_i32(&mut d, 75); // import map offset
    put_i32(&mut d, 83); // export map offset
    put_i32(&mut d, 155); // export bundle offset
    put_i32(&mut d, 171); // graph data offset
    put_i32(&mut d, 4); // graph data size
    put_i32(&mut d, 0);
    assert_eq!(d.len(), 64);
    // names: the one at the end offset is read too
    d.extend_from_slice(&[0, 4, b'N', b'o', b'n', b'e']);
    d.extend_from_slice(&[0, 3, b'O', b'b', b'j']);
    // one import: a script import
    d.extend_from_slice(&((1u64 << 62) | 7).to_le_bytes());
    // one export
    d.extend_from_slice(&0u64.to_le_bytes());
    d.extend_from_slice(&16u64.to_le_bytes());
    d.extend_from_slice(&1u32.to_le_bytes());
    d.extend_from_slice(&0u32.to_le_bytes());
    for raw in [u64::MAX, (1u64 << 62) | 9, u64::MAX, u64::MAX, 5u64] {
        d.extend_from_slice(&raw.to_le_bytes());
    }
    d.extend_from_slice(&0u32.to_le_bytes());
    d.extend_from_slice(&[0u8; 4]);
    assert_eq!(d.len(), 155);
    // export bundle: one entry that serializes export 0
    d.extend_from_slice(&0u32.to_le_bytes());
    d.extend_from_slice(&1u32.to_le_bytes());
    d.extend_from_slice(&0u32.to_le_bytes());
    d.extend_from_slice(&1u32.to_le_bytes());
    // graph data: no imported packages
    d.extend_from_slice(&0u32.to_le_bytes());
    // the export's 16 bytes
    d.extend_from_slice(&[0xee; 16]);
    d
}

#[test]
fn package_header_is_read() {
    let d = package();
    let h = parse_package_header(&d).unwrap();
    assert_eq!(h.name_map.get_name(0).unwrap(), "None");
    assert_eq!(h.name_map.get_name(1).unwrap(), "Obj");
    assert!(h.name_map.get_name(2).is_err());
    assert_eq!(h.import_map.len(), 1);
    assert_eq!(h.import_map[0].index, 7);
    assert_eq!(h.import_map[0].index_type, FPackageObjectIndexType::ScriptImport);
    assert_eq!(h.export_map.len(), 1);
    assert_eq!(h.export_map[0].serial_size, 16);
    assert_eq!(h.export_map[0].object_name.index, 1);
    assert_eq!(h.export_map[0].class_index.index, 9);
    assert_eq!(h.export_map[0].class_index.index_type, FPackageObjectIndexType::ScriptImport);
    assert_eq!(h.export_order, vec![0]);
    assert!(h.graph_data.is_empty());
    assert_eq!(h.export_start, 175);
}

#[test]
fn exports_follow_one_another() {
    let d = package();
    let h = parse_package_header(&d).unwrap();
    let pos = export_positions(&h.export_map, &h.export_order, h.export_start).unwrap();
    assert_eq!(pos, vec![(0, 175)]);
    let two = export_positions(&h.export_map, &vec![0, 0], 100).unwrap();
    assert_eq!(two, vec![(0, 100), (0, 116)]);
    assert!(export_positions(&h.export_map, &vec![1], 0).is_none());
}

#[test]
fn truncated_package_header_fails() {
    let d = package();
    assert!(parse_package_header(&d[..100]).is_err());
    assert!(parse_package_header(&d[..20]).is_err());
}

fn counter_global() -> LoaderGlobalData {
    let store = MappingStore {
        class_mappings: vec![ClassMapping {
            name: "Counter".to_string(),
            super_type: None,
            properties: vec![PropertyMapping {
                index: 0,
                name: "Count".to_string(),
                mapping_type: TagMapping::IntProperty,
            }],
            property_count: 1,
        }],
        enum_mappings: vec![],
    };
    let script = |index: u64| FPackageObjectIndex { index, index_type: FPackageObjectIndexType::ScriptImport };
    let objects = InitialLoadMetaData {
        script_objects: vec![FScriptObjectEntry {
            object_name: FMappedName { index: 0, number: 0, name_type: FMappedNameType::Global },
            global_index: script(9),
            outer_index: script(0),
            cdo_class_index: script(0),
        }],
    };
    LoaderGlobalData::new(FNameMap::from_strings(vec!["Counter".to_string()]), objects, store)
}

/// The package with its export holding an object of class "Counter".
fn counter_package() -> Vec<u8> {
    let mut d = package();
    let n = d.len();
    d.truncate(n - 16);
    d.extend_from_slice(&[0x00, 0x03, 5, 0, 0, 0]);
    d.extend_from_slice(&[0u8; 10]);
    d
}

#[test]
fn package_exports_are_read_by_class() {
    let g = counter_global();
    let d = counter_package();
    let pkg = Package::from_buffer(&d, None, &g).unwrap();
    assert_eq!(pkg.exports.len(), 1);
    match &pkg.exports[0] {
        Export::Object(o) => {
            assert_eq!(o.export_type, "Counter");
            assert_eq!(o.export_index.unwrap().index, 5);
            assert!(matches!(o.get_property("Count"), Some(FPropertyTagType::IntProperty(5))));
        },
        other => panic!("unexpected {:?}", other),
    }
    assert_eq!(pkg.exports[0].get_export_type(), "Counter");
}

#[test]
fn exports_not_in_the_order_stay_empty() {
    let g = counter_global();
    let d = counter_package();
    let mut h = parse_package_header(&d).unwrap();
    h.export_order = vec![];
    let pkg = read_exports(&d, None, h, &g).unwrap();
    assert!(matches!(pkg.exports[0], Export::Empty));
    assert_eq!(pkg.exports[0].get_export_type(), "EmptyPackage");
}

#[test]
fn export_order_out_of_range_is_refused() {
    let g = counter_global();
    let d = counter_package();
    let mut h = parse_package_header(&d).unwrap();
    h.export_order = vec![3];
    assert!(read_exports(&d, None, h, &g).is_err());
}

#[test]
fn export_of_unknown_class_is_refused() {
    let g = LoaderGlobalData::empty();
    let d = counter_package();
    match Package::from_buffer(&d, None, &g) {
        Ok(_) => panic!("read an export of an unknown class"),
        Err(err) => assert!(!err.get_properties().is_empty()),
    }
}

#[test]
fn export_lookup_errors() {
    let g = counter_global();
    let d = counter_package();
    let pkg = Package::from_buffer(&d, None, &g).unwrap();
    match pkg.get_export(5) {
        Ok(_) => panic!("export 5 found"),
        Err(e) => assert_eq!(e.get_properties(), &vec!["index 5 out of range".to_string()]),
    }
    match pkg.get_export_move(3) {
        Ok(_) => panic!("export 3 found"),
        Err(e) => assert_eq!(e.get_properties(), &vec!["No exports found".to_string()]),
    }
}

#[test]
fn failed_export_names_its_class() {
    let g = counter_global();
    let mut d = counter_package();
    let n = d.len();
    d.truncate(n - 14);
    match Package::from_buffer(&d, None, &g) {
        Ok(_) => panic!("read a truncated export"),
        Err(e) => {
            let props = e.get_properties();
            assert!(props.len() >= 2);
            assert_eq!(props.last().unwrap(), "Export Type: Counter");
        },
    }
}

#[test]
fn decimal_text_writes_numbers() {
    assert_eq!(john_wick_parse::assets::decimal_text(0), "0");
    assert_eq!(john_wick_parse::assets::decimal_text(1234567890123), "1234567890123");
}

fn texture(format: &str, mips: Vec<(i32, i32, Vec<u8>)>) -> Texture2D {
    let mips = mips
        .into_iter()
        .map(|(x, y, data)| FTexture2DMipMap {
            data: FByteBulkData {
                header: FByteBulkDataHeader { bulk_data_flags: 0x40, element_count: 0, size_on_disk: 0, offset_in_file: 0 },
                data,
            },
            size_x: x,
            size_y: y,
            size_z: 1,
        })
        .collect();
    Texture2D {
        base_object: UObject { properties: vec![], export_index: None, export_type: "Texture2D".to_string() },
        cooked: 1,
        textures: vec![FTexturePlatformData {
            size_x: 2,
            size_y: 2,
            num_slices: 1,
            pixel_format: format.to_string(),
            first_mip: 0,
            mips,
            is_virtual: false,
        }],
    }
}

fn texture_package(t: Texture2D) -> Package<Export> {
    let g = counter_global();
    let d = counter_package();
    let mut pkg = Package::from_buffer(&d, None, &g).unwrap();
    pkg.exports = vec![Export::Texture(t)];
    pkg
}

fn messages(r: Result<Vec<u8>, john_wick_parse::assets::ParserError>) -> Vec<String> {
    r.err().unwrap().get_properties().clone()
}

#[test]
fn texture_errors_name_the_failing_step() {
    let mut t = texture("PF_G8", vec![]);
    t.textures.clear();
    assert_eq!(messages(decode_texture(t, None)), vec!["No textures found".to_string()]);
    assert_eq!(messages(decode_texture(texture("PF_G8", vec![]), None)), vec!["No mipmaps part of texture".to_string()]);
    assert_eq!(
        messages(decode_texture(texture("PF_ASTC", vec![(2, 2, vec![0; 4])]), None)),
        vec!["Unsupported pixel format: PF_ASTC".to_string()]
    );
    assert_eq!(
        messages(decode_texture(texture("PF_B8G8R8A8", vec![(2, 2, vec![0; 15])]), None)),
        vec!["Image buffer too small".to_string()]
    );
    assert_eq!(
        messages(decode_texture(texture("PF_DXT1", vec![(0, 4, vec![0; 8])]), None)),
        vec!["Image width is zero".to_string()]
    );
    assert_eq!(
        messages(decode_texture(texture("PF_BC5", vec![(4, 4, vec![0; 16])]), None)),
        vec!["BC5 pixels missing".to_string()]
    );
}

#[test]
fn read_texture_gives_what_decode_texture_gives() {
    let cases: Vec<(&str, Vec<(i32, i32, Vec<u8>)>)> = vec![
        ("PF_G8", vec![]),
        ("PF_ASTC", vec![(2, 2, vec![0; 4])]),
        ("PF_B8G8R8A8", vec![(2, 2, vec![0; 15])]),
        ("PF_DXT1", vec![(4, 4, vec![0; 4])]),
    ];
    for (format, mips) in cases {
        let direct = decode_texture(texture(format, mips.clone()), None);
        let through = read_texture(texture_package(texture(format, mips)), None);
        assert_eq!(messages(direct), messages(through));
    }
    let png = read_texture(texture_package(texture("PF_G8", vec![(2, 2, vec![0, 64, 128, 255])])), None).unwrap();
    assert_eq!(png, decode_texture(texture("PF_G8", vec![(2, 2, vec![0, 64, 128, 255])]), None).unwrap());
}

#[test]
fn read_texture_refuses_other_exports() {
    let g = counter_global();
    let d = counter_package();
    let pkg = Package::from_buffer(&d, None, &g).unwrap();
    assert_eq!(messages(read_texture(pkg, None)), vec!["Export is not texture".to_string()]);
}
