use john_wick_parse::assets::exports::{select_export, Export, Texture2D, UDataTable};
use john_wick_parse::assets::properties::{
    decimal_string, nesting_fuel_of, read_tag, FPropertyTagType, StructType, UObject,
};
use john_wick_parse::assets::{
    FExportMapEntry, FMappedName, FMappedNameType, FPackageObjectIndex, FPackageObjectIndexType, ImportMap, NameMap,
    ParserType,
};
use john_wick_parse::dispatch::{FNameMap, FScriptObjectEntry, InitialLoadMetaData, LoaderGlobalData};
use john_wick_parse::mapping::{ClassMapping, EnumMapping, MappingStore, PropertyMapping, TagMapping};
use john_wick_parse::reader::ReaderCursor;

fn prop(index: u32, name: &str, mapping_type: TagMapping) -> PropertyMapping {
    PropertyMapping { index, name: name.to_string(), mapping_type }
}

fn class(name: &str, properties: Vec<PropertyMapping>) -> ClassMapping {
    let property_count = properties.len() as u32;
    ClassMapping { name: name.to_string(), super_type: None, properties, property_count }
}

fn script(index: u64) -> FPackageObjectIndex {
    FPackageObjectIndex { index, index_type: FPackageObjectIndexType::ScriptImport }
}

fn global() -> LoaderGlobalData {
    let store = MappingStore {
        class_mappings: vec![
            class("Thing", vec![
                prop(0, "Health", TagMapping::IntProperty),
                prop(1, "Alive", TagMapping::BoolProperty),
                prop(2, "Colour", TagMapping::EnumProperty { enum_name: Some("EColour".to_string()) }),
                prop(3, "Items", TagMapping::ArrayProperty { inner_type: Box::new(TagMapping::IntProperty) }),
                prop(4, "Pos", TagMapping::StructProperty { struct_type: "IntPoint".to_string() }),
                prop(5, "Label", TagMapping::StrProperty),
            ]),
            class("Counter", vec![prop(0, "Count", TagMapping::IntProperty)]),
            class("Holder", vec![prop(0, "Inner", TagMapping::StructProperty { struct_type: "Counter".to_string() })]),
            class("Pair", vec![prop(0, "Flag", TagMapping::BoolProperty), prop(1, "Flag", TagMapping::ByteProperty)]),
            class("Lookup", vec![prop(
                0,
                "Table",
                TagMapping::MapProperty {
                    inner_type: Box::new(TagMapping::EnumProperty { enum_name: None }),
                    value_type: Box::new(TagMapping::IntProperty),
                },
            )]),
            class("DataTable", vec![prop(0, "RowStruct", TagMapping::ObjectProperty)]),
            class("RowThing", vec![prop(0, "Value", TagMapping::IntProperty)]),
            class("Texture2D", vec![]),
        ],
        enum_mappings: vec![EnumMapping {
            name: "EColour".to_string(),
            enum_type: "uint8".to_string(),
            values: vec!["Red".to_string(), "Green".to_string()],
        }],
    };
    let objects = InitialLoadMetaData {
        script_objects: vec![FScriptObjectEntry {
            object_name: FMappedName { index: 0, number: 0, name_type: FMappedNameType::Global },
            global_index: script(5),
            outer_index: script(0),
            cdo_class_index: script(0),
        }],
    };
    LoaderGlobalData::new(FNameMap::from_strings(vec!["RowThing".to_string()]), objects, store)
}

fn names() -> NameMap {
    NameMap { names: FNameMap::from_strings(vec!["None".to_string(), "Row_A".to_string(), "Key".to_string()]) }
}

fn u16le(d: &mut Vec<u8>, v: u16) {
    d.extend_from_slice(&v.to_le_bytes());
}

fn u32le(d: &mut Vec<u8>, v: u32) {
    d.extend_from_slice(&v.to_le_bytes());
}

fn i32le(d: &mut Vec<u8>, v: i32) {
    d.extend_from_slice(&v.to_le_bytes());
}

/// One header fragment: `value` properties after skipping `skip`, the last one.
fn last_fragment(d: &mut Vec<u8>, skip: u16, value: u16, zeroes: bool) {
    u16le(d, skip | if zeroes { 0x80 } else { 0 } | 0x100 | (value << 9));
}

fn thing_bytes() -> Vec<u8> {
    let mut d = Vec::new();
    last_fragment(&mut d, 0, 6, false);
    i32le(&mut d, 42);
    d.push(1);
    d.push(1);
    u32le(&mut d, 2);
    i32le(&mut d, 7);
    i32le(&mut d, 9);
    u32le(&mut d, 3);
    u32le(&mut d, 4);
    i32le(&mut d, 3);
    d.extend_from_slice(b"hi\0");
    d
}

#[test]
fn object_reads_each_property_by_its_mapping() {
    let g = global();
    let nm = names();
    let im = ImportMap { imports: vec![], global: &g };
    let data = thing_bytes();
    let mut reader = ReaderCursor::new(&data);
    let obj = UObject::new(&mut reader, &nm, &im, "Thing", None).unwrap();
    assert_eq!(reader.position(), data.len() as u64);
    assert_eq!(obj.export_type, "Thing");
    let ps = obj.get_properties();
    let got: Vec<(&str, i32)> = ps.iter().map(|p| (p.get_name(), p.size)).collect();
    assert_eq!(got, vec![("Health", 4), ("Alive", 1), ("Colour", 1), ("Items", 12), ("Pos", 8), ("Label", 7)]);
    assert!(matches!(ps[0].get_data(), FPropertyTagType::IntProperty(42)));
    assert!(matches!(ps[1].get_data(), FPropertyTagType::BoolProperty(true)));
    match ps[2].get_data() {
        FPropertyTagType::EnumProperty(Some(s)) => assert_eq!(s, "Green"),
        other => panic!("unexpected {:?}", other),
    }
    match ps[3].get_data() {
        FPropertyTagType::ArrayProperty(a) => {
            let vals: Vec<i32> = a
                .get_data()
                .iter()
                .map(|v| match v {
                    FPropertyTagType::IntProperty(x) => *x,
                    _ => panic!("not an int"),
                })
                .collect();
            assert_eq!(vals, vec![7, 9]);
        },
        other => panic!("unexpected {:?}", other),
    }
    match ps[4].get_data() {
        FPropertyTagType::StructProperty(s) => {
            assert_eq!(s.struct_name, "IntPoint");
            match &s.struct_type {
                StructType::IntPoint(p) => assert_eq!((p.x, p.y), (3, 4)),
                other => panic!("unexpected {:?}", other),
            }
            assert!(s.get_contents().is_none());
        },
        other => panic!("unexpected {:?}", other),
    }
    match ps[5].get_data() {
        FPropertyTagType::StrProperty(s) => assert_eq!(s, "hi"),
        other => panic!("unexpected {:?}", other),
    }
    assert_eq!(obj.get_boolean("Alive"), Some(true));
    assert_eq!(obj.get_boolean("Health"), None);
    assert!(obj.get_property("Missing").is_none());
}

#[test]
fn zero_marked_property_is_read_from_zero_bytes() {
    let g = global();
    let nm = names();
    let im = ImportMap { imports: vec![], global: &g };
    let mut d = Vec::new();
    last_fragment(&mut d, 0, 1, true);
    d.push(0x01);
    let mut reader = ReaderCursor::new(&d);
    let obj = UObject::new(&mut reader, &nm, &im, "Counter", None).unwrap();
    assert_eq!(reader.position(), 3);
    let ps = obj.get_properties();
    assert_eq!(ps.len(), 1);
    assert_eq!(ps[0].size, 4);
    assert!(matches!(ps[0].get_data(), FPropertyTagType::IntProperty(0)));
}

#[test]
fn enum_value_without_a_name_is_its_number() {
    let g = global();
    let nm = names();
    let im = ImportMap { imports: vec![], global: &g };
    let d = vec![200u8];
    let mut reader = ReaderCursor::new(&d);
    let m = TagMapping::EnumProperty { enum_name: Some("EColour".to_string()) };
    match read_tag(&mut reader, &nm, &im, &m, 4).unwrap() {
        FPropertyTagType::EnumProperty(Some(s)) => assert_eq!(s, "200"),
        other => panic!("unexpected {:?}", other),
    }
}

#[test]
fn decimal_strings() {
    assert_eq!(decimal_string(0), "0");
    assert_eq!(decimal_string(7), "7");
    assert_eq!(decimal_string(42), "42");
    assert_eq!(decimal_string(100), "100");
    assert_eq!(decimal_string(255), "255");
}

#[test]
fn struct_without_a_layout_holds_properties() {
    let g = global();
    let nm = names();
    let im = ImportMap { imports: vec![], global: &g };
    let mut d = Vec::new();
    last_fragment(&mut d, 0, 1, false);
    last_fragment(&mut d, 0, 1, false);
    i32le(&mut d, -5);
    let mut reader = ReaderCursor::new(&d);
    let obj = UObject::new(&mut reader, &nm, &im, "Holder", None).unwrap();
    assert_eq!(reader.position(), 8);
    match obj.get_properties()[0].get_data() {
        FPropertyTagType::StructProperty(s) => {
            assert_eq!(s.struct_name, "Counter");
            let inner = s.get_contents().unwrap();
            assert_eq!(inner.len(), 1);
            assert_eq!(inner[0].get_name(), "Count");
            assert!(matches!(inner[0].get_data(), FPropertyTagType::IntProperty(-5)));
        },
        other => panic!("unexpected {:?}", other),
    }
}

#[test]
fn last_property_of_a_name_is_found() {
    let g = global();
    let nm = names();
    let im = ImportMap { imports: vec![], global: &g };
    let mut d = Vec::new();
    last_fragment(&mut d, 0, 2, false);
    d.push(1);
    d.push(9);
    let mut reader = ReaderCursor::new(&d);
    let obj = UObject::new(&mut reader, &nm, &im, "Pair", None).unwrap();
    assert!(matches!(obj.get_property("Flag"), Some(FPropertyTagType::ByteProperty(9))));
    assert_eq!(obj.get_boolean("Flag"), None);
}

#[test]
fn map_keys_of_enum_type_are_names() {
    let g = global();
    let nm = names();
    let im = ImportMap { imports: vec![], global: &g };
    let mut d = Vec::new();
    last_fragment(&mut d, 0, 1, false);
    u32le(&mut d, 0);
    u32le(&mut d, 1);
    u32le(&mut d, 2);
    u32le(&mut d, 0);
    i32le(&mut d, 11);
    let mut reader = ReaderCursor::new(&d);
    let obj = UObject::new(&mut reader, &nm, &im, "Lookup", None).unwrap();
    match obj.get_properties()[0].get_data() {
        FPropertyTagType::MapProperty(m) => {
            assert_eq!(m.map_data.len(), 1);
            match &m.map_data[0] {
                (FPropertyTagType::NameProperty(k), FPropertyTagType::IntProperty(v)) => {
                    assert_eq!(k, "Key");
                    assert_eq!(*v, 11);
                },
                other => panic!("unexpected {:?}", other),
            }
        },
        other => panic!("unexpected {:?}", other),
    }
}

#[test]
fn unknown_class_is_refused() {
    let g = global();
    let nm = names();
    let im = ImportMap { imports: vec![], global: &g };
    let mut d = Vec::new();
    last_fragment(&mut d, 0, 1, false);
    i32le(&mut d, 1);
    let mut reader = ReaderCursor::new(&d);
    let err = UObject::new(&mut reader, &nm, &im, "Nothing", None).unwrap_err();
    assert!(matches!(err.get_type(), ParserType::ClassMappingMissing));
}

#[test]
fn truncated_value_is_refused_with_the_property_named() {
    let g = global();
    let nm = names();
    let im = ImportMap { imports: vec![], global: &g };
    let mut d = thing_bytes();
    d.truncate(d.len() - 2);
    let mut reader = ReaderCursor::new(&d);
    let err = UObject::new(&mut reader, &nm, &im, "Thing", None).unwrap_err();
    assert_eq!(err.get_properties().last().unwrap(), "Property: Label");
}

#[test]
fn unsupported_property_type_is_refused() {
    let g = global();
    let nm = names();
    let im = ImportMap { imports: vec![], global: &g };
    let d = vec![0u8; 8];
    let mut reader = ReaderCursor::new(&d);
    assert!(read_tag(&mut reader, &nm, &im, &TagMapping::DoubleProperty, 4).is_err());
    assert!(read_tag(&mut reader, &nm, &im, &TagMapping::DebugProperty, 4).is_err());
}

#[test]
fn data_table_rows_are_objects_of_the_row_struct() {
    let g = global();
    let nm = names();
    let im = ImportMap { imports: vec![script(5)], global: &g };
    let mut d = Vec::new();
    last_fragment(&mut d, 0, 1, false);
    i32le(&mut d, -1);
    i32le(&mut d, 0);
    i32le(&mut d, 1);
    u32le(&mut d, 1);
    u32le(&mut d, 0);
    last_fragment(&mut d, 0, 1, false);
    i32le(&mut d, 77);
    let mut reader = ReaderCursor::new(&d);
    let table = UDataTable::new(&mut reader, &nm, &im).unwrap();
    assert_eq!(reader.position(), d.len() as u64);
    assert_eq!(table.rows.len(), 1);
    assert_eq!(table.rows[0].0, "Row_A");
    assert_eq!(table.rows[0].1.export_type, "RowThing");
    assert!(matches!(table.rows[0].1.get_properties()[0].get_data(), FPropertyTagType::IntProperty(77)));
}

#[test]
fn data_table_without_row_struct_is_refused() {
    let g = global();
    let nm = names();
    let im = ImportMap { imports: vec![], global: &g };
    let mut d = Vec::new();
    last_fragment(&mut d, 0, 1, false);
    i32le(&mut d, -1);
    i32le(&mut d, 0);
    i32le(&mut d, 0);
    let mut reader = ReaderCursor::new(&d);
    assert!(UDataTable::new(&mut reader, &nm, &im).is_err());
}

fn texture_bytes(cooked: u32) -> Vec<u8> {
    let mut d = Vec::new();
    last_fragment(&mut d, 0, 0, false);
    u32le(&mut d, 0);
    d.extend_from_slice(&[0, 0, 0, 0]);
    u32le(&mut d, cooked);
    if cooked == 1 {
        u32le(&mut d, 0);
        u32le(&mut d, 0);
    }
    d
}

#[test]
fn cooked_texture_without_platforms() {
    let g = global();
    let nm = names();
    let im = ImportMap { imports: vec![], global: &g };
    let d = texture_bytes(1);
    let mut reader = ReaderCursor::new(&d);
    let mut ubulk: Option<ReaderCursor> = None;
    let tex = Texture2D::new(&mut reader, &nm, &im, &mut ubulk, Some(script(3))).unwrap();
    assert_eq!(reader.position(), d.len() as u64);
    assert_eq!(tex.cooked, 1);
    assert!(tex.textures.is_empty());
    assert!(tex.get_pixel_format().is_err());
    assert_eq!(tex.base_object.export_index, Some(script(3)));
}

#[test]
fn select_export_reads_by_class() {
    let g = global();
    let nm = names();
    let im = ImportMap { imports: vec![], global: &g };
    let entry = FExportMapEntry {
        serial_offset: 0,
        serial_size: 0,
        object_name: FMappedName { index: 0, number: 0, name_type: FMappedNameType::Package },
        outer_index: script(0),
        class_index: script(0),
        super_index: script(0),
        template_index: script(0),
        global_import_index: script(9),
        object_flags: 0,
        filter_flags: 0,
    };
    let d = texture_bytes(0);
    let mut reader = ReaderCursor::new(&d);
    let mut ubulk: Option<ReaderCursor> = None;
    match select_export("Texture2D", &mut reader, &nm, &im, &entry, &mut ubulk).unwrap() {
        Export::Texture(t) => {
            assert_eq!(t.cooked, 0);
            assert_eq!(t.base_object.export_index, Some(script(9)));
        },
        other => panic!("unexpected {:?}", other),
    }
    let d = thing_bytes();
    let mut reader = ReaderCursor::new(&d);
    let e = select_export("Thing", &mut reader, &nm, &im, &entry, &mut ubulk).unwrap();
    assert_eq!(e.get_export_type(), "Thing");
    match e {
        Export::Object(o) => assert_eq!(o.export_index, Some(script(9))),
        other => panic!("unexpected {:?}", other),
    }
}

#[test]
fn nesting_is_bounded_by_the_data() {
    assert_eq!(nesting_fuel_of(0), 64);
    assert_eq!(nesting_fuel_of(1000), 2064);
    assert_eq!(nesting_fuel_of(usize::MAX), u64::MAX);
}

#[test]
fn deeply_nested_arrays_are_read() {
    let mut ty = TagMapping::IntProperty;
    for _ in 0..200 {
        ty = TagMapping::ArrayProperty { inner_type: Box::new(ty) };
    }
    let store = MappingStore { class_mappings: vec![class("Deep", vec![prop(0, "Nest", ty)])], enum_mappings: vec![] };
    let g = LoaderGlobalData::new(
        FNameMap::from_strings(vec![]),
        InitialLoadMetaData { script_objects: vec![] },
        store,
    );
    let nm = names();
    let im = ImportMap { imports: vec![], global: &g };
    let mut data = Vec::new();
    last_fragment(&mut data, 0, 1, false);
    for _ in 0..200 {
        u32le(&mut data, 1);
    }
    i32le(&mut data, 7);
    let mut reader = ReaderCursor::new(&data);
    let obj = UObject::new(&mut reader, &nm, &im, "Deep", None).unwrap();
    assert_eq!(reader.position(), data.len() as u64);
    let mut v = obj.get_properties()[0].get_data();
    let mut depth: usize = 0;
    while let FPropertyTagType::ArrayProperty(a) = v {
        assert_eq!(a.data.len(), 1);
        v = &a.data[0];
        depth += 1;
    }
    assert_eq!(depth, 200);
    assert!(matches!(v, FPropertyTagType::IntProperty(7)));
}
