use john_wick_parse::assets::ParserType;
use john_wick_parse::mapping::{ClassMapping, EnumMapping, MappingStore, PropertyMapping, TagMapping};

fn prop(index: u32, name: &str) -> PropertyMapping {
    PropertyMapping { index, name: name.to_string(), mapping_type: TagMapping::IntProperty }
}

fn store() -> MappingStore {
    MappingStore {
        class_mappings: vec![
            ClassMapping {
                name: "Child".to_string(),
                super_type: Some("Parent".to_string()),
                properties: vec![prop(0, "Speed"), prop(1, "Name")],
                property_count: 2,
            },
            ClassMapping {
                name: "Parent".to_string(),
                super_type: Some("Missing".to_string()),
                properties: vec![prop(0, "Id"), prop(2, "Flags")],
                property_count: 3,
            },
            ClassMapping {
                name: "Loop".to_string(),
                super_type: Some("Loop".to_string()),
                properties: vec![prop(0, "X")],
                property_count: 1,
            },
        ],
        enum_mappings: vec![EnumMapping {
            name: "EColour".to_string(),
            enum_type: "uint8".to_string(),
            values: vec!["Red".to_string(), "Green".to_string()],
        }],
    }
}

#[test]
fn class_properties_follow_the_super_chain() {
    let ps = store().class_properties("Child").unwrap();
    let got: Vec<(u32, String)> = ps.iter().map(|p| (p.index, p.name.clone())).collect();
    assert_eq!(got, vec![
        (0, "Speed".to_string()),
        (1, "Name".to_string()),
        (2, "Id".to_string()),
        (4, "Flags".to_string()),
    ]);
}

#[test]
fn own_properties_come_first() {
    let s = store();
    let own = &s.class_mappings[0].properties;
    let all = s.class_properties("Child").unwrap();
    for (k, p) in own.iter().enumerate() {
        assert_eq!(all[k].index, p.index);
        assert_eq!(all[k].name, p.name);
    }
}

#[test]
fn class_without_super_has_its_own_properties() {
    let s = MappingStore {
        class_mappings: vec![ClassMapping {
            name: "Solo".to_string(),
            super_type: None,
            properties: vec![prop(3, "A")],
            property_count: 4,
        }],
        enum_mappings: Vec::new(),
    };
    let ps = s.class_properties("Solo").unwrap();
    assert_eq!(ps.len(), 1);
    assert_eq!(ps[0].index, 3);
}

#[test]
fn missing_class_is_an_error() {
    let e = store().class_properties("Nope").unwrap_err();
    assert_eq!(*e.get_type(), ParserType::ClassMappingMissing);
}

#[test]
fn endless_super_chain_is_an_error() {
    let e = store().class_properties("Loop").unwrap_err();
    assert_eq!(*e.get_type(), ParserType::Unknown);
}

#[test]
fn mappings_carry_the_indices_asked_for() {
    let ms = store().get_mappings("Child", vec![4, 0, 2]).unwrap();
    let got: Vec<(u32, String)> = ms.iter().map(|p| (p.index, p.name.clone())).collect();
    assert_eq!(got, vec![(4, "Flags".to_string()), (0, "Speed".to_string()), (2, "Id".to_string())]);
}

#[test]
fn missing_index_is_an_error() {
    let e = store().get_mappings("Child", vec![0, 3]).unwrap_err();
    assert_eq!(*e.get_type(), ParserType::PropertyIndexMissing);
}

#[test]
fn enum_values_are_found_by_name() {
    let s = store();
    assert_eq!(s.get_enum_mapping(&Some("EColour".to_string()), 1), Some("Green"));
    assert_eq!(s.get_enum_mapping(&Some("EColour".to_string()), 2), None);
    assert_eq!(s.get_enum_mapping(&Some("EOther".to_string()), 0), None);
    assert_eq!(s.get_enum_mapping(&None, 0), None);
}

#[test]
fn properties_shift_by_an_offset() {
    let s = store();
    let ps = s.class_mappings[0].get_properties_offset(10).unwrap();
    assert_eq!(ps[0].index, 10);
    assert_eq!(ps[1].index, 11);
    assert!(s.class_mappings[0].get_properties_offset(u32::MAX).is_none());
}

#[test]
fn missing_class_names_the_class() {
    let e = store().class_properties("Nope").unwrap_err();
    assert_eq!(e.get_properties(), &vec!["Class not found: Nope".to_string()]);
}

#[test]
fn missing_index_is_reported_with_the_indices() {
    let e = store().get_mappings("Child", vec![0, 7, 12]).unwrap_err();
    assert!(matches!(e.get_type(), ParserType::PropertyIndexMissing));
    assert_eq!(e.get_properties(), &vec!["Index not found: Child-7 of [\n    0,\n    7,\n    12,\n]".to_string()]);
}
