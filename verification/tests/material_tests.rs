use john_wick_parse::assets::material::material_textures;
use john_wick_parse::assets::properties::{FPropertyTag, FPropertyTagType, StructType, UObject, UScriptArray, UScriptStruct};
use john_wick_parse::assets::{FMappedName, FMappedNameType, FPackageIndex, FPackageObjectIndex, FPackageObjectIndexType};
use john_wick_parse::dispatch::{FNameMap, FScriptObjectEntry, InitialLoadMetaData, LoaderGlobalData};
use john_wick_parse::mapping::MappingStore;

fn script(index: u64) -> FPackageObjectIndex {
    FPackageObjectIndex { index, index_type: FPackageObjectIndexType::ScriptImport }
}

fn global() -> LoaderGlobalData {
    let entry = |name: u32, index: u64| FScriptObjectEntry {
        object_name: FMappedName { index: name, number: 0, name_type: FMappedNameType::Global },
        global_index: script(index),
        outer_index: script(0),
        cdo_class_index: script(0),
    };
    LoaderGlobalData::new(
        FNameMap::from_strings(vec!["T_Skin".to_string(), "T_Skin_N".to_string(), "T_Old".to_string()]),
        InitialLoadMetaData { script_objects: vec![entry(0, 5), entry(1, 6), entry(2, 7)] },
        MappingStore::empty(),
    )
}

fn tag(name: &str, tag: FPropertyTagType) -> FPropertyTag {
    FPropertyTag { name: name.to_string(), size: 0, tag }
}

fn fallback(name: &str, props: Vec<FPropertyTag>) -> FPropertyTagType {
    FPropertyTagType::StructProperty(Box::new(UScriptStruct {
        struct_name: name.to_string(),
        struct_type: StructType::Fallback(props),
    }))
}

fn parameter(kind: &str, texture: u64) -> FPropertyTagType {
    fallback("TextureParameterValue", vec![
        tag("ParameterInfo", fallback("MaterialParameterInfo", vec![tag(
            "Name",
            FPropertyTagType::NameProperty(kind.to_string()),
        )])),
        tag("ParameterValue", FPropertyTagType::ObjectProperty(FPackageIndex { index: -1, import: Some(script(texture)) })),
    ])
}

fn material(params: Vec<FPropertyTagType>) -> UObject {
    UObject {
        properties: vec![tag("TextureParameterValues", FPropertyTagType::ArrayProperty(UScriptArray { data: params }))],
        export_index: None,
        export_type: "MaterialInstanceConstant".to_string(),
    }
}

#[test]
fn material_names_its_last_diffuse_and_normal_textures() {
    let g = global();
    let m = material(vec![parameter("Diffuse", 7), parameter("Normals", 6), parameter("Diffuse", 5)]);
    let (diffuse, normal) = material_textures(&m, &g).unwrap();
    assert_eq!(diffuse, "T_Skin");
    assert_eq!(normal, "T_Skin_N");
}

#[test]
fn material_without_normals_is_refused() {
    let g = global();
    let m = material(vec![parameter("Diffuse", 5)]);
    assert!(material_textures(&m, &g).is_err());
}

#[test]
fn material_with_unknown_texture_is_refused() {
    let g = global();
    let m = material(vec![parameter("Diffuse", 5), parameter("Normals", 99)]);
    assert!(material_textures(&m, &g).is_err());
}
