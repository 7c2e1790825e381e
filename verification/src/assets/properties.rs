//! Unversioned properties: an object's header lists which properties of its
//! class are present, the class mappings give each one's type, and the values
//! follow one another. Struct values are read by their struct type's name;
//! a struct type without a layout of its own holds properties itself.
//! Floating point values are kept as their bits.
use vstd::prelude::*;
use crate::reader::{ReaderCursor, le_u32, avail, bytes_at};
use crate::assets::{
    Newable, ParserError, ParserResult, error_msg, le_i32, read_string, spec_string, read_fname, read_elems,
    read_tarray, elems_ok, elems_end, elems_are, tarray_ok, tarray_end, tarray_is, fnames_at, FColor, FGuid,
    FMappedName, FPackageIndex, FPackageObjectIndex, FSoftObjectPath, FText, FUnversionedHeader, FFragment,
    PropertyIndex, ImportMap, NameMap, package_of, fragments_at, zero_count, zero_mask_bytes, bits_of_bytes,
    frag_indices, FScriptDelegate, UInterfaceProperty, FFieldPath, read_fname_array,
};
use crate::assets::structs::{
    FBox, FBox2D, FEntry, FIntPoint, FLevelSequenceLegacyObjectReference, FLinearColor, FMovieSceneEvaluationKey,
    FMovieSceneEvaluationTree, FPerPlatformFloat, FPerPlatformInt, FQuat, FRichCurveKey, FRotator,
    FSimpleCurveKey, FVector, FVector2D, FWeightedRandomSampler, TRange,
};
use crate::archives::str_eq;
use crate::mapping::{ClassMapping, EnumMapping, PropertyMapping, TagMapping, class_props, lookup_props,
    first_enum_from, opt_view, lemma_lookup_props_indices};

verus! {

/// The tables that values are read against: the package's names, its
/// imports, and the class and enum mappings.
pub type Tables = (Seq<Seq<char>>, Seq<FPackageObjectIndex>, Seq<ClassMapping>, Seq<EnumMapping>);

pub open spec fn tables(name_map: &NameMap, import_map: &ImportMap) -> Tables {
    (
        name_map.names@,
        import_map.imports@,
        import_map.global.mappings.class_mappings@,
        import_map.global.mappings.enum_mappings@,
    )
}

/// The value of a property.
#[derive(Debug)]
pub enum FPropertyTagType {
    BoolProperty(bool),
    StructProperty(Box<UScriptStruct>),
    ObjectProperty(FPackageIndex),
    InterfaceProperty(UInterfaceProperty),
    DelegateProperty(FScriptDelegate),
    MulticastDelegateProperty(Vec<FScriptDelegate>),
    FloatProperty(u32),
    TextProperty(FText),
    StrProperty(String),
    NameProperty(String),
    IntProperty(i32),
    UInt16Property(u16),
    UInt32Property(u32),
    UInt64Property(u64),
    ArrayProperty(UScriptArray),
    MapProperty(UScriptMap),
    ByteProperty(u8),
    EnumProperty(Option<String>),
    SoftObjectProperty(FSoftObjectPath),
    SoftObjectPropertyMap(FGuid),
    FieldPathProperty(FFieldPath),
}

/// The values of an array property.
#[derive(Debug)]
pub struct UScriptArray {
    pub data: Vec<FPropertyTagType>,
}

/// The key and value pairs of a map property.
#[derive(Debug)]
pub struct UScriptMap {
    pub map_data: Vec<(FPropertyTagType, FPropertyTagType)>,
}

/// A property: its name, the number of bytes its value took, and the value.
#[derive(Debug)]
pub struct FPropertyTag {
    pub name: String,
    pub size: i32,
    pub tag: FPropertyTagType,
}

/// A tree of section evaluation data; its items are always empty.
#[derive(Debug)]
pub struct FSectionEvaluationDataTree {
    pub base_tree: FMovieSceneEvaluationTree,
    pub entries: Vec<FEntry>,
}

/// A segment of a movie scene: its range, id, flag and section structs.
#[derive(Debug)]
pub struct FMovieSceneSegment {
    pub range: TRange,
    pub id: i32,
    pub allow_empty: bool,
    pub impls: Vec<UScriptStruct>,
}

/// The value of a struct, by the layout of its type.
#[derive(Debug)]
pub enum StructType {
    LinearColor(FLinearColor),
    Color(FColor),
    GameplayTagContainer(Vec<String>),
    IntPoint(FIntPoint),
    Guid(FGuid),
    Quat(FQuat),
    Vector(FVector),
    Vector2D(FVector2D),
    Rotator(FRotator),
    Box(FBox),
    Box2D(FBox2D),
    PerPlatformFloat(FPerPlatformFloat),
    PerPlatformInt(FPerPlatformInt),
    WeightedRandomSampler(FWeightedRandomSampler),
    SoftObjectPath(FSoftObjectPath),
    LevelSequenceObjectReferenceMap(Vec<FLevelSequenceLegacyObjectReference>),
    I32(i32),
    U32(u32),
    SectionEvaluationDataTree(FSectionEvaluationDataTree),
    MovieSceneSegment(FMovieSceneSegment),
    MovieSceneFrameRange(TRange),
    MovieSceneEvaluationKey(FMovieSceneEvaluationKey),
    SmartName(String),
    RichCurveKey(FRichCurveKey),
    SimpleCurveKey(FSimpleCurveKey),
    DateTime(i64),
    Fallback(Vec<FPropertyTag>),
}

/// A struct value and the name of its type.
#[derive(Debug)]
pub struct UScriptStruct {
    pub struct_name: String,
    pub struct_type: StructType,
}

/// An object: its properties, and its export index and type.
#[derive(Debug)]
pub struct UObject {
    pub properties: Vec<FPropertyTag>,
    pub export_index: Option<FPackageObjectIndex>,
    pub export_type: String,
}

// ---------------------------------------------------------------------------
// What the bytes hold

/// The 32 zero bytes that a property marked zero is read from.
pub open spec fn zeros32() -> Seq<u8> {
    Seq::new(32, |i: int| 0u8)
}

/// A record of type `S` at `p`, and where it ends.
pub open spec fn record_end<S: Newable>(d: Seq<u8>, p: int) -> Option<int> {
    if S::spec_ok(d, p) {
        Some(S::spec_end(d, p))
    } else {
        None
    }
}

/// The index of the mapped name at `p`.
pub open spec fn fname_index(d: Seq<u8>, p: int) -> int {
    ((le_u32(d, p) as u32) & 0x3fff_ffff) as int
}

/// A mapped name at `p` that names an entry of `names`.
pub open spec fn fname_ok(d: Seq<u8>, p: int, names: Seq<Seq<char>>) -> bool {
    FMappedName::spec_ok(d, p) && fname_index(d, p) < names.len()
}

/// The decimal digits of `v`.
pub open spec fn decimal(v: u8) -> Seq<char> {
    if v < 10 {
        seq![(48 + v) as char]
    } else if v < 100 {
        seq![(48 + v / 10) as char, (48 + v % 10) as char]
    } else {
        seq![(48 + v / 100) as char, (48 + v / 10 % 10) as char, (48 + v % 10) as char]
    }
}

/// The text of value `v` of the enum named `name`: its name when the enum
/// mappings have one, else its number.
pub open spec fn enum_text(es: Seq<EnumMapping>, name: Option<Seq<char>>, v: u8) -> Seq<char> {
    match name {
        Some(n) => match first_enum_from(es, n, 0) {
            Some(i) => if v < es[i].values@.len() {
                es[i].values@[v as int]@
            } else {
                decimal(v)
            },
            None => decimal(v),
        },
        None => decimal(v),
    }
}

/// The key type of a map: enum keys are read as names.
pub open spec fn map_key_type(m: TagMapping) -> TagMapping {
    match m {
        TagMapping::EnumProperty { .. } => TagMapping::NameProperty,
        _ => m,
    }
}

/// The struct types whose value is a single signed 32-bit word.
pub open spec fn is_i32_struct(name: Seq<char>) -> bool {
    name == "FrameNumber"@ || name == "MovieSceneTrackIdentifier"@ || name == "MovieSceneSegmentIdentifier"@
}

/// The struct types that hold a structure without a reader of its own.
pub open spec fn is_inline_struct(name: Seq<char>) -> bool {
    name == "MovieSceneEvalTemplatePtr"@ || name == "MovieSceneTrackImplementationPtr"@ || name
        == "MovieSceneSequenceInstanceDataPtr"@
}

/// Where the value of a property of type `m` at `p` ends; `None` when it
/// cannot be read (or is nested deeper than `f`).
pub open spec fn tag_end(d: Seq<u8>, p: int, m: TagMapping, t: Tables, f: nat) -> Option<int>
    decreases f, 0nat, 0nat,
{
    match m {
        TagMapping::TextProperty => record_end::<FText>(d, p),
        TagMapping::StrProperty => match spec_string(d, p) {
            Some((_, e)) => Some(e),
            None => None,
        },
        TagMapping::NameProperty => if fname_ok(d, p, t.0) {
            Some(p + 8)
        } else {
            None
        },
        TagMapping::StructProperty { struct_type } => if f == 0 {
            None
        } else {
            struct_end(d, p, struct_type@, t, (f - 1) as nat)
        },
        TagMapping::ObjectProperty => if avail(d, p, 4) && le_i32(d, p) != i32::MIN {
            Some(p + 4)
        } else {
            None
        },
        TagMapping::SoftObjectProperty => if fname_ok(d, p, t.0) && spec_string(d, p + 8) is Some {
            Some(spec_string(d, p + 8).unwrap().1)
        } else {
            None
        },
        TagMapping::EnumProperty { .. } => if avail(d, p, 1) {
            Some(p + 1)
        } else {
            None
        },
        TagMapping::ArrayProperty { inner_type } => if f == 0 || !avail(d, p, 4) {
            None
        } else {
            tags_end(d, p + 4, *inner_type, t, le_u32(d, p) as nat, (f - 1) as nat)
        },
        TagMapping::MapProperty { inner_type, value_type } => if f == 0 || !avail(d, p, 8) {
            None
        } else {
            pairs_end(d, p + 8, map_key_type(*inner_type), *value_type, t, le_u32(d, p + 4) as nat, (f - 1) as nat)
        },
        TagMapping::BoolProperty => if avail(d, p, 1) {
            Some(p + 1)
        } else {
            None
        },
        TagMapping::ByteProperty => if avail(d, p, 1) {
            Some(p + 1)
        } else {
            None
        },
        TagMapping::IntProperty => if avail(d, p, 4) {
            Some(p + 4)
        } else {
            None
        },
        TagMapping::FloatProperty => if avail(d, p, 4) {
            Some(p + 4)
        } else {
            None
        },
        _ => None,
    }
}

/// Where `n` values of type `m` read one after the other from `p` end.
pub open spec fn tags_end(d: Seq<u8>, p: int, m: TagMapping, t: Tables, n: nat, f: nat) -> Option<int>
    decreases f, 1nat, n,
{
    if n == 0 {
        Some(p)
    } else {
        match tags_end(d, p, m, t, (n - 1) as nat, f) {
            Some(q) => tag_end(d, q, m, t, f),
            None => None,
        }
    }
}

/// Where `n` key and value pairs read one after the other from `p` end.
pub open spec fn pairs_end(d: Seq<u8>, p: int, k: TagMapping, v: TagMapping, t: Tables, n: nat, f: nat) -> Option<
    int,
>
    decreases f, 1nat, n,
{
    if n == 0 {
        Some(p)
    } else {
        match pairs_end(d, p, k, v, t, (n - 1) as nat, f) {
            Some(q) => match tag_end(d, q, k, t, f) {
                Some(r) => tag_end(d, r, v, t, f),
                None => None,
            },
            None => None,
        }
    }
}

/// Where a struct value of type `name` at `p` ends.
pub open spec fn struct_end(d: Seq<u8>, p: int, name: Seq<char>, t: Tables, f: nat) -> Option<int>
    decreases f, 1nat, 0nat,
{
    if name == "LinearColor"@ {
        record_end::<FLinearColor>(d, p)
    } else if name == "Color"@ {
        record_end::<FColor>(d, p)
    } else if name == "GameplayTagContainer"@ {
        if avail(d, p, 4) && fnames_at(d, p + 4, t.0, le_u32(d, p) as nat) is Some {
            Some(p + 4 + 8 * le_u32(d, p))
        } else {
            None
        }
    } else if name == "IntPoint"@ {
        record_end::<FIntPoint>(d, p)
    } else if name == "Guid"@ {
        record_end::<FGuid>(d, p)
    } else if name == "Quat"@ {
        record_end::<FQuat>(d, p)
    } else if name == "Vector"@ {
        record_end::<FVector>(d, p)
    } else if name == "Vector2D"@ {
        record_end::<FVector2D>(d, p)
    } else if name == "Rotator"@ {
        record_end::<FRotator>(d, p)
    } else if name == "Box"@ {
        record_end::<FBox>(d, p)
    } else if name == "Box2D"@ {
        record_end::<FBox2D>(d, p)
    } else if name == "PerPlatformFloat"@ {
        record_end::<FPerPlatformFloat>(d, p)
    } else if name == "PerPlatformInt"@ {
        record_end::<FPerPlatformInt>(d, p)
    } else if name == "SkeletalMeshSamplingLODBuiltData"@ {
        record_end::<FWeightedRandomSampler>(d, p)
    } else if name == "SoftObjectPath"@ || name == "SoftClassPath"@ {
        if fname_ok(d, p, t.0) && spec_string(d, p + 8) is Some {
            Some(spec_string(d, p + 8).unwrap().1)
        } else {
            None
        }
    } else if name == "LevelSequenceObjectReferenceMap"@ {
        if avail(d, p, 4) && elems_ok::<FLevelSequenceLegacyObjectReference>(d, p + 4, ref_count(d, p)) {
            Some(elems_end::<FLevelSequenceLegacyObjectReference>(d, p + 4, ref_count(d, p)))
        } else {
            None
        }
    } else if is_i32_struct(name) {
        record_end::<i32>(d, p)
    } else if name == "SectionEvaluationDataTree"@ {
        section_tree_end(d, p)
    } else if name == "MovieSceneSegment"@ {
        segment_end(d, p, t, f)
    } else if is_inline_struct(name) {
        None
    } else if name == "MovieSceneFrameRange"@ {
        record_end::<TRange>(d, p)
    } else if name == "MovieSceneSequenceID"@ {
        record_end::<u32>(d, p)
    } else if name == "MovieSceneEvaluationKey"@ {
        record_end::<FMovieSceneEvaluationKey>(d, p)
    } else if name == "SmartName"@ {
        if fname_ok(d, p, t.0) {
            Some(p + 8)
        } else {
            None
        }
    } else if name == "RichCurveKey"@ {
        record_end::<FRichCurveKey>(d, p)
    } else if name == "SimpleCurveKey"@ {
        record_end::<FSimpleCurveKey>(d, p)
    } else if name == "DateTime"@ || name == "Timespan"@ {
        record_end::<i64>(d, p)
    } else if f == 0 {
        None
    } else {
        object_end(d, p, name, t, (f - 1) as nat)
    }
}

/// Where a movie scene segment at `p` ends: a range, an id, a flag and a
/// count, then that many section evaluation data structs.
pub open spec fn segment_end(d: Seq<u8>, p: int, t: Tables, f: nat) -> Option<int>
    decreases f, 0nat, 0nat,
{
    if TRange::spec_ok(d, p) && avail(d, p + 10, 12) && f > 0 {
        structs_end(d, p + 22, "SectionEvaluationData"@, t, le_u32(d, p + 18) as nat, (f - 1) as nat)
    } else {
        None
    }
}

/// The number of level sequence references at `p`: a signed count, none when negative.
pub open spec fn ref_count(d: Seq<u8>, p: int) -> nat {
    if le_i32(d, p) > 0 {
        le_i32(d, p) as nat
    } else {
        0
    }
}

/// Where a section evaluation data tree at `p` ends: the base tree, the
/// entries, and an item count that must be zero.
pub open spec fn section_tree_end(d: Seq<u8>, p: int) -> Option<int> {
    let e1 = FMovieSceneEvaluationTree::spec_end(d, p);
    let e2 = tarray_end::<FEntry>(d, e1);
    if FMovieSceneEvaluationTree::spec_ok(d, p) && tarray_ok::<FEntry>(d, e1) && avail(d, e2, 4) && le_u32(d, e2)
        == 0 {
        Some(e2 + 4)
    } else {
        None
    }
}

/// Where `n` struct values of type `name` read one after the other from `p` end.
pub open spec fn structs_end(d: Seq<u8>, p: int, name: Seq<char>, t: Tables, n: nat, f: nat) -> Option<int>
    decreases f, 1nat, n,
{
    if n == 0 {
        Some(p)
    } else {
        match structs_end(d, p, name, t, (n - 1) as nat, f) {
            Some(q) => struct_end(d, q, name, t, f),
            None => None,
        }
    }
}

/// The fragments of the unversioned header at `p`.
pub open spec fn hdr_fragments(d: Seq<u8>, p: int) -> Seq<FFragment> {
    fragments_at(d, p, d.len()).unwrap().0
}

/// The zero mask bits of the unversioned header at `p`.
pub open spec fn hdr_bits(d: Seq<u8>, p: int) -> Seq<bool> {
    let (fs, e) = fragments_at(d, p, d.len()).unwrap();
    let zc = zero_count(fs);
    if zc > 0 {
        bits_of_bytes(bytes_at(d, e, zero_mask_bytes(zc) as nat))
    } else {
        Seq::empty()
    }
}

/// The properties that the unversioned header at `p` lists.
#[verifier::opaque]
pub open spec fn hdr_indices(d: Seq<u8>, p: int) -> Seq<PropertyIndex> {
    frag_indices(hdr_fragments(d, p), hdr_bits(d, p)).0
}

/// The header at `p` reads and its indices fit.
#[verifier::opaque]
pub open spec fn hdr_ok(d: Seq<u8>, p: int) -> bool {
    let fi = frag_indices(hdr_fragments(d, p), hdr_bits(d, p));
    &&& FUnversionedHeader::spec_ok(d, p)
    &&& fi.1 <= u32::MAX
    &&& (fi.2 + 7) / 8 * 8 <= hdr_bits(d, p).len()
}

pub open spec fn index_seq(pis: Seq<PropertyIndex>) -> Seq<u32> {
    pis.map_values(|x: PropertyIndex| x.index)
}

/// The mappings of the properties of an object of class `ty` at `p`.
#[verifier::opaque]
pub open spec fn object_mappings(d: Seq<u8>, p: int, ty: Seq<char>, t: Tables) -> Option<Seq<PropertyMapping>> {
    match class_props(t.2, ty) {
        Some(Some(ps)) => lookup_props(ps, index_seq(hdr_indices(d, p))),
        _ => None,
    }
}

/// Where an object of class `ty` at `p` ends.
pub open spec fn object_end(d: Seq<u8>, p: int, ty: Seq<char>, t: Tables, f: nat) -> Option<int>
    decreases f, 0nat, 0nat,
{
    if !hdr_ok(d, p) || f == 0 {
        None
    } else {
        match object_mappings(d, p, ty, t) {
            Some(ms) => props_end(
                d,
                FUnversionedHeader::spec_end(d, p),
                hdr_indices(d, p),
                ms,
                t,
                hdr_indices(d, p).len(),
                (f - 1) as nat,
            ),
            None => None,
        }
    }
}

/// Where the first `k` properties, listed by `pis` with mappings `ms`, end
/// when they are read from `q` on; a property marked zero is read from zero
/// bytes and takes none of the data.
pub open spec fn props_end(
    d: Seq<u8>,
    q: int,
    pis: Seq<PropertyIndex>,
    ms: Seq<PropertyMapping>,
    t: Tables,
    k: nat,
    f: nat,
) -> Option<int>
    decreases f, 1nat, k,
{
    if k == 0 {
        Some(q)
    } else {
        match props_end(d, q, pis, ms, t, (k - 1) as nat, f) {
            Some(q2) => if pis[k - 1].zero {
                if tag_end(zeros32(), 0, ms[k - 1].mapping_type, t, f) is Some {
                    Some(q2)
                } else {
                    None
                }
            } else {
                tag_end(d, q2, ms[k - 1].mapping_type, t, f)
            },
            None => None,
        }
    }
}

// ---------------------------------------------------------------------------
// What the values hold

/// `v` is the value of a property of type `m` read at `p`.
pub open spec fn tag_is(d: Seq<u8>, p: int, m: TagMapping, t: Tables, f: nat, v: FPropertyTagType) -> bool
    decreases f, 0nat, 0nat,
{
    match m {
        TagMapping::TextProperty => v matches FPropertyTagType::TextProperty(x) && FText::spec_is(d, p, x),
        TagMapping::StrProperty => v matches FPropertyTagType::StrProperty(s) && s@ == spec_string(d, p).unwrap().0,
        TagMapping::NameProperty => v matches FPropertyTagType::NameProperty(s) && s@ == t.0[fname_index(d, p)],
        TagMapping::StructProperty { struct_type } => f > 0 && (v matches FPropertyTagType::StructProperty(b)
            && b.struct_name@ == struct_type@ && struct_type_is(
            d,
            p,
            struct_type@,
            t,
            (f - 1) as nat,
            b.struct_type,
        )),
        TagMapping::ObjectProperty => v matches FPropertyTagType::ObjectProperty(x) && x.index == le_i32(d, p)
            && x.import == package_of(le_i32(d, p), t.1),
        TagMapping::SoftObjectProperty => v matches FPropertyTagType::SoftObjectProperty(x)
            && x.asset_path_name@ == t.0[fname_index(d, p)] && x.sub_path_string@ == spec_string(
            d,
            p + 8,
        ).unwrap().0,
        TagMapping::EnumProperty { enum_name } => v matches FPropertyTagType::EnumProperty(Some(s)) && s@
            == enum_text(t.3, opt_view(enum_name), d[p]),
        TagMapping::ArrayProperty { inner_type } => f > 0 && (v matches FPropertyTagType::ArrayProperty(a)
            && a.data@.len() == le_u32(d, p) && tags_are(d, p + 4, *inner_type, t, a.data@, (f - 1) as nat)),
        TagMapping::MapProperty { inner_type, value_type } => f > 0 && (v matches FPropertyTagType::MapProperty(mp)
            && mp.map_data@.len() == le_u32(d, p + 4) && pairs_are(
            d,
            p + 8,
            map_key_type(*inner_type),
            *value_type,
            t,
            mp.map_data@,
            (f - 1) as nat,
        )),
        TagMapping::BoolProperty => v == FPropertyTagType::BoolProperty(d[p] != 0),
        TagMapping::ByteProperty => v == FPropertyTagType::ByteProperty(d[p]),
        TagMapping::IntProperty => v == FPropertyTagType::IntProperty(le_i32(d, p) as i32),
        TagMapping::FloatProperty => v == FPropertyTagType::FloatProperty(le_u32(d, p) as u32),
        _ => false,
    }
}

/// `vs` are the values of type `m` read one after the other from `p`.
pub open spec fn tags_are(d: Seq<u8>, p: int, m: TagMapping, t: Tables, vs: Seq<FPropertyTagType>, f: nat) -> bool
    decreases f, 1nat, 0nat,
{
    forall|k: int|
        0 <= k < vs.len() ==> #[trigger] tags_end(d, p, m, t, k as nat, f) is Some && tag_is(
            d,
            tags_end(d, p, m, t, k as nat, f).unwrap(),
            m,
            t,
            f,
            vs[k],
        )
}

/// `vs` are the key and value pairs read one after the other from `p`.
pub open spec fn pairs_are(
    d: Seq<u8>,
    p: int,
    k: TagMapping,
    v: TagMapping,
    t: Tables,
    vs: Seq<(FPropertyTagType, FPropertyTagType)>,
    f: nat,
) -> bool
    decreases f, 1nat, 0nat,
{
    forall|i: int|
        0 <= i < vs.len() ==> #[trigger] pairs_end(d, p, k, v, t, i as nat, f) is Some && {
            let q = pairs_end(d, p, k, v, t, i as nat, f).unwrap();
            &&& tag_end(d, q, k, t, f) is Some
            &&& tag_is(d, q, k, t, f, vs[i].0)
            &&& tag_is(d, tag_end(d, q, k, t, f).unwrap(), v, t, f, vs[i].1)
        }
}

/// `v` is the value of a struct of type `name` read at `p`.
pub open spec fn struct_type_is(d: Seq<u8>, p: int, name: Seq<char>, t: Tables, f: nat, v: StructType) -> bool
    decreases f, 0nat, 1nat,
{
    if name == "LinearColor"@ {
        v matches StructType::LinearColor(x) && FLinearColor::spec_is(d, p, x)
    } else if name == "Color"@ {
        v matches StructType::Color(x) && FColor::spec_is(d, p, x)
    } else if name == "GameplayTagContainer"@ {
        v matches StructType::GameplayTagContainer(x) && Some(x@.map_values(|s: String| s@)) == fnames_at(
            d,
            p + 4,
            t.0,
            le_u32(d, p) as nat,
        )
    } else if name == "IntPoint"@ {
        v matches StructType::IntPoint(x) && FIntPoint::spec_is(d, p, x)
    } else if name == "Guid"@ {
        v matches StructType::Guid(x) && FGuid::spec_is(d, p, x)
    } else if name == "Quat"@ {
        v matches StructType::Quat(x) && FQuat::spec_is(d, p, x)
    } else if name == "Vector"@ {
        v matches StructType::Vector(x) && FVector::spec_is(d, p, x)
    } else if name == "Vector2D"@ {
        v matches StructType::Vector2D(x) && FVector2D::spec_is(d, p, x)
    } else if name == "Rotator"@ {
        v matches StructType::Rotator(x) && FRotator::spec_is(d, p, x)
    } else if name == "Box"@ {
        v matches StructType::Box(x) && FBox::spec_is(d, p, x)
    } else if name == "Box2D"@ {
        v matches StructType::Box2D(x) && FBox2D::spec_is(d, p, x)
    } else if name == "PerPlatformFloat"@ {
        v matches StructType::PerPlatformFloat(x) && FPerPlatformFloat::spec_is(d, p, x)
    } else if name == "PerPlatformInt"@ {
        v matches StructType::PerPlatformInt(x) && FPerPlatformInt::spec_is(d, p, x)
    } else if name == "SkeletalMeshSamplingLODBuiltData"@ {
        v matches StructType::WeightedRandomSampler(x) && FWeightedRandomSampler::spec_is(d, p, x)
    } else if name == "SoftObjectPath"@ || name == "SoftClassPath"@ {
        v matches StructType::SoftObjectPath(x) && x.asset_path_name@ == t.0[fname_index(d, p)]
            && x.sub_path_string@ == spec_string(d, p + 8).unwrap().0
    } else if name == "LevelSequenceObjectReferenceMap"@ {
        v matches StructType::LevelSequenceObjectReferenceMap(x) && x@.len() == ref_count(d, p) && elems_are::<
            FLevelSequenceLegacyObjectReference,
        >(d, p + 4, x@)
    } else if is_i32_struct(name) {
        v matches StructType::I32(x) && i32::spec_is(d, p, x)
    } else if name == "SectionEvaluationDataTree"@ {
        v matches StructType::SectionEvaluationDataTree(x) && FMovieSceneEvaluationTree::spec_is(d, p, x.base_tree)
            && tarray_is::<FEntry>(d, FMovieSceneEvaluationTree::spec_end(d, p), x.entries@)
    } else if name == "MovieSceneSegment"@ {
        v matches StructType::MovieSceneSegment(x) && segment_is(d, p, t, f, x)
    } else if is_inline_struct(name) {
        false
    } else if name == "MovieSceneFrameRange"@ {
        v matches StructType::MovieSceneFrameRange(x) && TRange::spec_is(d, p, x)
    } else if name == "MovieSceneSequenceID"@ {
        v matches StructType::U32(x) && u32::spec_is(d, p, x)
    } else if name == "MovieSceneEvaluationKey"@ {
        v matches StructType::MovieSceneEvaluationKey(x) && FMovieSceneEvaluationKey::spec_is(d, p, x)
    } else if name == "SmartName"@ {
        v matches StructType::SmartName(x) && x@ == t.0[fname_index(d, p)]
    } else if name == "RichCurveKey"@ {
        v matches StructType::RichCurveKey(x) && FRichCurveKey::spec_is(d, p, x)
    } else if name == "SimpleCurveKey"@ {
        v matches StructType::SimpleCurveKey(x) && FSimpleCurveKey::spec_is(d, p, x)
    } else if name == "DateTime"@ || name == "Timespan"@ {
        v matches StructType::DateTime(x) && i64::spec_is(d, p, x)
    } else {
        f > 0 && (v matches StructType::Fallback(x) && object_is(d, p, name, t, (f - 1) as nat, x@))
    }
}

/// `x` is the movie scene segment read at `p`.
pub open spec fn segment_is(d: Seq<u8>, p: int, t: Tables, f: nat, x: FMovieSceneSegment) -> bool
    decreases f, 0nat, 0nat,
{
    &&& f > 0
    &&& TRange::spec_is(d, p, x.range)
    &&& x.id == le_i32(d, p + 10)
    &&& x.allow_empty == (le_u32(d, p + 14) != 0)
    &&& x.impls@.len() == le_u32(d, p + 18)
    &&& structs_are(d, p + 22, "SectionEvaluationData"@, t, x.impls@, (f - 1) as nat)
}

/// `vs` are the structs of type `name` read one after the other from `p`.
pub open spec fn structs_are(d: Seq<u8>, p: int, name: Seq<char>, t: Tables, vs: Seq<UScriptStruct>, f: nat) -> bool
    decreases f, 1nat, 0nat,
{
    forall|k: int|
        0 <= k < vs.len() ==> #[trigger] structs_end(d, p, name, t, k as nat, f) is Some && vs[k].struct_name@
            == name && struct_type_is(d, structs_end(d, p, name, t, k as nat, f).unwrap(), name, t, f, vs[k].struct_type)
}

/// Where property `k` of those listed by `pis` is read: the data and the
/// position, zero bytes for a property marked zero.
pub open spec fn prop_at(d: Seq<u8>, q: int, pis: Seq<PropertyIndex>, ms: Seq<PropertyMapping>, t: Tables, k: nat, f: nat) -> (Seq<u8>, int) {
    if pis[k as int].zero {
        (zeros32(), 0)
    } else {
        (d, props_end(d, q, pis, ms, t, k, f).unwrap())
    }
}

/// `tag` is property `k`: its name, its value, and the bytes the value took.
pub open spec fn prop_is(
    d: Seq<u8>,
    q: int,
    pis: Seq<PropertyIndex>,
    ms: Seq<PropertyMapping>,
    t: Tables,
    k: nat,
    f: nat,
    tag: FPropertyTag,
) -> bool
    decreases f, 1nat, 0nat,
{
    let (dd, s) = prop_at(d, q, pis, ms, t, k, f);
    let m = ms[k as int].mapping_type;
    &&& tag.name@ == ms[k as int].name@
    &&& tag_is(dd, s, m, t, f, tag.tag)
    &&& tag.size == (tag_end(dd, s, m, t, f).unwrap() - s) as i32
}

/// `props` are the properties of an object of class `ty` read at `p`.
pub open spec fn object_is(d: Seq<u8>, p: int, ty: Seq<char>, t: Tables, f: nat, props: Seq<FPropertyTag>) -> bool
    decreases f, 0nat, 0nat,
{
    &&& f > 0
    &&& props.len() == hdr_indices(d, p).len()
    &&& props_are(
        d,
        FUnversionedHeader::spec_end(d, p),
        hdr_indices(d, p),
        object_mappings(d, p, ty, t).unwrap(),
        t,
        props,
        (f - 1) as nat,
    )
}

/// `props` are the properties listed by `pis`, with mappings `ms`, read one
/// after the other from `q`.
pub open spec fn props_are(
    d: Seq<u8>,
    q: int,
    pis: Seq<PropertyIndex>,
    ms: Seq<PropertyMapping>,
    t: Tables,
    props: Seq<FPropertyTag>,
    f: nat,
) -> bool
    decreases f, 2nat, 0nat,
{
    forall|k: int| 0 <= k < props.len() ==> prop_is(d, q, pis, ms, t, k as nat, f, #[trigger] props[k])
}

// ---------------------------------------------------------------------------
// A failure stops the reading of what follows

proof fn lemma_tags_end_stops(d: Seq<u8>, p: int, m: TagMapping, t: Tables, k: nat, n: nat, f: nat)
    requires
        k <= n,
        tags_end(d, p, m, t, k, f) is None,
    ensures
        tags_end(d, p, m, t, n, f) is None,
    decreases n - k,
{
    if k < n {
        lemma_tags_end_stops(d, p, m, t, k, (n - 1) as nat, f);
    }
}

proof fn lemma_pairs_end_stops(d: Seq<u8>, p: int, a: TagMapping, b: TagMapping, t: Tables, k: nat, n: nat, f: nat)
    requires
        k <= n,
        pairs_end(d, p, a, b, t, k, f) is None,
    ensures
        pairs_end(d, p, a, b, t, n, f) is None,
    decreases n - k,
{
    if k < n {
        lemma_pairs_end_stops(d, p, a, b, t, k, (n - 1) as nat, f);
    }
}

proof fn lemma_structs_end_stops(d: Seq<u8>, p: int, name: Seq<char>, t: Tables, k: nat, n: nat, f: nat)
    requires
        k <= n,
        structs_end(d, p, name, t, k, f) is None,
    ensures
        structs_end(d, p, name, t, n, f) is None,
    decreases n - k,
{
    if k < n {
        lemma_structs_end_stops(d, p, name, t, k, (n - 1) as nat, f);
    }
}

proof fn lemma_props_end_stops(
    d: Seq<u8>,
    q: int,
    pis: Seq<PropertyIndex>,
    ms: Seq<PropertyMapping>,
    t: Tables,
    k: nat,
    n: nat,
    f: nat,
)
    requires
        k <= n,
        props_end(d, q, pis, ms, t, k, f) is None,
    ensures
        props_end(d, q, pis, ms, t, n, f) is None,
    decreases n - k,
{
    if k < n {
        lemma_props_end_stops(d, q, pis, ms, t, k, (n - 1) as nat, f);
    }
}

// ---------------------------------------------------------------------------
// Small values

/// The decimal digit `v`.
fn digit(v: u8) -> (r: &'static str)
    requires
        v < 10,
    ensures
        r@ == seq![(48 + v) as char],
{
    proof {
        reveal_strlit("0");
        reveal_strlit("1");
        reveal_strlit("2");
        reveal_strlit("3");
        reveal_strlit("4");
        reveal_strlit("5");
        reveal_strlit("6");
        reveal_strlit("7");
        reveal_strlit("8");
        reveal_strlit("9");
    }
    match v {
        0 => "0",
        1 => "1",
        2 => "2",
        3 => "3",
        4 => "4",
        5 => "5",
        6 => "6",
        7 => "7",
        8 => "8",
        _ => "9",
    }
}

/// `v` written in decimal.
pub fn decimal_string(v: u8) -> (r: String)
    ensures
        r@ == decimal(v),
{
    if v < 10 {
        String::from_str(digit(v))
    } else if v < 100 {
        let r = String::from_str(digit(v / 10)).concat(digit(v % 10));
        assert(r@ =~= decimal(v));
        r
    } else {
        let r = String::from_str(digit(v / 100)).concat(digit(v / 10 % 10)).concat(digit(v % 10));
        assert(r@ =~= decimal(v));
        r
    }
}

/// The 32 zero bytes that a property marked zero is read from.
fn zero_bytes() -> (r: Vec<u8>)
    ensures
        r@ == zeros32(),
{
    let mut v: Vec<u8> = Vec::new();
    while v.len() < 32
        invariant
            v.len() <= 32,
            forall|k: int| 0 <= k < v.len() ==> v@[k] == 0,
        decreases 32 - v.len(),
    {
        v.push(0);
    }
    assert(v@ =~= zeros32());
    v
}

proof fn lemma_object_refused(d: Seq<u8>, p: int, ty: Seq<char>, t: Tables, f: nat)
    requires
        f == 0 || !hdr_ok(d, p) || object_mappings(d, p, ty, t) is None,
    ensures
        object_end(d, p, ty, t, f) is None,
{
}

proof fn lemma_object_props_end(d: Seq<u8>, p: int, ty: Seq<char>, t: Tables, f: nat)
    requires
        f > 0,
        hdr_ok(d, p),
        object_mappings(d, p, ty, t) is Some,
    ensures
        object_end(d, p, ty, t, f) == props_end(
            d,
            FUnversionedHeader::spec_end(d, p),
            hdr_indices(d, p),
            object_mappings(d, p, ty, t).unwrap(),
            t,
            hdr_indices(d, p).len(),
            (f - 1) as nat,
        ),
{
}

proof fn lemma_object_props_are(d: Seq<u8>, p: int, ty: Seq<char>, t: Tables, f: nat, props: Seq<FPropertyTag>)
    requires
        f > 0,
        props.len() == hdr_indices(d, p).len(),
        props_are(
            d,
            FUnversionedHeader::spec_end(d, p),
            hdr_indices(d, p),
            object_mappings(d, p, ty, t).unwrap(),
            t,
            props,
            (f - 1) as nat,
        ),
    ensures
        object_is(d, p, ty, t, f, props),
{
}

proof fn lemma_props_push(
    d: Seq<u8>,
    q: int,
    pis: Seq<PropertyIndex>,
    ms: Seq<PropertyMapping>,
    t: Tables,
    props: Seq<FPropertyTag>,
    x: FPropertyTag,
    f: nat,
)
    requires
        props_are(d, q, pis, ms, t, props, f),
        prop_is(d, q, pis, ms, t, props.len(), f, x),
    ensures
        props_are(d, q, pis, ms, t, props.push(x), f),
{
    let ws = props.push(x);
    assert forall|k: int| 0 <= k < ws.len() implies prop_is(d, q, pis, ms, t, k as nat, f, #[trigger] ws[k]) by {
        if k < props.len() {
            assert(ws[k] == props[k]);
        }
    }
}

proof fn lemma_pairs_step(d: Seq<u8>, p: int, k: TagMapping, v: TagMapping, t: Tables, i: nat, f: nat, q: int)
    requires
        pairs_end(d, p, k, v, t, i, f) == Some(q),
    ensures
        pairs_end(d, p, k, v, t, i + 1, f) == match tag_end(d, q, k, t, f) {
            Some(r) => tag_end(d, r, v, t, f),
            None => None,
        },
{
}

proof fn lemma_pairs_next(
    d: Seq<u8>,
    p: int,
    k: TagMapping,
    v: TagMapping,
    t: Tables,
    vs: Seq<(FPropertyTagType, FPropertyTagType)>,
    x: (FPropertyTagType, FPropertyTagType),
    f: nat,
    q: int,
)
    requires
        pairs_are(d, p, k, v, t, vs, f),
        pairs_end(d, p, k, v, t, vs.len(), f) == Some(q),
        tag_end(d, q, k, t, f) is Some,
        tag_end(d, tag_end(d, q, k, t, f).unwrap(), v, t, f) is Some,
        tag_is(d, q, k, t, f, x.0),
        tag_is(d, tag_end(d, q, k, t, f).unwrap(), v, t, f, x.1),
    ensures
        pairs_are(d, p, k, v, t, vs.push(x), f),
        pairs_end(d, p, k, v, t, vs.len() + 1, f) == tag_end(d, tag_end(d, q, k, t, f).unwrap(), v, t, f),
{
    lemma_pairs_step(d, p, k, v, t, vs.len(), f, q);
    lemma_pairs_push(d, p, k, v, t, vs, x, f);
}

proof fn lemma_pairs_push(
    d: Seq<u8>,
    p: int,
    k: TagMapping,
    v: TagMapping,
    t: Tables,
    vs: Seq<(FPropertyTagType, FPropertyTagType)>,
    x: (FPropertyTagType, FPropertyTagType),
    f: nat,
)
    requires
        pairs_are(d, p, k, v, t, vs, f),
        pairs_end(d, p, k, v, t, vs.len(), f) is Some,
        tag_end(d, pairs_end(d, p, k, v, t, vs.len(), f).unwrap(), k, t, f) is Some,
        tag_is(d, pairs_end(d, p, k, v, t, vs.len(), f).unwrap(), k, t, f, x.0),
        tag_is(d, tag_end(d, pairs_end(d, p, k, v, t, vs.len(), f).unwrap(), k, t, f).unwrap(), v, t, f, x.1),
    ensures
        pairs_are(d, p, k, v, t, vs.push(x), f),
{
    let ws = vs.push(x);
    assert forall|i: int| 0 <= i < ws.len() implies #[trigger] pairs_end(d, p, k, v, t, i as nat, f) is Some && {
        let q = pairs_end(d, p, k, v, t, i as nat, f).unwrap();
        &&& tag_end(d, q, k, t, f) is Some
        &&& tag_is(d, q, k, t, f, ws[i].0)
        &&& tag_is(d, tag_end(d, q, k, t, f).unwrap(), v, t, f, ws[i].1)
    } by {
        if i < vs.len() {
            assert(ws[i] == vs[i]);
        }
    }
}

// ---------------------------------------------------------------------------
// Reading

/// Reads the value of a property of type `m`, with structs, arrays, maps and
/// objects nested at most `fuel` deep.
pub fn read_tag(reader: &mut ReaderCursor, name_map: &NameMap, import_map: &ImportMap, m: &TagMapping, fuel: u64) -> (r:
    ParserResult<FPropertyTagType>)
    ensures
        final(reader).spec_data() == old(reader).spec_data(),
        ({
            let d = old(reader).spec_data();
            let p = old(reader).spec_pos();
            let t = tables(name_map, import_map);
            &&& r is Ok <==> tag_end(d, p, *m, t, fuel as nat) is Some
            &&& r matches Ok(v) ==> tag_is(d, p, *m, t, fuel as nat, v) && final(reader).spec_pos() == tag_end(
                d,
                p,
                *m,
                t,
                fuel as nat,
            ).unwrap()
        }),
    decreases fuel, 1nat,
{
    let ghost d = reader.spec_data();
    let ghost p = reader.spec_pos();
    match m {
        TagMapping::TextProperty => Ok(FPropertyTagType::TextProperty(FText::new(reader)?)),
        TagMapping::StrProperty => Ok(FPropertyTagType::StrProperty(read_string(reader)?)),
        TagMapping::NameProperty => Ok(FPropertyTagType::NameProperty(read_fname(reader, name_map)?)),
        TagMapping::StructProperty { struct_type } => {
            if fuel == 0 {
                return Err(error_msg("Properties nested too deeply"));
            }
            let s = read_struct(reader, name_map, import_map, struct_type.as_str(), fuel - 1)?;
            Ok(FPropertyTagType::StructProperty(Box::new(s)))
        },
        TagMapping::ObjectProperty => Ok(
            FPropertyTagType::ObjectProperty(FPackageIndex::new_n(reader, name_map, import_map)?),
        ),
        TagMapping::SoftObjectProperty => Ok(
            FPropertyTagType::SoftObjectProperty(FSoftObjectPath::new_n(reader, name_map, import_map)?),
        ),
        TagMapping::EnumProperty { enum_name } => {
            let val = match reader.read_u8() {
                Some(v) => v,
                None => return Err(error_msg("File Error: failed to fill whole buffer")),
            };
            let data = match import_map.global.mappings.get_enum_mapping(enum_name, val as usize) {
                Some(text) => text.to_owned(),
                None => decimal_string(val),
            };
            Ok(FPropertyTagType::EnumProperty(Some(data)))
        },
        TagMapping::ArrayProperty { inner_type } => {
            if fuel == 0 {
                return Err(error_msg("Properties nested too deeply"));
            }
            Ok(FPropertyTagType::ArrayProperty(read_array(reader, name_map, import_map, inner_type, fuel - 1)?))
        },
        TagMapping::MapProperty { inner_type, value_type } => {
            if fuel == 0 {
                return Err(error_msg("Properties nested too deeply"));
            }
            Ok(
                FPropertyTagType::MapProperty(
                    read_map(reader, name_map, import_map, inner_type, value_type, fuel - 1)?,
                ),
            )
        },
        TagMapping::BoolProperty => match reader.read_u8() {
            Some(v) => Ok(FPropertyTagType::BoolProperty(v != 0)),
            None => Err(error_msg("File Error: failed to fill whole buffer")),
        },
        TagMapping::ByteProperty => match reader.read_u8() {
            Some(v) => Ok(FPropertyTagType::ByteProperty(v)),
            None => Err(error_msg("File Error: failed to fill whole buffer")),
        },
        TagMapping::IntProperty => Ok(FPropertyTagType::IntProperty(i32::new(reader)?)),
        TagMapping::FloatProperty => Ok(FPropertyTagType::FloatProperty(u32::new(reader)?)),
        TagMapping::DebugProperty => Err(error_msg("Encountered DebugProperty - Stopping")),
        _ => Err(error_msg("Unsupported Property Type")),
    }
}

/// Reads a count, then that many values of type `inner`.
fn read_array(reader: &mut ReaderCursor, name_map: &NameMap, import_map: &ImportMap, inner: &TagMapping, fuel: u64) -> (r:
    ParserResult<UScriptArray>)
    ensures
        final(reader).spec_data() == old(reader).spec_data(),
        ({
            let d = old(reader).spec_data();
            let p = old(reader).spec_pos();
            let t = tables(name_map, import_map);
            let e = tags_end(d, p + 4, *inner, t, le_u32(d, p) as nat, fuel as nat);
            &&& r is Ok <==> avail(d, p, 4) && e is Some
            &&& r matches Ok(a) ==> a.data@.len() == le_u32(d, p) && tags_are(
                d,
                p + 4,
                *inner,
                t,
                a.data@,
                fuel as nat,
            ) && final(reader).spec_pos() == e.unwrap()
        }),
    decreases fuel, 2nat,
{
    let ghost d = reader.spec_data();
    let ghost p = reader.spec_pos();
    let ghost t = tables(name_map, import_map);
    let ghost f = fuel as nat;
    let n = match reader.read_u32() {
        Some(v) => v,
        None => return Err(error_msg("File Error: failed to fill whole buffer")),
    };
    let mut data: Vec<FPropertyTagType> = Vec::new();
    let mut i: u32 = 0;
    while i < n
        invariant
            reader.spec_data() == d,
            d == old(reader).spec_data(),
            p == old(reader).spec_pos(),
            t == tables(name_map, import_map),
            f == fuel as nat,
            n == le_u32(d, p),
            i <= n,
            data@.len() == i,
            tags_end(d, p + 4, *inner, t, i as nat, f) is Some,
            reader.spec_pos() == tags_end(d, p + 4, *inner, t, i as nat, f).unwrap(),
            tags_are(d, p + 4, *inner, t, data@, f),
        decreases n - i,
    {
        let ghost before = data@;
        let ghost q = reader.spec_pos();
        assert(tags_end(d, p + 4, *inner, t, (i + 1) as nat, f) == tag_end(d, q, *inner, t, f));
        match read_tag(reader, name_map, import_map, inner, fuel) {
            Ok(v) => {
                data.push(v);
                proof {
                    assert forall|k: int| 0 <= k < data@.len() implies #[trigger] tags_end(d, p + 4, *inner, t, k as nat, f) is Some
                        && tag_is(d, tags_end(d, p + 4, *inner, t, k as nat, f).unwrap(), *inner, t, f, data@[k]) by {
                        if k < i {
                            assert(data@[k] == before[k]);
                        }
                    }
                }
            },
            Err(e) => {
                proof {
                    lemma_tags_end_stops(d, p + 4, *inner, t, (i + 1) as nat, n as nat, f);
                }
                return Err(e);
            },
        }
        i = i + 1;
    }
    Ok(UScriptArray { data })
}

/// Reads a count of removed keys (unused), a count, then that many key and
/// value pairs; enum keys are read as names.
#[verifier::spinoff_prover]
#[verifier::rlimit(100)]
fn read_map(
    reader: &mut ReaderCursor,
    name_map: &NameMap,
    import_map: &ImportMap,
    key_type: &TagMapping,
    value_type: &TagMapping,
    fuel: u64,
) -> (r: ParserResult<UScriptMap>)
    ensures
        final(reader).spec_data() == old(reader).spec_data(),
        ({
            let d = old(reader).spec_data();
            let p = old(reader).spec_pos();
            let t = tables(name_map, import_map);
            let k = map_key_type(*key_type);
            let e = pairs_end(d, p + 8, k, *value_type, t, le_u32(d, p + 4) as nat, fuel as nat);
            &&& r is Ok <==> avail(d, p, 8) && e is Some
            &&& r matches Ok(mp) ==> mp.map_data@.len() == le_u32(d, p + 4) && pairs_are(
                d,
                p + 8,
                k,
                *value_type,
                t,
                mp.map_data@,
                fuel as nat,
            ) && final(reader).spec_pos() == e.unwrap()
        }),
    decreases fuel, 3nat,
{
    let ghost d = reader.spec_data();
    let ghost p = reader.spec_pos();
    let ghost t = tables(name_map, import_map);
    let ghost f = fuel as nat;
    let _remove_keys = match reader.read_u32() {
        Some(v) => v,
        None => return Err(error_msg("File Error: failed to fill whole buffer")),
    };
    let n = match reader.read_u32() {
        Some(v) => v,
        None => return Err(error_msg("File Error: failed to fill whole buffer")),
    };
    let k_type = match key_type {
        TagMapping::EnumProperty { .. } => TagMapping::NameProperty,
        _ => key_type.duplicate(),
    };
    let ghost km = k_type;
    assert(km == map_key_type(*key_type));
    let mut map_data: Vec<(FPropertyTagType, FPropertyTagType)> = Vec::new();
    let mut i: u32 = 0;
    while i < n
        invariant
            reader.spec_data() == d,
            d == old(reader).spec_data(),
            p == old(reader).spec_pos(),
            t == tables(name_map, import_map),
            f == fuel as nat,
            km == k_type,
            km == map_key_type(*key_type),
            avail(d, p, 8),
            n == le_u32(d, p + 4),
            i <= n,
            map_data@.len() == i,
            pairs_end(d, p + 8, km, *value_type, t, i as nat, f) is Some,
            reader.spec_pos() == pairs_end(d, p + 8, km, *value_type, t, i as nat, f).unwrap(),
            pairs_are(d, p + 8, km, *value_type, t, map_data@, f),
        decreases n - i,
    {
        let ghost q = reader.spec_pos();
        let (key, value) = match read_pair(reader, name_map, import_map, &k_type, value_type, fuel) {
            Ok(kv) => kv,
            Err(e) => {
                proof {
                    lemma_pairs_step(d, p + 8, km, *value_type, t, i as nat, f, q);
                    lemma_pairs_end_stops(d, p + 8, km, *value_type, t, (i + 1) as nat, n as nat, f);
                }
                return Err(e);
            },
        };
        proof {
            lemma_pairs_next(d, p + 8, km, *value_type, t, map_data@, (key, value), f, q);
        }
        map_data.push((key, value));
        i = i + 1;
    }
    Ok(UScriptMap { map_data })
}

/// Reads a key of type `k` and then a value of type `v`.
fn read_pair(reader: &mut ReaderCursor, name_map: &NameMap, import_map: &ImportMap, k: &TagMapping, v: &TagMapping, fuel: u64) -> (r:
    ParserResult<(FPropertyTagType, FPropertyTagType)>)
    ensures
        final(reader).spec_data() == old(reader).spec_data(),
        ({
            let d = old(reader).spec_data();
            let p = old(reader).spec_pos();
            let t = tables(name_map, import_map);
            let f = fuel as nat;
            &&& r is Ok <==> tag_end(d, p, *k, t, f) is Some && tag_end(d, tag_end(d, p, *k, t, f).unwrap(), *v, t, f) is Some
            &&& r matches Ok(kv) ==> tag_is(d, p, *k, t, f, kv.0) && tag_is(d, tag_end(d, p, *k, t, f).unwrap(), *v, t, f, kv.1)
                && final(reader).spec_pos() == tag_end(d, tag_end(d, p, *k, t, f).unwrap(), *v, t, f).unwrap()
        }),
    decreases fuel, 2nat,
{
    let key = read_tag(reader, name_map, import_map, k, fuel)?;
    let value = read_tag(reader, name_map, import_map, v, fuel)?;
    Ok((key, value))
}

/// Reads a struct value of type `name`; an error names the struct type.
fn read_struct(reader: &mut ReaderCursor, name_map: &NameMap, import_map: &ImportMap, name: &str, fuel: u64) -> (r:
    ParserResult<UScriptStruct>)
    ensures
        final(reader).spec_data() == old(reader).spec_data(),
        ({
            let d = old(reader).spec_data();
            let p = old(reader).spec_pos();
            let t = tables(name_map, import_map);
            &&& r is Ok <==> struct_end(d, p, name@, t, fuel as nat) is Some
            &&& r matches Ok(v) ==> v.struct_name@ == name@ && struct_type_is(d, p, name@, t, fuel as nat, v.struct_type)
                && final(reader).spec_pos() == struct_end(d, p, name@, t, fuel as nat).unwrap()
        }),
    decreases fuel, 4nat,
{
    match read_struct_type(reader, name_map, import_map, name, fuel) {
        Ok(struct_type) => Ok(UScriptStruct { struct_name: name.to_owned(), struct_type }),
        Err(e) => Err(ParserError::add(e, String::from_str("Struct Type: ").concat(name))),
    }
}

/// Reads the value of a struct of type `name` by the layout of that type;
/// a type without a layout of its own holds properties.
#[verifier::rlimit(50)]
fn read_struct_type(reader: &mut ReaderCursor, name_map: &NameMap, import_map: &ImportMap, name: &str, fuel: u64) -> (r:
    ParserResult<StructType>)
    ensures
        final(reader).spec_data() == old(reader).spec_data(),
        ({
            let d = old(reader).spec_data();
            let p = old(reader).spec_pos();
            let t = tables(name_map, import_map);
            &&& r is Ok <==> struct_end(d, p, name@, t, fuel as nat) is Some
            &&& r matches Ok(v) ==> struct_type_is(d, p, name@, t, fuel as nat, v)
                && final(reader).spec_pos() == struct_end(d, p, name@, t, fuel as nat).unwrap()
        }),
    decreases fuel, 3nat,
{
    let ghost d = reader.spec_data();
    let ghost p = reader.spec_pos();
    if str_eq(name, "LinearColor") {
        Ok(StructType::LinearColor(FLinearColor::new(reader)?))
    } else if str_eq(name, "Color") {
        Ok(StructType::Color(FColor::new(reader)?))
    } else if str_eq(name, "GameplayTagContainer") {
        Ok(StructType::GameplayTagContainer(read_fname_array(reader, name_map)?))
    } else if str_eq(name, "IntPoint") {
        Ok(StructType::IntPoint(FIntPoint::new(reader)?))
    } else if str_eq(name, "Guid") {
        Ok(StructType::Guid(FGuid::new(reader)?))
    } else if str_eq(name, "Quat") {
        Ok(StructType::Quat(FQuat::new(reader)?))
    } else if str_eq(name, "Vector") {
        Ok(StructType::Vector(FVector::new(reader)?))
    } else if str_eq(name, "Vector2D") {
        Ok(StructType::Vector2D(FVector2D::new(reader)?))
    } else if str_eq(name, "Rotator") {
        Ok(StructType::Rotator(FRotator::new(reader)?))
    } else if str_eq(name, "Box") {
        Ok(StructType::Box(FBox::new(reader)?))
    } else if str_eq(name, "Box2D") {
        Ok(StructType::Box2D(FBox2D::new(reader)?))
    } else if str_eq(name, "PerPlatformFloat") {
        Ok(StructType::PerPlatformFloat(FPerPlatformFloat::new(reader)?))
    } else if str_eq(name, "PerPlatformInt") {
        Ok(StructType::PerPlatformInt(FPerPlatformInt::new(reader)?))
    } else if str_eq(name, "SkeletalMeshSamplingLODBuiltData") {
        Ok(StructType::WeightedRandomSampler(FWeightedRandomSampler::new(reader)?))
    } else if str_eq(name, "SoftObjectPath") || str_eq(name, "SoftClassPath") {
        Ok(StructType::SoftObjectPath(FSoftObjectPath::new_n(reader, name_map, import_map)?))
    } else {
        read_struct_type_more(reader, name_map, import_map, name, fuel)
    }
}

/// The rest of the struct types, after those with a fixed layout.
#[verifier::rlimit(50)]
fn read_struct_type_more(reader: &mut ReaderCursor, name_map: &NameMap, import_map: &ImportMap, name: &str, fuel: u64) -> (r:
    ParserResult<StructType>)
    requires
        !(name@ == "LinearColor"@ || name@ == "Color"@ || name@ == "GameplayTagContainer"@ || name@ == "IntPoint"@
            || name@ == "Guid"@ || name@ == "Quat"@ || name@ == "Vector"@ || name@ == "Vector2D"@ || name@
            == "Rotator"@ || name@ == "Box"@ || name@ == "Box2D"@ || name@ == "PerPlatformFloat"@ || name@
            == "PerPlatformInt"@ || name@ == "SkeletalMeshSamplingLODBuiltData"@ || name@ == "SoftObjectPath"@
            || name@ == "SoftClassPath"@),
    ensures
        final(reader).spec_data() == old(reader).spec_data(),
        ({
            let d = old(reader).spec_data();
            let p = old(reader).spec_pos();
            let t = tables(name_map, import_map);
            &&& r is Ok <==> struct_end(d, p, name@, t, fuel as nat) is Some
            &&& r matches Ok(v) ==> struct_type_is(d, p, name@, t, fuel as nat, v)
                && final(reader).spec_pos() == struct_end(d, p, name@, t, fuel as nat).unwrap()
        }),
    decreases fuel, 2nat,
{
    let ghost d = reader.spec_data();
    let ghost p = reader.spec_pos();
    if str_eq(name, "LevelSequenceObjectReferenceMap") {
        let count = i32::new(reader)?;
        let n: u32 = if count > 0 { count as u32 } else { 0 };
        Ok(StructType::LevelSequenceObjectReferenceMap(read_elems(reader, n)?))
    } else if str_eq(name, "FrameNumber") || str_eq(name, "MovieSceneTrackIdentifier") || str_eq(
        name,
        "MovieSceneSegmentIdentifier",
    ) {
        Ok(StructType::I32(i32::new(reader)?))
    } else if str_eq(name, "SectionEvaluationDataTree") {
        let base_tree = FMovieSceneEvaluationTree::new(reader)?;
        let entries: Vec<FEntry> = read_tarray(reader)?;
        let items = u32::new(reader)?;
        if items != 0 {
            return Err(error_msg("Unsupported evaluation data items"));
        }
        Ok(StructType::SectionEvaluationDataTree(FSectionEvaluationDataTree { base_tree, entries }))
    } else if str_eq(name, "MovieSceneSegment") {
        Ok(StructType::MovieSceneSegment(read_segment(reader, name_map, import_map, fuel)?))
    } else if str_eq(name, "MovieSceneEvalTemplatePtr") || str_eq(name, "MovieSceneTrackImplementationPtr")
        || str_eq(name, "MovieSceneSequenceInstanceDataPtr") {
        Err(error_msg("Unsupported inline struct"))
    } else if str_eq(name, "MovieSceneFrameRange") {
        Ok(StructType::MovieSceneFrameRange(TRange::new(reader)?))
    } else if str_eq(name, "MovieSceneSequenceID") {
        Ok(StructType::U32(u32::new(reader)?))
    } else if str_eq(name, "MovieSceneEvaluationKey") {
        Ok(StructType::MovieSceneEvaluationKey(FMovieSceneEvaluationKey::new(reader)?))
    } else if str_eq(name, "SmartName") {
        Ok(StructType::SmartName(read_fname(reader, name_map)?))
    } else if str_eq(name, "RichCurveKey") {
        Ok(StructType::RichCurveKey(FRichCurveKey::new(reader)?))
    } else if str_eq(name, "SimpleCurveKey") {
        Ok(StructType::SimpleCurveKey(FSimpleCurveKey::new(reader)?))
    } else if str_eq(name, "DateTime") || str_eq(name, "Timespan") {
        Ok(StructType::DateTime(i64::new(reader)?))
    } else {
        if fuel == 0 {
            return Err(error_msg("Properties nested too deeply"));
        }
        Ok(StructType::Fallback(read_object(reader, name_map, import_map, name, fuel - 1)?))
    }
}

/// Reads a movie scene segment: its range, id and flag, then a count and that
/// many section evaluation data structs.
fn read_segment(reader: &mut ReaderCursor, name_map: &NameMap, import_map: &ImportMap, fuel: u64) -> (r: ParserResult<
    FMovieSceneSegment,
>)
    ensures
        final(reader).spec_data() == old(reader).spec_data(),
        ({
            let d = old(reader).spec_data();
            let p = old(reader).spec_pos();
            let t = tables(name_map, import_map);
            &&& r is Ok <==> segment_end(d, p, t, fuel as nat) is Some
            &&& r matches Ok(v) ==> segment_is(d, p, t, fuel as nat, v) && final(reader).spec_pos() == segment_end(
                d,
                p,
                t,
                fuel as nat,
            ).unwrap()
        }),
    decreases fuel, 1nat,
{
    let ghost d = reader.spec_data();
    let ghost p = reader.spec_pos();
    let ghost t = tables(name_map, import_map);
    let range = TRange::new(reader)?;
    let id = i32::new(reader)?;
    let flag = u32::new(reader)?;
    let num_structs = u32::new(reader)?;
    if fuel == 0 {
        return Err(error_msg("Properties nested too deeply"));
    }
    let ghost g = (fuel - 1) as nat;
    let ghost name = "SectionEvaluationData"@;
    let mut impls: Vec<UScriptStruct> = Vec::new();
    let mut i: u32 = 0;
    while i < num_structs
        invariant
            reader.spec_data() == d,
            d == old(reader).spec_data(),
            p == old(reader).spec_pos(),
            t == tables(name_map, import_map),
            fuel > 0,
            g == fuel - 1,
            name == "SectionEvaluationData"@,
            num_structs == le_u32(d, p + 18),
            i <= num_structs,
            impls@.len() == i,
            structs_end(d, p + 22, name, t, i as nat, g) is Some,
            reader.spec_pos() == structs_end(d, p + 22, name, t, i as nat, g).unwrap(),
            structs_are(d, p + 22, name, t, impls@, g),
        decreases num_structs - i,
    {
        let ghost before = impls@;
        match read_struct(reader, name_map, import_map, "SectionEvaluationData", fuel - 1) {
            Ok(v) => {
                impls.push(v);
                proof {
                    assert forall|k: int| 0 <= k < impls@.len() implies #[trigger] structs_end(d, p + 22, name, t, k as nat, g) is Some
                        && impls@[k].struct_name@ == name && struct_type_is(
                        d,
                        structs_end(d, p + 22, name, t, k as nat, g).unwrap(),
                        name,
                        t,
                        g,
                        impls@[k].struct_type,
                    ) by {
                        if k < i {
                            assert(impls@[k] == before[k]);
                        }
                    }
                }
            },
            Err(e) => {
                proof {
                    lemma_structs_end_stops(d, p + 22, name, t, (i + 1) as nat, num_structs as nat, g);
                }
                return Err(e);
            },
        }
        i = i + 1;
    }
    Ok(FMovieSceneSegment { range, id, allow_empty: flag != 0, impls })
}

/// Reads the value of a property by its mapping; an error names the property.
fn read_property(reader: &mut ReaderCursor, name_map: &NameMap, import_map: &ImportMap, mapping: &PropertyMapping, fuel: u64) -> (r:
    ParserResult<FPropertyTag>)
    ensures
        final(reader).spec_data() == old(reader).spec_data(),
        ({
            let d = old(reader).spec_data();
            let p = old(reader).spec_pos();
            let t = tables(name_map, import_map);
            let m = mapping.mapping_type;
            &&& r is Ok <==> tag_end(d, p, m, t, fuel as nat) is Some
            &&& r matches Ok(v) ==> v.name@ == mapping.name@ && tag_is(d, p, m, t, fuel as nat, v.tag) && v.size == (
            tag_end(d, p, m, t, fuel as nat).unwrap() - p) as i32 && final(reader).spec_pos() == tag_end(
                d,
                p,
                m,
                t,
                fuel as nat,
            ).unwrap()
        }),
    decreases fuel, 2nat,
{
    let start = reader.position();
    let tag = match read_tag(reader, name_map, import_map, &mapping.mapping_type, fuel) {
        Ok(v) => v,
        Err(e) => return Err(ParserError::add(e, String::from_str("Property: ").concat(mapping.name.as_str()))),
    };
    let end = reader.position();
    let size = (end as i128 - start as i128) as i32;
    Ok(FPropertyTag { name: mapping.name.clone(), size, tag })
}

/// Reads an object of class `ty`: its unversioned header, then each property
/// that the header lists, by the class mappings.
#[verifier::spinoff_prover]
#[verifier::rlimit(100)]
fn read_object(reader: &mut ReaderCursor, name_map: &NameMap, import_map: &ImportMap, ty: &str, fuel: u64) -> (r:
    ParserResult<Vec<FPropertyTag>>)
    ensures
        final(reader).spec_data() == old(reader).spec_data(),
        ({
            let d = old(reader).spec_data();
            let p = old(reader).spec_pos();
            let t = tables(name_map, import_map);
            &&& r is Ok <==> object_end(d, p, ty@, t, fuel as nat) is Some
            &&& r matches Ok(v) ==> object_is(d, p, ty@, t, fuel as nat, v@)
                && final(reader).spec_pos() == object_end(d, p, ty@, t, fuel as nat).unwrap()
        }),
    decreases fuel, 2nat,
{
    let ghost d = reader.spec_data();
    let ghost p = reader.spec_pos();
    let ghost t = tables(name_map, import_map);
    if fuel == 0 {
        proof {
            lemma_object_refused(d, p, ty@, t, fuel as nat);
        }
        return Err(error_msg("Properties nested too deeply"));
    }
    let (pis, mappings) = match object_layout(reader, name_map, import_map, ty) {
        Ok(v) => v,
        Err(e) => {
            proof {
                lemma_object_refused(d, p, ty@, t, fuel as nat);
            }
            return Err(e);
        },
    };
    proof {
        lemma_object_props_end(d, p, ty@, t, fuel as nat);
    }
    let props = read_props(reader, name_map, import_map, &pis, &mappings, fuel - 1)?;
    proof {
        lemma_object_props_are(d, p, ty@, t, fuel as nat, props@);
    }
    Ok(props)
}

/// Reads an unversioned header and finds the mappings of the properties it
/// lists for class `ty`.
fn object_layout(reader: &mut ReaderCursor, name_map: &NameMap, import_map: &ImportMap, ty: &str) -> (r: ParserResult<
    (Vec<PropertyIndex>, Vec<PropertyMapping>),
>)
    ensures
        final(reader).spec_data() == old(reader).spec_data(),
        ({
            let d = old(reader).spec_data();
            let p = old(reader).spec_pos();
            let t = tables(name_map, import_map);
            &&& r is Ok <==> hdr_ok(d, p) && object_mappings(d, p, ty@, t) is Some
            &&& r matches Ok((pis, ms)) ==> pis@ == hdr_indices(d, p) && ms@ == object_mappings(d, p, ty@, t).unwrap()
                && ms@.len() == pis@.len() && final(reader).spec_pos() == FUnversionedHeader::spec_end(d, p)
        }),
{
    let ghost d = reader.spec_data();
    let ghost p = reader.spec_pos();
    proof {
        reveal(hdr_ok);
        reveal(hdr_indices);
        reveal(object_mappings);
    }
    let header = FUnversionedHeader::new(reader)?;
    let pis = match header.property_indices() {
        Some(v) => v,
        None => return Err(error_msg("Unversioned header lists properties it does not hold")),
    };
    assert(pis@ == hdr_indices(d, p));
    let mut indices: Vec<u32> = Vec::new();
    let mut k: usize = 0;
    while k < pis.len()
        invariant
            k <= pis@.len(),
            indices@ == index_seq(pis@.take(k as int)),
        decreases pis@.len() - k,
    {
        indices.push(pis[k].index);
        assert(index_seq(pis@.take(k + 1)) =~= index_seq(pis@.take(k as int)).push(pis@[k as int].index));
        k = k + 1;
    }
    assert(pis@.take(pis@.len() as int) =~= pis@);
    let mappings = import_map.global.mappings.get_mappings(ty, indices)?;
    proof {
        lemma_lookup_props_indices(
            class_props(import_map.global.mappings.class_mappings@, ty@).unwrap().unwrap(),
            index_seq(pis@),
        );
    }
    Ok((pis, mappings))
}

/// Reads the properties listed by `pis`, with mappings `ms`, one after the
/// other; a property marked zero is read from zero bytes.
fn read_props(
    reader: &mut ReaderCursor,
    name_map: &NameMap,
    import_map: &ImportMap,
    pis: &Vec<PropertyIndex>,
    mappings: &Vec<PropertyMapping>,
    fuel: u64,
) -> (r: ParserResult<Vec<FPropertyTag>>)
    requires
        mappings@.len() == pis@.len(),
    ensures
        final(reader).spec_data() == old(reader).spec_data(),
        ({
            let d = old(reader).spec_data();
            let q = old(reader).spec_pos();
            let t = tables(name_map, import_map);
            let e = props_end(d, q, pis@, mappings@, t, pis@.len(), fuel as nat);
            &&& r is Ok <==> e is Some
            &&& r matches Ok(v) ==> v@.len() == pis@.len() && props_are(d, q, pis@, mappings@, t, v@, fuel as nat)
                && final(reader).spec_pos() == e.unwrap()
        }),
    decreases fuel, 3nat,
{
    let ghost d = reader.spec_data();
    let ghost q = reader.spec_pos();
    let ghost t = tables(name_map, import_map);
    let ghost g = fuel as nat;
    let ghost ms = mappings@;
    let mut properties: Vec<FPropertyTag> = Vec::new();
    let mut k: usize = 0;
    while k < pis.len()
        invariant
            reader.spec_data() == d,
            d == old(reader).spec_data(),
            q == old(reader).spec_pos(),
            t == tables(name_map, import_map),
            g == fuel as nat,
            ms == mappings@,
            ms.len() == pis@.len(),
            k <= pis@.len(),
            properties@.len() == k,
            props_end(d, q, pis@, ms, t, k as nat, g) is Some,
            reader.spec_pos() == props_end(d, q, pis@, ms, t, k as nat, g).unwrap(),
            props_are(d, q, pis@, ms, t, properties@, g),
        decreases pis@.len() - k,
    {
        let ghost before = properties@;
        let ghost q2 = reader.spec_pos();
        let prop = if pis[k].zero {
            let zeros = zero_bytes();
            let mut zero_reader = ReaderCursor::new(zeros.as_slice());
            assert(zero_reader.spec_data() == zeros32());
            read_property(&mut zero_reader, name_map, import_map, &mappings[k], fuel)
        } else {
            read_property(reader, name_map, import_map, &mappings[k], fuel)
        };
        assert(props_end(d, q, pis@, ms, t, (k + 1) as nat, g) == if pis@[k as int].zero {
            if tag_end(zeros32(), 0, ms[k as int].mapping_type, t, g) is Some {
                Some(q2)
            } else {
                None
            }
        } else {
            tag_end(d, q2, ms[k as int].mapping_type, t, g)
        });
        match prop {
            Ok(tag) => {
                proof {
                    lemma_props_push(d, q, pis@, ms, t, properties@, tag, g);
                }
                properties.push(tag);
            },
            Err(e) => {
                proof {
                    lemma_props_end_stops(d, q, pis@, ms, t, (k + 1) as nat, pis@.len(), g);
                }
                return Err(e);
            },
        }
        k = k + 1;
    }
    Ok(properties)
}

// ---------------------------------------------------------------------------
// Objects

/// How deep structs, arrays, maps and objects may be nested in an object read
/// from `n` bytes. A level of nesting costs at most three and takes at least
/// two bytes of the data (or of the 32 zero bytes of a property marked zero),
/// so the data runs out before the nesting does.
pub open spec fn nesting_fuel(n: nat) -> nat {
    if n <= 0x7fff_ffff_ffff_ffdf {
        2 * n + 64
    } else {
        u64::MAX as nat
    }
}

/// The nesting allowed in an object read from `n` bytes (see `nesting_fuel`).
pub fn nesting_fuel_of(n: usize) -> (r: u64)
    ensures
        r == nesting_fuel(n as nat),
{
    let m: u64 = n as u64;
    if m <= 0x7fff_ffff_ffff_ffdf {
        2 * m + 64
    } else {
        u64::MAX
    }
}

/// The last of `props` named `name`.
pub open spec fn last_named(props: Seq<FPropertyTag>, name: Seq<char>) -> Option<int>
    decreases props.len(),
{
    if props.len() == 0 {
        None
    } else if props.last().name@ == name {
        Some(props.len() - 1)
    } else {
        last_named(props.drop_last(), name)
    }
}

impl UObject {
    /// Reads an object of class `export_type`: its unversioned header, then the
    /// properties it lists, each by the class mappings (see `object_is`).
    /// Nesting is bounded by the length of the data (see `nesting_fuel`).
    pub fn new(
        reader: &mut ReaderCursor,
        name_map: &NameMap,
        import_map: &ImportMap,
        export_type: &str,
        export_index: Option<FPackageObjectIndex>,
    ) -> (r: ParserResult<Self>)
        ensures
            final(reader).spec_data() == old(reader).spec_data(),
            ({
                let d = old(reader).spec_data();
                let p = old(reader).spec_pos();
                let t = tables(name_map, import_map);
                let e = object_end(d, p, export_type@, t, nesting_fuel(d.len()));
                &&& r is Ok <==> e is Some
                &&& r matches Ok(o) ==> object_is(d, p, export_type@, t, nesting_fuel(d.len()), o.properties@)
                    && o.export_index == export_index && o.export_type@ == export_type@ && final(reader).spec_pos()
                    == e.unwrap()
            }),
    {
        let fuel = nesting_fuel_of(reader.len());
        let properties = read_object(reader, name_map, import_map, export_type, fuel)?;
        Ok(UObject { properties, export_index, export_type: export_type.to_owned() })
    }

    pub fn get_properties(&self) -> (r: &Vec<FPropertyTag>)
        ensures
            r@ == self.properties@,
    {
        &self.properties
    }

    /// The value of the last property named `name`.
    pub fn get_property(&self, name: &str) -> (r: Option<&FPropertyTagType>)
        ensures
            match last_named(self.properties@, name@) {
                Some(i) => r == Some(&self.properties@[i].tag),
                None => r is None,
            },
    {
        let ghost ps = self.properties@;
        let mut found: Option<usize> = None;
        let mut i: usize = 0;
        while i < self.properties.len()
            invariant
                ps == self.properties@,
                i <= ps.len(),
                match last_named(ps.take(i as int), name@) {
                    Some(j) => 0 <= j < i && found == Some(j as usize),
                    None => found is None,
                },
            decreases ps.len() - i,
        {
            assert(ps.take(i + 1).drop_last() =~= ps.take(i as int));
            if str_eq(self.properties[i].name.as_str(), name) {
                found = Some(i);
            }
            i = i + 1;
        }
        assert(ps.take(ps.len() as int) =~= ps);
        match found {
            Some(j) => Some(&self.properties[j].tag),
            None => None,
        }
    }

    /// The value of the last property named `name`, when it is a boolean.
    pub fn get_boolean(&self, name: &str) -> (r: Option<bool>)
        ensures
            r == match last_named(self.properties@, name@) {
                Some(i) => match self.properties@[i].tag {
                    FPropertyTagType::BoolProperty(b) => Some(b),
                    _ => None,
                },
                None => None,
            },
    {
        match self.get_property(name) {
            Some(FPropertyTagType::BoolProperty(b)) => Some(*b),
            _ => None,
        }
    }
}

impl FPropertyTag {
    pub fn get_name(&self) -> (r: &str)
        ensures
            r@ == self.name@,
    {
        self.name.as_str()
    }

    pub fn get_data(&self) -> (r: &FPropertyTagType)
        ensures
            *r == self.tag,
    {
        &self.tag
    }
}

impl UScriptArray {
    pub fn get_data(&self) -> (r: &Vec<FPropertyTagType>)
        ensures
            r@ == self.data@,
    {
        &self.data
    }
}

impl UScriptStruct {
    /// The properties of a struct type without a layout of its own.
    pub fn get_contents(&self) -> (r: Option<&Vec<FPropertyTag>>)
        ensures
            match self.struct_type {
                StructType::Fallback(ps) => r matches Some(v) && v@ == ps@,
                _ => r is None,
            },
    {
        match &self.struct_type {
            StructType::Fallback(ps) => Some(ps),
            _ => None,
        }
    }
}

} // verus!
