//! Usmap files: a compact binary form of class and enum mappings, with a
//! table of names that the mappings refer to by index.
use vstd::prelude::*;
use crate::reader::{ReaderCursor, le_u16, le_u32, avail, bytes_at};
use crate::assets::{Newable, ParserResult, error_msg};
use crate::mapping::{ClassMapping, EnumMapping, PropertyMapping, TagMapping};

verus! {

pub const USMAP_MAGIC: u16 = 0x30C4;

pub const USMAP_HEADER_SIZE: usize = 12;

/// How the body of a usmap file is compressed.
#[derive(Debug, PartialEq, Eq, Structural, Clone, Copy)]
pub enum CompressionMethod {
    Uncompressed,
    Oodle,
    Brotli,
}

/// The header of a usmap file: magic, version, method and the two sizes.
#[derive(Debug, Clone, Copy)]
pub struct UsmapHeader {
    pub version: u8,
    pub method: CompressionMethod,
    pub comp_size: u32,
    pub size: u32,
}

pub open spec fn method_of(c: u8) -> CompressionMethod {
    if c == 0 {
        CompressionMethod::Uncompressed
    } else if c == 1 {
        CompressionMethod::Oodle
    } else {
        CompressionMethod::Brotli
    }
}

/// The code of a compression method is its place in the declaration of
/// `CompressionMethod`.
pub proof fn lemma_method_code(c: u8)
    requires
        c <= 2,
    ensures
        method_of(c) as u8 == c,
{
}

impl Newable for UsmapHeader {
    /// Twelve bytes: the magic, a version, a known method and the sizes.
    open spec fn spec_ok(data: Seq<u8>, pos: int) -> bool {
        avail(data, pos, 12) && le_u16(data, pos) == 0x30C4 && data[pos + 3] <= 2
    }

    open spec fn spec_end(data: Seq<u8>, pos: int) -> int {
        pos + 12
    }

    open spec fn spec_is(data: Seq<u8>, pos: int, v: Self) -> bool {
        &&& v.version == data[pos + 2]
        &&& v.method == method_of(data[pos + 3])
        &&& v.comp_size == le_u32(data, pos + 4)
        &&& v.size == le_u32(data, pos + 8)
    }

    fn new(reader: &mut ReaderCursor) -> (res: ParserResult<Self>) {
        let magic = match reader.read_u16() {
            Some(v) => v,
            None => return Err(error_msg("File Error: failed to fill whole buffer")),
        };
        if magic != USMAP_MAGIC {
            return Err(error_msg("Magic does not match usmap."));
        }
        let version = reader.read_u8();
        let method = reader.read_u8();
        let (version, method) = match (version, method) {
            (Some(v), Some(m)) => (v, m),
            _ => return Err(error_msg("File Error: failed to fill whole buffer")),
        };
        let method = if method == 0 {
            CompressionMethod::Uncompressed
        } else if method == 1 {
            CompressionMethod::Oodle
        } else if method == 2 {
            CompressionMethod::Brotli
        } else {
            return Err(error_msg("Unknown compression method"));
        };
        let comp_size = reader.read_u32();
        let size = reader.read_u32();
        match (comp_size, size) {
            (Some(c), Some(s)) => Ok(UsmapHeader { version, method, comp_size: c, size: s }),
            _ => Err(error_msg("File Error: failed to fill whole buffer")),
        }
    }
}

/// `oodle` can give `Some(out)` for an input with the bytes `input` and the
/// size `size`.
pub open spec fn oodle_gave<O: Fn(&[u8], u64) -> Option<Vec<u8>>>(oodle: &O, input: Seq<u8>, size: u64, out: Vec<u8>) -> bool {
    exists|i: &[u8]| i@ == input && #[trigger] oodle.ensures((i, size), Some(out))
}

/// The body of a usmap file after its header: as it is, or what `oodle`
/// decompresses it to; Brotli is not supported.
pub fn get_usmap_data<O: Fn(&[u8], u64) -> Option<Vec<u8>>>(data: Vec<u8>, header: &UsmapHeader, oodle: &O) -> (r:
    ParserResult<Vec<u8>>)
    requires
        data@.len() >= 12,
        forall|i: &[u8], n: u64| #[trigger] oodle.requires((i, n)),
    ensures
        header.method == CompressionMethod::Uncompressed ==> (r matches Ok(v) && v@ == data@.skip(12)),
        header.method == CompressionMethod::Oodle ==> (r matches Ok(v) ==> oodle_gave(
            oodle,
            data@.skip(12),
            header.size as u64,
            v,
        )),
        header.method == CompressionMethod::Brotli ==> r is Err,
{
    let mut rest: Vec<u8> = Vec::new();
    let mut k: usize = USMAP_HEADER_SIZE;
    while k < data.len()
        invariant
            12 <= k <= data@.len(),
            rest@ == data@.subrange(12, k as int),
        decreases data@.len() - k,
    {
        rest.push(data[k]);
        k = k + 1;
        assert(rest@ =~= data@.subrange(12, k as int));
    }
    assert(rest@ =~= data@.skip(12));
    match header.method {
        CompressionMethod::Uncompressed => Ok(rest),
        CompressionMethod::Oodle => {
            let input = rest.as_slice();
            let out = oodle(input, header.size as u64);
            match out {
                Some(v) => {
                    assert(input@ == data@.skip(12) && oodle.ensures((input, header.size as u64), Some(v)));
                    assert(oodle_gave(oodle, data@.skip(12), header.size as u64, v));
                    Ok(v)
                },
                None => Err(error_msg("Oodle decompression failed")),
            }
        },
        _ => Err(error_msg("Unsupported Compression Method")),
    }
}

/// A usmap string at `p`: a length byte, then that many bytes of UTF-8.
pub open spec fn usmap_string(d: Seq<u8>, p: int) -> Option<(Seq<char>, int)> {
    if avail(d, p, 1) && avail(d, p + 1, d[p] as int) && vstd::utf8::valid_utf8(bytes_at(d, p + 1, d[p] as nat)) {
        Some((vstd::utf8::decode_utf8(bytes_at(d, p + 1, d[p] as nat)), p + 1 + d[p]))
    } else {
        None
    }
}

pub fn read_usmap_string(reader: &mut ReaderCursor) -> (r: ParserResult<String>)
    ensures
        final(reader).spec_data() == old(reader).spec_data(),
        match usmap_string(old(reader).spec_data(), old(reader).spec_pos()) {
            Some((s, e)) => r matches Ok(v) && v@ == s && final(reader).spec_pos() == e,
            None => r is Err,
        },
{
    let name_length = match reader.read_u8() {
        Some(v) => v,
        None => return Err(error_msg("File Error: failed to fill whole buffer")),
    };
    let bytes = match reader.read_bytes(name_length as usize) {
        Some(b) => b,
        None => return Err(error_msg("File Error: failed to fill whole buffer")),
    };
    match crate::assets::utf8_to_string(bytes.as_slice()) {
        Some(s) => Ok(s),
        None => Err(error_msg("UTF8 Error")),
    }
}

/// A name at `p`: a 32-bit index into `names`, `u32::MAX` for the empty name.
pub open spec fn usmap_name(d: Seq<u8>, p: int, names: Seq<Seq<char>>) -> Option<(Seq<char>, int)> {
    if !avail(d, p, 4) {
        None
    } else if le_u32(d, p) == u32::MAX {
        Some((Seq::empty(), p + 4))
    } else if le_u32(d, p) < names.len() {
        Some((names[le_u32(d, p)], p + 4))
    } else {
        None
    }
}

pub open spec fn names_view(v: Seq<String>) -> Seq<Seq<char>> {
    v.map_values(|s: String| s@)
}

pub fn read_usmap_name(reader: &mut ReaderCursor, name_map: &Vec<String>) -> (r: ParserResult<String>)
    ensures
        final(reader).spec_data() == old(reader).spec_data(),
        match usmap_name(old(reader).spec_data(), old(reader).spec_pos(), names_view(name_map@)) {
            Some((s, e)) => r matches Ok(v) && v@ == s && final(reader).spec_pos() == e,
            None => r is Err,
        },
{
    let name_idx = match reader.read_u32() {
        Some(v) => v,
        None => return Err(error_msg("File Error: failed to fill whole buffer")),
    };
    if name_idx == u32::MAX {
        return Ok(String::new());
    }
    if name_idx as usize >= name_map.len() {
        return Err(error_msg("Name index out of range"));
    }
    Ok(name_map[name_idx as usize].clone())
}

/// Where a property type at `p` ends; `None` when it does not read (an
/// unknown code, a name out of range, the end of the data, or a nesting
/// deeper than `fuel`).
pub open spec fn prop_end(d: Seq<u8>, p: int, names: Seq<Seq<char>>, fuel: nat) -> Option<int>
    decreases fuel,
{
    if fuel == 0 || !avail(d, p, 1) {
        None
    } else {
        let c = d[p];
        if c <= 7 || (10 <= c <= 23) || c == 27 {
            Some(p + 1)
        } else if c == 8 || c == 25 {
            prop_end(d, p + 1, names, (fuel - 1) as nat)
        } else if c == 9 {
            match usmap_name(d, p + 1, names) {
                Some((_, e)) => Some(e),
                None => None,
            }
        } else if c == 24 {
            match prop_end(d, p + 1, names, (fuel - 1) as nat) {
                Some(e) => prop_end(d, e, names, (fuel - 1) as nat),
                None => None,
            }
        } else if c == 26 {
            match prop_end(d, p + 1, names, (fuel - 1) as nat) {
                Some(e) => match usmap_name(d, e, names) {
                    Some((_, e2)) => Some(e2),
                    None => None,
                },
                None => None,
            }
        } else {
            None
        }
    }
}

/// `t` is the property type read at `p` (when `prop_end` says it reads).
pub open spec fn prop_is(d: Seq<u8>, p: int, names: Seq<Seq<char>>, fuel: nat, t: TagMapping) -> bool
    decreases fuel,
{
    if fuel == 0 || !avail(d, p, 1) {
        false
    } else {
        let c = d[p];
        if c == 0 {
            t == TagMapping::ByteProperty
        } else if c == 1 {
            t == TagMapping::BoolProperty
        } else if c == 2 {
            t == TagMapping::IntProperty
        } else if c == 3 {
            t == TagMapping::FloatProperty
        } else if c == 4 {
            t == TagMapping::ObjectProperty
        } else if c == 5 {
            t == TagMapping::NameProperty
        } else if c == 6 {
            t == TagMapping::DelegateProperty
        } else if c == 7 {
            t == TagMapping::DoubleProperty
        } else if c == 8 {
            (t matches TagMapping::ArrayProperty { inner_type } && prop_is(d, p + 1, names, (fuel - 1) as nat, *inner_type))
        } else if c == 9 {
            (t matches TagMapping::StructProperty { struct_type } && struct_type@ == usmap_name(d, p + 1, names).unwrap().0)
        } else if c == 10 {
            t == TagMapping::StrProperty
        } else if c == 11 {
            t == TagMapping::TextProperty
        } else if c == 12 {
            t == TagMapping::InterfaceProperty
        } else if c == 13 {
            t == TagMapping::MulticastDelegateProperty
        } else if c == 14 {
            t == TagMapping::WeakObjectProperty
        } else if c == 15 {
            t == TagMapping::LazyObjectProperty
        } else if c == 16 {
            t == TagMapping::AssetObjectProperty
        } else if c == 17 {
            t == TagMapping::SoftObjectProperty
        } else if c == 18 {
            t == TagMapping::UInt64Property
        } else if c == 19 {
            t == TagMapping::UInt32Property
        } else if c == 20 {
            t == TagMapping::UInt16Property
        } else if c == 21 {
            t == TagMapping::Int64Property
        } else if c == 22 {
            t == TagMapping::Int16Property
        } else if c == 23 {
            t == TagMapping::Int8Property
        } else if c == 24 {
            (t matches TagMapping::MapProperty { inner_type, value_type } && prop_is(
                d,
                p + 1,
                names,
                (fuel - 1) as nat,
                *inner_type,
            ) && prop_is(
                d,
                prop_end(d, p + 1, names, (fuel - 1) as nat).unwrap(),
                names,
                (fuel - 1) as nat,
                *value_type,
            ))
        } else if c == 25 {
            (t matches TagMapping::SetProperty { inner_type } && prop_is(d, p + 1, names, (fuel - 1) as nat, *inner_type))
        } else if c == 26 {
            (t matches TagMapping::EnumProperty { enum_name } && (enum_name matches Some(n) && n@ == usmap_name(
                d,
                prop_end(d, p + 1, names, (fuel - 1) as nat).unwrap(),
                names,
            ).unwrap().0))
        } else {
            t == TagMapping::FieldPathProperty
        }
    }
}

/// The code that a usmap file gives to a property type; 255 for the one
/// type that has no code.
pub open spec fn usmap_type_code(t: TagMapping) -> u8 {
    match t {
        TagMapping::BoolProperty => 1,
        TagMapping::ByteProperty => 0,
        TagMapping::EnumProperty { .. } => 26,
        TagMapping::TextProperty => 11,
        TagMapping::StrProperty => 10,
        TagMapping::NameProperty => 5,
        TagMapping::ArrayProperty { .. } => 8,
        TagMapping::MapProperty { .. } => 24,
        TagMapping::ObjectProperty => 4,
        TagMapping::StructProperty { .. } => 9,
        TagMapping::DebugProperty => 255,
        TagMapping::SetProperty { .. } => 25,
        TagMapping::Int8Property => 23,
        TagMapping::Int16Property => 22,
        TagMapping::IntProperty => 2,
        TagMapping::Int64Property => 21,
        TagMapping::UInt16Property => 20,
        TagMapping::UInt32Property => 19,
        TagMapping::UInt64Property => 18,
        TagMapping::FloatProperty => 3,
        TagMapping::DoubleProperty => 7,
        TagMapping::WeakObjectProperty => 14,
        TagMapping::LazyObjectProperty => 15,
        TagMapping::SoftObjectProperty => 17,
        TagMapping::DelegateProperty => 6,
        TagMapping::MulticastDelegateProperty => 13,
        TagMapping::InterfaceProperty => 12,
        TagMapping::FieldPathProperty => 27,
        TagMapping::AssetObjectProperty => 16,
    }
}

/// A property type read from a usmap file is the type whose code is the
/// type byte at the start of the record.
pub proof fn lemma_usmap_type_code(d: Seq<u8>, p: int, names: Seq<Seq<char>>, fuel: nat, t: TagMapping)
    requires
        prop_end(d, p, names, fuel) is Some,
        prop_is(d, p, names, fuel, t),
    ensures
        usmap_type_code(t) == d[p],
{
}

/// Reads a property type; `fuel` bounds the nesting.
pub fn read_usmap_prop(reader: &mut ReaderCursor, name_map: &Vec<String>, fuel: usize) -> (r: ParserResult<TagMapping>)
    ensures
        final(reader).spec_data() == old(reader).spec_data(),
        match prop_end(old(reader).spec_data(), old(reader).spec_pos(), names_view(name_map@), fuel as nat) {
            Some(e) => r matches Ok(t) && final(reader).spec_pos() == e && prop_is(
                old(reader).spec_data(),
                old(reader).spec_pos(),
                names_view(name_map@),
                fuel as nat,
                t,
            ),
            None => r is Err,
        },
    decreases fuel,
{
    if fuel == 0 {
        return Err(error_msg("Property type nested too deeply"));
    }
    let c = match reader.read_u8() {
        Some(v) => v,
        None => return Err(error_msg("File Error: failed to fill whole buffer")),
    };
    let f = fuel - 1;
    match c {
        0 => Ok(TagMapping::ByteProperty),
        1 => Ok(TagMapping::BoolProperty),
        2 => Ok(TagMapping::IntProperty),
        3 => Ok(TagMapping::FloatProperty),
        4 => Ok(TagMapping::ObjectProperty),
        5 => Ok(TagMapping::NameProperty),
        6 => Ok(TagMapping::DelegateProperty),
        7 => Ok(TagMapping::DoubleProperty),
        8 => {
            let inner_type = Box::new(read_usmap_prop(reader, name_map, f)?);
            Ok(TagMapping::ArrayProperty { inner_type })
        },
        9 => {
            let name = read_usmap_name(reader, name_map)?;
            Ok(TagMapping::StructProperty { struct_type: name })
        },
        10 => Ok(TagMapping::StrProperty),
        11 => Ok(TagMapping::TextProperty),
        12 => Ok(TagMapping::InterfaceProperty),
        13 => Ok(TagMapping::MulticastDelegateProperty),
        14 => Ok(TagMapping::WeakObjectProperty),
        15 => Ok(TagMapping::LazyObjectProperty),
        16 => Ok(TagMapping::AssetObjectProperty),
        17 => Ok(TagMapping::SoftObjectProperty),
        18 => Ok(TagMapping::UInt64Property),
        19 => Ok(TagMapping::UInt32Property),
        20 => Ok(TagMapping::UInt16Property),
        21 => Ok(TagMapping::Int64Property),
        22 => Ok(TagMapping::Int16Property),
        23 => Ok(TagMapping::Int8Property),
        24 => {
            let inner_type = Box::new(read_usmap_prop(reader, name_map, f)?);
            let value_type = Box::new(read_usmap_prop(reader, name_map, f)?);
            Ok(TagMapping::MapProperty { inner_type, value_type })
        },
        25 => {
            let inner_type = Box::new(read_usmap_prop(reader, name_map, f)?);
            Ok(TagMapping::SetProperty { inner_type })
        },
        26 => {
            let _inner_type = read_usmap_prop(reader, name_map, f)?;
            let enum_name = Some(read_usmap_name(reader, name_map)?);
            Ok(TagMapping::EnumProperty { enum_name })
        },
        27 => Ok(TagMapping::FieldPathProperty),
        _ => Err(error_msg("Unknown Property Type")),
    }
}

/// `n` usmap strings from `p`, and where they end.
pub open spec fn usmap_strings(d: Seq<u8>, p: int, n: nat) -> Option<(Seq<Seq<char>>, int)>
    decreases n,
{
    if n == 0 {
        Some((Seq::empty(), p))
    } else {
        match usmap_strings(d, p, (n - 1) as nat) {
            Some((ss, e)) => match usmap_string(d, e) {
                Some((s, e2)) => Some((ss.push(s), e2)),
                None => None,
            },
            None => None,
        }
    }
}

/// `n` names from `p`, and where they end.
pub open spec fn usmap_names(d: Seq<u8>, p: int, n: nat, names: Seq<Seq<char>>) -> Option<(Seq<Seq<char>>, int)>
    decreases n,
{
    if n == 0 {
        Some((Seq::empty(), p))
    } else {
        match usmap_names(d, p, (n - 1) as nat, names) {
            Some((ss, e)) => match usmap_name(d, e, names) {
                Some((s, e2)) => Some((ss.push(s), e2)),
                None => None,
            },
            None => None,
        }
    }
}

pub type EnumView = (Seq<char>, Seq<Seq<char>>);

pub open spec fn enum_view(e: EnumMapping) -> EnumView {
    (e.name@, e.values@.map_values(|s: String| s@))
}

/// An enum at `q`: a name, a count byte and that many value names.
pub open spec fn usmap_enum(d: Seq<u8>, q: int, names: Seq<Seq<char>>) -> Option<(EnumView, int)> {
    match usmap_name(d, q, names) {
        Some((nm, e1)) => if avail(d, e1, 1) {
            match usmap_names(d, e1 + 1, d[e1] as nat, names) {
                Some((vs, e2)) => Some(((nm, vs), e2)),
                None => None,
            }
        } else {
            None
        },
        None => None,
    }
}

pub open spec fn usmap_enums(d: Seq<u8>, p: int, n: nat, names: Seq<Seq<char>>) -> Option<(Seq<EnumView>, int)>
    decreases n,
{
    if n == 0 {
        Some((Seq::empty(), p))
    } else {
        match usmap_enums(d, p, (n - 1) as nat, names) {
            Some((es, e)) => match usmap_enum(d, e, names) {
                Some((x, e2)) => Some((es.push(x), e2)),
                None => None,
            },
            None => None,
        }
    }
}

/// Where a property entry at `q` ends: an index, an array size, a name and a type.
pub open spec fn prop_entry_end(d: Seq<u8>, q: int, names: Seq<Seq<char>>) -> Option<int> {
    if avail(d, q, 3) {
        match usmap_name(d, q + 3, names) {
            Some((_, e)) => prop_end(d, e, names, d.len()),
            None => None,
        }
    } else {
        None
    }
}

pub open spec fn prop_entry_is(d: Seq<u8>, q: int, names: Seq<Seq<char>>, v: PropertyMapping) -> bool {
    let (nm, e) = usmap_name(d, q + 3, names).unwrap();
    &&& v.index == le_u16(d, q)
    &&& v.name@ == nm
    &&& prop_is(d, e, names, d.len(), v.mapping_type)
}

pub open spec fn props_end(d: Seq<u8>, p: int, k: nat, names: Seq<Seq<char>>) -> Option<int>
    decreases k,
{
    if k == 0 {
        Some(p)
    } else {
        match props_end(d, p, (k - 1) as nat, names) {
            Some(e) => prop_entry_end(d, e, names),
            None => None,
        }
    }
}

pub open spec fn props_are(d: Seq<u8>, p: int, names: Seq<Seq<char>>, ps: Seq<PropertyMapping>) -> bool
    decreases ps.len(),
{
    ps.len() == 0 || (props_are(d, p, names, ps.drop_last()) && prop_entry_is(
        d,
        props_end(d, p, (ps.len() - 1) as nat, names).unwrap(),
        names,
        ps.last(),
    ))
}

/// Where a class at `q` ends: a name, a super name, two counts and the
/// properties.
pub open spec fn class_end(d: Seq<u8>, q: int, names: Seq<Seq<char>>) -> Option<int> {
    match usmap_name(d, q, names) {
        Some((_, e1)) => match usmap_name(d, e1, names) {
            Some((_, e2)) => if avail(d, e2, 4) {
                props_end(d, e2 + 4, le_u16(d, e2 + 2) as nat, names)
            } else {
                None
            },
            None => None,
        },
        None => None,
    }
}

pub open spec fn class_is(d: Seq<u8>, q: int, names: Seq<Seq<char>>, c: ClassMapping) -> bool {
    let (nm, e1) = usmap_name(d, q, names).unwrap();
    let (sup, e2) = usmap_name(d, e1, names).unwrap();
    &&& c.name@ == nm
    &&& c.super_type matches Some(s) ==> s@ == sup
    &&& (c.super_type is None <==> sup.len() == 0)
    &&& c.property_count == le_u16(d, e2)
    &&& c.properties@.len() == le_u16(d, e2 + 2)
    &&& props_are(d, e2 + 4, names, c.properties@)
}

pub open spec fn classes_end(d: Seq<u8>, p: int, n: nat, names: Seq<Seq<char>>) -> Option<int>
    decreases n,
{
    if n == 0 {
        Some(p)
    } else {
        match classes_end(d, p, (n - 1) as nat, names) {
            Some(e) => class_end(d, e, names),
            None => None,
        }
    }
}

pub open spec fn classes_are(d: Seq<u8>, p: int, names: Seq<Seq<char>>, cs: Seq<ClassMapping>) -> bool
    decreases cs.len(),
{
    cs.len() == 0 || (classes_are(d, p, names, cs.drop_last()) && class_is(
        d,
        classes_end(d, p, (cs.len() - 1) as nat, names).unwrap(),
        names,
        cs.last(),
    ))
}

fn read_usmap_strings(reader: &mut ReaderCursor, n: u32) -> (r: ParserResult<Vec<String>>)
    ensures
        final(reader).spec_data() == old(reader).spec_data(),
        match usmap_strings(old(reader).spec_data(), old(reader).spec_pos(), n as nat) {
            Some((ss, e)) => r matches Ok(v) && names_view(v@) == ss && final(reader).spec_pos() == e,
            None => r is Err,
        },
{
    let ghost d = reader.spec_data();
    let ghost p = reader.spec_pos();
    let mut out: Vec<String> = Vec::new();
    let mut i: u32 = 0;
    while i < n
        invariant
            reader.spec_data() == d,
            d == old(reader).spec_data(),
            p == old(reader).spec_pos(),
            0 <= i <= n,
            usmap_strings(d, p, i as nat) == Some((names_view(out@), reader.spec_pos())),
        decreases n - i,
    {
        let ghost before = out@;
        let s = match read_usmap_string(reader) {
            Ok(s) => s,
            Err(e) => {
                proof {
                    lemma_strings_none(d, p, (i + 1) as nat, n as nat);
                }
                return Err(e);
            },
        };
        out.push(s);
        assert(names_view(out@) =~= names_view(before).push(s@));
        i = i + 1;
    }
    Ok(out)
}

/// The strings of the name table come in the order they are stored: the
/// `i`-th is the one read after the first `i`, which are the first `i` strings.
pub proof fn lemma_usmap_strings_order(d: Seq<u8>, p: int, n: nat, i: nat)
    requires
        usmap_strings(d, p, n) is Some,
        i < n,
    ensures
        usmap_strings(d, p, i) is Some,
        usmap_strings(d, p, i).unwrap().0 == usmap_strings(d, p, n).unwrap().0.take(i as int),
        usmap_string(d, usmap_strings(d, p, i).unwrap().1) is Some,
        usmap_strings(d, p, n).unwrap().0[i as int] == usmap_string(d, usmap_strings(d, p, i).unwrap().1).unwrap().0,
    decreases n,
{
    let prev = usmap_strings(d, p, (n - 1) as nat);
    let ss = prev.unwrap().0;
    lemma_usmap_strings_len(d, p, (n - 1) as nat);
    let s = usmap_string(d, prev.unwrap().1).unwrap().0;
    assert(usmap_strings(d, p, n).unwrap().0 == ss.push(s));
    if i + 1 < n {
        lemma_usmap_strings_order(d, p, (n - 1) as nat, i);
        assert(ss.push(s).take(i as int) =~= ss.take(i as int));
    } else {
        assert(ss.push(s).take(i as int) =~= ss);
    }
}

proof fn lemma_usmap_strings_len(d: Seq<u8>, p: int, n: nat)
    requires
        usmap_strings(d, p, n) is Some,
    ensures
        usmap_strings(d, p, n).unwrap().0.len() == n,
    decreases n,
{
    if n > 0 {
        lemma_usmap_strings_len(d, p, (n - 1) as nat);
    }
}

/// Names read one after the other come in the order they are stored: the
/// `i`-th is the one read after the first `i`, which are the first `i` names.
pub proof fn lemma_usmap_names_order(d: Seq<u8>, p: int, n: nat, names: Seq<Seq<char>>, i: nat)
    requires
        usmap_names(d, p, n, names) is Some,
        i < n,
    ensures
        usmap_names(d, p, i, names) is Some,
        usmap_names(d, p, i, names).unwrap().0 == usmap_names(d, p, n, names).unwrap().0.take(i as int),
        usmap_name(d, usmap_names(d, p, i, names).unwrap().1, names) is Some,
        usmap_names(d, p, n, names).unwrap().0[i as int] == usmap_name(
            d,
            usmap_names(d, p, i, names).unwrap().1,
            names,
        ).unwrap().0,
    decreases n,
{
    let prev = usmap_names(d, p, (n - 1) as nat, names);
    let ss = prev.unwrap().0;
    lemma_usmap_names_len(d, p, (n - 1) as nat, names);
    let s = usmap_name(d, prev.unwrap().1, names).unwrap().0;
    assert(usmap_names(d, p, n, names).unwrap().0 == ss.push(s));
    if i + 1 < n {
        lemma_usmap_names_order(d, p, (n - 1) as nat, names, i);
        assert(ss.push(s).take(i as int) =~= ss.take(i as int));
    } else {
        assert(ss.push(s).take(i as int) =~= ss);
    }
}

proof fn lemma_usmap_names_len(d: Seq<u8>, p: int, n: nat, names: Seq<Seq<char>>)
    requires
        usmap_names(d, p, n, names) is Some,
    ensures
        usmap_names(d, p, n, names).unwrap().0.len() == n,
    decreases n,
{
    if n > 0 {
        lemma_usmap_names_len(d, p, (n - 1) as nat, names);
    }
}

proof fn lemma_strings_none(d: Seq<u8>, p: int, k: nat, n: nat)
    requires
        k <= n,
        usmap_strings(d, p, k) is None,
    ensures
        usmap_strings(d, p, n) is None,
    decreases n - k,
{
    if k < n {
        lemma_strings_none(d, p, k + 1, n);
    }
}

proof fn lemma_names_none(d: Seq<u8>, p: int, k: nat, n: nat, names: Seq<Seq<char>>)
    requires
        k <= n,
        usmap_names(d, p, k, names) is None,
    ensures
        usmap_names(d, p, n, names) is None,
    decreases n - k,
{
    if k < n {
        lemma_names_none(d, p, k + 1, n, names);
    }
}

proof fn lemma_enums_none(d: Seq<u8>, p: int, k: nat, n: nat, names: Seq<Seq<char>>)
    requires
        k <= n,
        usmap_enums(d, p, k, names) is None,
    ensures
        usmap_enums(d, p, n, names) is None,
    decreases n - k,
{
    if k < n {
        lemma_enums_none(d, p, k + 1, n, names);
    }
}

proof fn lemma_props_none(d: Seq<u8>, p: int, k: nat, n: nat, names: Seq<Seq<char>>)
    requires
        k <= n,
        props_end(d, p, k, names) is None,
    ensures
        props_end(d, p, n, names) is None,
    decreases n - k,
{
    if k < n {
        lemma_props_none(d, p, k + 1, n, names);
    }
}

proof fn lemma_classes_none(d: Seq<u8>, p: int, k: nat, n: nat, names: Seq<Seq<char>>)
    requires
        k <= n,
        classes_end(d, p, k, names) is None,
    ensures
        classes_end(d, p, n, names) is None,
    decreases n - k,
{
    if k < n {
        lemma_classes_none(d, p, k + 1, n, names);
    }
}

#[verifier::loop_isolation(false)]
fn read_usmap_enum(reader: &mut ReaderCursor, name_list: &Vec<String>) -> (r: ParserResult<EnumMapping>)
    ensures
        final(reader).spec_data() == old(reader).spec_data(),
        match usmap_enum(old(reader).spec_data(), old(reader).spec_pos(), names_view(name_list@)) {
            Some((x, e)) => r matches Ok(v) && enum_view(v) == x && v.enum_type@.len() == 0
                && final(reader).spec_pos() == e,
            None => r is Err,
        },
{
    let ghost d = reader.spec_data();
    let ghost names = names_view(name_list@);
    let enum_name = read_usmap_name(reader, name_list)?;
    let count = match reader.read_u8() {
        Some(v) => v,
        None => return Err(error_msg("File Error: failed to fill whole buffer")),
    };
    let ghost p = reader.spec_pos();
    let mut values: Vec<String> = Vec::new();
    let mut j: u8 = 0;
    while j < count
        invariant
            reader.spec_data() == d,
            names == names_view(name_list@),
            0 <= j <= count,
            usmap_names(d, p, j as nat, names) == Some((names_view(values@), reader.spec_pos())),
        decreases count - j,
    {
        let ghost before = values@;
        let v = match read_usmap_name(reader, name_list) {
            Ok(v) => v,
            Err(e) => {
                proof {
                    lemma_names_none(d, p, (j + 1) as nat, count as nat, names);
                }
                return Err(e);
            },
        };
        values.push(v);
        assert(names_view(values@) =~= names_view(before).push(v@));
        j = j + 1;
    }
    let m = EnumMapping { name: enum_name, enum_type: String::new(), values };
    assert(enum_view(m) == (m.name@, names_view(m.values@)));
    Ok(m)
}

fn read_usmap_prop_entry(reader: &mut ReaderCursor, name_list: &Vec<String>) -> (r: ParserResult<PropertyMapping>)
    ensures
        final(reader).spec_data() == old(reader).spec_data(),
        match prop_entry_end(old(reader).spec_data(), old(reader).spec_pos(), names_view(name_list@)) {
            Some(e) => r matches Ok(v) && prop_entry_is(
                old(reader).spec_data(),
                old(reader).spec_pos(),
                names_view(name_list@),
                v,
            ) && final(reader).spec_pos() == e,
            None => r is Err,
        },
{
    let prop_idx = reader.read_u16();
    let array_size = reader.read_u8();
    let prop_idx = match (prop_idx, array_size) {
        (Some(i), Some(_)) => i,
        _ => return Err(error_msg("File Error: failed to fill whole buffer")),
    };
    let prop_name = read_usmap_name(reader, name_list)?;
    let fuel = reader.len();
    let prop_tag = read_usmap_prop(reader, name_list, fuel)?;
    Ok(PropertyMapping { index: prop_idx as u32, name: prop_name, mapping_type: prop_tag })
}

fn read_usmap_props(reader: &mut ReaderCursor, count: u16, name_list: &Vec<String>) -> (r: ParserResult<
    Vec<PropertyMapping>,
>)
    ensures
        final(reader).spec_data() == old(reader).spec_data(),
        match props_end(old(reader).spec_data(), old(reader).spec_pos(), count as nat, names_view(name_list@)) {
            Some(e) => r matches Ok(ps) && ps@.len() == count && props_are(
                old(reader).spec_data(),
                old(reader).spec_pos(),
                names_view(name_list@),
                ps@,
            ) && final(reader).spec_pos() == e,
            None => r is Err,
        },
{
    let ghost d = reader.spec_data();
    let ghost p = reader.spec_pos();
    let ghost names = names_view(name_list@);
    let mut props: Vec<PropertyMapping> = Vec::new();
    let mut j: u16 = 0;
    while j < count
        invariant
            reader.spec_data() == d,
            d == old(reader).spec_data(),
            p == old(reader).spec_pos(),
            names == names_view(name_list@),
            0 <= j <= count,
            props@.len() == j,
            props_end(d, p, j as nat, names) == Some(reader.spec_pos()),
            props_are(d, p, names, props@),
        decreases count - j,
    {
        let ghost before = props@;
        let prop = match read_usmap_prop_entry(reader, name_list) {
            Ok(v) => v,
            Err(e) => {
                proof {
                    lemma_props_none(d, p, (j + 1) as nat, count as nat, names);
                }
                return Err(e);
            },
        };
        props.push(prop);
        assert(props@.drop_last() =~= before);
        j = j + 1;
    }
    Ok(props)
}

fn read_usmap_class(reader: &mut ReaderCursor, name_list: &Vec<String>) -> (r: ParserResult<ClassMapping>)
    ensures
        final(reader).spec_data() == old(reader).spec_data(),
        match class_end(old(reader).spec_data(), old(reader).spec_pos(), names_view(name_list@)) {
            Some(e) => r matches Ok(c) && class_is(old(reader).spec_data(), old(reader).spec_pos(), names_view(name_list@), c)
                && final(reader).spec_pos() == e,
            None => r is Err,
        },
{
    let ghost d = reader.spec_data();
    let ghost names = names_view(name_list@);
    let ghost q0 = reader.spec_pos();
    let class_name = read_usmap_name(reader, name_list)?;
    let ghost e1 = reader.spec_pos();
    let super_name = read_usmap_name(reader, name_list)?;
    let ghost e2 = reader.spec_pos();
    let prop_count = reader.read_u16();
    let contained = reader.read_u16();
    let (prop_count, contained_prop_count) = match (prop_count, contained) {
        (Some(a), Some(b)) => (a, b),
        _ => return Err(error_msg("File Error: failed to fill whole buffer")),
    };
    let props = read_usmap_props(reader, contained_prop_count, name_list)?;
    proof {
        reveal_strlit("");
        assert(super_name@.len() == 0 ==> super_name@ =~= ""@);
    }
    let super_type = if crate::archives::str_eq(super_name.as_str(), "") {
        None
    } else {
        Some(super_name)
    };
    let c = ClassMapping { name: class_name, super_type, properties: props, property_count: prop_count as u32 };
    assert(usmap_name(d, q0, names) == Some((c.name@, e1)));
    assert(usmap_name(d, e1, names) == Some((super_name@, e2)));
    assert(c.super_type is None <==> super_name@.len() == 0);
    assert(c.super_type matches Some(s) ==> s@ == super_name@);
    assert(c.property_count == le_u16(d, e2));
    assert(c.properties@.len() == le_u16(d, e2 + 2));
    assert(props_are(d, e2 + 4, names, c.properties@));
    Ok(c)
}

pub open spec fn enums_view(v: Seq<EnumMapping>) -> Seq<EnumView> {
    v.map_values(|e: EnumMapping| enum_view(e))
}

fn read_usmap_enums(reader: &mut ReaderCursor, n: u32, name_list: &Vec<String>) -> (r: ParserResult<Vec<EnumMapping>>)
    ensures
        final(reader).spec_data() == old(reader).spec_data(),
        match usmap_enums(old(reader).spec_data(), old(reader).spec_pos(), n as nat, names_view(name_list@)) {
            Some((es, e)) => r matches Ok(v) && enums_view(v@) == es && final(reader).spec_pos() == e,
            None => r is Err,
        },
{
    let ghost d = reader.spec_data();
    let ghost p = reader.spec_pos();
    let ghost names = names_view(name_list@);
    let mut out: Vec<EnumMapping> = Vec::new();
    let mut i: u32 = 0;
    while i < n
        invariant
            reader.spec_data() == d,
            d == old(reader).spec_data(),
            p == old(reader).spec_pos(),
            names == names_view(name_list@),
            0 <= i <= n,
            usmap_enums(d, p, i as nat, names) == Some((enums_view(out@), reader.spec_pos())),
        decreases n - i,
    {
        let ghost before = out@;
        let m = match read_usmap_enum(reader, name_list) {
            Ok(m) => m,
            Err(e) => {
                proof {
                    lemma_enums_none(d, p, (i + 1) as nat, n as nat, names);
                }
                return Err(e);
            },
        };
        let ghost mv = enum_view(m);
        out.push(m);
        assert(enums_view(out@) =~= enums_view(before).push(mv));
        i = i + 1;
    }
    Ok(out)
}

fn read_usmap_classes(reader: &mut ReaderCursor, n: u32, name_list: &Vec<String>) -> (r: ParserResult<Vec<ClassMapping>>)
    ensures
        final(reader).spec_data() == old(reader).spec_data(),
        match classes_end(old(reader).spec_data(), old(reader).spec_pos(), n as nat, names_view(name_list@)) {
            Some(e) => r matches Ok(v) && v@.len() == n && classes_are(
                old(reader).spec_data(),
                old(reader).spec_pos(),
                names_view(name_list@),
                v@,
            ) && final(reader).spec_pos() == e,
            None => r is Err,
        },
{
    let ghost d = reader.spec_data();
    let ghost p = reader.spec_pos();
    let ghost names = names_view(name_list@);
    let mut out: Vec<ClassMapping> = Vec::new();
    let mut i: u32 = 0;
    while i < n
        invariant
            reader.spec_data() == d,
            d == old(reader).spec_data(),
            p == old(reader).spec_pos(),
            names == names_view(name_list@),
            0 <= i <= n,
            out@.len() == i,
            classes_end(d, p, i as nat, names) == Some(reader.spec_pos()),
            classes_are(d, p, names, out@),
        decreases n - i,
    {
        let ghost before = out@;
        let c = match read_usmap_class(reader, name_list) {
            Ok(c) => c,
            Err(e) => {
                proof {
                    lemma_classes_none(d, p, (i + 1) as nat, n as nat, names);
                }
                return Err(e);
            },
        };
        out.push(c);
        assert(out@.drop_last() =~= before);
        i = i + 1;
    }
    Ok(out)
}

/// The names, enums and classes of a usmap body, and where each part ends.
pub open spec fn body_names(u: Seq<u8>) -> Option<(Seq<Seq<char>>, int)> {
    if avail(u, 0, 4) {
        usmap_strings(u, 4, le_u32(u, 0) as nat)
    } else {
        None
    }
}

pub open spec fn body_enums(u: Seq<u8>) -> Option<(Seq<EnumView>, int)> {
    match body_names(u) {
        Some((names, e)) => if avail(u, e, 4) {
            usmap_enums(u, e + 4, le_u32(u, e) as nat, names)
        } else {
            None
        },
        None => None,
    }
}

pub open spec fn body_classes_pos(u: Seq<u8>) -> int {
    body_enums(u).unwrap().1
}

/// The body reads: names, enums, then the classes.
pub open spec fn body_ok(u: Seq<u8>) -> bool {
    let q = body_classes_pos(u);
    &&& body_enums(u) is Some
    &&& avail(u, q, 4)
    &&& classes_end(u, q + 4, le_u32(u, q) as nat, body_names(u).unwrap().0) is Some
}

/// Reads the body of a usmap file: the name table, the enums and the classes.
pub fn parse_usmap_body(u: &[u8]) -> (r: ParserResult<(Vec<ClassMapping>, Vec<EnumMapping>)>)
    ensures
        r is Ok <==> body_ok(u@),
        r matches Ok((cs, es)) ==> {
            let q = body_classes_pos(u@);
            &&& enums_view(es@) == body_enums(u@).unwrap().0
            &&& cs@.len() == le_u32(u@, q)
            &&& classes_are(u@, q + 4, body_names(u@).unwrap().0, cs@)
        },
{
    let mut reader = ReaderCursor::new(u);
    let name_list_length = match reader.read_u32() {
        Some(v) => v,
        None => return Err(error_msg("File Error: failed to fill whole buffer")),
    };
    let name_list = read_usmap_strings(&mut reader, name_list_length)?;
    let enum_list_length = match reader.read_u32() {
        Some(v) => v,
        None => return Err(error_msg("File Error: failed to fill whole buffer")),
    };
    let enum_mappings = read_usmap_enums(&mut reader, enum_list_length, &name_list)?;
    let class_mapping_length = match reader.read_u32() {
        Some(v) => v,
        None => return Err(error_msg("File Error: failed to fill whole buffer")),
    };
    let class_mappings = read_usmap_classes(&mut reader, class_mapping_length, &name_list)?;
    Ok((class_mappings, enum_mappings))
}

/// Reads a usmap file: its header, its body (through `oodle` when it is
/// compressed with Oodle) and the mappings in the body.
pub fn read_usmap<O: Fn(&[u8], u64) -> Option<Vec<u8>>>(data: Vec<u8>, oodle: &O) -> (r: ParserResult<
    (Vec<ClassMapping>, Vec<EnumMapping>),
>)
    requires
        forall|i: &[u8], n: u64| #[trigger] oodle.requires((i, n)),
    ensures
        !UsmapHeader::spec_ok(data@, 0) ==> r is Err,
        UsmapHeader::spec_ok(data@, 0) && data@[3] == 0 ==> (r is Ok <==> body_ok(data@.skip(12))) && (r matches Ok(
            (cs, es),
        ) ==> {
            let u = data@.skip(12);
            let q = body_classes_pos(u);
            &&& enums_view(es@) == body_enums(u).unwrap().0
            &&& cs@.len() == le_u32(u, q)
            &&& classes_are(u, q + 4, body_names(u).unwrap().0, cs@)
        }),
        UsmapHeader::spec_ok(data@, 0) && data@[3] == 1 ==> (r matches Ok((cs, es)) ==> exists|u: Vec<u8>|
            oodle_gave(oodle, data@.skip(12), le_u32(data@, 8) as u64, u) && body_ok(u@) && {
                let q = body_classes_pos(u@);
                &&& enums_view(es@) == body_enums(u@).unwrap().0
                &&& cs@.len() == le_u32(u@, q)
                &&& classes_are(u@, q + 4, body_names(u@).unwrap().0, cs@)
            }),
        UsmapHeader::spec_ok(data@, 0) && data@[3] == 2 ==> r is Err,
{
    let header = {
        let mut reader = ReaderCursor::new(data.as_slice());
        UsmapHeader::new(&mut reader)?
    };
    let usmap_data = get_usmap_data(data, &header, oodle)?;
    let r = parse_usmap_body(usmap_data.as_slice());
    proof {
        if r is Ok && header.method == CompressionMethod::Oodle {
            assert(oodle_gave(oodle, data@.skip(12), header.size as u64, usmap_data));
        }
    }
    r
}

} // verus!
