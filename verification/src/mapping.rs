//! Property mappings for unversioned assets: which property each index of a
//! class stands for, following the chain of super classes, and enum values.
use vstd::prelude::*;
use crate::assets::{ParserError, ParserResult, ParserType, error_msg, digits, decimal_text};

pub mod smrt;

verus! {

/// The type of a mapped property.
#[derive(Debug)]
pub enum TagMapping {
    BoolProperty,
    ByteProperty,
    EnumProperty { enum_name: Option<String> },
    TextProperty,
    StrProperty,
    NameProperty,
    ArrayProperty { inner_type: Box<TagMapping> },
    MapProperty { inner_type: Box<TagMapping>, value_type: Box<TagMapping> },
    ObjectProperty,
    StructProperty { struct_type: String },
    DebugProperty,
    SetProperty { inner_type: Box<TagMapping> },
    Int8Property,
    Int16Property,
    IntProperty,
    Int64Property,
    UInt16Property,
    UInt32Property,
    UInt64Property,
    FloatProperty,
    DoubleProperty,
    WeakObjectProperty,
    LazyObjectProperty,
    SoftObjectProperty,
    DelegateProperty,
    MulticastDelegateProperty,
    InterfaceProperty,
    FieldPathProperty,
    AssetObjectProperty,
}

impl TagMapping {
    /// A copy of the mapping.
    pub fn duplicate(&self) -> (r: Self)
        ensures
            r == *self,
        decreases self,
    {
        match self {
            TagMapping::BoolProperty => TagMapping::BoolProperty,
            TagMapping::ByteProperty => TagMapping::ByteProperty,
            TagMapping::EnumProperty { enum_name } => TagMapping::EnumProperty {
                enum_name: match enum_name {
                    Some(n) => Some(n.clone()),
                    None => None,
                },
            },
            TagMapping::TextProperty => TagMapping::TextProperty,
            TagMapping::StrProperty => TagMapping::StrProperty,
            TagMapping::NameProperty => TagMapping::NameProperty,
            TagMapping::ArrayProperty { inner_type } => TagMapping::ArrayProperty {
                inner_type: Box::new((**inner_type).duplicate()),
            },
            TagMapping::MapProperty { inner_type, value_type } => TagMapping::MapProperty {
                inner_type: Box::new((**inner_type).duplicate()),
                value_type: Box::new((**value_type).duplicate()),
            },
            TagMapping::ObjectProperty => TagMapping::ObjectProperty,
            TagMapping::StructProperty { struct_type } => TagMapping::StructProperty {
                struct_type: struct_type.clone(),
            },
            TagMapping::DebugProperty => TagMapping::DebugProperty,
            TagMapping::SetProperty { inner_type } => TagMapping::SetProperty {
                inner_type: Box::new((**inner_type).duplicate()),
            },
            TagMapping::Int8Property => TagMapping::Int8Property,
            TagMapping::Int16Property => TagMapping::Int16Property,
            TagMapping::IntProperty => TagMapping::IntProperty,
            TagMapping::Int64Property => TagMapping::Int64Property,
            TagMapping::UInt16Property => TagMapping::UInt16Property,
            TagMapping::UInt32Property => TagMapping::UInt32Property,
            TagMapping::UInt64Property => TagMapping::UInt64Property,
            TagMapping::FloatProperty => TagMapping::FloatProperty,
            TagMapping::DoubleProperty => TagMapping::DoubleProperty,
            TagMapping::WeakObjectProperty => TagMapping::WeakObjectProperty,
            TagMapping::LazyObjectProperty => TagMapping::LazyObjectProperty,
            TagMapping::SoftObjectProperty => TagMapping::SoftObjectProperty,
            TagMapping::DelegateProperty => TagMapping::DelegateProperty,
            TagMapping::MulticastDelegateProperty => TagMapping::MulticastDelegateProperty,
            TagMapping::InterfaceProperty => TagMapping::InterfaceProperty,
            TagMapping::FieldPathProperty => TagMapping::FieldPathProperty,
            TagMapping::AssetObjectProperty => TagMapping::AssetObjectProperty,
        }
    }
}

/// The type a mapping has when none is given.
pub fn default_tag_mapping() -> (r: TagMapping)
    ensures
        r == TagMapping::DebugProperty,
{
    TagMapping::DebugProperty
}

/// A property of a class: its index, its name and its type.
#[derive(Debug)]
pub struct PropertyMapping {
    pub index: u32,
    pub name: String,
    pub mapping_type: TagMapping,
}

impl PropertyMapping {
    pub fn get_name(&self) -> (r: &str)
        ensures
            r@ == self.name@,
    {
        self.name.as_str()
    }

    pub fn get_type(&self) -> (r: &TagMapping)
        ensures
            *r == self.mapping_type,
    {
        &self.mapping_type
    }

    /// A copy of the property.
    pub fn duplicate(&self) -> (r: Self)
        ensures
            r == *self,
    {
        PropertyMapping {
            index: self.index,
            name: self.name.clone(),
            mapping_type: self.mapping_type.duplicate(),
        }
    }
}

/// The properties of a class, with the name of its super class and the number
/// of property indices the class itself takes.
#[derive(Debug)]
pub struct ClassMapping {
    pub name: String,
    pub super_type: Option<String>,
    pub properties: Vec<PropertyMapping>,
    pub property_count: u32,
}

/// `ps` with `off` added to each index; `None` when an index would pass 32 bits.
pub open spec fn offset_props(ps: Seq<PropertyMapping>, off: int) -> Option<Seq<PropertyMapping>> {
    if forall|k: int| 0 <= k < ps.len() ==> #[trigger] ps[k].index + off <= u32::MAX {
        Some(
            Seq::new(
                ps.len(),
                |k: int|
                    PropertyMapping {
                        index: (ps[k].index + off) as u32,
                        name: ps[k].name,
                        mapping_type: ps[k].mapping_type,
                    },
            ),
        )
    } else {
        None
    }
}

impl ClassMapping {
    /// The class's properties with `offset` added to each index.
    pub fn get_properties_offset(&self, offset: u32) -> (r: Option<Vec<PropertyMapping>>)
        ensures
            match r {
                Some(v) => offset_props(self.properties@, offset as int) == Some(v@),
                None => offset_props(self.properties@, offset as int) is None,
            },
    {
        let ghost ps = self.properties@;
        let mut out: Vec<PropertyMapping> = Vec::new();
        let mut i: usize = 0;
        while i < self.properties.len()
            invariant
                ps == self.properties@,
                0 <= i <= ps.len(),
                out@.len() == i,
                forall|k: int| 0 <= k < i ==> #[trigger] ps[k].index + offset <= u32::MAX,
                forall|k: int|
                    0 <= k < i ==> #[trigger] out@[k] == (PropertyMapping {
                        index: (ps[k].index + offset) as u32,
                        name: ps[k].name,
                        mapping_type: ps[k].mapping_type,
                    }),
            decreases ps.len() - i,
        {
            let p = &self.properties[i];
            if p.index > u32::MAX - offset {
                return None;
            }
            let mut q = p.duplicate();
            q.index = p.index + offset;
            out.push(q);
            i = i + 1;
        }
        let ghost expect = offset_props(ps, offset as int);
        assert(expect is Some);
        assert(out@ =~= expect.unwrap());
        Some(out)
    }
}

/// The values of an enum.
#[derive(Debug)]
pub struct EnumMapping {
    pub name: String,
    pub enum_type: String,
    pub values: Vec<String>,
}

/// The class and enum mappings known to the parser.
#[derive(Debug)]
pub struct MappingStore {
    pub class_mappings: Vec<ClassMapping>,
    pub enum_mappings: Vec<EnumMapping>,
}

/// The first class from `i` on named `name`.
pub open spec fn first_class_from(cs: Seq<ClassMapping>, name: Seq<char>, i: int) -> Option<int>
    decreases cs.len() - i,
{
    if i < 0 || i >= cs.len() {
        None
    } else if cs[i].name@ == name {
        Some(i)
    } else {
        first_class_from(cs, name, i + 1)
    }
}

pub open spec fn first_class(cs: Seq<ClassMapping>, name: Seq<char>) -> Option<int> {
    first_class_from(cs, name, 0)
}

pub open spec fn opt_view(s: Option<String>) -> Option<Seq<char>> {
    match s {
        Some(v) => Some(v@),
        None => None,
    }
}

/// `acc` followed by the properties of the chain of super classes from
/// `target`, each class's indices shifted by the counts of the classes before
/// it (`total` so far). The chain stops at a name that no class has; `None`
/// when it is longer than `fuel` classes or an index passes 32 bits.
pub open spec fn gather_props(
    cs: Seq<ClassMapping>,
    target: Option<Seq<char>>,
    acc: Seq<PropertyMapping>,
    total: int,
    fuel: nat,
) -> Option<Seq<PropertyMapping>>
    decreases fuel,
{
    match target {
        None => Some(acc),
        Some(t) => match first_class(cs, t) {
            None => Some(acc),
            Some(i) => if fuel == 0 {
                None
            } else {
                let m = cs[i];
                match offset_props(m.properties@, total) {
                    None => None,
                    Some(ps) => if total + m.property_count > u32::MAX {
                        None
                    } else {
                        gather_props(
                            cs,
                            opt_view(m.super_type),
                            acc + ps,
                            total + m.property_count,
                            (fuel - 1) as nat,
                        )
                    },
                }
            },
        },
    }
}

/// The first of `props` from `j` on with index `idx`.
pub open spec fn find_prop_from(props: Seq<PropertyMapping>, idx: u32, j: int) -> Option<int>
    decreases props.len() - j,
{
    if j < 0 || j >= props.len() {
        None
    } else if props[j].index == idx {
        Some(j)
    } else {
        find_prop_from(props, idx, j + 1)
    }
}

/// The first of `props` with index `idx`.
pub open spec fn find_prop(props: Seq<PropertyMapping>, idx: u32) -> Option<int> {
    find_prop_from(props, idx, 0)
}

/// The properties for `indices`, in order; `None` when one is missing.
pub open spec fn lookup_props(props: Seq<PropertyMapping>, indices: Seq<u32>) -> Option<
    Seq<PropertyMapping>,
> {
    if forall|k: int| 0 <= k < indices.len() ==> #[trigger] find_prop(props, indices[k]) is Some {
        Some(Seq::new(indices.len(), |k: int| props[find_prop(props, indices[k]).unwrap()]))
    } else {
        None
    }
}

/// The properties of class `name` and of its super classes, with their
/// indices shifted along the chain; `None` when there is no such class.
pub open spec fn class_props(cs: Seq<ClassMapping>, name: Seq<char>) -> Option<Option<Seq<PropertyMapping>>> {
    match first_class(cs, name) {
        None => None,
        Some(i) => Some(
            gather_props(
                cs,
                opt_view(cs[i].super_type),
                cs[i].properties@,
                cs[i].property_count as int,
                cs.len(),
            ),
        ),
    }
}

/// The lines of a list of numbers in the pretty debug form, one per number.
pub open spec fn debug_lines(v: Seq<u32>) -> Seq<char>
    decreases v.len(),
{
    if v.len() == 0 {
        Seq::empty()
    } else {
        debug_lines(v.drop_last()) + "    "@ + digits(v.last() as nat) + ",\n"@
    }
}

/// A list of numbers in the pretty debug form: `[]` when empty, else one
/// number a line between brackets.
pub open spec fn debug_list(v: Seq<u32>) -> Seq<char> {
    if v.len() == 0 {
        "[]"@
    } else {
        "[\n"@ + debug_lines(v) + "]"@
    }
}

/// The message for index `index` of `indices` missing from class `class`.
pub open spec fn index_missing_text(class: Seq<char>, index: u32, indices: Seq<u32>) -> Seq<char> {
    "Index not found: "@ + class + "-"@ + digits(index as nat) + " of "@ + debug_list(indices)
}

/// `v` in the pretty debug form of a list.
fn list_text(v: &Vec<u32>) -> (r: String)
    ensures
        r@ == debug_list(v@),
{
    if v.len() == 0 {
        String::from_str("[]")
    } else {
        String::from_str("[\n").concat(MappingStore::list_lines(v).as_str()).concat("]")
    }
}

/// The first enum from `i` on named `name`.
pub open spec fn first_enum_from(es: Seq<EnumMapping>, name: Seq<char>, i: int) -> Option<int>
    decreases es.len() - i,
{
    if i < 0 || i >= es.len() {
        None
    } else if es[i].name@ == name {
        Some(i)
    } else {
        first_enum_from(es, name, i + 1)
    }
}

impl MappingStore {
    pub fn empty() -> (r: Self)
        ensures
            r.class_mappings@.len() == 0,
            r.enum_mappings@.len() == 0,
    {
        MappingStore { class_mappings: Vec::new(), enum_mappings: Vec::new() }
    }

    /// The first class mapping named `class_name`.
    pub fn find_class_mapping(&self, class_name: &str) -> (r: ParserResult<&ClassMapping>)
        ensures
            match first_class(self.class_mappings@, class_name@) {
                Some(i) => r matches Ok(m) && *m == self.class_mappings@[i],
                None => r matches Err(e) && e.kind() == ParserType::ClassMappingMissing && e.messages() == seq![
                    "Class not found: "@ + class_name@,
                ],
            },
    {
        let ghost cs = self.class_mappings@;
        let mut i: usize = 0;
        while i < self.class_mappings.len()
            invariant
                cs == self.class_mappings@,
                0 <= i <= cs.len(),
                first_class(cs, class_name@) == first_class_from(cs, class_name@, i as int),
            decreases cs.len() - i,
        {
            if crate::archives::str_eq(self.class_mappings[i].name.as_str(), class_name) {
                return Ok(&self.class_mappings[i]);
            }
            i = i + 1;
        }
        Err(ParserError::typed(String::from_str("Class not found: ").concat(class_name), ParserType::ClassMappingMissing))
    }

    /// The properties of `class_name` and of its super classes, their indices
    /// shifted along the chain.
    #[verifier::loop_isolation(false)]
    pub fn class_properties(&self, class_name: &str) -> (r: ParserResult<Vec<PropertyMapping>>)
        ensures
            match class_props(self.class_mappings@, class_name@) {
                None => r matches Err(e) && e.kind() == ParserType::ClassMappingMissing && e.messages() == seq![
                    "Class not found: "@ + class_name@,
                ],
                Some(None) => r matches Err(e) && e.kind() == ParserType::Unknown,
                Some(Some(ps)) => r matches Ok(v) && v@ == ps,
            },
    {
        let ghost cs = self.class_mappings@;
        let class_mapping = self.find_class_mapping(class_name)?;
        let mut properties = match class_mapping.get_properties_offset(0) {
            Some(p) => p,
            None => return Err(error_msg("Property index out of range")),
        };
        assert(properties@ =~= class_mapping.properties@);
        let mut total_offset: u32 = class_mapping.property_count;
        let mut target: Option<String> = match &class_mapping.super_type {
            Some(t) => Some(t.clone()),
            None => None,
        };
        let mut fuel: usize = self.class_mappings.len();
        let ghost whole = class_props(cs, class_name@).unwrap();
        loop
            invariant
                cs == self.class_mappings@,
                whole == class_props(cs, class_name@).unwrap(),
                whole == gather_props(cs, opt_view(target), properties@, total_offset as int, fuel as nat),
            decreases fuel,
        {
            let t = match target {
                Some(t) => t,
                None => break,
            };
            let mapping = match self.find_class_mapping(t.as_str()) {
                Ok(m) => m,
                Err(_) => break,
            };
            if fuel == 0 {
                return Err(error_msg("Class hierarchy too deep"));
            }
            let mut shifted = match mapping.get_properties_offset(total_offset) {
                Some(p) => p,
                None => return Err(error_msg("Property index out of range")),
            };
            if mapping.property_count > u32::MAX - total_offset {
                return Err(error_msg("Property index out of range"));
            }
            let ghost before = properties@;
            let ghost shifted_view = shifted@;
            properties.append(&mut shifted);
            assert(properties@ == before + shifted_view);
            total_offset = total_offset + mapping.property_count;
            target = match &mapping.super_type {
                Some(s) => Some(s.clone()),
                None => None,
            };
            fuel = fuel - 1;
        }
        Ok(properties)
    }

    /// The lines of `v` in the pretty debug form of a list.
    fn list_lines(v: &Vec<u32>) -> (r: String)
        ensures
            r@ == debug_lines(v@),
    {
        let mut out = String::new();
        let mut i: usize = 0;
        while i < v.len()
            invariant
                i <= v@.len(),
                out@ == debug_lines(v@.take(i as int)),
            decreases v@.len() - i,
        {
            assert(v@.take(i + 1).drop_last() =~= v@.take(i as int));
            out = out.concat("    ").concat(decimal_text(v[i] as u64).as_str()).concat(",\n");
            i = i + 1;
        }
        assert(v@.take(v@.len() as int) =~= v@);
        out
    }

    /// The properties of class `class_name` (and its super classes) for
    /// `indices`, in order.
    #[verifier::loop_isolation(false)]
    pub fn get_mappings(&self, class_name: &str, indices: Vec<u32>) -> (r: ParserResult<Vec<PropertyMapping>>)
        ensures
            match class_props(self.class_mappings@, class_name@) {
                None => r matches Err(e) && e.kind() == ParserType::ClassMappingMissing && e.messages() == seq![
                    "Class not found: "@ + class_name@,
                ],
                Some(None) => r matches Err(e) && e.kind() == ParserType::Unknown,
                Some(Some(ps)) => match lookup_props(ps, indices@) {
                    Some(v) => r matches Ok(w) && w@ == v,
                    None => r matches Err(e) && e.kind() == ParserType::PropertyIndexMissing && exists|k: int|
                        0 <= k < indices@.len() && #[trigger] find_prop(ps, indices@[k]) is None && (forall|j: int|
                            0 <= j < k ==> find_prop(ps, indices@[j]) is Some) && e.messages() == seq![
                            index_missing_text(class_name@, indices@[k], indices@),
                        ],
                },
            },
    {
        let properties = self.class_properties(class_name)?;
        let ghost ps = properties@;
        let mut mappings: Vec<PropertyMapping> = Vec::new();
        let mut i: usize = 0;
        while i < indices.len()
            invariant
                ps == properties@,
                0 <= i <= indices@.len(),
                mappings@.len() == i,
                forall|k: int| 0 <= k < i ==> #[trigger] find_prop(ps, indices@[k]) is Some,
                forall|k: int|
                    0 <= k < i ==> #[trigger] mappings@[k] == ps[find_prop(ps, indices@[k]).unwrap()],
            decreases indices@.len() - i,
        {
            let index = indices[i];
            let mut j: usize = 0;
            while j < properties.len()
                invariant
                    ps == properties@,
                    0 <= j <= ps.len(),
                    find_prop(ps, index) == find_prop_from(ps, index, j as int),
                decreases ps.len() - j,
            {
                if properties[j].index == index {
                    break;
                }
                j = j + 1;
            }
            if j == properties.len() {
                assert(find_prop(ps, index) is None);
                assert(lookup_props(ps, indices@) is None) by {
                    assert(find_prop(ps, indices@[i as int]) is None);
                }
                let msg = String::from_str("Index not found: ").concat(class_name).concat("-").concat(
                    decimal_text(index as u64).as_str(),
                ).concat(" of ").concat(list_text(&indices).as_str());
                return Err(ParserError::typed(msg, ParserType::PropertyIndexMissing));
            }
            assert(find_prop(ps, index) == Some(j as int));
            mappings.push(properties[j].duplicate());
            i = i + 1;
        }
        assert(lookup_props(ps, indices@) is Some);
        assert(mappings@ =~= lookup_props(ps, indices@).unwrap());
        Ok(mappings)
    }

    /// Value `idx` of the first enum named `enum_name`.
    #[verifier::loop_isolation(false)]
    pub fn get_enum_mapping(&self, enum_name: &Option<String>, idx: usize) -> (r: Option<&str>)
        ensures
            match enum_name {
                Some(name) => match first_enum_from(self.enum_mappings@, name@, 0) {
                    Some(i) => if idx < self.enum_mappings@[i].values@.len() {
                        r matches Some(s) && s@ == self.enum_mappings@[i].values@[idx as int]@
                    } else {
                        r is None
                    },
                    None => r is None,
                },
                None => r is None,
            },
    {
        let name = match enum_name {
            Some(n) => n,
            None => return None,
        };
        let ghost es = self.enum_mappings@;
        let mut i: usize = 0;
        while i < self.enum_mappings.len()
            invariant
                es == self.enum_mappings@,
                0 <= i <= es.len(),
                first_enum_from(es, name@, 0) == first_enum_from(es, name@, i as int),
            decreases es.len() - i,
        {
            if crate::archives::str_eq(self.enum_mappings[i].name.as_str(), name.as_str()) {
                let mapping = &self.enum_mappings[i];
                if idx < mapping.values.len() {
                    return Some(mapping.values[idx].as_str());
                } else {
                    return None;
                }
            }
            i = i + 1;
        }
        None
    }
}

/// The chain of super classes only appends: whatever was gathered before stays
/// in front, unchanged.
proof fn lemma_gather_keeps_prefix(
    cs: Seq<ClassMapping>,
    target: Option<Seq<char>>,
    acc: Seq<PropertyMapping>,
    total: int,
    fuel: nat,
)
    requires
        gather_props(cs, target, acc, total, fuel) is Some,
    ensures
        acc.len() <= gather_props(cs, target, acc, total, fuel).unwrap().len(),
        gather_props(cs, target, acc, total, fuel).unwrap().take(acc.len() as int) == acc,
    decreases fuel,
{
    match target {
        None => {
            assert(acc.take(acc.len() as int) =~= acc);
        },
        Some(t) => match first_class(cs, t) {
            None => {
                assert(acc.take(acc.len() as int) =~= acc);
            },
            Some(i) => {
                let m = cs[i];
                let ps = offset_props(m.properties@, total).unwrap();
                lemma_gather_keeps_prefix(
                    cs,
                    opt_view(m.super_type),
                    acc + ps,
                    total + m.property_count,
                    (fuel - 1) as nat,
                );
                let whole = gather_props(cs, target, acc, total, fuel).unwrap();
                assert(whole.take((acc + ps).len() as int).take(acc.len() as int) =~= whole.take(
                    acc.len() as int,
                ));
                assert((acc + ps).take(acc.len() as int) =~= acc);
            },
        },
    }
}

/// The properties of a class begin with the class's own properties, in their
/// order and with their own indices; the super classes' follow.
pub proof fn lemma_class_props_own_first(cs: Seq<ClassMapping>, name: Seq<char>)
    requires
        class_props(cs, name) matches Some(Some(ps)),
    ensures
        ({
            let own = cs[first_class(cs, name).unwrap()].properties@;
            let ps = class_props(cs, name).unwrap().unwrap();
            own.len() <= ps.len() && ps.take(own.len() as int) == own
        }),
{
    let i = first_class(cs, name).unwrap();
    lemma_gather_keeps_prefix(
        cs,
        opt_view(cs[i].super_type),
        cs[i].properties@,
        cs[i].property_count as int,
        cs.len(),
    );
}

/// A class with no super class has exactly its own properties.
pub proof fn lemma_class_props_no_super(cs: Seq<ClassMapping>, name: Seq<char>)
    requires
        first_class(cs, name) matches Some(i) && cs[i].super_type is None,
    ensures
        class_props(cs, name) == Some(Some(cs[first_class(cs, name).unwrap()].properties@)),
{
}

proof fn lemma_find_prop_from_index(props: Seq<PropertyMapping>, idx: u32, j: int)
    requires
        find_prop_from(props, idx, j) is Some,
    ensures
        0 <= find_prop_from(props, idx, j).unwrap() < props.len(),
        props[find_prop_from(props, idx, j).unwrap()].index == idx,
    decreases props.len() - j,
{
    if 0 <= j < props.len() && props[j].index != idx {
        lemma_find_prop_from_index(props, idx, j + 1);
    }
}

/// Each property that a lookup by indices gives back carries the index asked
/// for, and they come in the order of the indices.
pub proof fn lemma_lookup_props_indices(props: Seq<PropertyMapping>, indices: Seq<u32>)
    requires
        lookup_props(props, indices) is Some,
    ensures
        lookup_props(props, indices).unwrap().len() == indices.len(),
        forall|k: int|
            0 <= k < indices.len() ==> #[trigger] lookup_props(props, indices).unwrap()[k].index
                == indices[k],
{
    assert forall|k: int| 0 <= k < indices.len() implies #[trigger] lookup_props(
        props,
        indices,
    ).unwrap()[k].index == indices[k] by {
        assert(find_prop(props, indices[k]) is Some);
        lemma_find_prop_from_index(props, indices[k], 0);
    }
}

} // verus!
