//! The integer records of mesh data: packed normals, tangents, skin weights,
//! vertex colours, bones and index buffers.
use vstd::prelude::*;
use crate::reader::{ReaderCursor, le_u16, le_u32, avail, signed};
use crate::assets::{
    Newable, ParserResult, error_msg, read_tarray, tarray_ok, tarray_end, tarray_is, le_i32, FStripDataFlags,
    NameMap, ImportMap, read_fname, FMappedName, FColor,
};

verus! {

/// A normal packed as four signed 16-bit values.
#[derive(Debug, Clone, Copy)]
pub struct FPackedRGBA16N {
    pub x: i16,
    pub y: i16,
    pub z: i16,
    pub w: i16,
}

impl Newable for FPackedRGBA16N {
    open spec fn spec_ok(data: Seq<u8>, pos: int) -> bool {
        avail(data, pos, 8)
    }

    open spec fn spec_end(data: Seq<u8>, pos: int) -> int {
        pos + 8
    }

    open spec fn spec_is(data: Seq<u8>, pos: int, v: Self) -> bool {
        &&& v.x == signed(le_u16(data, pos), 16)
        &&& v.y == signed(le_u16(data, pos + 2), 16)
        &&& v.z == signed(le_u16(data, pos + 4), 16)
        &&& v.w == signed(le_u16(data, pos + 6), 16)
    }

    fn new(reader: &mut ReaderCursor) -> (res: ParserResult<Self>) {
        let x = reader.read_i16();
        let y = reader.read_i16();
        let z = reader.read_i16();
        let w = reader.read_i16();
        match (x, y, z, w) {
            (Some(x), Some(y), Some(z), Some(w)) => Ok(FPackedRGBA16N { x, y, z, w }),
            _ => Err(error_msg("File Error: failed to fill whole buffer")),
        }
    }
}

/// A normal packed as four signed bytes.
#[derive(Debug, Clone, Copy)]
pub struct FPackedNormal {
    pub x: i8,
    pub y: i8,
    pub z: i8,
    pub w: i8,
}

impl Newable for FPackedNormal {
    open spec fn spec_ok(data: Seq<u8>, pos: int) -> bool {
        avail(data, pos, 4)
    }

    open spec fn spec_end(data: Seq<u8>, pos: int) -> int {
        pos + 4
    }

    open spec fn spec_is(data: Seq<u8>, pos: int, v: Self) -> bool {
        &&& v.x == signed(data[pos] as int, 8)
        &&& v.y == signed(data[pos + 1] as int, 8)
        &&& v.z == signed(data[pos + 2] as int, 8)
        &&& v.w == signed(data[pos + 3] as int, 8)
    }

    fn new(reader: &mut ReaderCursor) -> (res: ParserResult<Self>) {
        let x = reader.read_i8();
        let y = reader.read_i8();
        let z = reader.read_i8();
        let w = reader.read_i8();
        match (x, y, z, w) {
            (Some(x), Some(y), Some(z), Some(w)) => Ok(FPackedNormal { x, y, z, w }),
            _ => Err(error_msg("File Error: failed to fill whole buffer")),
        }
    }
}

/// The tangent basis of a vertex: a tangent, then a normal.
#[derive(Debug)]
pub struct TStaticMeshVertexTangent<T> {
    pub normal: T,
    pub tangent: T,
}

impl<T: Newable> Newable for TStaticMeshVertexTangent<T> {
    open spec fn spec_ok(data: Seq<u8>, pos: int) -> bool {
        T::spec_ok(data, pos) && T::spec_ok(data, T::spec_end(data, pos))
    }

    open spec fn spec_end(data: Seq<u8>, pos: int) -> int {
        T::spec_end(data, T::spec_end(data, pos))
    }

    open spec fn spec_is(data: Seq<u8>, pos: int, v: Self) -> bool {
        T::spec_is(data, pos, v.tangent) && T::spec_is(data, T::spec_end(data, pos), v.normal)
    }

    fn new(reader: &mut ReaderCursor) -> (res: ParserResult<Self>) {
        let tangent = T::new(reader)?;
        let normal = T::new(reader)?;
        Ok(TStaticMeshVertexTangent { normal, tangent })
    }
}

impl<T> TStaticMeshVertexTangent<T> {
    pub fn get_normal(&self) -> (r: &T)
        ensures
            *r == self.normal,
    {
        &self.normal
    }

    pub fn get_tangent(&self) -> (r: &T)
        ensures
            *r == self.tangent,
    {
        &self.tangent
    }
}

/// A texture coordinate of a vertex.
#[derive(Debug)]
pub struct TStaticMeshVertexUV<T> {
    pub value: T,
}

impl<T: Newable> Newable for TStaticMeshVertexUV<T> {
    open spec fn spec_ok(data: Seq<u8>, pos: int) -> bool {
        T::spec_ok(data, pos)
    }

    open spec fn spec_end(data: Seq<u8>, pos: int) -> int {
        T::spec_end(data, pos)
    }

    open spec fn spec_is(data: Seq<u8>, pos: int, v: Self) -> bool {
        T::spec_is(data, pos, v.value)
    }

    fn new(reader: &mut ReaderCursor) -> (res: ParserResult<Self>) {
        let value = T::new(reader)?;
        Ok(TStaticMeshVertexUV { value })
    }
}

impl<T> TStaticMeshVertexUV<T> {
    pub fn get_val(&self) -> (r: &T)
        ensures
            *r == self.value,
    {
        &self.value
    }
}

/// The tangents of a vertex buffer, in high or low precision.
#[derive(Debug)]
pub enum FStaticMeshVertexDataTangent {
    High(Vec<TStaticMeshVertexTangent<FPackedRGBA16N>>),
    Low(Vec<TStaticMeshVertexTangent<FPackedNormal>>),
}

/// The bone indices and weights of a vertex, up to eight influences.
#[derive(Debug, Clone, Copy)]
pub struct FSkinWeightInfo {
    pub bone_index: [u8; 8],
    pub bone_weight: [u8; 8],
}

impl FSkinWeightInfo {
    /// Reads `max_influences` indices, then as many weights; the rest stay 0.
    pub fn new(reader: &mut ReaderCursor, max_influences: usize) -> (r: ParserResult<Self>)
        ensures
            final(reader).spec_data() == old(reader).spec_data(),
            ({
                let d = old(reader).spec_data();
                let p = old(reader).spec_pos();
                let m = max_influences as int;
                &&& r is Ok <==> m <= 8 && avail(d, p, 2 * m)
                &&& r matches Ok(v) ==> final(reader).spec_pos() == p + 2 * m && forall|k: int|
                    0 <= k < 8 ==> (#[trigger] v.bone_index@[k] == (if k < m { d[p + k] } else { 0 }))
                        && v.bone_weight@[k] == (if k < m { d[p + m + k] } else { 0 })
            }),
    {
        if max_influences > 8 {
            return Err(error_msg("Max influences too high"));
        }
        let ghost d = reader.spec_data();
        let ghost p = reader.spec_pos();
        let index_bytes = match reader.read_bytes(max_influences) {
            Some(b) => b,
            None => return Err(error_msg("File Error: failed to fill whole buffer")),
        };
        let weight_bytes = match reader.read_bytes(max_influences) {
            Some(b) => b,
            None => return Err(error_msg("File Error: failed to fill whole buffer")),
        };
        let mut bone_index = [0u8; 8];
        let mut bone_weight = [0u8; 8];
        let mut i: usize = 0;
        while i < max_influences
            invariant
                max_influences <= 8,
                0 <= i <= max_influences,
                index_bytes@.len() == max_influences,
                weight_bytes@.len() == max_influences,
                forall|k: int| 0 <= k < 8 ==> #[trigger] bone_index@[k] == (if k < i { index_bytes@[k] } else { 0 }),
                forall|k: int| 0 <= k < 8 ==> #[trigger] bone_weight@[k] == (if k < i { weight_bytes@[k] } else { 0 }),
            decreases max_influences - i,
        {
            bone_index[i] = index_bytes[i];
            bone_weight[i] = weight_bytes[i];
            i = i + 1;
        }
        Ok(FSkinWeightInfo { bone_index, bone_weight })
    }

    pub fn get_bone_index(&self) -> (r: &[u8; 8])
        ensures
            *r == self.bone_index,
    {
        &self.bone_index
    }

    pub fn get_bone_weight(&self) -> (r: &[u8; 8])
        ensures
            *r == self.bone_weight,
    {
        &self.bone_weight
    }
}

/// The skin weights of a mesh.
#[derive(Debug)]
pub struct FSkinWeightVertexBuffer {
    pub weights: Vec<FSkinWeightInfo>,
    pub num_vertices: i32,
}

impl FSkinWeightVertexBuffer {
    /// Reads the buffer; `None` when its data was stripped for servers.
    #[verifier::loop_isolation(false)]
    pub fn new(reader: &mut ReaderCursor) -> (r: ParserResult<Option<Self>>)
        ensures
            final(reader).spec_data() == old(reader).spec_data(),
            ({
                let d = old(reader).spec_data();
                let p = old(reader).spec_pos();
                let stripped = d[p] & 2 != 0;
                let m: int = if le_u32(d, p + 2) != 0 { 8 } else { 4 };
                let count = le_i32(d, p + 14);
                &&& r is Ok <==> avail(d, p, 10) && (stripped || (avail(d, p + 10, 8) && (count <= 0 || avail(d, p + 18, 2 * m * count))))
                &&& r matches Ok(o) ==> (o is None <==> stripped)
                &&& r matches Ok(Some(b)) ==> b.num_vertices == le_i32(d, p + 6) && b.weights@.len() == (if count > 0 { count } else { 0 }) && forall|i: int, k: int|
                    0 <= i < b.weights@.len() && 0 <= k < 8 ==> (#[trigger] b.weights@[i].bone_index@[k] == (if k < m { d[p + 18 + 2 * m * i + k] } else { 0 }))
                        && b.weights@[i].bone_weight@[k] == (if k < m { d[p + 18 + 2 * m * i + m + k] } else { 0 })
            }),
    {
        proof {
            crate::reader::lemma_pow2_values();
        }
        let ghost d = reader.spec_data();
        let ghost p = reader.spec_pos();
        let flags = FStripDataFlags::new(reader)?;
        let extra = reader.read_i32();
        let num_vertices = reader.read_i32();
        let (extra_bone_influences, num_vertices) = match (extra, num_vertices) {
            (Some(e), Some(n)) => (e != 0, n),
            _ => return Err(error_msg("File Error: failed to fill whole buffer")),
        };
        if flags.is_data_stripped_for_server() {
            return Ok(None);
        }
        let _element_size = reader.read_i32();
        let element_count = reader.read_i32();
        let element_count = match (_element_size, element_count) {
            (Some(_), Some(c)) => c,
            _ => return Err(error_msg("File Error: failed to fill whole buffer")),
        };
        let num_influences: usize = if extra_bone_influences { 8 } else { 4 };
        let ghost m = num_influences as int;
        let ghost q = reader.spec_pos();
        let mut weights: Vec<FSkinWeightInfo> = Vec::new();
        let mut i: i32 = 0;
        while i < element_count
            invariant
                reader.spec_data() == d,
                q == p + 18,
                m == num_influences,
                m == 4 || m == 8,
                0 <= i,
                element_count > 0 ==> i <= element_count,
                element_count <= 0 ==> i == 0,
                weights@.len() == i,
                reader.spec_pos() == q + 2 * m * i,
                avail(d, q, 2 * m * i),
                forall|j: int, k: int|
                    0 <= j < i && 0 <= k < 8 ==> (#[trigger] weights@[j].bone_index@[k] == (if k < m { d[q + 2 * m * j + k] } else { 0 }))
                        && weights@[j].bone_weight@[k] == (if k < m { d[q + 2 * m * j + m + k] } else { 0 }),
            decreases element_count - i,
        {
            proof {
                assert(2 * m * (i + 1) == 2 * m * i + 2 * m) by (nonlinear_arith);
            }
            let w = match FSkinWeightInfo::new(reader, num_influences) {
                Ok(w) => w,
                Err(e) => {
                    proof {
                        assert(!avail(d, q, 2 * m * element_count)) by {
                            assert(2 * m * element_count >= 2 * m * (i + 1)) by (nonlinear_arith)
                                requires i + 1 <= element_count, m >= 0;
                        }
                    }
                    return Err(e);
                },
            };
            weights.push(w);
            i = i + 1;
        }
        Ok(Some(FSkinWeightVertexBuffer { weights, num_vertices }))
    }

    pub fn get_weights(&self) -> (r: &Vec<FSkinWeightInfo>)
        ensures
            r@ == self.weights@,
    {
        &self.weights
    }
}

/// A bone of a skeleton: its name and the index of its parent.
#[derive(Debug)]
pub struct FMeshBoneInfo {
    pub name: String,
    pub parent_index: i32,
}

impl FMeshBoneInfo {
    pub fn get_name(&self) -> (r: &str)
        ensures
            r@ == self.name@,
    {
        self.name.as_str()
    }

    pub fn get_parent_index(&self) -> (r: i32)
        ensures
            r == self.parent_index,
    {
        self.parent_index
    }

    pub fn new_n(reader: &mut ReaderCursor, name_map: &NameMap, _import_map: &ImportMap) -> (r: ParserResult<Self>)
        ensures
            final(reader).spec_data() == old(reader).spec_data(),
            ({
                let d = old(reader).spec_data();
                let p = old(reader).spec_pos();
                let idx = (le_u32(d, p) as u32) & 0x3fff_ffff;
                &&& r is Ok <==> FMappedName::spec_ok(d, p) && idx < name_map.names@.len() && avail(d, p + 8, 4)
                &&& r matches Ok(v) ==> v.name@ == name_map.names@[idx as int] && v.parent_index == le_i32(d, p + 8)
            }),
    {
        let name = read_fname(reader, name_map)?;
        let parent_index = match reader.read_i32() {
            Some(v) => v,
            None => return Err(error_msg("File Error: failed to fill whole buffer")),
        };
        Ok(FMeshBoneInfo { name, parent_index })
    }
}

/// An index buffer of 16-bit or 32-bit indices.
#[derive(Debug)]
pub enum FMultisizeIndexContainer {
    Indices16(Vec<u16>),
    Indices32(Vec<u32>),
}

impl Newable for FMultisizeIndexContainer {
    /// A size byte, an element size, then an array of 16-bit indices for size 2
    /// or 32-bit ones for size 4.
    open spec fn spec_ok(data: Seq<u8>, pos: int) -> bool {
        avail(data, pos, 5) && if data[pos] == 2 {
            tarray_ok::<u16>(data, pos + 5)
        } else if data[pos] == 4 {
            tarray_ok::<u32>(data, pos + 5)
        } else {
            false
        }
    }

    open spec fn spec_end(data: Seq<u8>, pos: int) -> int {
        if data[pos] == 2 {
            tarray_end::<u16>(data, pos + 5)
        } else {
            tarray_end::<u32>(data, pos + 5)
        }
    }

    open spec fn spec_is(data: Seq<u8>, pos: int, v: Self) -> bool {
        match v {
            FMultisizeIndexContainer::Indices16(x) => data[pos] == 2 && tarray_is::<u16>(data, pos + 5, x@),
            FMultisizeIndexContainer::Indices32(x) => data[pos] == 4 && tarray_is::<u32>(data, pos + 5, x@),
        }
    }

    fn new(reader: &mut ReaderCursor) -> (res: ParserResult<Self>) {
        let data_size = reader.read_u8();
        let element_size = reader.read_i32();
        let data_size = match (data_size, element_size) {
            (Some(s), Some(_)) => s,
            _ => return Err(error_msg("File Error: failed to fill whole buffer")),
        };
        if data_size == 2 {
            Ok(FMultisizeIndexContainer::Indices16(read_tarray(reader)?))
        } else if data_size == 4 {
            Ok(FMultisizeIndexContainer::Indices32(read_tarray(reader)?))
        } else {
            Err(error_msg("No format size"))
        }
    }
}

/// Whether the colours of a vertex colour buffer at `p` are stored: not
/// stripped for servers, and at least one vertex.
pub open spec fn colours_stored(d: Seq<u8>, p: int) -> bool {
    d[p] & 2 == 0 && signed(le_u32(d, p + 6), 32) > 0
}

/// The colours of the vertices of a mesh.
#[derive(Debug)]
pub struct FColorVertexBuffer {
    pub stride: i32,
    pub num_verts: i32,
    pub colours: Vec<FColor>,
}

impl Newable for FColorVertexBuffer {
    /// Strip flags, the stride and the vertex count; then, when the colours
    /// are stored, an element size and the colours.
    open spec fn spec_ok(data: Seq<u8>, pos: int) -> bool {
        &&& avail(data, pos, 10)
        &&& colours_stored(data, pos) ==> avail(data, pos + 10, 4) && tarray_ok::<FColor>(data, pos + 14)
    }

    open spec fn spec_end(data: Seq<u8>, pos: int) -> int {
        if colours_stored(data, pos) {
            tarray_end::<FColor>(data, pos + 14)
        } else {
            pos + 10
        }
    }

    open spec fn spec_is(data: Seq<u8>, pos: int, v: Self) -> bool {
        &&& v.stride == le_i32(data, pos + 2)
        &&& v.num_verts == le_i32(data, pos + 6)
        &&& if colours_stored(data, pos) {
            tarray_is::<FColor>(data, pos + 14, v.colours@)
        } else {
            v.colours@.len() == 0
        }
    }

    fn new(reader: &mut ReaderCursor) -> (res: ParserResult<Self>) {
        let flags = FStripDataFlags::new(reader)?;
        let stride = i32::new(reader)?;
        let num_verts = i32::new(reader)?;
        let colours = if !flags.is_data_stripped_for_server() && num_verts > 0 {
            let _element_size = i32::new(reader)?;
            read_tarray(reader)?
        } else {
            Vec::new()
        };
        Ok(FColorVertexBuffer { stride, num_verts, colours })
    }
}

} // verus!
