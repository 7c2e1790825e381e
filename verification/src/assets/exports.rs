//! The exports of a package, each read by its class: textures and data tables
//! have a layout of their own after their properties, any other class is a
//! plain object.
use vstd::prelude::*;
use crate::reader::{ReaderCursor, le_u32, avail};
use crate::archives::str_eq;
use crate::assets::{
    ParserResult, error_msg, le_i32, read_fname, Newable, NameMap, ImportMap, FPackageObjectIndex,
    FPackageObjectIndexType, FStripDataFlags, FTexturePlatformData, FTexture2DMipMap, FExportMapEntry, platform_ok, platform_is,
    platform_end, opt_cursor_data, first_object_name, ParserError, Package, PackageHeader, parse_package_header,
    export_positions, export_pos, pkg_header_ok, pkg_export_count, pkg_graph_start, FPackageSummary,
    FImportedPackage, tarray_is, PackageExport, header_is,
};
use crate::dispatch::LoaderGlobalData;
use crate::assets::properties::{
    UObject, FPropertyTag, FPropertyTagType, Tables, tables, object_end, object_is, fname_ok, fname_index,
    nesting_fuel,
};

verus! {

// ---------------------------------------------------------------------------
// Textures

/// A texture: its object, whether it is cooked, and the data of each platform.
#[derive(Debug)]
pub struct Texture2D {
    pub base_object: UObject,
    pub cooked: u32,
    pub textures: Vec<FTexturePlatformData>,
}

/// The platform data entries of a cooked texture from `p` on: each is a pixel
/// format name other than "None", an offset (unused) and the platform data;
/// the name "None" ends them. Gives where each platform data starts and where
/// the list ends; at most `f` entries are read.
pub open spec fn texture_entries(d: Seq<u8>, p: int, u: Option<Seq<u8>>, names: Seq<Seq<char>>, f: nat) -> Option<
    (Seq<int>, int),
>
    decreases f,
{
    if !fname_ok(d, p, names) {
        None
    } else if names[fname_index(d, p)] == "None"@ {
        Some((Seq::empty(), p + 8))
    } else if f == 0 || !avail(d, p + 8, 8) || !platform_ok(d, p + 16, u) {
        None
    } else {
        match texture_entries(d, platform_end(d, p + 16), u, names, (f - 1) as nat) {
            Some((ps, e)) => Some((seq![p + 16] + ps, e)),
            None => None,
        }
    }
}

/// Where the fields after a texture's object start.
pub open spec fn texture_fields(d: Seq<u8>, p: int, t: Tables) -> int {
    object_end(d, p, "Texture2D"@, t, nesting_fuel(d.len())).unwrap()
}

/// A texture at `p` reads: its object, a guid, two strip flags, the cooked
/// flag, and when cooked the platform data entries.
pub open spec fn texture_ok(d: Seq<u8>, p: int, u: Option<Seq<u8>>, t: Tables) -> bool {
    let e = texture_fields(d, p, t);
    &&& object_end(d, p, "Texture2D"@, t, nesting_fuel(d.len())) is Some
    &&& avail(d, e, 12)
    &&& le_u32(d, e + 8) == 1 ==> texture_entries(d, e + 12, u, t.0, d.len()) is Some
}

/// Where a texture at `p` ends.
pub open spec fn texture_end(d: Seq<u8>, p: int, u: Option<Seq<u8>>, t: Tables) -> int {
    let e = texture_fields(d, p, t);
    if le_u32(d, e + 8) == 1 {
        texture_entries(d, e + 12, u, t.0, d.len()).unwrap().1
    } else {
        e + 12
    }
}

/// `x` is the texture read at `p`.
pub open spec fn texture_is(d: Seq<u8>, p: int, u: Option<Seq<u8>>, t: Tables, x: Texture2D) -> bool {
    let e = texture_fields(d, p, t);
    let ps = texture_entries(d, e + 12, u, t.0, d.len()).unwrap().0;
    &&& object_is(d, p, "Texture2D"@, t, nesting_fuel(d.len()), x.base_object.properties@)
    &&& x.base_object.export_type@ == "Texture2D"@
    &&& x.cooked == le_u32(d, e + 8)
    &&& if x.cooked == 1 {
        &&& x.textures@.len() == ps.len()
        &&& forall|i: int| 0 <= i < ps.len() ==> platform_is(d, ps[i], u, #[trigger] x.textures@[i])
    } else {
        x.textures@.len() == 0
    }
}

proof fn lemma_entries_concat(done: Seq<int>, x: int, ps: Seq<int>)
    ensures
        done + (seq![x] + ps) == done.push(x) + ps,
{
    assert(done + (seq![x] + ps) =~= done.push(x) + ps);
}

impl Texture2D {
    /// Reads a texture: its object, then a guid and two strip flags (unused),
    /// the cooked flag, and when it is 1 each platform's data up to the pixel
    /// format "None".
    #[verifier::rlimit(60)]
    pub fn new(
        reader: &mut ReaderCursor,
        name_map: &NameMap,
        import_map: &ImportMap,
        ubulk: &mut Option<ReaderCursor>,
        export_index: Option<FPackageObjectIndex>,
    ) -> (r: ParserResult<Self>)
        ensures
            final(reader).spec_data() == old(reader).spec_data(),
            opt_cursor_data(*final(ubulk)) == opt_cursor_data(*old(ubulk)),
            ({
                let d = old(reader).spec_data();
                let p = old(reader).spec_pos();
                let u = opt_cursor_data(*old(ubulk));
                let t = tables(name_map, import_map);
                &&& r is Ok <==> texture_ok(d, p, u, t)
                &&& r matches Ok(x) ==> texture_is(d, p, u, t, x) && x.base_object.export_index == export_index
                    && final(reader).spec_pos() == texture_end(d, p, u, t)
            }),
    {
        let object = UObject::new(reader, name_map, import_map, "Texture2D", export_index)?;
        let _serialize_guid = u32::new(reader)?;
        FStripDataFlags::new(reader)?;
        FStripDataFlags::new(reader)?;
        let cooked = u32::new(reader)?;
        let textures = if cooked == 1 {
            read_platforms(reader, name_map, ubulk)?
        } else {
            Vec::new()
        };
        Ok(Texture2D { base_object: object, cooked, textures })
    }

}

/// Reads platform data entries up to the pixel format name "None".
fn read_platforms(reader: &mut ReaderCursor, name_map: &NameMap, ubulk: &mut Option<ReaderCursor>) -> (r: ParserResult<
    Vec<FTexturePlatformData>,
>)
    ensures
        final(reader).spec_data() == old(reader).spec_data(),
        opt_cursor_data(*final(ubulk)) == opt_cursor_data(*old(ubulk)),
        ({
            let d = old(reader).spec_data();
            let p = old(reader).spec_pos();
            let u = opt_cursor_data(*old(ubulk));
            let es = texture_entries(d, p, u, name_map.names@, d.len());
            &&& r is Ok <==> es is Some
            &&& r matches Ok(v) ==> v@.len() == es.unwrap().0.len() && (forall|i: int|
                0 <= i < v@.len() ==> platform_is(d, es.unwrap().0[i], u, #[trigger] v@[i]))
                && final(reader).spec_pos() == es.unwrap().1
        }),
{
    let ghost d = reader.spec_data();
    let ghost start = reader.spec_pos();
    let ghost u = opt_cursor_data(*ubulk);
    let ghost names = name_map.names@;
    let ghost mut done: Seq<int> = Seq::empty();
    let mut textures: Vec<FTexturePlatformData> = Vec::new();
    let mut fuel: usize = reader.len();
    loop
        invariant_except_break
            texture_entries(d, start, u, names, d.len()) == match texture_entries(
                d,
                reader.spec_pos(),
                u,
                names,
                fuel as nat,
            ) {
                Some((ps, e)) => Some((done + ps, e)),
                None => None,
            },
        invariant
            reader.spec_data() == d,
            d == old(reader).spec_data(),
            start == old(reader).spec_pos(),
            opt_cursor_data(*ubulk) == u,
            u == opt_cursor_data(*old(ubulk)),
            names == name_map.names@,
            textures@.len() == done.len(),
            forall|i: int| 0 <= i < done.len() ==> platform_is(d, done[i], u, #[trigger] textures@[i]),
        ensures
            texture_entries(d, start, u, names, d.len()) == Some((done, reader.spec_pos() as int)),
        decreases fuel,
    {
        let ghost cur = reader.spec_pos();
        let ghost f = fuel as nat;
        let pixel_format = read_fname(reader, name_map)?;
        if str_eq(pixel_format.as_str(), "None") {
            assert(done + Seq::<int>::empty() =~= done);
            break;
        }
        if fuel == 0 {
            return Err(error_msg("Too many texture platforms"));
        }
        let _skip_offset = match reader.read_i64() {
            Some(v) => v,
            None => return Err(error_msg("File Error: failed to fill whole buffer")),
        };
        let texture = FTexturePlatformData::new(reader, ubulk)?;
        let ghost before = textures@;
        textures.push(texture);
        proof {
            let rest = texture_entries(d, platform_end(d, cur + 16), u, names, (f - 1) as nat);
            if let Some((ps, e)) = rest {
                lemma_entries_concat(done, cur + 16, ps);
            }
            assert forall|i: int| 0 <= i < done.len() + 1 implies platform_is(d, done.push(cur + 16)[i], u, #[trigger] textures@[i]) by {
                if i < done.len() {
                    assert(textures@[i] == before[i]);
                }
            }
            done = done.push(cur + 16);
        }
        fuel = fuel - 1;
    }
    Ok(textures)
}

impl Texture2D {
    /// The pixel format of the first platform's data.
    pub fn get_pixel_format(&self) -> (r: ParserResult<&str>)
        ensures
            self.textures@.len() > 0 ==> (r matches Ok(s) && s@ == self.textures@[0].pixel_format@),
            self.textures@.len() == 0 ==> (r matches Err(e) && e.messages() == seq!["No textures found"@]),
    {
        if self.textures.len() == 0 {
            return Err(error_msg("No textures found"));
        }
        Ok(self.textures[0].pixel_format.as_str())
    }

    /// The first mip of the first platform's data.
    pub fn get_texture(&self) -> (r: ParserResult<&FTexture2DMipMap>)
        ensures
            r is Ok <==> self.textures@.len() > 0 && self.textures@[0].mips@.len() > 0,
            r matches Ok(m) ==> *m == self.textures@[0].mips@[0],
    {
        if self.textures.len() == 0 {
            return Err(error_msg("No textures part of export"));
        }
        let pdata = &self.textures[0];
        if pdata.mips.len() == 0 {
            return Err(error_msg("No mipmaps part of texture"));
        }
        Ok(&pdata.mips[0])
    }

    /// The first mip of the first platform's data, taken out of the texture.
    pub fn get_texture_move(self) -> (r: ParserResult<FTexture2DMipMap>)
        ensures
            r is Ok <==> self.textures@.len() > 0 && self.textures@[0].mips@.len() > 0,
            r matches Ok(m) ==> m == self.textures@[0].mips@[0],
            self.textures@.len() == 0 ==> (r matches Err(e) && e.messages() == seq!["No textures part of export"@]),
            self.textures@.len() > 0 && self.textures@[0].mips@.len() == 0 ==> (r matches Err(e) && e.messages()
                == seq!["No mipmaps part of texture"@]),
    {
        let mut textures = self.textures;
        if textures.len() == 0 {
            return Err(error_msg("No textures part of export"));
        }
        let texture = textures.swap_remove(0);
        let mut mips = texture.mips;
        if mips.len() == 0 {
            return Err(error_msg("No mipmaps part of texture"));
        }
        Ok(mips.swap_remove(0))
    }
}

// ---------------------------------------------------------------------------
// Data tables

/// A data table: its own object, and each row's name and object.
#[derive(Debug)]
pub struct UDataTable {
    pub super_object: UObject,
    pub rows: Vec<(String, UObject)>,
}

/// The first of `props` named `name`.
pub open spec fn first_named(props: Seq<FPropertyTag>, name: Seq<char>) -> Option<int>
    decreases props.len(),
{
    if props.len() == 0 {
        None
    } else if props[0].name@ == name {
        Some(0)
    } else {
        match first_named(props.drop_first(), name) {
            Some(i) => Some(i + 1),
            None => None,
        }
    }
}

/// The class of a table's rows: the script import that its first property
/// named "RowStruct" refers to, by the global names.
pub open spec fn row_struct(props: Seq<FPropertyTag>, g: &crate::dispatch::LoaderGlobalData) -> Option<Seq<char>> {
    match first_named(props, "RowStruct"@) {
        Some(i) => match props[i].tag {
            FPropertyTagType::ObjectProperty(index) => match index.import {
                Some(o) => if o.index_type == FPackageObjectIndexType::ScriptImport {
                    first_object_name(g, o)
                } else {
                    None
                },
                None => None,
            },
            _ => None,
        },
        None => None,
    }
}

/// The number of rows a signed count gives: none when it is not positive.
pub open spec fn row_count(v: int) -> nat {
    if v > 0 {
        v as nat
    } else {
        0
    }
}

/// Where `n` rows, each a name and an object of class `cls`, read one after
/// the other from `q` end.
pub open spec fn rows_end(d: Seq<u8>, q: int, cls: Seq<char>, t: Tables, n: nat) -> Option<int>
    decreases n,
{
    if n == 0 {
        Some(q)
    } else {
        match rows_end(d, q, cls, t, (n - 1) as nat) {
            Some(r) => if fname_ok(d, r, t.0) {
                object_end(d, r + 8, cls, t, nesting_fuel(d.len()))
            } else {
                None
            },
            None => None,
        }
    }
}

/// `rows` are the rows read one after the other from `q`.
pub open spec fn rows_are(d: Seq<u8>, q: int, cls: Seq<char>, t: Tables, rows: Seq<(String, UObject)>) -> bool {
    forall|k: int|
        0 <= k < rows.len() ==> #[trigger] rows_end(d, q, cls, t, k as nat) is Some && {
            let r = rows_end(d, q, cls, t, k as nat).unwrap();
            &&& rows[k].0@ == t.0[fname_index(d, r)]
            &&& object_is(d, r + 8, cls, t, nesting_fuel(d.len()), rows[k].1.properties@)
            &&& rows[k].1.export_type@ == cls
            &&& rows[k].1.export_index is None
        }
}

/// After a table's object with properties `props`, ending at `e`, its rows read.
pub open spec fn table_rows_ok(d: Seq<u8>, e: int, props: Seq<FPropertyTag>, t: Tables, g: &crate::dispatch::LoaderGlobalData) -> bool {
    match row_struct(props, g) {
        Some(cls) => avail(d, e, 8) && rows_end(d, e + 8, cls, t, row_count(le_i32(d, e + 4))) is Some,
        None => false,
    }
}

/// `x` is the data table read at `p`.
pub open spec fn table_is(d: Seq<u8>, p: int, t: Tables, g: &crate::dispatch::LoaderGlobalData, x: UDataTable) -> bool {
    let e = object_end(d, p, "DataTable"@, t, nesting_fuel(d.len())).unwrap();
    let ps = x.super_object.properties@;
    let cls = row_struct(ps, g).unwrap();
    &&& object_end(d, p, "DataTable"@, t, nesting_fuel(d.len())) is Some
    &&& object_is(d, p, "DataTable"@, t, nesting_fuel(d.len()), ps)
    &&& x.super_object.export_type@ == "DataTable"@
    &&& x.super_object.export_index is None
    &&& table_rows_ok(d, e, ps, t, g)
    &&& x.rows@.len() == row_count(le_i32(d, e + 4))
    &&& rows_are(d, e + 8, cls, t, x.rows@)
}

/// Where the data table `x` read at `p` ends.
pub open spec fn table_end(d: Seq<u8>, p: int, t: Tables, g: &crate::dispatch::LoaderGlobalData, x: UDataTable) -> int {
    let e = object_end(d, p, "DataTable"@, t, nesting_fuel(d.len())).unwrap();
    rows_end(d, e + 8, row_struct(x.super_object.properties@, g).unwrap(), t, row_count(le_i32(d, e + 4))).unwrap()
}

proof fn lemma_rows_end_stops(d: Seq<u8>, q: int, cls: Seq<char>, t: Tables, k: nat, n: nat)
    requires
        k <= n,
        rows_end(d, q, cls, t, k) is None,
    ensures
        rows_end(d, q, cls, t, n) is None,
    decreases n - k,
{
    if k < n {
        lemma_rows_end_stops(d, q, cls, t, k, (n - 1) as nat);
    }
}

impl UDataTable {
    /// Reads a data table: its object, then a word (unused), a signed count,
    /// and that many rows, each a name and an object of the class that the
    /// table's first property named "RowStruct" refers to.
    #[verifier::rlimit(60)]
    pub fn new(reader: &mut ReaderCursor, name_map: &NameMap, import_map: &ImportMap) -> (r: ParserResult<Self>)
        ensures
            final(reader).spec_data() == old(reader).spec_data(),
            ({
                let d = old(reader).spec_data();
                let p = old(reader).spec_pos();
                let t = tables(name_map, import_map);
                let g = import_map.global;
                let e = object_end(d, p, "DataTable"@, t, nesting_fuel(d.len()));
                &&& e is None ==> r is Err
                &&& e is Some && (forall|ps: Seq<FPropertyTag>|
                    object_is(d, p, "DataTable"@, t, nesting_fuel(d.len()), ps) ==> #[trigger] table_rows_ok(
                        d,
                        e.unwrap(),
                        ps,
                        t,
                        g,
                    )) ==> r is Ok
                &&& r matches Ok(x) ==> table_is(d, p, t, g, x) && final(reader).spec_pos() == table_end(d, p, t, g, x)
            }),
    {
        let ghost d = reader.spec_data();
        let ghost p = reader.spec_pos();
        let ghost t = tables(name_map, import_map);
        let super_object = UObject::new(reader, name_map, import_map, "DataTable", None)?;
        let ghost e = reader.spec_pos();
        let ghost ps = super_object.properties@;
        let struct_name = match row_struct_name(&super_object, name_map, import_map) {
            Ok(s) => s,
            Err(err) => {
                assert(!table_rows_ok(d, e, ps, t, import_map.global));
                return Err(err);
            },
        };
        let rows = match read_table_rows(reader, name_map, import_map, struct_name.as_str()) {
            Ok(rows) => rows,
            Err(err) => {
                assert(!table_rows_ok(d, e, ps, t, import_map.global));
                return Err(err);
            },
        };
        Ok(UDataTable { super_object, rows })
    }
}

/// Reads a word (unused), a signed count, then that many rows of class `cls`.
fn read_table_rows(reader: &mut ReaderCursor, name_map: &NameMap, import_map: &ImportMap, cls: &str) -> (r:
    ParserResult<Vec<(String, UObject)>>)
    ensures
        final(reader).spec_data() == old(reader).spec_data(),
        ({
            let d = old(reader).spec_data();
            let q = old(reader).spec_pos();
            let t = tables(name_map, import_map);
            let n = row_count(le_i32(d, q + 4));
            &&& r is Ok <==> avail(d, q, 8) && rows_end(d, q + 8, cls@, t, n) is Some
            &&& r matches Ok(rows) ==> rows@.len() == n && rows_are(d, q + 8, cls@, t, rows@) && final(reader).spec_pos()
                == rows_end(d, q + 8, cls@, t, n).unwrap()
        }),
{
    let _zero_data = match reader.read_i32() {
        Some(v) => v,
        None => return Err(error_msg("File Error: failed to fill whole buffer")),
    };
    let num_rows = match reader.read_i32() {
        Some(v) => v,
        None => return Err(error_msg("File Error: failed to fill whole buffer")),
    };
    let n: u32 = if num_rows > 0 {
        num_rows as u32
    } else {
        0
    };
    read_rows(reader, name_map, import_map, cls, n)
}

/// Reads `n` rows of a data table, each a name and an object of class `cls`.
fn read_rows(reader: &mut ReaderCursor, name_map: &NameMap, import_map: &ImportMap, cls: &str, n: u32) -> (r: ParserResult<
    Vec<(String, UObject)>,
>)
    ensures
        final(reader).spec_data() == old(reader).spec_data(),
        ({
            let d = old(reader).spec_data();
            let q = old(reader).spec_pos();
            let t = tables(name_map, import_map);
            &&& r is Ok <==> rows_end(d, q, cls@, t, n as nat) is Some
            &&& r matches Ok(rows) ==> rows@.len() == n && rows_are(d, q, cls@, t, rows@) && final(reader).spec_pos()
                == rows_end(d, q, cls@, t, n as nat).unwrap()
        }),
{
    let ghost d = reader.spec_data();
    let ghost q0 = reader.spec_pos();
    let ghost t = tables(name_map, import_map);
    let ghost c = cls@;
    let mut rows: Vec<(String, UObject)> = Vec::new();
    let mut i: u32 = 0;
    while i < n
        invariant
            reader.spec_data() == d,
            d == old(reader).spec_data(),
            q0 == old(reader).spec_pos(),
            t == tables(name_map, import_map),
            c == cls@,
            i <= n,
            rows@.len() == i,
            rows_end(d, q0, c, t, i as nat) is Some,
            reader.spec_pos() == rows_end(d, q0, c, t, i as nat).unwrap(),
            rows_are(d, q0, c, t, rows@),
        decreases n - i,
    {
        let ghost before = rows@;
        match read_row(reader, name_map, import_map, cls) {
            Ok(r) => {
                rows.push(r);
                proof {
                    assert forall|k: int| 0 <= k < rows@.len() implies #[trigger] rows_end(d, q0, c, t, k as nat) is Some && {
                        let r = rows_end(d, q0, c, t, k as nat).unwrap();
                        &&& rows@[k].0@ == t.0[fname_index(d, r)]
                        &&& object_is(d, r + 8, c, t, nesting_fuel(d.len()), rows@[k].1.properties@)
                        &&& rows@[k].1.export_type@ == c
                        &&& rows@[k].1.export_index is None
                    } by {
                        if k < i {
                            assert(rows@[k] == before[k]);
                        }
                    }
                }
            },
            Err(err) => {
                proof {
                    lemma_rows_end_stops(d, q0, c, t, (i + 1) as nat, n as nat);
                }
                return Err(err);
            },
        }
        i = i + 1;
    }
    Ok(rows)
}

/// Reads a row of a data table: a name, then an object of class `cls`.
fn read_row(reader: &mut ReaderCursor, name_map: &NameMap, import_map: &ImportMap, cls: &str) -> (r: ParserResult<
    (String, UObject),
>)
    ensures
        final(reader).spec_data() == old(reader).spec_data(),
        ({
            let d = old(reader).spec_data();
            let q = old(reader).spec_pos();
            let t = tables(name_map, import_map);
            &&& r is Ok <==> fname_ok(d, q, t.0) && object_end(d, q + 8, cls@, t, nesting_fuel(d.len())) is Some
            &&& r matches Ok(row) ==> row.0@ == t.0[fname_index(d, q)] && object_is(
                d,
                q + 8,
                cls@,
                t,
                nesting_fuel(d.len()),
                row.1.properties@,
            ) && row.1.export_type@ == cls@ && row.1.export_index is None && final(reader).spec_pos()
                == object_end(d, q + 8, cls@, t, nesting_fuel(d.len())).unwrap()
        }),
{
    let row_name = read_fname(reader, name_map)?;
    let row_object = UObject::new(reader, name_map, import_map, cls, None)?;
    Ok((row_name, row_object))
}

/// The class of a table's rows, from its first property named "RowStruct".
fn row_struct_name(object: &UObject, name_map: &NameMap, import_map: &ImportMap) -> (r: ParserResult<String>)
    ensures
        match row_struct(object.properties@, import_map.global) {
            Some(n) => r matches Ok(s) && s@ == n,
            None => r is Err,
        },
{
    let ghost ps = object.properties@;
    assert(ps.subrange(0, ps.len() as int) =~= ps);
    let mut i: usize = 0;
    while i < object.properties.len()
        invariant
            ps == object.properties@,
            i <= ps.len(),
            first_named(ps, "RowStruct"@) == match first_named(ps.subrange(i as int, ps.len() as int), "RowStruct"@) {
                Some(j) => Some(j + i),
                None => None,
            },
        ensures
            i < ps.len() ==> ps[i as int].name@ == "RowStruct"@,
        decreases ps.len() - i,
    {
        assert(ps.subrange(i as int, ps.len() as int).drop_first() =~= ps.subrange(i + 1, ps.len() as int));
        if str_eq(object.properties[i].name.as_str(), "RowStruct") {
            break;
        }
        i = i + 1;
    }
    if i == object.properties.len() {
        assert(ps.subrange(i as int, ps.len() as int) =~= Seq::<FPropertyTag>::empty());
        return Err(error_msg("RowStruct not found"));
    }
    assert(ps.subrange(i as int, ps.len() as int)[0] == ps[i as int]);
    assert(first_named(ps, "RowStruct"@) == Some(i as int));
    let package_index = match &object.properties[i].tag {
        FPropertyTagType::ObjectProperty(index) => index,
        _ => return Err(error_msg("RowStruct is not ObjectProperty")),
    };
    let object_index = match package_index.get_import() {
        Some(import) => *import,
        None => return Err(error_msg("Import not found in Import Map")),
    };
    let name = object_index.get_export_name(name_map, import_map)?;
    Ok(name.to_owned())
}

// ---------------------------------------------------------------------------
// Choosing the reader

/// An export, read by its class.
#[derive(Debug)]
pub enum Export {
    Empty,
    Texture(Texture2D),
    DataTable(UDataTable),
    Object(UObject),
}

impl Export {
    /// The class name the export was read as.
    pub fn get_export_type(&self) -> (r: &str)
        ensures
            match self {
                Export::Empty => r@ == "EmptyPackage"@,
                Export::Texture(_) => r@ == "Texture2D"@,
                Export::DataTable(_) => r@ == "DataTable"@,
                Export::Object(o) => r@ == o.export_type@,
            },
    {
        match self {
            Export::Empty => "EmptyPackage",
            Export::Texture(_) => "Texture2D",
            Export::DataTable(_) => "DataTable",
            Export::Object(o) => o.export_type.as_str(),
        }
    }
}

/// `v` is the export of class `name`, with global import index `index`, read at `p`.
#[verifier::opaque]
pub open spec fn export_is(
    d: Seq<u8>,
    p: int,
    u: Option<Seq<u8>>,
    t: Tables,
    g: &crate::dispatch::LoaderGlobalData,
    name: Seq<char>,
    index: FPackageObjectIndex,
    v: Export,
) -> bool {
    if name == "Texture2D"@ {
        v matches Export::Texture(x) && texture_is(d, p, u, t, x) && x.base_object.export_index == Some(index)
    } else if name == "DataTable"@ {
        v matches Export::DataTable(x) && table_is(d, p, t, g, x)
    } else {
        v matches Export::Object(o) && object_is(d, p, name, t, nesting_fuel(d.len()), o.properties@) && o.export_index
            == Some(index) && o.export_type@ == name
    }
}

/// Where the export `v` of class `name` read at `p` ends.
pub open spec fn export_end(
    d: Seq<u8>,
    p: int,
    u: Option<Seq<u8>>,
    t: Tables,
    g: &crate::dispatch::LoaderGlobalData,
    name: Seq<char>,
    v: Export,
) -> int {
    match v {
        Export::Texture(_) => texture_end(d, p, u, t),
        Export::DataTable(x) => table_end(d, p, t, g, x),
        _ => object_end(d, p, name, t, nesting_fuel(d.len())).unwrap(),
    }
}

/// The export of class `name` at `p` reads, whatever the properties of a data
/// table's own object.
pub open spec fn export_reads(
    d: Seq<u8>,
    p: int,
    u: Option<Seq<u8>>,
    t: Tables,
    g: &crate::dispatch::LoaderGlobalData,
    name: Seq<char>,
) -> bool {
    if name == "Texture2D"@ {
        texture_ok(d, p, u, t)
    } else if name == "DataTable"@ {
        let e = object_end(d, p, "DataTable"@, t, nesting_fuel(d.len()));
        e is Some && forall|ps: Seq<FPropertyTag>|
            object_is(d, p, "DataTable"@, t, nesting_fuel(d.len()), ps) ==> #[trigger] table_rows_ok(d, e.unwrap(), ps, t, g)
    } else {
        object_end(d, p, name, t, nesting_fuel(d.len())) is Some
    }
}

/// Reads an export of class `export_name`: a texture, a data table, or else a
/// plain object, whose export index is the export's global import index.
pub fn select_export(
    export_name: &str,
    reader: &mut ReaderCursor,
    name_map: &NameMap,
    import_map: &ImportMap,
    export: &FExportMapEntry,
    ubulk: &mut Option<ReaderCursor>,
) -> (r: ParserResult<Export>)
    ensures
        final(reader).spec_data() == old(reader).spec_data(),
        opt_cursor_data(*final(ubulk)) == opt_cursor_data(*old(ubulk)),
        ({
            let d = old(reader).spec_data();
            let p = old(reader).spec_pos();
            let u = opt_cursor_data(*old(ubulk));
            let t = tables(name_map, import_map);
            let g = import_map.global;
            &&& export_name@ == "Texture2D"@ ==> (r is Ok <==> texture_ok(d, p, u, t))
            &&& export_name@ == "DataTable"@ ==> (object_end(d, p, "DataTable"@, t, nesting_fuel(d.len())) is None
                ==> r is Err)
            &&& export_name@ != "Texture2D"@ && export_name@ != "DataTable"@ ==> (r is Ok <==> object_end(
                d,
                p,
                export_name@,
                t,
                nesting_fuel(d.len()),
            ) is Some)
            &&& export_reads(d, p, u, t, g, export_name@) ==> r is Ok
            &&& r matches Ok(v) ==> export_is(d, p, u, t, g, export_name@, export.global_import_index, v)
                && final(reader).spec_pos() == export_end(d, p, u, t, g, export_name@, v)
        }),
{
    proof {
        reveal(export_is);
    }
    let export_index = Some(export.global_import_index);
    if str_eq(export_name, "Texture2D") {
        Ok(Export::Texture(Texture2D::new(reader, name_map, import_map, ubulk, export_index)?))
    } else if str_eq(export_name, "DataTable") {
        Ok(Export::DataTable(UDataTable::new(reader, name_map, import_map)?))
    } else {
        Ok(Export::Object(UObject::new(reader, name_map, import_map, export_name, export_index)?))
    }
}

impl PackageExport for UObject {
    fn get_export_type(&self) -> (r: &str)
        ensures
            r@ == self.export_type@,
    {
        self.export_type.as_str()
    }
}

impl PackageExport for Texture2D {
    fn get_export_type(&self) -> (r: &str)
        ensures
            r@ == "Texture2D"@,
    {
        "Texture2D"
    }
}

impl PackageExport for UDataTable {
    fn get_export_type(&self) -> (r: &str)
        ensures
            r@ == "DataTable"@,
    {
        "DataTable"
    }
}

// ---------------------------------------------------------------------------
// Reading a package's exports

/// The class of an export: a script class by its global name, a class of an
/// imported package by the export's own name.
pub open spec fn export_class(e: FExportMapEntry, names: Seq<Seq<char>>, g: &LoaderGlobalData) -> Option<Seq<char>> {
    match e.class_index.index_type {
        FPackageObjectIndexType::ScriptImport => first_object_name(g, e.class_index),
        FPackageObjectIndexType::PackageImport => if e.object_name.index < names.len() {
            Some(names[e.object_name.index as int])
        } else {
            None
        },
        _ => None,
    }
}

/// The last position of `order` that holds `i`.
pub open spec fn last_in(order: Seq<u32>, i: int) -> Option<int>
    decreases order.len(),
{
    if order.len() == 0 {
        None
    } else if order.last() == i {
        Some(order.len() - 1)
    } else {
        last_in(order.drop_last(), i)
    }
}

/// The exports of a package whose header is `h`, read in the order the header
/// gives, one after the other from its export start; an export that the order
/// does not name stays empty, and one it names twice is read twice.
#[verifier::opaque]
pub open spec fn exports_are(d: Seq<u8>, u: Option<Seq<u8>>, h: PackageHeader, g: &LoaderGlobalData, order: Seq<u32>, exports: Seq<Export>) -> bool {
    let t = (h.name_map@, h.import_map@, g.mappings.class_mappings@, g.mappings.enum_mappings@);
    forall|i: int|
        0 <= i < exports.len() ==> match #[trigger] last_in(order, i) {
            None => exports[i] is Empty,
            Some(k) => {
                let e = h.export_map@[i];
                &&& export_class(e, h.name_map@, g) is Some
                &&& export_is(
                    d,
                    export_pos(h.export_map@, h.export_order@, h.export_start as int, k),
                    u,
                    t,
                    g,
                    export_class(e, h.name_map@, g).unwrap(),
                    e.global_import_index,
                    exports[i],
                )
            },
        }
}

/// The `k`-th export in the order of `h` has a known class and reads as `v`.
pub open spec fn export_k_read_as(
    d: Seq<u8>,
    u: Option<Seq<u8>>,
    h: PackageHeader,
    g: &LoaderGlobalData,
    k: int,
    v: Export,
) -> bool {
    let e = h.export_map@[h.export_order@[k] as int];
    let t = (h.name_map@, h.import_map@, g.mappings.class_mappings@, g.mappings.enum_mappings@);
    &&& export_class(e, h.name_map@, g) is Some
    &&& export_is(
        d,
        export_pos(h.export_map@, h.export_order@, h.export_start as int, k),
        u,
        t,
        g,
        export_class(e, h.name_map@, g).unwrap(),
        e.global_import_index,
        v,
    )
}

/// The `k`-th export in the order of `h` was read.
pub open spec fn export_k_read(d: Seq<u8>, u: Option<Seq<u8>>, h: PackageHeader, g: &LoaderGlobalData, k: int) -> bool {
    exists|v: Export| #[trigger] export_k_read_as(d, u, h, g, k, v)
}

/// The error `e` is one that the `k`-th export in the order of `h` gives: it
/// does not read, and where its class is known, the error is that of the
/// class's reader (at least one message) followed by a message that names the
/// class.
pub open spec fn export_k_fails(
    d: Seq<u8>,
    u: Option<Seq<u8>>,
    h: PackageHeader,
    g: &LoaderGlobalData,
    k: int,
    e: ParserError,
) -> bool {
    let en = h.export_map@[h.export_order@[k] as int];
    &&& !export_k_reads(d, u, h, g, k)
    &&& match export_class(en, h.name_map@, g) {
        Some(c) => e.messages().len() > 1 && e.messages().last() == "Export Type: "@ + c,
        None => true,
    }
}

/// Reading the exports of `h` stops with the error `e` at the `k`-th export of
/// the order: every export before it was read, and it fails with `e`.
pub open spec fn package_fails_at(
    d: Seq<u8>,
    u: Option<Seq<u8>>,
    h: PackageHeader,
    g: &LoaderGlobalData,
    k: int,
    e: ParserError,
) -> bool {
    &&& 0 <= k < h.export_order@.len()
    &&& forall|j: int| 0 <= j < k ==> #[trigger] export_k_read(d, u, h, g, j)
    &&& export_k_fails(d, u, h, g, k, e)
}

/// The `k`-th export in the order of the header `h` has a known class and reads.
pub open spec fn export_k_reads(d: Seq<u8>, u: Option<Seq<u8>>, h: PackageHeader, g: &LoaderGlobalData, k: int) -> bool {
    let e = h.export_map@[h.export_order@[k] as int];
    let t = (h.name_map@, h.import_map@, g.mappings.class_mappings@, g.mappings.enum_mappings@);
    &&& export_class(e, h.name_map@, g) is Some
    &&& export_reads(
        d,
        export_pos(h.export_map@, h.export_order@, h.export_start as int, k),
        u,
        t,
        g,
        export_class(e, h.name_map@, g).unwrap(),
    )
}

/// The export order of `h` names exports of its map, and the exports, one
/// after the other from the export start, stay within 64-bit positions.
pub open spec fn positions_ok(h: PackageHeader) -> bool {
    let order = h.export_order@;
    &&& forall|k: int| 0 <= k < order.len() ==> #[trigger] order[k] < h.export_map@.len()
    &&& export_pos(h.export_map@, order, h.export_start as int, order.len() as int) <= u64::MAX
}

/// Every export that the header `h` orders has a known class and reads.
pub open spec fn package_reads(d: Seq<u8>, u: Option<Seq<u8>>, h: PackageHeader, g: &LoaderGlobalData) -> bool {
    &&& positions_ok(h)
    &&& forall|k: int| 0 <= k < h.export_order@.len() ==> #[trigger] export_k_reads(d, u, h, g, k)
}

/// `pkg` is the package with header `h` and its exports read.
pub open spec fn package_is(d: Seq<u8>, u: Option<Seq<u8>>, h: PackageHeader, g: &LoaderGlobalData, pkg: Package<Export>) -> bool {
    &&& pkg.summary == h.summary
    &&& pkg.graph_data@ == h.graph_data@
    &&& pkg.exports@.len() == h.export_map@.len()
    &&& exports_are(d, u, h, g, h.export_order@, pkg.exports@)
}

pub open spec fn opt_bytes(b: Option<&[u8]>) -> Option<Seq<u8>> {
    match b {
        Some(v) => Some(v@),
        None => None,
    }
}

proof fn lemma_export_pos_mono(exports: Seq<FExportMapEntry>, order: Seq<u32>, start: int, k: int, n: int)
    requires
        0 <= k <= n,
        start >= 0,
        forall|j: int| 0 <= j < order.len() ==> #[trigger] order[j] < exports.len(),
        n <= order.len(),
    ensures
        start <= export_pos(exports, order, start, k) <= export_pos(exports, order, start, n),
    decreases n,
{
    if n > 0 {
        assert(order[n - 1] < exports.len());
        if k == n {
            lemma_export_pos_mono(exports, order, start, n - 1, n - 1);
        } else {
            lemma_export_pos_mono(exports, order, start, k, n - 1);
        }
    }
}

proof fn lemma_exports_set(
    d: Seq<u8>,
    u: Option<Seq<u8>>,
    h: PackageHeader,
    g: &LoaderGlobalData,
    order: Seq<u32>,
    k: int,
    exports: Seq<Export>,
    v: Export,
)
    requires
        order == h.export_order@,
        0 <= k < order.len(),
        order[k] < exports.len(),
        exports.len() == h.export_map@.len(),
        exports_are(d, u, h, g, order.take(k), exports),
        export_class(h.export_map@[order[k] as int], h.name_map@, g) is Some,
        export_is(
            d,
            export_pos(h.export_map@, order, h.export_start as int, k),
            u,
            (h.name_map@, h.import_map@, g.mappings.class_mappings@, g.mappings.enum_mappings@),
            g,
            export_class(h.export_map@[order[k] as int], h.name_map@, g).unwrap(),
            h.export_map@[order[k] as int].global_import_index,
            v,
        ),
    ensures
        exports_are(d, u, h, g, order.take(k + 1), exports.update(order[k] as int, v)),
{
    reveal(exports_are);
    let o2 = order.take(k + 1);
    let ws = exports.update(order[k] as int, v);
    assert(o2.drop_last() =~= order.take(k));
    assert forall|j: int| 0 <= j < ws.len() implies match #[trigger] last_in(o2, j) {
        None => ws[j] is Empty,
        Some(m) => {
            let en = h.export_map@[j];
            &&& export_class(en, h.name_map@, g) is Some
            &&& export_is(
                d,
                export_pos(h.export_map@, h.export_order@, h.export_start as int, m),
                u,
                (h.name_map@, h.import_map@, g.mappings.class_mappings@, g.mappings.enum_mappings@),
                g,
                export_class(en, h.name_map@, g).unwrap(),
                en.global_import_index,
                ws[j],
            )
        },
    } by {
        if j != order[k] as int {
            assert(ws[j] == exports[j]);
            assert(last_in(o2, j) == last_in(order.take(k), j));
        } else {
            assert(last_in(o2, j) == Some(k));
        }
    }
}

/// Reads the export `export` at `start`, by its class.
fn read_export_at(
    cursor: &mut ReaderCursor,
    ubulk: &mut Option<ReaderCursor>,
    name_map: &NameMap,
    import_map: &ImportMap,
    export: &FExportMapEntry,
    start: u64,
) -> (r: ParserResult<Export>)
    ensures
        final(cursor).spec_data() == old(cursor).spec_data(),
        opt_cursor_data(*final(ubulk)) == opt_cursor_data(*old(ubulk)),
        r matches Ok(v) ==> export_class(*export, name_map.names@, import_map.global) is Some && export_is(
            old(cursor).spec_data(),
            start as int,
            opt_cursor_data(*old(ubulk)),
            tables(name_map, import_map),
            import_map.global,
            export_class(*export, name_map.names@, import_map.global).unwrap(),
            export.global_import_index,
            v,
        ),
        export_class(*export, name_map.names@, import_map.global) matches Some(c) ==> (r matches Err(e) ==> e.messages().len()
            > 1 && e.messages().last() == "Export Type: "@ + c),
        export_class(*export, name_map.names@, import_map.global) is Some && export_reads(
            old(cursor).spec_data(),
            start as int,
            opt_cursor_data(*old(ubulk)),
            tables(name_map, import_map),
            import_map.global,
            export_class(*export, name_map.names@, import_map.global).unwrap(),
        ) ==> r is Ok,
{
    cursor.seek(start);
    let export_name = export.get_export_name(name_map, import_map)?;
    match select_export(export_name, cursor, name_map, import_map, export, ubulk) {
        Ok(e) => Ok(e),
        Err(err) => Err(ParserError::add(err, String::from_str("Export Type: ").concat(export_name))),
    }
}

/// Reads the exports of a package whose header is `header`. An export that the
/// order does not name stays empty; a failed export's error ends with its class.
pub fn read_exports(uasset: &[u8], ubulk: Option<&[u8]>, header: PackageHeader, global_map: &LoaderGlobalData) -> (r:
    ParserResult<Package<Export>>)
    ensures
        !positions_ok(header) ==> (r matches Err(e) && e.messages() == seq!["Export out of range"@]),
        package_reads(uasset@, opt_bytes(ubulk), header, global_map) ==> r is Ok,
        r matches Ok(pkg) ==> package_is(uasset@, opt_bytes(ubulk), header, global_map, pkg),
        r matches Err(e) ==> !positions_ok(header) || exists|k: int|
            #[trigger] package_fails_at(uasset@, opt_bytes(ubulk), header, global_map, k, e),
{
    let ghost h = header;
    let positions = match export_positions(&header.export_map, &header.export_order, header.export_start) {
        Some(p) => p,
        None => return Err(error_msg("Export out of range")),
    };
    let PackageHeader { summary, name_map, import_map, export_map, export_order, graph_data, export_start } = header;
    let mut cursor = ReaderCursor::new(uasset);
    let mut ubulk_cursor: Option<ReaderCursor> = match ubulk {
        Some(b) => Some(ReaderCursor::new(b)),
        None => None,
    };
    let mut exports: Vec<Export> = Vec::new();
    let mut i: usize = 0;
    while i < export_map.len()
        invariant
            i <= export_map@.len(),
            exports@.len() == i,
            forall|j: int| 0 <= j < i ==> #[trigger] exports@[j] is Empty,
        decreases export_map@.len() - i,
    {
        exports.push(Export::Empty);
        i = i + 1;
    }
    let import_map = ImportMap { imports: import_map, global: global_map };
    let name_map = NameMap { names: name_map };
    let ghost d = uasset@;
    let ghost u = opt_bytes(ubulk);
    let ghost order = h.export_order@;
    let ghost t = (h.name_map@, h.import_map@, global_map.mappings.class_mappings@, global_map.mappings.enum_mappings@);
    assert(t == tables(&name_map, &import_map));
    assert(exports_are(d, u, h, global_map, order.take(0), exports@)) by {
        reveal(exports_are);
        assert forall|j: int| 0 <= j < exports@.len() implies #[trigger] last_in(order.take(0), j) is None by {}
    }
    let mut k: usize = 0;
    while k < positions.len()
        invariant
            d == uasset@,
            cursor.spec_data() == d,
            opt_cursor_data(ubulk_cursor) == u,
            u == opt_bytes(ubulk),
            order == h.export_order@,
            h == header,
            export_map@ == h.export_map@,
            export_start == h.export_start,
            t == tables(&name_map, &import_map),
            name_map.names@ == h.name_map@,
            import_map.imports@ == h.import_map@,
            import_map.global == global_map,
            positions@.len() == order.len(),
            forall|j: int| 0 <= j < order.len() ==> #[trigger] order[j] < export_map@.len(),
            forall|j: int|
                0 <= j < order.len() ==> #[trigger] positions@[j] == (order[j], export_pos(
                    export_map@,
                    order,
                    export_start as int,
                    j,
                ) as u64),
            export_pos(export_map@, order, export_start as int, order.len() as int) <= u64::MAX,
            k <= order.len(),
            exports@.len() == export_map@.len(),
            exports_are(d, u, h, global_map, order.take(k as int), exports@),
            forall|j: int| 0 <= j < k ==> #[trigger] export_k_read(d, u, h, global_map, j),
        decreases order.len() - k,
    {
        let (export_idx, start) = positions[k];
        proof {
            lemma_export_pos_mono(export_map@, order, export_start as int, k as int, order.len() as int);
        }
        let e = read_export_at(&mut cursor, &mut ubulk_cursor, &name_map, &import_map, &export_map[export_idx as usize], start);
        let e = match e {
            Ok(e) => e,
            Err(err) => {
                assert(!export_k_reads(d, u, h, global_map, k as int));
                assert(!(forall|j: int| 0 <= j < order.len() ==> #[trigger] export_k_reads(d, u, h, global_map, j)));
                assert(export_k_fails(d, u, h, global_map, k as int, err));
                assert(package_fails_at(d, u, h, global_map, k as int, err));
                return Err(err);
            },
        };
        proof {
            lemma_exports_set(d, u, h, global_map, order, k as int, exports@, e);
            assert(export_k_read_as(d, u, h, global_map, k as int, e));
        }
        exports.set(export_idx as usize, e);
        k = k + 1;
    }
    assert(order.take(order.len() as int) =~= order);
    let pkg = Package { summary, exports, graph_data };
    assert(package_is(d, u, h, global_map, pkg));
    Ok(pkg)
}

impl Package<Export> {
    /// Reads a package: its header, then each of its exports (see `read_exports`).
    pub fn from_buffer(uasset: &[u8], ubulk: Option<&[u8]>, global_map: &LoaderGlobalData) -> (r: ParserResult<Self>)
        ensures
            !pkg_header_ok(uasset@) ==> r is Err,
            pkg_header_ok(uasset@) && (forall|h: PackageHeader|
                header_is(uasset@, h) ==> #[trigger] package_reads(uasset@, opt_bytes(ubulk), h, global_map)) ==> r is Ok,
            r matches Ok(pkg) ==> exists|h: PackageHeader|
                header_is(uasset@, h) && #[trigger] package_is(uasset@, opt_bytes(ubulk), h, global_map, pkg),
            pkg_header_ok(uasset@) ==> (r matches Err(e) ==> exists|h: PackageHeader|
                header_is(uasset@, h) && (!positions_ok(h) || exists|k: int|
                    #[trigger] package_fails_at(uasset@, opt_bytes(ubulk), h, global_map, k, e))),
    {
        let header = parse_package_header(uasset)?;
        let ghost h = header;
        let r = read_exports(uasset, ubulk, header, global_map);
        proof {
            if r is Err {
                assert(!package_reads(uasset@, opt_bytes(ubulk), h, global_map));
            }
        }
        r
    }
}

} // verus!
