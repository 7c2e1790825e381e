//! The I/O store container format: the table of contents (`.utoc`), its
//! directory index, and the global name and script-object tables.
use vstd::prelude::*;
use crate::archives::{string_concat, hex_decode, hex_valid, hex_bytes, ecb_decrypt, ecb_decrypt_in_place};
use vstd::string::StringSliceAdditionalSpecFns;
use crate::mapping::MappingStore;
use crate::reader::{ReaderCursor, le_u16, le_u32, le_u64, avail, bytes_at, signed, le_u16_at, le_u32_at, le_u64_at};
use crate::assets::{
    Newable, ParserResult, ParserError, error_msg, read_tarray, read_string, read_short_string,
    spec_short_string, spec_string, tarray_ok, tarray_end, tarray_is, FGuid, FMappedName,
    FPackageObjectIndex, read_elems, elems_ok, elems_end, elems_are, lemma_u8_elems, digits, decimal_text,
};

verus! {

/// The index value that stands for "none".
pub const MAX_INT: u32 = 4294967295;

/// A directory of the directory index: its name and links to its first child,
/// its next sibling and its first file, each `MAX_INT` when absent.
#[derive(Debug, Clone, Copy)]
pub struct FIoDirectoryIndexEntry {
    pub name: u32,
    pub first_child: u32,
    pub next_sibling: u32,
    pub first_file: u32,
}

impl Newable for FIoDirectoryIndexEntry {
    open spec fn spec_ok(data: Seq<u8>, pos: int) -> bool {
        avail(data, pos, 16)
    }

    open spec fn spec_end(data: Seq<u8>, pos: int) -> int {
        pos + 16
    }

    open spec fn spec_is(data: Seq<u8>, pos: int, v: Self) -> bool {
        &&& v.name == le_u32(data, pos)
        &&& v.first_child == le_u32(data, pos + 4)
        &&& v.next_sibling == le_u32(data, pos + 8)
        &&& v.first_file == le_u32(data, pos + 12)
    }

    fn new(reader: &mut ReaderCursor) -> (res: ParserResult<Self>) {
        let name = reader.read_u32();
        let first_child = reader.read_u32();
        let next_sibling = reader.read_u32();
        let first_file = reader.read_u32();
        match (name, first_child, next_sibling, first_file) {
            (Some(name), Some(first_child), Some(next_sibling), Some(first_file)) => Ok(
                FIoDirectoryIndexEntry { name, first_child, next_sibling, first_file },
            ),
            _ => Err(error_msg("File Error: failed to fill whole buffer")),
        }
    }
}

/// A file of the directory index: its name, the next file of its directory
/// and the chunk it stands for, each `MAX_INT` when absent.
#[derive(Debug, Clone, Copy)]
pub struct FIoFileIndexEntry {
    pub name: u32,
    pub next_file_entry: u32,
    pub user_data: u32,
}

impl Newable for FIoFileIndexEntry {
    open spec fn spec_ok(data: Seq<u8>, pos: int) -> bool {
        avail(data, pos, 12)
    }

    open spec fn spec_end(data: Seq<u8>, pos: int) -> int {
        pos + 12
    }

    open spec fn spec_is(data: Seq<u8>, pos: int, v: Self) -> bool {
        &&& v.name == le_u32(data, pos)
        &&& v.next_file_entry == le_u32(data, pos + 4)
        &&& v.user_data == le_u32(data, pos + 8)
    }

    fn new(reader: &mut ReaderCursor) -> (res: ParserResult<Self>) {
        let name = reader.read_u32();
        let next_file_entry = reader.read_u32();
        let user_data = reader.read_u32();
        match (name, next_file_entry, user_data) {
            (Some(name), Some(next_file_entry), Some(user_data)) => Ok(
                FIoFileIndexEntry { name, next_file_entry, user_data },
            ),
            _ => Err(error_msg("File Error: failed to fill whole buffer")),
        }
    }
}

/// The strings that `read_short_string` reads back to back from `p` until one
/// fails.
pub open spec fn short_string_list(s: Seq<u8>, p: int) -> Seq<Seq<char>>
    decreases s.len() - p,
{
    match spec_short_string(s, p) {
        Some((c, e)) => if p < e <= s.len() {
            seq![c] + short_string_list(s, e)
        } else {
            seq![c]
        },
        None => Seq::empty(),
    }
}

/// Where the strings of `short_string_list(s, p)` end.
pub open spec fn short_string_list_end(s: Seq<u8>, p: int) -> int
    decreases s.len() - p,
{
    match spec_short_string(s, p) {
        Some((c, e)) => if p < e <= s.len() {
            short_string_list_end(s, e)
        } else {
            e
        },
        None => p,
    }
}

proof fn lemma_short_string_advances(s: Seq<u8>, p: int)
    requires
        spec_short_string(s, p) is Some,
    ensures
        p < spec_short_string(s, p).unwrap().1 <= s.len(),
{
}

/// A table of names.
#[derive(Debug)]
pub struct FNameMap {
    names: Vec<String>,
}

impl View for FNameMap {
    type V = Seq<Seq<char>>;

    closed spec fn view(&self) -> Seq<Seq<char>> {
        self.names@.map_values(|s: String| s@)
    }
}

impl FNameMap {
    pub fn empty() -> (r: Self)
        ensures
            r@ == Seq::<Seq<char>>::empty(),
    {
        let r = FNameMap { names: Vec::new() };
        assert(r@ =~= Seq::<Seq<char>>::empty());
        r
    }

    pub fn from_strings(data: Vec<String>) -> (r: Self)
        ensures
            r@ == data@.map_values(|s: String| s@),
    {
        FNameMap { names: data }
    }

    /// The name at `idx`.
    pub fn get_name(&self, idx: usize) -> (r: ParserResult<&str>)
        ensures
            r is Ok <==> idx < self@.len(),
            r matches Ok(s) ==> s@ == self@[idx as int],
            r matches Err(e) ==> e.messages() == seq!["Name not found at: "@ + digits(idx as nat)],
    {
        if idx < self.names.len() {
            Ok(self.names[idx].as_str())
        } else {
            Err(ParserError::new(String::from_str("Name not found at: ").concat(decimal_text(idx as u64).as_str())))
        }
    }
}

impl Newable for FNameMap {
    /// Reading names never fails: it stops at the first string that does not read.
    open spec fn spec_ok(data: Seq<u8>, pos: int) -> bool {
        true
    }

    open spec fn spec_end(data: Seq<u8>, pos: int) -> int {
        short_string_list_end(data, pos)
    }

    open spec fn spec_is(data: Seq<u8>, pos: int, v: Self) -> bool {
        v@ == short_string_list(data, pos)
    }

    fn new(reader: &mut ReaderCursor) -> (res: ParserResult<Self>) {
        let ghost d = reader.spec_data();
        let ghost p0 = reader.spec_pos();
        let mut names: Vec<String> = Vec::new();
        proof {
            reader.lemma_pos_bound();
            assert(names@.map_values(|s: String| s@) =~= Seq::<Seq<char>>::empty());
            assert(Seq::<Seq<char>>::empty() + short_string_list(d, p0) =~= short_string_list(d, p0));
        }
        loop
            invariant
                reader.spec_data() == d,
                d == old(reader).spec_data(),
                p0 == old(reader).spec_pos(),
                0 <= reader.spec_pos(),
                names@.map_values(|s: String| s@) + short_string_list(d, reader.spec_pos())
                    == short_string_list(d, p0),
                short_string_list_end(d, reader.spec_pos()) == short_string_list_end(d, p0),
            ensures
                reader.spec_data() == d,
                names@.map_values(|s: String| s@) == short_string_list(d, p0),
                reader.spec_pos() == short_string_list_end(d, p0),
            decreases d.len() - reader.spec_pos(),
        {
            let ghost p = reader.spec_pos();
            let ghost before = names@;
            let start = reader.position();
            match read_short_string(reader) {
                Ok(data) => {
                    proof {
                        lemma_short_string_advances(d, p);
                    }
                    names.push(data);
                    assert(names@.map_values(|s: String| s@) =~= before.map_values(|s: String| s@).push(
                        data@,
                    ));
                    assert(names@.map_values(|s: String| s@) + short_string_list(d, reader.spec_pos())
                        =~= before.map_values(|s: String| s@) + short_string_list(d, p));
                },
                Err(_) => {
                    reader.seek(start);
                    assert(names@.map_values(|s: String| s@) =~= names@.map_values(|s: String| s@)
                        + short_string_list(d, p));
                    break;
                },
            }
        }
        let r = FNameMap { names };
        assert(r@ == short_string_list(d, p0));
        Ok(r)
    }
}

/// The header of a table of contents.
#[derive(Debug, Clone, Copy)]
pub struct FIoStoreTocHeader {
    pub version: u32,
    pub header_size: u32,
    pub entry_count: u32,
    pub compressed_block_entry_count: u32,
    pub compressed_block_entry_size: u32,
    pub compression_method_name_count: u32,
    pub compression_method_name_length: u32,
    pub compression_block_size: u32,
    pub directory_index_size: u32,
    pub something: u32,
    pub container_id: u64,
    pub encryption_key_guid: FGuid,
    pub container_flags: u32,
}

/// Size of the header on disk: a 16-byte magic, the fields, 60 bytes of padding.
pub const TOC_HEADER_SIZE: usize = 144;

impl FIoStoreTocHeader {
    /// Flag bit 1: the container is encrypted.
    pub fn is_encrypted(&self) -> (r: bool)
        ensures
            r == (self.container_flags & 2 != 0),
    {
        self.container_flags & 2 != 0
    }

    /// Flag bit 2: the container is signed.
    pub fn is_signed(&self) -> (r: bool)
        ensures
            r == (self.container_flags & 4 != 0),
    {
        self.container_flags & 4 != 0
    }
}

impl Newable for FIoStoreTocHeader {
    open spec fn spec_ok(data: Seq<u8>, pos: int) -> bool {
        avail(data, pos, 144)
    }

    open spec fn spec_end(data: Seq<u8>, pos: int) -> int {
        pos + 144
    }

    open spec fn spec_is(data: Seq<u8>, pos: int, v: Self) -> bool {
        &&& v.version == le_u32(data, pos + 16)
        &&& v.header_size == le_u32(data, pos + 20)
        &&& v.entry_count == le_u32(data, pos + 24)
        &&& v.compressed_block_entry_count == le_u32(data, pos + 28)
        &&& v.compressed_block_entry_size == le_u32(data, pos + 32)
        &&& v.compression_method_name_count == le_u32(data, pos + 36)
        &&& v.compression_method_name_length == le_u32(data, pos + 40)
        &&& v.compression_block_size == le_u32(data, pos + 44)
        &&& v.directory_index_size == le_u32(data, pos + 48)
        &&& v.something == le_u32(data, pos + 52)
        &&& v.container_id == le_u64(data, pos + 56)
        &&& v.encryption_key_guid.a == le_u32(data, pos + 64)
        &&& v.encryption_key_guid.b == le_u32(data, pos + 68)
        &&& v.encryption_key_guid.c == le_u32(data, pos + 72)
        &&& v.encryption_key_guid.d == le_u32(data, pos + 76)
        &&& v.container_flags == le_u32(data, pos + 80)
    }

    fn new(reader: &mut ReaderCursor) -> (res: ParserResult<Self>) {
        let b = match reader.read_bytes(TOC_HEADER_SIZE) {
            Some(b) => b,
            None => return Err(error_msg("File Error: failed to fill whole buffer")),
        };
        let b = b.as_slice();
        Ok(FIoStoreTocHeader {
            version: le_u32_at(b, 16),
            header_size: le_u32_at(b, 20),
            entry_count: le_u32_at(b, 24),
            compressed_block_entry_count: le_u32_at(b, 28),
            compressed_block_entry_size: le_u32_at(b, 32),
            compression_method_name_count: le_u32_at(b, 36),
            compression_method_name_length: le_u32_at(b, 40),
            compression_block_size: le_u32_at(b, 44),
            directory_index_size: le_u32_at(b, 48),
            something: le_u32_at(b, 52),
            container_id: le_u64_at(b, 56),
            encryption_key_guid: FGuid {
                a: le_u32_at(b, 64),
                b: le_u32_at(b, 68),
                c: le_u32_at(b, 72),
                d: le_u32_at(b, 76),
            },
            container_flags: le_u32_at(b, 80),
        })
    }
}

/// What a chunk of the container holds.
#[derive(Debug, PartialEq, Eq, Structural, Clone, Copy)]
pub enum EIoChunkType {
    Invalid,
    InstallManifest,
    ExportBundleData,
    BulkData,
    OptionalBulkData,
    MemoryMappedBulkData,
    LoaderGlobalMeta,
    LoaderInitialLoadMeta,
    LoaderGlobalNames,
    LoaderGlobalNameHashes,
    ContainerHeader,
}

/// The chunk type with code `c`, for the codes 0 to 10.
pub open spec fn chunk_type_of(c: u8) -> EIoChunkType {
    if c == 0 {
        EIoChunkType::Invalid
    } else if c == 1 {
        EIoChunkType::InstallManifest
    } else if c == 2 {
        EIoChunkType::ExportBundleData
    } else if c == 3 {
        EIoChunkType::BulkData
    } else if c == 4 {
        EIoChunkType::OptionalBulkData
    } else if c == 5 {
        EIoChunkType::MemoryMappedBulkData
    } else if c == 6 {
        EIoChunkType::LoaderGlobalMeta
    } else if c == 7 {
        EIoChunkType::LoaderInitialLoadMeta
    } else if c == 8 {
        EIoChunkType::LoaderGlobalNames
    } else if c == 9 {
        EIoChunkType::LoaderGlobalNameHashes
    } else {
        EIoChunkType::ContainerHeader
    }
}

/// The code of a chunk type is its place in the declaration of
/// `EIoChunkType`: the type read for a code is the one declared at that place.
pub proof fn lemma_chunk_type_code(c: u8)
    requires
        c <= 10,
    ensures
        chunk_type_of(c) as u8 == c,
{
}

/// The chunk type with code `c`; `None` for a code above 10.
pub fn chunk_type_from_code(c: u8) -> (r: Option<EIoChunkType>)
    ensures
        r is Some <==> c <= 10,
        r matches Some(t) ==> t == chunk_type_of(c),
        r matches Some(t) ==> t as u8 == c,
{
    match c {
        0 => Some(EIoChunkType::Invalid),
        1 => Some(EIoChunkType::InstallManifest),
        2 => Some(EIoChunkType::ExportBundleData),
        3 => Some(EIoChunkType::BulkData),
        4 => Some(EIoChunkType::OptionalBulkData),
        5 => Some(EIoChunkType::MemoryMappedBulkData),
        6 => Some(EIoChunkType::LoaderGlobalMeta),
        7 => Some(EIoChunkType::LoaderInitialLoadMeta),
        8 => Some(EIoChunkType::LoaderGlobalNames),
        9 => Some(EIoChunkType::LoaderGlobalNameHashes),
        10 => Some(EIoChunkType::ContainerHeader),
        _ => None,
    }
}

/// The identity of a chunk: a 64-bit id, a 16-bit index and a type code.
#[derive(Debug, Clone, Copy)]
pub struct FIoChunkId {
    pub id: u64,
    pub index: u32,
    pub chunk_type: EIoChunkType,
}

impl Newable for FIoChunkId {
    /// Twelve bytes whose last is a known type code.
    open spec fn spec_ok(data: Seq<u8>, pos: int) -> bool {
        avail(data, pos, 12) && data[pos + 11] <= 10
    }

    open spec fn spec_end(data: Seq<u8>, pos: int) -> int {
        pos + 12
    }

    open spec fn spec_is(data: Seq<u8>, pos: int, v: Self) -> bool {
        &&& v.id == le_u64(data, pos)
        &&& v.index == le_u16(data, pos + 8)
        &&& v.chunk_type == chunk_type_of(data[pos + 11])
    }

    fn new(reader: &mut ReaderCursor) -> (res: ParserResult<Self>) {
        let b = match reader.read_bytes(12) {
            Some(b) => b,
            None => return Err(error_msg("File Error: failed to fill whole buffer")),
        };
        let b = b.as_slice();
        let chunk_type = match chunk_type_from_code(b[11]) {
            Some(t) => t,
            None => return Err(error_msg("Unknown Chunk ID")),
        };
        Ok(FIoChunkId { id: le_u64_at(b, 0), index: le_u16_at(b, 8) as u32, chunk_type })
    }
}

/// The big-endian 40-bit value at `p`.
pub open spec fn be_u40(s: Seq<u8>, p: int) -> int {
    s[p] * 0x1_0000_0000 + s[p + 1] * 0x100_0000 + s[p + 2] * 0x1_0000 + s[p + 3] * 0x100 + s[p + 4]
}

fn be_u40_at(b: &[u8], o: usize) -> (r: u64)
    requires
        o + 5 <= b@.len(),
    ensures
        r == be_u40(b@, o as int),
{
    (b[o] as u64) * 0x1_0000_0000 + (b[o + 1] as u64) * 0x100_0000 + (b[o + 2] as u64) * 0x1_0000 + (b[o
        + 3] as u64) * 0x100 + b[o + 4] as u64
}

/// Where a chunk lies in the uncompressed stream: two big-endian 40-bit numbers.
#[derive(Debug, Clone, Copy)]
pub struct FIoOffsetAndLength {
    pub offset: u64,
    pub length: u64,
}

impl Newable for FIoOffsetAndLength {
    open spec fn spec_ok(data: Seq<u8>, pos: int) -> bool {
        avail(data, pos, 10)
    }

    open spec fn spec_end(data: Seq<u8>, pos: int) -> int {
        pos + 10
    }

    open spec fn spec_is(data: Seq<u8>, pos: int, v: Self) -> bool {
        v.offset == be_u40(data, pos) && v.length == be_u40(data, pos + 5)
    }

    fn new(reader: &mut ReaderCursor) -> (res: ParserResult<Self>) {
        let b = match reader.read_bytes(10) {
            Some(b) => b,
            None => return Err(error_msg("File Error: failed to fill whole buffer")),
        };
        let b = b.as_slice();
        Ok(FIoOffsetAndLength { offset: be_u40_at(b, 0), length: be_u40_at(b, 5) })
    }
}

/// A compression block of the `.ucas` file: 40 bits of offset, 24 bits each of
/// compressed and uncompressed size, and an 8-bit compression method.
#[derive(Debug, Clone, Copy)]
pub struct FIoStoreTocCompressedBlockEntry {
    pub offset: u64,
    pub size: u32,
    pub compressed_size: u32,
    pub compression_method: u8,
}

impl Newable for FIoStoreTocCompressedBlockEntry {
    open spec fn spec_ok(data: Seq<u8>, pos: int) -> bool {
        avail(data, pos, 12)
    }

    open spec fn spec_end(data: Seq<u8>, pos: int) -> int {
        pos + 12
    }

    open spec fn spec_is(data: Seq<u8>, pos: int, v: Self) -> bool {
        &&& v.offset == le_u64(data, pos) % 0x100_0000_0000
        &&& v.compressed_size == le_u32(data, pos + 4) / 0x100
        &&& v.size == le_u32(data, pos + 8) % 0x100_0000
        &&& v.compression_method == data[pos + 11]
    }

    fn new(reader: &mut ReaderCursor) -> (res: ParserResult<Self>) {
        let b = match reader.read_bytes(12) {
            Some(b) => b,
            None => return Err(error_msg("File Error: failed to fill whole buffer")),
        };
        let b = b.as_slice();
        let raw_offset = le_u64_at(b, 0);
        let raw_csize = le_u32_at(b, 4);
        let raw_size = le_u32_at(b, 8);
        let offset = raw_offset & 0xff_ffff_ffff;
        let compressed_size = (raw_csize >> 8u32) & 0xff_ffff;
        let size = raw_size & 0xff_ffff;
        assert(offset == raw_offset % 0x100_0000_0000) by (bit_vector)
            requires
                offset == raw_offset & 0xff_ffff_ffff,
        ;
        assert(compressed_size == raw_csize / 0x100) by (bit_vector)
            requires
                compressed_size == (raw_csize >> 8u32) & 0xff_ffff,
        ;
        assert(size == raw_size % 0x100_0000) by (bit_vector)
            requires
                size == raw_size & 0xff_ffff,
        ;
        Ok(FIoStoreTocCompressedBlockEntry { offset, size, compressed_size, compression_method: b[11] })
    }
}

/// A 20-byte SHA-1 hash.
#[derive(Debug, Clone, Copy)]
pub struct FSHAHash {
    pub content: [u8; 20],
}

impl Newable for FSHAHash {
    open spec fn spec_ok(data: Seq<u8>, pos: int) -> bool {
        avail(data, pos, 20)
    }

    open spec fn spec_end(data: Seq<u8>, pos: int) -> int {
        pos + 20
    }

    open spec fn spec_is(data: Seq<u8>, pos: int, v: Self) -> bool {
        v.content@ == bytes_at(data, pos, 20)
    }

    fn new(reader: &mut ReaderCursor) -> (res: ParserResult<Self>) {
        match reader.read_array20() {
            Some(content) => Ok(FSHAHash { content }),
            None => Err(error_msg("File Error: failed to fill whole buffer")),
        }
    }
}

/// `x` rounded up to a multiple of 16 (the second argument is not used).
pub fn align_value(x: u32, a: u32) -> (r: u32)
    requires
        x % 16 == 0 || x <= u32::MAX - 15,
    ensures
        r % 16 == 0,
        x <= r < x + 16,
        x % 16 == 0 ==> r == x,
{
    let r = x % 16;
    if r != 0 {
        x + (16 - r)
    } else {
        x
    }
}

/// The store entry of a package: sizes and counts, then a count and a relative
/// offset of the 64-bit ids of the packages it imports.
#[derive(Debug)]
pub struct FPackageStoreEntry {
    pub export_bundle_size: u64,
    pub export_count: i32,
    pub export_bundle_count: i32,
    pub load_order: u32,
    pub pad: u32,
    pub imported_packages: Vec<u64>,
}

impl Newable for FPackageStoreEntry {
    /// 32 bytes, and when the import count is not zero, that many 64-bit ids at
    /// the offset counted from the count's own position.
    open spec fn spec_ok(data: Seq<u8>, pos: int) -> bool {
        let c = pos + 24;
        let n = le_u32(data, c);
        &&& avail(data, pos, 32)
        &&& n != 0 ==> c + le_u32(data, c + 4) <= u64::MAX && elems_ok::<u64>(
            data,
            c + le_u32(data, c + 4),
            n as nat,
        )
    }

    open spec fn spec_end(data: Seq<u8>, pos: int) -> int {
        pos + 32
    }

    open spec fn spec_is(data: Seq<u8>, pos: int, v: Self) -> bool {
        let c = pos + 24;
        let n = le_u32(data, c);
        &&& v.export_bundle_size == le_u64(data, pos)
        &&& v.export_count == signed(le_u32(data, pos + 8), 32)
        &&& v.export_bundle_count == signed(le_u32(data, pos + 12), 32)
        &&& v.load_order == le_u32(data, pos + 16)
        &&& v.pad == le_u32(data, pos + 20)
        &&& v.imported_packages@.len() == n
        &&& elems_are::<u64>(data, c + le_u32(data, c + 4), v.imported_packages@)
    }

    fn new(reader: &mut ReaderCursor) -> (res: ParserResult<Self>) {
        let ghost d = reader.spec_data();
        let ghost p = reader.spec_pos();
        let export_bundle_size = match reader.read_u64() {
            Some(v) => v,
            None => return Err(error_msg("File Error: failed to fill whole buffer")),
        };
        let export_count = match reader.read_i32() {
            Some(v) => v,
            None => return Err(error_msg("File Error: failed to fill whole buffer")),
        };
        let export_bundle_count = match reader.read_i32() {
            Some(v) => v,
            None => return Err(error_msg("File Error: failed to fill whole buffer")),
        };
        let load_order = match reader.read_u32() {
            Some(v) => v,
            None => return Err(error_msg("File Error: failed to fill whole buffer")),
        };
        let pad = match reader.read_u32() {
            Some(v) => v,
            None => return Err(error_msg("File Error: failed to fill whole buffer")),
        };
        let cpos = reader.position();
        let package_num = match reader.read_u32() {
            Some(v) => v,
            None => return Err(error_msg("File Error: failed to fill whole buffer")),
        };
        let package_offset = match reader.read_u32() {
            Some(v) => v,
            None => return Err(error_msg("File Error: failed to fill whole buffer")),
        };
        let after = reader.position();
        let mut imported_packages: Vec<u64> = Vec::new();
        if package_num != 0 {
            let start = match cpos.checked_add(package_offset as u64) {
                Some(v) => v,
                None => return Err(error_msg("Offset out of range")),
            };
            reader.seek(start);
            imported_packages = match read_elems(reader, package_num) {
                Ok(v) => v,
                Err(e) => return Err(e),
            };
            reader.seek(after);
        }
        Ok(FPackageStoreEntry {
            export_bundle_size,
            export_count,
            export_bundle_count,
            load_order,
            pad,
            imported_packages,
        })
    }
}

/// Reads an array of bytes: a 32-bit count, then that many bytes.
pub fn read_byte_array(reader: &mut ReaderCursor) -> (res: ParserResult<Vec<u8>>)
    ensures
        final(reader).spec_data() == old(reader).spec_data(),
        res is Ok <==> avail(old(reader).spec_data(), old(reader).spec_pos(), 4) && avail(
            old(reader).spec_data(),
            old(reader).spec_pos() + 4,
            le_u32(old(reader).spec_data(), old(reader).spec_pos()),
        ),
        res matches Ok(v) ==> v@ == bytes_at(
            old(reader).spec_data(),
            old(reader).spec_pos() + 4,
            le_u32(old(reader).spec_data(), old(reader).spec_pos()) as nat,
        ) && final(reader).spec_pos() == old(reader).spec_pos() + 4 + le_u32(
            old(reader).spec_data(),
            old(reader).spec_pos(),
        ),
{
    let ghost d = reader.spec_data();
    let ghost p = reader.spec_pos();
    proof {
        reader.lemma_pos_bound();
    }
    let r: ParserResult<Vec<u8>> = read_tarray(reader);
    proof {
        if avail(d, p, 4) {
            lemma_u8_elems(d, p + 4, le_u32(d, p) as nat);
        }
    }
    r
}

pub open spec fn byte_array_ok(d: Seq<u8>, p: int) -> bool {
    avail(d, p, 4) && avail(d, p + 4, le_u32(d, p))
}

pub open spec fn byte_array_end(d: Seq<u8>, p: int) -> int {
    p + 4 + le_u32(d, p)
}

pub open spec fn byte_array(d: Seq<u8>, p: int) -> Seq<u8> {
    bytes_at(d, p + 4, le_u32(d, p) as nat)
}

/// The header of a container: its id, its name tables, the ids of its packages
/// and their store entries.
#[derive(Debug)]
pub struct FContainerHeader {
    pub container_id: u64,
    pub package_count: u32,
    pub names: Vec<u8>,
    pub name_hashes: Vec<u8>,
    pub package_ids: Vec<FPackageObjectIndex>,
    pub packages: Vec<FPackageStoreEntry>,
}

/// Where the package ids of a container header start.
pub open spec fn container_ids_pos(d: Seq<u8>, p: int) -> int {
    byte_array_end(d, byte_array_end(d, p + 12))
}

/// Where the store entries of a container header start.
pub open spec fn container_store_pos(d: Seq<u8>, p: int) -> int {
    tarray_end::<FPackageObjectIndex>(d, container_ids_pos(d, p))
}

impl Newable for FContainerHeader {
    open spec fn spec_ok(data: Seq<u8>, pos: int) -> bool {
        &&& avail(data, pos, 12)
        &&& byte_array_ok(data, pos + 12)
        &&& byte_array_ok(data, byte_array_end(data, pos + 12))
        &&& tarray_ok::<FPackageObjectIndex>(data, container_ids_pos(data, pos))
        &&& byte_array_ok(data, container_store_pos(data, pos))
        &&& elems_ok::<FPackageStoreEntry>(
            byte_array(data, container_store_pos(data, pos)),
            0,
            le_u32(data, pos + 8) as nat,
        )
    }

    open spec fn spec_end(data: Seq<u8>, pos: int) -> int {
        byte_array_end(data, container_store_pos(data, pos))
    }

    open spec fn spec_is(data: Seq<u8>, pos: int, v: Self) -> bool {
        &&& v.container_id == le_u64(data, pos)
        &&& v.package_count == le_u32(data, pos + 8)
        &&& v.names@ == byte_array(data, pos + 12)
        &&& v.name_hashes@ == byte_array(data, byte_array_end(data, pos + 12))
        &&& tarray_is::<FPackageObjectIndex>(data, container_ids_pos(data, pos), v.package_ids@)
        &&& v.packages@.len() == v.package_count
        &&& elems_are::<FPackageStoreEntry>(
            byte_array(data, container_store_pos(data, pos)),
            0,
            v.packages@,
        )
    }

    fn new(reader: &mut ReaderCursor) -> (res: ParserResult<Self>) {
        let container_id = match reader.read_u64() {
            Some(v) => v,
            None => return Err(error_msg("File Error: failed to fill whole buffer")),
        };
        let package_count = match reader.read_u32() {
            Some(v) => v,
            None => return Err(error_msg("File Error: failed to fill whole buffer")),
        };
        let names = read_byte_array(reader)?;
        let name_hashes = read_byte_array(reader)?;
        let package_ids: Vec<FPackageObjectIndex> = read_tarray(reader)?;
        let store_buf = read_byte_array(reader)?;
        let mut store_reader = ReaderCursor::new(store_buf.as_slice());
        let packages: Vec<FPackageStoreEntry> = read_elems(&mut store_reader, package_count)?;
        Ok(FContainerHeader { container_id, package_count, names, name_hashes, package_ids, packages })
    }
}

/// A name as a table index and a number.
#[derive(Debug, Clone, Copy)]
pub struct FMinimalName {
    pub index: u32,
    pub number: i32,
}

impl Newable for FMinimalName {
    open spec fn spec_ok(data: Seq<u8>, pos: int) -> bool {
        avail(data, pos, 8)
    }

    open spec fn spec_end(data: Seq<u8>, pos: int) -> int {
        pos + 8
    }

    open spec fn spec_is(data: Seq<u8>, pos: int, v: Self) -> bool {
        v.index == le_u32(data, pos) && v.number == signed(le_u32(data, pos + 4), 32)
    }

    fn new(reader: &mut ReaderCursor) -> (res: ParserResult<Self>) {
        let index = reader.read_u32();
        let number = reader.read_i32();
        match (index, number) {
            (Some(index), Some(number)) => Ok(FMinimalName { index, number }),
            _ => Err(error_msg("File Error: failed to fill whole buffer")),
        }
    }
}

/// A script object of the global tables: its name, its global index, and the
/// indices of its outer object and of its class default object.
#[derive(Debug, Clone, Copy)]
pub struct FScriptObjectEntry {
    pub object_name: FMappedName,
    pub global_index: FPackageObjectIndex,
    pub outer_index: FPackageObjectIndex,
    pub cdo_class_index: FPackageObjectIndex,
}

impl Newable for FScriptObjectEntry {
    open spec fn spec_ok(data: Seq<u8>, pos: int) -> bool {
        FMappedName::spec_ok(data, pos) && avail(data, pos, 32)
    }

    open spec fn spec_end(data: Seq<u8>, pos: int) -> int {
        pos + 32
    }

    open spec fn spec_is(data: Seq<u8>, pos: int, v: Self) -> bool {
        &&& FMappedName::spec_is(data, pos, v.object_name)
        &&& FPackageObjectIndex::spec_is(data, pos + 8, v.global_index)
        &&& FPackageObjectIndex::spec_is(data, pos + 16, v.outer_index)
        &&& FPackageObjectIndex::spec_is(data, pos + 24, v.cdo_class_index)
    }

    fn new(reader: &mut ReaderCursor) -> (res: ParserResult<Self>) {
        let object_name = FMappedName::new(reader)?;
        let global_index = FPackageObjectIndex::new(reader)?;
        let outer_index = FPackageObjectIndex::new(reader)?;
        let cdo_class_index = FPackageObjectIndex::new(reader)?;
        Ok(FScriptObjectEntry { object_name, global_index, outer_index, cdo_class_index })
    }
}

/// The script objects of the global tables.
#[derive(Debug)]
pub struct InitialLoadMetaData {
    pub script_objects: Vec<FScriptObjectEntry>,
}

impl InitialLoadMetaData {
    /// The first script object whose global index is `index`.
    pub fn find_object(&self, index: &FPackageObjectIndex) -> (r: Option<&FScriptObjectEntry>)
        ensures
            r is None <==> forall|i: int|
                0 <= i < self.script_objects@.len() ==> #[trigger] self.script_objects@[i].global_index
                    != *index,
            r matches Some(o) ==> exists|i: int|
                0 <= i < self.script_objects@.len() && *o == self.script_objects@[i] && o.global_index
                    == *index && forall|j: int|
                    0 <= j < i ==> #[trigger] self.script_objects@[j].global_index != *index,
    {
        let mut i: usize = 0;
        while i < self.script_objects.len()
            invariant
                0 <= i <= self.script_objects@.len(),
                forall|j: int| 0 <= j < i ==> #[trigger] self.script_objects@[j].global_index != *index,
            decreases self.script_objects@.len() - i,
        {
            if self.script_objects[i].global_index == *index {
                return Some(&self.script_objects[i]);
            }
            i = i + 1;
        }
        None
    }

    pub fn empty() -> (r: Self)
        ensures
            r.script_objects@.len() == 0,
    {
        InitialLoadMetaData { script_objects: Vec::new() }
    }
}

impl Newable for InitialLoadMetaData {
    open spec fn spec_ok(data: Seq<u8>, pos: int) -> bool {
        tarray_ok::<FScriptObjectEntry>(data, pos)
    }

    open spec fn spec_end(data: Seq<u8>, pos: int) -> int {
        tarray_end::<FScriptObjectEntry>(data, pos)
    }

    open spec fn spec_is(data: Seq<u8>, pos: int, v: Self) -> bool {
        tarray_is::<FScriptObjectEntry>(data, pos, v.script_objects@)
    }

    fn new(reader: &mut ReaderCursor) -> (res: ParserResult<Self>) {
        let script_objects = read_tarray(reader)?;
        Ok(InitialLoadMetaData { script_objects })
    }
}

/// The directory index of a container: a mount point, directories and files
/// linked by index, and the table of their names.
#[derive(Debug)]
pub struct FIoDirectoryIndexResource {
    pub mount_point: String,
    pub directories: Vec<FIoDirectoryIndexEntry>,
    pub files: Vec<FIoFileIndexEntry>,
    pub string_table: Vec<String>,
}

/// A file name given to a chunk: the chunk's index and the file's path.
pub type Assignment = (u32, Seq<char>);

pub open spec fn strings_view(v: Seq<String>) -> Seq<Seq<char>> {
    v.map_values(|s: String| s@)
}

pub open spec fn assigns_view(v: Seq<(u32, String)>) -> Seq<Assignment> {
    v.map_values(|x: (u32, String)| (x.0, x.1@))
}

pub open spec fn opt_assigns_view(r: Option<Vec<(u32, String)>>) -> Option<Seq<Assignment>> {
    match r {
        Some(v) => Some(assigns_view(v@)),
        None => None,
    }
}

/// The directories of the sibling chain that starts at `idx`, following
/// `next_sibling` for at most `steps` entries; `None` when a link leaves the
/// table or the chain is longer.
pub open spec fn dir_chain(dirs: Seq<FIoDirectoryIndexEntry>, idx: u32, steps: nat) -> Option<
    Seq<FIoDirectoryIndexEntry>,
>
    decreases steps,
{
    if steps == 0 || idx >= dirs.len() {
        None
    } else {
        let d = dirs[idx as int];
        if d.next_sibling == MAX_INT {
            Some(seq![d])
        } else {
            match dir_chain(dirs, d.next_sibling, (steps - 1) as nat) {
                Some(r) => Some(seq![d] + r),
                None => None,
            }
        }
    }
}

/// The files of the chain that starts at `idx`, as `dir_chain`.
pub open spec fn file_chain(files: Seq<FIoFileIndexEntry>, idx: u32, steps: nat) -> Option<
    Seq<FIoFileIndexEntry>,
>
    decreases steps,
{
    if steps == 0 || idx >= files.len() {
        None
    } else {
        let f = files[idx as int];
        if f.next_file_entry == MAX_INT {
            Some(seq![f])
        } else {
            match file_chain(files, f.next_file_entry, (steps - 1) as nat) {
                Some(r) => Some(seq![f] + r),
                None => None,
            }
        }
    }
}

/// The path of a directory below `path`: its name and a slash, or nothing for
/// an unnamed directory; `None` when the name is not in the table.
pub open spec fn dir_path(strs: Seq<Seq<char>>, d: FIoDirectoryIndexEntry, path: Seq<char>) -> Option<
    Seq<char>,
> {
    if d.name == MAX_INT {
        Some(path)
    } else if d.name < strs.len() {
        Some(path + strs[d.name as int] + seq!['/'])
    } else {
        None
    }
}

/// The names given by the files `fs` of a directory at `path`: each file with a
/// name and a chunk names that chunk.
pub open spec fn files_assigns(strs: Seq<Seq<char>>, fs: Seq<FIoFileIndexEntry>, path: Seq<char>) -> Option<
    Seq<Assignment>,
>
    decreases fs.len(),
{
    if fs.len() == 0 {
        Some(Seq::empty())
    } else {
        match files_assigns(strs, fs.drop_last(), path) {
            Some(a) => {
                let f = fs.last();
                if f.name != MAX_INT && f.user_data != MAX_INT {
                    if f.name < strs.len() {
                        Some(a.push((f.user_data, path + strs[f.name as int])))
                    } else {
                        None
                    }
                } else {
                    Some(a)
                }
            },
            None => None,
        }
    }
}

/// The names given in the tree below directory `d` at `path`: first those of
/// its child directories in chain order, then those of its files; `fuel` bounds
/// the depth.
pub open spec fn dir_assigns(
    dirs: Seq<FIoDirectoryIndexEntry>,
    files: Seq<FIoFileIndexEntry>,
    strs: Seq<Seq<char>>,
    d: FIoDirectoryIndexEntry,
    path: Seq<char>,
    fuel: nat,
) -> Option<Seq<Assignment>>
    decreases fuel, 0nat,
{
    if fuel == 0 {
        None
    } else {
        match dir_path(strs, d, path) {
            None => None,
            Some(p2) => {
                let kids = if d.first_child == MAX_INT {
                    Some(Seq::empty())
                } else {
                    match dir_chain(dirs, d.first_child, dirs.len()) {
                        Some(ch) => dirs_assigns(dirs, files, strs, ch, p2, (fuel - 1) as nat),
                        None => None,
                    }
                };
                let fs = if d.first_file == MAX_INT {
                    Some(Seq::empty())
                } else {
                    match file_chain(files, d.first_file, files.len()) {
                        Some(fc) => files_assigns(strs, fc, p2),
                        None => None,
                    }
                };
                match (kids, fs) {
                    (Some(a), Some(b)) => Some(a + b),
                    _ => None,
                }
            },
        }
    }
}

/// The names given below each of the directories `ds`, in order.
pub open spec fn dirs_assigns(
    dirs: Seq<FIoDirectoryIndexEntry>,
    files: Seq<FIoFileIndexEntry>,
    strs: Seq<Seq<char>>,
    ds: Seq<FIoDirectoryIndexEntry>,
    path: Seq<char>,
    fuel: nat,
) -> Option<Seq<Assignment>>
    decreases fuel, ds.len(),
{
    if ds.len() == 0 {
        Some(Seq::empty())
    } else {
        match dirs_assigns(dirs, files, strs, ds.drop_last(), path, fuel) {
            Some(a) => match dir_assigns(dirs, files, strs, ds.last(), path, fuel) {
                Some(b) => Some(a + b),
                None => None,
            },
            None => None,
        }
    }
}

/// The file names after giving the names `a` in order to `base`; `None` when a
/// chunk index is past the end.
pub open spec fn apply_assigns(base: Seq<Seq<char>>, a: Seq<Assignment>) -> Option<Seq<Seq<char>>>
    decreases a.len(),
{
    if a.len() == 0 {
        Some(base)
    } else {
        match apply_assigns(base, a.drop_last()) {
            Some(b) => if a.last().0 < b.len() {
                Some(b.update(a.last().0 as int, a.last().1))
            } else {
                None
            },
            None => None,
        }
    }
}

/// The file name of each of `size` chunks, walking the tree from the first
/// directory; `None` where the walk fails (no directory, a link or name out of
/// range, a chain or a depth longer than the table, a chunk index past `size`).
pub open spec fn index_files(
    dirs: Seq<FIoDirectoryIndexEntry>,
    files: Seq<FIoFileIndexEntry>,
    strs: Seq<Seq<char>>,
    size: nat,
) -> Option<Seq<Seq<char>>> {
    if dirs.len() == 0 {
        None
    } else {
        match dir_assigns(dirs, files, strs, dirs[0], Seq::empty(), dirs.len()) {
            Some(a) => apply_assigns(Seq::new(size, |i: int| Seq::<char>::empty()), a),
            None => None,
        }
    }
}

/// A walk of the directory tree that succeeds names exactly `size` chunks:
/// one name per chunk, empty for a chunk the tree does not name.
pub proof fn lemma_index_files_len(
    dirs: Seq<FIoDirectoryIndexEntry>,
    files: Seq<FIoFileIndexEntry>,
    strs: Seq<Seq<char>>,
    size: nat,
)
    requires
        index_files(dirs, files, strs, size) is Some,
    ensures
        index_files(dirs, files, strs, size).unwrap().len() == size,
{
    let a = dir_assigns(dirs, files, strs, dirs[0], Seq::empty(), dirs.len()).unwrap();
    lemma_apply_len(Seq::new(size, |i: int| Seq::<char>::empty()), a);
}

proof fn lemma_apply_len(base: Seq<Seq<char>>, a: Seq<Assignment>)
    requires
        apply_assigns(base, a) is Some,
    ensures
        apply_assigns(base, a).unwrap().len() == base.len(),
    decreases a.len(),
{
    if a.len() > 0 {
        lemma_apply_len(base, a.drop_last());
    }
}

proof fn lemma_apply_prefix_none(base: Seq<Seq<char>>, a: Seq<Assignment>, k: nat)
    requires
        k <= a.len(),
        apply_assigns(base, a.take(k as int)) is None,
    ensures
        apply_assigns(base, a) is None,
    decreases a.len() - k,
{
    if k < a.len() {
        assert(a.take((k + 1) as int).drop_last() =~= a.take(k as int));
        lemma_apply_prefix_none(base, a, k + 1);
    } else {
        assert(a.take(k as int) =~= a);
    }
}

impl FIoDirectoryIndexResource {
    pub open spec fn strs(&self) -> Seq<Seq<char>> {
        strings_view(self.string_table@)
    }

    pub fn empty() -> (r: Self)
        ensures
            r.mount_point@ == Seq::<char>::empty(),
            r.directories@.len() == 0,
            r.files@.len() == 0,
            r.string_table@.len() == 0,
    {
        FIoDirectoryIndexResource {
            mount_point: String::new(),
            directories: Vec::new(),
            files: Vec::new(),
            string_table: Vec::new(),
        }
    }

    /// The sibling chain of directories from `idx`.
    pub fn get_directories(&self, idx: u32) -> (r: Option<Vec<FIoDirectoryIndexEntry>>)
        ensures
            match r {
                Some(v) => dir_chain(self.directories@, idx, self.directories@.len()) == Some(v@),
                None => dir_chain(self.directories@, idx, self.directories@.len()) is None,
            },
    {
        let ghost dirs = self.directories@;
        let mut out: Vec<FIoDirectoryIndexEntry> = Vec::new();
        let mut cur = idx;
        let mut steps = self.directories.len();
        loop
            invariant
                dirs == self.directories@,
                steps <= dirs.len(),
                dir_chain(dirs, idx, dirs.len()) == match dir_chain(dirs, cur, steps as nat) {
                    Some(rest) => Some(out@ + rest),
                    None => None::<Seq<FIoDirectoryIndexEntry>>,
                },
            decreases steps,
        {
            if steps == 0 || cur as usize >= self.directories.len() {
                return None;
            }
            let d = self.directories[cur as usize];
            let ghost before = out@;
            out.push(d);
            if d.next_sibling == MAX_INT {
                assert(out@ =~= before + seq![d]);
                return Some(out);
            }
            proof {
                match dir_chain(dirs, d.next_sibling, (steps - 1) as nat) {
                    Some(rest) => {
                        assert(before + (seq![d] + rest) =~= out@ + rest);
                    },
                    None => {},
                }
            }
            cur = d.next_sibling;
            steps = steps - 1;
        }
    }

    /// The chain of files from `idx`.
    pub fn get_file_entries(&self, idx: u32) -> (r: Option<Vec<FIoFileIndexEntry>>)
        ensures
            match r {
                Some(v) => file_chain(self.files@, idx, self.files@.len()) == Some(v@),
                None => file_chain(self.files@, idx, self.files@.len()) is None,
            },
    {
        let ghost files = self.files@;
        let mut out: Vec<FIoFileIndexEntry> = Vec::new();
        let mut cur = idx;
        let mut steps = self.files.len();
        loop
            invariant
                files == self.files@,
                steps <= files.len(),
                file_chain(files, idx, files.len()) == match file_chain(files, cur, steps as nat) {
                    Some(rest) => Some(out@ + rest),
                    None => None::<Seq<FIoFileIndexEntry>>,
                },
            decreases steps,
        {
            if steps == 0 || cur as usize >= self.files.len() {
                return None;
            }
            let f = self.files[cur as usize];
            let ghost before = out@;
            out.push(f);
            if f.next_file_entry == MAX_INT {
                assert(out@ =~= before + seq![f]);
                return Some(out);
            }
            proof {
                match file_chain(files, f.next_file_entry, (steps - 1) as nat) {
                    Some(rest) => {
                        assert(before + (seq![f] + rest) =~= out@ + rest);
                    },
                    None => {},
                }
            }
            cur = f.next_file_entry;
            steps = steps - 1;
        }
    }
}

impl FIoDirectoryIndexResource {
    /// The names given in the tree below `dir`, whose parent path is `dirpath`.
    #[verifier::loop_isolation(false)]
    pub fn process_directory(&self, dir: FIoDirectoryIndexEntry, dirpath: String, fuel: usize) -> (r: Option<
        Vec<(u32, String)>,
    >)
        ensures
            opt_assigns_view(r) == dir_assigns(
                self.directories@,
                self.files@,
                self.strs(),
                dir,
                dirpath@,
                fuel as nat,
            ),
        decreases fuel,
    {
        let ghost dirs = self.directories@;
        let ghost files = self.files@;
        let ghost strs = self.strs();
        if fuel == 0 {
            return None;
        }
        let mut path = dirpath;
        if dir.name != MAX_INT {
            if dir.name as usize >= self.string_table.len() {
                return None;
            }
            path = string_concat(path, self.string_table[dir.name as usize].as_str());
            path = string_concat(path, "/");
            proof {
                reveal_strlit("/");
            }
        }
        assert(dir_path(strs, dir, dirpath@) == Some(path@));
        let mut out: Vec<(u32, String)> = Vec::new();
        if dir.first_child != MAX_INT {
            let children = match self.get_directories(dir.first_child) {
                Some(c) => c,
                None => return None,
            };
            let mut i: usize = 0;
            while i < children.len()
                invariant
                    dirs == self.directories@,
                    files == self.files@,
                    strs == self.strs(),
                    fuel > 0,
                    0 <= i <= children@.len(),
                    dirs_assigns(dirs, files, strs, children@.take(i as int), path@, (fuel - 1) as nat)
                        == Some(assigns_view(out@)),
                decreases children@.len() - i,
            {
                let ghost before = out@;
                assert(children@.take((i + 1) as int).drop_last() =~= children@.take(i as int));
                let sub = match self.process_directory(children[i], path.clone(), fuel - 1) {
                    Some(v) => v,
                    None => {
                        proof {
                            lemma_dirs_prefix_none(
                                dirs,
                                files,
                                strs,
                                children@,
                                path@,
                                (fuel - 1) as nat,
                                (i + 1) as nat,
                            );
                        }
                        return None;
                    },
                };
                let ghost sub_view = sub@;
                let mut sub = sub;
                out.append(&mut sub);
                assert(assigns_view(out@) =~= assigns_view(before) + assigns_view(sub_view));
                i = i + 1;
            }
            assert(children@.take(children@.len() as int) =~= children@);
        }
        let ghost kids = assigns_view(out@);
        if dir.first_file != MAX_INT {
            let fc = match self.get_file_entries(dir.first_file) {
                Some(c) => c,
                None => return None,
            };
            let mut j: usize = 0;
            while j < fc.len()
                invariant
                    dirs == self.directories@,
                    files == self.files@,
                    strs == self.strs(),
                    0 <= j <= fc@.len(),
                    files_assigns(strs, fc@.take(j as int), path@) is Some,
                    assigns_view(out@) == kids + files_assigns(strs, fc@.take(j as int), path@).unwrap(),
                decreases fc@.len() - j,
            {
                let ghost before = out@;
                assert(fc@.take((j + 1) as int).drop_last() =~= fc@.take(j as int));
                let file = fc[j];
                if file.name != MAX_INT && file.user_data != MAX_INT {
                    if file.name as usize >= self.string_table.len() {
                        proof {
                            lemma_files_prefix_none(strs, fc@, path@, (j + 1) as nat);
                        }
                        return None;
                    }
                    let filepath = string_concat(path.clone(), self.string_table[file.name as usize].as_str());
                    out.push((file.user_data, filepath));
                    assert(assigns_view(out@) =~= assigns_view(before).push((file.user_data, filepath@)));
                }
                j = j + 1;
            }
            assert(fc@.take(fc@.len() as int) =~= fc@);
        }
        Some(out)
    }
}

proof fn lemma_dirs_prefix_none(
    dirs: Seq<FIoDirectoryIndexEntry>,
    files: Seq<FIoFileIndexEntry>,
    strs: Seq<Seq<char>>,
    ds: Seq<FIoDirectoryIndexEntry>,
    path: Seq<char>,
    fuel: nat,
    k: nat,
)
    requires
        k <= ds.len(),
        dirs_assigns(dirs, files, strs, ds.take(k as int), path, fuel) is None,
    ensures
        dirs_assigns(dirs, files, strs, ds, path, fuel) is None,
    decreases ds.len() - k,
{
    if k < ds.len() {
        assert(ds.take((k + 1) as int).drop_last() =~= ds.take(k as int));
        lemma_dirs_prefix_none(dirs, files, strs, ds, path, fuel, k + 1);
    } else {
        assert(ds.take(k as int) =~= ds);
    }
}

proof fn lemma_files_prefix_none(strs: Seq<Seq<char>>, fs: Seq<FIoFileIndexEntry>, path: Seq<char>, k: nat)
    requires
        k <= fs.len(),
        files_assigns(strs, fs.take(k as int), path) is None,
    ensures
        files_assigns(strs, fs, path) is None,
    decreases fs.len() - k,
{
    if k < fs.len() {
        assert(fs.take((k + 1) as int).drop_last() =~= fs.take(k as int));
        lemma_files_prefix_none(strs, fs, path, k + 1);
    } else {
        assert(fs.take(k as int) =~= fs);
    }
}

pub open spec fn opt_strings_view(r: Option<Vec<String>>) -> Option<Seq<Seq<char>>> {
    match r {
        Some(v) => Some(strings_view(v@)),
        None => None,
    }
}

impl FIoDirectoryIndexResource {
    /// The file name of each of `size` chunks, as `index_files` gives it.
    #[verifier::loop_isolation(false)]
    pub fn get_files(&self, size: usize) -> (r: Option<Vec<String>>)
        ensures
            opt_strings_view(r) == index_files(self.directories@, self.files@, self.strs(), size as nat),
    {
        let ghost base = Seq::new(size as nat, |i: int| Seq::<char>::empty());
        if self.directories.len() == 0 {
            return None;
        }
        let assigns = match self.process_directory(self.directories[0], String::new(), self.directories.len()) {
            Some(a) => a,
            None => return None,
        };
        let ghost a = assigns_view(assigns@);
        let mut files: Vec<String> = Vec::new();
        while files.len() < size
            invariant
                files@.len() <= size,
                forall|k: int| 0 <= k < files@.len() ==> #[trigger] files@[k]@ == Seq::<char>::empty(),
            decreases size - files@.len(),
        {
            files.push(String::new());
        }
        assert(strings_view(files@) =~= base);
        let mut i: usize = 0;
        while i < assigns.len()
            invariant
                0 <= i <= assigns@.len(),
                a == assigns_view(assigns@),
                apply_assigns(base, a.take(i as int)) == Some(strings_view(files@)),
                files@.len() == size,
            decreases assigns@.len() - i,
        {
            assert(a.take((i + 1) as int).drop_last() =~= a.take(i as int));
            let k = assigns[i].0;
            if k as usize >= files.len() {
                proof {
                    lemma_apply_prefix_none(base, a, (i + 1) as nat);
                }
                return None;
            }
            let ghost before = files@;
            files.set(k as usize, assigns[i].1.clone());
            assert(strings_view(files@) =~= strings_view(before).update(k as int, assigns@[i as int].1@));
            i = i + 1;
        }
        assert(a.take(a.len() as int) =~= a);
        Some(files)
    }
}

impl Newable for FIoDirectoryIndexResource {
    open spec fn spec_ok(data: Seq<u8>, pos: int) -> bool {
        &&& spec_string(data, pos) is Some
        &&& tarray_ok::<FIoDirectoryIndexEntry>(data, spec_string(data, pos).unwrap().1)
        &&& tarray_ok::<FIoFileIndexEntry>(data, dir_index_files_pos(data, pos))
        &&& tarray_ok::<String>(data, dir_index_strings_pos(data, pos))
    }

    open spec fn spec_end(data: Seq<u8>, pos: int) -> int {
        tarray_end::<String>(data, dir_index_strings_pos(data, pos))
    }

    open spec fn spec_is(data: Seq<u8>, pos: int, v: Self) -> bool {
        &&& v.mount_point@ == spec_string(data, pos).unwrap().0
        &&& tarray_is::<FIoDirectoryIndexEntry>(data, spec_string(data, pos).unwrap().1, v.directories@)
        &&& tarray_is::<FIoFileIndexEntry>(data, dir_index_files_pos(data, pos), v.files@)
        &&& tarray_is::<String>(data, dir_index_strings_pos(data, pos), v.string_table@)
    }

    fn new(reader: &mut ReaderCursor) -> (res: ParserResult<Self>) {
        let mount_point = read_string(reader)?;
        let directories = read_tarray(reader)?;
        let files = read_tarray(reader)?;
        let string_table = read_tarray(reader)?;
        Ok(FIoDirectoryIndexResource { mount_point, directories, files, string_table })
    }
}

/// Where the files of a directory index start.
pub open spec fn dir_index_files_pos(data: Seq<u8>, pos: int) -> int {
    tarray_end::<FIoDirectoryIndexEntry>(data, spec_string(data, pos).unwrap().1)
}

/// Where the name table of a directory index starts.
pub open spec fn dir_index_strings_pos(data: Seq<u8>, pos: int) -> int {
    tarray_end::<FIoFileIndexEntry>(data, dir_index_files_pos(data, pos))
}

/// The bytes of `b` other than zero, in order.
pub open spec fn nonzero_bytes(b: Seq<u8>) -> Seq<u8> {
    b.filter(|x: u8| x != 0)
}

/// A compression method name: the bytes must be UTF-8, and the name is the
/// text with its NUL characters removed.
pub open spec fn toc_method_name(b: Seq<u8>) -> Option<Seq<char>> {
    if vstd::utf8::valid_utf8(b) && vstd::utf8::valid_utf8(nonzero_bytes(b)) {
        Some(vstd::utf8::decode_utf8(nonzero_bytes(b)))
    } else {
        None
    }
}

/// The names of `count` compression methods of `len` bytes each, from `p`.
pub open spec fn toc_methods(d: Seq<u8>, p: int, count: nat, len: nat) -> Option<Seq<Seq<char>>>
    decreases count,
{
    if count == 0 {
        Some(Seq::empty())
    } else {
        match toc_methods(d, p, (count - 1) as nat, len) {
            Some(ms) => {
                let q = p + (count - 1) * len;
                if avail(d, q, len as int) {
                    match toc_method_name(bytes_at(d, q, len)) {
                        Some(n) => Some(ms.push(n)),
                        None => None,
                    }
                } else {
                    None
                }
            },
            None => None,
        }
    }
}

fn read_nonzero(b: &[u8]) -> (r: Vec<u8>)
    ensures
        r@ == nonzero_bytes(b@),
{
    let mut out: Vec<u8> = Vec::new();
    let mut i: usize = 0;
    while i < b.len()
        invariant
            0 <= i <= b@.len(),
            out@ == nonzero_bytes(b@.take(i as int)),
        decreases b@.len() - i,
    {
        let ghost before = out@;
        if b[i] != 0 {
            out.push(b[i]);
        }
        proof {
            let t = b@.take((i + 1) as int);
            assert(t.drop_last() =~= b@.take(i as int));
            assert(t.last() == b@[i as int]);
            reveal(Seq::filter);
        }
        i = i + 1;
    }
    assert(b@.take(b@.len() as int) =~= b@);
    out
}

fn read_method_names(reader: &mut ReaderCursor, count: u32, len: u32) -> (r: ParserResult<Vec<String>>)
    ensures
        final(reader).spec_data() == old(reader).spec_data(),
        r is Ok <==> toc_methods(old(reader).spec_data(), old(reader).spec_pos(), count as nat, len as nat)
            is Some,
        r matches Ok(v) ==> Some(strings_view(v@)) == toc_methods(
            old(reader).spec_data(),
            old(reader).spec_pos(),
            count as nat,
            len as nat,
        ) && final(reader).spec_pos() == old(reader).spec_pos() + count * len,
{
    let ghost d = reader.spec_data();
    let ghost p0 = reader.spec_pos();
    let mut names: Vec<String> = Vec::new();
    let mut i: u32 = 0;
    while i < count
        invariant
            reader.spec_data() == d,
            d == old(reader).spec_data(),
            p0 == old(reader).spec_pos(),
            0 <= i <= count,
            reader.spec_pos() == p0 + i * len,
            toc_methods(d, p0, i as nat, len as nat) == Some(strings_view(names@)),
        decreases count - i,
    {
        let ghost q = reader.spec_pos();
        proof {
            assert((i + 1) * len == i * len + len) by (nonlinear_arith);
        }
        let bytes = match reader.read_bytes(len as usize) {
            Some(b) => b,
            None => {
                proof {
                    lemma_methods_prefix_none(d, p0, (i + 1) as nat, count as nat, len as nat);
                }
                return Err(error_msg("File Error: failed to fill whole buffer"));
            },
        };
        let name = match crate::assets::utf8_to_string(bytes.as_slice()) {
            Some(_) => {
                let nz = read_nonzero(bytes.as_slice());
                match crate::assets::utf8_to_string(nz.as_slice()) {
                    Some(n) => n,
                    None => {
                        proof {
                            lemma_methods_prefix_none(d, p0, (i + 1) as nat, count as nat, len as nat);
                        }
                        return Err(error_msg("UTF8 Error"));
                    },
                }
            },
            None => {
                proof {
                    lemma_methods_prefix_none(d, p0, (i + 1) as nat, count as nat, len as nat);
                }
                return Err(error_msg("UTF8 Error"));
            },
        };
        let ghost before = names@;
        names.push(name);
        assert(strings_view(names@) =~= strings_view(before).push(name@));
        i = i + 1;
    }
    Ok(names)
}

proof fn lemma_methods_prefix_none(d: Seq<u8>, p: int, k: nat, count: nat, len: nat)
    requires
        k <= count,
        toc_methods(d, p, k, len) is None,
    ensures
        toc_methods(d, p, count, len) is None,
    decreases count - k,
{
    if k < count {
        lemma_methods_prefix_none(d, p, k + 1, count, len);
    }
}

/// The table of contents of a container, parsed: everything the `.utoc` file
/// says before the `.ucas` file is opened.
#[derive(Debug)]
pub struct TocData {
    pub header: FIoStoreTocHeader,
    pub chunk_ids: Vec<FIoChunkId>,
    pub offsets: Vec<FIoOffsetAndLength>,
    pub compressed_blocks: Vec<FIoStoreTocCompressedBlockEntry>,
    pub compression_methods: Vec<String>,
    pub key: Option<Vec<u8>>,
    pub directory_index: FIoDirectoryIndexResource,
    pub file_list: Vec<String>,
}

pub open spec fn toc_entry_count(d: Seq<u8>) -> int {
    le_u32(d, 24)
}

pub open spec fn toc_block_count(d: Seq<u8>) -> int {
    le_u32(d, 28)
}

pub open spec fn toc_dir_size(d: Seq<u8>) -> int {
    le_u32(d, 48)
}

pub open spec fn toc_encrypted(d: Seq<u8>) -> bool {
    (le_u32(d, 80) as u32) & 2 != 0
}

pub open spec fn toc_signed(d: Seq<u8>) -> bool {
    (le_u32(d, 80) as u32) & 4 != 0
}

/// Where the chunk ids, offsets, blocks and method names start.
pub open spec fn toc_ids_pos(d: Seq<u8>) -> int {
    le_u32(d, 20)
}

pub open spec fn toc_offsets_pos(d: Seq<u8>) -> int {
    elems_end::<FIoChunkId>(d, toc_ids_pos(d), toc_entry_count(d) as nat)
}

pub open spec fn toc_blocks_pos(d: Seq<u8>) -> int {
    elems_end::<FIoOffsetAndLength>(d, toc_offsets_pos(d), toc_entry_count(d) as nat)
}

pub open spec fn toc_methods_pos(d: Seq<u8>) -> int {
    elems_end::<FIoStoreTocCompressedBlockEntry>(d, toc_blocks_pos(d), toc_block_count(d) as nat)
}

/// Where the signatures start: after the method names.
pub open spec fn toc_sig_pos(d: Seq<u8>) -> int {
    toc_methods_pos(d) + le_u32(d, 36) * le_u32(d, 40)
}

/// Where the per-block hashes of the signatures start.
pub open spec fn toc_hashes_pos(d: Seq<u8>) -> int {
    toc_sig_pos(d) + 4 + 2 * le_u32(d, toc_sig_pos(d))
}

/// Signatures: a 32-bit size, two hashes of that size, and a 20-byte hash per block.
pub open spec fn toc_sig_ok(d: Seq<u8>) -> bool {
    let p = toc_sig_pos(d);
    &&& avail(d, p, 4)
    &&& avail(d, p + 4, le_u32(d, p))
    &&& avail(d, p + 4 + le_u32(d, p), le_u32(d, p))
    &&& elems_ok::<FSHAHash>(d, toc_hashes_pos(d), toc_block_count(d) as nat)
}

/// Where the directory index starts.
pub open spec fn toc_dir_pos(d: Seq<u8>) -> int {
    if toc_signed(d) {
        elems_end::<FSHAHash>(d, toc_hashes_pos(d), toc_block_count(d) as nat)
    } else {
        toc_sig_pos(d)
    }
}

/// The records before the directory index all read.
pub open spec fn toc_records_ok(d: Seq<u8>) -> bool {
    &&& avail(d, 0, 144)
    &&& elems_ok::<FIoChunkId>(d, toc_ids_pos(d), toc_entry_count(d) as nat)
    &&& elems_ok::<FIoOffsetAndLength>(d, toc_offsets_pos(d), toc_entry_count(d) as nat)
    &&& elems_ok::<FIoStoreTocCompressedBlockEntry>(d, toc_blocks_pos(d), toc_block_count(d) as nat)
    &&& toc_methods(d, toc_methods_pos(d), le_u32(d, 36) as nat, le_u32(d, 40) as nat) is Some
    &&& toc_signed(d) ==> toc_sig_ok(d)
}

/// The key is decoded: the records read and the container is encrypted.
pub open spec fn toc_key_used(d: Seq<u8>) -> bool {
    toc_records_ok(d) && toc_encrypted(d)
}

/// The bytes of the directory index, decrypted with `key` when the container
/// is encrypted.
pub open spec fn toc_dir_bytes(d: Seq<u8>, key: Seq<u8>) -> Seq<u8> {
    let raw = bytes_at(d, toc_dir_pos(d), toc_dir_size(d) as nat);
    if toc_encrypted(d) {
        ecb_decrypt(key, raw)
    } else {
        raw
    }
}

/// Everything up to the parse of the directory index succeeds.
pub open spec fn toc_dir_ok(d: Seq<u8>, key: Seq<u8>) -> bool {
    toc_dir_size(d) == 0 || (avail(d, toc_dir_pos(d), toc_dir_size(d)) && (toc_encrypted(d)
        ==> toc_dir_size(d) % 16 == 0) && FIoDirectoryIndexResource::spec_ok(toc_dir_bytes(d, key), 0))
}

/// The decoded key of an optional hexadecimal key.
pub open spec fn key_bytes(key: Option<&str>) -> Seq<u8> {
    match key {
        Some(k) => hex_bytes(k.spec_bytes()),
        None => Seq::empty(),
    }
}

/// Reads the table of contents in `buffer`, with the hexadecimal `key` for an
/// encrypted container, and names each chunk from the directory index.
#[verifier::loop_isolation(false)]
pub fn parse_toc(buffer: &[u8], key: Option<&str>) -> (r: ParserResult<TocData>)
    requires
        toc_key_used(buffer@) ==> match key {
            Some(k) => hex_valid(k.spec_bytes()) && k.spec_bytes().len() == 64,
            None => true,
        },
    ensures
        toc_records_ok(buffer@) && toc_encrypted(buffer@) && key is None ==> (r matches Err(e) && e.messages()
            == seq!["No key provided"@]),
        match r {
            Ok(t) => {
                &&& toc_records_ok(buffer@)
                &&& toc_encrypted(buffer@) ==> key is Some
                &&& toc_dir_ok(buffer@, key_bytes(key))
                &&& FIoStoreTocHeader::spec_is(buffer@, 0, t.header)
                &&& elems_are::<FIoChunkId>(buffer@, toc_ids_pos(buffer@), t.chunk_ids@)
                &&& t.chunk_ids@.len() == toc_entry_count(buffer@)
                &&& elems_are::<FIoOffsetAndLength>(buffer@, toc_offsets_pos(buffer@), t.offsets@)
                &&& t.offsets@.len() == toc_entry_count(buffer@)
                &&& elems_are::<FIoStoreTocCompressedBlockEntry>(
                    buffer@,
                    toc_blocks_pos(buffer@),
                    t.compressed_blocks@,
                )
                &&& t.compressed_blocks@.len() == toc_block_count(buffer@)
                &&& toc_methods(buffer@, toc_methods_pos(buffer@), le_u32(buffer@, 36) as nat, le_u32(buffer@, 40) as nat)
                    == Some(strings_view(t.compression_methods@))
                &&& (if toc_encrypted(buffer@) {
                    t.key matches Some(k) && k@ == key_bytes(key)
                } else {
                    t.key is None
                })
                &&& (if toc_dir_size(buffer@) > 0 {
                    &&& FIoDirectoryIndexResource::spec_is(toc_dir_bytes(buffer@, key_bytes(key)), 0, t.directory_index)
                    &&& index_files(
                        t.directory_index.directories@,
                        t.directory_index.files@,
                        t.directory_index.strs(),
                        toc_entry_count(buffer@) as nat,
                    ) == Some(strings_view(t.file_list@))
                } else {
                    t.directory_index.directories@.len() == 0 && t.file_list@.len() == 0
                })
            },
            Err(_) => !toc_records_ok(buffer@) || (toc_encrypted(buffer@) && key is None) || !toc_dir_ok(
                buffer@,
                key_bytes(key),
            ) || (toc_dir_size(buffer@) > 0 && exists|v: FIoDirectoryIndexResource|
                FIoDirectoryIndexResource::spec_is(toc_dir_bytes(buffer@, key_bytes(key)), 0, v)
                    && index_files(v.directories@, v.files@, v.strs(), toc_entry_count(buffer@) as nat)
                    is None),
        },
{
    let ghost d = buffer@;
    let mut reader = ReaderCursor::new(buffer);
    let (header, chunk_ids, offsets, compressed_blocks, compression_methods) = read_toc_records(&mut reader)?;
    if header.is_signed() {
        skip_toc_signatures(&mut reader, header.compressed_block_entry_count)?;
    }
    assert(reader.spec_pos() == toc_dir_pos(d));
    let hex_key: Option<Vec<u8>> = if header.is_encrypted() {
        match key {
            Some(k) => Some(hex_decode(k).unwrap()),
            None => return Err(error_msg("No key provided")),
        }
    } else {
        None
    };
    let ghost kb = opt_bytes(hex_key);
    assert(toc_dir_bytes(d, kb) == toc_dir_bytes(d, key_bytes(key)));
    let (directory_index, file_list) = match read_toc_directory(&mut reader, &header, &hex_key) {
        Ok(t) => t,
        Err(e) => return Err(e),
    };
    Ok(TocData {
        header,
        chunk_ids,
        offsets,
        compressed_blocks,
        compression_methods,
        key: hex_key,
        directory_index,
        file_list,
    })
}

fn read_toc_records(reader: &mut ReaderCursor) -> (r: ParserResult<
    (
        FIoStoreTocHeader,
        Vec<FIoChunkId>,
        Vec<FIoOffsetAndLength>,
        Vec<FIoStoreTocCompressedBlockEntry>,
        Vec<String>,
    ),
>)
    requires
        old(reader).spec_pos() == 0,
    ensures
        final(reader).spec_data() == old(reader).spec_data(),
        r is Ok <==> toc_records_ok_before_sig(old(reader).spec_data()),
        r matches Ok(t) ==> {
            let d = old(reader).spec_data();
            &&& final(reader).spec_pos() == toc_sig_pos(d)
            &&& FIoStoreTocHeader::spec_is(d, 0, t.0)
            &&& elems_are::<FIoChunkId>(d, toc_ids_pos(d), t.1@)
            &&& t.1@.len() == toc_entry_count(d)
            &&& elems_are::<FIoOffsetAndLength>(d, toc_offsets_pos(d), t.2@)
            &&& t.2@.len() == toc_entry_count(d)
            &&& elems_are::<FIoStoreTocCompressedBlockEntry>(d, toc_blocks_pos(d), t.3@)
            &&& t.3@.len() == toc_block_count(d)
            &&& toc_methods(d, toc_methods_pos(d), le_u32(d, 36) as nat, le_u32(d, 40) as nat)
                == Some(strings_view(t.4@))
        },
{
    let header = FIoStoreTocHeader::new(reader)?;
    reader.seek(header.header_size as u64);
    let chunk_ids: Vec<FIoChunkId> = read_elems(reader, header.entry_count)?;
    let offsets: Vec<FIoOffsetAndLength> = read_elems(reader, header.entry_count)?;
    let compressed_blocks: Vec<FIoStoreTocCompressedBlockEntry> = read_elems(
        reader,
        header.compressed_block_entry_count,
    )?;
    let compression_methods = read_method_names(
        reader,
        header.compression_method_name_count,
        header.compression_method_name_length,
    )?;
    Ok((header, chunk_ids, offsets, compressed_blocks, compression_methods))
}

fn skip_toc_signatures(reader: &mut ReaderCursor, block_count: u32) -> (r: ParserResult<()>)
    requires
        old(reader).spec_pos() == toc_sig_pos(old(reader).spec_data()),
        block_count == toc_block_count(old(reader).spec_data()),
    ensures
        final(reader).spec_data() == old(reader).spec_data(),
        r is Ok <==> toc_sig_ok(old(reader).spec_data()),
        r is Ok ==> final(reader).spec_pos() == elems_end::<FSHAHash>(
            old(reader).spec_data(),
            toc_hashes_pos(old(reader).spec_data()),
            block_count as nat,
        ),
{
    let hash_size = match reader.read_u32() {
        Some(v) => v,
        None => return Err(error_msg("File Error: failed to fill whole buffer")),
    };
    let _toc_hash = match reader.read_bytes(hash_size as usize) {
        Some(v) => v,
        None => return Err(error_msg("File Error: failed to fill whole buffer")),
    };
    let _block_hash = match reader.read_bytes(hash_size as usize) {
        Some(v) => v,
        None => return Err(error_msg("File Error: failed to fill whole buffer")),
    };
    let _hashes: Vec<FSHAHash> = read_elems(reader, block_count)?;
    Ok(())
}

fn read_toc_directory(reader: &mut ReaderCursor, header: &FIoStoreTocHeader, key: &Option<Vec<u8>>) -> (r:
    ParserResult<(FIoDirectoryIndexResource, Vec<String>)>)
    requires
        header.directory_index_size == toc_dir_size(old(reader).spec_data()),
        header.container_flags == le_u32(old(reader).spec_data(), 80),
        header.entry_count == toc_entry_count(old(reader).spec_data()),
        old(reader).spec_pos() == toc_dir_pos(old(reader).spec_data()),
        toc_encrypted(old(reader).spec_data()) ==> (key matches Some(k) && k@.len() == 32),
    ensures
        final(reader).spec_data() == old(reader).spec_data(),
        ({
            let d = old(reader).spec_data();
            match r {
                Ok(t) => toc_dir_ok(d, opt_bytes(*key)) && (if toc_dir_size(d) > 0 {
                    &&& FIoDirectoryIndexResource::spec_is(toc_dir_bytes(d, opt_bytes(*key)), 0, t.0)
                    &&& index_files(t.0.directories@, t.0.files@, t.0.strs(), toc_entry_count(d) as nat)
                        == Some(strings_view(t.1@))
                } else {
                    t.0.directories@.len() == 0 && t.1@.len() == 0
                }),
                Err(_) => !toc_dir_ok(d, opt_bytes(*key)) || (toc_dir_size(d) > 0 && exists|
                    v: FIoDirectoryIndexResource,
                |
                    #[trigger] FIoDirectoryIndexResource::spec_is(toc_dir_bytes(d, opt_bytes(*key)), 0, v)
                        && index_files(v.directories@, v.files@, v.strs(), toc_entry_count(d) as nat)
                        is None),
            }
        }),
{
    let ghost d = reader.spec_data();
    if header.directory_index_size == 0 {
        let e = FIoDirectoryIndexResource::empty();
        return Ok((e, Vec::new()));
    }
    let mut directory_buf = match reader.read_bytes(header.directory_index_size as usize) {
        Some(v) => v,
        None => return Err(error_msg("File Error: failed to fill whole buffer")),
    };
    if header.is_encrypted() {
        if directory_buf.len() % 16 != 0 {
            return Err(error_msg("Decryption needs to be aligned"));
        }
        match key {
            Some(k) => ecb_decrypt_in_place(k.as_slice(), &mut directory_buf),
            None => {},
        }
    }
    let ghost kb = opt_bytes(*key);
    assert(directory_buf@ == toc_dir_bytes(d, kb));
    let mut directory_cursor = ReaderCursor::new(directory_buf.as_slice());
    let directory_index = FIoDirectoryIndexResource::new(&mut directory_cursor)?;
    let file_list = match directory_index.get_files(header.entry_count as usize) {
        Some(l) => l,
        None => {
            assert(FIoDirectoryIndexResource::spec_is(toc_dir_bytes(d, kb), 0, directory_index)
                && index_files(
                directory_index.directories@,
                directory_index.files@,
                directory_index.strs(),
                toc_entry_count(d) as nat,
            ) is None);
            return Err(error_msg("Directory index is inconsistent"));
        },
    };
    Ok((directory_index, file_list))
}

/// The records from the header to the method names all read.
pub open spec fn toc_records_ok_before_sig(d: Seq<u8>) -> bool {
    &&& avail(d, 0, 144)
    &&& elems_ok::<FIoChunkId>(d, toc_ids_pos(d), toc_entry_count(d) as nat)
    &&& elems_ok::<FIoOffsetAndLength>(d, toc_offsets_pos(d), toc_entry_count(d) as nat)
    &&& elems_ok::<FIoStoreTocCompressedBlockEntry>(d, toc_blocks_pos(d), toc_block_count(d) as nat)
    &&& toc_methods(d, toc_methods_pos(d), le_u32(d, 36) as nat, le_u32(d, 40) as nat) is Some
}

pub open spec fn opt_bytes(k: Option<Vec<u8>>) -> Seq<u8> {
    match k {
        Some(v) => v@,
        None => Seq::empty(),
    }
}

/// The global name table, the script objects and the property mappings.
#[derive(Debug)]
pub struct LoaderGlobalData {
    pub names: FNameMap,
    pub imports: InitialLoadMetaData,
    pub mappings: MappingStore,
}

impl LoaderGlobalData {
    pub open spec fn spec_names(&self) -> Seq<Seq<char>> {
        self.names@
    }

    pub open spec fn spec_objects(&self) -> Seq<FScriptObjectEntry> {
        self.imports.script_objects@
    }

    pub fn new(names: FNameMap, imports: InitialLoadMetaData, mappings: MappingStore) -> (r: Self)
        ensures
            r.spec_names() == names@,
            r.spec_objects() == imports.script_objects@,
            r.mappings == mappings,
    {
        LoaderGlobalData { names, imports, mappings }
    }

    pub fn empty() -> (r: Self)
        ensures
            r.spec_names().len() == 0,
            r.spec_objects().len() == 0,
            r.mappings.class_mappings@.len() == 0,
            r.mappings.enum_mappings@.len() == 0,
    {
        LoaderGlobalData {
            names: FNameMap::empty(),
            imports: InitialLoadMetaData::empty(),
            mappings: MappingStore::empty(),
        }
    }

    /// The name of the first script object whose global index is `object`.
    pub fn get_package_name(&self, object: &FPackageObjectIndex) -> (r: Option<&str>)
        ensures
            match first_object(self.spec_objects(), *object) {
                Some(i) => if self.spec_objects()[i].object_name.index < self.spec_names().len() {
                    r matches Some(s) && s@ == self.spec_names()[self.spec_objects()[i].object_name.index as int]
                } else {
                    r is None
                },
                None => r is None,
            },
    {
        proof {
            lemma_first_object(self.imports.script_objects@, *object);
        }
        match self.imports.find_object(object) {
            Some(obj) => match obj.object_name.get_name(&self.names) {
                Ok(name) => Some(name),
                Err(_) => None,
            },
            None => None,
        }
    }
}

/// The first script object whose global index is `index`.
pub open spec fn first_object(objs: Seq<FScriptObjectEntry>, index: FPackageObjectIndex) -> Option<int> {
    if exists|i: int| 0 <= i < objs.len() && objs[i].global_index == index {
        Some(
            choose|i: int|
                0 <= i < objs.len() && objs[i].global_index == index && forall|j: int|
                    0 <= j < i ==> #[trigger] objs[j].global_index != index,
        )
    } else {
        None
    }
}

proof fn lemma_first_object(objs: Seq<FScriptObjectEntry>, index: FPackageObjectIndex)
    ensures
        first_object(objs, index) is Some ==> {
            let i = first_object(objs, index).unwrap();
            &&& 0 <= i < objs.len()
            &&& objs[i].global_index == index
            &&& forall|j: int| 0 <= j < i ==> #[trigger] objs[j].global_index != index
        },
{
    if exists|i: int| 0 <= i < objs.len() && objs[i].global_index == index {
        let w = choose|i: int| 0 <= i < objs.len() && objs[i].global_index == index;
        lemma_least_object(objs, index, w);
    }
}

proof fn lemma_least_object(objs: Seq<FScriptObjectEntry>, index: FPackageObjectIndex, w: int)
    requires
        0 <= w < objs.len(),
        objs[w].global_index == index,
    ensures
        exists|i: int|
            0 <= i < objs.len() && objs[i].global_index == index && forall|j: int|
                0 <= j < i ==> #[trigger] objs[j].global_index != index,
    decreases w,
{
    if exists|j: int| 0 <= j < w && objs[j].global_index == index {
        let j = choose|j: int| 0 <= j < w && objs[j].global_index == index;
        lemma_least_object(objs, index, j);
    } else {
        assert(forall|j: int| 0 <= j < w ==> #[trigger] objs[j].global_index != index);
    }
}

/// What a chunk decodes to.
#[derive(Debug)]
pub enum ChunkData {
    ContainerHeader(FContainerHeader),
    LoaderInitialLoadMeta(InitialLoadMetaData),
    LoaderGlobalNames(FNameMap),
}

/// Decodes the bytes of a chunk of type `chunk_type` (the part of
/// `Extractor::read_chunk` after the bytes are read).
pub fn decode_chunk(chunk_type: EIoChunkType, data: &[u8]) -> (r: ParserResult<ChunkData>)
    ensures
        match chunk_type {
            EIoChunkType::ContainerHeader => match r {
                Ok(ChunkData::ContainerHeader(h)) => FContainerHeader::spec_ok(data@, 0)
                    && FContainerHeader::spec_is(data@, 0, h),
                Ok(_) => false,
                Err(_) => !FContainerHeader::spec_ok(data@, 0),
            },
            EIoChunkType::LoaderInitialLoadMeta => match r {
                Ok(ChunkData::LoaderInitialLoadMeta(m)) => InitialLoadMetaData::spec_ok(data@, 0)
                    && InitialLoadMetaData::spec_is(data@, 0, m),
                Ok(_) => false,
                Err(_) => !InitialLoadMetaData::spec_ok(data@, 0),
            },
            EIoChunkType::LoaderGlobalNames => match r {
                Ok(ChunkData::LoaderGlobalNames(n)) => n@ == short_string_list(data@, 0),
                _ => false,
            },
            _ => r is Err,
        },
{
    let mut reader = ReaderCursor::new(data);
    match chunk_type {
        EIoChunkType::ContainerHeader => Ok(ChunkData::ContainerHeader(FContainerHeader::new(&mut reader)?)),
        EIoChunkType::LoaderInitialLoadMeta => Ok(
            ChunkData::LoaderInitialLoadMeta(InitialLoadMetaData::new(&mut reader)?),
        ),
        EIoChunkType::LoaderGlobalNames => Ok(ChunkData::LoaderGlobalNames(FNameMap::new(&mut reader)?)),
        _ => Err(error_msg("Type not supported")),
    }
}

/// The global data from the first two chunks of the global container: the
/// script objects and the names (the part of `Extractor::read_global` after
/// the chunks are read).
pub fn global_from_chunks(initial: ChunkData, names: ChunkData, mappings: MappingStore) -> (r: ParserResult<
    LoaderGlobalData,
>)
    ensures
        match (initial, names) {
            (ChunkData::LoaderInitialLoadMeta(i), ChunkData::LoaderGlobalNames(n)) => r matches Ok(g)
                && g.spec_objects() == i.script_objects@ && g.spec_names() == n@ && g.mappings == mappings,
            _ => r is Err,
        },
{
    let initial_data = match initial {
        ChunkData::LoaderInitialLoadMeta(d) => d,
        _ => return Err(error_msg("Not a global chunk")),
    };
    let name_map = match names {
        ChunkData::LoaderGlobalNames(d) => d,
        _ => return Err(error_msg("Not a global chunk")),
    };
    Ok(LoaderGlobalData::new(name_map, initial_data, mappings))
}

/// The index of the first of `list` equal to `file`.
pub fn find_file(list: &Vec<String>, file: &str) -> (r: Option<usize>)
    ensures
        match r {
            Some(i) => i < list@.len() && list@[i as int]@ == file@ && forall|j: int|
                0 <= j < i ==> #[trigger] list@[j]@ != file@,
            None => forall|j: int| 0 <= j < list@.len() ==> #[trigger] list@[j]@ != file@,
        },
{
    let mut i: usize = 0;
    while i < list.len()
        invariant
            0 <= i <= list@.len(),
            forall|j: int| 0 <= j < i ==> #[trigger] list@[j]@ != file@,
        decreases list@.len() - i,
    {
        if crate::archives::str_eq(file, list[i].as_str()) {
            return Some(i);
        }
        i = i + 1;
    }
    None
}

/// The number of bytes a compression block takes in the `.ucas` file: its
/// compressed size rounded up to 16.
pub fn chunk_read_size(chunk: &FIoStoreTocCompressedBlockEntry) -> (r: u32)
    requires
        chunk.compressed_size % 16 == 0 || chunk.compressed_size <= u32::MAX - 15,
    ensures
        r % 16 == 0,
        chunk.compressed_size <= r < chunk.compressed_size + 16,
{
    align_value(chunk.compressed_size, 16)
}

/// The bytes of a compression block as read from the `.ucas` file, decrypted
/// with `key` when the container is encrypted.
pub open spec fn toc_block_plain(raw: Seq<u8>, encrypted: bool, key: Seq<u8>) -> Seq<u8> {
    if encrypted {
        ecb_decrypt(key, raw)
    } else {
        raw
    }
}

/// Decodes a compression block as read from the `.ucas` file: decrypts it when
/// the container is encrypted and hands a compressed block to `oodle` with its
/// uncompressed size.
pub fn decode_toc_block<O: Fn(&[u8], u64) -> Vec<u8>>(
    buf: Vec<u8>,
    chunk: &FIoStoreTocCompressedBlockEntry,
    header: &FIoStoreTocHeader,
    key: &Option<Vec<u8>>,
    oodle: &O,
) -> (r: ParserResult<Vec<u8>>)
    requires
        header.container_flags & 2 != 0 ==> match key {
            Some(k) => k@.len() == 32 && buf@.len() % 16 == 0,
            None => true,
        },
        forall|i: &[u8], n: u64| #[trigger] oodle.requires((i, n)),
        forall|i: &[u8], n: u64, o: Vec<u8>| #[trigger] oodle.ensures((i, n), o) ==> o@.len() == n,
    ensures
        r is Err <==> (header.container_flags & 2 != 0 && key is None),
        r matches Ok(v) ==> if chunk.compression_method == 0 {
            v@ == toc_block_plain(buf@, header.container_flags & 2 != 0, opt_bytes(*key))
        } else {
            v@.len() == chunk.size && oodle_gave_block(
                oodle,
                toc_block_plain(buf@, header.container_flags & 2 != 0, opt_bytes(*key)),
                chunk.size as u64,
                v,
            )
        },
{
    let mut buf = buf;
    let ghost raw = buf@;
    if header.is_encrypted() {
        match key {
            Some(k) => ecb_decrypt_in_place(k.as_slice(), &mut buf),
            None => return Err(error_msg("Key not specified")),
        }
    }
    assert(buf@ == toc_block_plain(raw, header.container_flags & 2 != 0, opt_bytes(*key)));
    if chunk.compression_method == 0 {
        return Ok(buf);
    }
    let input = buf.as_slice();
    let out = oodle(input, chunk.size as u64);
    assert(oodle_gave_block(oodle, toc_block_plain(raw, header.container_flags & 2 != 0, opt_bytes(*key)), chunk.size as u64, out)) by {
        assert(input@ == toc_block_plain(raw, header.container_flags & 2 != 0, opt_bytes(*key)));
        assert(oodle.ensures((input, chunk.size as u64), out));
    }
    Ok(out)
}

/// `oodle` can give `out` for an input with the bytes `input` and the size `size`.
pub open spec fn oodle_gave_block<O: Fn(&[u8], u64) -> Vec<u8>>(oodle: &O, input: Seq<u8>, size: u64, out: Vec<u8>) -> bool {
    exists|i: &[u8]| i@ == input && #[trigger] oodle.ensures((i, size), out)
}

/// The sum of the uncompressed sizes of `blocks`.
pub open spec fn blocks_total(blocks: Seq<FIoStoreTocCompressedBlockEntry>) -> int
    decreases blocks.len(),
{
    if blocks.len() == 0 {
        0
    } else {
        blocks_total(blocks.drop_last()) + blocks.last().size
    }
}

/// A position to seek to in the uncompressed stream of a container.
#[derive(Debug, Clone, Copy)]
pub enum SeekPos {
    Start(u64),
    Current(i64),
    End(i64),
}

/// What a read of the stream needs done before it can copy bytes.
#[derive(Debug, PartialEq, Eq, Structural, Clone, Copy)]
pub enum ReadAction {
    /// The current block has bytes left: copy from it.
    Copy,
    /// Load block `k` into the current block, then copy.
    Load(usize),
    /// No block is left: the read returns 0.
    Eof,
}

/// Where a reader of the uncompressed stream of a container stands: the
/// current block, the offset in it, the offset in the stream, the stream's
/// size, and the uncompressed size of a block.
#[derive(Debug, Clone, Copy)]
pub struct UcasState {
    pub current_chunk: usize,
    pub current_offset: usize,
    pub current_total_offset: u64,
    pub total_size: u64,
    pub block_size: u64,
    pub block_count: usize,
}

impl UcasState {
    /// The state at the start of the stream of `blocks`; `None` when their
    /// sizes add up past 64 bits.
    pub fn new(blocks: &Vec<FIoStoreTocCompressedBlockEntry>, block_size: u32) -> (r: Option<Self>)
        ensures
            r is Some <==> blocks_total(blocks@) <= u64::MAX,
            r matches Some(st) ==> st.current_chunk == 0 && st.current_offset == 0
                && st.current_total_offset == 0 && st.total_size == blocks_total(blocks@)
                && st.block_size == block_size && st.block_count == blocks@.len(),
    {
        let mut total: u64 = 0;
        let mut i: usize = 0;
        while i < blocks.len()
            invariant
                0 <= i <= blocks@.len(),
                total == blocks_total(blocks@.take(i as int)),
            decreases blocks@.len() - i,
        {
            assert(blocks@.take((i + 1) as int).drop_last() =~= blocks@.take(i as int));
            let size = blocks[i].size as u64;
            if total > u64::MAX - size {
                proof {
                    lemma_total_grows(blocks@, (i + 1) as nat);
                }
                return None;
            }
            total = total + size;
            i = i + 1;
        }
        assert(blocks@.take(blocks@.len() as int) =~= blocks@);
        Some(UcasState {
            current_chunk: 0,
            current_offset: 0,
            current_total_offset: 0,
            total_size: total,
            block_size: block_size as u64,
            block_count: blocks.len(),
        })
    }

    /// The first step of a read, given the length of the current block: copy
    /// when bytes are left, else move to the next block, or stop at the end.
    pub fn begin_read(&mut self, chunk_len: usize) -> (r: ReadAction)
        requires
            old(self).current_chunk < usize::MAX,
        ensures
            if old(self).current_offset < chunk_len {
                r == ReadAction::Copy && *final(self) == *old(self)
            } else if old(self).current_chunk + 1 >= old(self).block_count {
                r == ReadAction::Eof && *final(self) == (UcasState {
                    current_chunk: (old(self).current_chunk + 1) as usize,
                    ..*old(self)
                })
            } else {
                r == ReadAction::Load((old(self).current_chunk + 1) as usize) && *final(self) == (
                UcasState {
                    current_chunk: (old(self).current_chunk + 1) as usize,
                    current_offset: 0,
                    ..*old(self)
                })
            },
    {
        if self.current_offset < chunk_len {
            return ReadAction::Copy;
        }
        self.current_chunk = self.current_chunk + 1;
        if self.current_chunk >= self.block_count {
            return ReadAction::Eof;
        }
        self.current_offset = 0;
        ReadAction::Load(self.current_chunk)
    }

    /// The bytes a read copies from the current block of length `chunk_len`
    /// into a buffer of length `buf_len`: their start in the block and their
    /// count; the offsets move past them.
    pub fn take(&mut self, chunk_len: usize, buf_len: usize) -> (r: (usize, usize))
        requires
            old(self).current_offset <= chunk_len,
            old(self).current_total_offset + buf_len <= u64::MAX,
        ensures
            r.0 == old(self).current_offset,
            r.1 == (if buf_len < chunk_len - old(self).current_offset {
                buf_len as int
            } else {
                chunk_len - old(self).current_offset
            }),
            *final(self) == (UcasState {
                current_offset: (old(self).current_offset + r.1) as usize,
                current_total_offset: (old(self).current_total_offset + r.1) as u64,
                ..*old(self)
            }),
    {
        let rest = chunk_len - self.current_offset;
        let target_len = if buf_len < rest {
            buf_len
        } else {
            rest
        };
        let start = self.current_offset;
        self.current_total_offset = self.current_total_offset + target_len as u64;
        self.current_offset = self.current_offset + target_len;
        (start, target_len)
    }

    /// Moves to `pos`, and returns the block to load.
    pub fn seek(&mut self, pos: SeekPos) -> (r: usize)
        requires
            0 < old(self).block_size <= u32::MAX,
            match pos {
                SeekPos::Start(p) => true,
                SeekPos::Current(p) => i64::MIN <= (old(self).current_total_offset as i64) + p <= i64::MAX,
                SeekPos::End(p) => i64::MIN <= (old(self).total_size as i64) + p <= i64::MAX,
            },
            seek_target(*old(self), pos) / old(self).block_size <= usize::MAX,
        ensures
            final(self).current_total_offset == seek_target(*old(self), pos),
            r == final(self).current_chunk,
            final(self).current_chunk == seek_target(*old(self), pos) / old(self).block_size,
            final(self).current_offset == seek_target(*old(self), pos) % old(self).block_size,
            final(self).current_chunk * final(self).block_size + final(self).current_offset
                == final(self).current_total_offset,
            final(self).total_size == old(self).total_size,
            final(self).block_size == old(self).block_size,
            final(self).block_count == old(self).block_count,
    {
        let target: u64 = match pos {
            SeekPos::Start(p) => p,
            SeekPos::Current(p) => ((self.current_total_offset as i64) + p) as u64,
            SeekPos::End(p) => ((self.total_size as i64) + p) as u64,
        };
        self.current_total_offset = target;
        self.current_chunk = (target / self.block_size) as usize;
        self.current_offset = (target % self.block_size) as usize;
        proof {
            let t = target as int;
            let b = self.block_size as int;
            vstd::arithmetic::div_mod::lemma_fundamental_div_mod(t, b);
            assert((t / b) * b + t % b == t) by (nonlinear_arith)
                requires
                    t == b * (t / b) + t % b,
            ;
        }
        self.current_chunk
    }
}

/// The stream offset a seek to `pos` goes to.
pub open spec fn seek_target(st: UcasState, pos: SeekPos) -> u64 {
    match pos {
        SeekPos::Start(p) => p,
        SeekPos::Current(p) => ((st.current_total_offset as i64) + p) as u64,
        SeekPos::End(p) => ((st.total_size as i64) + p) as u64,
    }
}

proof fn lemma_total_grows(blocks: Seq<FIoStoreTocCompressedBlockEntry>, k: nat)
    requires
        k <= blocks.len(),
    ensures
        blocks_total(blocks.take(k as int)) <= blocks_total(blocks),
    decreases blocks.len() - k,
{
    if k < blocks.len() {
        assert(blocks.take((k + 1) as int).drop_last() =~= blocks.take(k as int));
        lemma_total_grows(blocks, k + 1);
    } else {
        assert(blocks.take(k as int) =~= blocks);
    }
}

} // verus!
