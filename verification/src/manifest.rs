//! Build manifests: a fixed header, then a zlib stream that holds the build's
//! meta data, the list of its chunks and the list of its files. Both lists are
//! stored field by field: every entry's first field, then every entry's second
//! field, and so on.
use vstd::prelude::*;
use crate::assets::{
    FGuid, Newable, ParserResult, error_msg, read_elems, read_string, read_tarray, elems_ok, elems_end,
    elems_are, tarray_ok, tarray_end, tarray_is, spec_string,
};
use crate::archives::{zlib_inflate, zlib_read_exact};
use crate::dispatch::FSHAHash;
use crate::reader::{ReaderCursor, avail, bytes_at, le_u32};

verus! {

/// The first word of every manifest.
pub const HEADER_MAGIC: u32 = 0x44BEC00C;

/// The fixed header of a manifest: the sizes of the compressed and inflated
/// data that follow it, a hash, and a version.
#[derive(Debug)]
pub struct FManifestHeader {
    pub header_size: u32,
    pub data_size_uncompressed: u32,
    pub data_size_compressed: u32,
    pub hash: [u8; 20],
    pub stored_as: u8,
    pub version: u32,
}

impl Newable for FManifestHeader {
    /// 41 bytes that start with the magic word.
    open spec fn spec_ok(data: Seq<u8>, pos: int) -> bool {
        avail(data, pos, 41) && le_u32(data, pos) == HEADER_MAGIC
    }

    open spec fn spec_end(data: Seq<u8>, pos: int) -> int {
        pos + 41
    }

    open spec fn spec_is(data: Seq<u8>, pos: int, v: Self) -> bool {
        &&& v.header_size == le_u32(data, pos + 4)
        &&& v.data_size_uncompressed == le_u32(data, pos + 8)
        &&& v.data_size_compressed == le_u32(data, pos + 12)
        &&& v.hash@ == bytes_at(data, pos + 16, 20)
        &&& v.stored_as == data[pos + 36]
        &&& v.version == le_u32(data, pos + 37)
    }

    fn new(reader: &mut ReaderCursor) -> (res: ParserResult<Self>) {
        let magic = u32::new(reader)?;
        if magic != HEADER_MAGIC {
            return Err(error_msg("Manifest not valid"));
        }
        let header_size = u32::new(reader)?;
        let data_size_uncompressed = u32::new(reader)?;
        let data_size_compressed = u32::new(reader)?;
        let hash = match reader.read_array20() {
            Some(h) => h,
            None => return Err(error_msg("File Error: failed to fill whole buffer")),
        };
        let stored_as = u8::new(reader)?;
        let version = u32::new(reader)?;
        Ok(FManifestHeader {
            header_size,
            data_size_uncompressed,
            data_size_compressed,
            hash,
            stored_as,
            version,
        })
    }
}

/// Where the string at `p` ends.
pub open spec fn str_end(d: Seq<u8>, p: int) -> int {
    spec_string(d, p).unwrap().1
}

/// The string at `p`.
pub open spec fn str_at(d: Seq<u8>, p: int) -> Seq<char> {
    spec_string(d, p).unwrap().0
}

pub open spec fn meta_q1(d: Seq<u8>, p: int) -> int {
    str_end(d, p + 14)
}

pub open spec fn meta_q2(d: Seq<u8>, p: int) -> int {
    str_end(d, meta_q1(d, p))
}

pub open spec fn meta_q3(d: Seq<u8>, p: int) -> int {
    str_end(d, meta_q2(d, p))
}

pub open spec fn meta_q4(d: Seq<u8>, p: int) -> int {
    str_end(d, meta_q3(d, p))
}

pub open spec fn meta_q5(d: Seq<u8>, p: int) -> int {
    tarray_end::<String>(d, meta_q4(d, p))
}

pub open spec fn meta_q6(d: Seq<u8>, p: int) -> int {
    str_end(d, meta_q5(d, p))
}

pub open spec fn meta_q7(d: Seq<u8>, p: int) -> int {
    str_end(d, meta_q6(d, p))
}

/// What the manifest says of the build: the application, its version, how to
/// launch it, and what it needs installed first.
#[derive(Debug)]
pub struct FManifestMeta {
    pub data_size: u32,
    pub data_version: u8,
    pub feature_level: u32,
    pub file_data: bool,
    pub app_id: u32,
    pub app_name: String,
    pub build_version: String,
    pub launch_exe: String,
    pub launch_command: String,
    pub prereq_ids: Vec<String>,
    pub prereq_name: String,
    pub prereq_path: String,
    pub prereq_args: String,
}

impl Newable for FManifestMeta {
    /// 14 bytes of numbers, four strings, a string array and three strings.
    open spec fn spec_ok(data: Seq<u8>, pos: int) -> bool {
        &&& avail(data, pos, 14)
        &&& spec_string(data, pos + 14) is Some
        &&& spec_string(data, meta_q1(data, pos)) is Some
        &&& spec_string(data, meta_q2(data, pos)) is Some
        &&& spec_string(data, meta_q3(data, pos)) is Some
        &&& tarray_ok::<String>(data, meta_q4(data, pos))
        &&& spec_string(data, meta_q5(data, pos)) is Some
        &&& spec_string(data, meta_q6(data, pos)) is Some
        &&& spec_string(data, meta_q7(data, pos)) is Some
    }

    open spec fn spec_end(data: Seq<u8>, pos: int) -> int {
        str_end(data, meta_q7(data, pos))
    }

    open spec fn spec_is(data: Seq<u8>, pos: int, v: Self) -> bool {
        &&& v.data_size == le_u32(data, pos)
        &&& v.data_version == data[pos + 4]
        &&& v.feature_level == le_u32(data, pos + 5)
        &&& v.file_data == (data[pos + 9] != 0)
        &&& v.app_id == le_u32(data, pos + 10)
        &&& v.app_name@ == str_at(data, pos + 14)
        &&& v.build_version@ == str_at(data, meta_q1(data, pos))
        &&& v.launch_exe@ == str_at(data, meta_q2(data, pos))
        &&& v.launch_command@ == str_at(data, meta_q3(data, pos))
        &&& tarray_is::<String>(data, meta_q4(data, pos), v.prereq_ids@)
        &&& v.prereq_name@ == str_at(data, meta_q5(data, pos))
        &&& v.prereq_path@ == str_at(data, meta_q6(data, pos))
        &&& v.prereq_args@ == str_at(data, meta_q7(data, pos))
    }

    fn new(reader: &mut ReaderCursor) -> (res: ParserResult<Self>) {
        let data_size = u32::new(reader)?;
        let data_version = u8::new(reader)?;
        let feature_level = u32::new(reader)?;
        let file_data = u8::new(reader)? != 0;
        let app_id = u32::new(reader)?;
        let app_name = read_string(reader)?;
        let build_version = read_string(reader)?;
        let launch_exe = read_string(reader)?;
        let launch_command = read_string(reader)?;
        let prereq_ids = read_tarray(reader)?;
        let prereq_name = read_string(reader)?;
        let prereq_path = read_string(reader)?;
        let prereq_args = read_string(reader)?;
        Ok(FManifestMeta {
            data_size,
            data_version,
            feature_level,
            file_data,
            app_id,
            app_name,
            build_version,
            launch_exe,
            launch_command,
            prereq_ids,
            prereq_name,
            prereq_path,
            prereq_args,
        })
    }
}

/// A chunk of the build: its id, two hashes, its group, and its sizes.
#[derive(Debug, Clone, Copy)]
pub struct FChunkInfo {
    pub guid: FGuid,
    pub hash: u64,
    pub sha_hash: [u8; 20],
    pub group_number: u8,
    pub window_size: u32,
    pub file_size: i64,
}

/// The number of chunks in the list at `p`.
pub open spec fn chunk_count(d: Seq<u8>, p: int) -> nat {
    le_u32(d, p + 5) as nat
}

/// Where each field of the chunk list at `p` starts: ids, hashes, SHA hashes,
/// groups, window sizes, file sizes; and, last, where the list ends.
pub open spec fn chunk_col(d: Seq<u8>, p: int, k: nat) -> int
    decreases k,
{
    let n = chunk_count(d, p);
    if k == 0 {
        p + 9
    } else if k == 1 {
        elems_end::<FGuid>(d, chunk_col(d, p, 0), n)
    } else if k == 2 {
        elems_end::<u64>(d, chunk_col(d, p, 1), n)
    } else if k == 3 {
        elems_end::<FSHAHash>(d, chunk_col(d, p, 2), n)
    } else if k == 4 {
        elems_end::<u8>(d, chunk_col(d, p, 3), n)
    } else if k == 5 {
        elems_end::<u32>(d, chunk_col(d, p, 4), n)
    } else {
        elems_end::<i64>(d, chunk_col(d, p, 5), n)
    }
}

pub open spec fn chunk_shas(cs: Seq<FChunkInfo>) -> Seq<FSHAHash> {
    cs.map_values(|c: FChunkInfo| FSHAHash { content: c.sha_hash })
}

/// The chunks of a build, read field by field.
#[derive(Debug)]
pub struct FChunkDataList {
    pub chunks: Vec<FChunkInfo>,
}

impl Newable for FChunkDataList {
    /// A size, a version and a count, then each field of every chunk.
    open spec fn spec_ok(data: Seq<u8>, pos: int) -> bool {
        let n = chunk_count(data, pos);
        &&& avail(data, pos, 9)
        &&& elems_ok::<FGuid>(data, chunk_col(data, pos, 0), n)
        &&& elems_ok::<u64>(data, chunk_col(data, pos, 1), n)
        &&& elems_ok::<FSHAHash>(data, chunk_col(data, pos, 2), n)
        &&& elems_ok::<u8>(data, chunk_col(data, pos, 3), n)
        &&& elems_ok::<u32>(data, chunk_col(data, pos, 4), n)
        &&& elems_ok::<i64>(data, chunk_col(data, pos, 5), n)
    }

    open spec fn spec_end(data: Seq<u8>, pos: int) -> int {
        chunk_col(data, pos, 6)
    }

    open spec fn spec_is(data: Seq<u8>, pos: int, v: Self) -> bool {
        let cs = v.chunks@;
        &&& cs.len() == chunk_count(data, pos)
        &&& elems_are::<FGuid>(data, chunk_col(data, pos, 0), cs.map_values(|c: FChunkInfo| c.guid))
        &&& elems_are::<u64>(data, chunk_col(data, pos, 1), cs.map_values(|c: FChunkInfo| c.hash))
        &&& elems_are::<FSHAHash>(data, chunk_col(data, pos, 2), chunk_shas(cs))
        &&& elems_are::<u8>(data, chunk_col(data, pos, 3), cs.map_values(|c: FChunkInfo| c.group_number))
        &&& elems_are::<u32>(data, chunk_col(data, pos, 4), cs.map_values(|c: FChunkInfo| c.window_size))
        &&& elems_are::<i64>(data, chunk_col(data, pos, 5), cs.map_values(|c: FChunkInfo| c.file_size))
    }

    fn new(reader: &mut ReaderCursor) -> (res: ParserResult<Self>) {
        let _data_size = u32::new(reader)?;
        let _data_version = u8::new(reader)?;
        let count = u32::new(reader)?;
        let guids: Vec<FGuid> = read_elems(reader, count)?;
        let hashes: Vec<u64> = read_elems(reader, count)?;
        let shas: Vec<FSHAHash> = read_elems(reader, count)?;
        let groups: Vec<u8> = read_elems(reader, count)?;
        let windows: Vec<u32> = read_elems(reader, count)?;
        let sizes: Vec<i64> = read_elems(reader, count)?;
        let mut chunks: Vec<FChunkInfo> = Vec::new();
        let mut k: usize = 0;
        while k < guids.len()
            invariant
                guids@.len() == count,
                hashes@.len() == count,
                shas@.len() == count,
                groups@.len() == count,
                windows@.len() == count,
                sizes@.len() == count,
                0 <= k <= count,
                chunks@.len() == k,
                forall|j: int|
                    0 <= j < k ==> #[trigger] chunks@[j] == (FChunkInfo {
                        guid: guids@[j],
                        hash: hashes@[j],
                        sha_hash: shas@[j].content,
                        group_number: groups@[j],
                        window_size: windows@[j],
                        file_size: sizes@[j],
                    }),
            decreases count - k,
        {
            chunks.push(
                FChunkInfo {
                    guid: guids[k],
                    hash: hashes[k],
                    sha_hash: shas[k].content,
                    group_number: groups[k],
                    window_size: windows[k],
                    file_size: sizes[k],
                },
            );
            k = k + 1;
        }
        let ghost cs = chunks@;
        assert(cs.map_values(|c: FChunkInfo| c.guid) =~= guids@);
        assert(cs.map_values(|c: FChunkInfo| c.hash) =~= hashes@);
        assert(chunk_shas(cs) =~= shas@);
        assert(cs.map_values(|c: FChunkInfo| c.group_number) =~= groups@);
        assert(cs.map_values(|c: FChunkInfo| c.window_size) =~= windows@);
        assert(cs.map_values(|c: FChunkInfo| c.file_size) =~= sizes@);
        Ok(FChunkDataList { chunks })
    }
}

/// A part of a chunk that a file is made of: the chunk, and where and how much
/// of it.
#[derive(Debug, Clone, Copy)]
pub struct FChunkPart {
    pub guid: FGuid,
    pub offset: u32,
    pub size: u32,
}

impl Newable for FChunkPart {
    /// A size word, then the id, the offset and the size.
    open spec fn spec_ok(data: Seq<u8>, pos: int) -> bool {
        avail(data, pos, 28)
    }

    open spec fn spec_end(data: Seq<u8>, pos: int) -> int {
        pos + 28
    }

    open spec fn spec_is(data: Seq<u8>, pos: int, v: Self) -> bool {
        &&& FGuid::spec_is(data, pos + 4, v.guid)
        &&& v.offset == le_u32(data, pos + 20)
        &&& v.size == le_u32(data, pos + 24)
    }

    fn new(reader: &mut ReaderCursor) -> (res: ParserResult<Self>) {
        let _data_size = u32::new(reader)?;
        let guid = FGuid::new(reader)?;
        let offset = u32::new(reader)?;
        let size = u32::new(reader)?;
        Ok(FChunkPart { guid, offset, size })
    }
}

/// A file of the build: its name, where it links to, its hash and flags, its
/// install tags, and the chunk parts it is made of. The file size is not part
/// of the stored list and stays 0.
#[derive(Debug)]
pub struct FFileManifest {
    pub filename: String,
    pub symlink_target: String,
    pub sha_hash: [u8; 20],
    pub meta_flags: u8,
    pub install_tags: Vec<String>,
    pub chunk_parts: Vec<FChunkPart>,
    pub file_size: u64,
}

/// Where the names of the file list at `p` end and the link targets start.
pub open spec fn file_q1(d: Seq<u8>, p: int) -> int {
    elems_end::<String>(d, p + 9, chunk_count(d, p))
}

/// Where the SHA hashes of the file list at `p` start.
pub open spec fn file_q2(d: Seq<u8>, p: int) -> int {
    elems_end::<String>(d, file_q1(d, p), chunk_count(d, p))
}

/// Where the flags of the file list at `p` start.
pub open spec fn file_q3(d: Seq<u8>, p: int) -> int {
    elems_end::<FSHAHash>(d, file_q2(d, p), chunk_count(d, p))
}

/// Where the install tags of the file list at `p` start.
pub open spec fn file_q4(d: Seq<u8>, p: int) -> int {
    elems_end::<u8>(d, file_q3(d, p), chunk_count(d, p))
}

/// Where the chunk parts of the file list at `p` start.
pub open spec fn file_q5(d: Seq<u8>, p: int) -> int {
    elems_end::<Vec<String>>(d, file_q4(d, p), chunk_count(d, p))
}

/// Where the file list at `p` ends.
pub open spec fn file_q6(d: Seq<u8>, p: int) -> int {
    elems_end::<Vec<FChunkPart>>(d, file_q5(d, p), chunk_count(d, p))
}

/// Puts the fields of each file, read one field at a time, together.
fn zip_files(
    names: Vec<String>,
    links: Vec<String>,
    shas: Vec<FSHAHash>,
    flags: Vec<u8>,
    tags: Vec<Vec<String>>,
    parts: Vec<Vec<FChunkPart>>,
) -> (r: Vec<FFileManifest>)
    requires
        links@.len() == names@.len(),
        shas@.len() == names@.len(),
        flags@.len() == names@.len(),
        tags@.len() == names@.len(),
        parts@.len() == names@.len(),
    ensures
        r@.len() == names@.len(),
        r@.map_values(|f: FFileManifest| f.filename) == names@,
        r@.map_values(|f: FFileManifest| f.symlink_target) == links@,
        r@.map_values(|f: FFileManifest| FSHAHash { content: f.sha_hash }) == shas@,
        r@.map_values(|f: FFileManifest| f.meta_flags) == flags@,
        r@.map_values(|f: FFileManifest| f.install_tags) == tags@,
        r@.map_values(|f: FFileManifest| f.chunk_parts) == parts@,
        forall|k: int| 0 <= k < r@.len() ==> #[trigger] r@[k].file_size == 0,
{
    let ghost names0 = names@;
    let ghost links0 = links@;
    let ghost tags0 = tags@;
    let ghost parts0 = parts@;
    let count = names.len();
    let mut names = names;
    let mut links = links;
    let mut tags = tags;
    let mut parts = parts;
    let mut files: Vec<FFileManifest> = Vec::new();
    let mut k: usize = 0;
    while k < count
        invariant
            names@.len() == count,
            links@.len() == count,
            shas@.len() == count,
            flags@.len() == count,
            tags@.len() == count,
            parts@.len() == count,
            names0.len() == count,
            links0.len() == count,
            tags0.len() == count,
            parts0.len() == count,
            0 <= k <= count,
            files@.len() == k,
            forall|j: int| k <= j < count ==> #[trigger] names@[j] == names0[j],
            forall|j: int| k <= j < count ==> #[trigger] links@[j] == links0[j],
            forall|j: int| k <= j < count ==> #[trigger] tags@[j] == tags0[j],
            forall|j: int| k <= j < count ==> #[trigger] parts@[j] == parts0[j],
            forall|j: int|
                0 <= j < k ==> #[trigger] files@[j] == (FFileManifest {
                    filename: names0[j],
                    symlink_target: links0[j],
                    sha_hash: shas@[j].content,
                    meta_flags: flags@[j],
                    install_tags: tags0[j],
                    chunk_parts: parts0[j],
                    file_size: 0,
                }),
        decreases count - k,
    {
        let mut filename = String::new();
        core::mem::swap(&mut names[k], &mut filename);
        let mut symlink_target = String::new();
        core::mem::swap(&mut links[k], &mut symlink_target);
        let mut install_tags: Vec<String> = Vec::new();
        core::mem::swap(&mut tags[k], &mut install_tags);
        let mut chunk_parts: Vec<FChunkPart> = Vec::new();
        core::mem::swap(&mut parts[k], &mut chunk_parts);
        files.push(
            FFileManifest {
                filename,
                symlink_target,
                sha_hash: shas[k].content,
                meta_flags: flags[k],
                install_tags,
                chunk_parts,
                file_size: 0,
            },
        );
        k = k + 1;
    }
    let ghost fs = files@;
    assert(fs.map_values(|f: FFileManifest| f.filename) =~= names0);
    assert(fs.map_values(|f: FFileManifest| f.symlink_target) =~= links0);
    assert(fs.map_values(|f: FFileManifest| FSHAHash { content: f.sha_hash }) =~= shas@);
    assert(fs.map_values(|f: FFileManifest| f.meta_flags) =~= flags@);
    assert(fs.map_values(|f: FFileManifest| f.install_tags) =~= tags0);
    assert(fs.map_values(|f: FFileManifest| f.chunk_parts) =~= parts0);
    files
}

/// The files of a build, read field by field.
#[derive(Debug)]
pub struct FFileManifestList {
    pub file_list: Vec<FFileManifest>,
}

impl Newable for FFileManifestList {
    /// A size, a version and a count, then each field of every file.
    open spec fn spec_ok(data: Seq<u8>, pos: int) -> bool {
        let n = chunk_count(data, pos);
        &&& avail(data, pos, 9)
        &&& elems_ok::<String>(data, pos + 9, n)
        &&& elems_ok::<String>(data, file_q1(data, pos), n)
        &&& elems_ok::<FSHAHash>(data, file_q2(data, pos), n)
        &&& elems_ok::<u8>(data, file_q3(data, pos), n)
        &&& elems_ok::<Vec<String>>(data, file_q4(data, pos), n)
        &&& elems_ok::<Vec<FChunkPart>>(data, file_q5(data, pos), n)
    }

    open spec fn spec_end(data: Seq<u8>, pos: int) -> int {
        file_q6(data, pos)
    }

    open spec fn spec_is(data: Seq<u8>, pos: int, v: Self) -> bool {
        let fs = v.file_list@;
        &&& fs.len() == chunk_count(data, pos)
        &&& elems_are::<String>(data, pos + 9, fs.map_values(|f: FFileManifest| f.filename))
        &&& elems_are::<String>(data, file_q1(data, pos), fs.map_values(|f: FFileManifest| f.symlink_target))
        &&& elems_are::<FSHAHash>(
            data,
            file_q2(data, pos),
            fs.map_values(|f: FFileManifest| FSHAHash { content: f.sha_hash }),
        )
        &&& elems_are::<u8>(data, file_q3(data, pos), fs.map_values(|f: FFileManifest| f.meta_flags))
        &&& elems_are::<Vec<String>>(data, file_q4(data, pos), fs.map_values(|f: FFileManifest| f.install_tags))
        &&& elems_are::<Vec<FChunkPart>>(data, file_q5(data, pos), fs.map_values(|f: FFileManifest| f.chunk_parts))
        &&& forall|k: int| 0 <= k < fs.len() ==> #[trigger] fs[k].file_size == 0
    }

    fn new(reader: &mut ReaderCursor) -> (res: ParserResult<Self>) {
        let _data_size = u32::new(reader)?;
        let _data_version = u8::new(reader)?;
        let count = u32::new(reader)?;
        let names: Vec<String> = read_elems(reader, count)?;
        let links: Vec<String> = read_elems(reader, count)?;
        let shas: Vec<FSHAHash> = read_elems(reader, count)?;
        let flags: Vec<u8> = read_elems(reader, count)?;
        let tags: Vec<Vec<String>> = read_elems(reader, count)?;
        let parts: Vec<Vec<FChunkPart>> = read_elems(reader, count)?;
        let files = zip_files(names, links, shas, flags, tags, parts);
        Ok(FFileManifestList { file_list: files })
    }
}

/// Where the chunk list of an inflated manifest body starts.
pub open spec fn body_chunks_pos(b: Seq<u8>) -> int {
    FManifestMeta::spec_end(b, 0)
}

/// Where the file list of an inflated manifest body starts.
pub open spec fn body_files_pos(b: Seq<u8>) -> int {
    FChunkDataList::spec_end(b, body_chunks_pos(b))
}

/// An inflated manifest body holds the meta data, the chunk list and the file
/// list, one after the other.
pub open spec fn body_ok(b: Seq<u8>) -> bool {
    &&& FManifestMeta::spec_ok(b, 0)
    &&& FChunkDataList::spec_ok(b, body_chunks_pos(b))
    &&& FFileManifestList::spec_ok(b, body_files_pos(b))
}

/// `m` holds what the inflated body `b` holds.
pub open spec fn body_is(b: Seq<u8>, m: Manifest) -> bool {
    &&& FManifestMeta::spec_is(b, 0, m.meta)
    &&& FChunkDataList::spec_is(b, body_chunks_pos(b), m.chunk_list)
    &&& FFileManifestList::spec_is(b, body_files_pos(b), m.file_list)
}

/// The compressed body of the manifest whose header is at `p`.
pub open spec fn compressed_body(d: Seq<u8>, p: int) -> Seq<u8> {
    bytes_at(d, p + 41, le_u32(d, p + 12) as nat)
}

/// The inflated body of the manifest whose header is at `p`, when the zlib
/// stream yields the size the header gives.
pub open spec fn inflated_body(d: Seq<u8>, p: int) -> Option<Seq<u8>> {
    zlib_read_exact(compressed_body(d, p), le_u32(d, p + 8) as nat)
}

/// A manifest read at `p` succeeds.
pub open spec fn manifest_ok(d: Seq<u8>, p: int) -> bool {
    &&& FManifestHeader::spec_ok(d, p)
    &&& avail(d, p + 41, le_u32(d, p + 12))
    &&& inflated_body(d, p) matches Some(b) && body_ok(b)
}

/// A build manifest: its header, meta data, chunks and files.
#[derive(Debug)]
pub struct Manifest {
    pub header: FManifestHeader,
    pub meta: FManifestMeta,
    pub chunk_list: FChunkDataList,
    pub file_list: FFileManifestList,
}

impl Manifest {
    /// The manifest with header `header`, from its inflated body `body`.
    pub fn from_parts(header: FManifestHeader, body: &[u8]) -> (r: ParserResult<Self>)
        ensures
            r is Ok <==> body_ok(body@),
            r matches Ok(m) ==> m.header == header && body_is(body@, m),
    {
        let mut cursor = ReaderCursor::new(body);
        let meta = FManifestMeta::new(&mut cursor)?;
        let chunk_list = FChunkDataList::new(&mut cursor)?;
        let file_list = FFileManifestList::new(&mut cursor)?;
        Ok(Manifest { header, meta, chunk_list, file_list })
    }

    /// Reads the header, inflates the body that follows it, and reads the body.
    fn new(reader: &mut ReaderCursor) -> (r: ParserResult<Self>)
        ensures
            r is Ok <==> manifest_ok(old(reader).spec_data(), old(reader).spec_pos()),
            r matches Ok(m) ==> FManifestHeader::spec_is(
                old(reader).spec_data(),
                old(reader).spec_pos(),
                m.header,
            ) && body_is(inflated_body(old(reader).spec_data(), old(reader).spec_pos()).unwrap(), m),
    {
        let ghost d = reader.spec_data();
        let ghost p = reader.spec_pos();
        let header = FManifestHeader::new(reader)?;
        let input = match reader.read_bytes(header.data_size_compressed as usize) {
            Some(b) => b,
            None => return Err(error_msg("File Error: failed to fill whole buffer")),
        };
        assert(input@ == compressed_body(d, p));
        let output = match zlib_inflate(input.as_slice(), header.data_size_uncompressed as usize) {
            Some(b) => b,
            None => return Err(error_msg("Could not inflate manifest")),
        };
        Self::from_parts(header, output.as_slice())
    }

    /// Reads a manifest from the start of `buffer`.
    pub fn from_buffer(buffer: &[u8]) -> (r: ParserResult<Self>)
        ensures
            r is Ok <==> manifest_ok(buffer@, 0),
            r matches Ok(m) ==> FManifestHeader::spec_is(buffer@, 0, m.header) && body_is(
                inflated_body(buffer@, 0).unwrap(),
                m,
            ),
    {
        let mut cursor = ReaderCursor::new(buffer);
        Self::new(&mut cursor)
    }

    pub fn get_chunks(&self) -> (r: &Vec<FChunkInfo>)
        ensures
            r@ == self.chunk_list.chunks@,
    {
        &self.chunk_list.chunks
    }

    pub fn get_files(&self) -> (r: &Vec<FFileManifest>)
        ensures
            r@ == self.file_list.file_list@,
    {
        &self.file_list.file_list
    }
}

} // verus!
