use john_wick_parse::assets::Newable;
use john_wick_parse::dispatch::{
    chunk_type_from_code, find_file, EIoChunkType, FIoChunkId, FIoDirectoryIndexEntry, FIoDirectoryIndexResource,
    FIoFileIndexEntry, FIoStoreTocCompressedBlockEntry, FNameMap, ReadAction, SeekPos, UcasState, MAX_INT,
};
use john_wick_parse::reader::ReaderCursor;

#[test]
fn chunk_type_codes() {
    assert_eq!(chunk_type_from_code(0), Some(EIoChunkType::Invalid));
    assert_eq!(chunk_type_from_code(3), Some(EIoChunkType::BulkData));
    assert_eq!(chunk_type_from_code(10), Some(EIoChunkType::ContainerHeader));
    assert_eq!(chunk_type_from_code(11), None);
}

#[test]
fn chunk_id_is_read() {
    let mut d = Vec::new();
    d.extend_from_slice(&0x1122334455667788u64.to_le_bytes());
    d.extend_from_slice(&[5, 0, 0, 8]);
    let mut r = ReaderCursor::new(&d);
    let id = FIoChunkId::new(&mut r).unwrap();
    assert_eq!(id.id, 0x1122334455667788);
    assert_eq!(id.index, 5);
    assert_eq!(id.chunk_type, EIoChunkType::LoaderGlobalNames);
}

#[test]
fn chunk_id_with_unknown_type_fails() {
    let mut d = vec![0u8; 11];
    d.push(42);
    let mut r = ReaderCursor::new(&d);
    let e = FIoChunkId::new(&mut r).unwrap_err();
    assert_eq!(e.get_properties(), &vec!["Unknown Chunk ID".to_string()]);
}

#[test]
fn name_map_gives_back_its_strings() {
    let map = FNameMap::from_strings(vec!["None".to_string(), "Texture2D".to_string()]);
    assert_eq!(map.get_name(1).unwrap(), "Texture2D");
    assert_eq!(map.get_name(0).unwrap(), "None");
    assert!(map.get_name(2).is_err());
}

#[test]
fn find_file_gives_the_first_match() {
    let list = vec!["a".to_string(), "b".to_string(), "b".to_string()];
    assert_eq!(find_file(&list, "b"), Some(1));
    assert_eq!(find_file(&list, "c"), None);
}

fn blocks(sizes: &[u32]) -> Vec<FIoStoreTocCompressedBlockEntry> {
    sizes
        .iter()
        .map(|s| FIoStoreTocCompressedBlockEntry { offset: 0, size: *s, compressed_size: *s, compression_method: 0 })
        .collect()
}

#[test]
fn ucas_state_starts_at_zero() {
    let st = UcasState::new(&blocks(&[32, 32, 10]), 32).unwrap();
    assert_eq!(st.total_size, 74);
    assert_eq!(st.current_chunk, 0);
    assert_eq!(st.block_count, 3);
}

#[test]
fn ucas_state_with_too_large_blocks_is_none() {
    let mut bs = Vec::new();
    for _ in 0..5 {
        bs.push(FIoStoreTocCompressedBlockEntry {
            offset: 0,
            size: u32::MAX,
            compressed_size: 0,
            compression_method: 0,
        });
    }
    // Five blocks of 4 GiB still fit in 64 bits.
    assert!(UcasState::new(&bs, 32).is_some());
}

#[test]
fn seek_lands_on_block_and_offset() {
    let mut st = UcasState::new(&blocks(&[32, 32, 10]), 32).unwrap();
    let k = st.seek(SeekPos::Start(70));
    assert_eq!(k, 2);
    assert_eq!(st.current_offset, 6);
    assert_eq!(st.current_chunk as u64 * st.block_size + st.current_offset as u64, st.current_total_offset);
    let k = st.seek(SeekPos::Current(-40));
    assert_eq!(k, 0);
    assert_eq!(st.current_offset, 30);
    let k = st.seek(SeekPos::End(-1));
    assert_eq!(k, 2);
    assert_eq!(st.current_total_offset, 73);
}

#[test]
fn reads_copy_then_move_on() {
    let mut st = UcasState::new(&blocks(&[4, 4]), 4).unwrap();
    assert_eq!(st.begin_read(4), ReadAction::Copy);
    assert_eq!(st.take(4, 10), (0, 4));
    assert_eq!(st.current_total_offset, 4);
    assert_eq!(st.begin_read(4), ReadAction::Load(1));
    assert_eq!(st.take(4, 3), (0, 3));
    assert_eq!(st.take(4, 3), (3, 1));
    assert_eq!(st.begin_read(4), ReadAction::Eof);
}

#[test]
fn directory_index_names_chunks() {
    let index = FIoDirectoryIndexResource {
        mount_point: "../../../".to_string(),
        directories: vec![
            FIoDirectoryIndexEntry { name: MAX_INT, first_child: 1, next_sibling: MAX_INT, first_file: 2 },
            FIoDirectoryIndexEntry { name: 0, first_child: MAX_INT, next_sibling: MAX_INT, first_file: 0 },
        ],
        files: vec![
            FIoFileIndexEntry { name: 1, next_file_entry: 1, user_data: 2 },
            FIoFileIndexEntry { name: 2, next_file_entry: MAX_INT, user_data: 0 },
            FIoFileIndexEntry { name: 3, next_file_entry: MAX_INT, user_data: 1 },
        ],
        string_table: vec!["Game".to_string(), "a.uasset".to_string(), "b.uexp".to_string(), "top.txt".to_string()],
    };
    let files = index.get_files(4).unwrap();
    assert_eq!(files, vec![
        "Game/b.uexp".to_string(),
        "top.txt".to_string(),
        "Game/a.uasset".to_string(),
        "".to_string(),
    ]);
}

#[test]
fn directory_index_with_chunk_past_the_end_fails() {
    let index = FIoDirectoryIndexResource {
        mount_point: String::new(),
        directories: vec![FIoDirectoryIndexEntry {
            name: MAX_INT,
            first_child: MAX_INT,
            next_sibling: MAX_INT,
            first_file: 0,
        }],
        files: vec![FIoFileIndexEntry { name: 0, next_file_entry: MAX_INT, user_data: 9 }],
        string_table: vec!["x".to_string()],
    };
    assert!(index.get_files(4).is_none());
}

#[test]
fn empty_directory_index_has_no_files() {
    assert!(FIoDirectoryIndexResource::empty().get_files(0).is_none());
}

#[test]
fn missing_name_gives_its_index() {
    let map = FNameMap::from_strings(vec!["None".to_string()]);
    let e = map.get_name(42).unwrap_err();
    assert_eq!(e.get_properties(), &vec!["Name not found at: 42".to_string()]);
}
