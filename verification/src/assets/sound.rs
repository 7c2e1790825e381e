//! Sound data: streamed audio chunks and per-format audio.
use vstd::prelude::*;
use crate::reader::{ReaderCursor, le_u32, avail};
use crate::assets::{
    Newable, ParserResult, error_msg, FByteBulkData, NameMap, read_fname, bulk_ok, bulk_end, bulk_header_at,
    bulk_bytes, opt_cursor_data, le_i32, FMappedName,
};

verus! {

/// A chunk of streamed audio: its bulk data, its data size and its audio size.
#[derive(Debug)]
pub struct FStreamedAudioChunk {
    pub data: FByteBulkData,
    pub data_size: i32,
    pub audio_size: i32,
}

impl FStreamedAudioChunk {
    /// Reads a cooked flag, the bulk data and the two sizes.
    pub fn new(reader: &mut ReaderCursor, ubulk: &mut Option<ReaderCursor>) -> (r: ParserResult<Self>)
        ensures
            final(reader).spec_data() == old(reader).spec_data(),
            opt_cursor_data(*final(ubulk)) == opt_cursor_data(*old(ubulk)),
            ({
                let d = old(reader).spec_data();
                let p = old(reader).spec_pos();
                let u = opt_cursor_data(*old(ubulk));
                let e = bulk_end(d, p + 4);
                &&& r is Ok <==> avail(d, p, 4) && bulk_ok(d, p + 4, u) && avail(d, e, 8)
                &&& r matches Ok(v) ==> v.data.header == bulk_header_at(d, p + 4) && bulk_bytes(
                    d,
                    p + 24,
                    v.data.header,
                    u,
                ) == Some(v.data.data@) && v.data_size == le_i32(d, e) && v.audio_size == le_i32(d, e + 4)
            }),
    {
        let _cooked = match reader.read_u32() {
            Some(v) => v,
            None => return Err(error_msg("File Error: failed to fill whole buffer")),
        };
        let data = FByteBulkData::new(reader, ubulk)?;
        let data_size = reader.read_i32();
        let audio_size = reader.read_i32();
        match (data_size, audio_size) {
            (Some(data_size), Some(audio_size)) => Ok(FStreamedAudioChunk { data, data_size, audio_size }),
            _ => Err(error_msg("File Error: failed to fill whole buffer")),
        }
    }

    pub fn get_audio_size(&self) -> (r: i32)
        ensures
            r == self.audio_size,
    {
        self.audio_size
    }

    pub fn get_audio_data(self) -> (r: Vec<u8>)
        ensures
            r@ == self.data.data@,
    {
        self.data.data
    }
}

/// The audio of one format: the format's name and its bulk data.
#[derive(Debug)]
pub struct FFormatContainer {
    pub name: String,
    pub data: FByteBulkData,
}

impl FFormatContainer {
    /// Reads the format's name, then its bulk data.
    pub fn new(reader: &mut ReaderCursor, name_map: &NameMap, ubulk: &mut Option<ReaderCursor>) -> (r: ParserResult<Self>)
        ensures
            final(reader).spec_data() == old(reader).spec_data(),
            opt_cursor_data(*final(ubulk)) == opt_cursor_data(*old(ubulk)),
            ({
                let d = old(reader).spec_data();
                let p = old(reader).spec_pos();
                let u = opt_cursor_data(*old(ubulk));
                let idx = (le_u32(d, p) as u32) & 0x3fff_ffff;
                &&& r is Ok <==> FMappedName::spec_ok(d, p) && idx < name_map.names@.len() && bulk_ok(d, p + 8, u)
                &&& r matches Ok(v) ==> v.name@ == name_map.names@[idx as int] && v.data.header == bulk_header_at(
                    d,
                    p + 8,
                ) && bulk_bytes(d, p + 28, v.data.header, u) == Some(v.data.data@)
            }),
    {
        let name = read_fname(reader, name_map)?;
        let data = FByteBulkData::new(reader, ubulk)?;
        Ok(FFormatContainer { name, data })
    }

    pub fn get_format(&self) -> (r: &str)
        ensures
            r@ == self.name@,
    {
        self.name.as_str()
    }

    pub fn get_data(self) -> (r: Vec<u8>)
        ensures
            r@ == self.data.data@,
    {
        self.data.data
    }
}

} // verus!
