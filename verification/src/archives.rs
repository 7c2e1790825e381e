//! The `.pak` archive format: its footer, its file index, and the decoding of
//! the files it holds.
use vstd::prelude::*;
use vstd::string::StringSliceAdditionalSpecFns;
use crate::reader::{ReaderCursor, le_u32, le_u64, signed, avail, bytes_at, lemma_pow2_values, pow2_int};
use crate::assets::{
    FGuid, Newable, ParserError, ParserResult, error_msg, read_string, spec_string, read_tarray,
    read_elems, tarray_ok, tarray_end, tarray_is, elems_ok, elems_end, elems_are,
};

verus! {

pub const PAK_MAGIC: u32 = 0x5A6F12E1;

/// Size of the footer at the end of a `.pak` file.
pub const PAK_SIZE: u32 = 221;

// ---------------------------------------------------------------------------
// Outside computations
/// AES-256 decryption of one 16-byte block under a 32-byte key.
pub uninterp spec fn aes256_decrypt_block(key: Seq<u8>, block: Seq<u8>) -> Seq<u8>;

/// ECB decryption: each 16-byte block is decrypted on its own.
pub open spec fn ecb_decrypt(key: Seq<u8>, data: Seq<u8>) -> Seq<u8> {
    Seq::new(
        data.len(),
        |i: int| aes256_decrypt_block(key, data.subrange(i / 16 * 16, i / 16 * 16 + 16))[i % 16],
    )
}

/// Decrypts `buf` in place with `block_modes::Ecb<aes_soft::Aes256, ZeroPadding>`.
/// `new_var` accepts exactly 32-byte keys and `decrypt` exactly lengths that are
/// multiples of 16; the whole buffer is decrypted block by block (the unpadded
/// slice that `decrypt` returns is not used). An empty buffer is left out: the
/// zero padding's `unpad` panics on it. What each block decrypts to is named,
/// not stated.
#[verifier::external_body]
pub(crate) fn aes256_ecb_decrypt(key: &[u8], buf: &mut Vec<u8>)
    requires
        key@.len() == 32,
        old(buf)@.len() % 16 == 0,
        old(buf)@.len() > 0,
    ensures
        final(buf)@.len() == old(buf)@.len(),
        forall|i: int|
            0 <= i < old(buf)@.len() ==> #[trigger] final(buf)@[i] == aes256_decrypt_block(
                key@,
                old(buf)@.subrange(i / 16 * 16, i / 16 * 16 + 16),
            )[i % 16],
{
    let cipher = <block_modes::Ecb<aes_soft::Aes256, block_modes::block_padding::ZeroPadding> as block_modes::BlockMode<_, _>>::new_var(key, Default::default()).unwrap();
    block_modes::BlockMode::decrypt(cipher, buf.as_mut_slice()).unwrap();
}

/// AES-256 in ECB mode works block by block: decrypting two block-aligned
/// pieces one after the other gives the decryption of the whole.
pub proof fn lemma_ecb_decrypt_concat(key: Seq<u8>, a: Seq<u8>, b: Seq<u8>)
    requires
        a.len() % 16 == 0,
        b.len() % 16 == 0,
    ensures
        ecb_decrypt(key, a + b) == ecb_decrypt(key, a) + ecb_decrypt(key, b),
{
    let whole = ecb_decrypt(key, a + b);
    let parts = ecb_decrypt(key, a) + ecb_decrypt(key, b);
    let q: int = (a.len() / 16) as int;
    assert(16 * q == a.len());
    assert forall|i: int| 0 <= i < whole.len() implies whole[i] == parts[i] by {
        let lo = i / 16 * 16;
        if i < a.len() {
            crate::rijndael::lemma_shift_blocks(0, i, a.len() as int);
            assert((a + b).subrange(lo, lo + 16) =~= a.subrange(lo, lo + 16));
        } else {
            let j: int = i - a.len();
            crate::rijndael::lemma_shift_blocks(q, j, b.len() as int);
            assert(lo == a.len() + j / 16 * 16);
            assert((a + b).subrange(lo, lo + 16) =~= b.subrange(j / 16 * 16, j / 16 * 16 + 16));
        }
    }
    assert(whole =~= parts);
}

/// Decrypts `buf` in place with AES-256 in ECB mode; an empty buffer stays empty.
pub fn ecb_decrypt_in_place(key: &[u8], buf: &mut Vec<u8>)
    requires
        key@.len() == 32,
        old(buf)@.len() % 16 == 0,
    ensures
        final(buf)@ == ecb_decrypt(key@, old(buf)@),
{
    if buf.len() == 0 {
        assert(buf@ =~= ecb_decrypt(key@, old(buf)@));
        return;
    }
    aes256_ecb_decrypt(key, buf);
    assert(buf@ =~= ecb_decrypt(key@, old(buf)@));
}

/// The first `n` bytes of the zlib stream `input`, when it yields that many.
pub uninterp spec fn zlib_read_exact(input: Seq<u8>, n: nat) -> Option<Seq<u8>>;

/// Inflates `input` with `flate2::read::ZlibDecoder` and `read_exact` into a
/// buffer of `n` bytes; `None` where `read_exact` fails. What the stream holds is
/// named, not stated; a result always has `n` bytes.
#[verifier::external_body]
pub(crate) fn zlib_inflate(input: &[u8], n: usize) -> (r: Option<Vec<u8>>)
    ensures
        r is Some <==> zlib_read_exact(input@, n as nat) is Some,
        r matches Some(v) ==> Some(v@) == zlib_read_exact(input@, n as nat) && v@.len() == n,
{
    let mut data = vec![0u8; n];
    let mut z = flate2::read::ZlibDecoder::new(input);
    match std::io::Read::read_exact(&mut z, &mut data) {
        Ok(()) => Some(data),
        Err(_) => None,
    }
}

/// The value of a hexadecimal digit, as `hex` accepts them.
pub open spec fn hex_digit(c: u8) -> Option<u8> {
    if 0x30 <= c && c <= 0x39 {
        Some((c - 0x30) as u8)
    } else if 0x41 <= c && c <= 0x46 {
        Some((c - 0x41 + 10) as u8)
    } else if 0x61 <= c && c <= 0x66 {
        Some((c - 0x61 + 10) as u8)
    } else {
        None
    }
}

pub open spec fn hex_valid(s: Seq<u8>) -> bool {
    s.len() % 2 == 0 && forall|i: int| 0 <= i < s.len() ==> (#[trigger] hex_digit(s[i])) is Some
}

/// The bytes that a valid hexadecimal string encodes, two digits per byte.
pub open spec fn hex_bytes(s: Seq<u8>) -> Seq<u8> {
    Seq::new(
        s.len() / 2,
        |i: int| (hex_digit(s[2 * i]).unwrap() * 16 + hex_digit(s[2 * i + 1]).unwrap()) as u8,
    )
}

/// Calls `hex::decode`: it fails on odd lengths and on non-hex characters, and
/// otherwise turns each pair of digits into a byte.
#[verifier::external_body]
pub(crate) fn hex_decode(key: &str) -> (r: Option<Vec<u8>>)
    ensures
        r is Some <==> hex_valid(key.spec_bytes()),
        r matches Some(v) ==> v@ == hex_bytes(key.spec_bytes()),
{
    hex::decode(key).ok()
}

/// Calls `str::eq`.
#[verifier::external_body]
pub(crate) fn str_eq(a: &str, b: &str) -> (r: bool)
    ensures
        r == (a@ == b@),
{
    a == b
}

/// Calls `String + &str`, which appends the characters of the second string.
#[verifier::external_body]
pub(crate) fn string_concat(a: String, b: &str) -> (r: String)
    ensures
        r@ == a@ + b@,
{
    a + b
}

// ---------------------------------------------------------------------------
// The footer
/// Number of leading bytes of `b` that are not zero.
pub open spec fn nonzero_prefix(b: Seq<u8>) -> nat
    decreases b.len(),
{
    if b.len() == 0 || b[0] == 0 {
        0
    } else {
        1 + nonzero_prefix(b.drop_first())
    }
}

proof fn lemma_nonzero_prefix(b: Seq<u8>, k: int)
    requires
        0 <= k <= b.len(),
        forall|j: int| 0 <= j < k ==> b[j] != 0,
        k == b.len() || b[k] == 0,
    ensures
        nonzero_prefix(b) == k,
    decreases b.len(),
{
    if b.len() > 0 && b[0] != 0 {
        lemma_nonzero_prefix(b.drop_first(), k - 1);
    }
}

/// A 32-byte, zero-terminated compression method name at `q`.
pub open spec fn method_name_ok(d: Seq<u8>, q: int) -> bool {
    vstd::utf8::valid_utf8(bytes_at(d, q, 32).take(nonzero_prefix(bytes_at(d, q, 32)) as int))
}

pub open spec fn method_name(d: Seq<u8>, q: int) -> Seq<char> {
    vstd::utf8::decode_utf8(bytes_at(d, q, 32).take(nonzero_prefix(bytes_at(d, q, 32)) as int))
}

fn read_method_name(reader: &mut ReaderCursor) -> (r: ParserResult<String>)
    ensures
        final(reader).spec_data() == old(reader).spec_data(),
        r is Ok <==> avail(old(reader).spec_data(), old(reader).spec_pos(), 32) && method_name_ok(
            old(reader).spec_data(),
            old(reader).spec_pos(),
        ),
        r matches Ok(s) ==> s@ == method_name(old(reader).spec_data(), old(reader).spec_pos())
            && final(reader).spec_pos() == old(reader).spec_pos() + 32,
{
    let ghost d = reader.spec_data();
    let ghost p = reader.spec_pos();
    let bytes = match reader.read_bytes(32) {
        Some(b) => b,
        None => return Err(error_msg("File Error: failed to fill whole buffer")),
    };
    let mut length: usize = 32;
    let mut i: usize = 0;
    while i < 32
        invariant_except_break
            0 <= i <= 32,
            length == 32,
            bytes@.len() == 32,
            forall|j: int| 0 <= j < i ==> bytes@[j] != 0,
        ensures
            0 <= length <= 32,
            bytes@.len() == 32,
            forall|j: int| 0 <= j < length ==> bytes@[j] != 0,
            length == 32 || bytes@[length as int] == 0,
        decreases 32 - i,
    {
        if bytes[i] == 0 {
            length = i;
            break;
        }
        i = i + 1;
    }
    proof {
        lemma_nonzero_prefix(bytes@, length as int);
    }
    let mut name_bytes: Vec<u8> = Vec::new();
    let mut k: usize = 0;
    while k < length
        invariant
            0 <= k <= length <= 32,
            bytes@.len() == 32,
            name_bytes@ == bytes@.take(k as int),
        decreases length - k,
    {
        name_bytes.push(bytes[k]);
        k = k + 1;
        assert(name_bytes@ =~= bytes@.take(k as int));
    }
    match crate::assets::utf8_to_string(name_bytes.as_slice()) {
        Some(s) => Ok(s),
        None => Err(error_msg("UTF8 Error")),
    }
}

/// The footer of a `.pak` file.
#[derive(Debug)]
pub struct FPakInfo {
    pub encryption_key_guid: FGuid,
    pub encrypted_index: bool,
    pub version: u32,
    pub index_offset: u64,
    pub index_size: u64,
    pub index_hash: [u8; 20],
    pub compression_methods: Vec<String>,
}

/// The footer at `p` can be read: the bytes are there and the five method names are UTF-8.
pub open spec fn pak_info_ok(d: Seq<u8>, p: int) -> bool {
    avail(d, p, PAK_SIZE as int) && forall|i: int|
        0 <= i < 5 ==> #[trigger] method_name_ok(d, p + 61 + 32 * i)
}

impl FPakInfo {
    /// The footer read at `p`: a guid, the index encryption flag, the magic, the
    /// version, the index's offset and size, its hash, and five method names.
    pub open spec fn is_read_from(&self, d: Seq<u8>, p: int) -> bool {
        &&& FGuid::spec_is(d, p, self.encryption_key_guid)
        &&& self.encrypted_index == (d[p + 16] != 0)
        &&& self.version == le_u32(d, p + 21)
        &&& self.index_offset == le_u64(d, p + 25)
        &&& self.index_size == le_u64(d, p + 33)
        &&& self.index_hash@ == bytes_at(d, p + 41, 20)
        &&& self.compression_methods@.len() == 5
        &&& forall|i: int|
            0 <= i < 5 ==> #[trigger] self.compression_methods@[i]@ == method_name(d, p + 61 + 32 * i)
    }

    pub open spec fn spec_index_offset(&self) -> u64 {
        self.index_offset
    }

    pub open spec fn spec_index_size(&self) -> u64 {
        self.index_size
    }

    pub open spec fn spec_encrypted_index(&self) -> bool {
        self.encrypted_index
    }

    pub open spec fn spec_compression_methods(&self) -> Seq<Seq<char>> {
        self.compression_methods@.map_values(|s: String| s@)
    }

    pub open spec fn spec_key_guid(&self) -> FGuid {
        self.encryption_key_guid
    }

    pub fn get_key_guid(&self) -> (r: &FGuid)
        ensures
            *r == self.spec_key_guid(),
    {
        &self.encryption_key_guid
    }

    pub fn get_index_sizes(&self) -> (r: (u64, u64))
        ensures
            r == (self.spec_index_offset(), self.spec_index_size()),
    {
        (self.index_offset, self.index_size)
    }

    pub fn is_index_encrypted(&self) -> (r: bool)
        ensures
            r == self.spec_encrypted_index(),
    {
        self.encrypted_index
    }

    pub fn get_compression_methods(&self) -> (r: &Vec<String>)
        ensures
            r@.map_values(|s: String| s@) == self.spec_compression_methods(),
    {
        &self.compression_methods
    }

    /// Reads the footer. A footer whose magic is wrong is not accepted.
    pub fn new(reader: &mut ReaderCursor) -> (res: ParserResult<Self>)
        requires
            avail(old(reader).spec_data(), old(reader).spec_pos(), 21) ==> le_u32(
                old(reader).spec_data(),
                old(reader).spec_pos() + 17,
            ) == PAK_MAGIC,
        ensures
            final(reader).spec_data() == old(reader).spec_data(),
            res is Ok <==> pak_info_ok(old(reader).spec_data(), old(reader).spec_pos()),
            res matches Ok(v) ==> v.is_read_from(old(reader).spec_data(), old(reader).spec_pos())
                && final(reader).spec_pos() == old(reader).spec_pos() + PAK_SIZE,
    {
        let ghost d = reader.spec_data();
        let ghost p = reader.spec_pos();
        proof {
            reader.lemma_pos_bound();
        }
        let eod = "File Error: failed to fill whole buffer";
        let encryption_key_guid = FGuid::new(reader)?;
        let encrypted_index = match reader.read_u8() {
            Some(v) => v != 0,
            None => return Err(error_msg(eod)),
        };
        let _magic = match reader.read_u32() {
            Some(v) => v,
            None => return Err(error_msg(eod)),
        };
        let version = match reader.read_u32() {
            Some(v) => v,
            None => return Err(error_msg(eod)),
        };
        let index_offset = match reader.read_u64() {
            Some(v) => v,
            None => return Err(error_msg(eod)),
        };
        let index_size = match reader.read_u64() {
            Some(v) => v,
            None => return Err(error_msg(eod)),
        };
        let index_hash = match reader.read_array20() {
            Some(v) => v,
            None => return Err(error_msg(eod)),
        };
        assert(reader.spec_pos() == p + 61);
        let mut compression_methods: Vec<String> = Vec::new();
        let mut i: usize = 0;
        while i < 5
            invariant
                reader.spec_data() == d,
                d == old(reader).spec_data(),
                p == old(reader).spec_pos(),
                0 <= i <= 5,
                reader.spec_pos() == p + 61 + 32 * i,
                avail(d, p, 61 + 32 * i),
                compression_methods@.len() == i,
                forall|j: int| 0 <= j < i ==> #[trigger] method_name_ok(d, p + 61 + 32 * j),
                forall|j: int|
                    0 <= j < i ==> #[trigger] compression_methods@[j]@ == method_name(
                        d,
                        p + 61 + 32 * j,
                    ),
            decreases 5 - i,
        {
            let name = read_method_name(reader);
            match name {
                Ok(fstr) => {
                    compression_methods.push(fstr);
                },
                Err(e) => {
                    assert(!pak_info_ok(d, p) || method_name_ok(d, p + 61 + 32 * i));
                    return Err(e);
                },
            }
            i = i + 1;
        }
        Ok(Self {
            encryption_key_guid,
            encrypted_index,
            version,
            index_offset,
            index_size,
            index_hash,
            compression_methods,
        })
    }
}


/// Reads a 64-bit value as two's complement.
pub fn u64_as_i64(v: u64) -> (r: i64)
    ensures
        r == signed(v as int, 64),
{
    proof {
        lemma_pow2_values();
    }
    if v < 0x8000_0000_0000_0000 {
        v as i64
    } else {
        (v as i128 - 0x1_0000_0000_0000_0000) as i64
    }
}

// ---------------------------------------------------------------------------
// File entries
/// A compressed block of a file, as offsets from the start of the entry's record.
#[derive(Debug, Clone, Copy, PartialEq, Eq, Structural)]
pub struct FPakCompressedBlock {
    pub compressed_start: i64,
    pub compressed_end: i64,
}

impl Newable for FPakCompressedBlock {
    open spec fn spec_ok(data: Seq<u8>, pos: int) -> bool {
        avail(data, pos, 16)
    }

    open spec fn spec_end(data: Seq<u8>, pos: int) -> int {
        pos + 16
    }

    open spec fn spec_is(data: Seq<u8>, pos: int, v: Self) -> bool {
        v.compressed_start == signed(le_u64(data, pos), 64) && v.compressed_end == signed(
            le_u64(data, pos + 8),
            64,
        )
    }

    fn new(reader: &mut ReaderCursor) -> (res: ParserResult<Self>) {
        let s = reader.read_i64();
        let e = reader.read_i64();
        match (s, e) {
            (Some(compressed_start), Some(compressed_end)) => Ok(
                Self { compressed_start, compressed_end },
            ),
            _ => Err(error_msg("File Error: failed to fill whole buffer")),
        }
    }
}

/// Contains the details of a file residing in a `.pak` file.
#[derive(Debug, Clone)]
pub struct FPakEntry {
    pub filename: String,
    pub position: i64,
    pub size: u64,
    pub uncompressed_size: u64,
    pub compression_method: u32,
    pub compression_blocks: Vec<FPakCompressedBlock>,
    pub hash: [u8; 20],
    pub encrypted: bool,
    pub compression_block_size: u32,
    pub struct_size: u64,
}

/// Where the fixed part of a full entry record ends and its tail begins.
pub open spec fn entry_tail(d: Seq<u8>, p: int) -> int {
    if le_u32(d, p + 24) != 0 {
        tarray_end::<FPakCompressedBlock>(d, p + 48)
    } else {
        p + 48
    }
}

/// A full entry record can be read at `p`.
pub open spec fn entry_ok(d: Seq<u8>, p: int) -> bool {
    &&& avail(d, p, 48)
    &&& le_u32(d, p + 24) != 0 ==> tarray_ok::<FPakCompressedBlock>(d, p + 48)
    &&& avail(d, entry_tail(d, p), 5)
}

proof fn lemma_block_elems_end(d: Seq<u8>, q: int, n: nat)
    ensures
        elems_end::<FPakCompressedBlock>(d, q, n) == q + 16 * n,
    decreases n,
{
    if n > 0 {
        lemma_block_elems_end(d, q, (n - 1) as nat);
    }
}

// Fields of an encoded entry, whose first 32-bit word is a set of flags.
pub open spec fn enc_method(f: u32) -> u32 {
    (f >> 23u32) & 0x3f
}

pub open spec fn enc_count(f: u32) -> u32 {
    (f >> 6u32) & 0xffff
}

pub open spec fn enc_pos_len(f: u32) -> int {
    if f & 0x8000_0000 != 0 {
        4
    } else {
        8
    }
}

pub open spec fn enc_usize_len(f: u32) -> int {
    if f & 0x4000_0000 != 0 {
        4
    } else {
        8
    }
}

pub open spec fn enc_size_len(f: u32) -> int {
    if enc_method(f) == 0 {
        0
    } else if f & 0x2000_0000 != 0 {
        4
    } else {
        8
    }
}

/// Value of the 4- or 8-byte unsigned field at `q`.
pub open spec fn enc_field(d: Seq<u8>, q: int, len: int) -> int {
    if len == 4 {
        le_u32(d, q)
    } else {
        le_u64(d, q)
    }
}

/// Sum of the `k` 32-bit block sizes stored from `q`.
pub open spec fn block_sum(d: Seq<u8>, q: int, k: nat) -> int
    decreases k,
{
    if k == 0 {
        0
    } else {
        block_sum(d, q, (k - 1) as nat) + le_u32(d, q + 4 * (k - 1))
    }
}

proof fn lemma_block_sum_bound(d: Seq<u8>, q: int, k: nat)
    requires
        forall|i: int| 0 <= i < d.len() ==> d[i] <= 255,
    ensures
        0 <= block_sum(d, q, k) <= k * 4294967295,
    decreases k,
{
    if k > 0 {
        lemma_block_sum_bound(d, q, (k - 1) as nat);
        assert(0 <= le_u32(d, q + 4 * (k - 1)) <= 4294967295) by {
            let a = q + 4 * (k - 1);
            assert(0 <= d[a] <= 255 || !(0 <= a < d.len()));
        }
    }
}

/// The encoded entry stored at `loc` of the encoded index.
pub struct EncodedLayout {
    pub flags: u32,
    pub q1: int,
    pub q2: int,
    pub q3: int,
    pub q4: int,
}

pub open spec fn enc_layout(d: Seq<u8>, loc: int) -> EncodedLayout {
    let f = le_u32(d, loc) as u32;
    let q1 = loc + 4;
    let q2 = q1 + enc_pos_len(f);
    let q3 = q2 + enc_usize_len(f);
    let q4 = q3 + enc_size_len(f);
    EncodedLayout { flags: f, q1, q2, q3, q4 }
}

/// An encoded entry can be read at `loc`.
pub open spec fn encoded_ok(d: Seq<u8>, loc: int) -> bool {
    let l = enc_layout(d, loc);
    &&& avail(d, loc, 4)
    &&& avail(d, l.q1, enc_pos_len(l.flags))
    &&& avail(d, l.q2, enc_usize_len(l.flags))
    &&& avail(d, l.q3, enc_size_len(l.flags))
    &&& avail(d, l.q4, if enc_count(l.flags) == 1 { 0 } else { 4 * enc_count(l.flags) })
}

pub open spec fn enc_uncompressed(d: Seq<u8>, loc: int) -> int {
    let l = enc_layout(d, loc);
    enc_field(d, l.q2, enc_usize_len(l.flags))
}

pub open spec fn enc_size(d: Seq<u8>, loc: int) -> int {
    let l = enc_layout(d, loc);
    if enc_method(l.flags) != 0 {
        enc_field(d, l.q3, enc_size_len(l.flags))
    } else {
        enc_uncompressed(d, loc)
    }
}

pub open spec fn enc_struct_size(f: u32) -> int {
    53 + if enc_method(f) != 0 {
        4 + 16 * enc_count(f)
    } else {
        0
    }
}

/// `x` reduced to 64 bits and read as two's complement.
pub open spec fn wrap_i64(x: int) -> int {
    signed(x % pow2_int(64), 64)
}

impl FPakEntry {
    /// The entry read at `p` as a full record, named `filename`.
    pub open spec fn is_read_from(&self, d: Seq<u8>, p: int, filename: Seq<char>) -> bool {
        &&& self.filename@ == filename
        &&& self.position == signed(le_u64(d, p), 64)
        &&& self.size == le_u64(d, p + 8)
        &&& self.uncompressed_size == le_u64(d, p + 16)
        &&& self.compression_method == le_u32(d, p + 24)
        &&& self.hash@ == bytes_at(d, p + 28, 20)
        &&& (if self.compression_method != 0 {
            tarray_is::<FPakCompressedBlock>(d, p + 48, self.compression_blocks@)
        } else {
            self.compression_blocks@.len() == 0
        })
        &&& self.encrypted == (d[entry_tail(d, p)] != 0)
        &&& self.compression_block_size == le_u32(d, entry_tail(d, p) + 1)
        &&& self.struct_size == entry_tail(d, p) + 5 - p
    }

    /// The entry encoded at `loc` of the encoded index, named `dir` + `key`.
    pub open spec fn is_decoded_from(
        &self,
        d: Seq<u8>,
        loc: int,
        dir: Seq<char>,
        key: Seq<char>,
    ) -> bool {
        let l = enc_layout(d, loc);
        let f = l.flags;
        let count = enc_count(f);
        let unc = enc_uncompressed(d, loc);
        let ss = enc_struct_size(f);
        &&& self.filename@ == dir + key
        &&& self.position == (if f & 0x8000_0000 != 0 {
            le_u32(d, l.q1)
        } else {
            signed(le_u64(d, l.q1), 64)
        })
        &&& self.uncompressed_size == unc
        &&& self.size == enc_size(d, loc)
        &&& self.compression_method == enc_method(f)
        &&& self.encrypted == (f & 0x40_0000 != 0)
        &&& self.compression_block_size == (if count > 0 {
            if unc < 65536 {
                unc
            } else {
                (f & 0x3f) * 2048
            }
        } else {
            0
        })
        &&& self.struct_size == ss
        &&& self.hash@ == Seq::new(20, |i: int| 0u8)
        &&& (if count == 1 {
            self.compression_blocks@ == seq![
                FPakCompressedBlock {
                    compressed_start: ss as i64,
                    compressed_end: wrap_i64(ss + enc_size(d, loc)) as i64,
                },
            ]
        } else {
            self.compression_blocks@.len() == count && forall|k: int|
                0 <= k < count ==> #[trigger] self.compression_blocks@[k] == (FPakCompressedBlock {
                    compressed_start: (ss + block_sum(d, l.q4, k as nat)) as i64,
                    compressed_end: (ss + block_sum(d, l.q4, (k + 1) as nat)) as i64,
                })
        })
    }

    pub open spec fn spec_encrypted(&self) -> bool {
        self.encrypted
    }

    pub open spec fn spec_size(&self) -> u64 {
        self.size
    }

    pub open spec fn spec_struct_size(&self) -> u64 {
        self.struct_size
    }

    pub open spec fn spec_filename(&self) -> Seq<char> {
        self.filename@
    }

    pub open spec fn spec_uncompressed_size(&self) -> u64 {
        self.uncompressed_size
    }

    pub open spec fn spec_compression_method(&self) -> u32 {
        self.compression_method
    }

    pub open spec fn spec_blocks(&self) -> Seq<FPakCompressedBlock> {
        self.compression_blocks@
    }

    pub open spec fn spec_block_size(&self) -> u32 {
        self.compression_block_size
    }

    /// Reads a full entry record and names it `filename`.
    pub fn new(reader: &mut ReaderCursor, filename: String) -> (res: ParserResult<Self>)
        ensures
            final(reader).spec_data() == old(reader).spec_data(),
            res is Ok <==> entry_ok(old(reader).spec_data(), old(reader).spec_pos()),
            res matches Ok(v) ==> v.is_read_from(
                old(reader).spec_data(),
                old(reader).spec_pos(),
                filename@,
            ) && final(reader).spec_pos() == entry_tail(
                old(reader).spec_data(),
                old(reader).spec_pos(),
            ) + 5,
    {
        let ghost d = reader.spec_data();
        let ghost p = reader.spec_pos();
        proof {
            reader.lemma_pos_bound();
        }
        let eod = "File Error: failed to fill whole buffer";
        let seek_point = reader.position();
        let position = match reader.read_i64() {
            Some(v) => v,
            None => return Err(error_msg(eod)),
        };
        let size = match reader.read_u64() {
            Some(v) => v,
            None => return Err(error_msg(eod)),
        };
        let uncompressed_size = match reader.read_u64() {
            Some(v) => v,
            None => return Err(error_msg(eod)),
        };
        let compression_method = match reader.read_u32() {
            Some(v) => v,
            None => return Err(error_msg(eod)),
        };
        let hash = match reader.read_array20() {
            Some(v) => v,
            None => return Err(error_msg(eod)),
        };
        let mut compression_blocks: Vec<FPakCompressedBlock> = Vec::new();
        if compression_method != 0 {
            compression_blocks = read_tarray(reader)?;
            proof {
                lemma_block_elems_end(d, p + 52, le_u32(d, p + 48) as nat);
            }
        }
        proof {
            reader.lemma_pos_bound();
        }
        let encrypted = match reader.read_u8() {
            Some(v) => v != 0,
            None => return Err(error_msg(eod)),
        };
        let compression_block_size = match reader.read_u32() {
            Some(v) => v,
            None => return Err(error_msg(eod)),
        };
        proof {
            reader.lemma_pos_bound();
        }
        let struct_size = reader.position() - seek_point;
        Ok(
            Self {
                filename,
                position,
                size,
                uncompressed_size,
                compression_method,
                compression_blocks,
                hash,
                encrypted,
                compression_block_size,
                struct_size,
            },
        )
    }

    /// Gets the internal filename for the file this represents.
    pub fn get_filename(&self) -> (r: &str)
        ensures
            r@ == self.spec_filename(),
    {
        self.filename.as_str()
    }

    /// An entry decoded from the encoded index is named by its directory
    /// followed by the index entry's key.
    pub proof fn lemma_decoded_filename(&self, d: Seq<u8>, loc: int, dir: Seq<char>, key: Seq<char>)
        requires
            self.is_decoded_from(d, loc, dir, key),
        ensures
            self.spec_filename() == dir + key,
    {
    }

    /// Decodes the entry that an index entry points to in the encoded index.
    pub fn from_encoded(
        reader: &mut ReaderCursor,
        dir_name: &str,
        index_data: &FPathHashIndexEntry,
    ) -> (res: ParserResult<Self>)
        ensures
            final(reader).spec_data() == old(reader).spec_data(),
            res is Ok <==> encoded_ok(old(reader).spec_data(), index_data.location as int),
            res matches Ok(v) ==> v.is_decoded_from(
                old(reader).spec_data(),
                index_data.location as int,
                dir_name@,
                index_data.key@,
            ),
    {
        let ghost d = reader.spec_data();
        let ghost loc = index_data.location as int;
        let ghost l = enc_layout(d, loc);
        proof {
            lemma_pow2_values();
        }
        let eod = "File Error: failed to fill whole buffer";
        reader.seek(index_data.location as u64);
        let flags = match reader.read_u32() {
            Some(v) => v,
            None => return Err(error_msg(eod)),
        };
        assert(flags == l.flags);
        let offset_safe = (flags & 0x8000_0000) != 0;
        let position: i64 = if offset_safe {
            match reader.read_u32() {
                Some(v) => v as i64,
                None => return Err(error_msg(eod)),
            }
        } else {
            match reader.read_i64() {
                Some(v) => v,
                None => return Err(error_msg(eod)),
            }
        };
        let uncompressed_size_safe = (flags & 0x4000_0000) != 0;
        let uncompressed_size: u64 = if uncompressed_size_safe {
            match reader.read_u32() {
                Some(v) => v as u64,
                None => return Err(error_msg(eod)),
            }
        } else {
            match reader.read_u64() {
                Some(v) => v,
                None => return Err(error_msg(eod)),
            }
        };
        let mut size = uncompressed_size;
        let compression_method = (flags >> 23u32) & 0x3f;
        if compression_method != 0 {
            let size_safe = (flags & 0x2000_0000) != 0;
            size =
            if size_safe {
                match reader.read_u32() {
                    Some(v) => v as u64,
                    None => return Err(error_msg(eod)),
                }
            } else {
                match reader.read_u64() {
                    Some(v) => v,
                    None => return Err(error_msg(eod)),
                }
            };
        }
        assert(reader.spec_pos() == l.q4);
        let encrypted = (flags & 0x40_0000) != 0;
        let compression_block_count = (flags >> 6u32) & 0xffff;
        assert(compression_block_count <= 0xffff) by (bit_vector)
            requires
                compression_block_count == (flags >> 6u32) & 0xffff,
        ;
        let mut compression_block_size: u32 = 0;
        if compression_block_count > 0 {
            compression_block_size =
            if uncompressed_size < 65536 {
                uncompressed_size as u32
            } else {
                assert((flags & 0x3f) <= 0x3f) by (bit_vector);
                (flags & 0x3f) * 2048
            };
        }
        let mut struct_size: u64 = 8 + 8 + 8 + 20 + 4 + 4 + 1;
        if compression_method != 0 {
            struct_size = struct_size + 4 + (compression_block_count as u64) * 16;
        }
        assert(compression_method == enc_method(flags));
        assert(compression_block_count == enc_count(flags));
        assert(struct_size == enc_struct_size(flags));
        let mut compression_blocks: Vec<FPakCompressedBlock> = Vec::new();
        let mut compressed_block_offset: i64 = struct_size as i64;
        if compression_block_count == 1 {
            let total: u128 = struct_size as u128 + size as u128;
            let wrapped: u64 = if total >= 0x1_0000_0000_0000_0000 {
                (total - 0x1_0000_0000_0000_0000) as u64
            } else {
                total as u64
            };
            assert(wrapped == (struct_size + size) % pow2_int(64));
            compression_blocks.push(
                FPakCompressedBlock {
                    compressed_start: struct_size as i64,
                    compressed_end: u64_as_i64(wrapped),
                },
            );
        } else {
            let mut i: u32 = 0;
            while i < compression_block_count
                invariant
                    reader.spec_data() == d,
                    d == old(reader).spec_data(),
                    l == enc_layout(d, loc),
                    flags == l.flags,
                    compression_block_count == enc_count(flags),
                    compression_block_count <= 0xffff,
                    compression_block_count != 1,
                    loc == index_data.location,
                    struct_size == enc_struct_size(flags),
                    struct_size <= 53 + 4 + 16 * 0xffff,
                    0 <= i <= compression_block_count,
                    reader.spec_pos() == l.q4 + 4 * i,
                    i > 0 ==> avail(d, l.q4, 4 * i),
                    compressed_block_offset == struct_size + block_sum(d, l.q4, i as nat),
                    0 <= block_sum(d, l.q4, i as nat) <= i * 4294967295,
                    compression_blocks@.len() == i,
                    forall|k: int|
                        0 <= k < i ==> #[trigger] compression_blocks@[k] == (FPakCompressedBlock {
                            compressed_start: (struct_size + block_sum(d, l.q4, k as nat)) as i64,
                            compressed_end: (struct_size + block_sum(d, l.q4, (k + 1) as nat)) as i64,
                        }),
                decreases compression_block_count - i,
            {
                let size_data = match reader.read_u32() {
                    Some(v) => v as i64,
                    None => return Err(error_msg(eod)),
                };
                assert(size_data == le_u32(d, l.q4 + 4 * i));
                compression_blocks.push(
                    FPakCompressedBlock {
                        compressed_start: compressed_block_offset,
                        compressed_end: compressed_block_offset + size_data,
                    },
                );
                compressed_block_offset = compressed_block_offset + size_data;
                i = i + 1;
            }
        }
        let filename = string_concat(dir_name.to_owned(), index_data.key.as_str());
        let hash = [0u8; 20];
        assert(hash@ =~= Seq::new(20, |i: int| 0u8));
        Ok(
            Self {
                filename,
                position,
                size,
                uncompressed_size,
                compression_method,
                encrypted,
                compression_blocks,
                hash,
                compression_block_size,
                struct_size,
            },
        )
    }
}

/// An entry of the path hash index: a file name and where its encoded entry lies.
#[derive(Debug, Clone)]
pub struct FPathHashIndexEntry {
    pub key: String,
    pub location: u32,
}

impl Newable for FPathHashIndexEntry {
    open spec fn spec_ok(data: Seq<u8>, pos: int) -> bool {
        spec_string(data, pos) is Some && avail(data, spec_string(data, pos).unwrap().1, 4)
    }

    open spec fn spec_end(data: Seq<u8>, pos: int) -> int {
        spec_string(data, pos).unwrap().1 + 4
    }

    open spec fn spec_is(data: Seq<u8>, pos: int, v: Self) -> bool {
        v.key@ == spec_string(data, pos).unwrap().0 && v.location == le_u32(
            data,
            spec_string(data, pos).unwrap().1,
        )
    }

    fn new(reader: &mut ReaderCursor) -> (res: ParserResult<Self>) {
        let key = read_string(reader)?;
        match reader.read_u32() {
            Some(location) => Ok(Self { key, location }),
            None => Err(error_msg("File Error: failed to fill whole buffer")),
        }
    }
}

/// A directory of the directory index, with its files.
#[derive(Debug, Clone)]
pub struct FPakDirectoryEntry {
    pub key: String,
    pub value: Vec<FPathHashIndexEntry>,
}

impl Newable for FPakDirectoryEntry {
    open spec fn spec_ok(data: Seq<u8>, pos: int) -> bool {
        spec_string(data, pos) is Some && tarray_ok::<FPathHashIndexEntry>(
            data,
            spec_string(data, pos).unwrap().1,
        )
    }

    open spec fn spec_end(data: Seq<u8>, pos: int) -> int {
        tarray_end::<FPathHashIndexEntry>(data, spec_string(data, pos).unwrap().1)
    }

    open spec fn spec_is(data: Seq<u8>, pos: int, v: Self) -> bool {
        v.key@ == spec_string(data, pos).unwrap().0 && tarray_is::<FPathHashIndexEntry>(
            data,
            spec_string(data, pos).unwrap().1,
            v.value@,
        )
    }

    fn new(reader: &mut ReaderCursor) -> (res: ParserResult<Self>) {
        let key = read_string(reader)?;
        let value = read_tarray(reader)?;
        Ok(Self { key, value })
    }
}


// ---------------------------------------------------------------------------
// The index
/// `n` full entry records, named "test", read back to back from `p`.
pub open spec fn pak_entries_ok(d: Seq<u8>, p: int, n: nat) -> bool
    decreases n,
{
    n == 0 || (pak_entries_ok(d, p, (n - 1) as nat) && entry_ok(
        d,
        pak_entries_end(d, p, (n - 1) as nat),
    ))
}

pub open spec fn pak_entries_end(d: Seq<u8>, p: int, n: nat) -> int
    decreases n,
{
    if n == 0 {
        p
    } else {
        entry_tail(d, pak_entries_end(d, p, (n - 1) as nat)) + 5
    }
}

pub open spec fn pak_entries_are(d: Seq<u8>, p: int, vs: Seq<FPakEntry>) -> bool
    decreases vs.len(),
{
    vs.len() == 0 || (pak_entries_are(d, p, vs.drop_last()) && vs.last().is_read_from(
        d,
        pak_entries_end(d, p, (vs.len() - 1) as nat),
        "test"@,
    ))
}

proof fn lemma_pak_entries_prefix(d: Seq<u8>, p: int, k: nat, n: nat)
    requires
        k <= n,
        pak_entries_ok(d, p, n),
    ensures
        pak_entries_ok(d, p, k),
    decreases n - k,
{
    if k < n {
        lemma_pak_entries_prefix(d, p, k, (n - 1) as nat);
    }
}

/// The index of a `.pak` file.
pub struct FPakIndex {
    pub mount_point: String,
    pub file_count: u32,
    pub index_entries: Vec<FPakEntry>,
    pub encoded_pak: Vec<u8>,
    pub path_index: (i64, i64),
    pub dir_index: (i64, i64),
}

/// Positions within an index record read at `p`: after the mount point, after
/// the path index part, after the directory index part, and after the encoded entries.
pub open spec fn index_r1(d: Seq<u8>, p: int) -> int {
    spec_string(d, p).unwrap().1
}

pub open spec fn index_r2(d: Seq<u8>, p: int) -> int {
    index_r1(d, p) + 52
}

pub open spec fn index_r3(d: Seq<u8>, p: int) -> int {
    index_r2(d, p) + 40
}

pub open spec fn index_r4(d: Seq<u8>, p: int) -> int {
    tarray_end::<u8>(d, index_r3(d, p))
}

/// An index record can be read at `p`: the mount point is a string of at most
/// 1024 bytes, both the path index and the directory index are present, and
/// the encoded entries and the full entries follow.
pub open spec fn index_ok(d: Seq<u8>, p: int) -> bool {
    &&& spec_string(d, p) is Some
    &&& vstd::utf8::encode_utf8(spec_string(d, p).unwrap().0).len() as usize <= 1024
    &&& avail(d, index_r1(d, p), 52)
    &&& le_u32(d, index_r1(d, p) + 12) != 0
    &&& avail(d, index_r2(d, p), 40)
    &&& le_u32(d, index_r2(d, p)) != 0
    &&& tarray_ok::<u8>(d, index_r3(d, p))
    &&& avail(d, index_r4(d, p), 4)
    &&& pak_entries_ok(d, index_r4(d, p) + 4, le_u32(d, index_r4(d, p)) as nat)
}

/// The files of the directory index: directory name, file name, location.
pub open spec fn dir_files(dirs: Seq<FPakDirectoryEntry>) -> Seq<(Seq<char>, Seq<char>, u32)>
    decreases dirs.len(),
{
    if dirs.len() == 0 {
        Seq::empty()
    } else {
        dir_files(dirs.drop_last()) + dirs.last().value@.map_values(
            |e: FPathHashIndexEntry| (dirs.last().key@, e.key@, e.location),
        )
    }
}

/// Every file of the directory index decodes from the encoded entries.
pub open spec fn dir_files_ok(enc: Seq<u8>, files: Seq<(Seq<char>, Seq<char>, u32)>) -> bool {
    forall|k: int| 0 <= k < files.len() ==> #[trigger] encoded_ok(enc, files[k].2 as int)
}

/// `entries` are the files of the directory index, decoded in order.
pub open spec fn entries_decoded(
    enc: Seq<u8>,
    files: Seq<(Seq<char>, Seq<char>, u32)>,
    entries: Seq<FPakEntry>,
) -> bool {
    entries.len() == files.len() && forall|k: int|
        0 <= k < files.len() ==> #[trigger] entries[k].is_decoded_from(
            enc,
            files[k].2 as int,
            files[k].0,
            files[k].1,
        )
}

/// The files of the directory index read at `p`: they depend only on the bytes.
pub proof fn lemma_dir_files_unique(
    d: Seq<u8>,
    p: int,
    a: Seq<FPakDirectoryEntry>,
    b: Seq<FPakDirectoryEntry>,
)
    requires
        tarray_is::<FPakDirectoryEntry>(d, p, a),
        tarray_is::<FPakDirectoryEntry>(d, p, b),
    ensures
        dir_files(a) == dir_files(b),
{
    lemma_dirs_views(d, p + 4, a, b);
}

proof fn lemma_file_views(
    d: Seq<u8>,
    p: int,
    a: Seq<FPathHashIndexEntry>,
    b: Seq<FPathHashIndexEntry>,
    dir: Seq<char>,
)
    requires
        a.len() == b.len(),
        elems_are::<FPathHashIndexEntry>(d, p, a),
        elems_are::<FPathHashIndexEntry>(d, p, b),
    ensures
        a.map_values(|e: FPathHashIndexEntry| (dir, e.key@, e.location)) == b.map_values(
            |e: FPathHashIndexEntry| (dir, e.key@, e.location),
        ),
    decreases a.len(),
{
    if a.len() > 0 {
        lemma_file_views(d, p, a.drop_last(), b.drop_last(), dir);
        assert(a.map_values(|e: FPathHashIndexEntry| (dir, e.key@, e.location)) =~= a.drop_last().map_values(
            |e: FPathHashIndexEntry| (dir, e.key@, e.location),
        ).push((dir, a.last().key@, a.last().location)));
        assert(b.map_values(|e: FPathHashIndexEntry| (dir, e.key@, e.location)) =~= b.drop_last().map_values(
            |e: FPathHashIndexEntry| (dir, e.key@, e.location),
        ).push((dir, b.last().key@, b.last().location)));
    } else {
        assert(a.map_values(|e: FPathHashIndexEntry| (dir, e.key@, e.location)) =~= b.map_values(
            |e: FPathHashIndexEntry| (dir, e.key@, e.location),
        ));
    }
}

proof fn lemma_dirs_views(d: Seq<u8>, p: int, a: Seq<FPakDirectoryEntry>, b: Seq<FPakDirectoryEntry>)
    requires
        a.len() == b.len(),
        elems_are::<FPakDirectoryEntry>(d, p, a),
        elems_are::<FPakDirectoryEntry>(d, p, b),
    ensures
        dir_files(a) == dir_files(b),
    decreases a.len(),
{
    if a.len() > 0 {
        lemma_dirs_views(d, p, a.drop_last(), b.drop_last());
        let q = elems_end::<FPakDirectoryEntry>(d, p, (a.len() - 1) as nat);
        let r = spec_string(d, q).unwrap().1;
        lemma_file_views(d, r + 4, a.last().value@, b.last().value@, a.last().key@);
    }
}

impl FPakIndex {
    pub open spec fn is_read_from(&self, d: Seq<u8>, p: int) -> bool {
        let r1 = index_r1(d, p);
        let r2 = index_r2(d, p);
        let r3 = index_r3(d, p);
        let r4 = index_r4(d, p);
        &&& self.mount_point@ == spec_string(d, p).unwrap().0
        &&& self.file_count == le_u32(d, r1)
        &&& self.path_index == (signed(le_u64(d, r1 + 16), 64) as i64, signed(le_u64(d, r1 + 24), 64) as i64)
        &&& self.dir_index == (signed(le_u64(d, r2 + 4), 64) as i64, signed(le_u64(d, r2 + 12), 64) as i64)
        &&& tarray_is::<u8>(d, r3, self.encoded_pak@)
        &&& self.index_entries@.len() == le_u32(d, r4)
        &&& pak_entries_are(d, r4 + 4, self.index_entries@)
    }

    /// The path index and the directory index of an index record are each
    /// (offset, size): the offset is the first 64-bit word after the part's
    /// presence flag and the size the second, both signed. The path index
    /// part starts 12 bytes after the file count, and the directory index
    /// part 52 bytes after it.
    pub proof fn lemma_index_parts(&self, d: Seq<u8>, p: int)
        requires
            self.is_read_from(d, p),
        ensures
            self.spec_path_index().0 == signed(le_u64(d, index_r1(d, p) + 16), 64) as i64,
            self.spec_path_index().1 == signed(le_u64(d, index_r1(d, p) + 24), 64) as i64,
            self.spec_dir_index().0 == signed(le_u64(d, index_r1(d, p) + 56), 64) as i64,
            self.spec_dir_index().1 == signed(le_u64(d, index_r1(d, p) + 64), 64) as i64,
    {
    }

    pub open spec fn spec_mount_point(&self) -> Seq<char> {
        self.mount_point@
    }

    pub open spec fn spec_entries(&self) -> Seq<FPakEntry> {
        self.index_entries@
    }

    pub open spec fn spec_dir_index(&self) -> (i64, i64) {
        self.dir_index
    }

    pub open spec fn spec_path_index(&self) -> (i64, i64) {
        self.path_index
    }

    pub open spec fn spec_file_count(&self) -> u32 {
        self.file_count
    }

    pub open spec fn spec_encoded(&self) -> Seq<u8> {
        self.encoded_pak@
    }

    /// Reads an index record.
    #[verifier::loop_isolation(false)]
    pub fn new(reader: &mut ReaderCursor) -> (res: ParserResult<Self>)
        ensures
            final(reader).spec_data() == old(reader).spec_data(),
            res is Ok <==> index_ok(old(reader).spec_data(), old(reader).spec_pos()),
            res matches Ok(v) ==> v.is_read_from(old(reader).spec_data(), old(reader).spec_pos()),
            ({
                let d = old(reader).spec_data();
                let p = old(reader).spec_pos();
                let long_mount = spec_string(d, p) is Some && vstd::utf8::encode_utf8(spec_string(d, p).unwrap().0).len()
                    as usize > 1024;
                let fits = spec_string(d, p) is Some && !long_mount;
                &&& long_mount ==> (res matches Err(e) && e.messages() == seq!["Could not read Pak Archive"@])
                &&& fits && avail(d, index_r1(d, p), 16) && le_u32(d, index_r1(d, p) + 12) == 0 ==> (res matches Err(e)
                    && e.messages() == seq!["No path index present"@])
                &&& fits && avail(d, index_r1(d, p), 52) && le_u32(d, index_r1(d, p) + 12) != 0 && avail(
                    d,
                    index_r2(d, p),
                    4,
                ) && le_u32(d, index_r2(d, p)) == 0 ==> (res matches Err(e) && e.messages()
                    == seq!["No directory index present"@])
            }),
    {
        let ghost d = reader.spec_data();
        let ghost p = reader.spec_pos();
        let eod = "File Error: failed to fill whole buffer";
        let mount_point = read_string(reader)?;
        if mount_point.as_str().len() > 1024 {
            return Err(error_msg("Could not read Pak Archive"));
        }
        let file_count = match reader.read_u32() {
            Some(v) => v,
            None => return Err(error_msg(eod)),
        };
        let _hash_seed = match reader.read_u64() {
            Some(v) => v,
            None => return Err(error_msg(eod)),
        };
        let has_path_index = match reader.read_i32() {
            Some(v) => v != 0,
            None => return Err(error_msg(eod)),
        };
        proof {
            lemma_pow2_values();
        }
        if !has_path_index {
            return Err(error_msg("No path index present"));
        }
        let path_index_offset = match reader.read_i64() {
            Some(v) => v,
            None => return Err(error_msg(eod)),
        };
        let path_index_size = match reader.read_i64() {
            Some(v) => v,
            None => return Err(error_msg(eod)),
        };
        let _path_hash = match reader.read_array20() {
            Some(v) => v,
            None => return Err(error_msg(eod)),
        };
        let path_index = (path_index_offset, path_index_size);
        let has_dir_index = match reader.read_i32() {
            Some(v) => v != 0,
            None => return Err(error_msg(eod)),
        };
        if !has_dir_index {
            return Err(error_msg("No directory index present"));
        }
        let dir_index_offset = match reader.read_i64() {
            Some(v) => v,
            None => return Err(error_msg(eod)),
        };
        let dir_index_size = match reader.read_i64() {
            Some(v) => v,
            None => return Err(error_msg(eod)),
        };
        let _dir_hash = match reader.read_array20() {
            Some(v) => v,
            None => return Err(error_msg(eod)),
        };
        let dir_index = (dir_index_offset, dir_index_size);
        let encoded_pak: Vec<u8> = read_tarray(reader)?;
        let new_file_count = match reader.read_u32() {
            Some(v) => v,
            None => return Err(error_msg(eod)),
        };
        let ghost q = reader.spec_pos();
        let mut index_entries: Vec<FPakEntry> = Vec::new();
        let mut i: u32 = 0;
        while i < new_file_count
            invariant
                reader.spec_data() == d,
                0 <= i <= new_file_count,
                pak_entries_ok(d, q, i as nat),
                reader.spec_pos() == pak_entries_end(d, q, i as nat),
                index_entries@.len() == i,
                pak_entries_are(d, q, index_entries@),
            decreases new_file_count - i,
        {
            let ghost before = index_entries@;
            match FPakEntry::new(reader, "test".to_owned()) {
                Ok(e) => {
                    index_entries.push(e);
                    assert(index_entries@.drop_last() =~= before);
                    i = i + 1;
                },
                Err(e) => {
                    proof {
                        if pak_entries_ok(d, q, new_file_count as nat) {
                            lemma_pak_entries_prefix(d, q, (i + 1) as nat, new_file_count as nat);
                        }
                    }
                    return Err(e);
                },
            }
        }
        Ok(Self { mount_point, file_count, index_entries, encoded_pak, path_index, dir_index })
    }

    pub fn get_entries(&self) -> (r: &[FPakEntry])
        ensures
            r@ == self.spec_entries(),
    {
        self.index_entries.as_slice()
    }

    pub fn get_mount_point(&self) -> (r: &str)
        ensures
            r@ == self.spec_mount_point(),
    {
        self.mount_point.as_str()
    }

    pub fn get_dir_index(&self) -> (r: (i64, i64))
        ensures
            r == self.spec_dir_index(),
    {
        self.dir_index
    }

    /// Replaces the entries by those that the directory index read from `reader`
    /// lists, decoded from the encoded entries. On failure nothing changes.
    #[verifier::loop_isolation(false)]
    pub fn update_from_index(&mut self, reader: &mut ReaderCursor) -> (res: ParserResult<()>)
        ensures
            final(reader).spec_data() == old(reader).spec_data(),
            final(self).spec_mount_point() == old(self).spec_mount_point(),
            final(self).spec_encoded() == old(self).spec_encoded(),
            final(self).spec_dir_index() == old(self).spec_dir_index(),
            final(self).spec_path_index() == old(self).spec_path_index(),
            final(self).spec_file_count() == old(self).spec_file_count(),
            res is Ok <==> tarray_ok::<FPakDirectoryEntry>(
                old(reader).spec_data(),
                old(reader).spec_pos(),
            ) && (forall|dirs: Seq<FPakDirectoryEntry>|
                tarray_is::<FPakDirectoryEntry>(old(reader).spec_data(), old(reader).spec_pos(), dirs)
                    ==> dir_files_ok(old(self).spec_encoded(), #[trigger] dir_files(dirs))),
            res is Ok ==> forall|dirs: Seq<FPakDirectoryEntry>|
                tarray_is::<FPakDirectoryEntry>(old(reader).spec_data(), old(reader).spec_pos(), dirs)
                    ==> entries_decoded(
                    old(self).spec_encoded(),
                    #[trigger] dir_files(dirs),
                    final(self).spec_entries(),
                ),
            res is Err ==> final(self).spec_entries() == old(self).spec_entries(),
    {
        let directory_index: Vec<FPakDirectoryEntry> = read_tarray(reader)?;
        let ghost enc = self.encoded_pak@;
        let mut encoded_cursor = ReaderCursor::new(self.encoded_pak.as_slice());
        let mut pak_entries: Vec<FPakEntry> = Vec::new();
        let mut i: usize = 0;
        while i < directory_index.len()
            invariant
                encoded_cursor.spec_data() == enc,
                0 <= i <= directory_index@.len(),
                dir_files_ok(enc, dir_files(directory_index@.take(i as int))),
                entries_decoded(enc, dir_files(directory_index@.take(i as int)), pak_entries@),
            decreases directory_index@.len() - i,
        {
            let dir_entry = &directory_index[i];
            let ghost prefix = dir_files(directory_index@.take(i as int));
            let ghost mapped = dir_entry.value@.map_values(
                |e: FPathHashIndexEntry| (dir_entry.key@, e.key@, e.location),
            );
            assert(directory_index@.take(i + 1).drop_last() =~= directory_index@.take(i as int));
            assert(dir_files(directory_index@.take(i + 1)) =~= prefix + mapped);
            let mut j: usize = 0;
            while j < dir_entry.value.len()
                invariant
                    encoded_cursor.spec_data() == enc,
                    0 <= j <= dir_entry.value@.len(),
                    mapped.len() == dir_entry.value@.len(),
                    mapped == dir_entry.value@.map_values(
                        |e: FPathHashIndexEntry| (dir_entry.key@, e.key@, e.location),
                    ),
                    dir_files_ok(enc, prefix + mapped.take(j as int)),
                    entries_decoded(enc, prefix + mapped.take(j as int), pak_entries@),
                decreases dir_entry.value@.len() - j,
            {
                let pak_entry = &dir_entry.value[j];
                let ghost before = pak_entries@;
                match FPakEntry::from_encoded(&mut encoded_cursor, dir_entry.key.as_str(), pak_entry) {
                    Ok(e) => {
                        pak_entries.push(e);
                        assert((prefix + mapped.take(j + 1)) =~= (prefix + mapped.take(j as int)).push(
                            mapped[j as int],
                        ));
                        j = j + 1;
                    },
                    Err(err) => {
                        proof {
                            let full = dir_files(directory_index@);
                            assert(directory_index@.take(directory_index@.len() as int) =~= directory_index@);
                            lemma_dir_files_prefix(directory_index@, i + 1);
                            let m = prefix.len() + j;
                            assert(dir_files(directory_index@.take(i + 1)) == prefix + mapped);
                            assert((prefix + mapped)[m] == mapped[j as int]);
                            assert(m < dir_files(directory_index@.take(i + 1)).len());
                            assert(full[m] == dir_files(directory_index@.take(i + 1))[m]);
                            assert(full[m] == mapped[j as int]);
                            assert(mapped[j as int].2 == pak_entry.location);
                            assert(!encoded_ok(enc, full[m].2 as int));
                            assert(!dir_files_ok(enc, full));
                            assert forall|dirs: Seq<FPakDirectoryEntry>|
                                tarray_is::<FPakDirectoryEntry>(old(reader).spec_data(), old(reader).spec_pos(), dirs)
                                implies dir_files(dirs) == full by {
                                lemma_dir_files_unique(old(reader).spec_data(), old(reader).spec_pos(), dirs, directory_index@);
                            }
                        }
                        return Err(err);
                    },
                }
            }
            assert(mapped.take(j as int) =~= mapped);
            i = i + 1;
        }
        assert(directory_index@.take(i as int) =~= directory_index@);
        assert forall|dirs: Seq<FPakDirectoryEntry>|
            tarray_is::<FPakDirectoryEntry>(old(reader).spec_data(), old(reader).spec_pos(), dirs)
            implies dir_files(dirs) == dir_files(directory_index@) by {
            lemma_dir_files_unique(old(reader).spec_data(), old(reader).spec_pos(), dirs, directory_index@);
        }
        self.index_entries = pak_entries;
        Ok(())
    }
}

proof fn lemma_dir_files_prefix(dirs: Seq<FPakDirectoryEntry>, k: int)
    requires
        0 <= k <= dirs.len(),
    ensures
        dir_files(dirs).len() >= dir_files(dirs.take(k)).len(),
        forall|m: int|
            0 <= m < dir_files(dirs.take(k)).len() ==> #[trigger] dir_files(dirs)[m] == dir_files(
                dirs.take(k),
            )[m],
    decreases dirs.len() - k,
{
    if k < dirs.len() {
        lemma_dir_files_prefix(dirs, k + 1);
        assert(dirs.take(k + 1).drop_last() =~= dirs.take(k));
    } else {
        assert(dirs.take(k) =~= dirs);
    }
}


// ---------------------------------------------------------------------------
// Decoding what was read from a `.pak` file
/// Decrypts `data` with the key given as 64 hexadecimal digits.
pub fn decrypt_with_key(data: Vec<u8>, key: &str) -> (r: Vec<u8>)
    requires
        hex_valid(key.spec_bytes()),
        key.spec_bytes().len() == 64,
        data@.len() % 16 == 0,
    ensures
        r@ == ecb_decrypt(hex_bytes(key.spec_bytes()), data@),
{
    let key_bytes = hex_decode(key).unwrap();
    let mut data = data;
    ecb_decrypt_in_place(key_bytes.as_slice(), &mut data);
    data
}

/// The index as stored at its offset: decrypted with the key when the footer says
/// it is encrypted, and as it is otherwise.
pub fn decode_index(header: &FPakInfo, ciphertext: Vec<u8>, key: &str) -> (r: Vec<u8>)
    requires
        header.spec_encrypted_index() ==> hex_valid(key.spec_bytes()) && key.spec_bytes().len() == 64
            && ciphertext@.len() % 16 == 0,
    ensures
        r@ == (if header.spec_encrypted_index() {
            ecb_decrypt(hex_bytes(key.spec_bytes()), ciphertext@)
        } else {
            ciphertext@
        }),
{
    if !header.encrypted_index {
        return ciphertext;
    }
    decrypt_with_key(ciphertext, key)
}

/// `oodle` can give an output with the bytes `out` for an input with the bytes
/// `input` and the size `size`.
pub open spec fn oodle_gave_bytes<O: Fn(&[u8], u64) -> Vec<u8>>(oodle: &O, input: Seq<u8>, size: u64, out: Seq<u8>) -> bool {
    exists|i: &[u8], o: Vec<u8>| i@ == input && o@ == out && #[trigger] oodle.ensures((i, size), o)
}

/// What a block decompresses to: Oodle blocks are handed to `oodle`, which
/// yields `output_size` bytes; Zlib blocks are inflated to `output_size` bytes;
/// any other method yields nothing.
pub open spec fn block_output_ok<O: Fn(&[u8], u64) -> Vec<u8>>(
    oodle: &O,
    method: Seq<char>,
    input: Seq<u8>,
    output_size: u64,
    out: Seq<u8>,
) -> bool {
    if method == "Oodle"@ {
        out.len() == output_size && oodle_gave_bytes(oodle, input, output_size, out)
    } else if method == "Zlib"@ {
        Some(out) == zlib_read_exact(input, output_size as nat) && out.len() == output_size
    } else {
        out.len() == 0
    }
}

/// A block can be decompressed: only a Zlib stream can fail.
pub open spec fn block_decodable(method: Seq<char>, input: Seq<u8>, output_size: u64) -> bool {
    method == "Zlib"@ && method != "Oodle"@ ==> zlib_read_exact(input, output_size as nat) is Some
}

/// Decompresses one block of a file.
pub fn decompress_block<O: Fn(&[u8], u64) -> Vec<u8>>(
    input: &[u8],
    output_size: u64,
    compression_method: &str,
    oodle: &O,
) -> (r: ParserResult<Vec<u8>>)
    requires
        output_size <= usize::MAX,
        forall|i: &[u8], n: u64| #[trigger] oodle.requires((i, n)),
        forall|i: &[u8], n: u64, o: Vec<u8>| #[trigger] oodle.ensures((i, n), o) ==> o@.len() == n,
    ensures
        r is Ok <==> block_decodable(compression_method@, input@, output_size),
        r matches Ok(v) ==> block_output_ok(oodle, compression_method@, input@, output_size, v@),
        compression_method@ == "Oodle"@ ==> (r matches Ok(v) && oodle.ensures((input, output_size), v)),
{
    if str_eq(compression_method, "Oodle") {
        let out = oodle(input, output_size);
        assert(oodle_gave_bytes(oodle, input@, output_size, out@)) by {
            assert(oodle.ensures((input, output_size), out));
        }
        Ok(out)
    } else if str_eq(compression_method, "Zlib") {
        match zlib_inflate(input, output_size as usize) {
            Some(v) => Ok(v),
            None => Err(error_msg("Zlib Error")),
        }
    } else {
        Ok(Vec::new())
    }
}

/// Size of the encrypted span that holds `size` bytes: rounded up to 16.
pub open spec fn encrypted_span(size: u64) -> int {
    if size % 16 == 0 {
        size as int
    } else {
        (size / 16 + 1) * 16
    }
}

/// The span read for an encrypted file is its size rounded up to whole
/// 16-byte blocks.
pub proof fn lemma_encrypted_span(size: u64)
    ensures
        encrypted_span(size) % 16 == 0,
        size <= encrypted_span(size) < size + 16,
{
    let s = size as int;
    vstd::arithmetic::div_mod::lemma_fundamental_div_mod(s, 16);
}

/// The bytes of a file before decompression, from what was read at its data.
pub open spec fn file_plain(file: FPakEntry, raw: Seq<u8>, key: Seq<u8>) -> Seq<u8> {
    if file.encrypted {
        ecb_decrypt(key, raw).take(file.size as int)
    } else {
        raw
    }
}

/// Start and end, in the file's bytes, of its `k`-th block.
pub open spec fn block_lo(file: FPakEntry, k: int) -> int {
    file.spec_blocks()[k].compressed_start - file.struct_size
}

pub open spec fn block_hi(file: FPakEntry, k: int) -> int {
    file.spec_blocks()[k].compressed_end - file.struct_size
}

/// The input of the `k`-th block.
pub open spec fn block_input(file: FPakEntry, plain: Seq<u8>, k: int) -> Seq<u8> {
    plain.subrange(block_lo(file, k), block_hi(file, k))
}

/// How many bytes the first `k` blocks decompress to, and what the next one is asked for.
pub open spec fn produced(file: FPakEntry, method: Seq<char>, k: nat) -> int
    decreases k, 0nat,
{
    if k == 0 {
        0
    } else {
        produced(file, method, (k - 1) as nat) + if method == "Oodle"@ || method == "Zlib"@ {
            request(file, method, (k - 1) as nat)
        } else {
            0
        }
    }
}

pub open spec fn request(file: FPakEntry, method: Seq<char>, k: nat) -> int
    decreases k, 1nat,
{
    let left = file.spec_uncompressed_size() - produced(file, method, k);
    if file.spec_block_size() < left {
        file.spec_block_size() as int
    } else {
        left
    }
}

proof fn lemma_produced_bounds(file: FPakEntry, method: Seq<char>, k: nat)
    ensures
        0 <= produced(file, method, k) <= file.spec_uncompressed_size(),
        0 <= request(file, method, k) <= file.spec_block_size(),
    decreases k,
{
    if k > 0 {
        lemma_produced_bounds(file, method, (k - 1) as nat);
    }
}

/// `outs` are what the first `outs.len()` blocks of a file decompress to.
pub open spec fn blocks_output_ok<O: Fn(&[u8], u64) -> Vec<u8>>(
    oodle: &O,
    file: FPakEntry,
    plain: Seq<u8>,
    method: Seq<char>,
    outs: Seq<Seq<u8>>,
) -> bool {
    forall|k: int|
        0 <= k < outs.len() ==> #[trigger] block_output_ok(
            oodle,
            method,
            block_input(file, plain, k),
            request(file, method, k as nat) as u64,
            outs[k],
        )
}

pub open spec fn blocks_decodable(file: FPakEntry, plain: Seq<u8>, method: Seq<char>) -> bool {
    forall|k: int|
        0 <= k < file.spec_blocks().len() ==> #[trigger] block_decodable(
            method,
            block_input(file, plain, k),
            request(file, method, k as nat) as u64,
        )
}

/// Concatenation of the outputs of consecutive blocks.
pub open spec fn concat(outs: Seq<Seq<u8>>) -> Seq<u8>
    decreases outs.len(),
{
    if outs.len() == 0 {
        Seq::empty()
    } else {
        concat(outs.drop_last()) + outs.last()
    }
}

/// The contents of a file, from the bytes read at its data (`raw`: its size in
/// bytes, rounded up to 16 when it is encrypted), the key of the archive and the
/// archive's compression method names. The file is decrypted when it is
/// encrypted, and each of its blocks is decompressed when it is compressed.
pub fn decode_file_data<O: Fn(&[u8], u64) -> Vec<u8>>(
    file: &FPakEntry,
    raw: Vec<u8>,
    key: &[u8],
    compression_methods: &Vec<String>,
    oodle: &O,
) -> (r: ParserResult<Vec<u8>>)
    requires
        file.spec_encrypted() ==> key@.len() == 32 && raw@.len() == encrypted_span(file.spec_size()),
        !file.spec_encrypted() ==> raw@.len() == file.spec_size(),
        file.spec_struct_size() <= i64::MAX,
        file.spec_compression_method() != 0 ==> file.spec_compression_method() - 1
            < compression_methods@.len(),
        file.spec_compression_method() != 0 ==> forall|k: int|
            0 <= k < file.spec_blocks().len() ==> 0 <= #[trigger] block_lo(*file, k) <= block_hi(*file, k)
                <= file.spec_size(),
        forall|i: &[u8], n: u64| #[trigger] oodle.requires((i, n)),
        forall|i: &[u8], n: u64, o: Vec<u8>| #[trigger] oodle.ensures((i, n), o) ==> o@.len() == n,
    ensures
        file.spec_compression_method() == 0 ==> (r matches Ok(v) && v@ == file_plain(
            *file,
            raw@,
            key@,
        )),
        file.spec_compression_method() != 0 ==> {
            let method = compression_methods@[file.spec_compression_method() - 1]@;
            let plain = file_plain(*file, raw@, key@);
            &&& r is Ok <==> blocks_decodable(*file, plain, method)
            &&& r matches Ok(v) ==> exists|outs: Seq<Seq<u8>>|
                outs.len() == file.spec_blocks().len() && blocks_output_ok(oodle, *file, plain, method, outs)
                    && v@ == #[trigger] concat(outs)
        },
{
    let size = file.size;
    let mut buffer: Vec<u8>;
    if file.encrypted {
        let mut enc_buffer = raw;
        proof {
            assert(enc_buffer@.len() % 16 == 0);
        }
        ecb_decrypt_in_place(key, &mut enc_buffer);
        buffer = Vec::new();
        let enc_len = enc_buffer.len();
        assert(size <= enc_len);
        let size_us = size as usize;
        let mut i: usize = 0;
        while i < size_us
            invariant
                size == file.size,
                size_us == size,
                size <= enc_buffer@.len(),
                enc_buffer@ == ecb_decrypt(key@, raw@),
                0 <= i <= size,
                buffer@ == enc_buffer@.take(i as int),
            decreases size - i,
        {
            buffer.push(enc_buffer[i]);
            i = i + 1;
            assert(buffer@ =~= enc_buffer@.take(i as int));
        }
    } else {
        buffer = raw;
    }
    let ghost plain = buffer@;
    assert(plain == file_plain(*file, raw@, key@));
    if file.compression_method == 0 {
        return Ok(buffer);
    }
    let compression_method = compression_methods[(file.compression_method - 1) as usize].as_str();
    let ghost method = compression_method@;
    let mut decompressed_buffer: Vec<u8> = Vec::new();
    let ghost mut outs: Seq<Seq<u8>> = Seq::empty();
    let mut k: usize = 0;
    while k < file.compression_blocks.len()
        invariant
            plain == buffer@,
            plain == file_plain(*file, raw@, key@),
            file.spec_compression_method() - 1 < compression_methods@.len(),
            method == compression_methods@[file.spec_compression_method() - 1]@,
            plain.len() == file.size,
            file.compression_method != 0,
            method == compression_method@,
            file.struct_size <= i64::MAX,
            forall|j: int|
                0 <= j < file.spec_blocks().len() ==> 0 <= #[trigger] block_lo(*file, j) <= block_hi(*file, j)
                    <= file.size,
            forall|i: &[u8], n: u64| #[trigger] oodle.requires((i, n)),
            forall|i: &[u8], n: u64, o: Vec<u8>| #[trigger] oodle.ensures((i, n), o) ==> o@.len() == n,
            0 <= k <= file.spec_blocks().len(),
            outs.len() == k,
            blocks_output_ok(oodle, *file, plain, method, outs),
            decompressed_buffer@ == concat(outs),
            decompressed_buffer@.len() == produced(*file, method, k as nat),
            forall|j: int| 0 <= j < k ==> #[trigger] block_decodable(
                method,
                block_input(*file, plain, j),
                request(*file, method, j as nat) as u64,
            ),
        decreases file.spec_blocks().len() - k,
    {
        let block = &file.compression_blocks[k];
        proof {
            assert(block_lo(*file, k as int) >= 0);
            assert(*block == file.spec_blocks()[k as int]);
            assert(block_hi(*file, k as int) <= buffer@.len());
            lemma_produced_bounds(*file, method, k as nat);
        }
        let buf_len = buffer.len();
        let ss = file.struct_size as i64;
        assert(ss == file.struct_size);
        assert(block.compressed_start - ss == block_lo(*file, k as int));
        let lo = (block.compressed_start - ss) as usize;
        let hi = (block.compressed_end - ss) as usize;
        assert(lo as int == block_lo(*file, k as int));
        assert(hi as int == block_hi(*file, k as int));
        let block_buffer = slice_range(buffer.as_slice(), lo, hi);
        let left = file.uncompressed_size - decompressed_buffer.len() as u64;
        let result_size = if (file.compression_block_size as u64) < left {
            file.compression_block_size as u64
        } else {
            left
        };
        assert(block_buffer@ == block_input(*file, plain, k as int));
        assert(result_size == request(*file, method, k as nat));
        match decompress_block(block_buffer, result_size, compression_method, oodle) {
            Ok(decompressed_block) => {
                let ghost before = decompressed_buffer@;
                let mut m: usize = 0;
                while m < decompressed_block.len()
                    invariant
                        0 <= m <= decompressed_block@.len(),
                        decompressed_buffer@ == before + decompressed_block@.take(m as int),
                    decreases decompressed_block@.len() - m,
                {
                    decompressed_buffer.push(decompressed_block[m]);
                    m = m + 1;
                    assert(decompressed_buffer@ =~= before + decompressed_block@.take(m as int));
                }
                assert(decompressed_block@.take(m as int) =~= decompressed_block@);
                proof {
                    let new_outs = outs.push(decompressed_block@);
                    assert(new_outs.drop_last() =~= outs);
                    outs = new_outs;
                }
                k = k + 1;
            },
            Err(e) => {
                proof {
                    let kk: int = k as int;
                    assert(!block_decodable(
                        method,
                        block_input(*file, plain, kk),
                        request(*file, method, kk as nat) as u64,
                    ));
                }
                return Err(e);
            },
        }
    }
    Ok(decompressed_buffer)
}

/// What `decode_file_data` needs of the bytes read for a file: their length
/// (rounded up to whole blocks when the file is encrypted, with a 32-byte
/// key), a method name for the compression method, and blocks that lie in
/// the file's bytes.
pub open spec fn file_data_fits(file: FPakEntry, raw: Seq<u8>, key: Seq<u8>, methods: Seq<String>) -> bool {
    &&& file.spec_encrypted() ==> key.len() == 32 && raw.len() == encrypted_span(file.spec_size())
    &&& !file.spec_encrypted() ==> raw.len() == file.spec_size()
    &&& file.spec_struct_size() <= i64::MAX
    &&& file.spec_compression_method() != 0 ==> file.spec_compression_method() - 1 < methods.len()
    &&& file.spec_compression_method() != 0 ==> forall|k: int|
        0 <= k < file.spec_blocks().len() ==> 0 <= #[trigger] block_lo(file, k) <= block_hi(file, k)
            <= file.spec_size()
}

/// The contents of a file, as `decode_file_data` gives them, after checking
/// that the bytes read fit the entry; an error when they do not.
pub fn get_file_data<O: Fn(&[u8], u64) -> Vec<u8>>(
    file: &FPakEntry,
    raw: Vec<u8>,
    key: &[u8],
    compression_methods: &Vec<String>,
    oodle: &O,
) -> (r: ParserResult<Vec<u8>>)
    requires
        forall|i: &[u8], n: u64| #[trigger] oodle.requires((i, n)),
        forall|i: &[u8], n: u64, o: Vec<u8>| #[trigger] oodle.ensures((i, n), o) ==> o@.len() == n,
    ensures
        !file_data_fits(*file, raw@, key@, compression_methods@) ==> r is Err,
        file_data_fits(*file, raw@, key@, compression_methods@) && file.spec_compression_method() == 0 ==> (
        r matches Ok(v) && v@ == file_plain(*file, raw@, key@)),
        file_data_fits(*file, raw@, key@, compression_methods@) && file.spec_compression_method() != 0 ==> {
            let method = compression_methods@[file.spec_compression_method() - 1]@;
            let plain = file_plain(*file, raw@, key@);
            &&& r is Ok <==> blocks_decodable(*file, plain, method)
            &&& r matches Ok(v) ==> exists|outs: Seq<Seq<u8>>|
                outs.len() == file.spec_blocks().len() && blocks_output_ok(oodle, *file, plain, method, outs)
                    && v@ == #[trigger] concat(outs)
        },
{
    let bad = "File entry does not fit the data read";
    let raw_len = raw.len();
    if file.encrypted {
        if key.len() != 32 || file.size > u64::MAX - 15 {
            return Err(error_msg(bad));
        }
        let span: u64 = if file.size % 16 == 0 {
            file.size
        } else {
            (file.size / 16 + 1) * 16
        };
        if raw_len as u64 != span {
            return Err(error_msg(bad));
        }
    } else if raw_len as u64 != file.size {
        return Err(error_msg(bad));
    }
    if file.struct_size > 0x7fff_ffff_ffff_ffff {
        return Err(error_msg(bad));
    }
    if file.compression_method != 0 {
        if (file.compression_method - 1) as usize >= compression_methods.len() {
            return Err(error_msg(bad));
        }
        let mut k: usize = 0;
        while k < file.compression_blocks.len()
            invariant
                0 <= k <= file.spec_blocks().len(),
                file.struct_size <= i64::MAX,
                file.compression_method != 0,
                forall|j: int|
                    0 <= j < k ==> 0 <= #[trigger] block_lo(*file, j) <= block_hi(*file, j) <= file.size,
            decreases file.spec_blocks().len() - k,
        {
            let block = &file.compression_blocks[k];
            let lo: i128 = block.compressed_start as i128 - file.struct_size as i128;
            let hi: i128 = block.compressed_end as i128 - file.struct_size as i128;
            assert(lo == block_lo(*file, k as int));
            assert(hi == block_hi(*file, k as int));
            if lo < 0 || lo > hi || hi > file.size as i128 {
                return Err(error_msg(bad));
            }
            k = k + 1;
        }
    }
    decode_file_data(file, raw, key, compression_methods, oodle)
}

/// The bytes `lo..hi` of a slice.
fn slice_range(s: &[u8], lo: usize, hi: usize) -> (r: &[u8])
    requires
        lo <= hi <= s@.len(),
    ensures
        r@ == s@.subrange(lo as int, hi as int),
{
    &s[lo..hi]
}

} // verus!
