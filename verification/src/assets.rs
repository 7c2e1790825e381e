//! Errors, strings, length-prefixed arrays and the records shared by the asset formats.
use vstd::prelude::*;
use crate::reader::{ReaderCursor, le_u16, le_u32, signed, avail, bytes_at, pow2_int, lemma_pow2_values};

pub mod locale;
pub mod meshes;
pub mod sound;
pub mod structs;
pub mod properties;
pub mod exports;
pub mod material;

verus! {

/// The kind of a parse failure.
#[derive(Debug, PartialEq, Eq, Structural, Clone, Copy)]
pub enum ParserType {
    Unknown,
    ClassMappingMissing,
    PropertyIndexMissing,
}

/// A list of messages, innermost first, that wind down to where parsing stopped.
#[derive(Debug)]
pub struct ParserError {
    property_list: Vec<String>,
    error_type: ParserType,
}

pub type ParserResult<T> = Result<T, ParserError>;

impl ParserError {
    /// Every error holds at least one message.
    #[verifier::type_invariant]
    spec fn has_message(self) -> bool {
        self.property_list@.len() > 0
    }

    /// The messages of the error, innermost first.
    pub closed spec fn messages(&self) -> Seq<Seq<char>> {
        self.property_list@.map_values(|s: String| s@)
    }

    pub closed spec fn kind(&self) -> ParserType {
        self.error_type
    }

    pub fn new(start: String) -> (r: Self)
        ensures
            r.messages() == seq![start@],
            r.kind() == ParserType::Unknown,
    {
        let mut property_list = Vec::new();
        property_list.push(start);
        let r = Self { property_list, error_type: ParserType::Unknown };
        assert(r.messages() =~= seq![start@]);
        r
    }

    /// Adds an outer message to an error, after the messages it holds.
    pub fn add(error: ParserError, property: String) -> (r: Self)
        ensures
            r.messages() == error.messages().push(property@),
            r.messages().len() > 1,
            r.kind() == error.kind(),
    {
        proof {
            use_type_invariant(&error);
        }
        let ParserError { property_list, error_type } = error;
        let mut property_list = property_list;
        let ghost before = property_list@;
        property_list.push(property);
        let r = ParserError { property_list, error_type };
        assert(r.messages() =~= before.map_values(|s: String| s@).push(property@));
        r
    }

    pub fn get_properties(&self) -> (r: &Vec<String>)
        ensures
            r@.map_values(|s: String| s@) == self.messages(),
    {
        &self.property_list
    }

    pub fn typed(start: String, error_type: ParserType) -> (r: Self)
        ensures
            r.messages() == seq![start@],
            r.kind() == error_type,
    {
        let mut property_list = Vec::new();
        property_list.push(start);
        let r = Self { property_list, error_type };
        assert(r.messages() =~= seq![start@]);
        r
    }

    pub fn get_type(&self) -> (r: &ParserType)
        ensures
            *r == self.kind(),
    {
        &self.error_type
    }
}

/// An error of kind `Unknown` holding one message.
pub fn error_msg(msg: &str) -> (r: ParserError)
    ensures
        r.messages() == seq![msg@],
        r.kind() == ParserType::Unknown,
{
    ParserError::new(msg.to_owned())
}

/// The decimal digits of `n`.
pub open spec fn digits(n: nat) -> Seq<char>
    decreases n,
{
    if n < 10 {
        seq![(48 + n) as char]
    } else {
        digits(n / 10).push((48 + n % 10) as char)
    }
}

/// The decimal digit `v`.
fn digit_text(v: u64) -> (r: &'static str)
    requires
        v < 10,
    ensures
        r@ == seq![(48 + v) as char],
{
    proof {
        reveal_strlit("0");
        reveal_strlit("1");
        reveal_strlit("2");
        reveal_strlit("3");
        reveal_strlit("4");
        reveal_strlit("5");
        reveal_strlit("6");
        reveal_strlit("7");
        reveal_strlit("8");
        reveal_strlit("9");
    }
    match v {
        0 => "0",
        1 => "1",
        2 => "2",
        3 => "3",
        4 => "4",
        5 => "5",
        6 => "6",
        7 => "7",
        8 => "8",
        _ => "9",
    }
}

/// `n` written in decimal.
pub fn decimal_text(n: u64) -> (r: String)
    ensures
        r@ == digits(n as nat),
    decreases n,
{
    if n < 10 {
        String::from_str(digit_text(n))
    } else {
        let r = decimal_text(n / 10).concat(digit_text(n % 10));
        r
    }
}

// ---------------------------------------------------------------------------
// Strings
/// UTF-16 decoding: a unit outside the surrogate range stands for itself, a high
/// surrogate followed by a low one stands for one character, anything else is invalid.
pub open spec fn decode_utf16(u: Seq<u16>) -> Option<Seq<char>>
    decreases u.len(),
{
    if u.len() == 0 {
        Some(Seq::empty())
    } else if u[0] < 0xD800 || u[0] > 0xDFFF {
        match decode_utf16(u.drop_first()) {
            Some(r) => Some(seq![u[0] as char] + r),
            None => None,
        }
    } else if u[0] <= 0xDBFF && u.len() >= 2 && 0xDC00 <= u[1] && u[1] <= 0xDFFF {
        let c: int = 0x10000 + (u[0] - 0xD800) * 0x400 + (u[1] - 0xDC00);
        match decode_utf16(u.subrange(2, u.len() as int)) {
            Some(r) => Some(seq![(c as u32) as char] + r),
            None => None,
        }
    } else {
        None
    }
}

/// Calls `std::str::from_utf8` and copies the result into a `String`: it succeeds
/// exactly on valid UTF-8 and yields the characters the bytes encode.
#[verifier::external_body]
pub(crate) fn utf8_to_string(bytes: &[u8]) -> (r: Option<String>)
    ensures
        r is Some <==> vstd::utf8::valid_utf8(bytes@),
        r matches Some(s) ==> s@ == vstd::utf8::decode_utf8(bytes@),
{
    match std::str::from_utf8(bytes) {
        Ok(s) => Some(s.to_owned()),
        Err(_) => None,
    }
}

/// Calls `String::from_utf16`, which fails exactly on unpaired surrogates.
#[verifier::external_body]
fn utf16_to_string(units: &[u16]) -> (r: Option<String>)
    ensures
        r is Some <==> decode_utf16(units@) is Some,
        r matches Some(s) ==> Some(s@) == decode_utf16(units@),
{
    match String::from_utf16(units) {
        Ok(s) => Some(s),
        Err(_) => None,
    }
}

/// Calls `String::pop`, which removes the last character when there is one.
#[verifier::external_body]
fn string_pop(s: &mut String)
    ensures
        final(s)@ == (if old(s)@.len() > 0 {
            old(s)@.drop_last()
        } else {
            old(s)@
        }),
{
    s.pop();
}

/// The `n` little-endian 16-bit units at `p`.
pub open spec fn u16s_at(s: Seq<u8>, p: int, n: nat) -> Seq<u16> {
    Seq::new(n, |k: int| le_u16(s, p + 2 * k) as u16)
}

fn read_u16_array(reader: &mut ReaderCursor, n: usize) -> (r: Option<Vec<u16>>)
    ensures
        final(reader).spec_data() == old(reader).spec_data(),
        r is Some <==> avail(old(reader).spec_data(), old(reader).spec_pos(), 2 * n),
        r matches Some(v) ==> v@ == u16s_at(old(reader).spec_data(), old(reader).spec_pos(), n as nat)
            && final(reader).spec_pos() == old(reader).spec_pos() + 2 * n,
{
    let ghost d = reader.spec_data();
    let ghost p0 = reader.spec_pos();
    proof {
        reader.lemma_pos_bound();
    }
    let mut out: Vec<u16> = Vec::new();
    let mut i: usize = 0;
    while i < n
        invariant
            reader.spec_data() == d,
            d == old(reader).spec_data(),
            p0 == old(reader).spec_pos(),
            0 <= i <= n,
            reader.spec_pos() == p0 + 2 * i,
            i > 0 ==> avail(d, p0, 2 * i),
            out@ == u16s_at(d, p0, i as nat),
        decreases n - i,
    {
        match reader.read_u16() {
            Some(v) => {
                out.push(v);
                i = i + 1;
                assert(out@ =~= u16s_at(d, p0, i as nat));
            },
            None => {
                return None;
            },
        }
    }
    Some(out)
}

/// The string that `read_short_string` reads at `p`, and where it ends: two
/// header bytes whose top bit selects UTF-16 and whose other 15 bits give the
/// length in units, then the units.
pub open spec fn spec_short_string(s: Seq<u8>, p: int) -> Option<(Seq<char>, int)> {
    if !avail(s, p, 2) {
        None
    } else {
        let n: int = (s[p] % 128) * 256 + s[p + 1];
        if s[p] >= 128 {
            if !avail(s, p + 2, 2 * n) {
                None
            } else {
                match decode_utf16(u16s_at(s, p + 2, n as nat)) {
                    Some(c) => Some((c, p + 2 + 2 * n)),
                    None => None,
                }
            }
        } else {
            if !avail(s, p + 2, n) {
                None
            } else if vstd::utf8::valid_utf8(bytes_at(s, p + 2, n as nat)) {
                Some((vstd::utf8::decode_utf8(bytes_at(s, p + 2, n as nat)), p + 2 + n))
            } else {
                None
            }
        }
    }
}

pub fn read_short_string(reader: &mut ReaderCursor) -> (r: ParserResult<String>)
    ensures
        final(reader).spec_data() == old(reader).spec_data(),
        r is Ok <==> spec_short_string(old(reader).spec_data(), old(reader).spec_pos()) is Some,
        r matches Ok(v) ==> spec_short_string(old(reader).spec_data(), old(reader).spec_pos())
            == Some((v@, final(reader).spec_pos())),
{
    let ghost d = reader.spec_data();
    let ghost p = reader.spec_pos();
    let data1 = match reader.read_u8() {
        Some(v) => v,
        None => return Err(error_msg("File Error: failed to fill whole buffer")),
    };
    let data2 = match reader.read_u8() {
        Some(v) => v,
        None => return Err(error_msg("File Error: failed to fill whole buffer")),
    };
    let length: usize = ((data1 % 128) as usize) * 256 + data2 as usize;
    if data1 >= 128 {
        let units = match read_u16_array(reader, length) {
            Some(u) => u,
            None => return Err(error_msg("File Error: failed to fill whole buffer")),
        };
        match utf16_to_string(units.as_slice()) {
            Some(s) => Ok(s),
            None => Err(error_msg("UTF16 Error")),
        }
    } else {
        let bytes = match reader.read_bytes(length) {
            Some(b) => b,
            None => return Err(error_msg("File Error: failed to fill whole buffer")),
        };
        match utf8_to_string(bytes.as_slice()) {
            Some(s) => Ok(s),
            None => Err(error_msg("UTF8 Error")),
        }
    }
}

/// The string that `read_string` reads at `p`, and where it ends: a signed
/// 32-bit length, rejected beyond 65536 either way; a negative length counts
/// UTF-16 units, a positive one UTF-8 bytes, and the last character (the
/// terminator) is dropped.
pub open spec fn spec_string(s: Seq<u8>, p: int) -> Option<(Seq<char>, int)> {
    if !avail(s, p, 4) {
        None
    } else {
        let len = signed(le_u32(s, p), 32);
        if len > 65536 || len < -65536 {
            None
        } else if len == 0 {
            Some((Seq::empty(), p + 4))
        } else if len < 0 {
            let n = -len;
            if !avail(s, p + 4, 2 * n) {
                None
            } else {
                match decode_utf16(u16s_at(s, p + 4, n as nat).drop_last()) {
                    Some(c) => Some((c, p + 4 + 2 * n)),
                    None => None,
                }
            }
        } else {
            let bytes = bytes_at(s, p + 4, len as nat);
            if !avail(s, p + 4, len) {
                None
            } else if vstd::utf8::valid_utf8(bytes) {
                let c = vstd::utf8::decode_utf8(bytes);
                Some((if c.len() > 0 { c.drop_last() } else { c }, p + 4 + len))
            } else {
                None
            }
        }
    }
}

pub fn read_string(reader: &mut ReaderCursor) -> (r: ParserResult<String>)
    ensures
        final(reader).spec_data() == old(reader).spec_data(),
        r is Ok <==> spec_string(old(reader).spec_data(), old(reader).spec_pos()) is Some,
        r matches Ok(v) ==> spec_string(old(reader).spec_data(), old(reader).spec_pos())
            == Some((v@, final(reader).spec_pos())),
{
    let ghost d = reader.spec_data();
    let ghost p = reader.spec_pos();
    proof {
        lemma_pow2_values();
    }
    let length = match reader.read_i32() {
        Some(v) => v,
        None => return Err(error_msg("File Error: failed to fill whole buffer")),
    };
    if length > 65536 || length < -65536 {
        return Err(error_msg("String length too large, likely a read error."));
    }
    if length == 0 {
        return Ok(String::new());
    }
    if length < 0 {
        let n = (-length) as usize;
        let mut units = match read_u16_array(reader, n) {
            Some(u) => u,
            None => return Err(error_msg("File Error: failed to fill whole buffer")),
        };
        let ghost all = units@;
        units.pop();
        assert(units@ =~= all.drop_last());
        match utf16_to_string(units.as_slice()) {
            Some(s) => Ok(s),
            None => Err(error_msg("UTF16 Error")),
        }
    } else {
        let n = length as usize;
        let bytes = match reader.read_bytes(n) {
            Some(b) => b,
            None => return Err(error_msg("File Error: failed to fill whole buffer")),
        };
        match utf8_to_string(bytes.as_slice()) {
            Some(s) => {
                let mut s = s;
                string_pop(&mut s);
                Ok(s)
            },
            None => Err(error_msg("UTF8 Error")),
        }
    }
}


// ---------------------------------------------------------------------------
// Records read from a cursor
/// A record with a fixed binary layout. `spec_ok` says when a read at a position
/// succeeds, `spec_end` where it stops, and `spec_is` which values it yields.
pub trait Newable: Sized {
    spec fn spec_ok(data: Seq<u8>, pos: int) -> bool;

    spec fn spec_end(data: Seq<u8>, pos: int) -> int;

    spec fn spec_is(data: Seq<u8>, pos: int, v: Self) -> bool;

    fn new(reader: &mut ReaderCursor) -> (res: ParserResult<Self>)
        ensures
            final(reader).spec_data() == old(reader).spec_data(),
            res is Ok <==> Self::spec_ok(old(reader).spec_data(), old(reader).spec_pos()),
            res matches Ok(v) ==> Self::spec_is(old(reader).spec_data(), old(reader).spec_pos(), v)
                && final(reader).spec_pos() == Self::spec_end(
                old(reader).spec_data(),
                old(reader).spec_pos(),
            ),
    ;
}

/// `n` records read back to back from `p` succeed.
pub open spec fn elems_ok<S: Newable>(data: Seq<u8>, p: int, n: nat) -> bool
    decreases n,
{
    n == 0 || (elems_ok::<S>(data, p, (n - 1) as nat) && S::spec_ok(
        data,
        elems_end::<S>(data, p, (n - 1) as nat),
    ))
}

/// Where `n` records read back to back from `p` end.
pub open spec fn elems_end<S: Newable>(data: Seq<u8>, p: int, n: nat) -> int
    decreases n,
{
    if n == 0 {
        p
    } else {
        S::spec_end(data, elems_end::<S>(data, p, (n - 1) as nat))
    }
}

/// `vs` are the records read back to back from `p`.
pub open spec fn elems_are<S: Newable>(data: Seq<u8>, p: int, vs: Seq<S>) -> bool
    decreases vs.len(),
{
    vs.len() == 0 || (elems_are::<S>(data, p, vs.drop_last()) && S::spec_is(
        data,
        elems_end::<S>(data, p, (vs.len() - 1) as nat),
        vs.last(),
    ))
}

pub proof fn lemma_elems_ok_prefix<S: Newable>(data: Seq<u8>, p: int, k: nat, n: nat)
    requires
        k <= n,
        elems_ok::<S>(data, p, n),
    ensures
        elems_ok::<S>(data, p, k),
    decreases n - k,
{
    if k < n {
        lemma_elems_ok_prefix::<S>(data, p, k, (n - 1) as nat);
    }
}

/// Records read back to back come in the order they are stored: the `i`-th
/// record is the one read where the first `i` records end.
pub proof fn lemma_elems_order<S: Newable>(data: Seq<u8>, p: int, vs: Seq<S>, i: int)
    requires
        elems_are::<S>(data, p, vs),
        0 <= i < vs.len(),
    ensures
        S::spec_is(data, elems_end::<S>(data, p, i as nat), vs[i]),
    decreases vs.len(),
{
    if i < vs.len() - 1 {
        lemma_elems_order::<S>(data, p, vs.drop_last(), i);
    }
}

/// Bytes read one at a time are the bytes of the data: `n` of them end `n` bytes
/// on, succeed when that many are there, and are exactly those bytes.
pub proof fn lemma_u8_elems(data: Seq<u8>, p: int, n: nat)
    requires
        0 <= p,
    ensures
        elems_end::<u8>(data, p, n) == p + n,
        elems_ok::<u8>(data, p, n) <==> (n == 0 || p + n <= data.len()),
        forall|vs: Seq<u8>|
            vs.len() == n && p + n <= data.len() ==> (#[trigger] elems_are::<u8>(data, p, vs) <==> vs
                == bytes_at(data, p, n)),
    decreases n,
{
    if n == 0 {
        assert forall|vs: Seq<u8>| vs.len() == n && p + n <= data.len() implies (#[trigger] elems_are::<u8>(
            data,
            p,
            vs,
        ) <==> vs == bytes_at(data, p, n)) by {
            assert(vs =~= bytes_at(data, p, n));
        }
    }
    if n > 0 {
        lemma_u8_elems(data, p, (n - 1) as nat);
        assert forall|vs: Seq<u8>| vs.len() == n && p + n <= data.len() implies (#[trigger] elems_are::<u8>(
            data,
            p,
            vs,
        ) <==> vs == bytes_at(data, p, n)) by {
            let pre = vs.drop_last();
            assert(pre.len() == n - 1);
            if p + n <= data.len() {
                if elems_are::<u8>(data, p, vs) {
                    assert(elems_are::<u8>(data, p, pre));
                    assert(pre == bytes_at(data, p, (n - 1) as nat));
                    assert(vs.last() == data[p + n - 1]);
                    assert forall|k: int| 0 <= k < n implies vs[k] == bytes_at(data, p, n)[k] by {
                        if k < n - 1 {
                            assert(vs[k] == pre[k]);
                        }
                    }
                    assert(vs =~= bytes_at(data, p, n));
                } else if vs == bytes_at(data, p, n) {
                    assert(pre =~= bytes_at(data, p, (n - 1) as nat));
                    assert(elems_are::<u8>(data, p, pre));
                }
            }
        }
    }
}

/// An array: a 32-bit count, then that many records.
pub open spec fn tarray_ok<S: Newable>(data: Seq<u8>, p: int) -> bool {
    avail(data, p, 4) && elems_ok::<S>(data, p + 4, le_u32(data, p) as nat)
}

pub open spec fn tarray_end<S: Newable>(data: Seq<u8>, p: int) -> int {
    elems_end::<S>(data, p + 4, le_u32(data, p) as nat)
}

pub open spec fn tarray_is<S: Newable>(data: Seq<u8>, p: int, vs: Seq<S>) -> bool {
    vs.len() == le_u32(data, p) && elems_are::<S>(data, p + 4, vs)
}

/// Reads `n` records back to back.
pub fn read_elems<S: Newable>(reader: &mut ReaderCursor, n: u32) -> (res: ParserResult<Vec<S>>)
    ensures
        final(reader).spec_data() == old(reader).spec_data(),
        res is Ok <==> elems_ok::<S>(old(reader).spec_data(), old(reader).spec_pos(), n as nat),
        res matches Ok(vs) ==> vs@.len() == n && elems_are::<S>(
            old(reader).spec_data(),
            old(reader).spec_pos(),
            vs@,
        ) && final(reader).spec_pos() == elems_end::<S>(
            old(reader).spec_data(),
            old(reader).spec_pos(),
            n as nat,
        ),
{
    let ghost d = reader.spec_data();
    let ghost p0 = reader.spec_pos();
    let mut container: Vec<S> = Vec::new();
    let mut i: u32 = 0;
    while i < n
        invariant
            reader.spec_data() == d,
            d == old(reader).spec_data(),
            p0 == old(reader).spec_pos(),
            0 <= i <= n,
            elems_ok::<S>(d, p0, i as nat),
            reader.spec_pos() == elems_end::<S>(d, p0, i as nat),
            container@.len() == i,
            elems_are::<S>(d, p0, container@),
        decreases n - i,
    {
        let ghost before = container@;
        match S::new(reader) {
            Ok(v) => {
                container.push(v);
                assert(container@.drop_last() =~= before);
                i = i + 1;
            },
            Err(e) => {
                proof {
                    if elems_ok::<S>(d, p0, n as nat) {
                        lemma_elems_ok_prefix::<S>(d, p0, (i + 1) as nat, n as nat);
                    }
                }
                return Err(e);
            },
        }
    }
    Ok(container)
}

/// Reads an array: a 32-bit count, then that many records.
pub fn read_tarray<S: Newable>(reader: &mut ReaderCursor) -> (res: ParserResult<Vec<S>>)
    ensures
        final(reader).spec_data() == old(reader).spec_data(),
        res is Ok <==> tarray_ok::<S>(old(reader).spec_data(), old(reader).spec_pos()),
        res matches Ok(vs) ==> tarray_is::<S>(old(reader).spec_data(), old(reader).spec_pos(), vs@)
            && final(reader).spec_pos() == tarray_end::<S>(
            old(reader).spec_data(),
            old(reader).spec_pos(),
        ),
{
    let length = match reader.read_u32() {
        Some(v) => v,
        None => return Err(error_msg("File Error: failed to fill whole buffer")),
    };
    read_elems(reader, length)
}

/// A 128-bit identifier, as four 32-bit words.
#[derive(Debug, PartialEq, Eq, Structural, Clone, Copy)]
pub struct FGuid {
    pub a: u32,
    pub b: u32,
    pub c: u32,
    pub d: u32,
}

impl Newable for FGuid {
    open spec fn spec_ok(data: Seq<u8>, pos: int) -> bool {
        avail(data, pos, 16)
    }

    open spec fn spec_end(data: Seq<u8>, pos: int) -> int {
        pos + 16
    }

    open spec fn spec_is(data: Seq<u8>, pos: int, v: Self) -> bool {
        v.a == le_u32(data, pos) && v.b == le_u32(data, pos + 4) && v.c == le_u32(data, pos + 8)
            && v.d == le_u32(data, pos + 12)
    }

    fn new(reader: &mut ReaderCursor) -> (res: ParserResult<Self>) {
        let a = reader.read_u32();
        let b = reader.read_u32();
        let c = reader.read_u32();
        let d = reader.read_u32();
        match (a, b, c, d) {
            (Some(a), Some(b), Some(c), Some(d)) => Ok(FGuid { a, b, c, d }),
            _ => Err(error_msg("File Error: failed to fill whole buffer")),
        }
    }
}

impl Newable for u8 {
    open spec fn spec_ok(data: Seq<u8>, pos: int) -> bool {
        avail(data, pos, 1)
    }

    open spec fn spec_end(data: Seq<u8>, pos: int) -> int {
        pos + 1
    }

    open spec fn spec_is(data: Seq<u8>, pos: int, v: Self) -> bool {
        v == data[pos]
    }

    fn new(reader: &mut ReaderCursor) -> (res: ParserResult<Self>) {
        match reader.read_u8() {
            Some(v) => Ok(v),
            None => Err(error_msg("File Error: failed to fill whole buffer")),
        }
    }
}

impl Newable for u16 {
    open spec fn spec_ok(data: Seq<u8>, pos: int) -> bool {
        avail(data, pos, 2)
    }

    open spec fn spec_end(data: Seq<u8>, pos: int) -> int {
        pos + 2
    }

    open spec fn spec_is(data: Seq<u8>, pos: int, v: Self) -> bool {
        v == le_u16(data, pos)
    }

    fn new(reader: &mut ReaderCursor) -> (res: ParserResult<Self>) {
        match reader.read_u16() {
            Some(v) => Ok(v),
            None => Err(error_msg("File Error: failed to fill whole buffer")),
        }
    }
}

impl Newable for i16 {
    open spec fn spec_ok(data: Seq<u8>, pos: int) -> bool {
        avail(data, pos, 2)
    }

    open spec fn spec_end(data: Seq<u8>, pos: int) -> int {
        pos + 2
    }

    open spec fn spec_is(data: Seq<u8>, pos: int, v: Self) -> bool {
        v == signed(le_u16(data, pos), 16)
    }

    fn new(reader: &mut ReaderCursor) -> (res: ParserResult<Self>) {
        match reader.read_i16() {
            Some(v) => Ok(v),
            None => Err(error_msg("File Error: failed to fill whole buffer")),
        }
    }
}

impl Newable for u32 {
    open spec fn spec_ok(data: Seq<u8>, pos: int) -> bool {
        avail(data, pos, 4)
    }

    open spec fn spec_end(data: Seq<u8>, pos: int) -> int {
        pos + 4
    }

    open spec fn spec_is(data: Seq<u8>, pos: int, v: Self) -> bool {
        v == le_u32(data, pos)
    }

    fn new(reader: &mut ReaderCursor) -> (res: ParserResult<Self>) {
        match reader.read_u32() {
            Some(v) => Ok(v),
            None => Err(error_msg("File Error: failed to fill whole buffer")),
        }
    }
}

impl Newable for i32 {
    open spec fn spec_ok(data: Seq<u8>, pos: int) -> bool {
        avail(data, pos, 4)
    }

    open spec fn spec_end(data: Seq<u8>, pos: int) -> int {
        pos + 4
    }

    open spec fn spec_is(data: Seq<u8>, pos: int, v: Self) -> bool {
        v == signed(le_u32(data, pos), 32)
    }

    fn new(reader: &mut ReaderCursor) -> (res: ParserResult<Self>) {
        match reader.read_i32() {
            Some(v) => Ok(v),
            None => Err(error_msg("File Error: failed to fill whole buffer")),
        }
    }
}

impl Newable for u64 {
    open spec fn spec_ok(data: Seq<u8>, pos: int) -> bool {
        avail(data, pos, 8)
    }

    open spec fn spec_end(data: Seq<u8>, pos: int) -> int {
        pos + 8
    }

    open spec fn spec_is(data: Seq<u8>, pos: int, v: Self) -> bool {
        v == crate::reader::le_u64(data, pos)
    }

    fn new(reader: &mut ReaderCursor) -> (res: ParserResult<Self>) {
        match reader.read_u64() {
            Some(v) => Ok(v),
            None => Err(error_msg("File Error: failed to fill whole buffer")),
        }
    }
}

impl Newable for i64 {
    open spec fn spec_ok(data: Seq<u8>, pos: int) -> bool {
        avail(data, pos, 8)
    }

    open spec fn spec_end(data: Seq<u8>, pos: int) -> int {
        pos + 8
    }

    open spec fn spec_is(data: Seq<u8>, pos: int, v: Self) -> bool {
        v == signed(crate::reader::le_u64(data, pos), 64)
    }

    fn new(reader: &mut ReaderCursor) -> (res: ParserResult<Self>) {
        match reader.read_i64() {
            Some(v) => Ok(v),
            None => Err(error_msg("File Error: failed to fill whole buffer")),
        }
    }
}

/// A counted array of records is itself a record.
impl<S: Newable> Newable for Vec<S> {
    open spec fn spec_ok(data: Seq<u8>, pos: int) -> bool {
        tarray_ok::<S>(data, pos)
    }

    open spec fn spec_end(data: Seq<u8>, pos: int) -> int {
        tarray_end::<S>(data, pos)
    }

    open spec fn spec_is(data: Seq<u8>, pos: int, v: Self) -> bool {
        tarray_is::<S>(data, pos, v@)
    }

    fn new(reader: &mut ReaderCursor) -> (res: ParserResult<Self>) {
        read_tarray(reader)
    }
}

impl Newable for String {
    open spec fn spec_ok(data: Seq<u8>, pos: int) -> bool {
        spec_string(data, pos) is Some
    }

    open spec fn spec_end(data: Seq<u8>, pos: int) -> int {
        spec_string(data, pos).unwrap().1
    }

    open spec fn spec_is(data: Seq<u8>, pos: int, v: Self) -> bool {
        v@ == spec_string(data, pos).unwrap().0
    }

    fn new(reader: &mut ReaderCursor) -> (res: ParserResult<Self>) {
        read_string(reader)
    }
}

/// Which name table a mapped name refers to.
#[derive(Debug, PartialEq, Eq, Structural, Clone, Copy)]
pub enum FMappedNameType {
    Package,
    Container,
    Global,
}

/// The name table named by the two top bits of a mapped name's index word.
pub open spec fn mapped_name_type(bits: u32) -> FMappedNameType {
    if bits == 0 {
        FMappedNameType::Package
    } else if bits == 1 {
        FMappedNameType::Container
    } else {
        FMappedNameType::Global
    }
}

/// The two top bits of a mapped name's index word give the name table by its
/// place in the declaration of `FMappedNameType`.
pub proof fn lemma_mapped_name_type_code(bits: u32)
    requires
        bits <= 2,
    ensures
        mapped_name_type(bits) as u32 == bits,
{
}

/// A name given as an index into a name table, with a number.
#[derive(Debug, PartialEq, Eq, Structural, Clone, Copy)]
pub struct FMappedName {
    pub index: u32,
    pub number: u32,
    pub name_type: FMappedNameType,
}

impl FMappedName {
    /// The entry of `map` that the name's index points at.
    pub fn get_name<'a>(&self, map: &'a crate::dispatch::FNameMap) -> (r: ParserResult<&'a str>)
        ensures
            r is Ok <==> self.index < map@.len(),
            r matches Ok(s) ==> s@ == map@[self.index as int],
    {
        map.get_name(self.index as usize)
    }
}

impl Newable for FMappedName {
    /// Eight bytes; the two top bits of the first word must not both be set.
    open spec fn spec_ok(data: Seq<u8>, pos: int) -> bool {
        avail(data, pos, 8) && (le_u32(data, pos) as u32) >> 30u32 != 3
    }

    open spec fn spec_end(data: Seq<u8>, pos: int) -> int {
        pos + 8
    }

    open spec fn spec_is(data: Seq<u8>, pos: int, v: Self) -> bool {
        &&& v.index == (le_u32(data, pos) as u32) & 0x3fff_ffff
        &&& v.number == le_u32(data, pos + 4)
        &&& v.name_type == mapped_name_type((le_u32(data, pos) as u32) >> 30u32)
    }

    fn new(reader: &mut ReaderCursor) -> (res: ParserResult<Self>) {
        let index = match reader.read_u32() {
            Some(v) => v,
            None => return Err(error_msg("File Error: failed to fill whole buffer")),
        };
        let number = match reader.read_u32() {
            Some(v) => v,
            None => return Err(error_msg("File Error: failed to fill whole buffer")),
        };
        let bits = index >> 30u32;
        assert(index >> 30u32 <= 3) by (bit_vector);
        let name_type = if bits == 0 {
            FMappedNameType::Package
        } else if bits == 1 {
            FMappedNameType::Container
        } else if bits == 2 {
            FMappedNameType::Global
        } else {
            return Err(error_msg("No name type"));
        };
        Ok(FMappedName { index: index & 0x3fff_ffff, number, name_type })
    }
}

/// What a package object index refers to.
#[derive(Debug, PartialEq, Eq, Structural, Clone, Copy)]
pub enum FPackageObjectIndexType {
    Export,
    ScriptImport,
    PackageImport,
    Null,
}

/// The kind named by the two top bits of a package object index.
pub open spec fn object_index_type(bits: u64) -> FPackageObjectIndexType {
    if bits == 0 {
        FPackageObjectIndexType::Export
    } else if bits == 1 {
        FPackageObjectIndexType::ScriptImport
    } else if bits == 2 {
        FPackageObjectIndexType::PackageImport
    } else {
        FPackageObjectIndexType::Null
    }
}

/// The two top bits of a package object index give its kind by its place in
/// the declaration of `FPackageObjectIndexType`.
pub proof fn lemma_object_index_type_code(bits: u64)
    requires
        bits <= 3,
    ensures
        object_index_type(bits) as u64 == bits,
{
}

/// A 62-bit object index with a two-bit kind.
#[derive(Debug, PartialEq, Eq, Structural, Clone, Copy)]
pub struct FPackageObjectIndex {
    pub index: u64,
    pub index_type: FPackageObjectIndexType,
}

impl FPackageObjectIndex {
    pub fn get_index(&self) -> (r: u64)
        ensures
            r == self.index,
    {
        self.index
    }

    /// Splits a raw 64-bit word into index and kind.
    pub fn from_raw(data: u64) -> (r: Self)
        ensures
            r.index == data & 0x3fff_ffff_ffff_ffff,
            r.index_type == object_index_type(data >> 62u64),
    {
        let bits = data >> 62u64;
        let index_type = if bits == 0 {
            FPackageObjectIndexType::Export
        } else if bits == 1 {
            FPackageObjectIndexType::ScriptImport
        } else if bits == 2 {
            FPackageObjectIndexType::PackageImport
        } else {
            FPackageObjectIndexType::Null
        };
        FPackageObjectIndex { index: data & 0x3fff_ffff_ffff_ffff, index_type }
    }
}

impl Newable for FPackageObjectIndex {
    open spec fn spec_ok(data: Seq<u8>, pos: int) -> bool {
        avail(data, pos, 8)
    }

    open spec fn spec_end(data: Seq<u8>, pos: int) -> int {
        pos + 8
    }

    open spec fn spec_is(data: Seq<u8>, pos: int, v: Self) -> bool {
        &&& v.index == (crate::reader::le_u64(data, pos) as u64) & 0x3fff_ffff_ffff_ffff
        &&& v.index_type == object_index_type((crate::reader::le_u64(data, pos) as u64) >> 62u64)
    }

    fn new(reader: &mut ReaderCursor) -> (res: ParserResult<Self>) {
        match reader.read_u64() {
            Some(v) => Ok(FPackageObjectIndex::from_raw(v)),
            None => Err(error_msg("File Error: failed to fill whole buffer")),
        }
    }
}

/// Which parts of an object were stripped when it was cooked.
#[derive(Debug, Clone, Copy)]
pub struct FStripDataFlags {
    pub global_strip_flags: u8,
    pub class_strip_flags: u8,
}

impl FStripDataFlags {
    pub fn is_editor_data_stripped(&self) -> (r: bool)
        ensures
            r == (self.global_strip_flags & 1 != 0),
    {
        (self.global_strip_flags & 1) != 0
    }

    pub fn is_data_stripped_for_server(&self) -> (r: bool)
        ensures
            r == (self.global_strip_flags & 2 != 0),
    {
        (self.global_strip_flags & 2) != 0
    }

    pub fn is_class_data_stripped(&self, flag: u8) -> (r: bool)
        ensures
            r == (self.class_strip_flags & flag != 0),
    {
        (self.class_strip_flags & flag) != 0
    }
}

impl Newable for FStripDataFlags {
    open spec fn spec_ok(data: Seq<u8>, pos: int) -> bool {
        avail(data, pos, 2)
    }

    open spec fn spec_end(data: Seq<u8>, pos: int) -> int {
        pos + 2
    }

    open spec fn spec_is(data: Seq<u8>, pos: int, v: Self) -> bool {
        v.global_strip_flags == data[pos] && v.class_strip_flags == data[pos + 1]
    }

    fn new(reader: &mut ReaderCursor) -> (res: ParserResult<Self>) {
        let g = reader.read_u8();
        let c = reader.read_u8();
        match (g, c) {
            (Some(g), Some(c)) => Ok(FStripDataFlags { global_strip_flags: g, class_strip_flags: c }),
            _ => Err(error_msg("File Error: failed to fill whole buffer")),
        }
    }
}

/// A colour with eight bits per channel, stored blue, green, red, alpha.
#[derive(Debug, Clone, Copy)]
pub struct FColor {
    pub r: u8,
    pub g: u8,
    pub b: u8,
    pub a: u8,
}

impl Newable for FColor {
    open spec fn spec_ok(data: Seq<u8>, pos: int) -> bool {
        avail(data, pos, 4)
    }

    open spec fn spec_end(data: Seq<u8>, pos: int) -> int {
        pos + 4
    }

    open spec fn spec_is(data: Seq<u8>, pos: int, v: Self) -> bool {
        v.b == data[pos] && v.g == data[pos + 1] && v.r == data[pos + 2] && v.a == data[pos + 3]
    }

    fn new(reader: &mut ReaderCursor) -> (res: ParserResult<Self>) {
        let b = reader.read_u8();
        let g = reader.read_u8();
        let r = reader.read_u8();
        let a = reader.read_u8();
        match (b, g, r, a) {
            (Some(b), Some(g), Some(r), Some(a)) => Ok(FColor { r, g, b, a }),
            _ => Err(error_msg("File Error: failed to fill whole buffer")),
        }
    }
}

/// The header of bulk data: flags, element count, size on disk and offset.
#[derive(Debug, Clone, Copy)]
pub struct FByteBulkDataHeader {
    pub bulk_data_flags: i32,
    pub element_count: i32,
    pub size_on_disk: i32,
    pub offset_in_file: i64,
}

impl Newable for FByteBulkDataHeader {
    open spec fn spec_ok(data: Seq<u8>, pos: int) -> bool {
        avail(data, pos, 20)
    }

    open spec fn spec_end(data: Seq<u8>, pos: int) -> int {
        pos + 20
    }

    open spec fn spec_is(data: Seq<u8>, pos: int, v: Self) -> bool {
        &&& v.bulk_data_flags == signed(le_u32(data, pos), 32)
        &&& v.element_count == signed(le_u32(data, pos + 4), 32)
        &&& v.size_on_disk == signed(le_u32(data, pos + 8), 32)
        &&& v.offset_in_file == signed(crate::reader::le_u64(data, pos + 12), 64)
    }

    fn new(reader: &mut ReaderCursor) -> (res: ParserResult<Self>) {
        let f = reader.read_i32();
        let e = reader.read_i32();
        let s = reader.read_i32();
        let o = reader.read_i64();
        match (f, e, s, o) {
            (Some(f), Some(e), Some(s), Some(o)) => Ok(
                FByteBulkDataHeader { bulk_data_flags: f, element_count: e, size_on_disk: s, offset_in_file: o },
            ),
            _ => Err(error_msg("File Error: failed to fill whole buffer")),
        }
    }
}

/// Bulk data: its header and its bytes.
#[derive(Debug)]
pub struct FByteBulkData {
    pub header: FByteBulkDataHeader,
    pub data: Vec<u8>,
}

/// The bytes are inline, right after the header.
pub open spec fn bulk_inline(h: FByteBulkDataHeader) -> bool {
    (h.bulk_data_flags as u32) & 0x40 != 0
}

/// The bytes are in the separate bulk file.
pub open spec fn bulk_separate(h: FByteBulkDataHeader) -> bool {
    (h.bulk_data_flags as u32) & 0x100 != 0
}

/// Flag 11 is set and the bulk file is shorter than the data (a negative count
/// counts as larger than any file): the bytes are not read from it.
pub open spec fn bulk_skipped(h: FByteBulkDataHeader, ubulk_len: int) -> bool {
    (h.bulk_data_flags as u32) & 0x800 != 0 && (h.element_count < 0 || ubulk_len < h.element_count)
}

/// Bulk data after a header `h` read at `p`: the inline bytes, then, when the
/// data is in the bulk file `u` and not skipped, `element_count` bytes from
/// `offset_in_file` there; `None` when a read fails, the count is negative, or
/// the bulk file is needed and missing.
#[verifier::opaque]
pub open spec fn bulk_bytes(d: Seq<u8>, p: int, h: FByteBulkDataHeader, u: Option<Seq<u8>>) -> Option<Seq<u8>> {
    let n = h.element_count as int;
    let inline: Option<Seq<u8>> = if bulk_inline(h) {
        if n >= 0 && avail(d, p, n) {
            Some(bytes_at(d, p, n as nat))
        } else {
            None
        }
    } else {
        Some(Seq::empty())
    };
    match inline {
        None => None,
        Some(b) => if bulk_separate(h) {
            match u {
                None => None,
                Some(ub) => if bulk_skipped(h, ub.len() as int) {
                    Some(b)
                } else if n >= 0 && h.offset_in_file >= 0 && avail(ub, h.offset_in_file as int, n) {
                    Some(bytes_at(ub, h.offset_in_file as int, n as nat))
                } else {
                    None
                },
            }
        } else {
            Some(b)
        },
    }
}

pub open spec fn opt_cursor_data(u: Option<ReaderCursor>) -> Option<Seq<u8>> {
    match u {
        Some(c) => Some(c.spec_data()),
        None => None,
    }
}

/// The bulk data header at `q`.
pub open spec fn bulk_header_at(d: Seq<u8>, q: int) -> FByteBulkDataHeader {
    FByteBulkDataHeader {
        bulk_data_flags: signed(le_u32(d, q), 32) as i32,
        element_count: signed(le_u32(d, q + 4), 32) as i32,
        size_on_disk: signed(le_u32(d, q + 8), 32) as i32,
        offset_in_file: signed(crate::reader::le_u64(d, q + 12), 64) as i64,
    }
}

/// Bulk data at `q` reads.
pub open spec fn bulk_ok(d: Seq<u8>, q: int, u: Option<Seq<u8>>) -> bool {
    avail(d, q, 20) && bulk_bytes(d, q + 20, bulk_header_at(d, q), u) is Some
}

/// Where bulk data at `q` ends in the main data.
pub open spec fn bulk_end(d: Seq<u8>, q: int) -> int {
    q + 20 + (if bulk_inline(bulk_header_at(d, q)) {
        bulk_header_at(d, q).element_count as int
    } else {
        0
    })
}

impl FByteBulkData {
    /// Reads bulk data at the cursor, taking separate bytes from `ubulk`.
    pub fn new(reader: &mut ReaderCursor, ubulk: &mut Option<ReaderCursor>) -> (res: ParserResult<Self>)
        ensures
            final(reader).spec_data() == old(reader).spec_data(),
            opt_cursor_data(*final(ubulk)) == opt_cursor_data(*old(ubulk)),
            res is Ok <==> bulk_ok(old(reader).spec_data(), old(reader).spec_pos(), opt_cursor_data(*old(ubulk))),
            res matches Ok(v) ==> {
                let d = old(reader).spec_data();
                let p = old(reader).spec_pos();
                &&& v.header == bulk_header_at(d, p)
                &&& bulk_bytes(d, p + 20, v.header, opt_cursor_data(*old(ubulk))) == Some(v.data@)
                &&& final(reader).spec_pos() == bulk_end(d, p)
            },
    {
        let ghost d = reader.spec_data();
        let ghost p = reader.spec_pos();
        reveal(bulk_bytes);
        let header = FByteBulkDataHeader::new(reader)?;
        assert(header == bulk_header_at(d, p));
        let mut data: Vec<u8> = Vec::new();
        if header.bulk_data_flags as u32 & 0x40 != 0 {
            if header.element_count < 0 {
                return Err(error_msg("Negative element count"));
            }
            data = match reader.read_bytes(header.element_count as usize) {
                Some(b) => b,
                None => return Err(error_msg("File Error: failed to fill whole buffer")),
            };
        }
        if header.bulk_data_flags as u32 & 0x100 != 0 {
            match ubulk {
                Some(ubulk_reader) => {
                    let skipped = header.bulk_data_flags as u32 & 0x800 != 0 && (header.element_count < 0
                        || ubulk_reader.len() < header.element_count as usize);
                    if !skipped {
                        if header.element_count < 0 || header.offset_in_file < 0 {
                            return Err(error_msg("Bulk data out of range"));
                        }
                        ubulk_reader.seek(header.offset_in_file as u64);
                        data = match ubulk_reader.read_bytes(header.element_count as usize) {
                            Some(b) => b,
                            None => return Err(error_msg("Bulk data out of range")),
                        };
                    }
                },
                None => return Err(error_msg("No ubulk specified for texture")),
            }
        }
        Ok(FByteBulkData { header, data })
    }
}

/// One mip level of a texture: its bulk data and its size.
#[derive(Debug)]
pub struct FTexture2DMipMap {
    pub data: FByteBulkData,
    pub size_x: i32,
    pub size_y: i32,
    pub size_z: i32,
}

/// Where the sizes of a mip at `p` start.
pub open spec fn mip_sizes_pos(d: Seq<u8>, p: int) -> int {
    bulk_end(d, p + 4)
}

/// A mip whose cooked flag is not 1 ends with a string.
pub open spec fn mip_cooked(d: Seq<u8>, p: int) -> bool {
    signed(le_u32(d, p), 32) == 1
}

#[verifier::opaque]
pub open spec fn mip_ok(d: Seq<u8>, p: int, u: Option<Seq<u8>>) -> bool {
    let q = mip_sizes_pos(d, p);
    &&& avail(d, p, 4)
    &&& bulk_ok(d, p + 4, u)
    &&& avail(d, q, 12)
    &&& !mip_cooked(d, p) ==> spec_string(d, q + 12) is Some
}

#[verifier::opaque]
pub open spec fn mip_end(d: Seq<u8>, p: int) -> int {
    let q = mip_sizes_pos(d, p);
    if mip_cooked(d, p) {
        q + 12
    } else {
        spec_string(d, q + 12).unwrap().1
    }
}

/// The bytes of the mip at `p`.
pub open spec fn mip_bytes(d: Seq<u8>, p: int, u: Option<Seq<u8>>) -> Seq<u8> {
    bulk_bytes(d, p + 24, bulk_header_at(d, p + 4), u).unwrap()
}

pub open spec fn mip_is(d: Seq<u8>, p: int, u: Option<Seq<u8>>, v: FTexture2DMipMap) -> bool {
    let q = mip_sizes_pos(d, p);
    &&& v.data.header == bulk_header_at(d, p + 4)
    &&& v.data.data@ == mip_bytes(d, p, u)
    &&& v.size_x == signed(le_u32(d, q), 32)
    &&& v.size_y == signed(le_u32(d, q + 4), 32)
    &&& v.size_z == signed(le_u32(d, q + 8), 32)
}

impl FTexture2DMipMap {
    pub fn new(reader: &mut ReaderCursor, ubulk: &mut Option<ReaderCursor>) -> (res: ParserResult<Self>)
        ensures
            final(reader).spec_data() == old(reader).spec_data(),
            opt_cursor_data(*final(ubulk)) == opt_cursor_data(*old(ubulk)),
            res is Ok <==> mip_ok(old(reader).spec_data(), old(reader).spec_pos(), opt_cursor_data(*old(ubulk))),
            res matches Ok(v) ==> mip_is(
                old(reader).spec_data(),
                old(reader).spec_pos(),
                opt_cursor_data(*old(ubulk)),
                v,
            ) && final(reader).spec_pos() == mip_end(old(reader).spec_data(), old(reader).spec_pos()),
    {
        reveal(mip_ok);
        reveal(mip_end);
        let cooked = match reader.read_i32() {
            Some(v) => v,
            None => return Err(error_msg("File Error: failed to fill whole buffer")),
        };
        let data = FByteBulkData::new(reader, ubulk)?;
        let x = reader.read_i32();
        let y = reader.read_i32();
        let z = reader.read_i32();
        let (size_x, size_y, size_z) = match (x, y, z) {
            (Some(x), Some(y), Some(z)) => (x, y, z),
            _ => return Err(error_msg("File Error: failed to fill whole buffer")),
        };
        if cooked != 1 {
            read_string(reader)?;
        }
        Ok(FTexture2DMipMap { data, size_x, size_y, size_z })
    }

    pub fn get_bytes(&self) -> (r: &Vec<u8>)
        ensures
            r@ == self.data.data@,
    {
        &self.data.data
    }

    pub fn get_bytes_move(self) -> (r: Vec<u8>)
        ensures
            r@ == self.data.data@,
    {
        self.data.data
    }

    pub fn get_width(&self) -> (r: u32)
        ensures
            r == self.size_x as u32,
    {
        self.size_x as u32
    }

    pub fn get_height(&self) -> (r: u32)
        ensures
            r == self.size_y as u32,
    {
        self.size_y as u32
    }
}

/// The texture data of one platform: sizes, pixel format and mip levels.
#[derive(Debug)]
pub struct FTexturePlatformData {
    pub size_x: i32,
    pub size_y: i32,
    pub num_slices: i32,
    pub pixel_format: String,
    pub first_mip: i32,
    pub mips: Vec<FTexture2DMipMap>,
    pub is_virtual: bool,
}

/// `n` mips read back to back from `p` succeed.
pub open spec fn mips_ok(d: Seq<u8>, p: int, u: Option<Seq<u8>>, n: nat) -> bool
    decreases n,
{
    n == 0 || (mips_ok(d, p, u, (n - 1) as nat) && mip_ok(d, mips_end(d, p, (n - 1) as nat), u))
}

pub open spec fn mips_end(d: Seq<u8>, p: int, n: nat) -> int
    decreases n,
{
    if n == 0 {
        p
    } else {
        mip_end(d, mips_end(d, p, (n - 1) as nat))
    }
}

/// `vs` are the mips with bytes among the `n` read back to back from `p`.
pub open spec fn mips_kept(d: Seq<u8>, p: int, u: Option<Seq<u8>>, n: nat, vs: Seq<FTexture2DMipMap>) -> bool
    decreases n,
{
    if n == 0 {
        vs.len() == 0
    } else {
        let q = mips_end(d, p, (n - 1) as nat);
        if mip_bytes(d, q, u).len() > 0 {
            vs.len() > 0 && mips_kept(d, p, u, (n - 1) as nat, vs.drop_last()) && mip_is(d, q, u, vs.last())
        } else {
            mips_kept(d, p, u, (n - 1) as nat, vs)
        }
    }
}

/// Where the mips of platform data at `p` start.
pub open spec fn platform_mips_pos(d: Seq<u8>, p: int) -> int {
    spec_string(d, p + 12).unwrap().1 + 8
}

pub open spec fn platform_ok(d: Seq<u8>, p: int, u: Option<Seq<u8>>) -> bool {
    let q = platform_mips_pos(d, p);
    let n = le_u32(d, q - 4) as nat;
    &&& avail(d, p, 12)
    &&& spec_string(d, p + 12) is Some
    &&& avail(d, q - 8, 8)
    &&& mips_ok(d, q, u, n)
    &&& avail(d, mips_end(d, q, n), 4)
    &&& le_u32(d, mips_end(d, q, n)) == 0
}

/// `v` is the platform data read at `p`: sizes, pixel format, first mip, and
/// the mips that hold bytes.
pub open spec fn platform_is(d: Seq<u8>, p: int, u: Option<Seq<u8>>, v: FTexturePlatformData) -> bool {
    let q = platform_mips_pos(d, p);
    &&& v.size_x == signed(le_u32(d, p), 32)
    &&& v.size_y == signed(le_u32(d, p + 4), 32)
    &&& v.num_slices == signed(le_u32(d, p + 8), 32)
    &&& v.pixel_format@ == spec_string(d, p + 12).unwrap().0
    &&& v.first_mip == signed(le_u32(d, q - 8), 32)
    &&& mips_kept(d, q, u, le_u32(d, q - 4) as nat, v.mips@)
    &&& !v.is_virtual
}

/// Where the platform data at `p` ends.
pub open spec fn platform_end(d: Seq<u8>, p: int) -> int {
    let q = platform_mips_pos(d, p);
    mips_end(d, q, le_u32(d, q - 4) as nat) + 4
}

impl FTexturePlatformData {
    #[verifier::rlimit(60)]
    pub fn new(reader: &mut ReaderCursor, ubulk: &mut Option<ReaderCursor>) -> (res: ParserResult<Self>)
        ensures
            final(reader).spec_data() == old(reader).spec_data(),
            opt_cursor_data(*final(ubulk)) == opt_cursor_data(*old(ubulk)),
            res is Ok <==> platform_ok(old(reader).spec_data(), old(reader).spec_pos(), opt_cursor_data(*old(ubulk))),
            res matches Ok(v) ==> platform_is(old(reader).spec_data(), old(reader).spec_pos(), opt_cursor_data(*old(ubulk)), v)
                && final(reader).spec_pos() == platform_end(old(reader).spec_data(), old(reader).spec_pos()),
    {
        let ghost d = reader.spec_data();
        let ghost p = reader.spec_pos();
        let ghost u = opt_cursor_data(*ubulk);
        let x = reader.read_i32();
        let y = reader.read_i32();
        let n = reader.read_i32();
        let (size_x, size_y, num_slices) = match (x, y, n) {
            (Some(x), Some(y), Some(n)) => (x, y, n),
            _ => return Err(error_msg("File Error: failed to fill whole buffer")),
        };
        let pixel_format = read_string(reader)?;
        let first_mip = match reader.read_i32() {
            Some(v) => v,
            None => return Err(error_msg("File Error: failed to fill whole buffer")),
        };
        let length = match reader.read_u32() {
            Some(v) => v,
            None => return Err(error_msg("File Error: failed to fill whole buffer")),
        };
        let ghost q = reader.spec_pos();
        let mut mips: Vec<FTexture2DMipMap> = Vec::new();
        let mut i: u32 = 0;
        while i < length
            invariant
                reader.spec_data() == d,
                d == old(reader).spec_data(),
                p == old(reader).spec_pos(),
                u == opt_cursor_data(*old(ubulk)),
                q == platform_mips_pos(d, p),
                length == le_u32(d, q - 4),
                avail(d, p, 12),
                spec_string(d, p + 12) is Some,
                avail(d, q - 8, 8),
                opt_cursor_data(*ubulk) == u,
                0 <= i <= length,
                mips_ok(d, q, u, i as nat),
                reader.spec_pos() == mips_end(d, q, i as nat),
                mips_kept(d, q, u, i as nat, mips@),
            decreases length - i,
        {
            let ghost before = mips@;
            let mip = match FTexture2DMipMap::new(reader, ubulk) {
                Ok(m) => m,
                Err(e) => {
                    proof {
                        if mips_ok(d, q, u, length as nat) {
                            lemma_mips_prefix(d, q, u, (i + 1) as nat, length as nat);
                        }
                    }
                    return Err(e);
                },
            };
            i = i + 1;
            if mip.data.data.len() == 0 {
                continue;
            }
            mips.push(mip);
            assert(mips@.drop_last() =~= before);
        }
        let is_virtual = match reader.read_u32() {
            Some(v) => v != 0,
            None => return Err(error_msg("File Error: failed to fill whole buffer")),
        };
        if is_virtual {
            return Err(error_msg("Texture is virtual, unsupported for now"));
        }
        Ok(FTexturePlatformData { size_x, size_y, num_slices, pixel_format, first_mip, mips, is_virtual })
    }
}

proof fn lemma_mips_prefix(d: Seq<u8>, p: int, u: Option<Seq<u8>>, k: nat, n: nat)
    requires
        k <= n,
        mips_ok(d, p, u, n),
    ensures
        mips_ok(d, p, u, k),
    decreases n - k,
{
    if k < n {
        lemma_mips_prefix(d, p, u, k, (n - 1) as nat);
    }
}

/// The summary at the start of a package in an I/O store container.
#[derive(Debug, Clone, Copy)]
pub struct FPackageSummary {
    pub name: FMappedName,
    pub source_name: FMappedName,
    pub package_flags: u32,
    pub header_size: u32,
    pub name_map_offset: i32,
    pub name_map_size: i32,
    pub name_map_hash_ofsset: i32,
    pub name_map_hash_size: i32,
    pub import_map_offset: i32,
    pub export_map_offset: i32,
    pub export_bundle_offset: i32,
    pub graph_data_offset: i32,
    pub graph_data_size: i32,
    pub pad: i32,
}

impl FPackageSummary {
    pub fn empty() -> (r: Self)
        ensures
            r.name == (FMappedName { index: 0, number: 0, name_type: FMappedNameType::Package }),
            r.source_name == r.name,
            r.package_flags == 0 && r.header_size == 0,
            r.name_map_offset == 0 && r.name_map_size == 0 && r.name_map_hash_ofsset == 0
                && r.name_map_hash_size == 0,
            r.import_map_offset == 0 && r.export_map_offset == 0 && r.export_bundle_offset == 0,
            r.graph_data_offset == 0 && r.graph_data_size == 0 && r.pad == 0,
    {
        FPackageSummary {
            name: FMappedName { index: 0, number: 0, name_type: FMappedNameType::Package },
            source_name: FMappedName { index: 0, number: 0, name_type: FMappedNameType::Package },
            package_flags: 0,
            header_size: 0,
            name_map_offset: 0,
            name_map_size: 0,
            name_map_hash_ofsset: 0,
            name_map_hash_size: 0,
            import_map_offset: 0,
            export_map_offset: 0,
            export_bundle_offset: 0,
            graph_data_offset: 0,
            graph_data_size: 0,
            pad: 0,
        }
    }
}

/// The signed 32-bit value at `p`.
pub open spec fn le_i32(d: Seq<u8>, p: int) -> int {
    signed(le_u32(d, p), 32)
}

impl Newable for FPackageSummary {
    open spec fn spec_ok(data: Seq<u8>, pos: int) -> bool {
        FMappedName::spec_ok(data, pos) && FMappedName::spec_ok(data, pos + 8) && avail(data, pos, 64)
    }

    open spec fn spec_end(data: Seq<u8>, pos: int) -> int {
        pos + 64
    }

    open spec fn spec_is(data: Seq<u8>, pos: int, v: Self) -> bool {
        &&& FMappedName::spec_is(data, pos, v.name)
        &&& FMappedName::spec_is(data, pos + 8, v.source_name)
        &&& v.package_flags == le_u32(data, pos + 16)
        &&& v.header_size == le_u32(data, pos + 20)
        &&& v.name_map_offset == le_i32(data, pos + 24)
        &&& v.name_map_size == le_i32(data, pos + 28)
        &&& v.name_map_hash_ofsset == le_i32(data, pos + 32)
        &&& v.name_map_hash_size == le_i32(data, pos + 36)
        &&& v.import_map_offset == le_i32(data, pos + 40)
        &&& v.export_map_offset == le_i32(data, pos + 44)
        &&& v.export_bundle_offset == le_i32(data, pos + 48)
        &&& v.graph_data_offset == le_i32(data, pos + 52)
        &&& v.graph_data_size == le_i32(data, pos + 56)
        &&& v.pad == le_i32(data, pos + 60)
    }

    fn new(reader: &mut ReaderCursor) -> (res: ParserResult<Self>) {
        let name = FMappedName::new(reader)?;
        let source_name = FMappedName::new(reader)?;
        let package_flags = reader.read_u32();
        let header_size = reader.read_u32();
        let (package_flags, header_size) = match (package_flags, header_size) {
            (Some(a), Some(b)) => (a, b),
            _ => return Err(error_msg("File Error: failed to fill whole buffer")),
        };
        let a = reader.read_i32();
        let b = reader.read_i32();
        let c = reader.read_i32();
        let e = reader.read_i32();
        let f = reader.read_i32();
        let g = reader.read_i32();
        let h = reader.read_i32();
        let i = reader.read_i32();
        let j = reader.read_i32();
        let k = reader.read_i32();
        match (a, b, c, e, f, g, h, i, j, k) {
            (Some(a), Some(b), Some(c), Some(e), Some(f), Some(g), Some(h), Some(i), Some(j), Some(k)) => Ok(
                FPackageSummary {
                    name,
                    source_name,
                    package_flags,
                    header_size,
                    name_map_offset: a,
                    name_map_size: b,
                    name_map_hash_ofsset: c,
                    name_map_hash_size: e,
                    import_map_offset: f,
                    export_map_offset: g,
                    export_bundle_offset: h,
                    graph_data_offset: i,
                    graph_data_size: j,
                    pad: k,
                },
            ),
            _ => Err(error_msg("File Error: failed to fill whole buffer")),
        }
    }
}

/// A dependency arc between two exports.
#[derive(Debug, Clone, Copy)]
pub struct FArc {
    pub from_index: u32,
    pub to_index: u32,
}

impl Newable for FArc {
    open spec fn spec_ok(data: Seq<u8>, pos: int) -> bool {
        avail(data, pos, 8)
    }

    open spec fn spec_end(data: Seq<u8>, pos: int) -> int {
        pos + 8
    }

    open spec fn spec_is(data: Seq<u8>, pos: int, v: Self) -> bool {
        v.from_index == le_u32(data, pos) && v.to_index == le_u32(data, pos + 4)
    }

    fn new(reader: &mut ReaderCursor) -> (res: ParserResult<Self>) {
        let a = reader.read_u32();
        let b = reader.read_u32();
        match (a, b) {
            (Some(a), Some(b)) => Ok(FArc { from_index: a, to_index: b }),
            _ => Err(error_msg("File Error: failed to fill whole buffer")),
        }
    }
}

/// An imported package: its id and the arcs into it.
#[derive(Debug)]
pub struct FImportedPackage {
    pub index: u64,
    pub arcs: Vec<FArc>,
}

impl Newable for FImportedPackage {
    open spec fn spec_ok(data: Seq<u8>, pos: int) -> bool {
        avail(data, pos, 8) && tarray_ok::<FArc>(data, pos + 8)
    }

    open spec fn spec_end(data: Seq<u8>, pos: int) -> int {
        tarray_end::<FArc>(data, pos + 8)
    }

    open spec fn spec_is(data: Seq<u8>, pos: int, v: Self) -> bool {
        v.index == crate::reader::le_u64(data, pos) && tarray_is::<FArc>(data, pos + 8, v.arcs@)
    }

    fn new(reader: &mut ReaderCursor) -> (res: ParserResult<Self>) {
        let index = match reader.read_u64() {
            Some(v) => v,
            None => return Err(error_msg("File Error: failed to fill whole buffer")),
        };
        let arcs = read_tarray(reader)?;
        Ok(FImportedPackage { index, arcs })
    }
}

/// The header of an export bundle: its first export and its entry count.
#[derive(Debug, Clone, Copy)]
pub struct FExportBundleHeader {
    pub first_export: u32,
    pub export_count: u32,
}

impl Newable for FExportBundleHeader {
    open spec fn spec_ok(data: Seq<u8>, pos: int) -> bool {
        avail(data, pos, 8)
    }

    open spec fn spec_end(data: Seq<u8>, pos: int) -> int {
        pos + 8
    }

    open spec fn spec_is(data: Seq<u8>, pos: int, v: Self) -> bool {
        v.first_export == le_u32(data, pos) && v.export_count == le_u32(data, pos + 4)
    }

    fn new(reader: &mut ReaderCursor) -> (res: ParserResult<Self>) {
        let a = reader.read_u32();
        let b = reader.read_u32();
        match (a, b) {
            (Some(a), Some(b)) => Ok(FExportBundleHeader { first_export: a, export_count: b }),
            _ => Err(error_msg("File Error: failed to fill whole buffer")),
        }
    }
}

/// An entry of an export bundle: an export and a command.
#[derive(Debug, Clone, Copy)]
pub struct FExportBundleEntry {
    pub export_index: u32,
    pub command_type: u32,
}

impl Newable for FExportBundleEntry {
    open spec fn spec_ok(data: Seq<u8>, pos: int) -> bool {
        avail(data, pos, 8)
    }

    open spec fn spec_end(data: Seq<u8>, pos: int) -> int {
        pos + 8
    }

    open spec fn spec_is(data: Seq<u8>, pos: int, v: Self) -> bool {
        v.export_index == le_u32(data, pos) && v.command_type == le_u32(data, pos + 4)
    }

    fn new(reader: &mut ReaderCursor) -> (res: ParserResult<Self>) {
        let a = reader.read_u32();
        let b = reader.read_u32();
        match (a, b) {
            (Some(a), Some(b)) => Ok(FExportBundleEntry { export_index: a, command_type: b }),
            _ => Err(error_msg("File Error: failed to fill whole buffer")),
        }
    }
}

/// The order in which a package's exports are serialized.
#[derive(Debug)]
pub struct FExportBundle {
    pub header: FExportBundleHeader,
    pub entries: Vec<FExportBundleEntry>,
}

/// The export order of `entries`: the index of each entry whose command is 1
/// (serialize), capped at `count - 1`.
pub open spec fn export_order(entries: Seq<FExportBundleEntry>, count: u32) -> Seq<u32>
    decreases entries.len(),
{
    if entries.len() == 0 {
        Seq::empty()
    } else {
        let rest = export_order(entries.drop_last(), count);
        let e = entries.last();
        if e.command_type == 1 {
            rest.push(if e.export_index < count - 1 {
                e.export_index
            } else {
                (count - 1) as u32
            })
        } else {
            rest
        }
    }
}

impl FExportBundle {
    pub fn get_export_order(&self) -> (r: Vec<u32>)
        requires
            self.header.export_count > 0 || forall|k: int|
                0 <= k < self.entries@.len() ==> #[trigger] self.entries@[k].command_type != 1,
        ensures
            r@ == export_order(self.entries@, self.header.export_count),
    {
        let mut out: Vec<u32> = Vec::new();
        let mut i: usize = 0;
        while i < self.entries.len()
            invariant
                0 <= i <= self.entries@.len(),
                self.header.export_count > 0 || forall|k: int|
                    0 <= k < self.entries@.len() ==> #[trigger] self.entries@[k].command_type != 1,
                out@ == export_order(self.entries@.take(i as int), self.header.export_count),
            decreases self.entries@.len() - i,
        {
            assert(self.entries@.take((i + 1) as int).drop_last() =~= self.entries@.take(i as int));
            let e = self.entries[i];
            if e.command_type == 1 {
                let cap = self.header.export_count - 1;
                out.push(if e.export_index < cap {
                    e.export_index
                } else {
                    cap
                });
            }
            i = i + 1;
        }
        assert(self.entries@.take(self.entries@.len() as int) =~= self.entries@);
        out
    }
}

impl Newable for FExportBundle {
    open spec fn spec_ok(data: Seq<u8>, pos: int) -> bool {
        avail(data, pos, 8) && elems_ok::<FExportBundleEntry>(data, pos + 8, le_u32(data, pos + 4) as nat)
    }

    open spec fn spec_end(data: Seq<u8>, pos: int) -> int {
        elems_end::<FExportBundleEntry>(data, pos + 8, le_u32(data, pos + 4) as nat)
    }

    open spec fn spec_is(data: Seq<u8>, pos: int, v: Self) -> bool {
        &&& FExportBundleHeader::spec_is(data, pos, v.header)
        &&& v.entries@.len() == v.header.export_count
        &&& elems_are::<FExportBundleEntry>(data, pos + 8, v.entries@)
    }

    fn new(reader: &mut ReaderCursor) -> (res: ParserResult<Self>) {
        let header = FExportBundleHeader::new(reader)?;
        let entries = read_elems(reader, header.export_count)?;
        Ok(FExportBundle { header, entries })
    }
}

/// What a package holds: the exports, whose type the caller chooses.
pub trait PackageExport {
    fn get_export_type(&self) -> &str;
}

/// The export of a package that was not parsed.
#[derive(Debug)]
pub struct EmptyPackage {}

impl EmptyPackage {
    pub fn new() -> (r: Self) {
        EmptyPackage {  }
    }
}

impl PackageExport for EmptyPackage {
    fn get_export_type(&self) -> (r: &str)
        ensures
            r@ == "EmptyPackage"@,
    {
        "EmptyPackage"
    }
}

/// The parsed data of a package: its summary, its exports and the packages it
/// imports.
pub struct Package<E> {
    pub summary: FPackageSummary,
    pub exports: Vec<E>,
    pub graph_data: Vec<FImportedPackage>,
}

impl<E> Package<E> {
    pub fn get_exports(self) -> (r: Vec<E>)
        ensures
            r@ == self.exports@,
    {
        self.exports
    }

    /// A reference to export `index`.
    pub fn get_export(&self, index: usize) -> (r: ParserResult<&E>)
        ensures
            r is Ok <==> index < self.exports@.len(),
            r matches Ok(e) ==> *e == self.exports@[index as int],
            r matches Err(e) ==> e.messages() == seq!["index "@ + digits(index as nat) + " out of range"@],
    {
        if index < self.exports.len() {
            Ok(&self.exports[index])
        } else {
            let msg = String::from_str("index ").concat(decimal_text(index as u64).as_str()).concat(" out of range");
            Err(ParserError::new(msg))
        }
    }

    /// Export `index`, taken out of the package.
    pub fn get_export_move(self, index: usize) -> (r: ParserResult<E>)
        ensures
            r is Ok <==> index < self.exports@.len(),
            r matches Ok(e) ==> e == self.exports@[index as int],
            r matches Err(e) ==> e.messages() == seq!["No exports found"@],
    {
        let mut exports = self.exports;
        if index < exports.len() {
            Ok(exports.swap_remove(index))
        } else {
            Err(error_msg("No exports found"))
        }
    }

    pub fn empty() -> (r: Self)
        ensures
            r.summary == FPackageSummary::empty_spec(),
            r.exports@.len() == 0,
            r.graph_data@.len() == 0,
    {
        Package { summary: FPackageSummary::empty(), exports: Vec::new(), graph_data: Vec::new() }
    }
}

impl FPackageSummary {
    pub open spec fn empty_spec() -> Self {
        FPackageSummary {
            name: FMappedName { index: 0, number: 0, name_type: FMappedNameType::Package },
            source_name: FMappedName { index: 0, number: 0, name_type: FMappedNameType::Package },
            package_flags: 0,
            header_size: 0,
            name_map_offset: 0,
            name_map_size: 0,
            name_map_hash_ofsset: 0,
            name_map_hash_size: 0,
            import_map_offset: 0,
            export_map_offset: 0,
            export_bundle_offset: 0,
            graph_data_offset: 0,
            graph_data_size: 0,
            pad: 0,
        }
    }
}

/// The names of a package, with the global tables.
pub struct NameMap {
    pub names: crate::dispatch::FNameMap,
}

/// The imports of a package, with the global tables.
pub struct ImportMap<'a> {
    pub imports: Vec<FPackageObjectIndex>,
    pub global: &'a crate::dispatch::LoaderGlobalData,
}

/// Reads a mapped name and looks it up in the package's names.
pub fn read_fname(reader: &mut ReaderCursor, name_map: &NameMap) -> (r: ParserResult<String>)
    ensures
        final(reader).spec_data() == old(reader).spec_data(),
        ({
            let d = old(reader).spec_data();
            let p = old(reader).spec_pos();
            let idx = (le_u32(d, p) as u32) & 0x3fff_ffff;
            &&& r is Ok <==> FMappedName::spec_ok(d, p) && idx < name_map.names@.len()
            &&& r matches Ok(s) ==> s@ == name_map.names@[idx as int] && final(reader).spec_pos() == p + 8
        }),
{
    let mapped_name = FMappedName::new(reader)?;
    let name = mapped_name.get_name(&name_map.names)?;
    Ok(name.to_owned())
}

impl FPackageObjectIndex {
    /// The class name of a script import, from the global tables.
    pub fn get_export_name<'a>(&self, name_map: &NameMap, import_map: &ImportMap<'a>) -> (r: ParserResult<&'a str>)
        ensures
            self.index_type == FPackageObjectIndexType::ScriptImport ==> match first_object_name(
                import_map.global,
                *self,
            ) {
                Some(n) => r matches Ok(s) && s@ == n,
                None => r is Err,
            },
            self.index_type != FPackageObjectIndexType::ScriptImport ==> r is Err,
    {
        match self.index_type {
            FPackageObjectIndexType::ScriptImport => match import_map.global.get_package_name(self) {
                Some(n) => Ok(n),
                None => Err(error_msg("No package class found")),
            },
            _ => Err(error_msg("Unknown Import Type")),
        }
    }
}

/// The name of the first global script object with index `index`, when it is
/// in the global name table.
pub open spec fn first_object_name(g: &crate::dispatch::LoaderGlobalData, index: FPackageObjectIndex) -> Option<
    Seq<char>,
> {
    match crate::dispatch::first_object(g.spec_objects(), index) {
        Some(i) => if g.spec_objects()[i].object_name.index < g.spec_names().len() {
            Some(g.spec_names()[g.spec_objects()[i].object_name.index as int])
        } else {
            None
        },
        None => None,
    }
}

/// An object reference: an export when not negative, else the import at
/// `-index - 1`.
#[derive(Debug, Clone, Copy)]
pub struct FPackageIndex {
    pub index: i32,
    pub import: Option<FPackageObjectIndex>,
}

/// The import an object reference points at.
pub open spec fn package_of(index: int, imports: Seq<FPackageObjectIndex>) -> Option<FPackageObjectIndex> {
    if index < 0 && -index - 1 < imports.len() {
        Some(imports[-index - 1])
    } else {
        None
    }
}

impl FPackageIndex {
    pub fn get_package(index: i32, import_map: &ImportMap) -> (r: Option<FPackageObjectIndex>)
        requires
            index > i32::MIN,
        ensures
            r == package_of(index as int, import_map.imports@),
    {
        if index < 0 {
            let k = (-index - 1) as usize;
            if k < import_map.imports.len() {
                return Some(import_map.imports[k]);
            }
        }
        None
    }

    pub fn get_import(&self) -> (r: &Option<FPackageObjectIndex>)
        ensures
            *r == self.import,
    {
        &self.import
    }

    /// Reads an object reference and resolves it against the imports.
    pub fn new_n(reader: &mut ReaderCursor, _name_map: &NameMap, import_map: &ImportMap) -> (r: ParserResult<
        Self,
    >)
        ensures
            final(reader).spec_data() == old(reader).spec_data(),
            ({
                let d = old(reader).spec_data();
                let p = old(reader).spec_pos();
                &&& r is Ok <==> avail(d, p, 4) && le_i32(d, p) != i32::MIN
                &&& r matches Ok(v) ==> v.index == le_i32(d, p) && v.import == package_of(
                    le_i32(d, p),
                    import_map.imports@,
                ) && final(reader).spec_pos() == p + 4
            }),
    {
        proof {
            lemma_pow2_values();
        }
        let index = match reader.read_i32() {
            Some(v) => v,
            None => return Err(error_msg("File Error: failed to fill whole buffer")),
        };
        if index == i32::MIN {
            return Err(error_msg("Import index out of range"));
        }
        let import = FPackageIndex::get_package(index, import_map);
        Ok(FPackageIndex { index, import })
    }
}

/// A localized text: flags, a history type and, by history type, either an
/// optional invariant string or a namespace, a key and a source string.
#[derive(Debug)]
pub struct FText {
    pub flags: u32,
    pub history_type: i8,
    pub namespace: String,
    pub key: String,
    pub source_string: String,
    pub invariant_text: String,
}

/// Where the strings of a text at `p` start.
pub open spec fn text_history(d: Seq<u8>, p: int) -> int {
    signed(d[p + 4] as int, 8)
}

pub open spec fn text_ok(d: Seq<u8>, p: int) -> bool {
    let h = text_history(d, p);
    let s1 = spec_string(d, p + 5);
    avail(d, p, 5) && if h == -1 {
        avail(d, p + 5, 4) && (le_u32(d, p + 5) != 0 ==> spec_string(d, p + 9) is Some)
    } else if h == 0 {
        &&& s1 is Some
        &&& spec_string(d, s1.unwrap().1) is Some
        &&& spec_string(d, spec_string(d, s1.unwrap().1).unwrap().1) is Some
    } else {
        false
    }
}

impl Newable for FText {
    open spec fn spec_ok(data: Seq<u8>, pos: int) -> bool {
        text_ok(data, pos)
    }

    open spec fn spec_end(data: Seq<u8>, pos: int) -> int {
        let s1 = spec_string(data, pos + 5);
        if text_history(data, pos) == -1 {
            if le_u32(data, pos + 5) != 0 {
                spec_string(data, pos + 9).unwrap().1
            } else {
                pos + 9
            }
        } else {
            spec_string(data, spec_string(data, s1.unwrap().1).unwrap().1).unwrap().1
        }
    }

    open spec fn spec_is(data: Seq<u8>, pos: int, v: Self) -> bool {
        let s1 = spec_string(data, pos + 5);
        &&& v.flags == le_u32(data, pos)
        &&& v.history_type == text_history(data, pos)
        &&& if text_history(data, pos) == -1 {
            &&& v.namespace@.len() == 0 && v.key@.len() == 0 && v.source_string@.len() == 0
            &&& v.invariant_text@ == if le_u32(data, pos + 5) != 0 {
                spec_string(data, pos + 9).unwrap().0
            } else {
                Seq::empty()
            }
        } else {
            &&& v.namespace@ == s1.unwrap().0
            &&& v.key@ == spec_string(data, s1.unwrap().1).unwrap().0
            &&& v.source_string@ == spec_string(data, spec_string(data, s1.unwrap().1).unwrap().1).unwrap().0
            &&& v.invariant_text@.len() == 0
        }
    }

    fn new(reader: &mut ReaderCursor) -> (res: ParserResult<Self>) {
        proof {
            lemma_pow2_values();
        }
        let flags = match reader.read_u32() {
            Some(v) => v,
            None => return Err(error_msg("File Error: failed to fill whole buffer")),
        };
        let history_type = match reader.read_i8() {
            Some(v) => v,
            None => return Err(error_msg("File Error: failed to fill whole buffer")),
        };
        if history_type == -1 {
            let has_invariant = match reader.read_u32() {
                Some(v) => v != 0,
                None => return Err(error_msg("File Error: failed to fill whole buffer")),
            };
            let invariant_text = if has_invariant {
                read_string(reader)?
            } else {
                String::new()
            };
            Ok(FText {
                flags,
                history_type,
                namespace: String::new(),
                key: String::new(),
                source_string: String::new(),
                invariant_text,
            })
        } else if history_type == 0 {
            let namespace = read_string(reader)?;
            let key = read_string(reader)?;
            let source_string = read_string(reader)?;
            Ok(FText { flags, history_type, namespace, key, source_string, invariant_text: String::new() })
        } else {
            Err(error_msg("Could not read history type"))
        }
    }
}

/// A soft reference to an object: an asset path name and a sub-path.
#[derive(Debug)]
pub struct FSoftObjectPath {
    pub asset_path_name: String,
    pub sub_path_string: String,
}

impl FSoftObjectPath {
    pub fn new_n(reader: &mut ReaderCursor, name_map: &NameMap, _import_map: &ImportMap) -> (r: ParserResult<Self>)
        ensures
            final(reader).spec_data() == old(reader).spec_data(),
            ({
                let d = old(reader).spec_data();
                let p = old(reader).spec_pos();
                let idx = (le_u32(d, p) as u32) & 0x3fff_ffff;
                &&& r is Ok <==> FMappedName::spec_ok(d, p) && idx < name_map.names@.len() && spec_string(d, p + 8) is Some
                &&& r matches Ok(v) ==> v.asset_path_name@ == name_map.names@[idx as int]
                    && v.sub_path_string@ == spec_string(d, p + 8).unwrap().0
                    && final(reader).spec_pos() == spec_string(d, p + 8).unwrap().1
            }),
    {
        let asset_path_name = read_fname(reader, name_map)?;
        let sub_path_string = read_string(reader)?;
        Ok(FSoftObjectPath { asset_path_name, sub_path_string })
    }
}

/// A delegate: an object and a function name.
#[derive(Debug)]
pub struct FScriptDelegate {
    pub object: i32,
    pub name: String,
}

impl FScriptDelegate {
    pub fn new_n(reader: &mut ReaderCursor, name_map: &NameMap, _import_map: &ImportMap) -> (r: ParserResult<Self>)
        ensures
            final(reader).spec_data() == old(reader).spec_data(),
            ({
                let d = old(reader).spec_data();
                let p = old(reader).spec_pos();
                let idx = (le_u32(d, p + 4) as u32) & 0x3fff_ffff;
                &&& r is Ok <==> avail(d, p, 4) && FMappedName::spec_ok(d, p + 4) && idx < name_map.names@.len()
                &&& r matches Ok(v) ==> v.object == le_i32(d, p) && v.name@ == name_map.names@[idx as int]
                    && final(reader).spec_pos() == p + 12
            }),
    {
        let object = match reader.read_i32() {
            Some(v) => v,
            None => return Err(error_msg("File Error: failed to fill whole buffer")),
        };
        let name = read_fname(reader, name_map)?;
        Ok(FScriptDelegate { object, name })
    }
}

/// An interface property: its number.
#[derive(Debug, Clone, Copy)]
pub struct UInterfaceProperty {
    pub interface_number: u32,
}

impl UInterfaceProperty {
    pub fn new_n(reader: &mut ReaderCursor, _name_map: &NameMap, _import_map: &ImportMap) -> (r: ParserResult<Self>)
        ensures
            final(reader).spec_data() == old(reader).spec_data(),
            r is Ok <==> avail(old(reader).spec_data(), old(reader).spec_pos(), 4),
            r matches Ok(v) ==> v.interface_number == le_u32(old(reader).spec_data(), old(reader).spec_pos()),
    {
        match reader.read_u32() {
            Some(v) => Ok(UInterfaceProperty { interface_number: v }),
            None => Err(error_msg("File Error: failed to fill whole buffer")),
        }
    }
}

/// The names `n` mapped names read back to back from `p` stand for.
pub open spec fn fnames_at(d: Seq<u8>, p: int, names: Seq<Seq<char>>, n: nat) -> Option<Seq<Seq<char>>>
    decreases n,
{
    if n == 0 {
        Some(Seq::empty())
    } else {
        match fnames_at(d, p, names, (n - 1) as nat) {
            Some(r) => {
                let q = p + 8 * (n - 1);
                let idx = (le_u32(d, q) as u32) & 0x3fff_ffff;
                if FMappedName::spec_ok(d, q) && idx < names.len() {
                    Some(r.push(names[idx as int]))
                } else {
                    None
                }
            },
            None => None,
        }
    }
}

/// A path of field names.
#[derive(Debug)]
pub struct FFieldPath {
    pub names: Vec<String>,
}

impl FFieldPath {
    /// Reads a count, then that many mapped names.
    pub fn new_n(reader: &mut ReaderCursor, name_map: &NameMap, _import_map: &ImportMap) -> (r: ParserResult<Self>)
        ensures
            final(reader).spec_data() == old(reader).spec_data(),
            ({
                let d = old(reader).spec_data();
                let p = old(reader).spec_pos();
                &&& r is Ok <==> avail(d, p, 4) && fnames_at(d, p + 4, name_map.names@, le_u32(d, p) as nat) is Some
                &&& r matches Ok(v) ==> Some(v.names@.map_values(|s: String| s@)) == fnames_at(
                    d,
                    p + 4,
                    name_map.names@,
                    le_u32(d, p) as nat,
                ) && final(reader).spec_pos() == p + 4 + 8 * le_u32(d, p)
            }),
    {
        let names = read_fname_array(reader, name_map)?;
        Ok(FFieldPath { names })
    }
}

/// Reads a count, then that many mapped names.
pub fn read_fname_array(reader: &mut ReaderCursor, name_map: &NameMap) -> (r: ParserResult<Vec<String>>)
    ensures
        final(reader).spec_data() == old(reader).spec_data(),
        ({
            let d = old(reader).spec_data();
            let p = old(reader).spec_pos();
            &&& r is Ok <==> avail(d, p, 4) && fnames_at(d, p + 4, name_map.names@, le_u32(d, p) as nat) is Some
            &&& r matches Ok(v) ==> Some(v@.map_values(|s: String| s@)) == fnames_at(
                d,
                p + 4,
                name_map.names@,
                le_u32(d, p) as nat,
            ) && final(reader).spec_pos() == p + 4 + 8 * le_u32(d, p)
        }),
{
    let ghost d = reader.spec_data();
    let ghost p = reader.spec_pos();
    let length = match reader.read_u32() {
        Some(v) => v,
        None => return Err(error_msg("File Error: failed to fill whole buffer")),
    };
    let mut names: Vec<String> = Vec::new();
    let mut i: u32 = 0;
    while i < length
        invariant
            reader.spec_data() == d,
            d == old(reader).spec_data(),
            p == old(reader).spec_pos(),
            0 <= i <= length,
            length == le_u32(d, p),
            reader.spec_pos() == p + 4 + 8 * i,
            fnames_at(d, p + 4, name_map.names@, i as nat) == Some(names@.map_values(|s: String| s@)),
        decreases length - i,
    {
        let ghost before = names@;
        let n = match read_fname(reader, name_map) {
            Ok(n) => n,
            Err(e) => {
                proof {
                    lemma_fnames_prefix(d, p + 4, name_map.names@, (i + 1) as nat, length as nat);
                }
                return Err(e);
            },
        };
        names.push(n);
        assert(names@.map_values(|s: String| s@) =~= before.map_values(|s: String| s@).push(n@));
        i = i + 1;
    }
    Ok(names)
}

proof fn lemma_fnames_prefix(d: Seq<u8>, p: int, names: Seq<Seq<char>>, k: nat, n: nat)
    requires
        k <= n,
        fnames_at(d, p, names, k) is None,
    ensures
        fnames_at(d, p, names, n) is None,
    decreases n - k,
{
    if k < n {
        lemma_fnames_prefix(d, p, names, k + 1, n);
    }
}

/// An entry of a package's export map.
#[derive(Debug, Clone, Copy)]
pub struct FExportMapEntry {
    pub serial_offset: u64,
    pub serial_size: u64,
    pub object_name: FMappedName,
    pub outer_index: FPackageObjectIndex,
    pub class_index: FPackageObjectIndex,
    pub super_index: FPackageObjectIndex,
    pub template_index: FPackageObjectIndex,
    pub global_import_index: FPackageObjectIndex,
    pub object_flags: u32,
    pub filter_flags: u8,
}

impl Newable for FExportMapEntry {
    /// 72 bytes, whose mapped name has a known type.
    open spec fn spec_ok(data: Seq<u8>, pos: int) -> bool {
        avail(data, pos, 72) && FMappedName::spec_ok(data, pos + 16)
    }

    open spec fn spec_end(data: Seq<u8>, pos: int) -> int {
        pos + 72
    }

    open spec fn spec_is(data: Seq<u8>, pos: int, v: Self) -> bool {
        &&& v.serial_offset == crate::reader::le_u64(data, pos)
        &&& v.serial_size == crate::reader::le_u64(data, pos + 8)
        &&& FMappedName::spec_is(data, pos + 16, v.object_name)
        &&& FPackageObjectIndex::spec_is(data, pos + 24, v.outer_index)
        &&& FPackageObjectIndex::spec_is(data, pos + 32, v.class_index)
        &&& FPackageObjectIndex::spec_is(data, pos + 40, v.super_index)
        &&& FPackageObjectIndex::spec_is(data, pos + 48, v.template_index)
        &&& FPackageObjectIndex::spec_is(data, pos + 56, v.global_import_index)
        &&& v.object_flags == le_u32(data, pos + 64)
        &&& v.filter_flags == data[pos + 68]
    }

    fn new(reader: &mut ReaderCursor) -> (res: ParserResult<Self>) {
        let ghost d = reader.spec_data();
        let ghost p = reader.spec_pos();
        let serial_offset = reader.read_u64();
        let serial_size = reader.read_u64();
        let (serial_offset, serial_size) = match (serial_offset, serial_size) {
            (Some(a), Some(b)) => (a, b),
            _ => return Err(error_msg("File Error: failed to fill whole buffer")),
        };
        let object_name = match FMappedName::new(reader) {
            Ok(n) => n,
            Err(e) => {
                assert(!Self::spec_ok(d, p));
                return Err(e);
            },
        };
        let outer_index = FPackageObjectIndex::new(reader)?;
        let class_index = FPackageObjectIndex::new(reader)?;
        let super_index = FPackageObjectIndex::new(reader)?;
        let template_index = FPackageObjectIndex::new(reader)?;
        let global_import_index = FPackageObjectIndex::new(reader)?;
        let object_flags = reader.read_u32();
        let filter_flags = reader.read_u8();
        let (object_flags, filter_flags) = match (object_flags, filter_flags) {
            (Some(a), Some(b)) => (a, b),
            _ => return Err(error_msg("File Error: failed to fill whole buffer")),
        };
        match reader.read_bytes(3) {
            Some(_) => {},
            None => return Err(error_msg("File Error: failed to fill whole buffer")),
        }
        Ok(FExportMapEntry {
            serial_offset,
            serial_size,
            object_name,
            outer_index,
            class_index,
            super_index,
            template_index,
            global_import_index,
            object_flags,
            filter_flags,
        })
    }
}

impl FExportMapEntry {
    /// The object's name in the package's names.
    pub fn get_object_name<'a>(&self, name_map: &'a NameMap) -> (r: ParserResult<&'a str>)
        ensures
            r is Ok <==> self.object_name.index < name_map.names@.len(),
            r matches Ok(s) ==> s@ == name_map.names@[self.object_name.index as int],
    {
        self.object_name.get_name(&name_map.names)
    }

    /// The name of the export's class: a script class by its global name, a
    /// class of an imported package by the object's own name.
    pub fn get_export_name<'a>(&self, name_map: &'a NameMap, import_map: &ImportMap<'a>) -> (r: ParserResult<&'a str>)
        ensures
            self.class_index.index_type == FPackageObjectIndexType::ScriptImport ==> match first_object_name(
                import_map.global,
                self.class_index,
            ) {
                Some(n) => r matches Ok(s) && s@ == n,
                None => r is Err,
            },
            self.class_index.index_type == FPackageObjectIndexType::PackageImport ==> (r is Ok <==> self.object_name.index
                < name_map.names@.len()) && (r matches Ok(s) ==> s@ == name_map.names@[self.object_name.index as int]),
            self.class_index.index_type != FPackageObjectIndexType::ScriptImport && self.class_index.index_type
                != FPackageObjectIndexType::PackageImport ==> r is Err,
    {
        match self.class_index.index_type {
            FPackageObjectIndexType::ScriptImport => self.class_index.get_export_name(name_map, import_map),
            FPackageObjectIndexType::PackageImport => self.get_object_name(name_map),
            _ => Err(error_msg("Unknown Export Map Type")),
        }
    }
}

/// The unsigned 64-bit value of a signed 32-bit value cast with `as`.
pub open spec fn i32_to_u64(x: int) -> int {
    if x >= 0 {
        x
    } else {
        x + 0x1_0000_0000_0000_0000
    }
}

pub fn i32_as_u64(x: i32) -> (r: u64)
    ensures
        r == i32_to_u64(x as int),
{
    let r = x as u64;
    assert(x >= 0 ==> r == x) by (bit_vector)
        requires
            r == x as u64,
    ;
    assert(x < 0 ==> r == x + 0x1_0000_0000_0000_0000) by (bit_vector)
        requires
            r == x as u64,
    ;
    r
}

/// The names of a package's name map: short strings read from `p` while the
/// position is not past `end`; `None` when one fails or `fuel` runs out.
pub open spec fn names_until(d: Seq<u8>, p: int, end: int, fuel: nat) -> Option<(Seq<Seq<char>>, int)>
    decreases fuel,
{
    if p > end {
        Some((Seq::empty(), p))
    } else if fuel == 0 {
        None
    } else {
        match spec_short_string(d, p) {
            Some((c, e)) => match names_until(d, e, end, (fuel - 1) as nat) {
                Some((cs, e2)) => Some((seq![c] + cs, e2)),
                None => None,
            },
            None => None,
        }
    }
}

/// Export map entries read from `p` while the position is before `end`.
pub open spec fn exports_until(d: Seq<u8>, p: int, end: int, fuel: nat, vs: Seq<FExportMapEntry>) -> bool
    decreases fuel,
{
    if p >= end {
        vs.len() == 0
    } else if fuel == 0 {
        false
    } else {
        FExportMapEntry::spec_ok(d, p) && vs.len() > 0 && FExportMapEntry::spec_is(d, p, vs[0])
            && exports_until(d, p + 72, end, (fuel - 1) as nat, vs.drop_first())
    }
}

pub open spec fn exports_until_ok(d: Seq<u8>, p: int, end: int, fuel: nat) -> bool
    decreases fuel,
{
    if p >= end {
        true
    } else if fuel == 0 {
        false
    } else {
        FExportMapEntry::spec_ok(d, p) && exports_until_ok(d, p + 72, end, (fuel - 1) as nat)
    }
}

pub open spec fn exports_count(p: int, end: int, fuel: nat) -> nat
    decreases fuel,
{
    if p >= end || fuel == 0 {
        0
    } else {
        1 + exports_count(p + 72, end, (fuel - 1) as nat)
    }
}

/// What a package's header holds, before its exports.
#[derive(Debug)]
pub struct PackageHeader {
    pub summary: FPackageSummary,
    pub name_map: crate::dispatch::FNameMap,
    pub import_map: Vec<FPackageObjectIndex>,
    pub export_map: Vec<FExportMapEntry>,
    pub export_order: Vec<u32>,
    pub graph_data: Vec<FImportedPackage>,
    pub export_start: u64,
}

pub open spec fn strings_of(v: Seq<String>) -> Seq<Seq<char>> {
    v.map_values(|s: String| s@)
}

/// Reads short strings while the position is not past `end`.
pub fn read_names_until(reader: &mut ReaderCursor, end: u64) -> (r: ParserResult<Vec<String>>)
    ensures
        final(reader).spec_data() == old(reader).spec_data(),
        match names_until(
            old(reader).spec_data(),
            old(reader).spec_pos(),
            end as int,
            old(reader).spec_data().len(),
        ) {
            Some((cs, e)) => r matches Ok(v) && strings_of(v@) == cs && final(reader).spec_pos() == e,
            None => r is Err,
        },
{
    let ghost d = reader.spec_data();
    let ghost p0 = reader.spec_pos();
    let mut fuel: usize = reader.len();
    let mut out: Vec<String> = Vec::new();
    assert(strings_of(out@) =~= Seq::<Seq<char>>::empty());
    while reader.position() <= end
        invariant
            reader.spec_data() == d,
            d == old(reader).spec_data(),
            p0 == old(reader).spec_pos(),
            match names_until(d, reader.spec_pos(), end as int, fuel as nat) {
                Some((cs, e)) => names_until(d, p0, end as int, d.len()) == Some((strings_of(out@) + cs, e)),
                None => names_until(d, p0, end as int, d.len()) is None,
            },
        decreases fuel,
    {
        if fuel == 0 {
            return Err(error_msg("Name map too long"));
        }
        let ghost before = out@;
        let ghost pos = reader.spec_pos();
        let c = read_short_string(reader)?;
        out.push(c);
        proof {
            assert(strings_of(out@) =~= strings_of(before).push(c@));
            match names_until(d, reader.spec_pos(), end as int, (fuel - 1) as nat) {
                Some((cs, e)) => {
                    assert(strings_of(before) + (seq![c@] + cs) =~= strings_of(out@) + cs);
                },
                None => {},
            }
        }
        fuel = fuel - 1;
    }
    proof {
        assert(strings_of(out@) + Seq::<Seq<char>>::empty() =~= strings_of(out@));
    }
    Ok(out)
}

/// Number of export map entries read from `p` while the position is before
/// `end`, each 72 bytes long.
pub open spec fn export_entry_count(p: int, end: int) -> nat {
    if p < end {
        ((end - p) / 72 + (if (end - p) % 72 != 0 {
            1int
        } else {
            0int
        })) as nat
    } else {
        0
    }
}

/// Where each part of a package header starts, from the summary's offsets.
pub open spec fn pkg_name_start(d: Seq<u8>) -> int {
    i32_to_u64(le_i32(d, 24))
}

pub open spec fn pkg_name_end(d: Seq<u8>) -> int {
    i32_to_u64(le_i32(d, 24) + le_i32(d, 28))
}

pub open spec fn pkg_import_start(d: Seq<u8>) -> int {
    i32_to_u64(le_i32(d, 40))
}

pub open spec fn pkg_import_count(d: Seq<u8>) -> nat {
    let diff = le_i32(d, 44) - le_i32(d, 40);
    if diff >= 0 {
        (diff / 8) as nat
    } else {
        0
    }
}

pub open spec fn pkg_export_start(d: Seq<u8>) -> int {
    elems_end::<FPackageObjectIndex>(d, pkg_import_start(d), pkg_import_count(d))
}

pub open spec fn pkg_export_count(d: Seq<u8>) -> nat {
    export_entry_count(pkg_export_start(d), i32_to_u64(le_i32(d, 48)))
}

pub open spec fn pkg_bundle_start(d: Seq<u8>) -> int {
    elems_end::<FExportMapEntry>(d, pkg_export_start(d), pkg_export_count(d))
}

pub open spec fn pkg_graph_start(d: Seq<u8>) -> int {
    i32_to_u64(le_i32(d, 52))
}

pub open spec fn in_i32(x: int) -> bool {
    i32::MIN <= x <= i32::MAX
}

/// The header of a package reads: the summary, the name map, the imports, the
/// export map, the export bundle and the imported packages.
pub open spec fn pkg_header_ok(d: Seq<u8>) -> bool {
    &&& FPackageSummary::spec_ok(d, 0)
    &&& in_i32(le_i32(d, 24) + le_i32(d, 28))
    &&& names_until(d, pkg_name_start(d), pkg_name_end(d), d.len()) is Some
    &&& in_i32(le_i32(d, 44) - le_i32(d, 40))
    &&& elems_ok::<FPackageObjectIndex>(d, pkg_import_start(d), pkg_import_count(d))
    &&& pkg_export_count(d) <= u32::MAX
    &&& elems_ok::<FExportMapEntry>(d, pkg_export_start(d), pkg_export_count(d))
    &&& FExportBundle::spec_ok(d, pkg_bundle_start(d))
    &&& tarray_ok::<FImportedPackage>(d, pkg_graph_start(d))
    &&& in_i32(le_i32(d, 52) + le_i32(d, 56))
}

/// `h` is the header read from the package `d`: the summary, the names, the
/// imports, the export map, the export order of the export bundle, the
/// imported packages, and where the first export starts.
pub open spec fn header_is(d: Seq<u8>, h: PackageHeader) -> bool {
    &&& FPackageSummary::spec_is(d, 0, h.summary)
    &&& Some((h.name_map@, names_until(d, pkg_name_start(d), pkg_name_end(d), d.len()).unwrap().1))
        == names_until(d, pkg_name_start(d), pkg_name_end(d), d.len())
    &&& h.import_map@.len() == pkg_import_count(d)
    &&& elems_are::<FPackageObjectIndex>(d, pkg_import_start(d), h.import_map@)
    &&& h.export_map@.len() == pkg_export_count(d)
    &&& elems_are::<FExportMapEntry>(d, pkg_export_start(d), h.export_map@)
    &&& (exists|b: FExportBundle|
        #[trigger] FExportBundle::spec_is(d, pkg_bundle_start(d), b) && h.export_order@ == export_order(
            b.entries@,
            b.header.export_count,
        ))
    &&& tarray_is::<FImportedPackage>(d, pkg_graph_start(d), h.graph_data@)
    &&& h.export_start == i32_to_u64(le_i32(d, 52) + le_i32(d, 56))
}

/// Reads the header of a package, everything before its exports: the summary,
/// the names, the imports, the export map, the export order and the imported
/// packages, and where the first export starts.
pub fn parse_package_header(uasset: &[u8]) -> (r: ParserResult<PackageHeader>)
    ensures
        r is Ok <==> pkg_header_ok(uasset@),
        r matches Ok(h) ==> header_is(uasset@, h),
{
    let ghost d = uasset@;
    let mut cursor = ReaderCursor::new(uasset);
    let summary = FPackageSummary::new(&mut cursor)?;
    let name_end = match summary.name_map_offset.checked_add(summary.name_map_size) {
        Some(v) => v,
        None => return Err(error_msg("Name map out of range")),
    };
    cursor.seek(i32_as_u64(summary.name_map_offset));
    let names = read_names_until(&mut cursor, i32_as_u64(name_end))?;
    let name_map = crate::dispatch::FNameMap::from_strings(names);
    cursor.seek(i32_as_u64(summary.import_map_offset));
    let diff = match summary.export_map_offset.checked_sub(summary.import_map_offset) {
        Some(v) => v,
        None => return Err(error_msg("Import map out of range")),
    };
    let import_length: u32 = if diff >= 0 {
        (diff / 8) as u32
    } else {
        0
    };
    let import_map: Vec<FPackageObjectIndex> = read_elems(&mut cursor, import_length)?;
    let pos = cursor.position();
    let bundle_offset = i32_as_u64(summary.export_bundle_offset);
    let export_count: u64 = if pos < bundle_offset {
        (bundle_offset - pos) / 72 + (if (bundle_offset - pos) % 72 != 0 {
            1u64
        } else {
            0u64
        })
    } else {
        0
    };
    if export_count > u32::MAX as u64 {
        return Err(error_msg("Export map too long"));
    }
    let export_map: Vec<FExportMapEntry> = read_elems(&mut cursor, export_count as u32)?;
    let export_bundle = FExportBundle::new(&mut cursor)?;
    let order = export_bundle.get_export_order();
    cursor.seek(i32_as_u64(summary.graph_data_offset));
    let graph_data: Vec<FImportedPackage> = read_tarray(&mut cursor)?;
    let graph_end = match summary.graph_data_offset.checked_add(summary.graph_data_size) {
        Some(v) => v,
        None => return Err(error_msg("Graph data out of range")),
    };
    let export_start = i32_as_u64(graph_end);
    assert(FExportBundle::spec_is(d, pkg_bundle_start(d), export_bundle) && order@ == export_order(
        export_bundle.entries@,
        export_bundle.header.export_count,
    ));
    Ok(PackageHeader { summary, name_map, import_map, export_map, export_order: order, graph_data, export_start })
}

/// Where the `k`-th export in serialization order starts: after those before
/// it in that order.
pub open spec fn export_pos(exports: Seq<FExportMapEntry>, order: Seq<u32>, start: int, k: int) -> int
    decreases k,
{
    if k <= 0 {
        start
    } else {
        export_pos(exports, order, start, k - 1) + exports[order[k - 1] as int].serial_size
    }
}

/// Each export of `order` with where it starts, the exports following one
/// another from `start` (the positions a package reader seeks to); `None`
/// when an index is out of the export map or a position passes 64 bits.
pub fn export_positions(export_map: &Vec<FExportMapEntry>, order: &Vec<u32>, start: u64) -> (r: Option<Vec<(u32, u64)>>)
    ensures
        r is Some <==> (forall|k: int| 0 <= k < order@.len() ==> #[trigger] order@[k] < export_map@.len())
            && export_pos(export_map@, order@, start as int, order@.len() as int) <= u64::MAX,
        r matches Some(v) ==> v@.len() == order@.len() && forall|k: int|
            0 <= k < order@.len() ==> #[trigger] v@[k] == (order@[k], export_pos(export_map@, order@, start as int, k) as u64),
{
    let mut out: Vec<(u32, u64)> = Vec::new();
    let mut pos: u64 = start;
    let mut k: usize = 0;
    while k < order.len()
        invariant
            0 <= k <= order@.len(),
            out@.len() == k,
            forall|j: int| 0 <= j < k ==> #[trigger] order@[j] < export_map@.len(),
            pos == export_pos(export_map@, order@, start as int, k as int),
            forall|j: int| 0 <= j < k ==> #[trigger] out@[j] == (order@[j], export_pos(export_map@, order@, start as int, j) as u64),
        decreases order@.len() - k,
    {
        let idx = order[k];
        if idx as usize >= export_map.len() {
            return None;
        }
        out.push((idx, pos));
        let size = export_map[idx as usize].serial_size;
        if pos > u64::MAX - size {
            proof {
                lemma_export_pos_grows(export_map@, order@, start as int, (k + 1) as int, order@.len() as int);
            }
            return None;
        }
        pos = pos + size;
        k = k + 1;
    }
    Some(out)
}

proof fn lemma_export_pos_grows(exports: Seq<FExportMapEntry>, order: Seq<u32>, start: int, a: int, b: int)
    requires
        0 <= a <= b <= order.len(),
    ensures
        export_pos(exports, order, start, a) <= export_pos(exports, order, start, b),
    decreases b - a,
{
    if a < b {
        lemma_export_pos_grows(exports, order, start, a, b - 1);
    }
}

#[verifier::external_type_specification]
#[verifier::external_body]
#[verifier::reject_recursive_types(B)]
pub struct ExBitVec<B>(bit_vec::BitVec<B>);

/// The bits a `bit_vec::BitVec` holds, in order.
pub uninterp spec fn bitvec_bits(v: bit_vec::BitVec) -> Seq<bool>;

/// The bits of `bytes`, eight per byte, most significant bit first.
pub open spec fn bits_of_bytes(bytes: Seq<u8>) -> Seq<bool> {
    Seq::new(8 * bytes.len(), |i: int| (bytes[i / 8] >> ((7 - i % 8) as u8)) & 1 == 1)
}

/// Calls `bit_vec::BitVec::new`, an empty vector of bits.
#[verifier::external_body]
fn bitvec_new() -> (r: bit_vec::BitVec)
    ensures
        bitvec_bits(r) == Seq::<bool>::empty(),
{
    bit_vec::BitVec::new()
}

/// Calls `bit_vec::BitVec::from_bytes`, whose documentation says that each byte
/// becomes eight bits, the most significant first; it panics when the number
/// of bits does not fit in `usize`.
#[verifier::external_body]
fn bitvec_from_bytes(bytes: &[u8]) -> (r: bit_vec::BitVec)
    requires
        8 * bytes@.len() <= usize::MAX,
    ensures
        bitvec_bits(r) == bits_of_bytes(bytes@),
{
    bit_vec::BitVec::from_bytes(bytes)
}

/// Calls `bit_vec::BitVec::get`: the bit at `i`, or `None` past the end.
#[verifier::external_body]
fn bitvec_get(v: &bit_vec::BitVec, i: usize) -> (r: Option<bool>)
    ensures
        r == (if i < bitvec_bits(*v).len() {
            Some(bitvec_bits(*v)[i as int])
        } else {
            None
        }),
{
    v.get(i)
}

/// Calls `bit_vec::BitVec::len`, the number of bits.
#[verifier::external_body]
fn bitvec_len(v: &bit_vec::BitVec) -> (r: usize)
    ensures
        r == bitvec_bits(*v).len(),
{
    v.len()
}

/// A fragment of an unversioned property header: properties to skip, then a
/// run of properties present, with a flag for zero masks and one for the last
/// fragment.
#[derive(Debug, Clone, Copy)]
pub struct FFragment {
    pub skip_num: u32,
    pub has_zeroes: bool,
    pub value: u32,
    pub is_last: bool,
}

/// The fragment a 16-bit word packs: 7 bits of skip count, a zero flag, a last
/// flag and 7 bits of run length.
pub open spec fn fragment_of(w: u16) -> FFragment {
    FFragment {
        skip_num: (w & 0x7f) as u32,
        has_zeroes: w & 0x80 != 0,
        value: (w >> 9u16) as u32,
        is_last: w & 0x100 != 0,
    }
}

impl Newable for FFragment {
    open spec fn spec_ok(data: Seq<u8>, pos: int) -> bool {
        avail(data, pos, 2)
    }

    open spec fn spec_end(data: Seq<u8>, pos: int) -> int {
        pos + 2
    }

    open spec fn spec_is(data: Seq<u8>, pos: int, v: Self) -> bool {
        v == fragment_of(le_u16(data, pos) as u16)
    }

    #[verifier::spinoff_prover]
    fn new(reader: &mut ReaderCursor) -> (res: ParserResult<Self>) {
        let ghost d = reader.spec_data();
        let ghost p = reader.spec_pos();
        let data = match reader.read_u16() {
            Some(v) => v,
            None => {
                assert(!avail(d, p, 2));
                assert(!Self::spec_ok(d, p));
                return Err(error_msg("File Error: failed to fill whole buffer"));
            },
        };
        assert(Self::spec_ok(d, p));
        assert(data == le_u16(d, p) as u16);
        let r = FFragment {
            skip_num: (data & 0x7f) as u32,
            has_zeroes: data & 0x80 != 0,
            value: (data >> 9u16) as u32,
            is_last: data & 0x100 != 0,
        };
        assert(r == fragment_of(data));
        assert(Self::spec_is(d, p, r));
        assert(reader.spec_pos() == Self::spec_end(d, p));
        Ok(r)
    }
}

/// `dividend / divisor` rounded up.
pub fn divide_round_up(dividend: u32, divisor: u32) -> (r: u32)
    requires
        divisor > 0,
        dividend + divisor <= u32::MAX,
    ensures
        r == (dividend + divisor - 1) / divisor as int,
        r * divisor >= dividend,
        r == 0 || (r - 1) * divisor < dividend,
{
    proof {
        vstd::arithmetic::div_mod::lemma_fundamental_div_mod(
            (dividend + divisor - 1) as int,
            divisor as int,
        );
        let n = (dividend + divisor - 1) as int;
        let d = divisor as int;
        let q = n / d;
        assert(q * d >= dividend && (q == 0 || (q - 1) * d < dividend)) by (nonlinear_arith)
            requires
                n == d * q + n % d,
                0 <= n % d < d,
                n == dividend + d - 1,
                d > 0,
                q >= 0,
        ;
    }
    (dividend + divisor - 1) / divisor
}

/// A property index and whether its value is zero.
#[derive(Debug, Clone, Copy)]
pub struct PropertyIndex {
    pub index: u32,
    pub zero: bool,
}

/// The fragments read from `p` up to the first one marked last, and where
/// they end; `None` when a read fails or `fuel` runs out.
pub open spec fn fragments_at(d: Seq<u8>, p: int, fuel: nat) -> Option<(Seq<FFragment>, int)>
    decreases fuel,
{
    if fuel == 0 || !avail(d, p, 2) {
        None
    } else {
        let f = fragment_of(le_u16(d, p) as u16);
        if f.is_last {
            Some((seq![f], p + 2))
        } else {
            match fragments_at(d, p + 2, (fuel - 1) as nat) {
                Some((fs, e)) => Some((seq![f] + fs, e)),
                None => None,
            }
        }
    }
}

/// The number of zero-mask bits the fragments `fs` use.
pub open spec fn zero_count(fs: Seq<FFragment>) -> int
    decreases fs.len(),
{
    if fs.len() == 0 {
        0
    } else {
        zero_count(fs.drop_last()) + if fs.last().has_zeroes {
            fs.last().value as int
        } else {
            0
        }
    }
}

/// How many bytes hold `n` zero-mask bits.
pub open spec fn zero_mask_bytes(n: int) -> int {
    if n <= 8 {
        1
    } else if n <= 16 {
        2
    } else {
        (n + 31) / 32 * 4
    }
}

/// The header of unversioned properties: the fragments, and the zero mask.
#[derive(Debug)]
pub struct FUnversionedHeader {
    pub fragments: Vec<FFragment>,
    pub zero_data: bit_vec::BitVec,
}

/// Zero bit `z` of a mask: bits come most significant first in each byte, and
/// the mask numbers them least significant first.
pub open spec fn zero_bit(bits: Seq<bool>, z: int) -> bool {
    bits[(z / 8) * 8 + (7 - z % 8)]
}

/// The index and zero mark of each property the fragments `fs` list, and the
/// running property index and zero-bit index after them.
pub open spec fn frag_indices(fs: Seq<FFragment>, bits: Seq<bool>) -> (Seq<PropertyIndex>, int, int)
    decreases fs.len(),
{
    if fs.len() == 0 {
        (Seq::empty(), 0, 0)
    } else {
        let (prev, i0, z0) = frag_indices(fs.drop_last(), bits);
        let f = fs.last();
        let start = i0 + f.skip_num;
        let block = Seq::new(
            f.value as nat,
            |t: int| PropertyIndex { index: (start + t) as u32, zero: f.has_zeroes && zero_bit(bits, z0 + t) },
        );
        (prev + block, start + f.value, if f.has_zeroes {
            z0 + f.value
        } else {
            z0
        })
    }
}

impl FUnversionedHeader {
    /// Zero bit `idx` of the mask.
    pub fn is_zero(&self, idx: usize) -> (r: bool)
        requires
            (idx / 8) * 8 + (7 - idx % 8) < bitvec_bits(self.zero_data).len(),
        ensures
            r == zero_bit(bitvec_bits(self.zero_data), idx as int),
    {
        let t_byte = idx / 8;
        let t_bit = idx % 8;
        let target = (t_byte * 8) + (7 - t_bit);
        match bitvec_get(&self.zero_data, target) {
            Some(b) => b,
            None => false,
        }
    }

    /// Each property the header lists, when the indices fit in 32 bits and the
    /// zero mask holds every bit that the fragments use; `None` otherwise.
    pub fn property_indices(&self) -> (r: Option<Vec<PropertyIndex>>)
        ensures
            r is Some <==> frag_indices(self.fragments@, bitvec_bits(self.zero_data)).1 <= u32::MAX
                && (frag_indices(self.fragments@, bitvec_bits(self.zero_data)).2 + 7) / 8 * 8
                <= bitvec_bits(self.zero_data).len(),
            r matches Some(v) ==> v@ == frag_indices(self.fragments@, bitvec_bits(self.zero_data)).0,
    {
        let ghost bits = bitvec_bits(self.zero_data);
        let ghost fs = self.fragments@;
        let n_bits = bitvec_len(&self.zero_data);
        let mut i: u64 = 0;
        let mut z: u64 = 0;
        let mut h: usize = 0;
        while h < self.fragments.len()
            invariant
                bits == bitvec_bits(self.zero_data),
                fs == self.fragments@,
                0 <= h <= fs.len(),
                z <= i <= u32::MAX,
                i == frag_indices(fs.take(h as int), bits).1,
                z == frag_indices(fs.take(h as int), bits).2,
            decreases fs.len() - h,
        {
            let f = self.fragments[h];
            proof {
                assert(fs.take((h + 1) as int).drop_last() =~= fs.take(h as int));
                lemma_frag_bounds(fs, bits, (h + 1) as nat);
            }
            i = i + f.skip_num as u64 + f.value as u64;
            if f.has_zeroes {
                z = z + f.value as u64;
            }
            if i > 0xffff_ffff {
                return None;
            }
            h = h + 1;
        }
        assert(fs.take(fs.len() as int) =~= fs);
        let need: u64 = (z + 7) / 8 * 8;
        if need > n_bits as u64 {
            return None;
        }
        Some(self.get_indices())
    }

    /// Each property the header lists, with its index and whether it is zero.
    pub fn get_indices(&self) -> (r: Vec<PropertyIndex>)
        requires
            frag_indices(self.fragments@, bitvec_bits(self.zero_data)).1 <= u32::MAX,
            (frag_indices(self.fragments@, bitvec_bits(self.zero_data)).2 + 7) / 8 * 8 <= bitvec_bits(self.zero_data).len(),
            bitvec_bits(self.zero_data).len() <= usize::MAX,
        ensures
            r@ == frag_indices(self.fragments@, bitvec_bits(self.zero_data)).0,
    {
        let ghost bits = bitvec_bits(self.zero_data);
        let ghost fs = self.fragments@;
        let mut i: u32 = 0;
        let mut zero_i: usize = 0;
        let mut vals: Vec<PropertyIndex> = Vec::new();
        let mut h: usize = 0;
        while h < self.fragments.len()
            invariant
                bits == bitvec_bits(self.zero_data),
                bits.len() <= usize::MAX,
                fs == self.fragments@,
                0 <= h <= fs.len(),
                frag_indices(fs, bits).1 <= u32::MAX,
                (frag_indices(fs, bits).2 + 7) / 8 * 8 <= bits.len(),
                frag_indices(fs.take(h as int), bits) == (vals@, i as int, zero_i as int),
            decreases fs.len() - h,
        {
            let header = self.fragments[h];
            proof {
                assert(fs.take((h + 1) as int).drop_last() =~= fs.take(h as int));
                lemma_frag_bounds(fs, bits, (h + 1) as nat);
                lemma_round8_mono(frag_indices(fs.take((h + 1) as int), bits).2, frag_indices(fs, bits).2);
            }
            i = i + header.skip_num;
            let ghost before = vals@;
            let ghost z0 = zero_i as int;
            let ghost start = i as int;
            let mut t: u32 = 0;
            while t < header.value
                invariant
                    bits == bitvec_bits(self.zero_data),
                    bits.len() <= usize::MAX,
                    0 <= t <= header.value,
                    i == start,
                    start + header.value <= u32::MAX,
                    header.has_zeroes ==> (z0 + header.value + 7) / 8 * 8 <= bits.len(),
                    zero_i == z0 + (if header.has_zeroes { t as int } else { 0 }),
                    vals@ == before + Seq::new(
                        t as nat,
                        |k: int| PropertyIndex { index: (start + k) as u32, zero: header.has_zeroes && zero_bit(bits, z0 + k) },
                    ),
                decreases header.value - t,
            {
                let ghost prev = vals@;
                let zero = if header.has_zeroes {
                    proof {
                        lemma_round8_mono(zero_i + 1, z0 + header.value);
                        assert((zero_i / 8) * 8 + (7 - zero_i % 8) < ((zero_i + 1 + 7) / 8) * 8) by (nonlinear_arith);
                    }
                    self.is_zero(zero_i)
                } else {
                    false
                };
                vals.push(PropertyIndex { index: t + i, zero });
                if header.has_zeroes {
                    proof {
                        lemma_round8_mono(zero_i + 1, z0 + header.value);
                    }
                    zero_i = zero_i + 1;
                }
                t = t + 1;
                assert(vals@ =~= before + Seq::new(
                    t as nat,
                    |k: int| PropertyIndex { index: (start + k) as u32, zero: header.has_zeroes && zero_bit(bits, z0 + k) },
                ));
            }
            i = i + header.value;
            h = h + 1;
        }
        assert(fs.take(fs.len() as int) =~= fs);
        vals
    }
}

/// The properties an unversioned header lists come in strictly increasing
/// order of index, each below the index the header ends at.
pub proof fn lemma_indices_increasing(fs: Seq<FFragment>, bits: Seq<bool>)
    requires
        frag_indices(fs, bits).1 <= u32::MAX,
    ensures
        ({
            let ps = frag_indices(fs, bits).0;
            &&& forall|i: int, j: int| 0 <= i < j < ps.len() ==> #[trigger] ps[i].index < #[trigger] ps[j].index
            &&& forall|i: int| 0 <= i < ps.len() ==> #[trigger] ps[i].index < frag_indices(fs, bits).1
        }),
    decreases fs.len(),
{
    if fs.len() > 0 {
        let init = fs.drop_last();
        lemma_frag_nonneg(init, bits);
        let (prev, i0, z0) = frag_indices(init, bits);
        let f = fs.last();
        let start = i0 + f.skip_num;
        lemma_indices_increasing(init, bits);
        let ps = frag_indices(fs, bits).0;
        assert forall|i: int| 0 <= i < ps.len() implies #[trigger] ps[i].index == (if i < prev.len() {
            prev[i].index as int
        } else {
            start + (i - prev.len())
        }) && ps[i].index < frag_indices(fs, bits).1 by {
            if i >= prev.len() {
                assert(ps[i] == PropertyIndex {
                    index: (start + (i - prev.len())) as u32,
                    zero: f.has_zeroes && zero_bit(bits, z0 + (i - prev.len())),
                });
            }
        }
    }
}

/// A raw package object index splits without loss into its 62-bit index and
/// its two-bit kind.
pub proof fn lemma_object_index_split(data: u64)
    ensures
        data & 0x3fff_ffff_ffff_ffff < 0x4000_0000_0000_0000,
        data >> 62u64 < 4,
        data == ((data >> 62u64) << 62u64) | (data & 0x3fff_ffff_ffff_ffff),
{
    assert(data & 0x3fff_ffff_ffff_ffff < 0x4000_0000_0000_0000) by (bit_vector);
    assert(data >> 62u64 < 4) by (bit_vector);
    assert(data == ((data >> 62u64) << 62u64) | (data & 0x3fff_ffff_ffff_ffff)) by (bit_vector);
}

proof fn lemma_round8_mono(a: int, b: int)
    requires
        0 <= a <= b,
    ensures
        a <= (a + 7) / 8 * 8 <= (b + 7) / 8 * 8,
{
    assert(a <= (a + 7) / 8 * 8) by (nonlinear_arith)
        requires
            0 <= a,
    ;
    assert((a + 7) / 8 <= (b + 7) / 8) by (nonlinear_arith)
        requires
            a <= b,
    ;
}

proof fn lemma_frag_nonneg(fs: Seq<FFragment>, bits: Seq<bool>)
    ensures
        0 <= frag_indices(fs, bits).1,
        0 <= frag_indices(fs, bits).2,
    decreases fs.len(),
{
    if fs.len() > 0 {
        lemma_frag_nonneg(fs.drop_last(), bits);
    }
}

proof fn lemma_frag_bounds(fs: Seq<FFragment>, bits: Seq<bool>, k: nat)
    requires
        k <= fs.len(),
    ensures
        frag_indices(fs.take(k as int), bits).1 <= frag_indices(fs, bits).1,
        frag_indices(fs.take(k as int), bits).2 <= frag_indices(fs, bits).2,
        0 <= frag_indices(fs.take(k as int), bits).2,
    decreases fs.len() - k,
{
    lemma_frag_nonneg(fs.take(k as int), bits);
    if k < fs.len() {
        assert(fs.take((k + 1) as int).drop_last() =~= fs.take(k as int));
        lemma_frag_bounds(fs, bits, k + 1);
    } else {
        assert(fs.take(k as int) =~= fs);
    }
}

/// The zero-mask bytes and the fragments of an unversioned header at `p` read.
pub open spec fn unversioned_ok(d: Seq<u8>, p: int) -> bool {
    match fragments_at(d, p, d.len()) {
        Some((fs, e)) => {
            let zc = zero_count(fs);
            &&& zc <= 16 || zc + 32 <= u32::MAX
            &&& zc > 0 ==> avail(d, e, zero_mask_bytes(zc))
        },
        None => false,
    }
}

impl Newable for FUnversionedHeader {
    open spec fn spec_ok(data: Seq<u8>, pos: int) -> bool {
        unversioned_ok(data, pos)
    }

    open spec fn spec_end(data: Seq<u8>, pos: int) -> int {
        let (fs, e) = fragments_at(data, pos, data.len()).unwrap();
        if zero_count(fs) > 0 {
            e + zero_mask_bytes(zero_count(fs))
        } else {
            e
        }
    }

    open spec fn spec_is(data: Seq<u8>, pos: int, v: Self) -> bool {
        let (fs, e) = fragments_at(data, pos, data.len()).unwrap();
        let zc = zero_count(fs);
        &&& v.fragments@ == fs
        &&& bitvec_bits(v.zero_data) == if zc > 0 {
            bits_of_bytes(bytes_at(data, e, zero_mask_bytes(zc) as nat))
        } else {
            Seq::empty()
        }
    }

    fn new(reader: &mut ReaderCursor) -> (res: ParserResult<Self>) {
        let ghost d = reader.spec_data();
        let ghost p0 = reader.spec_pos();
        let mut fuel: usize = reader.len();
        let mut fragments: Vec<FFragment> = Vec::new();
        let mut zero_mask_num: u32 = 0;
        loop
            invariant_except_break
                match fragments_at(d, reader.spec_pos(), fuel as nat) {
                    Some((fs, e)) => fragments_at(d, p0, d.len()) == Some((fragments@ + fs, e)),
                    None => fragments_at(d, p0, d.len()) is None,
                },
            invariant
                reader.spec_data() == d,
                d == old(reader).spec_data(),
                p0 == old(reader).spec_pos(),
                zero_mask_num == zero_count(fragments@),
            ensures
                reader.spec_data() == d,
                zero_mask_num == zero_count(fragments@),
                fragments_at(d, p0, d.len()) == Some((fragments@, reader.spec_pos())),
            decreases fuel,
        {
            if fuel == 0 {
                return Err(error_msg("Too many fragments"));
            }
            let ghost before = fragments@;
            let ghost pos = reader.spec_pos();
            let property_header = FFragment::new(reader)?;
            fragments.push(property_header);
            assert(fragments@.drop_last() =~= before);
            if property_header.has_zeroes {
                if zero_mask_num > u32::MAX - property_header.value {
                    proof {
                        match fragments_at(d, p0, d.len()) {
                            Some((all, e)) => {
                                let rest: Seq<FFragment> = if property_header.is_last {
                                    Seq::empty()
                                } else {
                                    fragments_at(d, pos + 2, (fuel - 1) as nat).unwrap().0
                                };
                                assert(all =~= fragments@ + rest);
                                lemma_zero_count_mono(fragments@, rest);
                            },
                            None => {},
                        }
                    }
                    return Err(error_msg("Too many zero bits"));
                }
                zero_mask_num = zero_mask_num + property_header.value;
            }
            if property_header.is_last {
                assert(before + seq![property_header] =~= fragments@);
                break;
            }
            proof {
                match fragments_at(d, pos + 2, (fuel - 1) as nat) {
                    Some((fs, e)) => {
                        assert(before + (seq![property_header] + fs) =~= fragments@ + fs);
                    },
                    None => {},
                }
            }
            fuel = fuel - 1;
        }
        let zero_data = if zero_mask_num > 0 {
            let byte_count: u32 = if zero_mask_num <= 8 {
                1
            } else if zero_mask_num <= 16 {
                2
            } else {
                if zero_mask_num > u32::MAX - 32 {
                    return Err(error_msg("Too many zero bits"));
                }
                divide_round_up(zero_mask_num, 32) * 4
            };
            let bytes = match reader.read_bytes(byte_count as usize) {
                Some(b) => b,
                None => return Err(error_msg("File Error: failed to fill whole buffer")),
            };
            let _len = bytes.len();
            bitvec_from_bytes(bytes.as_slice())
        } else {
            bitvec_new()
        };
        Ok(FUnversionedHeader { fragments, zero_data })
    }
}

proof fn lemma_zero_count_mono(a: Seq<FFragment>, b: Seq<FFragment>)
    ensures
        zero_count(a + b) >= zero_count(a),
    decreases b.len(),
{
    if b.len() > 0 {
        assert((a + b).drop_last() =~= a + b.drop_last());
        lemma_zero_count_mono(a, b.drop_last());
    } else {
        assert(a + b =~= a);
    }
}

/// A custom version: a key and a version number.
#[derive(Debug, Clone, Copy)]
pub struct FCustomVersion {
    pub key: FGuid,
    pub version: i32,
}

impl Newable for FCustomVersion {
    open spec fn spec_ok(data: Seq<u8>, pos: int) -> bool {
        avail(data, pos, 20)
    }

    open spec fn spec_end(data: Seq<u8>, pos: int) -> int {
        pos + 20
    }

    open spec fn spec_is(data: Seq<u8>, pos: int, v: Self) -> bool {
        FGuid::spec_is(data, pos, v.key) && v.version == le_i32(data, pos + 16)
    }

    fn new(reader: &mut ReaderCursor) -> (res: ParserResult<Self>) {
        let key = FGuid::new(reader)?;
        match reader.read_i32() {
            Some(version) => Ok(FCustomVersion { key, version }),
            None => Err(error_msg("File Error: failed to fill whole buffer")),
        }
    }
}

/// A generation: its export and name counts.
#[derive(Debug, Clone, Copy)]
pub struct FGenerationInfo {
    pub export_count: i32,
    pub name_count: i32,
}

impl Newable for FGenerationInfo {
    open spec fn spec_ok(data: Seq<u8>, pos: int) -> bool {
        avail(data, pos, 8)
    }

    open spec fn spec_end(data: Seq<u8>, pos: int) -> int {
        pos + 8
    }

    open spec fn spec_is(data: Seq<u8>, pos: int, v: Self) -> bool {
        v.export_count == le_i32(data, pos) && v.name_count == le_i32(data, pos + 4)
    }

    fn new(reader: &mut ReaderCursor) -> (res: ParserResult<Self>) {
        let a = reader.read_i32();
        let b = reader.read_i32();
        match (a, b) {
            (Some(a), Some(b)) => Ok(FGenerationInfo { export_count: a, name_count: b }),
            _ => Err(error_msg("File Error: failed to fill whole buffer")),
        }
    }
}

/// An engine version: major, minor, patch, changelist and branch.
#[derive(Debug)]
pub struct FEngineVersion {
    pub major: u16,
    pub minor: u16,
    pub patch: u16,
    pub changelist: u32,
    pub branch: String,
}

impl FEngineVersion {
    pub fn empty() -> (r: Self)
        ensures
            r.major == 0 && r.minor == 0 && r.patch == 0 && r.changelist == 0 && r.branch@.len() == 0,
    {
        FEngineVersion { major: 0, minor: 0, patch: 0, changelist: 0, branch: String::new() }
    }
}

impl Newable for FEngineVersion {
    open spec fn spec_ok(data: Seq<u8>, pos: int) -> bool {
        avail(data, pos, 10) && spec_string(data, pos + 10) is Some
    }

    open spec fn spec_end(data: Seq<u8>, pos: int) -> int {
        spec_string(data, pos + 10).unwrap().1
    }

    open spec fn spec_is(data: Seq<u8>, pos: int, v: Self) -> bool {
        &&& v.major == le_u16(data, pos)
        &&& v.minor == le_u16(data, pos + 2)
        &&& v.patch == le_u16(data, pos + 4)
        &&& v.changelist == le_u32(data, pos + 6)
        &&& v.branch@ == spec_string(data, pos + 10).unwrap().0
    }

    fn new(reader: &mut ReaderCursor) -> (res: ParserResult<Self>) {
        let a = reader.read_u16();
        let b = reader.read_u16();
        let c = reader.read_u16();
        let e = reader.read_u32();
        let (major, minor, patch, changelist) = match (a, b, c, e) {
            (Some(a), Some(b), Some(c), Some(e)) => (a, b, c, e),
            _ => return Err(error_msg("File Error: failed to fill whole buffer")),
        };
        let branch = read_string(reader)?;
        Ok(FEngineVersion { major, minor, patch, changelist, branch })
    }
}

/// A compressed chunk: uncompressed and compressed offsets and sizes.
#[derive(Debug, Clone, Copy)]
pub struct FCompressedChunk {
    pub uncompressed_offset: i32,
    pub uncompressed_size: i32,
    pub compressed_offset: i32,
    pub compressed_size: i32,
}

impl Newable for FCompressedChunk {
    open spec fn spec_ok(data: Seq<u8>, pos: int) -> bool {
        avail(data, pos, 16)
    }

    open spec fn spec_end(data: Seq<u8>, pos: int) -> int {
        pos + 16
    }

    open spec fn spec_is(data: Seq<u8>, pos: int, v: Self) -> bool {
        &&& v.uncompressed_offset == le_i32(data, pos)
        &&& v.uncompressed_size == le_i32(data, pos + 4)
        &&& v.compressed_offset == le_i32(data, pos + 8)
        &&& v.compressed_size == le_i32(data, pos + 12)
    }

    fn new(reader: &mut ReaderCursor) -> (res: ParserResult<Self>) {
        let a = reader.read_i32();
        let b = reader.read_i32();
        let c = reader.read_i32();
        let e = reader.read_i32();
        match (a, b, c, e) {
            (Some(a), Some(b), Some(c), Some(e)) => Ok(
                FCompressedChunk { uncompressed_offset: a, uncompressed_size: b, compressed_offset: c, compressed_size: e },
            ),
            _ => Err(error_msg("File Error: failed to fill whole buffer")),
        }
    }
}

/// The summary of a package file in the legacy format.
#[derive(Debug)]
pub struct FPackageFileSummary {
    pub tag: i32,
    pub legacy_file_version: i32,
    pub legacy_ue3_version: i32,
    pub file_version_u34: i32,
    pub file_version_licensee_ue4: i32,
    pub custom_version_container: Vec<FCustomVersion>,
    pub total_header_size: i32,
    pub folder_name: String,
    pub package_flags: u32,
    pub name_count: i32,
    pub name_offset: i32,
    pub gatherable_text_data_count: i32,
    pub gatherable_text_data_offset: i32,
    pub export_count: i32,
    pub export_offset: i32,
    pub import_count: i32,
    pub import_offset: i32,
    pub depends_offset: i32,
    pub string_asset_references_count: i32,
    pub string_asset_references_offset: i32,
    pub searchable_names_offset: i32,
    pub thumbnail_table_offset: i32,
    pub guid: FGuid,
    pub generations: Vec<FGenerationInfo>,
    pub saved_by_engine_version: FEngineVersion,
    pub compatible_with_engine_version: FEngineVersion,
    pub compression_flags: u32,
    pub compressed_chunks: Vec<FCompressedChunk>,
    pub package_source: u32,
    pub additional_packages_to_cook: Vec<String>,
    pub asset_registry_data_offset: i32,
    pub buld_data_start_offset: i32,
    pub world_tile_info_data_offset: i32,
    pub chunk_ids: Vec<i32>,
    pub preload_dependency_count: i32,
    pub preload_dependency_offset: i32,
}

/// Where each variable-length part of a package file summary at `p` ends.
pub open spec fn fs_q1(d: Seq<u8>, p: int) -> int {
    tarray_end::<FCustomVersion>(d, p + 20)
}

pub open spec fn fs_q2(d: Seq<u8>, p: int) -> int {
    spec_string(d, fs_q1(d, p) + 4).unwrap().1
}

pub open spec fn fs_q3(d: Seq<u8>, p: int) -> int {
    tarray_end::<FGenerationInfo>(d, fs_q2(d, p) + 72)
}

pub open spec fn fs_q4(d: Seq<u8>, p: int) -> int {
    FEngineVersion::spec_end(d, fs_q3(d, p))
}

pub open spec fn fs_q5(d: Seq<u8>, p: int) -> int {
    FEngineVersion::spec_end(d, fs_q4(d, p))
}

pub open spec fn fs_q6(d: Seq<u8>, p: int) -> int {
    tarray_end::<FCompressedChunk>(d, fs_q5(d, p) + 4)
}

pub open spec fn fs_q7(d: Seq<u8>, p: int) -> int {
    tarray_end::<String>(d, fs_q6(d, p) + 4)
}

pub open spec fn fs_q8(d: Seq<u8>, p: int) -> int {
    tarray_end::<i32>(d, fs_q7(d, p) + 12)
}

impl Newable for FPackageFileSummary {
    open spec fn spec_ok(data: Seq<u8>, pos: int) -> bool {
        &&& avail(data, pos, 20)
        &&& tarray_ok::<FCustomVersion>(data, pos + 20)
        &&& avail(data, fs_q1(data, pos), 4)
        &&& spec_string(data, fs_q1(data, pos) + 4) is Some
        &&& avail(data, fs_q2(data, pos), 72)
        &&& tarray_ok::<FGenerationInfo>(data, fs_q2(data, pos) + 72)
        &&& FEngineVersion::spec_ok(data, fs_q3(data, pos))
        &&& FEngineVersion::spec_ok(data, fs_q4(data, pos))
        &&& avail(data, fs_q5(data, pos), 4)
        &&& tarray_ok::<FCompressedChunk>(data, fs_q5(data, pos) + 4)
        &&& avail(data, fs_q6(data, pos), 4)
        &&& tarray_ok::<String>(data, fs_q6(data, pos) + 4)
        &&& avail(data, fs_q7(data, pos), 12)
        &&& tarray_ok::<i32>(data, fs_q7(data, pos) + 12)
        &&& avail(data, fs_q8(data, pos), 8)
    }

    open spec fn spec_end(data: Seq<u8>, pos: int) -> int {
        fs_q8(data, pos) + 8
    }

    open spec fn spec_is(data: Seq<u8>, pos: int, v: Self) -> bool {
        let q1 = fs_q1(data, pos);
        let q2 = fs_q2(data, pos);
        let q5 = fs_q5(data, pos);
        let q6 = fs_q6(data, pos);
        let q7 = fs_q7(data, pos);
        let q8 = fs_q8(data, pos);
        &&& v.tag == le_i32(data, pos + 0)
        &&& v.legacy_file_version == le_i32(data, pos + 4)
        &&& v.legacy_ue3_version == le_i32(data, pos + 8)
        &&& v.file_version_u34 == le_i32(data, pos + 12)
        &&& v.file_version_licensee_ue4 == le_i32(data, pos + 16)
        &&& tarray_is::<FCustomVersion>(data, pos + 20, v.custom_version_container@)
        &&& v.total_header_size == le_i32(data, q1)
        &&& v.folder_name@ == spec_string(data, q1 + 4).unwrap().0
        &&& v.package_flags == le_u32(data, q2)
        &&& v.name_count == le_i32(data, q2 + 4)
        &&& v.name_offset == le_i32(data, q2 + 8)
        &&& v.gatherable_text_data_count == le_i32(data, q2 + 12)
        &&& v.gatherable_text_data_offset == le_i32(data, q2 + 16)
        &&& v.export_count == le_i32(data, q2 + 20)
        &&& v.export_offset == le_i32(data, q2 + 24)
        &&& v.import_count == le_i32(data, q2 + 28)
        &&& v.import_offset == le_i32(data, q2 + 32)
        &&& v.depends_offset == le_i32(data, q2 + 36)
        &&& v.string_asset_references_count == le_i32(data, q2 + 40)
        &&& v.string_asset_references_offset == le_i32(data, q2 + 44)
        &&& v.searchable_names_offset == le_i32(data, q2 + 48)
        &&& v.thumbnail_table_offset == le_i32(data, q2 + 52)
        &&& FGuid::spec_is(data, q2 + 56, v.guid)
        &&& tarray_is::<FGenerationInfo>(data, q2 + 72, v.generations@)
        &&& FEngineVersion::spec_is(data, fs_q3(data, pos), v.saved_by_engine_version)
        &&& FEngineVersion::spec_is(data, fs_q4(data, pos), v.compatible_with_engine_version)
        &&& v.compression_flags == le_u32(data, q5)
        &&& tarray_is::<FCompressedChunk>(data, q5 + 4, v.compressed_chunks@)
        &&& v.package_source == le_u32(data, q6)
        &&& tarray_is::<String>(data, q6 + 4, v.additional_packages_to_cook@)
        &&& v.asset_registry_data_offset == le_i32(data, q7)
        &&& v.buld_data_start_offset == le_i32(data, q7 + 4)
        &&& v.world_tile_info_data_offset == le_i32(data, q7 + 8)
        &&& tarray_is::<i32>(data, q7 + 12, v.chunk_ids@)
        &&& v.preload_dependency_count == le_i32(data, q8)
        &&& v.preload_dependency_offset == le_i32(data, q8 + 4)
    }

    #[verifier::rlimit(60)]
    fn new(reader: &mut ReaderCursor) -> (res: ParserResult<Self>) {
        let head = read_summary_head(reader)?;
        let package_flags = u32::new(reader)?;
        let name_count = i32::new(reader)?;
        let name_offset = i32::new(reader)?;
        let gatherable_text_data_count = i32::new(reader)?;
        let gatherable_text_data_offset = i32::new(reader)?;
        let export_count = i32::new(reader)?;
        let export_offset = i32::new(reader)?;
        let import_count = i32::new(reader)?;
        let import_offset = i32::new(reader)?;
        let depends_offset = i32::new(reader)?;
        let string_asset_references_count = i32::new(reader)?;
        let string_asset_references_offset = i32::new(reader)?;
        let searchable_names_offset = i32::new(reader)?;
        let thumbnail_table_offset = i32::new(reader)?;
        let guid = FGuid::new(reader)?;
        let generations = read_tarray(reader)?;
        let saved_by_engine_version = FEngineVersion::new(reader)?;
        let compatible_with_engine_version = FEngineVersion::new(reader)?;
        let tail = read_summary_tail(reader)?;
        Ok(FPackageFileSummary {
            tag: head.tag,
            legacy_file_version: head.legacy_file_version,
            legacy_ue3_version: head.legacy_ue3_version,
            file_version_u34: head.file_version_u34,
            file_version_licensee_ue4: head.file_version_licensee_ue4,
            custom_version_container: head.custom_version_container,
            total_header_size: head.total_header_size,
            folder_name: head.folder_name,
            package_flags,
            name_count,
            name_offset,
            gatherable_text_data_count,
            gatherable_text_data_offset,
            export_count,
            export_offset,
            import_count,
            import_offset,
            depends_offset,
            string_asset_references_count,
            string_asset_references_offset,
            searchable_names_offset,
            thumbnail_table_offset,
            guid,
            generations,
            saved_by_engine_version,
            compatible_with_engine_version,
            compression_flags: tail.compression_flags,
            compressed_chunks: tail.compressed_chunks,
            package_source: tail.package_source,
            additional_packages_to_cook: tail.additional_packages_to_cook,
            asset_registry_data_offset: tail.asset_registry_data_offset,
            buld_data_start_offset: tail.buld_data_start_offset,
            world_tile_info_data_offset: tail.world_tile_info_data_offset,
            chunk_ids: tail.chunk_ids,
            preload_dependency_count: tail.preload_dependency_count,
            preload_dependency_offset: tail.preload_dependency_offset,
        })
    }
}

/// The fields of a package file summary before the package flags.
struct SummaryHead {
    tag: i32,
    legacy_file_version: i32,
    legacy_ue3_version: i32,
    file_version_u34: i32,
    file_version_licensee_ue4: i32,
    custom_version_container: Vec<FCustomVersion>,
    total_header_size: i32,
    folder_name: String,
}

fn read_summary_head(reader: &mut ReaderCursor) -> (r: ParserResult<SummaryHead>)
    ensures
        final(reader).spec_data() == old(reader).spec_data(),
        ({
            let d = old(reader).spec_data();
            let p = old(reader).spec_pos();
            let q1 = fs_q1(d, p);
            &&& r is Ok <==> avail(d, p, 20) && tarray_ok::<FCustomVersion>(d, p + 20) && avail(d, q1, 4)
                && spec_string(d, q1 + 4) is Some
            &&& r matches Ok(v) ==> {
                &&& v.tag == le_i32(d, p + 0)
                &&& v.legacy_file_version == le_i32(d, p + 4)
                &&& v.legacy_ue3_version == le_i32(d, p + 8)
                &&& v.file_version_u34 == le_i32(d, p + 12)
                &&& v.file_version_licensee_ue4 == le_i32(d, p + 16)
                &&& tarray_is::<FCustomVersion>(d, p + 20, v.custom_version_container@)
                &&& v.total_header_size == le_i32(d, q1)
                &&& v.folder_name@ == spec_string(d, q1 + 4).unwrap().0
                &&& final(reader).spec_pos() == fs_q2(d, p)
            }
        }),
{
    let tag = i32::new(reader)?;
    let legacy_file_version = i32::new(reader)?;
    let legacy_ue3_version = i32::new(reader)?;
    let file_version_u34 = i32::new(reader)?;
    let file_version_licensee_ue4 = i32::new(reader)?;
    let custom_version_container = read_tarray(reader)?;
    let total_header_size = i32::new(reader)?;
    let folder_name = read_string(reader)?;
    Ok(SummaryHead {
        tag,
        legacy_file_version,
        legacy_ue3_version,
        file_version_u34,
        file_version_licensee_ue4,
        custom_version_container,
        total_header_size,
        folder_name,
    })
}

/// The fields of a package file summary after the engine versions.
struct SummaryTail {
    compression_flags: u32,
    compressed_chunks: Vec<FCompressedChunk>,
    package_source: u32,
    additional_packages_to_cook: Vec<String>,
    asset_registry_data_offset: i32,
    buld_data_start_offset: i32,
    world_tile_info_data_offset: i32,
    chunk_ids: Vec<i32>,
    preload_dependency_count: i32,
    preload_dependency_offset: i32,
}

fn read_summary_tail(reader: &mut ReaderCursor) -> (r: ParserResult<SummaryTail>)
    ensures
        final(reader).spec_data() == old(reader).spec_data(),
        ({
            let d = old(reader).spec_data();
            let q5 = old(reader).spec_pos();
            let q6 = tarray_end::<FCompressedChunk>(d, q5 + 4);
            let q7 = tarray_end::<String>(d, q6 + 4);
            let q8 = tarray_end::<i32>(d, q7 + 12);
            &&& r is Ok <==> avail(d, q5, 4) && tarray_ok::<FCompressedChunk>(d, q5 + 4) && avail(d, q6, 4)
                && tarray_ok::<String>(d, q6 + 4) && avail(d, q7, 12) && tarray_ok::<i32>(d, q7 + 12) && avail(d, q8, 8)
            &&& r matches Ok(v) ==> {
                &&& v.compression_flags == le_u32(d, q5)
                &&& tarray_is::<FCompressedChunk>(d, q5 + 4, v.compressed_chunks@)
                &&& v.package_source == le_u32(d, q6)
                &&& tarray_is::<String>(d, q6 + 4, v.additional_packages_to_cook@)
                &&& v.asset_registry_data_offset == le_i32(d, q7)
                &&& v.buld_data_start_offset == le_i32(d, q7 + 4)
                &&& v.world_tile_info_data_offset == le_i32(d, q7 + 8)
                &&& tarray_is::<i32>(d, q7 + 12, v.chunk_ids@)
                &&& v.preload_dependency_count == le_i32(d, q8)
                &&& v.preload_dependency_offset == le_i32(d, q8 + 4)
                &&& final(reader).spec_pos() == q8 + 8
            }
        }),
{
    let compression_flags = u32::new(reader)?;
    let compressed_chunks = read_tarray(reader)?;
    let package_source = u32::new(reader)?;
    let additional_packages_to_cook = read_tarray(reader)?;
    let asset_registry_data_offset = i32::new(reader)?;
    let buld_data_start_offset = i32::new(reader)?;
    let world_tile_info_data_offset = i32::new(reader)?;
    let chunk_ids = read_tarray(reader)?;
    let preload_dependency_count = i32::new(reader)?;
    let preload_dependency_offset = i32::new(reader)?;
    Ok(SummaryTail {
        compression_flags,
        compressed_chunks,
        package_source,
        additional_packages_to_cook,
        asset_registry_data_offset,
        buld_data_start_offset,
        world_tile_info_data_offset,
        chunk_ids,
        preload_dependency_count,
        preload_dependency_offset,
    })
}

impl FPackageFileSummary {
    pub fn empty() -> (r: Self)
        ensures
            r.tag == 0,
            r.legacy_file_version == 0,
            r.legacy_ue3_version == 0,
            r.file_version_u34 == 0,
            r.file_version_licensee_ue4 == 0,
            r.total_header_size == 0,
            r.name_count == 0,
            r.name_offset == 0,
            r.gatherable_text_data_count == 0,
            r.gatherable_text_data_offset == 0,
            r.export_count == 0,
            r.export_offset == 0,
            r.import_count == 0,
            r.import_offset == 0,
            r.depends_offset == 0,
            r.string_asset_references_count == 0,
            r.string_asset_references_offset == 0,
            r.searchable_names_offset == 0,
            r.thumbnail_table_offset == 0,
            r.asset_registry_data_offset == 0,
            r.buld_data_start_offset == 0,
            r.world_tile_info_data_offset == 0,
            r.preload_dependency_count == 0,
            r.preload_dependency_offset == 0,
            r.package_flags == 0 && r.compression_flags == 0 && r.package_source == 0,
            r.custom_version_container@.len() == 0 && r.generations@.len() == 0,
            r.compressed_chunks@.len() == 0 && r.additional_packages_to_cook@.len() == 0 && r.chunk_ids@.len() == 0,
            r.folder_name@.len() == 0,
            r.guid == (FGuid { a: 0, b: 0, c: 0, d: 0 }),
            r.saved_by_engine_version.major == 0 && r.saved_by_engine_version.minor == 0
                && r.saved_by_engine_version.patch == 0 && r.saved_by_engine_version.changelist == 0
                && r.saved_by_engine_version.branch@.len() == 0,
            r.compatible_with_engine_version.major == 0 && r.compatible_with_engine_version.minor == 0
                && r.compatible_with_engine_version.patch == 0 && r.compatible_with_engine_version.changelist == 0
                && r.compatible_with_engine_version.branch@.len() == 0,
    {
        FPackageFileSummary {
            tag: 0,
            legacy_file_version: 0,
            legacy_ue3_version: 0,
            file_version_u34: 0,
            file_version_licensee_ue4: 0,
            total_header_size: 0,
            name_count: 0,
            name_offset: 0,
            gatherable_text_data_count: 0,
            gatherable_text_data_offset: 0,
            export_count: 0,
            export_offset: 0,
            import_count: 0,
            import_offset: 0,
            depends_offset: 0,
            string_asset_references_count: 0,
            string_asset_references_offset: 0,
            searchable_names_offset: 0,
            thumbnail_table_offset: 0,
            asset_registry_data_offset: 0,
            buld_data_start_offset: 0,
            world_tile_info_data_offset: 0,
            preload_dependency_count: 0,
            preload_dependency_offset: 0,
            package_flags: 0,
            compression_flags: 0,
            package_source: 0,
            custom_version_container: Vec::new(),
            generations: Vec::new(),
            compressed_chunks: Vec::new(),
            additional_packages_to_cook: Vec::new(),
            chunk_ids: Vec::new(),
            folder_name: String::new(),
            guid: FGuid { a: 0, b: 0, c: 0, d: 0 },
            saved_by_engine_version: FEngineVersion::empty(),
            compatible_with_engine_version: FEngineVersion::empty(),
        }
    }
}

} // verus!
