//! Localization resources (`.locres`): namespaces of keys and the strings
//! they stand for.
use vstd::prelude::*;
use crate::reader::{ReaderCursor, le_u32, le_u64, avail, signed};
use crate::assets::{FGuid, Newable, ParserResult, error_msg, read_string, spec_string, le_i32};

verus! {

/// The magic number of a localization resource.
pub open spec fn is_locres_magic(g: FGuid) -> bool {
    g.a == 0x7574140E && g.b == 0xFC034A67 && g.c == 0x9D90154A && g.d == 0x1B7F37C3
}

/// A key: a hash and a string.
#[derive(Debug)]
pub struct FTextKey {
    pub str_hash: u32,
    pub text: String,
}

/// A key at `q`: its string, and where it ends.
pub open spec fn text_key_at(d: Seq<u8>, q: int) -> Option<(Seq<char>, int)> {
    if avail(d, q, 4) {
        spec_string(d, q + 4)
    } else {
        None
    }
}

impl Newable for FTextKey {
    open spec fn spec_ok(data: Seq<u8>, pos: int) -> bool {
        text_key_at(data, pos) is Some
    }

    open spec fn spec_end(data: Seq<u8>, pos: int) -> int {
        text_key_at(data, pos).unwrap().1
    }

    open spec fn spec_is(data: Seq<u8>, pos: int, v: Self) -> bool {
        v.str_hash == le_u32(data, pos) && v.text@ == text_key_at(data, pos).unwrap().0
    }

    fn new(reader: &mut ReaderCursor) -> (res: ParserResult<Self>) {
        let str_hash = match reader.read_u32() {
            Some(v) => v,
            None => return Err(error_msg("File Error: failed to fill whole buffer")),
        };
        let text = read_string(reader)?;
        Ok(FTextKey { str_hash, text })
    }
}

/// A localized string and its reference count.
#[derive(Debug)]
pub struct FTextLocalizationResourceString {
    pub data: String,
    pub ref_count: i32,
}

/// The localized strings: `n` strings each followed by a 32-bit count, from
/// `q`, and where they end.
pub open spec fn loc_strings(d: Seq<u8>, q: int, n: nat) -> Option<(Seq<Seq<char>>, int)>
    decreases n,
{
    if n == 0 {
        Some((Seq::empty(), q))
    } else {
        match loc_strings(d, q, (n - 1) as nat) {
            Some((ss, e)) => match spec_string(d, e) {
                Some((s, e2)) => if avail(d, e2, 4) {
                    Some((ss.push(s), e2 + 4))
                } else {
                    None
                },
                None => None,
            },
            None => None,
        }
    }
}

/// The strings of the table come in the order they are stored: the `i`-th
/// string is the one stored after the first `i`, which are the first `i`
/// strings of the table.
pub proof fn lemma_loc_strings_order(d: Seq<u8>, q: int, n: nat, i: nat)
    requires
        loc_strings(d, q, n) is Some,
        i < n,
    ensures
        loc_strings(d, q, i) is Some,
        loc_strings(d, q, i).unwrap().0 == loc_strings(d, q, n).unwrap().0.take(i as int),
        spec_string(d, loc_strings(d, q, i).unwrap().1) is Some,
        loc_strings(d, q, n).unwrap().0[i as int] == spec_string(d, loc_strings(d, q, i).unwrap().1).unwrap().0,
    decreases n,
{
    let prev = loc_strings(d, q, (n - 1) as nat);
    assert(prev is Some);
    let ss = prev.unwrap().0;
    lemma_loc_strings_len(d, q, (n - 1) as nat);
    assert(loc_strings(d, q, n).unwrap().0 == ss.push(spec_string(d, prev.unwrap().1).unwrap().0));
    if i + 1 < n {
        lemma_loc_strings_order(d, q, (n - 1) as nat, i);
        assert(ss.push(spec_string(d, prev.unwrap().1).unwrap().0).take(i as int) =~= ss.take(i as int));
    } else {
        assert(ss.push(spec_string(d, prev.unwrap().1).unwrap().0).take(i as int) =~= ss);
    }
}

/// The table of `n` strings holds `n` strings.
proof fn lemma_loc_strings_len(d: Seq<u8>, q: int, n: nat)
    requires
        loc_strings(d, q, n) is Some,
    ensures
        loc_strings(d, q, n).unwrap().0.len() == n,
    decreases n,
{
    if n > 0 {
        lemma_loc_strings_len(d, q, (n - 1) as nat);
    }
}

/// An entry of a namespace: a key and its localized string.
#[derive(Debug)]
pub struct FEntry {
    pub key: String,
    pub data: String,
}

/// A namespace and its entries.
#[derive(Debug)]
pub struct LocaleNamespace {
    pub namespace: String,
    pub data: Vec<FEntry>,
}

pub type EntryView = (Seq<char>, Seq<char>);

pub type NamespaceView = (Seq<char>, Seq<EntryView>);

pub open spec fn entries_view(v: Seq<FEntry>) -> Seq<EntryView> {
    v.map_values(|e: FEntry| (e.key@, e.data@))
}

pub open spec fn namespaces_view(v: Seq<LocaleNamespace>) -> Seq<NamespaceView> {
    v.map_values(|n: LocaleNamespace| (n.namespace@, entries_view(n.data@)))
}

/// `n` keys from `q`: each a key, a source hash and a string index; a key whose
/// index is in `strs` gives an entry. The entries and where the keys end.
pub open spec fn loc_keys(d: Seq<u8>, q: int, n: nat, strs: Seq<Seq<char>>) -> Option<(Seq<EntryView>, int)>
    decreases n,
{
    if n == 0 {
        Some((Seq::empty(), q))
    } else {
        match loc_keys(d, q, (n - 1) as nat, strs) {
            Some((es, e)) => match text_key_at(d, e) {
                Some((k, e2)) => if avail(d, e2, 8) {
                    let idx = le_i32(d, e2 + 4);
                    if 0 <= idx < strs.len() {
                        Some((es.push((k, strs[idx])), e2 + 8))
                    } else {
                        Some((es, e2 + 8))
                    }
                } else {
                    None
                },
                None => None,
            },
            None => None,
        }
    }
}

/// A namespace at `q`: a key, a key count and the keys; with where it ends.
pub open spec fn loc_namespace(d: Seq<u8>, q: int, strs: Seq<Seq<char>>) -> Option<(NamespaceView, int)> {
    match text_key_at(d, q) {
        Some((name, e2)) => if avail(d, e2, 4) {
            match loc_keys(d, e2 + 4, le_u32(d, e2) as nat, strs) {
                Some((es, e3)) => Some(((name, es), e3)),
                None => None,
            }
        } else {
            None
        },
        None => None,
    }
}

/// `n` namespaces from `q`.
pub open spec fn loc_namespaces(d: Seq<u8>, q: int, n: nat, strs: Seq<Seq<char>>) -> Option<
    (Seq<NamespaceView>, int),
>
    decreases n,
{
    if n == 0 {
        Some((Seq::empty(), q))
    } else {
        match loc_namespaces(d, q, (n - 1) as nat, strs) {
            Some((ns, e)) => match loc_namespace(d, e, strs) {
                Some((x, e2)) => Some((ns.push(x), e2)),
                None => None,
            },
            None => None,
        }
    }
}

/// The offset of the localized strings.
pub open spec fn locres_str_offset(d: Seq<u8>) -> int {
    signed(le_u64(d, 17), 64)
}

/// The localized strings of a resource.
pub open spec fn locres_strings(d: Seq<u8>) -> Option<(Seq<Seq<char>>, int)> {
    let off = locres_str_offset(d);
    if off >= 0 && avail(d, off, 4) {
        loc_strings(d, off + 4, le_u32(d, off) as nat)
    } else {
        None
    }
}

/// The namespaces of a resource, as `from_buffer` reads them.
pub open spec fn locres_namespaces(d: Seq<u8>) -> Option<Seq<NamespaceView>> {
    match locres_strings(d) {
        Some((strs, _)) => if avail(d, 25, 8) {
            match loc_namespaces(d, 33, le_u32(d, 29) as nat, strs) {
                Some((ns, _)) => Some(ns),
                None => None,
            }
        } else {
            None
        },
        None => None,
    }
}

/// A localization resource: its version and its namespaces.
#[derive(Debug)]
pub struct FTextLocalizationResource {
    pub version: u8,
    pub string_data: Vec<LocaleNamespace>,
}

pub open spec fn strs_view(v: Seq<String>) -> Seq<Seq<char>> {
    v.map_values(|s: String| s@)
}

fn read_loc_strings(reader: &mut ReaderCursor, n: u32) -> (r: ParserResult<Vec<String>>)
    ensures
        final(reader).spec_data() == old(reader).spec_data(),
        r is Ok <==> loc_strings(old(reader).spec_data(), old(reader).spec_pos(), n as nat) is Some,
        r matches Ok(v) ==> loc_strings(old(reader).spec_data(), old(reader).spec_pos(), n as nat) == Some(
            (strs_view(v@), final(reader).spec_pos()),
        ),
{
    let ghost d = reader.spec_data();
    let ghost p = reader.spec_pos();
    let mut out: Vec<String> = Vec::new();
    let mut i: u32 = 0;
    while i < n
        invariant
            reader.spec_data() == d,
            d == old(reader).spec_data(),
            p == old(reader).spec_pos(),
            0 <= i <= n,
            loc_strings(d, p, i as nat) == Some((strs_view(out@), reader.spec_pos())),
        decreases n - i,
    {
        let ghost before = out@;
        let s = match read_string(reader) {
            Ok(s) => s,
            Err(e) => {
                proof {
                    lemma_strings_prefix(d, p, (i + 1) as nat, n as nat);
                }
                return Err(e);
            },
        };
        match reader.read_i32() {
            Some(_) => {},
            None => {
                proof {
                    lemma_strings_prefix(d, p, (i + 1) as nat, n as nat);
                }
                return Err(error_msg("File Error: failed to fill whole buffer"));
            },
        }
        out.push(s);
        assert(strs_view(out@) =~= strs_view(before).push(s@));
        i = i + 1;
    }
    Ok(out)
}

proof fn lemma_strings_prefix(d: Seq<u8>, p: int, k: nat, n: nat)
    requires
        k <= n,
        loc_strings(d, p, k) is None,
    ensures
        loc_strings(d, p, n) is None,
    decreases n - k,
{
    if k < n {
        lemma_strings_prefix(d, p, k + 1, n);
    }
}

proof fn lemma_keys_prefix(d: Seq<u8>, p: int, k: nat, n: nat, strs: Seq<Seq<char>>)
    requires
        k <= n,
        loc_keys(d, p, k, strs) is None,
    ensures
        loc_keys(d, p, n, strs) is None,
    decreases n - k,
{
    if k < n {
        lemma_keys_prefix(d, p, k + 1, n, strs);
    }
}

proof fn lemma_namespaces_prefix(d: Seq<u8>, p: int, k: nat, n: nat, strs: Seq<Seq<char>>)
    requires
        k <= n,
        loc_namespaces(d, p, k, strs) is None,
    ensures
        loc_namespaces(d, p, n, strs) is None,
    decreases n - k,
{
    if k < n {
        lemma_namespaces_prefix(d, p, k + 1, n, strs);
    }
}

fn read_loc_keys(reader: &mut ReaderCursor, n: u32, strings: &Vec<String>) -> (r: ParserResult<Vec<FEntry>>)
    ensures
        final(reader).spec_data() == old(reader).spec_data(),
        r is Ok <==> loc_keys(old(reader).spec_data(), old(reader).spec_pos(), n as nat, strs_view(strings@))
            is Some,
        r matches Ok(v) ==> loc_keys(
            old(reader).spec_data(),
            old(reader).spec_pos(),
            n as nat,
            strs_view(strings@),
        ) == Some((entries_view(v@), final(reader).spec_pos())),
{
    let ghost d = reader.spec_data();
    let ghost p = reader.spec_pos();
    let ghost strs = strs_view(strings@);
    let mut out: Vec<FEntry> = Vec::new();
    let mut i: u32 = 0;
    while i < n
        invariant
            reader.spec_data() == d,
            d == old(reader).spec_data(),
            p == old(reader).spec_pos(),
            strs == strs_view(strings@),
            0 <= i <= n,
            loc_keys(d, p, i as nat, strs) == Some((entries_view(out@), reader.spec_pos())),
        decreases n - i,
    {
        let ghost before = out@;
        let text_key = match FTextKey::new(reader) {
            Ok(k) => k,
            Err(e) => {
                proof {
                    lemma_keys_prefix(d, p, (i + 1) as nat, n as nat, strs);
                }
                return Err(e);
            },
        };
        let _source_hash = reader.read_u32();
        let string_index = reader.read_i32();
        let (_h, string_index) = match (_source_hash, string_index) {
            (Some(h), Some(x)) => (h, x),
            _ => {
                proof {
                    lemma_keys_prefix(d, p, (i + 1) as nat, n as nat, strs);
                }
                return Err(error_msg("File Error: failed to fill whole buffer"));
            },
        };
        if string_index >= 0 && (string_index as usize) < strings.len() {
            let entry = FEntry { key: text_key.text, data: strings[string_index as usize].clone() };
            out.push(entry);
            assert(entries_view(out@) =~= entries_view(before).push((entry.key@, entry.data@)));
        }
        i = i + 1;
    }
    Ok(out)
}

fn read_loc_namespace(reader: &mut ReaderCursor, strings: &Vec<String>) -> (r: ParserResult<LocaleNamespace>)
    ensures
        final(reader).spec_data() == old(reader).spec_data(),
        r is Ok <==> loc_namespace(old(reader).spec_data(), old(reader).spec_pos(), strs_view(strings@)) is Some,
        r matches Ok(v) ==> loc_namespace(old(reader).spec_data(), old(reader).spec_pos(), strs_view(strings@))
            == Some(((v.namespace@, entries_view(v.data@)), final(reader).spec_pos())),
{
    let namespace = FTextKey::new(reader)?;
    let key_count = match reader.read_u32() {
        Some(v) => v,
        None => return Err(error_msg("File Error: failed to fill whole buffer")),
    };
    let strings = read_loc_keys(reader, key_count, strings)?;
    Ok(LocaleNamespace { namespace: namespace.text, data: strings })
}

fn read_loc_namespaces(reader: &mut ReaderCursor, n: u32, strings: &Vec<String>) -> (r: ParserResult<
    Vec<LocaleNamespace>,
>)
    ensures
        final(reader).spec_data() == old(reader).spec_data(),
        r is Ok <==> loc_namespaces(old(reader).spec_data(), old(reader).spec_pos(), n as nat, strs_view(strings@))
            is Some,
        r matches Ok(v) ==> loc_namespaces(
            old(reader).spec_data(),
            old(reader).spec_pos(),
            n as nat,
            strs_view(strings@),
        ) == Some((namespaces_view(v@), final(reader).spec_pos())),
{
    let ghost d = reader.spec_data();
    let ghost p = reader.spec_pos();
    let ghost strs = strs_view(strings@);
    let mut out: Vec<LocaleNamespace> = Vec::new();
    let mut i: u32 = 0;
    while i < n
        invariant
            reader.spec_data() == d,
            d == old(reader).spec_data(),
            p == old(reader).spec_pos(),
            strs == strs_view(strings@),
            0 <= i <= n,
            loc_namespaces(d, p, i as nat, strs) == Some((namespaces_view(out@), reader.spec_pos())),
        decreases n - i,
    {
        let ghost before = out@;
        let ns = match read_loc_namespace(reader, strings) {
            Ok(x) => x,
            Err(e) => {
                proof {
                    lemma_namespaces_prefix(d, p, (i + 1) as nat, n as nat, strs);
                }
                return Err(e);
            },
        };
        let ghost x = (ns.namespace@, entries_view(ns.data@));
        out.push(ns);
        assert(namespaces_view(out@) =~= namespaces_view(before).push(x));
        i = i + 1;
    }
    Ok(out)
}

impl FTextLocalizationResource {
    /// Reads a localization resource.
    pub fn from_buffer(locres: &[u8]) -> (r: ParserResult<Self>)
        ensures
            ({
                let d = locres@;
                let magic = FGuid { a: le_u32(d, 0) as u32, b: le_u32(d, 4) as u32, c: le_u32(d, 8) as u32, d: le_u32(d, 12) as u32 };
                match r {
                    Ok(v) => avail(d, 0, 25) && is_locres_magic(magic) && locres_str_offset(d) != -1
                        && v.version == d[16] && locres_namespaces(d) == Some(namespaces_view(v.string_data@)),
                    Err(_) => !avail(d, 0, 25) || !is_locres_magic(magic) || locres_str_offset(d) == -1
                        || locres_namespaces(d) is None,
                }
            }),
            ({
                let d = locres@;
                let magic = FGuid { a: le_u32(d, 0) as u32, b: le_u32(d, 4) as u32, c: le_u32(d, 8) as u32, d: le_u32(d, 12) as u32 };
                avail(d, 0, 16) && !is_locres_magic(magic) ==> (r matches Err(e) && e.messages() == seq!["Wrong magic Guid"@])
            }),
    {
        proof {
            crate::reader::lemma_pow2_values();
        }
        let ghost d = locres@;
        let mut reader = ReaderCursor::new(locres);
        let magic = FGuid::new(&mut reader)?;
        if !(magic.a == 0x7574140E && magic.b == 0xFC034A67 && magic.c == 0x9D90154A && magic.d == 0x1B7F37C3) {
            return Err(error_msg("Wrong magic Guid"));
        }
        let version = match reader.read_u8() {
            Some(v) => v,
            None => return Err(error_msg("File Error: failed to fill whole buffer")),
        };
        let str_array_offset = match reader.read_i64() {
            Some(v) => v,
            None => return Err(error_msg("File Error: failed to fill whole buffer")),
        };
        if str_array_offset == -1 {
            return Err(error_msg("No offset found"));
        }
        if str_array_offset < 0 {
            return Err(error_msg("File Error: failed to fill whole buffer"));
        }
        let current_offset = reader.position();
        reader.seek(str_array_offset as u64);
        let count = match reader.read_u32() {
            Some(v) => v,
            None => return Err(error_msg("File Error: failed to fill whole buffer")),
        };
        let localized_strings = read_loc_strings(&mut reader, count)?;
        reader.seek(current_offset);
        let _entry_count = reader.read_u32();
        let namespace_count = reader.read_u32();
        let namespace_count = match (_entry_count, namespace_count) {
            (Some(_), Some(c)) => c,
            _ => return Err(error_msg("File Error: failed to fill whole buffer")),
        };
        let string_data = read_loc_namespaces(&mut reader, namespace_count, &localized_strings)?;
        Ok(FTextLocalizationResource { version, string_data })
    }
}

} // verus!
