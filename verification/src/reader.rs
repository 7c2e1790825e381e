//! A read cursor over a byte slice, with little-endian integer reads.
use vstd::prelude::*;

verus! {

/// Value of the two bytes at `p`, little-endian.
pub open spec fn le_u16(s: Seq<u8>, p: int) -> int {
    s[p] + 256 * s[p + 1]
}

/// Value of the four bytes at `p`, little-endian.
pub open spec fn le_u32(s: Seq<u8>, p: int) -> int {
    le_u16(s, p) + 65536 * le_u16(s, p + 2)
}

/// Value of the eight bytes at `p`, little-endian.
pub open spec fn le_u64(s: Seq<u8>, p: int) -> int {
    le_u32(s, p) + 4294967296 * le_u32(s, p + 4)
}

/// Two's complement reading of an unsigned value of `bits` bits.
pub open spec fn signed(v: int, bits: nat) -> int {
    if v < pow2_int((bits - 1) as nat) {
        v
    } else {
        v - pow2_int(bits)
    }
}

pub open spec fn pow2_int(n: nat) -> int
    decreases n,
{
    if n == 0 {
        1
    } else {
        2 * pow2_int((n - 1) as nat)
    }
}

/// The `n` bytes at `p`.
pub open spec fn bytes_at(s: Seq<u8>, p: int, n: nat) -> Seq<u8> {
    Seq::new(n, |k: int| s[p + k])
}

/// True when `n` bytes can be read at position `p` of `s`.
pub open spec fn avail(s: Seq<u8>, p: int, n: int) -> bool {
    n == 0 || (0 <= p && p + n <= s.len())
}

/// A cursor over a borrowed byte slice. Reads advance the position; a read that
/// would pass the end of the data fails and leaves the position where it was.
pub struct ReaderCursor<'a> {
    data: &'a [u8],
    pos: u64,
}

impl<'a> ReaderCursor<'a> {
    /// The bytes the cursor reads from.
    pub closed spec fn spec_data(&self) -> Seq<u8> {
        self.data@
    }

    /// The cursor's position.
    pub closed spec fn spec_pos(&self) -> int {
        self.pos as int
    }

    pub proof fn lemma_pos_bound(&self)
        ensures
            0 <= self.spec_pos() <= u64::MAX,
    {
    }

    pub fn new(data: &'a [u8]) -> (r: Self)
        ensures
            r.spec_data() == data@,
            r.spec_pos() == 0,
    {
        ReaderCursor { data, pos: 0 }
    }

    pub fn position(&self) -> (r: u64)
        ensures
            r == self.spec_pos(),
    {
        self.pos
    }

    pub fn len(&self) -> (r: usize)
        ensures
            r == self.spec_data().len(),
    {
        self.data.len()
    }

    /// Moves the cursor to `pos`; any position is accepted, reads past the end fail.
    pub fn seek(&mut self, pos: u64)
        ensures
            final(self).spec_data() == old(self).spec_data(),
            final(self).spec_pos() == pos,
    {
        self.pos = pos;
    }

    /// Number of bytes left between the position and the end (0 when past the end).
    pub fn remaining(&self) -> (r: usize)
        ensures
            r == (if self.spec_pos() <= self.spec_data().len() {
                self.spec_data().len() - self.spec_pos()
            } else {
                0
            }),
    {
        if self.pos <= self.data.len() as u64 {
            self.data.len() - self.pos as usize
        } else {
            0
        }
    }

    fn has(&self, n: usize) -> (r: bool)
        ensures
            r == avail(self.spec_data(), self.spec_pos(), n as int),
    {
        n == 0 || (self.pos <= self.data.len() as u64 && n <= self.data.len() - self.pos as usize)
    }

    pub fn read_u8(&mut self) -> (r: Option<u8>)
        ensures
            final(self).spec_data() == old(self).spec_data(),
            r is Some <==> avail(old(self).spec_data(), old(self).spec_pos(), 1),
            r matches Some(v) ==> v == old(self).spec_data()[old(self).spec_pos()]
                && final(self).spec_pos() == old(self).spec_pos() + 1,
            r is None ==> final(self).spec_pos() == old(self).spec_pos(),
    {
        if !self.has(1) {
            return None;
        }
        let v = self.data[self.pos as usize];
        self.pos = self.pos + 1;
        Some(v)
    }

    pub fn read_u16(&mut self) -> (r: Option<u16>)
        ensures
            final(self).spec_data() == old(self).spec_data(),
            r is Some <==> avail(old(self).spec_data(), old(self).spec_pos(), 2),
            r matches Some(v) ==> v == le_u16(old(self).spec_data(), old(self).spec_pos())
                && final(self).spec_pos() == old(self).spec_pos() + 2,
            r is None ==> final(self).spec_pos() == old(self).spec_pos(),
    {
        if !self.has(2) {
            return None;
        }
        let p = self.pos as usize;
        let v = self.data[p] as u16 + 256 * (self.data[p + 1] as u16);
        self.pos = self.pos + 2;
        Some(v)
    }

    pub fn read_u32(&mut self) -> (r: Option<u32>)
        ensures
            final(self).spec_data() == old(self).spec_data(),
            r is Some <==> avail(old(self).spec_data(), old(self).spec_pos(), 4),
            r matches Some(v) ==> v == le_u32(old(self).spec_data(), old(self).spec_pos())
                && final(self).spec_pos() == old(self).spec_pos() + 4,
            r is None ==> final(self).spec_pos() == old(self).spec_pos(),
    {
        if !self.has(4) {
            return None;
        }
        let p = self.pos as usize;
        let lo = self.data[p] as u32 + 256 * (self.data[p + 1] as u32);
        let hi = self.data[p + 2] as u32 + 256 * (self.data[p + 3] as u32);
        let v = lo + 65536 * hi;
        self.pos = self.pos + 4;
        Some(v)
    }

    pub fn read_u64(&mut self) -> (r: Option<u64>)
        ensures
            final(self).spec_data() == old(self).spec_data(),
            r is Some <==> avail(old(self).spec_data(), old(self).spec_pos(), 8),
            r matches Some(v) ==> v == le_u64(old(self).spec_data(), old(self).spec_pos())
                && final(self).spec_pos() == old(self).spec_pos() + 8,
            r is None ==> final(self).spec_pos() == old(self).spec_pos(),
    {
        if !self.has(8) {
            return None;
        }
        let lo = self.read_u32().unwrap() as u64;
        let hi = self.read_u32().unwrap() as u64;
        Some(lo + 4294967296 * hi)
    }

    pub fn read_i8(&mut self) -> (r: Option<i8>)
        ensures
            final(self).spec_data() == old(self).spec_data(),
            r is Some <==> avail(old(self).spec_data(), old(self).spec_pos(), 1),
            r matches Some(v) ==> v == signed(old(self).spec_data()[old(self).spec_pos()] as int, 8)
                && final(self).spec_pos() == old(self).spec_pos() + 1,
            r is None ==> final(self).spec_pos() == old(self).spec_pos(),
    {
        reveal_with_fuel(pow2_int, 9);
        match self.read_u8() {
            Some(v) => Some(
                if v < 128 {
                    v as i8
                } else {
                    (v as i16 - 256) as i8
                },
            ),
            None => None,
        }
    }

    pub fn read_i16(&mut self) -> (r: Option<i16>)
        ensures
            final(self).spec_data() == old(self).spec_data(),
            r is Some <==> avail(old(self).spec_data(), old(self).spec_pos(), 2),
            r matches Some(v) ==> v == signed(le_u16(old(self).spec_data(), old(self).spec_pos()), 16)
                && final(self).spec_pos() == old(self).spec_pos() + 2,
            r is None ==> final(self).spec_pos() == old(self).spec_pos(),
    {
        reveal_with_fuel(pow2_int, 17);
        match self.read_u16() {
            Some(v) => Some(
                if v < 32768 {
                    v as i16
                } else {
                    (v as i32 - 65536) as i16
                },
            ),
            None => None,
        }
    }

    pub fn read_i32(&mut self) -> (r: Option<i32>)
        ensures
            final(self).spec_data() == old(self).spec_data(),
            r is Some <==> avail(old(self).spec_data(), old(self).spec_pos(), 4),
            r matches Some(v) ==> v == signed(le_u32(old(self).spec_data(), old(self).spec_pos()), 32)
                && final(self).spec_pos() == old(self).spec_pos() + 4,
            r is None ==> final(self).spec_pos() == old(self).spec_pos(),
    {
        proof {
            lemma_pow2_values();
        }
        match self.read_u32() {
            Some(v) => Some(
                if v < 0x8000_0000 {
                    v as i32
                } else {
                    (v as i64 - 0x1_0000_0000) as i32
                },
            ),
            None => None,
        }
    }

    pub fn read_i64(&mut self) -> (r: Option<i64>)
        ensures
            final(self).spec_data() == old(self).spec_data(),
            r is Some <==> avail(old(self).spec_data(), old(self).spec_pos(), 8),
            r matches Some(v) ==> v == signed(le_u64(old(self).spec_data(), old(self).spec_pos()), 64)
                && final(self).spec_pos() == old(self).spec_pos() + 8,
            r is None ==> final(self).spec_pos() == old(self).spec_pos(),
    {
        proof {
            lemma_pow2_values();
        }
        match self.read_u64() {
            Some(v) => Some(
                if v < 0x8000_0000_0000_0000 {
                    v as i64
                } else {
                    (v as i128 - 0x1_0000_0000_0000_0000) as i64
                },
            ),
            None => None,
        }
    }

    /// Reads the next 20 bytes into an array.
    pub fn read_array20(&mut self) -> (r: Option<[u8; 20]>)
        ensures
            final(self).spec_data() == old(self).spec_data(),
            r is Some <==> avail(old(self).spec_data(), old(self).spec_pos(), 20),
            r matches Some(v) ==> v@ == bytes_at(old(self).spec_data(), old(self).spec_pos(), 20)
                && final(self).spec_pos() == old(self).spec_pos() + 20,
            r is None ==> final(self).spec_pos() == old(self).spec_pos(),
    {
        let bytes = match self.read_bytes(20) {
            Some(b) => b,
            None => return None,
        };
        let mut out = [0u8; 20];
        let mut i: usize = 0;
        while i < 20
            invariant
                0 <= i <= 20,
                bytes@.len() == 20,
                out@.len() == 20,
                forall|k: int| 0 <= k < i ==> out@[k] == bytes@[k],
            decreases 20 - i,
        {
            out[i] = bytes[i];
            i = i + 1;
        }
        assert(out@ =~= bytes@);
        Some(out)
    }

    /// Reads the next `n` bytes.
    pub fn read_bytes(&mut self, n: usize) -> (r: Option<Vec<u8>>)
        ensures
            final(self).spec_data() == old(self).spec_data(),
            r is Some <==> avail(old(self).spec_data(), old(self).spec_pos(), n as int),
            r matches Some(v) ==> v@ == bytes_at(old(self).spec_data(), old(self).spec_pos(), n as nat)
                && final(self).spec_pos() == old(self).spec_pos() + n,
            r is None ==> final(self).spec_pos() == old(self).spec_pos(),
    {
        let len = self.data.len();
        if n == 0 {
            let v: Vec<u8> = Vec::new();
            assert(v@ =~= bytes_at(self.data@, self.pos as int, 0));
            return Some(v);
        }
        if !self.has(n) {
            return None;
        }
        let p = self.pos as usize;
        let mut out: Vec<u8> = Vec::with_capacity(n);
        let mut i: usize = 0;
        while i < n
            invariant
                p + n <= self.data@.len(),
                self.data@.len() == len,
                0 <= i <= n,
                out@ == self.data@.subrange(p as int, p + i),
            decreases n - i,
        {
            out.push(self.data[p + i]);
            i = i + 1;
            assert(out@ =~= self.data@.subrange(p as int, p + i));
        }
        self.pos = (p + n) as u64;
        assert(out@ =~= bytes_at(self.data@, p as int, n as nat));
        Some(out)
    }
}

/// The little-endian 16-bit value at `o` of `b`.
pub fn le_u16_at(b: &[u8], o: usize) -> (r: u16)
    requires
        o + 2 <= b@.len(),
    ensures
        r == le_u16(b@, o as int),
{
    b[o] as u16 + (b[o + 1] as u16) * 256
}

/// The little-endian 32-bit value at `o` of `b`.
pub fn le_u32_at(b: &[u8], o: usize) -> (r: u32)
    requires
        o + 4 <= b@.len(),
    ensures
        r == le_u32(b@, o as int),
{
    let _len = b.len();
    le_u16_at(b, o) as u32 + (le_u16_at(b, o + 2) as u32) * 65536
}

/// The little-endian 64-bit value at `o` of `b`.
pub fn le_u64_at(b: &[u8], o: usize) -> (r: u64)
    requires
        o + 8 <= b@.len(),
    ensures
        r == le_u64(b@, o as int),
{
    let _len = b.len();
    le_u32_at(b, o) as u64 + (le_u32_at(b, o + 4) as u64) * 4294967296
}

pub proof fn lemma_pow2_values()
    ensures
        pow2_int(7) == 128,
        pow2_int(8) == 256,
        pow2_int(15) == 32768,
        pow2_int(16) == 65536,
        pow2_int(31) == 0x8000_0000,
        pow2_int(32) == 0x1_0000_0000,
        pow2_int(63) == 0x8000_0000_0000_0000,
        pow2_int(64) == 0x1_0000_0000_0000_0000,
{
    reveal_with_fuel(pow2_int, 65);
}

} // verus!
