//! Little-endian byte layouts of the X11 wire protocol and a cursor over received bytes.
use vstd::prelude::*;

use crate::error::{eof_error, Error};

verus! {

/// The unsigned 16-bit number stored little-endian at `s[i..i+2]`.
pub open spec fn spec_le_u16(s: Seq<u8>, i: int) -> u16 {
    (s[i] as int + s[i + 1] as int * 0x100) as u16
}

/// The unsigned 32-bit number stored little-endian at `s[i..i+4]`.
pub open spec fn spec_le_u32(s: Seq<u8>, i: int) -> u32 {
    (s[i] as int + s[i + 1] as int * 0x100 + s[i + 2] as int * 0x10000 + s[i + 3] as int
        * 0x1000000) as u32
}

/// Two's complement reading of a 16-bit pattern.
pub open spec fn spec_u16_as_i16(u: u16) -> i16 {
    if u < 0x8000 {
        u as i16
    } else {
        (u - 0x10000) as i16
    }
}

/// Two's complement reading of a 32-bit pattern.
pub open spec fn spec_u32_as_i32(u: u32) -> i32 {
    if u < 0x8000_0000 {
        u as i32
    } else {
        (u - 0x1_0000_0000) as i32
    }
}

/// The signed 16-bit number stored little-endian at `s[i..i+2]`.
pub open spec fn spec_le_i16(s: Seq<u8>, i: int) -> i16 {
    spec_u16_as_i16(spec_le_u16(s, i))
}

/// The signed 32-bit number stored little-endian at `s[i..i+4]`.
pub open spec fn spec_le_i32(s: Seq<u8>, i: int) -> i32 {
    spec_u32_as_i32(spec_le_u32(s, i))
}

/// The unsigned 16-bit number stored big-endian at `s[i..i+2]`.
pub open spec fn spec_be_u16(s: Seq<u8>, i: int) -> u16 {
    (s[i] as int * 0x100 + s[i + 1] as int) as u16
}

/// Little-endian bytes of a 16-bit number.
pub open spec fn spec_u16_bytes(v: u16) -> Seq<u8> {
    seq![(v % 0x100) as u8, (v / 0x100) as u8]
}

/// Little-endian bytes of a 32-bit number.
pub open spec fn spec_u32_bytes(v: u32) -> Seq<u8> {
    seq![
        (v % 0x100) as u8,
        ((v / 0x100) % 0x100) as u8,
        ((v / 0x10000) % 0x100) as u8,
        (v / 0x1000000) as u8,
    ]
}

/// The bit pattern of a signed 16-bit number.
pub open spec fn spec_i16_as_u16(v: i16) -> u16 {
    if v >= 0 {
        v as u16
    } else {
        (v + 0x10000) as u16
    }
}

/// The bit pattern of a signed 32-bit number.
pub open spec fn spec_i32_as_u32(v: i32) -> u32 {
    if v >= 0 {
        v as u32
    } else {
        (v + 0x1_0000_0000) as u32
    }
}

/// Little-endian bytes of a signed 16-bit number.
pub open spec fn spec_i16_bytes(v: i16) -> Seq<u8> {
    spec_u16_bytes(spec_i16_as_u16(v))
}

/// Number of bytes needed to pad `e` up to a multiple of four.
pub open spec fn spec_pad(e: int) -> int {
    (4 - (e % 4)) % 4
}

/// Number of bytes needed to pad `e` up to a multiple of four.
pub fn pad(e: usize) -> (r: usize)
    ensures
        r == spec_pad(e as int),
        r < 4,
        (e + r) % 4 == 0,
{
    (4 - (e % 4)) % 4
}

/// Two's complement reading of a 16-bit pattern.
pub fn u16_as_i16(u: u16) -> (r: i16)
    ensures
        r == spec_u16_as_i16(u),
{
    if u < 0x8000 {
        u as i16
    } else {
        ((u - 0x8000) as i16) + i16::MIN
    }
}

/// Two's complement reading of a 32-bit pattern.
pub fn u32_as_i32(u: u32) -> (r: i32)
    ensures
        r == spec_u32_as_i32(u),
{
    if u < 0x8000_0000 {
        u as i32
    } else {
        ((u - 0x8000_0000) as i32) + i32::MIN
    }
}

/// The bit pattern of a signed 16-bit number.
pub fn i16_as_u16(v: i16) -> (r: u16)
    ensures
        r == spec_i16_as_u16(v),
{
    if v >= 0 {
        v as u16
    } else {
        ((v - i16::MIN) as u16) + 0x8000
    }
}

/// The bit pattern of a signed 32-bit number.
pub fn i32_as_u32(v: i32) -> (r: u32)
    ensures
        r == spec_i32_as_u32(v),
{
    if v >= 0 {
        v as u32
    } else {
        ((v - i32::MIN) as u32) + 0x8000_0000
    }
}

/// Decoding the bit pattern of a signed number gives the number back.
pub proof fn lemma_i16_pattern_roundtrip(v: i16)
    ensures
        spec_u16_as_i16(spec_i16_as_u16(v)) == v,
{
}

/// Decoding the bit pattern of a signed number gives the number back.
pub proof fn lemma_i32_pattern_roundtrip(v: i32)
    ensures
        spec_u32_as_i32(spec_i32_as_u32(v)) == v,
{
}

/// Reading a bit pattern as signed and back gives the pattern back.
pub proof fn lemma_u16_i16_pattern_roundtrip(u: u16)
    ensures
        spec_i16_as_u16(spec_u16_as_i16(u)) == u,
{
}

/// Decoding the encoding of a 16-bit number gives the number back.
pub proof fn lemma_u16_bytes_roundtrip(v: u16)
    ensures
        spec_u16_bytes(v).len() == 2,
        spec_le_u16(spec_u16_bytes(v), 0) == v,
{
}

/// Decoding the encoding of a 32-bit number gives the number back.
pub proof fn lemma_u32_bytes_roundtrip(v: u32)
    ensures
        spec_u32_bytes(v).len() == 4,
        spec_le_u32(spec_u32_bytes(v), 0) == v,
{
}

/// Encoding a decoded 16-bit number gives the two bytes back.
pub proof fn lemma_le_u16_bytes_roundtrip(s: Seq<u8>, i: int)
    requires
        0 <= i,
        i + 2 <= s.len(),
    ensures
        spec_u16_bytes(spec_le_u16(s, i)) == s.subrange(i, i + 2),
{
    assert(spec_u16_bytes(spec_le_u16(s, i)) =~= s.subrange(i, i + 2));
}

/// Encoding a decoded 32-bit number gives the four bytes back.
pub proof fn lemma_le_u32_bytes_roundtrip(s: Seq<u8>, i: int)
    requires
        0 <= i,
        i + 4 <= s.len(),
    ensures
        spec_u32_bytes(spec_le_u32(s, i)) == s.subrange(i, i + 4),
{
    let (b0, b1, b2, b3) = (s[i] as int, s[i + 1] as int, s[i + 2] as int, s[i + 3] as int);
    let v = b0 + b1 * 0x100 + b2 * 0x10000 + b3 * 0x1000000;
    assert(v % 0x100 == b0 && (v / 0x100) % 0x100 == b1 && (v / 0x10000) % 0x100 == b2 && v
        / 0x1000000 == b3) by (nonlinear_arith)
        requires
            0 <= b0 < 0x100,
            0 <= b1 < 0x100,
            0 <= b2 < 0x100,
            0 <= b3 < 0x100,
            v == b0 + b1 * 0x100 + b2 * 0x10000 + b3 * 0x1000000,
    ;
    assert(spec_le_u32(s, i) == v);
    assert(spec_u32_bytes(spec_le_u32(s, i)) =~= s.subrange(i, i + 4));
}

/// Little-endian bytes of a 16-bit number, appended to `out`.
pub fn push_u16(out: &mut Vec<u8>, v: u16)
    ensures
        final(out)@ == old(out)@ + spec_u16_bytes(v),
{
    out.push((v % 0x100) as u8);
    out.push((v / 0x100) as u8);
    assert(final(out)@ =~= old(out)@ + spec_u16_bytes(v));
}

/// Little-endian bytes of a 32-bit number, appended to `out`.
pub fn push_u32(out: &mut Vec<u8>, v: u32)
    ensures
        final(out)@ == old(out)@ + spec_u32_bytes(v),
{
    out.push((v % 0x100) as u8);
    out.push(((v / 0x100) % 0x100) as u8);
    out.push(((v / 0x10000) % 0x100) as u8);
    out.push((v / 0x1000000) as u8);
    assert(final(out)@ =~= old(out)@ + spec_u32_bytes(v));
}

/// Little-endian bytes of a signed 16-bit number, appended to `out`.
pub fn push_i16(out: &mut Vec<u8>, v: i16)
    ensures
        final(out)@ == old(out)@ + spec_i16_bytes(v),
{
    push_u16(out, i16_as_u16(v));
}

/// Little-endian 16-bit number at `s[i..i+2]`.
pub fn le_u16_at(s: &[u8], i: usize) -> (r: u16)
    requires
        i + 2 <= s@.len(),
    ensures
        r == spec_le_u16(s@, i as int),
{
    s[i] as u16 + (s[i + 1] as u16) * 0x100
}

/// Little-endian 32-bit number at `s[i..i+4]`.
pub fn le_u32_at(s: &[u8], i: usize) -> (r: u32)
    requires
        i + 4 <= s@.len(),
    ensures
        r == spec_le_u32(s@, i as int),
{
    s[i] as u32 + (s[i + 1] as u32) * 0x100 + (s[i + 2] as u32) * 0x10000 + (s[i + 3] as u32)
        * 0x1000000
}

/// Little-endian signed 16-bit number at `s[i..i+2]`.
pub fn le_i16_at(s: &[u8], i: usize) -> (r: i16)
    requires
        i + 2 <= s@.len(),
    ensures
        r == spec_le_i16(s@, i as int),
{
    u16_as_i16(le_u16_at(s, i))
}

/// Big-endian 16-bit number at `s[i..i+2]`.
pub fn be_u16_at(s: &[u8], i: usize) -> (r: u16)
    requires
        i + 2 <= s@.len(),
    ensures
        r == spec_be_u16(s@, i as int),
{
    (s[i] as u16) * 0x100 + s[i + 1] as u16
}

/// Bytes received from the X server and not consumed yet.
///
/// This is the read side of a connection: the transport appends what arrives, the decoders
/// consume it from the front.
pub struct ByteReader {
    data: Vec<u8>,
    pos: usize,
}

impl View for ByteReader {
    type V = Seq<u8>;

    /// The bytes that are still to be consumed, in order.
    closed spec fn view(&self) -> Seq<u8> {
        if self.pos <= self.data@.len() {
            self.data@.subrange(self.pos as int, self.data@.len() as int)
        } else {
            Seq::empty()
        }
    }
}

impl ByteReader {
    proof fn lemma_view(&self)
        ensures
            self.pos <= self.data@.len() ==> self@ == self.data@.subrange(
                self.pos as int,
                self.data@.len() as int,
            ),
            self.pos <= self.data@.len() ==> self@.len() == self.data@.len() - self.pos,
            self.pos > self.data@.len() ==> self@.len() == 0,
    {
    }

    /// A reader whose unconsumed input is `data`.
    pub fn new(data: Vec<u8>) -> (r: ByteReader)
        ensures
            r@ == data@,
    {
        let r = ByteReader { data, pos: 0 };
        assert(r@ =~= data@);
        r
    }

    /// Appends bytes that arrived from the server.
    pub fn extend(&mut self, more: &[u8])
        ensures
            final(self)@ == old(self)@ + more@,
    {
        if self.pos > self.data.len() {
            self.pos = self.data.len();
            assert(self@ =~= old(self)@);
        }
        let ghost before = self@;
        proof {
            self.lemma_view();
        }
        let mut i: usize = 0;
        while i < more.len()
            invariant
                self.pos <= self.data@.len(),
                self@ == self.data@.subrange(self.pos as int, self.data@.len() as int),
                i <= more@.len(),
                self@ == before + more@.subrange(0, i as int),
            decreases more@.len() - i,
        {
            let ghost prev = self.data@;
            self.data.push(more[i]);
            i = i + 1;
            proof {
                self.lemma_view();
                assert(self.data@.subrange(self.pos as int, self.data@.len() as int) =~= prev.subrange(
                    self.pos as int,
                    prev.len() as int,
                ).push(more@[i - 1]));
            }
            assert(self@ =~= before + more@.subrange(0, i as int));
        }
        assert(more@.subrange(0, more@.len() as int) =~= more@);
    }

    /// Whether some received bytes are not consumed yet.
    pub fn has_unconsumed_data(&self) -> (r: bool)
        ensures
            r == (self@.len() > 0),
    {
        proof {
            self.lemma_view();
        }
        self.pos < self.data.len()
    }

    /// Number of bytes not consumed yet.
    pub fn len(&self) -> (r: usize)
        ensures
            r == self@.len(),
    {
        proof {
            self.lemma_view();
        }
        if self.pos <= self.data.len() {
            self.data.len() - self.pos
        } else {
            0
        }
    }

    /// The byte `index` positions ahead, without consuming anything.
    pub fn peek(&self, index: usize) -> (r: Result<u8, Error>)
        ensures
            index < self@.len() ==> r == Ok::<u8, Error>(self@[index as int]),
            index >= self@.len() ==> r == Err::<u8, Error>(eof_error()),
    {
        proof {
            self.lemma_view();
        }
        let n = self.data.len();
        if self.pos <= n && index < n - self.pos {
            Ok(self.data[self.pos + index])
        } else {
            Err(Error::eof())
        }
    }

    /// The byte `index` positions ahead; the caller knows it was received.
    pub fn byte(&self, index: usize) -> (r: u8)
        requires
            index < self@.len(),
        ensures
            r == self@[index as int],
    {
        proof {
            self.lemma_view();
        }
        let n = self.data.len();
        self.data[self.pos + index]
    }

    /// Little-endian 16-bit number `index` bytes ahead, without consuming anything.
    pub fn le_u16_ahead(&self, index: usize) -> (r: u16)
        requires
            index + 2 <= self@.len(),
        ensures
            r == spec_le_u16(self@, index as int),
    {
        // Asking for the length bounds it by `usize::MAX` in the proof.
        let _len = self.len();
        self.byte(index) as u16 + (self.byte(index + 1) as u16) * 0x100
    }

    /// Little-endian 32-bit number `index` bytes ahead, without consuming anything.
    pub fn le_u32_ahead(&self, index: usize) -> (r: u32)
        requires
            index + 4 <= self@.len(),
        ensures
            r == spec_le_u32(self@, index as int),
    {
        // Asking for the length bounds it by `usize::MAX` in the proof.
        let _len = self.len();
        self.byte(index) as u32 + (self.byte(index + 1) as u32) * 0x100 + (self.byte(index + 2)
            as u32) * 0x10000 + (self.byte(index + 3) as u32) * 0x1000000
    }

    /// Little-endian signed 16-bit number `index` bytes ahead, without consuming anything.
    pub fn le_i16_ahead(&self, index: usize) -> (r: i16)
        requires
            index + 2 <= self@.len(),
        ensures
            r == spec_le_i16(self@, index as int),
    {
        u16_as_i16(self.le_u16_ahead(index))
    }

    /// Little-endian signed 32-bit number `index` bytes ahead, without consuming anything.
    pub fn le_i32_ahead(&self, index: usize) -> (r: i32)
        requires
            index + 4 <= self@.len(),
        ensures
            r == spec_le_i32(self@, index as int),
    {
        u32_as_i32(self.le_u32_ahead(index))
    }

    /// A copy of `len` bytes starting `offset` bytes ahead, without consuming anything.
    pub fn copy_bytes(&self, offset: usize, len: usize) -> (r: Vec<u8>)
        requires
            offset + len <= self@.len(),
        ensures
            r@ == self@.subrange(offset as int, offset + len),
    {
        let n = self.len();
        let mut out: Vec<u8> = Vec::new();
        let mut i: usize = 0;
        while i < len
            invariant
                i <= len,
                n == self@.len(),
                offset + len <= self@.len(),
                out@ == self@.subrange(offset as int, offset + i),
            decreases len - i,
        {
            out.push(self.byte(offset + i));
            i = i + 1;
            assert(out@ =~= self@.subrange(offset as int, offset + i));
        }
        out
    }

    /// `count` little-endian 32-bit numbers starting `offset` bytes ahead, without consuming
    /// anything.
    pub fn u32s_ahead(&self, offset: usize, count: usize) -> (r: Vec<u32>)
        requires
            offset + 4 * count <= self@.len(),
        ensures
            r@.len() == count,
            forall|i: int| 0 <= i < count ==> #[trigger] r@[i] == spec_le_u32(self@, offset + 4 * i),
    {
        let n = self.len();
        let mut out: Vec<u32> = Vec::new();
        let mut i: usize = 0;
        while i < count
            invariant
                i <= count,
                n == self@.len(),
                offset + 4 * count <= self@.len(),
                out@.len() == i,
                forall|j: int| 0 <= j < i ==> #[trigger] out@[j] == spec_le_u32(self@, offset + 4 * j),
            decreases count - i,
        {
            out.push(self.le_u32_ahead(offset + 4 * i));
            i = i + 1;
        }
        out
    }

    /// Consumes `len` bytes that the caller knows were received.
    pub fn advance(&mut self, len: usize)
        requires
            len <= old(self)@.len(),
        ensures
            final(self)@ == old(self)@.subrange(len as int, old(self)@.len() as int),
    {
        proof {
            self.lemma_view();
        }
        if len == 0 {
            assert(self@ =~= old(self)@.subrange(0, old(self)@.len() as int));
            return;
        }
        let n = self.data.len();
        self.pos = self.pos + len;
        assert(self@ =~= old(self)@.subrange(len as int, old(self)@.len() as int));
    }

    /// Consumes and returns `len` bytes that the caller knows were received.
    pub fn take_bytes(&mut self, len: usize) -> (r: Vec<u8>)
        requires
            len <= old(self)@.len(),
        ensures
            r@ == old(self)@.subrange(0, len as int),
            final(self)@ == old(self)@.subrange(len as int, old(self)@.len() as int),
    {
        proof {
            self.lemma_view();
        }
        let mut out: Vec<u8> = Vec::new();
        let n = self.data.len();
        let mut i: usize = 0;
        while i < len
            invariant
                len > 0 ==> self.pos <= self.data@.len(),
                n == self.data@.len(),
                self@ == old(self)@,
                i <= len,
                len <= self@.len(),
                out@ == self@.subrange(0, i as int),
            decreases len - i,
        {
            out.push(self.data[self.pos + i]);
            i = i + 1;
            assert(out@ =~= self@.subrange(0, i as int));
        }
        self.advance(len);
        out
    }

    /// Consumes one byte.
    pub fn read_u8(&mut self) -> (r: Result<u8, Error>)
        ensures
            old(self)@.len() >= 1 ==> r == Ok::<u8, Error>(old(self)@[0]) && final(self)@
                == old(self)@.subrange(1, old(self)@.len() as int),
            old(self)@.len() < 1 ==> r == Err::<u8, Error>(eof_error()) && final(self)@ == old(
                self,
            )@,
    {
        if self.len() < 1 {
            return Err(Error::eof());
        }
        let b = self.byte(0);
        self.advance(1);
        Ok(b)
    }

    /// Consumes one byte and reads it as a boolean: any byte but zero is `true`.
    pub fn read_bool(&mut self) -> (r: Result<bool, Error>)
        ensures
            old(self)@.len() >= 1 ==> r == Ok::<bool, Error>(old(self)@[0] != 0) && final(self)@
                == old(self)@.subrange(1, old(self)@.len() as int),
            old(self)@.len() < 1 ==> r == Err::<bool, Error>(eof_error()) && final(self)@ == old(
                self,
            )@,
    {
        let b = self.read_u8()?;
        Ok(b != 0)
    }

    /// Consumes a little-endian 16-bit number.
    pub fn read_le_u16(&mut self) -> (r: Result<u16, Error>)
        ensures
            old(self)@.len() >= 2 ==> r == Ok::<u16, Error>(spec_le_u16(old(self)@, 0))
                && final(self)@ == old(self)@.subrange(2, old(self)@.len() as int),
            old(self)@.len() < 2 ==> r == Err::<u16, Error>(eof_error()) && final(self)@ == old(
                self,
            )@,
    {
        if self.len() < 2 {
            return Err(Error::eof());
        }
        let v = self.le_u16_ahead(0);
        self.advance(2);
        Ok(v)
    }

    /// Consumes a little-endian signed 16-bit number.
    pub fn read_le_i16(&mut self) -> (r: Result<i16, Error>)
        ensures
            old(self)@.len() >= 2 ==> r == Ok::<i16, Error>(spec_le_i16(old(self)@, 0))
                && final(self)@ == old(self)@.subrange(2, old(self)@.len() as int),
            old(self)@.len() < 2 ==> r == Err::<i16, Error>(eof_error()) && final(self)@ == old(
                self,
            )@,
    {
        let raw = self.read_le_u16()?;
        Ok(u16_as_i16(raw))
    }

    /// Consumes a little-endian 32-bit number.
    pub fn read_le_u32(&mut self) -> (r: Result<u32, Error>)
        ensures
            old(self)@.len() >= 4 ==> r == Ok::<u32, Error>(spec_le_u32(old(self)@, 0))
                && final(self)@ == old(self)@.subrange(4, old(self)@.len() as int),
            old(self)@.len() < 4 ==> r == Err::<u32, Error>(eof_error()) && final(self)@ == old(
                self,
            )@,
    {
        if self.len() < 4 {
            return Err(Error::eof());
        }
        let v = self.le_u32_ahead(0);
        self.advance(4);
        Ok(v)
    }

    /// Consumes a little-endian signed 32-bit number.
    pub fn read_le_i32(&mut self) -> (r: Result<i32, Error>)
        ensures
            old(self)@.len() >= 4 ==> r == Ok::<i32, Error>(spec_le_i32(old(self)@, 0))
                && final(self)@ == old(self)@.subrange(4, old(self)@.len() as int),
            old(self)@.len() < 4 ==> r == Err::<i32, Error>(eof_error()) && final(self)@ == old(
                self,
            )@,
    {
        let raw = self.read_le_u32()?;
        Ok(u32_as_i32(raw))
    }

    /// Consumes `len` bytes and returns them.
    pub fn read_n_bytes(&mut self, len: usize) -> (r: Result<Vec<u8>, Error>)
        ensures
            old(self)@.len() >= len ==> (r matches Ok(v) && v@ == old(self)@.subrange(0, len as int)
                && final(self)@ == old(self)@.subrange(len as int, old(self)@.len() as int)),
            old(self)@.len() < len ==> (r matches Err(e) && e == eof_error() && final(self)@ == old(
                self,
            )@),
    {
        if self.len() < len {
            return Err(Error::eof());
        }
        Ok(self.take_bytes(len))
    }

    /// Consumes and discards `len` bytes.
    pub fn drain(&mut self, len: usize) -> (r: Result<(), Error>)
        ensures
            old(self)@.len() >= len ==> r is Ok && final(self)@ == old(self)@.subrange(
                len as int,
                old(self)@.len() as int,
            ),
            old(self)@.len() < len ==> r == Err::<(), Error>(eof_error()) && final(self)@ == old(
                self,
            )@,
    {
        if self.len() < len {
            return Err(Error::eof());
        }
        self.advance(len);
        Ok(())
    }
}

/// A value that can be written in the little-endian wire encoding of the protocol.
pub trait LeBytes: Sized {
    /// Appends the encoding of the value to `w`.
    fn to_le_bytes(&self, w: &mut Vec<u8>);
}

} // verus!
