//! The cursor pair and the codec contracts.
//!
//! A [`Decoder`] is a bounded read view over a byte buffer; an [`Encoder`]
//! is an append view over a growable one.  The [`Codec`] trait states, for
//! each wire type, its canonical encoding and a spec-level parse function,
//! and ties the executable `encode`/`decode` to them.  [`CodecSized`] adds
//! the length-prefix policy used when values of the type are framed inside
//! a length-prefixed container.

use vstd::prelude::*;
use vstd::arithmetic::div_mod::lemma_fundamental_div_mod;
use vstd::arithmetic::div_mod::lemma_fundamental_div_mod_converse;
use vstd::slice::slice_subrange;
use vstd::slice::slice_to_vec;

verus! {

/// The two bytes of `v` in network (big-endian) order.
pub open spec fn be16(v: u16) -> Seq<u8> {
    seq![(v / 256) as u8, (v % 256) as u8]
}

/// The value read from two bytes in network (big-endian) order.
pub open spec fn be16_val(b0: u8, b1: u8) -> u16 {
    ((b0 as int) * 256 + (b1 as int)) as u16
}

/// Reading back the two bytes of `v` yields `v`.
pub proof fn lemma_be16_val(v: u16)
    ensures
        be16_val(be16(v)[0], be16(v)[1]) == v,
{
    lemma_fundamental_div_mod(v as int, 256);
}

/// Writing the value read from two bytes yields the same two bytes.
pub proof fn lemma_be16_bytes(b0: u8, b1: u8)
    ensures
        be16(be16_val(b0, b1)) == seq![b0, b1],
{
    let x = (b0 as int) * 256 + (b1 as int);
    lemma_fundamental_div_mod_converse(x, 256, b0 as int, b1 as int);
    assert(be16(be16_val(b0, b1)) =~= seq![b0, b1]);
}

/// Width of the length prefix that precedes a variable-length payload:
/// absent, one byte, or two bytes.
#[derive(Clone, Copy, PartialEq, Eq, Structural, Debug)]
pub enum HeaderSize {
    Zero,
    U8,
    U16,
}

impl HeaderSize {
    /// Number of bytes the prefix occupies.
    pub open spec fn spec_size(self) -> int {
        match self {
            HeaderSize::Zero => 0,
            HeaderSize::U8 => 1,
            HeaderSize::U16 => 2,
        }
    }

    /// Whether a payload of `n` bytes can be declared by this prefix.
    /// An absent prefix declares nothing and so bounds nothing.
    pub open spec fn fits(self, n: int) -> bool {
        match self {
            HeaderSize::Zero => true,
            HeaderSize::U8 => n <= 255,
            HeaderSize::U16 => n <= 65535,
        }
    }

    /// The prefix bytes declaring a payload of `n` bytes.
    pub open spec fn prefix(self, n: int) -> Seq<u8> {
        match self {
            HeaderSize::Zero => seq![],
            HeaderSize::U8 => seq![n as u8],
            HeaderSize::U16 => be16(n as u16),
        }
    }

    pub fn size(self) -> (n: usize)
        ensures
            n == self.spec_size(),
    {
        match self {
            HeaderSize::Zero => 0,
            HeaderSize::U8 => 1,
            HeaderSize::U16 => 2,
        }
    }
}

/// Failure of an encode operation: the payload is too long for the
/// length prefix the type declares.
#[derive(Clone, Copy, PartialEq, Eq, Structural, Debug)]
pub enum CodecError {
    PayloadTooLarge,
}

/// A bounded read view over an immutable byte buffer.
///
/// The read cursor never exceeds the buffer length; every read advances it
/// by exactly the requested amount or fails without advancing.
pub struct Decoder {
    bytes: Vec<u8>,
    offset: usize,
}

impl Decoder {
    /// The whole underlying buffer.
    pub closed spec fn data(self) -> Seq<u8> {
        self.bytes@
    }

    /// The read cursor.
    pub closed spec fn pos(self) -> int {
        self.offset as int
    }

    /// The cursor stays within the buffer.
    pub open spec fn wf(self) -> bool {
        0 <= self.pos() <= self.data().len()
    }

    /// The bytes not yet consumed.
    pub open spec fn remaining(self) -> Seq<u8> {
        self.data().skip(self.pos())
    }

    pub fn new(bytes: Vec<u8>) -> (d: Self)
        ensures
            d.wf(),
            d.data() == bytes@,
            d.pos() == 0,
    {
        Decoder { bytes, offset: 0 }
    }

    /// How many bytes remain.
    pub fn remaining_len(&self) -> (n: usize)
        requires
            self.wf(),
        ensures
            n == self.remaining().len(),
    {
        self.bytes.len() - self.offset
    }

    /// Whether the whole buffer has been consumed.
    pub fn is_finished(&self) -> (b: bool)
        requires
            self.wf(),
        ensures
            b <==> self.remaining().len() == 0,
    {
        self.offset == self.bytes.len()
    }

    /// The next `n` bytes, copied out, advancing the cursor; or `None`,
    /// without advancing, if fewer than `n` bytes remain.
    pub fn take(&mut self, n: usize) -> (r: Option<Vec<u8>>)
        requires
            old(self).wf(),
        ensures
            final(self).wf(),
            final(self).data() == old(self).data(),
            n <= old(self).remaining().len() ==> {
                &&& r matches Some(v) && v@ == old(self).remaining().take(n as int)
                &&& final(self).pos() == old(self).pos() + n
            },
            n > old(self).remaining().len() ==> r is None && *final(self) == *old(self),
    {
        if n <= self.bytes.len() - self.offset {
            let s = slice_subrange(self.bytes.as_slice(), self.offset, self.offset + n);
            let v = slice_to_vec(s);
            self.offset = self.offset + n;
            proof {
                assert(v@ =~= old(self).remaining().take(n as int));
            }
            Some(v)
        } else {
            None
        }
    }

    /// The next byte, advancing the cursor; or `None`, without advancing,
    /// if the buffer is exhausted.
    pub fn take_byte(&mut self) -> (r: Option<u8>)
        requires
            old(self).wf(),
        ensures
            final(self).wf(),
            final(self).data() == old(self).data(),
            old(self).remaining().len() >= 1 ==> {
                &&& r == Some(old(self).remaining()[0])
                &&& final(self).pos() == old(self).pos() + 1
            },
            old(self).remaining().len() == 0 ==> r is None && *final(self) == *old(self),
    {
        if self.offset < self.bytes.len() {
            let b = self.bytes[self.offset];
            self.offset = self.offset + 1;
            Some(b)
        } else {
            None
        }
    }
}

/// An append view over a growable byte buffer.  No operation can fail.
pub struct Encoder {
    bytes: Vec<u8>,
}

impl View for Encoder {
    type V = Seq<u8>;

    closed spec fn view(&self) -> Seq<u8> {
        self.bytes@
    }
}

impl Encoder {
    pub fn new(bytes: Vec<u8>) -> (e: Self)
        ensures
            e@ == bytes@,
    {
        Encoder { bytes }
    }

    /// Appends one byte.
    pub fn push_u8(&mut self, v: u8)
        ensures
            final(self)@ == old(self)@.push(v),
    {
        self.bytes.push(v);
    }

    /// Appends a two-byte value in network (big-endian) order.
    pub fn push_u16(&mut self, v: u16)
        ensures
            final(self)@ == old(self)@ + be16(v),
    {
        self.bytes.push((v / 256) as u8);
        self.bytes.push((v % 256) as u8);
        proof {
            assert(self.bytes@ =~= old(self)@ + be16(v));
        }
    }

    /// Appends raw bytes unmodified.
    pub fn append(&mut self, data: &[u8])
        ensures
            final(self)@ == old(self)@ + data@,
    {
        self.bytes.extend_from_slice(data);
    }

    /// The bytes written so far.
    pub fn bytes(&self) -> (b: &Vec<u8>)
        ensures
            b@ == self@,
    {
        &self.bytes
    }
}

/// A wire type: a canonical encoding, a spec-level parse of a buffer
/// prefix, and executable encode/decode operations tied to both.
pub trait Codec: Sized {
    /// Well-formed values: those a decode can produce.  Encoding is
    /// specified for exactly these.
    spec fn wf(&self) -> bool;

    /// The canonical wire encoding.
    spec fn enc(&self) -> Seq<u8>;

    /// Spec-level parse of a prefix of `s`: the decoded value and the
    /// number of bytes it consumed, or `None` when no prefix of `s` is a
    /// well-formed encoding.
    spec fn dec(s: Seq<u8>) -> Option<(Self, int)>;

    /// Every successful parse yields a well-formed value whose canonical
    /// encoding is exactly the consumed prefix, and consumes at least one
    /// byte.
    proof fn lemma_dec_sound(s: Seq<u8>)
        ensures
            Self::dec(s) matches Some(p) ==> {
                &&& p.0.wf()
                &&& 0 < p.1 <= s.len()
                &&& p.0.enc() == s.take(p.1)
            },
    ;

    /// Parsing a canonical encoding yields the encoded value back,
    /// whatever follows it: decode inverts encode.
    proof fn lemma_enc_dec(v: Self, rest: Seq<u8>)
        requires
            v.wf(),
        ensures
            Self::dec(v.enc() + rest) == Some((v, v.enc().len() as int)),
    ;

    /// Appends the canonical encoding of `self`.
    fn encode(&self, enc: &mut Encoder)
        requires
            self.wf(),
        ensures
            final(enc)@ == old(enc)@ + self.enc(),
    ;

    /// Consumes one value from the front of the remaining region, or
    /// fails exactly when no prefix of it is a well-formed encoding.
    fn decode(dec: &mut Decoder) -> (r: Option<Self>)
        requires
            old(dec).wf(),
        ensures
            final(dec).wf(),
            final(dec).data() == old(dec).data(),
            old(dec).pos() <= final(dec).pos(),
            match Self::dec(old(dec).remaining()) {
                Some(p) => r == Some(p.0) && final(dec).pos() == old(dec).pos() + p.1,
                None => r is None,
            },
    ;
}

impl Codec for u8 {
    open spec fn wf(&self) -> bool {
        true
    }

    open spec fn enc(&self) -> Seq<u8> {
        seq![*self]
    }

    open spec fn dec(s: Seq<u8>) -> Option<(Self, int)> {
        if s.len() >= 1 {
            Some((s[0], 1))
        } else {
            None
        }
    }

    proof fn lemma_dec_sound(s: Seq<u8>) {
        if s.len() >= 1 {
            assert(s[0].enc() =~= s.take(1));
        }
    }

    proof fn lemma_enc_dec(v: Self, rest: Seq<u8>) {
        let s = v.enc() + rest;
        assert(s[0] == v);
    }

    fn encode(&self, enc: &mut Encoder) {
        enc.push_u8(*self);
        proof {
            assert(enc@ =~= old(enc)@ + self.enc());
        }
    }

    fn decode(dec: &mut Decoder) -> (r: Option<Self>) {
        dec.take_byte()
    }
}

impl Codec for u16 {
    open spec fn wf(&self) -> bool {
        true
    }

    open spec fn enc(&self) -> Seq<u8> {
        be16(*self)
    }

    open spec fn dec(s: Seq<u8>) -> Option<(Self, int)> {
        if s.len() >= 2 {
            Some((be16_val(s[0], s[1]), 2))
        } else {
            None
        }
    }

    proof fn lemma_dec_sound(s: Seq<u8>) {
        if s.len() >= 2 {
            lemma_be16_bytes(s[0], s[1]);
            assert(be16_val(s[0], s[1]).enc() =~= s.take(2));
        }
    }

    proof fn lemma_enc_dec(v: Self, rest: Seq<u8>) {
        let s = v.enc() + rest;
        assert(s[0] == v.enc()[0] && s[1] == v.enc()[1]);
        lemma_be16_val(v);
        assert(s.take(2) =~= v.enc());
    }

    fn encode(&self, enc: &mut Encoder) {
        enc.push_u16(*self);
    }

    fn decode(dec: &mut Decoder) -> (r: Option<Self>) {
        let b0 = match dec.take_byte() {
            Some(b) => b,
            None => {
                return None;
            },
        };
        let b1 = match dec.take_byte() {
            Some(b) => b,
            None => {
                return None;
            },
        };
        Some((b0 as u16) * 256 + (b1 as u16))
    }
}

/// A wire type that can stand inside a length-prefixed container: it
/// declares the width of the container's length prefix and can report its
/// own encoded size without re-encoding.
pub trait CodecSized: Codec {
    /// The length-prefix policy for containers of this type.  A property
    /// of the type, fixed by protocol convention.
    spec fn hdr() -> HeaderSize;

    /// Executable view of [`Self::hdr`].
    fn header_size() -> (h: HeaderSize)
        ensures
            h == Self::hdr(),
    ;

    /// The encoded payload size in bytes, without re-encoding.
    fn data_size(&self) -> (n: usize)
        requires
            self.wf(),
        ensures
            n == self.enc().len(),
    ;
}

} // verus!
