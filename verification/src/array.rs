//! The length-prefixed array container.
//!
//! An [`Array`] is an ordered sequence of sized-codec elements, framed on
//! the wire by a length prefix whose width the element type declares.
//! The prefix counts payload bytes, not elements; decoding reads exactly
//! the declared payload and fails if its bytes do not split into a whole
//! number of well-formed elements.

use vstd::prelude::*;
use crate::codec::{be16_val, Codec, CodecError, CodecSized, Decoder, Encoder, HeaderSize};

verus! {

/// The concatenation of the canonical encodings of `s`, in order.
pub open spec fn concat_enc<T: Codec>(s: Seq<T>) -> Seq<u8>
    decreases s.len(),
{
    if s.len() == 0 {
        Seq::empty()
    } else {
        s[0].enc() + concat_enc(s.skip(1))
    }
}

/// Splitting the payload of one more element off the front.
pub proof fn lemma_concat_snoc<T: Codec>(s: Seq<T>, v: T)
    ensures
        concat_enc(s.push(v)) == concat_enc(s) + v.enc(),
    decreases s.len(),
{
    if s.len() == 0 {
        assert(s.push(v).skip(1) =~= Seq::<T>::empty());
        assert(s.push(v)[0] == v);
        assert(concat_enc(s.push(v)) == v.enc() + concat_enc(Seq::<T>::empty()));
        assert(concat_enc(s.push(v)) =~= concat_enc(s) + v.enc());
    } else {
        assert(s.push(v).skip(1) =~= s.skip(1).push(v));
        lemma_concat_snoc(s.skip(1), v);
        assert(s.push(v)[0] == s[0]);
        assert(concat_enc(s.push(v)) == s[0].enc() + (concat_enc(s.skip(1)) + v.enc()));
        assert(concat_enc(s.push(v)) =~= concat_enc(s) + v.enc());
    }
}

/// The payload of a sequence splits at any element boundary.
pub proof fn lemma_concat_split<T: Codec>(s: Seq<T>, i: int)
    requires
        0 <= i <= s.len(),
    ensures
        concat_enc(s) == concat_enc(s.take(i)) + concat_enc(s.skip(i)),
    decreases i,
{
    if i == 0 {
        assert(s.take(0) =~= Seq::<T>::empty());
        assert(s.skip(0) =~= s);
        assert(concat_enc(s) =~= concat_enc(s.take(0)) + concat_enc(s));
    } else {
        lemma_concat_split(s.skip(1), i - 1);
        assert(s.skip(1).take(i - 1) =~= s.take(i).skip(1));
        assert(s.skip(1).skip(i - 1) =~= s.skip(i));
        assert(s.take(i)[0] == s[0]);
        assert(concat_enc(s.take(i)) == s[0].enc() + concat_enc(s.take(i).skip(1)));
        assert(concat_enc(s) =~= concat_enc(s.take(i)) + concat_enc(s.skip(i)));
    }
}

/// Spec-level parse of a payload region into elements: the whole region
/// must split into a sequence of well-formed encodings, or the parse
/// fails.
pub open spec fn parse_elems<T: Codec>(s: Seq<u8>) -> Option<Seq<T>>
    decreases s.len(),
{
    if s.len() == 0 {
        Some(Seq::empty())
    } else {
        match T::dec(s) {
            Some(p) => if 0 < p.1 <= s.len() {
                match parse_elems::<T>(s.skip(p.1)) {
                    Some(vs) => Some(seq![p.0] + vs),
                    None => None,
                }
            } else {
                None
            },
            None => None,
        }
    }
}

/// Every successful element parse yields well-formed elements whose
/// concatenated encodings are exactly the region parsed.
pub proof fn lemma_parse_elems_sound<T: Codec>(s: Seq<u8>)
    ensures
        parse_elems::<T>(s) matches Some(vs) ==> {
            &&& forall|i: int| 0 <= i < vs.len() ==> (#[trigger] vs[i]).wf()
            &&& concat_enc(vs) == s
        },
    decreases s.len(),
{
    if s.len() == 0 {
        match parse_elems::<T>(s) {
            Some(vs) => {
                assert(concat_enc(vs) =~= s);
            },
            None => {},
        }
    } else {
        T::lemma_dec_sound(s);
        match T::dec(s) {
            Some(p) => {
                if 0 < p.1 <= s.len() {
                    lemma_parse_elems_sound::<T>(s.skip(p.1));
                    match parse_elems::<T>(s.skip(p.1)) {
                        Some(vs) => {
                            let all = seq![p.0] + vs;
                            assert(all.skip(1) =~= vs);
                            assert(concat_enc(all) == p.0.enc() + concat_enc(vs));
                            assert(concat_enc(all) =~= s);
                            assert(forall|i: int|
                                0 <= i < all.len() ==> (#[trigger] all[i]).wf());
                        },
                        None => {},
                    }
                }
            },
            None => {},
        }
    }
}

/// A region that is the concatenation of well-formed encodings parses
/// back to exactly those elements.
pub proof fn lemma_parse_elems_complete<T: Codec>(vs: Seq<T>)
    requires
        forall|i: int| 0 <= i < vs.len() ==> (#[trigger] vs[i]).wf(),
    ensures
        parse_elems::<T>(concat_enc(vs)) == Some(vs),
    decreases vs.len(),
{
    if vs.len() == 0 {
        assert(parse_elems::<T>(concat_enc(vs)) =~= Some(vs));
    } else {
        let s = concat_enc(vs);
        let rest = concat_enc(vs.skip(1));
        assert(s == vs[0].enc() + rest);
        T::lemma_enc_dec(vs[0], rest);
        T::lemma_dec_sound(s);
        let n0 = vs[0].enc().len() as int;
        assert(T::dec(s) == Some((vs[0], n0)));
        assert(0 < n0 <= s.len());
        assert(s.skip(n0) =~= rest);
        lemma_parse_elems_complete::<T>(vs.skip(1));
        assert(seq![vs[0]] + vs.skip(1) =~= vs);
    }
}

/// An ordered sequence of sized-codec elements, encoded as a length
/// prefix (in the width the element type declares) followed by the
/// elements in order.  The prefix counts payload bytes, not elements.
pub struct Array<T: CodecSized> {
    items: Vec<T>,
}

impl<T: CodecSized> View for Array<T> {
    type V = Seq<T>;

    closed spec fn view(&self) -> Seq<T> {
        self.items@
    }
}

impl<T: CodecSized> Array<T> {
    /// All elements are well-formed.
    pub open spec fn wf(self) -> bool {
        forall|i: int| 0 <= i < self@.len() ==> (#[trigger] self@[i]).wf()
    }

    /// The payload bytes: the elements' encodings, concatenated in order.
    pub open spec fn payload(self) -> Seq<u8> {
        concat_enc(self@)
    }

    /// Whether the payload length can be declared by the element type's
    /// length prefix.
    pub open spec fn encodable(self) -> bool {
        self.wf() && T::hdr().fits(self.payload().len() as int)
    }

    /// The canonical wire encoding: length prefix, then payload.
    pub open spec fn enc(self) -> Seq<u8> {
        T::hdr().prefix(self.payload().len() as int) + self.payload()
    }

    /// Spec-level parse of a prefix of `s`: read the length prefix, then
    /// exactly that many payload bytes, which must split into whole
    /// well-formed elements.
    pub open spec fn spec_parse(s: Seq<u8>) -> Option<(Seq<T>, int)> {
        if T::hdr() == HeaderSize::Zero {
            match parse_elems::<T>(s) {
                Some(vs) => Some((vs, s.len() as int)),
                None => None,
            }
        } else if T::hdr() == HeaderSize::U8 {
            if s.len() < 1 {
                None
            } else {
                let n = s[0] as int;
                if s.len() - 1 < n {
                    None
                } else {
                    match parse_elems::<T>(s.subrange(1, 1 + n)) {
                        Some(vs) => Some((vs, 1 + n)),
                        None => None,
                    }
                }
            }
        } else {
            if s.len() < 2 {
                None
            } else {
                let n = be16_val(s[0], s[1]) as int;
                if s.len() - 2 < n {
                    None
                } else {
                    match parse_elems::<T>(s.subrange(2, 2 + n)) {
                        Some(vs) => Some((vs, 2 + n)),
                        None => None,
                    }
                }
            }
        }
    }

    /// The array owning the given elements, in their order.
    pub fn new(items: Vec<T>) -> (r: Self)
        ensures
            r@ == items@,
    {
        Array { items }
    }

    /// The array with no elements.
    pub fn empty() -> (r: Self)
        ensures
            r@ == Seq::<T>::empty(),
            r.wf(),
            r.encodable(),
    {
        Array { items: Vec::new() }
    }

    pub fn is_empty(&self) -> (b: bool)
        ensures
            b <==> self@.len() == 0,
    {
        self.items.len() == 0
    }

    pub fn len(&self) -> (n: usize)
        ensures
            n == self@.len(),
    {
        self.items.len()
    }

    /// The elements, in order.
    pub fn items(&self) -> (r: &Vec<T>)
        ensures
            r@ == self@,
    {
        &self.items
    }

    /// A restartable iteration over the elements.
    pub fn iter(&self) -> (it: ArrayIter<'_, T>)
        ensures
            it.wf(),
            it.elems() == self@,
            it.index() == 0,
    {
        ArrayIter { arr: self, idx: 0 }
    }

    /// The payload size in bytes, if it does not exceed `cap`.
    fn payload_size_capped(&self, cap: usize) -> (r: Option<usize>)
        requires
            self.wf(),
        ensures
            match r {
                Some(n) => n == self.payload().len() && n <= cap,
                None => self.payload().len() > cap,
            },
    {
        let mut total: usize = 0;
        let mut i: usize = 0;
        let n = self.items.len();
        while i < n
            invariant
                self.wf(),
                n == self@.len(),
                0 <= i <= n,
                total == concat_enc(self@.take(i as int)).len(),
                total <= cap,
            decreases n - i,
        {
            let d = self.items[i].data_size();
            proof {
                lemma_concat_snoc(self@.take(i as int), self@[i as int]);
                assert(self@.take(i as int).push(self@[i as int]) =~= self@.take(i as int + 1));
                lemma_concat_split(self@, i as int + 1);
            }
            if d > cap || total > cap - d {
                return None;
            }
            total = total + d;
            i = i + 1;
        }
        proof {
            assert(self@.take(n as int) =~= self@);
        }
        Some(total)
    }

    /// The payload size in bytes: the sum of the elements' encoded
    /// sizes, computed without re-encoding.
    pub fn data_size(&self) -> (n: usize)
        requires
            self.wf(),
            self.payload().len() <= usize::MAX,
        ensures
            n == self.payload().len(),
    {
        match self.payload_size_capped(usize::MAX) {
            Some(n) => n,
            None => {
                proof {
                    assert(false);
                }
                0
            },
        }
    }

    /// Appends the payload: every element's encoding, in order.
    fn encode_elems(&self, enc: &mut Encoder)
        requires
            self.wf(),
        ensures
            final(enc)@ == old(enc)@ + self.payload(),
    {
        let n = self.items.len();
        let mut i: usize = 0;
        while i < n
            invariant
                self.wf(),
                n == self@.len(),
                0 <= i <= n,
                enc@ == old(enc)@ + concat_enc(self@.take(i as int)),
            decreases n - i,
        {
            self.items[i].encode(enc);
            proof {
                lemma_concat_snoc(self@.take(i as int), self@[i as int]);
                assert(self@.take(i as int).push(self@[i as int]) =~= self@.take(i as int + 1));
                assert(enc@ =~= old(enc)@ + concat_enc(self@.take(i as int + 1)));
            }
            i = i + 1;
        }
        proof {
            assert(self@.take(n as int) =~= self@);
        }
    }

    /// Writes the length prefix and the payload, or fails, writing
    /// nothing, exactly when the payload is too long for the prefix.
    pub fn encode(&self, enc: &mut Encoder) -> (r: Result<(), CodecError>)
        requires
            self.wf(),
        ensures
            match r {
                Ok(_) => self.encodable() && final(enc)@ == old(enc)@ + self.enc(),
                Err(_) => !self.encodable() && final(enc)@ == old(enc)@,
            },
    {
        match T::header_size() {
            HeaderSize::Zero => {
                self.encode_elems(enc);
                proof {
                    assert(enc@ =~= old(enc)@ + self.enc());
                }
                Ok(())
            },
            HeaderSize::U8 => {
                match self.payload_size_capped(255) {
                    Some(n) => {
                        enc.push_u8(n as u8);
                        self.encode_elems(enc);
                        proof {
                            assert(enc@ =~= old(enc)@ + self.enc());
                        }
                        Ok(())
                    },
                    None => Err(CodecError::PayloadTooLarge),
                }
            },
            HeaderSize::U16 => {
                match self.payload_size_capped(65535) {
                    Some(n) => {
                        enc.push_u16(n as u16);
                        self.encode_elems(enc);
                        proof {
                            crate::codec::lemma_be16_val(self.payload().len() as u16);
                            assert(enc@ =~= old(enc)@ + self.enc());
                        }
                        Ok(())
                    },
                    None => Err(CodecError::PayloadTooLarge),
                }
            },
        }
    }

    /// Decodes elements from an exact payload region, consuming it
    /// whole: the region must split into well-formed elements.
    #[verifier::loop_isolation(false)]
    fn decode_elems(sub: &mut Decoder) -> (r: Option<Self>)
        requires
            old(sub).wf(),
        ensures
            match parse_elems::<T>(old(sub).remaining()) {
                Some(vs) => r matches Some(arr) && arr@ == vs && arr.wf(),
                None => r is None,
            },
    {
        let ghost pdata = old(sub).remaining();
        let mut items: Vec<T> = Vec::new();
        proof {
            match parse_elems::<T>(pdata) {
                Some(vs) => {
                    assert(items@ + vs =~= vs);
                },
                None => {},
            }
        }
        while !sub.is_finished()
            invariant
                sub.wf(),
                forall|i: int| 0 <= i < items@.len() ==> (#[trigger] items@[i]).wf(),
                match parse_elems::<T>(sub.remaining()) {
                    Some(vs) => parse_elems::<T>(pdata) == Some(items@ + vs),
                    None => parse_elems::<T>(pdata) is None,
                },
            decreases sub.remaining().len(),
        {
            let ghost rem0 = sub.remaining();
            match T::decode(sub) {
                Some(v) => {
                    proof {
                        T::lemma_dec_sound(rem0);
                        let p = T::dec(rem0).unwrap();
                        assert(sub.remaining() =~= rem0.skip(p.1));
                        match parse_elems::<T>(rem0.skip(p.1)) {
                            Some(vs) => {
                                assert(parse_elems::<T>(rem0) == Some(seq![p.0] + vs));
                                assert(items@.push(v) + vs =~= items@ + (seq![p.0] + vs));
                            },
                            None => {
                                assert(parse_elems::<T>(rem0) is None);
                            },
                        }
                    }
                    items.push(v);
                },
                None => {
                    proof {
                        assert(T::dec(rem0) is None);
                        assert(parse_elems::<T>(rem0) is None);
                    }
                    return None;
                },
            }
        }
        proof {
            assert(parse_elems::<T>(sub.remaining()) == Some(Seq::<T>::empty()));
            assert(items@ + Seq::<T>::empty() =~= items@);
        }
        Some(Array { items })
    }

    /// Reads the length prefix and exactly that many payload bytes, then
    /// decodes the elements; fails exactly when the remaining region does
    /// not start with a well-formed array encoding.
    pub fn decode(dec: &mut Decoder) -> (r: Option<Self>)
        requires
            old(dec).wf(),
        ensures
            final(dec).wf(),
            final(dec).data() == old(dec).data(),
            old(dec).pos() <= final(dec).pos(),
            match Self::spec_parse(old(dec).remaining()) {
                Some(p) => {
                    &&& r matches Some(arr) && arr@ == p.0 && arr.wf()
                    &&& final(dec).pos() == old(dec).pos() + p.1
                },
                None => r is None,
            },
    {
        let ghost s = old(dec).remaining();
        match T::header_size() {
            HeaderSize::Zero => {
                let n = dec.remaining_len();
                let payload = dec.take(n).unwrap();
                proof {
                    assert(payload@ =~= s);
                }
                let mut sub = Decoder::new(payload);
                proof {
                    assert(sub.remaining() =~= s);
                }
                Self::decode_elems(&mut sub)
            },
            HeaderSize::U8 => {
                let b = match dec.take_byte() {
                    Some(b) => b,
                    None => {
                        return None;
                    },
                };
                let n = b as usize;
                let payload = match dec.take(n) {
                    Some(p) => p,
                    None => {
                        return None;
                    },
                };
                proof {
                    assert(payload@ =~= s.subrange(1, 1 + n as int));
                }
                let mut sub = Decoder::new(payload);
                proof {
                    assert(sub.remaining() =~= s.subrange(1, 1 + n as int));
                }
                Self::decode_elems(&mut sub)
            },
            HeaderSize::U16 => {
                let b0 = match dec.take_byte() {
                    Some(b) => b,
                    None => {
                        return None;
                    },
                };
                let b1 = match dec.take_byte() {
                    Some(b) => b,
                    None => {
                        return None;
                    },
                };
                let n = (b0 as usize) * 256 + (b1 as usize);
                let payload = match dec.take(n) {
                    Some(p) => p,
                    None => {
                        return None;
                    },
                };
                proof {
                    assert(payload@ =~= s.subrange(2, 2 + n as int));
                }
                let mut sub = Decoder::new(payload);
                proof {
                    assert(sub.remaining() =~= s.subrange(2, 2 + n as int));
                }
                Self::decode_elems(&mut sub)
            },
        }
    }
}

impl<T: CodecSized> From<Vec<T>> for Array<T> {
    /// Takes ownership of the elements, preserving their order.
    fn from(items: Vec<T>) -> (r: Self) {
        Array { items }
    }
}

impl<T: CodecSized> vstd::std_specs::convert::FromSpecImpl<Vec<T>> for Array<T> {
    open spec fn obeys_from_spec() -> bool {
        true
    }

    closed spec fn from_spec(v: Vec<T>) -> Self {
        Array { items: v }
    }
}

/// An array's canonical encoding is its length prefix, holding the
/// payload byte count, followed by the elements' encodings in their
/// original order; zero elements yield exactly the zero-valued prefix.
pub proof fn lemma_array_framing<T: CodecSized>(arr: Array<T>)
    ensures
        arr.enc() == T::hdr().prefix(concat_enc(arr@).len() as int) + concat_enc(arr@),
        arr@.len() == 0 ==> arr.enc() == T::hdr().prefix(0),
{
    if arr@.len() == 0 {
        assert(arr.enc() =~= T::hdr().prefix(0));
    }
}

/// Round trip: decoding the canonical encoding of an encodable array
/// yields its elements back, consuming exactly the encoding, whatever
/// follows it.  An absent-prefix array has no declared extent, so there
/// its encoding must be the whole region.
pub proof fn lemma_array_enc_dec<T: CodecSized>(arr: Array<T>, rest: Seq<u8>)
    requires
        arr.encodable(),
        T::hdr() == HeaderSize::Zero ==> rest.len() == 0,
    ensures
        Array::<T>::spec_parse(arr.enc() + rest) == Some((arr@, arr.enc().len() as int)),
{
    let pay = arr.payload();
    let n = pay.len() as int;
    lemma_parse_elems_complete::<T>(arr@);
    let s = arr.enc() + rest;
    if T::hdr() == HeaderSize::Zero {
        assert(s =~= pay);
    } else if T::hdr() == HeaderSize::U8 {
        assert(s[0] == n as u8);
        assert(s.subrange(1, 1 + n) =~= pay);
    } else {
        assert(s[0] == crate::codec::be16(n as u16)[0]);
        assert(s[1] == crate::codec::be16(n as u16)[1]);
        crate::codec::lemma_be16_val(n as u16);
        assert(be16_val(s[0], s[1]) == n as u16);
        assert(s.subrange(2, 2 + n) =~= pay);
    }
}

/// A lazy, restartable walk over an array's elements.
pub struct ArrayIter<'a, T: CodecSized> {
    arr: &'a Array<T>,
    idx: usize,
}

impl<'a, T: CodecSized> ArrayIter<'a, T> {
    /// The elements being walked.
    pub closed spec fn elems(self) -> Seq<T> {
        self.arr@
    }

    /// How many elements have been yielded.
    pub closed spec fn index(self) -> int {
        self.idx as int
    }

    pub open spec fn wf(self) -> bool {
        0 <= self.index() <= self.elems().len()
    }

    /// The next element, or `None` once all have been yielded.
    pub fn next(&mut self) -> (r: Option<&'a T>)
        requires
            old(self).wf(),
        ensures
            final(self).wf(),
            final(self).elems() == old(self).elems(),
            old(self).index() < old(self).elems().len() ==> {
                &&& r matches Some(v) && *v == old(self).elems()[old(self).index()]
                &&& final(self).index() == old(self).index() + 1
            },
            old(self).index() >= old(self).elems().len() ==> {
                &&& r is None
                &&& final(self).index() == old(self).index()
            },
    {
        if self.idx < self.arr.items.len() {
            let v = &self.arr.items[self.idx];
            self.idx = self.idx + 1;
            Some(v)
        } else {
            None
        }
    }
}

} // verus!
