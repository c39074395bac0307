//! The extensions wrapper and the named array families.
//!
//! [`Extensions`] wraps an [`Array`] with one framing override: an empty
//! collection encodes to zero bytes total — the prefix is omitted
//! entirely — because a handshake message conventionally carries no
//! extensions block at all rather than a present-but-empty one.  The
//! enclosing message's fixed layout decides whether a block is present,
//! so decoding an empty remaining region always succeeds with an empty
//! collection.

use vstd::prelude::*;
use crate::array::{concat_enc, Array, ArrayIter, lemma_array_enc_dec};
use crate::codec::{Codec, CodecError, CodecSized, Decoder, Encoder, HeaderSize};
use crate::enums::{ProtocolVersion, SignatureScheme};

verus! {

/// A sequence of protocol versions, framed by a one-byte length prefix.
pub type ProtocolVersions = Array<ProtocolVersion>;

/// A sequence of signature algorithms, framed by a two-byte length
/// prefix.
pub type SignatureSchemes = Array<SignatureScheme>;

/// Any well-formed value has a non-empty canonical encoding.
pub proof fn lemma_wf_enc_positive<T: Codec>(v: T)
    requires
        v.wf(),
    ensures
        v.enc().len() > 0,
{
    T::lemma_enc_dec(v, Seq::empty());
    let s = v.enc() + Seq::<u8>::empty();
    T::lemma_dec_sound(s);
    assert(s =~= v.enc());
}

/// An extension block: an array whose length prefix is omitted entirely
/// when the collection is empty.
pub struct Extensions<T: CodecSized> {
    arr: Array<T>,
}

impl<T: CodecSized> View for Extensions<T> {
    type V = Seq<T>;

    closed spec fn view(&self) -> Seq<T> {
        self.arr@
    }
}

impl<T: CodecSized> Extensions<T> {
    /// All elements are well-formed.
    pub open spec fn wf(self) -> bool {
        forall|i: int| 0 <= i < self@.len() ==> (#[trigger] self@[i]).wf()
    }

    /// Whether the payload length can be declared by the element type's
    /// length prefix.
    pub open spec fn encodable(self) -> bool {
        self.wf() && T::hdr().fits(concat_enc(self@).len() as int)
    }

    /// The canonical wire encoding: zero bytes when empty, the full
    /// array framing otherwise.
    pub open spec fn enc(self) -> Seq<u8> {
        if self@.len() == 0 {
            Seq::empty()
        } else {
            T::hdr().prefix(concat_enc(self@).len() as int) + concat_enc(self@)
        }
    }

    /// The payload size reported for the enclosing structure: zero when
    /// empty, otherwise the element prefix width plus the payload.
    pub open spec fn spec_data_size(self) -> int {
        if self@.len() == 0 {
            0
        } else {
            T::hdr().spec_size() + concat_enc(self@).len() as int
        }
    }

    /// Spec-level parse: an empty region is an absent block and decodes
    /// to the empty collection; anything else must be a whole array.
    pub open spec fn spec_parse(s: Seq<u8>) -> Option<(Seq<T>, int)> {
        if s.len() == 0 {
            Some((Seq::empty(), 0))
        } else {
            Array::<T>::spec_parse(s)
        }
    }

    /// The block with no extensions.
    pub fn empty() -> (r: Self)
        ensures
            r@ == Seq::<T>::empty(),
            r.wf(),
            r.encodable(),
    {
        Extensions { arr: Array::empty() }
    }

    /// The block owning the given array.
    pub fn new(arr: Array<T>) -> (r: Self)
        ensures
            r@ == arr@,
    {
        Extensions { arr }
    }

    pub fn is_empty(&self) -> (b: bool)
        ensures
            b <==> self@.len() == 0,
    {
        self.arr.is_empty()
    }

    /// A restartable iteration over the elements.
    pub fn iter(&self) -> (it: ArrayIter<'_, T>)
        ensures
            it.wf(),
            it.elems() == self@,
            it.index() == 0,
    {
        self.arr.iter()
    }

    /// Writes the full array framing — prefix and payload — whether or
    /// not the collection is empty.
    pub fn encode_extensions(&self, enc: &mut Encoder) -> (r: Result<(), CodecError>)
        requires
            self.wf(),
        ensures
            match r {
                Ok(_) => self.encodable() && final(enc)@ == old(enc)@ + self.arr_enc(),
                Err(_) => !self.encodable() && final(enc)@ == old(enc)@,
            },
    {
        self.arr.encode(enc)
    }

    /// The encoding written by [`Self::encode_extensions`]: always the
    /// full array framing.
    pub open spec fn arr_enc(self) -> Seq<u8> {
        T::hdr().prefix(concat_enc(self@).len() as int) + concat_enc(self@)
    }

    /// Writes the canonical encoding: nothing at all when the collection
    /// is empty, the full array framing otherwise.  Fails, writing
    /// nothing, exactly when the payload is too long for the prefix.
    pub fn encode(&self, enc: &mut Encoder) -> (r: Result<(), CodecError>)
        requires
            self.wf(),
        ensures
            match r {
                Ok(_) => self.encodable() && final(enc)@ == old(enc)@ + self.enc(),
                Err(_) => !self.encodable() && final(enc)@ == old(enc)@,
            },
    {
        if self.arr.is_empty() {
            proof {
                assert(old(enc)@ + self.enc() =~= old(enc)@);
                assert(concat_enc(self@).len() == 0);
            }
            Ok(())
        } else {
            self.encode_extensions(enc)
        }
    }

    /// The payload size as reported to an enclosing structure.
    pub fn data_size(&self) -> (n: usize)
        requires
            self.wf(),
            self.spec_data_size() <= usize::MAX,
        ensures
            n == self.spec_data_size(),
    {
        if self.arr.is_empty() {
            0
        } else {
            T::header_size().size() + self.arr.data_size()
        }
    }

    /// Reads an extension block from the remaining region: absent —
    /// empty region — yields the empty collection, anything else must be
    /// a whole array.
    pub fn decode(dec: &mut Decoder) -> (r: Option<Self>)
        requires
            old(dec).wf(),
        ensures
            final(dec).wf(),
            final(dec).data() == old(dec).data(),
            old(dec).pos() <= final(dec).pos(),
            match Self::spec_parse(old(dec).remaining()) {
                Some(p) => {
                    &&& r matches Some(ext) && ext@ == p.0 && ext.wf()
                    &&& final(dec).pos() == old(dec).pos() + p.1
                },
                None => r is None,
            },
    {
        if dec.is_finished() {
            Some(Self::empty())
        } else {
            match Array::<T>::decode(dec) {
                Some(arr) => Some(Extensions { arr }),
                None => None,
            }
        }
    }
}

impl<T: CodecSized> Default for Extensions<T> {
    /// The absent block: no extensions.
    fn default() -> (r: Self)
        ensures
            r@ == Seq::<T>::empty(),
    {
        Extensions::empty()
    }
}

impl<T: CodecSized> From<Array<T>> for Extensions<T> {
    /// Wraps an array, preserving its elements and order.
    fn from(arr: Array<T>) -> (r: Self) {
        Extensions { arr }
    }
}

impl<T: CodecSized> vstd::std_specs::convert::FromSpecImpl<Array<T>> for Extensions<T> {
    open spec fn obeys_from_spec() -> bool {
        true
    }

    closed spec fn from_spec(arr: Array<T>) -> Self {
        Extensions { arr }
    }
}

/// Round trip: decoding the canonical encoding of an encodable
/// extension block yields its elements back, consuming the whole
/// encoding.  The framing is context-dependent — an absent block is
/// zero bytes — so the encoding stands alone rather than before an
/// arbitrary suffix.
pub proof fn lemma_extensions_enc_dec<T: CodecSized>(ext: Extensions<T>)
    requires
        ext.encodable(),
    ensures
        Extensions::<T>::spec_parse(ext.enc()) == Some((ext@, ext.enc().len() as int)),
{
    if ext@.len() == 0 {
        assert(ext.enc() =~= Seq::<u8>::empty());
        assert(ext@ =~= Seq::<T>::empty());
    } else {
        let arr = ext.arr;
        assert(arr.enc() == ext.enc());
        lemma_wf_enc_positive::<T>(ext@[0]);
        if T::hdr() == HeaderSize::Zero {
            crate::array::lemma_concat_split(ext@, 1);
            assert(concat_enc(ext@.take(1)) == ext@[0].enc() + concat_enc(ext@.take(1).skip(1)));
            assert(ext.enc().len() > 0);
        } else {
            assert(ext.enc().len() > 0);
        }
        lemma_array_enc_dec::<T>(arr, Seq::empty());
        assert(arr.enc() + Seq::<u8>::empty() =~= ext.enc());
    }
}

/// An empty extension block encodes to zero bytes, distinct from an
/// array of zero elements, which still emits its zero-valued length
/// prefix.
pub proof fn lemma_empty_framing_distinct<T: CodecSized>(ext: Extensions<T>, arr: Array<T>)
    requires
        ext@.len() == 0,
        arr@.len() == 0,
        T::hdr() != HeaderSize::Zero,
    ensures
        ext.enc() == Seq::<u8>::empty(),
        arr.enc() == T::hdr().prefix(0),
        ext.enc() != arr.enc(),
{
    assert(ext.enc() =~= Seq::<u8>::empty());
    assert(concat_enc(arr@).len() == 0);
    assert(arr.enc() =~= T::hdr().prefix(0));
    assert(arr.enc().len() == T::hdr().spec_size());
}

} // verus!
