//! The bounded-capacity session identifier.
//!
//! A [`SessionId`] is a byte string with a fixed backing capacity of 32
//! bytes and a runtime length in `[0, 32]`, encoded as a one-byte length
//! followed by that many raw bytes.  Decoding rejects a declared length
//! above 32 before reading any payload, and zero-pads the unused backing
//! bytes, so two identifiers of equal length and content are equal as
//! values.

use vstd::prelude::*;
use vstd::array::{spec_array_fill_for_copy_type, spec_array_update};
use vstd::slice::slice_subrange;
use crate::codec::{Codec, Decoder, Encoder};

verus! {

broadcast use vstd::array::group_array_axioms;

/// The backing store `a` with indices `i..32` overwritten from `s`,
/// zero where `s` has ended.
spec fn arr32_fill(a: [u8; 32], s: Seq<u8>, i: int) -> [u8; 32]
    decreases 32 - i,
{
    if i < 0 || i >= 32 {
        a
    } else {
        arr32_fill(
            spec_array_update(a, i, if i < s.len() { s[i] } else { 0 }),
            s,
            i + 1,
        )
    }
}

proof fn lemma_arr32_fill(a: [u8; 32], s: Seq<u8>, i: int)
    requires
        0 <= i <= 32,
    ensures
        forall|j: int|
            0 <= j < 32 ==> arr32_fill(a, s, i)@[j] == (if j < i {
                a@[j]
            } else if j < s.len() {
                s[j]
            } else {
                0u8
            }),
    decreases 32 - i,
{
    if i < 32 {
        let x: u8 = if i < s.len() { s[i] } else { 0 };
        let b = spec_array_update(a, i, x);
        assert(b@ == a@.update(i, x));
        lemma_arr32_fill(b, s, i + 1);
        assert(arr32_fill(a, s, i) == arr32_fill(b, s, i + 1));
        assert forall|j: int| 0 <= j < 32 implies arr32_fill(a, s, i)@[j] == (if j < i {
            a@[j]
        } else if j < s.len() {
            s[j]
        } else {
            0u8
        }) by {
            if j < i {
                assert(b@[j] == a@[j]);
            } else if j == i {
                assert(b@[j] == x);
            }
        }
    }
}

/// The 32-byte backing store holding `s` at the front and zeros beyond
/// it.
pub closed spec fn seq_to_arr32(s: Seq<u8>) -> [u8; 32] {
    arr32_fill(spec_array_fill_for_copy_type::<u8, 32>(0), s, 0)
}

/// What each backing byte of [`seq_to_arr32`] holds.
pub proof fn lemma_seq_to_arr32(s: Seq<u8>)
    ensures
        forall|j: int|
            0 <= j < 32 ==> seq_to_arr32(s)@[j] == (if j < s.len() {
                s[j]
            } else {
                0u8
            }),
{
    lemma_arr32_fill(spec_array_fill_for_copy_type::<u8, 32>(0), s, 0);
}

/// A session identifier: up to 32 bytes in a fixed backing store.
#[derive(Debug)]
pub struct SessionId {
    pub data: [u8; 32],
    pub len: usize,
}

impl PartialEq for SessionId {
    /// Compares the length and the whole backing store; identifiers
    /// built by this crate zero their padding, so this coincides with
    /// comparing the meaningful bytes.
    fn eq(&self, other: &SessionId) -> (r: bool) {
        if self.len != other.len {
            return false;
        }
        let mut i: usize = 0;
        while i < 32
            invariant
                i <= 32,
                forall|j: int| 0 <= j < i ==> self.data@[j] == other.data@[j],
            decreases 32 - i,
        {
            if self.data[i] != other.data[i] {
                return false;
            }
            i = i + 1;
        }
        proof {
            assert(self.data =~= other.data);
        }
        true
    }
}

impl vstd::std_specs::cmp::PartialEqSpecImpl for SessionId {
    open spec fn obeys_eq_spec() -> bool {
        true
    }

    open spec fn eq_spec(&self, other: &SessionId) -> bool {
        self.data == other.data && self.len == other.len
    }
}

impl SessionId {
    /// The zero-length identifier.
    pub fn empty() -> (r: Self)
        ensures
            r.len == 0,
            r.wf(),
            r.enc() == seq![0u8],
    {
        let r = SessionId { data: [0; 32], len: 0 };
        proof {
            assert(r.enc() =~= seq![0u8]);
        }
        r
    }
}

impl Codec for SessionId {
    /// The length is within capacity and every unused backing byte is
    /// zero.
    open spec fn wf(&self) -> bool {
        &&& self.len <= 32
        &&& forall|j: int| self.len <= j < 32 ==> self.data@[j] == 0
    }

    /// One length byte, then exactly `len` bytes of the backing store.
    open spec fn enc(&self) -> Seq<u8> {
        seq![self.len as u8] + self.data@.take(self.len as int)
    }

    /// One length byte, at most 32, then exactly that many payload
    /// bytes, zero-padded into the backing store.
    open spec fn dec(s: Seq<u8>) -> Option<(Self, int)> {
        if s.len() < 1 {
            None
        } else {
            let n = s[0] as int;
            if n > 32 {
                None
            } else if s.len() - 1 < n {
                None
            } else {
                Some(
                    (
                        SessionId {
                            data: seq_to_arr32(s.subrange(1, 1 + n)),
                            len: s[0] as usize,
                        },
                        1 + n,
                    ),
                )
            }
        }
    }

    proof fn lemma_dec_sound(s: Seq<u8>) {
        if s.len() >= 1 {
            let n = s[0] as int;
            if n <= 32 && s.len() - 1 >= n {
                let sub = s.subrange(1, 1 + n);
                lemma_seq_to_arr32(sub);
                let v = SessionId { data: seq_to_arr32(sub), len: s[0] as usize };
                assert(v.wf());
                assert(v.enc() =~= s.take(1 + n));
            }
        }
    }

    proof fn lemma_enc_dec(v: Self, rest: Seq<u8>) {
        let s = v.enc() + rest;
        let n = v.len as int;
        assert(s[0] == v.len as u8);
        assert(s[0] as int == n);
        let sub = s.subrange(1, 1 + n);
        assert(sub =~= v.data@.take(n));
        lemma_seq_to_arr32(sub);
        let d2 = seq_to_arr32(sub);
        assert(d2 =~= v.data);
        assert(v.enc().len() == 1 + n);
    }

    fn encode(&self, enc: &mut Encoder) {
        enc.push_u8(self.len as u8);
        let bytes = slice_subrange(self.data.as_slice(), 0, self.len);
        enc.append(bytes);
        proof {
            assert(enc@ =~= old(enc)@ + self.enc());
        }
    }

    #[verifier::loop_isolation(false)]
    fn decode(dec: &mut Decoder) -> (r: Option<Self>) {
        let ghost s = old(dec).remaining();
        let len_byte = match dec.take_byte() {
            Some(b) => b,
            None => {
                return None;
            },
        };
        if len_byte > 32 {
            return None;
        }
        let len = len_byte as usize;
        let bytes = match dec.take(len) {
            Some(b) => b,
            None => {
                return None;
            },
        };
        let mut data = [0u8; 32];
        let mut i: usize = 0;
        while i < len
            invariant
                i <= len,
                len <= 32,
                bytes@.len() == len,
                forall|j: int| 0 <= j < i ==> data@[j] == bytes@[j],
                forall|j: int| i <= j < 32 ==> data@[j] == 0,
            decreases len - i,
        {
            data[i] = bytes[i];
            i = i + 1;
        }
        proof {
            let sub = s.subrange(1, 1 + len as int);
            assert(bytes@ =~= sub);
            lemma_seq_to_arr32(sub);
            assert(data =~= seq_to_arr32(sub));
        }
        Some(SessionId { data, len })
    }
}

impl Default for SessionId {
    /// The zero-length identifier.
    fn default() -> (r: Self)
        ensures
            r.len == 0,
            r.wf(),
    {
        SessionId::empty()
    }
}

/// A declared length byte above the 32-byte capacity is rejected,
/// whatever follows it.
pub proof fn lemma_session_id_over_capacity(s: Seq<u8>)
    requires
        s.len() >= 1,
        s[0] > 32,
    ensures
        SessionId::dec(s) is None,
{
}

/// A declared length within capacity but with fewer payload bytes
/// remaining is rejected.
pub proof fn lemma_session_id_truncated(s: Seq<u8>)
    requires
        s.len() >= 1,
        s[0] <= 32,
        s.len() - 1 < s[0],
    ensures
        SessionId::dec(s) is None,
{
}

/// A zero-length identifier encodes to exactly the single byte `0`.
pub proof fn lemma_session_id_empty_enc(v: SessionId)
    requires
        v.len == 0,
    ensures
        v.enc() == seq![0u8],
{
    assert(v.enc() =~= seq![0u8]);
}

} // verus!
