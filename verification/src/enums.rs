//! The protocol's closed-catalog constant families.
//!
//! Each family is a finite named vocabulary over a fixed-width unsigned
//! integer (one or two bytes).  Decoding maps the integer to a named
//! value; a well-formed but unrecognized integer is preserved as an
//! opaque `Unknown` value rather than failing, since the protocol's
//! catalogs are extended over time and a conforming peer must tolerate
//! values it does not recognize.  Encoding re-emits the original raw
//! integer, recognized or not, so round-trip fidelity holds throughout.
//!
//! A value is well-formed when it is canonical: an `Unknown` never
//! carries an integer that has a name in its catalog.

use vstd::prelude::*;
use crate::codec::{Codec, CodecSized, Decoder, Encoder, HeaderSize};
use crate::codec::{be16, be16_val, lemma_be16_bytes, lemma_be16_val};

verus! {

/// The discriminant of a handshake message.
#[derive(Clone, Copy, PartialEq, Eq, Structural, Debug)]
pub enum HandshakeType {
    HelloRequest,
    ClientHello,
    ServerHello,
    NewSessionTicket,
    EndOfEarlyData,
    HelloRetryRequest,
    EncryptedExtensions,
    Certificate,
    ServerKeyExchange,
    CertificateRequest,
    ServerHelloDone,
    CertificateVerify,
    ClientKeyExchange,
    Finished,
    CertificateURL,
    CertificateStatus,
    KeyUpdate,
    MessageHash,
    Unknown(u8),
}

impl HandshakeType {
    /// The wire integer of this value.
    pub open spec fn spec_value(self) -> u8 {
        match self {
            HandshakeType::HelloRequest => 0x00,
            HandshakeType::ClientHello => 0x01,
            HandshakeType::ServerHello => 0x02,
            HandshakeType::NewSessionTicket => 0x04,
            HandshakeType::EndOfEarlyData => 0x05,
            HandshakeType::HelloRetryRequest => 0x06,
            HandshakeType::EncryptedExtensions => 0x08,
            HandshakeType::Certificate => 0x0b,
            HandshakeType::ServerKeyExchange => 0x0c,
            HandshakeType::CertificateRequest => 0x0d,
            HandshakeType::ServerHelloDone => 0x0e,
            HandshakeType::CertificateVerify => 0x0f,
            HandshakeType::ClientKeyExchange => 0x10,
            HandshakeType::Finished => 0x14,
            HandshakeType::CertificateURL => 0x15,
            HandshakeType::CertificateStatus => 0x16,
            HandshakeType::KeyUpdate => 0x18,
            HandshakeType::MessageHash => 0xfe,
            HandshakeType::Unknown(v) => v,
        }
    }

    /// The catalog value named by a wire integer.
    pub open spec fn spec_from_value(v: u8) -> Self {
        if v == 0x00 {
            HandshakeType::HelloRequest
        } else if v == 0x01 {
            HandshakeType::ClientHello
        } else if v == 0x02 {
            HandshakeType::ServerHello
        } else if v == 0x04 {
            HandshakeType::NewSessionTicket
        } else if v == 0x05 {
            HandshakeType::EndOfEarlyData
        } else if v == 0x06 {
            HandshakeType::HelloRetryRequest
        } else if v == 0x08 {
            HandshakeType::EncryptedExtensions
        } else if v == 0x0b {
            HandshakeType::Certificate
        } else if v == 0x0c {
            HandshakeType::ServerKeyExchange
        } else if v == 0x0d {
            HandshakeType::CertificateRequest
        } else if v == 0x0e {
            HandshakeType::ServerHelloDone
        } else if v == 0x0f {
            HandshakeType::CertificateVerify
        } else if v == 0x10 {
            HandshakeType::ClientKeyExchange
        } else if v == 0x14 {
            HandshakeType::Finished
        } else if v == 0x15 {
            HandshakeType::CertificateURL
        } else if v == 0x16 {
            HandshakeType::CertificateStatus
        } else if v == 0x18 {
            HandshakeType::KeyUpdate
        } else if v == 0xfe {
            HandshakeType::MessageHash
        } else {
            HandshakeType::Unknown(v)
        }
    }

    pub fn value(&self) -> (v: u8)
        ensures
            v == self.spec_value(),
    {
        match *self {
            HandshakeType::HelloRequest => 0x00,
            HandshakeType::ClientHello => 0x01,
            HandshakeType::ServerHello => 0x02,
            HandshakeType::NewSessionTicket => 0x04,
            HandshakeType::EndOfEarlyData => 0x05,
            HandshakeType::HelloRetryRequest => 0x06,
            HandshakeType::EncryptedExtensions => 0x08,
            HandshakeType::Certificate => 0x0b,
            HandshakeType::ServerKeyExchange => 0x0c,
            HandshakeType::CertificateRequest => 0x0d,
            HandshakeType::ServerHelloDone => 0x0e,
            HandshakeType::CertificateVerify => 0x0f,
            HandshakeType::ClientKeyExchange => 0x10,
            HandshakeType::Finished => 0x14,
            HandshakeType::CertificateURL => 0x15,
            HandshakeType::CertificateStatus => 0x16,
            HandshakeType::KeyUpdate => 0x18,
            HandshakeType::MessageHash => 0xfe,
            HandshakeType::Unknown(v) => v,
        }
    }

    pub fn from_value(v: u8) -> (r: Self)
        ensures
            r == Self::spec_from_value(v),
            r.wf(),
    {
        let r = if v == 0x00 {
            HandshakeType::HelloRequest
        } else if v == 0x01 {
            HandshakeType::ClientHello
        } else if v == 0x02 {
            HandshakeType::ServerHello
        } else if v == 0x04 {
            HandshakeType::NewSessionTicket
        } else if v == 0x05 {
            HandshakeType::EndOfEarlyData
        } else if v == 0x06 {
            HandshakeType::HelloRetryRequest
        } else if v == 0x08 {
            HandshakeType::EncryptedExtensions
        } else if v == 0x0b {
            HandshakeType::Certificate
        } else if v == 0x0c {
            HandshakeType::ServerKeyExchange
        } else if v == 0x0d {
            HandshakeType::CertificateRequest
        } else if v == 0x0e {
            HandshakeType::ServerHelloDone
        } else if v == 0x0f {
            HandshakeType::CertificateVerify
        } else if v == 0x10 {
            HandshakeType::ClientKeyExchange
        } else if v == 0x14 {
            HandshakeType::Finished
        } else if v == 0x15 {
            HandshakeType::CertificateURL
        } else if v == 0x16 {
            HandshakeType::CertificateStatus
        } else if v == 0x18 {
            HandshakeType::KeyUpdate
        } else if v == 0xfe {
            HandshakeType::MessageHash
        } else {
            HandshakeType::Unknown(v)
        };
        r
    }
}

impl Codec for HandshakeType {
    open spec fn wf(&self) -> bool {
        *self == Self::spec_from_value(self.spec_value())
    }

    open spec fn enc(&self) -> Seq<u8> {
        seq![self.spec_value()]
    }

    open spec fn dec(s: Seq<u8>) -> Option<(Self, int)> {
        if s.len() >= 1 {
            Some((Self::spec_from_value(s[0]), 1))
        } else {
            None
        }
    }

    proof fn lemma_dec_sound(s: Seq<u8>) {
        if s.len() >= 1 {
            let r = Self::spec_from_value(s[0]);
            assert(r.spec_value() == s[0]);
            assert(r.enc() =~= s.take(1));
        }
    }

    proof fn lemma_enc_dec(v: Self, rest: Seq<u8>) {
        let s = v.enc() + rest;
        assert(s[0] == v.spec_value());
        assert(s.take(1) =~= v.enc());
    }

    fn encode(&self, enc: &mut Encoder) {
        enc.push_u8(self.value());
        proof {
            assert(enc@ =~= old(enc)@ + self.enc());
        }
    }

    fn decode(dec: &mut Decoder) -> (r: Option<Self>) {
        match dec.take_byte() {
            Some(b) => Some(Self::from_value(b)),
            None => None,
        }
    }
}

/// A protocol version number.
#[derive(Clone, Copy, PartialEq, Eq, Structural, Debug)]
pub enum ProtocolVersion {
    TLSv1_2,
    TLSv1_3,
    Unknown(u16),
}

impl ProtocolVersion {
    /// The wire integer of this value.
    pub open spec fn spec_value(self) -> u16 {
        match self {
            ProtocolVersion::TLSv1_2 => 0x0303,
            ProtocolVersion::TLSv1_3 => 0x0304,
            ProtocolVersion::Unknown(v) => v,
        }
    }

    /// The catalog value named by a wire integer.
    pub open spec fn spec_from_value(v: u16) -> Self {
        if v == 0x0303 {
            ProtocolVersion::TLSv1_2
        } else if v == 0x0304 {
            ProtocolVersion::TLSv1_3
        } else {
            ProtocolVersion::Unknown(v)
        }
    }

    pub fn value(&self) -> (v: u16)
        ensures
            v == self.spec_value(),
    {
        match *self {
            ProtocolVersion::TLSv1_2 => 0x0303,
            ProtocolVersion::TLSv1_3 => 0x0304,
            ProtocolVersion::Unknown(v) => v,
        }
    }

    pub fn from_value(v: u16) -> (r: Self)
        ensures
            r == Self::spec_from_value(v),
            r.wf(),
    {
        if v == 0x0303 {
            ProtocolVersion::TLSv1_2
        } else if v == 0x0304 {
            ProtocolVersion::TLSv1_3
        } else {
            ProtocolVersion::Unknown(v)
        }
    }
}

impl Codec for ProtocolVersion {
    open spec fn wf(&self) -> bool {
        *self == Self::spec_from_value(self.spec_value())
    }

    open spec fn enc(&self) -> Seq<u8> {
        be16(self.spec_value())
    }

    open spec fn dec(s: Seq<u8>) -> Option<(Self, int)> {
        if s.len() >= 2 {
            Some((Self::spec_from_value(be16_val(s[0], s[1])), 2))
        } else {
            None
        }
    }

    proof fn lemma_dec_sound(s: Seq<u8>) {
        if s.len() >= 2 {
            let v = be16_val(s[0], s[1]);
            let r = Self::spec_from_value(v);
            assert(r.spec_value() == v);
            lemma_be16_bytes(s[0], s[1]);
            assert(r.enc() =~= s.take(2));
        }
    }

    proof fn lemma_enc_dec(v: Self, rest: Seq<u8>) {
        let s = v.enc() + rest;
        assert(s[0] == v.enc()[0] && s[1] == v.enc()[1]);
        lemma_be16_val(v.spec_value());
        assert(s.take(2) =~= v.enc());
    }

    fn encode(&self, enc: &mut Encoder) {
        enc.push_u16(self.value());
    }

    fn decode(dec: &mut Decoder) -> (r: Option<Self>) {
        let b0 = match dec.take_byte() {
            Some(b) => b,
            None => {
                return None;
            },
        };
        let b1 = match dec.take_byte() {
            Some(b) => b,
            None => {
                return None;
            },
        };
        Some(Self::from_value((b0 as u16) * 256 + (b1 as u16)))
    }
}

impl CodecSized for ProtocolVersion {
    open spec fn hdr() -> HeaderSize {
        HeaderSize::U8
    }

    fn header_size() -> (h: HeaderSize) {
        HeaderSize::U8
    }

    fn data_size(&self) -> (n: usize) {
        2
    }
}

impl Default for ProtocolVersion {
    /// The version assumed when a field is contextually optional.
    fn default() -> (r: Self)
        ensures
            r == ProtocolVersion::TLSv1_2,
    {
        ProtocolVersion::TLSv1_2
    }
}

/// A compression method for handshake payloads.
#[derive(Clone, Copy, PartialEq, Eq, Structural, Debug)]
pub enum CompressionMethod {
    Null,
    Deflate,
    LSZ,
    Unknown(u8),
}

impl CompressionMethod {
    /// The wire integer of this value.
    pub open spec fn spec_value(self) -> u8 {
        match self {
            CompressionMethod::Null => 0x00,
            CompressionMethod::Deflate => 0x01,
            CompressionMethod::LSZ => 0x40,
            CompressionMethod::Unknown(v) => v,
        }
    }

    /// The catalog value named by a wire integer.
    pub open spec fn spec_from_value(v: u8) -> Self {
        if v == 0x00 {
            CompressionMethod::Null
        } else if v == 0x01 {
            CompressionMethod::Deflate
        } else if v == 0x40 {
            CompressionMethod::LSZ
        } else {
            CompressionMethod::Unknown(v)
        }
    }

    pub fn value(&self) -> (v: u8)
        ensures
            v == self.spec_value(),
    {
        match *self {
            CompressionMethod::Null => 0x00,
            CompressionMethod::Deflate => 0x01,
            CompressionMethod::LSZ => 0x40,
            CompressionMethod::Unknown(v) => v,
        }
    }

    pub fn from_value(v: u8) -> (r: Self)
        ensures
            r == Self::spec_from_value(v),
            r.wf(),
    {
        if v == 0x00 {
            CompressionMethod::Null
        } else if v == 0x01 {
            CompressionMethod::Deflate
        } else if v == 0x40 {
            CompressionMethod::LSZ
        } else {
            CompressionMethod::Unknown(v)
        }
    }
}

impl Codec for CompressionMethod {
    open spec fn wf(&self) -> bool {
        *self == Self::spec_from_value(self.spec_value())
    }

    open spec fn enc(&self) -> Seq<u8> {
        seq![self.spec_value()]
    }

    open spec fn dec(s: Seq<u8>) -> Option<(Self, int)> {
        if s.len() >= 1 {
            Some((Self::spec_from_value(s[0]), 1))
        } else {
            None
        }
    }

    proof fn lemma_dec_sound(s: Seq<u8>) {
        if s.len() >= 1 {
            let r = Self::spec_from_value(s[0]);
            assert(r.spec_value() == s[0]);
            assert(r.enc() =~= s.take(1));
        }
    }

    proof fn lemma_enc_dec(v: Self, rest: Seq<u8>) {
        let s = v.enc() + rest;
        assert(s[0] == v.spec_value());
        assert(s.take(1) =~= v.enc());
    }

    fn encode(&self, enc: &mut Encoder) {
        enc.push_u8(self.value());
        proof {
            assert(enc@ =~= old(enc)@ + self.enc());
        }
    }

    fn decode(dec: &mut Decoder) -> (r: Option<Self>) {
        match dec.take_byte() {
            Some(b) => Some(Self::from_value(b)),
            None => None,
        }
    }
}

impl CodecSized for CompressionMethod {
    open spec fn hdr() -> HeaderSize {
        HeaderSize::U8
    }

    fn header_size() -> (h: HeaderSize) {
        HeaderSize::U8
    }

    fn data_size(&self) -> (n: usize) {
        1
    }
}

impl Default for CompressionMethod {
    /// The method assumed when a field is contextually optional.
    fn default() -> (r: Self)
        ensures
            r == CompressionMethod::Null,
    {
        CompressionMethod::Null
    }
}

/// A named combination of key-exchange, authentication, and symmetric
/// encryption algorithms.
#[derive(Clone, Copy, PartialEq, Eq, Structural, Debug)]
pub enum CipherSuite {
    TlsAes128GcmSha256,
    TlsAes256GcmSha384,
    TlsChaCha20Poly1305Sha256,
    Unknown(u16),
}

impl CipherSuite {
    /// The wire integer of this value.
    pub open spec fn spec_value(self) -> u16 {
        match self {
            CipherSuite::TlsAes128GcmSha256 => 0x1301,
            CipherSuite::TlsAes256GcmSha384 => 0x1302,
            CipherSuite::TlsChaCha20Poly1305Sha256 => 0x1303,
            CipherSuite::Unknown(v) => v,
        }
    }

    /// The catalog value named by a wire integer.
    pub open spec fn spec_from_value(v: u16) -> Self {
        if v == 0x1301 {
            CipherSuite::TlsAes128GcmSha256
        } else if v == 0x1302 {
            CipherSuite::TlsAes256GcmSha384
        } else if v == 0x1303 {
            CipherSuite::TlsChaCha20Poly1305Sha256
        } else {
            CipherSuite::Unknown(v)
        }
    }

    pub fn value(&self) -> (v: u16)
        ensures
            v == self.spec_value(),
    {
        match *self {
            CipherSuite::TlsAes128GcmSha256 => 0x1301,
            CipherSuite::TlsAes256GcmSha384 => 0x1302,
            CipherSuite::TlsChaCha20Poly1305Sha256 => 0x1303,
            CipherSuite::Unknown(v) => v,
        }
    }

    pub fn from_value(v: u16) -> (r: Self)
        ensures
            r == Self::spec_from_value(v),
            r.wf(),
    {
        if v == 0x1301 {
            CipherSuite::TlsAes128GcmSha256
        } else if v == 0x1302 {
            CipherSuite::TlsAes256GcmSha384
        } else if v == 0x1303 {
            CipherSuite::TlsChaCha20Poly1305Sha256
        } else {
            CipherSuite::Unknown(v)
        }
    }
}

impl Codec for CipherSuite {
    open spec fn wf(&self) -> bool {
        *self == Self::spec_from_value(self.spec_value())
    }

    open spec fn enc(&self) -> Seq<u8> {
        be16(self.spec_value())
    }

    open spec fn dec(s: Seq<u8>) -> Option<(Self, int)> {
        if s.len() >= 2 {
            Some((Self::spec_from_value(be16_val(s[0], s[1])), 2))
        } else {
            None
        }
    }

    proof fn lemma_dec_sound(s: Seq<u8>) {
        if s.len() >= 2 {
            let v = be16_val(s[0], s[1]);
            let r = Self::spec_from_value(v);
            assert(r.spec_value() == v);
            lemma_be16_bytes(s[0], s[1]);
            assert(r.enc() =~= s.take(2));
        }
    }

    proof fn lemma_enc_dec(v: Self, rest: Seq<u8>) {
        let s = v.enc() + rest;
        assert(s[0] == v.enc()[0] && s[1] == v.enc()[1]);
        lemma_be16_val(v.spec_value());
        assert(s.take(2) =~= v.enc());
    }

    fn encode(&self, enc: &mut Encoder) {
        enc.push_u16(self.value());
    }

    fn decode(dec: &mut Decoder) -> (r: Option<Self>) {
        let b0 = match dec.take_byte() {
            Some(b) => b,
            None => {
                return None;
            },
        };
        let b1 = match dec.take_byte() {
            Some(b) => b,
            None => {
                return None;
            },
        };
        Some(Self::from_value((b0 as u16) * 256 + (b1 as u16)))
    }
}

impl CodecSized for CipherSuite {
    open spec fn hdr() -> HeaderSize {
        HeaderSize::U16
    }

    fn header_size() -> (h: HeaderSize) {
        HeaderSize::U16
    }

    fn data_size(&self) -> (n: usize) {
        2
    }
}

impl Default for CipherSuite {
    /// The first strong AEAD suite, assumed when a field is contextually
    /// optional.
    fn default() -> (r: Self)
        ensures
            r == CipherSuite::TlsAes128GcmSha256,
    {
        CipherSuite::TlsAes128GcmSha256
    }
}

/// The discriminant of a handshake extension.
#[derive(Clone, Copy, PartialEq, Eq, Structural, Debug)]
pub enum ExtensionType {
    SignatureAlgorithms,
    SupportedVersions,
    Unknown(u16),
}

impl ExtensionType {
    /// The wire integer of this value.
    pub open spec fn spec_value(self) -> u16 {
        match self {
            ExtensionType::SignatureAlgorithms => 0x000d,
            ExtensionType::SupportedVersions => 0x002b,
            ExtensionType::Unknown(v) => v,
        }
    }

    /// The catalog value named by a wire integer.
    pub open spec fn spec_from_value(v: u16) -> Self {
        if v == 0x000d {
            ExtensionType::SignatureAlgorithms
        } else if v == 0x002b {
            ExtensionType::SupportedVersions
        } else {
            ExtensionType::Unknown(v)
        }
    }

    pub fn value(&self) -> (v: u16)
        ensures
            v == self.spec_value(),
    {
        match *self {
            ExtensionType::SignatureAlgorithms => 0x000d,
            ExtensionType::SupportedVersions => 0x002b,
            ExtensionType::Unknown(v) => v,
        }
    }

    pub fn from_value(v: u16) -> (r: Self)
        ensures
            r == Self::spec_from_value(v),
            r.wf(),
    {
        if v == 0x000d {
            ExtensionType::SignatureAlgorithms
        } else if v == 0x002b {
            ExtensionType::SupportedVersions
        } else {
            ExtensionType::Unknown(v)
        }
    }
}

impl Codec for ExtensionType {
    open spec fn wf(&self) -> bool {
        *self == Self::spec_from_value(self.spec_value())
    }

    open spec fn enc(&self) -> Seq<u8> {
        be16(self.spec_value())
    }

    open spec fn dec(s: Seq<u8>) -> Option<(Self, int)> {
        if s.len() >= 2 {
            Some((Self::spec_from_value(be16_val(s[0], s[1])), 2))
        } else {
            None
        }
    }

    proof fn lemma_dec_sound(s: Seq<u8>) {
        if s.len() >= 2 {
            let v = be16_val(s[0], s[1]);
            let r = Self::spec_from_value(v);
            assert(r.spec_value() == v);
            lemma_be16_bytes(s[0], s[1]);
            assert(r.enc() =~= s.take(2));
        }
    }

    proof fn lemma_enc_dec(v: Self, rest: Seq<u8>) {
        let s = v.enc() + rest;
        assert(s[0] == v.enc()[0] && s[1] == v.enc()[1]);
        lemma_be16_val(v.spec_value());
        assert(s.take(2) =~= v.enc());
    }

    fn encode(&self, enc: &mut Encoder) {
        enc.push_u16(self.value());
    }

    fn decode(dec: &mut Decoder) -> (r: Option<Self>) {
        let b0 = match dec.take_byte() {
            Some(b) => b,
            None => {
                return None;
            },
        };
        let b1 = match dec.take_byte() {
            Some(b) => b,
            None => {
                return None;
            },
        };
        Some(Self::from_value((b0 as u16) * 256 + (b1 as u16)))
    }
}

/// A signature algorithm identifier.
#[derive(Clone, Copy, PartialEq, Eq, Structural, Debug)]
pub enum SignatureScheme {
    RsaPkcs1Sha256,
    RsaPkcs1Sha384,
    RsaPkcs1Sha512,
    EcdsaNistp256Sha256,
    EcdsaNistp384Sha384,
    EcdsaNistp521Sha512,
    RsaPssSha256,
    RsaPssSha384,
    RsaPssSha512,
    Ed25519,
    Ed448,
    RsaPkcs1Sha1,
    EcdsaSha1Legacy,
    Unknown(u16),
}

impl SignatureScheme {
    /// The wire integer of this value.
    pub open spec fn spec_value(self) -> u16 {
        match self {
            SignatureScheme::RsaPkcs1Sha256 => 0x0401,
            SignatureScheme::RsaPkcs1Sha384 => 0x0501,
            SignatureScheme::RsaPkcs1Sha512 => 0x0601,
            SignatureScheme::EcdsaNistp256Sha256 => 0x0403,
            SignatureScheme::EcdsaNistp384Sha384 => 0x0503,
            SignatureScheme::EcdsaNistp521Sha512 => 0x0603,
            SignatureScheme::RsaPssSha256 => 0x0804,
            SignatureScheme::RsaPssSha384 => 0x0805,
            SignatureScheme::RsaPssSha512 => 0x0806,
            SignatureScheme::Ed25519 => 0x0807,
            SignatureScheme::Ed448 => 0x0808,
            SignatureScheme::RsaPkcs1Sha1 => 0x0201,
            SignatureScheme::EcdsaSha1Legacy => 0x0203,
            SignatureScheme::Unknown(v) => v,
        }
    }

    /// The catalog value named by a wire integer.
    pub open spec fn spec_from_value(v: u16) -> Self {
        if v == 0x0401 {
            SignatureScheme::RsaPkcs1Sha256
        } else if v == 0x0501 {
            SignatureScheme::RsaPkcs1Sha384
        } else if v == 0x0601 {
            SignatureScheme::RsaPkcs1Sha512
        } else if v == 0x0403 {
            SignatureScheme::EcdsaNistp256Sha256
        } else if v == 0x0503 {
            SignatureScheme::EcdsaNistp384Sha384
        } else if v == 0x0603 {
            SignatureScheme::EcdsaNistp521Sha512
        } else if v == 0x0804 {
            SignatureScheme::RsaPssSha256
        } else if v == 0x0805 {
            SignatureScheme::RsaPssSha384
        } else if v == 0x0806 {
            SignatureScheme::RsaPssSha512
        } else if v == 0x0807 {
            SignatureScheme::Ed25519
        } else if v == 0x0808 {
            SignatureScheme::Ed448
        } else if v == 0x0201 {
            SignatureScheme::RsaPkcs1Sha1
        } else if v == 0x0203 {
            SignatureScheme::EcdsaSha1Legacy
        } else {
            SignatureScheme::Unknown(v)
        }
    }

    pub fn value(&self) -> (v: u16)
        ensures
            v == self.spec_value(),
    {
        match *self {
            SignatureScheme::RsaPkcs1Sha256 => 0x0401,
            SignatureScheme::RsaPkcs1Sha384 => 0x0501,
            SignatureScheme::RsaPkcs1Sha512 => 0x0601,
            SignatureScheme::EcdsaNistp256Sha256 => 0x0403,
            SignatureScheme::EcdsaNistp384Sha384 => 0x0503,
            SignatureScheme::EcdsaNistp521Sha512 => 0x0603,
            SignatureScheme::RsaPssSha256 => 0x0804,
            SignatureScheme::RsaPssSha384 => 0x0805,
            SignatureScheme::RsaPssSha512 => 0x0806,
            SignatureScheme::Ed25519 => 0x0807,
            SignatureScheme::Ed448 => 0x0808,
            SignatureScheme::RsaPkcs1Sha1 => 0x0201,
            SignatureScheme::EcdsaSha1Legacy => 0x0203,
            SignatureScheme::Unknown(v) => v,
        }
    }

    pub fn from_value(v: u16) -> (r: Self)
        ensures
            r == Self::spec_from_value(v),
            r.wf(),
    {
        if v == 0x0401 {
            SignatureScheme::RsaPkcs1Sha256
        } else if v == 0x0501 {
            SignatureScheme::RsaPkcs1Sha384
        } else if v == 0x0601 {
            SignatureScheme::RsaPkcs1Sha512
        } else if v == 0x0403 {
            SignatureScheme::EcdsaNistp256Sha256
        } else if v == 0x0503 {
            SignatureScheme::EcdsaNistp384Sha384
        } else if v == 0x0603 {
            SignatureScheme::EcdsaNistp521Sha512
        } else if v == 0x0804 {
            SignatureScheme::RsaPssSha256
        } else if v == 0x0805 {
            SignatureScheme::RsaPssSha384
        } else if v == 0x0806 {
            SignatureScheme::RsaPssSha512
        } else if v == 0x0807 {
            SignatureScheme::Ed25519
        } else if v == 0x0808 {
            SignatureScheme::Ed448
        } else if v == 0x0201 {
            SignatureScheme::RsaPkcs1Sha1
        } else if v == 0x0203 {
            SignatureScheme::EcdsaSha1Legacy
        } else {
            SignatureScheme::Unknown(v)
        }
    }
}

impl Codec for SignatureScheme {
    open spec fn wf(&self) -> bool {
        *self == Self::spec_from_value(self.spec_value())
    }

    open spec fn enc(&self) -> Seq<u8> {
        be16(self.spec_value())
    }

    open spec fn dec(s: Seq<u8>) -> Option<(Self, int)> {
        if s.len() >= 2 {
            Some((Self::spec_from_value(be16_val(s[0], s[1])), 2))
        } else {
            None
        }
    }

    proof fn lemma_dec_sound(s: Seq<u8>) {
        if s.len() >= 2 {
            let v = be16_val(s[0], s[1]);
            let r = Self::spec_from_value(v);
            assert(r.spec_value() == v);
            lemma_be16_bytes(s[0], s[1]);
            assert(r.enc() =~= s.take(2));
        }
    }

    proof fn lemma_enc_dec(v: Self, rest: Seq<u8>) {
        let s = v.enc() + rest;
        assert(s[0] == v.enc()[0] && s[1] == v.enc()[1]);
        lemma_be16_val(v.spec_value());
        assert(s.take(2) =~= v.enc());
    }

    fn encode(&self, enc: &mut Encoder) {
        enc.push_u16(self.value());
    }

    fn decode(dec: &mut Decoder) -> (r: Option<Self>) {
        let b0 = match dec.take_byte() {
            Some(b) => b,
            None => {
                return None;
            },
        };
        let b1 = match dec.take_byte() {
            Some(b) => b,
            None => {
                return None;
            },
        };
        Some(Self::from_value((b0 as u16) * 256 + (b1 as u16)))
    }
}

/// A well-formed but unrecognized two-byte cipher-suite value decodes
/// successfully to an opaque value carrying the raw integer, and that
/// value re-encodes to the identical original bytes.
pub proof fn lemma_unknown_cipher_suite(v: u16, rest: Seq<u8>)
    requires
        v != 0x1301,
        v != 0x1302,
        v != 0x1303,
    ensures
        CipherSuite::Unknown(v).wf(),
        CipherSuite::dec(CipherSuite::Unknown(v).enc() + rest) == Some(
            (CipherSuite::Unknown(v), 2int),
        ),
{
    CipherSuite::lemma_enc_dec(CipherSuite::Unknown(v), rest);
}

impl CodecSized for SignatureScheme {
    open spec fn hdr() -> HeaderSize {
        HeaderSize::U16
    }

    fn header_size() -> (h: HeaderSize) {
        HeaderSize::U16
    }

    fn data_size(&self) -> (n: usize) {
        2
    }
}

} // verus!
