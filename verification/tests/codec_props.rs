use tls_codec::array::Array;
use tls_codec::codec::{Codec, CodecError, Decoder, Encoder, HeaderSize};
use tls_codec::enums::{
    CipherSuite, CompressionMethod, ExtensionType, HandshakeType, ProtocolVersion, SignatureScheme,
};
use tls_codec::extension::{Extensions, ProtocolVersions, SignatureSchemes};
use tls_codec::session::SessionId;

#[test]
fn header_sizes() {
    assert_eq!(HeaderSize::Zero.size(), 0);
    assert_eq!(HeaderSize::U8.size(), 1);
    assert_eq!(HeaderSize::U16.size(), 2);
}

#[test]
fn session_id_round_trip() {
    let mut data = [0; 32];
    data[0] = 7;
    data[1] = 200;
    let original = SessionId { data, len: 2 };

    let mut enc = Encoder::new(vec![]);
    original.encode(&mut enc);
    assert_eq!(*enc.bytes(), vec![2, 7, 200]);

    let mut dec = Decoder::new(enc.bytes().clone());
    let decoded = SessionId::decode(&mut dec).unwrap();
    assert_eq!(decoded, original);
}

#[test]
fn session_id_full_capacity_round_trip() {
    let mut data = [0; 32];
    for (i, b) in data.iter_mut().enumerate() {
        *b = i as u8 + 1;
    }
    let original = SessionId { data, len: 32 };

    let mut enc = Encoder::new(vec![]);
    original.encode(&mut enc);
    assert_eq!(enc.bytes().len(), 33);
    assert_eq!(enc.bytes()[0], 32);

    let mut dec = Decoder::new(enc.bytes().clone());
    assert_eq!(SessionId::decode(&mut dec).unwrap(), original);
}

#[test]
fn session_id_over_capacity_fails_regardless_of_tail() {
    let mut dec = Decoder::new(vec![33, 1, 2, 3, 4, 5]);
    assert!(SessionId::decode(&mut dec).is_none());
}

#[test]
fn session_id_decode_zero_pads() {
    let mut dec = Decoder::new(vec![1, 99]);
    let decoded = SessionId::decode(&mut dec).unwrap();
    assert_eq!(decoded.len, 1);
    assert_eq!(decoded.data[0], 99);
    for j in 1..32 {
        assert_eq!(decoded.data[j], 0);
    }
}

#[test]
fn protocol_versions_truncated_payload_fails() {
    let mut dec = Decoder::new(vec![2, 0x99]);
    assert!(ProtocolVersions::decode(&mut dec).is_none());
}

#[test]
fn protocol_versions_leftover_byte_fails() {
    let mut dec = Decoder::new(vec![3, 0x03, 0x04, 0x03]);
    assert!(ProtocolVersions::decode(&mut dec).is_none());
}

#[test]
fn signature_schemes_round_trip() {
    let original = SignatureSchemes::from(vec![
        SignatureScheme::Ed25519,
        SignatureScheme::RsaPssSha512,
        SignatureScheme::EcdsaSha1Legacy,
    ]);
    let mut enc = Encoder::new(vec![]);
    original.encode(&mut enc).unwrap();
    assert_eq!(*enc.bytes(), vec![0, 6, 0x08, 0x07, 0x08, 0x06, 0x02, 0x03]);

    let mut dec = Decoder::new(enc.bytes().clone());
    let decoded = SignatureSchemes::decode(&mut dec).unwrap();
    assert_eq!(*decoded.items(), *original.items());
}

#[test]
fn array_order_is_preserved() {
    let versions = ProtocolVersions::from(vec![ProtocolVersion::TLSv1_2, ProtocolVersion::TLSv1_3]);
    let mut enc = Encoder::new(vec![]);
    versions.encode(&mut enc).unwrap();
    assert_eq!(*enc.bytes(), vec![4, 0x03, 0x03, 0x03, 0x04]);
}

#[test]
fn array_iter_yields_in_order() {
    let versions = ProtocolVersions::from(vec![ProtocolVersion::TLSv1_3, ProtocolVersion::TLSv1_2]);
    let mut it = versions.iter();
    assert_eq!(it.next(), Some(&ProtocolVersion::TLSv1_3));
    assert_eq!(it.next(), Some(&ProtocolVersion::TLSv1_2));
    assert_eq!(it.next(), None);
    assert_eq!(it.next(), None);
}

#[test]
fn one_byte_prefix_overflow_is_rejected() {
    let versions = ProtocolVersions::from(vec![ProtocolVersion::TLSv1_2; 128]);
    let mut enc = Encoder::new(vec![]);
    assert_eq!(versions.encode(&mut enc), Err(CodecError::PayloadTooLarge));
    assert!(enc.bytes().is_empty());
}

#[test]
fn one_byte_prefix_at_capacity_encodes() {
    let versions = ProtocolVersions::from(vec![ProtocolVersion::TLSv1_2; 127]);
    let mut enc = Encoder::new(vec![]);
    versions.encode(&mut enc).unwrap();
    assert_eq!(enc.bytes().len(), 255);
    assert_eq!(enc.bytes()[0], 254);
}

#[test]
fn empty_extensions_encode_to_zero_bytes() {
    let ext: Extensions<SignatureScheme> = Extensions::empty();
    let mut enc = Encoder::new(vec![]);
    ext.encode(&mut enc).unwrap();
    assert!(enc.bytes().is_empty());
    assert_eq!(ext.data_size(), 0);
}

#[test]
fn empty_extensions_distinct_from_empty_array() {
    let ext: Extensions<SignatureScheme> = Extensions::empty();
    let arr: Array<SignatureScheme> = Array::empty();

    let mut ext_enc = Encoder::new(vec![]);
    ext.encode(&mut ext_enc).unwrap();
    let mut arr_enc = Encoder::new(vec![]);
    arr.encode(&mut arr_enc).unwrap();

    assert!(ext_enc.bytes().is_empty());
    assert_eq!(*arr_enc.bytes(), vec![0, 0]);
}

#[test]
fn extensions_round_trip() {
    let ext = Extensions::new(ProtocolVersions::from(vec![
        ProtocolVersion::TLSv1_3,
        ProtocolVersion::TLSv1_2,
    ]));
    let mut enc = Encoder::new(vec![]);
    ext.encode(&mut enc).unwrap();
    assert_eq!(*enc.bytes(), vec![4, 0x03, 0x04, 0x03, 0x03]);
    assert_eq!(ext.data_size(), 5);

    let mut dec = Decoder::new(enc.bytes().clone());
    let decoded = Extensions::<ProtocolVersion>::decode(&mut dec).unwrap();
    let mut it = decoded.iter();
    assert_eq!(it.next(), Some(&ProtocolVersion::TLSv1_3));
    assert_eq!(it.next(), Some(&ProtocolVersion::TLSv1_2));
    assert_eq!(it.next(), None);
}

#[test]
fn extensions_decode_empty_region() {
    let mut dec = Decoder::new(vec![]);
    let ext = Extensions::<ProtocolVersion>::decode(&mut dec).unwrap();
    assert!(ext.is_empty());
}

#[test]
fn extensions_present_but_empty_block_decodes() {
    let mut dec = Decoder::new(vec![0]);
    let ext = Extensions::<ProtocolVersion>::decode(&mut dec).unwrap();
    assert!(ext.is_empty());
}

#[test]
fn extensions_encode_extensions_keeps_prefix_when_empty() {
    let ext: Extensions<ProtocolVersion> = Extensions::empty();
    let mut enc = Encoder::new(vec![]);
    ext.encode_extensions(&mut enc).unwrap();
    assert_eq!(*enc.bytes(), vec![0]);
}

#[test]
fn unknown_cipher_suite_round_trips() {
    let mut dec = Decoder::new(vec![0xab, 0xcd]);
    let suite = CipherSuite::decode(&mut dec).unwrap();
    assert_eq!(suite, CipherSuite::Unknown(0xabcd));

    let mut enc = Encoder::new(vec![]);
    suite.encode(&mut enc);
    assert_eq!(*enc.bytes(), vec![0xab, 0xcd]);
}

#[test]
fn known_cipher_suite_decodes_to_named_value() {
    let mut dec = Decoder::new(vec![0x13, 0x02]);
    assert_eq!(
        CipherSuite::decode(&mut dec).unwrap(),
        CipherSuite::TlsAes256GcmSha384
    );
}

#[test]
fn cipher_suite_truncated_fails() {
    let mut dec = Decoder::new(vec![0x13]);
    assert!(CipherSuite::decode(&mut dec).is_none());
}

#[test]
fn handshake_type_round_trip() {
    let mut enc = Encoder::new(vec![]);
    HandshakeType::ClientHello.encode(&mut enc);
    HandshakeType::Unknown(0x42).encode(&mut enc);
    assert_eq!(*enc.bytes(), vec![0x01, 0x42]);

    let mut dec = Decoder::new(enc.bytes().clone());
    assert_eq!(
        HandshakeType::decode(&mut dec).unwrap(),
        HandshakeType::ClientHello
    );
    assert_eq!(
        HandshakeType::decode(&mut dec).unwrap(),
        HandshakeType::Unknown(0x42)
    );
    assert!(HandshakeType::decode(&mut dec).is_none());
}

#[test]
fn extension_type_round_trip() {
    let mut enc = Encoder::new(vec![]);
    ExtensionType::SupportedVersions.encode(&mut enc);
    assert_eq!(*enc.bytes(), vec![0x00, 0x2b]);

    let mut dec = Decoder::new(enc.bytes().clone());
    assert_eq!(
        ExtensionType::decode(&mut dec).unwrap(),
        ExtensionType::SupportedVersions
    );
}

#[test]
fn compression_method_round_trip() {
    let mut enc = Encoder::new(vec![]);
    CompressionMethod::LSZ.encode(&mut enc);
    CompressionMethod::Unknown(0x7f).encode(&mut enc);
    assert_eq!(*enc.bytes(), vec![0x40, 0x7f]);

    let mut dec = Decoder::new(enc.bytes().clone());
    assert_eq!(
        CompressionMethod::decode(&mut dec).unwrap(),
        CompressionMethod::LSZ
    );
    assert_eq!(
        CompressionMethod::decode(&mut dec).unwrap(),
        CompressionMethod::Unknown(0x7f)
    );
}

#[test]
fn catalog_defaults() {
    assert_eq!(ProtocolVersion::default(), ProtocolVersion::TLSv1_2);
    assert_eq!(CompressionMethod::default(), CompressionMethod::Null);
    assert_eq!(CipherSuite::default(), CipherSuite::TlsAes128GcmSha256);
}

#[test]
fn decoder_take_does_not_advance_on_failure() {
    let mut dec = Decoder::new(vec![1, 2]);
    assert!(dec.take(3).is_none());
    assert_eq!(dec.take(2).unwrap(), vec![1, 2]);
}

#[test]
fn primitive_round_trip() {
    let mut enc = Encoder::new(vec![]);
    7u8.encode(&mut enc);
    0x1234u16.encode(&mut enc);
    assert_eq!(*enc.bytes(), vec![7, 0x12, 0x34]);

    let mut dec = Decoder::new(enc.bytes().clone());
    assert_eq!(u8::decode(&mut dec).unwrap(), 7);
    assert_eq!(u16::decode(&mut dec).unwrap(), 0x1234);
    assert!(u8::decode(&mut dec).is_none());
}

#[test]
fn encoder_appends_in_order() {
    let mut enc = Encoder::new(vec![9]);
    enc.push_u8(1);
    enc.push_u16(0x0203);
    enc.append(&[4, 5]);
    assert_eq!(*enc.bytes(), vec![9, 1, 2, 3, 4, 5]);
}
