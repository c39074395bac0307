use tls_codec::codec::{Decoder, Encoder};
use tls_codec::enums::{ProtocolVersion, SignatureScheme};
use tls_codec::extension::{ProtocolVersions, SignatureSchemes};

#[test]
fn empty_signature_schemes() {
    let schemes = SignatureSchemes::empty();
    let mut enc = Encoder::new(vec![]);
    schemes.encode(&mut enc).unwrap();

    assert_eq!(schemes.data_size(), 0);
    assert_eq!(*enc.bytes(), vec![0, 0]);
}

#[test]
fn extension_single_signature_scheme() {
    let schemes = SignatureSchemes::from(vec![SignatureScheme::RsaPkcs1Sha256]);
    let mut enc = Encoder::new(vec![]);
    schemes.encode(&mut enc).unwrap();

    assert_eq!(schemes.data_size(), 2);
    assert_eq!(*enc.bytes(), vec![0, 2, 0x04, 0x01]);
}

#[test]
fn extension_multiple_signature_schemes() {
    let schemes = SignatureSchemes::from(vec![
        SignatureScheme::RsaPkcs1Sha256,
        SignatureScheme::RsaPkcs1Sha384,
    ]);
    let mut enc = Encoder::new(vec![]);
    schemes.encode(&mut enc).unwrap();

    assert_eq!(schemes.data_size(), 4);
    assert_eq!(*enc.bytes(), vec![0, 4, 0x04, 0x01, 0x05, 0x01]);
}

#[test]
fn empty_protocol_versions() {
    let versions = ProtocolVersions::empty();
    let mut enc = Encoder::new(vec![]);
    versions.encode(&mut enc).unwrap();

    assert_eq!(versions.data_size(), 0);
    assert_eq!(*enc.bytes(), vec![0]);
}

#[test]
fn extension_single_protocol_version() {
    let versions = ProtocolVersions::from(vec![ProtocolVersion::TLSv1_3]);
    let mut enc = Encoder::new(vec![]);
    versions.encode(&mut enc).unwrap();

    assert_eq!(versions.data_size(), 2);
    assert_eq!(*enc.bytes(), vec![2, 0x03, 0x04]);
}

#[test]
fn extension_multiple_protocol_versions() {
    let versions = ProtocolVersions::from(vec![ProtocolVersion::TLSv1_3, ProtocolVersion::TLSv1_2]);
    let mut enc = Encoder::new(vec![]);
    versions.encode(&mut enc).unwrap();

    assert_eq!(versions.data_size(), 4);
    assert_eq!(*enc.bytes(), vec![4, 0x03, 0x04, 0x03, 0x03]);
}

#[test]
fn zero_length_signature_schemes() {
    let bytes = [0, 0];
    let mut dec = Decoder::new(bytes.to_vec());

    let schemes = SignatureSchemes::decode(&mut dec).unwrap();
    assert!(schemes.is_empty())
}

#[test]
fn single_signature_scheme() {
    let bytes = [0, 2, 0x04, 0x01];
    let mut dec = Decoder::new(bytes.to_vec());

    assert_eq!(
        *SignatureSchemes::decode(&mut dec).unwrap().items(),
        vec![SignatureScheme::RsaPkcs1Sha256],
    );
}

#[test]
fn multiple_signature_schemes() {
    let bytes = [0, 4, 0x04, 0x01, 0x05, 0x01];
    let mut dec = Decoder::new(bytes.to_vec());

    assert_eq!(
        *SignatureSchemes::decode(&mut dec).unwrap().items(),
        vec![
            SignatureScheme::RsaPkcs1Sha256,
            SignatureScheme::RsaPkcs1Sha384,
        ],
    );
}

#[test]
fn zero_length_protocol_versions() {
    let bytes = [0];
    let mut dec = Decoder::new(bytes.to_vec());

    let versions = ProtocolVersions::decode(&mut dec).unwrap();
    assert!(versions.is_empty());
}

#[test]
fn single_protocol_version() {
    let bytes = [2, 0x03, 0x04];
    let mut dec = Decoder::new(bytes.to_vec());

    assert_eq!(
        *ProtocolVersions::decode(&mut dec).unwrap().items(),
        vec![ProtocolVersion::TLSv1_3],
    );
}

#[test]
fn multiple_protocol_versions() {
    let bytes = [4, 0x03, 0x04, 0x03, 0x03];
    let mut dec = Decoder::new(bytes.to_vec());

    assert_eq!(
        *ProtocolVersions::decode(&mut dec).unwrap().items(),
        vec![ProtocolVersion::TLSv1_3, ProtocolVersion::TLSv1_2],
    );
}
