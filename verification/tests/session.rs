use tls_codec::codec::{Codec, Decoder, Encoder};
use tls_codec::session::SessionId;

#[test]
fn session_empty() {
    let session_id = SessionId::empty();
    let mut enc = Encoder::new(vec![]);
    session_id.encode(&mut enc);

    assert_eq!(*enc.bytes(), vec![0]);
}

#[test]
fn single_bytes() {
    let mut data = [0; 32];
    data[0] = 99;

    let session_id = SessionId { data, len: 1 };
    let mut enc = Encoder::new(vec![]);
    session_id.encode(&mut enc);

    assert_eq!(*enc.bytes(), vec![1, 99]);
}

#[test]
fn session_multiple_bytes() {
    let mut data = [0; 32];
    data[0] = 99;
    data[1] = 98;
    data[2] = 97;

    let session_id = SessionId { data, len: 3 };
    let mut enc = Encoder::new(vec![]);
    session_id.encode(&mut enc);

    assert_eq!(*enc.bytes(), vec![3, 99, 98, 97]);
}

#[test]
fn empty() {
    let mut dec = Decoder::new(vec![0]);
    let session_id = SessionId::decode(&mut dec).unwrap();

    assert_eq!(session_id, SessionId::empty());
}

#[test]
fn invalid_length() {
    let mut dec = Decoder::new(vec![33]);
    let session_id = SessionId::decode(&mut dec);

    assert!(session_id.is_none());
}

#[test]
fn not_enough_bytes() {
    let mut dec = Decoder::new(vec![2, 99]);
    let session_id = SessionId::decode(&mut dec);

    assert!(session_id.is_none());
}

#[test]
fn single_byte() {
    let mut dec = Decoder::new(vec![1, 99]);
    let session_id = SessionId::decode(&mut dec).unwrap();

    let mut data = [0; 32];
    data[0] = 99;

    assert_eq!(session_id, SessionId { data, len: 1 });
}

#[test]
fn multiple_bytes() {
    let mut dec = Decoder::new(vec![3, 99, 98, 97]);
    let session_id = SessionId::decode(&mut dec).unwrap();

    let mut data = [0; 32];
    data[0] = 99;
    data[1] = 98;
    data[2] = 97;

    assert_eq!(session_id, SessionId { data, len: 3 });
}
