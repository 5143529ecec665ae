use ingest::message::header::{self, Part};
use ingest::message::{Error, Message};

fn frame_body(token: &[u8], id: &[u8], millis: u64, payload: &[u8]) -> Vec<u8> {
    let mut v = Vec::new();
    v.extend_from_slice(&(token.len() as u32).to_be_bytes());
    v.extend_from_slice(token);
    v.extend_from_slice(&(id.len() as u32).to_be_bytes());
    v.extend_from_slice(id);
    v.extend_from_slice(&millis.to_be_bytes());
    v.extend_from_slice(payload);
    v
}

#[test]
fn message_parse_ok_keeps_payload_verbatim() {
    let buf = frame_body(b"tok", b"key", 5000, &[0xAA, 0xBB, 0xCC]);
    let msg: Message<Vec<u8>> = Message::parse(&buf).unwrap();
    assert_eq!(msg.header.token, b"tok".to_vec());
    assert_eq!(msg.header.id, b"key".to_vec());
    assert_eq!(msg.header.millis, 5000);
    assert_eq!(msg.payload, vec![0xAA, 0xBB, 0xCC]);
}

#[test]
fn message_parse_empty_payload() {
    let buf = frame_body(b"t", b"k", 1, &[]);
    let msg: Message<Vec<u8>> = Message::parse(&buf).unwrap();
    assert_eq!(msg.payload, Vec::<u8>::new());
}

#[test]
fn message_parse_header_error_is_tagged() {
    let r: Result<Message<Vec<u8>>, Error<ingest::Void>> = Message::parse(&[1, 2]);
    match r {
        Err(Error::Header(e)) => {
            assert_eq!(
                e,
                header::Error {
                    remaining: 2,
                    part: Part::TokenSize,
                }
            );
        }
        other => panic!("expected a header error, got {:?}", other),
    }
}
