use ingest::message::header::{Error, Header, Part};

fn frame_body(token: &[u8], id: &[u8], millis: u64, payload: &[u8]) -> Vec<u8> {
    let mut v = Vec::new();
    v.extend_from_slice(&(token.len() as u32).to_be_bytes());
    v.extend_from_slice(token);
    v.extend_from_slice(&(id.len() as u32).to_be_bytes());
    v.extend_from_slice(id);
    v.extend_from_slice(&millis.to_be_bytes());
    v.extend_from_slice(payload);
    v
}

#[test]
fn none_of_token_size() {
    assert_eq!(
        Err(Error {
            remaining: 0,
            part: Part::TokenSize,
        }),
        Header::parse(&[])
    );
}

#[test]
fn one_of_token_size() {
    assert_eq!(
        Err(Error {
            remaining: 1,
            part: Part::TokenSize,
        }),
        Header::parse(&[7])
    );
}

#[test]
fn two_of_token_size() {
    assert_eq!(
        Err(Error {
            remaining: 2,
            part: Part::TokenSize,
        }),
        Header::parse(&[7, 9])
    );
}

#[test]
fn three_of_token_size() {
    assert_eq!(
        Err(Error {
            remaining: 3,
            part: Part::TokenSize,
        }),
        Header::parse(&[7, 9, 11])
    );
}

#[test]
fn partial_token() {
    let mut buf = 5u32.to_be_bytes().to_vec();
    buf.extend_from_slice(&[1, 2]);
    assert_eq!(
        Err(Error {
            remaining: 2,
            part: Part::Token(5),
        }),
        Header::parse(&buf)
    );
}

#[test]
fn none_of_id_size() {
    let mut buf = 3u32.to_be_bytes().to_vec();
    buf.extend_from_slice(&[1, 2, 3]);
    assert_eq!(
        Err(Error {
            remaining: 0,
            part: Part::IdSize,
        }),
        Header::parse(&buf)
    );
}

#[test]
fn two_of_id_size() {
    let mut buf = 0u32.to_be_bytes().to_vec();
    buf.extend_from_slice(&[9, 9]);
    assert_eq!(
        Err(Error {
            remaining: 2,
            part: Part::IdSize,
        }),
        Header::parse(&buf)
    );
}

#[test]
fn partial_id() {
    let mut buf = 0u32.to_be_bytes().to_vec();
    buf.extend_from_slice(&4u32.to_be_bytes());
    buf.push(8);
    assert_eq!(
        Err(Error {
            remaining: 1,
            part: Part::Id(4),
        }),
        Header::parse(&buf)
    );
}

#[test]
fn partial_timestamp() {
    let mut buf = 1u32.to_be_bytes().to_vec();
    buf.push(42);
    buf.extend_from_slice(&1u32.to_be_bytes());
    buf.push(43);
    buf.extend_from_slice(&[0, 0, 0]);
    assert_eq!(
        Err(Error {
            remaining: 3,
            part: Part::Timestamp,
        }),
        Header::parse(&buf)
    );
}

#[test]
fn ok_header() {
    let buf = frame_body(&[1, 2], &[3, 4, 5], 987654321, &[0xAB, 0xCD]);
    let expected = Header {
        token: vec![1, 2],
        id: vec![3, 4, 5],
        millis: 987654321,
    };
    let payload: &[u8] = &[0xAB, 0xCD];
    assert_eq!(Ok((expected, payload)), Header::parse(&buf));
}

#[test]
fn ok_header_zero_length_fields() {
    let buf = frame_body(&[], &[], 0, &[]);
    let (header, rest) = Header::parse(&buf).unwrap();
    assert_eq!(header.token, Vec::<u8>::new());
    assert_eq!(header.id, Vec::<u8>::new());
    assert_eq!(header.millis, 0);
    let empty: &[u8] = &[];
    assert_eq!(rest, empty);
}

#[test]
fn encode_then_parse_round_trip() {
    let header = Header {
        token: vec![9, 8, 7],
        id: vec![b's', b'1'],
        millis: 1000,
    };
    let mut buf = header.encode();
    buf.extend_from_slice(&[0xAB]);
    let reference = frame_body(&[9, 8, 7], b"s1", 1000, &[0xAB]);
    assert_eq!(buf, reference);
    let (parsed, rest) = Header::parse(&buf).unwrap();
    assert_eq!(parsed, header);
    let expected_rest: &[u8] = &[0xAB];
    assert_eq!(rest, expected_rest);
}

#[test]
fn part_sizes() {
    assert_eq!(Part::TokenSize.size(), 4);
    assert_eq!(Part::Token(17).size(), 17);
    assert_eq!(Part::IdSize.size(), 4);
    assert_eq!(Part::Id(3).size(), 3);
    assert_eq!(Part::Timestamp.size(), 8);
}

#[test]
fn part_descriptions() {
    assert_eq!(Part::TokenSize.description(), "token size");
    assert_eq!(Part::Token(1).description(), "token");
    assert_eq!(Part::IdSize.description(), "Id size");
    assert_eq!(Part::Id(1).description(), "Id");
    assert_eq!(Part::Timestamp.description(), "timestamp");
}
