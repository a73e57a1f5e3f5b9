use bytes::{BufMut, BytesMut};
use tiangz::frame::{encode_frame, FrameError, FrameRead, ProtocolParser, MAX_PAYLOAD};
use tiangz::server::{connection_parser, MAX_FRAME_SIZE};

/// The MessagePack map `{"rpc_id": 1, "_t": "C2M_PingRequest"}`.
fn ping_payload() -> Vec<u8> {
    let mut payload = vec![0x82, 0xa6];
    payload.extend_from_slice(b"rpc_id");
    payload.push(1);
    payload.push(0xa2);
    payload.extend_from_slice(b"_t");
    payload.push(0xaf);
    payload.extend_from_slice(b"C2M_PingRequest");
    payload
}

/// A frame as a client writes it.
fn client_frame(payload: &[u8]) -> BytesMut {
    let mut buf = BytesMut::with_capacity(2 + payload.len());
    buf.put_u16(payload.len() as u16);
    buf.put_slice(payload);
    buf
}

#[test]
fn frame_is_what_a_client_writes() {
    let payload = ping_payload();
    assert_eq!(payload.len(), 28);
    let frame = encode_frame(&payload).unwrap();
    assert_eq!(&frame[..2], &[0, 28]);
    assert_eq!(frame, client_frame(&payload).to_vec());
}

#[test]
fn long_header_is_big_endian() {
    let frame = encode_frame(&[7; 300]).unwrap();
    assert_eq!(&frame[..3], &[1, 44, 7]);
    assert_eq!(frame.len(), 302);
    assert_eq!(frame, client_frame(&[7; 300]).to_vec());
}

#[test]
fn payload_beyond_the_header_is_not_encoded() {
    assert!(encode_frame(&vec![0; MAX_PAYLOAD + 1]).is_none());
    let frame = encode_frame(&vec![0; MAX_PAYLOAD]).unwrap();
    assert_eq!(&frame[..2], &[255, 255]);
}

#[test]
fn empty_payload_is_a_frame() {
    assert_eq!(encode_frame(&[]).unwrap(), vec![0, 0]);
    let mut parser = ProtocolParser::new();
    parser.feed(&[0, 0]);
    assert_eq!(parser.next_frame(), Ok(Some(vec![])));
    assert_eq!(parser.next_frame(), Ok(None));
}

#[test]
fn frames_survive_every_chunk_size() {
    let payloads: Vec<Vec<u8>> = vec![vec![1, 2, 3], vec![], ping_payload(), vec![9; 300]];
    let mut stream = Vec::new();
    for payload in &payloads {
        stream.extend(encode_frame(payload).unwrap());
    }
    for size in 1..stream.len() + 1 {
        let mut parser = ProtocolParser::new();
        let mut found = Vec::new();
        for chunk in stream.chunks(size) {
            parser.feed(chunk);
            while let Some(payload) = parser.next_frame().unwrap() {
                found.push(payload);
            }
        }
        assert_eq!(found, payloads);
        assert_eq!(parser.finish(), Ok(()));
    }
}

#[test]
fn truncation_is_noticed_at_every_place() {
    let frame = encode_frame(&[1, 2, 3]).unwrap();
    for kept in 1..frame.len() {
        let mut parser = ProtocolParser::new();
        parser.feed(&frame[..kept]);
        assert_eq!(parser.next_frame(), Ok(None));
        assert_eq!(parser.finish(), Err(FrameError::Truncated));
    }
}

#[test]
fn oversized_frame_is_refused_by_its_header() {
    let mut parser = ProtocolParser::new().with_max_frame_size(MAX_FRAME_SIZE);
    parser.feed(&[40, 1]);
    assert_eq!(parser.next_frame(), Err(FrameError::TooLong));
    parser.feed(&[0, 1, 5]);
    assert_eq!(parser.next_frame(), Err(FrameError::TooLong));
}

#[test]
fn frame_of_the_largest_size_is_accepted() {
    let mut parser = ProtocolParser::new().with_max_frame_size(MAX_FRAME_SIZE);
    parser.feed(&encode_frame(&vec![3; 10 * 1024]).unwrap());
    assert_eq!(parser.next_frame(), Ok(Some(vec![3; 10 * 1024])));
}

#[test]
fn reading_waits_for_the_rest_of_a_frame() {
    let mut parser = ProtocolParser::new();
    assert!(matches!(parser.read_frame(None), FrameRead::More));
    assert!(matches!(parser.read_frame(Some(&[0])), FrameRead::More));
    assert!(matches!(parser.read_frame(Some(&[2, 8])), FrameRead::More));
    match parser.read_frame(Some(&[9, 0, 0])) {
        FrameRead::Frame(payload) => assert_eq!(payload, vec![8, 9]),
        other => panic!("{:?}", other),
    }
    match parser.read_frame(None) {
        FrameRead::Frame(payload) => assert!(payload.is_empty()),
        other => panic!("{:?}", other),
    }
    assert!(matches!(parser.read_frame(None), FrameRead::More));
    assert!(matches!(parser.read_frame(Some(&[])), FrameRead::End));
}

#[test]
fn reading_reports_a_broken_connection() {
    let mut parser = ProtocolParser::new().with_max_frame_size(4);
    assert!(matches!(parser.read_frame(Some(&[0, 3, 1])), FrameRead::More));
    assert!(matches!(
        parser.read_frame(Some(&[])),
        FrameRead::Broken(FrameError::Truncated)
    ));
    let mut parser = ProtocolParser::new().with_max_frame_size(4);
    assert!(matches!(
        parser.read_frame(Some(&[0, 5])),
        FrameRead::Broken(FrameError::TooLong)
    ));
}

#[test]
fn connections_accept_frames_up_to_their_limit() {
    let mut parser = connection_parser();
    parser.feed(&encode_frame(&vec![1; 10 * 1024]).unwrap());
    assert_eq!(parser.next_frame(), Ok(Some(vec![1; 10 * 1024])));
    assert_eq!(parser.finish(), Ok(()));
    parser.feed(&encode_frame(&vec![1; 10 * 1024 + 1]).unwrap());
    assert_eq!(parser.next_frame(), Err(FrameError::TooLong));
    assert_eq!(MAX_FRAME_SIZE, 10 * 1024);
}
