use turn_core::buffer::{DecodeStep, InboundBuffer};
use turn_core::frame::{encode_frame, Flag};

#[test]
fn one_byte_at_a_time_reassembles() {
    let body: Vec<u8> = (0u8..32).collect();
    let wire = encode_frame(6, Flag::Request, 77, &body);
    let mut buf = InboundBuffer::new();
    for (i, b) in wire.iter().enumerate() {
        buf.feed(&[*b]);
        if i + 1 < wire.len() {
            assert!(matches!(buf.try_decode(), DecodeStep::Pending));
        }
    }
    match buf.try_decode() {
        DecodeStep::Ready(f) => {
            assert_eq!(f.kind, 6);
            assert_eq!(f.id, 77);
            assert_eq!(f.body, body);
        },
        _ => panic!("expected a complete frame after the last byte"),
    }
    assert_eq!(buf.len(), 0);
}

#[test]
fn chunking_matches_feeding_whole() {
    let wire = encode_frame(2, Flag::Reply, 4242, b"hello");

    let mut whole = InboundBuffer::new();
    whole.feed(&wire);
    let from_whole = match whole.try_decode() {
        DecodeStep::Ready(f) => f,
        _ => panic!("expected a frame"),
    };

    let mut chunked = InboundBuffer::new();
    chunked.feed(&wire[..3]);
    assert!(matches!(chunked.try_decode(), DecodeStep::Pending));
    chunked.feed(&wire[3..11]);
    assert!(matches!(chunked.try_decode(), DecodeStep::Pending));
    chunked.feed(&wire[11..]);
    let from_chunks = match chunked.try_decode() {
        DecodeStep::Ready(f) => f,
        _ => panic!("expected a frame"),
    };

    assert_eq!(from_whole.kind, from_chunks.kind);
    assert_eq!(from_whole.id, from_chunks.id);
    assert_eq!(from_whole.body, from_chunks.body);
}

#[test]
fn two_frames_across_chunks_keep_order() {
    let first = encode_frame(1, Flag::Request, 1, b"one");
    let second = encode_frame(2, Flag::Request, 2, b"two");
    let mut stream: Vec<u8> = Vec::new();
    stream.extend_from_slice(&first);
    stream.extend_from_slice(&second);

    let mut buf = InboundBuffer::new();
    // split in the middle of the second frame's header
    let cut = first.len() + 4;
    buf.feed(&stream[..cut]);
    match buf.try_decode() {
        DecodeStep::Ready(f) => assert_eq!(f.id, 1),
        _ => panic!("first frame should be complete"),
    }
    assert!(matches!(buf.try_decode(), DecodeStep::Pending));
    buf.feed(&stream[cut..]);
    match buf.try_decode() {
        DecodeStep::Ready(f) => {
            assert_eq!(f.id, 2);
            assert_eq!(f.body, b"two".to_vec());
        },
        _ => panic!("second frame should be complete"),
    }
    assert_eq!(buf.len(), 0);
}
