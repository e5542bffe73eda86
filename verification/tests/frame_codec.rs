use turn_core::buffer::{DecodeStep, InboundBuffer};
use turn_core::frame::{encode_frame, Flag, Frame, HEADER_LEN};

#[test]
fn flag_bytes_round_trip() {
    assert_eq!(Flag::Request.to_byte(), 0);
    assert_eq!(Flag::Reply.to_byte(), 1);
    assert_eq!(Flag::Error.to_byte(), 2);
    assert!(matches!(Flag::from_byte(0), Some(Flag::Request)));
    assert!(matches!(Flag::from_byte(1), Some(Flag::Reply)));
    assert!(matches!(Flag::from_byte(2), Some(Flag::Error)));
    assert!(Flag::from_byte(3).is_none());
    assert!(Flag::from_byte(255).is_none());
}

#[test]
fn encoded_layout_is_exact() {
    let w = encode_frame(7, Flag::Reply, 0x01020304, &[0xaa, 0xbb, 0xcc]);
    assert_eq!(w.len(), HEADER_LEN + 3);
    // body length, big-endian
    assert_eq!(&w[0..4], &[0, 0, 0, 3]);
    // kind, flag
    assert_eq!(w[4], 7);
    assert_eq!(w[5], 1);
    // id, big-endian
    assert_eq!(&w[6..10], &[1, 2, 3, 4]);
    // body
    assert_eq!(&w[10..], &[0xaa, 0xbb, 0xcc]);
}

#[test]
fn round_trip_framing() {
    let body: Vec<u8> = vec![9, 8, 7, 6, 5];
    let frame = Frame { kind: 42, flag: Flag::Request, id: 0xdeadbeef, body: body.clone() };
    let wire = frame.encode();
    assert_eq!(wire.len(), HEADER_LEN + body.len());

    let mut buf = InboundBuffer::new();
    buf.feed(&wire);
    match buf.try_decode() {
        DecodeStep::Ready(f) => {
            assert_eq!(f.kind, 42);
            assert!(matches!(f.flag, Flag::Request));
            assert_eq!(f.id, 0xdeadbeef);
            assert_eq!(f.body, body);
        },
        _ => panic!("expected a complete frame"),
    }
    // exactly the frame's bytes were consumed
    assert_eq!(buf.len(), 0);
}

#[test]
fn empty_body_frame_decodes_at_ten_bytes() {
    let wire = encode_frame(1, Flag::Error, 5, &[]);
    assert_eq!(wire.len(), HEADER_LEN);
    let mut buf = InboundBuffer::new();
    buf.feed(&wire);
    match buf.try_decode() {
        DecodeStep::Ready(f) => {
            assert_eq!(f.kind, 1);
            assert!(matches!(f.flag, Flag::Error));
            assert_eq!(f.id, 5);
            assert!(f.body.is_empty());
        },
        _ => panic!("expected a complete frame"),
    }
    assert_eq!(buf.len(), 0);
}

#[test]
fn incomplete_frame_is_pending() {
    let wire = encode_frame(3, Flag::Reply, 9, &[1, 2, 3, 4]);
    let mut buf = InboundBuffer::new();
    buf.feed(&wire[..wire.len() - 1]);
    assert!(matches!(buf.try_decode(), DecodeStep::Pending));
    // nothing was consumed
    assert_eq!(buf.len(), wire.len() - 1);
}

#[test]
fn unknown_flag_byte_is_corrupt() {
    let mut wire = encode_frame(3, Flag::Reply, 9, &[1]);
    wire[5] = 3; // not a known flag
    let mut buf = InboundBuffer::new();
    buf.feed(&wire);
    assert!(matches!(buf.try_decode(), DecodeStep::Corrupt));
    // the buffer is left untouched: the connection is to be torn down
    assert_eq!(buf.len(), wire.len());
}
