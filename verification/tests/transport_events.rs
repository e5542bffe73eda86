use turn_core::frame::Flag;
use turn_core::transport::{reply_frame, Event, TransportCore};

// In these scenarios the completion slot is a plain string naming the
// caller, and a handler's inbound channel is a plain number; the core only
// stores them and hands them back.
type Core = TransportCore<&'static str, u32>;

#[test]
fn happy_path_echo() {
    let mut caller: Core = TransportCore::new();
    let mut server: Core = TransportCore::new();
    server.bind(1, 100);

    let payload = b"{\"x\":1}";
    let (id, wire) = caller.begin_call(1, payload, "caller a").expect("id space is fresh");
    assert!(caller.is_pending(id));

    server.feed(&wire);
    let (req_id, req_body) = match server.next_event() {
        Event::Request { kind, id, body } => {
            assert_eq!(kind, 1);
            assert!(server.handler(kind).is_some());
            (id, body)
        },
        _ => panic!("expected a request event"),
    };
    assert_eq!(req_id, id);
    assert_eq!(req_body, payload.to_vec());

    // the handler echoes its input
    let reply_wire = reply_frame(1, req_id, Ok(&req_body));
    caller.feed(&reply_wire);
    match caller.next_event() {
        Event::Resolve { slot, reply } => {
            assert_eq!(slot, "caller a");
            assert_eq!(reply, Ok(payload.to_vec()));
        },
        _ => panic!("expected the call to resolve"),
    }
    // the correlation table has no entry for that id afterward
    assert!(!caller.is_pending(id));
    assert_eq!(caller.pending_count(), 0);
}

#[test]
fn error_propagation_boom() {
    let mut caller: Core = TransportCore::new();
    let mut server: Core = TransportCore::new();
    server.bind(5, 500);

    let (id, wire) = caller.begin_call(5, b"X", "caller b").expect("id space is fresh");
    server.feed(&wire);
    let req_id = match server.next_event() {
        Event::Request { kind, id, .. } => {
            assert_eq!(kind, 5);
            id
        },
        _ => panic!("expected a request event"),
    };

    // the handler always fails with "boom"; no reply frame is ever sent
    let error_wire = reply_frame(5, req_id, Err("boom"));
    assert_eq!(error_wire[5], Flag::Error.to_byte());
    assert_ne!(error_wire[5], Flag::Reply.to_byte());

    caller.feed(&error_wire);
    match caller.next_event() {
        Event::Resolve { slot, reply } => {
            assert_eq!(slot, "caller b");
            assert_eq!(reply, Err("boom".to_string()));
        },
        _ => panic!("expected the call to resolve with an error"),
    }
    assert!(!caller.is_pending(id));
}

#[test]
fn unknown_kind_is_dropped_and_processing_goes_on() {
    let mut caller: Core = TransportCore::new();
    let mut server: Core = TransportCore::new();
    server.bind(1, 100); // nothing bound for kind 9

    let (_, wire_unknown) = caller.begin_call(9, b"ignored", "caller c").unwrap();
    let (id_known, wire_known) = caller.begin_call(1, b"seen", "caller d").unwrap();

    server.feed(&wire_unknown);
    server.feed(&wire_known);

    match server.next_event() {
        Event::Request { kind, .. } => {
            assert_eq!(kind, 9);
            // no handler: the frame is dropped
            assert!(server.handler(kind).is_none());
        },
        _ => panic!("expected the unknown-kind request"),
    }
    // the next frame is unaffected
    match server.next_event() {
        Event::Request { kind, id, body } => {
            assert_eq!(kind, 1);
            assert_eq!(id, id_known);
            assert_eq!(body, b"seen".to_vec());
        },
        _ => panic!("expected the bound-kind request"),
    }
    assert!(matches!(server.next_event(), Event::Pending));
}

#[test]
fn late_reply_frame_is_dropped() {
    let mut caller: Core = TransportCore::new();
    // a reply whose id has no pending call
    let stray = reply_frame(1, 12345, Ok(b"stale"));
    caller.feed(&stray);
    match caller.next_event() {
        Event::LateFrame { id } => assert_eq!(id, 12345),
        _ => panic!("expected the late frame to be dropped"),
    }
    // a stray error frame is dropped the same way
    let stray_err = reply_frame(1, 54321, Err("too late"));
    caller.feed(&stray_err);
    match caller.next_event() {
        Event::LateFrame { id } => assert_eq!(id, 54321),
        _ => panic!("expected the late error to be dropped"),
    }
    assert!(matches!(caller.next_event(), Event::Pending));
}

#[test]
fn malformed_error_text_drops_frame_only() {
    let mut caller: Core = TransportCore::new();
    let (id, _) = caller.begin_call(2, b"req", "caller e").unwrap();

    let mut bad = reply_frame(2, id, Err("boom"));
    // overwrite the body with bytes that are not valid UTF-8
    let body_at = bad.len() - 4;
    bad[body_at] = 0xff;
    bad[body_at + 1] = 0xfe;
    caller.feed(&bad);
    match caller.next_event() {
        Event::BadErrorText { id: bad_id } => assert_eq!(bad_id, id),
        _ => panic!("expected the malformed error frame to be dropped"),
    }
    // the call stays pending
    assert!(caller.is_pending(id));
}

#[test]
fn corrupt_flag_stops_decoding() {
    let mut caller: Core = TransportCore::new();
    let mut wire = reply_frame(1, 1, Ok(b"abc"));
    wire[5] = 7; // unknown flag byte
    caller.feed(&wire);
    assert!(matches!(caller.next_event(), Event::Corrupt));
    // the buffer is untouched: the connection is to be torn down
    assert!(matches!(caller.next_event(), Event::Corrupt));
}

#[test]
fn last_bind_wins() {
    let mut server: Core = TransportCore::new();
    server.bind(4, 40);
    server.bind(4, 41);
    assert_eq!(server.handler(4), Some(&41));
    assert_eq!(server.handler(3), None);
}

#[test]
fn begin_call_refuses_colliding_id() {
    let mut core: Core = TransportCore::new();
    let (first_id, _) = core.begin_call(1, b"a", "caller f").unwrap();
    assert_eq!(first_id, 0);
    // ids count up, so the next call gets a fresh id
    let (second_id, _) = core.begin_call(1, b"b", "caller g").unwrap();
    assert_eq!(second_id, 1);
    assert_eq!(core.pending_count(), 2);
}
