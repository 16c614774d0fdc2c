use bp_core::frame::{
    decode_frame, encode_frame, ping_frame, Attachment, DecodeOutcome, Frame, NORMAL_STATUS,
    PING_STATUS, PROTOCOL_VERSION,
};

fn sample_frame() -> Frame {
    Frame {
        status: NORMAL_STATUS,
        version: PROTOCOL_VERSION,
        attachments: vec![
            Attachment { name: b"a.png".to_vec(), data: vec![1, 2, 3, 4] },
            Attachment { name: b"mask.png".to_vec(), data: vec![9, 8] },
        ],
        message: b"{\"task_id\":\"t\"}".to_vec(),
    }
}

#[test]
fn round_trip_preserves_frame() {
    let f = sample_frame();
    let bytes = encode_frame(&f);
    match decode_frame(bytes.as_slice()) {
        DecodeOutcome::Decoded(g, used) => {
            assert_eq!(bytes.len(), used);
            assert_eq!(f.status, g.status);
            assert_eq!(f.version, g.version);
            assert_eq!(2, g.attachments.len());
            assert_eq!(b"a.png".to_vec(), g.attachments[0].name);
            assert_eq!(vec![1, 2, 3, 4], g.attachments[0].data);
            assert_eq!(b"mask.png".to_vec(), g.attachments[1].name);
            assert_eq!(vec![9, 8], g.attachments[1].data);
            assert_eq!(f.message, g.message);
        }
        _ => panic!("expected a decoded frame"),
    }
}

#[test]
fn decode_consumes_one_frame_of_a_stream() {
    let f = sample_frame();
    let mut bytes = encode_frame(&f);
    let first_len = bytes.len();
    let mut second = encode_frame(&ping_frame());
    bytes.append(&mut second);
    match decode_frame(bytes.as_slice()) {
        DecodeOutcome::Decoded(_, used) => assert_eq!(first_len, used),
        _ => panic!("expected a decoded frame"),
    }
}

#[test]
fn partial_prefix_needs_more() {
    let f = sample_frame();
    let bytes = encode_frame(&f);
    for cut in [0usize, 1, 2, 5, 6, 9, bytes.len() - 1] {
        match decode_frame(&bytes[..cut]) {
            DecodeOutcome::NeedMore => {}
            _ => panic!("a strict prefix must ask for more bytes (cut at {})", cut),
        }
    }
}

#[test]
fn bad_header_is_corrupt() {
    match decode_frame(&[7u8, PROTOCOL_VERSION]) {
        DecodeOutcome::Corrupt => {}
        _ => panic!("unknown status tag must be corrupt"),
    }
    match decode_frame(&[NORMAL_STATUS, 9u8]) {
        DecodeOutcome::Corrupt => {}
        _ => panic!("unknown protocol version must be corrupt"),
    }
}

#[test]
fn ping_frame_is_empty() {
    let p = ping_frame();
    assert_eq!(PING_STATUS, p.status);
    assert_eq!(PROTOCOL_VERSION, p.version);
    assert!(p.attachments.is_empty());
    assert!(p.message.is_empty());
    // a ping still encodes to a well-formed frame
    let bytes = encode_frame(&p);
    assert!(matches!(
        decode_frame(bytes.as_slice()),
        DecodeOutcome::Decoded(_, _)
    ));
}
