use xterm_rs::cast::{decode_cast, decode_evt, encode_evt, EventKind, RawEvt};
use xterm_rs::varint::decode_varint;

#[test]
fn resize_encodes_to_nine_bytes() {
    let elapsed = 1.5f32;
    let bytes = encode_evt(&RawEvt::resize(elapsed.to_bits(), 40, 120));
    assert_eq!(bytes.len(), 9);
    assert_eq!(&bytes[..4], &elapsed.to_le_bytes());
    assert_eq!(bytes[4], 2);
    assert_eq!(&bytes[5..], &[0x28, 0x00, 0x78, 0x00]);
}

#[test]
fn input_encodes_with_length_prefix() {
    let elapsed = 0.25f32;
    let bytes = encode_evt(&RawEvt::input(elapsed.to_bits(), b"ls\n".to_vec()));
    let mut expected = elapsed.to_le_bytes().to_vec();
    expected.push(0);
    expected.push(3);
    expected.extend_from_slice(b"ls\n");
    assert_eq!(bytes, expected);
}

#[test]
fn output_encodes_with_kind_one() {
    let elapsed = 2.0f32;
    let bytes = encode_evt(&RawEvt::output(elapsed.to_bits(), b"hi".to_vec()));
    assert_eq!(bytes, vec![0x00, 0x00, 0x00, 0x40, 1, 2, b'h', b'i']);
}

#[test]
fn empty_payload_encodes_zero_length() {
    let bytes = encode_evt(&RawEvt::input(0, Vec::new()));
    assert_eq!(bytes, vec![0, 0, 0, 0, 0, 0]);
}

#[test]
fn length_prefix_grows_at_128() {
    let short = encode_evt(&RawEvt::output(0, vec![7u8; 127]));
    assert_eq!(short.len(), 4 + 1 + 1 + 127);
    assert_eq!(short[5], 0x7f);
    let long = encode_evt(&RawEvt::output(0, vec![7u8; 128]));
    assert_eq!(long.len(), 4 + 1 + 2 + 128);
    assert_eq!(&long[5..7], &[0x80, 0x01]);
    let longer = encode_evt(&RawEvt::output(0, vec![7u8; 300]));
    assert_eq!(&longer[5..7], &[0xac, 0x02]);
    let big = encode_evt(&RawEvt::output(0, vec![7u8; 16384]));
    assert_eq!(&big[5..8], &[0x80, 0x80, 0x01]);
    assert_eq!(big.len(), 4 + 1 + 3 + 16384);
}

#[test]
fn kind_codes_are_zero_one_two() {
    assert_eq!(EventKind::Input.code(), 0);
    assert_eq!(EventKind::Output.code(), 1);
    assert_eq!(EventKind::Resize.code(), 2);
    assert_eq!(EventKind::from_code(0), Some(EventKind::Input));
    assert_eq!(EventKind::from_code(1), Some(EventKind::Output));
    assert_eq!(EventKind::from_code(2), Some(EventKind::Resize));
    assert_eq!(EventKind::from_code(3), None);
    assert_eq!(EventKind::from_code(255), None);
}

#[test]
fn event_getters_give_back_what_was_put_in() {
    let e = RawEvt::input(0x3fc0_0000, b"abc".to_vec());
    assert_eq!(e.elapsed(), 0x3fc0_0000);
    assert_eq!(e.kind(), EventKind::Input);
    assert_eq!(e.payload(), b"abc");
    assert_eq!(e.size(), None);
    let r = RawEvt::resize(7, 40, 120);
    assert_eq!(r.kind(), EventKind::Resize);
    assert_eq!(r.payload(), &[0x28, 0x00, 0x78, 0x00]);
    assert_eq!(r.size(), Some((40, 120)));
    let big = RawEvt::resize(7, 0x1234, 0xfffe);
    assert_eq!(big.payload(), &[0x34, 0x12, 0xfe, 0xff]);
    assert_eq!(big.size(), Some((0x1234, 0xfffe)));
}

fn same(a: &RawEvt, b: &RawEvt) -> bool {
    a.elapsed() == b.elapsed() && a.kind() == b.kind() && a.payload() == b.payload()
}

#[test]
fn encode_then_decode_gives_event_back() {
    let events = vec![
        RawEvt::input(1.0f32.to_bits(), b"echo hi\n".to_vec()),
        RawEvt::output(2.5f32.to_bits(), b"hi\r\n".to_vec()),
        RawEvt::resize(3.0f32.to_bits(), 24, 80),
        RawEvt::input(f32::MAX.to_bits(), Vec::new()),
        RawEvt::output(0, vec![0xffu8; 200]),
        RawEvt::output(u32::MAX, vec![0x80u8; 20000]),
        RawEvt::resize(0, 0, 0),
        RawEvt::resize(0, u16::MAX, u16::MAX),
    ];
    for e in &events {
        let bytes = encode_evt(e);
        match decode_evt(&bytes) {
            Some((back, used)) => {
                assert_eq!(used, bytes.len());
                assert!(same(e, &back));
            }
            None => panic!("encoded event does not decode"),
        }
        let mut followed = bytes.clone();
        followed.extend_from_slice(b"\x01\x02\x03");
        match decode_evt(&followed) {
            Some((back, used)) => {
                assert_eq!(used, bytes.len());
                assert!(same(e, &back));
            }
            None => panic!("encoded event does not decode when bytes follow"),
        }
    }
}

#[test]
fn decode_rejects_truncated_events() {
    let bytes = encode_evt(&RawEvt::input(5, b"hello".to_vec()));
    for cut in 0..bytes.len() {
        assert!(decode_evt(&bytes[..cut]).is_none());
    }
    let bytes = encode_evt(&RawEvt::resize(5, 1, 2));
    for cut in 0..bytes.len() {
        assert!(decode_evt(&bytes[..cut]).is_none());
    }
}

#[test]
fn decode_rejects_unknown_kind() {
    assert!(decode_evt(&[0, 0, 0, 0, 3, 0]).is_none());
    assert!(decode_evt(&[0, 0, 0, 0, 0xff, 0]).is_none());
}

#[test]
fn decode_rejects_padded_length() {
    // length 1 written in two bytes
    assert!(decode_evt(&[0, 0, 0, 0, 0, 0x81, 0x00, b'a']).is_none());
    assert!(decode_evt(&[0, 0, 0, 0, 0, 0x01, b'a']).is_some());
}

#[test]
fn varint_decoding_follows_the_groups() {
    assert_eq!(decode_varint(&[0x00], 0, u64::MAX), Some((0, 1)));
    assert_eq!(decode_varint(&[0x7f], 0, u64::MAX), Some((127, 1)));
    assert_eq!(decode_varint(&[0x80, 0x01], 0, u64::MAX), Some((128, 2)));
    assert_eq!(decode_varint(&[0xac, 0x02], 0, u64::MAX), Some((300, 2)));
    assert_eq!(decode_varint(&[9, 0xac, 0x02, 9], 1, u64::MAX), Some((300, 3)));
    assert_eq!(decode_varint(&[0x80], 0, u64::MAX), None);
    assert_eq!(decode_varint(&[], 0, u64::MAX), None);
    assert_eq!(decode_varint(&[0x80, 0x00], 0, u64::MAX), None);
    assert_eq!(decode_varint(&[0xac, 0x02], 0, 299), None);
    assert_eq!(decode_varint(&[0xac, 0x02], 0, 300), Some((300, 2)));
    let max = [0xff, 0xff, 0xff, 0xff, 0xff, 0xff, 0xff, 0xff, 0xff, 0x01];
    assert_eq!(decode_varint(&max, 0, u64::MAX), Some((u64::MAX, 10)));
    let over = [0xff, 0xff, 0xff, 0xff, 0xff, 0xff, 0xff, 0xff, 0xff, 0x02];
    assert_eq!(decode_varint(&over, 0, u64::MAX), None);
    let long = [0x80u8; 64];
    assert_eq!(decode_varint(&long, 0, u64::MAX), None);
}

#[test]
fn cast_stream_decodes_to_its_events() {
    let timestamp: u128 = 1_700_000_000_123;
    let events = vec![
        RawEvt::resize(0, 24, 80),
        RawEvt::input(1.0f32.to_bits(), b"ls\n".to_vec()),
        RawEvt::output(1.5f32.to_bits(), b"a  b  c\r\n".to_vec()),
    ];
    let mut stream = timestamp.to_le_bytes().to_vec();
    for e in &events {
        stream.extend_from_slice(&encode_evt(e));
    }
    match decode_cast(&stream) {
        Some((ts, back)) => {
            assert_eq!(ts, timestamp);
            assert_eq!(back.len(), events.len());
            for (a, b) in events.iter().zip(back.iter()) {
                assert!(same(a, b));
            }
        }
        None => panic!("cast stream does not decode"),
    }
    assert!(decode_cast(&stream[..stream.len() - 1]).is_none());
    assert!(decode_cast(&stream[..15]).is_none());
    match decode_cast(&stream[..16]) {
        Some((ts, back)) => {
            assert_eq!(ts, timestamp);
            assert!(back.is_empty());
        }
        None => panic!("a header alone is a cast stream"),
    }
}
