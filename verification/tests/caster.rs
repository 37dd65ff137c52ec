use base64::Engine;
use std::io::Read;
use xterm_rs::buf_trim;
use xterm_rs::cast::{decode_cast, encode_evt, EventKind, RawEvt};
use xterm_rs::caster::{
    cast_file_name, decimal_text, heartbeat_log_name, recording_mode, valid_verbose_interval, Caster, CONTEXT_ROWS,
    DISK_FLUSH_MILLIS, SIDE_CHANNEL_LEVEL,
};
use xterm_rs::Frame;

const TS: u128 = 1_722_000_000_456;

#[test]
fn header_is_timestamp_in_sixteen_bytes() {
    let caster = Caster::new(TS, false, (24, 80));
    assert_eq!(caster.header(), TS.to_le_bytes().to_vec());
    assert_eq!(caster.header().len(), 16);
}

#[test]
fn input_is_written_at_once() {
    let mut caster = Caster::new(TS, false, (24, 80));
    let written = caster.input(1.0f32.to_bits(), b"ls\n".to_vec());
    assert_eq!(written, encode_evt(&RawEvt::input(1.0f32.to_bits(), b"ls\n".to_vec())));
    assert_eq!(caster.flush_disk(0), None);
}

#[test]
fn resize_is_written_at_once() {
    let mut caster = Caster::new(TS, false, (24, 80));
    let written = caster.resize(2.0f32.to_bits(), 40, 120);
    assert_eq!(written.len(), 9);
    assert_eq!(&written[4..], &[2, 0x28, 0x00, 0x78, 0x00]);
}

#[test]
fn output_waits_for_disk_tick() {
    let mut caster = Caster::new(TS, false, (24, 80));
    caster.output(1.0f32.to_bits(), b"hello ".to_vec());
    caster.output(1.1f32.to_bits(), b"world".to_vec());
    let written = caster.flush_disk(3.0f32.to_bits());
    assert_eq!(
        written,
        Some(encode_evt(&RawEvt::output(3.0f32.to_bits(), b"hello world".to_vec())))
    );
    assert_eq!(caster.flush_disk(4.0f32.to_bits()), None);
}

#[test]
fn record_returns_nothing_for_output() {
    let mut caster = Caster::new(TS, true, (24, 80));
    assert_eq!(caster.record(RawEvt::output(0, b"abc".to_vec())), Vec::<u8>::new());
    let e = RawEvt::input(9, b"x".to_vec());
    let expected = encode_evt(&e);
    assert_eq!(caster.record(e), expected);
}

#[test]
fn disk_tick_trims_to_screen_and_context() {
    // two rows of window and twenty of context: the last 22 rows are kept
    let mut caster = Caster::new(TS, false, (2, 80));
    let mut burst = Vec::new();
    for i in 0..40 {
        burst.extend_from_slice(format!("line {}\n", i).as_bytes());
    }
    caster.output(0, burst.clone());
    let idx = buf_trim(&burst, 80, 2 + CONTEXT_ROWS);
    assert!(idx > 0);
    let written = caster.flush_disk(7).unwrap();
    assert_eq!(written, encode_evt(&RawEvt::output(7, burst[idx..].to_vec())));
    let kept = &burst[idx..];
    assert_eq!(kept.iter().filter(|b| **b == b'\n').count(), 22);
}

#[test]
fn resize_changes_what_is_kept() {
    let mut burst = Vec::new();
    for i in 0..60 {
        burst.extend_from_slice(format!("{}\n", i).as_bytes());
    }
    let mut caster = Caster::new(TS, false, (2, 80));
    let _ = caster.resize(0, 10, 3);
    caster.output(0, burst.clone());
    let written = caster.flush_disk(1).unwrap();
    let idx = buf_trim(&burst, 3, 10 + CONTEXT_ROWS);
    assert_eq!(written, encode_evt(&RawEvt::output(1, burst[idx..].to_vec())));
}

#[test]
fn heartbeat_is_four_bytes_little_endian() {
    let caster = Caster::new(TS, false, (24, 80));
    assert_eq!(caster.heartbeat(0x6789_abcd), vec![0xcd, 0xab, 0x89, 0x67]);
    assert_eq!(caster.heartbeat(0), vec![0, 0, 0, 0]);
    assert_eq!(caster.heartbeat(1_700_000_000), 1_700_000_000u32.to_le_bytes().to_vec());
}

fn same(a: &RawEvt, b: &RawEvt) -> bool {
    a.elapsed() == b.elapsed() && a.kind() == b.kind() && a.payload() == b.payload()
}

#[test]
fn cast_file_decodes_to_what_was_recorded() {
    let mut caster = Caster::new(TS, true, (24, 80));
    let mut file = caster.header();
    file.extend_from_slice(&caster.resize(0, 30, 100));
    file.extend_from_slice(&caster.input(1, b"make\n".to_vec()));
    caster.output(2, b"cc -c a.c\r\n".to_vec());
    caster.output(3, b"cc -c b.c\r\n".to_vec());
    if let Some(bytes) = caster.flush_disk(4) {
        file.extend_from_slice(&bytes);
    }
    // a tick with nothing gathered writes nothing
    assert!(caster.flush_disk(5).is_none());
    file.extend_from_slice(&caster.input(6, b"\x03".to_vec()));
    caster.output(7, b"^C\r\n".to_vec());
    if let Some(bytes) = caster.flush_disk(8) {
        file.extend_from_slice(&bytes);
    }
    let expected = vec![
        RawEvt::resize(0, 30, 100),
        RawEvt::input(1, b"make\n".to_vec()),
        RawEvt::output(4, b"cc -c a.c\r\ncc -c b.c\r\n".to_vec()),
        RawEvt::input(6, b"\x03".to_vec()),
        RawEvt::output(8, b"^C\r\n".to_vec()),
    ];
    let (ts, events) = decode_cast(&file).unwrap();
    assert_eq!(ts, TS);
    assert_eq!(events.len(), expected.len());
    for (a, b) in expected.iter().zip(events.iter()) {
        assert!(same(a, b));
    }
    assert_eq!(events[2].kind(), EventKind::Output);
}

#[test]
fn side_channel_is_silent_when_not_verbose() {
    let mut caster = Caster::new(TS, false, (24, 80));
    let _ = caster.resize(0, 30, 100);
    caster.output(1, b"abc".to_vec());
    let _ = caster.flush_disk(2);
    assert!(caster.flush_side_channel().is_none());
}

fn unzstd(text: &str) -> Vec<u8> {
    let compressed = base64::engine::general_purpose::STANDARD.decode(text).unwrap();
    let mut out = Vec::new();
    zstd::stream::Decoder::new(&compressed[..]).unwrap().read_to_end(&mut out).unwrap();
    out
}

#[test]
fn side_channel_carries_header_resizes_and_flushed_output() {
    let mut caster = Caster::new(TS, true, (24, 80));
    let mut expected = TS.to_le_bytes().to_vec();
    // input is not put on the side channel
    let _ = caster.input(1, b"ls\n".to_vec());
    expected.extend_from_slice(&caster.resize(2, 30, 100));
    caster.output(3, b"file\r\n".to_vec());
    expected.extend_from_slice(&caster.flush_disk(4).unwrap());
    match caster.flush_side_channel() {
        Some(Frame::Cast { timestamp, data }) => {
            assert_eq!(timestamp, TS);
            assert_eq!(unzstd(&data), expected);
        }
        other => panic!("unexpected frame {:?}", other),
    }
    // the buffer was emptied
    assert!(caster.flush_side_channel().is_none());
    let resized = caster.resize(5, 31, 101);
    match caster.flush_side_channel() {
        Some(Frame::Cast { data, .. }) => assert_eq!(unzstd(&data), resized),
        other => panic!("unexpected frame {:?}", other),
    }
}

#[test]
fn side_channel_first_flush_holds_header_alone() {
    let mut caster = Caster::new(TS, true, (24, 80));
    match caster.flush_side_channel() {
        Some(Frame::Cast { timestamp, data }) => {
            assert_eq!(timestamp, TS);
            assert_eq!(unzstd(&data), TS.to_le_bytes().to_vec());
        }
        other => panic!("unexpected frame {:?}", other),
    }
}

#[test]
fn side_channel_frame_equals_direct_compression() {
    let mut caster = Caster::new(TS, true, (24, 80));
    let direct = zstd::stream::encode_all(&TS.to_le_bytes()[..], SIDE_CHANNEL_LEVEL).unwrap();
    let text = base64::engine::general_purpose::STANDARD.encode(&direct);
    match caster.flush_side_channel() {
        Some(Frame::Cast { data, .. }) => assert_eq!(data, text),
        other => panic!("unexpected frame {:?}", other),
    }
}

#[test]
fn failed_compression_is_reported_and_buffer_kept() {
    let mut caster = Caster::new(TS, true, (24, 80));
    match caster.finish_side_channel(Err("disk on fire".to_string())) {
        Frame::Error(msg) => assert_eq!(msg, "Error encoding cast data: disk on fire"),
        other => panic!("unexpected frame {:?}", other),
    }
    // the header is still there for the next tick
    match caster.flush_side_channel() {
        Some(Frame::Cast { data, .. }) => assert_eq!(unzstd(&data), TS.to_le_bytes().to_vec()),
        other => panic!("unexpected frame {:?}", other),
    }
}

#[test]
fn finished_compression_is_reported_as_base64() {
    let mut caster = Caster::new(TS, true, (24, 80));
    match caster.finish_side_channel(Ok(b"any carnal pleas".to_vec())) {
        Frame::Cast { timestamp, data } => {
            assert_eq!(timestamp, TS);
            assert_eq!(data, "YW55IGNhcm5hbCBwbGVhcw==");
        }
        other => panic!("unexpected frame {:?}", other),
    }
    assert!(caster.flush_side_channel().is_none());
}

#[test]
fn log_level_decides_recording() {
    assert_eq!(recording_mode(0), None);
    assert_eq!(recording_mode(1), Some(false));
    assert_eq!(recording_mode(2), Some(true));
}

#[test]
fn verbose_interval_is_between_ten_and_an_hour() {
    assert!(!valid_verbose_interval(0));
    assert!(!valid_verbose_interval(9));
    assert!(valid_verbose_interval(10));
    assert!(valid_verbose_interval(120));
    assert!(valid_verbose_interval(3600));
    assert!(!valid_verbose_interval(3601));
}

#[test]
fn recorder_constants() {
    assert_eq!(CONTEXT_ROWS, 20);
    assert_eq!(SIDE_CHANNEL_LEVEL, 3);
    assert_eq!(DISK_FLUSH_MILLIS, 10);
    assert_eq!(heartbeat_log_name(), "heartbeat.log");
}

#[test]
fn cast_file_is_named_by_timestamp() {
    assert_eq!(cast_file_name(0), "0.cast");
    assert_eq!(cast_file_name(7), "7.cast");
    assert_eq!(cast_file_name(10), "10.cast");
    assert_eq!(cast_file_name(TS), "1722000000456.cast");
    assert_eq!(cast_file_name(u128::MAX), format!("{}.cast", u128::MAX));
}

#[test]
fn decimal_text_agrees_with_formatting() {
    for n in [0u128, 1, 9, 10, 11, 99, 100, 101, 12345678901234567890, u64::MAX as u128, u128::MAX] {
        assert_eq!(decimal_text(n), format!("{}", n));
    }
}
