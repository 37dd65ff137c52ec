use xterm_rs::pty::{
    shell_environment, shell_program, PtyManager, ReadOutcome, ReaderStep, BROADCAST_CAPACITY,
    READ_CHUNK,
};

#[test]
fn new_manager_has_empty_scrollback_and_given_size() {
    let pty = PtyManager::new(24, 80, 4096);
    assert_eq!(pty.subscribe(), Vec::<u8>::new());
    assert_eq!(pty.size(), (24, 80));
}

#[test]
fn resize_is_noop_when_unchanged() {
    let mut pty = PtyManager::new(24, 80, 16);
    assert!(!pty.resize(24, 80));
    assert_eq!(pty.size(), (24, 80));
    assert!(pty.resize(40, 80));
    assert_eq!(pty.size(), (40, 80));
    assert!(pty.resize(40, 120));
    assert_eq!(pty.size(), (40, 120));
    assert!(!pty.resize(40, 120));
}

#[test]
fn chunk_joins_scrollback_and_goes_out() {
    let mut pty = PtyManager::new(24, 80, 64);
    match pty.on_read(ReadOutcome::Read(b"hello".to_vec())) {
        ReaderStep::Publish(chunk) => assert_eq!(chunk, b"hello".to_vec()),
        other => panic!("unexpected step {:?}", other),
    }
    assert_eq!(pty.subscribe(), b"hello".to_vec());
}

#[test]
fn transient_errors_are_retried() {
    let mut pty = PtyManager::new(24, 80, 64);
    let _ = pty.on_read(ReadOutcome::Read(b"abc".to_vec()));
    assert!(matches!(pty.on_read(ReadOutcome::Interrupted), ReaderStep::Retry));
    assert!(matches!(pty.on_read(ReadOutcome::WouldBlock), ReaderStep::Retry));
    assert_eq!(pty.subscribe(), b"abc".to_vec());
}

#[test]
fn end_of_stream_marks_and_respawns() {
    let mut pty = PtyManager::new(30, 100, 64);
    let _ = pty.on_read(ReadOutcome::Read(b"$ exit\r\n".to_vec()));
    match pty.on_read(ReadOutcome::Read(Vec::new())) {
        ReaderStep::Respawn { marker, rows, cols } => {
            assert_eq!(marker, b"[Process completed]\r\n\r\n".to_vec());
            assert_eq!((rows, cols), (30, 100));
        }
        other => panic!("unexpected step {:?}", other),
    }
    assert_eq!(pty.subscribe(), b"$ exit\r\n[Process completed]\r\n\r\n".to_vec());
}

#[test]
fn failed_read_marks_and_respawns() {
    let mut pty = PtyManager::new(24, 80, 64);
    let _ = pty.resize(50, 132);
    match pty.on_read(ReadOutcome::Failed) {
        ReaderStep::Respawn { marker, rows, cols } => {
            assert_eq!(marker, b"[Process completed]\r\n\r\n".to_vec());
            assert_eq!((rows, cols), (50, 132));
        }
        other => panic!("unexpected step {:?}", other),
    }
    assert_eq!(pty.subscribe(), b"[Process completed]\r\n\r\n".to_vec());
}

#[test]
fn failed_respawn_is_shown() {
    let mut pty = PtyManager::new(24, 80, 64);
    let marker = pty.on_respawn_failed("open pty");
    assert_eq!(marker, b"[Respawn failed: open pty]\r\n".to_vec());
    assert_eq!(pty.subscribe(), b"[Respawn failed: open pty]\r\n".to_vec());
    let marker = pty.on_respawn_failed("größe");
    assert_eq!(marker, "[Respawn failed: größe]\r\n".as_bytes().to_vec());
}

#[test]
fn scrollback_is_cut_to_limit() {
    let mut pty = PtyManager::new(24, 80, 8);
    let _ = pty.on_read(ReadOutcome::Read(b"abc".to_vec()));
    let _ = pty.on_read(ReadOutcome::Read(b"defghij".to_vec()));
    assert_eq!(pty.subscribe(), b"cdefghij".to_vec());
}

#[test]
fn debug_manager_keeps_no_scrollback() {
    let mut pty = PtyManager::new(24, 80, 0);
    match pty.on_read(ReadOutcome::Read(b"abc".to_vec())) {
        ReaderStep::Publish(chunk) => assert_eq!(chunk, b"abc".to_vec()),
        other => panic!("unexpected step {:?}", other),
    }
    assert_eq!(pty.subscribe(), Vec::<u8>::new());
}

#[test]
fn reconnect_after_one_mebibyte_gets_all_of_it_once() {
    let limit = 4 * 1024 * 1024;
    let mut pty = PtyManager::new(24, 80, limit);
    let mut all: Vec<u8> = Vec::new();
    let mut n: u32 = 0;
    while all.len() < 1024 * 1024 {
        let chunk: Vec<u8> = (0..READ_CHUNK).map(|i| ((i as u32).wrapping_mul(31).wrapping_add(n)) as u8).collect();
        n += 1;
        all.extend_from_slice(&chunk);
        let _ = pty.on_read(ReadOutcome::Read(chunk));
    }
    assert_eq!(all.len(), 1024 * 1024);
    let snapshot = pty.subscribe();
    assert_eq!(snapshot.len(), 1024 * 1024);
    assert!(snapshot == all);
    // what goes out after the snapshot follows it without overlap
    let mut seen = snapshot;
    for tail in [&b"more"[..], &b" output"[..]] {
        match pty.on_read(ReadOutcome::Read(tail.to_vec())) {
            ReaderStep::Publish(chunk) => {
                all.extend_from_slice(tail);
                seen.extend_from_slice(&chunk);
            }
            other => panic!("unexpected step {:?}", other),
        }
    }
    assert!(seen == all);
    assert!(pty.subscribe() == all);
}

#[test]
fn snapshot_and_stream_join_into_the_tail_of_all_output() {
    let limit = 10usize;
    let chunks: Vec<&[u8]> = vec![b"0123", b"4567", b"89ab", b"cdef", b"g", b"hijklmnopqrstu", b"vw"];
    for join in 0..=chunks.len() {
        let mut pty = PtyManager::new(24, 80, limit);
        let mut before: Vec<u8> = Vec::new();
        for chunk in &chunks[..join] {
            before.extend_from_slice(chunk);
            let _ = pty.on_read(ReadOutcome::Read(chunk.to_vec()));
        }
        let snapshot = pty.subscribe();
        assert_eq!(snapshot.len(), before.len().min(limit));
        let mut seen = snapshot.clone();
        let mut whole = before.clone();
        for chunk in &chunks[join..] {
            whole.extend_from_slice(chunk);
            if let ReaderStep::Publish(out) = pty.on_read(ReadOutcome::Read(chunk.to_vec())) {
                seen.extend_from_slice(&out);
            }
        }
        assert_eq!(seen, whole[whole.len() - seen.len()..].to_vec());
        assert_eq!(seen.len(), snapshot.len() + (whole.len() - before.len()));
    }
}

#[test]
fn shell_is_bash_with_three_variables() {
    assert_eq!(shell_program(), "/bin/bash");
    let env = shell_environment();
    assert_eq!(
        env,
        vec![
            ("LC_CTYPE".to_string(), "C.UTF-8".to_string()),
            ("TERM".to_string(), "xterm-color".to_string()),
            ("COLORTERM".to_string(), "truecolor".to_string()),
        ]
    );
}

#[test]
fn reader_constants() {
    assert_eq!(READ_CHUNK, 4096);
    assert_eq!(BROADCAST_CAPACITY, 4096);
}
