use xterm_rs::RingBytes;

#[test]
fn ring_replaced_by_tail_of_large_chunk() {
    let mut ring = RingBytes::new(8);
    ring.extend(b"abc");
    ring.extend(b"defghij");
    assert_eq!(ring.to_vec(), b"cdefghij".to_vec());
    assert_eq!(ring.to_vec().len(), 8);
}

#[test]
fn ring_starts_empty() {
    let ring = RingBytes::new(4);
    assert_eq!(ring.to_vec(), Vec::<u8>::new());
}

#[test]
fn ring_keeps_everything_below_limit() {
    let mut ring = RingBytes::new(16);
    ring.extend(b"hello");
    ring.extend(b", ");
    ring.extend(b"world");
    assert_eq!(ring.to_vec(), b"hello, world".to_vec());
}

#[test]
fn ring_chunk_of_exactly_limit_replaces_contents() {
    let mut ring = RingBytes::new(4);
    ring.extend(b"xy");
    ring.extend(b"abcd");
    assert_eq!(ring.to_vec(), b"abcd".to_vec());
}

#[test]
fn ring_chunk_longer_than_limit_keeps_its_tail() {
    let mut ring = RingBytes::new(3);
    ring.extend(b"0123456789");
    assert_eq!(ring.to_vec(), b"789".to_vec());
}

#[test]
fn ring_with_zero_limit_holds_nothing() {
    let mut ring = RingBytes::new(0);
    ring.extend(b"abc");
    ring.extend(b"");
    assert_eq!(ring.to_vec(), Vec::<u8>::new());
}

#[test]
fn ring_evicts_oldest_first() {
    let mut ring = RingBytes::new(5);
    ring.extend(b"abc");
    ring.extend(b"de");
    assert_eq!(ring.to_vec(), b"abcde".to_vec());
    ring.extend(b"f");
    assert_eq!(ring.to_vec(), b"bcdef".to_vec());
    ring.extend(b"ghi");
    assert_eq!(ring.to_vec(), b"efghi".to_vec());
}

#[test]
fn ring_equals_tail_of_all_input() {
    let limit = 7usize;
    let chunks: Vec<&[u8]> = vec![b"ab", b"", b"cdefg", b"h", b"ijklmnopqrs", b"tu", b"v"];
    let mut ring = RingBytes::new(limit);
    let mut all: Vec<u8> = Vec::new();
    for chunk in chunks {
        ring.extend(chunk);
        all.extend_from_slice(chunk);
        let keep = all.len().min(limit);
        assert_eq!(ring.to_vec(), all[all.len() - keep..].to_vec());
        assert!(ring.to_vec().len() <= limit);
    }
}

#[test]
fn ring_clone_is_independent_copy() {
    let mut ring = RingBytes::new(4);
    ring.extend(b"abc");
    let copy = ring.clone();
    ring.extend(b"def");
    assert_eq!(copy.to_vec(), b"abc".to_vec());
    assert_eq!(ring.to_vec(), b"cdef".to_vec());
}
