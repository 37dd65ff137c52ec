use xterm_rs::buf_trim;

#[test]
fn trim_stops_on_trailing_line_feed() {
    let buf = b"hello\nworld\n";
    assert_eq!(buf_trim(buf, 80, 1), 11);
    assert_eq!(&buf[11..], b"\n");
}

#[test]
fn trim_two_rows_reaches_first_line_feed() {
    let buf = b"hello\nworld\n";
    assert_eq!(buf_trim(buf, 80, 2), 5);
    assert_eq!(&buf[5..], b"\nworld\n");
}

#[test]
fn trim_without_trailing_line_feed_keeps_last_line() {
    let buf = b"hello\nworld";
    assert_eq!(buf_trim(buf, 80, 1), 5);
    assert_eq!(&buf[6..], b"world");
}

#[test]
fn trim_counts_sgr_tail_as_columns() {
    let buf = b"\x1b[31mHI\x1b[0m";
    let idx = buf_trim(buf, 2, 1);
    assert_eq!(idx, 9);
    assert_eq!(&buf[idx..], b"0m");
    assert_eq!(buf_trim(&buf[idx..], 2, 1), 0);
}

#[test]
fn trim_of_empty_buffer_is_zero() {
    assert_eq!(buf_trim(b"", 80, 24), 0);
}

#[test]
fn trim_with_no_rows_allowed_keeps_nothing() {
    assert_eq!(buf_trim(b"abc\ndef", 80, 0), 7);
}

#[test]
fn trim_keeps_all_when_rows_suffice() {
    let buf = b"one\ntwo\nthree";
    assert_eq!(buf_trim(buf, 80, 10), 0);
}

#[test]
fn trim_wraps_ascii_at_width() {
    // ten columns on a terminal four wide: rows close after 4 and 8 columns
    let buf = b"abcdefghij";
    assert_eq!(buf_trim(buf, 4, 1), 6);
    assert_eq!(buf_trim(buf, 4, 2), 2);
    assert_eq!(buf_trim(buf, 4, 3), 0);
}

#[test]
fn trim_ignores_control_bytes() {
    let buf = b"ab\r\x07\x00cd";
    assert_eq!(buf_trim(buf, 4, 1), 0);
    assert_eq!(buf_trim(buf, 3, 1), 1);
}

#[test]
fn trim_measures_wide_characters() {
    // three characters of two columns each
    let buf = "日本語".as_bytes();
    assert_eq!(buf.len(), 9);
    assert_eq!(buf_trim(buf, 4, 1), 3);
    assert_eq!(buf_trim(buf, 2, 1), 6);
    assert_eq!(buf_trim(buf, 2, 2), 3);
    assert_eq!(buf_trim(buf, 6, 1), 0);
}

#[test]
fn trim_carries_overflow_of_wide_character() {
    // on three columns the second wide character closes a row and leaves one column over
    let buf = "日本語".as_bytes();
    assert_eq!(buf_trim(buf, 3, 1), 3);
    // the column left over and one more wide character close the second row
    assert_eq!(buf_trim(buf, 3, 2), 0);
}

#[test]
fn trim_measures_narrow_multibyte_characters() {
    let buf = "éàü".as_bytes();
    assert_eq!(buf.len(), 6);
    assert_eq!(buf_trim(buf, 2, 1), 2);
    assert_eq!(buf_trim(buf, 3, 1), 0);
}

#[test]
fn trim_counts_zero_width_characters_as_nothing() {
    // a letter and a combining acute accent
    let buf = "e\u{301}e\u{301}".as_bytes();
    assert_eq!(buf.len(), 6);
    assert_eq!(buf_trim(buf, 2, 1), 0);
    assert_eq!(buf_trim(buf, 1, 1), 3);
}

#[test]
fn trim_counts_malformed_sequence_as_one_column() {
    // a lone continuation byte after ASCII: the sequence is the two bytes "b\x80"
    let buf = b"ab\x80";
    assert_eq!(buf_trim(buf, 1, 1), 1);
    // a lone lead byte
    let buf = b"a\xe6";
    assert_eq!(buf_trim(buf, 1, 1), 1);
    assert_eq!(buf_trim(buf, 1, 2), 0);
}

#[test]
fn trim_counts_c1_control_as_one_column() {
    // U+0085 has no width of its own
    let buf = "a\u{85}".as_bytes();
    assert_eq!(buf_trim(buf, 1, 1), 1);
}

#[test]
fn trim_escape_jumps_behind_preceding_m() {
    // scanning back: "x" is one column, the escape byte jumps behind the "m" before it
    let buf = b"abm12\x1bx";
    assert_eq!(buf_trim(buf, 80, 1), 0);
    // with one column per row: "x" closes the first row, the jump lands on index 1,
    // and "a" closes the second
    assert_eq!(buf_trim(buf, 1, 1), 6);
    assert_eq!(buf_trim(buf, 1, 2), 0);
    assert_eq!(buf_trim(b"zabm12\x1bx", 1, 2), 1);
}

#[test]
fn trim_escape_without_m_is_passed_over() {
    let buf = b"ab\x1bcd";
    assert_eq!(buf_trim(buf, 2, 1), 3);
    assert_eq!(buf_trim(buf, 2, 2), 0);
}

#[test]
fn trim_escape_with_m_at_start_stops_at_zero() {
    let buf = b"m\x1babc";
    assert_eq!(buf_trim(buf, 80, 5), 0);
}

#[test]
fn trim_with_zero_columns_never_wraps_ascii() {
    let buf = b"abcdef";
    assert_eq!(buf_trim(buf, 0, 1), 0);
    assert_eq!(buf_trim(b"ab\ncd", 0, 1), 2);
}

#[test]
fn trim_is_idempotent_on_kept_part() {
    let buf = "first line\nsecond \x1b[1mline\x1b[0m is longer\n日本語の行\nlast".as_bytes();
    for cols in [1u16, 2, 3, 5, 8, 80] {
        for max in 0u32..8 {
            let idx = buf_trim(buf, cols, max);
            assert!(idx <= buf.len());
            assert_eq!(buf_trim(&buf[idx..], cols, max), 0);
        }
    }
}

#[test]
fn trim_index_never_grows_with_more_rows() {
    let buf = "alpha\nbeta\ngamma\ndelta\nepsilon".as_bytes();
    let mut last = buf.len();
    for max in 0u32..10 {
        let idx = buf_trim(buf, 80, max);
        assert!(idx <= last);
        last = idx;
    }
    assert_eq!(last, 0);
}
