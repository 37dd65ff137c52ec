//! Display-aware trimming: where the last rows of a raw terminal buffer begin.
//!
//! The buffer is scanned backwards from its end. A line feed ends a row; a
//! printable ASCII byte takes one column; a multi-byte UTF-8 sequence takes
//! the columns of its character; an escape byte jumps behind the nearest `m`
//! before it; every other byte takes no room. A row is also ended when the
//! column count reaches the terminal's width.

use crate::glyph::{glyph_width, measure_glyph};
use vstd::prelude::*;
use vstd::slice::slice_subrange;

verus! {

/// Index of the last occurrence of `needle` in `s`, if there is one.
pub open spec fn last_index_of(s: Seq<u8>, needle: u8) -> Option<int>
    decreases s.len(),
{
    if s.len() == 0 {
        None
    } else if s.last() == needle {
        Some(s.len() - 1)
    } else {
        last_index_of(s.drop_last(), needle)
    }
}

/// `memchr::memrchr`: the index of the last occurrence of `needle` in
/// `haystack`, or `None` where it does not occur.
pub assume_specification[ memchr::memrchr ](needle: u8, haystack: &[u8]) -> (r: Option<usize>)
    ensures
        match r {
            Some(m) => last_index_of(haystack@, needle) == Some(m as int),
            None => last_index_of(haystack@, needle) is None,
        },
;

/// State of the backward scan: `pos` bytes are still unread, `lines` rows
/// have been closed, and the open row holds `col` columns.
pub struct Scan {
    pub pos: int,
    pub lines: nat,
    pub col: nat,
}

/// The scan before any byte was read.
pub open spec fn scan_start(buf: Seq<u8>) -> Scan {
    Scan { pos: buf.len() as int, lines: 0, col: 0 }
}

/// True for a byte of the form `10xxxxxx`.
pub open spec fn is_continuation(b: u8) -> bool {
    0x80 <= b <= 0xbf
}

/// Start of the multi-byte sequence that ends at `i`: the nearest index at or
/// before `i` whose byte is no continuation byte, or 0.
pub open spec fn sequence_start(buf: Seq<u8>, i: int) -> int
    decreases i,
{
    if i > 0 && is_continuation(buf[i]) {
        sequence_start(buf, i - 1)
    } else {
        i
    }
}

/// The scan after `cells` more columns were put on the open row of a terminal
/// `cols` wide, with `pos` bytes left to read.
pub open spec fn advance(st: Scan, pos: int, cells: nat, cols: nat) -> Scan {
    let col = st.col + cells;
    if col >= cols {
        Scan { pos, lines: st.lines + 1, col: (col - cols) as nat }
    } else {
        Scan { pos, lines: st.lines, col }
    }
}

/// One step of the scan: reads the byte before `st.pos`. Needs `st.pos > 0`.
pub open spec fn scan_step(buf: Seq<u8>, cols: nat, st: Scan) -> Scan {
    let i = st.pos - 1;
    let b = buf[i];
    if b == 0x0a {
        Scan { pos: i, lines: st.lines + 1, col: 0 }
    } else if 0x20 <= b <= 0x7e {
        if st.col + 1 == cols {
            Scan { pos: i, lines: st.lines + 1, col: 0 }
        } else {
            Scan { pos: i, lines: st.lines, col: st.col + 1 }
        }
    } else if b >= 0x80 {
        let start = sequence_start(buf, i);
        advance(st, start, glyph_width(buf.subrange(start, i + 1)), cols)
    } else if b == 0x1b {
        match last_index_of(buf.subrange(0, i + 1), 0x6d) {
            Some(m) => Scan { pos: if m == 0 { 0 } else { m - 1 }, lines: st.lines, col: st.col },
            None => Scan { pos: i, lines: st.lines, col: st.col },
        }
    } else {
        Scan { pos: i, lines: st.lines, col: st.col }
    }
}

/// The scan run from `st` until `max_lines` rows are closed or no byte is left.
pub open spec fn scan_run(buf: Seq<u8>, cols: nat, max_lines: nat, st: Scan) -> Scan
    decreases st.pos,
{
    if 0 < st.pos <= buf.len() && st.lines < max_lines {
        proof {
            lemma_scan_step(buf, cols, st);
        }
        scan_run(buf, cols, max_lines, scan_step(buf, cols, st))
    } else {
        st
    }
}

/// Where the last `max_lines` rows of `buf` begin on a terminal `cols` wide.
pub open spec fn trim_index(buf: Seq<u8>, cols: nat, max_lines: nat) -> int {
    scan_run(buf, cols, max_lines, scan_start(buf)).pos
}

/// The last occurrence lies inside the sequence and holds the needle.
pub proof fn lemma_last_index_of(s: Seq<u8>, needle: u8)
    ensures
        last_index_of(s, needle) matches Some(m) ==> 0 <= m < s.len() && s[m] == needle,
    decreases s.len(),
{
    if s.len() > 0 && s.last() != needle {
        lemma_last_index_of(s.drop_last(), needle);
    }
}

/// The start of a sequence lies at or before its end, and never below 0.
pub proof fn lemma_sequence_start(buf: Seq<u8>, i: int)
    requires
        0 <= i,
    ensures
        0 <= sequence_start(buf, i) <= i,
    decreases i,
{
    if i > 0 && is_continuation(buf[i]) {
        lemma_sequence_start(buf, i - 1);
    }
}

/// Every step reads at least one byte and closes at most one row.
pub proof fn lemma_scan_step(buf: Seq<u8>, cols: nat, st: Scan)
    requires
        0 < st.pos <= buf.len(),
    ensures
        0 <= scan_step(buf, cols, st).pos < st.pos,
        st.lines <= scan_step(buf, cols, st).lines <= st.lines + 1,
{
    let i = st.pos - 1;
    lemma_sequence_start(buf, i);
    lemma_last_index_of(buf.subrange(0, i + 1), 0x6d);
}

/// The scan run from `st` until no byte is left, whatever the number of rows.
pub open spec fn scan_all(buf: Seq<u8>, cols: nat, st: Scan) -> Scan
    decreases st.pos,
{
    if 0 < st.pos <= buf.len() {
        proof {
            lemma_scan_step(buf, cols, st);
        }
        scan_all(buf, cols, scan_step(buf, cols, st))
    } else {
        st
    }
}

/// Rows of the whole of `buf` on a terminal `cols` wide, as the scan counts
/// them: the rows that a scan over all of it closes. This is the scan's own
/// count, not always what a terminal shows: bytes that an escape byte jumps
/// over are not counted, line feeds among them.
pub open spec fn rendered_rows(buf: Seq<u8>, cols: nat) -> nat {
    scan_all(buf, cols, scan_start(buf)).lines
}

/// The part of `buf` from index `from` to its end.
pub open spec fn tail_from(buf: Seq<u8>, from: int) -> Seq<u8> {
    buf.subrange(from, buf.len() as int)
}

/// A scan state of a buffer, seen from the tail that starts `by` bytes in.
pub open spec fn shifted(st: Scan, by: int) -> Scan {
    Scan { pos: st.pos - by, lines: st.lines, col: st.col }
}

/// A limited scan never goes back, never loses a row, and closes no row
/// beyond the limit.
pub proof fn lemma_scan_run_bounds(buf: Seq<u8>, cols: nat, max_lines: nat, st: Scan)
    requires
        0 <= st.pos <= buf.len(),
    ensures
        0 <= scan_run(buf, cols, max_lines, st).pos <= st.pos,
        st.lines <= scan_run(buf, cols, max_lines, st).lines,
        st.lines <= max_lines ==> scan_run(buf, cols, max_lines, st).lines <= max_lines,
        scan_run(buf, cols, max_lines, st).pos == 0 || scan_run(buf, cols, max_lines, st).lines
            >= max_lines,
    decreases st.pos,
{
    if 0 < st.pos && st.lines < max_lines {
        lemma_scan_step(buf, cols, st);
        lemma_scan_run_bounds(buf, cols, max_lines, scan_step(buf, cols, st));
    }
}

/// A scan without limit reads every byte and never loses a row.
pub proof fn lemma_scan_all_bounds(buf: Seq<u8>, cols: nat, st: Scan)
    requires
        0 <= st.pos <= buf.len(),
    ensures
        scan_all(buf, cols, st).pos == 0,
        st.lines <= scan_all(buf, cols, st).lines,
    decreases st.pos,
{
    if 0 < st.pos {
        lemma_scan_step(buf, cols, st);
        lemma_scan_all_bounds(buf, cols, scan_step(buf, cols, st));
    }
}

/// A scan without limit passes through the state at which a limited scan
/// stops.
pub proof fn lemma_scan_all_passes_limit(buf: Seq<u8>, cols: nat, max_lines: nat, st: Scan)
    requires
        0 <= st.pos <= buf.len(),
    ensures
        scan_all(buf, cols, scan_run(buf, cols, max_lines, st)) == scan_all(buf, cols, st),
    decreases st.pos,
{
    if 0 < st.pos && st.lines < max_lines {
        lemma_scan_step(buf, cols, st);
        lemma_scan_all_passes_limit(buf, cols, max_lines, scan_step(buf, cols, st));
    }
}

/// A sequence that starts inside a tail of the buffer starts at the same
/// byte in the tail alone.
proof fn lemma_sequence_start_in_tail(buf: Seq<u8>, from: int, i: int)
    requires
        0 <= from <= i < buf.len(),
        sequence_start(buf, i) >= from,
    ensures
        sequence_start(tail_from(buf, from), i - from) == sequence_start(buf, i) - from,
    decreases i,
{
    if i > 0 && is_continuation(buf[i]) {
        lemma_sequence_start(buf, i - 1);
        lemma_sequence_start_in_tail(buf, from, i - 1);
    }
}

/// The last occurrence in a tail of `s` is the last occurrence in `s` where
/// that lies in the tail; there is none in the tail where it does not.
proof fn lemma_last_index_in_tail(s: Seq<u8>, from: int, needle: u8)
    requires
        0 <= from <= s.len(),
    ensures
        last_index_of(tail_from(s, from), needle) == match last_index_of(s, needle) {
            Some(m) => if m >= from {
                Some(m - from)
            } else {
                None
            },
            None => None,
        },
    decreases s.len(),
{
    lemma_last_index_of(s, needle);
    if s.len() > from && s.last() != needle {
        assert(tail_from(s, from).drop_last() =~= tail_from(s.drop_last(), from));
        lemma_last_index_in_tail(s.drop_last(), from, needle);
    }
}

/// A step that stays inside a tail of the buffer reads nothing before that
/// tail: it is the same step on the tail alone.
proof fn lemma_scan_step_in_tail(buf: Seq<u8>, cols: nat, from: int, st: Scan)
    requires
        0 <= from < st.pos <= buf.len(),
        scan_step(buf, cols, st).pos >= from,
    ensures
        scan_step(tail_from(buf, from), cols, shifted(st, from)) == shifted(
            scan_step(buf, cols, st),
            from,
        ),
{
    let tail = tail_from(buf, from);
    let i = st.pos - 1;
    let b = buf[i];
    assert(tail[i - from] == b);
    if b >= 0x80 {
        let start = sequence_start(buf, i);
        lemma_sequence_start(buf, i);
        lemma_sequence_start_in_tail(buf, from, i);
        assert(tail.subrange(start - from, i - from + 1) =~= buf.subrange(start, i + 1));
    } else if b == 0x1b {
        let head = buf.subrange(0, i + 1);
        lemma_last_index_of(head, 0x6d);
        lemma_last_index_in_tail(head, from, 0x6d);
        assert(tail.subrange(0, i - from + 1) =~= tail_from(head, from));
    }
}

/// A limited scan that stops inside a tail of the buffer is the same scan on
/// the tail alone.
pub proof fn lemma_scan_run_in_tail(
    buf: Seq<u8>,
    cols: nat,
    max_lines: nat,
    from: int,
    st: Scan,
)
    requires
        0 <= from <= st.pos <= buf.len(),
        scan_run(buf, cols, max_lines, st).pos >= from,
    ensures
        scan_run(tail_from(buf, from), cols, max_lines, shifted(st, from)) == shifted(
            scan_run(buf, cols, max_lines, st),
            from,
        ),
    decreases st.pos,
{
    if 0 < st.pos && st.lines < max_lines {
        let next = scan_step(buf, cols, st);
        lemma_scan_step(buf, cols, st);
        lemma_scan_run_bounds(buf, cols, max_lines, next);
        lemma_scan_step_in_tail(buf, cols, from, st);
        lemma_scan_run_in_tail(buf, cols, max_lines, from, next);
    }
}

/// The cut that `trim_index` makes keeps the last rows and no more, with
/// rows counted as the scan counts them (see `rendered_rows`): the scan of a
/// part of the buffer is held against the scan of the whole.
///
/// With `i` the index returned for `buf`:
/// - the kept part `buf[i..]` renders at most `max_lines` rows, and scanning
///   it again cuts nothing more;
/// - where bytes were cut off, the kept part renders exactly `max_lines` rows;
/// - a scan of a part `buf[j..]` that starts earlier first goes through the
///   kept part as the scan of `buf` did, and then on through the bytes in
///   front of it; so that part renders no fewer rows than the kept part, and
///   more than `max_lines` as soon as the bytes in front close a further row.
pub proof fn lemma_trim_keeps_last_rows(buf: Seq<u8>, cols: nat, max_lines: nat)
    ensures
        ({
            let cut = scan_run(buf, cols, max_lines, scan_start(buf));
            let i = trim_index(buf, cols, max_lines);
            &&& 0 <= i <= buf.len()
            &&& rendered_rows(tail_from(buf, i), cols) == cut.lines
            &&& cut.lines <= max_lines
            &&& trim_index(tail_from(buf, i), cols, max_lines) == 0
            &&& i > 0 ==> cut.lines == max_lines
            &&& forall|j: int|
                0 <= j <= i ==> {
                    &&& scan_all(
                        #[trigger] tail_from(buf, j),
                        cols,
                        scan_start(tail_from(buf, j)),
                    ) == scan_all(tail_from(buf, j), cols, shifted(cut, j))
                    &&& rendered_rows(tail_from(buf, j), cols) >= cut.lines
                }
        }),
{
    let start = scan_start(buf);
    let cut = scan_run(buf, cols, max_lines, start);
    let i = cut.pos;
    lemma_scan_run_bounds(buf, cols, max_lines, start);
    assert forall|j: int| 0 <= j <= i implies {
        &&& scan_all(#[trigger] tail_from(buf, j), cols, scan_start(tail_from(buf, j))) == scan_all(
            tail_from(buf, j),
            cols,
            shifted(cut, j),
        )
        &&& rendered_rows(tail_from(buf, j), cols) >= cut.lines
        &&& j == i ==> rendered_rows(tail_from(buf, j), cols) == cut.lines && trim_index(
            tail_from(buf, j),
            cols,
            max_lines,
        ) == 0
    } by {
        let tail = tail_from(buf, j);
        lemma_scan_run_in_tail(buf, cols, max_lines, j, start);
        assert(shifted(start, j) == scan_start(tail));
        lemma_scan_all_passes_limit(tail, cols, max_lines, scan_start(tail));
        lemma_scan_all_bounds(tail, cols, shifted(cut, j));
    }
    assert(rendered_rows(tail_from(buf, i), cols) == cut.lines);
}

/// Byte offset from which the last `max_lines` rendered rows of `buf` begin,
/// on a terminal `cols` columns wide.
pub fn buf_trim(buf: &[u8], cols: u16, max_lines: u32) -> (index: usize)
    ensures
        index == trim_index(buf@, cols as nat, max_lines as nat),
        index <= buf@.len(),
{
    let mut lines: u32 = 0;
    let mut col: u128 = 0;
    let mut i: usize = buf.len();
    let ghost end = scan_run(buf@, cols as nat, max_lines as nat, scan_start(buf@));
    while i > 0 && lines < max_lines
        invariant
            i <= buf@.len(),
            lines <= max_lines,
            col <= 3 * (buf@.len() - i),
            scan_run(
                buf@,
                cols as nat,
                max_lines as nat,
                Scan { pos: i as int, lines: lines as nat, col: col as nat },
            ) == end,
        decreases i,
    {
        let ghost before = Scan { pos: i as int, lines: lines as nat, col: col as nat };
        proof {
            lemma_scan_step(buf@, cols as nat, before);
        }
        i -= 1;
        let b = buf[i];
        if b == 0x0a {
            lines += 1;
            col = 0;
        } else if 0x20 <= b && b <= 0x7e {
            col += 1;
            if col == cols as u128 {
                lines += 1;
                col = 0;
            }
        } else if b >= 0x80 {
            let mut start: usize = i;
            while start > 0 && 0x80 <= buf[start] && buf[start] <= 0xbf
                invariant
                    start <= i < buf@.len(),
                    sequence_start(buf@, start as int) == sequence_start(buf@, i as int),
                decreases start,
            {
                start -= 1;
            }
            let width = measure_glyph(slice_subrange(buf, start, i + 1));
            col += width as u128;
            if col >= cols as u128 {
                lines += 1;
                col = col - cols as u128;
            }
            i = start;
        } else if b == 0x1b {
            match memchr::memrchr(0x6d, slice_subrange(buf, 0, i + 1)) {
                Some(m) => {
                    i = if m == 0 { 0 } else { m - 1 };
                },
                None => {},
            }
        }
        assert(Scan { pos: i as int, lines: lines as nat, col: col as nat } == scan_step(
            buf@,
            cols as nat,
            before,
        ));
    }
    i
}

} // verus!
