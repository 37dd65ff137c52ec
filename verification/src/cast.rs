//! The binary cast stream: a 16-byte header followed by events.
//!
//! Every event starts with four bytes of elapsed time (the bits of an
//! IEEE-754 single, little-endian) and one byte of kind. Input and output
//! events go on with the payload's length as a variable-length integer and
//! the payload itself; a resize event goes on with its four payload bytes,
//! rows then columns, both little-endian.

use crate::bytes::{
    le_bytes, le_value, lemma_le_bytes_len, lemma_le_roundtrip, lemma_le_value_roundtrip,
    lemma_span_values, push_le, read_le,
};
use crate::trim::tail_from;
use crate::varint::{
    decode_varint, encode_varint, lemma_parse_varint_is_encoding, lemma_parse_varint_of_encoding,
    lemma_varint_len, parse_varint, varint,
};
use vstd::prelude::*;
use vstd::slice::{slice_subrange, slice_to_vec};

verus! {

/// What an event records.
#[derive(Clone, Copy, Debug, PartialEq, Eq, Structural)]
pub enum EventKind {
    Input,
    Output,
    Resize,
}

/// The byte that stands for a kind in the stream.
pub open spec fn kind_code(kind: EventKind) -> u8 {
    match kind {
        EventKind::Input => 0,
        EventKind::Output => 1,
        EventKind::Resize => 2,
    }
}

/// The kind that a byte of the stream stands for.
pub open spec fn kind_of_code(code: u8) -> Option<EventKind> {
    if code == 0 {
        Some(EventKind::Input)
    } else if code == 1 {
        Some(EventKind::Output)
    } else if code == 2 {
        Some(EventKind::Resize)
    } else {
        None
    }
}

impl EventKind {
    /// The byte that stands for this kind in the stream.
    pub fn code(self) -> (c: u8)
        ensures
            c == kind_code(self),
    {
        match self {
            EventKind::Input => 0,
            EventKind::Output => 1,
            EventKind::Resize => 2,
        }
    }

    /// The kind that `code` stands for, if any.
    pub fn from_code(code: u8) -> (kind: Option<EventKind>)
        ensures
            kind == kind_of_code(code),
    {
        if code == 0 {
            Some(EventKind::Input)
        } else if code == 1 {
            Some(EventKind::Output)
        } else if code == 2 {
            Some(EventKind::Resize)
        } else {
            None
        }
    }
}

/// An event as a mathematical value.
pub struct Evt {
    /// Seconds since the session began, as the bits of an IEEE-754 single.
    pub elapsed: u32,
    pub kind: EventKind,
    pub payload: Seq<u8>,
}

/// The four payload bytes of a resize to `rows` by `cols`.
pub open spec fn size_bytes(rows: u16, cols: u16) -> Seq<u8> {
    le_bytes(rows as nat, 2) + le_bytes(cols as nat, 2)
}

impl Evt {
    /// A resize event carries exactly four bytes.
    pub open spec fn wf(self) -> bool {
        self.kind == EventKind::Resize ==> self.payload.len() == 4
    }

    /// The rows of a resize event.
    pub open spec fn rows(self) -> u16 {
        le_value(self.payload.subrange(0, 2)) as u16
    }

    /// The columns of a resize event.
    pub open spec fn cols(self) -> u16 {
        le_value(self.payload.subrange(2, 4)) as u16
    }
}

/// The bytes of one event in the stream.
pub open spec fn encoding(e: Evt) -> Seq<u8> {
    le_bytes(e.elapsed as nat, 4) + seq![kind_code(e.kind)] + (if e.kind == EventKind::Resize {
        Seq::empty()
    } else {
        varint(e.payload.len())
    }) + e.payload
}

/// The bytes of a run of events in the stream.
pub open spec fn encoding_of_all(events: Seq<Evt>) -> Seq<u8>
    decreases events.len(),
{
    if events.len() == 0 {
        Seq::empty()
    } else {
        encoding_of_all(events.drop_last()) + encoding(events.last())
    }
}

/// The event that `s` starts with and the count of bytes it takes; `None`
/// where `s` does not start with a whole event.
pub open spec fn parse_evt(s: Seq<u8>) -> Option<(Evt, nat)> {
    if s.len() < 5 {
        None
    } else {
        let elapsed = le_value(s.subrange(0, 4)) as u32;
        match kind_of_code(s[4]) {
            None => None,
            Some(EventKind::Resize) => if s.len() < 9 {
                None
            } else {
                Some((Evt { elapsed, kind: EventKind::Resize, payload: s.subrange(5, 9) }, 9nat))
            },
            Some(kind) => match parse_varint(s.subrange(5, s.len() as int)) {
                Some((n, used)) => if 5 + used + n <= s.len() {
                    Some(
                        (
                            Evt { elapsed, kind, payload: s.subrange(5 + used as int, 5 + used as int + n as int) },
                            5 + used + n,
                        ),
                    )
                } else {
                    None
                },
                None => None,
            },
        }
    }
}

/// The events that make up `s`; `None` where `s` is not a run of whole events.
pub open spec fn parse_events(s: Seq<u8>) -> Option<Seq<Evt>>
    decreases s.len(),
{
    if s.len() == 0 {
        Some(Seq::empty())
    } else {
        match parse_evt(s) {
            Some((e, used)) => if 0 < used <= s.len() {
                match parse_events(s.subrange(used as int, s.len() as int)) {
                    Some(rest) => Some(seq![e] + rest),
                    None => None,
                }
            } else {
                None
            },
            None => None,
        }
    }
}

/// The bytes of a cast stream: the session's timestamp, then its events.
pub open spec fn cast_stream(timestamp: u128, events: Seq<Evt>) -> Seq<u8> {
    le_bytes(timestamp as nat, 16) + encoding_of_all(events)
}

/// The timestamp and events of a cast stream; `None` where `s` is none.
pub open spec fn parse_cast(s: Seq<u8>) -> Option<(u128, Seq<Evt>)> {
    if s.len() < 16 {
        None
    } else {
        match parse_events(s.subrange(16, s.len() as int)) {
            Some(events) => Some((le_value(s.subrange(0, 16)) as u128, events)),
            None => None,
        }
    }
}

/// Decoding what was encoded gives the event back, whatever follows it.
pub proof fn lemma_parse_evt_of_encoding(e: Evt, rest: Seq<u8>)
    requires
        e.wf(),
    ensures
        parse_evt(encoding(e) + rest) == Some((e, encoding(e).len())),
        encoding(e).len() >= 5,
{
    let s = encoding(e) + rest;
    let head = le_bytes(e.elapsed as nat, 4);
    lemma_le_bytes_len(e.elapsed as nat, 4);
    lemma_span_values();
    lemma_le_roundtrip(e.elapsed as nat, 4);
    assert(s.subrange(0, 4) =~= head);
    assert(s[4] == kind_code(e.kind));
    if e.kind == EventKind::Resize {
        assert(s.subrange(5, 9) =~= e.payload);
    } else {
        let n = e.payload.len();
        lemma_varint_len(n);
        lemma_parse_varint_of_encoding(n, e.payload + rest);
        assert(s.subrange(5, s.len() as int) =~= varint(n) + (e.payload + rest));
        let used = varint(n).len();
        assert(s.subrange(5 + used as int, 5 + used as int + n as int) =~= e.payload);
    }
}

/// What decodes as an event is the encoding of that event, and the event is
/// well-formed.
pub proof fn lemma_parse_evt_is_encoding(s: Seq<u8>)
    ensures
        parse_evt(s) matches Some((e, used)) ==> e.wf() && 5 <= used <= s.len() && s.subrange(
            0,
            used as int,
        ) == encoding(e),
{
    match parse_evt(s) {
        Some((e, used)) => {
            lemma_le_value_roundtrip(s.subrange(0, 4));
            lemma_span_values();
            if e.kind == EventKind::Resize {
                assert(s.subrange(0, 9) =~= encoding(e));
            } else {
                let body = s.subrange(5, s.len() as int);
                lemma_parse_varint_is_encoding(body);
                let n = e.payload.len();
                let taken = (used - 5 - n) as nat;
                assert(body.subrange(0, taken as int) =~= s.subrange(5, 5 + taken as int));
                assert(s.subrange(0, used as int) =~= encoding(e));
            }
        },
        None => {},
    }
}

/// The encoding of a run of events, with one more event in front.
pub proof fn lemma_encoding_of_all_front(first: Evt, rest: Seq<Evt>)
    ensures
        encoding_of_all(seq![first] + rest) == encoding(first) + encoding_of_all(rest),
    decreases rest.len(),
{
    let all = seq![first] + rest;
    if rest.len() == 0 {
        reveal_with_fuel(encoding_of_all, 2);
        assert(all.drop_last() =~= Seq::<Evt>::empty());
        assert(all.last() == first);
        assert(encoding_of_all(all) =~= encoding(first) + encoding_of_all(rest));
    } else {
        assert(all.drop_last() =~= seq![first] + rest.drop_last());
        assert(all.last() == rest.last());
        lemma_encoding_of_all_front(first, rest.drop_last());
        assert(encoding_of_all(all) =~= encoding(first) + encoding_of_all(rest));
    }
}

/// Decoding the encoding of a run of well-formed events gives the run back.
pub proof fn lemma_parse_events_of_encoding(events: Seq<Evt>)
    requires
        forall|i: int| 0 <= i < events.len() ==> (#[trigger] events[i]).wf(),
    ensures
        parse_events(encoding_of_all(events)) == Some(events),
    decreases events.len(),
{
    if events.len() > 0 {
        let first = events[0];
        let rest = events.drop_first();
        assert(events =~= seq![first] + rest);
        lemma_encoding_of_all_front(first, rest);
        lemma_parse_evt_of_encoding(first, encoding_of_all(rest));
        let s = encoding_of_all(events);
        let used = encoding(first).len();
        assert(s.subrange(used as int, s.len() as int) =~= encoding_of_all(rest));
        assert forall|i: int| 0 <= i < rest.len() implies (#[trigger] rest[i]).wf() by {
            assert(rest[i] == events[i + 1]);
        }
        lemma_parse_events_of_encoding(rest);
    }
}

/// Decoding a cast stream gives back the timestamp and the events it was
/// made of.
pub proof fn lemma_parse_cast_of_stream(timestamp: u128, events: Seq<Evt>)
    requires
        forall|i: int| 0 <= i < events.len() ==> (#[trigger] events[i]).wf(),
    ensures
        parse_cast(cast_stream(timestamp, events)) == Some((timestamp, events)),
{
    let s = cast_stream(timestamp, events);
    lemma_le_bytes_len(timestamp as nat, 16);
    lemma_span_values();
    lemma_le_roundtrip(timestamp as nat, 16);
    assert(s.subrange(0, 16) =~= le_bytes(timestamp as nat, 16));
    assert(s.subrange(16, s.len() as int) =~= encoding_of_all(events));
    lemma_parse_events_of_encoding(events);
}

/// One event of a recording.
#[derive(Debug)]
pub struct RawEvt {
    elapsed: u32,
    kind: EventKind,
    payload: Vec<u8>,
}

impl View for RawEvt {
    type V = Evt;

    closed spec fn view(&self) -> Evt {
        Evt { elapsed: self.elapsed, kind: self.kind, payload: self.payload@ }
    }
}

impl RawEvt {
    #[verifier::type_invariant]
    spec fn well_formed(&self) -> bool {
        self.kind == EventKind::Resize ==> self.payload@.len() == 4
    }

    /// Keystrokes `bytes` sent at `elapsed`.
    pub fn input(elapsed: u32, bytes: Vec<u8>) -> (e: Self)
        ensures
            e@ == (Evt { elapsed, kind: EventKind::Input, payload: bytes@ }),
    {
        RawEvt { elapsed, kind: EventKind::Input, payload: bytes }
    }

    /// Terminal output `bytes` seen at `elapsed`.
    pub fn output(elapsed: u32, bytes: Vec<u8>) -> (e: Self)
        ensures
            e@ == (Evt { elapsed, kind: EventKind::Output, payload: bytes@ }),
    {
        RawEvt { elapsed, kind: EventKind::Output, payload: bytes }
    }

    /// A change of the window to `rows` by `cols` at `elapsed`.
    pub fn resize(elapsed: u32, rows: u16, cols: u16) -> (e: Self)
        ensures
            e@ == (Evt { elapsed, kind: EventKind::Resize, payload: size_bytes(rows, cols) }),
            e@.wf(),
            e@.rows() == rows,
            e@.cols() == cols,
    {
        let mut p: Vec<u8> = Vec::with_capacity(4);
        push_le(&mut p, rows as u128, 2);
        push_le(&mut p, cols as u128, 2);
        proof {
            lemma_le_bytes_len(rows as nat, 2);
            lemma_le_bytes_len(cols as nat, 2);
            lemma_span_values();
            lemma_le_roundtrip(rows as nat, 2);
            lemma_le_roundtrip(cols as nat, 2);
            assert(p@ =~= size_bytes(rows, cols));
            assert(p@.subrange(0, 2) =~= le_bytes(rows as nat, 2));
            assert(p@.subrange(2, 4) =~= le_bytes(cols as nat, 2));
        }
        RawEvt { elapsed, kind: EventKind::Resize, payload: p }
    }

    /// Seconds since the session began, as the bits of an IEEE-754 single.
    pub fn elapsed(&self) -> (bits: u32)
        ensures
            bits == self@.elapsed,
    {
        self.elapsed
    }

    /// What this event records.
    pub fn kind(&self) -> (kind: EventKind)
        ensures
            kind == self@.kind,
            self@.wf(),
    {
        proof {
            use_type_invariant(self);
        }
        self.kind
    }

    /// The bytes this event carries.
    pub fn payload(&self) -> (bytes: &[u8])
        ensures
            bytes@ == self@.payload,
    {
        self.payload.as_slice()
    }

    /// Rows and columns of a resize event; `None` for the other kinds.
    pub fn size(&self) -> (r: Option<(u16, u16)>)
        ensures
            r == if self@.kind == EventKind::Resize {
                Some((self@.rows(), self@.cols()))
            } else {
                None
            },
    {
        proof {
            use_type_invariant(self);
        }
        match self.kind {
            EventKind::Resize => {
                proof {
                    lemma_le_value_roundtrip(self.payload@.subrange(0, 2));
                    lemma_le_value_roundtrip(self.payload@.subrange(2, 4));
                    lemma_span_values();
                }
                let rows = read_le(self.payload.as_slice(), 0, 2) as u16;
                let cols = read_le(self.payload.as_slice(), 2, 2) as u16;
                Some((rows, cols))
            },
            _ => None,
        }
    }
}

/// The bytes of `e` in the cast stream. Decoding them gives `e` back.
pub fn encode_evt(e: &RawEvt) -> (v: Vec<u8>)
    ensures
        v@ == encoding(e@),
        parse_evt(v@) == Some((e@, v@.len())),
{
    proof {
        use_type_invariant(e);
        lemma_parse_evt_of_encoding(e@, Seq::empty());
        assert(encoding(e@) + Seq::<u8>::empty() =~= encoding(e@));
    }
    let mut v: Vec<u8> = Vec::new();
    push_le(&mut v, e.elapsed as u128, 4);
    v.push(e.kind.code());
    match e.kind {
        EventKind::Input | EventKind::Output => {
            let prefix = encode_varint(e.payload.len() as u64);
            v.extend_from_slice(prefix.as_slice());
        },
        EventKind::Resize => {},
    }
    v.extend_from_slice(e.payload.as_slice());
    assert(v@ =~= encoding(e@));
    v
}

/// The views of a run of events.
pub open spec fn views(events: Seq<RawEvt>) -> Seq<Evt> {
    events.map_values(|e: RawEvt| e@)
}

/// Reads the event that starts at `at` in `bytes`: the event and the index
/// just behind it.
fn decode_evt_at(bytes: &[u8], at: usize) -> (r: Option<(RawEvt, usize)>)
    requires
        at <= bytes@.len(),
    ensures
        match r {
            Some((e, next)) => at + 5 <= next <= bytes@.len() && parse_evt(tail_from(bytes@, at as int))
                == Some((e@, (next - at) as nat)),
            None => parse_evt(tail_from(bytes@, at as int)) is None,
        },
{
    let len = bytes.len();
    let ghost s = tail_from(bytes@, at as int);
    if len - at < 5 {
        return None;
    }
    proof {
        assert(s.subrange(0, 4) =~= bytes@.subrange(at as int, at + 4));
        lemma_le_value_roundtrip(s.subrange(0, 4));
        lemma_span_values();
        assert(s.subrange(5, s.len() as int) =~= tail_from(bytes@, at + 5));
    }
    let elapsed = read_le(bytes, at, 4) as u32;
    let kind = match EventKind::from_code(bytes[at + 4]) {
        Some(kind) => kind,
        None => {
            return None;
        },
    };
    match kind {
        EventKind::Resize => {
            if len - at < 9 {
                return None;
            }
            let payload = slice_to_vec(slice_subrange(bytes, at + 5, at + 9));
            assert(payload@ =~= s.subrange(5, 9));
            Some((RawEvt { elapsed, kind, payload }, at + 9))
        },
        _ => {
            proof {
                lemma_parse_varint_is_encoding(tail_from(bytes@, at + 5));
            }
            match decode_varint(bytes, at + 5, u64::MAX) {
                Some((n, start)) => {
                    if n > (len - start) as u64 {
                        return None;
                    }
                    let end = start + n as usize;
                    let payload = slice_to_vec(slice_subrange(bytes, start, end));
                    assert(payload@ =~= s.subrange(start - at, end - at));
                    Some((RawEvt { elapsed, kind, payload }, end))
                },
                None => None,
            }
        },
    }
}

/// Reads the event that `bytes` starts with: the event and the count of
/// bytes it takes. `None` where `bytes` does not start with a whole event.
pub fn decode_evt(bytes: &[u8]) -> (r: Option<(RawEvt, usize)>)
    ensures
        match r {
            Some((e, used)) => parse_evt(bytes@) == Some((e@, used as nat)),
            None => parse_evt(bytes@) is None,
        },
{
    assert(tail_from(bytes@, 0) =~= bytes@);
    decode_evt_at(bytes, 0)
}

/// Reads a whole cast stream: its timestamp and its events in order. `None`
/// where `bytes` is no cast stream.
pub fn decode_cast(bytes: &[u8]) -> (r: Option<(u128, Vec<RawEvt>)>)
    ensures
        match r {
            Some((timestamp, events)) => parse_cast(bytes@) == Some((timestamp, views(events@))),
            None => parse_cast(bytes@) is None,
        },
{
    let len = bytes.len();
    if len < 16 {
        return None;
    }
    proof {
        lemma_le_value_roundtrip(bytes@.subrange(0, 16));
        lemma_span_values();
    }
    let timestamp = read_le(bytes, 0, 16);
    let mut events: Vec<RawEvt> = Vec::new();
    let mut at: usize = 16;
    let ghost whole = parse_events(tail_from(bytes@, 16));
    assert(views(events@) + Seq::<Evt>::empty() =~= Seq::<Evt>::empty());
    while at < len
        invariant
            16 <= at <= len == bytes@.len(),
            whole == parse_events(tail_from(bytes@, 16)),
            whole == match parse_events(tail_from(bytes@, at as int)) {
                Some(rest) => Some(views(events@) + rest),
                None => None,
            },
        decreases len - at,
    {
        let ghost s = tail_from(bytes@, at as int);
        match decode_evt_at(bytes, at) {
            Some((e, next)) => {
                proof {
                    assert(s.subrange(next - at, s.len() as int) =~= tail_from(bytes@, next as int));
                    match parse_events(tail_from(bytes@, next as int)) {
                        Some(rest) => {
                            assert(views(events@.push(e)) + rest =~= views(events@) + (seq![e@]
                                + rest));
                        },
                        None => {},
                    }
                }
                events.push(e);
                at = next;
            },
            None => {
                return None;
            },
        }
    }
    assert(views(events@) + Seq::<Evt>::empty() =~= views(events@));
    Some((timestamp, events))
}

} // verus!
