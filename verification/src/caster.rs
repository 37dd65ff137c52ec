//! The cast recorder: one owner of the cast stream and of the buffers
//! behind it. Input and resize events are written at once; output is
//! gathered and written, trimmed to the last screenful, on every disk tick;
//! on every side-channel tick what was written since is compressed and
//! reported.

use crate::bytes::{le_bytes, push_le};
use crate::cast::{
    encode_evt, encoding, encoding_of_all, lemma_parse_cast_of_stream, parse_cast,
    size_bytes, EventKind, Evt, RawEvt,
};
use crate::codec::{
    base64_encode, base64_fits, base64_text, outcome_view, zstd_compress, zstd_outcome,
};
use crate::frame::{Frame, FrameView};
use crate::trim::{buf_trim, tail_from, trim_index};
use vstd::prelude::*;
use vstd::slice::{slice_subrange, slice_to_vec};
use vstd::string::StringExecFns;

verus! {

/// Rows kept before the visible screen when output is trimmed.
pub const CONTEXT_ROWS: u32 = 20;

/// Compression level of the side channel.
pub const SIDE_CHANNEL_LEVEL: i32 = 3;

/// Milliseconds between two disk ticks.
pub const DISK_FLUSH_MILLIS: u64 = 10;

/// Least number of seconds between two side-channel ticks.
pub const MIN_VERBOSE_INTERVAL: u32 = 10;

/// Greatest number of seconds between two side-channel ticks.
pub const MAX_VERBOSE_INTERVAL: u32 = 3600;

/// Name of the heartbeat log within the log directory.
pub open spec fn heartbeat_log() -> Seq<char> {
    "heartbeat.log"@
}

/// The character that stands for a digit below ten.
pub open spec fn digit(d: nat) -> char {
    "0123456789"@[d as int]
}

/// The decimal numeral of `n`, without leading zeros.
pub open spec fn decimal(n: nat) -> Seq<char>
    decreases n,
{
    if n < 10 {
        seq![digit(n)]
    } else {
        decimal(n / 10).push(digit(n % 10))
    }
}

/// Name of the cast file, within the log directory, of the session that
/// began at `timestamp`.
pub open spec fn cast_file(timestamp: u128) -> Seq<char> {
    decimal(timestamp as nat) + ".cast"@
}

fn digit_text(d: u128) -> (text: &'static str)
    requires
        d < 10,
    ensures
        text@ == seq![digit(d as nat)],
{
    proof {
        reveal_strlit("0123456789");
        reveal_strlit("0");
        reveal_strlit("1");
        reveal_strlit("2");
        reveal_strlit("3");
        reveal_strlit("4");
        reveal_strlit("5");
        reveal_strlit("6");
        reveal_strlit("7");
        reveal_strlit("8");
        reveal_strlit("9");
    }
    let text = if d == 0 {
        "0"
    } else if d == 1 {
        "1"
    } else if d == 2 {
        "2"
    } else if d == 3 {
        "3"
    } else if d == 4 {
        "4"
    } else if d == 5 {
        "5"
    } else if d == 6 {
        "6"
    } else if d == 7 {
        "7"
    } else if d == 8 {
        "8"
    } else {
        "9"
    };
    assert(text@ =~= seq![digit(d as nat)]);
    text
}

/// The decimal numeral of `n`.
pub fn decimal_text(n: u128) -> (text: String)
    ensures
        text@ == decimal(n as nat),
    decreases n,
{
    if n < 10 {
        String::from_str(digit_text(n))
    } else {
        let text = decimal_text(n / 10).concat(digit_text(n % 10));
        assert(text@ =~= decimal(n as nat));
        text
    }
}

/// Name of the cast file, within the log directory, of the session that
/// began at `timestamp`.
pub fn cast_file_name(timestamp: u128) -> (name: String)
    ensures
        name@ == cast_file(timestamp),
{
    decimal_text(timestamp).concat(".cast")
}

/// How a session is recorded at a log level: not at all at level 0, to the
/// cast stream alone at level 1, to the cast stream and the side channel at
/// level 2. `None` where it is not recorded, else whether the side channel
/// is fed.
pub open spec fn recording_at(log_level: u8) -> Option<bool> {
    if log_level == 0 {
        None
    } else {
        Some(log_level == 2)
    }
}

/// How a session is recorded at `log_level`: `None` where it is not, else
/// whether the side channel is fed.
pub fn recording_mode(log_level: u8) -> (mode: Option<bool>)
    ensures
        mode == recording_at(log_level),
{
    if log_level == 0 {
        None
    } else {
        Some(log_level == 2)
    }
}

/// Whether `seconds` can be the time between two side-channel ticks.
pub fn valid_verbose_interval(seconds: u32) -> (ok: bool)
    ensures
        ok == (MIN_VERBOSE_INTERVAL <= seconds <= MAX_VERBOSE_INTERVAL),
{
    MIN_VERBOSE_INTERVAL <= seconds && seconds <= MAX_VERBOSE_INTERVAL
}

/// Name of the heartbeat log within the log directory.
pub fn heartbeat_log_name() -> (name: String)
    ensures
        name@ == heartbeat_log(),
{
    String::from_str("heartbeat.log")
}

/// The recorder as a mathematical value.
#[verifier::ext_equal]
pub struct CasterState {
    /// Milliseconds since the epoch at which the session began.
    pub timestamp: u128,
    /// Whether the side channel is fed.
    pub verbose: bool,
    /// Rows of the window as last recorded.
    pub rows: u16,
    /// Columns of the window as last recorded.
    pub cols: u16,
    /// Output gathered since the last disk tick.
    pub pending: Seq<u8>,
    /// Bytes gathered for the side channel since its last flush.
    pub side: Seq<u8>,
}

/// The header of a cast stream: the session's timestamp in 16 bytes.
pub open spec fn header_bytes(timestamp: u128) -> Seq<u8> {
    le_bytes(timestamp as nat, 16)
}

/// The recorder at the start of a session.
pub open spec fn initial(timestamp: u128, verbose: bool, rows: u16, cols: u16) -> CasterState {
    CasterState {
        timestamp,
        verbose,
        rows,
        cols,
        pending: Seq::empty(),
        side: if verbose {
            header_bytes(timestamp)
        } else {
            Seq::empty()
        },
    }
}

/// The side channel's buffer after `bytes` were written to the cast stream:
/// they are added where the side channel is fed, and dropped where it is not.
pub open spec fn fed(st: CasterState, bytes: Seq<u8>) -> Seq<u8> {
    if st.verbose {
        st.side + bytes
    } else {
        st.side
    }
}

/// The bytes that an event puts in the cast stream when it is posted.
pub open spec fn written_on_event(e: Evt) -> Seq<u8> {
    if e.kind == EventKind::Output {
        Seq::empty()
    } else {
        encoding(e)
    }
}

/// The recorder after an event was posted.
pub open spec fn after_event(st: CasterState, e: Evt) -> CasterState {
    match e.kind {
        EventKind::Input => st,
        EventKind::Output => CasterState { pending: st.pending + e.payload, ..st },
        EventKind::Resize => CasterState {
            rows: e.rows(),
            cols: e.cols(),
            side: fed(st, encoding(e)),
            ..st
        },
    }
}

/// The part of the gathered output that a disk tick keeps: the last screen
/// and the rows of context before it.
pub open spec fn kept_output(st: CasterState) -> Seq<u8> {
    tail_from(
        st.pending,
        trim_index(st.pending, st.cols as nat, (st.rows + CONTEXT_ROWS) as nat),
    )
}

/// The single output event that a disk tick at `elapsed` makes of the
/// gathered output.
pub open spec fn flushed_event(st: CasterState, elapsed: u32) -> Evt {
    Evt { elapsed, kind: EventKind::Output, payload: kept_output(st) }
}

/// The bytes that a disk tick puts in the cast stream.
pub open spec fn written_on_disk_tick(st: CasterState, elapsed: u32) -> Seq<u8> {
    if st.pending.len() == 0 {
        Seq::empty()
    } else {
        encoding(flushed_event(st, elapsed))
    }
}

/// The recorder after a disk tick.
pub open spec fn after_disk_tick(st: CasterState, elapsed: u32) -> CasterState {
    if st.pending.len() == 0 {
        st
    } else {
        CasterState {
            pending: Seq::empty(),
            side: fed(st, encoding(flushed_event(st, elapsed))),
            ..st
        }
    }
}

/// True where a side-channel tick has something to report.
pub open spec fn side_channel_due(st: CasterState) -> bool {
    st.verbose && st.side.len() > 0
}

/// The message that reports why the side channel could not be flushed.
pub open spec fn encoding_failure(reason: Seq<char>) -> Seq<char> {
    "Error encoding cast data: "@ + reason
}

/// The reason given where the compressed data is too long to be put in text.
pub open spec fn oversize() -> Seq<char> {
    "compressed data too long"@
}

/// True where compressing gave data that can be reported.
pub open spec fn side_channel_flushed(compressed: Result<Seq<u8>, Seq<char>>) -> bool {
    compressed matches Ok(frame) && base64_fits(frame.len())
}

/// The frame that ends a side-channel tick that was due, given what
/// compressing the buffer gave.
pub open spec fn side_channel_frame(
    st: CasterState,
    compressed: Result<Seq<u8>, Seq<char>>,
) -> FrameView {
    match compressed {
        Ok(frame) => if base64_fits(frame.len()) {
            FrameView::Cast { timestamp: st.timestamp, data: base64_text(frame) }
        } else {
            FrameView::Error(encoding_failure(oversize()))
        },
        Err(reason) => FrameView::Error(encoding_failure(reason)),
    }
}

/// The recorder after a side-channel tick that was due: the buffer is
/// emptied where it could be reported, and kept for the next tick where not.
pub open spec fn after_side_channel(
    st: CasterState,
    compressed: Result<Seq<u8>, Seq<char>>,
) -> CasterState {
    if side_channel_flushed(compressed) {
        CasterState { side: Seq::empty(), ..st }
    } else {
        st
    }
}

/// What happens to a recorder in the course of a session.
pub enum Step {
    /// An event is posted.
    Post(Evt),
    /// The disk ticker fires at the given elapsed time.
    DiskTick(u32),
    /// The side-channel ticker fires, and compressing gives this.
    SideChannelTick(Result<Seq<u8>, Seq<char>>),
}

/// The recorder after one step.
pub open spec fn after_step(st: CasterState, step: Step) -> CasterState {
    match step {
        Step::Post(e) => after_event(st, e),
        Step::DiskTick(elapsed) => after_disk_tick(st, elapsed),
        Step::SideChannelTick(compressed) => if side_channel_due(st) {
            after_side_channel(st, compressed)
        } else {
            st
        },
    }
}

/// The bytes that one step puts in the cast stream.
pub open spec fn written_in_step(st: CasterState, step: Step) -> Seq<u8> {
    match step {
        Step::Post(e) => written_on_event(e),
        Step::DiskTick(elapsed) => written_on_disk_tick(st, elapsed),
        Step::SideChannelTick(_) => Seq::empty(),
    }
}

/// The events that one step is to leave in the cast stream: a posted input
/// or resize event itself; for a disk tick with output gathered, one output
/// event that holds the kept part; nothing else.
pub open spec fn recorded_in_step(st: CasterState, step: Step) -> Seq<Evt> {
    match step {
        Step::Post(e) => if e.kind == EventKind::Output {
            Seq::empty()
        } else {
            seq![e]
        },
        Step::DiskTick(elapsed) => if st.pending.len() == 0 {
            Seq::empty()
        } else {
            seq![flushed_event(st, elapsed)]
        },
        Step::SideChannelTick(_) => Seq::empty(),
    }
}

/// The recorder after all of `steps`, in order, from `st`.
pub open spec fn after_steps(st: CasterState, steps: Seq<Step>) -> CasterState
    decreases steps.len(),
{
    if steps.len() == 0 {
        st
    } else {
        after_step(after_steps(st, steps.drop_last()), steps.last())
    }
}

/// All that `steps`, in order, from `st`, put in the cast stream.
pub open spec fn written_in_steps(st: CasterState, steps: Seq<Step>) -> Seq<u8>
    decreases steps.len(),
{
    if steps.len() == 0 {
        Seq::empty()
    } else {
        written_in_steps(st, steps.drop_last()) + written_in_step(
            after_steps(st, steps.drop_last()),
            steps.last(),
        )
    }
}

/// The events that `steps`, in order, from `st`, are to leave in the cast
/// stream.
pub open spec fn recorded_in_steps(st: CasterState, steps: Seq<Step>) -> Seq<Evt>
    decreases steps.len(),
{
    if steps.len() == 0 {
        Seq::empty()
    } else {
        recorded_in_steps(st, steps.drop_last()) + recorded_in_step(
            after_steps(st, steps.drop_last()),
            steps.last(),
        )
    }
}

/// True where every event posted in `steps` is well-formed.
pub open spec fn posts_well_formed(steps: Seq<Step>) -> bool {
    forall|i: int|
        0 <= i < steps.len() ==> ((#[trigger] steps[i]) matches Step::Post(e) ==> e.wf())
}

/// What the steps of a session put in the cast stream is the encoding of the
/// events they are to leave there, each of which is well-formed.
pub proof fn lemma_written_is_encoding(st: CasterState, steps: Seq<Step>)
    requires
        posts_well_formed(steps),
    ensures
        written_in_steps(st, steps) == encoding_of_all(recorded_in_steps(st, steps)),
        forall|i: int|
            0 <= i < recorded_in_steps(st, steps).len() ==> (#[trigger] recorded_in_steps(
                st,
                steps,
            )[i]).wf(),
    decreases steps.len(),
{
    if steps.len() > 0 {
        let before = steps.drop_last();
        let step = steps.last();
        assert(posts_well_formed(before)) by {
            assert forall|i: int| 0 <= i < before.len() implies ((#[trigger] before[i]) matches Step::Post(
                e,
            ) ==> e.wf()) by {
                assert(before[i] == steps[i]);
            }
        }
        lemma_written_is_encoding(st, before);
        let events = recorded_in_steps(st, before);
        let more = recorded_in_step(after_steps(st, before), step);
        if more.len() == 0 {
            assert(events + more =~= events);
            assert(written_in_steps(st, steps) =~= written_in_steps(st, before));
        } else {
            assert(events + more =~= events.push(more[0]));
            assert(events.push(more[0]).drop_last() =~= events);
        }
    }
}

/// Decoding the cast stream of a session gives back, in order, every input
/// and resize event that was posted and, for every disk tick before which
/// output was gathered, one output event that holds the kept part of it.
pub proof fn lemma_cast_stream_decodes(
    timestamp: u128,
    verbose: bool,
    rows: u16,
    cols: u16,
    steps: Seq<Step>,
)
    requires
        posts_well_formed(steps),
    ensures
        ({
            let start = initial(timestamp, verbose, rows, cols);
            parse_cast(header_bytes(timestamp) + written_in_steps(start, steps)) == Some(
                (timestamp, recorded_in_steps(start, steps)),
            )
        }),
{
    let start = initial(timestamp, verbose, rows, cols);
    lemma_written_is_encoding(start, steps);
    lemma_parse_cast_of_stream(timestamp, recorded_in_steps(start, steps));
}

/// Owner of a recording's buffers.
#[derive(Debug)]
pub struct Caster {
    timestamp: u128,
    verbose: bool,
    rows: u16,
    cols: u16,
    pending: Vec<u8>,
    side: Vec<u8>,
}

impl View for Caster {
    type V = CasterState;

    closed spec fn view(&self) -> CasterState {
        CasterState {
            timestamp: self.timestamp,
            verbose: self.verbose,
            rows: self.rows,
            cols: self.cols,
            pending: self.pending@,
            side: self.side@,
        }
    }
}

impl Caster {
    /// A recorder for the session that began at `timestamp` (milliseconds
    /// since the epoch) in a window of `stty_size` rows and columns. With
    /// `verbose_log` the side channel is fed, starting with the header.
    pub fn new(timestamp: u128, verbose_log: bool, stty_size: (u16, u16)) -> (caster: Self)
        ensures
            caster@ == initial(timestamp, verbose_log, stty_size.0, stty_size.1),
    {
        let mut side: Vec<u8> = Vec::new();
        if verbose_log {
            push_le(&mut side, timestamp, 16);
        }
        let caster = Caster {
            timestamp,
            verbose: verbose_log,
            rows: stty_size.0,
            cols: stty_size.1,
            pending: Vec::new(),
            side,
        };
        assert(caster@.side =~= initial(timestamp, verbose_log, stty_size.0, stty_size.1).side);
        caster
    }

    /// The header with which the cast stream begins.
    pub fn header(&self) -> (bytes: Vec<u8>)
        ensures
            bytes@ == header_bytes(self@.timestamp),
    {
        let mut bytes: Vec<u8> = Vec::with_capacity(16);
        push_le(&mut bytes, self.timestamp, 16);
        assert(bytes@ =~= header_bytes(self@.timestamp));
        bytes
    }

    /// Takes in one posted event and returns what is written to the cast
    /// stream at once: the encoded event for input and resize, nothing for
    /// output, which is gathered until the next disk tick. A resize also sets
    /// the window by which output is trimmed.
    pub fn record(&mut self, evt: RawEvt) -> (written: Vec<u8>)
        ensures
            final(self)@ == after_event(old(self)@, evt@),
            written@ == written_on_event(evt@),
    {
        let written = match evt.kind() {
            EventKind::Input => encode_evt(&evt),
            EventKind::Output => {
                self.pending.extend_from_slice(evt.payload());
                Vec::new()
            },
            EventKind::Resize => {
                let bytes = encode_evt(&evt);
                match evt.size() {
                    Some((rows, cols)) => {
                        self.rows = rows;
                        self.cols = cols;
                    },
                    None => {},
                }
                if self.verbose {
                    self.side.extend_from_slice(bytes.as_slice());
                }
                bytes
            },
        };
        assert(self@ =~= after_event(old(self)@, evt@));
        written
    }

    /// Records keystrokes `bytes` sent at `elapsed`; returns their event,
    /// encoded, to be written at once.
    pub fn input(&mut self, elapsed: u32, bytes: Vec<u8>) -> (written: Vec<u8>)
        ensures
            final(self)@ == old(self)@,
            written@ == encoding(Evt { elapsed, kind: EventKind::Input, payload: bytes@ }),
    {
        self.record(RawEvt::input(elapsed, bytes))
    }

    /// Gathers terminal output `bytes` for the next disk tick.
    pub fn output(&mut self, elapsed: u32, bytes: Vec<u8>)
        ensures
            final(self)@ == (CasterState { pending: old(self)@.pending + bytes@, ..old(self)@ }),
    {
        let _ = self.record(RawEvt::output(elapsed, bytes));
    }

    /// Records a change of the window to `rows` by `cols` at `elapsed`;
    /// returns its event, encoded, to be written at once.
    pub fn resize(&mut self, elapsed: u32, rows: u16, cols: u16) -> (written: Vec<u8>)
        ensures
            written@ == encoding(
                Evt { elapsed, kind: EventKind::Resize, payload: size_bytes(rows, cols) },
            ),
            final(self)@ == (CasterState {
                rows,
                cols,
                side: fed(old(self)@, written@),
                ..old(self)@
            }),
    {
        self.record(RawEvt::resize(elapsed, rows, cols))
    }

    /// The four bytes written to the heartbeat log for a heartbeat at
    /// `ts_sec` seconds since the epoch.
    pub fn heartbeat(&self, ts_sec: u32) -> (written: Vec<u8>)
        ensures
            written@ == le_bytes(ts_sec as nat, 4),
    {
        let mut written: Vec<u8> = Vec::with_capacity(4);
        push_le(&mut written, ts_sec as u128, 4);
        assert(written@ =~= le_bytes(ts_sec as nat, 4));
        written
    }

    /// A disk tick at `elapsed`. Where output was gathered, it is trimmed to
    /// the last screen and its rows of context, put in one output event and
    /// returned encoded, to be written to the cast stream; the gathered
    /// output is dropped. Where none was gathered, nothing happens.
    pub fn flush_disk(&mut self, elapsed: u32) -> (written: Option<Vec<u8>>)
        ensures
            final(self)@ == after_disk_tick(old(self)@, elapsed),
            written is Some <==> old(self)@.pending.len() > 0,
            written matches Some(bytes) ==> bytes@ == written_on_disk_tick(old(self)@, elapsed),
    {
        let len = self.pending.len();
        if len == 0 {
            return None;
        }
        let index = buf_trim(self.pending.as_slice(), self.cols, self.rows as u32 + CONTEXT_ROWS);
        let kept = slice_to_vec(slice_subrange(self.pending.as_slice(), index, len));
        let bytes = encode_evt(&RawEvt::output(elapsed, kept));
        if self.verbose {
            self.side.extend_from_slice(bytes.as_slice());
        }
        self.pending.clear();
        assert(self@ =~= after_disk_tick(old(self)@, elapsed));
        Some(bytes)
    }

    /// Ends a side-channel tick that was due, given what compressing the
    /// buffer gave. Compressed data is reported as text in a `cast` frame and
    /// the buffer is emptied. A failure is reported in an `error` frame and
    /// the buffer is kept for the next tick.
    pub fn finish_side_channel(&mut self, compressed: Result<Vec<u8>, String>) -> (frame: Frame)
        ensures
            frame@ == side_channel_frame(old(self)@, outcome_view(compressed)),
            final(self)@ == after_side_channel(old(self)@, outcome_view(compressed)),
    {
        match compressed {
            Ok(data) => {
                if data.len() / 3 <= (usize::MAX - 4) / 4 {
                    let text = base64_encode(data.as_slice());
                    self.side.clear();
                    assert(self@ =~= after_side_channel(old(self)@, outcome_view(compressed)));
                    Frame::Cast { timestamp: self.timestamp, data: text }
                } else {
                    Frame::Error(
                        String::from_str("Error encoding cast data: ").concat(
                            "compressed data too long",
                        ),
                    )
                }
            },
            Err(reason) => Frame::Error(
                String::from_str("Error encoding cast data: ").concat(reason.as_str()),
            ),
        }
    }

    /// A side-channel tick. Where the side channel is fed and bytes were
    /// gathered for it, they are compressed and the outcome is reported in a
    /// frame: the compressed bytes as text, with the buffer emptied, or the
    /// failure, with the buffer kept. Otherwise nothing happens.
    pub fn flush_side_channel(&mut self) -> (frame: Option<Frame>)
        ensures
            frame is Some <==> side_channel_due(old(self)@),
            frame is None ==> final(self)@ == old(self)@,
            frame matches Some(f) ==> f@ == side_channel_frame(
                old(self)@,
                zstd_outcome(old(self)@.side, SIDE_CHANNEL_LEVEL as int),
            ) && final(self)@ == after_side_channel(
                old(self)@,
                zstd_outcome(old(self)@.side, SIDE_CHANNEL_LEVEL as int),
            ),
    {
        if !self.verbose || self.side.len() == 0 {
            return None;
        }
        let compressed = zstd_compress(self.side.as_slice(), SIDE_CHANNEL_LEVEL);
        Some(self.finish_side_channel(compressed))
    }
}

} // verus!
