//! The PTY manager's state and decisions: the scrollback that every new
//! subscriber is given, the stored window size, and what the reader does with
//! each outcome of a read. Reading, writing, spawning and broadcasting are
//! the caller's part.

use crate::ring::{concat_all, keep_last, lemma_ring_holds_latest, ring_after, RingBytes};
use vstd::prelude::*;
use vstd::slice::slice_to_vec;
use vstd::string::{StringExecFns, StringSliceAdditionalSpecFns};
use vstd::utf8::encode_utf8;

verus! {

/// Most bytes asked of the PTY in one read.
pub const READ_CHUNK: usize = 4096;

/// Chunks that the broadcast holds for a subscriber that lags.
pub const BROADCAST_CAPACITY: usize = 4096;

/// The program that is run in the PTY.
pub open spec fn shell() -> Seq<char> {
    "/bin/bash"@
}

/// The environment that the shell is given on top of the server's own:
/// names and values.
pub open spec fn shell_env() -> Seq<(Seq<char>, Seq<char>)> {
    seq![
        ("LC_CTYPE"@, "C.UTF-8"@),
        ("TERM"@, "xterm-color"@),
        ("COLORTERM"@, "truecolor"@),
    ]
}

/// The views of a run of pairs of texts.
pub open spec fn pairs_view(pairs: Seq<(String, String)>) -> Seq<(Seq<char>, Seq<char>)> {
    pairs.map_values(|p: (String, String)| (p.0@, p.1@))
}

/// The program that is run in the PTY.
pub fn shell_program() -> (program: String)
    ensures
        program@ == shell(),
{
    String::from_str("/bin/bash")
}

/// The environment that the shell is given on top of the server's own.
pub fn shell_environment() -> (env: Vec<(String, String)>)
    ensures
        pairs_view(env@) == shell_env(),
{
    let mut env: Vec<(String, String)> = Vec::new();
    env.push((String::from_str("LC_CTYPE"), String::from_str("C.UTF-8")));
    env.push((String::from_str("TERM"), String::from_str("xterm-color")));
    env.push((String::from_str("COLORTERM"), String::from_str("truecolor")));
    assert(pairs_view(env@) =~= shell_env());
    env
}

/// What is shown when the shell has ended.
pub open spec fn completed_marker() -> Seq<u8> {
    "[Process completed]\r\n\r\n".spec_bytes()
}

/// What is shown when no new shell could be started, for the given reason.
pub open spec fn respawn_failed_marker(reason: Seq<char>) -> Seq<u8> {
    encode_utf8("[Respawn failed: "@ + reason + "]\r\n"@)
}

/// The manager as a mathematical value.
#[verifier::ext_equal]
pub struct PtyState {
    /// The scrollback: the latest output, oldest byte first.
    pub history: Seq<u8>,
    /// Most bytes that the scrollback holds.
    pub limit: nat,
    /// Rows of the window as stored.
    pub rows: u16,
    /// Columns of the window as stored.
    pub cols: u16,
}

/// The state after `bytes` were put out to the subscribers.
pub open spec fn published(st: PtyState, bytes: Seq<u8>) -> PtyState {
    PtyState { history: keep_last(st.history + bytes, st.limit), ..st }
}

/// What a read of the PTY gave.
#[derive(Debug)]
pub enum ReadOutcome {
    /// The bytes that were read; none at the end of the stream.
    Read(Vec<u8>),
    /// The read was interrupted.
    Interrupted,
    /// The read would have blocked.
    WouldBlock,
    /// The read failed for good.
    Failed,
}

/// What the reader does next.
#[derive(Debug)]
pub enum ReaderStep {
    /// Hand the chunk to the subscribers and read on.
    Publish(Vec<u8>),
    /// Read again.
    Retry,
    /// The shell has ended: hand the marker to the subscribers, then start a
    /// new shell in a window of `rows` by `cols`.
    Respawn { marker: Vec<u8>, rows: u16, cols: u16 },
}

/// What the reader does next, as a mathematical value.
pub enum ReaderStepView {
    Publish(Seq<u8>),
    Retry,
    Respawn { marker: Seq<u8>, rows: u16, cols: u16 },
}

impl View for ReaderStep {
    type V = ReaderStepView;

    open spec fn view(&self) -> ReaderStepView {
        match self {
            ReaderStep::Publish(chunk) => ReaderStepView::Publish(chunk@),
            ReaderStep::Retry => ReaderStepView::Retry,
            ReaderStep::Respawn { marker, rows, cols } => ReaderStepView::Respawn {
                marker: marker@,
                rows: *rows,
                cols: *cols,
            },
        }
    }
}

/// True where a read's outcome means that the shell has ended: the stream is
/// at its end, or the read failed for good.
pub open spec fn shell_ended(outcome: ReadOutcome) -> bool {
    match outcome {
        ReadOutcome::Read(chunk) => chunk@.len() == 0,
        ReadOutcome::Failed => true,
        _ => false,
    }
}

/// The bytes that go out to the subscribers after a read: the chunk that was
/// read, the marker where the shell has ended, nothing where the read is to
/// be tried again.
pub open spec fn bytes_out(outcome: ReadOutcome) -> Seq<u8> {
    match outcome {
        ReadOutcome::Read(chunk) => if chunk@.len() == 0 {
            completed_marker()
        } else {
            chunk@
        },
        ReadOutcome::Failed => completed_marker(),
        _ => Seq::empty(),
    }
}

/// The state after a read: what goes out joins the scrollback; a read that
/// is to be tried again changes nothing.
pub open spec fn after_read(st: PtyState, outcome: ReadOutcome) -> PtyState {
    if outcome is Interrupted || outcome is WouldBlock {
        st
    } else {
        published(st, bytes_out(outcome))
    }
}

/// What the reader does after a read, in the state `st`.
pub open spec fn reader_step(st: PtyState, outcome: ReadOutcome) -> ReaderStepView {
    if shell_ended(outcome) {
        ReaderStepView::Respawn { marker: completed_marker(), rows: st.rows, cols: st.cols }
    } else {
        match outcome {
            ReadOutcome::Read(chunk) => ReaderStepView::Publish(chunk@),
            _ => ReaderStepView::Retry,
        }
    }
}

/// Joining two runs of chunks joins what they hold.
pub proof fn lemma_concat_all_append(a: Seq<Seq<u8>>, b: Seq<Seq<u8>>)
    ensures
        concat_all(a + b) == concat_all(a) + concat_all(b),
    decreases b.len(),
{
    if b.len() == 0 {
        assert(a + b =~= a);
        assert(concat_all(a) + concat_all(b) =~= concat_all(a));
    } else {
        assert((a + b).drop_last() =~= a + b.drop_last());
        assert((a + b).last() == b.last());
        lemma_concat_all_append(a, b.drop_last());
        assert(concat_all(a + b) =~= concat_all(a) + concat_all(b));
    }
}

/// A subscriber that joins after the chunks `before` went out, and is then
/// handed the chunks `after`, holds in its snapshot followed by those chunks
/// the end of all output, with nothing left out behind the snapshot's first
/// byte and nothing there twice. The snapshot is all earlier output where
/// that is within the limit, and its last `limit` bytes where it is not.
pub proof fn lemma_snapshot_joins_stream(
    limit: nat,
    before: Seq<Seq<u8>>,
    after: Seq<Seq<u8>>,
)
    ensures
        ({
            let snapshot = ring_after(limit, before);
            let stream = concat_all(after);
            let whole = concat_all(before + after);
            &&& snapshot == keep_last(concat_all(before), limit)
            &&& snapshot.len() == if concat_all(before).len() <= limit {
                concat_all(before).len()
            } else {
                limit
            }
            &&& snapshot.len() + stream.len() <= whole.len()
            &&& snapshot + stream == whole.subrange(
                whole.len() - snapshot.len() - stream.len(),
                whole.len() as int,
            )
        }),
{
    lemma_ring_holds_latest(limit, before);
    lemma_concat_all_append(before, after);
    let snapshot = ring_after(limit, before);
    let stream = concat_all(after);
    let whole = concat_all(before + after);
    assert(snapshot + stream =~= whole.subrange(
        whole.len() - snapshot.len() - stream.len(),
        whole.len() as int,
    ));
}

/// What went out to the subscribers for each of a run of reads.
pub open spec fn outputs(outcomes: Seq<ReadOutcome>) -> Seq<Seq<u8>> {
    outcomes.map_values(|outcome: ReadOutcome| bytes_out(outcome))
}

/// The state after a run of reads, in order, from `st`.
pub open spec fn after_reads(st: PtyState, outcomes: Seq<ReadOutcome>) -> PtyState
    decreases outcomes.len(),
{
    if outcomes.len() == 0 {
        st
    } else {
        after_read(after_reads(st, outcomes.drop_last()), outcomes.last())
    }
}

/// The scrollback of a manager that started empty is a ring that was
/// extended by all that went out: it holds the end of all output, cut to the
/// limit. The window size is as it was.
pub proof fn lemma_history_is_ring(start: PtyState, outcomes: Seq<ReadOutcome>)
    requires
        start.history.len() == 0,
    ensures
        after_reads(start, outcomes) == (PtyState {
            history: ring_after(start.limit, outputs(outcomes)),
            ..start
        }),
        after_reads(start, outcomes).history == keep_last(
            concat_all(outputs(outcomes)),
            start.limit,
        ),
    decreases outcomes.len(),
{
    lemma_ring_holds_latest(start.limit, outputs(outcomes));
    if outcomes.len() == 0 {
        assert(start.history =~= Seq::<u8>::empty());
    } else {
        let before = outcomes.drop_last();
        lemma_history_is_ring(start, before);
        lemma_ring_holds_latest(start.limit, outputs(before));
        assert(outputs(outcomes).drop_last() =~= outputs(before));
        assert(outputs(outcomes).last() == bytes_out(outcomes.last()));
        let held = ring_after(start.limit, outputs(before));
        assert(held + Seq::<u8>::empty() =~= held);
    }
}

/// State of the PTY that is shared with every session.
pub struct PtyManager {
    history: RingBytes,
    rows: u16,
    cols: u16,
}

impl View for PtyManager {
    type V = PtyState;

    closed spec fn view(&self) -> PtyState {
        PtyState {
            history: self.history@,
            limit: self.history.limit(),
            rows: self.rows,
            cols: self.cols,
        }
    }
}

impl PtyManager {
    /// A manager for a window of `rows` by `cols`, with an empty scrollback
    /// of at most `history_limit` bytes.
    pub fn new(rows: u16, cols: u16, history_limit: usize) -> (pty: Self)
        ensures
            pty@ == (PtyState {
                history: Seq::empty(),
                limit: history_limit as nat,
                rows,
                cols,
            }),
    {
        PtyManager { history: RingBytes::new(history_limit), rows, cols }
    }

    /// The scrollback as it is now, for a subscriber that joins now. What is
    /// put out from now on follows it without gap or overlap.
    pub fn subscribe(&self) -> (snapshot: Vec<u8>)
        ensures
            snapshot@ == self@.history,
    {
        self.history.to_vec()
    }

    /// The stored window: rows, then columns.
    pub fn size(&self) -> (size: (u16, u16))
        ensures
            size == (self@.rows, self@.cols),
    {
        (self.rows, self.cols)
    }

    /// Stores a new window size. Returns whether it differs from the stored
    /// one: only then is the PTY itself to be resized, and the new size is
    /// stored before that is done.
    pub fn resize(&mut self, rows: u16, cols: u16) -> (changed: bool)
        ensures
            changed == (old(self)@.rows != rows || old(self)@.cols != cols),
            final(self)@ == (PtyState { rows, cols, ..old(self)@ }),
    {
        if self.rows == rows && self.cols == cols {
            return false;
        }
        self.rows = rows;
        self.cols = cols;
        true
    }

    /// Takes in the outcome of a read. A chunk that was read joins the
    /// scrollback and goes out to the subscribers. An interrupted read, or one
    /// that would block, is tried again. At the end of the stream, or when
    /// the read failed, the marker of a finished shell joins the scrollback
    /// and goes out, and a new shell is to be started at the stored size.
    pub fn on_read(&mut self, outcome: ReadOutcome) -> (step: ReaderStep)
        ensures
            final(self)@ == after_read(old(self)@, outcome),
            step@ == reader_step(old(self)@, outcome),
    {
        let step = match outcome {
            ReadOutcome::Read(chunk) => {
                if chunk.len() > 0 {
                    self.history.extend(chunk.as_slice());
                    ReaderStep::Publish(chunk)
                } else {
                    self.shell_completed()
                }
            },
            ReadOutcome::Failed => self.shell_completed(),
            _ => ReaderStep::Retry,
        };
        assert(self@ =~= after_read(old(self)@, outcome));
        step
    }

    fn shell_completed(&mut self) -> (step: ReaderStep)
        ensures
            final(self)@ == published(old(self)@, completed_marker()),
            step@ == (ReaderStepView::Respawn {
                marker: completed_marker(),
                rows: old(self)@.rows,
                cols: old(self)@.cols,
            }),
    {
        let marker = slice_to_vec("[Process completed]\r\n\r\n".as_bytes());
        self.history.extend(marker.as_slice());
        ReaderStep::Respawn { marker, rows: self.rows, cols: self.cols }
    }

    /// Takes in a failed start of a new shell, for the given reason: the
    /// marker that says so joins the scrollback and is returned, to go out to
    /// the subscribers. The reader ends after that.
    pub fn on_respawn_failed(&mut self, reason: &str) -> (marker: Vec<u8>)
        ensures
            marker@ == respawn_failed_marker(reason@),
            final(self)@ == published(old(self)@, marker@),
    {
        let text = String::from_str("[Respawn failed: ").concat(reason).concat("]\r\n");
        let marker = slice_to_vec(text.as_str().as_bytes());
        self.history.extend(marker.as_slice());
        marker
    }
}

} // verus!
