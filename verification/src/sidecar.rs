//! The log sidecar: commands that arrive line by line, the heartbeat bucket,
//! and the tailers that follow cast files as they grow.

use crate::codec::{base64_encode, base64_fits, base64_text, gzip, gzip_outcome, outcome_view};
use crate::frame::{Frame, FrameView};
use vstd::prelude::*;
use vstd::string::StringExecFns;

verus! {

/// Where the sidecar listens unless told otherwise.
pub open spec fn default_socket() -> Seq<char> {
    "/tmp/workspace-logger.sock"@
}

/// Where the sidecar listens unless told otherwise.
pub fn default_socket_path() -> (path: String)
    ensures
        path@ == default_socket(),
{
    String::from_str("/tmp/workspace-logger.sock")
}

/// What identifies a file: its device and its inode.
pub type FileId = (u64, u64);

/// A tailer as a mathematical value.
pub struct TailerState {
    /// Path of the file that is followed.
    pub path: Seq<char>,
    /// Bytes of the file that were read so far.
    pub offset: u64,
    /// Identity of the file that is open.
    pub id: FileId,
}

/// True where the file now at the path is no longer the one that was read,
/// or has become shorter than what was read of it.
pub open spec fn stale(st: TailerState, id: FileId, len: u64) -> bool {
    id != st.id || len < st.offset
}

/// Follows one file: remembers what was read of it.
#[derive(Debug)]
pub struct Tailer {
    path: String,
    offset: u64,
    dev_ino: (u64, u64),
}

impl View for Tailer {
    type V = TailerState;

    closed spec fn view(&self) -> TailerState {
        TailerState { path: self.path@, offset: self.offset, id: self.dev_ino }
    }
}

/// Why a poll failed.
#[derive(Debug)]
pub enum PollError {
    /// Compressing the new bytes failed, for the reason given.
    Compress(String),
    /// The compressed bytes are too long to be put in text.
    Oversize,
}

/// Why a poll failed, as a mathematical value.
pub enum PollErrorView {
    Compress(Seq<char>),
    Oversize,
}

impl View for PollError {
    type V = PollErrorView;

    open spec fn view(&self) -> PollErrorView {
        match self {
            PollError::Compress(reason) => PollErrorView::Compress(reason@),
            PollError::Oversize => PollErrorView::Oversize,
        }
    }
}

/// The text that reports compressed bytes, given what compressing gave:
/// their base64 text; an error where compressing failed, or where the
/// compressed bytes are too long to be put in text.
pub open spec fn text_of(compressed: Result<Seq<u8>, Seq<char>>) -> Result<
    Seq<char>,
    PollErrorView,
> {
    match compressed {
        Ok(stream) => if base64_fits(stream.len()) {
            Ok(base64_text(stream))
        } else {
            Err(PollErrorView::Oversize)
        },
        Err(reason) => Err(PollErrorView::Compress(reason)),
    }
}

/// What a poll reports for the bytes that were read: nothing for none, else
/// the text of their gzip stream.
pub open spec fn chunk_report(chunk: Seq<u8>) -> Result<Option<Seq<char>>, PollErrorView> {
    if chunk.len() == 0 {
        Ok(None)
    } else {
        match text_of(gzip_outcome(chunk)) {
            Ok(text) => Ok(Some(text)),
            Err(e) => Err(e),
        }
    }
}

/// The text of a poll, or why there is none, as a mathematical value.
pub open spec fn text_view(r: Result<String, PollError>) -> Result<Seq<char>, PollErrorView> {
    match r {
        Ok(text) => Ok(text@),
        Err(e) => Err(e@),
    }
}

/// What a poll reported, as a mathematical value.
pub open spec fn report_view(r: Result<Option<String>, PollError>) -> Result<
    Option<Seq<char>>,
    PollErrorView,
> {
    match r {
        Ok(Some(text)) => Ok(Some(text@)),
        Ok(None) => Ok(None),
        Err(e) => Err(e@),
    }
}

impl Tailer {
    /// A tailer of the file at `path` that was just opened and has the
    /// identity `dev_ino`. Nothing was read of it yet.
    pub fn new(path: String, dev_ino: (u64, u64)) -> (tailer: Self)
        ensures
            tailer@ == (TailerState { path: path@, offset: 0, id: dev_ino }),
    {
        Tailer { path, offset: 0, dev_ino }
    }

    /// Path of the file that is followed.
    pub fn path(&self) -> (path: &String)
        ensures
            path@ == self@.path,
    {
        &self.path
    }

    /// Where the next read starts.
    pub fn offset(&self) -> (offset: u64)
        ensures
            offset == self@.offset,
    {
        self.offset
    }

    /// Whether the file has to be opened again before it is read: `dev_ino`
    /// and `len` are the identity and length of the file now at the path.
    pub fn need_reopen(&self, dev_ino: (u64, u64), len: u64) -> (reopen: bool)
        ensures
            reopen == stale(self@, dev_ino, len),
    {
        dev_ino.0 != self.dev_ino.0 || dev_ino.1 != self.dev_ino.1 || len < self.offset
    }

    /// Takes in that the file was opened again and has the identity
    /// `dev_ino`: reading starts over at its first byte.
    pub fn reopened(&mut self, dev_ino: (u64, u64))
        ensures
            final(self)@ == (TailerState { offset: 0, id: dev_ino, ..old(self)@ }),
    {
        self.dev_ino = dev_ino;
        self.offset = 0;
    }

    /// Ends a poll, given what compressing the bytes that were read gave:
    /// the text to report, or why there is none.
    pub fn finish_poll(compressed: Result<Vec<u8>, String>) -> (r: Result<String, PollError>)
        ensures
            text_view(r) == text_of(outcome_view(compressed)),
    {
        match compressed {
            Ok(stream) => {
                if stream.len() / 3 <= (usize::MAX - 4) / 4 {
                    Ok(base64_encode(stream.as_slice()))
                } else {
                    Err(PollError::Oversize)
                }
            },
            Err(reason) => Err(PollError::Compress(reason)),
        }
    }

    /// Takes in what was read from the stored offset to the end of the file:
    /// `chunk` are the bytes and `position` is where the file stands after
    /// them. The offset moves there. Where bytes were read they are
    /// compressed and returned as text; where none were, there is nothing to
    /// report.
    pub fn poll(&mut self, chunk: &[u8], position: u64) -> (r: Result<Option<String>, PollError>)
        ensures
            final(self)@ == (TailerState { offset: position, ..old(self)@ }),
            report_view(r) == chunk_report(chunk@),
    {
        self.offset = position;
        if chunk.len() == 0 {
            return Ok(None);
        }
        match Tailer::finish_poll(gzip(chunk)) {
            Ok(text) => Ok(Some(text)),
            Err(e) => Err(e),
        }
    }
}

/// True for a character with the Unicode property White_Space.
pub open spec fn white_space(c: char) -> bool {
    let u = c as u32;
    (0x09 <= u <= 0x0d) || u == 0x20 || u == 0x85 || u == 0xa0 || u == 0x1680 || (0x2000 <= u
        <= 0x200a) || u == 0x2028 || u == 0x2029 || u == 0x202f || u == 0x205f || u == 0x3000
}

/// True where a line holds nothing but white space.
pub open spec fn blank(line: Seq<char>) -> bool {
    forall|i: int| 0 <= i < line.len() ==> white_space(#[trigger] line[i])
}

/// Whether `c` has the Unicode property White_Space.
pub fn is_white_space(c: char) -> (w: bool)
    ensures
        w == white_space(c),
{
    let u = c as u32;
    (0x09 <= u && u <= 0x0d) || u == 0x20 || u == 0x85 || u == 0xa0 || u == 0x1680 || (0x2000 <= u
        && u <= 0x200a) || u == 0x2028 || u == 0x2029 || u == 0x202f || u == 0x205f || u == 0x3000
}

/// Whether a line is passed over: it is where it holds nothing but white
/// space.
pub fn is_blank(line: &str) -> (b: bool)
    ensures
        b == blank(line@),
{
    for c in it: line.chars()
        invariant
            it.seq() == line@,
            forall|i: int| 0 <= i < it.index() ==> white_space(#[trigger] line@[i]),
    {
        if !is_white_space(c) {
            return false;
        }
    }
    true
}

/// A command of a client of the sidecar.
#[derive(Debug)]
pub enum ClientCmd {
    /// Report a message.
    Info { msg: String },
    /// Report a warning.
    Warning { msg: String },
    /// Report an error.
    Error { msg: String },
    /// Report what was added to the cast file at this path.
    CastPoll { cast: String },
    /// Note a heartbeat of a session.
    Hb { ts: u64, session: u32 },
    /// Report the heartbeats noted since the last poll.
    HeartbeatPoll,
}

/// What the sidecar does for a command.
#[derive(Debug)]
pub enum CmdStep {
    /// Put this frame out.
    Emit(Frame),
    /// Poll the cast file at this path.
    Poll(String),
    /// Nothing more.
    Nothing,
}

/// What the sidecar does for a command, as a mathematical value.
pub enum CmdStepView {
    Emit(FrameView),
    Poll(Seq<char>),
    Nothing,
}

impl View for CmdStep {
    type V = CmdStepView;

    open spec fn view(&self) -> CmdStepView {
        match self {
            CmdStep::Emit(frame) => CmdStepView::Emit(frame@),
            CmdStep::Poll(path) => CmdStepView::Poll(path@),
            CmdStep::Nothing => CmdStepView::Nothing,
        }
    }
}

/// The heartbeats noted since the last poll, oldest first.
#[derive(Debug)]
pub struct HeartbeatBucket {
    beats: Vec<(u64, u32)>,
}

impl View for HeartbeatBucket {
    type V = Seq<(u64, u32)>;

    closed spec fn view(&self) -> Seq<(u64, u32)> {
        self.beats@
    }
}

/// The bucket after a command.
pub open spec fn bucket_after(beats: Seq<(u64, u32)>, cmd: ClientCmd) -> Seq<(u64, u32)> {
    match cmd {
        ClientCmd::Hb { ts, session } => beats.push((ts, session)),
        ClientCmd::HeartbeatPoll => Seq::empty(),
        _ => beats,
    }
}

/// What the sidecar does for a command, with `beats` in the bucket.
pub open spec fn step_for(beats: Seq<(u64, u32)>, cmd: ClientCmd) -> CmdStepView {
    match cmd {
        ClientCmd::Info { msg } => CmdStepView::Emit(FrameView::Info(msg@)),
        ClientCmd::Warning { msg } => CmdStepView::Emit(FrameView::Warning(msg@)),
        ClientCmd::Error { msg } => CmdStepView::Emit(FrameView::Error(msg@)),
        ClientCmd::CastPoll { cast } => CmdStepView::Poll(cast@),
        ClientCmd::Hb { .. } => CmdStepView::Nothing,
        ClientCmd::HeartbeatPoll => if beats.len() == 0 {
            CmdStepView::Nothing
        } else {
            CmdStepView::Emit(FrameView::Heartbeat(beats))
        },
    }
}

impl HeartbeatBucket {
    /// An empty bucket.
    pub fn new() -> (bucket: Self)
        ensures
            bucket@ == Seq::<(u64, u32)>::empty(),
    {
        HeartbeatBucket { beats: Vec::new() }
    }

    /// Carries out a command as far as no file is concerned. A log command
    /// is put out as a frame of its kind. A heartbeat joins the bucket. A
    /// poll for heartbeats empties the bucket and puts out what it held, if
    /// anything. A poll for a cast file is handed back with its path.
    pub fn process_cmd(&mut self, cmd: ClientCmd) -> (step: CmdStep)
        ensures
            step@ == step_for(old(self)@, cmd),
            final(self)@ == bucket_after(old(self)@, cmd),
    {
        match cmd {
            ClientCmd::Info { msg } => CmdStep::Emit(Frame::Info(msg)),
            ClientCmd::Warning { msg } => CmdStep::Emit(Frame::Warning(msg)),
            ClientCmd::Error { msg } => CmdStep::Emit(Frame::Error(msg)),
            ClientCmd::CastPoll { cast } => CmdStep::Poll(cast),
            ClientCmd::Hb { ts, session } => {
                self.beats.push((ts, session));
                CmdStep::Nothing
            },
            ClientCmd::HeartbeatPoll => {
                if self.beats.len() == 0 {
                    assert(self.beats@ =~= Seq::<(u64, u32)>::empty());
                    CmdStep::Nothing
                } else {
                    let mut taken: Vec<(u64, u32)> = Vec::new();
                    core::mem::swap(&mut self.beats, &mut taken);
                    CmdStep::Emit(Frame::Heartbeat(taken))
                }
            },
        }
    }
}

/// The frame that reports what was added to the cast file at `path`.
pub fn cast_frame(path: String, text: String) -> (frame: Frame)
    ensures
        frame@ == (FrameView::CastChunk { path: path@, data: text@ }),
{
    Frame::CastChunk { path, data: text }
}

/// The frame that reports a line that is no command, for the reason given.
pub fn parse_failed(reason: &str) -> (frame: Frame)
    ensures
        frame@ == FrameView::Error("json parse error: "@ + reason@),
{
    Frame::Error(String::from_str("json parse error: ").concat(reason))
}

/// The frame that reports why a connection was ended.
pub fn client_failed(reason: &str) -> (frame: Frame)
    ensures
        frame@ == FrameView::Error("handle_client error: "@ + reason@),
{
    Frame::Error(String::from_str("handle_client error: ").concat(reason))
}

} // verus!
