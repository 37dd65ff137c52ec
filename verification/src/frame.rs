//! Framed events: what is reported, one line each, to the collector that
//! reads standard output.

use vstd::prelude::*;
use vstd::string::StringExecFns;

verus! {

/// One framed event. On the wire it is the pair of its kind and its payload.
#[derive(Debug)]
pub enum Frame {
    /// A message for the log.
    Info(String),
    /// A warning for the log.
    Warning(String),
    /// An error for the log.
    Error(String),
    /// Compressed cast data of the session that began at `timestamp`.
    Cast { timestamp: u128, data: String },
    /// Compressed new bytes of the cast file at `path`.
    CastChunk { path: String, data: String },
    /// Heartbeats gathered since the last poll: time and session of each.
    Heartbeat(Vec<(u64, u32)>),
}

/// A framed event as a mathematical value.
pub enum FrameView {
    Info(Seq<char>),
    Warning(Seq<char>),
    Error(Seq<char>),
    Cast { timestamp: u128, data: Seq<char> },
    CastChunk { path: Seq<char>, data: Seq<char> },
    Heartbeat(Seq<(u64, u32)>),
}

impl View for Frame {
    type V = FrameView;

    open spec fn view(&self) -> FrameView {
        match self {
            Frame::Info(msg) => FrameView::Info(msg@),
            Frame::Warning(msg) => FrameView::Warning(msg@),
            Frame::Error(msg) => FrameView::Error(msg@),
            Frame::Cast { timestamp, data } => FrameView::Cast { timestamp: *timestamp, data: data@ },
            Frame::CastChunk { path, data } => FrameView::CastChunk { path: path@, data: data@ },
            Frame::Heartbeat(beats) => FrameView::Heartbeat(beats@),
        }
    }
}

/// The kind under which a frame is reported.
pub open spec fn kind_word(frame: FrameView) -> Seq<char> {
    match frame {
        FrameView::Info(_) => "info"@,
        FrameView::Warning(_) => "warning"@,
        FrameView::Error(_) => "error"@,
        FrameView::Cast { .. } => "cast"@,
        FrameView::CastChunk { .. } => "cast"@,
        FrameView::Heartbeat(_) => "heartbeat"@,
    }
}

impl Frame {
    /// The kind under which this frame is reported.
    pub fn kind(&self) -> (word: String)
        ensures
            word@ == kind_word(self@),
    {
        match self {
            Frame::Info(_) => String::from_str("info"),
            Frame::Warning(_) => String::from_str("warning"),
            Frame::Error(_) => String::from_str("error"),
            Frame::Cast { .. } => String::from_str("cast"),
            Frame::CastChunk { .. } => String::from_str("cast"),
            Frame::Heartbeat(_) => String::from_str("heartbeat"),
        }
    }
}

} // verus!
