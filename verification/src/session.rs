//! The per-client session: what is done, and in which order, for everything
//! that reaches it. Sending, writing and resizing are the caller's part; it
//! carries out each plan in order and ends the session when a required
//! action fails.

use crate::config::{AppConfig, AppConfigView};
use vstd::prelude::*;
use vstd::slice::slice_to_vec;
use vstd::string::StringExecFns;
use vstd::utf8::encode_utf8;

verus! {

/// Scrollback limit of the private PTY of a debug session.
pub const DEBUG_HISTORY_LIMIT: usize = 0;

/// Close code sent when the PTY of a debug session cannot be started.
pub const DEBUG_INIT_CLOSE_CODE: u16 = 1011;

/// A window size as the client sends it.
#[derive(Clone, Copy, Debug, PartialEq, Eq, Structural)]
pub struct SttySize {
    pub cols: u16,
    pub rows: u16,
}

/// A command of the client.
#[derive(Debug)]
#[allow(inconsistent_fields)]
pub enum ClientMsg {
    /// Keystrokes, taken as raw bytes.
    Data { value: String },
    /// A new window size.
    Resize { value: SttySize },
    /// A sign of life.
    Heartbeat,
}

/// One thing a session does.
#[derive(Debug)]
pub enum Action {
    /// Send the bytes to the client in a binary frame.
    SendBinary(Vec<u8>),
    /// Send the text to the client in a text frame.
    SendText(String),
    /// Send the configuration to the client in a `config` frame.
    SendConfig(AppConfig),
    /// Write the bytes to the PTY.
    WritePty(Vec<u8>),
    /// Resize the PTY.
    ResizePty { rows: u16, cols: u16 },
    /// Store the size in the cell that all sessions share.
    StoreSize { rows: u16, cols: u16 },
    /// Post the bytes to the recorder as input.
    RecordInput(Vec<u8>),
    /// Post the bytes to the recorder as output.
    RecordOutput(Vec<u8>),
    /// Post the size to the recorder.
    RecordResize { rows: u16, cols: u16 },
    /// Post a heartbeat to the recorder.
    RecordHeartbeat,
}

/// An action as a mathematical value.
pub enum ActionView {
    SendBinary(Seq<u8>),
    SendText(Seq<char>),
    SendConfig(AppConfigView),
    WritePty(Seq<u8>),
    ResizePty { rows: u16, cols: u16 },
    StoreSize { rows: u16, cols: u16 },
    RecordInput(Seq<u8>),
    RecordOutput(Seq<u8>),
    RecordResize { rows: u16, cols: u16 },
    RecordHeartbeat,
}

impl View for Action {
    type V = ActionView;

    open spec fn view(&self) -> ActionView {
        match self {
            Action::SendBinary(bytes) => ActionView::SendBinary(bytes@),
            Action::SendText(text) => ActionView::SendText(text@),
            Action::SendConfig(config) => ActionView::SendConfig(config@),
            Action::WritePty(bytes) => ActionView::WritePty(bytes@),
            Action::ResizePty { rows, cols } => ActionView::ResizePty { rows: *rows, cols: *cols },
            Action::StoreSize { rows, cols } => ActionView::StoreSize { rows: *rows, cols: *cols },
            Action::RecordInput(bytes) => ActionView::RecordInput(bytes@),
            Action::RecordOutput(bytes) => ActionView::RecordOutput(bytes@),
            Action::RecordResize { rows, cols } => ActionView::RecordResize {
                rows: *rows,
                cols: *cols,
            },
            Action::RecordHeartbeat => ActionView::RecordHeartbeat,
        }
    }
}

/// An action of a plan. Where `required` is set and the action fails, the
/// session ends and the rest of the plan is dropped; a failure of another
/// action is passed over.
#[derive(Debug)]
pub struct Planned {
    pub action: Action,
    pub required: bool,
}

impl Planned {
    /// Whether the session ends after this action was tried: it does where
    /// the action is required and failed. The rest of the plan is dropped
    /// then.
    pub fn ends_session(&self, failed: bool) -> (end: bool)
        ensures
            end == (self.required && failed),
    {
        self.required && failed
    }
}

/// A planned action as a mathematical value.
pub struct PlannedView {
    pub action: ActionView,
    pub required: bool,
}

impl View for Planned {
    type V = PlannedView;

    open spec fn view(&self) -> PlannedView {
        PlannedView { action: self.action@, required: self.required }
    }
}

/// A plan as a mathematical value.
pub open spec fn plan_view(plan: Seq<Planned>) -> Seq<PlannedView> {
    plan.map_values(|p: Planned| p@)
}

/// An action whose failure ends the session.
pub open spec fn required(action: ActionView) -> PlannedView {
    PlannedView { action, required: true }
}

/// An action whose failure is passed over.
pub open spec fn attempted(action: ActionView) -> PlannedView {
    PlannedView { action, required: false }
}

/// What a client's command is, as a mathematical value.
#[allow(inconsistent_fields)]
pub enum ClientMsgView {
    Data { value: Seq<char> },
    Resize { value: SttySize },
    Heartbeat,
}

impl View for ClientMsg {
    type V = ClientMsgView;

    open spec fn view(&self) -> ClientMsgView {
        match self {
            ClientMsg::Data { value } => ClientMsgView::Data { value: value@ },
            ClientMsg::Resize { value } => ClientMsgView::Resize { value: *value },
            ClientMsg::Heartbeat => ClientMsgView::Heartbeat,
        }
    }
}

/// The text that answers a heartbeat.
pub open spec fn pong_text() -> Seq<char> {
    "{\"event\":\"heartbeat-pong\"}"@
}

/// What is done when a client has connected: it is sent the scrollback, then
/// the configuration. Without the scrollback the session does not start.
pub open spec fn opening(snapshot: Seq<u8>, config: AppConfigView) -> Seq<PlannedView> {
    seq![required(ActionView::SendBinary(snapshot)), attempted(ActionView::SendConfig(config))]
}

/// What is done with a chunk of output: it is sent to the client and, where
/// the session is recorded, posted to the recorder.
pub open spec fn forwarding(chunk: Seq<u8>, recording: bool) -> Seq<PlannedView> {
    if recording {
        seq![attempted(ActionView::SendBinary(chunk)), attempted(ActionView::RecordOutput(chunk))]
    } else {
        seq![attempted(ActionView::SendBinary(chunk))]
    }
}

/// What the recorder is posted for a command, where the session is recorded.
pub open spec fn mirrored(msg: ClientMsgView) -> ActionView {
    match msg {
        ClientMsgView::Data { value } => ActionView::RecordInput(encode_utf8(value)),
        ClientMsgView::Resize { value } => ActionView::RecordResize {
            rows: value.rows,
            cols: value.cols,
        },
        ClientMsgView::Heartbeat => ActionView::RecordHeartbeat,
    }
}

/// What is done for a command apart from recording it: keystrokes are
/// written to the PTY; a size is applied to the PTY and then stored; a
/// heartbeat is answered.
pub open spec fn carried_out(msg: ClientMsgView) -> Seq<PlannedView> {
    match msg {
        ClientMsgView::Data { value } => seq![
            required(ActionView::WritePty(encode_utf8(value))),
        ],
        ClientMsgView::Resize { value } => seq![
            required(ActionView::ResizePty { rows: value.rows, cols: value.cols }),
            attempted(ActionView::StoreSize { rows: value.rows, cols: value.cols }),
        ],
        ClientMsgView::Heartbeat => seq![required(ActionView::SendText(pong_text()))],
    }
}

/// What is done for a command of the client: where the session is recorded
/// the command is posted to the recorder first, then it is carried out.
pub open spec fn handling(msg: ClientMsgView, recording: bool) -> Seq<PlannedView> {
    if recording {
        seq![attempted(mirrored(msg))] + carried_out(msg)
    } else {
        carried_out(msg)
    }
}

/// What a debug session does for a command: keystrokes are written to its
/// PTY and a size is applied to it, failures passed over; a heartbeat is not
/// answered.
pub open spec fn applying(msg: ClientMsgView) -> Seq<PlannedView> {
    match msg {
        ClientMsgView::Data { value } => seq![
            attempted(ActionView::WritePty(encode_utf8(value))),
        ],
        ClientMsgView::Resize { value } => seq![
            attempted(ActionView::ResizePty { rows: value.rows, cols: value.cols }),
        ],
        ClientMsgView::Heartbeat => Seq::empty(),
    }
}

/// The plan for a client that has connected, given the scrollback it
/// subscribed to and the current configuration.
pub fn open_session(snapshot: Vec<u8>, config: AppConfig) -> (plan: Vec<Planned>)
    ensures
        plan_view(plan@) == opening(snapshot@, config@),
{
    let mut plan: Vec<Planned> = Vec::new();
    plan.push(Planned { action: Action::SendBinary(snapshot), required: true });
    plan.push(Planned { action: Action::SendConfig(config), required: false });
    assert(plan_view(plan@) =~= opening(snapshot@, config@));
    plan
}

/// The plan for a client that has connected to a debug session: it is sent
/// the scrollback of the session's own PTY, and a failure to send it is
/// passed over.
pub fn open_debug_session(snapshot: Vec<u8>) -> (plan: Vec<Planned>)
    ensures
        plan_view(plan@) == seq![attempted(ActionView::SendBinary(snapshot@))],
{
    let mut plan: Vec<Planned> = Vec::new();
    plan.push(Planned { action: Action::SendBinary(snapshot), required: false });
    assert(plan_view(plan@) =~= seq![attempted(ActionView::SendBinary(snapshot@))]);
    plan
}

/// The plan for a chunk of output that the PTY put out.
pub fn forward_output(chunk: Vec<u8>, recording: bool) -> (plan: Vec<Planned>)
    ensures
        plan_view(plan@) == forwarding(chunk@, recording),
{
    let mut plan: Vec<Planned> = Vec::new();
    if recording {
        let copy = chunk.clone();
        assert(copy@ =~= chunk@);
        plan.push(Planned { action: Action::SendBinary(chunk), required: false });
        plan.push(Planned { action: Action::RecordOutput(copy), required: false });
    } else {
        plan.push(Planned { action: Action::SendBinary(chunk), required: false });
    }
    assert(plan_view(plan@) =~= forwarding(chunk@, recording));
    plan
}

/// The plan for a change of the configuration: it is sent to the client.
pub fn config_changed(config: AppConfig) -> (plan: Vec<Planned>)
    ensures
        plan_view(plan@) == seq![attempted(ActionView::SendConfig(config@))],
{
    let mut plan: Vec<Planned> = Vec::new();
    plan.push(Planned { action: Action::SendConfig(config), required: false });
    assert(plan_view(plan@) =~= seq![attempted(ActionView::SendConfig(config@))]);
    plan
}

/// The plan for a command of the client.
pub fn handle(msg: ClientMsg, recording: bool) -> (plan: Vec<Planned>)
    ensures
        plan_view(plan@) == handling(msg@, recording),
{
    let mut plan: Vec<Planned> = Vec::new();
    match msg {
        ClientMsg::Data { value } => {
            let bytes = slice_to_vec(value.as_str().as_bytes());
            if recording {
                let copy = bytes.clone();
                assert(copy@ =~= bytes@);
                plan.push(Planned { action: Action::RecordInput(copy), required: false });
            }
            plan.push(Planned { action: Action::WritePty(bytes), required: true });
        },
        ClientMsg::Resize { value } => {
            let rows = value.rows;
            let cols = value.cols;
            if recording {
                plan.push(Planned { action: Action::RecordResize { rows, cols }, required: false });
            }
            plan.push(Planned { action: Action::ResizePty { rows, cols }, required: true });
            plan.push(Planned { action: Action::StoreSize { rows, cols }, required: false });
        },
        ClientMsg::Heartbeat => {
            if recording {
                plan.push(Planned { action: Action::RecordHeartbeat, required: false });
            }
            let pong = String::from_str("{\"event\":\"heartbeat-pong\"}");
            plan.push(Planned { action: Action::SendText(pong), required: true });
        },
    }
    assert(plan_view(plan@) =~= handling(msg@, recording));
    plan
}

/// The plan of a debug session for a command of the client.
pub fn apply_cmd(msg: ClientMsg) -> (plan: Vec<Planned>)
    ensures
        plan_view(plan@) == applying(msg@),
{
    let mut plan: Vec<Planned> = Vec::new();
    match msg {
        ClientMsg::Data { value } => {
            let bytes = slice_to_vec(value.as_str().as_bytes());
            plan.push(Planned { action: Action::WritePty(bytes), required: false });
        },
        ClientMsg::Resize { value } => {
            plan.push(
                Planned {
                    action: Action::ResizePty { rows: value.rows, cols: value.cols },
                    required: false,
                },
            );
        },
        ClientMsg::Heartbeat => {},
    }
    assert(plan_view(plan@) =~= applying(msg@));
    plan
}

/// What receiving from the client gave.
#[derive(Clone, Copy, Debug, PartialEq, Eq, Structural)]
pub enum Inbound {
    /// A text frame.
    Text,
    /// A binary frame.
    Binary,
    /// A close frame.
    Close,
    /// The channel has ended.
    Ended,
    /// Receiving failed.
    Failed,
    /// A frame of another kind.
    Other,
}

/// What a session does with what it received.
#[derive(Clone, Copy, Debug, PartialEq, Eq, Structural)]
pub enum Disposition {
    /// Decode the frame's content as a command.
    Decode,
    /// End the session.
    End,
    /// Pass the frame over.
    Ignore,
}

/// What is done with what was received: text and binary frames are decoded
/// alike; a close frame, the end of the channel and a failure end the
/// session; anything else is passed over.
pub open spec fn disposition(inbound: Inbound) -> Disposition {
    match inbound {
        Inbound::Text | Inbound::Binary => Disposition::Decode,
        Inbound::Close | Inbound::Ended | Inbound::Failed => Disposition::End,
        Inbound::Other => Disposition::Ignore,
    }
}

/// What a session does with what it received.
pub fn classify(inbound: Inbound) -> (d: Disposition)
    ensures
        d == disposition(inbound),
{
    match inbound {
        Inbound::Text | Inbound::Binary => Disposition::Decode,
        Inbound::Close | Inbound::Ended | Inbound::Failed => Disposition::End,
        Inbound::Other => Disposition::Ignore,
    }
}

/// The plan for a frame's content, given what decoding it gave: the plan for
/// the command, or nothing where the content is no command.
pub fn on_frame(decoded: Option<ClientMsg>, recording: bool) -> (plan: Vec<Planned>)
    ensures
        plan_view(plan@) == match decoded {
            Some(msg) => handling(msg@, recording),
            None => Seq::empty(),
        },
{
    match decoded {
        Some(msg) => handle(msg, recording),
        None => {
            let plan: Vec<Planned> = Vec::new();
            assert(plan_view(plan@) =~= Seq::<PlannedView>::empty());
            plan
        },
    }
}

/// The plan of a debug session for a frame's content, given what decoding it
/// gave.
pub fn debug_on_frame(decoded: Option<ClientMsg>) -> (plan: Vec<Planned>)
    ensures
        plan_view(plan@) == match decoded {
            Some(msg) => applying(msg@),
            None => Seq::empty(),
        },
{
    match decoded {
        Some(msg) => apply_cmd(msg),
        None => {
            let plan: Vec<Planned> = Vec::new();
            assert(plan_view(plan@) =~= Seq::<PlannedView>::empty());
            plan
        },
    }
}

/// The code and reason with which a debug session is closed when its PTY
/// could not be started.
pub fn debug_init_failed(reason: &str) -> (close: (u16, String))
    ensures
        close.0 == DEBUG_INIT_CLOSE_CODE,
        close.1@ == "pty init error: "@ + reason@,
{
    (DEBUG_INIT_CLOSE_CODE, String::from_str("pty init error: ").concat(reason))
}

} // verus!
