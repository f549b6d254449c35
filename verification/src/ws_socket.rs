//! The owner of a WebSocket: what its callbacks signal, and how it serves the
//! writes of its link.
//!
//! A socket and its callbacks stay on the thread that made them. The link talks
//! to the owner through channels.

use crate::channel::{channel, Outlet, Posted, Sent};
use crate::text::joined;
use vstd::prelude::*;

verus! {

/// The frames that wait for the reader at most. A browser cannot be told to
/// slow the sender down, so an overloaded link fails rather than grows.
pub const RECEIVE_BACKLOG: usize = 128;

/// The bytes that may wait in the browser before a write waits.
pub const SEND_BACKLOG_BYTES: u32 = 1_048_576;

/// Milliseconds between two looks at the bytes that wait in the browser.
pub const BACKPRESSURE_POLL_MS: u32 = 4;

/// What a callback of the socket signals to the owner.
#[derive(Clone, Copy, Debug, PartialEq, Eq, Structural)]
pub enum Signal {
    Opened,
    Error,
    Closed,
    /// A frame is longer than the link takes.
    FrameTooLong,
    /// More frames wait than may.
    BacklogExceeded,
    /// Nobody reads the frames any more.
    StreamClosed,
    /// A frame is not binary.
    NotBinary,
}

impl Signal {
    /// What the signal says; nothing if the socket is open.
    pub open spec fn spec_text(self) -> Option<Seq<char>> {
        match self {
            Signal::Opened => None,
            Signal::Error => Some("WebSocket error"@),
            Signal::Closed => Some("WebSocket closed"@),
            Signal::FrameTooLong => Some("WebSocket frame exceeds link MTU"@),
            Signal::BacklogExceeded => Some("WebSocket receive backlog exceeded"@),
            Signal::StreamClosed => Some("WebSocket receive stream closed"@),
            Signal::NotBinary => Some("WebSocket received a non-binary frame"@),
        }
    }

    /// What the signal says; nothing if the socket is open.
    pub fn text(&self) -> (text: Option<&'static str>)
        ensures
            match (text, self.spec_text()) {
                (Some(t), Some(s)) => t@ == s,
                (None, None) => true,
                _ => false,
            },
    {
        match self {
            Signal::Opened => None,
            Signal::Error => Some("WebSocket error"),
            Signal::Closed => Some("WebSocket closed"),
            Signal::FrameTooLong => Some("WebSocket frame exceeds link MTU"),
            Signal::BacklogExceeded => Some("WebSocket receive backlog exceeded"),
            Signal::StreamClosed => Some("WebSocket receive stream closed"),
            Signal::NotBinary => Some("WebSocket received a non-binary frame"),
        }
    }
}

/// What is done with a frame.
#[derive(Clone, Copy, Debug, PartialEq, Eq, Structural)]
pub enum FrameVerdict {
    Ignore,
    Reject(Signal),
    /// Copy the bytes of the frame, and deliver them.
    Accept,
}

/// What is done with a frame of `byte_length` bytes, or of none that count if
/// the frame is not binary. Links carry binary batches; another frame is
/// rejected rather than leave the reader waiting.
pub open spec fn frame_verdict(byte_length: Option<u32>, max_mtu: u32) -> FrameVerdict {
    match byte_length {
        None => FrameVerdict::Reject(Signal::NotBinary),
        Some(length) => if length == 0 {
            FrameVerdict::Ignore
        } else if length > max_mtu {
            FrameVerdict::Reject(Signal::FrameTooLong)
        } else {
            FrameVerdict::Accept
        },
    }
}

/// What the attempt to deliver a frame signals.
pub open spec fn delivery_signal(sent: Sent) -> Option<Signal> {
    match sent {
        Sent::Done => None,
        Sent::Full => Some(Signal::BacklogExceeded),
        Sent::Disconnected => Some(Signal::StreamClosed),
    }
}

/// What is done with a frame of `byte_length` bytes; `None` stands for a frame
/// that is not binary.
pub fn judge_frame(byte_length: Option<u32>, max_mtu: u32) -> (verdict: FrameVerdict)
    ensures
        verdict == frame_verdict(byte_length, max_mtu),
{
    match byte_length {
        None => FrameVerdict::Reject(Signal::NotBinary),
        Some(length) => if length == 0 {
            FrameVerdict::Ignore
        } else if length > max_mtu {
            FrameVerdict::Reject(Signal::FrameTooLong)
        } else {
            FrameVerdict::Accept
        },
    }
}

/// What the attempt to deliver a frame signals.
pub fn judge_delivery(sent: Sent) -> (signal: Option<Signal>)
    ensures
        signal == delivery_signal(sent),
{
    match sent {
        Sent::Done => None,
        Sent::Full => Some(Signal::BacklogExceeded),
        Sent::Disconnected => Some(Signal::StreamClosed),
    }
}

/// The callbacks of a socket.
pub struct SocketCallbacks {
    recv_tx: Outlet<Vec<u8>>,
    event_tx: Outlet<Signal>,
    max_mtu: u32,
}

/// The channels of a socket that is being opened.
pub struct NewSocket {
    pub callbacks: SocketCallbacks,
    /// Where the frames come from.
    pub recv_rx: flume::Receiver<Vec<u8>>,
    /// Where the signals come from.
    pub event_rx: flume::Receiver<Signal>,
}

/// What became of a frame that came.
pub struct FrameReaction {
    /// Whether its bytes are to be copied and delivered.
    pub copy: bool,
    /// What was signalled to the owner.
    pub signalled: Option<Posted<Signal>>,
}

/// What became of a frame that was delivered.
pub struct Delivery {
    pub frame: Posted<Vec<u8>>,
    /// What was signalled to the owner.
    pub signalled: Option<Posted<Signal>>,
}

impl SocketCallbacks {
    /// The most bytes that a frame may have.
    pub closed spec fn max_mtu(&self) -> u32 {
        self.max_mtu
    }

    /// Where the frames go.
    pub closed spec fn frames(&self) -> flume::Sender<Vec<u8>> {
        self.recv_tx.sender()
    }

    /// The frames that wait for the reader at most.
    pub closed spec fn backlog(&self) -> Option<nat> {
        self.recv_tx.limit()
    }

    /// The signals that wait for the owner at most; there is no limit if there is
    /// none here.
    pub closed spec fn signal_backlog(&self) -> Option<nat> {
        self.event_tx.limit()
    }

    /// Where the signals go.
    pub closed spec fn signals(&self) -> flume::Sender<Signal> {
        self.event_tx.sender()
    }

    /// The callbacks of `socket` signal to its ends of the channels.
    pub closed spec fn serve(&self, socket: NewSocket) -> bool {
        &&& self.recv_tx.inlet() == socket.recv_rx
        &&& self.event_tx.inlet() == socket.event_rx
    }

    /// The channels of a socket whose frames have up to `max_mtu` bytes.
    pub fn new(max_mtu: u32) -> (socket: NewSocket)
        ensures
            socket.callbacks.max_mtu() == max_mtu,
            socket.callbacks.backlog() == Some(RECEIVE_BACKLOG as nat),
            socket.callbacks.signal_backlog() is None,
            socket.callbacks.serve(socket),
    {
        let (recv_tx, recv_rx) = channel::<Vec<u8>>(Some(RECEIVE_BACKLOG));
        let (event_tx, event_rx) = channel::<Signal>(None);
        NewSocket { callbacks: SocketCallbacks { recv_tx, event_tx, max_mtu }, recv_rx, event_rx }
    }

    /// Signals the owner that the socket is open, has an error or is closed.
    pub fn signal(&self, signal: Signal) -> (posted: Posted<Signal>)
        ensures
            posted.message() == signal,
            posted.to() == self.signals(),
            self.signal_backlog() is None ==> posted.outcome() != Sent::Full,
    {
        self.event_tx.post(signal)
    }

    /// Whether exactly `expected` was signalled to the owner.
    pub open spec fn has_signalled(
        &self,
        signalled: Option<Posted<Signal>>,
        expected: Option<Signal>,
    ) -> bool {
        match (signalled, expected) {
            (Some(posted), Some(signal)) => posted.message() == signal && posted.to()
                == self.signals(),
            (None, None) => true,
            _ => false,
        }
    }

    /// A frame of `byte_length` bytes came; `None` stands for one that is not
    /// binary.
    pub fn on_message(&self, byte_length: Option<u32>) -> (reaction: FrameReaction)
        ensures
            reaction.copy == (frame_verdict(byte_length, self.max_mtu()) == FrameVerdict::Accept),
            self.has_signalled(
                reaction.signalled,
                match frame_verdict(byte_length, self.max_mtu()) {
                    FrameVerdict::Reject(signal) => Some(signal),
                    _ => None,
                },
            ),
    {
        match judge_frame(byte_length, self.max_mtu) {
            FrameVerdict::Ignore => FrameReaction { copy: false, signalled: None },
            FrameVerdict::Reject(signal) => {
                FrameReaction { copy: false, signalled: Some(self.signal(signal)) }
            },
            FrameVerdict::Accept => FrameReaction { copy: true, signalled: None },
        }
    }

    /// Delivers a frame to the reader, and signals the owner if it cannot.
    pub fn deliver(&self, data: Vec<u8>) -> (delivery: Delivery)
        ensures
            delivery.frame.message() == data,
            delivery.frame.to() == self.frames(),
            self.has_signalled(delivery.signalled, delivery_signal(delivery.frame.outcome())),
    {
        let frame = self.recv_tx.post(data);
        let signalled = match judge_delivery(frame.sent()) {
            Some(signal) => Some(self.signal(signal)),
            None => None,
        };
        Delivery { frame, signalled }
    }
}

/// A request of the link. The owner acknowledges a write when the browser has
/// taken the bytes, which keeps the writer from running ahead.
pub enum WriteCmd {
    Send(Vec<u8>, Outlet<Result<(), String>>),
}

impl WriteCmd {
    /// The bytes to write.
    pub open spec fn data(self) -> Vec<u8> {
        match self {
            WriteCmd::Send(data, _) => data,
        }
    }

    /// Where the write is acknowledged.
    pub open spec fn ack(self) -> Outlet<Result<(), String>> {
        match self {
            WriteCmd::Send(_, ack) => ack,
        }
    }
}

/// The link's ends of the channels to the owner.
pub struct Connected {
    pub write_tx: Outlet<WriteCmd>,
    pub recv_rx: flume::Receiver<Vec<u8>>,
}

/// Where the owner of a socket is.
pub enum OwnerState {
    /// The socket is being made.
    Creating,
    /// The socket is being opened.
    Opening,
    /// The link is being told that the socket is open.
    Connecting,
    /// The owner waits for a write.
    Idle,
    /// A write waits until the browser's backlog is known.
    Measuring(WriteCmd),
    /// A write waits until the browser's backlog is shorter.
    Holding(WriteCmd),
    /// A write waits until it is known that the socket is open.
    Checking(WriteCmd),
    /// The browser takes the bytes of a write, which is acknowledged here.
    Sending(Outlet<Result<(), String>>),
    /// The socket is given up.
    Stopped,
}

/// What happened to the owner of a socket.
pub enum OwnerEvent {
    /// The socket was made, or the browser refused with this error.
    Created(Result<(), String>),
    /// The link was closed or dropped.
    Close,
    /// A callback signalled; `None` if no callback is left.
    Signal(Option<Signal>),
    /// The link was told, and it is still there or not.
    Told(bool),
    /// The link writes; `None` if it cannot any more.
    Command(Option<WriteCmd>),
    /// This many bytes wait in the browser.
    Buffered(u32),
    /// The time is over that the owner was to wait.
    Waited,
    /// The socket is open, or not.
    Open(bool),
    /// The browser took the bytes, or refused with this error.
    Sent(Result<(), String>),
}

/// What the owner of a socket does next. Where it waits for several things, the
/// first of them that is there counts, in the order in which they are named.
pub enum OwnerAction {
    /// Wait for the link to be closed, or for a signal.
    AwaitOpen,
    /// Tell the link that the socket could not be opened, and stop.
    Fail(String),
    /// Tell the link that the socket is open.
    Tell,
    /// Wait for the link to be closed, for a signal, or for a write.
    AwaitCommand,
    /// Look how many bytes wait in the browser.
    Measure,
    /// Wait for the link to be closed, for a signal, or for this many
    /// milliseconds.
    Wait(u32),
    /// Look whether the socket is open.
    Check,
    /// Hand these bytes to the browser.
    Send(Vec<u8>),
    /// Acknowledge a write; then wait as for `AwaitCommand`, or stop if `stop`
    /// is set.
    Reply { ack: Outlet<Result<(), String>>, result: Result<(), String>, stop: bool },
    /// Detach the callbacks and close the socket.
    Stop,
}

/// What the owner says of a signal for which it gives an opening up.
pub open spec fn opening_text(signal: Option<Signal>) -> Seq<char> {
    match signal {
        Some(s) => match s.spec_text() {
            Some(text) => "WebSocket failed to open: Ok(Err(\""@ + text + "\"))"@,
            None => "WebSocket failed to open: Ok(Ok(()))"@,
        },
        None => "WebSocket failed to open: Err(Disconnected)"@,
    }
}

/// The owner of a socket.
pub struct SocketOwner {
    state: OwnerState,
}

impl OwnerState {
    /// One step of the owner: at `event` it goes from here to `next`, and does
    /// `action`. An event that the state does not wait for ends the socket.
    pub open spec fn steps(self, event: OwnerEvent, next: OwnerState, action: OwnerAction) -> bool {
        match (self, event) {
            (OwnerState::Creating, OwnerEvent::Created(Ok(_))) => {
                &&& next == OwnerState::Opening
                &&& action == OwnerAction::AwaitOpen
            },
            (OwnerState::Creating, OwnerEvent::Created(Err(error))) => {
                &&& next == OwnerState::Stopped
                &&& action matches OwnerAction::Fail(text) && text@
                    == "WebSocket creation failed: "@ + error@
            },
            (OwnerState::Opening, OwnerEvent::Signal(signal)) => if signal == Some(
                Signal::Opened,
            ) {
                &&& next == OwnerState::Connecting
                &&& action == OwnerAction::Tell
            } else {
                &&& next == OwnerState::Stopped
                &&& action matches OwnerAction::Fail(text) && text@ == opening_text(signal)
            },
            (OwnerState::Connecting, OwnerEvent::Told(true)) => {
                &&& next == OwnerState::Idle
                &&& action == OwnerAction::AwaitCommand
            },
            (OwnerState::Idle, OwnerEvent::Command(Some(command))) => {
                &&& next == OwnerState::Measuring(command)
                &&& action == OwnerAction::Measure
            },
            (OwnerState::Measuring(command), OwnerEvent::Buffered(bytes)) => if bytes
                > SEND_BACKLOG_BYTES {
                &&& next == OwnerState::Holding(command)
                &&& action == OwnerAction::Wait(BACKPRESSURE_POLL_MS)
            } else {
                &&& next == OwnerState::Checking(command)
                &&& action == OwnerAction::Check
            },
            (OwnerState::Holding(command), OwnerEvent::Waited) => {
                &&& next == OwnerState::Measuring(command)
                &&& action == OwnerAction::Measure
            },
            (OwnerState::Checking(command), OwnerEvent::Open(open)) => if open {
                &&& next == OwnerState::Sending(command.ack())
                &&& action == OwnerAction::Send(command.data())
            } else {
                &&& next == OwnerState::Stopped
                &&& action matches OwnerAction::Reply { ack, result: Err(text), stop } && ack
                    == command.ack() && text@ == "WebSocket is not open"@ && stop
            },
            (OwnerState::Sending(to), OwnerEvent::Sent(Ok(_))) => {
                &&& next == OwnerState::Idle
                &&& action == (OwnerAction::Reply { ack: to, result: Ok(()), stop: false })
            },
            (OwnerState::Sending(to), OwnerEvent::Sent(Err(error))) => {
                &&& next == OwnerState::Stopped
                &&& action matches OwnerAction::Reply { ack, result: Err(text), stop } && ack == to
                    && text@ == "WebSocket send failed: "@ + error@ && stop
            },
            _ => {
                &&& next == OwnerState::Stopped
                &&& action == OwnerAction::Stop
            },
        }
    }

    /// The write that the owner has taken and not acknowledged.
    pub open spec fn pending(self) -> Option<Outlet<Result<(), String>>> {
        match self {
            OwnerState::Measuring(command) => Some(command.ack()),
            OwnerState::Holding(command) => Some(command.ack()),
            OwnerState::Checking(command) => Some(command.ack()),
            OwnerState::Sending(ack) => Some(ack),
            _ => None,
        }
    }

    /// The bytes that the owner has taken and not handed to the browser.
    pub open spec fn unsent(self) -> Option<Vec<u8>> {
        match self {
            OwnerState::Measuring(command) => Some(command.data()),
            OwnerState::Holding(command) => Some(command.data()),
            OwnerState::Checking(command) => Some(command.data()),
            _ => None,
        }
    }
}

impl SocketOwner {
    /// Where the owner is.
    pub closed spec fn state(&self) -> OwnerState {
        self.state
    }

    /// The owner of a socket that is to be made.
    pub fn new() -> (owner: SocketOwner)
        ensures
            owner.state() == OwnerState::Creating,
    {
        SocketOwner { state: OwnerState::Creating }
    }

    /// Opens the socket and serves the writes of its link, one after the other,
    /// until the link is closed or a callback signals.
    pub fn run_socket(&mut self, event: OwnerEvent) -> (action: OwnerAction)
        ensures
            old(self).state().steps(event, final(self).state(), action),
    {
        let mut state = OwnerState::Stopped;
        std::mem::swap(&mut state, &mut self.state);
        match (state, event) {
            (OwnerState::Creating, OwnerEvent::Created(Ok(_))) => {
                self.state = OwnerState::Opening;
                OwnerAction::AwaitOpen
            },
            (OwnerState::Creating, OwnerEvent::Created(Err(error))) => {
                OwnerAction::Fail("WebSocket creation failed: ".to_owned().concat(error.as_str()))
            },
            (OwnerState::Opening, OwnerEvent::Signal(signal)) => {
                if let Some(Signal::Opened) = signal {
                    self.state = OwnerState::Connecting;
                    OwnerAction::Tell
                } else {
                    OwnerAction::Fail(describe_opening(signal))
                }
            },
            (OwnerState::Connecting, OwnerEvent::Told(true)) => {
                self.state = OwnerState::Idle;
                OwnerAction::AwaitCommand
            },
            (OwnerState::Idle, OwnerEvent::Command(Some(command))) => {
                self.state = OwnerState::Measuring(command);
                OwnerAction::Measure
            },
            (OwnerState::Measuring(command), OwnerEvent::Buffered(bytes)) => {
                if bytes > SEND_BACKLOG_BYTES {
                    self.state = OwnerState::Holding(command);
                    OwnerAction::Wait(BACKPRESSURE_POLL_MS)
                } else {
                    self.state = OwnerState::Checking(command);
                    OwnerAction::Check
                }
            },
            (OwnerState::Holding(command), OwnerEvent::Waited) => {
                self.state = OwnerState::Measuring(command);
                OwnerAction::Measure
            },
            (OwnerState::Checking(command), OwnerEvent::Open(open)) => {
                let WriteCmd::Send(data, ack) = command;
                if open {
                    self.state = OwnerState::Sending(ack);
                    OwnerAction::Send(data)
                } else {
                    let text = "WebSocket is not open".to_owned();
                    OwnerAction::Reply { ack, result: Err(text), stop: true }
                }
            },
            (OwnerState::Sending(ack), OwnerEvent::Sent(Ok(_))) => {
                self.state = OwnerState::Idle;
                OwnerAction::Reply { ack, result: Ok(()), stop: false }
            },
            (OwnerState::Sending(ack), OwnerEvent::Sent(Err(error))) => {
                let text = "WebSocket send failed: ".to_owned().concat(error.as_str());
                OwnerAction::Reply { ack, result: Err(text), stop: true }
            },
            _ => OwnerAction::Stop,
        }
    }
}

/// What the owner says of a signal for which it gives an opening up.
fn describe_opening(signal: Option<Signal>) -> (text: String)
    ensures
        text@ == opening_text(signal),
{
    match signal {
        Some(s) => match s.text() {
            Some(text) => joined("WebSocket failed to open: Ok(Err(\"", text, "\"))"),
            None => "WebSocket failed to open: Ok(Ok(()))".to_owned(),
        },
        None => "WebSocket failed to open: Err(Disconnected)".to_owned(),
    }
}

/// Acknowledges a write. Nothing comes of it if the writer is gone.
pub fn reply(ack: Outlet<Result<(), String>>, result: Result<(), String>) -> (posted: Posted<
    Result<(), String>,
>)
    ensures
        posted.message() == result,
        posted.to() == ack.sender(),
{
    ack.post(result)
}

/// A link that was told that its socket is open.
pub struct Told {
    /// Where the writes of the link come from.
    pub write_rx: flume::Receiver<WriteCmd>,
    pub posted: Posted<Result<Connected, String>>,
    /// Whether the link is still there.
    pub there: bool,
}

/// Tells the link that its socket is open, and gives it its ends of the
/// channels.
pub fn tell(
    result_tx: &Outlet<Result<Connected, String>>,
    recv_rx: flume::Receiver<Vec<u8>>,
) -> (told: Told)
    ensures
        told.posted.message() matches Ok(connected) && connected.recv_rx == recv_rx
            && connected.write_tx.inlet() == told.write_rx && connected.write_tx.limit() is None,
        told.posted.to() == result_tx.sender(),
        told.there == (told.posted.outcome() == Sent::Done),
{
    let (write_tx, write_rx) = channel::<WriteCmd>(None);
    let posted = result_tx.post(Ok(Connected { write_tx, recv_rx }));
    let there: bool = match posted.sent() {
        Sent::Done => true,
        _ => false,
    };
    Told { write_rx, posted, there }
}

/// Tells the link that its socket could not be opened.
pub fn fail(result_tx: &Outlet<Result<Connected, String>>, text: String) -> (posted: Posted<
    Result<Connected, String>,
>)
    ensures
        posted.message() == Err::<Connected, String>(text),
        posted.to() == result_tx.sender(),
{
    result_tx.post(Err(text))
}

/// Wherever the owner is, closing the link ends it at once, and so does a
/// signal once the socket is open. Nothing happens after the end.
pub proof fn closing_ends_the_owner(
    state: OwnerState,
    signal: Option<Signal>,
    event: OwnerEvent,
    next: OwnerState,
    action: OwnerAction,
)
    requires
        state.steps(event, next, action),
    ensures
        event == OwnerEvent::Close ==> next == OwnerState::Stopped && action == OwnerAction::Stop,
        event == OwnerEvent::Signal(signal) && state != OwnerState::Opening ==> next
            == OwnerState::Stopped && action == OwnerAction::Stop,
        state == OwnerState::Stopped ==> next == OwnerState::Stopped && action
            == OwnerAction::Stop,
{
}

/// A write is acknowledged as done only when the browser has taken its bytes,
/// and the one that is acknowledged is the one that was taken. After a write
/// that failed the socket is given up.
pub proof fn acknowledged_means_taken_by_the_browser(
    state: OwnerState,
    event: OwnerEvent,
    next: OwnerState,
    action: OwnerAction,
)
    requires
        state.steps(event, next, action),
    ensures
        action matches OwnerAction::Reply { ack, result, stop } ==> {
            &&& state.pending() == Some(ack)
            &&& next.pending() is None
            &&& stop == (result is Err)
            &&& result is Err <==> next == OwnerState::Stopped
            &&& result is Ok ==> event matches OwnerEvent::Sent(Ok(_))
        },
{
}

/// Bytes are handed to the browser only if the socket is open and few enough
/// bytes wait there.
pub proof fn long_backlogs_hold_writes(
    state: OwnerState,
    event: OwnerEvent,
    next: OwnerState,
    action: OwnerAction,
)
    requires
        state.steps(event, next, action),
    ensures
        next is Checking ==> (event matches OwnerEvent::Buffered(bytes) && bytes
            <= SEND_BACKLOG_BYTES),
        action is Send ==> state is Checking && event == OwnerEvent::Open(true),
        state is Measuring ==> (event matches OwnerEvent::Buffered(bytes) ==> bytes
            > SEND_BACKLOG_BYTES ==> next is Holding && next.unsent() == state.unsent()
            && next.pending() == state.pending()),
{
}

/// The bytes of the writes that an owner took while it went through `states`.
pub open spec fn taken(states: Seq<OwnerState>, events: Seq<OwnerEvent>) -> Seq<Vec<u8>>
    decreases events.len(),
{
    if events.len() == 0 {
        seq![]
    } else {
        let before = taken(states, events.drop_last());
        match (states[events.len() - 1], events.last()) {
            (OwnerState::Idle, OwnerEvent::Command(Some(command))) => before.push(command.data()),
            _ => before,
        }
    }
}

/// The bytes that an owner handed to the browser.
pub open spec fn handed(actions: Seq<OwnerAction>) -> Seq<Vec<u8>>
    decreases actions.len(),
{
    if actions.len() == 0 {
        seq![]
    } else {
        let before = handed(actions.drop_last());
        match actions.last() {
            OwnerAction::Send(data) => before.push(data),
            _ => before,
        }
    }
}

/// An owner went through `states` at `events`, and did `actions`.
pub open spec fn is_run(
    states: Seq<OwnerState>,
    events: Seq<OwnerEvent>,
    actions: Seq<OwnerAction>,
) -> bool {
    &&& states.len() == events.len() + 1
    &&& actions.len() == events.len()
    &&& states[0] == OwnerState::Creating
    &&& forall|i: int|
        0 <= i < events.len() ==> #[trigger] states[i].steps(events[i], states[i + 1], actions[i])
}

/// The browser gets the bytes of the writes in the order in which the owner
/// took them, each write once and unchanged. All of them have been handed on
/// but the one that is being served; when the owner stops, the last one may be
/// dropped.
pub proof fn writes_keep_their_order(
    states: Seq<OwnerState>,
    events: Seq<OwnerEvent>,
    actions: Seq<OwnerAction>,
)
    requires
        is_run(states, events, actions),
    ensures
        match states.last().unsent() {
            Some(data) => taken(states, events) == handed(actions).push(data),
            None => {
                ||| taken(states, events) == handed(actions)
                ||| {
                    &&& states.last() == OwnerState::Stopped
                    &&& taken(states, events).len() == handed(actions).len() + 1
                    &&& taken(states, events).drop_last() == handed(actions)
                }
            },
        },
    decreases events.len(),
{
    if events.len() > 0 {
        let n = events.len() - 1;
        let earlier = states.drop_last();
        assert forall|i: int| 0 <= i < n implies #[trigger] earlier[i].steps(
            events.drop_last()[i],
            earlier[i + 1],
            actions.drop_last()[i],
        ) by {
            assert(states[i].steps(events[i], states[i + 1], actions[i]));
        }
        writes_keep_their_order(earlier, events.drop_last(), actions.drop_last());
        assert(states[n].steps(events[n], states[n + 1], actions[n]));
        lemma_taken(states, earlier, events.drop_last());
        let t = taken(earlier, events.drop_last());
        if let Some(data) = states[n].unsent() {
            assert(t.drop_last() =~= handed(actions.drop_last()));
        }
    }
}

/// The states beyond the events do not matter to what was taken.
proof fn lemma_taken(a: Seq<OwnerState>, b: Seq<OwnerState>, events: Seq<OwnerEvent>)
    requires
        a.len() >= events.len(),
        b.len() >= events.len(),
        forall|i: int| 0 <= i < events.len() ==> a[i] == b[i],
    ensures
        taken(a, events) == taken(b, events),
    decreases events.len(),
{
    if events.len() > 0 {
        lemma_taken(a, b, events.drop_last());
    }
}

/// Writes make progress: an idle owner takes every write, of whatever length;
/// with a short backlog it looks whether the socket is open; into an open socket
/// it hands the very bytes of the write; and when the browser has taken them it
/// acknowledges that write and is idle again. A write that waits for a long
/// backlog is looked at again.
pub proof fn writes_make_progress(
    data: Vec<u8>,
    ack: Outlet<Result<(), String>>,
    bytes: u32,
    next: OwnerState,
    action: OwnerAction,
)
    ensures
        OwnerState::Idle.steps(
            OwnerEvent::Command(Some(WriteCmd::Send(data, ack))),
            next,
            action,
        ) ==> next == OwnerState::Measuring(WriteCmd::Send(data, ack)) && action
            == OwnerAction::Measure,
        OwnerState::Measuring(WriteCmd::Send(data, ack)).steps(
            OwnerEvent::Buffered(bytes),
            next,
            action,
        ) ==> if bytes <= 1_048_576 {
            next == OwnerState::Checking(WriteCmd::Send(data, ack)) && action
                == OwnerAction::Check
        } else {
            next == OwnerState::Holding(WriteCmd::Send(data, ack)) && action
                == OwnerAction::Wait(4)
        },
        OwnerState::Holding(WriteCmd::Send(data, ack)).steps(OwnerEvent::Waited, next, action)
            ==> next == OwnerState::Measuring(WriteCmd::Send(data, ack)) && action
            == OwnerAction::Measure,
        OwnerState::Checking(WriteCmd::Send(data, ack)).steps(
            OwnerEvent::Open(true),
            next,
            action,
        ) ==> next == OwnerState::Sending(ack) && action == OwnerAction::Send(data),
        OwnerState::Sending(ack).steps(OwnerEvent::Sent(Ok(())), next, action) ==> next
            == OwnerState::Idle && action == (OwnerAction::Reply {
            ack,
            result: Ok(()),
            stop: false,
        }),
{
}

/// A write that meets an open socket, a short backlog and a browser that takes
/// it is handed over and acknowledged, and the owner is ready for the next one.
pub proof fn a_write_that_meets_an_open_socket_is_done(
    data: Vec<u8>,
    ack: Outlet<Result<(), String>>,
    bytes: u32,
    states: Seq<OwnerState>,
    actions: Seq<OwnerAction>,
)
    requires
        bytes <= 1_048_576,
        states.len() == 5,
        actions.len() == 4,
        states[0] == OwnerState::Idle,
        states[0].steps(
            OwnerEvent::Command(Some(WriteCmd::Send(data, ack))),
            states[1],
            actions[0],
        ),
        states[1].steps(OwnerEvent::Buffered(bytes), states[2], actions[1]),
        states[2].steps(OwnerEvent::Open(true), states[3], actions[2]),
        states[3].steps(OwnerEvent::Sent(Ok(())), states[4], actions[3]),
    ensures
        actions[2] == OwnerAction::Send(data),
        actions[3] == (OwnerAction::Reply { ack, result: Ok(()), stop: false }),
        states[4] == OwnerState::Idle,
{
}

/// An owner gives its socket up for a reason only: the link was closed, a callback
/// signalled, the link cannot write any more or is gone, the socket could not be
/// made, was found not to be open, or refused the bytes. What it waits for does
/// not stop it.
pub proof fn owners_stop_for_a_reason(
    state: OwnerState,
    event: OwnerEvent,
    next: OwnerState,
    action: OwnerAction,
)
    requires
        state.steps(event, next, action),
        match state {
            OwnerState::Creating => event is Created,
            OwnerState::Opening => event is Signal || event is Close,
            OwnerState::Connecting => event is Told,
            OwnerState::Idle => event is Command || event is Signal || event is Close,
            OwnerState::Measuring(_) => event is Buffered,
            OwnerState::Holding(_) => event is Waited || event is Signal || event is Close,
            OwnerState::Checking(_) => event is Open,
            OwnerState::Sending(_) => event is Sent,
            OwnerState::Stopped => false,
        },
    ensures
        next == OwnerState::Stopped <==> match event {
            OwnerEvent::Close => true,
            OwnerEvent::Signal(signal) => !(state == OwnerState::Opening && signal == Some(
                Signal::Opened,
            )),
            OwnerEvent::Command(command) => command is None,
            OwnerEvent::Told(there) => !there,
            OwnerEvent::Created(result) => result is Err,
            OwnerEvent::Open(open) => !open,
            OwnerEvent::Sent(result) => result is Err,
            OwnerEvent::Buffered(_) => false,
            OwnerEvent::Waited => false,
        },
        action == OwnerAction::Stop ==> next == OwnerState::Stopped,
        next == OwnerState::Stopped ==> action is Stop || action is Fail || action is Reply,
{
}

/// A socket that opens is told to its link, which can then write. One that does
/// not is reported, and one that is given up before says nothing.
pub proof fn openings_are_reported(
    error: String,
    signal: Option<Signal>,
    next: OwnerState,
    action: OwnerAction,
)
    ensures
        OwnerState::Creating.steps(OwnerEvent::Created(Ok(())), next, action) ==> next
            == OwnerState::Opening && action == OwnerAction::AwaitOpen,
        OwnerState::Creating.steps(OwnerEvent::Created(Err(error)), next, action) ==> next
            == OwnerState::Stopped && (action matches OwnerAction::Fail(text) && text@.len()
            > error@.len() && text@.skip(text@.len() - error@.len()) == error@),
        OwnerState::Opening.steps(OwnerEvent::Signal(Some(Signal::Opened)), next, action) ==> next
            == OwnerState::Connecting && action == OwnerAction::Tell,
        signal != Some(Signal::Opened) && OwnerState::Opening.steps(
            OwnerEvent::Signal(signal),
            next,
            action,
        ) ==> action is Fail,
        OwnerState::Opening.steps(OwnerEvent::Close, next, action) ==> action
            == OwnerAction::Stop,
        OwnerState::Connecting.steps(OwnerEvent::Told(true), next, action) ==> next
            == OwnerState::Idle && action == OwnerAction::AwaitCommand,
{
    reveal_strlit("WebSocket creation failed: ");
    if OwnerState::Creating.steps(OwnerEvent::Created(Err(error)), next, action) {
        let text = action->Fail_0;
        assert(text@.skip(text@.len() - error@.len()) =~= error@);
    }
}

/// A write that cannot be done is answered with an error, to the writer that it
/// came from, and ends the socket.
pub proof fn refused_writes_are_answered(
    data: Vec<u8>,
    to: Outlet<Result<(), String>>,
    error: String,
    next: OwnerState,
    action: OwnerAction,
)
    ensures
        OwnerState::Checking(WriteCmd::Send(data, to)).steps(
            OwnerEvent::Open(false),
            next,
            action,
        ) ==> (action matches OwnerAction::Reply { ack, result, stop } && ack == to
            && result is Err && stop),
        OwnerState::Sending(to).steps(OwnerEvent::Sent(Err(error)), next, action) ==> (
        action matches OwnerAction::Reply { ack, result: Err(text), stop } && ack == to && stop
            && text@.len() > error@.len() && text@.skip(text@.len() - error@.len()) == error@),
{
    reveal_strlit("WebSocket send failed: ");
    if OwnerState::Sending(to).steps(OwnerEvent::Sent(Err(error)), next, action) {
        let text = action->Reply_result->Err_0;
        assert(text@.skip(text@.len() - error@.len()) =~= error@);
    }
}

/// A frame reaches the reader exactly if it is binary, holds bytes and is no
/// longer than the link takes; an empty one is passed over, and any other is
/// signalled, each fault in its own way. A longer limit accepts what a shorter
/// one does.
pub proof fn frames_that_fit_are_accepted(length: u32, max_mtu: u32, longer: u32)
    ensures
        frame_verdict(Some(length), max_mtu) == FrameVerdict::Accept <==> 1 <= length <= max_mtu,
        frame_verdict(Some(length), max_mtu) == FrameVerdict::Ignore <==> length == 0,
        frame_verdict(Some(length), max_mtu) == FrameVerdict::Reject(Signal::FrameTooLong)
            <==> length > max_mtu,
        frame_verdict(None, max_mtu) == FrameVerdict::Reject(Signal::NotBinary),
        max_mtu <= longer && frame_verdict(Some(length), max_mtu) == FrameVerdict::Accept
            ==> frame_verdict(Some(length), longer) == FrameVerdict::Accept,
{
}

/// A frame that was delivered signals nothing; one that was not signals why, so
/// that the owner gives an overloaded or deserted link up.
pub proof fn undelivered_frames_are_signalled(sent: Sent, next: OwnerState, action: OwnerAction)
    ensures
        delivery_signal(sent) is None <==> sent == Sent::Done,
        delivery_signal(sent) == Some(Signal::BacklogExceeded) <==> sent == Sent::Full,
        delivery_signal(sent) == Some(Signal::StreamClosed) <==> sent == Sent::Disconnected,
        sent != Sent::Done && OwnerState::Idle.steps(
            OwnerEvent::Signal(delivery_signal(sent)),
            next,
            action,
        ) ==> next == OwnerState::Stopped,
{
}

/// What was signalled is what was to be signalled, to the owner of the socket.
pub proof fn signals_reach_the_owner(
    callbacks: SocketCallbacks,
    signalled: Option<Posted<Signal>>,
    expected: Option<Signal>,
)
    requires
        callbacks.has_signalled(signalled, expected),
    ensures
        signalled is Some <==> expected is Some,
        signalled matches Some(posted) ==> Some(posted.message()) == expected && posted.to()
            == callbacks.signals(),
{
}

/// Every signal but the opening says something, and different signals say
/// different things.
pub proof fn signals_say_different_things(a: Signal, b: Signal)
    ensures
        a.spec_text() is None <==> a == Signal::Opened,
        a.spec_text() == b.spec_text() ==> a == b,
{
    reveal_strlit("WebSocket error");
    reveal_strlit("WebSocket closed");
    reveal_strlit("WebSocket frame exceeds link MTU");
    reveal_strlit("WebSocket receive backlog exceeded");
    reveal_strlit("WebSocket receive stream closed");
    reveal_strlit("WebSocket received a non-binary frame");
    if a.spec_text() == b.spec_text() {
        if let Some(text) = a.spec_text() {
            let same = b.spec_text()->Some_0;
            assert(text.len() == same.len());
            assert(text[10] == same[10]);
        }
    }
}

/// An opening that failed says which signal it was for.
pub proof fn failed_openings_name_the_signal(signal: Signal)
    requires
        signal != Signal::Opened,
    ensures
        opening_text(Some(signal)).skip(34).take(signal.spec_text()->Some_0.len() as int)
            == signal.spec_text()->Some_0,
        opening_text(Some(signal)) != opening_text(None),
{
    reveal_strlit("WebSocket failed to open: Ok(Err(\"");
    reveal_strlit("\"))");
    reveal_strlit("WebSocket failed to open: Err(Disconnected)");
    let text = opening_text(Some(signal));
    assert(text.skip(34).take(signal.spec_text()->Some_0.len() as int)
        =~= signal.spec_text()->Some_0);
    assert(text[26] == 'O');
    assert(opening_text(None)[26] == 'E');
}

} // verus!
