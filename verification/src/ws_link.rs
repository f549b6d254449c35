//! WebSocket links: reading frames as a stream of bytes, writing through the
//! owner of the socket, and making links.

use crate::channel::{channel, Look, Outlet, Posted, Received, Sent};
use crate::join::{needs_repoll, recv_async_anywhere, Disconnected, RecvStep};
use crate::text::joined;
use crate::ws_socket::{Connected, WriteCmd};
use vstd::prelude::*;

verus! {

/// The bytes of a frame that were not read yet.
struct Leftovers {
    frame: Vec<u8>,
    start: usize,
}

impl Leftovers {
    #[verifier::type_invariant]
    spec fn is_not_empty(self) -> bool {
        self.start < self.frame@.len()
    }

    spec fn bytes(self) -> Seq<u8> {
        self.frame@.skip(self.start as int)
    }
}

/// A link over a WebSocket, which another thread owns.
pub struct LinkUnicastWs {
    /// Where writes go to the owner of the socket.
    write_tx: Outlet<WriteCmd>,
    recv_rx: flume::Receiver<Vec<u8>>,
    src_locator: String,
    dst_locator: String,
    leftovers: Option<Leftovers>,
    /// Dropping this ends the owner of the socket.
    io_close_tx: Outlet<()>,
    mtu: u16,
    reliable: bool,
}

/// The first `n` of these bytes fit into `space` bytes.
pub open spec fn fitting(available: nat, space: nat) -> nat {
    if available < space {
        available
    } else {
        space
    }
}

/// What stays of `bytes` once the first `n` were read. A frame that was read
/// to its end is gone.
pub open spec fn rest(bytes: Seq<u8>, n: nat) -> Option<Seq<u8>> {
    if n < bytes.len() {
        Some(bytes.skip(n as int))
    } else {
        None
    }
}

/// `buffer` with `bytes` written to it from place `from` on.
pub open spec fn written(buffer: Seq<u8>, from: int, bytes: Seq<u8>) -> Seq<u8> {
    buffer.take(from) + bytes + buffer.skip(from + bytes.len())
}

/// `from` bytes of `buffer` are filled. What a read of `bytes` does: it fills
/// the buffer as far as they go, to become `after`, and leaves `left` for the
/// next read.
pub open spec fn is_read(
    bytes: Seq<u8>,
    buffer: Seq<u8>,
    from: nat,
    n: nat,
    after: Seq<u8>,
    left: Option<Seq<u8>>,
) -> bool {
    &&& n == fitting(bytes.len(), (buffer.len() - from) as nat)
    &&& after == written(buffer, from as int, bytes.take(n as int))
    &&& left == rest(bytes, n)
}

/// Copies the unread bytes of `frame` into `buffer`, from place `from` on.
fn copy_out(frame: Vec<u8>, start: usize, buffer: &mut [u8], from: usize) -> (copied: (
    usize,
    Option<Leftovers>,
))
    requires
        start <= frame@.len(),
        from <= old(buffer)@.len(),
    ensures
        final(buffer)@.len() == old(buffer)@.len(),
        is_read(
            frame@.skip(start as int),
            old(buffer)@,
            from as nat,
            copied.0 as nat,
            final(buffer)@,
            match copied.1 {
                Some(leftovers) => Some(leftovers.bytes()),
                None => None,
            },
        ),
{
    let available: usize = frame.len() - start;
    let space: usize = buffer.len() - from;
    let n: usize = if available < space {
        available
    } else {
        space
    };
    let mut i: usize = 0;
    while i < n
        invariant
            0 <= i <= n,
            start + n <= frame@.len() <= usize::MAX,
            from + n <= old(buffer)@.len() <= usize::MAX,
            buffer@.len() == old(buffer)@.len(),
            forall|k: int| 0 <= k < from ==> buffer@[k] == old(buffer)@[k],
            forall|k: int| from <= k < from + i ==> buffer@[k] == frame@[start + (k - from)],
            forall|k: int| from + i <= k < buffer@.len() ==> buffer@[k] == old(buffer)@[k],
        decreases n - i,
    {
        buffer[from + i] = frame[start + i];
        i = i + 1;
    }
    let ghost bytes = frame@.skip(start as int);
    assert(buffer@ =~= written(old(buffer)@, from as int, bytes.take(n as int)));
    let end: usize = start + n;
    if end < frame.len() {
        assert(bytes.skip(n as int) =~= frame@.skip(end as int));
        (n, Some(Leftovers { frame, start: end }))
    } else {
        (n, None)
    }
}

/// How a read goes on.
pub enum ReadStep {
    /// This many bytes were read, or the socket is gone.
    Done(Result<usize, String>),
    /// No frame is there. Wait for a repoll timer, then read again.
    Repoll,
    /// Wait for the next frame, and hand it to `received`.
    AwaitReceiver,
}

/// How a read of a whole buffer goes on.
pub enum ReadExactStep {
    /// The buffer is full, or the socket is gone.
    Done(Result<(), String>),
    /// This many bytes are filled. Go on with them.
    More(usize),
    /// No frame is there. Wait for a repoll timer, then go on.
    Repoll,
    /// Wait for the next frame, and hand it to `received_exact`.
    AwaitReceiver,
}

impl ReadExactStep {
    /// The single read that brought a read of a whole buffer, of which `filled`
    /// bytes were filled, to this step.
    pub open spec fn one_read(self, filled: usize) -> ReadStep {
        match self {
            ReadExactStep::Done(Ok(_)) => ReadStep::Done(Ok(0)),
            ReadExactStep::Done(Err(text)) => ReadStep::Done(Err(text)),
            ReadExactStep::More(now) => ReadStep::Done(Ok((now - filled) as usize)),
            ReadExactStep::Repoll => ReadStep::Repoll,
            ReadExactStep::AwaitReceiver => ReadStep::AwaitReceiver,
        }
    }
}

/// A write that waits to be acknowledged.
pub struct PendingWrite {
    /// Where the acknowledgement comes from.
    pub ack_rx: flume::Receiver<Result<(), String>>,
    /// The bytes that are written.
    pub len: usize,
    /// What was sent to the owner of the socket.
    pub posted: Posted<WriteCmd>,
}

impl PendingWrite {
    /// The bytes were sent to `owner`, which acknowledges them once.
    pub open spec fn writes(&self, bytes: Seq<u8>, owner: flume::Sender<WriteCmd>) -> bool {
        &&& self.len == bytes.len()
        &&& self.posted.to() == owner
        &&& self.posted.outcome() == Sent::Done
        &&& self.posted.message().data()@ == bytes
        &&& self.posted.message().ack().inlet() == self.ack_rx
        &&& self.posted.message().ack().limit() == Some(1nat)
    }
}

/// A write that the owner of the socket did not take.
pub struct FailedWrite {
    /// The error in words.
    pub text: String,
    /// What was handed to the owner.
    pub posted: Posted<WriteCmd>,
}

/// How a link is authenticated.
#[derive(Clone, Copy, Debug, PartialEq, Eq, Structural)]
pub enum LinkAuthId {
    Ws,
}

/// The ends of the channels by which a link is opened.
pub struct Opening {
    /// Where the owner of the socket reports.
    pub result_tx: Outlet<Result<Connected, String>>,
    /// Where the link learns what the owner reports.
    pub result_rx: flume::Receiver<Result<Connected, String>>,
    /// Kept by the link: closes the socket.
    pub close_tx: Outlet<()>,
    /// Where the owner of the socket learns that the link is closed.
    pub close_rx: flume::Receiver<()>,
}

impl Opening {
    /// The ends belong together, and each channel has room for one message.
    pub open spec fn wf(&self) -> bool {
        &&& self.result_tx.inlet() == self.result_rx
        &&& self.result_tx.limit() == Some(1nat)
        &&& self.close_tx.inlet() == self.close_rx
        &&& self.close_tx.limit() == Some(1nat)
    }
}

/// What a link needs to know of its protocol.
pub struct LinkConfig {
    /// The protocol of the link's own locator.
    pub locator_prefix: String,
    /// The most bytes that are written at once.
    pub mtu: u16,
    pub reliable: bool,
}

/// A link as text.
pub open spec fn link_text(dst_locator: Seq<char>) -> Seq<char> {
    "wasm-client => "@ + dst_locator
}

/// What a link says when its socket is gone.
pub open spec fn read_error_text(dst_locator: Seq<char>) -> Seq<char> {
    "Read error on WebSocket link "@ + link_text(dst_locator)
        + ": receiving on a closed channel"@
}

/// What a link says when the owner of its socket is gone.
pub open spec fn write_error_text(dst_locator: Seq<char>) -> Seq<char> {
    "Write error on WebSocket link "@ + link_text(dst_locator) + ": sending on a closed channel"@
}

impl LinkUnicastWs {
    /// The bytes of a frame that were received and not read yet.
    pub closed spec fn left(&self) -> Option<Seq<u8>> {
        match self.leftovers {
            Some(leftovers) => Some(leftovers.bytes()),
            None => None,
        }
    }

    /// Where the link goes.
    pub closed spec fn dst(&self) -> Seq<char> {
        self.dst_locator@
    }

    /// Where the link comes from.
    pub closed spec fn src(&self) -> Seq<char> {
        self.src_locator@
    }

    /// Where the writes go.
    pub closed spec fn writes(&self) -> flume::Sender<WriteCmd> {
        self.write_tx.sender()
    }

    /// The writes that wait for the owner at most; there is no limit if there is
    /// none here.
    pub closed spec fn write_backlog(&self) -> Option<nat> {
        self.write_tx.limit()
    }

    /// Where the frames come from.
    pub closed spec fn frames(&self) -> flume::Receiver<Vec<u8>> {
        self.recv_rx
    }

    /// What wakes the owner of the socket when the link is closed.
    pub closed spec fn closing(&self) -> flume::Sender<()> {
        self.io_close_tx.sender()
    }

    /// The most bytes that are written at once.
    pub closed spec fn mtu(&self) -> u16 {
        self.mtu
    }

    pub closed spec fn reliable(&self) -> bool {
        self.reliable
    }

    /// The link writes and reads through the ends that its socket gave it.
    pub open spec fn is_over(&self, connected: Connected) -> bool {
        &&& self.writes() == connected.write_tx.sender()
        &&& self.write_backlog() == connected.write_tx.limit()
        &&& self.frames() == connected.recv_rx
    }

    /// Nothing but the unread bytes differs.
    pub open spec fn is_same_link(&self, other: LinkUnicastWs) -> bool {
        &&& self.dst() == other.dst()
        &&& self.src() == other.src()
        &&& self.mtu() == other.mtu()
        &&& self.reliable() == other.reliable()
        &&& self.writes() == other.writes()
        &&& self.write_backlog() == other.write_backlog()
        &&& self.frames() == other.frames()
        &&& self.closing() == other.closing()
    }

    /// The channels by which a link is opened. The thread that serves sockets
    /// runs the owner with its ends.
    pub fn new() -> (opening: Opening)
        ensures
            opening.wf(),
    {
        let (result_tx, result_rx) = channel::<Result<Connected, String>>(Some(1));
        let (close_tx, close_rx) = channel::<()>(Some(1));
        Opening { result_tx, result_rx, close_tx, close_rx }
    }

    /// The owner of the socket reported, or is gone. The link goes to
    /// `dst_locator`.
    pub fn opened(
        report: Result<Result<Connected, String>, Disconnected>,
        close_tx: Outlet<()>,
        dst_locator: String,
        config: LinkConfig,
    ) -> (link: Result<LinkUnicastWs, String>)
        ensures
            match (report, link) {
                (Ok(Ok(connected)), Ok(l)) => {
                    &&& l.left() is None
                    &&& l.writes() == connected.write_tx.sender()
                    &&& l.write_backlog() == connected.write_tx.limit()
                    &&& l.frames() == connected.recv_rx
                    &&& l.closing() == close_tx.sender()
                    &&& l.dst() == dst_locator@
                    &&& l.src() == config.locator_prefix@ + "/wasm-client"@
                    &&& l.mtu() == config.mtu
                    &&& l.reliable() == config.reliable
                },
                (Ok(Err(error)), Err(text)) => text@ == error@,
                (Err(_), Err(text)) => text@
                    == "I/O worker channel closed: receiving on a closed channel"@,
                _ => false,
            },
            link is Ok <==> (report matches Ok(Ok(_))),
            link matches Ok(l) ==> l.is_over(report->Ok_0->Ok_0) && l.left() is None && l.dst()
                == dst_locator@ && l.closing() == close_tx.sender(),
    {
        match report {
            Ok(Ok(connected)) => {
                let src_locator = config.locator_prefix.concat("/wasm-client");
                Ok(
                    LinkUnicastWs {
                        write_tx: connected.write_tx,
                        recv_rx: connected.recv_rx,
                        src_locator,
                        dst_locator,
                        leftovers: None,
                        io_close_tx: close_tx,
                        mtu: config.mtu,
                        reliable: config.reliable,
                    },
                )
            },
            Ok(Err(error)) => Err(error),
            Err(_) => Err(
                "I/O worker channel closed: receiving on a closed channel".to_owned(),
            ),
        }
    }

    /// Closes the link. The owner of the socket is woken even if it waits for
    /// the browser to take bytes.
    pub fn close(&self) -> (closed: Result<Posted<()>, String>)
        ensures
            closed matches Ok(posted) && posted.to() == self.closing(),
    {
        Ok(self.io_close_tx.post(()))
    }

    /// What a write comes to that was sent to the owner of the socket, or could
    /// not be.
    pub fn write_sent(
        &self,
        posted: Posted<WriteCmd>,
        ack_rx: flume::Receiver<Result<(), String>>,
        len: usize,
    ) -> (pending: Result<PendingWrite, FailedWrite>)
        ensures
            match pending {
                Ok(write) => posted.outcome() == Sent::Done && write == (PendingWrite {
                    ack_rx,
                    len,
                    posted,
                }),
                Err(failed) => {
                    &&& posted.outcome() != Sent::Done
                    &&& failed.posted == posted
                    &&& failed.text@ == write_error_text(self.dst())
                },
            },
    {
        match posted.sent() {
            Sent::Done => Ok(PendingWrite { ack_rx, len, posted }),
            _ => {
                let name = self.text();
                let text = joined(
                    "Write error on WebSocket link ",
                    name.as_str(),
                    ": sending on a closed channel",
                );
                Err(FailedWrite { text, posted })
            },
        }
    }

    /// What a write of `bytes` comes to: they were handed to the owner of the
    /// socket, which takes them or is gone.
    pub open spec fn has_written(
        &self,
        bytes: Seq<u8>,
        pending: Result<PendingWrite, FailedWrite>,
    ) -> bool {
        match pending {
            Ok(write) => write.writes(bytes, self.writes()),
            Err(failed) => {
                &&& failed.text@ == write_error_text(self.dst())
                &&& failed.posted.to() == self.writes()
                &&& failed.posted.message().data()@ == bytes
                &&& failed.posted.outcome() != Sent::Done
                &&& self.write_backlog() is None ==> failed.posted.outcome()
                    == Sent::Disconnected
            },
        }
    }

    /// Writes `buffer`: hands it to the owner of the socket, which acknowledges
    /// it.
    pub fn write(&self, buffer: &[u8]) -> (pending: Result<PendingWrite, FailedWrite>)
        ensures
            self.has_written(buffer@, pending),
    {
        let (ack_tx, ack_rx) = channel::<Result<(), String>>(Some(1));
        let (command, len) = write_command(buffer, ack_tx);
        let posted = self.write_tx.post(command);
        self.write_sent(posted, ack_rx, len)
    }

    /// Goes on with a read into `buffer`, of which `from` bytes are filled, by
    /// the bytes that were received before. Says how many there were; none
    /// were left if it says nothing.
    fn read_leftovers(&mut self, buffer: &mut [u8], from: usize) -> (read: Option<usize>)
        requires
            from <= old(buffer)@.len(),
        ensures
            final(buffer)@.len() == old(buffer)@.len(),
            final(self).is_same_link(*old(self)),
            match (old(self).left(), read) {
                (Some(bytes), Some(n)) => is_read(
                    bytes,
                    old(buffer)@,
                    from as nat,
                    n as nat,
                    final(buffer)@,
                    final(self).left(),
                ),
                (None, None) => final(buffer)@ == old(buffer)@ && final(self).left() is None,
                _ => false,
            },
    {
        match self.leftovers.take() {
            Some(leftovers) => {
                proof {
                    use_type_invariant(&leftovers);
                }
                let (n, left) = copy_out(leftovers.frame, leftovers.start, buffer, from);
                self.leftovers = left;
                Some(n)
            },
            None => None,
        }
    }

    /// The next frame came, or the socket is gone. No byte is left of the frame
    /// before. `from` bytes of `buffer` are filled.
    fn read_frame(
        &mut self,
        frame: Result<Vec<u8>, Disconnected>,
        buffer: &mut [u8],
        from: usize,
    ) -> (read: Result<usize, String>)
        requires
            old(self).left() is None,
            from <= old(buffer)@.len(),
        ensures
            final(buffer)@.len() == old(buffer)@.len(),
            final(self).is_same_link(*old(self)),
            match (frame, read) {
                (Ok(bytes), Ok(n)) => is_read(
                    bytes@,
                    old(buffer)@,
                    from as nat,
                    n as nat,
                    final(buffer)@,
                    final(self).left(),
                ),
                (Err(_), Err(text)) => {
                    &&& text@ == read_error_text(old(self).dst())
                    &&& final(buffer)@ == old(buffer)@
                    &&& final(self).left() is None
                },
                _ => false,
            },
    {
        match frame {
            Ok(bytes) => {
                assert(bytes@.skip(0) =~= bytes@);
                let (n, left) = copy_out(bytes, 0, buffer, from);
                self.leftovers = left;
                Ok(n)
            },
            Err(_) => {
                let name = self.text();
                let text = joined(
                    "Read error on WebSocket link ",
                    name.as_str(),
                    ": receiving on a closed channel",
                );
                Err(text)
            },
        }
    }

    /// The frame came that a read into `buffer` waited for, or the socket is
    /// gone.
    pub fn received(&mut self, frame: Result<Vec<u8>, Disconnected>, buffer: &mut [u8]) -> (read:
        Result<usize, String>)
        requires
            old(self).left() is None,
        ensures
            final(buffer)@.len() == old(buffer)@.len(),
            final(self).is_same_link(*old(self)),
            match (frame, read) {
                (Ok(bytes), Ok(n)) => is_read(
                    bytes@,
                    old(buffer)@,
                    0,
                    n as nat,
                    final(buffer)@,
                    final(self).left(),
                ),
                (Err(_), Err(text)) => {
                    &&& text@ == read_error_text(old(self).dst())
                    &&& final(buffer)@ == old(buffer)@
                    &&& final(self).left() is None
                },
                _ => false,
            },
    {
        self.read_frame(frame, buffer, 0)
    }

    /// What a read does to `buffer`, of which `from` bytes are filled, and to
    /// the bytes that are left. It goes by the bytes that were left before, or
    /// else by what it found in the channel of the frames if it `polls` by timer,
    /// or else it waits to be woken.
    pub open spec fn reads(
        &self,
        buffer: Seq<u8>,
        from: nat,
        polls: bool,
        step: (ReadStep, Option<Look<Vec<u8>>>),
        next: LinkUnicastWs,
        after: Seq<u8>,
    ) -> bool {
        match (self.left(), step.1) {
            (Some(bytes), None) => step.0 matches ReadStep::Done(Ok(n)) && is_read(
                bytes,
                buffer,
                from,
                n as nat,
                after,
                next.left(),
            ),
            (Some(_), Some(_)) => false,
            (None, None) => {
                &&& !polls
                &&& step.0 is AwaitReceiver
                &&& after == buffer
                &&& next.left() is None
            },
            (None, Some(look)) => {
                &&& polls
                &&& look.at() == self.frames()
                &&& match look.found() {
                    Received::Message(frame) => step.0 matches ReadStep::Done(Ok(n)) && is_read(
                        frame@,
                        buffer,
                        from,
                        n as nat,
                        after,
                        next.left(),
                    ),
                    Received::Disconnected => {
                        &&& step.0 matches ReadStep::Done(Err(text)) && text@ == read_error_text(
                            self.dst(),
                        )
                        &&& after == buffer
                        &&& next.left() is None
                    },
                    Received::Empty => {
                        &&& step.0 is Repoll
                        &&& after == buffer
                        &&& next.left() is None
                    },
                }
            },
        }
    }

    /// Goes on with a read into `buffer`, of which `from` bytes are filled.
    fn read_from(
        &mut self,
        buffer: &mut [u8],
        from: usize,
        threaded: bool,
        on_worker: bool,
    ) -> (step: (ReadStep, Option<Look<Vec<u8>>>))
        requires
            from <= old(buffer)@.len(),
        ensures
            final(buffer)@.len() == old(buffer)@.len(),
            final(self).is_same_link(*old(self)),
            old(self).reads(
                old(buffer)@,
                from as nat,
                needs_repoll(threaded, on_worker),
                step,
                *final(self),
                final(buffer)@,
            ),
    {
        if let Some(n) = self.read_leftovers(buffer, from) {
            return (ReadStep::Done(Ok(n)), None);
        }
        let (received, look) = recv_async_anywhere(&self.recv_rx, threaded, on_worker);
        let step = match received {
            RecvStep::Done(frame) => ReadStep::Done(self.read_frame(frame, buffer, from)),
            RecvStep::Repoll => ReadStep::Repoll,
            RecvStep::AwaitReceiver => ReadStep::AwaitReceiver,
        };
        (step, look)
    }

    /// Reads bytes into `buffer`: what is left of the frame before, or else the
    /// next frame. What does not fit is kept.
    pub fn read(&mut self, buffer: &mut [u8], threaded: bool, on_worker: bool) -> (step: (
        ReadStep,
        Option<Look<Vec<u8>>>,
    ))
        ensures
            final(buffer)@.len() == old(buffer)@.len(),
            final(self).is_same_link(*old(self)),
            old(self).reads(
                old(buffer)@,
                0,
                needs_repoll(threaded, on_worker),
                step,
                *final(self),
                final(buffer)@,
            ),
            step.0 is AwaitReceiver <==> old(self).left() is None && !needs_repoll(
                threaded,
                on_worker,
            ),
    {
        self.read_from(buffer, 0, threaded, on_worker)
    }

    /// Fills `buffer`, of which `filled` bytes are filled already, by as many
    /// frames as it takes.
    pub fn read_exact(
        &mut self,
        buffer: &mut [u8],
        filled: usize,
        threaded: bool,
        on_worker: bool,
    ) -> (step: (ReadExactStep, Option<Look<Vec<u8>>>))
        requires
            filled <= old(buffer)@.len(),
        ensures
            final(buffer)@.len() == old(buffer)@.len(),
            final(self).is_same_link(*old(self)),
            if filled == old(buffer)@.len() {
                &&& step.0 == ReadExactStep::Done(Ok(()))
                &&& step.1 is None
                &&& final(buffer)@ == old(buffer)@
                &&& final(self).left() == old(self).left()
            } else {
                &&& step.0 != ReadExactStep::Done(Ok(()))
                &&& step.0 matches ReadExactStep::More(now) ==> filled <= now <= old(buffer)@.len()
                &&& old(self).reads(
                    old(buffer)@,
                    filled as nat,
                    needs_repoll(threaded, on_worker),
                    (step.0.one_read(filled), step.1),
                    *final(self),
                    final(buffer)@,
                )
            },
            step.0 is AwaitReceiver <==> filled < old(buffer)@.len() && old(self).left() is None
                && !needs_repoll(threaded, on_worker),
    {
        if filled == buffer.len() {
            return (ReadExactStep::Done(Ok(())), None);
        }
        let (read, look) = self.read_from(buffer, filled, threaded, on_worker);
        let step = match read {
            ReadStep::Done(Ok(n)) => {
                assert(n <= buffer@.len() - filled);
                assert(buffer.len() == buffer@.len());
                ReadExactStep::More(filled + n)
            },
            ReadStep::Done(Err(text)) => ReadExactStep::Done(Err(text)),
            ReadStep::Repoll => ReadExactStep::Repoll,
            ReadStep::AwaitReceiver => ReadExactStep::AwaitReceiver,
        };
        (step, look)
    }

    /// The frame came that a read of a whole buffer waited for, or the socket
    /// is gone. `filled` bytes of `buffer` are filled.
    pub fn received_exact(
        &mut self,
        frame: Result<Vec<u8>, Disconnected>,
        buffer: &mut [u8],
        filled: usize,
    ) -> (step: ReadExactStep)
        requires
            old(self).left() is None,
            filled <= old(buffer)@.len(),
        ensures
            final(buffer)@.len() == old(buffer)@.len(),
            final(self).is_same_link(*old(self)),
            match (frame, step) {
                (Ok(bytes), ReadExactStep::More(now)) => filled <= now <= old(buffer)@.len()
                    && is_read(
                    bytes@,
                    old(buffer)@,
                    filled as nat,
                    (now - filled) as nat,
                    final(buffer)@,
                    final(self).left(),
                ),
                (Err(_), ReadExactStep::Done(Err(text))) => {
                    &&& text@ == read_error_text(old(self).dst())
                    &&& final(buffer)@ == old(buffer)@
                    &&& final(self).left() is None
                },
                _ => false,
            },
    {
        match self.read_frame(frame, buffer, filled) {
            Ok(n) => {
                assert(buffer.len() == buffer@.len());
                ReadExactStep::More(filled + n)
            },
            Err(text) => ReadExactStep::Done(Err(text)),
        }
    }
}

/// What is sent to the owner of a socket to write `buffer`, and how many bytes
/// that are.
pub fn write_command(buffer: &[u8], ack: Outlet<Result<(), String>>) -> (command: (
    WriteCmd,
    usize,
))
    ensures
        command.0.data()@ == buffer@,
        command.0.ack() == ack,
        command.1 == buffer@.len(),
{
    let data: Vec<u8> = vstd::slice::slice_to_vec(buffer);
    let len: usize = data.len();
    (WriteCmd::Send(data, ack), len)
}

impl LinkUnicastWs {
    /// The link as text.
    pub fn text(&self) -> (text: String)
        ensures
            text@ == link_text(self.dst()),
    {
        "wasm-client => ".to_owned().concat(self.dst_locator.as_str())
    }
}

impl PendingWrite {
    /// The owner of the socket acknowledged the write, or is gone. A write that
    /// is done wrote all bytes.
    pub fn acknowledged(self, reply: Result<Result<(), String>, Disconnected>) -> (written: Result<
        usize,
        String,
    >)
        ensures
            match (reply, written) {
                (Ok(Ok(_)), Ok(n)) => n == self.len,
                (Ok(Err(error)), Err(text)) => text@ == error@,
                (Err(_), Err(text)) => text@
                    == "WebSocket writer stopped: receiving on a closed channel"@,
                _ => false,
            },
            written is Ok <==> (reply matches Ok(Ok(_))),
            written matches Ok(n) ==> n == self.len,
    {
        match reply {
            Ok(Ok(_)) => Ok(self.len),
            Ok(Err(error)) => Err(error),
            Err(_) => Err("WebSocket writer stopped: receiving on a closed channel".to_owned()),
        }
    }

    /// As `acknowledged`, for a write of which all bytes count.
    pub fn acknowledged_all(self, reply: Result<Result<(), String>, Disconnected>) -> (written:
        Result<(), String>)
        ensures
            match (reply, written) {
                (Ok(Ok(_)), Ok(_)) => true,
                (Ok(Err(error)), Err(text)) => text@ == error@,
                (Err(_), Err(text)) => text@
                    == "WebSocket writer stopped: receiving on a closed channel"@,
                _ => false,
            },
            written is Ok <==> (reply matches Ok(Ok(_))),
    {
        match self.acknowledged(reply) {
            Ok(_) => Ok(()),
            Err(text) => Err(text),
        }
    }
}

impl LinkUnicastWs {
    /// Writes all of `buffer`. The write is acknowledged as a whole.
    pub fn write_all(&self, buffer: &[u8]) -> (pending: Result<PendingWrite, FailedWrite>)
        ensures
            self.has_written(buffer@, pending),
    {
        self.write(buffer)
    }

    /// Where the link comes from.
    pub fn get_src(&self) -> (src: &str)
        ensures
            src@ == self.src(),
    {
        self.src_locator.as_str()
    }

    /// Where the link goes.
    pub fn get_dst(&self) -> (dst: &str)
        ensures
            dst@ == self.dst(),
    {
        self.dst_locator.as_str()
    }

    /// The most bytes that are written at once.
    pub fn get_mtu(&self) -> (mtu: u16)
        ensures
            mtu == self.mtu(),
    {
        self.mtu
    }

    /// A browser does not tell the interfaces of a link.
    pub fn get_interface_names(&self) -> (names: Vec<String>)
        ensures
            names@.len() == 0,
    {
        Vec::new()
    }

    pub fn is_reliable(&self) -> (reliable: bool)
        ensures
            reliable == self.reliable(),
    {
        self.reliable
    }

    /// A link carries frames, not a stream.
    pub fn is_streamed(&self) -> (streamed: bool)
        ensures
            !streamed,
    {
        false
    }

    pub fn get_auth_id(&self) -> (id: LinkAuthId)
        ensures
            id == LinkAuthId::Ws,
    {
        LinkAuthId::Ws
    }

    /// Where the frames come from.
    pub fn receiver(&self) -> (receiver: &flume::Receiver<Vec<u8>>)
        ensures
            *receiver == self.frames(),
    {
        &self.recv_rx
    }
}

/// Where a link is to go.
pub struct EndPoint {
    pub protocol: String,
    pub address: String,
    /// The end point without what only configures the link.
    pub locator: String,
}

/// Makes links. `M` is what it reports new links to.
pub struct LinkManagerUnicastWs<M> {
    manager: M,
}

/// Whether `text` ends with `suffix`.
pub open spec fn has_suffix(text: Seq<char>, suffix: Seq<char>) -> bool {
    suffix.len() <= text.len() && text.skip(text.len() - suffix.len()) == suffix
}

/// Whether `text` ends with `suffix`.
fn ends_with(text: &str, suffix: &str) -> (ends: bool)
    ensures
        ends == has_suffix(text@, suffix@),
{
    let n: usize = text.unicode_len();
    let m: usize = suffix.unicode_len();
    if m > n {
        return false;
    }
    let mut i: usize = 0;
    while i < m
        invariant
            0 <= i <= m <= n,
            n == text@.len(),
            m == suffix@.len(),
            forall|k: int| 0 <= k < i ==> text@[n - m + k] == suffix@[k],
        decreases m - i,
    {
        if text.get_char(n - m + i) != suffix.get_char(i) {
            assert(text@.skip(n - m)[i as int] != suffix@[i as int]);
            return false;
        }
        i = i + 1;
    }
    assert(text@.skip(n - m) =~= suffix@);
    true
}

/// The address that a browser opens for an end point: secure if the protocol
/// is.
pub open spec fn url_text(protocol: Seq<char>, address: Seq<char>) -> Seq<char> {
    let scheme = if has_suffix(protocol, "ss"@) || has_suffix(protocol, "tls"@) {
        "wss"@
    } else {
        "ws"@
    };
    scheme + "://"@ + address
}

/// A link that is being opened.
pub struct NewLink {
    /// What the owner of the socket opens.
    pub url: String,
    pub opening: Opening,
    /// Where the link goes.
    pub dst_locator: String,
}

impl<M> LinkManagerUnicastWs<M> {
    /// What new links are reported to.
    pub closed spec fn manager(&self) -> M {
        self.manager
    }

    pub fn new(manager: M) -> (links: LinkManagerUnicastWs<M>)
        ensures
            links.manager() == manager,
    {
        LinkManagerUnicastWs { manager }
    }

    /// Opens a link to `endpoint`. The browser sees to the encryption of secure
    /// ones.
    pub fn new_link(&self, endpoint: EndPoint) -> (link: NewLink)
        ensures
            link.url@ == url_text(endpoint.protocol@, endpoint.address@),
            link.dst_locator == endpoint.locator,
            link.opening.wf(),
    {
        let protocol = endpoint.protocol.as_str();
        let scheme = if ends_with(protocol, "ss") || ends_with(protocol, "tls") {
            "wss"
        } else {
            "ws"
        };
        let url = joined(scheme, "://", endpoint.address.as_str());
        NewLink { url, opening: LinkUnicastWs::new(), dst_locator: endpoint.locator }
    }

    /// A browser cannot listen.
    pub fn new_listener(&self, endpoint: EndPoint) -> (listener: Result<String, String>)
        ensures
            listener matches Err(text) && text@
                == "WebSocket listeners are not supported on WASM"@,
    {
        Err("WebSocket listeners are not supported on WASM".to_owned())
    }

    /// A browser cannot listen.
    pub fn del_listener(&self, endpoint: &EndPoint) -> (deleted: Result<(), String>)
        ensures
            deleted matches Err(text) && text@
                == "WebSocket listeners are not supported on WASM"@,
    {
        Err("WebSocket listeners are not supported on WASM".to_owned())
    }

    /// There are no listeners.
    pub fn get_listeners(&self) -> (listeners: Vec<EndPoint>)
        ensures
            listeners@.len() == 0,
    {
        Vec::new()
    }

    /// There are no listeners.
    pub fn get_locators(&self) -> (locators: Vec<String>)
        ensures
            locators@.len() == 0,
    {
        Vec::new()
    }

    /// There are no listeners.
    pub fn get_locators_noloopback(&self) -> (locators: Vec<String>)
        ensures
            locators@.len() == 0,
    {
        Vec::new()
    }
}

/// The bytes of all frames, one after the other.
pub open spec fn flat(frames: Seq<Seq<u8>>) -> Seq<u8>
    decreases frames.len(),
{
    if frames.len() == 0 {
        seq![]
    } else {
        frames[0] + flat(frames.drop_first())
    }
}

/// The bytes that a link has received and not read.
pub open spec fn unread(left: Option<Seq<u8>>) -> Seq<u8> {
    match left {
        Some(bytes) => bytes,
        None => seq![],
    }
}

/// What a link reads whose socket brings `frames`, by reads into buffers with
/// room for `spaces` bytes each. A read for which there is no frame waits.
pub open spec fn stream(left: Option<Seq<u8>>, frames: Seq<Seq<u8>>, spaces: Seq<nat>) -> (
    Seq<u8>,
    Option<Seq<u8>>,
    Seq<Seq<u8>>,
)
    decreases spaces.len(),
{
    if spaces.len() == 0 || (left is None && frames.len() == 0) {
        (seq![], left, frames)
    } else {
        let (bytes, later) = match left {
            Some(bytes) => (bytes, frames),
            None => (frames[0], frames.drop_first()),
        };
        let n = fitting(bytes.len(), spaces[0]);
        let (more, end, last) = stream(rest(bytes, n), later, spaces.drop_first());
        (bytes.take(n as int) + more, end, last)
    }
}

/// A link reads the bytes of the frames in their order: what was read, what is
/// left of a frame and the frames to come make up what the socket brings. No
/// byte is lost, none is read twice, and frames need not fit the buffers.
pub proof fn reads_give_the_bytes_of_the_frames(
    left: Option<Seq<u8>>,
    frames: Seq<Seq<u8>>,
    spaces: Seq<nat>,
)
    ensures
        ({
            let (bytes, end, last) = stream(left, frames, spaces);
            bytes + unread(end) + flat(last) == unread(left) + flat(frames)
        }),
    decreases spaces.len(),
{
    let (bytes, end, last) = stream(left, frames, spaces);
    if spaces.len() == 0 || (left is None && frames.len() == 0) {
        assert(bytes + unread(end) + flat(last) =~= unread(left) + flat(frames));
    } else {
        let (first, later) = match left {
            Some(bytes) => (bytes, frames),
            None => (frames[0], frames.drop_first()),
        };
        assert(first + flat(later) =~= unread(left) + flat(frames));
        let n = fitting(first.len(), spaces[0]);
        reads_give_the_bytes_of_the_frames(rest(first, n), later, spaces.drop_first());
        let more = stream(rest(first, n), later, spaces.drop_first()).0;
        assert(first =~= first.take(n as int) + unread(rest(first, n)));
        assert(bytes + unread(end) + flat(last) =~= first.take(n as int) + (more + unread(end)
            + flat(last)));
        assert(first.take(n as int) + (unread(rest(first, n)) + flat(later)) =~= first + flat(
            later,
        ));
    }
}

/// What a sequence of reads gives is the beginning of what the socket brings.
pub proof fn reads_give_a_prefix(left: Option<Seq<u8>>, frames: Seq<Seq<u8>>, spaces: Seq<nat>)
    ensures
        ({
            let bytes = stream(left, frames, spaces).0;
            &&& bytes.len() <= (unread(left) + flat(frames)).len()
            &&& bytes == (unread(left) + flat(frames)).take(bytes.len() as int)
        }),
{
    reads_give_the_bytes_of_the_frames(left, frames, spaces);
    let (bytes, end, last) = stream(left, frames, spaces);
    assert(bytes + unread(end) + flat(last) =~= bytes + (unread(end) + flat(last)));
    assert(bytes =~= (unread(left) + flat(frames)).take(bytes.len() as int));
}

/// Reading a whole buffer in steps is one read after the other: if `filled`
/// bytes of the buffer are the first of what the socket brings, a step adds the
/// next ones behind them.
pub proof fn filling_a_buffer_goes_on(
    bytes: Seq<u8>,
    buffer: Seq<u8>,
    filled: nat,
    n: nat,
    after: Seq<u8>,
    left: Option<Seq<u8>>,
)
    requires
        filled <= buffer.len(),
        is_read(bytes, buffer, filled, n, after, left),
    ensures
        after.len() == buffer.len(),
        after.take((filled + n) as int) == buffer.take(filled as int) + bytes.take(n as int),
        after.take((filled + n) as int) + unread(left) == buffer.take(filled as int) + bytes,
        filled < buffer.len() && bytes.len() > 0 ==> n > 0,
{
    assert(after.take((filled + n) as int) =~= buffer.take(filled as int) + bytes.take(n as int));
    assert(after.take((filled + n) as int) + unread(left) =~= buffer.take(filled as int) + bytes);
}

/// A read stops only where the buffer is full or the frame is at its end: it
/// fills the buffer from its place on with the first bytes, leaves the rest of
/// the buffer as it was, and leaves what did not fit for the next read.
pub proof fn reads_go_as_far_as_they_can(
    bytes: Seq<u8>,
    buffer: Seq<u8>,
    from: nat,
    n: nat,
    after: Seq<u8>,
    left: Option<Seq<u8>>,
    i: int,
)
    requires
        from <= buffer.len(),
        is_read(bytes, buffer, from, n, after, left),
    ensures
        n <= bytes.len(),
        from + n <= buffer.len(),
        n == bytes.len() || from + n == buffer.len(),
        after.len() == buffer.len(),
        0 <= i < buffer.len() ==> after[i] == (if from <= i < from + n {
            bytes[i - from]
        } else {
            buffer[i]
        }),
        left is None <==> n == bytes.len(),
        left matches Some(more) ==> more.len() == bytes.len() - n && (0 <= i < more.len()
            ==> more[i] == bytes[n + i]),
{
}

/// A read takes what is left of the frame before without asking the channel. If
/// nothing is left, a thread that polls by timer asks the channel of this link
/// and reads the frame that it finds there, fails if all senders are gone, or
/// polls again; any other thread waits to be woken.
pub proof fn reads_take_leftovers_first(
    link: LinkUnicastWs,
    buffer: Seq<u8>,
    from: nat,
    polls: bool,
    step: (ReadStep, Option<Look<Vec<u8>>>),
    next: LinkUnicastWs,
    after: Seq<u8>,
)
    requires
        from <= buffer.len(),
        link.reads(buffer, from, polls, step, next, after),
    ensures
        step.1 is Some <==> link.left() is None && polls,
        step.1 matches Some(look) ==> look.at() == link.frames(),
        step.0 is AwaitReceiver <==> link.left() is None && !polls,
        step.0 is Repoll <==> (step.1 matches Some(look) && look.found()
            == Received::<Vec<u8>>::Empty),
        step.0 matches ReadStep::Done(Err(_)) <==> (step.1 matches Some(look) && look.found()
            == Received::<Vec<u8>>::Disconnected),
        step.0 matches ReadStep::Done(Ok(n)) ==> {
            let bytes = match link.left() {
                Some(bytes) => bytes,
                None => (step.1->Some_0.found()->Message_0)@,
            };
            &&& n <= bytes.len()
            &&& n == bytes.len() || from + n == buffer.len()
            &&& after.len() == buffer.len()
            &&& after.skip(from as int).take(n as int) == bytes.take(n as int)
            &&& unread(next.left()) == bytes.skip(n as int)
        },
        !(step.0 matches ReadStep::Done(Ok(_))) ==> after == buffer && next.left() is None,
{
    if let ReadStep::Done(Ok(n)) = step.0 {
        let bytes = match link.left() {
            Some(bytes) => bytes,
            None => (step.1->Some_0.found()->Message_0)@,
        };
        assert(is_read(bytes, buffer, from, n as nat, after, next.left()));
        assert(after.skip(from as int).take(n as int) =~= bytes.take(n as int));
        assert(unread(next.left()) =~= bytes.skip(n as int));
    }
}

/// A write hands the very bytes to the owner of the socket, whole, with a channel
/// for the answer that has room for one and at whose other end the writer waits.
pub proof fn writes_hand_over_the_bytes(
    write: PendingWrite,
    bytes: Seq<u8>,
    owner: flume::Sender<WriteCmd>,
)
    requires
        write.writes(bytes, owner),
    ensures
        write.len == bytes.len(),
        write.posted.to() == owner,
        write.posted.outcome() == Sent::Done,
        write.posted.message() matches WriteCmd::Send(data, ack) && data@ == bytes && ack.inlet()
            == write.ack_rx && ack.limit() == Some(1nat),
{
}

/// A write fails only if the owner of the socket did not take the bytes, which
/// were handed to it; and then it says which link failed.
pub proof fn failed_writes_were_tried(
    link: LinkUnicastWs,
    bytes: Seq<u8>,
    pending: Result<PendingWrite, FailedWrite>,
)
    requires
        link.has_written(bytes, pending),
    ensures
        pending matches Ok(write) ==> write.writes(bytes, link.writes()),
        pending matches Err(failed) ==> {
            &&& failed.posted.to() == link.writes()
            &&& failed.posted.outcome() != Sent::Done
            &&& failed.posted.message() matches WriteCmd::Send(data, _) && data@ == bytes
            &&& failed.text@ == write_error_text(link.dst())
            &&& link.write_backlog() is None ==> failed.posted.outcome() == Sent::Disconnected
        },
{
}

/// A link that is the same has the same ends, channels and properties.
pub proof fn links_stay_what_they_are(link: LinkUnicastWs, before: LinkUnicastWs)
    requires
        link.is_same_link(before),
    ensures
        link.dst() == before.dst(),
        link.src() == before.src(),
        link.mtu() == before.mtu(),
        link.reliable() == before.reliable(),
        link.writes() == before.writes(),
        link.write_backlog() == before.write_backlog(),
        link.frames() == before.frames(),
        link.closing() == before.closing(),
{
}

/// The two ends of an opening belong together, and each has room for one message.
pub proof fn openings_are_connected(opening: Opening)
    requires
        opening.wf(),
    ensures
        opening.result_tx.inlet() == opening.result_rx,
        opening.close_tx.inlet() == opening.close_rx,
        opening.result_tx.limit() == Some(1nat),
        opening.close_tx.limit() == Some(1nat),
{
}

/// A text ends with another exactly if it is something followed by it.
pub proof fn suffixes_stand_at_the_end(before: Seq<char>, text: Seq<char>, suffix: Seq<char>)
    ensures
        has_suffix(before + suffix, suffix),
        has_suffix(text, suffix) ==> text == text.take(text.len() - suffix.len()) + suffix,
        has_suffix(text, suffix) ==> suffix.len() <= text.len(),
{
    assert((before + suffix).skip((before + suffix).len() - suffix.len()) =~= suffix);
    if has_suffix(text, suffix) {
        assert(text =~= text.take(text.len() - suffix.len()) + suffix);
    }
}

/// The browser opens the address of the end point, unchanged. The connection is
/// secure exactly if the protocol ends in "ss" or in "tls", whatever comes before
/// that.
pub proof fn secure_protocols_are_opened_securely(
    before: Seq<char>,
    protocol: Seq<char>,
    address: Seq<char>,
)
    ensures
        url_text(before + "ss"@, address) == "wss://"@ + address,
        url_text(before + "tls"@, address) == "wss://"@ + address,
        (forall|p: Seq<char>| #[trigger] (p + "ss"@) != protocol) && (forall|p: Seq<char>|
            #[trigger] (p + "tls"@) != protocol) ==> url_text(protocol, address) == "ws://"@ + address,
        url_text(protocol, address).len() >= address.len(),
        url_text(protocol, address).skip(url_text(protocol, address).len() - address.len())
            == address,
{
    reveal_strlit("ss");
    reveal_strlit("tls");
    reveal_strlit("wss");
    reveal_strlit("ws");
    reveal_strlit("://");
    reveal_strlit("wss://");
    reveal_strlit("ws://");
    suffixes_stand_at_the_end(before, protocol, "ss"@);
    suffixes_stand_at_the_end(before, protocol, "tls"@);
    assert("wss"@ + "://"@ + address =~= "wss://"@ + address);
    assert("ws"@ + "://"@ + address =~= "ws://"@ + address);
    let url = url_text(protocol, address);
    assert(url.skip(url.len() - address.len()) =~= address);
    if has_suffix(protocol, "ss"@) {
        assert(protocol.take(protocol.len() - "ss"@.len()) + "ss"@ == protocol);
    }
    if has_suffix(protocol, "tls"@) {
        assert(protocol.take(protocol.len() - "tls"@.len()) + "tls"@ == protocol);
    }
}

/// What a link says names where it goes, so links to different places are told
/// apart; and a failed read says something else than a failed write.
pub proof fn error_texts_name_the_link(dst: Seq<char>, other: Seq<char>)
    ensures
        link_text(dst).skip(15) == dst,
        read_error_text(dst).skip(29).take(link_text(dst).len() as int) == link_text(dst),
        write_error_text(dst).skip(30).take(link_text(dst).len() as int) == link_text(dst),
        link_text(dst) == link_text(other) ==> dst == other,
        read_error_text(dst) != write_error_text(other),
{
    reveal_strlit("wasm-client => ");
    reveal_strlit("Read error on WebSocket link ");
    reveal_strlit("Write error on WebSocket link ");
    assert(link_text(dst).skip(15) =~= dst);
    assert(link_text(other).skip(15) =~= other);
    assert(read_error_text(dst).skip(29).take(link_text(dst).len() as int) =~= link_text(dst));
    assert(write_error_text(dst).skip(30).take(link_text(dst).len() as int) =~= link_text(dst));
    assert(read_error_text(dst)[0] == 'R');
    assert(write_error_text(other)[0] == 'W');
}

/// A link goes through the ends that the owner of its socket handed out: its
/// writes go to that owner, and its frames come from that socket.
pub proof fn links_go_through_their_socket(link: LinkUnicastWs, connected: Connected)
    requires
        link.is_over(connected),
    ensures
        link.writes() == connected.write_tx.sender(),
        link.write_backlog() == connected.write_tx.limit(),
        link.frames() == connected.recv_rx,
{
}

/// A read of a whole buffer goes on by single reads: what a step adds to the
/// filled bytes is what that read gave, and it is done only when nothing is
/// missing.
pub proof fn whole_reads_are_made_of_single_ones(filled: usize, now: usize, text: String)
    requires
        filled <= now,
    ensures
        ReadExactStep::More(now).one_read(filled) matches ReadStep::Done(Ok(n)) && filled + n
            == now,
        ReadExactStep::Done(Err(text)).one_read(filled) == ReadStep::Done(
            Err::<usize, String>(text),
        ),
        ReadExactStep::Repoll.one_read(filled) == ReadStep::Repoll,
        ReadExactStep::AwaitReceiver.one_read(filled) == ReadStep::AwaitReceiver,
{
}

} // verus!
