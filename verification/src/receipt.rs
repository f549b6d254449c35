//! The calls into the `flume` crate, and the receipts that they give.
//!
//! A channel is shared with threads that run at the same time. What a call on
//! it finds depends on what they did meanwhile, so nothing is known of that
//! beforehand. What is known is which channel was asked, what was handed to it
//! and what it answered: each call gives a receipt that says so. The fields of
//! a receipt are not visible outside of this module, where nothing but those
//! calls makes one.

use vstd::prelude::*;

verus! {

/// The sending end of a channel of the `flume` crate.
#[verifier::external_type_specification]
#[verifier::external_body]
#[verifier::reject_recursive_types(T)]
pub struct ExSender<T>(flume::Sender<T>);

/// The receiving end of a channel of the `flume` crate.
#[verifier::external_type_specification]
#[verifier::external_body]
#[verifier::reject_recursive_types(T)]
pub struct ExReceiver<T>(flume::Receiver<T>);

/// What an attempt to receive found.
pub enum Received<T> {
    Message(T),
    /// No message waits, and there are senders left.
    Empty,
    /// No message waits, and all senders are gone.
    Disconnected,
}

/// What became of an attempt to send.
#[derive(PartialEq, Eq, Structural, Clone, Copy, Debug)]
pub enum Sent {
    Done,
    /// The channel holds as many messages as it may.
    Full,
    /// All receivers are gone.
    Disconnected,
}

/// The sending end of a channel. It records how the channel was made.
#[verifier::reject_recursive_types(T)]
pub struct Outlet<T> {
    tx: flume::Sender<T>,
    limit: Ghost<Option<nat>>,
    inlet: Ghost<flume::Receiver<T>>,
}

/// The receipt for a message that was handed to a channel.
#[verifier::reject_recursive_types(T)]
pub struct Posted<T> {
    sent: Sent,
    message: Ghost<T>,
    to: Ghost<flume::Sender<T>>,
}

/// The receipt for an attempt to receive.
#[verifier::reject_recursive_types(T)]
pub struct Look<T> {
    found: Ghost<Received<T>>,
    at: Ghost<flume::Receiver<T>>,
}

/// The receipt for the question whether a message waits in a channel.
#[verifier::reject_recursive_types(T)]
pub struct Emptiness<T> {
    empty: bool,
    at: Ghost<flume::Receiver<T>>,
}

/// The receipt for the question whether all senders of a channel are gone.
#[verifier::reject_recursive_types(T)]
pub struct SendersLeft<T> {
    gone: bool,
    at: Ghost<flume::Receiver<T>>,
}

/// The receipt for the question whether all receivers of a channel are gone.
#[verifier::reject_recursive_types(T)]
pub struct ReceiversLeft<T> {
    gone: bool,
    at: Ghost<flume::Sender<T>>,
}

impl<T> Posted<T> {
    /// The message.
    pub closed spec fn message(&self) -> T {
        self.message@
    }

    /// The channel.
    pub closed spec fn to(&self) -> flume::Sender<T> {
        self.to@
    }

    /// What became of it.
    pub closed spec fn outcome(&self) -> Sent {
        self.sent
    }

    /// What became of it.
    pub fn sent(&self) -> (sent: Sent)
        ensures
            sent == self.outcome(),
    {
        self.sent
    }
}

impl<T> Look<T> {
    /// What was found.
    pub closed spec fn found(&self) -> Received<T> {
        self.found@
    }

    /// The channel.
    pub closed spec fn at(&self) -> flume::Receiver<T> {
        self.at@
    }
}

impl<T> Emptiness<T> {
    /// Whether no message waited.
    pub closed spec fn answer(&self) -> bool {
        self.empty
    }

    /// The channel.
    pub closed spec fn at(&self) -> flume::Receiver<T> {
        self.at@
    }

    /// Whether no message waited.
    pub fn empty(&self) -> (empty: bool)
        ensures
            empty == self.answer(),
    {
        self.empty
    }
}

impl<T> SendersLeft<T> {
    /// Whether all senders were gone.
    pub closed spec fn answer(&self) -> bool {
        self.gone
    }

    /// The channel.
    pub closed spec fn at(&self) -> flume::Receiver<T> {
        self.at@
    }

    /// Whether all senders were gone.
    pub fn gone(&self) -> (gone: bool)
        ensures
            gone == self.answer(),
    {
        self.gone
    }
}

impl<T> ReceiversLeft<T> {
    /// Whether all receivers were gone.
    pub closed spec fn answer(&self) -> bool {
        self.gone
    }

    /// The channel.
    pub closed spec fn at(&self) -> flume::Sender<T> {
        self.at@
    }

    /// Whether all receivers were gone.
    pub fn gone(&self) -> (gone: bool)
        ensures
            gone == self.answer(),
    {
        self.gone
    }
}

/// Calls `flume::bounded`: the two ends of a new channel, which holds at most
/// `limit` messages. The crate counts one message beyond the limit.
#[verifier::external_body]
pub(crate) fn bounded<T>(limit: usize) -> (ends: (Outlet<T>, flume::Receiver<T>))
    requires
        limit < usize::MAX,
    ensures
        ends.0.limit() == Some(limit as nat),
        ends.0.inlet() == ends.1,
{
    let (tx, rx) = flume::bounded(limit);
    (Outlet { tx, limit: Ghost(Some(limit as nat)), inlet: Ghost(rx) }, rx)
}

/// Calls `flume::unbounded`: the two ends of a new channel, which holds any
/// number of messages.
#[verifier::external_body]
pub(crate) fn unbounded<T>() -> (ends: (Outlet<T>, flume::Receiver<T>))
    ensures
        ends.0.limit() is None,
        ends.0.inlet() == ends.1,
{
    let (tx, rx) = flume::unbounded();
    (Outlet { tx, limit: Ghost(None), inlet: Ghost(rx) }, rx)
}

/// Calls `flume::Sender::try_send`, which hands `message` to the channel of
/// `outlet` and does not wait for room in it. The receipt says so. A channel
/// without a limit always has room; otherwise it is left open whether there was
/// room, and whether there was a receiver.
#[verifier::external_body]
pub(crate) fn try_send<T>(outlet: &Outlet<T>, message: T) -> (posted: Posted<T>)
    ensures
        posted.message() == message,
        posted.to() == outlet.sender(),
        outlet.limit() is None ==> posted.outcome() != Sent::Full,
{
    let sent = match outlet.tx.try_send(message) {
        Ok(()) => Sent::Done,
        Err(flume::TrySendError::Full(_)) => Sent::Full,
        Err(flume::TrySendError::Disconnected(_)) => Sent::Disconnected,
    };
    Posted { sent, message: Ghost(message), to: Ghost(outlet.tx) }
}

/// Calls `flume::Receiver::try_recv`, which takes the message out of the channel
/// of `rx` that waits longest, and tells the two reasons for not finding one
/// apart. The receipt says what was found, and where.
#[verifier::external_body]
pub(crate) fn try_recv<T>(rx: &flume::Receiver<T>) -> (received: (Received<T>, Look<T>))
    ensures
        received.1.found() == received.0,
        received.1.at() == *rx,
{
    let received = match rx.try_recv() {
        Ok(message) => Received::Message(message),
        Err(flume::TryRecvError::Empty) => Received::Empty,
        Err(flume::TryRecvError::Disconnected) => Received::Disconnected,
    };
    (received, Look { found: Ghost(received), at: Ghost(*rx) })
}

/// Calls `flume::Receiver::is_empty`, which asks the channel of `rx` whether no
/// message waits at the moment.
#[verifier::external_body]
pub(crate) fn is_empty<T>(rx: &flume::Receiver<T>) -> (receipt: Emptiness<T>)
    ensures
        receipt.at() == *rx,
{
    Emptiness { empty: rx.is_empty(), at: Ghost(*rx) }
}

/// Calls `flume::Receiver::is_disconnected`, which asks the channel of `rx`
/// whether all senders are gone.
#[verifier::external_body]
pub(crate) fn senders_are_gone<T>(rx: &flume::Receiver<T>) -> (receipt: SendersLeft<T>)
    ensures
        receipt.at() == *rx,
{
    SendersLeft { gone: rx.is_disconnected(), at: Ghost(*rx) }
}

/// Calls `flume::Sender::is_disconnected`, which asks the channel of `outlet`
/// whether all receivers are gone.
#[verifier::external_body]
pub(crate) fn receivers_are_gone<T>(outlet: &Outlet<T>) -> (receipt: ReceiversLeft<T>)
    ensures
        receipt.at() == outlet.sender(),
{
    ReceiversLeft { gone: outlet.tx.is_disconnected(), at: Ghost(outlet.tx) }
}

impl<T> Outlet<T> {
    /// The messages that the channel holds at most, if there is a limit.
    pub closed spec fn limit(&self) -> Option<nat> {
        self.limit@
    }

    /// The receiving end that the channel was made with.
    pub closed spec fn inlet(&self) -> flume::Receiver<T> {
        self.inlet@
    }

    /// The sending end itself.
    pub closed spec fn sender(&self) -> flume::Sender<T> {
        self.tx
    }
}

} // verus!
