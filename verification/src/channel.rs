//! The channels that carry messages between workers.

use crate::receipt::{bounded, receivers_are_gone, try_send, unbounded};
use vstd::prelude::*;

pub(crate) use crate::receipt::{is_empty, senders_are_gone, try_recv};
pub use crate::receipt::{
    Emptiness, Look, Outlet, Posted, Received, ReceiversLeft, SendersLeft, Sent,
};

verus! {

impl<T> Outlet<T> {
    /// Hands a message to the channel, without waiting for room in it.
    pub fn post(&self, message: T) -> (posted: Posted<T>)
        ensures
            posted.message() == message,
            posted.to() == self.sender(),
            self.limit() is None ==> posted.outcome() != Sent::Full,
    {
        try_send(self, message)
    }

    /// Asks the channel whether all receivers are gone. They may be on other
    /// threads and go at any time, so the answer is left open.
    pub fn is_disconnected(&self) -> (receipt: ReceiversLeft<T>)
        ensures
            receipt.at() == self.sender(),
    {
        receivers_are_gone(self)
    }
}

/// A new channel, which holds at most `limit` messages if there is a limit.
pub fn channel<T>(limit: Option<usize>) -> (ends: (Outlet<T>, flume::Receiver<T>))
    requires
        limit matches Some(n) ==> n < usize::MAX,
    ensures
        ends.0.limit() == (match limit {
            Some(n) => Some(n as nat),
            None => None,
        }),
        ends.0.inlet() == ends.1,
{
    match limit {
        Some(n) => bounded(n),
        None => unbounded(),
    }
}

} // verus!
