//! Waiting for spawned tasks, and for messages from other workers.

use crate::cancel::{abort, aborts, handle_aborted};
use crate::channel::{
    is_empty, senders_are_gone, try_recv, Emptiness, Look, Outlet, Posted, Received, SendersLeft,
};
use vstd::prelude::*;

verus! {

/// Error of a spawned task that did not give a value.
#[derive(Clone, Copy, Debug, PartialEq, Eq, Structural)]
pub struct JoinError;

impl JoinError {
    /// The error in words.
    pub fn message(&self) -> (text: String)
        ensures
            text@ == "task failed or was cancelled"@,
    {
        "task failed or was cancelled".to_owned()
    }
}

/// How many repoll timers there are, and how many there were at most.
#[derive(Clone, Copy, Debug, PartialEq, Eq, Structural)]
pub struct RepollCounts {
    pub pending: u32,
    pub peak: u32,
}

impl RepollCounts {
    /// There were never more timers than the peak says.
    pub open spec fn wf(self) -> bool {
        self.pending <= self.peak
    }

    /// One more timer is there than before, and the peak is as high as needed.
    pub open spec fn is_start(self, before: RepollCounts) -> bool {
        &&& self.pending - before.pending == 1
        &&& self.peak == before.peak || (self.peak == self.pending && self.peak > before.peak)
        &&& self.pending <= self.peak
    }

    /// One timer less is there than before, and the peak stays.
    pub open spec fn is_drop(self, before: RepollCounts) -> bool {
        &&& before.pending - self.pending == 1
        &&& self.peak == before.peak
    }

    /// No timer was started yet.
    pub fn new() -> (counts: RepollCounts)
        ensures
            counts.wf(),
            counts == (RepollCounts { pending: 0, peak: 0 }),
    {
        RepollCounts { pending: 0, peak: 0 }
    }

    /// A timer is started.
    pub fn timer_started(self) -> (counts: RepollCounts)
        requires
            self.wf(),
            self.pending < u32::MAX,
        ensures
            counts.wf(),
            counts.pending == self.pending + 1,
            counts.peak == (if counts.pending > self.peak {
                counts.pending
            } else {
                self.peak
            }),
            counts.is_start(self),
    {
        let pending: u32 = self.pending + 1;
        let peak: u32 = if pending > self.peak {
            pending
        } else {
            self.peak
        };
        RepollCounts { pending, peak }
    }

    /// A timer is dropped.
    pub fn timer_dropped(self) -> (counts: RepollCounts)
        requires
            self.wf(),
            self.pending > 0,
        ensures
            counts.wf(),
            counts.pending == self.pending - 1,
            counts.peak == self.peak,
            counts.is_drop(self),
    {
        RepollCounts { pending: self.pending - 1, peak: self.peak }
    }
}

/// The timers that there are, and those that there were at most.
pub fn __zenoh_repoll_counts(counts: RepollCounts) -> (pair: [u32; 2])
    ensures
        pair@ == seq![counts.pending, counts.peak],
{
    [counts.pending, counts.peak]
}

/// Whether a thread polls its channels by timer: one that runs an event loop
/// while the other end may be on another worker, whose wake-up the browser may
/// not deliver.
pub open spec fn needs_repoll(threaded: bool, on_worker: bool) -> bool {
    threaded && !on_worker
}

/// A handle on a spawned task. Dropping it leaves the task running.
#[verifier::reject_recursive_types(T)]
pub struct JoinHandle<T> {
    rx: flume::Receiver<T>,
    abort: futures::future::AbortHandle,
    /// Whether a repoll timer is running for this handle.
    repoll: bool,
}

/// What the caller does for a handle that was polled.
pub enum JoinPoll<T> {
    /// The task has ended. A running repoll timer is dropped.
    Ready(Result<T, JoinError>),
    /// Poll the repoll timer, which is to be started first if `start` is set,
    /// and report it by `timer_polled`.
    PollTimer { start: bool },
    /// Poll the future that receives the result. It is the same future each
    /// time, since its waker is registered only as long as it lives. Its result
    /// goes to `receiver_polled`.
    PollReceiver,
}

/// What the caller does for a handle in whose channel `found` was found.
/// `repolls` says whether a repoll timer is running for it.
pub open spec fn join_poll<T>(
    found: Received<T>,
    repolls: bool,
    threaded: bool,
    on_worker: bool,
) -> JoinPoll<T> {
    match found {
        Received::Message(value) => JoinPoll::Ready(Ok(value)),
        Received::Disconnected => JoinPoll::Ready(Err(JoinError)),
        Received::Empty => if needs_repoll(threaded, on_worker) {
            JoinPoll::PollTimer { start: !repolls }
        } else {
            JoinPoll::PollReceiver
        },
    }
}

/// What the caller does once a repoll timer was polled.
#[derive(Clone, Copy, Debug, PartialEq, Eq, Structural)]
pub enum TimerPoll {
    /// The timer is running.
    Pending,
    /// The timer is over: drop it, and call the waker at once.
    DropAndWake,
}

impl TimerPoll {
    /// What is done for a timer that is over or not.
    pub open spec fn is_timer_poll(self, over: bool) -> bool {
        match self {
            TimerPoll::Pending => !over,
            TimerPoll::DropAndWake => over,
        }
    }
}

/// What a join gives whose receiving future was polled.
pub open spec fn is_joined<T>(
    polled: Option<Result<T, ()>>,
    result: Option<Result<T, JoinError>>,
) -> bool {
    match result {
        Some(Ok(value)) => polled == Some(Ok::<T, ()>(value)),
        Some(Err(_)) => polled matches Some(Err(_)),
        None => polled is None,
    }
}

impl<T> JoinHandle<T> {
    /// Whether a repoll timer is running for this handle.
    pub closed spec fn repolls(&self) -> bool {
        self.repoll
    }

    /// Where the result of the task comes from.
    pub closed spec fn results(&self) -> flume::Receiver<T> {
        self.rx
    }

    /// Both are handles on the same task.
    pub open spec fn same_task(&self, other: JoinHandle<T>) -> bool {
        &&& self.results() == other.results()
        &&& forall|r: futures::future::AbortRegistration|
            other.can_abort(r) ==> #[trigger] self.can_abort(r)
    }

    /// Whether the task is known to be aborted.
    pub closed spec fn aborted(&self) -> bool {
        handle_aborted(self.abort)
    }

    /// Whether the handle aborts the task of `registration`.
    pub closed spec fn can_abort(&self, registration: futures::future::AbortRegistration) -> bool {
        aborts(self.abort, registration)
    }

    /// The handle on a task that sends its result to `rx`, and that `abort`
    /// aborts.
    pub(crate) fn new(rx: flume::Receiver<T>, abort: futures::future::AbortHandle) -> (handle:
        JoinHandle<T>)
        ensures
            !handle.repolls(),
            handle.results() == rx,
            handle.aborted() == handle_aborted(abort),
            forall|r: futures::future::AbortRegistration| #[trigger]
                handle.can_abort(r) == aborts(abort, r),
    {
        JoinHandle { rx, abort, repoll: false }
    }

    /// Where the result of the task comes from.
    pub fn receiver(&self) -> (receiver: &flume::Receiver<T>)
        ensures
            *receiver == self.results(),
    {
        &self.rx
    }

    /// Polls the handle, once `received` was found in its channel.
    pub fn poll_received(
        &mut self,
        received: Received<T>,
        threaded: bool,
        on_worker: bool,
    ) -> (polled: JoinPoll<T>)
        ensures
            polled == join_poll(received, old(self).repolls(), threaded, on_worker),
            final(self).repolls() == (match received {
                Received::Empty => needs_repoll(threaded, on_worker) || old(self).repolls(),
                _ => false,
            }),
            final(self).aborted() == old(self).aborted(),
            final(self).same_task(*old(self)),
    {
        match received {
            Received::Message(value) => {
                self.repoll = false;
                JoinPoll::Ready(Ok(value))
            },
            Received::Disconnected => {
                self.repoll = false;
                JoinPoll::Ready(Err(JoinError))
            },
            Received::Empty => {
                if threaded && !on_worker {
                    let start: bool = !self.repoll;
                    self.repoll = true;
                    JoinPoll::PollTimer { start }
                } else {
                    JoinPoll::PollReceiver
                }
            },
        }
    }

    /// Polls the handle: looks into its channel, and goes by what is found there.
    /// On an event-loop thread in threaded mode the result comes from another
    /// worker, so a timer polls again; there is never more than one such timer
    /// for a handle.
    pub fn poll(&mut self, threaded: bool, on_worker: bool) -> (polled: (JoinPoll<T>, Look<T>))
        ensures
            polled.1.at() == old(self).results(),
            polled.0 == join_poll(polled.1.found(), old(self).repolls(), threaded, on_worker),
            final(self).repolls() == (match polled.1.found() {
                Received::Empty => needs_repoll(threaded, on_worker) || old(self).repolls(),
                _ => false,
            }),
            final(self).aborted() == old(self).aborted(),
            final(self).same_task(*old(self)),
    {
        let (received, look) = try_recv(&self.rx);
        (self.poll_received(received, threaded, on_worker), look)
    }

    /// The repoll timer was polled, and `over` says whether it is over.
    pub fn timer_polled(&mut self, over: bool) -> (next: TimerPoll)
        requires
            old(self).repolls(),
        ensures
            next == (if over {
                TimerPoll::DropAndWake
            } else {
                TimerPoll::Pending
            }),
            next.is_timer_poll(over),
            final(self).repolls() == !over,
            final(self).aborted() == old(self).aborted(),
            final(self).same_task(*old(self)),
    {
        if over {
            self.repoll = false;
            TimerPoll::DropAndWake
        } else {
            TimerPoll::Pending
        }
    }

    /// The future that receives the result was polled: it is pending, or it
    /// gave a value, or nobody is left to send one.
    pub fn receiver_polled(polled: Option<Result<T, ()>>) -> (result: Option<
        Result<T, JoinError>,
    >)
        ensures
            result == (match polled {
                None => None,
                Some(Ok(value)) => Some(Ok(value)),
                Some(Err(_)) => Some(Err(JoinError)),
            }),
            is_joined(polled, result),
    {
        match polled {
            None => None,
            Some(Ok(value)) => Some(Ok(value)),
            Some(Err(_)) => Some(Err(JoinError)),
        }
    }

    /// Aborts the task, which is dropped at its next turn.
    pub fn abort(&mut self)
        ensures
            final(self).aborted(),
            final(self).repolls() == old(self).repolls(),
            final(self).same_task(*old(self)),
    {
        abort(&mut self.abort);
    }

    /// Whether a task is finished whose channel holds no result (`empty`) or
    /// has lost its sender (`disconnected`).
    pub fn is_finished_channel(empty: bool, disconnected: bool) -> (finished: bool)
        ensures
            finished == (!empty || disconnected),
    {
        !empty || disconnected
    }

    /// Whether the task has ended: its result waits, or none will come. The
    /// state of the channel changes with what the task does on its thread; the
    /// receipts say what it was.
    pub fn is_finished(&self) -> (finished: (bool, ChannelState<T>))
        ensures
            finished.1.at(self.results()),
            finished.0 == finished.1.finished(),
    {
        let empty = is_empty(&self.rx);
        let senders = senders_are_gone(&self.rx);
        let finished: bool = Self::is_finished_channel(empty.empty(), senders.gone());
        (finished, ChannelState { empty, senders })
    }
}

/// The receipts for the state of a task's channel.
#[verifier::reject_recursive_types(T)]
pub struct ChannelState<T> {
    pub empty: Emptiness<T>,
    pub senders: SendersLeft<T>,
}

impl<T> ChannelState<T> {
    /// Whether the channel of `rx` was asked.
    pub open spec fn at(&self, rx: flume::Receiver<T>) -> bool {
        self.empty.at() == rx && self.senders.at() == rx
    }

    /// Whether a task with such a channel has ended.
    pub open spec fn finished(&self) -> bool {
        !self.empty.answer() || self.senders.answer()
    }
}

/// How a task ends: its value, if it has one, goes to whoever holds its
/// handle. A task that was aborted has none; `tx` is then dropped, which ends
/// the wait for it.
pub fn task_ended<T>(tx: Outlet<T>, value: Option<T>) -> (posted: Option<Posted<T>>)
    ensures
        match (value, posted) {
            (Some(v), Some(p)) => p.message() == v && p.to() == tx.sender(),
            (None, None) => true,
            _ => false,
        },
{
    match value {
        Some(v) => Some(tx.post(v)),
        None => None,
    }
}

/// How `recv_async_anywhere` goes on.
pub enum RecvStep<T> {
    /// This was received; no message will come if it is an error.
    Done(Result<T, Disconnected>),
    /// Wait for a repoll timer, then try again.
    Repoll,
    /// Wait until the channel calls the waker.
    AwaitReceiver,
}

/// No message is left, and nobody can send one.
#[derive(Clone, Copy, Debug, PartialEq, Eq, Structural)]
pub struct Disconnected;

/// How a thread that polls by timer goes on, once `found` was found in the
/// channel.
pub open spec fn recv_step<T>(found: Received<T>) -> RecvStep<T> {
    match found {
        Received::Message(value) => RecvStep::Done(Ok(value)),
        Received::Disconnected => RecvStep::Done(Err(Disconnected)),
        Received::Empty => RecvStep::Repoll,
    }
}

/// How a thread that polls by timer goes on, once `received` was found in the
/// channel.
pub fn repoll_step<T>(received: Received<T>) -> (step: RecvStep<T>)
    ensures
        step == recv_step(received),
{
    match received {
        Received::Message(value) => RecvStep::Done(Ok(value)),
        Received::Disconnected => RecvStep::Done(Err(Disconnected)),
        Received::Empty => RecvStep::Repoll,
    }
}

/// Receives a message on whatever thread. A worker is woken by its channel,
/// and so is any thread while there are no workers; an event-loop thread beside
/// workers looks into the channel, and polls by timer while it is empty.
pub fn recv_async_anywhere<T>(
    rx: &flume::Receiver<T>,
    threaded: bool,
    on_worker: bool,
) -> (step: (RecvStep<T>, Option<Look<T>>))
    ensures
        match step.1 {
            Some(look) => {
                &&& needs_repoll(threaded, on_worker)
                &&& look.at() == *rx
                &&& step.0 == recv_step(look.found())
            },
            None => {
                &&& !needs_repoll(threaded, on_worker)
                &&& step.0 is AwaitReceiver
            },
        },
{
    if threaded && !on_worker {
        let (received, look) = try_recv(rx);
        (repoll_step(received), Some(look))
    } else {
        (RecvStep::AwaitReceiver, None)
    }
}

/// What is received by a thread that its channel woke: a message, or none
/// because all senders are gone.
pub fn awaited<T>(message: Option<T>) -> (received: Result<T, Disconnected>)
    ensures
        received == (match message {
            Some(value) => Ok(value),
            None => Err(Disconnected),
        }),
        message matches Some(value) ==> received == Ok::<T, Disconnected>(value),
        message is None <==> received is Err,
{
    match message {
        Some(value) => Ok(value),
        None => Err(Disconnected),
    }
}

/// The messages among what was found in a channel, in their order.
pub open spec fn messages<T>(found: Seq<Received<T>>) -> Seq<T>
    decreases found.len(),
{
    if found.len() == 0 {
        seq![]
    } else {
        match found.last() {
            Received::Message(value) => messages(found.drop_last()).push(value),
            _ => messages(found.drop_last()),
        }
    }
}

/// The messages that the steps of a receiver hand on, in their order.
pub open spec fn handed_on<T>(steps: Seq<RecvStep<T>>) -> Seq<T>
    decreases steps.len(),
{
    if steps.len() == 0 {
        seq![]
    } else {
        match steps.last() {
            RecvStep::Done(Ok(value)) => handed_on(steps.drop_last()).push(value),
            _ => handed_on(steps.drop_last()),
        }
    }
}

/// A thread that polls by timer hands on each message that comes out of the
/// channel, once and in the order in which they come. It gives up only where
/// the channel has no message and no sender, and waits on where there is no
/// message yet.
pub proof fn every_message_is_handed_on<T>(found: Seq<Received<T>>, i: int)
    ensures
        handed_on(found.map_values(|f: Received<T>| recv_step(f))) == messages(found),
        0 <= i < found.len() ==> {
            &&& recv_step(found[i]) == RecvStep::<T>::Done(Err(Disconnected)) <==> found[i]
                == Received::<T>::Disconnected
            &&& recv_step(found[i]) == RecvStep::<T>::Repoll <==> found[i] == Received::<T>::Empty
        },
    decreases found.len(),
{
    let steps = found.map_values(|f: Received<T>| recv_step(f));
    if found.len() > 0 {
        every_message_is_handed_on(found.drop_last(), 0);
        assert(steps.drop_last() =~= found.drop_last().map_values(
            |f: Received<T>| recv_step(f),
        ));
    }
}

/// A value in the channel is the result of the join, on every thread and at every
/// poll; a join fails exactly where all senders are gone and no value came; and
/// where neither has happened the wait goes on, by a timer on an event loop beside
/// workers and by the channel's own wake-up elsewhere.
pub proof fn joins_give_the_value_of_the_task<T>(
    value: T,
    found: Received<T>,
    repolls: bool,
    threaded: bool,
    on_worker: bool,
)
    ensures
        join_poll(Received::Message(value), repolls, threaded, on_worker) == JoinPoll::Ready(
            Ok(value),
        ),
        join_poll(found, repolls, threaded, on_worker) matches JoinPoll::Ready(Err(_))
            <==> found == Received::<T>::Disconnected,
        join_poll(found, repolls, threaded, on_worker) matches JoinPoll::Ready(Ok(v)) ==> found
            == Received::Message(v),
        join_poll(Received::<T>::Empty, repolls, threaded, true) == JoinPoll::<T>::PollReceiver,
        join_poll(Received::<T>::Empty, repolls, false, on_worker) == JoinPoll::<T>::PollReceiver,
        join_poll(Received::<T>::Empty, repolls, true, false) == (JoinPoll::<T>::PollTimer {
            start: !repolls,
        }),
{
}

/// A message in the channel is what is received, on a thread that polls by timer
/// as on one that the channel wakes.
pub proof fn receiving_gives_the_message<T>(value: T, found: Received<T>)
    ensures
        recv_step(Received::Message(value)) == RecvStep::Done(Ok(value)),
        recv_step(found) matches RecvStep::Done(Ok(v)) ==> found == Received::Message(v),
        recv_step(found) matches RecvStep::Done(Err(_)) <==> found == Received::<T>::Disconnected,
        !(recv_step(found) is AwaitReceiver),
{
}

/// Only an event-loop thread beside workers polls by timer.
pub proof fn workers_do_not_poll_by_timer(threaded: bool, on_worker: bool)
    ensures
        on_worker ==> !needs_repoll(threaded, on_worker),
        !threaded ==> !needs_repoll(threaded, on_worker),
        needs_repoll(true, false),
{
}

/// A task counts as ended exactly if a result waits in its channel or no sender
/// is left, as the receipts of that channel say.
pub proof fn a_result_or_a_lost_sender_ends_a_task<T>(
    state: ChannelState<T>,
    rx: flume::Receiver<T>,
)
    ensures
        state.finished() <==> (state.empty.answer() ==> state.senders.answer()),
        state.at(rx) <==> rx == state.empty.at() && rx == state.senders.at(),
{
}

/// A handle stays on its task: what comes out of the channel of one that is the
/// same comes out of the other's, and what the other could abort it can abort.
pub proof fn handles_stay_on_their_task<T>(
    handle: JoinHandle<T>,
    before: JoinHandle<T>,
    registration: futures::future::AbortRegistration,
)
    requires
        handle.same_task(before),
    ensures
        handle.results() == before.results(),
        before.can_abort(registration) ==> handle.can_abort(registration),
{
}

/// The timers that are started and dropped are counted one by one, and the peak
/// is the most that there were: it never falls, and rises only with them.
pub proof fn repoll_timers_are_counted(
    before: RepollCounts,
    started: RepollCounts,
    dropped: RepollCounts,
)
    requires
        before.wf(),
        started.is_start(before),
        dropped.is_drop(started),
    ensures
        started.wf(),
        dropped.wf(),
        started.pending == before.pending + 1,
        dropped.pending == before.pending,
        dropped.peak == started.peak,
        started.peak >= before.peak,
        started.pending <= before.peak ==> started.peak == before.peak,
        started.pending > before.peak ==> started.peak == started.pending,
{
}

/// A join that is woken by its channel gives the value that came, fails exactly
/// if none can come, and waits otherwise; and one that polls by timer is woken
/// exactly when its timer is over.
pub proof fn woken_joins_give_the_value<T>(
    value: T,
    polled: Option<Result<T, ()>>,
    result: Option<Result<T, JoinError>>,
    next: TimerPoll,
    over: bool,
)
    ensures
        is_joined(polled, result) ==> {
            &&& polled == Some(Ok::<T, ()>(value)) ==> result == Some(Ok::<T, JoinError>(value))
            &&& (polled matches Some(Err(_))) ==> (result matches Some(Err(_)))
            &&& polled is None <==> result is None
        },
        next.is_timer_poll(over) ==> (next == TimerPoll::DropAndWake <==> over),
{
}

} // verus!
