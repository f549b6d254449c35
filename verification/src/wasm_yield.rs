//! Yielding and sleeping, on a worker with an executor of its own and on a
//! thread that runs an event loop.

use crate::channel::{channel, Outlet, Posted, ReceiversLeft};
use crate::time::{rounding_up_never_shortens, Duration};
use crate::wake::{ms_until, TimerEntry, TimerRegistration, WakeInner, WakeView};
use vstd::prelude::*;

verus! {

/// How a sleep waits. `R` is the future that a browser timer resolves.
pub enum SleepInner<R> {
    /// A browser timer resolves `future` (made on an event-loop thread).
    Js { deadline_ms: u64, future: R },
    /// A deadline in the timer queue of the current worker's executor.
    Timer { deadline_ms: u64, registration: Option<TimerRegistration> },
    /// A single trip through the queue of the current worker's executor.
    Yield { yielded: bool },
}

/// A sleep that may be awaited on any thread.
pub struct Sleep<R> {
    inner: SleepInner<R>,
}

/// What the caller does for a sleep that was polled.
pub enum SleepAction {
    /// The sleep is over.
    Ready,
    /// The sleep goes on. `released` is a claim on a timer that it does not
    /// need any more.
    Pending { released: Option<TimerRegistration> },
    /// The sleep goes on, and its waker is called at once.
    WakeAgain,
    /// The sleep goes on with a browser timer of this many milliseconds. Its
    /// waker is called at once.
    Rearm(u32),
}

/// How a sleep starts.
pub enum NewSleep<R> {
    /// The sleep is made.
    Made(Sleep<R>),
    /// A browser timer of this many milliseconds is set first.
    Js(u32),
}

impl<R> SleepInner<R> {
    /// The way to wait on a worker: a worker does not serve the callbacks of
    /// browser timers, so it takes the deadline into its own queue.
    pub open spec fn on_worker(self) -> SleepInner<R> {
        match self {
            SleepInner::Js { deadline_ms, .. } => SleepInner::Timer {
                deadline_ms,
                registration: None,
            },
            _ => self,
        }
    }

    /// The claim that the sleep has on a timer.
    pub open spec fn claim(self) -> Option<TimerRegistration> {
        match self {
            SleepInner::Timer { registration, .. } => registration,
            _ => None,
        }
    }

    /// When the sleep ends; a yield has no such time.
    pub open spec fn deadline(self) -> Option<u64> {
        match self {
            SleepInner::Js { deadline_ms, .. } => Some(deadline_ms),
            SleepInner::Timer { deadline_ms, .. } => Some(deadline_ms),
            SleepInner::Yield { .. } => None,
        }
    }

    /// What a poll on a worker does, whose executor shares `wake` with its
    /// wakers: the sleep becomes `next`, and `wake` becomes `next_wake`.
    pub open spec fn polled_on_worker<W>(
        self,
        wake: WakeView<W>,
        now_ms: u64,
        waker: W,
        action: SleepAction,
        next: SleepInner<R>,
        next_wake: WakeView<W>,
    ) -> bool {
        match self.on_worker() {
            SleepInner::Timer { deadline_ms, registration } => if now_ms >= deadline_ms {
                &&& action is Ready
                &&& next == self.on_worker()
                &&& next_wake == wake
            } else if registration is Some && registration->0.is_pending_in(wake) {
                &&& action == (SleepAction::Pending { released: None })
                &&& next == self.on_worker()
                &&& next_wake == wake.with_waker(registration->0.id(), waker)
            } else {
                &&& action == (SleepAction::Pending { released: registration })
                &&& next matches SleepInner::Timer { deadline_ms: same, registration: Some(r) }
                    && same == deadline_ms && r.executor() == wake.executor && r.id()
                    == wake.next_timer
                &&& next_wake == wake.with_timer(TimerEntry { deadline_ms, waker })
            },
            SleepInner::Yield { yielded } => {
                &&& action == (if yielded {
                    SleepAction::Ready
                } else {
                    SleepAction::WakeAgain
                })
                &&& next == (SleepInner::<R>::Yield { yielded: true })
                &&& next_wake == wake
            },
            SleepInner::Js { .. } => false,
        }
    }

    /// What a poll on a thread without an executor asks for.
    pub open spec fn polled_on_event_loop(self, signalled: bool, now_ms: u64) -> SleepAction {
        match self {
            SleepInner::Js { deadline_ms, .. } => if !signalled {
                SleepAction::Pending { released: None }
            } else if now_ms >= deadline_ms {
                SleepAction::Ready
            } else {
                SleepAction::Rearm(rearm_ms(deadline_ms, now_ms))
            },
            SleepInner::Timer { deadline_ms, .. } => if now_ms >= deadline_ms {
                SleepAction::Ready
            } else {
                SleepAction::Rearm(rearm_ms(deadline_ms, now_ms))
            },
            SleepInner::Yield { .. } => SleepAction::Rearm(0),
        }
    }

    /// If the sleep has a timer that is pending in `wake`, that timer has the
    /// deadline of the sleep.
    pub open spec fn agrees_with<W>(self, wake: WakeView<W>) -> bool {
        match self {
            SleepInner::Timer { deadline_ms, registration: Some(r) } => r.is_pending_in(wake)
                ==> wake.timers[r.id()].deadline_ms == deadline_ms,
            _ => true,
        }
    }

    /// A timer with this sleep's deadline is pending in `wake`, and calls
    /// `waker`.
    pub open spec fn awaits_timer<W>(self, wake: WakeView<W>, waker: W) -> bool {
        match self {
            SleepInner::Timer { deadline_ms, registration: Some(r) } => {
                &&& r.is_pending_in(wake)
                &&& wake.timers[r.id()] == (TimerEntry { deadline_ms, waker })
            },
            _ => false,
        }
    }
}

impl<R> Sleep<R> {
    /// How the sleep waits.
    pub closed spec fn inner(&self) -> SleepInner<R> {
        self.inner
    }

    /// The sleep of a browser timer that resolves `future`. The timer was set
    /// to `ms` milliseconds, and the clock now reads `now_ms`.
    fn js(ms: u32, now_ms: u64, future: R) -> (sleep: Sleep<R>)
        requires
            now_ms + ms <= u64::MAX,
        ensures
            sleep.inner() == (SleepInner::Js { deadline_ms: (now_ms + ms) as u64, future }),
    {
        Sleep { inner: SleepInner::Js { deadline_ms: now_ms + ms as u64, future } }
    }

    /// The future that a browser timer resolves, if the sleep waits for one.
    pub fn js_future(&mut self) -> (future: Option<&mut R>)
        ensures
            match old(self).inner() {
                SleepInner::Js { deadline_ms, future: f } => {
                    &&& future is Some
                    &&& *(future->Some_0) == f
                    &&& final(self).inner() == (SleepInner::Js {
                        deadline_ms,
                        future: *final(future->Some_0),
                    })
                },
                _ => future is None && final(self).inner() == old(self).inner(),
            },
    {
        match &mut self.inner {
            SleepInner::Js { future, .. } => Some(future),
            _ => None,
        }
    }

    /// Polls the sleep on a worker whose executor shares `inner` with its
    /// wakers. A timer may have fired, or may belong to an executor that the
    /// sleep has left: its wake went to another task, so a new timer is
    /// registered, even if the deadline has just passed.
    fn poll_on_worker<W>(
        &mut self,
        inner: &mut WakeInner<W>,
        now_ms: u64,
        waker: W,
    ) -> (action: SleepAction)
        requires
            old(inner).wf(),
            old(inner)@.next_timer < usize::MAX,
        ensures
            final(inner).wf(),
            old(self).inner().polled_on_worker(
                old(inner)@,
                now_ms,
                waker,
                action,
                final(self).inner(),
                final(inner)@,
            ),
    {
        let moved: Option<u64> = match &self.inner {
            SleepInner::Js { deadline_ms, .. } => Some(*deadline_ms),
            _ => None,
        };
        if let Some(deadline_ms) = moved {
            self.inner = SleepInner::Timer { deadline_ms, registration: None };
        }
        match &mut self.inner {
            SleepInner::Timer { deadline_ms, registration } => {
                if now_ms >= *deadline_ms {
                    return SleepAction::Ready;
                }
                let pending: bool = match &*registration {
                    Some(timer) => timer.is_pending(inner),
                    None => false,
                };
                if pending {
                    if let Some(timer) = &*registration {
                        timer.update_waker(inner, waker);
                    }
                    SleepAction::Pending { released: None }
                } else {
                    let released = registration.take();
                    *registration = Some(TimerRegistration::new(inner, *deadline_ms, waker));
                    SleepAction::Pending { released }
                }
            },
            SleepInner::Yield { yielded } => {
                if *yielded {
                    SleepAction::Ready
                } else {
                    *yielded = true;
                    SleepAction::WakeAgain
                }
            },
            SleepInner::Js { .. } => SleepAction::Ready,
        }
    }

    /// Polls the sleep on a thread without an executor. `signalled` says
    /// whether the future of the sleep's browser timer, if it has one, is
    /// resolved. A sleep that comes from a worker goes on with a browser
    /// timer, since waking itself over and over would starve the event loop.
    fn poll_on_event_loop(&self, signalled: bool, now_ms: u64) -> (action: SleepAction)
        ensures
            action == self.inner().polled_on_event_loop(signalled, now_ms),
    {
        match &self.inner {
            SleepInner::Js { deadline_ms, .. } => {
                if !signalled {
                    return SleepAction::Pending { released: None };
                }
                let remaining: u64 = deadline_ms.saturating_sub(now_ms);
                if remaining == 0 {
                    return SleepAction::Ready;
                }
                SleepAction::Rearm(clamp_to_u32(remaining))
            },
            SleepInner::Timer { deadline_ms, .. } => {
                let remaining: u64 = deadline_ms.saturating_sub(now_ms);
                if remaining == 0 {
                    return SleepAction::Ready;
                }
                SleepAction::Rearm(clamp_to_u32(remaining))
            },
            SleepInner::Yield { .. } => SleepAction::Rearm(0),
        }
    }

    /// Polls the sleep, on a worker whose executor shares `worker` with its
    /// wakers, or on a thread without an executor.
    pub fn poll<W>(
        &mut self,
        worker: Option<&mut WakeInner<W>>,
        signalled: bool,
        now_ms: u64,
        waker: W,
    ) -> (action: SleepAction)
        requires
            worker matches Some(inner) ==> (*inner).wf() && (*inner)@.next_timer < usize::MAX,
        ensures
            match worker {
                Some(inner) => final(inner).wf() && old(self).inner().polled_on_worker(
                    (*inner)@,
                    now_ms,
                    waker,
                    action,
                    final(self).inner(),
                    final(inner)@,
                ),
                None => action == old(self).inner().polled_on_event_loop(signalled, now_ms)
                    && final(self).inner() == old(self).inner(),
            },
    {
        match worker {
            Some(inner) => self.poll_on_worker(inner, now_ms, waker),
            None => self.poll_on_event_loop(signalled, now_ms),
        }
    }

    /// Goes on with another sleep. Returns the claim on a timer that is not
    /// needed any more.
    pub fn rearm(&mut self, next: Sleep<R>) -> (released: Option<TimerRegistration>)
        ensures
            *final(self) == next,
            released == (match old(self).inner() {
                SleepInner::Timer { registration, .. } => registration,
                _ => None,
            }),
            released == old(self).inner().claim(),
    {
        let released = match &mut self.inner {
            SleepInner::Timer { registration, .. } => registration.take(),
            _ => None,
        };
        *self = next;
        released
    }

    /// Ends the sleep, over or not. Returns its claim on a timer.
    pub fn release(self) -> (released: Option<TimerRegistration>)
        ensures
            released == (match self.inner() {
                SleepInner::Timer { registration, .. } => registration,
                _ => None,
            }),
            released == self.inner().claim(),
    {
        match self.inner {
            SleepInner::Timer { registration, .. } => registration,
            _ => None,
        }
    }
}

/// The time until `deadline_ms`, as far as a browser timer is asked for it.
pub open spec fn rearm_ms(deadline_ms: u64, now_ms: u64) -> u32 {
    if ms_until(deadline_ms, now_ms) > u32::MAX {
        u32::MAX
    } else {
        ms_until(deadline_ms, now_ms) as u32
    }
}

fn clamp_to_u32(ms: u64) -> (clamped: u32)
    ensures
        clamped == (if ms > u32::MAX {
            u32::MAX
        } else {
            ms as u32
        }),
{
    if ms > u32::MAX as u64 {
        u32::MAX
    } else {
        ms as u32
    }
}

/// The longest time that a browser timer takes, in milliseconds.
pub const MAX_TIMEOUT_MS: i32 = i32::MAX;

/// Milliseconds between two rounds that reclaim browser timers.
pub const CLEANUP_PERIOD_MS: i32 = 16;

/// A sleep lasts `ms` milliseconds from `now_ms` on.
pub open spec fn lasts<R>(sleep: SleepInner<R>, ms: u32, now_ms: u64) -> bool {
    sleep.deadline() matches Some(deadline_ms) && deadline_ms - now_ms == ms
}

/// A sleep of `ms` milliseconds starts when the clock reads `now_ms`. One of no
/// length is a yield.
pub open spec fn starts<R>(sleep: NewSleep<R>, ms: u32, on_worker: bool, now_ms: u64) -> bool {
    match sleep {
        NewSleep::Made(made) => {
            &&& on_worker
            &&& ms == 0 ==> made.inner() == (SleepInner::<R>::Yield { yielded: false })
            &&& ms > 0 ==> lasts(made.inner(), ms, now_ms) && made.inner() is Timer
        },
        NewSleep::Js(js_ms) => !on_worker && js_ms == ms,
    }
}

/// Yields the current task so that others can run. A worker queues the task
/// again. An event-loop thread sets a browser timer of no length, so that
/// callbacks and rendering get their turn.
pub fn yield_now<R>(on_worker: bool) -> (sleep: NewSleep<R>)
    ensures
        match sleep {
            NewSleep::Made(s) => on_worker && s.inner() == (SleepInner::<R>::Yield {
                yielded: false,
            }),
            NewSleep::Js(ms) => !on_worker && ms == 0,
        },
        starts(sleep, 0, on_worker, 0),
{
    if on_worker {
        NewSleep::Made(Sleep { inner: SleepInner::Yield { yielded: false } })
    } else {
        NewSleep::Js(0)
    }
}

/// Sleeps for `ms` milliseconds, on a worker by the timer queue of its
/// executor, elsewhere by a browser timer. The clock reads `now_ms`.
pub fn sleep_ms<R>(ms: u32, on_worker: bool, now_ms: u64) -> (sleep: NewSleep<R>)
    requires
        now_ms + ms <= u64::MAX,
    ensures
        match sleep {
            NewSleep::Made(s) => on_worker && s.inner() == (if ms == 0 {
                SleepInner::<R>::Yield { yielded: false }
            } else {
                SleepInner::<R>::Timer { deadline_ms: (now_ms + ms) as u64, registration: None }
            }),
            NewSleep::Js(js_ms) => !on_worker && js_ms == ms,
        },
        starts(sleep, ms, on_worker, now_ms),
{
    if on_worker {
        if ms == 0 {
            return NewSleep::Made(Sleep { inner: SleepInner::Yield { yielded: false } });
        }
        return NewSleep::Made(
            Sleep {
                inner: SleepInner::Timer { deadline_ms: now_ms + ms as u64, registration: None },
            },
        );
    }
    NewSleep::Js(ms)
}

/// A browser timer that the current thread owns, with its callback `C`. Its
/// sleep may be dropped on another thread, which shows as a disconnected
/// `sender`.
pub struct JsTimer<C> {
    key: u64,
    id: i32,
    sender: Outlet<()>,
    fired: bool,
    /// Kept for as long as the browser may call it.
    _callback: C,
}

/// What is known of a browser timer.
pub struct JsTimerView {
    /// The key that its callback hands back.
    pub key: u64,
    /// The id by which the browser clears it.
    pub id: i32,
    /// Whether its callback ran.
    pub fired: bool,
    /// The channel that signals its sleep.
    pub signal: flume::Sender<()>,
}

impl<C> View for JsTimer<C> {
    type V = JsTimerView;

    closed spec fn view(&self) -> JsTimerView {
        JsTimerView {
            key: self.key,
            id: self.id,
            fired: self.fired,
            signal: self.sender.sender(),
        }
    }
}

/// The browser timers of one thread. Handles of the browser never enter a
/// sleep, which may leave the thread. One short cleanup timer serves all of
/// them, so that a cancelled long sleep does not retain its callback until it
/// expires.
pub struct JsTimers<C> {
    timers: Vec<JsTimer<C>>,
    next_key: u64,
}

/// A browser timer that is to be set.
pub struct TimerRequest {
    /// The key that the callback hands to `JsTimers::fire`.
    pub key: u64,
    /// What the timer is set to.
    pub millis: i32,
    /// The end of the channel by which the callback signals the sleep.
    pub sender: Outlet<()>,
    /// The end of the channel on which the sleep waits.
    pub receiver: flume::Receiver<()>,
}

/// A browser timer that was set.
pub struct StartedTimer<R> {
    pub sleep: Sleep<R>,
    /// Whether the first cleanup round is to be scheduled.
    pub start_cleanup: bool,
}

/// What a cleanup round asks for.
pub struct Cleanup {
    /// The browser timers to clear.
    pub clear: Vec<i32>,
    /// Whether another round is to be scheduled.
    pub more: bool,
}

/// The receipts are those of the channels of the timers, in their order.
pub open spec fn are_asked(timers: Seq<JsTimerView>, receipts: Seq<ReceiversLeft<()>>) -> bool {
    &&& receipts.len() == timers.len()
    &&& forall|i: int|
        0 <= i < timers.len() ==> (#[trigger] receipts[i]).at() == timers[i].signal
}

/// Which of the channels had lost their receivers.
pub open spec fn answers(receipts: Seq<ReceiversLeft<()>>) -> Seq<bool> {
    receipts.map_values(|r: ReceiversLeft<()>| r.answer())
}

/// Whether a cleanup round keeps a timer.
pub open spec fn is_kept(timer: JsTimerView, disconnected: bool) -> bool {
    !timer.fired && !disconnected
}

/// The timers that a cleanup round keeps, in their order.
pub open spec fn kept(timers: Seq<JsTimerView>, disconnected: Seq<bool>) -> Seq<JsTimerView>
    decreases timers.len(),
{
    if timers.len() == 0 {
        timers
    } else {
        let before = kept(timers.drop_last(), disconnected);
        if is_kept(timers.last(), disconnected[timers.len() - 1]) {
            before.push(timers.last())
        } else {
            before
        }
    }
}

/// The ids that a cleanup round clears: those of the timers that it removes
/// before they fired.
pub open spec fn cleared(timers: Seq<JsTimerView>, disconnected: Seq<bool>) -> Seq<i32>
    decreases timers.len(),
{
    if timers.len() == 0 {
        seq![]
    } else {
        let before = cleared(timers.drop_last(), disconnected);
        let last = timers.last();
        if !is_kept(last, disconnected[timers.len() - 1]) && !last.fired {
            before.push(last.id)
        } else {
            before
        }
    }
}

/// A timer was set: it is the last of the timers, under `key`, and has not fired.
pub open spec fn is_set(
    before: Seq<JsTimerView>,
    after: Seq<JsTimerView>,
    key: u64,
    id: i32,
    signal: flume::Sender<()>,
) -> bool {
    &&& after.len() == before.len() + 1
    &&& after.drop_last() == before
    &&& after.last().key == key
    &&& after.last().id == id
    &&& after.last().signal == signal
    &&& !after.last().fired
}

/// The timers once the callback of timer `key` ran.
pub open spec fn after_firing(timers: Seq<JsTimerView>, key: u64) -> Seq<JsTimerView> {
    timers.map_values(
        |t: JsTimerView|
            if t.key == key {
                JsTimerView { fired: true, ..t }
            } else {
                t
            },
    )
}

/// The argument that sets a browser timer to `ms` milliseconds, or to as many
/// as it takes.
pub open spec fn timeout_argument(ms: u32) -> i32 {
    if ms > MAX_TIMEOUT_MS {
        MAX_TIMEOUT_MS
    } else {
        ms as i32
    }
}

impl<C> View for JsTimers<C> {
    type V = Seq<JsTimerView>;

    closed spec fn view(&self) -> Seq<JsTimerView> {
        self.timers@.map_values(|t: JsTimer<C>| t@)
    }
}

impl<C> JsTimers<C> {
    /// The key of the next timer.
    pub closed spec fn next(&self) -> u64 {
        self.next_key
    }

    /// No key is used twice, and none is used before it was given out.
    pub open spec fn wf(&self) -> bool {
        &&& forall|i: int| 0 <= i < self@.len() ==> (#[trigger] self@[i]).key < self.next()
        &&& forall|i: int, j: int|
            0 <= i < j < self@.len() ==> (#[trigger] self@[i]).key != (#[trigger] self@[j]).key
    }

    /// A thread that owns no browser timer.
    pub fn new() -> (timers: JsTimers<C>)
        ensures
            timers.wf(),
            timers@ == Seq::<JsTimerView>::empty(),
            timers.next() == 0,
    {
        let timers = JsTimers { timers: Vec::new(), next_key: 0 };
        assert(timers@ =~= Seq::<JsTimerView>::empty());
        timers
    }

    /// What to set for a sleep of `ms` milliseconds.
    pub fn request_timer(&self, ms: u32) -> (request: TimerRequest)
        ensures
            request.key == self.next(),
            request.millis == timeout_argument(ms),
            0 <= request.millis <= ms,
            request.millis < ms ==> request.millis == i32::MAX,
            request.sender.inlet() == request.receiver,
            request.sender.limit() == Some(1nat),
    {
        let (sender, receiver) = channel::<()>(Some(1));
        let millis: i32 = if ms > MAX_TIMEOUT_MS as u32 {
            MAX_TIMEOUT_MS
        } else {
            ms as i32
        };
        TimerRequest { key: self.next_key, millis, sender, receiver }
    }

    /// Whether another timer can be set.
    pub fn has_key(&self) -> (left: bool)
        ensures
            left == (self.next() < u64::MAX),
    {
        self.next_key < u64::MAX
    }

    /// Sleeps by the browser timer `id`, which was set as `request_timer`
    /// asked for, and calls `callback`. `sender` signals the channel on which
    /// `future` waits, and the clock reads `now_ms`.
    pub fn js_sleep<R>(
        &mut self,
        ms: u32,
        id: i32,
        sender: Outlet<()>,
        callback: C,
        future: R,
        now_ms: u64,
    ) -> (started: StartedTimer<R>)
        requires
            old(self).wf(),
            old(self).next() < u64::MAX,
            now_ms + ms <= u64::MAX,
        ensures
            final(self).wf(),
            final(self)@ == old(self)@.push(
                JsTimerView {
                    key: old(self).next(),
                    id,
                    fired: false,
                    signal: sender.sender(),
                },
            ),
            final(self).next() == old(self).next() + 1,
            started.start_cleanup == (old(self)@.len() == 0),
            started.sleep.inner() == (SleepInner::Js { deadline_ms: (now_ms + ms) as u64, future }),
            lasts(started.sleep.inner(), ms, now_ms),
            rounds(final(self)@) - rounds(old(self)@) == (if started.start_cleanup {
                1int
            } else {
                0int
            }),
            is_set(old(self)@, final(self)@, old(self).next(), id, sender.sender()),
    {
        let start_cleanup: bool = self.timers.len() == 0;
        let key: u64 = self.next_key;
        let ghost signal = sender.sender();
        self.timers.push(JsTimer { key, id, sender, fired: false, _callback: callback });
        self.next_key = key + 1;
        assert(self@.drop_last() =~= old(self)@);
        assert(self@ =~= old(self)@.push(JsTimerView { key, id, fired: false, signal }));
        StartedTimer { sleep: Sleep::js(ms, now_ms, future), start_cleanup }
    }

    /// The callback of timer `key`: the timer has fired, and its sleep is
    /// signalled. The signal is dropped if it was given before or if nobody
    /// waits for it.
    pub fn fire(&mut self, key: u64) -> (signalled: Option<Posted<()>>)
        requires
            old(self).wf(),
        ensures
            final(self).wf(),
            final(self)@ == after_firing(old(self)@, key),
            final(self).next() == old(self).next(),
            match signalled {
                Some(posted) => exists|i: int|
                    0 <= i < old(self)@.len() && (#[trigger] old(self)@[i]).key == key
                        && old(self)@[i].signal == posted.to(),
                None => forall|i: int|
                    0 <= i < old(self)@.len() ==> (#[trigger] old(self)@[i]).key != key,
            },
    {
        let mut i: usize = 0;
        while i < self.timers.len()
            invariant
                0 <= i <= self.timers@.len(),
                old(self).wf(),
                self.timers@ == old(self).timers@,
                self.next_key == old(self).next_key,
                forall|j: int| 0 <= j < i ==> (#[trigger] old(self)@[j]).key != key,
            decreases self.timers@.len() - i,
        {
            assert(old(self)@[i as int] == self.timers@[i as int]@);
            if self.timers[i].key == key {
                self.timers[i].fired = true;
                assert(self@ =~= after_firing(old(self)@, key));
                return Some(self.timers[i].sender.post(()));
            }
            i = i + 1;
        }
        assert(self@ =~= after_firing(old(self)@, key));
        None
    }

    /// Asks the channel of each timer whether its sleep was dropped. Returns the
    /// receipts, and what they say.
    fn disconnected(&self) -> (asked: (Vec<ReceiversLeft<()>>, Vec<bool>))
        ensures
            are_asked(self@, asked.0@),
            asked.1@ == answers(asked.0@),
    {
        let mut receipts: Vec<ReceiversLeft<()>> = Vec::new();
        let mut disconnected: Vec<bool> = Vec::new();
        let mut i: usize = 0;
        while i < self.timers.len()
            invariant
                0 <= i <= self.timers@.len(),
                receipts@.len() == i,
                disconnected@.len() == i,
                forall|j: int|
                    0 <= j < i ==> (#[trigger] receipts@[j]).at() == self@[j].signal
                        && disconnected@[j] == receipts@[j].answer(),
            decreases self.timers@.len() - i,
        {
            let receipt = self.timers[i].sender.is_disconnected();
            assert(self@[i as int] == self.timers@[i as int]@);
            disconnected.push(receipt.gone());
            receipts.push(receipt);
            i = i + 1;
        }
        assert(disconnected@ =~= answers(receipts@));
        (receipts, disconnected)
    }

    /// Removes the timers that fired and, as `disconnected` says for each of
    /// them, those whose sleep was dropped. The latter are cleared if they
    /// have not fired.
    pub fn reclaim(&mut self, disconnected: &Vec<bool>) -> (cleanup: Cleanup)
        requires
            old(self).wf(),
            disconnected@.len() == old(self)@.len(),
        ensures
            final(self).wf(),
            final(self)@ == kept(old(self)@, disconnected@),
            final(self).next() == old(self).next(),
            cleanup.clear@ == cleared(old(self)@, disconnected@),
            cleanup.more == (final(self)@.len() > 0),
            rounds(final(self)@) == (if cleanup.more {
                1int
            } else {
                0int
            }),
    {
        let mut timers: Vec<JsTimer<C>> = Vec::new();
        let mut clear: Vec<i32> = Vec::new();
        let ghost before = self@;
        let count: usize = self.timers.len();
        let mut i: usize = 0;
        let mut owned: Vec<JsTimer<C>> = Vec::new();
        std::mem::swap(&mut owned, &mut self.timers);
        for timer in it: owned
            invariant
                it.seq() == old(self).timers@,
                before == old(self).timers@.map_values(|t: JsTimer<C>| t@),
                disconnected@.len() == before.len(),
                count == before.len(),
                i == it.index(),
                timers@.map_values(|t: JsTimer<C>| t@) == kept(
                    before.take(i as int),
                    disconnected@,
                ),
                clear@ == cleared(before.take(i as int), disconnected@),
        {
            assert(timer == old(self).timers@[i as int]);
            proof {
                let next = before.take(i + 1);
                assert(next.drop_last() =~= before.take(i as int));
                assert(next.last() == timer@);
            }
            if !timer.fired && !disconnected[i] {
                let ghost prev = timers@;
                let ghost view = timer@;
                timers.push(timer);
                assert(timers@.map_values(|t: JsTimer<C>| t@) =~= prev.map_values(
                    |t: JsTimer<C>| t@,
                ).push(view));
            } else if !timer.fired {
                clear.push(timer.id);
            }
            i = i + 1;
        }
        let more: bool = timers.len() > 0;
        self.timers = timers;
        proof {
            assert(before.take(before.len() as int) =~= before);
            lemma_kept(before, disconnected@);
        }
        Cleanup { clear, more }
    }

    /// A cleanup round: asks the channel of each timer whether its sleep was
    /// dropped, and reclaims the timers by the answers, which are returned too.
    /// It runs in a callback of its own, so it never destroys a timer callback
    /// that is being executed.
    pub fn clean_up(&mut self) -> (cleanup: (Cleanup, Vec<ReceiversLeft<()>>))
        requires
            old(self).wf(),
        ensures
            final(self).wf(),
            are_asked(old(self)@, cleanup.1@),
            final(self)@ == kept(old(self)@, answers(cleanup.1@)),
            final(self).next() == old(self).next(),
            cleanup.0.clear@ == cleared(old(self)@, answers(cleanup.1@)),
            cleanup.0.more == (final(self)@.len() > 0),
            rounds(final(self)@) == (if cleanup.0.more {
                1int
            } else {
                0int
            }),
    {
        let (receipts, disconnected) = self.disconnected();
        (self.reclaim(&disconnected), receipts)
    }
}

/// Number of timer callbacks that the thread of `timers` owns. Those that ran
/// or were cancelled are reclaimed by the next cleanup round.
pub fn active_js_timers<C>(timers: &JsTimers<C>) -> (count: usize)
    ensures
        count == timers@.len(),
{
    timers.timers.len()
}

/// A sleep of any length, made of sleeps that a browser timer can take.
pub struct LongSleep {
    remaining: u128,
}

/// Sleeps for `duration`, rounded up to whole milliseconds.
pub fn sleep(duration: Duration) -> (long: LongSleep)
    ensures
        long.remaining() == duration.ceil_millis(),
{
    let millis: u128 = duration.as_millis();
    let subsec: u32 = duration.subsec_nanos();
    proof {
        rounding_up_never_shortens(duration);
    }
    let remaining: u128 = if subsec % 1_000_000 != 0 {
        millis + 1
    } else {
        millis
    };
    LongSleep { remaining }
}

/// The length of the next part of a sleep that has `remaining` milliseconds
/// to go.
pub open spec fn chunk(remaining: nat) -> nat {
    if remaining > MAX_TIMEOUT_MS {
        MAX_TIMEOUT_MS as nat
    } else {
        remaining
    }
}

/// The lengths of the parts of a sleep of `remaining` milliseconds.
pub open spec fn chunks(remaining: nat) -> Seq<nat>
    decreases remaining,
{
    if remaining == 0 {
        seq![]
    } else {
        seq![chunk(remaining)] + chunks((remaining - chunk(remaining)) as nat)
    }
}

impl LongSleep {
    /// The milliseconds that are not slept yet.
    pub closed spec fn remaining(&self) -> nat {
        self.remaining as nat
    }

    /// The length of the next part, which the caller passes to `sleep_ms` and
    /// waits for. There is none once the sleep is over.
    pub fn next_chunk(&mut self) -> (ms: Option<u32>)
        ensures
            match ms {
                Some(c) => {
                    &&& old(self).remaining() > 0
                    &&& c == chunk(old(self).remaining())
                    &&& final(self).remaining() == old(self).remaining() - c
                },
                None => old(self).remaining() == 0 && final(self).remaining() == 0,
            },
    {
        if self.remaining == 0 {
            return None;
        }
        let ms: u32 = if self.remaining > MAX_TIMEOUT_MS as u128 {
            MAX_TIMEOUT_MS as u32
        } else {
            self.remaining as u32
        };
        self.remaining = self.remaining - ms as u128;
        Some(ms)
    }
}

/// On a worker a sleep ends when its deadline has come, not before, and a
/// yield when it went through the queue.
pub proof fn workers_end_sleeps_on_time<R, W>(
    sleep: SleepInner<R>,
    wake: WakeView<W>,
    now_ms: u64,
    waker: W,
    action: SleepAction,
    next: SleepInner<R>,
    next_wake: WakeView<W>,
)
    requires
        sleep.polled_on_worker(wake, now_ms, waker, action, next, next_wake),
    ensures
        action is Ready <==> match sleep {
            SleepInner::Yield { yielded } => yielded,
            _ => now_ms >= sleep.deadline()->0,
        },
{
}

/// A worker needs nothing of the browser: a sleep that is polled there waits in
/// the worker's own queues, wherever it was made.
pub proof fn workers_set_no_browser_timer<R, W>(
    sleep: SleepInner<R>,
    wake: WakeView<W>,
    now_ms: u64,
    waker: W,
    action: SleepAction,
    next: SleepInner<R>,
    next_wake: WakeView<W>,
)
    requires
        sleep.polled_on_worker(wake, now_ms, waker, action, next, next_wake),
    ensures
        !(action is Rearm),
        !(next is Js),
{
}

/// On an event-loop thread no sleep ends before its deadline, and a sleep
/// whose browser timer fired ends if the deadline has come.
pub proof fn event_loops_end_no_sleep_early<R>(
    sleep: SleepInner<R>,
    signalled: bool,
    now_ms: u64,
)
    ensures
        sleep.polled_on_event_loop(signalled, now_ms) is Ready ==> sleep.deadline() is Some
            && now_ms >= sleep.deadline()->0,
        signalled && sleep.deadline() is Some && now_ms >= sleep.deadline()->0
            ==> sleep.polled_on_event_loop(signalled, now_ms) is Ready,
{
}

/// A sleep that goes on keeps its deadline, on whatever worker it is polled,
/// and leaves a timer there that calls the waker of that poll. No wake-up is
/// lost when a sleep moves to another worker.
pub proof fn pending_sleeps_await_a_timer<R, W>(
    sleep: SleepInner<R>,
    wake: WakeView<W>,
    now_ms: u64,
    waker: W,
    action: SleepAction,
    next: SleepInner<R>,
    next_wake: WakeView<W>,
)
    requires
        wake.wf(),
        wake.next_timer < usize::MAX,
        sleep.agrees_with(wake),
        sleep.polled_on_worker(wake, now_ms, waker, action, next, next_wake),
    ensures
        next.deadline() == sleep.deadline(),
        next.agrees_with(next_wake),
        action is Pending ==> next.awaits_timer(next_wake, waker),
{
}

/// The timer of a sleep agrees with it whatever else happens to the executor:
/// other timers are registered, released or fired, and tasks are woken.
pub proof fn other_timers_leave_a_sleep_alone<R, W>(
    sleep: SleepInner<R>,
    wake: WakeView<W>,
    other: TimerEntry<W>,
    t: usize,
    waker: W,
    now_ms: u64,
)
    requires
        wake.wf(),
        wake.next_timer < usize::MAX,
        sleep.agrees_with(wake),
    ensures
        sleep matches SleepInner::Timer { registration: Some(r), .. } ==> r.executor()
            == wake.executor && r.id() < wake.next_timer ==> sleep.agrees_with(
            wake.with_timer(other),
        ),
        sleep.agrees_with(wake.without_timer(t)),
        wake.timers.contains_key(t) ==> sleep.agrees_with(wake.with_waker(t, waker)),
        sleep.agrees_with(wake.without_expired(now_ms)),
        sleep.agrees_with(wake.woken(t)),
{
}

/// A sleep that goes on with a new browser timer does not end earlier for it.
/// The sleep began at `start_ms`, was polled at `now_ms` and set its new timer
/// at `set_ms`.
pub proof fn rearming_does_not_shorten_a_sleep<R>(
    sleep: SleepInner<R>,
    signalled: bool,
    start_ms: u64,
    now_ms: u64,
    set_ms: u64,
)
    requires
        sleep.deadline() is Some,
        sleep.deadline()->0 <= start_ms + u32::MAX,
        start_ms <= now_ms <= set_ms,
    ensures
        sleep.polled_on_event_loop(signalled, now_ms) matches SleepAction::Rearm(ms) ==> set_ms + ms
            >= sleep.deadline()->0,
{
}

/// The parts of a long sleep add up to its length, and a browser timer can
/// take each of them.
pub proof fn chunks_add_up(remaining: nat)
    ensures
        sum(chunks(remaining)) == remaining,
        forall|i: int|
            0 <= i < chunks(remaining).len() ==> 0 < #[trigger] chunks(remaining)[i]
                <= MAX_TIMEOUT_MS,
    decreases remaining,
{
    if remaining > 0 {
        let rest = (remaining - chunk(remaining)) as nat;
        chunks_add_up(rest);
        assert(chunks(remaining).drop_first() =~= chunks(rest));
        assert forall|i: int| 0 <= i < chunks(remaining).len() implies 0 < #[trigger] chunks(
            remaining,
        )[i] <= MAX_TIMEOUT_MS by {
            if i > 0 {
                assert(chunks(remaining)[i] == chunks(rest)[i - 1]);
            }
        }
    }
}

/// A long sleep is never shorter than asked for: if each part starts at or
/// after the end of the part before it, and does not end early, the last part
/// ends no sooner than the whole length after the start of the first.
pub proof fn long_sleeps_are_not_short(remaining: nat, starts: Seq<int>, ends: Seq<int>)
    requires
        remaining > 0,
        starts.len() == ends.len() == chunks(remaining).len(),
        forall|i: int|
            0 <= i < starts.len() ==> #[trigger] ends[i] >= starts[i] + chunks(remaining)[i],
        forall|i: int| 0 <= i < starts.len() - 1 ==> #[trigger] ends[i] <= starts[i + 1],
    ensures
        starts.len() > 0,
        ends.last() - starts.first() >= remaining,
    decreases remaining,
{
    let rest = (remaining - chunk(remaining)) as nat;
    assert(chunks(remaining).drop_first() =~= chunks(rest));
    assert(ends[0] >= starts[0] + chunks(remaining)[0]);
    if rest > 0 {
        let later_starts = starts.drop_first();
        let later_ends = ends.drop_first();
        assert forall|i: int| 0 <= i < later_starts.len() implies #[trigger] later_ends[i]
            >= later_starts[i] + chunks(rest)[i] by {
            assert(ends[i + 1] >= starts[i + 1] + chunks(remaining)[i + 1]);
            assert(chunks(rest)[i] == chunks(remaining).drop_first()[i]);
        }
        assert forall|i: int| 0 <= i < later_starts.len() - 1 implies #[trigger] later_ends[i]
            <= later_starts[i + 1] by {
            assert(ends[i + 1] <= starts[i + 2]);
        }
        long_sleeps_are_not_short(rest, later_starts, later_ends);
        assert(ends[0] <= starts[1]);
    }
}

/// The sum of `parts`.
pub open spec fn sum(parts: Seq<nat>) -> nat
    decreases parts.len(),
{
    if parts.len() == 0 {
        0
    } else {
        parts[0] + sum(parts.drop_first())
    }
}

/// A cleanup round reclaims a timer exactly if it fired or its sleep was
/// dropped. No timer of a live sleep is removed or cleared.
pub proof fn cleanup_reclaims_what_is_done(
    timers: Seq<JsTimerView>,
    disconnected: Seq<bool>,
    k: int,
)
    requires
        timers.len() == disconnected.len(),
        forall|i: int, j: int|
            0 <= i < j < timers.len() ==> (#[trigger] timers[i]).key != (#[trigger] timers[j]).key,
        0 <= k < timers.len(),
    ensures
        kept(timers, disconnected).contains(timers[k]) <==> !timers[k].fired && !disconnected[k],
        forall|c: int| #![trigger cleared(timers, disconnected)[c]]
            0 <= c < cleared(timers, disconnected).len() ==> exists|i: int|
                {
                    &&& 0 <= i < timers.len()
                    &&& (#[trigger] timers[i]).id == cleared(timers, disconnected)[c]
                    &&& !timers[i].fired
                    &&& disconnected[i]
                },
{
    lemma_kept(timers, disconnected);
    lemma_cleared(timers, disconnected);
}

/// One cleanup round is scheduled while the thread owns browser timers, and
/// none otherwise: a timer that is set, a callback that runs and a round that
/// ends (and asks for another one or not) all keep it so.
pub proof fn one_cleanup_round_serves_all_timers(
    timers: Seq<JsTimerView>,
    disconnected: Seq<bool>,
    timer: JsTimerView,
    key: u64,
)
    requires
        timers.len() <= disconnected.len(),
    ensures
        rounds(timers.push(timer)) == rounds(timers) + (if timers.len() == 0 {
            1int
        } else {
            0int
        }),
        rounds(after_firing(timers, key)) == rounds(timers),
        timers.len() > 0 ==> rounds(kept(timers, disconnected)) == rounds(timers) - 1 + (if kept(
            timers,
            disconnected,
        ).len() > 0 {
            1int
        } else {
            0int
        }),
{
}

/// The cleanup rounds that are scheduled for these timers.
pub open spec fn rounds(timers: Seq<JsTimerView>) -> int {
    if timers.len() == 0 {
        0
    } else {
        1
    }
}

proof fn lemma_cleared(timers: Seq<JsTimerView>, disconnected: Seq<bool>)
    requires
        timers.len() <= disconnected.len(),
    ensures
        forall|c: int| #![trigger cleared(timers, disconnected)[c]]
            0 <= c < cleared(timers, disconnected).len() ==> exists|i: int|
                {
                    &&& 0 <= i < timers.len()
                    &&& (#[trigger] timers[i]).id == cleared(timers, disconnected)[c]
                    &&& !timers[i].fired
                    &&& disconnected[i]
                },
    decreases timers.len(),
{
    if timers.len() > 0 {
        let shorter = timers.drop_last();
        lemma_cleared(shorter, disconnected);
        let result = cleared(timers, disconnected);
        let before = cleared(shorter, disconnected);
        assert forall|c: int| #![trigger result[c]] 0 <= c < result.len() implies exists|i: int|
            {
                &&& 0 <= i < timers.len()
                &&& (#[trigger] timers[i]).id == result[c]
                &&& !timers[i].fired
                &&& disconnected[i]
            } by {
            if c < before.len() {
                assert(result[c] == before[c]);
                let i = choose|i: int|
                    {
                        &&& 0 <= i < shorter.len()
                        &&& (#[trigger] shorter[i]).id == before[c]
                        &&& !shorter[i].fired
                        &&& disconnected[i]
                    };
                assert(timers[i] == shorter[i]);
            } else {
                assert(timers[timers.len() - 1].id == result[c]);
            }
        }
    }
}

/// Whether `timer` is one of the timers that a cleanup round is to keep.
spec fn stays(timers: Seq<JsTimerView>, disconnected: Seq<bool>, timer: JsTimerView) -> bool {
    exists|k: int|
        0 <= k < timers.len() && #[trigger] timers[k] == timer && is_kept(
            timers[k],
            disconnected[k],
        )
}

/// A cleanup round keeps exactly the timers that it should, each as it was.
proof fn lemma_kept(timers: Seq<JsTimerView>, disconnected: Seq<bool>)
    requires
        timers.len() <= disconnected.len(),
        forall|i: int, j: int|
            0 <= i < j < timers.len() ==> (#[trigger] timers[i]).key != (#[trigger] timers[j]).key,
    ensures
        forall|i: int|
            0 <= i < kept(timers, disconnected).len() ==> stays(
                timers,
                disconnected,
                #[trigger] kept(timers, disconnected)[i],
            ),
        forall|i: int, j: int|
            0 <= i < j < kept(timers, disconnected).len() ==> (#[trigger] kept(
                timers,
                disconnected,
            )[i]).key != (#[trigger] kept(timers, disconnected)[j]).key,
        forall|k: int|
            0 <= k < timers.len() && is_kept(#[trigger] timers[k], disconnected[k]) ==> kept(
                timers,
                disconnected,
            ).contains(timers[k]),
    decreases timers.len(),
{
    if timers.len() > 0 {
        let shorter = timers.drop_last();
        lemma_kept(shorter, disconnected);
        let result = kept(timers, disconnected);
        let before = kept(shorter, disconnected);
        assert forall|i: int| 0 <= i < result.len() implies stays(
            timers,
            disconnected,
            #[trigger] result[i],
        ) by {
            if i < before.len() {
                assert(stays(shorter, disconnected, before[i]));
                let k = choose|k: int|
                    0 <= k < shorter.len() && #[trigger] shorter[k] == before[i] && is_kept(
                        shorter[k],
                        disconnected[k],
                    );
                assert(timers[k] == shorter[k]);
            } else {
                assert(timers[timers.len() - 1] == result[i]);
            }
        }
        assert forall|i: int, j: int| 0 <= i < j < result.len() implies (#[trigger] result[i]).key
            != (#[trigger] result[j]).key by {
            assert(stays(shorter, disconnected, before[i]));
            let k = choose|k: int| 0 <= k < shorter.len() && #[trigger] shorter[k] == before[i];
            assert(timers[k] == before[i]);
            if j >= before.len() {
                assert(timers[timers.len() - 1] == result[j]);
            }
        }
        assert forall|k: int|
            0 <= k < timers.len() && is_kept(
                #[trigger] timers[k],
                disconnected[k],
            ) implies result.contains(timers[k]) by {
            if k < timers.len() - 1 {
                assert(shorter[k] == timers[k]);
                let i = before.index_of(shorter[k]);
                assert(result[i] == timers[k]);
            } else {
                assert(result[before.len() as int] == timers[k]);
            }
        }
    }
}

/// A browser timer is set to what a sleep asks for, as far as it takes that many
/// milliseconds: it is never set to more, and to less only if the sleep asks for
/// more than the signed 32-bit argument holds. A longer sleep gets a longer
/// timer or the longest one.
pub proof fn browser_timers_are_set_as_asked(ms: u32, more: u32)
    ensures
        0 <= timeout_argument(ms) <= ms,
        timeout_argument(ms) < ms <==> ms > 0x7fff_ffff,
        ms > 0x7fff_ffff ==> timeout_argument(ms) == 0x7fff_ffff,
        ms <= more ==> timeout_argument(ms) <= timeout_argument(more),
{
}

/// A browser timer that is on time fires no later than the deadline of its
/// sleep, and at the deadline if one timer can take the whole sleep.
pub proof fn browser_timers_fire_by_the_deadline(ms: u32, set_ms: u64, deadline_ms: u64)
    requires
        deadline_ms == set_ms + ms,
    ensures
        set_ms + timeout_argument(ms) <= deadline_ms,
        ms <= 0x7fff_ffff ==> set_ms + timeout_argument(ms) == deadline_ms,
{
}

/// A sleep with a deadline, however it waits, ends on a worker from that deadline
/// on and not before, and keeps the deadline until then. A yield takes two polls,
/// and asks to be woken at once after the first.
pub proof fn deadlines_are_kept_on_workers<R, W>(
    deadline_ms: u64,
    future: R,
    registration: Option<TimerRegistration>,
    yielded: bool,
    wake: WakeView<W>,
    now_ms: u64,
    waker: W,
    action: SleepAction,
    next: SleepInner<R>,
    next_wake: WakeView<W>,
)
    ensures
        (SleepInner::Js { deadline_ms, future }).polled_on_worker(
            wake,
            now_ms,
            waker,
            action,
            next,
            next_wake,
        ) ==> {
            &&& action is Ready <==> now_ms >= deadline_ms
            &&& now_ms < deadline_ms ==> action == (SleepAction::Pending { released: None })
            &&& next matches SleepInner::Timer { deadline_ms: kept, .. } && kept == deadline_ms
        },
        (SleepInner::<R>::Timer { deadline_ms, registration }).polled_on_worker(
            wake,
            now_ms,
            waker,
            action,
            next,
            next_wake,
        ) ==> {
            &&& action is Ready <==> now_ms >= deadline_ms
            &&& now_ms < deadline_ms ==> action is Pending
            &&& next matches SleepInner::Timer { deadline_ms: kept, .. } && kept == deadline_ms
        },
        (SleepInner::<R>::Yield { yielded }).polled_on_worker(
            wake,
            now_ms,
            waker,
            action,
            next,
            next_wake,
        ) ==> {
            &&& action is Ready <==> yielded
            &&& action is WakeAgain <==> !yielded
            &&& next == (SleepInner::<R>::Yield { yielded: true })
            &&& next_wake == wake
        },
{
}

/// A sleep that goes on has exactly one claim on a timer of the worker that
/// polls it, with its deadline and the waker of the poll. A claim that is of no
/// use there is given back; a claim that is good there is kept. Nothing else of
/// the worker changes.
pub proof fn sleeps_claim_one_timer<R, W>(
    deadline_ms: u64,
    registration: Option<TimerRegistration>,
    wake: WakeView<W>,
    now_ms: u64,
    waker: W,
    action: SleepAction,
    next: SleepInner<R>,
    next_wake: WakeView<W>,
    other: usize,
)
    requires
        wake.wf(),
        wake.next_timer < usize::MAX,
        now_ms < deadline_ms,
        registration matches Some(r) ==> r.executor() == wake.executor && wake.timers.contains_key(
            r.id(),
        ) ==> wake.timers[r.id()].deadline_ms == deadline_ms,
        (SleepInner::<R>::Timer { deadline_ms, registration }).polled_on_worker(
            wake,
            now_ms,
            waker,
            action,
            next,
            next_wake,
        ),
    ensures
        next_wake.queue == wake.queue,
        next_wake.block_woken == wake.block_woken,
        next_wake.executor == wake.executor,
        next matches SleepInner::Timer { registration: Some(claim), .. } && {
            &&& claim.executor() == wake.executor
            &&& next_wake.timers.contains_key(claim.id())
            &&& next_wake.timers[claim.id()].deadline_ms == deadline_ms
            &&& next_wake.timers[claim.id()].waker == waker
            &&& other != claim.id() ==> next_wake.timers.contains_key(other)
                == wake.timers.contains_key(other) && next_wake.timers[other]
                == wake.timers[other]
            &&& match registration {
                Some(r) => if r.executor() == wake.executor && wake.timers.contains_key(r.id()) {
                    claim == r && action == (SleepAction::Pending { released: None })
                } else {
                    action == (SleepAction::Pending { released: Some(r) })
                        && !wake.timers.contains_key(claim.id())
                },
                None => action == (SleepAction::Pending { released: None })
                    && !wake.timers.contains_key(claim.id()),
            }
        },
{
}

/// On an event-loop thread a sleep ends from its deadline on. Before that a sleep
/// whose browser timer is running waits for it; one whose timer fired early, or
/// that comes from a worker, sets a timer that reaches the deadline and not
/// beyond, or the longest one that can be asked for.
pub proof fn deadlines_are_kept_on_event_loops<R>(
    deadline_ms: u64,
    future: R,
    registration: Option<TimerRegistration>,
    yielded: bool,
    signalled: bool,
    now_ms: u64,
)
    ensures
        ({
            let js = (SleepInner::Js { deadline_ms, future }).polled_on_event_loop(
                signalled,
                now_ms,
            );
            let timer = (SleepInner::<R>::Timer {
                deadline_ms,
                registration,
            }).polled_on_event_loop(signalled, now_ms);
            &&& js == (SleepAction::Pending { released: None }) <==> !signalled
            &&& js is Ready <==> signalled && deadline_ms <= now_ms
            &&& timer is Ready <==> deadline_ms <= now_ms
            &&& signalled && now_ms < deadline_ms ==> js == timer
            &&& now_ms < deadline_ms ==> (timer matches SleepAction::Rearm(ms) && {
                &&& 0 < ms
                &&& now_ms + ms <= deadline_ms
                &&& now_ms + ms == deadline_ms || ms == 0xffff_ffff
            })
        }),
        (SleepInner::<R>::Yield { yielded }).polled_on_event_loop(signalled, now_ms)
            == SleepAction::Rearm(0),
{
}

/// A long sleep is cut into as few parts as can be: all but the last are as long
/// as a browser timer takes.
pub proof fn long_sleeps_have_few_parts(remaining: nat)
    ensures
        chunks(remaining).len() == (remaining + 0x7fff_fffe) / 0x7fff_ffff,
        forall|i: int|
            0 <= i < chunks(remaining).len() - 1 ==> #[trigger] chunks(remaining)[i]
                == 0x7fff_ffff,
    decreases remaining,
{
    if remaining > 0 {
        let rest = (remaining - chunk(remaining)) as nat;
        long_sleeps_have_few_parts(rest);
        assert(chunks(remaining).drop_first() =~= chunks(rest));
        assert forall|i: int| 0 <= i < chunks(remaining).len() - 1 implies #[trigger] chunks(
            remaining,
        )[i] == 0x7fff_ffff by {
            if i > 0 {
                assert(chunks(remaining)[i] == chunks(rest)[i - 1]);
            }
        }
    }
}

/// The parts come out one after the other: what a long sleep has to go after its
/// next part is what is left of its parts.
pub proof fn parts_come_out_in_order(remaining: nat)
    requires
        remaining > 0,
    ensures
        0 < chunk(remaining) <= remaining,
        chunk(remaining) == remaining <==> remaining <= 0x7fff_ffff,
        chunk(remaining) <= 0x7fff_ffff,
        chunks(remaining).first() == chunk(remaining),
        chunks(remaining).drop_first() == chunks((remaining - chunk(remaining)) as nat),
{
    assert(chunks(remaining).drop_first() =~= chunks((remaining - chunk(remaining)) as nat));
}

/// A callback marks its own timer and leaves all others as they are.
pub proof fn callbacks_fire_their_own_timer(timers: Seq<JsTimerView>, key: u64, i: int)
    requires
        0 <= i < timers.len(),
    ensures
        after_firing(timers, key).len() == timers.len(),
        after_firing(timers, key)[i].key == timers[i].key,
        after_firing(timers, key)[i].id == timers[i].id,
        after_firing(timers, key)[i].signal == timers[i].signal,
        after_firing(timers, key)[i].fired <==> timers[i].fired || timers[i].key == key,
{
}

/// The timers that fired in `timers`.
pub open spec fn fired(timers: Seq<JsTimerView>) -> nat
    decreases timers.len(),
{
    if timers.len() == 0 {
        0
    } else {
        fired(timers.drop_last()) + (if timers.last().fired {
            1nat
        } else {
            0nat
        })
    }
}

/// A cleanup round deals with each timer in one way: it is kept, or the browser
/// clears it, or it has fired. So a timer whose sleep was dropped before it fired
/// is cleared.
pub proof fn cleanup_deals_with_every_timer(
    timers: Seq<JsTimerView>,
    disconnected: Seq<bool>,
    k: int,
)
    requires
        timers.len() <= disconnected.len(),
    ensures
        kept(timers, disconnected).len() + cleared(timers, disconnected).len() + fired(timers)
            == timers.len(),
        0 <= k < timers.len() && !timers[k].fired && disconnected[k] ==> cleared(
            timers,
            disconnected,
        ).contains(timers[k].id),
        0 <= k < timers.len() && !timers[k].fired && !disconnected[k] ==> kept(
            timers,
            disconnected,
        ).contains(timers[k]),
    decreases timers.len(),
{
    if timers.len() > 0 {
        let shorter = timers.drop_last();
        cleanup_deals_with_every_timer(shorter, disconnected, k);
        let before = cleared(shorter, disconnected);
        let after = cleared(timers, disconnected);
        let stayed = kept(shorter, disconnected);
        let stay = kept(timers, disconnected);
        if 0 <= k < timers.len() - 1 {
            assert(shorter[k] == timers[k]);
            if !timers[k].fired && disconnected[k] {
                let i = before.index_of(timers[k].id);
                assert(after[i] == timers[k].id);
            }
            if !timers[k].fired && !disconnected[k] {
                let i = stayed.index_of(timers[k]);
                assert(stay[i] == timers[k]);
            }
        } else if k == timers.len() - 1 {
            if !timers[k].fired && disconnected[k] {
                assert(after[before.len() as int] == timers[k].id);
            }
            if !timers[k].fired && !disconnected[k] {
                assert(stay[stayed.len() as int] == timers[k]);
            }
        }
    }
}

/// A cleanup round keeps the order of the timers: what it makes of some timers
/// and then of others is what it makes of them together.
pub proof fn cleanup_keeps_the_order(
    first: Seq<JsTimerView>,
    first_gone: Seq<bool>,
    second: Seq<JsTimerView>,
    second_gone: Seq<bool>,
)
    requires
        first.len() == first_gone.len(),
        second.len() == second_gone.len(),
    ensures
        kept(first + second, first_gone + second_gone) == kept(first, first_gone) + kept(
            second,
            second_gone,
        ),
        cleared(first + second, first_gone + second_gone) == cleared(first, first_gone) + cleared(
            second,
            second_gone,
        ),
    decreases second.len(),
{
    let timers = first + second;
    let gone = first_gone + second_gone;
    if second.len() == 0 {
        assert(timers =~= first);
        assert(gone =~= first_gone);
        assert(kept(timers, gone) =~= kept(first, first_gone) + kept(second, second_gone));
        assert(cleared(timers, gone) =~= cleared(first, first_gone) + cleared(
            second,
            second_gone,
        ));
    } else {
        let shorter = second.drop_last();
        let shorter_gone = second_gone.drop_last();
        cleanup_keeps_the_order(first, first_gone, shorter, shorter_gone);
        assert(timers.drop_last() =~= first + shorter);
        lemma_gone_beyond(first + shorter, gone, first_gone + shorter_gone);
        lemma_gone_beyond(shorter, second_gone, shorter_gone);
        assert(kept(timers, gone) =~= kept(first, first_gone) + kept(second, second_gone));
        assert(cleared(timers, gone) =~= cleared(first, first_gone) + cleared(
            second,
            second_gone,
        ));
    }
}

/// The answers beyond the timers do not matter.
proof fn lemma_gone_beyond(timers: Seq<JsTimerView>, a: Seq<bool>, b: Seq<bool>)
    requires
        timers.len() <= a.len(),
        timers.len() <= b.len(),
        forall|i: int| 0 <= i < timers.len() ==> a[i] == b[i],
    ensures
        kept(timers, a) == kept(timers, b),
        cleared(timers, a) == cleared(timers, b),
    decreases timers.len(),
{
    if timers.len() > 0 {
        lemma_gone_beyond(timers.drop_last(), a, b);
    }
}

/// A sleep of `ms` milliseconds takes that long: on the worker where it starts it
/// is over exactly from `ms` milliseconds later on, and so is one that a browser
/// timer was set for, on a worker at once and on an event loop when its timer has
/// fired.
pub proof fn sleeps_take_as_long_as_asked<R, W>(
    ms: u32,
    now_ms: u64,
    later_ms: u64,
    new: NewSleep<R>,
    set: SleepInner<R>,
    wake: WakeView<W>,
    waker: W,
    action: SleepAction,
    next: SleepInner<R>,
    next_wake: WakeView<W>,
)
    requires
        ms > 0,
    ensures
        starts(new, ms, true, now_ms) ==> (new matches NewSleep::Made(made) && (
        made.inner().polled_on_worker(wake, later_ms, waker, action, next, next_wake) ==> (
        action is Ready <==> later_ms >= now_ms + ms))),
        starts(new, ms, false, now_ms) ==> new == NewSleep::<R>::Js(ms),
        set is Js && lasts(set, ms, now_ms) ==> {
            &&& set.polled_on_event_loop(true, later_ms) is Ready <==> later_ms >= now_ms + ms
            &&& set.polled_on_worker(wake, later_ms, waker, action, next, next_wake) ==> (
            action is Ready <==> later_ms >= now_ms + ms)
        },
{
}

/// A sleep of no length is a yield: on a worker its first poll asks to be woken,
/// and its second is over; elsewhere a browser timer of no length is set.
pub proof fn sleeps_of_no_length_yield<R, W>(
    new: NewSleep<R>,
    now_ms: u64,
    wake: WakeView<W>,
    waker: W,
    action: SleepAction,
    next: SleepInner<R>,
    next_wake: WakeView<W>,
)
    ensures
        starts(new, 0, true, now_ms) ==> (new matches NewSleep::Made(made) && (
        made.inner().polled_on_worker(wake, now_ms, waker, action, next, next_wake)
            ==> action is WakeAgain)),
        starts(new, 0, false, now_ms) ==> new == NewSleep::<R>::Js(0),
{
}

/// A timer that was set runs beside the others, and is taken up by the cleanup
/// rounds: a round is scheduled from the first timer on, and until none is left.
pub proof fn timers_are_set_one_by_one(
    before: Seq<JsTimerView>,
    after: Seq<JsTimerView>,
    key: u64,
    id: i32,
    signal: flume::Sender<()>,
    i: int,
)
    requires
        is_set(before, after, key, id, signal),
    ensures
        after == before.push(JsTimerView { key, id, fired: false, signal }),
        0 <= i < before.len() ==> after[i] == before[i],
        rounds(after) == 1,
        rounds(before) == 0 <==> before.len() == 0,
        rounds(before) == 0 || rounds(before) == 1,
{
    assert(after =~= after.drop_last().push(after.last()));
}

/// A sleep that is given up, or goes on in another way, hands back exactly the
/// claim that its polls left it: none if it never waited in a worker's queue.
pub proof fn claims_are_handed_back<R, W>(
    deadline_ms: u64,
    registration: Option<TimerRegistration>,
    future: R,
    yielded: bool,
    wake: WakeView<W>,
    now_ms: u64,
    waker: W,
    action: SleepAction,
    next: SleepInner<R>,
    next_wake: WakeView<W>,
)
    ensures
        (SleepInner::<R>::Timer { deadline_ms, registration }).claim() == registration,
        (SleepInner::Js { deadline_ms, future }).claim() is None,
        (SleepInner::<R>::Yield { yielded }).claim() is None,
        now_ms < deadline_ms && (SleepInner::<R>::Timer { deadline_ms, registration })
            .polled_on_worker(wake, now_ms, waker, action, next, next_wake)
            ==> next.claim() is Some,
{
}

} // verus!
