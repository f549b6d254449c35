//! The half of an executor that is shared with its wakers.
//!
//! A waker may be called from any thread, so this half sits behind a lock. It
//! records which tasks were woken, whether the future driven by a blocking
//! call was woken, and which timers are pending.

use std::collections::{HashMap, HashSet, VecDeque};
use vstd::prelude::*;

verus! {

broadcast use vstd::std_specs::hash::group_hash_axioms;

/// A pending timer: it expires once the clock reads `deadline_ms` or later.
pub struct TimerEntry<W> {
    pub deadline_ms: u64,
    pub waker: W,
}

/// Shared state between an executor and its wakers.
pub struct WakeInner<W> {
    /// The executor that this state belongs to.
    executor: u64,
    /// Task ids that have been woken and need polling.
    task_queue: VecDeque<usize>,
    /// The same ids, for a quick membership test.
    queued: HashSet<usize>,
    /// Set when the future driven by a blocking call is woken.
    block_woken: bool,
    timers: HashMap<usize, TimerEntry<W>>,
    next_timer: usize,
}

/// What a `WakeInner` holds.
#[verifier::ext_equal]
pub struct WakeView<W> {
    pub executor: u64,
    /// The woken tasks, the one that is polled first in front.
    pub queue: Seq<usize>,
    pub block_woken: bool,
    pub timers: Map<usize, TimerEntry<W>>,
    pub next_timer: int,
}

/// The milliseconds from `now_ms` to `deadline_ms`, none if it has passed.
pub open spec fn ms_until(deadline_ms: u64, now_ms: u64) -> int {
    if deadline_ms > now_ms {
        deadline_ms - now_ms
    } else {
        0
    }
}

impl<W> WakeView<W> {
    /// No task is queued twice, and every timer has an id that was given out.
    pub open spec fn wf(self) -> bool {
        &&& self.queue.no_duplicates()
        &&& self.timers.dom().finite()
        &&& forall|t: usize| #[trigger] self.timers.contains_key(t) ==> t < self.next_timer
        &&& 0 <= self.next_timer <= usize::MAX
    }

    /// The state once task `id` was woken: it is queued, behind the others,
    /// unless it was queued already.
    pub open spec fn woken(self, id: usize) -> WakeView<W> {
        if self.queue.contains(id) {
            self
        } else {
            WakeView { queue: self.queue.push(id), ..self }
        }
    }

    /// The state once a timer was added under the next id.
    pub open spec fn with_timer(self, timer: TimerEntry<W>) -> WakeView<W> {
        WakeView {
            timers: self.timers.insert(self.next_timer as usize, timer),
            next_timer: self.next_timer + 1,
            ..self
        }
    }

    /// The state without timer `t`.
    pub open spec fn without_timer(self, t: usize) -> WakeView<W> {
        WakeView { timers: self.timers.remove(t), ..self }
    }

    /// The state with another waker for timer `t`, whose deadline stays.
    pub open spec fn with_waker(self, t: usize, waker: W) -> WakeView<W> {
        WakeView {
            timers: self.timers.insert(
                t,
                TimerEntry { deadline_ms: self.timers[t].deadline_ms, waker },
            ),
            ..self
        }
    }

    /// Whether a task that is not in `active` is queued.
    pub open spec fn has_runnable(self, active: Set<usize>) -> bool {
        exists|i: int| 0 <= i < self.queue.len() && !active.contains(#[trigger] self.queue[i])
    }

    /// Whether timer `t` is pending and due at `now_ms`.
    pub open spec fn expired(self, t: usize, now_ms: u64) -> bool {
        self.timers.contains_key(t) && self.timers[t].deadline_ms <= now_ms
    }

    /// The state without the timers that are due at `now_ms`.
    pub open spec fn without_expired(self, now_ms: u64) -> WakeView<W> {
        WakeView {
            timers: self.timers.remove_keys(Set::new(|t: usize| self.expired(t, now_ms))),
            ..self
        }
    }

    /// `wakers` are the wakers of the timers due at `now_ms`, each once, in
    /// some order.
    pub open spec fn are_expired_wakers(self, now_ms: u64, wakers: Seq<W>) -> bool {
        exists|ids: Seq<usize>| #[trigger] self.lists_expired(now_ms, ids, wakers)
    }

    pub open spec fn lists_expired(self, now_ms: u64, ids: Seq<usize>, wakers: Seq<W>) -> bool {
        &&& ids.no_duplicates()
        &&& ids.len() == wakers.len()
        &&& forall|i: int| 0 <= i < ids.len() ==> #[trigger] self.expired(ids[i], now_ms)
        &&& forall|i: int|
            0 <= i < ids.len() ==> self.timers[#[trigger] ids[i]].waker == wakers[i]
        &&& forall|t: usize| #[trigger] self.expired(t, now_ms) ==> ids.contains(t)
    }

    /// `wait` is the time until the nearest timer, but no more than `max`.
    pub open spec fn is_wait(self, now_ms: u64, max: int, wait: int) -> bool {
        &&& wait <= max
        &&& forall|t: usize| #[trigger]
            self.timers.contains_key(t) ==> wait <= ms_until(self.timers[t].deadline_ms, now_ms)
        &&& wait == max || exists|t: usize| #[trigger]
            self.timers.contains_key(t) && wait == ms_until(self.timers[t].deadline_ms, now_ms)
    }
}

impl<W> View for WakeInner<W> {
    type V = WakeView<W>;

    closed spec fn view(&self) -> WakeView<W> {
        WakeView {
            executor: self.executor,
            queue: self.task_queue@,
            block_woken: self.block_woken,
            timers: self.timers@,
            next_timer: self.next_timer as int,
        }
    }
}

impl<W> WakeInner<W> {
    /// The state is well formed, and so is the record of what is queued.
    pub open spec fn wf(&self) -> bool {
        &&& self@.wf()
        &&& self.queue_is_recorded()
    }

    /// The quick membership test answers as the queue does.
    pub closed spec fn queue_is_recorded(&self) -> bool {
        forall|id: usize|
            self.queued@.contains(id) <==> #[trigger] self.task_queue@.contains(id)
    }

    /// The state of an executor on which nothing has happened yet.
    pub fn new(executor: u64) -> (inner: WakeInner<W>)
        ensures
            inner.wf(),
            inner@ == (WakeView {
                executor,
                queue: Seq::<usize>::empty(),
                block_woken: false,
                timers: Map::<usize, TimerEntry<W>>::empty(),
                next_timer: 0,
            }),
    {
        WakeInner {
            executor,
            task_queue: VecDeque::new(),
            queued: HashSet::new(),
            block_woken: false,
            timers: HashMap::new(),
            next_timer: 0,
        }
    }

    /// Wakes task `task_id`: it is put at the back of the queue, unless it is
    /// in the queue.
    pub fn wake(&mut self, task_id: usize)
        requires
            old(self).wf(),
        ensures
            final(self).wf(),
            final(self)@ == old(self)@.woken(task_id),
    {
        if self.queued.insert(task_id) {
            self.task_queue.push_back(task_id);
        }
        proof {
            lemma_push_back(old(self)@.queue, task_id);
        }
    }

    /// Takes the id that was queued first out of the queue.
    pub(crate) fn next_woken(&mut self) -> (id: Option<usize>)
        requires
            old(self).wf(),
        ensures
            final(self).wf(),
            match id {
                Some(task_id) => {
                    &&& old(self)@.queue.len() > 0
                    &&& task_id == old(self)@.queue[0]
                    &&& final(self)@ == (WakeView {
                        queue: old(self)@.queue.drop_first(),
                        ..old(self)@
                    })
                },
                None => old(self)@.queue.len() == 0 && final(self)@ == old(self)@,
            },
    {
        let id: Option<usize> = self.task_queue.pop_front();
        if let Some(task_id) = id {
            self.queued.remove(&task_id);
            proof {
                lemma_pop_front(old(self)@.queue);
            }
        }
        id
    }

    /// Wakes the future that a blocking call drives.
    pub fn wake_block_on(&mut self)
        requires
            old(self).wf(),
        ensures
            final(self).wf(),
            final(self)@ == (WakeView { block_woken: true, ..old(self)@ }),
    {
        self.block_woken = true;
    }

    /// Forgets an earlier wake of the future that a blocking call drives.
    pub(crate) fn clear_block_woken(&mut self)
        requires
            old(self).wf(),
        ensures
            final(self).wf(),
            final(self)@ == (WakeView { block_woken: false, ..old(self)@ }),
    {
        self.block_woken = false;
    }

    /// Whether another timer can be registered.
    pub fn has_timer_id(&self) -> (left: bool)
        ensures
            left == (self@.next_timer < usize::MAX),
    {
        self.next_timer < usize::MAX
    }

    /// Whether the future that a blocking call drives was woken.
    pub(crate) fn block_woken(&self) -> (woken: bool)
        ensures
            woken == self@.block_woken,
    {
        self.block_woken
    }

    /// The executor that this state belongs to.
    pub fn executor(&self) -> (executor: u64)
        ensures
            executor == self@.executor,
    {
        self.executor
    }

    /// Adds a timer under the next id.
    pub(crate) fn insert_timer(&mut self, deadline_ms: u64, waker: W) -> (id: usize)
        requires
            old(self).wf(),
            old(self)@.next_timer < usize::MAX,
        ensures
            final(self).wf(),
            id == old(self)@.next_timer,
            final(self)@ == old(self)@.with_timer(TimerEntry { deadline_ms, waker }),
    {
        let id: usize = self.next_timer;
        self.next_timer = id + 1;
        self.timers.insert(id, TimerEntry { deadline_ms, waker });
        id
    }

    /// Whether timer `id` is pending.
    pub(crate) fn has_timer(&self, id: usize) -> (pending: bool)
        ensures
            pending == self@.timers.contains_key(id),
    {
        self.timers.contains_key(&id)
    }

    /// Removes timer `id`, if it is pending.
    pub(crate) fn remove_timer(&mut self, id: usize)
        requires
            old(self).wf(),
        ensures
            final(self).wf(),
            final(self)@ == old(self)@.without_timer(id),
    {
        self.timers.remove(&id);
    }

    /// Gives timer `id` another waker. Says whether the timer was pending.
    pub(crate) fn replace_waker(&mut self, id: usize, waker: W) -> (pending: bool)
        requires
            old(self).wf(),
        ensures
            final(self).wf(),
            pending == old(self)@.timers.contains_key(id),
            final(self)@ == (if pending {
                old(self)@.with_waker(id, waker)
            } else {
                old(self)@
            }),
    {
        match self.timers.remove(&id) {
            Some(timer) => {
                self.timers.insert(id, TimerEntry { deadline_ms: timer.deadline_ms, waker });
                assert(self.timers@ =~= old(self)@.with_waker(id, waker).timers);
                true
            },
            None => {
                assert(self.timers@ =~= old(self)@.timers);
                false
            },
        }
    }
}

impl<W> WakeInner<W> {
    /// Whether a task that is not in `active` is queued.
    pub(crate) fn has_runnable(&self, active: &HashSet<usize>) -> (runnable: bool)
        ensures
            runnable == self@.has_runnable(active@),
    {
        let mut i: usize = 0;
        while i < self.task_queue.len()
            invariant
                0 <= i <= self.task_queue@.len(),
                self.task_queue@ == self@.queue,
                forall|j: int| 0 <= j < i ==> active@.contains(#[trigger] self.task_queue@[j]),
            decreases self.task_queue@.len() - i,
        {
            let id: usize = self.task_queue[i];
            if !active.contains(&id) {
                assert(!active@.contains(self@.queue[i as int]));
                return true;
            }
            i = i + 1;
        }
        false
    }

    /// Whether no task is queued.
    pub(crate) fn queue_is_empty(&self) -> (empty: bool)
        ensures
            empty == (self@.queue.len() == 0),
    {
        self.task_queue.len() == 0
    }

    /// The ids of the pending timers, in some order.
    fn timer_ids(&self) -> (ids: Vec<usize>)
        ensures
            ids@.no_duplicates(),
            forall|t: usize| #[trigger] ids@.contains(t) <==> self@.timers.contains_key(t),
    {
        let mut ids: Vec<usize> = Vec::new();
        let ghost keys = vstd::std_specs::iter::IteratorSpec::remaining(
            &vstd::std_specs::hash::spec_keys_iter(&self.timers),
        );
        for id in it: self.timers.keys()
            invariant
                it.seq() == keys,
                ids@.len() == it.index(),
                ids@ == keys.unref().take(it.index()),
        {
            ids.push(*id);
        }
        proof {
            assert(ids@ =~= keys.unref());
            assert forall|t: usize| #[trigger] ids@.contains(t) <==> self@.timers.contains_key(t) by {
                assert(ids@.to_set().contains(t) <==> self.timers@.dom().contains(t));
            }
        }
        ids
    }

    /// Removes the timers that are due and hands out their wakers, which the
    /// caller wakes once the lock on this state is released.
    pub fn fire_expired_timers(&mut self, now_ms: u64) -> (wakers: Vec<W>)
        requires
            old(self).wf(),
        ensures
            final(self).wf(),
            final(self)@ == old(self)@.without_expired(now_ms),
            old(self)@.are_expired_wakers(now_ms, wakers@),
    {
        let ids: Vec<usize> = self.timer_ids();
        let mut wakers: Vec<W> = Vec::new();
        let ghost before = self@;
        let ghost mut due: Seq<usize> = Seq::empty();
        let mut i: usize = 0;
        while i < ids.len()
            invariant
                0 <= i <= ids@.len(),
                self.wf(),
                before == old(self)@,
                ids@.no_duplicates(),
                forall|t: usize| #[trigger] ids@.contains(t) <==> before.timers.contains_key(t),
                self@ == (WakeView { timers: self@.timers, ..before }),
                forall|j: int| 0 <= j < due.len() ==> ids@.take(i as int).contains(#[trigger] due[j]),
                due.no_duplicates(),
                due.len() == wakers@.len(),
                forall|j: int| 0 <= j < due.len() ==> #[trigger] before.expired(due[j], now_ms),
                forall|j: int|
                    0 <= j < due.len() ==> before.timers[#[trigger] due[j]].waker == wakers@[j],
                forall|t: usize|
                    #[trigger] before.expired(t, now_ms) && ids@.take(i as int).contains(t)
                        ==> due.contains(t),
                forall|t: usize| #[trigger]
                    self@.timers.contains_key(t) <==> before.timers.contains_key(t)
                        && !(before.expired(t, now_ms) && ids@.take(i as int).contains(t)),
                forall|t: usize| #[trigger]
                    self@.timers.contains_key(t) ==> self@.timers[t] == before.timers[t],
            decreases ids@.len() - i,
        {
            let id: usize = ids[i];
            let ghost done = ids@.take(i as int);
            let ghost next = ids@.take(i + 1);
            proof {
                assert(next =~= done.push(id));
                lemma_push_back(done, id);
                assert(ids@.contains(id));
                assert(!done.contains(id)) by {
                    if done.contains(id) {
                        let k = done.index_of(id);
                        assert(ids@[k] == ids@[i as int]);
                    }
                }
            }
            let is_due: bool = match self.timers.get(&id) {
                Some(timer) => timer.deadline_ms <= now_ms,
                None => false,
            };
            if is_due {
                if let Some(timer) = self.timers.remove(&id) {
                    wakers.push(timer.waker);
                    proof {
                        let prev = due;
                        due = due.push(id);
                        lemma_push_back(prev, id);
                        assert(before.expired(id, now_ms));
                    }
                }
            }
            i = i + 1;
        }
        proof {
            assert(ids@.take(ids@.len() as int) =~= ids@);
            assert(before.lists_expired(now_ms, due, wakers@));
            assert(self@.timers =~= before.without_expired(now_ms).timers);
        }
        wakers
    }

    /// The milliseconds until the nearest timer, at most `max_ms`.
    pub fn time_until_next_timer(&self, now_ms: u64, max_ms: u64) -> (wait: u64)
        ensures
            self@.is_wait(now_ms, max_ms as int, wait as int),
    {
        let ids: Vec<usize> = self.timer_ids();
        let mut wait: u64 = max_ms;
        let mut i: usize = 0;
        while i < ids.len()
            invariant
                0 <= i <= ids@.len(),
                forall|t: usize| #[trigger] ids@.contains(t) <==> self@.timers.contains_key(t),
                wait <= max_ms,
                forall|j: int|
                    0 <= j < i ==> wait <= ms_until(
                        self@.timers[#[trigger] ids@[j]].deadline_ms,
                        now_ms,
                    ),
                wait == max_ms || exists|t: usize| #[trigger]
                    self@.timers.contains_key(t) && wait == ms_until(
                        self@.timers[t].deadline_ms,
                        now_ms,
                    ),
            decreases ids@.len() - i,
        {
            let id: usize = ids[i];
            assert(ids@.contains(id));
            if let Some(timer) = self.timers.get(&id) {
                let left: u64 = timer.deadline_ms.saturating_sub(now_ms);
                if left < wait {
                    wait = left;
                    assert(self@.timers.contains_key(id));
                }
            }
            i = i + 1;
        }
        assert forall|t: usize| #[trigger] self@.timers.contains_key(t) implies wait <= ms_until(
            self@.timers[t].deadline_ms,
            now_ms,
        ) by {
            assert(ids@.contains(t));
            assert(ids@[ids@.index_of(t)] == t);
        }
        wait
    }
}

/// A sleep's claim on its timer. It is released when the sleep completes or is
/// cancelled.
pub struct TimerRegistration {
    id: usize,
    executor: u64,
}

impl TimerRegistration {
    /// The id of the timer.
    pub closed spec fn id(&self) -> usize {
        self.id
    }

    /// The executor that holds the timer.
    pub closed spec fn executor(&self) -> u64 {
        self.executor
    }

    /// Registers a timer with `inner`.
    pub fn new<W>(inner: &mut WakeInner<W>, deadline_ms: u64, waker: W) -> (registration:
        TimerRegistration)
        requires
            old(inner).wf(),
            old(inner)@.next_timer < usize::MAX,
        ensures
            final(inner).wf(),
            registration.id() == old(inner)@.next_timer,
            registration.executor() == old(inner)@.executor,
            final(inner)@ == old(inner)@.with_timer(TimerEntry { deadline_ms, waker }),
    {
        let executor: u64 = inner.executor();
        let id: usize = inner.insert_timer(deadline_ms, waker);
        TimerRegistration { id, executor }
    }

    /// The executor that holds the timer.
    pub fn held_by(&self) -> (executor: u64)
        ensures
            executor == self.executor(),
    {
        self.executor
    }

    /// Whether the timer is pending in `inner`.
    pub fn is_pending<W>(&self, inner: &WakeInner<W>) -> (pending: bool)
        ensures
            pending == self.is_pending_in(inner@),
    {
        self.executor == inner.executor() && inner.has_timer(self.id)
    }

    /// Gives the timer another waker. Says whether it did: a timer that fired
    /// already, or that another executor holds, is left as it is, since a
    /// sleep that moved must not depend on its old worker making progress.
    pub fn update_waker<W>(&self, inner: &mut WakeInner<W>, waker: W) -> (updated: bool)
        requires
            old(inner).wf(),
        ensures
            final(inner).wf(),
            updated == self.is_pending_in(old(inner)@),
            final(inner)@ == (if updated {
                old(inner)@.with_waker(self.id(), waker)
            } else {
                old(inner)@
            }),
            updated <==> old(inner)@.executor == self.executor()
                && old(inner)@.timers.contains_key(self.id()),
            updated ==> final(inner)@.timers.contains_key(self.id())
                && final(inner)@.timers[self.id()].waker == waker
                && final(inner)@.timers[self.id()].deadline_ms
                == old(inner)@.timers[self.id()].deadline_ms,
    {
        if self.executor != inner.executor() {
            return false;
        }
        inner.replace_waker(self.id, waker)
    }

    /// Whether the timer is pending in `inner`.
    pub open spec fn is_pending_in<W>(&self, inner: WakeView<W>) -> bool {
        self.executor() == inner.executor && inner.timers.contains_key(self.id())
    }

    /// Gives the timer up: it is removed if it has not fired.
    pub fn release<W>(self, inner: &mut WakeInner<W>)
        requires
            old(inner).wf(),
            self.executor() == old(inner)@.executor,
        ensures
            final(inner).wf(),
            final(inner)@ == old(inner)@.without_timer(self.id()),
    {
        inner.remove_timer(self.id);
    }
}

/// What became of an attempt to take the lock on the shared state.
pub enum LockEvent {
    /// No attempt was made yet.
    Start,
    Acquired,
    /// Another thread holds the lock.
    WouldBlock,
    /// A thread panicked while it held the lock.
    Poisoned,
}

/// How a thread goes about taking the lock on the shared state.
#[derive(PartialEq, Eq, Structural, Clone, Copy, Debug)]
pub enum LockAction {
    /// Wait for the lock; the thread may be parked.
    Park,
    /// Try the lock without waiting.
    Try,
    /// Spin, and try the lock again without waiting.
    SpinAndTry,
    /// Use the state.
    Hold,
    /// Panic: the state cannot be trusted.
    Fail,
}

/// The half of an executor that is shared with its wakers, as seen by a thread
/// that wants to use it.
pub struct WakeState;

impl WakeState {
    /// How `lock` goes on, as a function of what happened.
    pub open spec fn lock_action(on_worker: bool, event: LockEvent) -> LockAction {
        match event {
            LockEvent::Start => if on_worker {
                LockAction::Park
            } else {
                LockAction::Try
            },
            LockEvent::Acquired => LockAction::Hold,
            LockEvent::WouldBlock => if on_worker {
                LockAction::Park
            } else {
                LockAction::SpinAndTry
            },
            LockEvent::Poisoned => LockAction::Fail,
        }
    }

    /// Takes the lock. A thread that runs an event loop calls wakers too, and
    /// the browser forbids it to park; the sections under the lock are short,
    /// so it spins.
    pub fn lock(on_worker: bool, event: LockEvent) -> (action: LockAction)
        ensures
            action == WakeState::lock_action(on_worker, event),
    {
        match event {
            LockEvent::Start => if on_worker {
                LockAction::Park
            } else {
                LockAction::Try
            },
            LockEvent::Acquired => LockAction::Hold,
            LockEvent::WouldBlock => if on_worker {
                LockAction::Park
            } else {
                LockAction::SpinAndTry
            },
            LockEvent::Poisoned => LockAction::Fail,
        }
    }
}

/// A thread without an executor of its own is never told to park.
pub proof fn event_loop_threads_never_park(event: LockEvent)
    ensures
        WakeState::lock_action(false, event) != LockAction::Park,
{
}

proof fn lemma_push_back(queue: Seq<usize>, id: usize)
    ensures
        queue.push(id).contains(id),
        forall|q: usize| #[trigger]
            queue.push(id).contains(q) <==> queue.contains(q) || q == id,
        queue.no_duplicates() && !queue.contains(id) ==> queue.push(id).no_duplicates(),
{
    assert(queue.push(id)[queue.len() as int] == id);
    assert forall|q: usize| queue.contains(q) implies #[trigger] queue.push(id).contains(q) by {
        assert(queue.push(id)[queue.index_of(q)] == q);
    }
}

proof fn lemma_pop_front(queue: Seq<usize>)
    requires
        queue.len() > 0,
        queue.no_duplicates(),
    ensures
        queue.drop_first().no_duplicates(),
        forall|q: usize| #[trigger]
            queue.drop_first().contains(q) <==> queue.contains(q) && q != queue[0],
{
    assert forall|q: usize| queue.contains(q) && q != queue[0] implies #[trigger]
        queue.drop_first().contains(q) by {
        assert(queue.drop_first()[queue.index_of(q) - 1] == q);
    }
}

/// A wake queues the task, behind the others, and changes nothing else.
pub proof fn a_wake_changes_only_the_queue<W>(wake: WakeView<W>, id: usize, i: int)
    ensures
        wake.woken(id).queue.contains(id),
        wake.woken(id).queue.len() <= wake.queue.len() + 1,
        wake.queue.contains(id) ==> wake.woken(id).queue == wake.queue,
        !wake.queue.contains(id) ==> wake.woken(id).queue.last() == id
            && wake.woken(id).queue.len() == wake.queue.len() + 1,
        0 <= i < wake.queue.len() ==> wake.woken(id).queue[i] == wake.queue[i],
        wake.woken(id).timers == wake.timers,
        wake.woken(id).next_timer == wake.next_timer,
        wake.woken(id).block_woken == wake.block_woken,
        wake.woken(id).executor == wake.executor,
{
    lemma_push_back(wake.queue, id);
}

/// Timers do not disturb each other: one that is registered is pending with its
/// deadline and its waker, one that is updated keeps its deadline and gets the
/// waker, one that is released is gone, and every other timer stays as it is.
/// What else is shared stays as it is, too.
pub proof fn timers_do_not_disturb_each_other<W>(
    wake: WakeView<W>,
    deadline_ms: u64,
    waker: W,
    t: usize,
    other: usize,
)
    requires
        wake.wf(),
        wake.next_timer < usize::MAX,
        wake.timers.contains_key(t),
    ensures
        ({
            let new = wake.next_timer as usize;
            let added = wake.with_timer(TimerEntry { deadline_ms, waker });
            let updated = wake.with_waker(t, waker);
            let released = wake.without_timer(t);
            &&& !wake.timers.contains_key(new)
            &&& added.timers.contains_key(new)
            &&& added.timers[new].deadline_ms == deadline_ms
            &&& added.timers[new].waker == waker
            &&& added.next_timer == wake.next_timer + 1
            &&& updated.timers.contains_key(t)
            &&& updated.timers[t].deadline_ms == wake.timers[t].deadline_ms
            &&& updated.timers[t].waker == waker
            &&& updated.next_timer == wake.next_timer
            &&& !released.timers.contains_key(t)
            &&& released.next_timer == wake.next_timer
            &&& other != new ==> added.timers.contains_key(other) == wake.timers.contains_key(
                other,
            ) && added.timers[other] == wake.timers[other]
            &&& other != t ==> updated.timers.contains_key(other) == wake.timers.contains_key(
                other,
            ) && updated.timers[other] == wake.timers[other]
            &&& other != t ==> released.timers.contains_key(other) == wake.timers.contains_key(
                other,
            ) && released.timers[other] == wake.timers[other]
            &&& added.queue == wake.queue && updated.queue == wake.queue && released.queue
                == wake.queue
            &&& added.block_woken == wake.block_woken && updated.block_woken == wake.block_woken
                && released.block_woken == wake.block_woken
            &&& added.executor == wake.executor && updated.executor == wake.executor
                && released.executor == wake.executor
        }),
{
}

/// Only due timers fire: each waker that is handed out belongs to a timer whose
/// deadline has come, different ones to different timers, and firing changes
/// nothing but the timers.
pub proof fn only_due_timers_fire<W>(wake: WakeView<W>, now_ms: u64, wakers: Seq<W>, i: int)
    requires
        wake.are_expired_wakers(now_ms, wakers),
        0 <= i < wakers.len(),
    ensures
        exists|t: usize| #[trigger]
            wake.timers.contains_key(t) && wake.timers[t].deadline_ms <= now_ms
                && wake.timers[t].waker == wakers[i],
        exists|ids: Seq<usize>|
            #![trigger ids.no_duplicates()]
            ids.no_duplicates() && ids.len() == wakers.len() && forall|k: int|
                0 <= k < ids.len() ==> wake.timers.contains_key(#[trigger] ids[k])
                    && wake.timers[ids[k]].deadline_ms <= now_ms && wake.timers[ids[k]].waker
                    == wakers[k],
        wake.without_expired(now_ms).queue == wake.queue,
        wake.without_expired(now_ms).block_woken == wake.block_woken,
        wake.without_expired(now_ms).executor == wake.executor,
        wake.without_expired(now_ms).next_timer == wake.next_timer,
{
    let ids = choose|ids: Seq<usize>| #[trigger] wake.lists_expired(now_ms, ids, wakers);
    assert forall|k: int| 0 <= k < ids.len() implies wake.timers.contains_key(#[trigger] ids[k])
        && wake.timers[ids[k]].deadline_ms <= now_ms && wake.timers[ids[k]].waker
        == wakers[k] by {
        assert(wake.expired(ids[k], now_ms));
    }
    assert(wake.timers.contains_key(ids[i]));
    assert(ids.no_duplicates());
}

/// A claim on a timer is good where the timer was registered, until the timer is
/// released or has fired, and nowhere else.
pub proof fn claims_hold_where_they_were_made<W>(
    claim: TimerRegistration,
    wake: WakeView<W>,
    timer: TimerEntry<W>,
    elsewhere: WakeView<W>,
    now_ms: u64,
)
    requires
        wake.wf(),
        wake.next_timer < usize::MAX,
        claim.id() == wake.next_timer,
        claim.executor() == wake.executor,
        elsewhere.executor != wake.executor,
    ensures
        !claim.is_pending_in(wake),
        claim.is_pending_in(wake.with_timer(timer)),
        !claim.is_pending_in(wake.with_timer(timer).without_timer(claim.id())),
        claim.is_pending_in(wake.with_timer(timer).without_expired(now_ms)) <==> now_ms
            < timer.deadline_ms,
        !claim.is_pending_in(elsewhere),
{
}

/// The shared state is used exactly when the lock was acquired, and given up
/// exactly when it is poisoned. Until then a worker waits for the lock, parked;
/// an event-loop thread tries it over and over.
pub proof fn the_state_is_used_under_the_lock(on_worker: bool, event: LockEvent)
    ensures
        WakeState::lock_action(on_worker, event) == LockAction::Hold <==> event is Acquired,
        WakeState::lock_action(on_worker, event) == LockAction::Fail <==> event is Poisoned,
        WakeState::lock_action(on_worker, event) == LockAction::Park <==> on_worker && (
        event is Start || event is WouldBlock),
        WakeState::lock_action(on_worker, event) == LockAction::Try <==> !on_worker
            && event is Start,
        WakeState::lock_action(on_worker, event) == LockAction::SpinAndTry <==> !on_worker
            && event is WouldBlock,
{
}

} // verus!
