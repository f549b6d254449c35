//! A single-threaded executor that its caller drives.
//!
//! Each worker has one executor. The executor owns the futures and decides
//! which of them is polled next; the caller polls it and hands it back. While
//! a future is polled nothing of the executor is held, so the future may spawn
//! tasks, wake tasks, and run a blocking call that pumps the other tasks.

use crate::wake::{ms_until, TimerEntry, TimerRegistration, WakeInner, WakeView};
use std::collections::{HashMap, HashSet};
use vstd::prelude::*;

verus! {

broadcast use vstd::std_specs::hash::group_hash_axioms;

/// How many queued ids one turn of the executor goes through. A task that
/// yields again and again must not starve the timers, nor the future that a
/// blocking call drives.
pub const PUMP_BUDGET: u32 = 64;

/// The longest that a blocking call sleeps before it polls its future again.
pub const BLOCK_ON_MAX_WAIT_MS: u64 = 1;

/// The longest that an idle worker sleeps before it looks for work again.
pub const RUN_MAX_WAIT_MS: u64 = 100;

/// The tasks of one worker.
pub struct LocalExecutor<F> {
    id: u64,
    /// Live tasks that are not being polled.
    tasks: HashMap<usize, F>,
    /// Futures that were spawned since the last turn, and have no id yet.
    spawn_queue: Vec<F>,
    /// Tasks that are being polled, one inside the other.
    active: HashSet<usize>,
    next_id: usize,
}

/// What a `LocalExecutor` holds.
#[verifier::ext_equal]
pub struct ExecutorView<F> {
    pub id: u64,
    pub tasks: Map<usize, F>,
    pub spawned: Seq<F>,
    pub active: Set<usize>,
    pub next_id: int,
}

/// An executor together with the state that it shares with its wakers.
#[verifier::ext_equal]
pub struct Worker<F, W> {
    pub executor: ExecutorView<F>,
    pub wake: WakeView<W>,
}

impl<F> ExecutorView<F> {
    /// Every live task has an id that was given out, and a task that is being
    /// polled is not in its slot.
    pub open spec fn wf(self) -> bool {
        &&& 0 <= self.next_id <= usize::MAX
        &&& forall|t: usize| #[trigger] self.tasks.contains_key(t) ==> t < self.next_id
        &&& forall|t: usize| #[trigger] self.active.contains(t) ==> t < self.next_id
        &&& forall|t: usize| #[trigger] self.tasks.contains_key(t) ==> !self.active.contains(t)
    }

    /// A future was spawned: it waits behind the others that do.
    pub open spec fn is_spawn(self, before: ExecutorView<F>, future: F) -> bool {
        &&& self.spawned.len() == before.spawned.len() + 1
        &&& self.spawned.last() == future
        &&& self.spawned.drop_last() == before.spawned
        &&& self.tasks == before.tasks
        &&& self.active == before.active
        &&& self.next_id == before.next_id
        &&& self.id == before.id
    }

    /// The executor once polled task `id` was handed back: a future that is
    /// pending goes to its slot.
    pub open spec fn returned(self, id: usize, pending: Option<F>) -> ExecutorView<F> {
        ExecutorView {
            tasks: match pending {
                Some(future) => self.tasks.insert(id, future),
                None => self.tasks,
            },
            active: self.active.remove(id),
            ..self
        }
    }
}

impl<F, W> Worker<F, W> {
    /// The two halves belong together, and only ids that the executor gave out
    /// are queued.
    pub open spec fn wf(self) -> bool {
        &&& self.executor.wf()
        &&& self.wake.wf()
        &&& self.executor.id == self.wake.executor
        &&& forall|i: int|
            0 <= i < self.wake.queue.len() ==> #[trigger] self.wake.queue[i] < self.executor.next_id
    }

    /// The worker once the spawned futures became tasks: they get the next ids
    /// and are queued, in the order in which they were spawned.
    pub open spec fn admitted(self) -> Worker<F, W> {
        let first = self.executor.next_id;
        let count = self.executor.spawned.len();
        Worker {
            executor: ExecutorView {
                tasks: self.executor.tasks.union_prefer_right(
                    Map::new(
                        |t: usize| first <= t < first + count,
                        |t: usize| self.executor.spawned[t - first],
                    ),
                ),
                spawned: Seq::empty(),
                next_id: first + count,
                ..self.executor
            },
            wake: WakeView {
                queue: self.wake.queue + Seq::new(count, |i: int| (first + i) as usize),
                ..self.wake
            },
        }
    }

    /// The worker once the id in front left the queue.
    pub open spec fn popped(self) -> Worker<F, W> {
        Worker { wake: WakeView { queue: self.wake.queue.drop_first(), ..self.wake }, ..self }
    }

    /// The worker once task `id` left its slot to be polled.
    pub open spec fn polling(self, id: usize) -> Worker<F, W> {
        Worker {
            executor: ExecutorView {
                tasks: self.executor.tasks.remove(id),
                active: self.executor.active.insert(id),
                ..self.executor
            },
            ..self
        }
    }

    /// What one turn does with up to `budget` queued ids: the worker after it,
    /// what is left of the budget, and the task to poll.
    ///
    /// The id in front decides. A task in its slot is taken out to be polled.
    /// A task that is being polled cannot be polled again: its id goes to the
    /// back of the queue, so that the wake outlives the poll. An id without a
    /// task is dropped. The turn is over when no id is queued.
    pub open spec fn pumped(self, budget: nat) -> (Worker<F, W>, nat, Option<(usize, F)>)
        decreases budget,
    {
        if budget == 0 {
            (self, 0, None)
        } else {
            let ready = self.admitted();
            if ready.wake.queue.len() == 0 {
                (ready, 0, None)
            } else {
                let id = ready.wake.queue[0];
                let rest = ready.popped();
                let left = (budget - 1) as nat;
                if rest.executor.tasks.contains_key(id) {
                    (rest.polling(id), left, Some((id, rest.executor.tasks[id])))
                } else if rest.executor.active.contains(id) {
                    Worker { wake: rest.wake.woken(id), ..rest }.pumped(left)
                } else {
                    rest.pumped(left)
                }
            }
        }
    }

    /// Whether a blocking call has nothing to do: no task can make progress,
    /// its future was not woken, and nothing was spawned.
    pub open spec fn block_on_is_idle(self) -> bool {
        &&& !self.wake.has_runnable(self.executor.active)
        &&& !self.wake.block_woken
        &&& self.executor.spawned.len() == 0
    }

    /// Whether the worker has nothing to do.
    pub open spec fn run_is_idle(self) -> bool {
        self.wake.queue.len() == 0 && self.executor.spawned.len() == 0
    }
}

impl<F> View for LocalExecutor<F> {
    type V = ExecutorView<F>;

    closed spec fn view(&self) -> ExecutorView<F> {
        ExecutorView {
            id: self.id,
            tasks: self.tasks@,
            spawned: self.spawn_queue@,
            active: self.active@,
            next_id: self.next_id as int,
        }
    }
}

/// The worker made of an executor and of what it shares with its wakers.
pub open spec fn worker<F, W>(executor: LocalExecutor<F>, inner: WakeInner<W>) -> Worker<F, W> {
    Worker { executor: executor@, wake: inner@ }
}

/// What is left of a turn of an executor.
pub struct PumpTurn {
    left: u32,
}

impl PumpTurn {
    pub closed spec fn left(&self) -> nat {
        self.left as nat
    }

    /// The start of a turn.
    pub fn new() -> (turn: PumpTurn)
        ensures
            turn.left() == PUMP_BUDGET,
    {
        PumpTurn { left: PUMP_BUDGET }
    }
}

/// A task that the caller polls and then hands back.
pub struct ReadyTask<F> {
    pub id: usize,
    pub future: F,
}

impl<F> LocalExecutor<F> {
    /// An executor without tasks. Its `id` comes from `ExecutorIds`, so that no
    /// two executors have the same.
    pub fn new(id: u64) -> (executor: LocalExecutor<F>)
        ensures
            executor@.wf(),
            executor@ == (ExecutorView {
                id,
                tasks: Map::<usize, F>::empty(),
                spawned: Seq::<F>::empty(),
                active: Set::<usize>::empty(),
                next_id: 0,
            }),
    {
        LocalExecutor {
            id,
            tasks: HashMap::new(),
            spawn_queue: Vec::new(),
            active: HashSet::new(),
            next_id: 0,
        }
    }

    /// Spawns a future. It is polled in the next turn.
    pub fn spawn(&mut self, future: F)
        ensures
            final(self)@ == (ExecutorView {
                spawned: old(self)@.spawned.push(future),
                ..old(self)@
            }),
            final(self)@.is_spawn(old(self)@, future),
    {
        self.spawn_queue.push(future);
        assert(self@.spawned.drop_last() =~= old(self)@.spawned);
    }

    /// Whether there is an id for every future that waits for one.
    pub fn has_task_ids(&self) -> (enough: bool)
        ensures
            enough == (self@.next_id + self@.spawned.len() <= usize::MAX),
    {
        self.spawn_queue.len() <= usize::MAX - self.next_id
    }

    /// Turns the spawned futures into tasks.
    fn adopt_spawned<W>(&mut self, inner: &mut WakeInner<W>)
        requires
            worker(*old(self), *old(inner)).wf(),
            old(inner).wf(),
            old(self)@.next_id + old(self)@.spawned.len() <= usize::MAX,
        ensures
            final(inner).wf(),
            worker(*final(self), *final(inner)) == worker(*old(self), *old(inner)).admitted(),
            worker(*final(self), *final(inner)).wf(),
    {
        let ghost before = worker(*old(self), *old(inner));
        let ghost spawned = self.spawn_queue@;
        let mut queue: Vec<F> = Vec::new();
        std::mem::swap(&mut queue, &mut self.spawn_queue);
        assert(worker(*self, *inner) =~= before.with_spawned(spawned.take(0)).admitted());
        for future in it: queue
            invariant
                it.seq() == spawned,
                spawned == before.executor.spawned,
                before.wf(),
                inner.wf(),
                before.executor.next_id + spawned.len() <= usize::MAX,
                worker(*self, *inner) == before.with_spawned(spawned.take(it.index())).admitted(),
        {
            let id: usize = self.next_id;
            let ghost here = worker(*self, *inner);
            proof {
                lemma_adopt_one(before, spawned, it.index());
            }
            self.next_id = id + 1;
            self.tasks.insert(id, future);
            inner.wake(id);
            assert(worker(*self, *inner) =~= here.adopted(future));
        }
        assert(spawned.take(spawned.len() as int) =~= spawned);
        assert(before.with_spawned(spawned) =~= before);
        proof {
            lemma_admitted_wf(before);
        }
    }
}

impl<F> LocalExecutor<F> {
    /// Goes on with a turn until a task is to be polled, which the caller does
    /// before it hands the task back with `poll_returned` and goes on. `None`
    /// ends the turn.
    pub fn pump<W>(&mut self, inner: &mut WakeInner<W>, turn: &mut PumpTurn) -> (ready: Option<
        ReadyTask<F>,
    >)
        requires
            worker(*old(self), *old(inner)).wf(),
            old(inner).wf(),
            old(self)@.next_id + old(self)@.spawned.len() <= usize::MAX,
        ensures
            worker(*final(self), *final(inner)).wf(),
            final(inner).wf(),
            ({
                let (after, left, task) = worker(*old(self), *old(inner)).pumped(old(turn).left());
                &&& worker(*final(self), *final(inner)) == after
                &&& final(turn).left() == left
                &&& match ready {
                    Some(r) => task == Some((r.id, r.future)),
                    None => task is None,
                }
            }),
    {
        let ghost begin = worker(*self, *inner);
        let ghost budget = turn.left();
        while turn.left > 0
            invariant
                begin == worker(*old(self), *old(inner)),
                budget == old(turn).left(),
                inner.wf(),
                worker(*self, *inner).wf(),
                self@.next_id + self@.spawned.len() <= usize::MAX,
                begin.pumped(budget) == worker(*self, *inner).pumped(turn.left as nat),
            decreases turn.left,
        {
            let ghost here = worker(*self, *inner);
            let ghost left = turn.left as nat;
            self.adopt_spawned(inner);
            turn.left = turn.left - 1;
            let ghost ready = worker(*self, *inner);
            match inner.next_woken() {
                None => {
                    turn.left = 0;
                    return None;
                },
                Some(id) => {
                    let ghost rest = worker(*self, *inner);
                    assert(rest =~= ready.popped());
                    proof {
                        lemma_popped_wf(ready);
                    }
                    match self.tasks.remove(&id) {
                        Some(future) => {
                            self.active.insert(id);
                            assert(worker(*self, *inner) =~= rest.polling(id));
                            return Some(ReadyTask { id, future });
                        },
                        None => {
                            assert(self.tasks@ =~= rest.executor.tasks);
                            if self.active.contains(&id) {
                                inner.wake(id);
                                proof {
                                    lemma_woken_wf(rest, id);
                                }
                            }
                            assert(self@ =~= rest.executor);
                        },
                    }
                },
            }
        }
        None
    }

    /// Hands a polled task back: a future that is pending goes to its slot, to
    /// be polled once it is woken; a task that is done is gone.
    pub fn poll_returned(&mut self, id: usize, pending: Option<F>)
        requires
            old(self)@.wf(),
            old(self)@.active.contains(id),
        ensures
            final(self)@.wf(),
            final(self)@ == old(self)@.returned(id, pending),
    {
        let ghost given = pending;
        self.active.remove(&id);
        if let Some(future) = pending {
            self.tasks.insert(id, future);
        }
        assert(self@ =~= old(self)@.returned(id, given));
    }
}

/// What the caller of a blocking call did last.
pub enum BlockOnEvent {
    /// Nothing yet, or it slept, or it was told to go round again.
    Enter,
    /// It polled the future, which is pending.
    TargetPending,
    /// It polled the future, which is ready.
    TargetReady,
    /// It ran a turn of the executor to its end.
    Pumped,
    /// It woke the wakers of the timers that were due.
    TimersFired,
}

/// What the caller of a blocking call does next.
pub enum BlockOnAction<W> {
    /// Poll the future of the call.
    PollTarget,
    /// Run a turn of the executor to its end.
    Pump,
    /// Wake these wakers.
    Wake(Vec<W>),
    /// Sleep until notified, at most this many milliseconds.
    Sleep(u64),
    /// Go round again at once.
    Again,
    /// Return what the future returned.
    Return,
}

/// What a worker's main loop did last.
pub enum RunEvent {
    /// Nothing yet, or it slept, or it was told to go round again.
    Enter,
    /// It ran a turn of the executor to its end.
    Pumped,
    /// It woke the wakers of the timers that were due.
    TimersFired,
}

/// What a worker's main loop does next.
pub enum RunAction<W> {
    /// Run a turn of the executor to its end.
    Pump,
    /// Wake these wakers.
    Wake(Vec<W>),
    /// Sleep until notified, at most this many milliseconds.
    Sleep(u64),
    /// Go round again at once.
    Again,
}

impl<F, W> Worker<F, W> {
    /// What a blocking call does next, and what becomes of the shared half. The
    /// call polls its future with the wake flag cleared, runs a turn, fires the
    /// timers that are due, and then sleeps if there is nothing to do.
    pub open spec fn block_on_step(
        self,
        event: BlockOnEvent,
        now_ms: u64,
        action: BlockOnAction<W>,
        after: WakeView<W>,
    ) -> bool {
        match action {
            BlockOnAction::PollTarget => event is Enter && after == (WakeView {
                block_woken: false,
                ..self.wake
            }),
            BlockOnAction::Pump => event is TargetPending && after == self.wake,
            BlockOnAction::Wake(wakers) => event is Pumped && self.wake.are_expired_wakers(
                now_ms,
                wakers@,
            ) && after == self.wake.without_expired(now_ms),
            BlockOnAction::Sleep(wait) => event is TimersFired && self.block_on_is_idle()
                && self.wake.is_wait(now_ms, 1, wait as int) && after == self.wake,
            BlockOnAction::Again => event is TimersFired && !self.block_on_is_idle() && after
                == self.wake,
            BlockOnAction::Return => event is TargetReady && after == self.wake,
        }
    }

    /// What a worker's main loop does next, and what becomes of the shared half.
    pub open spec fn run_step(
        self,
        event: RunEvent,
        now_ms: u64,
        action: RunAction<W>,
        after: WakeView<W>,
    ) -> bool {
        match action {
            RunAction::Pump => event is Enter && after == self.wake,
            RunAction::Wake(wakers) => event is Pumped && self.wake.are_expired_wakers(
                now_ms,
                wakers@,
            ) && after == self.wake.without_expired(now_ms),
            RunAction::Sleep(wait) => event is TimersFired && self.run_is_idle()
                && self.wake.is_wait(now_ms, 100, wait as int) && after == self.wake,
            RunAction::Again => event is TimersFired && !self.run_is_idle() && after == self.wake,
        }
    }
}

impl<F> LocalExecutor<F> {
    /// Registers a timer: once the clock reads `deadline_ms`, `waker` is woken.
    pub fn register_timer<W>(
        &self,
        inner: &mut WakeInner<W>,
        deadline_ms: u64,
        waker: W,
    ) -> (registration: TimerRegistration)
        requires
            old(inner).wf(),
            old(inner)@.executor == self@.id,
            old(inner)@.next_timer < usize::MAX,
        ensures
            final(inner).wf(),
            registration.id() == old(inner)@.next_timer,
            registration.executor() == self@.id,
            final(inner)@ == old(inner)@.with_timer(TimerEntry { deadline_ms, waker }),
    {
        TimerRegistration::new(inner, deadline_ms, waker)
    }

    /// The next step of a blocking call, which drives one future and pumps the
    /// other tasks while it waits. The wake flag is cleared before the future
    /// is polled, so a wake during the poll or after it is seen.
    pub fn block_on<W>(
        &self,
        inner: &mut WakeInner<W>,
        event: BlockOnEvent,
        now_ms: u64,
    ) -> (action: BlockOnAction<W>)
        requires
            old(inner).wf(),
        ensures
            final(inner).wf(),
            match event {
                BlockOnEvent::Enter => {
                    &&& action is PollTarget
                    &&& final(inner)@ == (WakeView { block_woken: false, ..old(inner)@ })
                },
                BlockOnEvent::TargetPending => action is Pump && final(inner)@ == old(inner)@,
                BlockOnEvent::TargetReady => action is Return && final(inner)@ == old(inner)@,
                BlockOnEvent::Pumped => {
                    &&& action matches BlockOnAction::Wake(wakers)
                    &&& old(inner)@.are_expired_wakers(now_ms, wakers@)
                    &&& final(inner)@ == old(inner)@.without_expired(now_ms)
                },
                BlockOnEvent::TimersFired => {
                    &&& final(inner)@ == old(inner)@
                    &&& if worker(*self, *old(inner)).block_on_is_idle() {
                        action matches BlockOnAction::Sleep(wait) && old(inner)@.is_wait(
                            now_ms,
                            BLOCK_ON_MAX_WAIT_MS as int,
                            wait as int,
                        )
                    } else {
                        action is Again
                    }
                },
            },
            worker(*self, *old(inner)).block_on_step(event, now_ms, action, final(inner)@),
    {
        match event {
            BlockOnEvent::Enter => {
                inner.clear_block_woken();
                BlockOnAction::PollTarget
            },
            BlockOnEvent::TargetPending => BlockOnAction::Pump,
            BlockOnEvent::TargetReady => BlockOnAction::Return,
            BlockOnEvent::Pumped => BlockOnAction::Wake(inner.fire_expired_timers(now_ms)),
            BlockOnEvent::TimersFired => {
                // Ids of callers that are suspended inside a nested call stay
                // queued, and cannot make progress before their poll returns.
                let has_runnable: bool = inner.has_runnable(&self.active);
                if !has_runnable && !inner.block_woken() && self.spawn_queue.len() == 0 {
                    BlockOnAction::Sleep(
                        inner.time_until_next_timer(now_ms, BLOCK_ON_MAX_WAIT_MS),
                    )
                } else {
                    BlockOnAction::Again
                }
            },
        }
    }

    /// The next step of a worker's main loop, which pumps the tasks and sleeps
    /// when there is nothing to do.
    pub fn run<W>(&self, inner: &mut WakeInner<W>, event: RunEvent, now_ms: u64) -> (action:
        RunAction<W>)
        requires
            old(inner).wf(),
        ensures
            final(inner).wf(),
            match event {
                RunEvent::Enter => action is Pump && final(inner)@ == old(inner)@,
                RunEvent::Pumped => {
                    &&& action matches RunAction::Wake(wakers)
                    &&& old(inner)@.are_expired_wakers(now_ms, wakers@)
                    &&& final(inner)@ == old(inner)@.without_expired(now_ms)
                },
                RunEvent::TimersFired => {
                    &&& final(inner)@ == old(inner)@
                    &&& if worker(*self, *old(inner)).run_is_idle() {
                        action matches RunAction::Sleep(wait) && old(inner)@.is_wait(
                            now_ms,
                            RUN_MAX_WAIT_MS as int,
                            wait as int,
                        )
                    } else {
                        action is Again
                    }
                },
            },
            worker(*self, *old(inner)).run_step(event, now_ms, action, final(inner)@),
    {
        match event {
            RunEvent::Enter => RunAction::Pump,
            RunEvent::Pumped => RunAction::Wake(inner.fire_expired_timers(now_ms)),
            RunEvent::TimersFired => {
                if inner.queue_is_empty() && self.spawn_queue.len() == 0 {
                    RunAction::Sleep(inner.time_until_next_timer(now_ms, RUN_MAX_WAIT_MS))
                } else {
                    RunAction::Again
                }
            },
        }
    }

    /// Makes `handle`, through which this executor is reached, the executor of
    /// the thread that `current` stands for.
    pub fn install<E>(&self, handle: E, current: &mut CurrentExecutor<E>)
        ensures
            final(current)@ == Some(handle),
    {
        current.handle = Some(handle);
    }
}

/// Gives out the ids by which executors are told apart.
pub struct ExecutorIds {
    next: u64,
}

impl ExecutorIds {
    /// Whether `id` was given out.
    pub closed spec fn given(&self, id: u64) -> bool {
        id < self.next
    }

    /// Whether no other id can be given out.
    pub closed spec fn exhausted(&self) -> bool {
        self.next == u64::MAX
    }

    /// No id was given out yet.
    pub fn new() -> (ids: ExecutorIds)
        ensures
            forall|id: u64| !#[trigger] ids.given(id),
            !ids.exhausted(),
    {
        ExecutorIds { next: 0 }
    }

    /// Whether another id can be given out.
    pub fn has_next(&self) -> (left: bool)
        ensures
            left == !self.exhausted(),
    {
        self.next < u64::MAX
    }

    /// Gives out an id that was not given out before, and never will be again.
    pub fn next(&mut self) -> (id: u64)
        requires
            !old(self).exhausted(),
        ensures
            !old(self).given(id),
            forall|other: u64| #[trigger]
                final(self).given(other) <==> old(self).given(other) || other == id,
    {
        let id: u64 = self.next;
        self.next = id + 1;
        id
    }
}

/// The executor of one thread: none on a thread that runs an event loop.
pub struct CurrentExecutor<E> {
    handle: Option<E>,
}

impl<E> View for CurrentExecutor<E> {
    type V = Option<E>;

    closed spec fn view(&self) -> Option<E> {
        self.handle
    }
}

impl<E> CurrentExecutor<E> {
    /// A thread without an executor.
    pub fn new() -> (current: CurrentExecutor<E>)
        ensures
            current@ is None,
    {
        CurrentExecutor { handle: None }
    }
}

/// The executor of the thread, if it has one.
pub fn try_current_executor<E>(current: &CurrentExecutor<E>) -> (handle: Option<&E>)
    ensures
        match handle {
            Some(e) => current@ == Some(*e),
            None => current@ is None,
        },
{
    current.handle.as_ref()
}

/// Whether the thread has an executor, that is, whether it is a compute worker.
pub fn has_local_executor<E>(current: &CurrentExecutor<E>) -> (has: bool)
    ensures
        has == current@ is Some,
{
    current.handle.is_some()
}

/// No two executors are taken for one: an id that is given out differs from all
/// that were given out before. `earlier` has given out `first`, and `later` comes
/// from it by giving out more ids, the next of which is `second`.
pub proof fn executors_are_told_apart(
    earlier: ExecutorIds,
    first: u64,
    later: ExecutorIds,
    second: u64,
)
    requires
        earlier.given(first),
        forall|id: u64| earlier.given(id) ==> #[trigger] later.given(id),
        !later.given(second),
    ensures
        first != second,
{
}

/// Every step of a turn uses up some of its budget, so one turn polls at most
/// `PUMP_BUDGET` tasks, whatever they do while they are polled.
pub proof fn turn_is_bounded<F, W>(w: Worker<F, W>, budget: nat)
    ensures
        w.pumped(budget).1 <= budget,
        w.pumped(budget).2 is Some ==> w.pumped(budget).1 < budget,
    decreases budget,
{
    if budget > 0 {
        let ready = w.admitted();
        if ready.wake.queue.len() > 0 {
            let id = ready.wake.queue[0];
            let rest = ready.popped();
            let left = (budget - 1) as nat;
            if !rest.executor.tasks.contains_key(id) {
                if rest.executor.active.contains(id) {
                    turn_is_bounded(Worker { wake: rest.wake.woken(id), ..rest }, left);
                } else {
                    turn_is_bounded(rest, left);
                }
            }
        }
    }
}

/// A queued task is polled when its turn comes: each id that a turn goes
/// through brings the task one place forward, and no task is put before it.
pub proof fn queued_tasks_are_polled_in_order<F, W>(w: Worker<F, W>, budget: nat, place: int)
    requires
        w.wf(),
        w.executor.next_id + w.executor.spawned.len() <= usize::MAX,
        0 <= place < w.wake.queue.len(),
        w.executor.tasks.contains_key(w.wake.queue[place]),
    ensures
        ({
            let id = w.wake.queue[place];
            let future = w.executor.tasks[id];
            let (after, left, task) = w.pumped(budget);
            let steps = budget - left;
            if steps == place + 1 {
                task == Some((id, future))
            } else {
                &&& steps <= place
                &&& place - steps < after.wake.queue.len()
                &&& after.wake.queue[place - steps] == id
                &&& after.executor.tasks.contains_key(id)
                &&& after.executor.tasks[id] == future
            }
        }),
    decreases budget,
{
    if budget > 0 {
        let ready = w.admitted();
        lemma_admitted_wf(w);
        let id = ready.wake.queue[0];
        let rest = ready.popped();
        lemma_popped_wf(ready);
        let left = (budget - 1) as nat;
        assert(ready.wake.queue[place] == w.wake.queue[place]);
        assert(ready.executor.tasks[w.wake.queue[place]] == w.executor.tasks[w.wake.queue[place]]);
        if !rest.executor.tasks.contains_key(id) {
            assert(place > 0);
            assert(rest.wake.queue[place - 1] == w.wake.queue[place]);
            if rest.executor.active.contains(id) {
                lemma_woken_wf(rest, id);
                let next = Worker { wake: rest.wake.woken(id), ..rest };
                assert(next.wake.queue[place - 1] == w.wake.queue[place]);
                queued_tasks_are_polled_in_order(next, left, place - 1);
            } else {
                queued_tasks_are_polled_in_order(rest, left, place - 1);
            }
        } else if place > 0 {
            assert(rest.wake.queue[place - 1] == w.wake.queue[place]);
        }
    }
}

/// A spawned future is queued behind the tasks that are queued already, under
/// an id that no task had before, and is the next to be polled when nothing
/// else is queued.
pub proof fn spawned_futures_are_queued_last<F, W>(w: Worker<F, W>, i: int)
    requires
        w.wf(),
        w.executor.next_id + w.executor.spawned.len() <= usize::MAX,
        0 <= i < w.executor.spawned.len(),
    ensures
        ({
            let id = (w.executor.next_id + i) as usize;
            let ready = w.admitted();
            &&& ready.wake.queue[w.wake.queue.len() + i] == id
            &&& ready.wake.queue.take(w.wake.queue.len() as int) == w.wake.queue
            &&& ready.executor.tasks.contains_key(id)
            &&& ready.executor.tasks[id] == w.executor.spawned[i]
            &&& !w.executor.tasks.contains_key(id)
            &&& !w.executor.active.contains(id)
            &&& !w.wake.queue.contains(id)
            &&& forall|t: usize| #[trigger]
                w.executor.tasks.contains_key(t) ==> ready.executor.tasks.contains_key(t)
                    && ready.executor.tasks[t] == w.executor.tasks[t]
        }),
        w.wake.queue.len() == 0 ==> forall|budget: nat|
            budget > 0 ==> (#[trigger] w.pumped(budget)).2 == Some(
                (w.executor.next_id as usize, w.executor.spawned[0]),
            ),
{
}

/// A task that is being polled keeps its wake: a blocking call inside that
/// poll cannot poll the task, and leaves its id in the queue.
pub proof fn wakes_of_suspended_tasks_are_kept<F, W>(w: Worker<F, W>, budget: nat, id: usize)
    requires
        w.wf(),
        w.executor.next_id + w.executor.spawned.len() <= usize::MAX,
        w.executor.active.contains(id),
        w.wake.queue.contains(id),
    ensures
        w.pumped(budget).0.wake.queue.contains(id),
        w.pumped(budget).0.executor.active.contains(id),
        w.pumped(budget).2 matches Some((polled, _)) ==> polled != id,
    decreases budget,
{
    if budget > 0 {
        let ready = w.admitted();
        lemma_admitted_wf(w);
        let place = w.wake.queue.index_of(id);
        assert(ready.wake.queue[place] == id);
        let front = ready.wake.queue[0];
        let rest = ready.popped();
        lemma_popped_wf(ready);
        let left = (budget - 1) as nat;
        if front != id {
            assert(rest.wake.queue[place - 1] == id);
        }
        if !rest.executor.tasks.contains_key(front) {
            if rest.executor.active.contains(front) {
                lemma_woken_wf(rest, front);
                let next = Worker { wake: rest.wake.woken(front), ..rest };
                assert(next.wake.queue[next.wake.queue.len() - 1] == front);
                if front != id {
                    assert(next.wake.queue[place - 1] == id);
                }
                wakes_of_suspended_tasks_are_kept(next, left, id);
            } else {
                wakes_of_suspended_tasks_are_kept(rest, left, id);
            }
        }
    }
}

/// Waking a task queues it once, however often it is woken, and keeps the
/// order of the others and the shape of the worker.
pub proof fn a_wake_queues_its_task_once<F, W>(w: Worker<F, W>, id: usize)
    requires
        w.wf(),
        id < w.executor.next_id,
    ensures
        (Worker { wake: w.wake.woken(id), ..w }).wf(),
        w.wake.woken(id).queue.contains(id),
        w.wake.woken(id).woken(id) == w.wake.woken(id),
        w.wake.woken(id).queue.take(w.wake.queue.len() as int) == w.wake.queue,
{
    lemma_woken_wf(w, id);
    let after = w.wake.woken(id);
    if !w.wake.queue.contains(id) {
        assert(after.queue[w.wake.queue.len() as int] == id);
    }
}

/// Spawning a future, and adding, firing, updating or releasing a timer, keep
/// the shape of the worker.
pub proof fn spawns_and_timers_keep_the_worker<F, W>(
    w: Worker<F, W>,
    future: F,
    timer: TimerEntry<W>,
    t: usize,
    now_ms: u64,
)
    requires
        w.wf(),
    ensures
        (Worker {
            executor: ExecutorView {
                spawned: w.executor.spawned.push(future),
                ..w.executor
            },
            ..w
        }).wf(),
        w.wake.next_timer < usize::MAX ==> (Worker { wake: w.wake.with_timer(timer), ..w }).wf(),
        (Worker { wake: w.wake.without_timer(t), ..w }).wf(),
        (Worker { wake: w.wake.without_expired(now_ms), ..w }).wf(),
        w.wake.timers.contains_key(t) ==> (Worker {
            wake: w.wake.with_waker(t, timer.waker),
            ..w
        }).wf(),
{
    let fired = w.wake.without_expired(now_ms);
    assert(fired.timers.dom() =~= w.wake.timers.dom().difference(
        Set::new(|u: usize| w.wake.expired(u, now_ms)),
    ));
}

/// A future that is pending goes back to the slot that its task was taken
/// from, and nothing else of the executor changes; a task that is done is gone.
pub proof fn polled_tasks_return_to_their_slots<F, W>(w: Worker<F, W>, id: usize, future: F)
    requires
        w.wf(),
        w.executor.tasks.contains_key(id),
    ensures
        ({
            let polled = w.polling(id).executor;
            &&& polled.tasks.insert(id, future) == w.executor.tasks.insert(id, future)
            &&& polled.active.remove(id) == w.executor.active
            &&& !polled.tasks.contains_key(id)
        }),
        w.polling(id).wf(),
{
    let polled = w.polling(id).executor;
    assert(polled.tasks.insert(id, future) =~= w.executor.tasks.insert(id, future));
    assert(polled.active.remove(id) =~= w.executor.active);
}

/// A blocking call stays awake while there is something to do: its future was
/// woken, a future was spawned, or a task that can be polled is queued.
pub proof fn block_on_stays_awake_for_work<F, W>(w: Worker<F, W>, place: int)
    ensures
        w.wake.block_woken ==> !w.block_on_is_idle(),
        w.executor.spawned.len() > 0 ==> !w.block_on_is_idle(),
        0 <= place < w.wake.queue.len() && !w.executor.active.contains(w.wake.queue[place])
            ==> !w.block_on_is_idle(),
{
}

/// A blocking call does not spin on the wakes of callers that are suspended in
/// their own poll: with nothing else to do, it sleeps.
pub proof fn block_on_does_not_spin_on_suspended_callers<F, W>(w: Worker<F, W>)
    requires
        forall|i: int|
            0 <= i < w.wake.queue.len() ==> w.executor.active.contains(#[trigger] w.wake.queue[i]),
        !w.wake.block_woken,
        w.executor.spawned.len() == 0,
    ensures
        w.block_on_is_idle(),
{
}

/// No sleep outlasts a pending timer, nor the limit that it was given.
pub proof fn sleeps_end_by_the_next_timer<W>(
    wake: WakeView<W>,
    now_ms: u64,
    max: int,
    wait: int,
    t: usize,
)
    requires
        wake.is_wait(now_ms, max, wait),
    ensures
        wait <= max,
        wake.timers.contains_key(t) && wake.timers[t].deadline_ms >= now_ms ==> now_ms + wait
            <= wake.timers[t].deadline_ms,
        wake.expired(t, now_ms) ==> wait <= 0,
{
}

/// A timer fires in the first round whose clock reaches its deadline, and
/// never again: that round hands out its waker and removes it, and keeps every
/// timer that is not due.
pub proof fn timers_fire_once_and_when_due<W>(
    wake: WakeView<W>,
    now_ms: u64,
    wakers: Seq<W>,
    t: usize,
)
    requires
        wake.timers.contains_key(t),
        wake.are_expired_wakers(now_ms, wakers),
    ensures
        wake.timers[t].deadline_ms <= now_ms ==> {
            &&& wakers.contains(wake.timers[t].waker)
            &&& !wake.without_expired(now_ms).timers.contains_key(t)
        },
        wake.timers[t].deadline_ms > now_ms ==> {
            &&& wake.without_expired(now_ms).timers.contains_key(t)
            &&& wake.without_expired(now_ms).timers[t] == wake.timers[t]
        },
{
    let ids = choose|ids: Seq<usize>| #[trigger] wake.lists_expired(now_ms, ids, wakers);
    if wake.expired(t, now_ms) {
        let i = ids.index_of(t);
        assert(ids[i] == t);
        assert(wakers[i] == wake.timers[t].waker);
    }
}

/// A timer that is released before it fires leaves nothing behind, and never
/// wakes anyone.
pub proof fn released_timers_never_fire<W>(wake: WakeView<W>, timer: TimerEntry<W>, now_ms: u64)
    requires
        wake.wf(),
        wake.next_timer < usize::MAX,
    ensures
        ({
            let t = wake.next_timer as usize;
            let after = wake.with_timer(timer).without_timer(t);
            &&& after.timers == wake.timers
            &&& !after.expired(t, now_ms)
            &&& after.wf()
        }),
{
    let t = wake.next_timer as usize;
    assert(wake.with_timer(timer).without_timer(t).timers =~= wake.timers);
}

impl<F, W> Worker<F, W> {
    /// The worker with other futures waiting for an id.
    spec fn with_spawned(self, spawned: Seq<F>) -> Worker<F, W> {
        Worker { executor: ExecutorView { spawned, ..self.executor }, ..self }
    }

    /// The worker once `future` became a task.
    spec fn adopted(self, future: F) -> Worker<F, W> {
        let id = self.executor.next_id as usize;
        Worker {
            executor: ExecutorView {
                tasks: self.executor.tasks.insert(id, future),
                next_id: self.executor.next_id + 1,
                ..self.executor
            },
            wake: WakeView { queue: self.wake.queue.push(id), ..self.wake },
        }
    }
}

pub(crate) proof fn lemma_admitted_wf<F, W>(w: Worker<F, W>)
    requires
        w.wf(),
        w.executor.next_id + w.executor.spawned.len() <= usize::MAX,
    ensures
        w.admitted().wf(),
{
    let queue = w.admitted().wake.queue;
    let first = w.executor.next_id;
    assert forall|i: int, j: int| 0 <= i < j < queue.len() implies queue[i] != queue[j] by {
        if j >= w.wake.queue.len() {
            assert(queue[j] == first + (j - w.wake.queue.len()));
        }
    }
}

pub(crate) proof fn lemma_popped_wf<F, W>(w: Worker<F, W>)
    requires
        w.wf(),
        w.wake.queue.len() > 0,
    ensures
        w.popped().wf(),
        !w.popped().wake.queue.contains(w.wake.queue[0]),
{
}

proof fn lemma_woken_wf<F, W>(w: Worker<F, W>, id: usize)
    requires
        w.wf(),
        id < w.executor.next_id,
    ensures
        (Worker { wake: w.wake.woken(id), ..w }).wf(),
{
}

proof fn lemma_adopt_one<F, W>(before: Worker<F, W>, spawned: Seq<F>, i: int)
    requires
        before.wf(),
        0 <= i < spawned.len(),
        before.executor.next_id + spawned.len() <= usize::MAX,
    ensures
        before.with_spawned(spawned.take(i + 1)).admitted() == before.with_spawned(
            spawned.take(i),
        ).admitted().adopted(spawned[i]),
        before.with_spawned(spawned.take(i)).admitted().wf(),
        !before.with_spawned(spawned.take(i)).admitted().wake.queue.contains(
            (before.executor.next_id + i) as usize,
        ),
{
    let here = before.with_spawned(spawned.take(i));
    lemma_admitted_wf(here);
    let next = before.with_spawned(spawned.take(i + 1)).admitted();
    assert(next.executor.tasks =~= here.admitted().adopted(spawned[i]).executor.tasks);
    assert(next.wake.queue =~= here.admitted().adopted(spawned[i]).wake.queue);
}

/// Handing a polled task back touches that task alone: the futures that were
/// spawned while it was polled wait as before, whatever became of the task, and
/// so do all other tasks. A pending task is in its slot with the future that was
/// handed back; one that is done leaves its slot as it was.
pub proof fn handing_back_touches_one_task<F>(
    e: ExecutorView<F>,
    id: usize,
    future: F,
    other: usize,
)
    ensures
        e.returned(id, Some(future)).spawned == e.spawned,
        e.returned(id, None).spawned == e.spawned,
        e.returned(id, Some(future)).next_id == e.next_id,
        e.returned(id, None).next_id == e.next_id,
        e.returned(id, Some(future)).id == e.id,
        e.returned(id, None).id == e.id,
        e.returned(id, Some(future)).tasks.contains_key(id),
        e.returned(id, Some(future)).tasks[id] == future,
        e.returned(id, None).tasks == e.tasks,
        !e.returned(id, Some(future)).active.contains(id),
        !e.returned(id, None).active.contains(id),
        other != id ==> {
            &&& e.returned(id, Some(future)).tasks.contains_key(other) == e.tasks.contains_key(
                other,
            )
            &&& e.returned(id, Some(future)).tasks[other] == e.tasks[other]
            &&& e.returned(id, Some(future)).active.contains(other) == e.active.contains(other)
            &&& e.returned(id, None).active.contains(other) == e.active.contains(other)
        },
{
}

/// A step of a turn keeps every future: the live tasks, the one to be polled
/// among them, and the futures that waited for an id make up the live tasks
/// after it. What was spawned waits no more, ids are given out without gaps, and
/// no other task is being polled than before.
pub proof fn a_step_loses_no_future<F, W>(w: Worker<F, W>, budget: nat, t: usize)
    requires
        w.wf(),
        w.executor.next_id + w.executor.spawned.len() <= usize::MAX,
        budget > 0,
    ensures
        ({
            let (after, left, task) = w.pumped(budget);
            &&& after.executor.id == w.executor.id
            &&& after.executor.spawned.len() == 0
            &&& after.executor.next_id == w.executor.next_id + w.executor.spawned.len()
            &&& match task {
                Some((id, future)) => {
                    &&& after.executor.active == w.executor.active.insert(id)
                    &&& !w.executor.active.contains(id)
                    &&& !after.executor.tasks.contains_key(id)
                    &&& w.executor.tasks.contains_key(id) ==> future == w.executor.tasks[id]
                    &&& !w.executor.tasks.contains_key(id) ==> {
                        &&& w.executor.next_id <= id < after.executor.next_id
                        &&& future == w.executor.spawned[id - w.executor.next_id]
                    }
                },
                None => after.executor.active == w.executor.active,
            }
            &&& (task matches Some((id, _)) && id == t) || {
                &&& w.executor.tasks.contains_key(t) ==> after.executor.tasks.contains_key(t)
                    && after.executor.tasks[t] == w.executor.tasks[t]
                &&& w.executor.next_id <= t < after.executor.next_id
                    ==> after.executor.tasks.contains_key(t) && after.executor.tasks[t]
                    == w.executor.spawned[t - w.executor.next_id]
                &&& after.executor.tasks.contains_key(t) ==> w.executor.tasks.contains_key(t)
                    || w.executor.next_id <= t < after.executor.next_id
            }
        }),
    decreases budget,
{
    let ready = w.admitted();
    lemma_admitted_wf(w);
    if ready.wake.queue.len() > 0 {
        let id = ready.wake.queue[0];
        let rest = ready.popped();
        lemma_popped_wf(ready);
        let left = (budget - 1) as nat;
        if !rest.executor.tasks.contains_key(id) {
            let next = if rest.executor.active.contains(id) {
                lemma_woken_wf(rest, id);
                Worker { wake: rest.wake.woken(id), ..rest }
            } else {
                rest
            };
            if left > 0 {
                a_step_loses_no_future(next, left, t);
            }
        } else {
            assert(w.pumped(budget).0.executor.active =~= w.executor.active.insert(id));
        }
    }
}

/// A step of a turn takes ids out of the queue and leaves the rest of what is
/// shared with the wakers as it was: the timers, and whether the future of a
/// blocking call was woken.
pub proof fn a_step_leaves_timers_alone<F, W>(w: Worker<F, W>, budget: nat)
    ensures
        w.pumped(budget).0.wake.timers == w.wake.timers,
        w.pumped(budget).0.wake.next_timer == w.wake.next_timer,
        w.pumped(budget).0.wake.block_woken == w.wake.block_woken,
        w.pumped(budget).0.wake.executor == w.wake.executor,
    decreases budget,
{
    if budget > 0 {
        let ready = w.admitted();
        if ready.wake.queue.len() > 0 {
            let id = ready.wake.queue[0];
            let rest = ready.popped();
            let left = (budget - 1) as nat;
            if !rest.executor.tasks.contains_key(id) {
                if rest.executor.active.contains(id) {
                    a_step_leaves_timers_alone(
                        Worker { wake: rest.wake.woken(id), ..rest },
                        left,
                    );
                } else {
                    a_step_leaves_timers_alone(rest, left);
                }
            }
        }
    }
}

/// A worker's main loop sleeps exactly when no task is woken and no future was
/// spawned.
pub proof fn workers_sleep_only_without_work<F, W>(w: Worker<F, W>, id: usize)
    ensures
        w.wake.queue.contains(id) ==> !w.run_is_idle(),
        w.executor.spawned.len() > 0 ==> !w.run_is_idle(),
        w.wake.queue == Seq::<usize>::empty() && w.executor.spawned == Seq::<F>::empty()
            ==> w.run_is_idle(),
{
}

/// An idle worker does not wake up for nothing: it sleeps as long as it may,
/// unless a timer is due before that, and then until that timer.
pub proof fn sleeps_are_as_long_as_they_may_be<W>(
    wake: WakeView<W>,
    now_ms: u64,
    max: int,
    wait: int,
)
    requires
        wake.is_wait(now_ms, max, wait),
        max >= 0,
    ensures
        0 <= wait,
        (forall|t: usize| #[trigger]
            wake.timers.contains_key(t) ==> wake.timers[t].deadline_ms >= now_ms + max) ==> wait
            == max,
        wait < max ==> exists|t: usize| #[trigger]
            wake.timers.contains_key(t) && (wake.timers[t].deadline_ms == now_ms + wait || (wait
                == 0 && wake.timers[t].deadline_ms <= now_ms)),
{
    if wait < max {
        let t = choose|t: usize| #[trigger]
            wake.timers.contains_key(t) && wait == ms_until(wake.timers[t].deadline_ms, now_ms);
        assert(wake.timers.contains_key(t));
    }
}

/// A blocking call returns as soon as its future is ready, and polls it again
/// whenever it was woken: the wake flag is cleared only right before a poll, so a
/// wake that comes during the poll or after it keeps the call from sleeping.
pub proof fn blocking_calls_miss_no_wake<F, W>(
    w: Worker<F, W>,
    event: BlockOnEvent,
    now_ms: u64,
    action: BlockOnAction<W>,
    after: WakeView<W>,
)
    requires
        w.block_on_step(event, now_ms, action, after),
    ensures
        event is TargetReady <==> action is Return,
        event is TargetPending <==> action is Pump,
        event is Enter <==> action is PollTarget,
        event is Pumped <==> action is Wake,
        w.wake.block_woken && !(event is Enter) ==> after.block_woken,
        event is Enter ==> !after.block_woken,
        w.wake.block_woken ==> !(action is Sleep),
        event is TimersFired && w.wake.block_woken ==> action is Again,
        after.queue == w.wake.queue,
        action matches BlockOnAction::Sleep(wait) ==> wait <= 1,
{
}

/// A worker's main loop takes its three steps in turn, runs a turn of the executor
/// each time round, and does not sleep for longer than a tenth of a second.
pub proof fn main_loops_go_round<F, W>(
    w: Worker<F, W>,
    event: RunEvent,
    now_ms: u64,
    action: RunAction<W>,
    after: WakeView<W>,
)
    requires
        w.run_step(event, now_ms, action, after),
    ensures
        event is Enter <==> action is Pump,
        event is Pumped <==> action is Wake,
        event is TimersFired <==> action is Sleep || action is Again,
        w.wake.queue.len() > 0 || w.executor.spawned.len() > 0 ==> !(action is Sleep),
        event is TimersFired && w.wake.queue.len() == 0 && w.executor.spawned.len() == 0
            ==> action is Sleep,
        after.queue == w.wake.queue,
        after.block_woken == w.wake.block_woken,
        action matches RunAction::Sleep(wait) ==> wait <= 100,
{
}

/// A blocking call and a main loop fire all timers that are due, and no others.
pub proof fn loops_fire_due_timers<F, W>(
    w: Worker<F, W>,
    now_ms: u64,
    blocked: BlockOnAction<W>,
    ran: RunAction<W>,
    after: WakeView<W>,
    t: usize,
)
    requires
        w.wake.timers.contains_key(t),
    ensures
        w.block_on_step(BlockOnEvent::Pumped, now_ms, blocked, after) ==> {
            &&& after.timers.contains_key(t) <==> w.wake.timers[t].deadline_ms > now_ms
            &&& w.wake.timers[t].deadline_ms <= now_ms ==> (blocked matches BlockOnAction::Wake(
                wakers,
            ) && wakers@.contains(w.wake.timers[t].waker))
        },
        w.run_step(RunEvent::Pumped, now_ms, ran, after) ==> {
            &&& after.timers.contains_key(t) <==> w.wake.timers[t].deadline_ms > now_ms
            &&& w.wake.timers[t].deadline_ms <= now_ms ==> (ran matches RunAction::Wake(wakers)
                && wakers@.contains(w.wake.timers[t].waker))
        },
{
    if w.block_on_step(BlockOnEvent::Pumped, now_ms, blocked, after) {
        timers_fire_once_and_when_due(w.wake, now_ms, blocked->Wake_0@, t);
    }
    if w.run_step(RunEvent::Pumped, now_ms, ran, after) {
        timers_fire_once_and_when_due(w.wake, now_ms, ran->Wake_0@, t);
    }
}

/// A future that is spawned waits for its first turn behind those that were
/// spawned before it, and spawning it touches no task.
pub proof fn spawning_adds_one_future<F>(
    before: ExecutorView<F>,
    after: ExecutorView<F>,
    future: F,
    i: int,
)
    requires
        after.is_spawn(before, future),
    ensures
        after.spawned == before.spawned.push(future),
        0 <= i < before.spawned.len() ==> after.spawned[i] == before.spawned[i],
        after.tasks == before.tasks,
        after.active == before.active,
        after.next_id == before.next_id,
        before.wf() ==> after.wf(),
{
    assert(after.spawned =~= before.spawned.push(future));
    if 0 <= i < before.spawned.len() {
        assert(after.spawned[i] == after.spawned.drop_last()[i]);
    }
}

} // verus!
