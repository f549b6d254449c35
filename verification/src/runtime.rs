//! The runtimes, the worker pool behind them, and its startup.

use crate::cancel::new_abort_pair;
use crate::channel::{channel, Outlet, Posted, Sent};
use crate::executor::{ExecutorView, LocalExecutor};
use crate::join::JoinHandle;
use crate::text::{decimal, decimal_text, joined};
use crate::time::Instant;
use vstd::prelude::*;

verus! {

/// The environment variable that configures the runtimes.
pub const ZENOH_RUNTIME_ENV: &'static str = "ZENOH_RUNTIME";

/// The number of workers, one for each runtime.
pub const NUM_WORKERS: usize = 5;

/// The runtimes. Each has a worker of its own; without workers all of them
/// share the thread of the page.
#[derive(Hash, Eq, PartialEq, Structural, Clone, Copy, Debug)]
pub enum ZRuntime {
    Application,
    Acceptor,
    TX,
    RX,
    Net,
}

/// What a worker runs.
#[derive(Clone, Copy, Debug, PartialEq, Eq, Structural)]
pub enum WorkerRole {
    /// Its event loop, which serves the callbacks of sockets. Tasks are spawned
    /// on the event loop.
    EventLoop,
    /// An executor, which never gives the thread back. Tasks are spawned on the
    /// executor.
    Executor,
}

/// All runtimes, each at the place of its worker.
pub open spec fn all_runtimes() -> Seq<ZRuntime> {
    seq![
        ZRuntime::Application,
        ZRuntime::Acceptor,
        ZRuntime::TX,
        ZRuntime::RX,
        ZRuntime::Net,
    ]
}

impl ZRuntime {
    /// The number of the runtime's worker.
    pub open spec fn spec_variant_id(self) -> int {
        match self {
            ZRuntime::Application => 0,
            ZRuntime::Acceptor => 1,
            ZRuntime::TX => 2,
            ZRuntime::RX => 3,
            ZRuntime::Net => 4,
        }
    }

    /// The short name of the runtime.
    pub open spec fn spec_name(self) -> Seq<char> {
        match self {
            ZRuntime::Application => "app"@,
            ZRuntime::Acceptor => "acc"@,
            ZRuntime::TX => "tx"@,
            ZRuntime::RX => "rx"@,
            ZRuntime::Net => "net"@,
        }
    }

    /// The short name of the runtime.
    pub fn name(&self) -> (name: &'static str)
        ensures
            name@ == self.spec_name(),
    {
        match self {
            ZRuntime::Application => "app",
            ZRuntime::Acceptor => "acc",
            ZRuntime::TX => "tx",
            ZRuntime::RX => "rx",
            ZRuntime::Net => "net",
        }
    }

    /// The number of the runtime's worker.
    pub fn variant_id(self) -> (id: usize)
        ensures
            id == self.spec_variant_id(),
            id < NUM_WORKERS,
    {
        match self {
            ZRuntime::Application => 0,
            ZRuntime::Acceptor => 1,
            ZRuntime::TX => 2,
            ZRuntime::RX => 3,
            ZRuntime::Net => 4,
        }
    }

    /// The runtime of worker `id`.
    pub fn from_id(id: u32) -> (runtime: ZRuntime)
        requires
            id < NUM_WORKERS,
        ensures
            runtime.spec_variant_id() == id,
    {
        match id {
            0 => ZRuntime::Application,
            1 => ZRuntime::Acceptor,
            2 => ZRuntime::TX,
            3 => ZRuntime::RX,
            _ => ZRuntime::Net,
        }
    }

    /// All runtimes, in the order of their workers.
    pub fn iter() -> (runtimes: Vec<ZRuntime>)
        ensures
            runtimes@ == all_runtimes(),
    {
        let runtimes: Vec<ZRuntime> = vec![
            ZRuntime::Application,
            ZRuntime::Acceptor,
            ZRuntime::TX,
            ZRuntime::RX,
            ZRuntime::Net,
        ];
        assert(runtimes@ =~= all_runtimes());
        runtimes
    }

    /// What the runtime's worker runs. The acceptor's sockets need an event
    /// loop.
    pub fn role(self) -> (role: WorkerRole)
        ensures
            role == self.spec_role(),
    {
        match self {
            ZRuntime::Acceptor => WorkerRole::EventLoop,
            _ => WorkerRole::Executor,
        }
    }

    pub open spec fn spec_role(self) -> WorkerRole {
        if self == ZRuntime::Acceptor {
            WorkerRole::EventLoop
        } else {
            WorkerRole::Executor
        }
    }
}

/// Numbering the runtimes is undone by finding them again, and each stands at
/// its number among all runtimes.
pub proof fn runtimes_are_numbered(a: ZRuntime, b: ZRuntime)
    ensures
        0 <= a.spec_variant_id() < NUM_WORKERS,
        all_runtimes().len() == NUM_WORKERS,
        all_runtimes()[a.spec_variant_id()] == a,
        a.spec_variant_id() == b.spec_variant_id() ==> a == b,
{
}

/// The runtimes have different names.
pub proof fn names_tell_runtimes_apart(a: ZRuntime, b: ZRuntime)
    ensures
        a.spec_name() == b.spec_name() ==> a == b,
{
    reveal_strlit("app");
    reveal_strlit("acc");
    reveal_strlit("tx");
    reveal_strlit("rx");
    reveal_strlit("net");
    let first = a.spec_name();
    let second = b.spec_name();
    if first == second {
        assert(first.len() == second.len());
        assert(first[0] == second[0]);
        assert(first[1] == second[1]);
    }
}

/// What a thread knows of itself.
pub struct WorkerThread {
    runtime: Option<ZRuntime>,
}

impl WorkerThread {
    /// The runtime that the thread serves.
    pub closed spec fn runtime(&self) -> Option<ZRuntime> {
        self.runtime
    }

    /// A thread that serves no runtime, such as that of the page.
    pub fn new() -> (thread: WorkerThread)
        ensures
            thread.runtime() is None,
    {
        WorkerThread { runtime: None }
    }
}

/// The runtime whose worker this is; none on the thread of the page.
pub fn current_runtime(thread: &WorkerThread) -> (runtime: Option<ZRuntime>)
    ensures
        runtime == thread.runtime(),
{
    thread.runtime
}

/// The ends of the task channels that the workers take. `K` is a task.
#[verifier::reject_recursive_types(K)]
pub struct TaskReceivers<K> {
    receivers: Vec<flume::Receiver<K>>,
}

impl<K> TaskReceivers<K> {
    /// The receivers, in the order of their workers.
    pub closed spec fn receivers(&self) -> Seq<flume::Receiver<K>> {
        self.receivers@
    }

    /// Where the tasks of `runtime` come from.
    pub open spec fn of(&self, runtime: ZRuntime) -> flume::Receiver<K> {
        self.receivers()[runtime.spec_variant_id()]
    }

    #[verifier::type_invariant]
    spec fn one_for_each_worker(self) -> bool {
        self.receivers@.len() == NUM_WORKERS
    }

    /// The receiver of the worker of `runtime`.
    pub fn get(&self, runtime: ZRuntime) -> (receiver: &flume::Receiver<K>)
        ensures
            *receiver == self.receivers()[runtime.spec_variant_id()],
            *receiver == self.of(runtime),
    {
        proof {
            use_type_invariant(self);
        }
        &self.receivers[runtime.variant_id()]
    }
}

/// How a worker begins.
#[verifier::reject_recursive_types(K)]
pub struct WorkerStart<'a, K> {
    /// What the worker runs. Only after that is set up, and a task that drains
    /// `receiver` is spawned on it, does the worker count as ready.
    pub role: WorkerRole,
    /// Where the worker's tasks come from.
    pub receiver: &'a flume::Receiver<K>,
}

/// The entry of worker `variant_id`, on its thread.
pub fn __zenoh_worker_entry<'a, K>(
    thread: &mut WorkerThread,
    receivers: &'a TaskReceivers<K>,
    variant_id: u32,
) -> (start: WorkerStart<'a, K>)
    requires
        variant_id < NUM_WORKERS,
    ensures
        final(thread).runtime() matches Some(runtime) && {
            &&& runtime.spec_variant_id() == variant_id
            &&& start.role == runtime.spec_role()
        },
        *start.receiver == receivers.receivers()[variant_id as int],
        final(thread).runtime() matches Some(runtime) && *start.receiver == receivers.of(runtime),
{
    let runtime = ZRuntime::from_id(variant_id);
    thread.runtime = Some(runtime);
    WorkerStart { role: runtime.role(), receiver: receivers.get(runtime) }
}

/// Spawns a future on the current thread: on the executor of a worker, and
/// elsewhere on the event loop. A future for the event loop is handed back.
pub fn spawn_on_current<F>(executor: Option<&mut LocalExecutor<F>>, future: F) -> (event_loop:
    Option<F>)
    ensures
        match executor {
            Some(e) => event_loop is None && final(e)@ == (ExecutorView {
                spawned: (*e)@.spawned.push(future),
                ..(*e)@
            }),
            None => event_loop == Some(future),
        },
        executor matches Some(e) ==> final(e)@.is_spawn((*e)@, future),
{
    match executor {
        Some(e) => {
            e.spawn(future);
            None
        },
        None => Some(future),
    }
}

/// The workers, one for each runtime. `K` is a task.
#[verifier::reject_recursive_types(K)]
pub struct WorkerPool<K> {
    workers: Vec<Outlet<K>>,
}

impl<K> WorkerPool<K> {
    /// The ends of the task channels that this pool holds, in the order of
    /// their workers.
    pub closed spec fn workers(&self) -> Seq<Outlet<K>> {
        self.workers@
    }

    /// Where the tasks of `runtime` go.
    pub open spec fn of(&self, runtime: ZRuntime) -> Outlet<K> {
        self.workers()[runtime.spec_variant_id()]
    }

    /// What goes to the worker of a runtime comes out at its receiver.
    pub open spec fn serves(&self, receivers: TaskReceivers<K>) -> bool {
        &&& self.workers().len() == NUM_WORKERS
        &&& receivers.receivers().len() == NUM_WORKERS
        &&& forall|j: int|
            0 <= j < NUM_WORKERS ==> (#[trigger] self.workers()[j]).inlet()
                == receivers.receivers()[j]
    }

    #[verifier::type_invariant]
    spec fn one_for_each_runtime(self) -> bool {
        &&& self.workers@.len() == NUM_WORKERS
        &&& forall|j: int|
            0 <= j < self.workers@.len() ==> (#[trigger] self.workers@[j]).limit() is None
    }

    /// A pool with a task channel for each worker.
    pub fn new() -> (pool: (WorkerPool<K>, TaskReceivers<K>))
        ensures
            pool.0.workers().len() == NUM_WORKERS,
            pool.1.receivers().len() == NUM_WORKERS,
            forall|j: int|
                0 <= j < NUM_WORKERS ==> (#[trigger] pool.0.workers()[j]).inlet()
                    == pool.1.receivers()[j] && pool.0.workers()[j].limit() is None,
            pool.0.serves(pool.1),
    {
        let mut workers: Vec<Outlet<K>> = Vec::new();
        let mut receivers: Vec<flume::Receiver<K>> = Vec::new();
        let mut i: usize = 0;
        while i < NUM_WORKERS
            invariant
                0 <= i <= NUM_WORKERS,
                workers@.len() == i,
                receivers@.len() == i,
                forall|j: int|
                    0 <= j < i ==> (#[trigger] workers@[j]).inlet() == receivers@[j]
                        && workers@[j].limit() is None,
            decreases NUM_WORKERS - i,
        {
            let (sender, receiver) = channel::<K>(None);
            workers.push(sender);
            receivers.push(receiver);
            i = i + 1;
        }
        (WorkerPool { workers }, TaskReceivers { receivers })
    }

    /// The task channel of the worker of `rt`.
    pub fn get(&self, rt: &ZRuntime) -> (sender: &Outlet<K>)
        ensures
            *sender == self.workers()[rt.spec_variant_id()],
            *sender == self.of(*rt),
            sender.limit() is None,
    {
        proof {
            use_type_invariant(self);
        }
        &self.workers[rt.variant_id()]
    }

    /// Hands a task to the worker of `rt`. There is always room for it.
    pub fn dispatch(&self, rt: &ZRuntime, task: K) -> (posted: Posted<K>)
        ensures
            posted.message() == task,
            posted.to() == self.workers()[rt.spec_variant_id()].sender(),
            posted.outcome() != Sent::Full,
            posted.to() == self.of(*rt).sender(),
    {
        self.get(rt).post(task)
    }
}

/// The worker's side of a task: where its value goes, and how it learns that it
/// was aborted.
#[verifier::reject_recursive_types(T)]
pub struct TaskEnds<T> {
    pub tx: Outlet<T>,
    pub registration: futures::future::AbortRegistration,
}

impl<T> TaskEnds<T> {
    /// The value goes to `handle`, which can also abort the task. There is room
    /// for one value.
    pub open spec fn belong_to(self, handle: JoinHandle<T>) -> bool {
        &&& self.tx.inlet() == handle.results()
        &&& self.tx.limit() == Some(1nat)
        &&& handle.can_abort(self.registration)
    }
}

/// Where a spawned future goes.
#[derive(Clone, Copy, Debug, PartialEq, Eq, Structural)]
pub enum Route {
    /// Nowhere: the future is dropped.
    Dropped,
    /// To the worker of this runtime.
    Worker(ZRuntime),
    /// To the event loop of the current thread.
    Local,
}

/// A future that is being spawned.
#[verifier::reject_recursive_types(T)]
pub struct Spawned<T> {
    pub handle: JoinHandle<T>,
    pub route: Route,
    /// The task's side, unless the future is dropped.
    pub ends: Option<TaskEnds<T>>,
}

/// How `block_in_place` waits for a future.
#[derive(Clone, Copy, Debug, PartialEq, Eq, Structural)]
pub enum BlockPlan {
    /// Drive the future by the executor of the current thread.
    BlockOn,
    /// Poll the future once; `polled_in_place` says what becomes of it.
    PollOnce,
}

impl ZRuntime {
    /// Where a future for this runtime goes.
    pub open spec fn spec_route(self, startup: StartupView) -> Route {
        if startup.failure is Some {
            Route::Dropped
        } else if startup.threaded {
            Route::Worker(self)
        } else {
            Route::Local
        }
    }

    /// Spawns a future on this runtime: on its worker if there are workers. If
    /// they failed, the future is dropped and the handle finds no sender.
    pub fn spawn<T>(&self, startup: &Startup) -> (spawned: Spawned<T>)
        ensures
            spawned.route == self.spec_route(startup@),
            spawned.route matches Route::Worker(runtime) ==> runtime == *self,
            spawned.ends is None <==> spawned.route == Route::Dropped,
            spawned.ends matches Some(ends) ==> ends.belong_to(spawned.handle),
            !spawned.handle.repolls(),
            !spawned.handle.aborted(),
    {
        let (tx, rx) = channel::<T>(Some(1));
        let (abort, registration) = new_abort_pair();
        let handle = JoinHandle::new(rx, abort);
        if startup.failure.is_some() {
            Spawned { handle, route: Route::Dropped, ends: None }
        } else {
            let route = if startup.threaded {
                Route::Worker(*self)
            } else {
                Route::Local
            };
            Spawned { handle, route, ends: Some(TaskEnds { tx, registration }) }
        }
    }

    /// Waits for a future without giving the thread back. On a worker the
    /// executor goes on meanwhile. An event-loop thread cannot wait, since the
    /// browser's events would not make progress.
    pub fn block_in_place(&self, on_worker: bool) -> (plan: BlockPlan)
        ensures
            plan == (if on_worker {
                BlockPlan::BlockOn
            } else {
                BlockPlan::PollOnce
            }),
            plan == block_plan(on_worker),
    {
        if on_worker {
            BlockPlan::BlockOn
        } else {
            BlockPlan::PollOnce
        }
    }

    /// What becomes of a future that an event-loop thread polled once: its
    /// result, or the reason why the thread cannot go on.
    pub fn polled_in_place<R>(polled: Option<R>) -> (result: Result<R, &'static str>)
        ensures
            match (polled, result) {
                (Some(value), Ok(v)) => v == value,
                (None, Err(reason)) => reason@
                    == "block_in_place: cannot wait on a WASM JS event-loop thread; await the future or run it on a compute worker"@,
                _ => false,
            },
            polled is Some <==> result is Ok,
            result matches Ok(v) ==> polled == Some(v),
    {
        match polled {
            Some(value) => Ok(value),
            None => Err(
                "block_in_place: cannot wait on a WASM JS event-loop thread; await the future or run it on a compute worker",
            ),
        }
    }
}

/// How a thread waits for a future in place.
pub open spec fn block_plan(on_worker: bool) -> BlockPlan {
    if on_worker {
        BlockPlan::BlockOn
    } else {
        BlockPlan::PollOnce
    }
}

/// How far the workers are with starting. A failure is final: a worker cannot
/// safely be ended while it may hold a lock, so only a reload of the page
/// starts afresh.
pub struct Startup {
    started: bool,
    threaded: bool,
    ready: u32,
    failure: Option<String>,
}

/// What a `Startup` holds.
pub struct StartupView {
    /// Whether the pool was asked for.
    pub started: bool,
    /// Whether the pool was made.
    pub threaded: bool,
    /// The workers that are ready.
    pub ready: nat,
    /// What failed first.
    pub failure: Option<Seq<char>>,
}

/// How `__zenoh_init_threaded_runtime` goes on.
#[derive(Clone, Copy, Debug, PartialEq, Eq, Structural)]
pub enum Init {
    /// Return whether workers were dispatched.
    Dispatched(bool),
    /// Make the pool, and report it by `pool_created`.
    CreatePool,
}

/// A wait for the workers.
#[derive(Clone, Copy, Debug)]
pub struct StartupWait {
    /// When the wait began, which is before the workers were dispatched.
    pub since: Instant,
    pub timeout_ms: u32,
    /// What `__zenoh_init_threaded_runtime` returned.
    pub dispatched: bool,
}

/// How `__zenoh_init_threaded_runtime_async` goes on.
pub enum InitStep {
    /// Whether there are workers, or why they failed.
    Done(Result<bool, String>),
    /// Sleep for a millisecond, then take another step.
    Sleep,
}

impl StartupView {
    /// The state once another worker is ready.
    pub open spec fn with_worker(self) -> StartupView {
        StartupView { ready: self.ready + 1, ..self }
    }

    /// Records a failure, unless there was one.
    pub open spec fn failed(self, message: Seq<char>) -> StartupView {
        StartupView {
            failure: Some(
                match self.failure {
                    Some(first) => first,
                    None => message,
                },
            ),
            ..self
        }
    }

    /// How the start of the workers goes on.
    pub open spec fn init(self, sab_available: bool) -> Init {
        if !sab_available || self.failure is Some {
            Init::Dispatched(false)
        } else if self.started {
            Init::Dispatched(true)
        } else {
            Init::CreatePool
        }
    }

    /// The state once the start of the workers went on.
    pub open spec fn after_init(self, sab_available: bool) -> StartupView {
        StartupView {
            started: self.started || self.init(sab_available) == Init::CreatePool,
            ..self
        }
    }

    /// The state once the pool was made, or was not because of `error`.
    pub open spec fn pool_created(self, error: Option<Seq<char>>) -> StartupView {
        match error {
            None => StartupView { threaded: true, ..self },
            Some(e) => self.failed("worker initialization failed: "@ + e),
        }
    }

    /// Whether a wait is over time.
    pub open spec fn timed_out(self, wait: StartupWait, now_ms: u64) -> bool {
        &&& self.failure is None
        &&& wait.dispatched
        &&& self.ready != NUM_WORKERS
        &&& crate::time::saturating_ms(now_ms as int, wait.since.ms() as int) >= wait.timeout_ms
    }

    /// The state once a wait for the workers went on.
    pub open spec fn waited(self, wait: StartupWait, now_ms: u64) -> StartupView {
        if self.timed_out(wait, now_ms) {
            self.failed(timeout_text(wait.timeout_ms as nat, self.ready))
        } else {
            self
        }
    }

    /// What a wait for the workers gives, if it is over.
    pub open spec fn wait_result(self, wait: StartupWait, now_ms: u64) -> Option<
        Result<bool, Seq<char>>,
    > {
        match self.waited(wait, now_ms).failure {
            Some(first) => Some(Err(first + "; reload the page to retry"@)),
            None => if !wait.dispatched {
                Some(Ok(false))
            } else if self.ready == NUM_WORKERS {
                Some(Ok(true))
            } else {
                None
            },
        }
    }
}

/// What a wait that is over time says.
pub open spec fn timeout_text(timeout_ms: nat, ready: nat) -> Seq<char> {
    "worker startup timed out after "@ + decimal_text(timeout_ms) + " ms ("@ + decimal_text(ready)
        + "/5 ready)"@
}

/// What a worker that failed says.
pub open spec fn worker_text(variant_id: nat, detail: Seq<char>) -> Seq<char> {
    "worker "@ + decimal_text(variant_id) + ": "@ + detail
}

impl View for Startup {
    type V = StartupView;

    closed spec fn view(&self) -> StartupView {
        StartupView {
            started: self.started,
            threaded: self.threaded,
            ready: self.ready as nat,
            failure: match self.failure {
                Some(message) => Some(message@),
                None => None,
            },
        }
    }
}

impl Startup {
    /// Nothing was started yet.
    pub fn new() -> (startup: Startup)
        ensures
            startup@ == (StartupView {
                started: false,
                threaded: false,
                ready: 0,
                failure: None,
            }),
    {
        Startup { started: false, threaded: false, ready: 0, failure: None }
    }

    /// Records a failure, unless there was one.
    pub fn worker_failed(&mut self, message: String)
        ensures
            final(self)@ == old(self)@.failed(message@),
    {
        if self.failure.is_none() {
            self.failure = Some(message);
        }
    }

    /// The script of worker `variant_id` failed, with `detail` if there is
    /// any.
    pub fn worker_script_failed(&mut self, variant_id: u32, detail: Option<String>)
        ensures
            final(self)@ == old(self)@.failed(
                worker_text(
                    variant_id as nat,
                    match detail {
                        Some(text) => text@,
                        None => "worker script failed"@,
                    },
                ),
            ),
    {
        let text = match detail {
            Some(text) => text,
            None => "worker script failed".to_owned(),
        };
        self.worker_reported(variant_id, Some(text));
    }

    /// Worker `variant_id` sent a message, with the error that it reports if it
    /// does.
    pub fn worker_reported(&mut self, variant_id: u32, error: Option<String>)
        ensures
            final(self)@ == (match error {
                Some(detail) => old(self)@.failed(worker_text(variant_id as nat, detail@)),
                None => old(self)@,
            }),
    {
        if let Some(detail) = error {
            let number = decimal(variant_id);
            let mut text = joined("worker ", number.as_str(), ": ");
            text.append(detail.as_str());
            self.worker_failed(text);
        }
    }

    /// Another worker is ready.
    pub fn worker_ready(&mut self)
        requires
            old(self)@.ready < u32::MAX,
        ensures
            final(self)@ == (StartupView { ready: old(self)@.ready + 1, ..old(self)@ }),
            final(self)@ == old(self)@.with_worker(),
    {
        self.ready = self.ready + 1;
    }

    /// The workers that are ready.
    pub fn workers_ready(&self) -> (ready: u32)
        ensures
            ready == self@.ready,
    {
        self.ready
    }

    /// Whether the workers are in use.
    pub fn is_threaded(&self) -> (threaded: bool)
        ensures
            threaded == self@.threaded,
    {
        self.threaded
    }

    /// The pool was made, or was not because of `error`. Returns whether workers
    /// were dispatched.
    pub fn pool_created(&mut self, error: Option<String>) -> (dispatched: bool)
        ensures
            dispatched == error is None,
            final(self)@ == old(self)@.pool_created(
                match error {
                    Some(e) => Some(e@),
                    None => None,
                },
            ),
    {
        match error {
            None => {
                self.threaded = true;
                true
            },
            Some(e) => {
                let text = "worker initialization failed: ".to_owned().concat(e.as_str());
                self.worker_failed(text);
                false
            },
        }
    }
}

/// Starts the workers. Without shared memory there are none, and the page's
/// thread does everything. Only the first call makes the pool.
pub fn __zenoh_init_threaded_runtime(startup: &mut Startup, sab_available: bool) -> (init: Init)
    ensures
        init == old(startup)@.init(sab_available),
        final(startup)@ == old(startup)@.after_init(sab_available),
{
    if !sab_available {
        return Init::Dispatched(false);
    }
    if startup.failure.is_some() {
        return Init::Dispatched(false);
    }
    if startup.started {
        return Init::Dispatched(true);
    }
    startup.started = true;
    Init::CreatePool
}

/// Waits until all workers are ready. It returns false only if there is no
/// shared memory; any failure, and a wait over time, is an error for good.
pub fn __zenoh_init_threaded_runtime_async(
    startup: &mut Startup,
    wait: &StartupWait,
    now_ms: u64,
) -> (step: InitStep)
    ensures
        final(startup)@ == old(startup)@.waited(*wait, now_ms),
        match (step, old(startup)@.wait_result(*wait, now_ms)) {
            (InitStep::Done(Ok(there)), Some(Ok(b))) => there == b,
            (InitStep::Done(Err(text)), Some(Err(t))) => text@ == t,
            (InitStep::Sleep, None) => true,
            _ => false,
        },
{
    if startup.failure.is_none() && wait.dispatched && startup.ready != NUM_WORKERS as u32
        && wait.since.elapsed(now_ms).as_millis() >= wait.timeout_ms as u128 {
        let limit = decimal(wait.timeout_ms);
        let ready = decimal(startup.ready);
        let mut text = joined("worker startup timed out after ", limit.as_str(), " ms (");
        text.append(ready.as_str());
        text.append("/5 ready)");
        startup.worker_failed(text);
    }
    if let Some(first) = &startup.failure {
        let text = first.clone().concat("; reload the page to retry");
        return InitStep::Done(Err(text));
    }
    if !wait.dispatched {
        return InitStep::Done(Ok(false));
    }
    if startup.ready == NUM_WORKERS as u32 {
        return InitStep::Done(Ok(true));
    }
    InitStep::Sleep
}

/// The script of a worker. It loads the shim whose address is the literal
/// `shim_literal`, shares the module and the memory that it is sent, and calls
/// its entry.
pub fn worker_script(shim_literal: &str) -> (script: String)
    ensures
        script@ == "self.onmessage = async function(e) {\n    const [module, memory, variant_id] = e.data;\n    try {\n        importScripts("@
            + shim_literal@
            + ");\n        await wasm_bindgen(module, memory);\n        wasm_bindgen.__zenoh_worker_entry(variant_id);\n    } catch(err) {\n        self.postMessage({ zenohWorkerError: String(err) });\n    }\n};"@,
{
    joined(
        "self.onmessage = async function(e) {\n    const [module, memory, variant_id] = e.data;\n    try {\n        importScripts(",
        shim_literal,
        ");\n        await wasm_bindgen(module, memory);\n        wasm_bindgen.__zenoh_worker_entry(variant_id);\n    } catch(err) {\n        self.postMessage({ zenohWorkerError: String(err) });\n    }\n};",
    )
}

/// Keeps the runtimes. The workers run until the page is left, so giving the
/// guard up ends nothing.
pub struct ZRuntimePoolGuard;

/// A failure is final. What failed first is what every later wait reports; no
/// pool is made and no future is spawned any more.
pub proof fn failures_are_final(
    startup: StartupView,
    sab_available: bool,
    error: Option<Seq<char>>,
    message: Seq<char>,
    wait: StartupWait,
    now_ms: u64,
    runtime: ZRuntime,
)
    requires
        startup.failure is Some,
    ensures
        startup.failed(message).failure == startup.failure,
        startup.after_init(sab_available).failure == startup.failure,
        startup.pool_created(error).failure == startup.failure,
        startup.waited(wait, now_ms).failure == startup.failure,
        startup.init(sab_available) == Init::Dispatched(false),
        startup.wait_result(wait, now_ms) == Some(
            Err::<bool, _>(startup.failure->0 + "; reload the page to retry"@),
        ),
        runtime.spec_route(startup) == Route::Dropped,
{
}

/// The pool is made at most once, whatever is called in between.
pub proof fn the_pool_is_made_once(
    startup: StartupView,
    sab_available: bool,
    error: Option<Seq<char>>,
    message: Seq<char>,
    wait: StartupWait,
    now_ms: u64,
)
    ensures
        startup.init(sab_available) == Init::CreatePool ==> !startup.started
            && startup.after_init(sab_available).started,
        startup.started ==> {
            &&& startup.init(sab_available) != Init::CreatePool
            &&& startup.after_init(sab_available).started
            &&& startup.failed(message).started
            &&& startup.pool_created(error).started
            &&& startup.waited(wait, now_ms).started
        },
{
}

/// A wait reports that there are no workers only if there is no shared memory:
/// `dispatched` is what the start of the workers returned, with `error` from
/// making the pool where it was made.
pub proof fn fallback_means_no_shared_memory(
    startup: StartupView,
    sab_available: bool,
    error: Option<Seq<char>>,
    wait: StartupWait,
    now_ms: u64,
)
    requires
        wait.dispatched == (match startup.init(sab_available) {
            Init::Dispatched(dispatched) => dispatched,
            Init::CreatePool => error is None,
        }),
    ensures
        ({
            let after = startup.after_init(sab_available);
            let dispatched = if startup.init(sab_available) == Init::CreatePool {
                after.pool_created(error)
            } else {
                after
            };
            dispatched.wait_result(wait, now_ms) == Some(Ok::<_, Seq<char>>(false))
                ==> !sab_available
        }),
{
}

/// A wait succeeds only if all workers are ready, and it ends: once the time is
/// over there is a result.
pub proof fn waits_end_with_all_workers_or_an_error(
    startup: StartupView,
    wait: StartupWait,
    now_ms: u64,
)
    ensures
        startup.wait_result(wait, now_ms) == Some(Ok::<_, Seq<char>>(true)) ==> startup.ready
            == NUM_WORKERS && startup.failure is None,
        now_ms >= wait.since.ms() + wait.timeout_ms ==> startup.wait_result(wait, now_ms) is Some,
{
}

/// While the workers are up and none has failed, a future goes to the worker of
/// the very runtime that it was spawned on. Without workers all futures share the
/// event loop, and after a failure none runs.
pub proof fn futures_go_to_their_own_runtime(
    runtime: ZRuntime,
    other: ZRuntime,
    startup: StartupView,
)
    ensures
        startup.failure is None && startup.threaded ==> {
            &&& runtime.spec_route(startup) == Route::Worker(runtime)
            &&& runtime.spec_route(startup) == other.spec_route(startup) ==> runtime == other
        },
        startup.failure is None && !startup.threaded ==> runtime.spec_route(startup)
            == Route::Local,
        startup.failure is Some <==> runtime.spec_route(startup) == Route::Dropped,
{
}

/// Sockets are served where there is an event loop: the worker of the acceptor
/// keeps it, and every other worker runs an executor.
pub proof fn only_the_acceptor_keeps_an_event_loop(runtime: ZRuntime)
    ensures
        runtime.spec_role() == WorkerRole::EventLoop <==> runtime == ZRuntime::Acceptor,
        runtime.spec_role() == WorkerRole::Executor <==> runtime != ZRuntime::Acceptor,
{
}

/// A task and its handle belong together: the value of the task comes out where
/// the handle waits, there is room for it, and the handle aborts that task.
pub proof fn tasks_report_to_their_handle<T>(ends: TaskEnds<T>, handle: JoinHandle<T>)
    requires
        ends.belong_to(handle),
    ensures
        ends.tx.inlet() == handle.results(),
        ends.tx.limit() == Some(1nat),
        handle.can_abort(ends.registration),
{
}

/// What failed is recorded, and what failed first is not overwritten. Nothing
/// else of the startup changes.
pub proof fn the_first_failure_is_recorded(
    startup: StartupView,
    first: Seq<char>,
    second: Seq<char>,
)
    ensures
        startup.failure is None ==> startup.failed(first).failure == Some(first),
        startup.failure is None ==> startup.failed(first).failed(second).failure == Some(first),
        startup.failed(first).started == startup.started,
        startup.failed(first).threaded == startup.threaded,
        startup.failed(first).ready == startup.ready,
{
}

/// The first start with shared memory makes the pool; once it is made, every
/// start reports that workers were dispatched, and futures go to them. A start
/// without shared memory reports that there are none, and changes nothing.
pub proof fn the_first_start_makes_the_pool(
    startup: StartupView,
    error: Seq<char>,
    runtime: ZRuntime,
)
    requires
        startup.failure is None,
    ensures
        !startup.started ==> startup.init(true) == Init::CreatePool,
        startup.started ==> startup.init(true) == Init::Dispatched(true),
        startup.init(false) == Init::Dispatched(false),
        startup.after_init(false) == startup,
        startup.after_init(true).started,
        startup.after_init(true).threaded == startup.threaded,
        startup.after_init(true).ready == startup.ready,
        startup.after_init(true).failure is None,
        ({
            let up = startup.after_init(true).pool_created(None);
            let down = startup.after_init(true).pool_created(Some(error));
            &&& up.threaded && up.failure is None && up.started && up.ready == startup.ready
            &&& up.init(true) == Init::Dispatched(true)
            &&& runtime.spec_route(up) == Route::Worker(runtime)
            &&& down.failure is Some && down.threaded == startup.threaded
            &&& down.init(true) == Init::Dispatched(false)
        }),
{
}

/// What a wait for the workers says: an error exactly if one failed or the time
/// is over before all are ready; otherwise that they are there if all are ready,
/// that there are none if none were dispatched, and nothing yet while some are
/// missing and there is time.
pub proof fn waits_say_what_became_of_the_workers(
    startup: StartupView,
    wait: StartupWait,
    now_ms: u64,
)
    ensures
        ({
            let over = now_ms >= wait.since.ms() + wait.timeout_ms || wait.timeout_ms == 0;
            let result = startup.wait_result(wait, now_ms);
            &&& startup.failure matches Some(text) ==> (result matches Some(Err(e)) && e.len()
                > text.len() && e.take(text.len() as int) == text)
            &&& startup.failure is None && !wait.dispatched ==> result == Some(
                Ok::<_, Seq<char>>(false),
            )
            &&& startup.failure is None && wait.dispatched && startup.ready == 5 ==> result
                == Some(Ok::<_, Seq<char>>(true))
            &&& startup.failure is None && wait.dispatched && startup.ready != 5 && !over
                ==> result is None
            &&& startup.failure is None && wait.dispatched && startup.ready != 5 && over
                ==> result matches Some(Err(_))
        }),
{
    reveal_strlit("; reload the page to retry");
    if let Some(text) = startup.failure {
        let whole = text + "; reload the page to retry"@;
        assert(whole.take(text.len() as int) =~= text);
    }
}

/// A wait that is over time is recorded as a failure, with the limit and the
/// workers that were ready; any other wait changes nothing.
pub proof fn waits_over_time_are_failures(startup: StartupView, wait: StartupWait, now_ms: u64)
    ensures
        startup.wait_result(wait, now_ms) matches Some(Err(_)) <==> startup.waited(
            wait,
            now_ms,
        ).failure is Some,
        !(startup.wait_result(wait, now_ms) matches Some(Err(_))) ==> startup.waited(wait, now_ms)
            == startup,
        startup.waited(wait, now_ms).ready == startup.ready,
        startup.waited(wait, now_ms).threaded == startup.threaded,
        startup.waited(wait, now_ms).started == startup.started,
        startup.failure is None && startup.waited(wait, now_ms).failure is Some
            ==> startup.waited(wait, now_ms).failure == Some(
            timeout_text(wait.timeout_ms as nat, startup.ready),
        ),
{
}

/// What a failed worker says ends with what it reported, so different reports
/// are told apart; and a timeout says the limit.
pub proof fn failure_texts_hold_the_report(
    variant_id: nat,
    detail: Seq<char>,
    other: Seq<char>,
    timeout_ms: nat,
    ready: nat,
)
    ensures
        worker_text(variant_id, detail).len() > detail.len(),
        worker_text(variant_id, detail).skip(
            worker_text(variant_id, detail).len() - detail.len(),
        ) == detail,
        worker_text(variant_id, detail) == worker_text(variant_id, other) ==> detail == other,
        worker_text(variant_id, detail).skip(7).take(decimal_text(variant_id).len() as int)
            == decimal_text(variant_id),
        timeout_text(timeout_ms, ready).skip(31).take(decimal_text(timeout_ms).len() as int)
            == decimal_text(timeout_ms),
        timeout_text(timeout_ms, ready).skip(
            (31 + decimal_text(timeout_ms).len() + 5) as int,
        ).take(decimal_text(ready).len() as int) == decimal_text(ready),
{
    reveal_strlit("worker ");
    reveal_strlit(": ");
    reveal_strlit("worker startup timed out after ");
    reveal_strlit(" ms (");
    let text = worker_text(variant_id, detail);
    assert(text.skip(text.len() - detail.len()) =~= detail);
    assert(text.skip(7).take(decimal_text(variant_id).len() as int) =~= decimal_text(variant_id));
    let same = worker_text(variant_id, other);
    if text == same {
        assert(same.skip(same.len() - other.len()) =~= other);
        assert(detail.len() == other.len());
    }
    let late = timeout_text(timeout_ms, ready);
    assert(late.skip(31).take(decimal_text(timeout_ms).len() as int) =~= decimal_text(timeout_ms));
    assert(late.skip((31 + decimal_text(timeout_ms).len() + 5) as int).take(
        decimal_text(ready).len() as int,
    ) =~= decimal_text(ready));
}

/// A thread that runs an event loop never blocks; one with an executor does, and
/// goes on with its tasks meanwhile.
pub proof fn event_loops_never_block(on_worker: bool)
    ensures
        block_plan(on_worker) == BlockPlan::BlockOn <==> on_worker,
        block_plan(on_worker) == BlockPlan::PollOnce <==> !on_worker,
{
}

/// A task for a runtime comes out at the worker of that very runtime.
pub proof fn tasks_come_out_at_their_worker<K>(
    pool: WorkerPool<K>,
    receivers: TaskReceivers<K>,
    runtime: ZRuntime,
    id: int,
)
    requires
        pool.serves(receivers),
    ensures
        pool.of(runtime).inlet() == receivers.of(runtime),
        0 <= id < 5 && all_runtimes()[id] == runtime ==> pool.of(runtime) == pool.workers()[id]
            && receivers.of(runtime) == receivers.receivers()[id],
{
    runtimes_are_numbered(runtime, runtime);
}

/// The workers are counted one by one: when all five have reported, and nothing
/// failed, a wait for them ends well, and not before.
pub proof fn five_workers_make_a_pool(startup: StartupView, wait: StartupWait, now_ms: u64)
    requires
        startup.failure is None,
        startup.ready == 0,
        wait.dispatched,
        now_ms < wait.since.ms() + wait.timeout_ms,
        wait.timeout_ms > 0,
    ensures
        ({
            let four = startup.with_worker().with_worker().with_worker().with_worker();
            &&& four.wait_result(wait, now_ms) is None
            &&& four.with_worker().wait_result(wait, now_ms) == Some(Ok::<_, Seq<char>>(true))
            &&& four.with_worker().failure is None
            &&& four.with_worker().threaded == startup.threaded
            &&& four.with_worker().started == startup.started
        }),
{
}

} // verus!
