//! Tasks that can be cancelled, and the controllers that own them.

use crate::cancel::{
    cancel, child_token, clone_token, follows, is_cancelled, new_token, token_cancelled,
    TokenState,
};
use crate::channel::{try_recv, Look, Received};
use crate::compat::timeout;
use crate::join::{needs_repoll, ChannelState, JoinHandle, JoinPoll, TimerPoll};
use crate::runtime::{Route, Spawned, Startup, TaskEnds, ZRuntime};
use tokio_util::sync::CancellationToken;
use vstd::prelude::*;

verus! {

/// How long dropping a task waits for it to end, in milliseconds.
pub const DROP_TIMEOUT_MS: u64 = 10_000;

/// Owns tasks: counts those that run, and can cancel all of them.
pub struct TaskController {
    task_count: usize,
    token: CancellationToken,
}

/// A task that a controller owns and can cancel.
#[verifier::reject_recursive_types(T)]
pub struct AbortableTask<T> {
    pub spawned: Spawned<Option<T>>,
    /// The future runs until this token is cancelled.
    pub token: CancellationToken,
}

/// How a controller goes on that terminates its tasks.
#[derive(Clone, Copy, Debug, PartialEq, Eq, Structural)]
pub enum TerminateAll {
    /// Wait for `terminate_all_async`, up to the timeout, while the executor
    /// goes on. `task_count` then says how many tasks are left.
    Wait,
    /// The thread cannot wait. This many tasks are left.
    Running(usize),
}

/// How `terminate_all_async` goes on.
#[derive(Clone, Copy, Debug, PartialEq, Eq, Structural)]
pub enum TerminateStep {
    /// No task is left.
    Done,
    /// Sleep for a millisecond, then take another step.
    Sleep,
}

impl Default for TaskController {
    /// A controller without tasks.
    fn default() -> (controller: TaskController)
        ensures
            controller.count() == 0,
            !controller.cancelled(),
    {
        TaskController { task_count: 0, token: new_token() }
    }
}

impl TaskController {
    /// The tasks that run.
    pub closed spec fn count(&self) -> nat {
        self.task_count as nat
    }

    /// Whether the tasks are known to be cancelled.
    pub closed spec fn cancelled(&self) -> bool {
        token_cancelled(self.token)
    }

    /// Whether `token` is cancelled as soon as the tasks are.
    pub closed spec fn leads(&self, token: CancellationToken) -> bool {
        follows(token, self.token)
    }

    /// Whether the tasks are cancelled as soon as `token` is.
    pub closed spec fn obeys(&self, token: CancellationToken) -> bool {
        follows(self.token, token)
    }

    /// The tokens that were given out are still cancelled with the tasks.
    pub open spec fn still_leads(&self, before: TaskController) -> bool {
        forall|token: CancellationToken| before.leads(token) ==> #[trigger] self.leads(token)
    }

    /// The token by which the tasks are cancelled.
    pub closed spec fn token(&self) -> CancellationToken {
        self.token
    }

    /// Whether the tasks are cancelled, which is what the controller's token
    /// answers. Others who hold the token may have cancelled them.
    pub fn is_cancelled(&self) -> (cancelled: (bool, TokenState))
        ensures
            cancelled.1.at() == self.token(),
            cancelled.0 == cancelled.1.answer(),
            self.cancelled() ==> cancelled.0,
    {
        let asked = is_cancelled(&self.token, &self.token);
        (asked.cancelled(), asked)
    }

    /// Whether `token` is cancelled. A token that was given out is if the tasks
    /// are.
    pub fn has_cancelled(&self, token: &CancellationToken) -> (cancelled: (bool, TokenState))
        ensures
            cancelled.1.at() == *token,
            cancelled.0 == cancelled.1.answer(),
            self.cancelled() && self.leads(*token) ==> cancelled.0,
    {
        let asked = is_cancelled(token, &self.token);
        (asked.cancelled(), asked)
    }

    /// A controller as text, whose tasks are cancelled or not.
    pub fn describe(cancelled: bool) -> (text: String)
        ensures
            text@ == (if cancelled {
                "TaskController { is_cancelled: true, .. }"@
            } else {
                "TaskController { is_cancelled: false, .. }"@
            }),
    {
        if cancelled {
            "TaskController { is_cancelled: true, .. }".to_owned()
        } else {
            "TaskController { is_cancelled: false, .. }".to_owned()
        }
    }

    /// The number of tasks that run.
    pub fn task_count(&self) -> (count: usize)
        ensures
            count == self.count(),
    {
        self.task_count
    }

    /// The token by which a future of this controller is cancelled. It is
    /// cancelled with the controller; cancelling it leaves the controller
    /// alone.
    pub fn into_abortable(&self) -> (token: CancellationToken)
        ensures
            self.leads(token),
            !self.obeys(token),
            token_cancelled(token) == self.cancelled(),
    {
        child_token(&self.token)
    }

    /// A token that is cancelled with the controller. Cancelling it leaves the
    /// controller alone.
    pub fn get_cancellation_token(&self) -> (token: CancellationToken)
        ensures
            self.leads(token),
            !self.obeys(token),
            token_cancelled(token) == self.cancelled(),
    {
        child_token(&self.token)
    }

    /// Spawns a future that is cancelled with the controller.
    pub fn spawn_abortable<T>(&mut self, startup: &Startup) -> (task: AbortableTask<T>)
        requires
            old(self).count() < usize::MAX,
        ensures
            task.spawned.route == ZRuntime::Application.spec_route(startup@),
            task.spawned.route matches Route::Worker(runtime) ==> runtime == ZRuntime::Application,
            final(self).has_spawned(*old(self), task.spawned),
            final(self).leads(task.token),
            !final(self).obeys(task.token),
            token_cancelled(task.token) == final(self).cancelled(),
    {
        self.spawn_abortable_with_rt(ZRuntime::Application, startup)
    }

    /// Spawns a future on `rt` that is cancelled with the controller.
    pub fn spawn_abortable_with_rt<T>(&mut self, rt: ZRuntime, startup: &Startup) -> (task:
        AbortableTask<T>)
        requires
            old(self).count() < usize::MAX,
        ensures
            task.spawned.route == rt.spec_route(startup@),
            task.spawned.route matches Route::Worker(runtime) ==> runtime == rt,
            final(self).has_spawned(*old(self), task.spawned),
            final(self).leads(task.token),
            !final(self).obeys(task.token),
            token_cancelled(task.token) == final(self).cancelled(),
    {
        let token = self.into_abortable();
        let spawned = self.spawn_with_rt::<Option<T>>(rt, startup);
        AbortableTask { spawned, token }
    }

    /// Spawns a future.
    pub fn spawn<T>(&mut self, startup: &Startup) -> (spawned: Spawned<T>)
        requires
            old(self).count() < usize::MAX,
        ensures
            spawned.route == ZRuntime::Application.spec_route(startup@),
            spawned.route matches Route::Worker(runtime) ==> runtime == ZRuntime::Application,
            final(self).has_spawned(*old(self), spawned),
    {
        self.spawn_with_rt(ZRuntime::Application, startup)
    }

    /// What spawning does to the controller: the task counts until it ends,
    /// and a future that is dropped ends at once.
    pub open spec fn has_spawned<T>(&self, before: TaskController, spawned: Spawned<T>) -> bool {
        &&& self.count() == before.count() + (if spawned.route == Route::Dropped {
            0nat
        } else {
            1nat
        })
        &&& self.cancelled() == before.cancelled()
        &&& self.still_leads(before)
        &&& forall|token: CancellationToken| #[trigger] self.obeys(token) == before.obeys(token)
        &&& spawned.ends is None <==> spawned.route == Route::Dropped
        &&& spawned.ends matches Some(ends) ==> ends.belong_to(spawned.handle)
        &&& !spawned.handle.repolls()
        &&& !spawned.handle.aborted()
    }

    /// Spawns a future on `rt`.
    pub fn spawn_with_rt<T>(&mut self, rt: ZRuntime, startup: &Startup) -> (spawned: Spawned<T>)
        requires
            old(self).count() < usize::MAX,
        ensures
            spawned.route == rt.spec_route(startup@),
            spawned.route matches Route::Worker(runtime) ==> runtime == rt,
            final(self).has_spawned(*old(self), spawned),
    {
        let spawned = rt.spawn::<T>(startup);
        if spawned.ends.is_some() {
            self.task_count = self.task_count + 1;
        }
        spawned
    }

    /// A task ended: it completed, or it was cancelled, aborted or dropped,
    /// before its first turn or after.
    pub fn task_ended(&mut self)
        requires
            old(self).count() > 0,
        ensures
            final(self).count() == old(self).count() - 1,
            final(self).cancelled() == old(self).cancelled(),
            final(self).still_leads(*old(self)),
    {
        self.task_count = self.task_count - 1;
    }

    /// Cancels all tasks. A thread that `can_wait` then waits for them; another
    /// one learns at once how many run.
    pub fn terminate_all(&mut self, can_wait: bool) -> (next: TerminateAll)
        ensures
            final(self).cancelled(),
            final(self).still_leads(*old(self)),
            final(self).count() == old(self).count(),
            next == (if can_wait {
                TerminateAll::Wait
            } else {
                TerminateAll::Running(old(self).count() as usize)
            }),
            next.is_all(old(self).count(), can_wait),
    {
        cancel(&mut self.token);
        if can_wait {
            TerminateAll::Wait
        } else {
            TerminateAll::Running(self.task_count)
        }
    }

    /// Cancels all tasks and waits until none is left.
    pub fn terminate_all_async(&mut self) -> (step: TerminateStep)
        ensures
            final(self).cancelled(),
            final(self).still_leads(*old(self)),
            final(self).count() == old(self).count(),
            step == (if old(self).count() == 0 {
                TerminateStep::Done
            } else {
                TerminateStep::Sleep
            }),
            step.is_step(old(self).count()),
    {
        cancel(&mut self.token);
        if self.task_count == 0 {
            TerminateStep::Done
        } else {
            TerminateStep::Sleep
        }
    }
}

impl TerminateAll {
    /// How a controller with `count` tasks goes on.
    pub open spec fn is_all(self, count: nat, can_wait: bool) -> bool {
        match self {
            TerminateAll::Wait => can_wait,
            TerminateAll::Running(left) => !can_wait && left == count,
        }
    }
}

impl TerminateStep {
    /// How the wait for `count` tasks goes on.
    pub open spec fn is_step(self, count: nat) -> bool {
        match self {
            TerminateStep::Done => count == 0,
            TerminateStep::Sleep => count > 0,
        }
    }
}

/// A task that its owner can terminate.
pub struct TerminatableTask {
    handle: Option<JoinHandle<()>>,
    token: CancellationToken,
}

/// A task that is being spawned for its owner.
pub struct NewTask {
    pub task: TerminatableTask,
    pub route: Route,
    /// The task's side, unless the future is dropped.
    pub ends: Option<TaskEnds<()>>,
}

/// A task that is being spawned for its owner, and ends when `token` is
/// cancelled.
pub struct NewAbortableTask {
    pub new: NewTask,
    pub token: CancellationToken,
}

/// How `terminate` goes on.
#[derive(Clone, Copy, Debug, PartialEq, Eq, Structural)]
pub enum Terminate {
    /// Wait for `terminate_async`, up to the timeout, while the executor goes
    /// on.
    Wait,
    /// The thread cannot wait. The task has finished, or not yet.
    Finished(bool),
}

/// How `terminate_async` goes on.
#[derive(Clone, Copy, Debug, PartialEq, Eq, Structural)]
pub enum Termination {
    /// The task has ended.
    Done,
    /// Poll the repoll timer, which is to be started first if `start` is set,
    /// and report it by `timer_polled`.
    PollTimer { start: bool },
    /// Poll the future that receives the task's result, and report it by
    /// `receiver_polled`.
    PollReceiver,
}

/// How the wait for a task goes on in whose channel `found` was found. `repolls`
/// says whether a repoll timer is running for it.
pub open spec fn termination(
    found: Received<()>,
    repolls: bool,
    threaded: bool,
    on_worker: bool,
) -> Termination {
    match found {
        Received::Empty => if needs_repoll(threaded, on_worker) {
            Termination::PollTimer { start: !repolls }
        } else {
            Termination::PollReceiver
        },
        _ => Termination::Done,
    }
}

/// What dropping a task asks for.
#[derive(Clone, Copy, Debug, PartialEq, Eq, Structural)]
pub enum DropAction {
    /// Nothing: the task was cancelled.
    Cancelled,
    /// Terminate the task, waiting up to this many milliseconds.
    Terminate(u64),
}

impl Terminate {
    /// How the termination of a task goes on whose result comes from `results`,
    /// once its channel was `asked`.
    pub open spec fn is_terminate(
        self,
        results: Option<flume::Receiver<()>>,
        asked: Option<ChannelState<()>>,
        can_wait: bool,
    ) -> bool {
        match self {
            Terminate::Wait => can_wait && asked is None,
            Terminate::Finished(true) => !can_wait && (results is None || (
            asked matches Some(state) && state.finished() && state.at(results->Some_0))),
            Terminate::Finished(false) => !can_wait && results is Some && (
            asked matches Some(state) && !state.finished() && state.at(results->Some_0)),
        }
    }
}

impl DropAction {
    /// What giving a task up asks for. `joinable` says whether its end was not
    /// seen yet.
    pub open spec fn is_drop(
        self,
        joinable: bool,
        can_wait: bool,
        task: u64,
        current: Option<u64>,
    ) -> bool {
        match self {
            DropAction::Cancelled => !can_wait || (joinable && current == Some(task)),
            DropAction::Terminate(ms) => can_wait && !(joinable && current == Some(task)) && ms
                == 10_000,
        }
    }
}

/// What a wait with a deadline comes to.
pub open spec fn is_wait(completed: bool, deadline_over: bool, result: Option<bool>) -> bool {
    match result {
        Some(done) => done == completed && (completed || deadline_over),
        None => !completed && !deadline_over,
    }
}

impl TerminatableTask {
    /// Whether the end of the task can be waited for: it has not been seen
    /// yet.
    pub open spec fn has_handle(&self) -> bool {
        self.results() is Some
    }

    /// Where the result of the task comes from, while its end can be waited for.
    pub closed spec fn results(&self) -> Option<flume::Receiver<()>> {
        match self.handle {
            Some(handle) => Some(handle.results()),
            None => None,
        }
    }

    /// Whether the task with these ends is the one whose end is waited for.
    pub closed spec fn joins(&self, ends: TaskEnds<()>) -> bool {
        self.handle matches Some(handle) && ends.belong_to(handle)
    }

    /// The end of the task can be waited for as before.
    pub open spec fn still_joins(&self, before: TerminatableTask) -> bool {
        forall|ends: TaskEnds<()>| before.joins(ends) ==> #[trigger] self.joins(ends)
    }

    /// Whether `token` is cancelled as soon as the task is.
    pub closed spec fn leads(&self, token: CancellationToken) -> bool {
        follows(token, self.token)
    }

    /// The tokens that were given out are still cancelled with the task.
    pub open spec fn still_leads(&self, before: TerminatableTask) -> bool {
        forall|token: CancellationToken| before.leads(token) ==> #[trigger] self.leads(token)
    }

    /// Whether a repoll timer is running for the task.
    pub closed spec fn repolls(&self) -> bool {
        self.handle is Some && self.handle->0.repolls()
    }

    /// Whether the task is known to be cancelled.
    pub closed spec fn cancelled(&self) -> bool {
        token_cancelled(self.token)
    }

    /// The token by which the task is cancelled.
    pub closed spec fn token(&self) -> CancellationToken {
        self.token
    }

    /// Whether the task is cancelled, which is what its token answers. Others who
    /// hold the token may have cancelled it.
    pub fn is_cancelled(&self) -> (cancelled: (bool, TokenState))
        ensures
            cancelled.1.at() == self.token(),
            cancelled.0 == cancelled.1.answer(),
            self.cancelled() ==> cancelled.0,
    {
        let asked = is_cancelled(&self.token, &self.token);
        (asked.cancelled(), asked)
    }

    /// Whether `token` is cancelled. A token that was given out is if the task
    /// is.
    pub fn has_cancelled(&self, token: &CancellationToken) -> (cancelled: (bool, TokenState))
        ensures
            cancelled.1.at() == *token,
            cancelled.0 == cancelled.1.answer(),
            self.cancelled() && self.leads(*token) ==> cancelled.0,
    {
        let asked = is_cancelled(token, &self.token);
        (asked.cancelled(), asked)
    }

    /// A task as text, which is cancelled or not.
    pub fn describe(cancelled: bool) -> (text: String)
        ensures
            text@ == (if cancelled {
                "TerminatableTask { is_cancelled: true, .. }"@
            } else {
                "TerminatableTask { is_cancelled: false, .. }"@
            }),
    {
        if cancelled {
            "TerminatableTask { is_cancelled: true, .. }".to_owned()
        } else {
            "TerminatableTask { is_cancelled: false, .. }".to_owned()
        }
    }

    /// A token for `spawn`.
    pub fn create_cancellation_token() -> (token: CancellationToken)
        ensures
            !token_cancelled(token),
    {
        new_token()
    }

    /// Spawns a future on `rt` that watches `token`.
    pub fn spawn(rt: ZRuntime, startup: &Startup, token: CancellationToken) -> (new: NewTask)
        ensures
            new.route == rt.spec_route(startup@),
            new.route matches Route::Worker(runtime) ==> runtime == rt,
            new.ends is None <==> new.route == Route::Dropped,
            new.ends matches Some(ends) ==> new.task.joins(ends),
            new.task.has_handle(),
            !new.task.repolls(),
            new.task.token() == token,
            new.task.cancelled() == token_cancelled(token),
            forall|t: CancellationToken| #[trigger] new.task.leads(t) == follows(t, token),
    {
        let spawned = rt.spawn::<()>(startup);
        NewTask {
            task: TerminatableTask { handle: Some(spawned.handle), token },
            route: spawned.route,
            ends: spawned.ends,
        }
    }

    /// Spawns a future on `rt` that ends when its token is cancelled.
    pub fn spawn_abortable(rt: ZRuntime, startup: &Startup) -> (new: NewAbortableTask)
        ensures
            new.new.route == rt.spec_route(startup@),
            new.new.route matches Route::Worker(runtime) ==> runtime == rt,
            new.new.ends is None <==> new.new.route == Route::Dropped,
            new.new.ends matches Some(ends) ==> new.new.task.joins(ends),
            new.new.task.has_handle(),
            new.new.task.leads(new.token),
            !new.new.task.repolls(),
            !new.new.task.cancelled(),
            !token_cancelled(new.token),
    {
        let token = new_token();
        let same = clone_token(&token);
        NewAbortableTask { new: Self::spawn(rt, startup, token), token: same }
    }

    /// The end of the channel on which the task's result is awaited.
    pub fn receiver(&self) -> (receiver: Option<&flume::Receiver<()>>)
        ensures
            match (receiver, self.results()) {
                (Some(r), Some(results)) => *r == results,
                (None, None) => true,
                _ => false,
            },
            forall|ends: TaskEnds<()>| #[trigger]
                self.joins(ends) ==> receiver == Some(&ends.tx.inlet()),
    {
        match &self.handle {
            Some(handle) => Some(handle.receiver()),
            None => None,
        }
    }

    /// Cancels the task. A thread that `can_wait` then waits for its end;
    /// another one learns at once whether it has finished, by asking the channel
    /// of its result. The handle is kept, so that the end can be waited for
    /// later.
    pub fn terminate(&mut self, can_wait: bool) -> (next: (Terminate, Option<ChannelState<()>>))
        ensures
            final(self).cancelled(),
            final(self).still_leads(*old(self)),
            final(self).has_handle() == old(self).has_handle(),
            final(self).still_joins(*old(self)),
            final(self).results() == old(self).results(),
            final(self).repolls() == old(self).repolls(),
            match (old(self).results(), next.1) {
                (Some(results), Some(asked)) => {
                    &&& !can_wait
                    &&& asked.at(results)
                    &&& next.0 == Terminate::Finished(asked.finished())
                },
                (None, None) => next.0 == (if can_wait {
                    Terminate::Wait
                } else {
                    Terminate::Finished(true)
                }),
                (Some(_), None) => can_wait && next.0 == Terminate::Wait,
                (None, Some(_)) => false,
            },
            next.0.is_terminate(old(self).results(), next.1, can_wait),
    {
        cancel(&mut self.token);
        if can_wait {
            return (Terminate::Wait, None);
        }
        let (finished, asked) = self.is_finished();
        (Terminate::Finished(finished), asked)
    }

    /// Whether the task has ended: its end was seen, or the channel of its result
    /// shows it.
    pub fn is_finished(&self) -> (finished: (bool, Option<ChannelState<()>>))
        ensures
            match (self.results(), finished.1) {
                (Some(results), Some(asked)) => asked.at(results) && finished.0
                    == asked.finished(),
                (None, None) => finished.0,
                _ => false,
            },
    {
        match &self.handle {
            Some(handle) => {
                let (task_finished, asked) = handle.is_finished();
                (self.finished(task_finished), Some(asked))
            },
            None => (true, None),
        }
    }

    /// Whether the end of the task was seen, or can be seen now: `task_finished`
    /// is what its handle, if there is one, says.
    pub fn finished(&self, task_finished: bool) -> (finished: bool)
        ensures
            finished == (!self.has_handle() || task_finished),
    {
        self.handle.is_none() || task_finished
    }

    /// Whether a wait with a deadline is over, and if it is, whether it
    /// completed. A wait that completes just when its deadline comes did
    /// complete.
    pub fn terminate_async_timeout(completed: bool, deadline_over: bool) -> (result: Option<bool>)
        ensures
            result == (if completed {
                Some(true)
            } else if deadline_over {
                Some(false)
            } else {
                None
            }),
            is_wait(completed, deadline_over, result),
    {
        wait_with_timeout(completed, deadline_over)
    }

    /// Goes on with waiting for the end of the task, once `received` was found
    /// in its channel.
    pub fn terminate_received(
        &mut self,
        received: Received<()>,
        threaded: bool,
        on_worker: bool,
    ) -> (next: Termination)
        requires
            old(self).has_handle(),
        ensures
            next == termination(received, old(self).repolls(), threaded, on_worker),
            final(self).has_handle() == (next != Termination::Done),
            next != Termination::Done ==> final(self).still_joins(*old(self)),
            final(self).repolls() == (next != Termination::Done && (needs_repoll(
                threaded,
                on_worker,
            ) || old(self).repolls())),
            final(self).cancelled() == old(self).cancelled(),
            final(self).still_leads(*old(self)),
    {
        let next = match &mut self.handle {
            Some(handle) => match handle.poll_received(received, threaded, on_worker) {
                JoinPoll::Ready(_) => Termination::Done,
                JoinPoll::PollTimer { start } => Termination::PollTimer { start },
                JoinPoll::PollReceiver => Termination::PollReceiver,
            },
            None => Termination::Done,
        };
        if let Termination::Done = next {
            self.handle = None;
        }
        next
    }

    /// Cancels the task and waits for its end: looks into the channel of its
    /// result, and goes by what is found there. The handle is given up only when
    /// the task has ended: if the wait is dropped, or runs into a deadline, the
    /// end can still be waited for.
    pub fn terminate_async(&mut self, threaded: bool, on_worker: bool) -> (next: (
        Termination,
        Option<Look<()>>,
    ))
        ensures
            final(self).cancelled(),
            final(self).still_leads(*old(self)),
            final(self).has_handle() == (next.0 != Termination::Done),
            next.0 != Termination::Done ==> final(self).still_joins(*old(self)),
            match (old(self).results(), next.1) {
                (Some(results), Some(look)) => {
                    &&& look.at() == results
                    &&& next.0 == termination(
                        look.found(),
                        old(self).repolls(),
                        threaded,
                        on_worker,
                    )
                    &&& final(self).repolls() == (next.0 != Termination::Done && (needs_repoll(
                        threaded,
                        on_worker,
                    ) || old(self).repolls()))
                },
                (None, None) => next.0 == Termination::Done,
                _ => false,
            },
    {
        cancel(&mut self.token);
        let (received, look) = match &self.handle {
            Some(handle) => try_recv(handle.receiver()),
            None => return (Termination::Done, None),
        };
        (self.terminate_received(received, threaded, on_worker), Some(look))
    }

    /// The repoll timer was polled, and `over` says whether it is over.
    pub fn timer_polled(&mut self, over: bool) -> (next: TimerPoll)
        requires
            old(self).repolls(),
        ensures
            next == (if over {
                TimerPoll::DropAndWake
            } else {
                TimerPoll::Pending
            }),
            final(self).has_handle(),
            final(self).still_joins(*old(self)),
            final(self).still_leads(*old(self)),
            final(self).repolls() == !over,
            final(self).cancelled() == old(self).cancelled(),
    {
        match &mut self.handle {
            Some(handle) => handle.timer_polled(over),
            None => TimerPoll::Pending,
        }
    }

    /// The future that receives the task's result was polled, and `ended` says
    /// whether it is over.
    pub fn receiver_polled(&mut self, ended: bool) -> (next: Termination)
        requires
            old(self).has_handle(),
        ensures
            next == (if ended {
                Termination::Done
            } else {
                Termination::PollReceiver
            }),
            final(self).has_handle() == !ended,
            !ended ==> final(self).still_joins(*old(self)),
            final(self).still_leads(*old(self)),
            final(self).repolls() == (!ended && old(self).repolls()),
            final(self).cancelled() == old(self).cancelled(),
    {
        if ended {
            self.handle = None;
            Termination::Done
        } else {
            Termination::PollReceiver
        }
    }

    /// The owner gives the task up. A thread that `can_wait` terminates it,
    /// except if it is the task that is running, which cannot wait for itself:
    /// `task` is its own number and `current` that of the running task.
    /// Another thread only cancels it.
    pub fn dropped(&mut self, can_wait: bool, task: u64, current: Option<u64>) -> (action:
        DropAction)
        ensures
            action == (if !can_wait || (old(self).has_handle() && current == Some(task)) {
                DropAction::Cancelled
            } else {
                DropAction::Terminate(DROP_TIMEOUT_MS)
            }),
            action.is_drop(old(self).has_handle(), can_wait, task, current),
            action == DropAction::Cancelled ==> final(self).cancelled(),
            final(self).has_handle() == old(self).has_handle(),
            final(self).still_joins(*old(self)),
            final(self).repolls() == old(self).repolls(),
            old(self).cancelled() ==> final(self).cancelled(),
            final(self).still_leads(*old(self)),
    {
        let own: bool = self.handle.is_some() && match current {
            Some(id) => id == task,
            None => false,
        };
        if !can_wait || own {
            cancel(&mut self.token);
            DropAction::Cancelled
        } else {
            DropAction::Terminate(DROP_TIMEOUT_MS)
        }
    }
}

/// Whether a wait with a deadline is over, and if it is, whether it completed.
/// Completion comes first.
pub fn wait_with_timeout(completed: bool, deadline_over: bool) -> (result: Option<bool>)
    ensures
        result == (if completed {
            Some(true)
        } else if deadline_over {
            Some(false)
        } else {
            None
        }),
        is_wait(completed, deadline_over, result),
{
    let value: Option<()> = if completed {
        Some(())
    } else {
        None
    };
    match timeout(value, deadline_over) {
        Some(Ok(_)) => Some(true),
        Some(Err(_)) => Some(false),
        None => None,
    }
}

/// The wait for a task ends exactly when its result or the loss of its sender was
/// found; a task that still runs is waited for.
pub proof fn waits_end_with_the_task(
    found: Received<()>,
    repolls: bool,
    threaded: bool,
    on_worker: bool,
)
    ensures
        termination(found, repolls, threaded, on_worker) == Termination::Done <==> found
            != Received::<()>::Empty,
        termination(Received::Empty, repolls, threaded, true) == Termination::PollReceiver,
        termination(Received::Empty, repolls, false, on_worker) == Termination::PollReceiver,
        termination(Received::Empty, repolls, true, false) == (Termination::PollTimer {
            start: !repolls,
        }),
{
}

/// A controller counts each task that it spawns, but not a future that is
/// dropped at once, and loses none of its tokens. The task reports to the handle
/// that is handed out, and to no other, and was not aborted.
pub proof fn controllers_count_what_they_spawn<T>(
    after: TaskController,
    before: TaskController,
    spawned: Spawned<T>,
    token: CancellationToken,
)
    requires
        after.has_spawned(before, spawned),
    ensures
        spawned.ends is Some ==> after.count() == before.count() + 1,
        spawned.ends is None ==> after.count() == before.count() && spawned.route
            == Route::Dropped,
        spawned.route == Route::Dropped ==> spawned.ends is None,
        after.cancelled() == before.cancelled(),
        before.leads(token) ==> after.leads(token),
        after.obeys(token) == before.obeys(token),
        !spawned.handle.aborted(),
        !spawned.handle.repolls(),
        spawned.ends matches Some(ends) ==> ends.tx.inlet() == spawned.handle.results()
            && spawned.handle.can_abort(ends.registration),
{
}

/// Tokens that were given out stay with the controller and with the task.
pub proof fn tokens_stay_with_their_leader(
    controller: TaskController,
    controller_before: TaskController,
    task: TerminatableTask,
    task_before: TerminatableTask,
    token: CancellationToken,
    ends: TaskEnds<()>,
)
    ensures
        controller.still_leads(controller_before) && controller_before.leads(token)
            ==> controller.leads(token),
        task.still_leads(task_before) && task_before.leads(token) ==> task.leads(token),
        task.still_joins(task_before) && task_before.joins(ends) ==> task.joins(ends),
{
}

/// A task that is waited for is the one with these ends: its value goes to the
/// channel on which its owner waits.
pub proof fn owners_wait_for_their_own_task(task: TerminatableTask, ends: TaskEnds<()>)
    requires
        task.joins(ends),
    ensures
        task.has_handle(),
        task.results() == Some(ends.tx.inlet()),
{
}

/// A task has a handle exactly while its end can be waited for.
pub proof fn handles_are_for_waiting(task: TerminatableTask)
    ensures
        task.has_handle() <==> task.results() is Some,
        task.repolls() ==> task.has_handle(),
{
}

/// Waiting for all tasks is over exactly when none is left, and a thread that
/// cannot wait learns how many are.
pub proof fn all_tasks_are_waited_for(
    count: nat,
    can_wait: bool,
    next: TerminateAll,
    step: TerminateStep,
)
    ensures
        next.is_all(count, can_wait) ==> (next == TerminateAll::Wait <==> can_wait),
        next.is_all(count, false) ==> (next matches TerminateAll::Running(left) && left == count),
        step.is_step(count) ==> (step == TerminateStep::Done <==> count == 0),
{
}

/// A task never waits for itself, a thread that cannot wait never does, and
/// otherwise whoever gives a task up waits for its end for up to ten seconds.
pub proof fn tasks_do_not_wait_for_themselves(
    action: DropAction,
    joinable: bool,
    can_wait: bool,
    task: u64,
    current: Option<u64>,
)
    requires
        action.is_drop(joinable, can_wait, task, current),
    ensures
        joinable && current == Some(task) ==> action == DropAction::Cancelled,
        !can_wait ==> action == DropAction::Cancelled,
        can_wait && current != Some(task) ==> action == DropAction::Terminate(10_000),
        can_wait && !joinable ==> action == DropAction::Terminate(10_000),
{
}

/// A wait that completes is never reported as late, and one that does not
/// complete is reported exactly when its time is over.
pub proof fn completed_waits_are_not_late(
    completed: bool,
    deadline_over: bool,
    result: Option<bool>,
)
    requires
        is_wait(completed, deadline_over, result),
    ensures
        completed <==> result == Some(true),
        !completed && deadline_over <==> result == Some(false),
        !completed && !deadline_over <==> result is None,
{
}

/// A thread that cannot wait is told that a task has finished exactly if its end
/// was seen, or its own channel holds a result or has lost its sender.
pub proof fn finished_tasks_are_reported(
    next: Terminate,
    results: Option<flume::Receiver<()>>,
    asked: Option<ChannelState<()>>,
    can_wait: bool,
)
    requires
        next.is_terminate(results, asked, can_wait),
    ensures
        can_wait <==> next == Terminate::Wait,
        !can_wait && results is None ==> next == Terminate::Finished(true),
        !can_wait && results is Some ==> (asked matches Some(state) && {
            &&& state.empty.at() == results->Some_0
            &&& state.senders.at() == results->Some_0
            &&& next == Terminate::Finished(!state.empty.answer() || state.senders.answer())
        }),
{
}

} // verus!
