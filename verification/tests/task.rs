use std::future::Future;
use std::task::Poll;
use tokio_util::sync::CancellationToken;
use zenoh_wasm::channel::Received;
use zenoh_wasm::join::{task_ended, JoinPoll, TimerPoll};
use zenoh_wasm::runtime::{Route, Startup, ZRuntime};
use zenoh_wasm::task::{
    wait_with_timeout, DropAction, TaskController, TerminatableTask, Terminate, TerminateAll,
    TerminateStep, Termination,
};

#[test]
fn cancelled_termination_keeps_the_join_handle() {
    let startup = Startup::new();
    let new = TerminatableTask::spawn(ZRuntime::Application, &startup, CancellationToken::new());
    let mut task = new.task;
    // The wait runs into its deadline after 10 ms.
    assert_eq!(task.terminate_async(false, false).0, Termination::PollReceiver);
    assert_eq!(TerminatableTask::terminate_async_timeout(false, true), Some(false));
    let retained = task.receiver().is_some();
    task_ended(new.ends.unwrap().tx, Some(()));
    assert_eq!(task.terminate_async(false, false).0, Termination::Done);
    assert!(retained, "a canceled wait must not detach the task");
    assert!(task.receiver().is_none());
}

#[test]
fn dropping_its_own_handle_does_not_wait_for_itself() {
    let startup = Startup::new();
    let token = CancellationToken::new();
    let new = TerminatableTask::spawn(ZRuntime::Application, &startup, token.clone());
    let mut task = new.task;
    assert_eq!(
        task.dropped(true, 4, Some(4)),
        DropAction::Cancelled,
        "dropping the current task's owner must not self-join"
    );
    assert!(token.is_cancelled());
}

#[test]
fn dropping_another_task_terminates_it() {
    let startup = Startup::new();
    let token = CancellationToken::new();
    let new = TerminatableTask::spawn(ZRuntime::Application, &startup, token.clone());
    let mut task = new.task;
    assert_eq!(task.dropped(true, 4, Some(5)), DropAction::Terminate(10_000));
    assert_eq!(task.dropped(true, 4, None), DropAction::Terminate(10_000));
    assert_eq!(task.dropped(false, 4, None), DropAction::Cancelled);
    assert!(token.is_cancelled());
}

#[test]
fn cancelled_shutdown_retains_the_join_handle() {
    let startup = Startup::new();
    let token = TerminatableTask::create_cancellation_token();
    let new = TerminatableTask::spawn(ZRuntime::Application, &startup, token);
    let mut task = new.task;
    assert_eq!(task.terminate(false).0, Terminate::Finished(false));
    assert!(!task.is_finished().0);
    assert_eq!(task.terminate(true).0, Terminate::Wait);
    assert_eq!(task.terminate_async(true, false).0, Termination::PollTimer { start: true });
    assert_eq!(task.timer_polled(false), TimerPoll::Pending);
    assert_eq!(task.terminate_async(true, false).0, Termination::PollTimer { start: false });
    assert_eq!(task.timer_polled(true), TimerPoll::DropAndWake);
    assert_eq!(wait_with_timeout(false, true), Some(false));
    assert_eq!(task.terminate(false).0, Terminate::Finished(false));
    task_ended(new.ends.unwrap().tx, Some(()));
    assert_eq!(task.terminate(false).0, Terminate::Finished(true));
    assert_eq!(task.terminate_async(true, false).0, Termination::Done);
    assert_eq!(wait_with_timeout(true, false), Some(true));
    assert_eq!(task.terminate(false).0, Terminate::Finished(true));
    assert!(task.is_finished().0 && task.is_finished().1.is_none());
    // Repeated termination is idempotent, including a zero-duration deadline.
    assert_eq!(task.terminate_async(true, false).0, Termination::Done);
    assert_eq!(wait_with_timeout(true, true), Some(true));
    assert_eq!(wait_with_timeout(false, false), None);
}

#[test]
fn termination_follows_what_was_received() {
    let startup = Startup::new();
    let new = TerminatableTask::spawn(ZRuntime::Net, &startup, CancellationToken::new());
    let mut task = new.task;
    assert_eq!(
        task.terminate_received(Received::Empty, true, true),
        Termination::PollReceiver
    );
    assert!(!task.finished(false));
    assert!(task.finished(true));
    assert_eq!(task.receiver_polled(false), Termination::PollReceiver);
    assert_eq!(task.receiver_polled(true), Termination::Done);
    assert!(task.finished(false));
    let mut other =
        TerminatableTask::spawn(ZRuntime::Net, &startup, CancellationToken::new()).task;
    assert_eq!(
        other.terminate_received(Received::Disconnected, true, false),
        Termination::Done
    );
}

#[test]
fn abortable_tasks_watch_their_token() {
    let startup = Startup::new();
    let mut abortable = TerminatableTask::spawn_abortable(ZRuntime::RX, &startup);
    assert_eq!(abortable.new.route, Route::Local);
    assert!(!abortable.token.is_cancelled());
    assert!(!abortable.new.task.is_cancelled().0);
    abortable.new.task.terminate(false);
    assert!(abortable.token.is_cancelled());
    assert!(abortable.new.task.is_cancelled().0);
    assert!(abortable.new.task.has_cancelled(&abortable.token).0);
}

#[test]
fn cancelling_a_controller_cancels_what_it_gave_out() {
    let startup = Startup::new();
    let mut controller = TaskController::default();
    assert!(!controller.is_cancelled().0);
    let token = controller.get_cancellation_token();
    let task = controller.spawn_abortable::<u8>(&startup);
    assert!(!controller.has_cancelled(&token).0);
    controller.terminate_all(false);
    let (cancelled, asked) = controller.has_cancelled(&token);
    assert!(cancelled && asked.cancelled());
    assert!(controller.has_cancelled(&task.token).0);
    assert!(controller.is_cancelled().1.cancelled());
}

#[test]
fn cancellation_after_poll_and_child_isolation() {
    let mut controller = TaskController::default();
    let first = controller.get_cancellation_token();
    let second = controller.into_abortable();
    first.cancel();
    assert!(!controller.is_cancelled().0);
    assert!(!second.is_cancelled());
    let waker = futures::task::noop_waker();
    let mut context = std::task::Context::from_waker(&waker);
    let mut run = Box::pin(second.run_until_cancelled_owned(std::future::pending::<()>()));
    assert_eq!(run.as_mut().poll(&mut context), Poll::Pending);
    assert_eq!(controller.terminate_all(false), TerminateAll::Running(0));
    assert_eq!(run.as_mut().poll(&mut context), Poll::Ready(None));
    assert!(controller.is_cancelled().0);
    assert!(controller.get_cancellation_token().is_cancelled());
    assert!(controller.has_cancelled(&controller.get_cancellation_token()).0);
    assert!(!controller.has_cancelled(&CancellationToken::new()).0);
}

#[test]
fn abort_before_first_poll_releases_task_controller_count() {
    let startup = Startup::new();
    let mut controller = TaskController::default();
    let task = controller.spawn_abortable::<()>(&startup);
    let mut handle = task.spawned.handle;
    assert_eq!(controller.task_count(), 1);
    handle.abort();
    // The aborted task is dropped, and with it its sender.
    controller.task_ended();
    drop(task.spawned.ends);
    assert!(matches!(handle.poll(false, false).0, JoinPoll::Ready(Err(_))));
    assert_eq!(controller.terminate_all_async(), TerminateStep::Done);
    assert_eq!(controller.terminate_all(false), TerminateAll::Running(0));
}

#[test]
fn controllers_count_their_tasks() {
    let startup = Startup::new();
    let mut controller = TaskController::default();
    let _first = controller.spawn::<u8>(&startup);
    let second = controller.spawn_with_rt::<u8>(ZRuntime::TX, &startup);
    let third = controller.spawn_abortable_with_rt::<u8>(ZRuntime::RX, &startup);
    assert_eq!(second.route, Route::Local);
    assert!(!third.token.is_cancelled());
    assert_eq!(controller.task_count(), 3);
    assert_eq!(controller.terminate_all_async(), TerminateStep::Sleep);
    assert!(third.token.is_cancelled());
    assert_eq!(controller.terminate_all(true), TerminateAll::Wait);
    controller.task_ended();
    controller.task_ended();
    assert_eq!(controller.terminate_all(false), TerminateAll::Running(1));
    controller.task_ended();
    assert_eq!(controller.terminate_all_async(), TerminateStep::Done);
}

#[test]
fn dropped_futures_do_not_count() {
    let mut startup = Startup::new();
    startup.worker_failed("gone".to_owned());
    let mut controller = TaskController::default();
    let spawned = controller.spawn::<u8>(&startup);
    assert_eq!(spawned.route, Route::Dropped);
    assert_eq!(controller.task_count(), 0);
}

#[test]
fn tasks_are_described() {
    assert_eq!(TaskController::describe(true), "TaskController { is_cancelled: true, .. }");
    assert_eq!(TaskController::describe(false), "TaskController { is_cancelled: false, .. }");
    assert_eq!(TerminatableTask::describe(true), "TerminatableTask { is_cancelled: true, .. }");
    assert_eq!(TerminatableTask::describe(false), "TerminatableTask { is_cancelled: false, .. }");
}
