use futures::future::{AbortRegistration, Abortable, Aborted};
use futures::task::noop_waker;
use std::future::Future;
use std::task::{Context, Poll};
use zenoh_wasm::channel::{Received, Sent};
use zenoh_wasm::executor::LocalExecutor;
use zenoh_wasm::join::{
    awaited, recv_async_anywhere, repoll_step, task_ended, Disconnected, JoinError, JoinHandle, JoinPoll,
    RecvStep, RepollCounts, TimerPoll, __zenoh_repoll_counts,
};
use zenoh_wasm::runtime::{
    current_runtime, spawn_on_current, worker_script, BlockPlan, Init, InitStep, Route, Startup,
    StartupWait, WorkerPool, WorkerRole, WorkerThread, ZRuntime, __zenoh_init_threaded_runtime,
    __zenoh_init_threaded_runtime_async, __zenoh_worker_entry, ZENOH_RUNTIME_ENV,
};
use zenoh_wasm::time::Instant;

/// Polls a task that never completes by itself.
fn poll_pending(registration: AbortRegistration) -> Poll<Result<(), Aborted>> {
    let waker = noop_waker();
    let mut context = Context::from_waker(&waker);
    let mut task = Box::pin(Abortable::new(std::future::pending::<()>(), registration));
    task.as_mut().poll(&mut context)
}

fn threaded() -> Startup {
    let mut startup = Startup::new();
    assert_eq!(__zenoh_init_threaded_runtime(&mut startup, true), Init::CreatePool);
    assert!(startup.pool_created(None));
    startup
}

#[test]
fn runtimes_have_names_and_numbers() {
    let names: Vec<&str> = ZRuntime::iter().iter().map(|rt| rt.name()).collect();
    assert_eq!(names, vec!["app", "acc", "tx", "rx", "net"]);
    for (id, rt) in ZRuntime::iter().into_iter().enumerate() {
        assert_eq!(rt.variant_id(), id);
        assert_eq!(ZRuntime::from_id(id as u32), rt);
    }
    assert_eq!(ZENOH_RUNTIME_ENV, "ZENOH_RUNTIME");
}

#[test]
fn only_the_acceptor_keeps_its_event_loop() {
    let (pool, receivers) = WorkerPool::<u8>::new();
    for rt in ZRuntime::iter() {
        let mut thread = WorkerThread::new();
        assert_eq!(current_runtime(&thread), None);
        let start = __zenoh_worker_entry(&mut thread, &receivers, rt.variant_id() as u32);
        assert_eq!(current_runtime(&thread), Some(rt));
        let expected = if rt == ZRuntime::Acceptor {
            WorkerRole::EventLoop
        } else {
            WorkerRole::Executor
        };
        assert_eq!(start.role, expected);
        assert_eq!(pool.dispatch(&rt, rt.variant_id() as u8).sent(), Sent::Done);
        assert_eq!(start.receiver.try_recv(), Ok(rt.variant_id() as u8));
        assert!(start.receiver.try_recv().is_err());
    }
    for n in 0..1_000u16 {
        assert_eq!(pool.dispatch(&ZRuntime::RX, n as u8).sent(), Sent::Done);
    }
    drop(receivers);
    assert_eq!(pool.dispatch(&ZRuntime::TX, 1).sent(), Sent::Disconnected);
    assert!(pool.get(&ZRuntime::TX).is_disconnected().gone());
}

#[test]
fn futures_go_to_the_executor_of_the_thread() {
    let mut executor: LocalExecutor<u8> = LocalExecutor::new(1);
    assert_eq!(spawn_on_current(Some(&mut executor), 5), None);
    assert_eq!(spawn_on_current(None, 6), Some(6));
    let mut inner: zenoh_wasm::wake::WakeInner<u8> = zenoh_wasm::wake::WakeInner::new(1);
    let mut turn = zenoh_wasm::executor::PumpTurn::new();
    assert_eq!(executor.pump(&mut inner, &mut turn).unwrap().future, 5);
}

#[test]
fn spawning_takes_the_route_of_the_startup() {
    let mut startup = Startup::new();
    assert_eq!(ZRuntime::RX.spawn::<u8>(&startup).route, Route::Local);
    assert!(!startup.is_threaded());
    startup = threaded();
    assert!(startup.is_threaded());
    assert_eq!(ZRuntime::RX.spawn::<u8>(&startup).route, Route::Worker(ZRuntime::RX));
    startup.worker_failed("gone".to_owned());
    let mut dropped = ZRuntime::RX.spawn::<u8>(&startup);
    assert_eq!(dropped.route, Route::Dropped);
    assert!(dropped.ends.is_none());
    assert!(dropped.handle.is_finished().0);
    assert!(matches!(dropped.handle.poll(true, false).0, JoinPoll::Ready(Err(JoinError))));
}

#[test]
fn joining_a_task_gives_its_value() {
    let startup = Startup::new();
    let spawned = ZRuntime::Application.spawn::<u8>(&startup);
    let mut handle = spawned.handle;
    let ends = spawned.ends.unwrap();
    assert!(!handle.is_finished().0);
    assert!(matches!(handle.poll(false, false).0, JoinPoll::PollReceiver));
    assert!(matches!(handle.poll(true, true).0, JoinPoll::PollReceiver));
    assert_eq!(task_ended(ends.tx, Some(42)).map(|posted| posted.sent()), Some(Sent::Done));
    assert!(handle.is_finished().0);
    assert!(matches!(handle.poll(false, false).0, JoinPoll::Ready(Ok(42))));
}

#[test]
fn abort_drops_a_pending_task_and_completes_join() {
    let startup = Startup::new();
    let spawned = ZRuntime::Application.spawn::<()>(&startup);
    let mut handle = spawned.handle;
    let ends = spawned.ends.unwrap();
    handle.abort();
    assert_eq!(poll_pending(ends.registration), Poll::Ready(Err(Aborted)));
    assert!(task_ended(ends.tx, None).is_none());
    assert!(handle.is_finished().0);
    assert!(matches!(handle.poll(false, false).0, JoinPoll::Ready(Err(JoinError))));
    assert_eq!(JoinError.message(), "task failed or was cancelled");
}

#[test]
fn tasks_that_are_not_aborted_go_on() {
    let startup = Startup::new();
    let spawned = ZRuntime::Application.spawn::<()>(&startup);
    assert_eq!(poll_pending(spawned.ends.unwrap().registration), Poll::Pending);
}

#[test]
fn dropping_join_handle_detaches_task() {
    let startup = Startup::new();
    let spawned = ZRuntime::Application.spawn::<u8>(&startup);
    let ends = spawned.ends.unwrap();
    drop(spawned.handle);
    assert_eq!(poll_pending(ends.registration), Poll::Pending);
    assert_eq!(task_ended(ends.tx, Some(1)).map(|posted| posted.sent()), Some(Sent::Disconnected));
}

#[test]
fn event_loop_threads_poll_again_with_one_timer() {
    let startup = threaded();
    let spawned = ZRuntime::TX.spawn::<u8>(&startup);
    let mut handle = spawned.handle;
    let ends = spawned.ends.unwrap();
    assert!(matches!(handle.poll(true, false).0, JoinPoll::PollTimer { start: true }));
    assert_eq!(handle.timer_polled(false), TimerPoll::Pending);
    assert!(matches!(handle.poll(true, false).0, JoinPoll::PollTimer { start: false }));
    assert_eq!(handle.timer_polled(true), TimerPoll::DropAndWake);
    assert!(matches!(handle.poll(true, false).0, JoinPoll::PollTimer { start: true }));
    task_ended(ends.tx, Some(3));
    assert!(matches!(handle.poll(true, false).0, JoinPoll::Ready(Ok(3))));
    assert!(matches!(
        handle.poll_received(Received::Empty, true, false),
        JoinPoll::PollTimer { start: true }
    ));
}

#[test]
fn received_results_become_join_results() {
    assert_eq!(JoinHandle::<u8>::receiver_polled(None), None);
    assert_eq!(JoinHandle::receiver_polled(Some(Ok(1u8))), Some(Ok(1)));
    assert_eq!(JoinHandle::<u8>::receiver_polled(Some(Err(()))), Some(Err(JoinError)));
    assert!(!JoinHandle::<u8>::is_finished_channel(true, false));
    assert!(JoinHandle::<u8>::is_finished_channel(false, false));
    assert!(JoinHandle::<u8>::is_finished_channel(true, true));
}

#[test]
fn repoll_timers_are_counted() {
    let counts = RepollCounts::new().timer_started().timer_started().timer_dropped();
    assert_eq!(__zenoh_repoll_counts(counts), [1, 2]);
    assert_eq!(__zenoh_repoll_counts(counts.timer_started()), [2, 2]);
}

#[test]
fn receiving_works_on_every_thread() {
    let (tx, rx) = flume::unbounded();
    assert!(matches!(recv_async_anywhere::<u8>(&rx, false, false).0, RecvStep::AwaitReceiver));
    assert!(matches!(recv_async_anywhere::<u8>(&rx, true, true).0, RecvStep::AwaitReceiver));
    assert!(matches!(recv_async_anywhere::<u8>(&rx, true, false).0, RecvStep::Repoll));
    tx.send(7).unwrap();
    assert!(matches!(recv_async_anywhere::<u8>(&rx, true, false).0, RecvStep::Done(Ok(7))));
    drop(tx);
    assert!(matches!(
        recv_async_anywhere::<u8>(&rx, true, false).0,
        RecvStep::Done(Err(Disconnected))
    ));
    assert!(matches!(repoll_step(Received::Message(1)), RecvStep::Done(Ok(1))));
    assert_eq!(awaited(Some(7)), Ok(7));
    assert_eq!(awaited::<u8>(None), Err(Disconnected));
}

#[test]
fn messages_are_received_in_order() {
    let (tx, rx) = flume::unbounded();
    for n in 0..5u8 {
        tx.send(n).unwrap();
    }
    drop(tx);
    let mut received = Vec::new();
    loop {
        match recv_async_anywhere(&rx, true, false).0 {
            RecvStep::Done(Ok(n)) => received.push(n),
            RecvStep::Done(Err(Disconnected)) => break,
            _ => panic!("all senders are gone"),
        }
    }
    assert_eq!(received, vec![0, 1, 2, 3, 4]);
}

#[test]
fn finished_channels_tell_why() {
    let startup = Startup::new();
    let spawned = ZRuntime::Application.spawn::<u8>(&startup);
    let ends = spawned.ends.unwrap();
    let (finished, state) = spawned.handle.is_finished();
    assert!(!finished && state.empty.empty() && !state.senders.gone());
    task_ended(ends.tx, Some(1));
    let (finished, state) = spawned.handle.is_finished();
    assert!(finished && !state.empty.empty() && state.senders.gone());
}

#[test]
fn block_in_place_accepts_an_immediately_ready_future() {
    assert_eq!(ZRuntime::Application.block_in_place(false), BlockPlan::PollOnce);
    assert_eq!(ZRuntime::Application.block_in_place(true), BlockPlan::BlockOn);
    assert_eq!(ZRuntime::polled_in_place(Some(42)), Ok(42));
    assert_eq!(
        ZRuntime::polled_in_place::<u8>(None),
        Err("block_in_place: cannot wait on a WASM JS event-loop thread; await the future or run it on a compute worker")
    );
}

fn done(step: InitStep) -> Result<bool, String> {
    match step {
        InitStep::Done(result) => result,
        InitStep::Sleep => panic!("the wait is over"),
    }
}

#[test]
fn without_shared_memory_there_are_no_workers() {
    let mut startup = Startup::new();
    assert_eq!(__zenoh_init_threaded_runtime(&mut startup, false), Init::Dispatched(false));
    let wait = StartupWait { since: Instant::now(0), timeout_ms: 5, dispatched: false };
    assert_eq!(done(__zenoh_init_threaded_runtime_async(&mut startup, &wait, 9)), Ok(false));
}

#[test]
fn startup_waits_for_all_workers() {
    let mut startup = threaded();
    assert_eq!(__zenoh_init_threaded_runtime(&mut startup, true), Init::Dispatched(true));
    let wait = StartupWait { since: Instant::now(100), timeout_ms: 50, dispatched: true };
    for _ in 0..5 {
        assert!(matches!(
            __zenoh_init_threaded_runtime_async(&mut startup, &wait, 149),
            InitStep::Sleep
        ));
        startup.worker_ready();
    }
    assert_eq!(startup.workers_ready(), 5);
    assert_eq!(done(__zenoh_init_threaded_runtime_async(&mut startup, &wait, 900)), Ok(true));
}

#[test]
fn startup_times_out_for_good() {
    let mut startup = threaded();
    startup.worker_ready();
    startup.worker_ready();
    let wait = StartupWait { since: Instant::now(100), timeout_ms: 1500, dispatched: true };
    let text = "worker startup timed out after 1500 ms (2/5 ready); reload the page to retry";
    let result = done(__zenoh_init_threaded_runtime_async(&mut startup, &wait, 1_600));
    assert_eq!(result, Err(text.to_owned()));
    startup.worker_ready();
    startup.worker_ready();
    startup.worker_ready();
    let result = done(__zenoh_init_threaded_runtime_async(&mut startup, &wait, 1_601));
    assert_eq!(result, Err(text.to_owned()));
    assert_eq!(__zenoh_init_threaded_runtime(&mut startup, true), Init::Dispatched(false));
}

#[test]
fn the_first_failure_is_reported() {
    let wait = StartupWait { since: Instant::now(0), timeout_ms: 5, dispatched: true };
    let mut startup = threaded();
    startup.worker_reported(2, None);
    startup.worker_reported(2, Some("boom".to_owned()));
    startup.worker_script_failed(3, None);
    assert_eq!(
        done(__zenoh_init_threaded_runtime_async(&mut startup, &wait, 0)),
        Err("worker 2: boom; reload the page to retry".to_owned())
    );
    let mut startup = threaded();
    startup.worker_script_failed(4294967295, None);
    assert_eq!(
        done(__zenoh_init_threaded_runtime_async(&mut startup, &wait, 0)),
        Err("worker 4294967295: worker script failed; reload the page to retry".to_owned())
    );
    let mut startup = Startup::new();
    assert_eq!(__zenoh_init_threaded_runtime(&mut startup, true), Init::CreatePool);
    assert!(!startup.pool_created(Some("no worker".to_owned())));
    assert_eq!(
        done(__zenoh_init_threaded_runtime_async(&mut startup, &wait, 0)),
        Err("worker initialization failed: no worker; reload the page to retry".to_owned())
    );
}

#[test]
fn numbers_are_decimal() {
    for n in [0, 7, 10, 64, 100, 65_536, 4_294_967_295] {
        assert_eq!(zenoh_wasm::text::decimal(n), n.to_string());
    }
}

#[test]
fn worker_scripts_load_their_shim() {
    let script = worker_script("\"https://host/pkg/app.js\"");
    let expected = r#"self.onmessage = async function(e) {
    const [module, memory, variant_id] = e.data;
    try {
        importScripts("https://host/pkg/app.js");
        await wasm_bindgen(module, memory);
        wasm_bindgen.__zenoh_worker_entry(variant_id);
    } catch(err) {
        self.postMessage({ zenohWorkerError: String(err) });
    }
};"#;
    assert_eq!(script, expected);
}
