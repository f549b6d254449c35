use zenoh_wasm::executor::{
    has_local_executor, try_current_executor, BlockOnAction, BlockOnEvent, CurrentExecutor,
    ExecutorIds, LocalExecutor, PumpTurn, RunAction, RunEvent,
};
use zenoh_wasm::wake::{LockAction, LockEvent, TimerRegistration, WakeInner, WakeState};

/// Runs one turn in which every task stays pending, and lists who was polled.
fn turn(executor: &mut LocalExecutor<u32>, inner: &mut WakeInner<&'static str>) -> Vec<(usize, u32)> {
    let mut turn = PumpTurn::new();
    let mut polled = Vec::new();
    while let Some(ready) = executor.pump(inner, &mut turn) {
        polled.push((ready.id, ready.future));
        executor.poll_returned(ready.id, Some(ready.future));
    }
    polled
}

#[test]
fn spawned_tasks_are_polled_in_order() {
    let mut executor = LocalExecutor::new(1);
    let mut inner: WakeInner<&'static str> = WakeInner::new(1);
    executor.spawn(10);
    executor.spawn(11);
    executor.spawn(12);
    assert_eq!(turn(&mut executor, &mut inner), vec![(0, 10), (1, 11), (2, 12)]);
    assert_eq!(turn(&mut executor, &mut inner), vec![]);
    inner.wake(2);
    inner.wake(0);
    inner.wake(2);
    assert_eq!(turn(&mut executor, &mut inner), vec![(2, 12), (0, 10)]);
}

#[test]
fn completed_tasks_are_gone() {
    let mut executor = LocalExecutor::new(1);
    let mut inner: WakeInner<&'static str> = WakeInner::new(1);
    executor.spawn(10);
    let mut pump = PumpTurn::new();
    let ready = executor.pump(&mut inner, &mut pump).unwrap();
    assert_eq!((ready.id, ready.future), (0, 10));
    executor.poll_returned(ready.id, None);
    assert!(executor.pump(&mut inner, &mut pump).is_none());
    inner.wake(0);
    assert_eq!(turn(&mut executor, &mut inner), vec![]);
}

#[test]
fn a_turn_polls_at_most_64_tasks() {
    let mut executor = LocalExecutor::new(1);
    let mut inner: WakeInner<&'static str> = WakeInner::new(1);
    executor.spawn(7);
    let mut pump = PumpTurn::new();
    let mut polls = 0;
    while let Some(ready) = executor.pump(&mut inner, &mut pump) {
        polls += 1;
        // The task wakes itself while it is polled.
        inner.wake(ready.id);
        executor.poll_returned(ready.id, Some(ready.future));
    }
    assert_eq!(polls, 64);
}

#[test]
fn a_nested_turn_keeps_the_wake_of_its_caller() {
    let mut executor = LocalExecutor::new(1);
    let mut inner: WakeInner<&'static str> = WakeInner::new(1);
    executor.spawn(10);
    executor.spawn(11);
    let mut outer = PumpTurn::new();
    let caller = executor.pump(&mut inner, &mut outer).unwrap();
    assert_eq!(caller.id, 0);
    inner.wake(0);
    // A blocking call inside the poll of task 0 serves task 1 only.
    assert_eq!(turn(&mut executor, &mut inner), vec![(1, 11)]);
    // The wake of the suspended caller is queued, and does not keep the call awake.
    match executor.block_on(&mut inner, BlockOnEvent::TimersFired, 0) {
        BlockOnAction::Sleep(ms) => assert_eq!(ms, 1),
        _ => panic!("the call must sleep"),
    }
    executor.poll_returned(0, Some(caller.future));
    assert_eq!(turn(&mut executor, &mut inner), vec![(0, 10)]);
}

#[test]
fn block_on_takes_its_steps() {
    let mut executor: LocalExecutor<u32> = LocalExecutor::new(1);
    let mut inner: WakeInner<&'static str> = WakeInner::new(1);
    inner.wake_block_on();
    assert!(matches!(
        executor.block_on(&mut inner, BlockOnEvent::Enter, 0),
        BlockOnAction::PollTarget
    ));
    assert!(matches!(
        executor.block_on(&mut inner, BlockOnEvent::TargetPending, 0),
        BlockOnAction::Pump
    ));
    let timer = executor.register_timer(&mut inner, 5, "due");
    assert_eq!(timer.held_by(), 1);
    match executor.block_on(&mut inner, BlockOnEvent::Pumped, 5) {
        BlockOnAction::Wake(wakers) => assert_eq!(wakers, vec!["due"]),
        _ => panic!("due timers fire"),
    }
    assert!(matches!(
        executor.block_on(&mut inner, BlockOnEvent::TimersFired, 5),
        BlockOnAction::Sleep(1)
    ));
    inner.wake_block_on();
    assert!(matches!(
        executor.block_on(&mut inner, BlockOnEvent::TimersFired, 5),
        BlockOnAction::Again
    ));
    assert!(matches!(
        executor.block_on(&mut inner, BlockOnEvent::TargetReady, 5),
        BlockOnAction::Return
    ));
    executor.spawn(1);
    assert!(executor.has_task_ids());
    executor.block_on(&mut inner, BlockOnEvent::Enter, 5);
    assert!(matches!(
        executor.block_on(&mut inner, BlockOnEvent::TimersFired, 5),
        BlockOnAction::Again
    ));
}

#[test]
fn run_sleeps_until_the_next_timer() {
    let executor: LocalExecutor<u32> = LocalExecutor::new(1);
    let mut inner: WakeInner<&'static str> = WakeInner::new(1);
    assert!(matches!(executor.run(&mut inner, RunEvent::Enter, 0), RunAction::Pump));
    assert!(matches!(
        executor.run(&mut inner, RunEvent::TimersFired, 0),
        RunAction::Sleep(100)
    ));
    executor.register_timer(&mut inner, 40, "a");
    executor.register_timer(&mut inner, 30, "b");
    executor.register_timer(&mut inner, 500, "c");
    assert!(matches!(
        executor.run(&mut inner, RunEvent::TimersFired, 10),
        RunAction::Sleep(20)
    ));
    match executor.run(&mut inner, RunEvent::Pumped, 40) {
        RunAction::Wake(mut wakers) => {
            wakers.sort();
            assert_eq!(wakers, vec!["a", "b"]);
        }
        _ => panic!("due timers fire"),
    }
    assert_eq!(inner.time_until_next_timer(490, 100), 10);
    assert_eq!(inner.time_until_next_timer(600, 100), 0);
    inner.wake(3);
    assert!(matches!(executor.run(&mut inner, RunEvent::TimersFired, 40), RunAction::Again));
}

#[test]
fn released_timers_do_not_fire() {
    let mut inner: WakeInner<&'static str> = WakeInner::new(7);
    let first = TimerRegistration::new(&mut inner, 10, "first");
    let second = TimerRegistration::new(&mut inner, 10, "second");
    first.release(&mut inner);
    assert_eq!(inner.fire_expired_timers(9), Vec::<&str>::new());
    assert_eq!(inner.fire_expired_timers(10), vec!["second"]);
    assert!(!second.is_pending(&inner));
    assert!(!second.update_waker(&mut inner, "late"));
    assert_eq!(inner.fire_expired_timers(11), Vec::<&str>::new());
    assert!(inner.has_timer_id());
    assert_eq!(inner.executor(), 7);
}

#[test]
fn timers_of_another_executor_are_left_alone() {
    let mut old: WakeInner<&'static str> = WakeInner::new(1);
    let mut new: WakeInner<&'static str> = WakeInner::new(2);
    let timer = TimerRegistration::new(&mut old, 10, "old");
    let _other = TimerRegistration::new(&mut new, 10, "new");
    assert!(!timer.update_waker(&mut new, "moved"));
    assert!(timer.update_waker(&mut old, "again"));
    assert_eq!(new.fire_expired_timers(10), vec!["new"]);
    assert_eq!(old.fire_expired_timers(10), vec!["again"]);
}

#[test]
fn only_workers_park_on_the_lock() {
    assert_eq!(WakeState::lock(true, LockEvent::Start), LockAction::Park);
    assert_eq!(WakeState::lock(false, LockEvent::Start), LockAction::Try);
    assert_eq!(WakeState::lock(false, LockEvent::WouldBlock), LockAction::SpinAndTry);
    assert_eq!(WakeState::lock(false, LockEvent::Acquired), LockAction::Hold);
    assert_eq!(WakeState::lock(true, LockEvent::Poisoned), LockAction::Fail);
}

#[test]
fn threads_know_their_executor() {
    let executor: LocalExecutor<u32> = LocalExecutor::new(3);
    let mut current: CurrentExecutor<&'static str> = CurrentExecutor::new();
    assert!(!has_local_executor(&current));
    assert!(try_current_executor(&current).is_none());
    executor.install("mine", &mut current);
    assert!(has_local_executor(&current));
    assert_eq!(try_current_executor(&current), Some(&"mine"));
}

/// Runs one turn in which task 0 wakes itself whenever it is polled, and lists
/// who was polled.
fn turn_with_a_restless_task(
    executor: &mut LocalExecutor<u32>,
    inner: &mut WakeInner<&'static str>,
) -> Vec<usize> {
    let mut turn = PumpTurn::new();
    let mut polled = Vec::new();
    while let Some(ready) = executor.pump(inner, &mut turn) {
        polled.push(ready.id);
        if ready.id == 0 {
            inner.wake(0);
        }
        executor.poll_returned(ready.id, Some(ready.future));
    }
    polled
}

#[test]
fn a_task_that_wakes_itself_overtakes_nobody_twice() {
    let mut executor = LocalExecutor::new(1);
    let mut inner: WakeInner<&'static str> = WakeInner::new(1);
    for future in 0..4 {
        executor.spawn(future);
    }
    let polled = turn_with_a_restless_task(&mut executor, &mut inner);
    assert_eq!(polled[..5], [0, 1, 2, 3, 0]);
    assert_eq!(polled.len(), 64);
    assert!(polled[5..].iter().all(|id| *id == 0));
}

#[test]
fn woken_tasks_are_polled_once_and_others_not_at_all() {
    let mut executor = LocalExecutor::new(1);
    let mut inner: WakeInner<&'static str> = WakeInner::new(1);
    for future in 0..64 {
        executor.spawn(future);
    }
    assert_eq!(turn(&mut executor, &mut inner).len(), 64);
    for id in (0..64).filter(|id| id % 2 == 0) {
        inner.wake(id);
        inner.wake(id);
    }
    let polled: Vec<usize> = turn(&mut executor, &mut inner).iter().map(|x| x.0).collect();
    assert_eq!(polled, (0..64).filter(|id| id % 2 == 0).collect::<Vec<usize>>());
    inner.wake(1);
    assert_eq!(turn(&mut executor, &mut inner), vec![(1, 1)]);
}

#[test]
fn futures_spawned_in_a_turn_are_polled_by_the_next() {
    let mut executor = LocalExecutor::new(1);
    let mut inner: WakeInner<&'static str> = WakeInner::new(1);
    for future in 0..64 {
        executor.spawn(future);
    }
    let mut pump = PumpTurn::new();
    let mut polled = Vec::new();
    while let Some(ready) = executor.pump(&mut inner, &mut pump) {
        polled.push(ready.future);
        if ready.future == 63 {
            executor.spawn(100);
        }
        executor.poll_returned(ready.id, None);
    }
    assert!(!polled.contains(&100));
    assert_eq!(turn(&mut executor, &mut inner), vec![(64, 100)]);
    // A task that is done stays done, though a waker of it was kept.
    inner.wake(3);
    assert_eq!(turn(&mut executor, &mut inner), vec![]);
}

#[test]
fn executors_get_ids_of_their_own() {
    let mut ids = ExecutorIds::new();
    assert!(ids.has_next());
    let (first, second, third) = (ids.next(), ids.next(), ids.next());
    assert!(first != second && second != third && first != third);
}
