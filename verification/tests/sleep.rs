use zenoh_wasm::compat::{timeout, Elapsed};
use zenoh_wasm::time::{Duration, Instant};
use zenoh_wasm::wake::WakeInner;
use zenoh_wasm::wasm_yield::{
    active_js_timers, sleep, sleep_ms, yield_now, JsTimers, NewSleep, Sleep, SleepAction,
};

fn made<R>(new: NewSleep<R>) -> Sleep<R> {
    match new {
        NewSleep::Made(sleep) => sleep,
        NewSleep::Js(_) => panic!("no browser timer is needed"),
    }
}

/// A sleep that the page starts, with the channel that signals it.
fn js(timers: &mut JsTimers<()>, ms: u32, id: i32, now_ms: u64) -> (Sleep<u8>, flume::Receiver<()>, u64, i32) {
    let request = timers.request_timer(ms);
    let started = timers.js_sleep(ms, id, request.sender, (), 9, now_ms);
    (started.sleep, request.receiver, request.key, request.millis)
}

#[test]
fn yields_go_through_the_queue_once() {
    let mut inner: WakeInner<u8> = WakeInner::new(1);
    let mut yielding = made(yield_now::<u8>(true));
    assert!(matches!(yielding.poll(Some(&mut inner), false, 0, 1), SleepAction::WakeAgain));
    assert!(matches!(yielding.poll(Some(&mut inner), false, 0, 1), SleepAction::Ready));
    assert!(matches!(yield_now::<u8>(false), NewSleep::Js(0)));
    let mut zero = made(sleep_ms::<u8>(0, true, 5));
    assert!(matches!(zero.poll(Some(&mut inner), false, 5, 1), SleepAction::WakeAgain));
    assert!(matches!(zero.poll::<u8>(None, false, 5, 0), SleepAction::Rearm(0)));
}

#[test]
fn worker_sleeps_end_at_their_deadline() {
    let mut inner: WakeInner<u8> = WakeInner::new(1);
    let mut sleeping = made(sleep_ms::<u8>(20, true, 100));
    assert!(matches!(
        sleeping.poll(Some(&mut inner), false, 100, 1),
        SleepAction::Pending { released: None }
    ));
    assert!(matches!(
        sleeping.poll(Some(&mut inner), false, 119, 2),
        SleepAction::Pending { released: None }
    ));
    assert_eq!(inner.fire_expired_timers(120), vec![2]);
    assert!(matches!(sleeping.poll(Some(&mut inner), false, 120, 3), SleepAction::Ready));
    assert!(matches!(sleep_ms::<u8>(20, false, 100), NewSleep::Js(20)));
}

#[test]
fn sleeps_that_move_between_workers_register_again() {
    let mut old: WakeInner<u8> = WakeInner::new(1);
    let mut new: WakeInner<u8> = WakeInner::new(2);
    let mut sleeping = made(sleep_ms::<u8>(20, true, 100));
    sleeping.poll(Some(&mut old), false, 100, 1);
    match sleeping.poll(Some(&mut new), false, 101, 2) {
        SleepAction::Pending { released: Some(timer) } => {
            assert_eq!(timer.held_by(), 1);
            timer.release(&mut old);
        }
        _ => panic!("the timer of the old worker is released"),
    }
    assert_eq!(old.fire_expired_timers(500), Vec::<u8>::new());
    assert_eq!(new.fire_expired_timers(120), vec![2]);
    // The timer fired on its way: a new one is registered though it is late.
    match sleeping.poll(Some(&mut new), false, 119, 3) {
        SleepAction::Pending { released: Some(timer) } => assert!(!timer.is_pending(&new)),
        _ => panic!("the fired timer is given up"),
    }
    assert_eq!(new.fire_expired_timers(120), vec![3]);
    assert!(sleeping.release().is_some());
}

#[test]
fn js_sleeps_keep_their_deadline_on_a_worker() {
    let mut timers = JsTimers::new();
    let mut inner: WakeInner<u8> = WakeInner::new(1);
    let (mut sleeping, receiver, _, millis) = js(&mut timers, 50, 11, 1_000);
    assert_eq!(millis, 50);
    assert_eq!(sleeping.js_future(), Some(&mut 9));
    assert!(matches!(
        sleeping.poll(Some(&mut inner), false, 1_010, 1),
        SleepAction::Pending { released: None }
    ));
    assert_eq!(sleeping.js_future(), None);
    assert_eq!(inner.fire_expired_timers(1_049), Vec::<u8>::new());
    assert_eq!(inner.fire_expired_timers(1_050), vec![1]);
    assert!(matches!(sleeping.poll(Some(&mut inner), false, 1_050, 1), SleepAction::Ready));
    drop(receiver);
}

#[test]
fn sleep_above_signed_timer_limit_does_not_complete_early() {
    let mut timers = JsTimers::new();
    let (mut sleeping, receiver, key, millis) = js(&mut timers, u32::MAX, 1, 0);
    assert_eq!(millis, i32::MAX);
    assert!(matches!(
        sleeping.poll::<u8>(None, false, 0, 0),
        SleepAction::Pending { released: None }
    ));
    timers.fire(key);
    assert_eq!(receiver.try_recv(), Ok(()));
    let now = i32::MAX as u64;
    let left = match sleeping.poll::<u8>(None, true, now, 0) {
        SleepAction::Rearm(ms) => ms,
        _ => panic!("the deadline has not come"),
    };
    assert_eq!(left as u64, u32::MAX as u64 - now);
    let (next, _receiver, _, _) = js(&mut timers, left, 2, now);
    assert!(sleeping.rearm(next).is_none());
    assert!(matches!(
        sleeping.poll::<u8>(None, true, u32::MAX as u64 - 1, 0),
        SleepAction::Rearm(1)
    ));
    assert!(matches!(
        sleeping.poll::<u8>(None, true, u32::MAX as u64, 0),
        SleepAction::Ready
    ));
}

#[test]
fn worker_sleeps_go_on_with_a_browser_timer() {
    let mut timers = JsTimers::new();
    let mut inner: WakeInner<u8> = WakeInner::new(1);
    let mut sleeping = made(sleep_ms::<u8>(20, true, 100));
    sleeping.poll(Some(&mut inner), false, 100, 1);
    let ms = match sleeping.poll::<u8>(None, false, 105, 0) {
        SleepAction::Rearm(ms) => ms,
        _ => panic!("the sleep goes on"),
    };
    assert_eq!(ms, 15);
    let (next, _receiver, _, _) = js(&mut timers, ms, 3, 105);
    sleeping.rearm(next).unwrap().release(&mut inner);
    assert_eq!(inner.fire_expired_timers(1_000), Vec::<u8>::new());
    assert!(matches!(sleeping.poll::<u8>(None, true, 120, 0), SleepAction::Ready));
    let mut late = made(sleep_ms::<u8>(20, true, 100));
    assert!(matches!(late.poll::<u8>(None, false, 120, 0), SleepAction::Ready));
}

#[test]
fn dropped_long_js_sleeps_release_callbacks() {
    let mut timers = JsTimers::new();
    let mut sleeps = Vec::new();
    for id in 0..128 {
        let request = timers.request_timer(u32::MAX);
        assert!(timers.has_key());
        let started = timers.js_sleep(u32::MAX, id, request.sender, (), request.receiver, 0);
        assert_eq!(started.start_cleanup, id == 0);
        sleeps.push(started.sleep);
    }
    assert_eq!(active_js_timers(&timers), 128);
    let (cleanup, asked) = timers.clean_up();
    assert_eq!((cleanup.clear.len(), cleanup.more), (0, true));
    assert!(asked.len() == 128 && asked.iter().all(|receipt| !receipt.gone()));
    drop(sleeps);
    let (_sleep, _receiver, _, _) = js(&mut timers, 1, 500, 0);
    let (cleanup, asked) = timers.clean_up();
    assert_eq!(cleanup.clear, (0..128).collect::<Vec<i32>>());
    assert_eq!(asked.iter().filter(|receipt| receipt.gone()).count(), 128);
    assert!(cleanup.more);
    assert_eq!(active_js_timers(&timers), 1);
}

#[test]
fn fired_timers_are_reclaimed_and_not_cleared() {
    let mut timers = JsTimers::new();
    let (_first, first, key, _) = js(&mut timers, 10, 1, 0);
    let (_second, second, _, _) = js(&mut timers, 10, 2, 0);
    timers.fire(key);
    assert_eq!(first.try_recv(), Ok(()));
    assert!(second.try_recv().is_err());
    let cleanup = timers.reclaim(&vec![false, true]);
    assert_eq!(cleanup.clear, vec![2]);
    assert!(!cleanup.more);
    assert_eq!(active_js_timers(&timers), 0);
    let request = timers.request_timer(5);
    assert!(timers.js_sleep(5, 3, request.sender, (), (), 0).start_cleanup);
}

#[test]
fn fractional_millisecond_sleep_rounds_up() {
    let mut long = sleep(Duration::new(0, 1_500_000));
    assert_eq!(long.next_chunk(), Some(2));
    assert_eq!(long.next_chunk(), None);
    assert_eq!(sleep(Duration::new(0, 1)).next_chunk(), Some(1));
    assert_eq!(sleep(Duration::new(0, 0)).next_chunk(), None);
}

#[test]
fn long_sleeps_are_cut_into_parts() {
    let limit = i32::MAX as u64;
    let mut long = sleep(Duration::from_millis(2 * limit + 7));
    assert_eq!(long.next_chunk(), Some(i32::MAX as u32));
    assert_eq!(long.next_chunk(), Some(i32::MAX as u32));
    assert_eq!(long.next_chunk(), Some(7));
    assert_eq!(long.next_chunk(), None);
}

#[test]
fn a_value_beats_the_deadline() {
    assert_eq!(timeout(Some(42), true), Some(Ok(42)));
    assert_eq!(timeout(Some(42), false), Some(Ok(42)));
    assert_eq!(timeout::<u8>(None, true), Some(Err(Elapsed)));
    assert_eq!(timeout::<u8>(None, false), None);
    assert_eq!(Elapsed.message(), "deadline has elapsed");
}

#[test]
fn huge_checked_duration_does_not_truncate() {
    assert!(Instant::now(5).checked_add(Duration::new(u64::MAX, 999_999_999)).is_none());
    assert!(Instant::now(5).checked_sub(Duration::new(u64::MAX, 0)).is_none());
}

#[test]
fn instants_measure_whole_milliseconds() {
    let start = Instant::now(1_000);
    assert_eq!(start.elapsed(1_015), Duration::from_millis(15));
    assert_eq!(start.elapsed(900), Duration::from_millis(0));
    let later = start.checked_add(Duration::new(2, 1_999_999)).unwrap();
    assert_eq!(later, Instant::now(3_001));
    assert_eq!(later.duration_since(start), Duration::from_millis(2_001));
    assert_eq!(start.saturating_duration_since(later), Duration::from_millis(0));
    assert_eq!(later.checked_sub(Duration::from_millis(3_001)), Some(Instant::now(0)));
    assert_eq!(later.checked_sub(Duration::from_millis(3_002)), None);
    assert_eq!(start + Duration::from_millis(1), Instant::now(1_001));
    let mut moving = start;
    moving += Duration::from_millis(500);
    moving -= Duration::from_millis(200);
    assert_eq!(moving - start, Duration::from_millis(300));
    assert_eq!(start - moving, Duration::from_millis(0));
    assert_eq!(Duration::new(3, 4_000_001).as_millis(), 3_004);
    assert_eq!(Duration::new(3, 4_000_001).subsec_nanos(), 4_000_001);
}
