use zenoh_wasm::time::{Duration, Instant};
use zenoh_wasm::timer::{Fuses, Timed, TimedEvent, Timer};

struct Nothing;

impl Timed for Nothing {
    fn run(&mut self) {}
}

#[test]
fn events_are_fused_until_they_are_defused() {
    let mut fuses = Fuses::new();
    assert!(fuses.has_key());
    let once = TimedEvent::once(&mut fuses, Instant::now(5), Nothing);
    let periodic = TimedEvent::periodic(&mut fuses, Duration::from_millis(5), Nothing);
    assert!(once.is_fused(&fuses));
    assert!(periodic.is_fused(&fuses));
    once.get_handle().defuse(&mut fuses);
    assert!(!once.is_fused(&fuses));
    assert!(periodic.is_fused(&fuses));
    once.get_handle().defuse(&mut fuses);
    assert!(!once.is_fused(&fuses));
    let copy = once.duplicate(&mut fuses);
    assert!(!copy.is_fused(&fuses));
}

#[test]
fn copies_share_their_fuse() {
    let mut fuses = Fuses::new();
    let event = TimedEvent::once(&mut fuses, Instant::now(5), Nothing);
    assert!(event.can_be_copied(&fuses));
    let copy = event.duplicate(&mut fuses);
    let handle = event.get_handle();
    let other = handle.clone();
    assert_eq!(handle.describe(&fuses), "TimedHandle { is_live: true }");
    event.release(&mut fuses);
    handle.defuse(&mut fuses);
    assert!(!copy.is_fused(&fuses));
    Timer::new(false).add(copy, &mut fuses);
    assert_eq!(other.describe(&fuses), "TimedHandle { is_live: false }");
    other.defuse(&mut fuses);
    let next = TimedEvent::once(&mut fuses, Instant::now(5), Nothing);
    assert!(next.is_fused(&fuses));
    let handle = next.get_handle();
    Timer::new(true).add_async(next, &mut fuses);
    assert_eq!(handle.describe(&fuses), "TimedHandle { is_live: false }");
}
