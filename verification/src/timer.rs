//! Timed events. A browser has no timer thread, so events are accepted and
//! never run; what callers rely on is that an event tells whether it was
//! defused.

use crate::time::{Duration, Instant};
use std::collections::HashMap;
use vstd::prelude::*;

verus! {

broadcast use vstd::std_specs::hash::group_hash_axioms;

/// What an event does when its time comes.
pub trait Timed {
    fn run(&mut self);
}

/// The fuse that all copies of an event share.
#[derive(Clone, Copy, Debug, PartialEq, Eq, Structural)]
pub struct Fuse {
    /// Whether the event was not defused.
    pub fused: bool,
    /// The copies of the event that are left.
    pub copies: usize,
}

/// The fuses of all events that are left.
pub struct Fuses {
    fuses: HashMap<u64, Fuse>,
    next_key: u64,
}

/// An event. Its copies share one fuse.
#[derive(Debug)]
pub struct TimedEvent {
    key: u64,
}

/// A handle by which an event is defused. It does not keep the event.
#[derive(Debug)]
pub struct TimedHandle(u64);

/// Takes events.
pub struct Timer;

impl View for Fuses {
    type V = Map<u64, Fuse>;

    closed spec fn view(&self) -> Map<u64, Fuse> {
        self.fuses@
    }
}

impl Fuses {
    /// The key of the next event.
    pub closed spec fn next(&self) -> u64 {
        self.next_key
    }

    /// A fuse lasts as long as a copy of its event, and no key is used before it
    /// was given out.
    pub open spec fn wf(&self) -> bool {
        &&& forall|k: u64| #[trigger] self@.contains_key(k) ==> k < self.next()
        &&& forall|k: u64| #[trigger] self@.contains_key(k) ==> self@[k].copies > 0
    }

    /// No event was made yet.
    pub fn new() -> (fuses: Fuses)
        ensures
            fuses.wf(),
            fuses@ == Map::<u64, Fuse>::empty(),
            fuses.next() == 0,
    {
        Fuses { fuses: HashMap::new(), next_key: 0 }
    }

    /// Whether another event can be made.
    pub fn has_key(&self) -> (left: bool)
        ensures
            left == (self.next() < u64::MAX),
    {
        self.next_key < u64::MAX
    }

    /// A new event, which is fused.
    fn new_event(&mut self) -> (event: TimedEvent)
        requires
            old(self).wf(),
            old(self).next() < u64::MAX,
        ensures
            final(self).wf(),
            !old(self)@.contains_key(event.key()),
            final(self)@ == old(self)@.insert(event.key(), Fuse { fused: true, copies: 1 }),
            final(self).next() == old(self).next() + 1,
            event.key() == old(self).next(),
    {
        let key: u64 = self.next_key;
        self.next_key = key + 1;
        self.fuses.insert(key, Fuse { fused: true, copies: 1 });
        assert(self@ == old(self)@.insert(key, Fuse { fused: true, copies: 1 }));
        TimedEvent { key }
    }
}

impl TimedEvent {
    /// The key of the event's fuse.
    pub closed spec fn key(&self) -> u64 {
        self.key
    }

    /// An event that is to run once, at `when`.
    pub fn once<E: Timed>(fuses: &mut Fuses, when: Instant, event: E) -> (timed: TimedEvent)
        requires
            old(fuses).wf(),
            old(fuses).next() < u64::MAX,
        ensures
            final(fuses).wf(),
            timed.key() == old(fuses).next(),
            final(fuses).next() == old(fuses).next() + 1,
            final(fuses)@ == old(fuses)@.insert(timed.key(), Fuse { fused: true, copies: 1 }),
            is_new_event(old(fuses)@, timed.key(), final(fuses)@),
    {
        let timed = fuses.new_event();
        assert(fuses@.remove(timed.key()) =~= old(fuses)@);
        timed
    }

    /// An event that is to run after each `interval`.
    pub fn periodic<E: Timed>(fuses: &mut Fuses, interval: Duration, event: E) -> (timed:
        TimedEvent)
        requires
            old(fuses).wf(),
            old(fuses).next() < u64::MAX,
        ensures
            final(fuses).wf(),
            timed.key() == old(fuses).next(),
            final(fuses).next() == old(fuses).next() + 1,
            final(fuses)@ == old(fuses)@.insert(timed.key(), Fuse { fused: true, copies: 1 }),
            is_new_event(old(fuses)@, timed.key(), final(fuses)@),
    {
        let timed = fuses.new_event();
        assert(fuses@.remove(timed.key()) =~= old(fuses)@);
        timed
    }

    /// Whether the event was not defused.
    pub fn is_fused(&self, fuses: &Fuses) -> (fused: bool)
        requires
            fuses@.contains_key(self.key()),
        ensures
            fused == fuses@[self.key()].fused,
    {
        match fuses.fuses.get(&self.key) {
            Some(fuse) => fuse.fused,
            None => false,
        }
    }

    /// A handle by which the event is defused.
    pub fn get_handle(&self) -> (handle: TimedHandle)
        ensures
            handle.key() == self.key(),
    {
        TimedHandle(self.key)
    }

    /// Whether another copy of the event can be made.
    pub fn can_be_copied(&self, fuses: &Fuses) -> (left: bool)
        ensures
            left == (fuses@.contains_key(self.key()) && fuses@[self.key()].copies < usize::MAX),
    {
        match fuses.fuses.get(&self.key) {
            Some(fuse) => fuse.copies < usize::MAX,
            None => false,
        }
    }

    /// Another copy of the event.
    pub fn duplicate(&self, fuses: &mut Fuses) -> (copy: TimedEvent)
        requires
            old(fuses).wf(),
            old(fuses)@.contains_key(self.key()),
            old(fuses)@[self.key()].copies < usize::MAX,
        ensures
            final(fuses).wf(),
            copy.key() == self.key(),
            final(fuses).next() == old(fuses).next(),
            final(fuses)@ == with_copy(old(fuses)@, self.key()),
    {
        if let Some(fuse) = fuses.fuses.remove(&self.key) {
            fuses.fuses.insert(self.key, Fuse { fused: fuse.fused, copies: fuse.copies + 1 });
            assert(fuses@ =~= with_copy(old(fuses)@, self.key()));
        }
        TimedEvent { key: self.key }
    }

    /// Gives this copy of the event up. The fuse goes with the last copy.
    pub fn release(self, fuses: &mut Fuses)
        requires
            old(fuses).wf(),
            old(fuses)@.contains_key(self.key()),
        ensures
            final(fuses).wf(),
            final(fuses).next() == old(fuses).next(),
            final(fuses)@ == without_copy(old(fuses)@, self.key()),
    {
        if let Some(fuse) = fuses.fuses.remove(&self.key) {
            if fuse.copies > 1 {
                fuses.fuses.insert(self.key, Fuse { fused: fuse.fused, copies: fuse.copies - 1 });
            }
            assert(fuses@ =~= without_copy(old(fuses)@, self.key()));
        }
    }
}

/// A new event is there under `key`, fused and without copies, and the others are
/// as they were.
pub open spec fn is_new_event(before: Map<u64, Fuse>, key: u64, after: Map<u64, Fuse>) -> bool {
    &&& !before.contains_key(key)
    &&& after.contains_key(key)
    &&& after[key].fused
    &&& after[key].copies == 1
    &&& after.remove(key) == before
}

/// The fuses once another copy of event `key` was made.
pub open spec fn with_copy(fuses: Map<u64, Fuse>, key: u64) -> Map<u64, Fuse> {
    fuses.insert(
        key,
        Fuse { fused: fuses[key].fused, copies: (fuses[key].copies + 1) as usize },
    )
}

/// The fuses once a copy of event `key` was given up.
pub open spec fn without_copy(fuses: Map<u64, Fuse>, key: u64) -> Map<u64, Fuse> {
    if fuses[key].copies > 1 {
        fuses.insert(
            key,
            Fuse { fused: fuses[key].fused, copies: (fuses[key].copies - 1) as usize },
        )
    } else {
        fuses.remove(key)
    }
}

/// The fuses once event `key` was defused, if a copy of it is left.
pub open spec fn defused(fuses: Map<u64, Fuse>, key: u64) -> Map<u64, Fuse> {
    if fuses.contains_key(key) {
        fuses.insert(key, Fuse { fused: false, copies: fuses[key].copies })
    } else {
        fuses
    }
}

impl Clone for TimedHandle {
    fn clone(&self) -> (handle: TimedHandle)
        ensures
            handle.key() == self.key(),
    {
        TimedHandle(self.0)
    }
}

impl TimedHandle {
    /// The key of the event's fuse.
    pub closed spec fn key(&self) -> u64 {
        self.0
    }

    /// The handle as text: it says whether a copy of the event is left.
    pub fn describe(&self, fuses: &Fuses) -> (text: String)
        ensures
            text@ == (if fuses@.contains_key(self.key()) {
                "TimedHandle { is_live: true }"@
            } else {
                "TimedHandle { is_live: false }"@
            }),
    {
        if fuses.fuses.contains_key(&self.0) {
            "TimedHandle { is_live: true }".to_owned()
        } else {
            "TimedHandle { is_live: false }".to_owned()
        }
    }

    /// Defuses the event, if a copy of it is left.
    pub fn defuse(self, fuses: &mut Fuses)
        requires
            old(fuses).wf(),
        ensures
            final(fuses).wf(),
            final(fuses).next() == old(fuses).next(),
            final(fuses)@ == defused(old(fuses)@, self.key()),
    {
        match fuses.fuses.remove(&self.0) {
            Some(fuse) => {
                fuses.fuses.insert(self.0, Fuse { fused: false, copies: fuse.copies });
                assert(fuses@ =~= defused(old(fuses)@, self.key()));
            },
            None => {
                assert(fuses@ =~= old(fuses)@);
            },
        }
    }
}

impl Timer {
    /// A timer. There is nothing to spawn for it.
    pub fn new(spawn_blocking: bool) -> Timer {
        Timer
    }

    /// Takes an event, and gives it up.
    pub fn add(&self, event: TimedEvent, fuses: &mut Fuses)
        requires
            old(fuses).wf(),
            old(fuses)@.contains_key(event.key()),
        ensures
            final(fuses).wf(),
            final(fuses).next() == old(fuses).next(),
            final(fuses)@ == without_copy(old(fuses)@, event.key()),
    {
        event.release(fuses);
    }

    /// Takes an event, and gives it up.
    pub fn add_async(&self, event: TimedEvent, fuses: &mut Fuses)
        requires
            old(fuses).wf(),
            old(fuses)@.contains_key(event.key()),
        ensures
            final(fuses).wf(),
            final(fuses).next() == old(fuses).next(),
            final(fuses)@ == without_copy(old(fuses)@, event.key()),
    {
        event.release(fuses);
    }
}

/// A defused event stays defused, whatever happens to other events and to its
/// copies, for as long as one is left. A copy of it is defused too.
pub proof fn defusing_is_final(fuses: Map<u64, Fuse>, key: u64, other: u64, fresh: u64)
    requires
        fuses.contains_key(key),
        fuses.contains_key(other),
        !fuses.contains_key(fresh),
    ensures
        !defused(fuses, key)[key].fused,
        !fuses[key].fused ==> {
            &&& !defused(fuses, other)[key].fused
            &&& without_copy(fuses, other).contains_key(key) ==> !without_copy(
                fuses,
                other,
            )[key].fused
            &&& !with_copy(fuses, other)[key].fused
            &&& !fuses.insert(fresh, Fuse { fused: true, copies: 1 })[key].fused
        },
{
}

/// Defusing an event changes no other event, and an event of which no copy is
/// left cannot be defused.
pub proof fn defusing_touches_one_event(fuses: Map<u64, Fuse>, key: u64, other: u64)
    requires
        other != key,
    ensures
        defused(fuses, key).contains_key(other) == fuses.contains_key(other),
        defused(fuses, key)[other] == fuses[other],
        !fuses.contains_key(key) ==> defused(fuses, key) == fuses,
{
}

/// A copy that is given up leaves things as they were before it was made, and
/// neither making nor giving up a copy touches another event or the fuse.
pub proof fn giving_a_copy_up_undoes_making_it(fuses: Map<u64, Fuse>, key: u64, other: u64)
    requires
        fuses.contains_key(key),
        0 < fuses[key].copies < usize::MAX,
        other != key,
    ensures
        without_copy(with_copy(fuses, key), key) == fuses,
        with_copy(fuses, key).contains_key(key),
        with_copy(fuses, key)[key].fused == fuses[key].fused,
        with_copy(fuses, key)[key].copies == fuses[key].copies + 1,
        with_copy(fuses, key).contains_key(other) == fuses.contains_key(other),
        with_copy(fuses, key)[other] == fuses[other],
        without_copy(fuses, key).contains_key(other) == fuses.contains_key(other),
        without_copy(fuses, key)[other] == fuses[other],
{
    assert(without_copy(with_copy(fuses, key), key) =~= fuses);
}

/// An event lasts until its last copy is given up, and is fused for as long as
/// nobody defused it.
pub proof fn events_last_as_long_as_a_copy(fuses: Map<u64, Fuse>, key: u64)
    requires
        fuses.contains_key(key),
        fuses[key].copies > 0,
    ensures
        without_copy(fuses, key).contains_key(key) <==> fuses[key].copies > 1,
        fuses[key].copies > 1 ==> {
            &&& without_copy(fuses, key)[key].fused == fuses[key].fused
            &&& without_copy(fuses, key)[key].copies == fuses[key].copies - 1
        },
        defused(fuses, key).contains_key(key),
        defused(fuses, key)[key].copies == fuses[key].copies,
{
}

/// A new event is fused, has a fuse of its own, and is gone with its only copy.
/// Making it changes no other event.
pub proof fn new_events_are_fused(
    before: Map<u64, Fuse>,
    key: u64,
    after: Map<u64, Fuse>,
    other: u64,
)
    requires
        is_new_event(before, key, after),
        other != key,
    ensures
        after[key].fused,
        !before.contains_key(key),
        without_copy(after, key) == before,
        after.contains_key(other) == before.contains_key(other),
        before.contains_key(other) ==> after[other] == before[other],
{
    assert(after.remove(key).contains_key(other) == before.contains_key(other));
    if before.contains_key(other) {
        assert(after.remove(key)[other] == before[other]);
    }
}

} // verus!
