//! What holds of whole turns of an executor.
//!
//! In a turn the executor polls one task after the other. While a task is
//! polled, tasks are woken and futures are spawned, by that task or on other
//! threads. The laws here are those of an executor on which no blocking call is
//! running.

use crate::executor::{
    lemma_admitted_wf, lemma_popped_wf, ExecutorView, Worker, PUMP_BUDGET,
};
use crate::wake::WakeView;
use vstd::prelude::*;

verus! {

/// A task that was polled in a turn, and what happened meanwhile.
pub struct PolledTask<F> {
    pub id: usize,
    pub future: F,
    /// The tasks that were woken, in that order.
    pub wakes: Seq<usize>,
    /// The futures that were spawned, in that order.
    pub spawns: Seq<F>,
    /// The future, if it is pending.
    pub pending: Option<F>,
}

/// A turn: what the worker was before each step, what was left of the budget,
/// which task was polled in each step, and what the worker was at the end.
pub struct Turn<F, W> {
    pub states: Seq<Worker<F, W>>,
    pub left: Seq<nat>,
    pub polled: Seq<PolledTask<F>>,
    pub end: Worker<F, W>,
}

/// The state once the tasks in `wakes` were woken, one after the other.
pub open spec fn woken_all<W>(wake: WakeView<W>, wakes: Seq<usize>) -> WakeView<W>
    decreases wakes.len(),
{
    if wakes.len() == 0 {
        wake
    } else {
        woken_all(wake, wakes.drop_last()).woken(wakes.last())
    }
}

/// What may happen to the shared half of an executor between two steps: the
/// tasks in `wakes` are woken, and timers come and go.
pub open spec fn changed_by<W>(
    before: WakeView<W>,
    after: WakeView<W>,
    wakes: Seq<usize>,
) -> bool {
    &&& after.wf()
    &&& after.executor == before.executor
    &&& after.queue == woken_all(before, wakes).queue
}

/// What may happen to a worker between two turns: the tasks in `wakes` are
/// woken, and the futures in `spawns` are spawned.
pub open spec fn meanwhile<F, W>(
    before: Worker<F, W>,
    after: Worker<F, W>,
    wakes: Seq<usize>,
    spawns: Seq<F>,
) -> bool {
    &&& changed_by(before.wake, after.wake, wakes)
    &&& forall|i: int| 0 <= i < wakes.len() ==> #[trigger] wakes[i] < before.executor.next_id
    &&& after.executor == (ExecutorView {
        spawned: before.executor.spawned + spawns,
        ..before.executor
    })
}

/// There is an id for every future that waits for one.
pub open spec fn has_ids<F, W>(w: Worker<F, W>) -> bool {
    w.executor.next_id + w.executor.spawned.len() <= usize::MAX
}

/// One step of a turn: with `budget` left, the worker goes on until task `x` is
/// to be polled; the task is polled and handed back.
pub open spec fn poll_step<F, W>(
    w: Worker<F, W>,
    budget: nat,
    x: PolledTask<F>,
    next: Worker<F, W>,
    left: nat,
) -> bool {
    let (polling, rest, task) = w.pumped(budget);
    &&& task == Some((x.id, x.future))
    &&& left == rest
    &&& changed_by(polling.wake, next.wake, x.wakes)
    &&& forall|i: int| 0 <= i < x.wakes.len() ==> #[trigger] x.wakes[i] < polling.executor.next_id
    &&& next.executor == (ExecutorView {
        spawned: polling.executor.spawned + x.spawns,
        ..polling.executor
    }).returned(x.id, x.pending)
}

impl<F, W> Turn<F, W> {
    /// The parts of the turn fit together, and the turn is over at its end.
    pub open spec fn wf(self) -> bool {
        &&& self.states.len() == self.polled.len() + 1
        &&& self.left.len() == self.polled.len() + 1
        &&& self.states[0].wf()
        &&& self.states[0].executor.active == Set::<usize>::empty()
        &&& forall|i: int| 0 <= i < self.states.len() ==> has_ids(#[trigger] self.states[i])
        &&& forall|i: int|
            0 <= i < self.polled.len() ==> #[trigger] poll_step(
                self.states[i],
                self.left[i],
                self.polled[i],
                self.states[i + 1],
                self.left[i + 1],
            )
        &&& self.states.last().pumped(self.left.last()).0 == self.end
        &&& self.states.last().pumped(self.left.last()).2 is None
    }

    /// The turn has its whole budget.
    pub open spec fn is_whole(self) -> bool {
        self.wf() && self.left[0] == PUMP_BUDGET
    }

    /// Task `id` is not woken while the turn lasts.
    pub open spec fn leaves_alone(self, id: usize) -> bool {
        forall|i: int|
            0 <= i < self.polled.len() ==> !(#[trigger] self.polled[i]).wakes.contains(id)
    }

    /// Task `id` is polled in step `i`.
    pub open spec fn polls_at(self, id: usize, i: int) -> bool {
        0 <= i < self.polled.len() && self.polled[i].id == id
    }
}

/// Once the spawned futures are tasks, task `id` is live, its future is
/// `future`, and it is queued with `place` others before it.
pub open spec fn waits<F, W>(w: Worker<F, W>, id: usize, future: F, place: int) -> bool {
    let ready = w.admitted();
    &&& 0 <= place < ready.wake.queue.len()
    &&& ready.wake.queue[place] == id
    &&& ready.executor.tasks.contains_key(id)
    &&& ready.executor.tasks[id] == future
}

/// Once the spawned futures are tasks, none of the first `place` ids is `id`.
pub open spec fn is_not_before<F, W>(w: Worker<F, W>, id: usize, place: int) -> bool {
    forall|i: int| 0 <= i < place ==> #[trigger] w.admitted().wake.queue[i] != id
}

proof fn lemma_admitted<F, W>(w: Worker<F, W>)
    requires
        w.wf(),
        has_ids(w),
    ensures
        w.admitted().wf(),
        w.admitted().executor.active == w.executor.active,
        w.admitted().executor.next_id >= w.executor.next_id,
        w.admitted().wake.queue.len() == w.wake.queue.len() + w.executor.spawned.len(),
        forall|i: int|
            0 <= i < w.wake.queue.len() ==> #[trigger] w.admitted().wake.queue[i]
                == w.wake.queue[i],
        forall|i: int|
            w.wake.queue.len() <= i < w.admitted().wake.queue.len() ==> #[trigger] w.admitted().wake.queue[i]
                >= w.executor.next_id,
        forall|t: usize|
            t < w.executor.next_id ==> (#[trigger] w.admitted().executor.tasks.contains_key(t)
                <==> w.executor.tasks.contains_key(t)),
        forall|t: usize|
            t < w.executor.next_id && w.executor.tasks.contains_key(t)
                ==> #[trigger] w.admitted().executor.tasks[t] == w.executor.tasks[t],
{
    lemma_admitted_wf(w);
}

proof fn lemma_nothing_to_admit<F, W>(w: Worker<F, W>)
    requires
        w.executor.spawned.len() == 0,
    ensures
        w.admitted() == w,
{
    assert(w.admitted().executor.tasks =~= w.executor.tasks);
    assert(w.admitted().wake.queue =~= w.wake.queue);
    assert(w.admitted().executor.spawned =~= w.executor.spawned);
    assert(w.admitted() =~= w);
}

/// What a step goes through: ids without a task, and then the task to poll.
proof fn lemma_pumped<F, W>(w: Worker<F, W>, budget: nat)
    requires
        w.wf(),
        has_ids(w),
        w.executor.active == Set::<usize>::empty(),
    ensures
        ({
            let ready = w.admitted();
            let (after, left, task) = w.pumped(budget);
            match task {
                Some((id, future)) => {
                    let n = budget - left;
                    &&& 1 <= n <= ready.wake.queue.len()
                    &&& id == ready.wake.queue[n - 1]
                    &&& ready.executor.tasks.contains_key(id)
                    &&& future == ready.executor.tasks[id]
                    &&& forall|i: int|
                        0 <= i < n - 1 ==> !ready.executor.tasks.contains_key(
                            #[trigger] ready.wake.queue[i],
                        )
                    &&& after.wake == (WakeView { queue: ready.wake.queue.skip(n), ..ready.wake })
                    &&& after.executor == ready.polling(id).executor
                },
                None => {
                    let n = if budget < ready.wake.queue.len() {
                        budget as int
                    } else {
                        ready.wake.queue.len() as int
                    };
                    &&& left == 0
                    &&& forall|i: int|
                        0 <= i < n ==> !ready.executor.tasks.contains_key(
                            #[trigger] ready.wake.queue[i],
                        )
                    &&& budget == 0 ==> after == w
                    &&& budget > 0 ==> {
                        &&& after.wake == (WakeView {
                            queue: ready.wake.queue.skip(n),
                            ..ready.wake
                        })
                        &&& after.executor == ready.executor
                    }
                },
            }
        }),
    decreases budget,
{
    if budget > 0 {
        let ready = w.admitted();
        lemma_admitted(w);
        let queue = ready.wake.queue;
        if queue.len() == 0 {
            assert(queue.skip(0) =~= queue);
        } else {
            let id = queue[0];
            let rest = ready.popped();
            lemma_popped_wf(ready);
            assert(queue.skip(1) =~= rest.wake.queue);
            if !rest.executor.tasks.contains_key(id) {
                let left = (budget - 1) as nat;
                lemma_nothing_to_admit(rest);
                lemma_pumped(rest, left);
                assert(w.pumped(budget) == rest.pumped(left));
                assert forall|n: int| 0 <= n < queue.len() implies #[trigger] rest.wake.queue.skip(
                    n,
                ) == queue.skip(n + 1) by {
                    assert(rest.wake.queue.skip(n) =~= queue.skip(n + 1));
                }
                let (after, over, task) = w.pumped(budget);
                let m = match task {
                    Some(_) => left - over,
                    None => if left < rest.wake.queue.len() {
                        left as int
                    } else {
                        rest.wake.queue.len() as int
                    },
                };
                assert(rest.wake.queue.skip(m) == queue.skip(m + 1));
                assert forall|i: int|
                    0 <= i < (if task is Some {
                        m
                    } else {
                        m + 1
                    }) implies !ready.executor.tasks.contains_key(#[trigger] queue[i]) by {
                    if i > 0 {
                        assert(rest.wake.queue[i - 1] == queue[i]);
                    }
                }
            }
        }
    }
}

proof fn lemma_woken_all<W>(wake: WakeView<W>, wakes: Seq<usize>)
    ensures
        woken_all(wake, wakes).queue.len() >= wake.queue.len(),
        forall|i: int|
            0 <= i < wake.queue.len() ==> #[trigger] woken_all(wake, wakes).queue[i]
                == wake.queue[i],
        forall|i: int|
            wake.queue.len() <= i < woken_all(wake, wakes).queue.len() ==> wakes.contains(
                #[trigger] woken_all(wake, wakes).queue[i],
            ),
    decreases wakes.len(),
{
    if wakes.len() > 0 {
        let shorter = wakes.drop_last();
        lemma_woken_all(wake, shorter);
        let queue = woken_all(wake, wakes).queue;
        let before = woken_all(wake, shorter).queue;
        assert forall|i: int| wake.queue.len() <= i < queue.len() implies wakes.contains(
            #[trigger] queue[i],
        ) by {
            if i < before.len() {
                assert(queue[i] == before[i]);
                let k = shorter.index_of(before[i]);
                assert(wakes[k] == before[i]);
            } else {
                assert(wakes[wakes.len() - 1] == queue[i]);
            }
        }
    }
}

/// What a step does to the queue: the ids that it goes through leave the front,
/// and nothing is put before those that stay.
proof fn lemma_step<F, W>(
    w: Worker<F, W>,
    budget: nat,
    x: PolledTask<F>,
    next: Worker<F, W>,
    left: nat,
)
    requires
        w.wf(),
        has_ids(w),
        w.executor.active == Set::<usize>::empty(),
        poll_step(w, budget, x, next, left),
    ensures
        ({
            let ready = w.admitted();
            let n = budget - left;
            &&& next.wf()
            &&& next.executor.active == Set::<usize>::empty()
            &&& next.executor.next_id == ready.executor.next_id
            &&& 1 <= n <= ready.wake.queue.len()
            &&& x.id == ready.wake.queue[n - 1]
            &&& ready.executor.tasks.contains_key(x.id)
            &&& ready.executor.tasks[x.id] == x.future
            &&& forall|i: int|
                0 <= i < n - 1 ==> !ready.executor.tasks.contains_key(
                    #[trigger] ready.wake.queue[i],
                )
            &&& next.wake.queue.len() >= ready.wake.queue.len() - n
            &&& forall|i: int|
                n <= i < ready.wake.queue.len() ==> next.wake.queue[i - n]
                    == #[trigger] ready.wake.queue[i]
            &&& forall|i: int|
                ready.wake.queue.len() - n <= i < next.wake.queue.len() ==> x.wakes.contains(
                    #[trigger] next.wake.queue[i],
                )
            &&& forall|t: usize|
                t != x.id ==> (#[trigger] next.executor.tasks.contains_key(t)
                    <==> ready.executor.tasks.contains_key(t))
            &&& forall|t: usize|
                t != x.id && ready.executor.tasks.contains_key(t)
                    ==> #[trigger] next.executor.tasks[t] == ready.executor.tasks[t]
            &&& next.executor.tasks.contains_key(x.id) <==> x.pending is Some
        }),
{
    let ready = w.admitted();
    lemma_admitted(w);
    lemma_pumped(w, budget);
    let (polling, rest, task) = w.pumped(budget);
    let n = budget - left;
    lemma_woken_all(polling.wake, x.wakes);
    assert(next.executor.active =~= Set::<usize>::empty());
    assert forall|i: int| 0 <= i < next.wake.queue.len() implies #[trigger] next.wake.queue[i]
        < next.executor.next_id by {
        if i < polling.wake.queue.len() {
            assert(next.wake.queue[i] == ready.wake.queue[n + i]);
        } else {
            let k = x.wakes.index_of(next.wake.queue[i]);
            assert(x.wakes.contains(next.wake.queue[i]));
            assert(x.wakes[k] < polling.executor.next_id);
        }
    }
    assert forall|i: int| n <= i < ready.wake.queue.len() implies next.wake.queue[i - n]
        == #[trigger] ready.wake.queue[i] by {
        assert(polling.wake.queue[i - n] == ready.wake.queue[i]);
    }
}

/// A task that waits comes forward by the ids that a step goes through, or is
/// polled.
proof fn lemma_waits_step<F, W>(
    w: Worker<F, W>,
    budget: nat,
    x: PolledTask<F>,
    next: Worker<F, W>,
    left: nat,
    id: usize,
    future: F,
    place: int,
)
    requires
        w.wf(),
        has_ids(w),
        has_ids(next),
        w.executor.active == Set::<usize>::empty(),
        poll_step(w, budget, x, next, left),
        waits(w, id, future, place),
    ensures
        if x.id == id {
            x.future == future && budget - left == place + 1
        } else {
            &&& budget - left <= place
            &&& waits(next, id, future, place - (budget - left))
        },
        forall|other: usize|
            other != id && #[trigger] is_not_before(w, other, place) && x.id != id ==> x.id
                != other && is_not_before(next, other, place - (budget - left)),
{
    let ready = w.admitted();
    lemma_admitted(w);
    lemma_step(w, budget, x, next, left);
    lemma_admitted(next);
    let n = budget - left;
    if x.id == id {
        if place != n - 1 {
            assert(ready.wake.queue[place] == ready.wake.queue[n - 1]);
        }
    } else {
        assert(ready.executor.tasks.contains_key(ready.wake.queue[place]));
        assert(place >= n);
        assert(next.wake.queue[place - n] == ready.wake.queue[place]);
        assert(next.admitted().wake.queue[place - n] == next.wake.queue[place - n]);
        assert(id < next.executor.next_id);
        assert(next.executor.tasks.contains_key(id));
        assert(next.admitted().executor.tasks.contains_key(id));
        assert(next.admitted().executor.tasks[id] == next.executor.tasks[id]);
        assert forall|other: usize|
            other != id && #[trigger] is_not_before(w, other, place) implies x.id != other
            && is_not_before(next, other, place - n) by {
            assert(ready.wake.queue[n - 1] != other);
            assert forall|i: int| 0 <= i < place - n implies #[trigger] next.admitted().wake.queue[i]
                != other by {
                assert(next.wake.queue[i] == ready.wake.queue[i + n]);
            }
        }
    }
}

/// Every state of a turn is well formed, and no task is being polled in it.
proof fn lemma_states<F, W>(turn: Turn<F, W>, i: int)
    requires
        turn.wf(),
        0 <= i < turn.states.len(),
    ensures
        turn.states[i].wf(),
        turn.states[i].executor.active == Set::<usize>::empty(),
        has_ids(turn.states[i]),
        turn.states[i].executor.next_id >= turn.states[0].executor.next_id,
    decreases i,
{
    if i > 0 {
        lemma_states(turn, i - 1);
        assert(poll_step(
            turn.states[i - 1],
            turn.left[i - 1],
            turn.polled[i - 1],
            turn.states[i - 1 + 1],
            turn.left[i - 1 + 1],
        ));
        lemma_step(
            turn.states[i - 1],
            turn.left[i - 1],
            turn.polled[i - 1],
            turn.states[i],
            turn.left[i],
        );
        lemma_admitted(turn.states[i - 1]);
    }
}

/// A task that waits in state `i` is polled in a later step, or waits at the
/// end, with no more ids before it.
proof fn lemma_waits_to_the_end<F, W>(
    turn: Turn<F, W>,
    i: int,
    id: usize,
    future: F,
    place: int,
) -> (k: int)
    requires
        turn.wf(),
        0 <= i < turn.states.len(),
        waits(turn.states[i], id, future, place),
    ensures
        i <= k <= turn.polled.len(),
        forall|j: int| i <= j < k ==> (#[trigger] turn.polled[j]).id != id,
        if k < turn.polled.len() {
            turn.polled[k].id == id && turn.polled[k].future == future
        } else {
            &&& turn.left[i] <= place
            &&& turn.end.wf()
            &&& has_ids(turn.end)
            &&& turn.end.executor.active == Set::<usize>::empty()
            &&& waits(turn.end, id, future, place - turn.left[i])
        },
    decreases turn.states.len() - i,
{
    let w = turn.states[i];
    lemma_states(turn, i);
    if i < turn.polled.len() {
        assert(poll_step(w, turn.left[i], turn.polled[i], turn.states[i + 1], turn.left[i + 1]));
        assert(has_ids(turn.states[i + 1]));
        lemma_waits_step(
            w,
            turn.left[i],
            turn.polled[i],
            turn.states[i + 1],
            turn.left[i + 1],
            id,
            future,
            place,
        );
        if turn.polled[i].id == id {
            i
        } else {
            lemma_waits_to_the_end(
                turn,
                i + 1,
                id,
                future,
                place - (turn.left[i] - turn.left[i + 1]),
            )
        }
    } else {
        let ready = w.admitted();
        lemma_admitted(w);
        lemma_pumped(w, turn.left[i]);
        let n = turn.left[i];
        assert(ready.executor.tasks.contains_key(ready.wake.queue[place]));
        assert(n <= place);
        if n > 0 {
            let end = turn.end;
            assert(end.wake.queue =~= ready.wake.queue.skip(n as int));
            assert(end.wf()) by {
                assert forall|a: int, b: int|
                    0 <= a < b < end.wake.queue.len() implies end.wake.queue[a]
                    != end.wake.queue[b] by {
                    assert(ready.wake.queue[a + n] != ready.wake.queue[b + n]);
                }
                assert forall|a: int| 0 <= a < end.wake.queue.len() implies #[trigger]
                    end.wake.queue[a] < end.executor.next_id by {
                    assert(ready.wake.queue[a + n] < ready.executor.next_id);
                }
            }
            lemma_nothing_to_admit(end);
        }
        i
    }
}

/// An id that is neither queued nor woken is not polled.
proof fn lemma_unwoken<F, W>(turn: Turn<F, W>, i: int, id: usize)
    requires
        turn.wf(),
        0 <= i < turn.states.len(),
        id < turn.states[i].executor.next_id,
        !turn.states[i].wake.queue.contains(id),
        turn.leaves_alone(id),
    ensures
        forall|j: int| i <= j < turn.polled.len() ==> (#[trigger] turn.polled[j]).id != id,
        turn.end.executor.tasks.contains_key(id) <==> turn.states[i].executor.tasks.contains_key(
            id,
        ),
        turn.states[i].executor.tasks.contains_key(id) ==> turn.end.executor.tasks[id]
            == turn.states[i].executor.tasks[id],
    decreases turn.states.len() - i,
{
    let w = turn.states[i];
    let ready = w.admitted();
    lemma_states(turn, i);
    lemma_admitted(w);
    assert(!ready.wake.queue.contains(id)) by {
        if ready.wake.queue.contains(id) {
            let k = ready.wake.queue.index_of(id);
            if k < w.wake.queue.len() {
                assert(w.wake.queue[k] == id);
            }
        }
    }
    if i < turn.polled.len() {
        let x = turn.polled[i];
        let next = turn.states[i + 1];
        assert(poll_step(w, turn.left[i], x, next, turn.left[i + 1]));
        lemma_step(w, turn.left[i], x, next, turn.left[i + 1]);
        let n = turn.left[i] - turn.left[i + 1];
        assert(x.id != id);
        assert(!x.wakes.contains(id));
        assert(!next.wake.queue.contains(id)) by {
            if next.wake.queue.contains(id) {
                let k = next.wake.queue.index_of(id);
                if k < ready.wake.queue.len() - n {
                    assert(ready.wake.queue[k + n] == next.wake.queue[k + n - n]);
                } else {
                    assert(x.wakes.contains(next.wake.queue[k]));
                }
            }
        }
        lemma_unwoken(turn, i + 1, id);
        assert forall|j: int| i <= j < turn.polled.len() implies (#[trigger] turn.polled[j]).id
            != id by {}
    } else {
        lemma_pumped(w, turn.left[i]);
    }
}

/// Ready tasks are polled in the order of the queue, which is that in which
/// they were woken: if `first` is queued before `second` in state `i`, or
/// `second` is not queued there, then `second` is not polled before `first`.
pub proof fn ready_tasks_are_polled_in_queue_order<F, W>(
    turn: Turn<F, W>,
    i: int,
    j: int,
    first: usize,
    future: F,
    place: int,
    second: usize,
)
    requires
        turn.wf(),
        0 <= i <= j,
        turn.polls_at(second, j),
        first != second,
        waits(turn.states[i], first, future, place),
        is_not_before(turn.states[i], second, place),
    ensures
        exists|k: int| i <= k < j && #[trigger] turn.polls_at(first, k),
    decreases j - i,
{
    let w = turn.states[i];
    lemma_states(turn, i);
    assert(poll_step(w, turn.left[i], turn.polled[i], turn.states[i + 1], turn.left[i + 1]));
    assert(has_ids(turn.states[i + 1]));
    lemma_waits_step(
        w,
        turn.left[i],
        turn.polled[i],
        turn.states[i + 1],
        turn.left[i + 1],
        first,
        future,
        place,
    );
    if turn.polled[i].id == first {
        assert(turn.polls_at(first, i));
    } else {
        ready_tasks_are_polled_in_queue_order(
            turn,
            i + 1,
            j,
            first,
            future,
            place - (turn.left[i] - turn.left[i + 1]),
            second,
        );
        let k = choose|k: int| i + 1 <= k < j && #[trigger] turn.polls_at(first, k);
        assert(turn.polls_at(first, k));
    }
}

/// No ready task is overtaken twice: between two polls of one task, whatever
/// woke it, every other task is polled that was ready when the first of the two
/// began.
pub proof fn no_ready_task_is_overtaken_twice<F, W>(
    turn: Turn<F, W>,
    i: int,
    j: int,
    id: usize,
    other: usize,
)
    requires
        turn.wf(),
        0 <= i < j,
        turn.polls_at(id, i),
        turn.polls_at(id, j),
        other != id,
        turn.states[i].pumped(turn.left[i]).0.wake.queue.contains(other),
        turn.states[i].pumped(turn.left[i]).0.executor.tasks.contains_key(other),
    ensures
        exists|k: int| i < k < j && #[trigger] turn.polls_at(other, k),
{
    let w = turn.states[i];
    let next = turn.states[i + 1];
    let x = turn.polled[i];
    lemma_states(turn, i);
    assert(poll_step(w, turn.left[i], x, next, turn.left[i + 1]));
    lemma_pumped(w, turn.left[i]);
    lemma_step(w, turn.left[i], x, next, turn.left[i + 1]);
    lemma_states(turn, i + 1);
    lemma_admitted(w);
    lemma_admitted(next);
    let ready = w.admitted();
    let n = turn.left[i] - turn.left[i + 1];
    let polling = w.pumped(turn.left[i]).0;
    let place = polling.wake.queue.index_of(other);
    let future = ready.executor.tasks[other];
    assert(polling.wake.queue[place] == ready.wake.queue[place + n]);
    assert(next.wake.queue[place + n - n] == ready.wake.queue[place + n]);
    assert(next.admitted().wake.queue[place] == next.wake.queue[place]);
    assert(ready.wake.queue[place + n] < ready.executor.next_id);
    assert(next.executor.tasks.contains_key(other));
    assert(next.admitted().executor.tasks.contains_key(other));
    assert(waits(next, other, future, place));
    assert(is_not_before(next, id, place)) by {
        assert forall|a: int| 0 <= a < place implies #[trigger] next.admitted().wake.queue[a]
            != id by {
            assert(next.wake.queue[a + n - n] == ready.wake.queue[a + n]);
            assert(ready.wake.queue[a + n] != ready.wake.queue[n - 1]);
        }
    }
    ready_tasks_are_polled_in_queue_order(turn, i + 1, j, other, future, place, id);
    let k = choose|k: int| i + 1 <= k < j && #[trigger] turn.polls_at(other, k);
    assert(turn.polls_at(other, k));
}

/// A task that was woken before a turn, however often, and is not woken again
/// while the turn lasts, is polled in it exactly once, if fewer ids are queued
/// before it than a turn goes through.
pub proof fn a_woken_task_is_polled_once<F, W>(turn: Turn<F, W>, id: usize)
    requires
        turn.is_whole(),
        turn.states[0].wake.queue.contains(id),
        turn.states[0].wake.queue.index_of(id) < PUMP_BUDGET,
        turn.states[0].executor.tasks.contains_key(id),
        turn.leaves_alone(id),
    ensures
        exists|k: int|
            {
                &&& #[trigger] turn.polls_at(id, k)
                &&& turn.polled[k].future == turn.states[0].executor.tasks[id]
                &&& forall|j: int| #[trigger] turn.polls_at(id, j) ==> j == k
            },
{
    let w = turn.states[0];
    lemma_states(turn, 0);
    lemma_admitted(w);
    let place = w.wake.queue.index_of(id);
    let future = w.executor.tasks[id];
    assert(w.admitted().wake.queue[place] == w.wake.queue[place]);
    assert(w.wake.queue[place] < w.executor.next_id);
    assert(w.admitted().executor.tasks.contains_key(id));
    assert(w.admitted().executor.tasks[id] == future);
    assert(waits(w, id, future, place));
    let k = lemma_waits_to_the_end(turn, 0, id, future, place);
    assert(turn.polls_at(id, k));
    lemma_states(turn, k);
    lemma_polled_leaves_queue(turn, k);
    lemma_states(turn, k + 1);
    lemma_unwoken(turn, k + 1, id);
    assert forall|j: int| #[trigger] turn.polls_at(id, j) implies j == k by {
        if j < k {
            assert(turn.polled[j].id != id);
        } else if j > k {
            assert(turn.polled[j].id != id);
        }
    }
}

/// The task of a step is queued after it only if it was woken meanwhile.
proof fn lemma_polled_leaves_queue<F, W>(turn: Turn<F, W>, k: int)
    requires
        turn.wf(),
        0 <= k < turn.polled.len(),
        !turn.polled[k].wakes.contains(turn.polled[k].id),
    ensures
        !turn.states[k + 1].wake.queue.contains(turn.polled[k].id),
        turn.polled[k].id < turn.states[k + 1].executor.next_id,
{
    let w = turn.states[k];
    let next = turn.states[k + 1];
    let x = turn.polled[k];
    lemma_states(turn, k);
    lemma_admitted(w);
    assert(poll_step(w, turn.left[k], x, next, turn.left[k + 1]));
    lemma_step(w, turn.left[k], x, next, turn.left[k + 1]);
    let ready = w.admitted();
    let n = turn.left[k] - turn.left[k + 1];
    if next.wake.queue.contains(x.id) {
        let a = next.wake.queue.index_of(x.id);
        if a < ready.wake.queue.len() - n {
            assert(next.wake.queue[a + n - n] == ready.wake.queue[a + n]);
            assert(ready.wake.queue[a + n] != ready.wake.queue[n - 1]);
        } else {
            assert(x.wakes.contains(next.wake.queue[a]));
        }
    }
}

/// A task that is not woken, before a turn or while it lasts, is not polled in
/// it, and stays as it is.
pub proof fn an_unwoken_task_is_not_polled<F, W>(turn: Turn<F, W>, id: usize, j: int)
    requires
        turn.wf(),
        turn.states[0].executor.tasks.contains_key(id),
        !turn.states[0].wake.queue.contains(id),
        turn.leaves_alone(id),
    ensures
        !turn.polls_at(id, j),
        turn.end.executor.tasks.contains_key(id),
        turn.end.executor.tasks[id] == turn.states[0].executor.tasks[id],
{
    lemma_unwoken(turn, 0, id);
}

/// A task that is done is not polled again, in this turn or in a later one,
/// even if a waker that was kept wakes it: its id is never used again.
pub proof fn done_tasks_are_not_polled_again<F, W>(turn: Turn<F, W>, i: int, id: usize, j: int)
    requires
        turn.wf(),
        0 <= i < turn.states.len(),
        id < turn.states[i].executor.next_id,
        !turn.states[i].executor.tasks.contains_key(id),
    ensures
        i <= j ==> !turn.polls_at(id, j),
        id < turn.end.executor.next_id,
        !turn.end.executor.tasks.contains_key(id),
    decreases turn.states.len() - i,
{
    let w = turn.states[i];
    lemma_states(turn, i);
    lemma_admitted(w);
    assert(!w.admitted().executor.tasks.contains_key(id));
    if i < turn.polled.len() {
        let x = turn.polled[i];
        let next = turn.states[i + 1];
        assert(poll_step(w, turn.left[i], x, next, turn.left[i + 1]));
        lemma_step(w, turn.left[i], x, next, turn.left[i + 1]);
        assert(!next.executor.tasks.contains_key(id));
        done_tasks_are_not_polled_again(turn, i + 1, id, j);
    } else {
        lemma_pumped(w, turn.left[i]);
    }
}

/// A future that waits among those that were spawned has its place in the
/// queue.
proof fn lemma_spawned_waits<F, W>(w: Worker<F, W>, i: int)
    requires
        w.wf(),
        has_ids(w),
        0 <= i < w.executor.spawned.len(),
    ensures
        waits(
            w,
            (w.executor.next_id + i) as usize,
            w.executor.spawned[i],
            w.wake.queue.len() + i,
        ),
{
    lemma_admitted(w);
    let id = (w.executor.next_id + i) as usize;
    assert(w.admitted().wake.queue[w.wake.queue.len() + i] == id);
    assert(w.admitted().executor.tasks.contains_key(id));
}

/// A future that was spawned before a turn is polled in it, if fewer ids are
/// ready before it than a turn goes through. If it is done then, that is its
/// only poll.
pub proof fn spawned_futures_are_polled_in_the_next_turn<F, W>(turn: Turn<F, W>, i: int)
    requires
        turn.is_whole(),
        0 <= i < turn.states[0].executor.spawned.len(),
        turn.states[0].wake.queue.len() + i < PUMP_BUDGET,
    ensures
        ({
            let id = (turn.states[0].executor.next_id + i) as usize;
            exists|k: int|
                {
                    &&& #[trigger] turn.polls_at(id, k)
                    &&& turn.polled[k].future == turn.states[0].executor.spawned[i]
                    &&& forall|j: int| #[trigger] turn.polls_at(id, j) ==> k <= j
                    &&& turn.polled[k].pending is None ==> forall|j: int| #[trigger]
                        turn.polls_at(id, j) ==> j == k
                }
        }),
{
    let w = turn.states[0];
    let id = (w.executor.next_id + i) as usize;
    lemma_states(turn, 0);
    lemma_spawned_waits(w, i);
    let k = lemma_waits_to_the_end(
        turn,
        0,
        id,
        w.executor.spawned[i],
        w.wake.queue.len() + i,
    );
    assert(turn.polls_at(id, k));
    lemma_only_poll(turn, k);
    assert forall|j: int| #[trigger] turn.polls_at(id, j) implies k <= j by {
        if j < k {
            assert(turn.polled[j].id != id);
        }
    }
    if turn.polled[k].pending is None {
        assert forall|j: int| #[trigger] turn.polls_at(id, j) implies j == k by {
            if j > k {
                done_tasks_are_not_polled_again(turn, k + 1, id, j);
            }
        }
    }
}

/// A task that is done when it is polled has no slot after that.
proof fn lemma_only_poll<F, W>(turn: Turn<F, W>, k: int)
    requires
        turn.wf(),
        0 <= k < turn.polled.len(),
    ensures
        turn.polled[k].id < turn.states[k + 1].executor.next_id,
        turn.polled[k].pending is None ==> !turn.states[k + 1].executor.tasks.contains_key(
            turn.polled[k].id,
        ),
{
    let w = turn.states[k];
    lemma_states(turn, k);
    lemma_admitted(w);
    assert(poll_step(
        w,
        turn.left[k],
        turn.polled[k],
        turn.states[k + 1],
        turn.left[k + 1],
    ));
    lemma_step(w, turn.left[k], turn.polled[k], turn.states[k + 1], turn.left[k + 1]);
}

/// A task that waits still waits when others were woken or spawned.
proof fn lemma_waits_meanwhile<F, W>(
    before: Worker<F, W>,
    after: Worker<F, W>,
    wakes: Seq<usize>,
    spawns: Seq<F>,
    id: usize,
    future: F,
    place: int,
) -> (later: int)
    requires
        before.wf(),
        has_ids(before),
        after.wf(),
        has_ids(after),
        meanwhile(before, after, wakes, spawns),
        waits(before, id, future, place),
    ensures
        waits(after, id, future, later),
{
    lemma_admitted(before);
    lemma_admitted(after);
    lemma_woken_all(before.wake, wakes);
    if place < before.wake.queue.len() {
        assert(before.wake.queue[place] == id);
        assert(after.wake.queue[place] == id);
        assert(after.admitted().wake.queue[place] == id);
        assert(after.executor.tasks.contains_key(id));
        assert(after.admitted().executor.tasks.contains_key(id));
        assert(after.admitted().executor.tasks[id] == future);
        place
    } else {
        let i = place - before.wake.queue.len();
        assert(before.admitted().wake.queue[place] == (before.executor.next_id + i) as usize);
        lemma_spawned_waits(after, i);
        assert(after.executor.spawned[i] == before.executor.spawned[i]);
        after.wake.queue.len() + i
    }
}

/// A future that is spawned while a turn lasts, by a task that is being polled
/// or from outside, is polled in the rest of that turn or in the turn after it,
/// if fewer ids are ready before it then than a turn goes through. `rest` is the
/// rest of the turn, with whatever is left of its budget.
pub proof fn spawned_futures_are_polled_by_the_turn_after<F, W>(
    rest: Turn<F, W>,
    wakes: Seq<usize>,
    spawns: Seq<F>,
    next: Turn<F, W>,
    i: int,
)
    requires
        rest.wf(),
        next.is_whole(),
        meanwhile(rest.end, next.states[0], wakes, spawns),
        0 <= i < rest.states[0].executor.spawned.len(),
        forall|place: int| #[trigger]
            waits(
                next.states[0],
                (rest.states[0].executor.next_id + i) as usize,
                rest.states[0].executor.spawned[i],
                place,
            ) ==> place < PUMP_BUDGET,
    ensures
        ({
            let id = (rest.states[0].executor.next_id + i) as usize;
            let future = rest.states[0].executor.spawned[i];
            ||| exists|k: int| #[trigger] rest.polls_at(id, k) && rest.polled[k].future == future
            ||| exists|k: int| #[trigger] next.polls_at(id, k) && next.polled[k].future == future
        }),
{
    let w = rest.states[0];
    let id = (w.executor.next_id + i) as usize;
    let future = w.executor.spawned[i];
    let place = w.wake.queue.len() + i;
    lemma_states(rest, 0);
    lemma_spawned_waits(w, i);
    let k = lemma_waits_to_the_end(rest, 0, id, future, place);
    if k < rest.polled.len() {
        assert(rest.polls_at(id, k));
    } else {
        let later = place - rest.left[0];
        lemma_states(next, 0);
        let moved = lemma_waits_meanwhile(
            rest.end,
            next.states[0],
            wakes,
            spawns,
            id,
            future,
            later,
        );
        lemma_admitted(next.states[0]);
        let m = lemma_waits_to_the_end(next, 0, id, future, moved);
        assert(next.polls_at(id, m));
    }
}

/// The part of a turn from state `i` on.
proof fn lemma_rest_of_turn<F, W>(turn: Turn<F, W>, i: int) -> (rest: Turn<F, W>)
    requires
        turn.wf(),
        0 <= i < turn.states.len(),
    ensures
        rest.wf(),
        rest.states[0] == turn.states[i],
        rest.end == turn.end,
        rest.polled.len() == turn.polled.len() - i,
        forall|k: int|
            0 <= k < rest.polled.len() ==> #[trigger] rest.polled[k] == turn.polled[i + k],
{
    let rest = Turn {
        states: turn.states.skip(i),
        left: turn.left.skip(i),
        polled: turn.polled.skip(i),
        end: turn.end,
    };
    lemma_states(turn, i);
    assert forall|k: int| 0 <= k < rest.states.len() implies has_ids(
        #[trigger] rest.states[k],
    ) by {
        assert(has_ids(turn.states[i + k]));
    }
    assert forall|k: int| 0 <= k < rest.polled.len() implies #[trigger] poll_step(
        rest.states[k],
        rest.left[k],
        rest.polled[k],
        rest.states[k + 1],
        rest.left[k + 1],
    ) by {
        assert(poll_step(
            turn.states[i + k],
            turn.left[i + k],
            turn.polled[i + k],
            turn.states[i + k + 1],
            turn.left[i + k + 1],
        ));
    }
    rest
}

/// No future that is spawned while a task is polled is lost, whether that task
/// stays pending or is done: it is polled in the rest of the turn or in the turn
/// after it, if fewer ids are ready before it then than a turn goes through.
/// `s` is its place among the futures that were spawned in step `i`.
pub proof fn futures_spawned_by_a_task_are_polled<F, W>(
    turn: Turn<F, W>,
    i: int,
    s: int,
    wakes: Seq<usize>,
    spawns: Seq<F>,
    next: Turn<F, W>,
)
    requires
        turn.wf(),
        next.is_whole(),
        meanwhile(turn.end, next.states[0], wakes, spawns),
        0 <= i < turn.polled.len(),
        0 <= s < turn.polled[i].spawns.len(),
        next.states[0].wake.queue.len() + next.states[0].executor.spawned.len() <= PUMP_BUDGET,
    ensures
        ({
            let future = turn.polled[i].spawns[s];
            ||| exists|k: int|
                i < k < turn.polled.len() && (#[trigger] turn.polled[k]).future == future
            ||| exists|k: int|
                0 <= k < next.polled.len() && (#[trigger] next.polled[k]).future == future
        }),
{
    let x = turn.polled[i];
    let w = turn.states[i];
    let after = turn.states[i + 1];
    lemma_states(turn, i);
    assert(poll_step(w, turn.left[i], x, after, turn.left[i + 1]));
    lemma_pumped(w, turn.left[i]);
    let polling = w.pumped(turn.left[i]).0;
    assert(polling.executor.spawned.len() == 0);
    assert(after.executor.spawned.len() == x.spawns.len());
    assert(after.executor.spawned[s] == x.spawns[s]);
    let rest = lemma_rest_of_turn(turn, i + 1);
    lemma_states(next, 0);
    lemma_admitted(next.states[0]);
    let id = (after.executor.next_id + s) as usize;
    let future = x.spawns[s];
    spawned_futures_are_polled_by_the_turn_after(rest, wakes, spawns, next, s);
    if exists|k: int| #[trigger] rest.polls_at(id, k) && rest.polled[k].future == future {
        let k = choose|k: int| #[trigger] rest.polls_at(id, k) && rest.polled[k].future == future;
        assert(rest.polled[k] == turn.polled[i + 1 + k]);
    } else {
        let k = choose|k: int| #[trigger] next.polls_at(id, k) && next.polled[k].future == future;
        assert(next.polled[k].future == future);
    }
}

} // verus!
