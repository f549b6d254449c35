//! What a bounded transmission pipeline owes its publishers in a browser, as a
//! series of scenarios. The caller runs them on a real pipeline.

use vstd::prelude::*;

verus! {

/// How long a publisher waits for room, in milliseconds.
pub const WAIT_MS: u64 = 120;

/// The bytes of a message, of which one fills a batch.
pub const PAYLOAD_LEN: usize = 7_000;

/// A thread that cannot wait is told of a full pipeline in less time.
pub const PROMPT_MS: u64 = 100;

/// A publisher that waits for a refill waits at least this long somewhere.
pub const REFILL_WAIT_MS: u64 = 50;

/// A publisher that waits in vain gives up no sooner than this.
pub const DEADLINE_MIN_MS: u64 = 100;

/// A publisher that waits in vain gives up before this.
pub const DEADLINE_MAX_MS: u64 = 1_000;

/// Notifications without a batch do not make it wait as long as this.
pub const SPURIOUS_MAX_MS: u64 = 190;

/// A publisher is told that its consumer is gone in less time.
pub const CLOSURE_MAX_MS: u64 = 110;

/// The producers that share a runtime while the consumer refills.
pub const PRODUCERS: usize = 2;

/// The messages that each of them publishes.
pub const PUSHES_PER_PRODUCER: usize = 20;

/// The batches that the consumer takes and returns.
pub const REFILLS: usize = 40;

/// Milliseconds before the consumer takes the first batch, which forces the
/// pipeline to be full.
pub const FIRST_REFILL_DELAY_MS: u32 = 60;

/// Milliseconds for which the consumer keeps a batch.
pub const REFILL_DELAY_MS: u32 = 2;

/// The notifications without a batch.
pub const SPURIOUS_NOTIFICATIONS: usize = 10;

/// Milliseconds before each of them.
pub const NOTIFICATION_DELAY_MS: u32 = 20;

/// Milliseconds before the consumer goes.
pub const CLOSURE_DELAY_MS: u32 = 30;

/// Milliseconds for which another producer holds the queue.
pub const HOLD_MS: u64 = 150;

/// The pipeline that the scenarios are run on.
#[derive(Clone, Copy, Debug, PartialEq, Eq, Structural)]
pub struct PipelineConf {
    /// The bytes of a batch.
    pub mtu: u16,
    pub is_streamed: bool,
    pub is_compression: bool,
    /// The batches of each priority.
    pub queue_size: usize,
    pub batching_enabled: bool,
    pub wait_before_drop_ms: u64,
    pub max_wait_before_drop_fragments_ms: u64,
    pub wait_before_close_ms: u64,
    pub batching_time_limit_ms: u64,
}

/// The pipeline that the scenarios are run on: it holds one batch.
pub fn pipeline() -> (conf: PipelineConf)
    ensures
        conf == (PipelineConf {
            mtu: 8192,
            is_streamed: false,
            is_compression: false,
            queue_size: 1,
            batching_enabled: false,
            wait_before_drop_ms: WAIT_MS,
            max_wait_before_drop_fragments_ms: WAIT_MS,
            wait_before_close_ms: WAIT_MS,
            batching_time_limit_ms: 0,
        }),
{
    PipelineConf {
        mtu: 8192,
        is_streamed: false,
        is_compression: false,
        queue_size: 1,
        batching_enabled: false,
        wait_before_drop_ms: WAIT_MS,
        max_wait_before_drop_fragments_ms: WAIT_MS,
        wait_before_close_ms: WAIT_MS,
        batching_time_limit_ms: 0,
    }
}

/// A message that the scenarios publish.
pub struct Message {
    pub key: String,
    pub payload: Vec<u8>,
}

/// A message that the scenarios publish.
pub fn message() -> (message: Message)
    ensures
        message.key@ == "refill-test"@,
        message.payload@ == Seq::new(PAYLOAD_LEN as nat, |i: int| 0u8),
{
    let payload: Vec<u8> = vec![0u8; PAYLOAD_LEN];
    assert(payload@ =~= Seq::new(PAYLOAD_LEN as nat, |i: int| 0u8));
    Message { key: "refill-test".to_owned(), payload }
}

/// What is tried on a pipeline.
#[derive(Clone, Copy, Debug, PartialEq, Eq, Structural)]
pub enum Scenario {
    /// The thread of the page publishes twice. It must never park.
    Exhausted,
    /// Producers share the application's worker, and publish
    /// `PUSHES_PER_PRODUCER` messages each; the consumer runs on the
    /// transmitter's, and refills with a delay.
    Refilled,
    /// The consumer never refills.
    Stalled,
    /// The consumer notifies without returning a batch.
    SpuriousWakes,
    /// The consumer goes while a producer waits.
    ConsumerGone,
    /// The producer runs on the consumer's worker, and cannot wait for it.
    OwnWorker,
    /// Another producer holds the queue; the page publishes.
    ContendedOnPage,
    /// Another producer holds the queue; the transmitter's worker publishes.
    ContendedOnWorker,
    /// The consumer holds the current batch, then lets it go.
    CurrentBatchHeld,
    /// The sequence numbers are held after a batch was taken, then let go.
    SequenceHeld,
}

/// What became of a message.
#[derive(Clone, Copy, Debug, PartialEq, Eq, Structural)]
pub enum Push {
    Sent,
    /// The pipeline took nothing.
    NotSent,
    /// The pipeline is closed.
    Closed,
}

/// A message that was published.
#[derive(Clone, Copy, Debug, PartialEq, Eq, Structural)]
pub struct Attempt {
    pub push: Push,
    pub elapsed_ms: u64,
}

/// What a producer saw that published many messages.
pub struct ProducerRun {
    /// What became of the messages, up to the first that was not sent.
    pub pushes: Vec<Push>,
    pub elapsed_ms: u64,
}

impl ProducerRun {
    /// All messages were published, and sent.
    pub open spec fn all_sent(&self) -> bool {
        &&& self.pushes@.len() == PUSHES_PER_PRODUCER
        &&& forall|i: int| 0 <= i < self.pushes@.len() ==> #[trigger] self.pushes@[i] == Push::Sent
    }

    /// Whether all messages were published, and sent.
    fn is_complete(&self) -> (complete: bool)
        ensures
            complete == self.all_sent(),
    {
        if self.pushes.len() != PUSHES_PER_PRODUCER {
            return false;
        }
        let mut i: usize = 0;
        while i < self.pushes.len()
            invariant
                0 <= i <= self.pushes@.len(),
                forall|j: int| 0 <= j < i ==> #[trigger] self.pushes@[j] == Push::Sent,
            decreases self.pushes@.len() - i,
        {
            if self.pushes[i] != Push::Sent {
                assert(self.pushes@[i as int] != Push::Sent);
                return false;
            }
            i = i + 1;
        }
        true
    }
}

/// What was seen in a scenario.
pub enum Observation {
    /// The messages, in their order.
    Attempts(Vec<Attempt>),
    /// The producers of `Refilled`.
    Producers(Vec<ProducerRun>),
}

/// How the series goes on.
#[derive(Clone, Copy, Debug, PartialEq, Eq, Structural)]
pub enum RefillStep {
    Run(Scenario),
    Passed,
    Failed(Scenario),
}

impl RefillStep {
    /// How the series goes on after `scenario`.
    pub open spec fn comes_after(self, scenario: Scenario, passed: bool) -> bool {
        match self {
            RefillStep::Failed(failed) => !passed && failed == scenario,
            RefillStep::Run(next) => passed && next.place() == scenario.place() + 1,
            RefillStep::Passed => passed && scenario == Scenario::SequenceHeld,
        }
    }
}

/// What is expected of a message.
#[derive(Clone, Copy, Debug, PartialEq, Eq, Structural)]
pub struct Expectation {
    pub push: Push,
    pub min_ms: u64,
    /// The time is less than this; `None` if any time will do.
    pub limit_ms: Option<u64>,
}

impl Expectation {
    pub open spec fn admits(self, attempt: Attempt) -> bool {
        &&& attempt.push == self.push
        &&& attempt.elapsed_ms >= self.min_ms
        &&& self.limit_ms matches Some(limit) ==> attempt.elapsed_ms < limit
    }

    /// Whether the message did as expected.
    fn is_met(&self, attempt: &Attempt) -> (met: bool)
        ensures
            met == self.admits(*attempt),
    {
        attempt.push == self.push && attempt.elapsed_ms >= self.min_ms && match self.limit_ms {
            Some(limit) => attempt.elapsed_ms < limit,
            None => true,
        }
    }
}

/// A message that is sent, or not, in whatever time.
pub open spec fn any_time(push: Push) -> Expectation {
    Expectation { push, min_ms: 0, limit_ms: None }
}

/// A message that is not sent, and the publisher is told so between `min_ms`
/// and `limit_ms`.
pub open spec fn within(push: Push, min_ms: u64, limit_ms: u64) -> Expectation {
    Expectation { push, min_ms, limit_ms: Some(limit_ms) }
}

impl Scenario {
    /// What is expected of the messages of a scenario, in their order.
    pub open spec fn spec_expected(self) -> Seq<Expectation> {
        match self {
            Scenario::Exhausted => seq![
                any_time(Push::Sent),
                within(Push::NotSent, 0, PROMPT_MS),
            ],
            Scenario::Refilled => seq![],
            Scenario::Stalled => seq![
                any_time(Push::Sent),
                within(Push::NotSent, DEADLINE_MIN_MS, DEADLINE_MAX_MS),
            ],
            Scenario::SpuriousWakes => seq![
                any_time(Push::Sent),
                within(Push::NotSent, DEADLINE_MIN_MS, SPURIOUS_MAX_MS),
            ],
            Scenario::ConsumerGone => seq![
                any_time(Push::Sent),
                within(Push::Closed, 0, CLOSURE_MAX_MS),
            ],
            Scenario::OwnWorker => seq![
                any_time(Push::Sent),
                within(Push::NotSent, 0, PROMPT_MS),
            ],
            Scenario::ContendedOnPage => seq![within(Push::NotSent, 0, PROMPT_MS)],
            Scenario::ContendedOnWorker => seq![within(Push::NotSent, 0, PROMPT_MS)],
            Scenario::CurrentBatchHeld => seq![any_time(Push::NotSent), any_time(Push::Sent)],
            Scenario::SequenceHeld => seq![any_time(Push::NotSent), any_time(Push::Sent)],
        }
    }

    /// Whether the messages did as expected.
    pub open spec fn attempts_pass(self, attempts: Seq<Attempt>) -> bool {
        &&& attempts.len() == self.spec_expected().len()
        &&& forall|i: int|
            0 <= i < attempts.len() ==> #[trigger] self.spec_expected()[i].admits(attempts[i])
    }

    /// Whether a pipeline passes the scenario.
    pub open spec fn passes(self, observation: Observation) -> bool {
        match observation {
            Observation::Attempts(attempts) => self != Scenario::Refilled && self.attempts_pass(
                attempts@,
            ),
            Observation::Producers(runs) => self == Scenario::Refilled && producers_pass(runs@),
        }
    }

    /// The scenario that comes after this one.
    pub open spec fn spec_following(self) -> Option<Scenario> {
        match self {
            Scenario::Exhausted => Some(Scenario::Refilled),
            Scenario::Refilled => Some(Scenario::Stalled),
            Scenario::Stalled => Some(Scenario::SpuriousWakes),
            Scenario::SpuriousWakes => Some(Scenario::ConsumerGone),
            Scenario::ConsumerGone => Some(Scenario::OwnWorker),
            Scenario::OwnWorker => Some(Scenario::ContendedOnPage),
            Scenario::ContendedOnPage => Some(Scenario::ContendedOnWorker),
            Scenario::ContendedOnWorker => Some(Scenario::CurrentBatchHeld),
            Scenario::CurrentBatchHeld => Some(Scenario::SequenceHeld),
            Scenario::SequenceHeld => None,
        }
    }

    /// The place of the scenario in the series.
    pub open spec fn place(self) -> int {
        match self {
            Scenario::Exhausted => 0,
            Scenario::Refilled => 1,
            Scenario::Stalled => 2,
            Scenario::SpuriousWakes => 3,
            Scenario::ConsumerGone => 4,
            Scenario::OwnWorker => 5,
            Scenario::ContendedOnPage => 6,
            Scenario::ContendedOnWorker => 7,
            Scenario::CurrentBatchHeld => 8,
            Scenario::SequenceHeld => 9,
        }
    }

    /// What is expected of the messages of a scenario, in their order.
    pub fn expected(self) -> (expected: Vec<Expectation>)
        ensures
            expected@ == self.spec_expected(),
    {
        let sent = Expectation { push: Push::Sent, min_ms: 0, limit_ms: None };
        let not_sent = Expectation { push: Push::NotSent, min_ms: 0, limit_ms: None };
        let prompt = Expectation { push: Push::NotSent, min_ms: 0, limit_ms: Some(PROMPT_MS) };
        let expected: Vec<Expectation> = match self {
            Scenario::Exhausted => vec![sent, prompt],
            Scenario::Refilled => Vec::new(),
            Scenario::Stalled => {
                let late = Expectation {
                    push: Push::NotSent,
                    min_ms: DEADLINE_MIN_MS,
                    limit_ms: Some(DEADLINE_MAX_MS),
                };
                vec![sent, late]
            },
            Scenario::SpuriousWakes => {
                let late = Expectation {
                    push: Push::NotSent,
                    min_ms: DEADLINE_MIN_MS,
                    limit_ms: Some(SPURIOUS_MAX_MS),
                };
                vec![sent, late]
            },
            Scenario::ConsumerGone => {
                let closed = Expectation {
                    push: Push::Closed,
                    min_ms: 0,
                    limit_ms: Some(CLOSURE_MAX_MS),
                };
                vec![sent, closed]
            },
            Scenario::OwnWorker => vec![sent, prompt],
            Scenario::ContendedOnPage => vec![prompt],
            Scenario::ContendedOnWorker => vec![prompt],
            Scenario::CurrentBatchHeld => vec![not_sent, sent],
            Scenario::SequenceHeld => vec![not_sent, sent],
        };
        assert(expected@ =~= self.spec_expected());
        expected
    }

    /// The scenario that comes after this one.
    pub fn following(self) -> (next: Option<Scenario>)
        ensures
            next == self.spec_following(),
    {
        match self {
            Scenario::Exhausted => Some(Scenario::Refilled),
            Scenario::Refilled => Some(Scenario::Stalled),
            Scenario::Stalled => Some(Scenario::SpuriousWakes),
            Scenario::SpuriousWakes => Some(Scenario::ConsumerGone),
            Scenario::ConsumerGone => Some(Scenario::OwnWorker),
            Scenario::OwnWorker => Some(Scenario::ContendedOnPage),
            Scenario::ContendedOnPage => Some(Scenario::ContendedOnWorker),
            Scenario::ContendedOnWorker => Some(Scenario::CurrentBatchHeld),
            Scenario::CurrentBatchHeld => Some(Scenario::SequenceHeld),
            Scenario::SequenceHeld => None,
        }
    }

    /// Whether the messages did as expected.
    fn attempts_are_met(self, attempts: &Vec<Attempt>) -> (met: bool)
        ensures
            met == self.attempts_pass(attempts@),
    {
        let expected = self.expected();
        if attempts.len() != expected.len() {
            return false;
        }
        let mut i: usize = 0;
        while i < attempts.len()
            invariant
                0 <= i <= attempts@.len(),
                expected@ == self.spec_expected(),
                attempts@.len() == expected@.len(),
                forall|j: int|
                    0 <= j < i ==> #[trigger] self.spec_expected()[j].admits(attempts@[j]),
            decreases attempts@.len() - i,
        {
            if !expected[i].is_met(&attempts[i]) {
                assert(!self.spec_expected()[i as int].admits(attempts@[i as int]));
                return false;
            }
            i = i + 1;
        }
        true
    }
}

/// Whether the producers of `Refilled` got all messages through, and at least
/// one of them had to wait: otherwise nothing was tried.
pub open spec fn producers_pass(runs: Seq<ProducerRun>) -> bool {
    &&& runs.len() == PRODUCERS
    &&& forall|i: int| 0 <= i < runs.len() ==> (#[trigger] runs[i]).all_sent()
    &&& exists|i: int|
        0 <= i < runs.len() && (#[trigger] runs[i]).elapsed_ms >= REFILL_WAIT_MS
}

/// Whether the producers of `Refilled` got all messages through, and at least
/// one of them had to wait.
fn producers_are_met(runs: &Vec<ProducerRun>) -> (met: bool)
    ensures
        met == producers_pass(runs@),
{
    if runs.len() != PRODUCERS {
        return false;
    }
    let mut observed_wait: bool = false;
    let mut i: usize = 0;
    while i < runs.len()
        invariant
            0 <= i <= runs@.len(),
            forall|j: int| 0 <= j < i ==> (#[trigger] runs@[j]).all_sent(),
            observed_wait == exists|j: int|
                0 <= j < i && (#[trigger] runs@[j]).elapsed_ms >= REFILL_WAIT_MS,
        decreases runs@.len() - i,
    {
        if !runs[i].is_complete() {
            return false;
        }
        if runs[i].elapsed_ms >= REFILL_WAIT_MS {
            observed_wait = true;
        }
        i = i + 1;
    }
    observed_wait
}

/// Takes what was seen in `scenario`, and says how the series goes on. It ends
/// with the first scenario that a pipeline does not pass.
pub fn test_wasm_refill(scenario: Scenario, observation: &Observation) -> (step: RefillStep)
    ensures
        step == (if !scenario.passes(*observation) {
            RefillStep::Failed(scenario)
        } else {
            match scenario.spec_following() {
                Some(next) => RefillStep::Run(next),
                None => RefillStep::Passed,
            }
        }),
        step.comes_after(scenario, scenario.passes(*observation)),
{
    let passed: bool = match (scenario, observation) {
        (Scenario::Refilled, Observation::Producers(runs)) => producers_are_met(runs),
        (Scenario::Refilled, Observation::Attempts(_)) => false,
        (_, Observation::Attempts(attempts)) => scenario.attempts_are_met(attempts),
        (_, Observation::Producers(_)) => false,
    };
    if !passed {
        return RefillStep::Failed(scenario);
    }
    match scenario.following() {
        Some(next) => RefillStep::Run(next),
        None => RefillStep::Passed,
    }
}

/// The series leaves no scenario out: it starts with the first, each is
/// followed by the next, and it ends with the last.
pub proof fn every_scenario_has_its_turn(scenario: Scenario, other: Scenario)
    ensures
        0 <= scenario.place() < 10,
        scenario.place() == other.place() ==> scenario == other,
        match scenario.spec_following() {
            Some(next) => next.place() == scenario.place() + 1,
            None => scenario.place() == 9,
        },
{
}

/// What each scenario asks of two messages that were published: of the first and
/// of the second, and of the time that the publisher was kept.
pub proof fn pairs_of_messages_pass_as_they_should(first: Attempt, second: Attempt)
    ensures
        Scenario::Exhausted.attempts_pass(seq![first, second]) <==> first.push == Push::Sent
            && second.push == Push::NotSent && second.elapsed_ms < 100,
        Scenario::Stalled.attempts_pass(seq![first, second]) <==> first.push == Push::Sent
            && second.push == Push::NotSent && 100 <= second.elapsed_ms < 1_000,
        Scenario::SpuriousWakes.attempts_pass(seq![first, second]) <==> first.push == Push::Sent
            && second.push == Push::NotSent && 100 <= second.elapsed_ms < 190,
        Scenario::ConsumerGone.attempts_pass(seq![first, second]) <==> first.push == Push::Sent
            && second.push == Push::Closed && second.elapsed_ms < 110,
        Scenario::OwnWorker.attempts_pass(seq![first, second]) <==> first.push == Push::Sent
            && second.push == Push::NotSent && second.elapsed_ms < 100,
        Scenario::CurrentBatchHeld.attempts_pass(seq![first, second]) <==> first.push
            == Push::NotSent && second.push == Push::Sent,
        Scenario::SequenceHeld.attempts_pass(seq![first, second]) <==> first.push == Push::NotSent
            && second.push == Push::Sent,
        !Scenario::ContendedOnPage.attempts_pass(seq![first, second]),
        !Scenario::ContendedOnWorker.attempts_pass(seq![first, second]),
{
    let pair = seq![first, second];
    assert(pair[0] == first);
    assert(pair[1] == second);
    lemma_pairs(Scenario::Exhausted, first, second);
    lemma_pairs(Scenario::Stalled, first, second);
    lemma_pairs(Scenario::SpuriousWakes, first, second);
    lemma_pairs(Scenario::ConsumerGone, first, second);
    lemma_pairs(Scenario::OwnWorker, first, second);
    lemma_pairs(Scenario::CurrentBatchHeld, first, second);
    lemma_pairs(Scenario::SequenceHeld, first, second);
}

proof fn lemma_pairs(scenario: Scenario, first: Attempt, second: Attempt)
    requires
        scenario.spec_expected().len() == 2,
    ensures
        scenario.attempts_pass(seq![first, second]) <==> scenario.spec_expected()[0].admits(first)
            && scenario.spec_expected()[1].admits(second),
{
    let pair = seq![first, second];
    if scenario.attempts_pass(pair) {
        assert(scenario.spec_expected()[0].admits(pair[0]));
        assert(scenario.spec_expected()[1].admits(pair[1]));
    }
    if scenario.spec_expected()[0].admits(first) && scenario.spec_expected()[1].admits(second) {
        assert forall|i: int| 0 <= i < pair.len() implies #[trigger] scenario.spec_expected()[i]
            .admits(pair[i]) by {}
    }
}

/// A publisher that finds the queue held by another is told at once that nothing
/// was sent.
pub proof fn single_messages_pass_as_they_should(only: Attempt)
    ensures
        Scenario::ContendedOnPage.attempts_pass(seq![only]) <==> only.push == Push::NotSent
            && only.elapsed_ms < 100,
        Scenario::ContendedOnWorker.attempts_pass(seq![only]) <==> only.push == Push::NotSent
            && only.elapsed_ms < 100,
        !Scenario::Stalled.attempts_pass(seq![only]),
{
    let single = seq![only];
    assert(single[0] == only);
    if Scenario::ContendedOnPage.attempts_pass(single) {
        assert(Scenario::ContendedOnPage.spec_expected()[0].admits(single[0]));
    }
    if Scenario::ContendedOnWorker.attempts_pass(single) {
        assert(Scenario::ContendedOnWorker.spec_expected()[0].admits(single[0]));
    }
    if only.push == Push::NotSent && only.elapsed_ms < 100 {
        assert forall|i: int| 0 <= i < 1 implies #[trigger]
            Scenario::ContendedOnPage.spec_expected()[i].admits(single[i]) by {}
        assert forall|i: int| 0 <= i < 1 implies #[trigger]
            Scenario::ContendedOnWorker.spec_expected()[i].admits(single[i]) by {}
    }
}

/// The scenario with two producers is passed exactly if both sent all of their
/// twenty messages and one of them was kept for at least 50 milliseconds. It is
/// the only one with producers.
pub proof fn producers_pass_as_they_should(
    a: ProducerRun,
    b: ProducerRun,
    scenario: Scenario,
    runs: Vec<ProducerRun>,
    attempts: Vec<Attempt>,
)
    ensures
        producers_pass(seq![a, b]) <==> {
            &&& a.pushes@ == Seq::new(20, |i: int| Push::Sent)
            &&& b.pushes@ == Seq::new(20, |i: int| Push::Sent)
            &&& a.elapsed_ms >= 50 || b.elapsed_ms >= 50
        },
        runs@.len() != 2 ==> !producers_pass(runs@),
        scenario.passes(Observation::Producers(runs)) <==> scenario == Scenario::Refilled
            && producers_pass(runs@),
        scenario.passes(Observation::Attempts(attempts)) <==> scenario != Scenario::Refilled
            && scenario.attempts_pass(attempts@),
{
    let pair = seq![a, b];
    assert(pair[0] == a);
    assert(pair[1] == b);
    let all = Seq::new(20, |i: int| Push::Sent);
    if producers_pass(pair) {
        assert(pair[0].all_sent() && pair[1].all_sent());
        assert(a.pushes@ =~= all);
        assert(b.pushes@ =~= all);
        let i = choose|i: int|
            0 <= i < pair.len() && (#[trigger] pair[i]).elapsed_ms >= REFILL_WAIT_MS;
        assert(i == 0 || i == 1);
    }
    if a.pushes@ == all && b.pushes@ == all && (a.elapsed_ms >= 50 || b.elapsed_ms >= 50) {
        assert(a.all_sent());
        assert(b.all_sent());
        assert(pair[0].elapsed_ms >= REFILL_WAIT_MS || pair[1].elapsed_ms >= REFILL_WAIT_MS);
    }
}

/// A pipeline fails with the first scenario that it does not pass, and passes only
/// with the last one; otherwise the next scenario is run.
pub proof fn the_series_ends_with_a_verdict(step: RefillStep, scenario: Scenario, passed: bool)
    requires
        step.comes_after(scenario, passed),
    ensures
        !passed <==> step == RefillStep::Failed(scenario),
        step == RefillStep::Passed <==> passed && scenario == Scenario::SequenceHeld,
        passed && scenario != Scenario::SequenceHeld ==> (step matches RefillStep::Run(next)
            && next != scenario && Some(next) == scenario.spec_following()),
{
}

} // verus!
