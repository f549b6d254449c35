use zenoh_wasm::refill::{
    message, pipeline, test_wasm_refill, Attempt, Observation, ProducerRun, Push, RefillStep,
    Scenario,
};
use zenoh_wasm::refill::Push::{Closed, NotSent, Sent};

fn attempts(list: &[(Push, u64)]) -> Observation {
    Observation::Attempts(
        list.iter().map(|(push, elapsed_ms)| Attempt { push: *push, elapsed_ms: *elapsed_ms }).collect(),
    )
}

/// Producers with this many messages sent, and as many not sent.
fn producers(list: &[(usize, usize, u64)]) -> Observation {
    let run = |&(sent, not_sent, elapsed_ms): &(usize, usize, u64)| {
        let mut pushes = vec![Sent; sent];
        pushes.extend(vec![NotSent; not_sent]);
        ProducerRun { pushes, elapsed_ms }
    };
    Observation::Producers(list.iter().map(run).collect())
}

#[test]
fn a_good_pipeline_passes_all_scenarios() {
    let seen = vec![
        (Scenario::Exhausted, attempts(&[(Sent, 0), (NotSent, 99)])),
        (Scenario::Refilled, producers(&[(20, 0, 49), (20, 0, 50)])),
        (Scenario::Stalled, attempts(&[(Sent, 500), (NotSent, 100)])),
        (Scenario::SpuriousWakes, attempts(&[(Sent, 0), (NotSent, 189)])),
        (Scenario::ConsumerGone, attempts(&[(Sent, 0), (Closed, 109)])),
        (Scenario::OwnWorker, attempts(&[(Sent, 0), (NotSent, 0)])),
        (Scenario::ContendedOnPage, attempts(&[(NotSent, 5)])),
        (Scenario::ContendedOnWorker, attempts(&[(NotSent, 5)])),
        (Scenario::CurrentBatchHeld, attempts(&[(NotSent, 0), (Sent, 0)])),
        (Scenario::SequenceHeld, attempts(&[(NotSent, 0), (Sent, 0)])),
    ];
    let mut step = RefillStep::Run(Scenario::Exhausted);
    for (scenario, observation) in seen {
        assert_eq!(step, RefillStep::Run(scenario));
        step = test_wasm_refill(scenario, &observation);
    }
    assert_eq!(step, RefillStep::Passed);
}

#[test]
fn bad_pipelines_fail() {
    let seen = vec![
        (Scenario::Exhausted, attempts(&[(Sent, 0), (NotSent, 100)])),
        (Scenario::Exhausted, attempts(&[(Sent, 0), (Sent, 0)])),
        (Scenario::Exhausted, attempts(&[(Sent, 0)])),
        (Scenario::Refilled, producers(&[(20, 0, 49), (20, 0, 49)])),
        (Scenario::Refilled, producers(&[(20, 0, 60), (19, 1, 60)])),
        (Scenario::Refilled, producers(&[(20, 0, 60)])),
        (Scenario::Refilled, producers(&[(20, 0, 60), (19, 0, 60)])),
        (Scenario::Refilled, producers(&[(20, 0, 60), (20, 1, 60)])),
        (Scenario::Refilled, attempts(&[])),
        (Scenario::Stalled, attempts(&[(Sent, 0), (NotSent, 99)])),
        (Scenario::Stalled, attempts(&[(Sent, 0), (NotSent, 1_000)])),
        (Scenario::SpuriousWakes, attempts(&[(Sent, 0), (NotSent, 190)])),
        (Scenario::ConsumerGone, attempts(&[(Sent, 0), (Closed, 110)])),
        (Scenario::ConsumerGone, attempts(&[(Sent, 0), (NotSent, 10)])),
        (Scenario::ContendedOnPage, attempts(&[(Sent, 5)])),
        (Scenario::SequenceHeld, attempts(&[(NotSent, 0), (NotSent, 0)])),
        (Scenario::Stalled, producers(&[(20, 0, 60), (20, 0, 60)])),
    ];
    for (scenario, observation) in seen {
        assert_eq!(test_wasm_refill(scenario, &observation), RefillStep::Failed(scenario));
    }
}

#[test]
fn the_pipeline_holds_one_batch() {
    let conf = pipeline();
    assert_eq!((conf.mtu, conf.queue_size, conf.wait_before_drop_ms), (8192, 1, 120));
    let message = message();
    assert_eq!(message.key, "refill-test");
    assert_eq!(message.payload, vec![0u8; 7_000]);
}
