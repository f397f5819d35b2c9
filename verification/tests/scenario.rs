use run_coordination::checkpoint::Checkpoint;
use run_coordination::clock::{read, Instant};
use run_coordination::instance::{InstanceInfo, Role};
use run_coordination::scenario::{
    observation_event, Action, Diagnostic, Driver, Event, IdentityPlan, Phase, RunError, Stage,
    WaitLimits, DISCOVERY_PORT, PING_INTERVAL_SECS, QUERY_DISTANCE,
};
use run_coordination::watcher::Observation;

type D = Driver<String>;

fn at(secs: i64, nanos: u32) -> Instant {
    Instant::new(secs, nanos).expect("valid instant")
}

fn t0() -> Instant {
    at(1_000, 0)
}

fn received(seq: u64) -> Event<String> {
    Event::Received { info: InstanceInfo::new(seq, format!("record-{seq}")) }
}

fn barrier(checkpoint: Checkpoint, expected: u64) -> Action {
    Action::SignalAndWait { checkpoint, expected, limit_secs: None }
}

fn query(peer: usize) -> Action {
    Action::Query { peer, distance: 0 }
}

fn unlimited() -> WaitLimits {
    WaitLimits { record_secs: None, barrier_secs: None }
}

/// A driver with ordinal `seq` whose run started at `started` and whose
/// engine runs.
fn started(expected: u64, seq: u64, started: Instant) -> D {
    D::begin(expected, unlimited(), Some(started))
        .step_at(Event::SequenceAllocated { seq }, t0())
        .step_at(Event::EngineStarted { record: format!("record-{seq}") }, t0())
}

/// A driver that has published, subscribed and collected the given ordinals.
fn exchanged(expected: u64, seq: u64, arrivals: &[u64]) -> D {
    let mut d = started(expected, seq, t0());
    if seq == 1 {
        d = d.step_at(Event::Completed, t0());
    }
    d = d.step_at(Event::Completed, t0()).step_at(Event::Completed, t0());
    for arrival in arrivals {
        d = d.step_at(received(*arrival), t0());
    }
    d
}

#[test]
fn constants_of_the_scenario() {
    assert_eq!(DISCOVERY_PORT, 9000);
    assert_eq!(PING_INTERVAL_SECS, 10);
    assert_eq!(QUERY_DISTANCE, 0);
}

#[test]
fn a_new_driver_asks_for_its_ordinal() {
    let d = D::new(3);
    assert_eq!(d.pending(), Action::AllocateSequence);
    assert_eq!(d.phase(), Phase::Allocating);
    assert_eq!(d.stage(), Some(Stage::Init));
    assert_eq!(d.expected(), 3);
    assert_eq!(d.seq(), 0);
    assert!(d.local().is_none());
    assert!(d.peers().is_empty());
    assert_eq!(d.elapsed_millis(), None);
    assert!(d.diagnostics().is_empty());
    assert_eq!(d.outcome(), None);
    assert_eq!(d.limits(), unlimited());
}

#[test]
fn a_driver_remembers_when_its_run_started() {
    let d = D::begin(3, unlimited(), Some(at(77, 5)));
    assert_eq!(d.started_at(), at(77, 5));
    assert_eq!(d.pending(), Action::AllocateSequence);
    let d = d
        .step_at(Event::SequenceAllocated { seq: 1 }, at(80, 0))
        .step_at(Event::EngineStarted { record: "r".to_string() }, at(90, 0));
    assert_eq!(d.started_at(), at(77, 5));
}

#[test]
fn a_new_driver_starts_its_run_now() {
    let before = std::time::SystemTime::now()
        .duration_since(std::time::UNIX_EPOCH)
        .expect("a clock after the epoch")
        .as_secs() as i64;
    let d = D::new(3);
    let limited: D =
        Driver::begin(3, WaitLimits { record_secs: Some(1), barrier_secs: None }, read());
    for started in [d.started_at(), limited.started_at()] {
        assert!(before <= started.secs && started.secs <= before + 15);
        assert!(started.nanos < 1_000_000_000);
    }
}

#[test]
fn the_coordinator_builds_a_self_addressed_identity() {
    let d = D::new(3).step_at(Event::SequenceAllocated { seq: 1 }, t0());
    assert_eq!(d.role(), Role::Coordinator);
    assert_eq!(
        d.pending(),
        Action::StartEngine {
            identity: IdentityPlan::SelfAddressed,
            listen_port: 9000,
            ping_interval_secs: 10
        }
    );
}

#[test]
fn a_participant_builds_an_identity_on_the_discovery_port() {
    for seq in [0u64, 2, 3, 100] {
        let d = D::new(3).step_at(Event::SequenceAllocated { seq }, t0());
        assert_eq!(d.role(), Role::Participant);
        assert_eq!(d.seq(), seq);
        assert_eq!(
            d.pending(),
            Action::StartEngine {
                identity: IdentityPlan::NetworkAddressed { port: 9000 },
                listen_port: 9000,
                ping_interval_secs: 10
            }
        );
    }
}

#[test]
fn the_coordinator_arms_its_watcher_before_it_publishes() {
    let d = started(3, 1, t0());
    assert_eq!(d.pending(), Action::ArmWatcher);
    let d = d.step_at(Event::Completed, t0());
    assert_eq!(d.pending(), Action::Publish);
}

#[test]
fn a_participant_publishes_right_after_the_engine_started() {
    let d = started(3, 2, t0());
    assert_eq!(d.pending(), Action::Publish);
}

#[test]
fn the_own_record_carries_the_ordinal_and_the_engines_record() {
    let d = started(3, 2, t0());
    let local = d.local().expect("own record");
    assert_eq!(local.seq, 2);
    assert_eq!(local.record, "record-2");
}

#[test]
fn the_exchange_collects_exactly_as_many_records_as_processes() {
    let mut d = started(3, 2, t0());
    d = d.step_at(Event::Completed, t0());
    assert_eq!(d.pending(), Action::Subscribe);
    d = d.step_at(Event::Completed, t0());
    assert_eq!(d.pending(), Action::AwaitRecord { limit_secs: None });
    d = d.step_at(received(3), t0());
    assert_eq!(d.pending(), Action::AwaitRecord { limit_secs: None });
    assert_eq!(d.stage(), Some(Stage::Init));
    d = d.step_at(received(1), t0());
    assert_eq!(d.pending(), Action::AwaitRecord { limit_secs: None });
    d = d.step_at(received(2), t0());
    assert_eq!(d.pending(), barrier(Checkpoint::ConnectionsEstablished, 3));
    assert_eq!(d.stage(), Some(Stage::IdentityExchanged));
    let seqs: Vec<u64> = d.peers().iter().map(|p| p.seq).collect();
    assert_eq!(seqs, vec![3, 1, 2]);
    assert_eq!(d.peers()[0].record, "record-3");
}

#[test]
fn the_coordinator_queries_every_other_process_once_in_order() {
    let mut d = exchanged(4, 1, &[3, 1, 2, 4]);
    assert_eq!(d.pending(), query(0));
    d = d.step_at(Event::Completed, t0());
    assert_eq!(d.pending(), query(2));
    d = d.step_at(Event::Completed, t0());
    assert_eq!(d.pending(), query(3));
    assert_eq!(d.stage(), Some(Stage::IdentityExchanged));
    d = d.step_at(Event::Completed, t0());
    assert_eq!(d.pending(), barrier(Checkpoint::ConnectionsEstablished, 4));
    assert!(d.diagnostics().is_empty());
}

#[test]
fn the_coordinator_skips_every_record_with_its_own_ordinal() {
    let mut d = exchanged(4, 1, &[1, 2, 1, 1]);
    assert_eq!(d.pending(), query(1));
    d = d.step_at(Event::Completed, t0());
    assert_eq!(d.pending(), barrier(Checkpoint::ConnectionsEstablished, 4));
}

#[test]
fn a_coordinator_alone_goes_straight_to_the_barrier() {
    let d = exchanged(1, 1, &[1]);
    assert_eq!(d.pending(), barrier(Checkpoint::ConnectionsEstablished, 1));
}

#[test]
fn participants_query_nobody() {
    let d = exchanged(3, 2, &[1, 2, 3]);
    assert_eq!(d.pending(), barrier(Checkpoint::ConnectionsEstablished, 3));
}

#[test]
fn a_failed_query_is_noted_and_the_fan_out_goes_on() {
    let mut d = exchanged(4, 1, &[2, 3, 1, 4]);
    assert_eq!(d.pending(), query(0));
    d = d.step_at(Event::Failed, t0());
    assert_eq!(d.pending(), query(1));
    d = d.step_at(Event::Completed, t0());
    assert_eq!(d.pending(), query(3));
    d = d.step_at(Event::Failed, t0());
    assert_eq!(d.pending(), barrier(Checkpoint::ConnectionsEstablished, 4));
    assert_eq!(
        d.diagnostics(),
        &vec![Diagnostic::QueryFailed { seq: 2 }, Diagnostic::QueryFailed { seq: 4 }]
    );
    assert_eq!(d.outcome(), None);
}

#[test]
fn every_query_may_fail_and_the_barrier_is_still_reached() {
    let mut d = exchanged(3, 1, &[1, 2, 3]);
    d = d.step_at(Event::Failed, t0()).step_at(Event::Failed, t0());
    assert_eq!(d.pending(), barrier(Checkpoint::ConnectionsEstablished, 3));
    assert_eq!(d.diagnostics().len(), 2);
}

fn at_observation(started_at: Instant) -> D {
    let mut d = started(2, 1, started_at);
    d = d.step_at(Event::Completed, t0()); // watcher armed
    d = d.step_at(Event::Completed, t0()).step_at(Event::Completed, t0());
    d = d.step_at(received(1), t0()).step_at(received(2), t0());
    assert_eq!(d.pending(), query(1));
    d = d.step_at(Event::Completed, t0());
    assert_eq!(d.pending(), barrier(Checkpoint::ConnectionsEstablished, 2));
    d = d.step_at(Event::Completed, t0());
    assert_eq!(d.pending(), Action::RecordPeers);
    assert_eq!(d.stage(), Some(Stage::ConnectionsEstablished));
    d = d.step_at(Event::Completed, t0());
    assert_eq!(d.pending(), Action::AwaitAddress);
    d
}

#[test]
fn the_metric_is_the_whole_milliseconds_since_the_run_started() {
    let d = at_observation(at(1_000, 250_000_000));
    let d = d.step_at(Event::Completed, at(1_007, 100_999_999));
    assert_eq!(d.pending(), Action::RecordElapsed { millis: 6_850 });
    assert_eq!(d.elapsed_millis(), Some(6_850));
    assert_eq!(d.stage(), Some(Stage::AddressObserved));
    let d = d.step_at(Event::Completed, t0());
    assert_eq!(d.pending(), barrier(Checkpoint::Completed, 2));
    let d = d.step_at(Event::Completed, t0());
    assert_eq!(d.pending(), Action::ReportSuccess);
    assert_eq!(d.stage(), Some(Stage::Completed));
    let d = d.step_at(Event::Completed, t0());
    assert_eq!(d.pending(), Action::Finish);
    assert_eq!(d.outcome(), Some(Ok(())));
    assert_eq!(d.elapsed_millis(), Some(6_850));
    assert!(d.diagnostics().is_empty());
}

#[test]
fn the_metric_of_an_immediate_observation_is_zero() {
    let d = at_observation(at(1_000, 5)).step_at(Event::Completed, at(1_000, 999_999));
    assert_eq!(d.pending(), Action::RecordElapsed { millis: 0 });
}

#[test]
fn the_metric_follows_the_time_of_the_observation() {
    for millis in [1i64, 2, 30, 999, 1_000, 1_900, 3_500, 3_600_000] {
        let now = at(500 + millis / 1_000, (millis % 1_000) as u32 * 1_000_000);
        let d = at_observation(at(500, 0)).step_at(Event::Completed, now);
        assert_eq!(d.elapsed_millis(), Some(millis));
        assert_eq!(d.pending(), Action::RecordElapsed { millis });
    }
}

#[test]
fn an_address_learnt_after_t_is_reported_within_the_delay_of_the_observation() {
    // The engine announces its address `t` milliseconds after the start of
    // the run; the process hears of it up to 200 ms earlier or later.
    for t in [200i64, 1_000, 1_900, 2_900, 3_500, 60_000] {
        for delay in [-200i64, -199, -1, 0, 1, 50, 199, 200] {
            let heard = t + delay;
            let now = at(1_700_000_000 + heard / 1_000, (heard % 1_000) as u32 * 1_000_000 + 999);
            let d = at_observation(at(1_700_000_000, 0)).step_at(Event::Completed, now);
            let metric = d.elapsed_millis().expect("a metric");
            assert_eq!(metric, heard);
            assert!((metric - t).abs() <= 200);
        }
    }
}

#[test]
fn a_missing_address_is_noted_and_the_run_still_succeeds() {
    let d = at_observation(t0()).step_at(Event::Failed, at(2_000, 0));
    assert_eq!(d.pending(), barrier(Checkpoint::Completed, 2));
    assert_eq!(d.diagnostics(), &vec![Diagnostic::AddressNotObserved]);
    assert_eq!(d.elapsed_millis(), None);
    let d = d.step_at(Event::Completed, t0());
    assert_eq!(d.pending(), Action::ReportSuccess);
    let d = d.step_at(Event::Completed, t0());
    assert_eq!(d.pending(), Action::Finish);
    assert_eq!(d.phase(), Phase::Done);
    assert_eq!(d.outcome(), Some(Ok(())));
    assert_eq!(d.elapsed_millis(), None);
    assert_eq!(d.diagnostics(), &vec![Diagnostic::AddressNotObserved]);
}

#[test]
fn the_watchers_result_is_reported_as_completion_or_failure() {
    let seen = Observation::Address { address: "10.0.0.7:9000".to_string() };
    assert!(matches!(observation_event::<String, String>(&seen), Event::Completed));
    let closed: Observation<String> = Observation::FeedClosed;
    assert!(matches!(observation_event::<String, String>(&closed), Event::Failed));
}

#[test]
fn a_participant_passes_through_the_observation() {
    let mut d = exchanged(2, 2, &[1, 2]);
    d = d.step_at(Event::Completed, t0());
    assert_eq!(d.pending(), Action::RecordPeers);
    d = d.step_at(Event::Completed, t0());
    assert_eq!(d.pending(), barrier(Checkpoint::Completed, 2));
    assert_eq!(d.stage(), Some(Stage::AddressObserved));
    d = d.step_at(Event::Completed, t0()).step_at(Event::Completed, t0());
    assert_eq!(d.outcome(), Some(Ok(())));
    assert_eq!(d.elapsed_millis(), None);
    assert!(d.diagnostics().is_empty());
}

fn aborted_with(d: D, error: RunError) {
    assert_eq!(d.pending(), Action::Abort { error });
    assert_eq!(d.phase(), Phase::Failed { error });
    assert_eq!(d.stage(), None);
    assert_eq!(d.outcome(), Some(Err(error)));
}

#[test]
fn a_run_without_a_reading_of_the_clock_is_given_up_at_once() {
    let d: D = Driver::begin(3, unlimited(), None);
    assert_eq!(d.expected(), 3);
    assert!(d.peers().is_empty());
    aborted_with(d, RunError::ClockUnreadable);
}

#[test]
fn a_run_with_an_invalid_start_is_given_up_at_once() {
    let limit: i64 = 0x1_0000_0000_0000;
    for started in [
        Instant { secs: 0, nanos: 1_000_000_000 },
        Instant { secs: limit, nanos: 0 },
        Instant { secs: -limit, nanos: 0 },
        Instant { secs: i64::MIN, nanos: u32::MAX },
    ] {
        let d: D = Driver::begin(3, unlimited(), Some(started));
        aborted_with(d, RunError::ClockUnreadable);
    }
}

#[test]
fn a_run_given_up_at_once_stays_given_up() {
    let d: D = Driver::begin(3, unlimited(), None);
    let d = d.step(Event::SequenceAllocated { seq: 1 }).step_at(Event::Completed, t0());
    aborted_with(d, RunError::ClockUnreadable);
}

#[test]
fn step_needs_no_clock_but_for_the_observation() {
    // Whatever the time, the steps before the observation come out the same.
    let by_clock = D::begin(2, unlimited(), Some(t0()))
        .step(Event::SequenceAllocated { seq: 2 })
        .step(Event::EngineStarted { record: "r".to_string() })
        .step(Event::Completed)
        .step(Event::Completed)
        .step(received(1))
        .step(received(2));
    let by_hand = exchanged(2, 2, &[1, 2]);
    assert_eq!(by_clock.pending(), by_hand.pending());
    assert_eq!(by_clock.phase(), by_hand.phase());
    assert_eq!(by_clock.started_at(), t0());
    assert_eq!(by_clock.peers().len(), 2);
}

#[test]
fn a_failed_allocation_is_fatal() {
    aborted_with(D::new(3).step_at(Event::Failed, t0()), RunError::SequenceAllocation);
}

#[test]
fn a_failed_engine_is_fatal() {
    let d = D::new(3).step_at(Event::SequenceAllocated { seq: 2 }, t0());
    aborted_with(d.step_at(Event::Failed, t0()), RunError::EngineConstruction);
}

#[test]
fn a_watcher_that_cannot_be_armed_is_fatal() {
    aborted_with(started(3, 1, t0()).step_at(Event::Failed, t0()), RunError::EngineConstruction);
}

#[test]
fn an_unreachable_service_is_fatal() {
    let publishing = started(3, 2, t0());
    aborted_with(publishing.step_at(Event::Failed, t0()), RunError::ServiceUnreachable);
    let subscribing = started(3, 2, t0()).step_at(Event::Completed, t0());
    aborted_with(subscribing.step_at(Event::Failed, t0()), RunError::ServiceUnreachable);
    let recording = exchanged(1, 2, &[2]).step_at(Event::Completed, t0());
    assert_eq!(recording.pending(), Action::RecordPeers);
    aborted_with(recording.step_at(Event::Failed, t0()), RunError::ServiceUnreachable);
    let elapsed = at_observation(t0()).step_at(Event::Completed, t0());
    aborted_with(elapsed.step_at(Event::Failed, t0()), RunError::ServiceUnreachable);
    let reporting = exchanged(1, 2, &[2])
        .step_at(Event::Completed, t0())
        .step_at(Event::Completed, t0())
        .step_at(Event::Completed, t0());
    assert_eq!(reporting.pending(), Action::ReportSuccess);
    aborted_with(reporting.step_at(Event::Failed, t0()), RunError::ServiceUnreachable);
}

#[test]
fn a_record_feed_that_ends_early_is_fatal() {
    let d = exchanged(3, 2, &[1, 2]);
    assert_eq!(d.pending(), Action::AwaitRecord { limit_secs: None });
    let d = d.step_at(Event::Failed, t0());
    assert_eq!(d.peers().len(), 2);
    aborted_with(d, RunError::RendezvousIncomplete);
}

#[test]
fn a_barrier_that_is_not_passed_is_fatal() {
    let d = exchanged(2, 2, &[1, 2]);
    aborted_with(d.step_at(Event::Failed, t0()), RunError::BarrierIncomplete);
    let d = exchanged(2, 2, &[1, 2])
        .step_at(Event::Completed, t0())
        .step_at(Event::Completed, t0());
    assert_eq!(d.pending(), barrier(Checkpoint::Completed, 2));
    aborted_with(d.step_at(Event::Failed, t0()), RunError::BarrierIncomplete);
}

#[test]
fn an_event_out_of_turn_is_fatal() {
    aborted_with(D::new(3).step_at(Event::Completed, t0()), RunError::OutOfTurn);
    aborted_with(D::new(3).step_at(received(1), t0()), RunError::OutOfTurn);
    aborted_with(
        D::new(3).step_at(Event::EngineStarted { record: "r".to_string() }, t0()),
        RunError::OutOfTurn,
    );
    let d = started(3, 2, t0());
    aborted_with(d.step_at(Event::SequenceAllocated { seq: 5 }, t0()), RunError::OutOfTurn);
    let d = started(3, 2, t0());
    aborted_with(d.step_at(received(1), t0()), RunError::OutOfTurn);
    let d = exchanged(3, 2, &[1]);
    aborted_with(d.step_at(Event::Completed, t0()), RunError::OutOfTurn);
    let d = exchanged(2, 2, &[1, 2]);
    aborted_with(d.step_at(received(3), t0()), RunError::OutOfTurn);
}

#[test]
fn an_ended_run_stays_as_it_is() {
    let failed = D::new(3).step_at(Event::Failed, t0());
    let failed = failed.step_at(Event::SequenceAllocated { seq: 1 }, t0());
    let failed = failed.step_at(Event::Completed, t0()).step_at(Event::Failed, t0());
    aborted_with(failed, RunError::SequenceAllocation);

    let mut done = exchanged(1, 2, &[2]);
    for _ in 0..4 {
        done = done.step_at(Event::Completed, t0());
    }
    assert_eq!(done.outcome(), Some(Ok(())));
    let done = done
        .step_at(Event::Failed, t0())
        .step_at(Event::Completed, t0())
        .step_at(received(9), t0());
    assert_eq!(done.pending(), Action::Finish);
    assert_eq!(done.outcome(), Some(Ok(())));
    assert_eq!(done.peers().len(), 1);
}

#[test]
fn a_run_of_no_processes_exchanges_nothing() {
    let d = started(0, 2, t0()).step_at(Event::Completed, t0()).step_at(Event::Completed, t0());
    assert_eq!(d.pending(), barrier(Checkpoint::ConnectionsEstablished, 0));
    assert!(d.peers().is_empty());
}

#[test]
fn limits_are_handed_to_every_wait() {
    let limits = WaitLimits { record_secs: Some(30), barrier_secs: Some(120) };
    let mut d: D = Driver::begin(2, limits, Some(t0()));
    assert_eq!(d.limits(), limits);
    d = d
        .step_at(Event::SequenceAllocated { seq: 2 }, t0())
        .step_at(Event::EngineStarted { record: "r".to_string() }, t0())
        .step_at(Event::Completed, t0())
        .step_at(Event::Completed, t0());
    assert_eq!(d.pending(), Action::AwaitRecord { limit_secs: Some(30) });
    d = d.step_at(received(1), t0()).step_at(received(2), t0());
    assert_eq!(
        d.pending(),
        Action::SignalAndWait {
            checkpoint: Checkpoint::ConnectionsEstablished,
            expected: 2,
            limit_secs: Some(120)
        }
    );
    d = d.step_at(Event::Completed, t0()).step_at(Event::Completed, t0());
    assert_eq!(
        d.pending(),
        Action::SignalAndWait {
            checkpoint: Checkpoint::Completed,
            expected: 2,
            limit_secs: Some(120)
        }
    );
    // A wait that ran into its limit is reported as failed and ends the run.
    aborted_with(d.step_at(Event::Failed, t0()), RunError::BarrierIncomplete);
}

#[test]
fn the_stage_never_goes_back() {
    fn rank(stage: Option<Stage>) -> u8 {
        match stage.expect("a run under way") {
            Stage::Init => 0,
            Stage::IdentityExchanged => 1,
            Stage::ConnectionsEstablished => 2,
            Stage::AddressObserved => 3,
            Stage::Completed => 4,
        }
    }
    let mut d = D::new(3);
    let mut last = rank(d.stage());
    let events: Vec<Event<String>> = vec![
        Event::SequenceAllocated { seq: 1 },
        Event::EngineStarted { record: "r".to_string() },
        Event::Completed,
        Event::Completed,
        Event::Completed,
        received(2),
        received(1),
        received(3),
        Event::Failed,
        Event::Completed,
        Event::Completed,
        Event::Completed,
        Event::Completed,
        Event::Completed,
        Event::Completed,
        Event::Completed,
    ];
    for event in events {
        d = d.step_at(event, t0());
        let now = rank(d.stage());
        assert!(last <= now && now <= last + 1);
        last = now;
    }
    assert_eq!(d.outcome(), Some(Ok(())));
}

#[test]
fn step_reads_the_clock_for_the_metric() {
    // Through the system clock: the run starts and the address is observed
    // within this test, so next to no time has passed.
    let mut d = D::new(1)
        .step(Event::SequenceAllocated { seq: 1 })
        .step(Event::EngineStarted { record: "r".to_string() });
    for _ in 0..3 {
        d = d.step(Event::Completed);
    }
    d = d.step(received(1));
    for _ in 0..3 {
        d = d.step(Event::Completed);
    }
    let millis = match d.pending() {
        Action::RecordElapsed { millis } => millis,
        other => panic!("unexpected action {other:?}"),
    };
    assert!((0..=15_000).contains(&millis));
    assert_eq!(d.elapsed_millis(), Some(millis));
}

#[test]
fn step_measures_against_the_real_time() {
    // A run that started an hour before now, by the system clock.
    let before = std::time::SystemTime::now()
        .duration_since(std::time::UNIX_EPOCH)
        .expect("a clock after the epoch");
    let hour_ago = at(before.as_secs() as i64 - 3_600, 0);
    let d = at_observation(hour_ago).step(Event::Completed);
    let millis = d.elapsed_millis().expect("a metric");
    assert!((3_600_000..=3_616_000).contains(&millis));
}
