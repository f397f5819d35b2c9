//! What every run of the scenario driver guarantees.
//!
//! The statements here speak of the transition function of the driver alone,
//! so they hold of every process, whatever the other processes and the
//! collaborators do.

use crate::checkpoint::Checkpoint;
use crate::clock::{nanos_between, whole_millis_between, Instant, NANOS_PER_MILLI};
use crate::instance::{is_other, role_of, without_seq, InstanceInfo, Role};
use crate::scenario::{
    lemma_next_preserves_wf, lemma_next_target, needs_clock, next, next_target, pending, stage_of,
    stage_rank, Action, Diagnostic, DriverState, Event, Phase, RunError, QUERY_DISTANCE,
};
use vstd::prelude::*;

verus! {

/// The positions, in ascending order, of the records of other processes at
/// or after `from`: the peers the coordinator has to query.
pub open spec fn query_targets<R>(peers: Seq<InstanceInfo<R>>, own: u64, from: int) -> Seq<int>
    decreases peers.len() - from,
{
    if from < 0 || from >= peers.len() {
        Seq::empty()
    } else if peers[from].seq != own {
        seq![from] + query_targets(peers, own, from + 1)
    } else {
        query_targets(peers, own, from + 1)
    }
}

/// The event that reports how an operation without a result ended.
pub open spec fn outcome<R>(completed: bool) -> Event<R> {
    if completed {
        Event::Completed
    } else {
        Event::Failed
    }
}

/// The state after operations ended as `outcomes` tells, one after the
/// other, each at time `now`.
pub open spec fn after_outcomes<R>(s: DriverState<R>, outcomes: Seq<bool>, now: Instant) -> DriverState<
    R,
>
    decreases outcomes.len(),
{
    if outcomes.len() == 0 {
        s
    } else {
        after_outcomes(next(s, outcome(outcomes[0]), now), outcomes.skip(1), now)
    }
}

/// The query targets are exactly the records of other processes: each such
/// position occurs once, in ascending order, and no other position does.
pub proof fn lemma_query_targets<R>(peers: Seq<InstanceInfo<R>>, own: u64, from: int)
    requires
        0 <= from <= peers.len(),
    ensures
        forall|k: int|
            0 <= k < query_targets(peers, own, from).len() ==> {
                let at = #[trigger] query_targets(peers, own, from)[k];
                from <= at < peers.len() && peers[at].seq != own
            },
        forall|k: int, l: int|
            0 <= k < l < query_targets(peers, own, from).len() ==> query_targets(peers, own, from)[k]
                < query_targets(peers, own, from)[l],
        forall|at: int|
            from <= at < peers.len() && (#[trigger] peers[at]).seq != own ==> query_targets(
                peers,
                own,
                from,
            ).contains(at),
        query_targets(peers, own, from).len() <= peers.len() - from,
    decreases peers.len() - from,
{
    let targets = query_targets(peers, own, from);
    if from < peers.len() {
        let rest = query_targets(peers, own, from + 1);
        lemma_query_targets(peers, own, from + 1);
        if peers[from].seq != own {
            assert forall|k: int| 0 <= k < targets.len() implies {
                let at = #[trigger] targets[k];
                from <= at < peers.len() && peers[at].seq != own
            } by {
                if k > 0 {
                    assert(targets[k] == rest[k - 1]);
                }
            }
            assert forall|k: int, l: int| 0 <= k < l < targets.len() implies targets[k]
                < targets[l] by {
                assert(targets[l] == rest[l - 1]);
                if k > 0 {
                    assert(targets[k] == rest[k - 1]);
                }
            }
            assert forall|at: int|
                from <= at < peers.len() && (#[trigger] peers[at]).seq != own implies targets.contains(
                at,
            ) by {
                if at == from {
                    assert(targets[0] == at);
                } else {
                    let k = choose|k: int| 0 <= k < rest.len() && rest[k] == at;
                    assert(targets[k + 1] == at);
                }
            }
        }
    }
}

/// The records at the positions `targets`, in that order.
pub open spec fn records_at<R>(peers: Seq<InstanceInfo<R>>, targets: Seq<int>) -> Seq<
    InstanceInfo<R>,
> {
    Seq::new(targets.len(), |k: int| peers[targets[k]])
}

/// The coordinator queries the others. The records at which it asks for a
/// query, from `from` on, are the records collected from there on with every
/// record of its own ordinal left out: the fan-out and the self-exclusion of
/// a caller agree on who the others are.
pub proof fn lemma_queries_go_to_the_others<R>(peers: Seq<InstanceInfo<R>>, own: u64, from: int)
    requires
        0 <= from <= peers.len(),
    ensures
        records_at(peers, query_targets(peers, own, from)) == without_seq(peers.skip(from), own),
    decreases peers.len() - from,
{
    reveal(Seq::filter);
    let targets = query_targets(peers, own, from);
    let rest = peers.skip(from);
    if from == peers.len() {
        assert(records_at(peers, targets) == without_seq(rest, own));
    } else {
        let later = query_targets(peers, own, from + 1);
        let head = seq![peers[from]];
        lemma_queries_go_to_the_others(peers, own, from + 1);
        assert(rest == head + peers.skip(from + 1));
        Seq::filter_distributes_over_add(head, peers.skip(from + 1), is_other(own));
        assert(head.drop_last() == Seq::<InstanceInfo<R>>::empty());
        assert(head.drop_last().filter(is_other(own)) == Seq::<InstanceInfo<R>>::empty());
        assert(head.last() == peers[from]);
        if peers[from].seq != own {
            assert(head.filter(is_other(own)) == head);
            assert(targets == seq![from] + later);
            assert(records_at(peers, targets) == head + records_at(peers, later)) by {
                assert forall|k: int| 0 <= k < targets.len() implies records_at(peers, targets)[k]
                    == (head + records_at(peers, later))[k] by {
                    if k > 0 {
                        assert(targets[k] == later[k - 1]);
                    }
                }
            }
        } else {
            assert(head.filter(is_other(own)) == Seq::<InstanceInfo<R>>::empty());
            assert(Seq::<InstanceInfo<R>>::empty() + without_seq(peers.skip(from + 1), own)
                == without_seq(peers.skip(from + 1), own));
        }
    }
}

/// The next query goes to the first target that is left.
proof fn lemma_first_target<R>(peers: Seq<InstanceInfo<R>>, own: u64, from: int)
    requires
        0 <= from <= peers.len(),
    ensures
        query_targets(peers, own, from).len() == 0 ==> next_target(peers, own, from) == peers.len(),
        query_targets(peers, own, from).len() > 0 ==> {
            &&& next_target(peers, own, from) == query_targets(peers, own, from)[0]
            &&& next_target(peers, own, from) < peers.len()
            &&& query_targets(peers, own, next_target(peers, own, from)) == query_targets(
                peers,
                own,
                from,
            )
        },
    decreases peers.len() - from,
{
    if from < peers.len() && peers[from].seq == own {
        lemma_first_target(peers, own, from + 1);
    }
}

/// The fan-out reaches every peer, whatever becomes of the single queries.
///
/// A coordinator that waits for the query at one peer, and is told how that
/// query and the following ones ended, asks for the query at the next peer
/// after each answer, in the order of the collected records and without
/// leaving one out, and goes to the barrier after the last: a failed query
/// changes neither which queries follow nor that the barrier is reached.
pub proof fn lemma_fan_out_reaches_every_peer<R>(
    s: DriverState<R>,
    outcomes: Seq<bool>,
    now: Instant,
)
    requires
        s.wf(),
        now.wf(),
        s.phase is Querying,
        outcomes.len() <= query_targets(s.peers(), s.seq, s.phase->peer as int).len(),
    ensures
        ({
            let targets = query_targets(s.peers(), s.seq, s.phase->peer as int);
            let t = after_outcomes(s, outcomes, now);
            &&& targets.len() > 0 && targets[0] == s.phase->peer
            &&& t.wf()
            &&& t.exchange == s.exchange
            &&& t.limits == s.limits
            &&& outcomes.len() < targets.len() ==> pending(t) == (Action::Query {
                peer: targets[outcomes.len() as int] as usize,
                distance: QUERY_DISTANCE,
            })
            &&& outcomes.len() == targets.len() ==> pending(t) == (Action::SignalAndWait {
                checkpoint: Checkpoint::ConnectionsEstablished,
                expected: s.expected,
                limit_secs: s.limits.barrier_secs,
            })
        }),
    decreases outcomes.len(),
{
    let peer = s.phase->peer as int;
    let targets = query_targets(s.peers(), s.seq, peer);
    let rest = query_targets(s.peers(), s.seq, peer + 1);
    assert(targets == seq![peer] + rest);
    assert(targets[0] == peer);
    if outcomes.len() > 0 {
        let mid = next(s, outcome(outcomes[0]), now);
        let later = outcomes.skip(1);
        lemma_next_preserves_wf(s, outcome(outcomes[0]), now);
        lemma_first_target(s.peers(), s.seq, peer + 1);
        lemma_next_target(s.peers(), s.seq, peer + 1);
        assert(mid.exchange == s.exchange);
        if rest.len() == 0 {
            assert(mid.phase is AtConnectionsBarrier);
            assert(after_outcomes(mid, later, now) == mid);
        } else {
            assert(mid.phase == Phase::Querying { peer: rest[0] as usize });
            assert(query_targets(mid.peers(), mid.seq, mid.phase->peer as int) == rest);
            lemma_fan_out_reaches_every_peer(mid, later, now);
            if outcomes.len() < targets.len() {
                assert(targets[outcomes.len() as int] == rest[later.len() as int]);
            }
        }
    }
}

/// The fan-out begins with the first peer. When the exchange of records
/// completes, the coordinator turns to the first record of another process
/// among all it collected, and goes to the barrier at once only if there is
/// none; a participant goes to the barrier whatever it collected.
pub proof fn lemma_fan_out_begins_with_first_peer<R>(s: DriverState<R>, e: Event<R>, now: Instant)
    requires
        s.wf(),
        now.wf(),
        s.phase is Exchanging,
        next(s, e, now).exchange.phase is Complete,
        next(s, e, now).peers().len() <= usize::MAX,
    ensures
        ({
            let t = next(s, e, now);
            let targets = query_targets(t.peers(), t.seq, 0);
            &&& t.peers().len() == t.expected
            &&& role_of(t.seq) == Role::Coordinator && targets.len() > 0 ==> pending(t) == (
            Action::Query { peer: targets[0] as usize, distance: QUERY_DISTANCE })
            &&& role_of(t.seq) == Role::Participant || targets.len() == 0 ==> pending(t) == (
            Action::SignalAndWait {
                checkpoint: Checkpoint::ConnectionsEstablished,
                expected: t.expected,
                limit_secs: t.limits.barrier_secs,
            })
        }),
{
    let t = next(s, e, now);
    lemma_next_preserves_wf(s, e, now);
    lemma_first_target(t.peers(), t.seq, 0);
    lemma_next_target(t.peers(), t.seq, 0);
}

/// A failed query is noted and nothing else: the run goes on exactly as
/// after a query that succeeded.
pub proof fn lemma_query_failure_is_only_noted<R>(s: DriverState<R>, now: Instant)
    requires
        s.wf(),
        s.phase is Querying,
    ensures
        ({
            let failed = next(s, Event::Failed, now);
            let succeeded = next(s, Event::Completed, now);
            &&& failed == DriverState {
                diagnostics: s.diagnostics.push(
                    Diagnostic::QueryFailed { seq: s.peers()[s.phase->peer as int].seq },
                ),
                ..succeeded
            }
            &&& succeeded.diagnostics == s.diagnostics
            &&& !(failed.phase is Failed)
            &&& pending(failed) == pending(succeeded)
        }),
{
}

/// A process announces a barrier only once its exchange is complete: when
/// the driver asks to signal and wait, it holds exactly as many records as
/// the run has processes, and it waits for that same number.
pub proof fn lemma_barrier_follows_exchange<R>(s: DriverState<R>)
    requires
        s.wf(),
        pending(s) is SignalAndWait,
    ensures
        s.exchange.phase is Complete,
        s.peers().len() == s.expected,
        pending(s)->SignalAndWait_expected == s.expected,
        pending(s)->checkpoint == Checkpoint::ConnectionsEstablished || pending(s)->checkpoint
            == Checkpoint::Completed,
{
}

/// The coordinator announces the end of connection establishment only when
/// no peer is left to query: every record after the one queried last is its
/// own.
pub proof fn lemma_barrier_follows_fan_out<R>(s: DriverState<R>, e: Event<R>, now: Instant)
    requires
        s.wf(),
        now.wf(),
        s.phase is Querying,
        next(s, e, now).phase is AtConnectionsBarrier,
    ensures
        query_targets(s.peers(), s.seq, s.phase->peer + 1).len() == 0,
        forall|at: int|
            s.phase->peer < at < s.peers().len() ==> (#[trigger] s.peers()[at]).seq == s.seq,
{
    lemma_next_target(s.peers(), s.seq, s.phase->peer + 1);
    lemma_first_target(s.peers(), s.seq, s.phase->peer + 1);
}

/// The watcher is armed first: whenever the coordinator asks to publish its
/// record, to read the topic or to query a peer, its watcher is armed.
pub proof fn lemma_watcher_armed_first<R>(s: DriverState<R>)
    requires
        s.wf(),
        role_of(s.seq) == Role::Coordinator,
        pending(s) is Publish || pending(s) is Subscribe || pending(s) is AwaitRecord || pending(
            s,
        ) is Query || pending(s) is AwaitAddress,
    ensures
        s.watching,
{
}

/// Participants only exchange records and pass the barriers: they are never
/// asked to arm a watcher, to query a peer, to wait for an address or to
/// record the metric.
pub proof fn lemma_participant_passes_through<R>(s: DriverState<R>)
    requires
        s.wf(),
        role_of(s.seq) == Role::Participant,
    ensures
        !(pending(s) is ArmWatcher),
        !(pending(s) is Query),
        !(pending(s) is AwaitAddress),
        !(pending(s) is RecordElapsed),
{
}

/// The metric is the time since the run started: when the watcher reports an
/// address at time `now`, the driver asks to record the whole milliseconds
/// that passed since the process started its run. What the metric leaves out
/// of the time that passed is less than one millisecond.
pub proof fn lemma_metric_is_elapsed_time<R>(s: DriverState<R>, now: Instant)
    requires
        s.wf(),
        now.wf(),
        s.phase is ObservingAddress,
    ensures
        next(s, Event::Completed, now).elapsed == Some(
            whole_millis_between(s.started_at, now) as i64,
        ),
        pending(next(s, Event::Completed, now)) == (Action::RecordElapsed {
            millis: whole_millis_between(s.started_at, now) as i64,
        }),
        next(s, Event::Completed, now).diagnostics == s.diagnostics,
        -NANOS_PER_MILLI < nanos_between(s.started_at, now) - whole_millis_between(
            s.started_at,
            now,
        ) * NANOS_PER_MILLI < NANOS_PER_MILLI,
{
    let span = nanos_between(s.started_at, now);
    let unit = NANOS_PER_MILLI as int;
    let millis = whole_millis_between(s.started_at, now);
    if span >= 0 {
        assert(0 <= span - (span / unit) * unit < unit) by (nonlinear_arith)
            requires
                unit > 0,
                span >= 0,
        ;
    } else {
        assert(0 <= (-span) - ((-span) / unit) * unit < unit) by (nonlinear_arith)
            requires
                unit > 0,
                -span >= 0,
        ;
        assert(millis * unit == -(((-span) / unit) * unit)) by (nonlinear_arith)
            requires
                millis == -((-span) / unit),
        ;
    }
}

/// The metric is as near to the time the address was learnt as the
/// observation is. When the engine learns its address `expected`
/// milliseconds after the start of the run, and the observation reaches the
/// driver within `tolerance` milliseconds of that moment, the metric is
/// within `tolerance` milliseconds of `expected`.
pub proof fn lemma_metric_within_tolerance<R>(
    s: DriverState<R>,
    now: Instant,
    expected: int,
    tolerance: int,
)
    requires
        s.wf(),
        now.wf(),
        s.phase is ObservingAddress,
        0 <= tolerance,
        (expected - tolerance) * NANOS_PER_MILLI <= nanos_between(s.started_at, now) <= (expected
            + tolerance) * NANOS_PER_MILLI,
    ensures
        next(s, Event::Completed, now).elapsed is Some,
        expected - tolerance <= next(s, Event::Completed, now).elapsed->0 <= expected + tolerance,
        pending(next(s, Event::Completed, now)) is RecordElapsed,
        expected - tolerance <= pending(next(s, Event::Completed, now))->millis <= expected
            + tolerance,
{
    let span = nanos_between(s.started_at, now);
    let unit = NANOS_PER_MILLI as int;
    let millis = whole_millis_between(s.started_at, now);
    let low = expected - tolerance;
    let high = expected + tolerance;
    lemma_metric_is_elapsed_time(s, now);
    assert(low <= millis <= high) by (nonlinear_arith)
        requires
            unit > 0,
            low * unit <= span <= high * unit,
            -unit < span - millis * unit < unit,
            span >= 0 ==> millis * unit <= span,
            span < 0 ==> millis * unit >= span,
    {
    }
}

/// The time has a part in one transition only: unless the address is being
/// observed, the state after an event is the same at whatever time the event
/// arrives.
pub proof fn lemma_time_matters_once<R>(s: DriverState<R>, e: Event<R>, at: Instant, other: Instant)
    requires
        !needs_clock(s, e),
    ensures
        next(s, e, at) == next(s, e, other),
{
}

/// The start of the run is fixed: no event moves it.
pub proof fn lemma_start_is_fixed<R>(s: DriverState<R>, e: Event<R>, now: Instant)
    ensures
        next(s, e, now).started_at == s.started_at,
{
}

/// A missing address does not fail the run. When the feed of the engine
/// closes before it announced an address, the driver notes that, records no
/// metric, goes to the final barrier and, once that is passed and the
/// success reported, ends the run as a success.
pub proof fn lemma_missing_address_is_not_fatal<R>(
    s: DriverState<R>,
    closed_at: Instant,
    released_at: Instant,
    reported_at: Instant,
)
    requires
        s.wf(),
        s.phase is ObservingAddress,
    ensures
        ({
            let waiting = next(s, Event::Failed, closed_at);
            let reporting = next(waiting, Event::Completed, released_at);
            let done = next(reporting, Event::Completed, reported_at);
            &&& pending(waiting) == (Action::SignalAndWait {
                checkpoint: Checkpoint::Completed,
                expected: s.expected,
                limit_secs: s.limits.barrier_secs,
            })
            &&& waiting.diagnostics == s.diagnostics.push(Diagnostic::AddressNotObserved)
            &&& waiting.elapsed is None
            &&& pending(reporting) == Action::ReportSuccess
            &&& pending(done) == Action::Finish
            &&& done.phase is Done
            &&& done.elapsed is None
            &&& done.diagnostics == waiting.diagnostics
        }),
{
}

/// Failures are told apart by what failed. A failed allocation of the
/// ordinal, a failed start of the engine or of its watcher, an unreachable
/// coordination service, a record feed that ends early and a barrier that is
/// not passed each abort the run with an error of their own; a failed query
/// and a missing address abort nothing.
pub proof fn lemma_failures_classified<R>(s: DriverState<R>, now: Instant)
    requires
        s.wf(),
    ensures
        ({
            let after = next(s, Event::Failed, now).phase;
            match s.phase {
                Phase::Allocating => after == (Phase::Failed {
                    error: RunError::SequenceAllocation,
                }),
                Phase::StartingEngine | Phase::ArmingWatcher => after == (Phase::Failed {
                    error: RunError::EngineConstruction,
                }),
                Phase::Exchanging => after == (Phase::Failed {
                    error: if s.exchange.phase is Collecting {
                        RunError::RendezvousIncomplete
                    } else {
                        RunError::ServiceUnreachable
                    },
                }),
                Phase::AtConnectionsBarrier | Phase::AtCompletedBarrier => after == (Phase::Failed {
                    error: RunError::BarrierIncomplete,
                }),
                Phase::RecordingPeers | Phase::RecordingElapsed | Phase::Reporting => after == (
                Phase::Failed { error: RunError::ServiceUnreachable }),
                Phase::Querying { .. } | Phase::ObservingAddress => !(after is Failed),
                Phase::Done | Phase::Failed { .. } => after == s.phase,
            }
        }),
{
}

/// A wait that is given up ends the run instead of holding it: when the
/// driver is told that the record or the barrier it waits for did not come,
/// it asks for nothing more than to abort.
pub proof fn lemma_unanswered_wait_ends_run<R>(s: DriverState<R>, now: Instant)
    requires
        s.wf(),
        pending(s) is AwaitRecord || pending(s) is SignalAndWait,
    ensures
        pending(s) is AwaitRecord ==> pending(next(s, Event::Failed, now)) == (Action::Abort {
            error: RunError::RendezvousIncomplete,
        }),
        pending(s) is SignalAndWait ==> pending(next(s, Event::Failed, now)) == (Action::Abort {
            error: RunError::BarrierIncomplete,
        }),
{
}

/// The scenario only moves forward: a transition leaves the coarse state as
/// it is or leads to the one that follows it, unless it aborts the run.
pub proof fn lemma_stage_advances<R>(s: DriverState<R>, e: Event<R>, now: Instant)
    requires
        s.wf(),
        stage_of(s.phase) is Some,
    ensures
        match stage_of(next(s, e, now).phase) {
            Some(after) => stage_rank(stage_of(s.phase)->0) <= stage_rank(after) <= stage_rank(
                stage_of(s.phase)->0,
            ) + 1,
            None => next(s, e, now).phase is Failed,
        },
{
}

/// The place of a phase in the order in which a run passes its phases.
pub open spec fn phase_order(phase: Phase) -> nat {
    match phase {
        Phase::Allocating => 0,
        Phase::StartingEngine => 1,
        Phase::ArmingWatcher => 2,
        Phase::Exchanging => 3,
        Phase::Querying { .. } => 4,
        Phase::AtConnectionsBarrier => 5,
        Phase::RecordingPeers => 6,
        Phase::ObservingAddress => 7,
        Phase::RecordingElapsed => 8,
        Phase::AtCompletedBarrier => 9,
        Phase::Reporting => 10,
        Phase::Done => 11,
        Phase::Failed { .. } => 12,
    }
}

/// A run never returns to a phase it has left, and it leaves a barrier with
/// the first answer: every checkpoint is announced at most once, and so is
/// the ordinal asked for, the engine started, the watcher armed and the
/// success reported.
pub proof fn lemma_phases_in_order<R>(s: DriverState<R>, e: Event<R>, now: Instant)
    requires
        s.wf(),
    ensures
        phase_order(s.phase) <= phase_order(next(s, e, now).phase),
        !(s.phase is Exchanging) && !(s.phase is Querying) && !(s.phase is Done) && !(
        s.phase is Failed) ==> phase_order(s.phase) < phase_order(next(s, e, now).phase),
        s.phase is Querying && next(s, e, now).phase is Querying ==> s.phase->peer < next(
            s,
            e,
            now,
        ).phase->peer,
{
    if let Phase::Querying { peer } = s.phase {
        lemma_next_target(s.peers(), s.seq, peer + 1);
    }
}

/// The barriers are announced in the order of their checkpoints: of two
/// phases that wait at a barrier, the later one waits at the later
/// checkpoint.
pub proof fn lemma_barriers_in_order<R>(earlier: DriverState<R>, later: DriverState<R>)
    requires
        pending(earlier) is SignalAndWait,
        pending(later) is SignalAndWait,
        phase_order(earlier.phase) < phase_order(later.phase),
    ensures
        pending(earlier)->checkpoint.position() < pending(later)->checkpoint.position(),
{
}

/// The collected records are a snapshot: once the exchange is complete no
/// event changes them.
pub proof fn lemma_snapshot_is_stable<R>(s: DriverState<R>, e: Event<R>, now: Instant)
    requires
        s.wf(),
        s.exchange.phase is Complete,
    ensures
        next(s, e, now).exchange == s.exchange,
        next(s, e, now).peers() == s.peers(),
        next(s, e, now).local == s.local,
{
}

/// A run that ended stays ended: no event changes a finished or aborted
/// driver.
pub proof fn lemma_end_is_final<R>(s: DriverState<R>, e: Event<R>, now: Instant)
    requires
        s.phase is Done || s.phase is Failed,
    ensures
        next(s, e, now) == s,
{
}

} // verus!
