//! The scenario driver: one state machine per process.
//!
//! The driver never performs an operation itself. It names the operation that
//! is due next (an [`Action`]), the surrounding program performs it and
//! reports what came of it (an [`Event`]), and the driver decides how the run
//! goes on. [`next`] is the complete transition function; [`Driver`] is its
//! executable form.

use crate::checkpoint::Checkpoint;
use crate::clock::{epoch, read, whole_millis_between, Instant};
use crate::instance::{role_of, InstanceInfo, Role, COORDINATOR_SEQ};
use crate::watcher::Observation;
use crate::rendezvous::{
    exchange_initial, exchange_next, exchange_pending, lemma_exchange_next_preserves_wf,
    ExchangeAction, ExchangeError, ExchangeEvent, ExchangePhase, ExchangeState, Rendezvous,
};
use vstd::prelude::*;

verus! {

/// The UDP port on which every discovery engine listens.
pub const DISCOVERY_PORT: u16 = 9000;

/// The seconds between two liveness probes of a discovery engine.
pub const PING_INTERVAL_SECS: u64 = 10;

/// The distance a directed query asks for: the queried peer's own record.
pub const QUERY_DISTANCE: u64 = 0;

/// How long a process waits at a suspension point before it gives the run
/// up. Without a limit it waits for as long as it takes: a process that never
/// arrives then holds every other process forever.
#[derive(Clone, Copy, Debug, PartialEq, Eq, Structural)]
pub struct WaitLimits {
    /// The seconds to wait for the next record of the exchange.
    pub record_secs: Option<u64>,
    /// The seconds to wait at a barrier.
    pub barrier_secs: Option<u64>,
}

/// No limits: every wait lasts until it is answered.
pub open spec fn unlimited() -> WaitLimits {
    WaitLimits { record_secs: None, barrier_secs: None }
}

/// How the local identity record is to be addressed.
#[derive(Clone, Copy, Debug, PartialEq, Eq, Structural)]
pub enum IdentityPlan {
    /// The record carries no network address of its own.
    SelfAddressed,
    /// The record carries the process's address in the data network and the
    /// given UDP port.
    NetworkAddressed { port: u16 },
}

/// Why a run was aborted.
#[derive(Clone, Copy, Debug, PartialEq, Eq, Structural)]
pub enum RunError {
    /// No ordinal could be obtained.
    SequenceAllocation,
    /// The discovery engine could not be constructed or started.
    EngineConstruction,
    /// The coordination service could not be reached.
    ServiceUnreachable,
    /// The record feed ended before all records had arrived.
    RendezvousIncomplete,
    /// A barrier could not be passed.
    BarrierIncomplete,
    /// An event arrived that does not answer the operation that was due.
    OutOfTurn,
    /// The system clock could not be read when the time was needed.
    ClockUnreadable,
}

/// A condition that is reported beside an otherwise successful run.
#[derive(Clone, Copy, Debug, PartialEq, Eq, Structural)]
pub enum Diagnostic {
    /// The directed query at the peer with this ordinal failed.
    QueryFailed { seq: u64 },
    /// The event feed of the engine ended before it reported an address.
    AddressNotObserved,
}

/// The coarse states of the scenario.
#[derive(Clone, Copy, Debug, PartialEq, Eq, Structural)]
pub enum Stage {
    /// The process prepares and exchanges its identity.
    Init,
    /// The process holds the records of all processes; the coordinator
    /// queries its peers.
    IdentityExchanged,
    /// All processes are done establishing connections; the coordinator
    /// waits for its address.
    ConnectionsEstablished,
    /// The address was observed or given up; participants pass through.
    AddressObserved,
    /// All processes have finished the scenario.
    Completed,
}

/// Where a driver stands: the operation it is waiting for.
#[derive(Clone, Copy, Debug, PartialEq, Eq, Structural)]
pub enum Phase {
    /// Waiting for the ordinal.
    Allocating,
    /// Waiting for the engine to start with the planned identity.
    StartingEngine,
    /// Coordinator only: waiting for the address watcher to be armed.
    ArmingWatcher,
    /// Exchanging records with all processes of the run.
    Exchanging,
    /// Coordinator only: waiting for the directed query at `peers[peer]`.
    Querying { peer: usize },
    /// Waiting at the barrier that ends connection establishment.
    AtConnectionsBarrier,
    /// Waiting for the routing table to be recorded.
    RecordingPeers,
    /// Coordinator only: waiting for the watcher's result.
    ObservingAddress,
    /// Coordinator only: waiting for the metric to be recorded.
    RecordingElapsed,
    /// Waiting at the final barrier.
    AtCompletedBarrier,
    /// Waiting for the success report to be delivered.
    Reporting,
    /// The run succeeded.
    Done,
    /// The run was aborted.
    Failed { error: RunError },
}

/// The operation a driver asks for.
#[derive(Clone, Copy, Debug, PartialEq, Eq, Structural)]
pub enum Action {
    /// Obtain this process's ordinal from the coordination service.
    AllocateSequence,
    /// Construct the local identity record as planned and start the engine
    /// on the given UDP port, probing its peers at the given interval.
    StartEngine { identity: IdentityPlan, listen_port: u16, ping_interval_secs: u64 },
    /// Start watching the engine's events for an address change.
    ArmWatcher,
    /// Publish the driver's own record on the record topic.
    Publish,
    /// Subscribe to the record topic from its beginning.
    Subscribe,
    /// Take the next record from the subscription, waiting no longer than
    /// the limit, if there is one.
    AwaitRecord { limit_secs: Option<u64> },
    /// Send one directed query for the given distance to the peer at this
    /// index of the collected records.
    Query { peer: usize, distance: u64 },
    /// Announce the checkpoint and wait until `expected` processes have,
    /// but no longer than the limit, if there is one.
    SignalAndWait { checkpoint: Checkpoint, expected: u64, limit_secs: Option<u64> },
    /// Record a snapshot of the engine's routing table.
    RecordPeers,
    /// Wait for the single result of the address watcher.
    AwaitAddress,
    /// Record the milliseconds it took, from the start of the run, until
    /// the engine learnt its address.
    RecordElapsed { millis: i64 },
    /// Report the success of the run to the coordination service.
    ReportSuccess,
    /// Nothing is left to do: the run succeeded.
    Finish,
    /// Nothing is left to do: the run failed.
    Abort { error: RunError },
}

/// What came of the operation that was due.
pub enum Event<R> {
    /// The coordination service allocated this ordinal.
    SequenceAllocated { seq: u64 },
    /// The engine runs; `record` is its local identity record.
    EngineStarted { record: R },
    /// A record arrived from the topic.
    Received { info: InstanceInfo<R> },
    /// The operation completed and has nothing more to report.
    Completed,
    /// The operation failed.
    Failed,
}

/// The state of a driver, as contracts see it.
pub struct DriverState<R> {
    /// The number of processes in the run.
    pub expected: u64,
    /// How long the process waits for records and at barriers.
    pub limits: WaitLimits,
    /// The operation the driver waits for.
    pub phase: Phase,
    /// The ordinal of this process, once allocated.
    pub seq: u64,
    /// The record this process publishes, once the engine runs.
    pub local: Option<InstanceInfo<R>>,
    /// When the process started its run.
    pub started_at: Instant,
    /// Whether the address watcher has been armed.
    pub watching: bool,
    /// The exchange of records with all processes of the run.
    pub exchange: ExchangeState<InstanceInfo<R>>,
    /// Whole milliseconds between the start of the run and the address
    /// observation.
    pub elapsed: Option<i64>,
    /// The non-fatal conditions met so far, oldest first.
    pub diagnostics: Seq<Diagnostic>,
}

/// The identity a process with this ordinal constructs: the coordinator's
/// record is self-addressed, every other is addressed in the data network on
/// the discovery port.
pub open spec fn identity_plan(seq: u64) -> IdentityPlan {
    if role_of(seq) == Role::Coordinator {
        IdentityPlan::SelfAddressed
    } else {
        IdentityPlan::NetworkAddressed { port: DISCOVERY_PORT }
    }
}

/// The least index from `from` on at which a record of another process
/// stands, or the number of records if there is none.
pub open spec fn next_target<R>(peers: Seq<InstanceInfo<R>>, own: u64, from: int) -> int
    decreases peers.len() - from,
{
    if from < 0 || from >= peers.len() {
        peers.len() as int
    } else if peers[from].seq != own {
        from
    } else {
        next_target(peers, own, from + 1)
    }
}

/// The state of a driver that started its run at `started_at` and has not
/// seen any event yet.
pub open spec fn initial<R>(expected: u64, limits: WaitLimits, started_at: Instant) -> DriverState<
    R,
> {
    DriverState {
        expected,
        limits,
        phase: Phase::Allocating,
        seq: 0,
        local: None,
        started_at,
        watching: false,
        exchange: exchange_initial(expected),
        elapsed: None,
        diagnostics: Seq::empty(),
    }
}

/// The state in which a driver begins its run, given what the clock showed
/// at the start: a new driver where that is a valid instant, and a driver
/// that has given the run up where the clock could not be read.
pub open spec fn begun<R>(expected: u64, limits: WaitLimits, started_at: Option<Instant>) -> DriverState<
    R,
> {
    match started_at {
        Some(at) if at.wf() => initial(expected, limits, at),
        _ => aborted(initial(expected, limits, epoch()), RunError::ClockUnreadable),
    }
}

/// Whether the time at which `e` arrives has a part in the state after it:
/// it has when the address is observed, and never else.
pub open spec fn needs_clock<R>(s: DriverState<R>, e: Event<R>) -> bool {
    s.phase is ObservingAddress && e is Completed
}

/// The operation of the driver that stands for an operation of the exchange.
pub open spec fn exchange_action(action: ExchangeAction, limits: WaitLimits) -> Action {
    match action {
        ExchangeAction::Publish => Action::Publish,
        ExchangeAction::Subscribe => Action::Subscribe,
        ExchangeAction::AwaitRecord => Action::AwaitRecord { limit_secs: limits.record_secs },
        ExchangeAction::Finish => Action::Finish,
        ExchangeAction::Abort { error } => Action::Abort { error: exchange_failure(error) },
    }
}

/// The error with which the run ends when its exchange of records fails.
pub open spec fn exchange_failure(error: ExchangeError) -> RunError {
    match error {
        ExchangeError::Unreachable => RunError::ServiceUnreachable,
        ExchangeError::Incomplete => RunError::RendezvousIncomplete,
        ExchangeError::OutOfTurn => RunError::OutOfTurn,
    }
}

/// The event of the exchange that an event of the driver stands for.
pub open spec fn exchange_event<R>(e: Event<R>) -> ExchangeEvent<InstanceInfo<R>> {
    match e {
        Event::Received { info } => ExchangeEvent::Received { record: info },
        Event::Failed => ExchangeEvent::Failed,
        _ => ExchangeEvent::Completed,
    }
}

/// The operation that is due in a state.
pub open spec fn pending<R>(s: DriverState<R>) -> Action {
    match s.phase {
        Phase::Allocating => Action::AllocateSequence,
        Phase::StartingEngine => Action::StartEngine {
            identity: identity_plan(s.seq),
            listen_port: DISCOVERY_PORT,
            ping_interval_secs: PING_INTERVAL_SECS,
        },
        Phase::ArmingWatcher => Action::ArmWatcher,
        Phase::Exchanging => exchange_action(exchange_pending(s.exchange), s.limits),
        Phase::Querying { peer } => Action::Query { peer, distance: QUERY_DISTANCE },
        Phase::AtConnectionsBarrier => Action::SignalAndWait {
            checkpoint: Checkpoint::ConnectionsEstablished,
            expected: s.expected,
            limit_secs: s.limits.barrier_secs,
        },
        Phase::RecordingPeers => Action::RecordPeers,
        Phase::ObservingAddress => Action::AwaitAddress,
        Phase::RecordingElapsed => Action::RecordElapsed {
            millis: match s.elapsed {
                Some(millis) => millis,
                None => 0,
            },
        },
        Phase::AtCompletedBarrier => Action::SignalAndWait {
            checkpoint: Checkpoint::Completed,
            expected: s.expected,
            limit_secs: s.limits.barrier_secs,
        },
        Phase::Reporting => Action::ReportSuccess,
        Phase::Done => Action::Finish,
        Phase::Failed { error } => Action::Abort { error },
    }
}

/// The coarse state a phase belongs to; an aborted run belongs to none.
pub open spec fn stage_of(phase: Phase) -> Option<Stage> {
    match phase {
        Phase::Allocating | Phase::StartingEngine | Phase::ArmingWatcher | Phase::Exchanging => Some(
            Stage::Init,
        ),
        Phase::Querying { .. } | Phase::AtConnectionsBarrier => Some(Stage::IdentityExchanged),
        Phase::RecordingPeers | Phase::ObservingAddress => Some(Stage::ConnectionsEstablished),
        Phase::RecordingElapsed | Phase::AtCompletedBarrier => Some(Stage::AddressObserved),
        Phase::Reporting | Phase::Done => Some(Stage::Completed),
        Phase::Failed { .. } => None,
    }
}

/// The place of a coarse state in the order of the scenario.
pub open spec fn stage_rank(stage: Stage) -> nat {
    match stage {
        Stage::Init => 0,
        Stage::IdentityExchanged => 1,
        Stage::ConnectionsEstablished => 2,
        Stage::AddressObserved => 3,
        Stage::Completed => 4,
    }
}

/// The error with which a run ends when the operation due in `phase` fails,
/// or `None` where the phase itself decides what a failure means: the
/// exchange of records names its own error, a failed query and a missing
/// address do not end the run.
pub open spec fn fatal_in(phase: Phase) -> Option<RunError> {
    match phase {
        Phase::Allocating => Some(RunError::SequenceAllocation),
        Phase::StartingEngine | Phase::ArmingWatcher => Some(RunError::EngineConstruction),
        Phase::RecordingPeers | Phase::RecordingElapsed | Phase::Reporting => Some(
            RunError::ServiceUnreachable,
        ),
        Phase::AtConnectionsBarrier | Phase::AtCompletedBarrier => Some(
            RunError::BarrierIncomplete,
        ),
        Phase::Exchanging | Phase::Querying { .. } | Phase::ObservingAddress => None,
        Phase::Done => None,
        Phase::Failed { .. } => None,
    }
}

/// Whether `e` answers the operation that is due in `phase`.
pub open spec fn answers<R>(phase: Phase, e: Event<R>) -> bool {
    match e {
        Event::Failed => !(phase is Done) && !(phase is Failed),
        Event::SequenceAllocated { .. } => phase is Allocating,
        Event::EngineStarted { .. } => phase is StartingEngine,
        Event::Received { .. } => phase is Exchanging,
        Event::Completed => !(phase is Done) && !(phase is Failed) && !(phase is Allocating)
            && !(phase is StartingEngine),
    }
}

/// The state with the run aborted.
pub open spec fn aborted<R>(s: DriverState<R>, error: RunError) -> DriverState<R> {
    DriverState { phase: Phase::Failed { error }, ..s }
}

/// The phase once the exchange of records is over: the coordinator turns to
/// the first record of another process at or after `from`; everybody else,
/// and the coordinator once no such record is left, goes to the barrier.
pub open spec fn fan_out_phase<R>(peers: Seq<InstanceInfo<R>>, seq: u64, from: int) -> Phase {
    let target = next_target(peers, seq, from);
    if role_of(seq) == Role::Coordinator && target < peers.len() {
        Phase::Querying { peer: target as usize }
    } else {
        Phase::AtConnectionsBarrier
    }
}

/// The phase of a driver whose exchange of records is in state `exchange`:
/// the run goes on once the exchange is complete and ends when it failed.
pub open spec fn exchange_phase<R>(exchange: ExchangeState<InstanceInfo<R>>, seq: u64) -> Phase {
    match exchange.phase {
        ExchangePhase::Complete => fan_out_phase(exchange.collected, seq, 0),
        ExchangePhase::Failed { error } => Phase::Failed { error: exchange_failure(error) },
        _ => Phase::Exchanging,
    }
}

/// The transition function of the driver: the state after `e` arrived at
/// time `now`. The time matters to one transition only: when the address is
/// observed, the metric is the whole milliseconds since the run started.
///
/// A finished or aborted run stays as it is. An event that does not answer
/// the operation that is due aborts the run, and so does a failure of any
/// operation but a directed query and the address observation: a failed query
/// is noted and the fan-out goes on, a missing address is noted and the run
/// goes on to the final barrier. While records are exchanged the events go
/// to the exchange, and the run follows what becomes of it.
pub open spec fn next<R>(s: DriverState<R>, e: Event<R>, now: Instant) -> DriverState<R> {
    if s.phase is Done || s.phase is Failed {
        s
    } else if !answers(s.phase, e) {
        aborted(s, RunError::OutOfTurn)
    } else if e is Failed && fatal_in(s.phase) is Some {
        aborted(s, fatal_in(s.phase)->0)
    } else {
        match s.phase {
            Phase::Allocating => DriverState { phase: Phase::StartingEngine, seq: e->seq, ..s },
            Phase::StartingEngine => DriverState {
                phase: if role_of(s.seq) == Role::Coordinator {
                    Phase::ArmingWatcher
                } else {
                    Phase::Exchanging
                },
                local: Some(InstanceInfo { seq: s.seq, record: e->record }),
                ..s
            },
            Phase::ArmingWatcher => DriverState { phase: Phase::Exchanging, watching: true, ..s },
            Phase::Exchanging => DriverState {
                phase: exchange_phase(exchange_next(s.exchange, exchange_event(e)), s.seq),
                exchange: exchange_next(s.exchange, exchange_event(e)),
                ..s
            },
            Phase::Querying { peer } => DriverState {
                phase: fan_out_phase(s.peers(), s.seq, peer + 1),
                diagnostics: if e is Failed {
                    s.diagnostics.push(Diagnostic::QueryFailed { seq: s.peers()[peer as int].seq })
                } else {
                    s.diagnostics
                },
                ..s
            },
            Phase::AtConnectionsBarrier => DriverState { phase: Phase::RecordingPeers, ..s },
            Phase::RecordingPeers => DriverState {
                phase: if role_of(s.seq) == Role::Coordinator {
                    Phase::ObservingAddress
                } else {
                    Phase::AtCompletedBarrier
                },
                ..s
            },
            Phase::ObservingAddress => if e is Failed {
                DriverState {
                    phase: Phase::AtCompletedBarrier,
                    diagnostics: s.diagnostics.push(Diagnostic::AddressNotObserved),
                    ..s
                }
            } else {
                DriverState {
                    phase: Phase::RecordingElapsed,
                    elapsed: Some(whole_millis_between(s.started_at, now) as i64),
                    ..s
                }
            },
            Phase::RecordingElapsed => DriverState { phase: Phase::AtCompletedBarrier, ..s },
            Phase::AtCompletedBarrier => DriverState { phase: Phase::Reporting, ..s },
            Phase::Reporting => DriverState { phase: Phase::Done, ..s },
            Phase::Done => s,
            Phase::Failed { .. } => s,
        }
    }
}

impl<R> DriverState<R> {
    /// The records collected so far, in order of arrival.
    pub open spec fn peers(self) -> Seq<InstanceInfo<R>> {
        self.exchange.collected
    }

    /// The states a driver can be in.
    ///
    /// Before the engine runs nothing is known but the ordinal; from then on
    /// the own record is, and it carries that ordinal. The coordinator, and only the
    /// coordinator, has its watcher armed before the exchange begins. The
    /// exchange of records has not begun before its phase, is under way
    /// during it and complete in every later phase. Queries and the address
    /// observation are the coordinator's alone, a query is only ever due at a
    /// record of another process, and no metric exists before the address was
    /// observed.
    pub open spec fn wf(self) -> bool {
        &&& self.exchange.wf()
        &&& self.exchange.expected == self.expected
        &&& self.peers().len() <= usize::MAX
        &&& self.started_at.wf()
        &&& self.local matches Some(info) ==> info.seq == self.seq
        &&& match self.phase {
            Phase::Allocating | Phase::StartingEngine => {
                &&& self.local is None
                &&& !self.watching
                &&& self.elapsed is None
                &&& self.diagnostics.len() == 0
            },
            Phase::Failed { .. } => true,
            Phase::ArmingWatcher => {
                &&& self.local matches Some(info) && info.seq == self.seq
                &&& !self.watching
            },
            _ => {
                &&& self.local matches Some(info) && info.seq == self.seq
                &&& self.watching <==> role_of(self.seq) == Role::Coordinator
            },
        }
        &&& match self.phase {
            Phase::RecordingElapsed
            | Phase::AtCompletedBarrier
            | Phase::Reporting
            | Phase::Done
            | Phase::Failed { .. } => true,
            _ => self.elapsed is None,
        }
        &&& match self.phase {
            Phase::Allocating | Phase::StartingEngine => self.exchange == exchange_initial::<
                InstanceInfo<R>,
            >(self.expected),
            Phase::ArmingWatcher => {
                &&& role_of(self.seq) == Role::Coordinator
                &&& self.exchange == exchange_initial::<InstanceInfo<R>>(self.expected)
            },
            Phase::Exchanging => {
                ||| self.exchange.phase is Publishing
                ||| self.exchange.phase is Subscribing
                ||| self.exchange.phase is Collecting
            },
            Phase::Querying { peer } => {
                &&& self.exchange.phase is Complete
                &&& role_of(self.seq) == Role::Coordinator
                &&& peer < self.peers().len()
                &&& self.peers()[peer as int].seq != self.seq
            },
            Phase::ObservingAddress => {
                &&& self.exchange.phase is Complete
                &&& role_of(self.seq) == Role::Coordinator
            },
            Phase::RecordingElapsed => {
                &&& self.exchange.phase is Complete
                &&& role_of(self.seq) == Role::Coordinator
                &&& self.elapsed is Some
            },
            Phase::AtConnectionsBarrier
            | Phase::RecordingPeers
            | Phase::AtCompletedBarrier
            | Phase::Reporting
            | Phase::Done => self.exchange.phase is Complete,
            Phase::Failed { .. } => true,
        }
    }
}

/// `next_target` finds the first record of another process from `from` on.
pub proof fn lemma_next_target<R>(peers: Seq<InstanceInfo<R>>, own: u64, from: int)
    requires
        0 <= from <= peers.len(),
    ensures
        from <= next_target(peers, own, from) <= peers.len(),
        forall|i: int| from <= i < next_target(peers, own, from) ==> (#[trigger] peers[i]).seq == own,
        next_target(peers, own, from) < peers.len() ==> peers[next_target(peers, own, from)].seq
            != own,
    decreases peers.len() - from,
{
    if from < peers.len() && peers[from].seq == own {
        lemma_next_target(peers, own, from + 1);
    }
}

/// Every transition leads from a valid state to a valid state, as long as
/// the collected records can still be counted on this machine.
pub proof fn lemma_next_preserves_wf<R>(s: DriverState<R>, e: Event<R>, now: Instant)
    requires
        s.wf(),
        now.wf(),
        next(s, e, now).peers().len() <= usize::MAX,
    ensures
        next(s, e, now).wf(),
        next(s, e, now).expected == s.expected,
        next(s, e, now).limits == s.limits,
        next(s, e, now).started_at == s.started_at,
{
    if s.phase is Exchanging {
        let exchange = exchange_next(s.exchange, exchange_event(e));
        lemma_exchange_next_preserves_wf(s.exchange, exchange_event(e));
        lemma_next_target(exchange.collected, s.seq, 0);
    }
    if let Phase::Querying { peer } = s.phase {
        lemma_next_target(s.peers(), s.seq, peer + 1);
    }
}

/// The driver of one process: the executable form of [`next`].
pub struct Driver<R> {
    expected: u64,
    limits: WaitLimits,
    phase: Phase,
    seq: u64,
    local: Option<InstanceInfo<R>>,
    started_at: Instant,
    watching: bool,
    exchange: Rendezvous<InstanceInfo<R>>,
    elapsed: Option<i64>,
    diagnostics: Vec<Diagnostic>,
}

impl<R> View for Driver<R> {
    type V = DriverState<R>;

    closed spec fn view(&self) -> DriverState<R> {
        DriverState {
            expected: self.expected,
            limits: self.limits,
            phase: self.phase,
            seq: self.seq,
            local: self.local,
            started_at: self.started_at,
            watching: self.watching,
            exchange: self.exchange@,
            elapsed: self.elapsed,
            diagnostics: self.diagnostics@,
        }
    }
}

/// The event with which the result of the address watcher is reported to the
/// driver: an observed address completes the observation, a closed feed
/// fails it.
pub fn observation_event<R, A>(observation: &Observation<A>) -> (e: Event<R>)
    ensures
        observation is Address ==> e is Completed,
        observation is FeedClosed ==> e is Failed,
{
    match observation {
        Observation::Address { .. } => Event::Completed,
        Observation::FeedClosed => Event::Failed,
    }
}

/// Whether a failure of the operation due in `phase` ends the run, and with
/// which error.
fn fatal_error(phase: Phase) -> (error: Option<RunError>)
    ensures
        error == fatal_in(phase),
{
    match phase {
        Phase::Allocating => Some(RunError::SequenceAllocation),
        Phase::StartingEngine | Phase::ArmingWatcher => Some(RunError::EngineConstruction),
        Phase::RecordingPeers | Phase::RecordingElapsed | Phase::Reporting => Some(
            RunError::ServiceUnreachable,
        ),
        Phase::AtConnectionsBarrier | Phase::AtCompletedBarrier => Some(
            RunError::BarrierIncomplete,
        ),
        Phase::Exchanging
        | Phase::Querying { .. }
        | Phase::ObservingAddress
        | Phase::Done
        | Phase::Failed { .. } => None,
    }
}

/// Whether `event` answers the operation due in `phase`.
fn is_answer<R>(phase: Phase, event: &Event<R>) -> (b: bool)
    ensures
        b == answers(phase, *event),
{
    let terminal = match phase {
        Phase::Done | Phase::Failed { .. } => true,
        _ => false,
    };
    match event {
        Event::Failed => !terminal,
        Event::SequenceAllocated { .. } => match phase {
            Phase::Allocating => true,
            _ => false,
        },
        Event::EngineStarted { .. } => match phase {
            Phase::StartingEngine => true,
            _ => false,
        },
        Event::Received { .. } => match phase {
            Phase::Exchanging => true,
            _ => false,
        },
        Event::Completed => match phase {
            Phase::Allocating | Phase::StartingEngine => false,
            _ => !terminal,
        },
    }
}

/// The error with which the run ends when its exchange of records fails.
fn run_error_of(error: ExchangeError) -> (e: RunError)
    ensures
        e == exchange_failure(error),
{
    match error {
        ExchangeError::Unreachable => RunError::ServiceUnreachable,
        ExchangeError::Incomplete => RunError::RendezvousIncomplete,
        ExchangeError::OutOfTurn => RunError::OutOfTurn,
    }
}

/// Hands an event of the driver to its exchange.
fn to_exchange_event<R>(event: Event<R>) -> (e: ExchangeEvent<InstanceInfo<R>>)
    ensures
        e == exchange_event(event),
{
    match event {
        Event::Received { info } => ExchangeEvent::Received { record: info },
        Event::Failed => ExchangeEvent::Failed,
        _ => ExchangeEvent::Completed,
    }
}

/// Finds the phase that follows the exchange of records, looking for the
/// next query target from `from` on.
fn phase_after_exchange<R>(peers: &Vec<InstanceInfo<R>>, seq: u64, from: usize) -> (phase: Phase)
    requires
        from <= peers.len(),
    ensures
        phase == fan_out_phase(peers@, seq, from as int),
{
    if seq != COORDINATOR_SEQ {
        return Phase::AtConnectionsBarrier;
    }
    let mut at: usize = from;
    while at < peers.len() && peers[at].seq == seq
        invariant
            from <= at <= peers.len(),
            next_target(peers@, seq, from as int) == next_target(peers@, seq, at as int),
        decreases peers.len() - at,
    {
        at += 1;
    }
    if at < peers.len() {
        Phase::Querying { peer: at }
    } else {
        Phase::AtConnectionsBarrier
    }
}

/// Finds the phase of a driver from the state of its exchange.
fn phase_of_exchange<R>(exchange: &Rendezvous<InstanceInfo<R>>, seq: u64) -> (phase: Phase)
    ensures
        phase == exchange_phase(exchange@, seq),
{
    match exchange.phase() {
        ExchangePhase::Complete => phase_after_exchange(exchange.collected(), seq, 0),
        ExchangePhase::Failed { error } => Phase::Failed { error: run_error_of(error) },
        _ => Phase::Exchanging,
    }
}

impl<R> Driver<R> {
    #[verifier::type_invariant]
    spec fn valid(self) -> bool {
        self@.wf()
    }

    /// A driver for a run of `expected` processes that waits without limit.
    /// The run starts now, by the system clock, and the first operation the
    /// driver asks for is the allocation of its ordinal. Where the clock
    /// cannot be read, the driver asks for nothing but to abort.
    pub fn new(expected: u64) -> (d: Self)
        ensures
            exists|clock: Option<Instant>| d@ == #[trigger] begun::<R>(expected, unlimited(), clock),
            d@.wf(),
    {
        Driver::begin(expected, WaitLimits { record_secs: None, barrier_secs: None }, read())
    }

    /// A driver for a run of `expected` processes that started when the
    /// clock showed `started_at`, and that gives the run up when a wait lasts
    /// longer than `limits` allows. Without a valid instant of the start the
    /// driver asks for nothing but to abort.
    pub fn begin(expected: u64, limits: WaitLimits, started_at: Option<Instant>) -> (d: Self)
        ensures
            d@ == begun::<R>(expected, limits, started_at),
            d@.wf(),
    {
        let valid = match started_at {
            Some(at) => Instant::new(at.secs, at.nanos),
            None => None,
        };
        match valid {
            Some(at) => Driver {
                expected,
                limits,
                phase: Phase::Allocating,
                seq: 0,
                local: None,
                started_at: at,
                watching: false,
                exchange: Rendezvous::new(expected),
                elapsed: None,
                diagnostics: Vec::new(),
            },
            None => Driver {
                expected,
                limits,
                phase: Phase::Failed { error: RunError::ClockUnreadable },
                seq: 0,
                local: None,
                started_at: Instant { secs: 0, nanos: 0 },
                watching: false,
                exchange: Rendezvous::new(expected),
                elapsed: None,
                diagnostics: Vec::new(),
            },
        }
    }

    /// The same driver with its run given up.
    fn halted(self, error: RunError) -> (d: Self)
        ensures
            d@ == aborted(self@, error),
            d@.wf(),
    {
        proof {
            use_type_invariant(&self);
        }
        let Driver {
            expected,
            limits,
            phase: _,
            seq,
            local,
            started_at,
            watching,
            exchange,
            elapsed,
            diagnostics,
        } = self;
        Driver {
            expected,
            limits,
            phase: Phase::Failed { error },
            seq,
            local,
            started_at,
            watching,
            exchange,
            elapsed,
            diagnostics,
        }
    }

    /// The operation that is due.
    pub fn pending(&self) -> (action: Action)
        ensures
            action == pending(self@),
    {
        match self.phase {
            Phase::Allocating => Action::AllocateSequence,
            Phase::StartingEngine => Action::StartEngine {
                identity: if self.seq == COORDINATOR_SEQ {
                    IdentityPlan::SelfAddressed
                } else {
                    IdentityPlan::NetworkAddressed { port: DISCOVERY_PORT }
                },
                listen_port: DISCOVERY_PORT,
                ping_interval_secs: PING_INTERVAL_SECS,
            },
            Phase::ArmingWatcher => Action::ArmWatcher,
            Phase::Exchanging => match self.exchange.pending() {
                ExchangeAction::Publish => Action::Publish,
                ExchangeAction::Subscribe => Action::Subscribe,
                ExchangeAction::AwaitRecord => Action::AwaitRecord {
                    limit_secs: self.limits.record_secs,
                },
                ExchangeAction::Finish => Action::Finish,
                ExchangeAction::Abort { error } => Action::Abort { error: run_error_of(error) },
            },
            Phase::Querying { peer } => Action::Query { peer, distance: QUERY_DISTANCE },
            Phase::AtConnectionsBarrier => Action::SignalAndWait {
                checkpoint: Checkpoint::ConnectionsEstablished,
                expected: self.expected,
                limit_secs: self.limits.barrier_secs,
            },
            Phase::RecordingPeers => Action::RecordPeers,
            Phase::ObservingAddress => Action::AwaitAddress,
            Phase::RecordingElapsed => Action::RecordElapsed {
                millis: match self.elapsed {
                    Some(millis) => millis,
                    None => 0,
                },
            },
            Phase::AtCompletedBarrier => Action::SignalAndWait {
                checkpoint: Checkpoint::Completed,
                expected: self.expected,
                limit_secs: self.limits.barrier_secs,
            },
            Phase::Reporting => Action::ReportSuccess,
            Phase::Done => Action::Finish,
            Phase::Failed { error } => Action::Abort { error },
        }
    }

    /// The limits on the waits of this process.
    pub fn limits(&self) -> (limits: WaitLimits)
        ensures
            limits == self@.limits,
    {
        self.limits
    }

    /// The number of processes in the run.
    pub fn expected(&self) -> (n: u64)
        ensures
            n == self@.expected,
    {
        self.expected
    }

    /// The operation the driver waits for.
    pub fn phase(&self) -> (phase: Phase)
        ensures
            phase == self@.phase,
    {
        self.phase
    }

    /// The coarse state of the scenario, or `None` once the run was aborted.
    pub fn stage(&self) -> (stage: Option<Stage>)
        ensures
            stage == stage_of(self@.phase),
    {
        match self.phase {
            Phase::Allocating
            | Phase::StartingEngine
            | Phase::ArmingWatcher
            | Phase::Exchanging => Some(Stage::Init),
            Phase::Querying { .. } | Phase::AtConnectionsBarrier => Some(Stage::IdentityExchanged),
            Phase::RecordingPeers | Phase::ObservingAddress => Some(Stage::ConnectionsEstablished),
            Phase::RecordingElapsed | Phase::AtCompletedBarrier => Some(Stage::AddressObserved),
            Phase::Reporting | Phase::Done => Some(Stage::Completed),
            Phase::Failed { .. } => None,
        }
    }

    /// The ordinal of this process; 0 as long as none has been allocated.
    pub fn seq(&self) -> (seq: u64)
        ensures
            seq == self@.seq,
    {
        self.seq
    }

    /// The role of this process.
    pub fn role(&self) -> (role: Role)
        ensures
            role == role_of(self@.seq),
    {
        if self.seq == COORDINATOR_SEQ {
            Role::Coordinator
        } else {
            Role::Participant
        }
    }

    /// The record this process publishes, once its engine runs.
    pub fn local(&self) -> (info: Option<&InstanceInfo<R>>)
        ensures
            info is Some <==> self@.local is Some,
            info matches Some(i) ==> *i == self@.local->0,
    {
        self.local.as_ref()
    }

    /// The records collected so far, in order of arrival.
    pub fn peers(&self) -> (peers: &Vec<InstanceInfo<R>>)
        ensures
            peers@ == self@.peers(),
    {
        self.exchange.collected()
    }

    /// When the process started its run.
    pub fn started_at(&self) -> (at: Instant)
        ensures
            at == self@.started_at,
    {
        self.started_at
    }

    /// The headline metric, once the address was observed: the whole
    /// milliseconds from the start of the run to the observation.
    pub fn elapsed_millis(&self) -> (millis: Option<i64>)
        ensures
            millis == self@.elapsed,
    {
        self.elapsed
    }

    /// The non-fatal conditions met so far, oldest first.
    pub fn diagnostics(&self) -> (notes: &Vec<Diagnostic>)
        ensures
            notes@ == self@.diagnostics,
    {
        &self.diagnostics
    }

    /// How the run ended: `None` while it is under way.
    pub fn outcome(&self) -> (result: Option<Result<(), RunError>>)
        ensures
            match self@.phase {
                Phase::Done => result == Some(Ok::<(), RunError>(())),
                Phase::Failed { error } => result == Some(Err::<(), RunError>(error)),
                _ => result is None,
            },
    {
        match self.phase {
            Phase::Done => Some(Ok(())),
            Phase::Failed { error } => Some(Err(error)),
            _ => None,
        }
    }

    /// Takes in what came of the pending operation, at time `now`, and moves
    /// to the state that [`next`] gives.
    pub fn step_at(self, event: Event<R>, now: Instant) -> (d: Self)
        requires
            now.wf(),
        ensures
            d@ == next(self@, event, now),
            d@.wf(),
    {
        proof {
            use_type_invariant(&self);
        }
        let ghost before = self@;
        let Driver {
            expected,
            limits,
            phase,
            seq,
            local,
            started_at,
            watching,
            exchange,
            elapsed,
            diagnostics,
        } = self;
        let mut diagnostics = diagnostics;
        match phase {
            Phase::Done | Phase::Failed { .. } => {
                return Driver {
                    expected,
                    limits,
                    phase,
                    seq,
                    local,
                    started_at,
                    watching,
                    exchange,
                    elapsed,
                    diagnostics,
                };
            },
            _ => {},
        }
        if !is_answer(phase, &event) {
            return Driver {
                expected,
                limits,
                phase: Phase::Failed { error: RunError::OutOfTurn },
                seq,
                local,
                started_at,
                watching,
                exchange,
                elapsed,
                diagnostics,
            };
        }
        let failed = match event {
            Event::Failed => true,
            _ => false,
        };
        if failed {
            if let Some(error) = fatal_error(phase) {
                return Driver {
                    expected,
                    limits,
                    phase: Phase::Failed { error },
                    seq,
                    local,
                    started_at,
                    watching,
                    exchange,
                    elapsed,
                    diagnostics,
                };
            }
        }
        let mut seq = seq;
        let mut local = local;
        let mut elapsed = elapsed;
        let mut watching = watching;
        let mut exchange = exchange;
        let phase = match phase {
            Phase::Allocating => {
                if let Event::SequenceAllocated { seq: allocated } = event {
                    seq = allocated;
                }
                Phase::StartingEngine
            },
            Phase::StartingEngine => {
                if let Event::EngineStarted { record } = event {
                    local = Some(InstanceInfo::new(seq, record));
                }
                if seq == COORDINATOR_SEQ {
                    Phase::ArmingWatcher
                } else {
                    Phase::Exchanging
                }
            },
            Phase::ArmingWatcher => {
                watching = true;
                Phase::Exchanging
            },
            Phase::Exchanging => {
                exchange = exchange.step(to_exchange_event(event));
                phase_of_exchange(&exchange, seq)
            },
            Phase::Querying { peer } => {
                let peers = exchange.collected();
                if failed {
                    diagnostics.push(Diagnostic::QueryFailed { seq: peers[peer].seq });
                }
                phase_after_exchange(peers, seq, peer + 1)
            },
            Phase::AtConnectionsBarrier => Phase::RecordingPeers,
            Phase::RecordingPeers => {
                if seq == COORDINATOR_SEQ {
                    Phase::ObservingAddress
                } else {
                    Phase::AtCompletedBarrier
                }
            },
            Phase::ObservingAddress => {
                if failed {
                    diagnostics.push(Diagnostic::AddressNotObserved);
                    Phase::AtCompletedBarrier
                } else {
                    elapsed = Some(now.whole_millis_since(&started_at));
                    Phase::RecordingElapsed
                }
            },
            Phase::RecordingElapsed => Phase::AtCompletedBarrier,
            Phase::AtCompletedBarrier => Phase::Reporting,
            Phase::Reporting => Phase::Done,
            Phase::Done => Phase::Done,
            Phase::Failed { error } => Phase::Failed { error },
        };
        proof {
            exchange.lemma_fits_memory();
            lemma_next_preserves_wf(before, event, now);
        }
        Driver {
            expected,
            limits,
            phase,
            seq,
            local,
            started_at,
            watching,
            exchange,
            elapsed,
            diagnostics,
        }
    }

    /// Takes in what came of the pending operation. The system clock is read
    /// only where the time has a part in the new state, that is when the
    /// address is observed: the state is then the one [`next`] gives for the
    /// instant the clock showed, or the run is given up where the clock could
    /// not be read.
    pub fn step(self, event: Event<R>) -> (d: Self)
        ensures
            !needs_clock(self@, event) ==> d@ == next(self@, event, self@.started_at),
            needs_clock(self@, event) ==> (exists|at: Instant|
                at.wf() && d@ == #[trigger] next(self@, event, at)) || d@ == aborted(
                self@,
                RunError::ClockUnreadable,
            ),
            d@.wf(),
    {
        proof {
            use_type_invariant(&self);
        }
        let observing = match self.phase {
            Phase::ObservingAddress => true,
            _ => false,
        };
        let completed = match event {
            Event::Completed => true,
            _ => false,
        };
        if observing && completed {
            match read() {
                Some(at) => self.step_at(event, at),
                None => self.halted(RunError::ClockUnreadable),
            }
        } else {
            let at = self.started_at;
            self.step_at(event, at)
        }
    }
}

} // verus!
