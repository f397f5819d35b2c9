//! A whole run: all its processes and the coordination service together.
//!
//! Every process follows its driver; the service answers as the reference
//! model says. Which process moves next, and whether an operation of a
//! collaborator succeeds, is left open: what is proved here holds of every
//! order of moves and of every outcome.

use crate::checkpoint::{lemma_names_distinct, Checkpoint};
use crate::clock::Instant;
use crate::guarantees::{lemma_phases_in_order, phase_order};
use crate::instance::InstanceInfo;
use crate::scenario::{
    aborted, begun, lemma_next_preserves_wf, next, pending, Action, DriverState, Event, RunError,
};
use crate::service::{
    announced_once, announcers, instance_seq_state, lemma_barrier_waits_for_everyone,
    lemma_counter_counts_processes, lemma_occurrences_push, lemma_ordinals_exact,
    lemma_replies_distinct, occurrences, released, reply_at,
};
use vstd::prelude::*;

verus! {

/// The processes of a run and what the coordination service holds for them.
pub struct Ensemble<R> {
    /// The driver of each process.
    pub drivers: Seq<DriverState<R>>,
    /// Whether a process has announced the barrier it is at and waits for
    /// its release.
    pub waiting: Seq<bool>,
    /// How many records each process has read from the topic.
    pub cursors: Seq<int>,
    /// The names announced at the service, oldest first.
    pub history: Seq<Seq<char>>,
    /// The process that made each of those announcements.
    pub who: Seq<int>,
    /// The records on the topic, oldest first.
    pub topic: Seq<InstanceInfo<R>>,
    /// The process that published each of those records.
    pub publishers: Seq<int>,
}

/// The phase in which a driver waits at the barrier of a checkpoint, by its
/// place in the order of phases.
pub open spec fn barrier_order(checkpoint: Checkpoint) -> nat {
    match checkpoint {
        Checkpoint::NetworkConfigured => 0,
        Checkpoint::ConnectionsEstablished => 5,
        Checkpoint::Completed => 9,
    }
}

/// Whether a driver has been told that the barrier of `checkpoint` was
/// released and has gone on from there.
pub open spec fn has_passed<R>(driver: DriverState<R>, checkpoint: Checkpoint) -> bool {
    barrier_order(checkpoint) < phase_order(driver.phase) && !(driver.phase is Failed)
}

/// A run before any process has moved: every driver has just begun, be it
/// with a reading of the clock or without one, nothing has been announced
/// and nothing published. The run has no more processes than a
/// process can hold records.
pub open spec fn starts<R>(s: Ensemble<R>) -> bool {
    &&& s.drivers.len() <= usize::MAX
    &&& s.waiting.len() == s.drivers.len()
    &&& s.cursors.len() == s.drivers.len()
    &&& s.history.len() == 0
    &&& s.who.len() == 0
    &&& s.topic.len() == 0
    &&& s.publishers.len() == 0
    &&& forall|p: int|
        0 <= p < s.drivers.len() ==> {
            &&& !(#[trigger] s.waiting[p])
            &&& {
                ||| s.drivers[p] == begun::<R>(
                    s.drivers.len() as u64,
                    s.drivers[p].limits,
                    Some(s.drivers[p].started_at),
                )
                ||| s.drivers[p] == begun::<R>(s.drivers.len() as u64, s.drivers[p].limits, None)
            }
        }
}

/// The run `s` with the driver of process `p` replaced.
pub open spec fn with_driver<R>(s: Ensemble<R>, p: int, driver: DriverState<R>) -> Ensemble<R> {
    Ensemble { drivers: s.drivers.update(p, driver), ..s }
}

/// One move of process `p`: the run goes from `a` to `b` when the process
/// performs the operation its driver asks for and the driver takes in, at
/// time `now`, the event `e` that came of it.
///
/// The service answers as its model says. The ordinal is the new count of the
/// sequence counter. A published record is appended to the topic. A
/// subscriber reads the topic from its beginning, one record at a time, and
/// only records that are there. A process at a barrier first announces the
/// checkpoint, which is a move of its own, and is told of the release only
/// once the barrier is released. Every operation may fail instead; what the
/// operations of the engine yield is left open, and so is whether the clock
/// can be read when a driver needs the time.
pub open spec fn moves<R>(a: Ensemble<R>, b: Ensemble<R>, p: int, e: Event<R>, now: Instant) -> bool {
    let driver = a.drivers[p];
    let failed = with_driver(a, p, next(driver, Event::Failed, now));
    &&& 0 <= p < a.drivers.len()
    &&& now.wf()
    &&& match pending(driver) {
        Action::Finish | Action::Abort { .. } => false,
        Action::AllocateSequence => {
            ||| e is Failed && b == failed
            ||| {
                &&& e == Event::<R>::SequenceAllocated {
                    seq: (occurrences(a.history, instance_seq_state()) + 1) as u64,
                }
                &&& b == Ensemble {
                    drivers: a.drivers.update(p, next(driver, e, now)),
                    history: a.history.push(instance_seq_state()),
                    who: a.who.push(p),
                    ..a
                }
            }
        },
        Action::Publish => {
            ||| e is Failed && b == failed
            ||| {
                &&& e is Completed
                &&& driver.local is Some
                &&& b == Ensemble {
                    drivers: a.drivers.update(p, next(driver, e, now)),
                    topic: a.topic.push(driver.local->0),
                    publishers: a.publishers.push(p),
                    ..a
                }
            }
        },
        Action::Subscribe => {
            ||| e is Failed && b == failed
            ||| {
                &&& e is Completed
                &&& b == Ensemble {
                    drivers: a.drivers.update(p, next(driver, e, now)),
                    cursors: a.cursors.update(p, 0),
                    ..a
                }
            }
        },
        Action::AwaitRecord { .. } => {
            ||| e is Failed && b == failed
            ||| {
                &&& 0 <= a.cursors[p] < a.topic.len()
                &&& e == Event::Received { info: a.topic[a.cursors[p]] }
                &&& b == Ensemble {
                    drivers: a.drivers.update(p, next(driver, e, now)),
                    cursors: a.cursors.update(p, a.cursors[p] + 1),
                    ..a
                }
            }
        },
        Action::SignalAndWait { checkpoint, expected, .. } => if !a.waiting[p] {
            b == Ensemble {
                waiting: a.waiting.update(p, true),
                history: a.history.push(checkpoint.spec_name()),
                who: a.who.push(p),
                ..a
            }
        } else {
            &&& e is Failed || (e is Completed && released(
                a.history,
                checkpoint.spec_name(),
                expected,
            ))
            &&& b == Ensemble {
                drivers: a.drivers.update(p, next(driver, e, now)),
                waiting: a.waiting.update(p, false),
                ..a
            }
        },
        _ => {
            ||| b == with_driver(a, p, next(driver, e, now))
            ||| b == with_driver(a, p, aborted(driver, RunError::ClockUnreadable))
        },
    }
}

/// Whether the run can go from `a` to `b` in one move of some process.
pub open spec fn moved<R>(a: Ensemble<R>, b: Ensemble<R>) -> bool {
    exists|p: int, e: Event<R>, now: Instant| moves(a, b, p, e, now)
}

/// Whether `states` is a course a run can take: it begins with a run in
/// which no process has moved, and each state follows from the one before it
/// by one move.
pub open spec fn is_run<R>(states: Seq<Ensemble<R>>) -> bool {
    &&& states.len() > 0
    &&& starts(states[0])
    &&& forall|k: int| 0 <= k < states.len() - 1 ==> #[trigger] moved(states[k], states[k + 1])
}

/// Whether process `p` has been given an ordinal.
pub open spec fn holds_ordinal<R>(s: Ensemble<R>, p: int) -> bool {
    announcers(s.history, s.who, instance_seq_state()).contains(p)
}

/// Whether process `p` has announced `checkpoint`.
pub open spec fn has_announced<R>(s: Ensemble<R>, p: int, checkpoint: Checkpoint) -> bool {
    announcers(s.history, s.who, checkpoint.spec_name()).contains(p)
}

/// Whether some process holds the ordinal `value`.
pub open spec fn ordinal_held<R>(s: Ensemble<R>, value: u64) -> bool {
    exists|p: int| #[trigger] holds_ordinal(s, p) && s.drivers[p].seq == value
}

/// What holds of the run as a whole: its parts fit together, every driver is
/// in a valid state and counts on as many processes as there are, and a
/// process that waits is at a barrier.
pub open spec fn well_shaped<R>(s: Ensemble<R>) -> bool {
    &&& s.drivers.len() <= usize::MAX
    &&& s.waiting.len() == s.drivers.len()
    &&& s.cursors.len() == s.drivers.len()
    &&& s.who.len() == s.history.len()
    &&& s.publishers.len() == s.topic.len()
    &&& forall|at: int| 0 <= at < s.who.len() ==> 0 <= #[trigger] s.who[at] < s.drivers.len()
    &&& forall|p: int|
        0 <= p < s.drivers.len() ==> (#[trigger] s.drivers[p]).wf() && s.drivers[p].expected
            == s.drivers.len()
    &&& forall|p: int|
        0 <= p < s.drivers.len() && #[trigger] s.waiting[p] ==> pending(s.drivers[p])
            is SignalAndWait
}

/// What holds of the ordinals: no process asks for one twice, a process that
/// was given one holds it for good, and a process that has gone on from the
/// allocation, or has a record of its own, was given one.
pub open spec fn ordinals_kept<R>(s: Ensemble<R>) -> bool {
    &&& announced_once(s.history, s.who, instance_seq_state())
    &&& forall|at: int|
        0 <= at < s.history.len() && #[trigger] s.history[at] == instance_seq_state() ==> {
            &&& !(s.drivers[s.who[at]].phase is Allocating)
            &&& s.drivers[s.who[at]].seq == reply_at(s.history, at)
        }
    &&& forall|p: int|
        0 <= p < s.drivers.len() && ((#[trigger] s.drivers[p]).local is Some || !(
        s.drivers[p].phase is Allocating || s.drivers[p].phase is Failed)) ==> holds_ordinal(s, p)
}

/// What holds of the barrier of one checkpoint: no process announces it
/// twice; a process that announced it is at that barrier, waiting, or beyond
/// it; and a process can only be beyond it, other than by giving up, when the
/// barrier was released.
pub open spec fn barrier_kept<R>(s: Ensemble<R>, checkpoint: Checkpoint) -> bool {
    &&& announced_once(s.history, s.who, checkpoint.spec_name())
    &&& forall|at: int|
        0 <= at < s.history.len() && #[trigger] s.history[at] == checkpoint.spec_name() ==> {
            &&& barrier_order(checkpoint) <= phase_order(s.drivers[s.who[at]].phase)
            &&& barrier_order(checkpoint) == phase_order(s.drivers[s.who[at]].phase)
                ==> s.waiting[s.who[at]]
        }
    &&& forall|p: int|
        0 <= p < s.drivers.len() && has_passed(#[trigger] s.drivers[p], checkpoint) ==> released(
            s.history,
            checkpoint.spec_name(),
            s.drivers.len() as u64,
        )
}

/// What holds of the topic: every record on it is the own record of the
/// process that published it, no process publishes twice, a process that
/// collects has read the topic from its beginning up to its cursor, and a
/// process whose exchange is complete holds the head of the topic.
pub open spec fn topic_kept<R>(s: Ensemble<R>) -> bool {
    &&& forall|at: int|
        0 <= at < s.topic.len() ==> {
            let p = #[trigger] s.publishers[at];
            &&& 0 <= p < s.drivers.len()
            &&& s.drivers[p].local == Some(s.topic[at])
            &&& !(s.drivers[p].exchange.phase is Publishing)
        }
    &&& forall|first: int, second: int|
        0 <= first < second < s.topic.len() ==> #[trigger] s.publishers[first]
            != #[trigger] s.publishers[second]
    &&& forall|p: int|
        0 <= p < s.drivers.len() && (#[trigger] s.drivers[p]).exchange.phase is Collecting ==> {
            &&& 0 <= s.cursors[p] <= s.topic.len()
            &&& s.drivers[p].peers() == s.topic.take(s.cursors[p])
        }
    &&& forall|p: int|
        0 <= p < s.drivers.len() && (#[trigger] s.drivers[p]).exchange.phase is Complete ==> {
            &&& s.drivers.len() <= s.topic.len()
            &&& s.drivers[p].peers() == s.topic.take(s.drivers.len() as int)
        }
}

/// What holds in every state of every run: `lemma_holds_throughout` shows
/// it, and the statements about whole runs below rest on it.
pub open spec fn holds<R>(s: Ensemble<R>) -> bool {
    &&& well_shaped(s)
    &&& ordinals_kept(s)
    &&& barrier_kept(s, Checkpoint::ConnectionsEstablished)
    &&& barrier_kept(s, Checkpoint::Completed)
    &&& topic_kept(s)
}

/// What one step of a driver keeps and changes, as far as the run as a whole
/// depends on it.
proof fn lemma_driver_step<R>(d: DriverState<R>, e: Event<R>, now: Instant)
    requires
        d.wf(),
        now.wf(),
        d.expected <= usize::MAX,
    ensures
        next(d, e, now).wf(),
        next(d, e, now).expected == d.expected,
        phase_order(d.phase) <= phase_order(next(d, e, now).phase),
        pending(d) is SignalAndWait ==> phase_order(d.phase) < phase_order(next(d, e, now).phase),
        !(d.phase is Allocating) ==> next(d, e, now).seq == d.seq && !(next(d, e, now).phase
            is Allocating),
        d.local is Some ==> next(d, e, now).local == d.local,
        !(d.exchange.phase is Publishing) ==> !(next(d, e, now).exchange.phase is Publishing),
        d.exchange.phase is Complete ==> next(d, e, now).exchange == d.exchange,
        !(pending(d) is AwaitRecord) && !(pending(d) is Subscribe) ==> !(next(
            d,
            e,
            now,
        ).exchange.phase is Collecting) || next(d, e, now).exchange == d.exchange,
        !(pending(d) is AwaitRecord) && !(pending(d) is Subscribe) ==> !(next(
            d,
            e,
            now,
        ).exchange.phase is Complete) || next(d, e, now).exchange == d.exchange,
        forall|c: Checkpoint|
            c != Checkpoint::NetworkConfigured && has_passed(next(d, e, now), c) && !has_passed(d, c)
                ==> phase_order(d.phase) == barrier_order(c) && e is Completed,
{
    assert(next(d, e, now).peers().len() <= usize::MAX) by {
        crate::rendezvous::lemma_exchange_next_preserves_wf(
            d.exchange,
            crate::scenario::exchange_event(e),
        );
    }
    lemma_next_preserves_wf(d, e, now);
    lemma_phases_in_order(d, e, now);
}

/// The names of the counters the processes of a run announce differ from
/// each other.
proof fn lemma_counters_apart()
    ensures
        instance_seq_state() != Checkpoint::ConnectionsEstablished.spec_name(),
        instance_seq_state() != Checkpoint::Completed.spec_name(),
        Checkpoint::ConnectionsEstablished.spec_name() != Checkpoint::Completed.spec_name(),
{
    lemma_names_distinct(Checkpoint::ConnectionsEstablished, Checkpoint::Completed);
    reveal_strlit("get_instance_seq");
    reveal_strlit("state_completed_establish_connections");
    reveal_strlit("state_completed");
    assert("get_instance_seq"@.len() == 16);
    assert("state_completed_establish_connections"@.len() == 37);
    assert("state_completed"@.len() == 15);
}

/// A run in which no process has moved is in order.
pub proof fn lemma_holds_at_start<R>(s: Ensemble<R>)
    requires
        starts(s),
    ensures
        holds(s),
{
    assert forall|p: int| 0 <= p < s.drivers.len() implies (#[trigger] s.drivers[p]).wf()
        && s.drivers[p].expected == s.drivers.len() by {
        assert(!s.waiting[p]);
    }
    assert forall|p: int| 0 <= p < s.drivers.len() implies !has_passed(
        #[trigger] s.drivers[p],
        Checkpoint::ConnectionsEstablished,
    ) && !has_passed(s.drivers[p], Checkpoint::Completed) && !(s.drivers[p].exchange.phase
        is Collecting) && !(s.drivers[p].exchange.phase is Complete) && s.drivers[p].local is None
        && (s.drivers[p].phase is Allocating || s.drivers[p].phase is Failed) by {
        assert(!s.waiting[p]);
    }
}

/// One move keeps the parts of the run together.
proof fn lemma_shape_kept<R>(a: Ensemble<R>, b: Ensemble<R>, p: int, e: Event<R>, now: Instant)
    requires
        holds(a),
        moves(a, b, p, e, now),
    ensures
        well_shaped(b),
        forall|q: int| 0 <= q < a.drivers.len() && q != p ==> b.drivers[q] == a.drivers[q],
        b.drivers.len() == a.drivers.len(),
{
    let d = a.drivers[p];
    assert(d.wf() && d.expected == a.drivers.len());
    lemma_driver_step(d, e, now);
    lemma_driver_step(d, Event::Failed, now);
    assert forall|q: int| 0 <= q < b.drivers.len() implies (#[trigger] b.drivers[q]).wf()
        && b.drivers[q].expected == b.drivers.len() by {
        if q != p {
            assert(b.drivers[q] == a.drivers[q]);
            assert(a.drivers[q].wf());
        }
    }
    assert forall|q: int| 0 <= q < b.drivers.len() && #[trigger] b.waiting[q] implies pending(
        b.drivers[q],
    ) is SignalAndWait by {
        if q != p {
            assert(a.waiting[q]);
            assert(b.drivers[q] == a.drivers[q]);
        } else {
            if !(pending(d) is SignalAndWait) {
                assert(!a.waiting[p]);
            }
        }
    }
    assert forall|at: int| 0 <= at < b.who.len() implies 0 <= #[trigger] b.who[at]
        < b.drivers.len() by {
        if at < a.who.len() {
            assert(b.who[at] == a.who[at]);
        }
    }
}

/// A name that is not announced in a move keeps its reply values, and its
/// announcements stay where they are.
proof fn lemma_history_grows<R>(a: Ensemble<R>, b: Ensemble<R>, p: int, e: Event<R>, now: Instant)
    requires
        holds(a),
        moves(a, b, p, e, now),
    ensures
        a.history.len() <= b.history.len() <= a.history.len() + 1,
        b.who.len() == b.history.len(),
        forall|at: int|
            0 <= at < a.history.len() ==> #[trigger] b.history[at] == a.history[at] && b.who[at]
                == a.who[at],
        forall|at: int| 0 <= at < a.history.len() ==> #[trigger] reply_at(b.history, at) == reply_at(
            a.history,
            at,
        ),
        b.history.len() == a.history.len() + 1 ==> b.who[a.history.len() as int] == p && b.history
            == a.history.push(b.history[a.history.len() as int]),
        b.history.len() == a.history.len() ==> b.history == a.history && b.who == a.who,
{
    assert forall|at: int| 0 <= at < a.history.len() implies #[trigger] reply_at(b.history, at)
        == reply_at(a.history, at) by {
        assert(b.history.take(at + 1) == a.history.take(at + 1));
    }
}

/// One move keeps what holds of the ordinals.
proof fn lemma_ordinals_kept<R>(a: Ensemble<R>, b: Ensemble<R>, p: int, e: Event<R>, now: Instant)
    requires
        holds(a),
        moves(a, b, p, e, now),
    ensures
        ordinals_kept(b),
{
    let name = instance_seq_state();
    let d = a.drivers[p];
    let last = a.history.len() as int;
    lemma_shape_kept(a, b, p, e, now);
    lemma_history_grows(a, b, p, e, now);
    lemma_counters_apart();
    lemma_driver_step(d, e, now);
    lemma_driver_step(d, Event::Failed, now);
    let allocated = b.history.len() == last + 1 && b.history[last] == name;
    // Who asked before has gone on from the allocation; `p` has not.
    assert forall|first: int, second: int|
        0 <= first < second < b.history.len() && b.history[first] == name && b.history[second]
            == name implies #[trigger] b.who[first] != #[trigger] b.who[second] by {
        if second < last {
            assert(a.history[first] == name && a.history[second] == name);
        } else {
            assert(a.history[first] == name);
            assert(!(a.drivers[a.who[first]].phase is Allocating));
        }
    }
    if allocated {
        assert(pending(d) is AllocateSequence);
        assert(b.history.take(last + 1) == b.history);
        lemma_occurrences_push(a.history, name, name);
        // No more ordinals are handed out than there are processes.
        lemma_counter_counts_processes(b.history, b.who, name);
        let everyone = vstd::set_lib::set_int_range(0, b.drivers.len() as int);
        vstd::set_lib::lemma_int_range(0, b.drivers.len() as int);
        assert(announcers(b.history, b.who, name).subset_of(everyone));
        vstd::set_lib::lemma_len_subset(announcers(b.history, b.who, name), everyone);
        assert(occurrences(b.history, name) <= b.drivers.len());
    }
    assert forall|at: int|
        0 <= at < b.history.len() && #[trigger] b.history[at] == name implies !(
    b.drivers[b.who[at]].phase is Allocating) && b.drivers[b.who[at]].seq == reply_at(
        b.history,
        at,
    ) by {
        if at < last {
            assert(a.history[at] == name);
            let q = a.who[at];
            assert(reply_at(b.history, at) == reply_at(a.history, at));
            if q != p {
                assert(b.drivers[q] == a.drivers[q]);
            }
        }
    }
    assert forall|q: int|
        0 <= q < b.drivers.len() && ((#[trigger] b.drivers[q]).local is Some || !(
        b.drivers[q].phase is Allocating || b.drivers[q].phase is Failed)) implies holds_ordinal(
        b,
        q,
    ) by {
        if q != p {
            assert(b.drivers[q] == a.drivers[q]);
        }
        if q == p && allocated {
            assert(b.history[last] == name && b.who[last] == q);
        } else {
            assert(holds_ordinal(a, q));
            let at = choose|at: int|
                0 <= at < a.history.len() && a.history[at] == name && #[trigger] a.who[at] == q;
            assert(b.history[at] == name && b.who[at] == q);
        }
    }
}

/// One move keeps what holds of the barrier of a checkpoint.
proof fn lemma_barrier_kept<R>(
    a: Ensemble<R>,
    b: Ensemble<R>,
    p: int,
    e: Event<R>,
    now: Instant,
    checkpoint: Checkpoint,
)
    requires
        holds(a),
        moves(a, b, p, e, now),
        checkpoint != Checkpoint::NetworkConfigured,
    ensures
        barrier_kept(b, checkpoint),
{
    let name = checkpoint.spec_name();
    let d = a.drivers[p];
    let last = a.history.len() as int;
    let n = a.drivers.len() as u64;
    lemma_shape_kept(a, b, p, e, now);
    lemma_history_grows(a, b, p, e, now);
    lemma_counters_apart();
    lemma_driver_step(d, e, now);
    lemma_driver_step(d, Event::Failed, now);
    assert(barrier_kept(a, checkpoint));
    let announced = b.history.len() == last + 1 && b.history[last] == name;
    if announced {
        assert(pending(d) is SignalAndWait && pending(d)->checkpoint == checkpoint) by {
            lemma_names_distinct(pending(d)->checkpoint, checkpoint);
        }
        assert(!a.waiting[p]);
        assert(phase_order(d.phase) == barrier_order(checkpoint));
    }
    assert forall|first: int, second: int|
        0 <= first < second < b.history.len() && b.history[first] == name && b.history[second]
            == name implies #[trigger] b.who[first] != #[trigger] b.who[second] by {
        if second < last {
            assert(a.history[first] == name && a.history[second] == name);
        } else {
            assert(a.history[first] == name);
            // Who announced before is waiting or beyond; `p` is neither.
            assert(barrier_order(checkpoint) <= phase_order(a.drivers[a.who[first]].phase));
        }
    }
    assert forall|at: int|
        0 <= at < b.history.len() && #[trigger] b.history[at] == name implies {
        &&& barrier_order(checkpoint) <= phase_order(b.drivers[b.who[at]].phase)
        &&& barrier_order(checkpoint) == phase_order(b.drivers[b.who[at]].phase)
            ==> b.waiting[b.who[at]]
    } by {
        if at < last {
            assert(a.history[at] == name);
            let q = a.who[at];
            if q != p {
                assert(b.drivers[q] == a.drivers[q]);
                assert(b.waiting[q] == a.waiting[q]);
            }
        }
    }
    assert forall|q: int|
        0 <= q < b.drivers.len() && has_passed(#[trigger] b.drivers[q], checkpoint) implies released(
        b.history,
        name,
        b.drivers.len() as u64,
    ) by {
        if b.history.len() == last + 1 {
            lemma_occurrences_push(a.history, b.history[last], name);
        }
        if q != p {
            assert(b.drivers[q] == a.drivers[q]);
            assert(has_passed(a.drivers[q], checkpoint));
        } else if has_passed(d, checkpoint) {
        } else {
            assert(b.drivers[p] != d);
            assert(pending(d) is SignalAndWait && pending(d)->checkpoint == checkpoint);
            assert(a.waiting[p]);
            assert(released(a.history, name, n));
        }
    }
}

/// One move keeps what holds of the topic.
proof fn lemma_topic_kept<R>(a: Ensemble<R>, b: Ensemble<R>, p: int, e: Event<R>, now: Instant)
    requires
        holds(a),
        moves(a, b, p, e, now),
    ensures
        topic_kept(b),
{
    let d = a.drivers[p];
    let n = a.drivers.len() as int;
    let last = a.topic.len() as int;
    lemma_shape_kept(a, b, p, e, now);
    lemma_driver_step(d, e, now);
    lemma_driver_step(d, Event::Failed, now);
    assert(topic_kept(a));
    assert(a.topic.len() <= b.topic.len() <= a.topic.len() + 1);
    assert forall|at: int| 0 <= at < last implies #[trigger] b.topic[at] == a.topic[at]
        && b.publishers[at] == a.publishers[at] by {}
    assert forall|upto: int| 0 <= upto <= last implies #[trigger] b.topic.take(upto)
        == a.topic.take(upto) by {}
    assert forall|at: int| 0 <= at < b.topic.len() implies {
        let q = #[trigger] b.publishers[at];
        &&& 0 <= q < b.drivers.len()
        &&& b.drivers[q].local == Some(b.topic[at])
        &&& !(b.drivers[q].exchange.phase is Publishing)
    } by {
        if at < last {
            let q = a.publishers[at];
            assert(b.publishers[at] == q);
            assert(a.drivers[q].local == Some(a.topic[at]));
            if q != p {
                assert(b.drivers[q] == a.drivers[q]);
            }
        }
    }
    assert forall|first: int, second: int| 0 <= first < second < b.topic.len() implies #[trigger]
        b.publishers[first] != #[trigger] b.publishers[second] by {
        if second < last {
            assert(a.publishers[first] != a.publishers[second]);
        } else {
            let q = a.publishers[first];
            assert(!(a.drivers[q].exchange.phase is Publishing));
        }
    }
    assert forall|q: int|
        0 <= q < b.drivers.len() && (#[trigger] b.drivers[q]).exchange.phase is Collecting implies {
        &&& 0 <= b.cursors[q] <= b.topic.len()
        &&& b.drivers[q].peers() == b.topic.take(b.cursors[q])
    } by {
        if q != p {
            assert(b.drivers[q] == a.drivers[q]);
            assert(b.cursors[q] == a.cursors[q]);
            assert(b.topic.take(a.cursors[q]) == a.topic.take(a.cursors[q]));
        } else if b.drivers[p].exchange == d.exchange {
            assert(b.cursors[p] == a.cursors[p]);
            assert(b.topic.take(a.cursors[p]) == a.topic.take(a.cursors[p]));
        } else if pending(d) is Subscribe {
            assert(b.cursors[p] == 0);
            assert(b.drivers[p].peers() == a.topic.take(0));
        } else {
            assert(pending(d) is AwaitRecord);
            let at = a.cursors[p];
            assert(b.cursors[p] == at + 1);
            assert(a.topic.take(at).push(a.topic[at]) == a.topic.take(at + 1));
        }
    }
    assert forall|q: int|
        0 <= q < b.drivers.len() && (#[trigger] b.drivers[q]).exchange.phase is Complete implies {
        &&& b.drivers.len() <= b.topic.len()
        &&& b.drivers[q].peers() == b.topic.take(b.drivers.len() as int)
    } by {
        if q != p {
            assert(b.drivers[q] == a.drivers[q]);
            assert(b.topic.take(n) == a.topic.take(n));
        } else if b.drivers[p].exchange == d.exchange {
            assert(b.topic.take(n) == a.topic.take(n));
        } else if pending(d) is Subscribe {
            assert(n == 0);
            assert(b.drivers[p].peers() == a.topic.take(0));
        } else {
            assert(pending(d) is AwaitRecord);
            let at = a.cursors[p];
            assert(at + 1 == n);
            assert(a.topic.take(at).push(a.topic[at]) == a.topic.take(at + 1));
        }
    }
}

/// What holds of a run holds after every move.
pub proof fn lemma_holds_after_move<R>(a: Ensemble<R>, b: Ensemble<R>)
    requires
        holds(a),
        moved(a, b),
    ensures
        holds(b),
{
    let (p, e, now) = choose|p: int, e: Event<R>, now: Instant| moves(a, b, p, e, now);
    lemma_shape_kept(a, b, p, e, now);
    lemma_ordinals_kept(a, b, p, e, now);
    lemma_barrier_kept(a, b, p, e, now, Checkpoint::ConnectionsEstablished);
    lemma_barrier_kept(a, b, p, e, now, Checkpoint::Completed);
    lemma_topic_kept(a, b, p, e, now);
}

/// What holds of a run holds in every state of every course it can take,
/// whichever process moves when and whatever comes of its operations.
pub proof fn lemma_holds_throughout<R>(states: Seq<Ensemble<R>>, k: int)
    requires
        is_run(states),
        0 <= k < states.len(),
    ensures
        holds(states[k]),
    decreases k,
{
    if k == 0 {
        lemma_holds_at_start(states[0]);
    } else {
        lemma_holds_throughout(states, k - 1);
        assert(moved(states[k - 1], states[k - 1 + 1]));
        lemma_holds_after_move(states[k - 1], states[k]);
    }
}

/// The ordinals of a run are the numbers from 1 on, each held by one
/// process: the ordinals held so far are exactly 1 up to their number, there
/// are never more of them than processes, and no two processes hold the
/// same.
pub proof fn lemma_run_ordinals<R>(s: Ensemble<R>)
    requires
        holds(s),
    ensures
        occurrences(s.history, instance_seq_state()) <= s.drivers.len(),
        forall|p: int| #[trigger]
            holds_ordinal(s, p) ==> 0 <= p < s.drivers.len() && 1 <= s.drivers[p].seq
                <= occurrences(s.history, instance_seq_state()),
        forall|p: int, q: int|
            #[trigger] holds_ordinal(s, p) && #[trigger] holds_ordinal(s, q) && p != q
                ==> s.drivers[p].seq != s.drivers[q].seq,
        forall|value: u64| #[trigger]
            ordinal_held(s, value) <==> 1 <= value <= occurrences(s.history, instance_seq_state()),
{
    let name = instance_seq_state();
    let holders = announcers(s.history, s.who, name);
    lemma_counter_counts_processes(s.history, s.who, name);
    let everyone = vstd::set_lib::set_int_range(0, s.drivers.len() as int);
    vstd::set_lib::lemma_int_range(0, s.drivers.len() as int);
    assert(holders.subset_of(everyone));
    vstd::set_lib::lemma_len_subset(holders, everyone);
    lemma_ordinals_exact(s.history, name);
    assert forall|p: int| #[trigger] holds_ordinal(s, p) implies 0 <= p < s.drivers.len() && 1
        <= s.drivers[p].seq <= occurrences(s.history, name) by {
        let at = choose|at: int|
            0 <= at < s.history.len() && s.history[at] == name && #[trigger] s.who[at] == p;
        assert(crate::service::handed_out(s.history, name, reply_at(s.history, at)));
    }
    assert forall|p: int, q: int|
        #[trigger] holds_ordinal(s, p) && #[trigger] holds_ordinal(s, q) && p
            != q implies s.drivers[p].seq != s.drivers[q].seq by {
        let at_p = choose|at: int|
            0 <= at < s.history.len() && s.history[at] == name && #[trigger] s.who[at] == p;
        let at_q = choose|at: int|
            0 <= at < s.history.len() && s.history[at] == name && #[trigger] s.who[at] == q;
        if at_p < at_q {
            lemma_replies_distinct(s.history, at_p, at_q);
        } else {
            lemma_replies_distinct(s.history, at_q, at_p);
        }
    }
    assert forall|value: u64| #[trigger]
        ordinal_held(s, value) <==> 1 <= value <= occurrences(s.history, name) by {
        if 1 <= value <= occurrences(s.history, name) {
            assert(crate::service::handed_out(s.history, name, value as nat));
            let at = choose|at: int|
                0 <= at < s.history.len() && s.history[at] == name && #[trigger] reply_at(
                    s.history,
                    at,
                ) == value as nat;
            assert(holds_ordinal(s, s.who[at]));
        }
    }
}

/// When every process of a run holds an ordinal, the ordinals are exactly
/// the numbers from 1 to the number of processes.
pub proof fn lemma_run_ordinals_complete<R>(s: Ensemble<R>)
    requires
        holds(s),
        forall|p: int| 0 <= p < s.drivers.len() ==> #[trigger] holds_ordinal(s, p),
    ensures
        forall|value: u64| #[trigger] ordinal_held(s, value) <==> 1 <= value <= s.drivers.len(),
{
    let name = instance_seq_state();
    let holders = announcers(s.history, s.who, name);
    let everyone = vstd::set_lib::set_int_range(0, s.drivers.len() as int);
    lemma_counter_counts_processes(s.history, s.who, name);
    vstd::set_lib::lemma_int_range(0, s.drivers.len() as int);
    assert(holders =~= everyone) by {
        assert forall|p: int| everyone.contains(p) implies holders.contains(p) by {
            assert(holds_ordinal(s, p));
        }
    }
    lemma_run_ordinals(s);
}

/// Every process of a run collects the same records. Two processes whose
/// exchange is complete hold the same records in the same order: as many as
/// the run has processes, no two of them alike, and the own record of every
/// process among them.
pub proof fn lemma_run_rendezvous<R>(s: Ensemble<R>, p: int, q: int)
    requires
        holds(s),
        0 <= p < s.drivers.len(),
        0 <= q < s.drivers.len(),
        s.drivers[p].exchange.phase is Complete,
        s.drivers[q].exchange.phase is Complete,
    ensures
        s.drivers[p].peers() == s.drivers[q].peers(),
        s.drivers[p].peers() == s.topic,
        s.drivers[p].peers().len() == s.drivers.len(),
        s.drivers[p].peers().no_duplicates(),
        forall|r: int|
            0 <= r < s.drivers.len() ==> (#[trigger] s.drivers[r]).local is Some
                && s.drivers[p].peers().contains(s.drivers[r].local->0),
{
    let n = s.drivers.len() as int;
    assert(s.drivers[p].wf() && s.drivers[q].wf());
    assert(topic_kept(s));
    // No process publishes twice, so the topic holds one record of each.
    let names = s.publishers.to_set();
    let everyone = vstd::set_lib::set_int_range(0, n);
    vstd::set_lib::lemma_int_range(0, n);
    assert(s.publishers.no_duplicates());
    s.publishers.unique_seq_to_set();
    vstd::seq_lib::seq_to_set_is_finite(s.publishers);
    assert(names.subset_of(everyone)) by {
        assert forall|r: int| names.contains(r) implies everyone.contains(r) by {
            let at = choose|at: int| 0 <= at < s.publishers.len() && s.publishers[at] == r;
            assert(0 <= s.publishers[at] < n);
        }
    }
    vstd::set_lib::lemma_len_subset(names, everyone);
    assert(s.topic.len() == n);
    assert(s.topic.take(n) == s.topic);
    vstd::set_lib::lemma_subset_equality(names, everyone);
    assert forall|r: int| 0 <= r < n implies (#[trigger] s.drivers[r]).local is Some
        && s.drivers[p].peers().contains(s.drivers[r].local->0) by {
        assert(everyone.contains(r));
        assert(names.contains(r));
        let at = choose|at: int| 0 <= at < s.publishers.len() && s.publishers[at] == r;
        assert(s.drivers[s.publishers[at]].local == Some(s.topic[at]));
        assert(s.topic[at] == s.drivers[r].local->0);
    }
    // The publishers hold different ordinals, so their records differ.
    lemma_run_ordinals(s);
    assert forall|first: int, second: int|
        0 <= first < s.topic.len() && 0 <= second < s.topic.len() && first
            != second implies s.topic[first] != s.topic[second] by {
        let one = s.publishers[first];
        let other = s.publishers[second];
        assert(one != other);
        assert(s.drivers[one].local == Some(s.topic[first]));
        assert(s.drivers[other].local == Some(s.topic[second]));
        assert(s.drivers[one].wf() && s.drivers[other].wf());
        assert(holds_ordinal(s, one) && holds_ordinal(s, other));
        assert(s.topic[first].seq == s.drivers[one].seq);
        assert(s.topic[second].seq == s.drivers[other].seq);
    }
}

/// A barrier holds everyone until everyone is there. When some process has
/// passed the barrier of a checkpoint, every process of the run has announced
/// that checkpoint, and none of them is still in a phase before it. So as
/// long as one process has not arrived, no process gets past the barrier.
pub proof fn lemma_run_barrier<R>(s: Ensemble<R>, checkpoint: Checkpoint, p: int, q: int)
    requires
        holds(s),
        checkpoint != Checkpoint::NetworkConfigured,
        0 <= p < s.drivers.len(),
        0 <= q < s.drivers.len(),
    ensures
        has_passed(s.drivers[p], checkpoint) ==> has_announced(s, q, checkpoint) && barrier_order(
            checkpoint,
        ) <= phase_order(s.drivers[q].phase),
        phase_order(s.drivers[q].phase) < barrier_order(checkpoint) ==> !has_passed(
            s.drivers[p],
            checkpoint,
        ),
{
    let name = checkpoint.spec_name();
    assert(barrier_kept(s, checkpoint));
    if has_passed(s.drivers[p], checkpoint) {
        assert(released(s.history, name, s.drivers.len() as u64));
        lemma_barrier_waits_for_everyone(s.history, s.who, name, s.drivers.len() as u64, q);
        let at = choose|at: int|
            0 <= at < s.history.len() && s.history[at] == name && #[trigger] s.who[at] == q;
        assert(barrier_order(checkpoint) <= phase_order(s.drivers[s.who[at]].phase));
    }
}

/// Connections are established before anybody goes on. When some process
/// has passed the barrier that ends connection establishment, every process
/// holds all records of the run, and the coordinator has no query left to
/// send: it has asked for each or given the run up.
pub proof fn lemma_run_connections_established<R>(s: Ensemble<R>, p: int, q: int)
    requires
        holds(s),
        0 <= p < s.drivers.len(),
        0 <= q < s.drivers.len(),
        has_passed(s.drivers[p], Checkpoint::ConnectionsEstablished),
    ensures
        !(s.drivers[q].phase is Allocating),
        !(s.drivers[q].phase is StartingEngine),
        !(s.drivers[q].phase is ArmingWatcher),
        !(s.drivers[q].phase is Exchanging),
        !(s.drivers[q].phase is Querying),
        !(s.drivers[q].phase is Failed) ==> s.drivers[q].peers() == s.topic
            && s.drivers[q].peers().len() == s.drivers.len(),
{
    lemma_run_barrier(s, Checkpoint::ConnectionsEstablished, p, q);
    assert(s.drivers[q].wf());
    if !(s.drivers[q].phase is Failed) {
        assert(s.drivers[p].wf());
        lemma_run_rendezvous(s, p, q);
    }
}

} // verus!
