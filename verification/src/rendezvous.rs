//! Publish-and-collect: broadcast one record, collect exactly as many as the
//! run has processes.
//!
//! The exchange publishes the caller's record on a topic, subscribes to the
//! topic from its beginning and takes records until the expected number has
//! arrived. It looks at no record: nothing is filtered, reordered or dropped.
//! If the feed ends or fails before that, the exchange has failed for good.

use vstd::prelude::*;

verus! {

/// The name of the topic on which the records of a run are exchanged.
pub open spec fn record_topic() -> Seq<char> {
    "publish_and_collect"@
}

/// The name of the topic on which the records of a run are exchanged.
pub fn record_topic_name() -> (name: &'static str)
    ensures
        name@ == record_topic(),
{
    "publish_and_collect"
}

/// Why an exchange failed.
#[derive(Clone, Copy, Debug, PartialEq, Eq, Structural)]
pub enum ExchangeError {
    /// The record could not be published or the topic not be subscribed to.
    Unreachable,
    /// The feed ended or failed before all records had arrived.
    Incomplete,
    /// An event arrived that does not answer the operation that was due.
    OutOfTurn,
}

/// Where an exchange stands.
#[derive(Clone, Copy, Debug, PartialEq, Eq, Structural)]
pub enum ExchangePhase {
    /// Waiting for the own record to be published.
    Publishing,
    /// Waiting for the subscription to the topic.
    Subscribing,
    /// Waiting for the next record.
    Collecting,
    /// All records have arrived.
    Complete,
    /// The exchange failed.
    Failed { error: ExchangeError },
}

/// The operation an exchange asks for.
#[derive(Clone, Copy, Debug, PartialEq, Eq, Structural)]
pub enum ExchangeAction {
    /// Publish the caller's record on the topic.
    Publish,
    /// Subscribe to the topic from its first record.
    Subscribe,
    /// Take the next record from the subscription.
    AwaitRecord,
    /// Nothing is left to do: the records are complete.
    Finish,
    /// Nothing is left to do: the exchange failed.
    Abort { error: ExchangeError },
}

/// What came of the operation that was due.
pub enum ExchangeEvent<T> {
    /// The operation completed and has nothing more to report.
    Completed,
    /// A record arrived from the topic.
    Received { record: T },
    /// The operation failed; for an awaited record also: the feed ended.
    Failed,
}

/// The state of an exchange, as contracts see it.
pub struct ExchangeState<T> {
    /// The number of records to collect.
    pub expected: u64,
    /// The operation the exchange waits for.
    pub phase: ExchangePhase,
    /// The records collected so far, in order of arrival.
    pub collected: Seq<T>,
}

/// The phase of an exchange that is subscribed and holds `collected` records
/// of `expected`.
pub open spec fn phase_with(collected: nat, expected: u64) -> ExchangePhase {
    if collected < expected {
        ExchangePhase::Collecting
    } else {
        ExchangePhase::Complete
    }
}

/// The state of an exchange that has not seen any event yet.
pub open spec fn exchange_initial<T>(expected: u64) -> ExchangeState<T> {
    ExchangeState { expected, phase: ExchangePhase::Publishing, collected: Seq::empty() }
}

/// The operation that is due in a state.
pub open spec fn exchange_pending<T>(s: ExchangeState<T>) -> ExchangeAction {
    match s.phase {
        ExchangePhase::Publishing => ExchangeAction::Publish,
        ExchangePhase::Subscribing => ExchangeAction::Subscribe,
        ExchangePhase::Collecting => ExchangeAction::AwaitRecord,
        ExchangePhase::Complete => ExchangeAction::Finish,
        ExchangePhase::Failed { error } => ExchangeAction::Abort { error },
    }
}

/// The transition function of the exchange.
///
/// A complete or failed exchange stays as it is. Publishing and subscribing
/// either complete or fail the exchange as unreachable. Each record that
/// arrives is appended; the exchange is complete with the record that makes
/// the count full. A failure while collecting leaves the exchange incomplete
/// for good. Any other event fails it as out of turn.
pub open spec fn exchange_next<T>(s: ExchangeState<T>, e: ExchangeEvent<T>) -> ExchangeState<T> {
    match (s.phase, e) {
        (ExchangePhase::Complete, _) => s,
        (ExchangePhase::Failed { .. }, _) => s,
        (ExchangePhase::Publishing, ExchangeEvent::Completed) => ExchangeState {
            phase: ExchangePhase::Subscribing,
            ..s
        },
        (ExchangePhase::Subscribing, ExchangeEvent::Completed) => ExchangeState {
            phase: phase_with(s.collected.len(), s.expected),
            ..s
        },
        (ExchangePhase::Collecting, ExchangeEvent::Received { record }) => ExchangeState {
            phase: phase_with(s.collected.len() + 1, s.expected),
            collected: s.collected.push(record),
            ..s
        },
        (ExchangePhase::Publishing, ExchangeEvent::Failed) => ExchangeState {
            phase: ExchangePhase::Failed { error: ExchangeError::Unreachable },
            ..s
        },
        (ExchangePhase::Subscribing, ExchangeEvent::Failed) => ExchangeState {
            phase: ExchangePhase::Failed { error: ExchangeError::Unreachable },
            ..s
        },
        (ExchangePhase::Collecting, ExchangeEvent::Failed) => ExchangeState {
            phase: ExchangePhase::Failed { error: ExchangeError::Incomplete },
            ..s
        },
        _ => ExchangeState { phase: ExchangePhase::Failed { error: ExchangeError::OutOfTurn }, ..s },
    }
}

impl<T> ExchangeState<T> {
    /// The states an exchange can be in: nothing is collected before the
    /// subscription stands, records are awaited only while some are missing,
    /// and a complete exchange holds exactly the expected number.
    pub open spec fn wf(self) -> bool {
        &&& self.collected.len() <= self.expected
        &&& match self.phase {
            ExchangePhase::Publishing | ExchangePhase::Subscribing => self.collected.len() == 0,
            ExchangePhase::Collecting => self.collected.len() < self.expected,
            ExchangePhase::Complete => self.collected.len() == self.expected,
            ExchangePhase::Failed { .. } => true,
        }
    }
}

/// The state after the records of `feed` arrived one by one.
pub open spec fn exchange_after<T>(s: ExchangeState<T>, feed: Seq<T>) -> ExchangeState<T>
    decreases feed.len(),
{
    if feed.len() == 0 {
        s
    } else {
        exchange_after(
            exchange_next(s, ExchangeEvent::Received { record: feed[0] }),
            feed.skip(1),
        )
    }
}

/// The state of an exchange of `expected` records once its record is
/// published and the topic subscribed to.
pub open spec fn exchange_subscribed<T>(expected: u64) -> ExchangeState<T> {
    exchange_next(
        exchange_next(exchange_initial(expected), ExchangeEvent::Completed),
        ExchangeEvent::Completed,
    )
}

/// Every transition leads from a valid state to a valid state and keeps the
/// number of records to collect.
pub proof fn lemma_exchange_next_preserves_wf<T>(s: ExchangeState<T>, e: ExchangeEvent<T>)
    requires
        s.wf(),
    ensures
        exchange_next(s, e).wf(),
        exchange_next(s, e).expected == s.expected,
{
}

/// An exchange that is collecting takes the records of a feed in the order of
/// their arrival, up to the number that is still missing, and ignores what
/// comes after.
pub proof fn lemma_exchange_takes_prefix<T>(s: ExchangeState<T>, feed: Seq<T>)
    requires
        s.wf(),
        s.phase is Collecting || s.phase is Complete,
    ensures
        ({
            let missing = s.expected - s.collected.len();
            let taken = if feed.len() <= missing {
                feed
            } else {
                feed.take(missing)
            };
            let after = exchange_after(s, feed);
            &&& after.expected == s.expected
            &&& after.collected == s.collected + taken
            &&& after.phase == phase_with(after.collected.len(), s.expected)
        }),
    decreases feed.len(),
{
    let missing = s.expected - s.collected.len();
    if feed.len() == 0 {
        assert(s.collected + feed == s.collected);
    } else {
        let first = ExchangeEvent::Received { record: feed[0] };
        let mid = exchange_next(s, first);
        let rest = feed.skip(1);
        lemma_exchange_takes_prefix(mid, rest);
        if missing == 0 {
            assert(feed.take(0) == Seq::<T>::empty());
            assert(rest.len() > 0 ==> rest.take(0) == Seq::<T>::empty());
            assert(s.collected + Seq::<T>::empty() == s.collected);
        } else {
            let rest_taken = if rest.len() <= missing - 1 {
                rest
            } else {
                rest.take(missing - 1)
            };
            let taken = if feed.len() <= missing {
                feed
            } else {
                feed.take(missing)
            };
            assert(taken == seq![feed[0]] + rest_taken);
            assert(s.collected.push(feed[0]) + rest_taken == s.collected + taken);
        }
    }
}

/// The result of a rendezvous is the head of the topic: with at least
/// `expected` records on the feed the exchange completes with exactly the
/// first `expected` of them, in order.
pub proof fn lemma_rendezvous_collects_head<T>(expected: u64, feed: Seq<T>)
    requires
        feed.len() >= expected,
    ensures
        exchange_after(exchange_subscribed(expected), feed).phase is Complete,
        exchange_after(exchange_subscribed(expected), feed).collected == feed.take(expected as int),
{
    let s = exchange_subscribed::<T>(expected);
    lemma_exchange_takes_prefix(s, feed);
    assert(feed.len() == expected ==> feed.take(expected as int) == feed);
    assert(Seq::<T>::empty() + feed.take(expected as int) == feed.take(expected as int));
}

/// Every caller of a rendezvous gets the same records: two exchanges of the
/// same size that read feeds with the same first `expected` records complete
/// with identical results.
pub proof fn lemma_rendezvous_agrees<T>(expected: u64, feed_a: Seq<T>, feed_b: Seq<T>)
    requires
        feed_a.len() >= expected,
        feed_b.len() >= expected,
        feed_a.take(expected as int) == feed_b.take(expected as int),
    ensures
        exchange_after(exchange_subscribed(expected), feed_a) == exchange_after(
            exchange_subscribed(expected),
            feed_b,
        ),
        exchange_after(exchange_subscribed(expected), feed_a).collected.len() == expected,
{
    lemma_rendezvous_collects_head(expected, feed_a);
    lemma_rendezvous_collects_head(expected, feed_b);
    lemma_exchange_takes_prefix(exchange_subscribed::<T>(expected), feed_a);
    lemma_exchange_takes_prefix(exchange_subscribed::<T>(expected), feed_b);
}

/// When as many processes as the run has publish one record each and every
/// one of them collects, every caller holds exactly the published records,
/// each once and in the order of publication, whenever it reads the topic
/// and whatever was published after them.
pub proof fn lemma_rendezvous_of_all<T>(published: Seq<T>, later: Seq<T>)
    requires
        published.len() <= u64::MAX,
    ensures
        exchange_after(exchange_subscribed(published.len() as u64), published + later).phase
            is Complete,
        exchange_after(exchange_subscribed(published.len() as u64), published + later).collected
            == published,
{
    let expected = published.len() as u64;
    lemma_rendezvous_collects_head(expected, published + later);
    assert((published + later).take(expected as int) == published);
}

/// With fewer records on the feed than expected the exchange does not
/// complete: it still waits, and fails as incomplete when the feed ends.
pub proof fn lemma_rendezvous_needs_all<T>(expected: u64, feed: Seq<T>)
    requires
        feed.len() < expected,
    ensures
        exchange_after(exchange_subscribed(expected), feed).phase is Collecting,
        exchange_next(
            exchange_after(exchange_subscribed(expected), feed),
            ExchangeEvent::Failed,
        ).phase == (ExchangePhase::Failed { error: ExchangeError::Incomplete }),
{
    lemma_exchange_takes_prefix(exchange_subscribed::<T>(expected), feed);
}

/// One publish-and-collect exchange: the executable form of
/// [`exchange_next`].
pub struct Rendezvous<T> {
    expected: u64,
    phase: ExchangePhase,
    collected: Vec<T>,
}

impl<T> View for Rendezvous<T> {
    type V = ExchangeState<T>;

    closed spec fn view(&self) -> ExchangeState<T> {
        ExchangeState { expected: self.expected, phase: self.phase, collected: self.collected@ }
    }
}

impl<T> Rendezvous<T> {
    #[verifier::type_invariant]
    spec fn valid(self) -> bool {
        self@.wf()
    }

    /// An exchange that is to collect `expected` records. The first
    /// operation it asks for is the publication of the caller's record.
    pub fn new(expected: u64) -> (r: Self)
        ensures
            r@ == exchange_initial::<T>(expected),
            r@.wf(),
    {
        Rendezvous { expected, phase: ExchangePhase::Publishing, collected: Vec::new() }
    }

    /// The operation that is due.
    pub fn pending(&self) -> (action: ExchangeAction)
        ensures
            action == exchange_pending(self@),
    {
        match self.phase {
            ExchangePhase::Publishing => ExchangeAction::Publish,
            ExchangePhase::Subscribing => ExchangeAction::Subscribe,
            ExchangePhase::Collecting => ExchangeAction::AwaitRecord,
            ExchangePhase::Complete => ExchangeAction::Finish,
            ExchangePhase::Failed { error } => ExchangeAction::Abort { error },
        }
    }

    /// Takes in what came of the pending operation and moves to the state
    /// that [`exchange_next`] gives.
    pub fn step(self, event: ExchangeEvent<T>) -> (r: Self)
        ensures
            r@ == exchange_next(self@, event),
            r@.wf(),
    {
        proof {
            use_type_invariant(&self);
        }
        let ghost before = self@;
        let Rendezvous { expected, phase, collected } = self;
        let mut collected = collected;
        let phase = match phase {
            ExchangePhase::Complete => ExchangePhase::Complete,
            ExchangePhase::Failed { error } => ExchangePhase::Failed { error },
            ExchangePhase::Publishing => match event {
                ExchangeEvent::Completed => ExchangePhase::Subscribing,
                ExchangeEvent::Failed => ExchangePhase::Failed { error: ExchangeError::Unreachable },
                _ => ExchangePhase::Failed { error: ExchangeError::OutOfTurn },
            },
            ExchangePhase::Subscribing => match event {
                ExchangeEvent::Completed => if (collected.len() as u64) < expected {
                    ExchangePhase::Collecting
                } else {
                    ExchangePhase::Complete
                },
                ExchangeEvent::Failed => ExchangePhase::Failed { error: ExchangeError::Unreachable },
                _ => ExchangePhase::Failed { error: ExchangeError::OutOfTurn },
            },
            ExchangePhase::Collecting => match event {
                ExchangeEvent::Received { record } => {
                    collected.push(record);
                    if (collected.len() as u64) < expected {
                        ExchangePhase::Collecting
                    } else {
                        ExchangePhase::Complete
                    }
                },
                ExchangeEvent::Failed => ExchangePhase::Failed { error: ExchangeError::Incomplete },
                _ => ExchangePhase::Failed { error: ExchangeError::OutOfTurn },
            },
        };
        proof {
            lemma_exchange_next_preserves_wf(before, event);
        }
        Rendezvous { expected, phase, collected }
    }

    /// The records an exchange holds can be counted on this machine.
    pub proof fn lemma_fits_memory(&self)
        ensures
            self@.collected.len() <= usize::MAX,
    {
        assert(self.collected.len() == self.collected@.len());
    }

    /// Where the exchange stands.
    pub fn phase(&self) -> (phase: ExchangePhase)
        ensures
            phase == self@.phase,
    {
        self.phase
    }

    /// The records collected so far, in order of arrival.
    pub fn collected(&self) -> (records: &Vec<T>)
        ensures
            records@ == self@.collected,
    {
        &self.collected
    }

    /// Ends the exchange and hands out its result: all records once the
    /// exchange is complete, the error of a failed exchange, and
    /// `Incomplete` while records are still missing.
    pub fn into_records(self) -> (result: Result<Vec<T>, ExchangeError>)
        ensures
            match result {
                Ok(records) => self@.phase is Complete && records@ == self@.collected
                    && records@.len() == self@.expected,
                Err(error) => match self@.phase {
                    ExchangePhase::Complete => false,
                    ExchangePhase::Failed { error: e } => error == e,
                    _ => error == ExchangeError::Incomplete,
                },
            },
    {
        proof {
            use_type_invariant(&self);
        }
        match self.phase {
            ExchangePhase::Complete => Ok(self.collected),
            ExchangePhase::Failed { error } => Err(error),
            _ => Err(ExchangeError::Incomplete),
        }
    }
}

} // verus!
